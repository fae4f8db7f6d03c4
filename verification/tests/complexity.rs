use cost_autopilot::complexity::{analyze_lowered, contains_word};
use cost_autopilot::units::RATIO_ONE;
use cost_autopilot::{analyze, Ratio};

#[test]
fn trivial_greeting_has_low_complexity() {
    let result = analyze("Salut, ça va ?");
    assert!(
        result.score < Ratio::percent(20),
        "score inattendu : {:?}",
        result.score
    );
}

#[test]
fn code_debugging_request_is_flagged_complex() {
    let prompt = "Debug ce code étape par étape et explique pourquoi ça plante :\n```rust\nfn main() { panic!(); }\n```";
    let result = analyze(prompt);
    assert!(
        result.score > Ratio::percent(40),
        "score inattendu : {:?}",
        result.score
    );
    assert!(result.triggered_signals().contains(&"bloc_de_code"));
    assert!(result.triggered_signals().contains(&"mot_cle_raisonnement"));
}

#[test]
fn multiple_questions_increase_score() {
    let single = analyze("Quelle est la capitale de la France ?");
    let multi = analyze(
        "Quelle est la capitale de la France ? Et celle de l'Allemagne ? Et celle de l'Espagne ?",
    );
    assert!(multi.score > single.score);
}

#[test]
fn score_is_always_bounded() {
    let huge = "explique pourquoi step by step ```code``` ".repeat(500) + "??? 1+1=2 *";
    let result = analyze(&huge);
    assert!(result.score <= Ratio::one());
    assert!(result.score >= Ratio::percent(0));
}

#[test]
fn empty_prompt_has_zero_complexity() {
    let result = analyze("");
    assert_eq!(result.score, Ratio::percent(0));
}

#[test]
fn numeric_heavy_prompt_is_flagged() {
    let result = analyze("2+2=4, 3*3=9, 10/2=5, 7-1=6");
    assert!(result.triggered_signals().contains(&"densite_numerique"));
}

#[test]
fn common_word_containing_a_keyword_substring_does_not_falsely_trigger() {
    let result = analyze("Can you improve this a bit? Je reste dans l'optimisme.");
    assert!(
        !result.triggered_signals().contains(&"mot_cle_raisonnement"),
        "faux positif : {:?}",
        result.signals
    );
}

#[test]
fn actual_reasoning_keyword_still_triggers_at_a_word_boundary() {
    let result = analyze("Please prove this theorem.");
    assert!(result.triggered_signals().contains(&"mot_cle_raisonnement"));

    let result = analyze("prove");
    assert!(result.triggered_signals().contains(&"mot_cle_raisonnement"));

    let result = analyze("Explique pourquoi le ciel est bleu.");
    assert!(result.triggered_signals().contains(&"mot_cle_raisonnement"));
}

#[test]
fn keywords_are_found_in_any_case() {
    for prompt in ["PROVE", "ÉTAPE PAR ÉTAPE", "Root Cause"] {
        assert_eq!(
            analyze(prompt).triggered_signals(),
            vec!["mot_cle_raisonnement"]
        );
    }
}

#[test]
fn word_boundaries_know_letters_outside_ascii() {
    assert!(!contains_word("éprove", "prove"));
    assert!(!contains_word("proveé", "prove"));
    assert!(contains_word("« prove »", "prove"));
    assert!(contains_word("improve, prove", "prove"));
    assert!(!contains_word("prove9", "prove"));
    // A keyword that starts with a character of two bytes, inside a word first.
    assert!(!contains_word("xétape par étape", "étape par étape"));
    assert!(contains_word(
        "xétape par étape puis étape par étape",
        "étape par étape"
    ));
}

#[test]
fn each_signal_has_its_weight() {
    let percent = |p: u8| Ratio::percent(p);
    assert_eq!(analyze("```").score, percent(20));
    assert_eq!(analyze("debug").score, percent(25));
    assert_eq!(analyze("un ? deux ?").score, percent(15));
    assert_eq!(analyze("1+1=2").score, percent(10));
    // 201 tokens: 201 / 1500; from 450 tokens on: three tenths.
    assert_eq!(
        analyze(&"a".repeat(201 * 4)).score.units,
        201 * (RATIO_ONE / 1500)
    );
    assert_eq!(analyze(&"a".repeat(200 * 4)).score, percent(0));
    assert_eq!(analyze(&"a".repeat(2000 * 4)).score, percent(30));
    let everything = "debug ``` ? ? ".to_string() + &"1+".repeat(2000);
    assert_eq!(analyze(&everything).score, Ratio::one());
}

#[test]
fn indentation_counts_in_disjoint_runs_of_four_spaces() {
    let code = |n: usize| analyze(&" ".repeat(n)).triggered_signals() == vec!["bloc_de_code"];
    assert!(!code(15));
    assert!(code(16));
    assert!(!code(4 + 4 + 4 + 3));
}

#[test]
fn numeric_density_is_strict() {
    // 100 tokens, 15 digits: not above 15 for 100 tokens.
    let at = "1".repeat(15) + &"a".repeat(385);
    let above = "1".repeat(16) + &"a".repeat(384);
    assert!(analyze(&at).triggered_signals().is_empty());
    assert_eq!(analyze(&above).triggered_signals(), vec!["densite_numerique"]);
    assert_eq!(
        analyze(&("∑∫".to_string() + "aaaa")).triggered_signals(),
        vec!["densite_numerique"]
    );
}

#[test]
fn the_five_signals_are_always_listed() {
    let names: Vec<&str> = analyze("Salut").signals.iter().map(|s| s.name).collect();
    assert_eq!(
        names,
        vec![
            "longueur",
            "bloc_de_code",
            "mot_cle_raisonnement",
            "questions_multiples",
            "densite_numerique"
        ]
    );
}

#[test]
fn the_lower_case_is_what_is_searched_for_keywords() {
    let result = analyze_lowered("PROVE", "prove");
    assert_eq!(result.triggered_signals(), vec!["mot_cle_raisonnement"]);
    assert!(analyze_lowered("PROVE", "PROVE")
        .triggered_signals()
        .is_empty());
}
