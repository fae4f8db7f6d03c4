use cost_autopilot::text::truncate;
use cost_autopilot::{estimate_chat_tokens, estimate_tokens};

#[test]
fn empty_text_is_zero_tokens() {
    assert_eq!(estimate_tokens(""), 0);
}

#[test]
fn short_text_is_at_least_one_token() {
    assert_eq!(estimate_tokens("Hi"), 1);
}

#[test]
fn longer_text_scales_roughly_with_length() {
    let short = estimate_tokens("Bonjour le monde");
    let long = estimate_tokens(&"Bonjour le monde ".repeat(20));
    assert!(long > short * 10);
}

#[test]
fn estimate_is_monotonic_in_length() {
    let a = estimate_tokens("un texte court");
    let b = estimate_tokens("un texte un peu plus long que le precedent");
    assert!(b > a);
}

#[test]
fn chat_tokens_include_per_message_overhead() {
    let messages = [("user", "salut"), ("assistant", "bonjour")];
    let total = estimate_chat_tokens(&messages);
    let raw: usize = messages.iter().map(|(_, c)| estimate_tokens(c)).sum();
    assert!(
        total > raw,
        "l'overhead par message doit être compté en plus"
    );
}

#[test]
fn tokens_are_a_fourth_of_the_characters_rounded_up() {
    assert_eq!(estimate_tokens("abcd"), 1);
    assert_eq!(estimate_tokens("abcde"), 2);
    assert_eq!(estimate_tokens("abcdefgh"), 2);
    // Characters are counted, not bytes.
    assert_eq!(estimate_tokens("éééé"), 1);
}

#[test]
fn chat_tokens_add_four_for_each_message() {
    assert_eq!(estimate_chat_tokens(&[]), 0);
    assert_eq!(
        estimate_chat_tokens(&[("user", "salut"), ("assistant", "bonjour")]),
        2 + 4 + 2 + 4
    );
}

#[test]
fn truncation_keeps_a_prefix_and_an_ellipsis() {
    assert_eq!(truncate("court", 60), "court");
    assert_eq!(truncate("exact", 5), "exact");
    assert_eq!(truncate("étape par étape", 5), "étape…");
    assert_eq!(truncate("abc", 0), "…");
}
