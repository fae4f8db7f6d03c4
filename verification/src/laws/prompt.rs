//! The score of a prompt, character by character.

use crate::complexity::{
    alphanumeric, disjoint_count, explained_by, findings, has_word, is_numeric_char, numeric_chars,
    occurs, occurs_at, questions, score_of, triggered_names, word_at, word_char, ComplexitySignal,
    REASONING_KEYWORDS,
};
use crate::tokens::{chat_tokens, tokens_for};
use vstd::prelude::*;

verus! {

/// The number of tokens of a text is the least number of groups of four that hold
/// its characters.
pub proof fn law_four_characters_make_a_token(chars: nat)
    ensures
        4 * tokens_for(chars) >= chars,
        4 * tokens_for(chars) < chars + 4,
{
}

/// The estimate of a chat, message by message: each adds the tokens of its content
/// and four.
pub proof fn law_each_message_adds_its_tokens_and_four(
    messages: Seq<(&str, &str)>,
    role: &str,
    content: &str,
    tokens: nat,
)
    requires
        4 * tokens >= content@.len(),
        4 * tokens < content@.len() + 4,
    ensures
        messages.len() == 0 ==> chat_tokens(messages) == 0,
        chat_tokens(messages.push((role, content))) == chat_tokens(messages) + tokens + 4,
{
    assert(messages.push((role, content)).drop_last() =~= messages);
}

/// A letter or a digit.
pub open spec fn letter_or_digit(c: char) -> bool {
    ||| 'a' <= c <= 'z'
    ||| 'A' <= c <= 'Z'
    ||| '0' <= c <= '9'
    ||| c as u32 >= 128 && alphanumeric(c)
}

/// A phrase stands at place `i` of a text, neither preceded nor followed by a letter
/// or a digit.
pub open spec fn phrase_at(text: Seq<char>, phrase: Seq<char>, i: int) -> bool {
    &&& 0 <= i
    &&& i + phrase.len() <= text.len()
    &&& text.subrange(i, i + phrase.len()) == phrase
    &&& i > 0 ==> !letter_or_digit(text[i - 1])
    &&& i + phrase.len() < text.len() ==> !letter_or_digit(text[i + phrase.len()])
}

/// A phrase stands somewhere in a text, on its own.
pub open spec fn says(text: Seq<char>, phrase: Seq<char>) -> bool {
    exists|i: int| #[trigger] phrase_at(text, phrase, i)
}

/// A text says one of the phrases that ask for reasoning.
pub open spec fn asks_to_reason(text: Seq<char>) -> bool {
    ||| says(text, "explique pourquoi"@)
    ||| says(text, "explain why"@)
    ||| says(text, "step by step"@)
    ||| says(text, "étape par étape"@)
    ||| says(text, "prove"@)
    ||| says(text, "démontre"@)
    ||| says(text, "derive"@)
    ||| says(text, "dérive"@)
    ||| says(text, "algorithm"@)
    ||| says(text, "algorithme"@)
    ||| says(text, "architecture"@)
    ||| says(text, "optimi"@)
    ||| says(text, "debug"@)
    ||| says(text, "root cause"@)
    ||| says(text, "cause racine"@)
    ||| says(text, "trade-off"@)
    ||| says(text, "compromis"@)
    ||| says(text, "conçois un système"@)
    ||| says(text, "design a system"@)
}

proof fn lemma_says(text: Seq<char>, phrase: Seq<char>)
    ensures
        has_word(text, phrase) == says(text, phrase),
{
    assert forall|i: int| word_at(text, phrase, i) == phrase_at(text, phrase, i) by {}
    if has_word(text, phrase) {
        let i = choose|i: int| word_at(text, phrase, i);
        assert(phrase_at(text, phrase, i));
    }
    if says(text, phrase) {
        let i = choose|i: int| phrase_at(text, phrase, i);
        assert(word_at(text, phrase, i));
    }
}

proof fn lemma_asks_to_reason(text: Seq<char>)
    ensures
        crate::complexity::asks_for_reasoning(text) == asks_to_reason(text),
{
    assert forall|k: int| 0 <= k < 19 implies has_word(
        text,
        (#[trigger] REASONING_KEYWORDS@[k])@,
    ) == says(text, REASONING_KEYWORDS@[k]@) by {
        lemma_says(text, REASONING_KEYWORDS@[k]@);
    }
    assert(REASONING_KEYWORDS@.len() == 19);
    assert(REASONING_KEYWORDS@[0]@ == "explique pourquoi"@);
    assert(REASONING_KEYWORDS@[1]@ == "explain why"@);
    assert(REASONING_KEYWORDS@[2]@ == "step by step"@);
    assert(REASONING_KEYWORDS@[3]@ == "étape par étape"@);
    assert(REASONING_KEYWORDS@[4]@ == "prove"@);
    assert(REASONING_KEYWORDS@[5]@ == "démontre"@);
    assert(REASONING_KEYWORDS@[6]@ == "derive"@);
    assert(REASONING_KEYWORDS@[7]@ == "dérive"@);
    assert(REASONING_KEYWORDS@[8]@ == "algorithm"@);
    assert(REASONING_KEYWORDS@[9]@ == "algorithme"@);
    assert(REASONING_KEYWORDS@[10]@ == "architecture"@);
    assert(REASONING_KEYWORDS@[11]@ == "optimi"@);
    assert(REASONING_KEYWORDS@[12]@ == "debug"@);
    assert(REASONING_KEYWORDS@[13]@ == "root cause"@);
    assert(REASONING_KEYWORDS@[14]@ == "cause racine"@);
    assert(REASONING_KEYWORDS@[15]@ == "trade-off"@);
    assert(REASONING_KEYWORDS@[16]@ == "compromis"@);
    assert(REASONING_KEYWORDS@[17]@ == "conçois un système"@);
    assert(REASONING_KEYWORDS@[18]@ == "design a system"@);
}

/// Four spaces stand at place `i`.
pub open spec fn four_spaces_at(text: Seq<char>, i: int) -> bool {
    &&& 0 <= i
    &&& i + 4 <= text.len()
    &&& text[i] == ' '
    &&& text[i + 1] == ' '
    &&& text[i + 2] == ' '
    &&& text[i + 3] == ' '
}

/// Four runs of four spaces stand in a text, one after the other.
pub open spec fn four_indents(text: Seq<char>) -> bool {
    exists|a: int, b: int, c: int, d: int|
        #![trigger four_spaces_at(text, a), four_spaces_at(text, b), four_spaces_at(text, c), four_spaces_at(text, d)]
        {
            &&& a + 4 <= b
            &&& b + 4 <= c
            &&& c + 4 <= d
            &&& four_spaces_at(text, a)
            &&& four_spaces_at(text, b)
            &&& four_spaces_at(text, c)
            &&& four_spaces_at(text, d)
        }
}

/// Three backquotes stand somewhere in a text.
pub open spec fn fenced(text: Seq<char>) -> bool {
    exists|i: int|
        0 <= i && i + 3 <= text.len() && #[trigger] text[i] == '`' && text[i + 1] == '`' && text[i
            + 2] == '`'
}

spec fn apart(places: Seq<int>, size: int) -> bool {
    forall|i: int, j: int|
        0 <= i < j < places.len() ==> (#[trigger] places[i]) + size <= (#[trigger] places[j])
}

proof fn lemma_greedy_is_best(s: Seq<char>, pattern: Seq<char>, from: int, places: Seq<int>)
    requires
        pattern.len() > 0,
        0 <= from,
        apart(places, pattern.len() as int),
        forall|i: int| 0 <= i < places.len() ==> occurs_at(s, pattern, #[trigger] places[i]),
        places.len() > 0 ==> places[0] >= from,
    ensures
        disjoint_count(s, pattern, from) >= places.len(),
    decreases s.len() - from,
{
    if places.len() > 0 {
        assert(occurs_at(s, pattern, places[0]));
        if occurs_at(s, pattern, from) {
            let rest = places.drop_first();
            assert forall|i: int| 0 <= i < rest.len() implies occurs_at(
                s,
                pattern,
                #[trigger] rest[i],
            ) by {
                assert(rest[i] == places[i + 1]);
            }
            assert forall|i: int, j: int| 0 <= i < j < rest.len() implies (#[trigger] rest[i])
                + pattern.len() <= (#[trigger] rest[j]) by {
                assert(places[i + 1] + pattern.len() <= places[j + 1]);
            }
            if rest.len() > 0 {
                assert(places[0] + pattern.len() <= places[1]);
            }
            lemma_greedy_is_best(s, pattern, from + pattern.len(), rest);
        } else {
            lemma_greedy_is_best(s, pattern, from + 1, places);
        }
    }
}

proof fn lemma_greedy_places(s: Seq<char>, pattern: Seq<char>, from: int) -> (places: Seq<int>)
    requires
        pattern.len() > 0,
        0 <= from,
    ensures
        places.len() == disjoint_count(s, pattern, from),
        apart(places, pattern.len() as int),
        forall|i: int|
            0 <= i < places.len() ==> occurs_at(s, pattern, #[trigger] places[i]) && places[i]
                >= from,
    decreases s.len() - from,
{
    if from + pattern.len() > s.len() {
        Seq::empty()
    } else if occurs_at(s, pattern, from) {
        let rest = lemma_greedy_places(s, pattern, from + pattern.len());
        let places = seq![from] + rest;
        assert forall|i: int, j: int| 0 <= i < j < places.len() implies (#[trigger] places[i])
            + pattern.len() <= (#[trigger] places[j]) by {
            if i > 0 {
                assert(rest[i - 1] + pattern.len() <= rest[j - 1]);
            } else {
                assert(rest[j - 1] >= from + pattern.len());
            }
        }
        assert forall|i: int| 0 <= i < places.len() implies occurs_at(
            s,
            pattern,
            #[trigger] places[i],
        ) && places[i] >= from by {
            if i > 0 {
                assert(places[i] == rest[i - 1]);
            }
        }
        places
    } else {
        lemma_greedy_places(s, pattern, from + 1)
    }
}

proof fn lemma_code(text: Seq<char>)
    ensures
        crate::complexity::looks_like_code(text) == (fenced(text) || four_indents(text)),
{
    let fence = "```"@;
    let indent = "    "@;
    reveal_strlit("```");
    reveal_strlit("    ");
    assert(fence =~= seq!['`', '`', '`']);
    assert(indent =~= seq![' ', ' ', ' ', ' ']);
    if occurs(text, fence) {
        let i = choose|i: int| occurs_at(text, fence, i);
        assert(text.subrange(i, i + 3)[0] == text[i]);
        assert(text.subrange(i, i + 3)[1] == text[i + 1]);
        assert(text.subrange(i, i + 3)[2] == text[i + 2]);
        assert(fenced(text));
    }
    if fenced(text) {
        let i = choose|i: int|
            0 <= i && i + 3 <= text.len() && #[trigger] text[i] == '`' && text[i + 1] == '`'
                && text[i + 2] == '`';
        assert(text.subrange(i, i + 3) =~= fence);
        assert(occurs_at(text, fence, i));
    }
    assert forall|i: int| #[trigger] occurs_at(text, indent, i) == four_spaces_at(text, i) by {
        if occurs_at(text, indent, i) {
            assert(text.subrange(i, i + 4)[0] == text[i]);
            assert(text.subrange(i, i + 4)[1] == text[i + 1]);
            assert(text.subrange(i, i + 4)[2] == text[i + 2]);
            assert(text.subrange(i, i + 4)[3] == text[i + 3]);
        }
        if four_spaces_at(text, i) {
            assert(text.subrange(i, i + 4) =~= indent);
        }
    }
    if disjoint_count(text, indent, 0) > 3 {
        let places = lemma_greedy_places(text, indent, 0);
        assert(occurs_at(text, indent, places[0]));
        assert(occurs_at(text, indent, places[1]));
        assert(occurs_at(text, indent, places[2]));
        assert(occurs_at(text, indent, places[3]));
        assert(four_spaces_at(text, places[0]) && four_spaces_at(text, places[1])
            && four_spaces_at(text, places[2]) && four_spaces_at(text, places[3]));
        assert(four_indents(text));
    }
    if four_indents(text) {
        let (a, b, c, d) = choose|a: int, b: int, c: int, d: int|
            #![trigger four_spaces_at(text, a), four_spaces_at(text, b), four_spaces_at(text, c), four_spaces_at(text, d)]
            {
                &&& a + 4 <= b
                &&& b + 4 <= c
                &&& c + 4 <= d
                &&& four_spaces_at(text, a)
                &&& four_spaces_at(text, b)
                &&& four_spaces_at(text, c)
                &&& four_spaces_at(text, d)
            };
        let places = seq![a, b, c, d];
        assert(occurs_at(text, indent, a));
        assert(occurs_at(text, indent, b));
        assert(occurs_at(text, indent, c));
        assert(occurs_at(text, indent, d));
        lemma_greedy_is_best(text, indent, 0, places);
    }
}

/// A question mark stands at place `i`.
pub open spec fn asks_at(text: Seq<char>, i: int) -> bool {
    0 <= i < text.len() && text[i] == '?'
}

proof fn lemma_questions(text: Seq<char>)
    ensures
        questions(text) >= 1 <==> exists|i: int| #[trigger] asks_at(text, i),
        questions(text) >= 2 <==> exists|i: int, j: int|
            i < j && #[trigger] asks_at(text, i) && #[trigger] asks_at(text, j),
    decreases text.len(),
{
    reveal(Seq::filter);
    if text.len() > 0 {
        let rest = text.drop_last();
        let last = text.len() - 1;
        lemma_questions(rest);
        assert forall|i: int| i < last implies #[trigger] asks_at(text, i) == asks_at(rest, i) by {}
        if text.last() == '?' {
            assert(asks_at(text, last));
            if questions(rest) >= 1 {
                let i = choose|i: int| #[trigger] asks_at(rest, i);
                assert(asks_at(text, i));
            }
        }
        if questions(rest) >= 1 {
            let i = choose|i: int| #[trigger] asks_at(rest, i);
            assert(asks_at(text, i));
        }
        if questions(rest) >= 2 {
            let (i, j) = choose|i: int, j: int|
                i < j && #[trigger] asks_at(rest, i) && #[trigger] asks_at(rest, j);
            assert(asks_at(text, i) && asks_at(text, j));
        }
        if exists|i: int| #[trigger] asks_at(text, i) {
            let i = choose|i: int| #[trigger] asks_at(text, i);
            if i < last {
                assert(asks_at(rest, i));
            }
        }
        if exists|i: int, j: int|
            i < j && #[trigger] asks_at(text, i) && #[trigger] asks_at(text, j) {
            let (i, j) = choose|i: int, j: int|
                i < j && #[trigger] asks_at(text, i) && #[trigger] asks_at(text, j);
            assert(asks_at(rest, i));
            if j < last {
                assert(asks_at(rest, j));
            }
        }
    }
}

proof fn lemma_numeric(text: Seq<char>)
    ensures
        numeric_chars(text) == text.filter(
            |c: char|
                '0' <= c <= '9' || c == '+' || c == '-' || c == '*' || c == '/' || c == '=' || c
                    == '^' || c == '∑' || c == '∫',
        ).len(),
{
    assert((|c: char| is_numeric_char(c)) =~= (|c: char|
        '0' <= c <= '9' || c == '+' || c == '-' || c == '*' || c == '/' || c == '=' || c == '^' || c
            == '∑' || c == '∫'));
}

/// The five signals of a prompt, told by its characters and by those of its lower
/// case: what sets each off, what it weighs in hundredths of one, and that the score
/// is the sum of those set off.
pub proof fn law_what_a_prompt_scores(
    prompt: Seq<char>,
    lower: Seq<char>,
    tokens: nat,
    signals: Seq<ComplexitySignal>,
    score: int,
)
    requires
        score == score_of(findings(prompt, lower)),
        explained_by(signals, findings(prompt, lower)),
        4 * tokens >= prompt.len(),
        4 * tokens < prompt.len() + 4,
    ensures
        signals.len() == 5,
        signals[0].name@ == "longueur"@,
        signals[0].triggered <==> prompt.len() > 800,
        tokens <= 450 ==> 1500 * signals[0].weight.units == tokens * 1_500_000_000_000_000_000,
        tokens >= 450 ==> 100 * signals[0].weight.units == 30 * 1_500_000_000_000_000_000,
        signals[1].name@ == "bloc_de_code"@,
        signals[1].triggered <==> fenced(lower) || four_indents(lower),
        100 * signals[1].weight.units == 20 * 1_500_000_000_000_000_000,
        signals[2].name@ == "mot_cle_raisonnement"@,
        signals[2].triggered <==> asks_to_reason(lower),
        100 * signals[2].weight.units == 25 * 1_500_000_000_000_000_000,
        signals[3].name@ == "questions_multiples"@,
        signals[3].triggered <==> exists|i: int, j: int|
            i < j && #[trigger] asks_at(prompt, i) && #[trigger] asks_at(prompt, j),
        100 * signals[3].weight.units == 15 * 1_500_000_000_000_000_000,
        signals[4].name@ == "densite_numerique"@,
        signals[4].triggered <==> 100 * prompt.filter(
            |c: char|
                '0' <= c <= '9' || c == '+' || c == '-' || c == '*' || c == '/' || c == '=' || c
                    == '^' || c == '∑' || c == '∫',
        ).len() > 15 * tokens,
        100 * signals[4].weight.units == 10 * 1_500_000_000_000_000_000,
        score == (if signals[0].triggered {
            signals[0].weight.units as int
        } else {
            0
        }) + (if signals[1].triggered {
            signals[1].weight.units as int
        } else {
            0
        }) + (if signals[2].triggered {
            signals[2].weight.units as int
        } else {
            0
        }) + (if signals[3].triggered {
            signals[3].weight.units as int
        } else {
            0
        }) + (if signals[4].triggered {
            signals[4].weight.units as int
        } else {
            0
        }),
{
    lemma_code(lower);
    lemma_asks_to_reason(lower);
    lemma_questions(prompt);
    lemma_numeric(prompt);
}

/// Every listed phrase that stands on its own in the lower case of a prompt sets off
/// the signal of reasoning; where none does, it is not set off.
pub proof fn law_every_listed_phrase_is_found(
    prompt: Seq<char>,
    lower: Seq<char>,
    signals: Seq<ComplexitySignal>,
)
    requires
        explained_by(signals, findings(prompt, lower)),
    ensures
        signals[2].name@ == "mot_cle_raisonnement"@,
        signals[2].triggered <==> asks_to_reason(lower),
{
    lemma_asks_to_reason(lower);
}

/// The list of what was set off holds the names of exactly those signals, in their
/// order and as often as they occur.
pub proof fn law_the_list_of_signals_grows_with_each_set_off(
    signals: Seq<ComplexitySignal>,
    signal: ComplexitySignal,
)
    ensures
        signals.len() == 0 ==> triggered_names(signals).len() == 0,
        triggered_names(signals.push(signal)) == if signal.triggered {
            triggered_names(signals).push(signal.name)
        } else {
            triggered_names(signals)
        },
{
    reveal(Seq::filter);
    assert(signals.push(signal).drop_last() =~= signals);
    assert(triggered_names(signals.push(signal)) =~= if signal.triggered {
        triggered_names(signals).push(signal.name)
    } else {
        triggered_names(signals)
    });
}

/// A word character is a letter or a digit.
pub proof fn law_words_are_letters_and_digits(c: char)
    ensures
        word_char(c) == letter_or_digit(c),
{
}

} // verus!
