//! Estimates how demanding a prompt is, to decide whether a local model is enough.
//!
//! The score is deliberately not learned: asking a model how hard a prompt is
//! would cost the very call that is to be saved. It is the sum of a few named and
//! weighted signals of the text, each of which can be inspected.

use crate::text::chars_of;
use crate::tokens::{estimate_tokens, tokens_for};
use crate::units::{Ratio, RATIO_ONE, RATIO_PERCENT};
use vstd::prelude::*;
use vstd::utf8::is_ascii_chars;

verus! {

/// The units of one token over 1500.
pub const RATIO_PER_TOKEN: u64 = 1_000_000_000_000_000;

/// The number of tokens at which the length weighs no more.
pub const LENGTH_CAP_TOKENS: usize = 450;

/// A prompt of more tokens than this is long.
pub const LONG_PROMPT_TOKENS: usize = 200;

pub const REASONING_KEYWORDS: [&'static str; 19] = [
    "explique pourquoi",
    "explain why",
    "step by step",
    "étape par étape",
    "prove",
    "démontre",
    "derive",
    "dérive",
    "algorithm",
    "algorithme",
    "architecture",
    "optimi",
    "debug",
    "root cause",
    "cause racine",
    "trade-off",
    "compromis",
    "conçois un système",
    "design a system",
];

/// The lower case of a text, as `str::to_lowercase` gives it.
pub uninterp spec fn lowercase(s: Seq<char>) -> Seq<char>;

/// Whether `char::is_alphanumeric` holds of a character.
pub uninterp spec fn alphanumeric(c: char) -> bool;

/// The lower case of an ASCII character.
pub open spec fn ascii_lower(c: char) -> char {
    if 'A' <= c <= 'Z' {
        (c as u32 + 32) as char
    } else {
        c
    }
}

/// `str::to_lowercase`: its result depends on the text alone, and of a text in
/// ASCII it maps the letters `A` to `Z` to `a` to `z` and keeps the rest.
pub assume_specification[ str::to_lowercase ](s: &str) -> (r: String)
    ensures
        r@ == lowercase(s@),
        is_ascii_chars(s@) ==> r@ == s@.map_values(|c: char| ascii_lower(c)),
;

/// `char::is_alphanumeric`: its result depends on the character alone.
pub assume_specification[ char::is_alphanumeric ](c: char) -> (b: bool)
    ensures
        b == alphanumeric(c),
;

/// Whether a character belongs to a word.
pub open spec fn word_char(c: char) -> bool {
    if (c as u32) < 128 {
        'a' <= c <= 'z' || 'A' <= c <= 'Z' || '0' <= c <= '9'
    } else {
        alphanumeric(c)
    }
}

fn is_word_char(c: char) -> (b: bool)
    ensures
        b == word_char(c),
{
    if (c as u32) < 128 {
        ('a' <= c && c <= 'z') || ('A' <= c && c <= 'Z') || ('0' <= c && c <= '9')
    } else {
        c.is_alphanumeric()
    }
}

/// `pattern` stands at place `i` of `s`.
pub open spec fn occurs_at(s: Seq<char>, pattern: Seq<char>, i: int) -> bool {
    &&& 0 <= i
    &&& i + pattern.len() <= s.len()
    &&& s.subrange(i, i + pattern.len()) == pattern
}

/// `pattern` stands somewhere in `s`.
pub open spec fn occurs(s: Seq<char>, pattern: Seq<char>) -> bool {
    exists|i: int| #[trigger] occurs_at(s, pattern, i)
}

/// `keyword` stands at place `i` of `s`, between two word boundaries.
pub open spec fn word_at(s: Seq<char>, keyword: Seq<char>, i: int) -> bool {
    &&& occurs_at(s, keyword, i)
    &&& i == 0 || !word_char(s[i - 1])
    &&& i + keyword.len() == s.len() || !word_char(s[i + keyword.len()])
}

/// `keyword` stands somewhere in `s` between two word boundaries.
pub open spec fn has_word(s: Seq<char>, keyword: Seq<char>) -> bool {
    exists|i: int| #[trigger] word_at(s, keyword, i)
}

/// How many times `pattern` stands in `s` from place `from` on, found from left
/// to right, each occurrence after the end of the one before.
pub open spec fn disjoint_count(s: Seq<char>, pattern: Seq<char>, from: int) -> nat
    decreases s.len() - from,
{
    if pattern.len() == 0 || from + pattern.len() > s.len() {
        0
    } else if occurs_at(s, pattern, from) {
        1 + disjoint_count(s, pattern, from + pattern.len())
    } else {
        disjoint_count(s, pattern, from + 1)
    }
}

fn stands_at(s: &Vec<char>, pattern: &Vec<char>, i: usize) -> (b: bool)
    requires
        i + pattern@.len() <= s@.len(),
    ensures
        b == occurs_at(s@, pattern@, i as int),
{
    let size: usize = s.len();
    let mut j: usize = 0;
    while j < pattern.len()
        invariant
            size == s@.len(),
            i + pattern@.len() <= size,
            j <= pattern@.len(),
            forall|k: int| 0 <= k < j ==> s@[i + k] == #[trigger] pattern@[k],
        decreases pattern@.len() - j,
    {
        if s[i + j] != pattern[j] {
            assert(s@.subrange(i as int, i + pattern@.len())[j as int] == s@[i + j]);
            return false;
        }
        j = j + 1;
    }
    assert(s@.subrange(i as int, i + pattern@.len()) =~= pattern@);
    true
}

/// `pattern` stands at place `i` of `s`, between two word boundaries if it is to be
/// a word.
spec fn stands_as(s: Seq<char>, pattern: Seq<char>, as_word: bool, i: int) -> bool {
    if as_word {
        word_at(s, pattern, i)
    } else {
        occurs_at(s, pattern, i)
    }
}

fn finds(s: &Vec<char>, pattern: &str, as_word: bool) -> (b: bool)
    ensures
        b == if as_word {
            has_word(s@, pattern@)
        } else {
            occurs(s@, pattern@)
        },
{
    let wanted = chars_of(pattern);
    let size: usize = s.len();
    if wanted.len() > size {
        return false;
    }
    let last: usize = size - wanted.len();
    let mut i: usize = 0;
    loop
        invariant
            size == s@.len(),
            wanted@ == pattern@,
            i <= last,
            last + wanted@.len() == size,
            forall|k: int| 0 <= k < i ==> !#[trigger] stands_as(s@, pattern@, as_word, k),
        decreases last - i,
    {
        if stands_at(s, &wanted, i) {
            let before: bool = i == 0 || !is_word_char(s[i - 1]);
            let after: bool = i == last || !is_word_char(s[i + wanted.len()]);
            if !as_word || (before && after) {
                assert(stands_as(s@, pattern@, as_word, i as int));
                return true;
            }
        }
        if i == last {
            assert forall|k: int| !#[trigger] occurs_at(s@, pattern@, k) || (as_word && !word_at(
                s@,
                pattern@,
                k,
            )) by {
                assert(0 <= k < i ==> !stands_as(s@, pattern@, as_word, k));
            }
            return false;
        }
        i = i + 1;
    }
}

/// Whether a keyword occurs in a text between two word boundaries, neither
/// preceded nor followed by a letter or a digit.
pub fn contains_word(haystack: &str, keyword: &str) -> (b: bool)
    ensures
        b == has_word(haystack@, keyword@),
{
    finds(&chars_of(haystack), keyword, true)
}

fn count_disjoint(s: &Vec<char>, pattern: &str) -> (n: usize)
    ensures
        n == disjoint_count(s@, pattern@, 0),
{
    let wanted = chars_of(pattern);
    if wanted.len() == 0 {
        return 0;
    }
    let mut n: usize = 0;
    let mut i: usize = 0;
    while i < s.len() && wanted.len() <= s.len() - i
        invariant
            wanted@ == pattern@,
            wanted@.len() > 0,
            n <= i <= s@.len(),
            n + disjoint_count(s@, pattern@, i as int) == disjoint_count(s@, pattern@, 0),
        decreases s@.len() - i,
    {
        if stands_at(s, &wanted, i) {
            n = n + 1;
            i = i + wanted.len();
        } else {
            i = i + 1;
        }
    }
    n
}

/// Whether a character is a mathematical symbol.
pub open spec fn is_symbol(c: char) -> bool {
    c == '+' || c == '-' || c == '*' || c == '/' || c == '=' || c == '^' || c == '∑' || c == '∫'
}

/// Whether a character is a decimal digit or a mathematical symbol.
pub open spec fn is_numeric_char(c: char) -> bool {
    '0' <= c <= '9' || is_symbol(c)
}

/// How many characters of `s` are question marks.
pub open spec fn questions(s: Seq<char>) -> nat {
    s.filter(|c: char| c == '?').len()
}

/// How many characters of `s` are digits or mathematical symbols.
pub open spec fn numeric_chars(s: Seq<char>) -> nat {
    s.filter(|c: char| is_numeric_char(c)).len()
}

fn is_numeric(c: char) -> (b: bool)
    ensures
        b == is_numeric_char(c),
{
    ('0' <= c && c <= '9') || c == '+' || c == '-' || c == '*' || c == '/' || c == '=' || c == '^'
        || c == '∑' || c == '∫'
}

fn is_question(c: char) -> (b: bool)
    ensures
        b == (c == '?'),
{
    c == '?'
}

fn count_chars<F: Fn(char) -> bool>(s: &Vec<char>, test: F, Ghost(wanted): Ghost<
    spec_fn(char) -> bool,
>) -> (n: usize)
    requires
        forall|c: char| call_requires(test, (c,)),
        forall|c: char, b: bool| call_ensures(test, (c,), b) ==> b == wanted(c),
    ensures
        n == s@.filter(wanted).len(),
{
    let mut n: usize = 0;
    let mut i: usize = 0;
    proof {
        reveal(Seq::filter);
    }
    while i < s.len()
        invariant
            n <= i <= s@.len(),
            n == s@.take(i as int).filter(wanted).len(),
            forall|c: char| call_requires(test, (c,)),
            forall|c: char, b: bool| call_ensures(test, (c,), b) ==> b == wanted(c),
        decreases s@.len() - i,
    {
        proof {
            reveal(Seq::filter);
            assert(s@.take(i + 1).drop_last() == s@.take(i as int));
        }
        if test(s[i]) {
            n = n + 1;
        }
        i = i + 1;
    }
    assert(s@.take(i as int) == s@);
    n
}

/// A text holds a fenced block of code, or more than three runs of four spaces.
pub open spec fn looks_like_code(lower: Seq<char>) -> bool {
    occurs(lower, "```"@) || disjoint_count(lower, "    "@, 0) > 3
}

/// A text holds a keyword of multi-step reasoning as a word.
pub open spec fn asks_for_reasoning(lower: Seq<char>) -> bool {
    exists|k: int|
        0 <= k < REASONING_KEYWORDS@.len() && has_word(lower, (#[trigger] REASONING_KEYWORDS@[k])@)
}

fn reasoning_keyword(lower: &Vec<char>) -> (b: bool)
    ensures
        b == asks_for_reasoning(lower@),
{
    let mut k: usize = 0;
    while k < 19
        invariant
            k <= 19,
            forall|j: int|
                0 <= j < k ==> !has_word(lower@, (#[trigger] REASONING_KEYWORDS@[j])@),
        decreases 19 - k,
    {
        if finds(lower, REASONING_KEYWORDS[k], true) {
            return true;
        }
        k = k + 1;
    }
    false
}

/// What the signals of a prompt found: its tokens, and which of the other
/// signals it sets off.
pub struct Findings {
    pub tokens: nat,
    pub code: bool,
    pub reasoning: bool,
    pub many_questions: bool,
    pub numeric: bool,
}

/// The findings on a prompt, given its lower case.
pub open spec fn findings(prompt: Seq<char>, lower: Seq<char>) -> Findings {
    let tokens = tokens_for(prompt.len());
    Findings {
        tokens,
        code: looks_like_code(lower),
        reasoning: asks_for_reasoning(lower),
        many_questions: questions(prompt) >= 2,
        // More than 15 numeric characters for 100 tokens.
        numeric: 100 * numeric_chars(prompt) > 15 * tokens,
    }
}

/// The weight of the length: a fifteen-hundredth for each token, up to three tenths.
pub open spec fn length_weight(tokens: nat) -> int {
    if tokens < LENGTH_CAP_TOKENS {
        tokens * RATIO_PER_TOKEN
    } else {
        LENGTH_CAP_TOKENS * RATIO_PER_TOKEN
    }
}

/// A weight that counts only if its signal is set off.
pub open spec fn counted(triggered: bool, weight: int) -> int {
    if triggered {
        weight
    } else {
        0
    }
}

/// The score of findings: the sum of the weights of the signals set off.
pub open spec fn score_of(f: Findings) -> int {
    counted(f.tokens > LONG_PROMPT_TOKENS, length_weight(f.tokens)) + counted(
        f.code,
        20 * RATIO_PERCENT,
    ) + counted(f.reasoning, 25 * RATIO_PERCENT) + counted(f.many_questions, 15 * RATIO_PERCENT)
        + counted(f.numeric, 10 * RATIO_PERCENT)
}

/// One signal of complexity, its weight, and whether the prompt sets it off.
#[derive(Clone, Copy, Debug, PartialEq)]
pub struct ComplexitySignal {
    pub name: &'static str,
    pub weight: Ratio,
    pub triggered: bool,
}

/// A signal has this name and weight, and is set off or not.
pub open spec fn is_signal(
    signal: ComplexitySignal,
    name: Seq<char>,
    weight: int,
    triggered: bool,
) -> bool {
    &&& signal.name@ == name
    &&& signal.weight.units == weight
    &&& signal.triggered == triggered
}

/// The five signals that explain a score, in their order.
pub open spec fn explained_by(signals: Seq<ComplexitySignal>, f: Findings) -> bool {
    &&& signals.len() == 5
    &&& is_signal(signals[0], "longueur"@, length_weight(f.tokens), f.tokens > LONG_PROMPT_TOKENS)
    &&& is_signal(signals[1], "bloc_de_code"@, 20 * RATIO_PERCENT, f.code)
    &&& is_signal(signals[2], "mot_cle_raisonnement"@, 25 * RATIO_PERCENT, f.reasoning)
    &&& is_signal(signals[3], "questions_multiples"@, 15 * RATIO_PERCENT, f.many_questions)
    &&& is_signal(signals[4], "densite_numerique"@, 10 * RATIO_PERCENT, f.numeric)
}

/// The names of the signals set off, in their order.
pub open spec fn triggered_names(signals: Seq<ComplexitySignal>) -> Seq<&'static str> {
    signals.filter(|s: ComplexitySignal| s.triggered).map_values(|s: ComplexitySignal| s.name)
}

/// The complexity of a prompt, from zero (trivial) to one (very demanding).
#[derive(Clone, Debug, PartialEq)]
pub struct ComplexityScore {
    pub score: Ratio,
    /// Every signal that was evaluated.
    pub signals: Vec<ComplexitySignal>,
}

impl ComplexityScore {
    /// The names of the signals that the prompt set off.
    pub fn triggered_signals(&self) -> (names: Vec<&'static str>)
        ensures
            names@ == triggered_names(self.signals@),
    {
        let mut names: Vec<&'static str> = Vec::new();
        let mut i: usize = 0;
        while i < self.signals.len()
            invariant
                i <= self.signals@.len(),
                names@ == triggered_names(self.signals@.take(i as int)),
            decreases self.signals@.len() - i,
        {
            proof {
                reveal(Seq::filter);
                assert(self.signals@.take(i + 1).drop_last() == self.signals@.take(i as int));
            }
            if self.signals[i].triggered {
                names.push(self.signals[i].name);
            }
            i = i + 1;
            assert(names@ =~= triggered_names(self.signals@.take(i as int)));
        }
        assert(self.signals@.take(i as int) == self.signals@);
        names
    }
}

/// The complexity of a prompt, with the signals that explain it.
pub fn analyze(prompt: &str) -> (r: ComplexityScore)
    ensures
        r.score.units == score_of(findings(prompt@, lowercase(prompt@))),
        explained_by(r.signals@, findings(prompt@, lowercase(prompt@))),
        is_ascii_chars(prompt@) ==> lowercase(prompt@) == prompt@.map_values(
            |c: char| ascii_lower(c),
        ),
        prompt@.len() == 0 ==> r.score.units == 0,
{
    proof {
        if prompt@.len() == 0 {
            law_empty_prompt_is_trivial();
            assert(prompt@ =~= Seq::<char>::empty());
            assert(prompt@.map_values(|c: char| ascii_lower(c)) =~= Seq::<char>::empty());
        }
    }
    let lower: String = prompt.to_lowercase();
    analyze_lowered(prompt, lower.as_str())
}

fn weight_if(signal: &ComplexitySignal) -> (w: u64)
    ensures
        w == counted(signal.triggered, signal.weight.units as int),
{
    if signal.triggered {
        signal.weight.units
    } else {
        0
    }
}

/// The complexity of a prompt whose lower case is `lower`, with the signals that
/// explain it.
pub fn analyze_lowered(prompt: &str, lower: &str) -> (r: ComplexityScore)
    ensures
        r.score.units == score_of(findings(prompt@, lower@)),
        explained_by(r.signals@, findings(prompt@, lower@)),
{
    let lower = chars_of(lower);
    let chars = chars_of(prompt);
    let tokens: usize = estimate_tokens(prompt);

    let capped: usize = if tokens < LENGTH_CAP_TOKENS {
        tokens
    } else {
        LENGTH_CAP_TOKENS
    };
    let length = ComplexitySignal {
        name: "longueur",
        weight: Ratio { units: capped as u64 * RATIO_PER_TOKEN },
        triggered: tokens > LONG_PROMPT_TOKENS,
    };
    let code = ComplexitySignal {
        name: "bloc_de_code",
        weight: Ratio::percent(20),
        triggered: finds(&lower, "```", false) || count_disjoint(&lower, "    ") > 3,
    };
    let reasoning = ComplexitySignal {
        name: "mot_cle_raisonnement",
        weight: Ratio::percent(25),
        triggered: reasoning_keyword(&lower),
    };
    let many_questions = ComplexitySignal {
        name: "questions_multiples",
        weight: Ratio::percent(15),
        triggered: count_chars(&chars, is_question, Ghost(|c: char| c == '?')) >= 2,
    };
    let numeric_count: usize = count_chars(
        &chars,
        is_numeric,
        Ghost(|c: char| is_numeric_char(c)),
    );
    let numeric = ComplexitySignal {
        name: "densite_numerique",
        weight: Ratio::percent(10),
        triggered: 100 * (numeric_count as u128) > 15 * (tokens as u128),
    };

    let score: u64 = weight_if(&length) + weight_if(&code) + weight_if(&reasoning) + weight_if(
        &many_questions,
    ) + weight_if(&numeric);
    let mut signals: Vec<ComplexitySignal> = Vec::new();
    signals.push(length);
    signals.push(code);
    signals.push(reasoning);
    signals.push(many_questions);
    signals.push(numeric);
    ComplexityScore { score: Ratio { units: score }, signals }
}

/// A score always lies between zero and one.
pub proof fn law_score_is_bounded(f: Findings)
    ensures
        0 <= score_of(f) <= RATIO_ONE,
{
}

/// A score is the sum of the weights of the signals that are set off.
pub proof fn law_score_is_the_sum_of_its_signals(signals: Seq<ComplexitySignal>, f: Findings)
    requires
        explained_by(signals, f),
    ensures
        score_of(f) == signals.fold_left(
            0int,
            |sum: int, s: ComplexitySignal| sum + counted(s.triggered, s.weight.units as int),
        ),
{
    let add = |sum: int, s: ComplexitySignal| sum + counted(s.triggered, s.weight.units as int);
    reveal_with_fuel(Seq::fold_left, 6);
    let s4 = signals.drop_last();
    let s3 = s4.drop_last();
    let s2 = s3.drop_last();
    let s1 = s2.drop_last();
    assert(s1.drop_last().len() == 0);
}

/// A prompt that is longer and sets off at least the same signals never scores less.
pub proof fn law_more_signals_never_score_less(f: Findings, g: Findings)
    requires
        f.tokens <= g.tokens,
        f.code ==> g.code,
        f.reasoning ==> g.reasoning,
        f.many_questions ==> g.many_questions,
        f.numeric ==> g.numeric,
    ensures
        score_of(f) <= score_of(g),
{
}

/// A prompt that only adds questions to another, at least two in all, scores more.
pub proof fn law_many_questions_score_more(f: Findings)
    requires
        !f.many_questions,
    ensures
        score_of(Findings { many_questions: true, ..f }) == score_of(f) + 15 * RATIO_PERCENT,
{
}

/// The empty prompt sets off no signal.
pub proof fn law_empty_prompt_is_trivial()
    ensures
        score_of(findings(Seq::empty(), Seq::empty())) == 0,
{
    let none = Seq::<char>::empty();
    reveal_strlit("```");
    reveal(Seq::filter);
    assert(!occurs(none, "```"@));
    assert forall|k: int| 0 <= k < REASONING_KEYWORDS@.len() implies !has_word(
        none,
        (#[trigger] REASONING_KEYWORDS@[k])@,
    ) by {
        lemma_keywords_are_not_empty(k);
    }
}

proof fn lemma_keywords_are_not_empty(k: int)
    requires
        0 <= k < REASONING_KEYWORDS@.len(),
    ensures
        REASONING_KEYWORDS@[k]@.len() > 0,
{
    reveal_strlit("explique pourquoi");
    reveal_strlit("explain why");
    reveal_strlit("step by step");
    reveal_strlit("étape par étape");
    reveal_strlit("prove");
    reveal_strlit("démontre");
    reveal_strlit("derive");
    reveal_strlit("dérive");
    reveal_strlit("algorithm");
    reveal_strlit("algorithme");
    reveal_strlit("architecture");
    reveal_strlit("optimi");
    reveal_strlit("debug");
    reveal_strlit("root cause");
    reveal_strlit("cause racine");
    reveal_strlit("trade-off");
    reveal_strlit("compromis");
    reveal_strlit("conçois un système");
    reveal_strlit("design a system");
}

/// A keyword that only occurs inside longer words is not found.
pub proof fn law_keyword_inside_words_is_not_found(s: Seq<char>, keyword: Seq<char>)
    requires
        forall|i: int| #[trigger]
            occurs_at(s, keyword, i) ==> (i > 0 && word_char(s[i - 1])) || (i + keyword.len()
                < s.len() && word_char(s[i + keyword.len()])),
    ensures
        !has_word(s, keyword),
{
}

/// A keyword that stands alone, at the ends of the text or beside characters
/// that belong to no word, is found.
pub proof fn law_keyword_between_boundaries_is_found(
    before: Seq<char>,
    keyword: Seq<char>,
    after: Seq<char>,
)
    requires
        before.len() == 0 || !word_char(before.last()),
        after.len() == 0 || !word_char(after[0]),
    ensures
        has_word(before + keyword + after, keyword),
{
    let s = before + keyword + after;
    let i = before.len() as int;
    assert(s.subrange(i, i + keyword.len()) =~= keyword);
    assert(word_at(s, keyword, i));
}

/// The names listed are those of the signals set off, and of no others.
pub proof fn law_names_are_those_set_off(signals: Seq<ComplexitySignal>, name: &'static str)
    ensures
        triggered_names(signals).contains(name) <==> exists|k: int|
            0 <= k < signals.len() && (#[trigger] signals[k]).triggered && signals[k].name == name,
    decreases signals.len(),
{
    reveal(Seq::filter);
    if signals.len() > 0 {
        let rest = signals.drop_last();
        let last = signals.last();
        law_names_are_those_set_off(rest, name);
        if last.triggered {
            assert(triggered_names(signals) =~= triggered_names(rest).push(last.name));
            if last.name == name {
                assert(triggered_names(signals).last() == name);
                assert(signals[signals.len() - 1].name == name);
            }
        } else {
            assert(triggered_names(signals) =~= triggered_names(rest));
        }
        if triggered_names(rest).contains(name) {
            let k = choose|k: int|
                0 <= k < rest.len() && (#[trigger] rest[k]).triggered && rest[k].name == name;
            assert(signals[k] == rest[k]);
            let i = triggered_names(rest).index_of(name);
            assert(triggered_names(signals)[i] == name);
        }
        if exists|k: int|
            0 <= k < signals.len() && (#[trigger] signals[k]).triggered && signals[k].name
                == name {
            let k = choose|k: int|
                0 <= k < signals.len() && (#[trigger] signals[k]).triggered && signals[k].name
                    == name;
            if k < rest.len() {
                assert(rest[k] == signals[k]);
            }
        }
    }
}

} // verus!
