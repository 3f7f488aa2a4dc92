//! The context parser: turns raw request text plus a language code into a
//! structured `PromptContext` — the set of recognized semantic keys, an
//! optional time period and an optional positive amount.
//!
//! The algorithm is pure and deterministic: the message is ASCII-case-folded
//! and split into tokens at a fixed separator set; tokens are matched against
//! a per-language keyword table (unknown codes fall back to the English
//! table); a time-period word and a numeric amount are scanned for
//! separately, each optional and independent of the keyword matching.

use vstd::prelude::*;

use crate::text::{fold_seq, fold_str, prefix_of, push_char, str_eq, str_starts_with};
use crate::types::Language;

verus! {

/// The semantic keys the parser recognizes in a message.
#[derive(Clone, Copy, Debug, PartialEq, Eq, Structural, Hash)]
pub enum PromptKey {
    Object,
    Document,
    Description,
    Comparison,
    Last,
    All,
}

/// The time periods a message can name.
#[derive(Clone, Copy, Debug, PartialEq, Eq, Structural, Hash)]
pub enum Period {
    Day,
    Week,
    Month,
    Year,
}

/// Why parsing failed.
#[derive(Clone, Copy, Debug, PartialEq, Eq, Structural)]
pub enum ParserError {
    /// The message holds no token at all after normalization.
    EmptyInput,
}

impl ParserError {
    /// The human-readable text of the failure.
    pub fn message(&self) -> (r: &'static str)
        ensures
            r@ == "Empty input"@,
    {
        match self {
            ParserError::EmptyInput => "Empty input",
        }
    }
}

/// The parser's output for one message.
#[derive(Clone, Debug, PartialEq)]
pub struct PromptContext {
    /// The recognized keys, each at most once, in first-seen order.
    pub keys: Vec<PromptKey>,
    /// The first time period named in the message, if any.
    pub period: Option<Period>,
    /// The first positive number named in the message, if any.
    pub amount: Option<usize>,
}

/// The characters that separate tokens.
pub open spec fn is_sep(c: char) -> bool {
    c == ' ' || c == '\t' || c == '\n' || c == '\r' || c == ',' || c == '.' || c == '!'
        || c == '?' || c == ';' || c == ':' || c == '(' || c == ')' || c == '"'
}

/// Executable separator test.
pub fn is_sep_exec(c: char) -> (r: bool)
    ensures
        r == is_sep(c),
{
    c == ' ' || c == '\t' || c == '\n' || c == '\r' || c == ',' || c == '.' || c == '!'
        || c == '?' || c == ';' || c == ':' || c == '(' || c == ')' || c == '"'
}

/// The length of the token at the front of `s`: the longest prefix free of
/// separators.
pub open spec fn word_len(s: Seq<char>) -> int
    decreases s.len(),
{
    if s.len() == 0 || is_sep(s[0]) {
        0
    } else {
        1 + word_len(s.drop_first())
    }
}

/// `word_len` marks the first separator: everything before it is a word
/// character, and the position itself (if inside) is a separator.
pub proof fn lemma_word_len(s: Seq<char>)
    ensures
        0 <= word_len(s) <= s.len(),
        forall|k: int| 0 <= k < word_len(s) ==> !is_sep(s[k]),
        word_len(s) < s.len() ==> is_sep(s[word_len(s)]),
    decreases s.len(),
{
    if s.len() > 0 && !is_sep(s[0]) {
        lemma_word_len(s.drop_first());
        let w = word_len(s);
        assert(forall|k: int| 0 <= k < s.len() - 1 ==> s.drop_first()[k] == s[k + 1]);
        assert forall|k: int| 0 <= k < w implies !is_sep(s[k]) by {
            if k > 0 {
                assert(s[k] == s.drop_first()[k - 1]);
            }
        }
    }
}

/// The message split into tokens: maximal runs of non-separator characters.
pub open spec fn tokens_of(s: Seq<char>) -> Seq<Seq<char>>
    decreases s.len(),
    via tokens_of_decreases
{
    if s.len() == 0 {
        Seq::empty()
    } else if is_sep(s[0]) {
        tokens_of(s.drop_first())
    } else {
        seq![s.take(word_len(s))] + tokens_of(s.skip(word_len(s)))
    }
}

#[via_fn]
proof fn tokens_of_decreases(s: Seq<char>) {
    if s.len() > 0 && !is_sep(s[0]) {
        lemma_word_len(s.drop_first());
    }
}

/// The views of a list of owned tokens.
pub open spec fn views_of(ts: Seq<String>) -> Seq<Seq<char>> {
    ts.map_values(|t: String| t@)
}

/// Splits `s` into its tokens.
fn tokenize(s: &str) -> (r: Vec<String>)
    ensures
        views_of(r@) == tokens_of(s@),
{
    let n = s.unicode_len();
    let mut toks: Vec<String> = Vec::new();
    let mut i: usize = 0;
    proof {
        assert(views_of(toks@) =~= Seq::<Seq<char>>::empty());
        assert(s@.skip(0) =~= s@);
        assert(views_of(toks@) + tokens_of(s@) =~= tokens_of(s@));
    }
    while i < n
        invariant
            n == s@.len(),
            i <= n,
            tokens_of(s@) == views_of(toks@) + tokens_of(s@.skip(i as int)),
        decreases n - i,
    {
        let c = s.get_char(i);
        if is_sep_exec(c) {
            proof {
                assert(s@.skip(i as int).drop_first() =~= s@.skip(i + 1));
            }
            i = i + 1;
        } else {
            let start = i;
            let mut tok = String::new();
            while i < n && !is_sep_exec(s.get_char(i))
                invariant
                    n == s@.len(),
                    start <= i <= n,
                    tok@ == s@.subrange(start as int, i as int),
                    forall|k: int| start <= k < i ==> !is_sep(s@[k]),
                decreases n - i,
            {
                push_char(&mut tok, s.get_char(i));
                proof {
                    assert(s@.subrange(start as int, i + 1) =~= s@.subrange(
                        start as int,
                        i as int,
                    ).push(s@[i as int]));
                }
                i = i + 1;
            }
            let ghost rest = s@.skip(start as int);
            proof {
                lemma_word_len(rest);
                assert(forall|k: int| 0 <= k < rest.len() ==> rest[k] == s@[k + start]);
                let w = word_len(rest);
                assert forall|k: int| start <= k < i implies !is_sep(s@[k]) by {}
                if w < i - start {
                    assert(is_sep(rest[w]));
                    assert(rest[w] == s@[w + start]);
                    assert(false);
                }
                if w > i - start {
                    assert(i < n);
                    assert(!is_sep(rest[i - start]));
                    assert(rest[i - start] == s@[i as int]);
                    assert(false);
                }
                assert(w == i - start);
                assert(tok@ =~= rest.take(w));
                assert(s@.skip(i as int) =~= rest.skip(w));
                assert(tokens_of(rest) == seq![rest.take(w)] + tokens_of(rest.skip(w)));
                assert(views_of(toks@.push(tok)) =~= views_of(toks@).push(tok@));
                assert(views_of(toks@) + tokens_of(rest) =~= views_of(toks@.push(tok))
                    + tokens_of(s@.skip(i as int)));
            }
            toks.push(tok);
        }
    }
    proof {
        assert(s@.skip(n as int) =~= Seq::<char>::empty());
        assert(views_of(toks@) + tokens_of(s@.skip(n as int)) =~= views_of(toks@));
    }
    toks
}

/// The key a token names in the given language's table. Domain keywords
/// match by stem prefix, so plural and inflected forms are caught;
/// quantifiers match exactly.
pub open spec fn key_of_token(lang: Language, t: Seq<char>) -> Option<PromptKey> {
    match lang {
        Language::English => {
            if prefix_of("compar"@, t) {
                Some(PromptKey::Comparison)
            } else if prefix_of("descri"@, t) {
                Some(PromptKey::Description)
            } else if prefix_of("document"@, t) {
                Some(PromptKey::Document)
            } else if prefix_of("object"@, t) {
                Some(PromptKey::Object)
            } else if t == "last"@ || t == "latest"@ {
                Some(PromptKey::Last)
            } else if t == "all"@ || t == "every"@ {
                Some(PromptKey::All)
            } else {
                None
            }
        },
        Language::Ukrainian => {
            if prefix_of("порівня"@, t) {
                Some(PromptKey::Comparison)
            } else if prefix_of("опис"@, t) {
                Some(PromptKey::Description)
            } else if prefix_of("документ"@, t) {
                Some(PromptKey::Document)
            } else if prefix_of("об'єкт"@, t) {
                Some(PromptKey::Object)
            } else if prefix_of("остан"@, t) {
                Some(PromptKey::Last)
            } else if t == "всі"@ || t == "все"@ || t == "усі"@ {
                Some(PromptKey::All)
            } else {
                None
            }
        },
        Language::German => {
            if prefix_of("vergleich"@, t) {
                Some(PromptKey::Comparison)
            } else if prefix_of("beschreib"@, t) {
                Some(PromptKey::Description)
            } else if prefix_of("dokument"@, t) {
                Some(PromptKey::Document)
            } else if prefix_of("objekt"@, t) {
                Some(PromptKey::Object)
            } else if prefix_of("letzte"@, t) {
                Some(PromptKey::Last)
            } else if t == "alle"@ || t == "alles"@ {
                Some(PromptKey::All)
            } else {
                None
            }
        },
    }
}

/// Executable keyword lookup.
fn key_of_token_exec(lang: Language, t: &str) -> (r: Option<PromptKey>)
    ensures
        r == key_of_token(lang, t@),
{
    match lang {
        Language::English => {
            if str_starts_with(t, "compar") {
                Some(PromptKey::Comparison)
            } else if str_starts_with(t, "descri") {
                Some(PromptKey::Description)
            } else if str_starts_with(t, "document") {
                Some(PromptKey::Document)
            } else if str_starts_with(t, "object") {
                Some(PromptKey::Object)
            } else if str_eq(t, "last") || str_eq(t, "latest") {
                Some(PromptKey::Last)
            } else if str_eq(t, "all") || str_eq(t, "every") {
                Some(PromptKey::All)
            } else {
                None
            }
        },
        Language::Ukrainian => {
            if str_starts_with(t, "порівня") {
                Some(PromptKey::Comparison)
            } else if str_starts_with(t, "опис") {
                Some(PromptKey::Description)
            } else if str_starts_with(t, "документ") {
                Some(PromptKey::Document)
            } else if str_starts_with(t, "об'єкт") {
                Some(PromptKey::Object)
            } else if str_starts_with(t, "остан") {
                Some(PromptKey::Last)
            } else if str_eq(t, "всі") || str_eq(t, "все") || str_eq(t, "усі") {
                Some(PromptKey::All)
            } else {
                None
            }
        },
        Language::German => {
            if str_starts_with(t, "vergleich") {
                Some(PromptKey::Comparison)
            } else if str_starts_with(t, "beschreib") {
                Some(PromptKey::Description)
            } else if str_starts_with(t, "dokument") {
                Some(PromptKey::Document)
            } else if str_starts_with(t, "objekt") {
                Some(PromptKey::Object)
            } else if str_starts_with(t, "letzte") {
                Some(PromptKey::Last)
            } else if str_eq(t, "alle") || str_eq(t, "alles") {
                Some(PromptKey::All)
            } else {
                None
            }
        },
    }
}

/// The period a token names in the given language's table.
pub open spec fn period_of_token(lang: Language, t: Seq<char>) -> Option<Period> {
    match lang {
        Language::English => {
            if t == "today"@ || prefix_of("day"@, t) || prefix_of("daily"@, t) {
                Some(Period::Day)
            } else if prefix_of("week"@, t) {
                Some(Period::Week)
            } else if prefix_of("month"@, t) {
                Some(Period::Month)
            } else if prefix_of("year"@, t) || t == "annual"@ {
                Some(Period::Year)
            } else {
                None
            }
        },
        Language::Ukrainian => {
            if t == "сьогодні"@ || prefix_of("день"@, t) || prefix_of("дня"@, t) {
                Some(Period::Day)
            } else if prefix_of("тижд"@, t) || prefix_of("тижн"@, t) {
                Some(Period::Week)
            } else if prefix_of("місяц"@, t) {
                Some(Period::Month)
            } else if t == "рік"@ || prefix_of("рок"@, t) || prefix_of("річ"@, t) {
                Some(Period::Year)
            } else {
                None
            }
        },
        Language::German => {
            if t == "heute"@ || prefix_of("tag"@, t) {
                Some(Period::Day)
            } else if prefix_of("woche"@, t) {
                Some(Period::Week)
            } else if prefix_of("monat"@, t) {
                Some(Period::Month)
            } else if prefix_of("jahr"@, t) {
                Some(Period::Year)
            } else {
                None
            }
        },
    }
}

/// Executable period lookup.
fn period_of_token_exec(lang: Language, t: &str) -> (r: Option<Period>)
    ensures
        r == period_of_token(lang, t@),
{
    match lang {
        Language::English => {
            if str_eq(t, "today") || str_starts_with(t, "day") || str_starts_with(t, "daily") {
                Some(Period::Day)
            } else if str_starts_with(t, "week") {
                Some(Period::Week)
            } else if str_starts_with(t, "month") {
                Some(Period::Month)
            } else if str_starts_with(t, "year") || str_eq(t, "annual") {
                Some(Period::Year)
            } else {
                None
            }
        },
        Language::Ukrainian => {
            if str_eq(t, "сьогодні") || str_starts_with(t, "день") || str_starts_with(t, "дня") {
                Some(Period::Day)
            } else if str_starts_with(t, "тижд") || str_starts_with(t, "тижн") {
                Some(Period::Week)
            } else if str_starts_with(t, "місяц") {
                Some(Period::Month)
            } else if str_eq(t, "рік") || str_starts_with(t, "рок") || str_starts_with(t, "річ") {
                Some(Period::Year)
            } else {
                None
            }
        },
        Language::German => {
            if str_eq(t, "heute") || str_starts_with(t, "tag") {
                Some(Period::Day)
            } else if str_starts_with(t, "woche") {
                Some(Period::Week)
            } else if str_starts_with(t, "monat") {
                Some(Period::Month)
            } else if str_starts_with(t, "jahr") {
                Some(Period::Year)
            } else {
                None
            }
        },
    }
}

/// A decimal digit.
pub open spec fn is_digit(c: char) -> bool {
    '0' <= c && c <= '9'
}

/// The value of a decimal digit string, read left to right.
pub open spec fn dec_val(t: Seq<char>) -> int
    decreases t.len(),
{
    if t.len() == 0 {
        0
    } else {
        dec_val(t.drop_last()) * 10 + (t.last() as u32 - 0x30)
    }
}

/// The amount a token names: a run of one to nine digits with a positive
/// value. Anything else — including longer digit runs — is not an amount.
pub open spec fn amount_of_token(t: Seq<char>) -> Option<usize> {
    if 1 <= t.len() <= 9 && (forall|k: int| 0 <= k < t.len() ==> is_digit(#[trigger] t[k]))
        && dec_val(t) > 0 {
        Some(dec_val(t) as usize)
    } else {
        None
    }
}

/// A digit string's value is non-negative and below ten to its length.
proof fn lemma_dec_val_len_bound(t: Seq<char>)
    requires
        forall|k: int| 0 <= k < t.len() ==> is_digit(#[trigger] t[k]),
    ensures
        0 <= dec_val(t) < crate::text::pow10(t.len() as nat),
    decreases t.len(),
{
    if t.len() > 0 {
        lemma_dec_val_len_bound(t.drop_last());
        assert(0 <= t.last() as u32 - 0x30 <= 9);
        assert(crate::text::pow10(t.len() as nat) == 10 * crate::text::pow10(
            (t.len() - 1) as nat,
        ));
    }
}

/// Executable amount lookup.
fn amount_of_token_exec(t: &str) -> (r: Option<usize>)
    ensures
        r == amount_of_token(t@),
{
    let n = t.unicode_len();
    if n < 1 || n > 9 {
        return None;
    }
    let mut acc: u64 = 0;
    let mut k: usize = 0;
    proof {
        assert(t@.take(0) =~= Seq::<char>::empty());
        crate::text::lemma_pow10_pos(0);
    }
    while k < n
        invariant
            n == t@.len(),
            1 <= n <= 9,
            k <= n,
            forall|j: int| 0 <= j < k ==> is_digit(#[trigger] t@[j]),
            acc == dec_val(t@.take(k as int)),
            acc < crate::text::pow10(k as nat),
        decreases n - k,
    {
        let c = t.get_char(k);
        if !('0' <= c && c <= '9') {
            return None;
        }
        let d: u64 = (c as u32 - 0x30) as u64;
        proof {
            assert(t@.take(k + 1).drop_last() =~= t@.take(k as int));
            assert(t@.take(k + 1).last() == t@[k as int]);
            crate::text::lemma_pow10_mono(k as nat, 8);
            reveal_with_fuel(crate::text::pow10, 10);
            assert(crate::text::pow10(8) == 100000000);
            assert(crate::text::pow10((k + 1) as nat) == 10 * crate::text::pow10(k as nat));
        }
        acc = acc * 10 + d;
        k = k + 1;
    }
    proof {
        assert(t@.take(n as int) =~= t@);
        crate::text::lemma_pow10_mono(n as nat, 9);
        reveal_with_fuel(crate::text::pow10, 10);
        assert(crate::text::pow10(9) == 1000000000);
    }
    if acc == 0 {
        None
    } else {
        Some(acc as usize)
    }
}

/// The first period any token names, scanning from position `j`.
pub open spec fn scan_period(lang: Language, toks: Seq<Seq<char>>, j: int) -> Option<Period>
    decreases toks.len() - j,
{
    if j < 0 || j >= toks.len() {
        None
    } else {
        match period_of_token(lang, toks[j]) {
            Some(p) => Some(p),
            None => scan_period(lang, toks, j + 1),
        }
    }
}

/// The first amount any token names, scanning from position `j`.
pub open spec fn scan_amount(toks: Seq<Seq<char>>, j: int) -> Option<usize>
    decreases toks.len() - j,
{
    if j < 0 || j >= toks.len() {
        None
    } else {
        match amount_of_token(toks[j]) {
            Some(a) => Some(a),
            None => scan_amount(toks, j + 1),
        }
    }
}

/// Some token at or beyond position `j` names key `k`.
pub open spec fn has_key_from(lang: Language, toks: Seq<Seq<char>>, k: PromptKey, j: int) -> bool {
    exists|i: int| j <= i < toks.len() && key_of_token(lang, #[trigger] toks[i]) == Some(k)
}

/// The whole behavior of `ContextParser::parse` on a message: the token
/// list it works from, and what keys, period and amount it reports.
pub open spec fn parse_spec_tokens(language: Seq<char>, message: Seq<char>) -> Seq<Seq<char>> {
    tokens_of(fold_seq(message))
}

/// The parser itself. It holds no state between calls; the struct exists so
/// callers can hold one instance, as the orchestrator does.
pub struct ContextParser {
    _private: (),
}

impl ContextParser {
    /// A parser.
    pub fn new() -> Self {
        ContextParser { _private: () }
    }

    /// Parses a message under a language code. Fails exactly when the
    /// message holds no token; otherwise reports the recognized key set
    /// (deduplicated), the first period and the first amount.
    pub fn parse(&mut self, language: &str, message: &str) -> (r: Result<
        PromptContext,
        ParserError,
    >)
        ensures
            ({
                let toks = parse_spec_tokens(language@, message@);
                let lang = Language::spec_from_code(language@);
                match r {
                    Err(e) => toks.len() == 0 && e == ParserError::EmptyInput,
                    Ok(ctx) => {
                        &&& toks.len() > 0
                        &&& ctx.keys@.no_duplicates()
                        &&& forall|k: PromptKey|
                            ctx.keys@.contains(k) <==> has_key_from(lang, toks, k, 0)
                        &&& ctx.period == scan_period(lang, toks, 0)
                        &&& ctx.amount == scan_amount(toks, 0)
                    },
                }
            }),
    {
        let lang = Language::from_code(language);
        let folded = fold_str(message);
        let toks = tokenize(folded.as_str());
        let ghost tv = views_of(toks@);
        let n = toks.len();
        proof {
            assert(tv.len() == toks@.len());
        }
        if n == 0 {
            return Err(ParserError::EmptyInput);
        }

        let mut keys: Vec<PromptKey> = Vec::new();
        let mut i: usize = 0;
        while i < n
            invariant
                n == toks@.len(),
                tv == views_of(toks@),
                tv.len() == n,
                i <= n,
                keys@.no_duplicates(),
                forall|k: PromptKey|
                    keys@.contains(k) <==> (exists|j: int|
                        0 <= j < i && key_of_token(lang, #[trigger] tv[j]) == Some(k)),
            decreases n - i,
        {
            let m = key_of_token_exec(lang, toks[i].as_str());
            proof {
                assert(tv[i as int] == toks@[i as int]@);
            }
            let ghost keys0 = keys@;
            match m {
                Some(k0) => {
                    if !contains_key(&keys, k0) {
                        keys.push(k0);
                        proof {
                            assert forall|a: int, b: int|
                                0 <= a < b < keys@.len() implies keys@[a] != keys@[b] by {
                                if b == keys@.len() - 1 {
                                    if keys@[a] == k0 {
                                        assert(keys0[a] == k0);
                                        assert(keys0.contains(k0));
                                    }
                                }
                            }
                            assert(keys@.no_duplicates());
                        }
                    }
                },
                None => {},
            }
            proof {
                assert forall|k: PromptKey| keys@.contains(k) implies (exists|j: int|
                    0 <= j < i + 1 && key_of_token(lang, #[trigger] tv[j]) == Some(k)) by {
                    let ji = choose|ji: int| 0 <= ji < keys@.len() && keys@[ji] == k;
                    if ji < keys0.len() {
                        assert(keys0[ji] == k);
                        assert(keys0.contains(k));
                        let j0 = choose|j0: int|
                            0 <= j0 < i && key_of_token(lang, #[trigger] tv[j0]) == Some(k);
                        assert(key_of_token(lang, tv[j0]) == Some(k));
                    } else {
                        assert(key_of_token(lang, tv[i as int]) == Some(k));
                    }
                }
                assert forall|k: PromptKey|
                    (exists|j: int|
                        0 <= j < i + 1 && key_of_token(lang, #[trigger] tv[j]) == Some(
                            k,
                        )) implies keys@.contains(k) by {
                    let j = choose|j: int|
                        0 <= j < i + 1 && key_of_token(lang, #[trigger] tv[j]) == Some(k);
                    if j < i {
                        assert(keys0.contains(k));
                        let jj = choose|jj: int| 0 <= jj < keys0.len() && keys0[jj] == k;
                        assert(keys@[jj] == k);
                    } else {
                        assert(m == Some(k));
                        if keys0.contains(k) {
                            let jj = choose|jj: int| 0 <= jj < keys0.len() && keys0[jj] == k;
                            assert(keys@[jj] == k);
                        } else {
                            assert(keys@[keys@.len() - 1] == k);
                        }
                    }
                }
            }
            i = i + 1;
        }
        proof {
            assert(forall|k: PromptKey| keys@.contains(k) <==> has_key_from(lang, tv, k, 0));
        }

        let mut period: Option<Period> = None;
        let mut j: usize = 0;
        while j < n && period.is_none()
            invariant
                n == toks@.len(),
                tv == views_of(toks@),
                tv.len() == n,
                j <= n,
                match period {
                    Some(p) => scan_period(lang, tv, 0) == Some(p),
                    None => scan_period(lang, tv, 0) == scan_period(lang, tv, j as int),
                },
            decreases n - j,
        {
            proof {
                assert(tv[j as int] == toks@[j as int]@);
            }
            period = period_of_token_exec(lang, toks[j].as_str());
            j = j + 1;
        }

        let mut amount: Option<usize> = None;
        let mut j2: usize = 0;
        while j2 < n && amount.is_none()
            invariant
                n == toks@.len(),
                tv == views_of(toks@),
                tv.len() == n,
                j2 <= n,
                match amount {
                    Some(a) => scan_amount(tv, 0) == Some(a),
                    None => scan_amount(tv, 0) == scan_amount(tv, j2 as int),
                },
            decreases n - j2,
        {
            proof {
                assert(tv[j2 as int] == toks@[j2 as int]@);
            }
            amount = amount_of_token_exec(toks[j2].as_str());
            j2 = j2 + 1;
        }

        Ok(PromptContext { keys, period, amount })
    }
}

impl Default for ContextParser {
    /// Same as `new`.
    fn default() -> Self {
        ContextParser::new()
    }
}

/// Membership test on the collected key list.
fn contains_key(keys: &Vec<PromptKey>, k: PromptKey) -> (r: bool)
    ensures
        r == keys@.contains(k),
{
    let n = keys.len();
    let mut i: usize = 0;
    while i < n
        invariant
            n == keys@.len(),
            i <= n,
            forall|j: int| 0 <= j < i ==> keys@[j] != k,
        decreases n - i,
    {
        if keys[i] == k {
            return true;
        }
        i = i + 1;
    }
    false
}

} // verus!
