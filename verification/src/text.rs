//! Character-level string utilities: equality and prefix tests on `&str`,
//! ASCII case folding, and decimal rendering of integers. Everything here is
//! verified against `Seq<char>` views.

use vstd::prelude::*;

verus! {

/// Relies on String::push: appends exactly one character at the end.
#[verifier::external_body]
pub fn push_char(s: &mut String, c: char)
    ensures
        final(s)@ == old(s)@.push(c),
{
    s.push(c)
}

/// Character-by-character equality of two string slices.
pub fn str_eq(a: &str, b: &str) -> (r: bool)
    ensures
        r == (a@ == b@),
{
    let n = a.unicode_len();
    if n != b.unicode_len() {
        assert(a@.len() != b@.len());
        return false;
    }
    let mut i: usize = 0;
    while i < n
        invariant
            n == a@.len(),
            n == b@.len(),
            i <= n,
            forall|k: int| 0 <= k < i ==> a@[k] == b@[k],
        decreases n - i,
    {
        if a.get_char(i) != b.get_char(i) {
            return false;
        }
        i = i + 1;
    }
    proof {
        assert(a@ =~= b@);
    }
    true
}

/// `p` is a prefix of `s`.
pub open spec fn prefix_of(p: Seq<char>, s: Seq<char>) -> bool {
    p.len() <= s.len() && s.take(p.len() as int) == p
}

/// Prefix test, character by character.
pub fn str_starts_with(s: &str, p: &str) -> (r: bool)
    ensures
        r == prefix_of(p@, s@),
{
    let np = p.unicode_len();
    if np > s.unicode_len() {
        return false;
    }
    let mut i: usize = 0;
    while i < np
        invariant
            np == p@.len(),
            np <= s@.len(),
            i <= np,
            forall|k: int| 0 <= k < i ==> s@[k] == p@[k],
        decreases np - i,
    {
        if s.get_char(i) != p.get_char(i) {
            assert(!prefix_of(p@, s@)) by {
                if prefix_of(p@, s@) {
                    assert(s@.take(p@.len() as int)[i as int] == s@[i as int]);
                }
            }
            return false;
        }
        i = i + 1;
    }
    proof {
        assert(s@.take(p@.len() as int) =~= p@);
    }
    true
}

/// The string contains the character.
pub fn str_contains_char(s: &str, c: char) -> (r: bool)
    ensures
        r == s@.contains(c),
{
    let n = s.unicode_len();
    let mut i: usize = 0;
    while i < n
        invariant
            n == s@.len(),
            i <= n,
            forall|k: int| 0 <= k < i ==> s@[k] != c,
        decreases n - i,
    {
        if s.get_char(i) == c {
            assert(s@.contains(c));
            return true;
        }
        i = i + 1;
    }
    false
}

/// ASCII whitespace, as trimming sees it.
pub open spec fn is_space(c: char) -> bool {
    c == ' ' || c == '\t' || c == '\n' || c == '\r'
}

/// Whether the string is empty after trimming: nothing but whitespace.
pub fn str_is_blank(s: &str) -> (r: bool)
    ensures
        r == (forall|k: int| 0 <= k < s@.len() ==> is_space(#[trigger] s@[k])),
{
    let n = s.unicode_len();
    let mut i: usize = 0;
    while i < n
        invariant
            n == s@.len(),
            i <= n,
            forall|k: int| 0 <= k < i ==> is_space(#[trigger] s@[k]),
        decreases n - i,
    {
        let c = s.get_char(i);
        if !(c == ' ' || c == '\t' || c == '\n' || c == '\r') {
            return false;
        }
        i = i + 1;
    }
    true
}

/// Case folding of one character: ASCII upper-case letters fold by offset,
/// the non-ASCII letters the keyword tables can meet fold by the explicit
/// map below, and everything else is unchanged.
pub open spec fn fold_char(c: char) -> char {
    if 'A' <= c && c <= 'Z' {
        ((c as u8) + 32) as char
    } else {
        fold_letter(c)
    }
}

/// The non-ASCII upper-to-lower map: the Cyrillic alphabet with the
/// Ukrainian letters (Ґ Є І Ї) and Ё, and the German umlauts.
pub open spec fn fold_letter(c: char) -> char {
    match c {
        'А' => 'а',
        'Б' => 'б',
        'В' => 'в',
        'Г' => 'г',
        'Д' => 'д',
        'Е' => 'е',
        'Ж' => 'ж',
        'З' => 'з',
        'И' => 'и',
        'Й' => 'й',
        'К' => 'к',
        'Л' => 'л',
        'М' => 'м',
        'Н' => 'н',
        'О' => 'о',
        'П' => 'п',
        'Р' => 'р',
        'С' => 'с',
        'Т' => 'т',
        'У' => 'у',
        'Ф' => 'ф',
        'Х' => 'х',
        'Ц' => 'ц',
        'Ч' => 'ч',
        'Ш' => 'ш',
        'Щ' => 'щ',
        'Ъ' => 'ъ',
        'Ы' => 'ы',
        'Ь' => 'ь',
        'Э' => 'э',
        'Ю' => 'ю',
        'Я' => 'я',
        'Ё' => 'ё',
        'Ґ' => 'ґ',
        'Є' => 'є',
        'І' => 'і',
        'Ї' => 'ї',
        'Ä' => 'ä',
        'Ö' => 'ö',
        'Ü' => 'ü',
        _ => c,
    }
}

/// Case folding of a whole string, character by character.
pub open spec fn fold_seq(s: Seq<char>) -> Seq<char> {
    s.map_values(|c: char| fold_char(c))
}

/// Executable case fold of one character.
pub fn fold_char_exec(c: char) -> (r: char)
    ensures
        r == fold_char(c),
{
    if 'A' <= c && c <= 'Z' {
        ((c as u8) + 32) as char
    } else {
        fold_letter_exec(c)
    }
}

/// Executable form of `fold_letter`.
fn fold_letter_exec(c: char) -> (r: char)
    ensures
        r == fold_letter(c),
{
    match c {
        'А' => 'а',
        'Б' => 'б',
        'В' => 'в',
        'Г' => 'г',
        'Д' => 'д',
        'Е' => 'е',
        'Ж' => 'ж',
        'З' => 'з',
        'И' => 'и',
        'Й' => 'й',
        'К' => 'к',
        'Л' => 'л',
        'М' => 'м',
        'Н' => 'н',
        'О' => 'о',
        'П' => 'п',
        'Р' => 'р',
        'С' => 'с',
        'Т' => 'т',
        'У' => 'у',
        'Ф' => 'ф',
        'Х' => 'х',
        'Ц' => 'ц',
        'Ч' => 'ч',
        'Ш' => 'ш',
        'Щ' => 'щ',
        'Ъ' => 'ъ',
        'Ы' => 'ы',
        'Ь' => 'ь',
        'Э' => 'э',
        'Ю' => 'ю',
        'Я' => 'я',
        'Ё' => 'ё',
        'Ґ' => 'ґ',
        'Є' => 'є',
        'І' => 'і',
        'Ї' => 'ї',
        'Ä' => 'ä',
        'Ö' => 'ö',
        'Ü' => 'ü',
        _ => c,
    }
}

/// Executable ASCII case fold of a string.
pub fn fold_str(s: &str) -> (r: String)
    ensures
        r@ == fold_seq(s@),
{
    let n = s.unicode_len();
    let mut out = String::new();
    let mut i: usize = 0;
    while i < n
        invariant
            n == s@.len(),
            i <= n,
            out@ == fold_seq(s@.take(i as int)),
        decreases n - i,
    {
        let c = fold_char_exec(s.get_char(i));
        push_char(&mut out, c);
        proof {
            assert(fold_seq(s@.take(i + 1)) =~= fold_seq(s@.take(i as int)).push(fold_char(s@[i as int])));
        }
        i = i + 1;
    }
    proof {
        assert(s@.take(n as int) =~= s@);
    }
    out
}

/// The decimal digit character for a value below ten.
pub open spec fn digit_char(d: u64) -> char {
    (0x30u8 + (d as u8)) as char
}

/// The decimal rendering of `n`, with no leading zeros (just "0" for zero).
pub open spec fn dec_str(n: u64) -> Seq<char>
    decreases n,
{
    if n < 10 {
        seq![digit_char(n)]
    } else {
        dec_str(n / 10).push(digit_char(n % 10))
    }
}

/// Renders `n` in decimal.
pub fn u64_to_dec(n: u64) -> (r: String)
    ensures
        r@ == dec_str(n),
{
    let mut digits: Vec<char> = Vec::new();
    let mut m: u64 = n;
    loop
        invariant_except_break
            dec_str(n) == dec_str(m) + digits@.reverse(),
        ensures
            dec_str(n) == digits@.reverse(),
        decreases m,
    {
        let d: u64 = m % 10;
        let c = exec_digit_char(d);
        let m2: u64 = m / 10;
        if m2 == 0 {
            proof {
                assert(m < 10 && d == m);
                assert(dec_str(m) =~= seq![c]);
                assert((digits@.push(c)).reverse() =~= seq![c] + digits@.reverse());
                assert(dec_str(n) =~= (digits@.push(c)).reverse());
            }
            digits.push(c);
            break;
        } else {
            proof {
                assert(m >= 10);
                assert(dec_str(m) == dec_str(m / 10).push(digit_char(m % 10)));
                assert((digits@.push(c)).reverse() =~= seq![c] + digits@.reverse());
                assert(dec_str(m2) + (digits@.push(c)).reverse() =~= dec_str(m) + digits@.reverse());
            }
            digits.push(c);
            m = m2;
        }
    }
    let mut out = String::new();
    let k = digits.len();
    let mut i: usize = k;
    while i > 0
        invariant
            k == digits@.len(),
            i <= k,
            out@ == digits@.reverse().take((k - i) as int),
        decreases i,
    {
        i = i - 1;
        push_char(&mut out, digits[i]);
        proof {
            assert(digits@.reverse().take((k - i) as int) =~= digits@.reverse().take((k - i - 1) as int).push(digits@[i as int]));
        }
    }
    proof {
        assert(digits@.reverse().take(k as int) =~= digits@.reverse());
    }
    out
}

/// Executable form of `digit_char`.
pub fn exec_digit_char(d: u64) -> (c: char)
    requires
        d < 10,
    ensures
        c == digit_char(d),
{
    (0x30u8 + (d as u8)) as char
}

/// Ten to the `n`.
pub open spec fn pow10(n: nat) -> int
    decreases n,
{
    if n == 0 {
        1
    } else {
        10 * pow10((n - 1) as nat)
    }
}

/// Powers of ten are positive.
pub proof fn lemma_pow10_pos(n: nat)
    ensures
        pow10(n) >= 1,
    decreases n,
{
    if n > 0 {
        lemma_pow10_pos((n - 1) as nat);
    }
}

/// Powers of ten grow with the exponent.
pub proof fn lemma_pow10_mono(a: nat, b: nat)
    requires
        a <= b,
    ensures
        pow10(a) <= pow10(b),
    decreases b,
{
    if a < b {
        lemma_pow10_mono(a, (b - 1) as nat);
        lemma_pow10_pos((b - 1) as nat);
    }
}

/// Index of the first occurrence of `c` in `s`; `s.len()` when absent.
pub open spec fn idx_of(s: Seq<char>, c: char) -> int
    decreases s.len(),
{
    if s.len() == 0 {
        0
    } else if s[0] == c {
        0
    } else {
        1 + idx_of(s.drop_first(), c)
    }
}

/// `idx_of` finds the first occurrence: no earlier position holds `c`, and
/// the result is `s.len()` exactly when `c` does not occur.
pub proof fn lemma_idx_of(s: Seq<char>, c: char)
    ensures
        0 <= idx_of(s, c) <= s.len(),
        idx_of(s, c) < s.len() ==> s[idx_of(s, c)] == c,
        forall|k: int| 0 <= k < idx_of(s, c) ==> s[k] != c,
        (idx_of(s, c) == s.len()) <==> !s.contains(c),
    decreases s.len(),
{
    if s.len() == 0 {
        assert(!s.contains(c));
    } else if s[0] == c {
        assert(s.contains(c));
    } else {
        lemma_idx_of(s.drop_first(), c);
        let i = idx_of(s, c);
        assert(forall|k: int| 0 <= k < i - 1 ==> s.drop_first()[k] == s[k + 1]);
        assert forall|k: int| 0 <= k < i implies s[k] != c by {
            if k > 0 {
                assert(s[k] == s.drop_first()[k - 1]);
            }
        }
        if i < s.len() {
            assert(s[i] == s.drop_first()[i - 1]);
            assert(s.contains(c));
        } else {
            if s.contains(c) {
                let w = choose|w: int| 0 <= w < s.len() && s[w] == c;
                assert(w > 0);
                assert(s.drop_first()[w - 1] == c);
                assert(s.drop_first().contains(c));
            }
        }
    }
}

/// Lower-case hexadecimal digit character for a value below sixteen.
pub open spec fn hex_digit(d: u64) -> char {
    if d < 10 {
        digit_char(d)
    } else {
        (0x61u8 + ((d - 10) as u8)) as char
    }
}

/// The two lower-case hexadecimal digits of a byte.
pub open spec fn hex2(b: u8) -> Seq<char> {
    seq![hex_digit((b / 16) as u64), hex_digit((b % 16) as u64)]
}

/// Executable form of `hex_digit`.
pub fn exec_hex_digit(d: u64) -> (c: char)
    requires
        d < 16,
    ensures
        c == hex_digit(d),
{
    if d < 10 {
        exec_digit_char(d)
    } else {
        (0x61u8 + ((d - 10) as u8)) as char
    }
}

/// Appends the two hexadecimal digits of `b` to `out`.
pub fn push_hex2(out: &mut String, b: u8)
    ensures
        final(out)@ == old(out)@ + hex2(b),
{
    let hi = exec_hex_digit((b / 16) as u64);
    let lo = exec_hex_digit((b % 16) as u64);
    push_char(out, hi);
    push_char(out, lo);
    proof {
        assert(out@ =~= old(out)@ + hex2(b));
    }
}

} // verus!
