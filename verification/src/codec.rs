//! The wire codec for `StreamEvent`: a fixed-width, self-delimiting text
//! framing. Every integer is 20 decimal digits (the unsigned 64-bit range),
//! signed values carry a sign character, strings are length-prefixed, and
//! each event starts with a one-character tag. Decoding is proved to invert
//! encoding exactly.

use vstd::prelude::*;

use vstd::arithmetic::div_mod::{
    lemma_basic_div, lemma_div_denominator, lemma_div_multiples_vanish,
    lemma_fundamental_div_mod,
};

use crate::context::{dec_val, is_digit, Period};
use crate::events::{EventView, PayloadView, StreamEvent, StructuredPayload};
use crate::task::TaskParameters;
use crate::text::{digit_char, exec_digit_char, lemma_pow10_pos, pow10, push_char};

verus! {

/// The 20-digit decimal rendering of an unsigned 64-bit value, most
/// significant digit first, zero-padded.
pub open spec fn enc_u64(n: u64) -> Seq<char> {
    Seq::new(20, |i: int| digit_char(((n as int / pow10((19 - i) as nat)) % 10) as u64))
}

/// Consumes a 20-digit group from the front of `s`, when present and in
/// range.
pub open spec fn parse_u64_v(s: Seq<char>) -> Option<(u64, Seq<char>)> {
    if s.len() >= 20 && (forall|k: int| 0 <= k < 20 ==> is_digit(#[trigger] s[k])) && dec_val(
        s.take(20),
    ) <= u64::MAX {
        Some((dec_val(s.take(20)) as u64, s.skip(20)))
    } else {
        None
    }
}

/// A digit character reads back as its value.
proof fn lemma_digit_char_val(d: u64)
    requires
        d < 10,
    ensures
        digit_char(d) as u32 == 0x30 + d,
        is_digit(digit_char(d)),
{
}

/// Every character of an encoded group is a digit.
proof fn lemma_enc_u64_digits(n: u64)
    ensures
        forall|k: int| 0 <= k < 20 ==> is_digit(#[trigger] enc_u64(n)[k]),
{
    assert forall|k: int| 0 <= k < 20 implies is_digit(#[trigger] enc_u64(n)[k]) by {
        lemma_pow10_pos((19 - k) as nat);
        let d = (n as int / pow10((19 - k) as nat)) % 10;
        assert(0 <= d < 10);
        lemma_digit_char_val(d as u64);
    }
}

/// Reading the first `j` digits of an encoded group yields the value with
/// its last `20 - j` digits cut off.
proof fn lemma_dec_val_enc_prefix(n: u64, j: int)
    requires
        0 <= j <= 20,
    ensures
        dec_val(enc_u64(n).take(j)) == n as int / pow10((20 - j) as nat),
    decreases j,
{
    if j == 0 {
        assert(enc_u64(n).take(0) =~= Seq::<char>::empty());
        reveal_with_fuel(pow10, 21);
        assert(pow10(20) == 100000000000000000000);
        lemma_basic_div(n as int, pow10(20));
    } else {
        lemma_dec_val_enc_prefix(n, j - 1);
        let p = pow10((20 - j) as nat);
        let a = n as int / p;
        let v = a % 10;
        lemma_pow10_pos((20 - j) as nat);
        assert(enc_u64(n).take(j).drop_last() =~= enc_u64(n).take(j - 1));
        assert(enc_u64(n).take(j).last() == enc_u64(n)[j - 1]);
        assert(enc_u64(n)[j - 1] == digit_char(((n as int / pow10((19 - (j - 1)) as nat)) % 10) as u64));
        assert((19 - (j - 1)) as nat == (20 - j) as nat);
        assert(0 <= v < 10);
        lemma_digit_char_val(v as u64);
        assert(digit_char(v as u64) as u32 - 0x30 == v);
        assert(pow10((21 - j) as nat) == 10 * pow10((20 - j) as nat));
        lemma_div_denominator(n as int, p, 10);
        assert(n as int / pow10((21 - j) as nat) == a / 10);
        lemma_fundamental_div_mod(a, 10);
        assert(dec_val(enc_u64(n).take(j)) == (a / 10) * 10 + v);
        assert((a / 10) * 10 + a % 10 == a);
    }
}

/// The whole encoded group reads back as its value.
proof fn lemma_dec_val_enc(n: u64)
    ensures
        dec_val(enc_u64(n)) == n,
{
    lemma_dec_val_enc_prefix(n, 20);
    assert(enc_u64(n).take(20) =~= enc_u64(n));
    assert(pow10(0) == 1);
}

/// Parsing inverts encoding for unsigned 64-bit groups, whatever follows.
pub proof fn lemma_rt_u64(n: u64, rest: Seq<char>)
    ensures
        parse_u64_v(enc_u64(n) + rest) == Some((n, rest)),
{
    let s = enc_u64(n) + rest;
    assert(s.len() >= 20);
    assert(s.take(20) =~= enc_u64(n));
    lemma_enc_u64_digits(n);
    assert forall|k: int| 0 <= k < 20 implies is_digit(#[trigger] s[k]) by {
        assert(s[k] == enc_u64(n)[k]);
    }
    lemma_dec_val_enc(n);
    assert(s.skip(20) =~= rest);
}

/// Appends the 20-digit group for `n`.
pub fn encode_u64(out: &mut String, n: u64)
    ensures
        final(out)@ == old(out)@ + enc_u64(n),
{
    let mut p: u64 = 10000000000000000000;
    proof {
        reveal_with_fuel(pow10, 21);
        assert(pow10(19) == 10000000000000000000);
        assert(enc_u64(n).take(0) =~= Seq::<char>::empty());
        assert(out@ + enc_u64(n).take(0) =~= out@);
    }
    let mut k: usize = 0;
    while k < 20
        invariant
            k <= 20,
            k < 20 ==> p as int == pow10((19 - k) as nat),
            out@ == old(out)@ + enc_u64(n).take(k as int),
        decreases 20 - k,
    {
        proof {
            lemma_pow10_pos((19 - k) as nat);
        }
        let d: u64 = (n / p) % 10;
        push_char(out, exec_digit_char(d));
        proof {
            assert(enc_u64(n)[k as int] == digit_char(((n as int / pow10((19 - k) as nat)) % 10) as u64));
            assert(d as int == (n as int / pow10((19 - k) as nat)) % 10);
            assert(enc_u64(n).take(k + 1) =~= enc_u64(n).take(k as int).push(enc_u64(n)[k as int]));
            assert(out@ =~= old(out)@ + enc_u64(n).take(k + 1));
        }
        if k < 19 {
            proof {
                assert(pow10((19 - k) as nat) == 10 * pow10((18 - k) as nat));
                lemma_div_multiples_vanish(pow10((18 - k) as nat), 10);
            }
            p = p / 10;
        }
        k = k + 1;
    }
    proof {
        assert(enc_u64(n).take(20) =~= enc_u64(n));
    }
}

/// Reads a 20-digit group at `pos`.
pub fn parse_u64_at(s: &str, pos: usize) -> (r: Option<(u64, usize)>)
    requires
        pos <= s@.len(),
    ensures
        match r {
            Some(pr) => {
                &&& pr.1 == pos + 20 <= s@.len()
                &&& parse_u64_v(s@.skip(pos as int)) == Some((pr.0, s@.skip(pr.1 as int)))
            },
            None => parse_u64_v(s@.skip(pos as int)) is None,
        },
{
    let n = s.unicode_len();
    if n - pos < 20 {
        return None;
    }
    let ghost tail = s@.skip(pos as int);
    let ghost ds = tail.take(20);
    let mut acc: u128 = 0;
    let mut k: usize = 0;
    proof {
        assert(ds.take(0) =~= Seq::<char>::empty());
        lemma_pow10_pos(0);
    }
    while k < 20
        invariant
            n == s@.len(),
            pos + 20 <= n,
            tail == s@.skip(pos as int),
            ds == tail.take(20),
            k <= 20,
            forall|j: int| 0 <= j < k ==> is_digit(#[trigger] ds[j]),
            acc == dec_val(ds.take(k as int)),
            acc < pow10(k as nat),
        decreases 20 - k,
    {
        let c = s.get_char(pos + k);
        proof {
            assert(ds[k as int] == s@[pos + k]);
        }
        if !('0' <= c && c <= '9') {
            return None;
        }
        let d: u128 = (c as u32 - 0x30) as u128;
        proof {
            assert(ds.take(k + 1).drop_last() =~= ds.take(k as int));
            assert(ds.take(k + 1).last() == ds[k as int]);
            assert(pow10((k + 1) as nat) == 10 * pow10(k as nat));
            reveal_with_fuel(pow10, 21);
            assert(pow10(20) == 100000000000000000000);
            crate::text::lemma_pow10_mono(k as nat, 19);
        }
        acc = acc * 10 + d;
        k = k + 1;
    }
    proof {
        assert(ds.take(20) =~= ds);
        reveal_with_fuel(pow10, 21);
        assert(pow10(20) == 100000000000000000000);
    }
    if acc > u64::MAX as u128 {
        return None;
    }
    proof {
        assert(s@.skip((pos + 20) as int) =~= tail.skip(20));
        assert(tail.len() >= 20);
        assert forall|k: int| 0 <= k < 20 implies is_digit(#[trigger] tail[k]) by {
            assert(tail[k] == ds[k]);
        }
        assert(dec_val(tail.take(20)) == acc);
    }
    Some((acc as u64, pos + 20))
}

/// A length-prefixed string: its length as a 20-digit group, then its
/// characters.
pub open spec fn enc_str(t: Seq<char>) -> Seq<char> {
    enc_u64(t.len() as u64) + t
}

/// Consumes a length-prefixed string from the front of `s`.
pub open spec fn parse_str_v(s: Seq<char>) -> Option<(Seq<char>, Seq<char>)> {
    match parse_u64_v(s) {
        Some((ln, rest)) => if rest.len() >= ln {
            Some((rest.take(ln as int), rest.skip(ln as int)))
        } else {
            None
        },
        None => None,
    }
}

/// Parsing inverts encoding for strings whose length fits the group.
pub proof fn lemma_rt_str(t: Seq<char>, rest: Seq<char>)
    requires
        t.len() <= u64::MAX,
    ensures
        parse_str_v(enc_str(t) + rest) == Some((t, rest)),
{
    let ln = t.len() as u64;
    assert(enc_str(t) + rest =~= enc_u64(ln) + (t + rest));
    lemma_rt_u64(ln, t + rest);
    assert((t + rest).take(ln as int) =~= t);
    assert((t + rest).skip(ln as int) =~= rest);
}

/// Appends the encoding of a string.
pub fn encode_str(out: &mut String, t: &str)
    ensures
        final(out)@ == old(out)@ + enc_str(t@),
{
    let n = t.unicode_len();
    encode_u64(out, n as u64);
    out.append(t);
    proof {
        assert(out@ =~= old(out)@ + enc_str(t@));
    }
}

/// Reads a length-prefixed string at `pos`.
pub fn parse_string_at(s: &str, pos: usize) -> (r: Option<(String, usize)>)
    requires
        pos <= s@.len(),
    ensures
        match r {
            Some(pr) => {
                &&& pos <= pr.1 <= s@.len()
                &&& parse_str_v(s@.skip(pos as int)) == Some((pr.0@, s@.skip(pr.1 as int)))
            },
            None => parse_str_v(s@.skip(pos as int)) is None,
        },
{
    let n = s.unicode_len();
    match parse_u64_at(s, pos) {
        None => None,
        Some((ln, p1)) => {
            let remaining = n - p1;
            if ln > remaining as u64 {
                proof {
                    assert(s@.skip(p1 as int).len() < ln);
                }
                return None;
            }
            let take_n = ln as usize;
            let mut tmp = String::new();
            let mut j: usize = 0;
            while j < take_n
                invariant
                    n == s@.len(),
                    p1 + take_n <= n,
                    j <= take_n,
                    tmp@ == s@.subrange(p1 as int, p1 + j),
                decreases take_n - j,
            {
                push_char(&mut tmp, s.get_char(p1 + j));
                proof {
                    assert(s@.subrange(p1 as int, p1 + j + 1) =~= s@.subrange(
                        p1 as int,
                        p1 + j,
                    ).push(s@[p1 + j]));
                }
                j = j + 1;
            }
            proof {
                assert(s@.skip(p1 as int).take(ln as int) =~= s@.subrange(
                    p1 as int,
                    p1 + take_n,
                ));
                assert(s@.skip(p1 as int).skip(ln as int) =~= s@.skip((p1 + take_n) as int));
            }
            Some((tmp, p1 + take_n))
        },
    }
}

/// A signed 64-bit value: '+' and the value itself, or '-' and the value's
/// one's complement, each as a 20-digit group.
pub open spec fn enc_i64(t: i64) -> Seq<char> {
    if t >= 0 {
        seq!['+'] + enc_u64(t as u64)
    } else {
        seq!['-'] + enc_u64((-1 - t) as u64)
    }
}

/// Consumes a signed 64-bit value from the front of `s`.
pub open spec fn parse_i64_v(s: Seq<char>) -> Option<(i64, Seq<char>)> {
    if s.len() < 1 {
        None
    } else if s[0] == '+' {
        match parse_u64_v(s.skip(1)) {
            Some((v, rest)) => if v <= i64::MAX as u64 {
                Some((v as i64, rest))
            } else {
                None
            },
            None => None,
        }
    } else if s[0] == '-' {
        match parse_u64_v(s.skip(1)) {
            Some((v, rest)) => if v <= i64::MAX as u64 {
                Some(((-1 - v as int) as i64, rest))
            } else {
                None
            },
            None => None,
        }
    } else {
        None
    }
}

/// Parsing inverts encoding for signed values.
pub proof fn lemma_rt_i64(t: i64, rest: Seq<char>)
    ensures
        parse_i64_v(enc_i64(t) + rest) == Some((t, rest)),
{
    if t >= 0 {
        assert(enc_i64(t) + rest =~= seq!['+'] + (enc_u64(t as u64) + rest));
        assert((enc_i64(t) + rest)[0] == '+');
        assert((enc_i64(t) + rest).skip(1) =~= enc_u64(t as u64) + rest);
        lemma_rt_u64(t as u64, rest);
    } else {
        let u = (-1 - t) as u64;
        assert(enc_i64(t) + rest =~= seq!['-'] + (enc_u64(u) + rest));
        assert((enc_i64(t) + rest)[0] == '-');
        assert((enc_i64(t) + rest).skip(1) =~= enc_u64(u) + rest);
        lemma_rt_u64(u, rest);
        assert(-1 - u as int == t);
    }
}

/// Appends the encoding of a signed value.
pub fn encode_i64(out: &mut String, t: i64)
    ensures
        final(out)@ == old(out)@ + enc_i64(t),
{
    if t >= 0 {
        push_char(out, '+');
        encode_u64(out, t as u64);
    } else {
        push_char(out, '-');
        let u: u64 = (-1i128 - t as i128) as u64;
        proof {
            assert(u as int == -1 - t as int);
        }
        encode_u64(out, u);
    }
    proof {
        assert(out@ =~= old(out)@ + enc_i64(t));
    }
}

/// Reads a signed value at `pos`.
pub fn parse_i64_at(s: &str, pos: usize) -> (r: Option<(i64, usize)>)
    requires
        pos <= s@.len(),
    ensures
        match r {
            Some(pr) => {
                &&& pos <= pr.1 <= s@.len()
                &&& parse_i64_v(s@.skip(pos as int)) == Some((pr.0, s@.skip(pr.1 as int)))
            },
            None => parse_i64_v(s@.skip(pos as int)) is None,
        },
{
    let n = s.unicode_len();
    if pos >= n {
        return None;
    }
    let c = s.get_char(pos);
    proof {
        assert(s@.skip(pos as int)[0] == s@[pos as int]);
        assert(s@.skip(pos as int).skip(1) =~= s@.skip(pos + 1));
    }
    if c == '+' {
        match parse_u64_at(s, pos + 1) {
            Some((v, p2)) => {
                if v <= i64::MAX as u64 {
                    Some((v as i64, p2))
                } else {
                    None
                }
            },
            None => None,
        }
    } else if c == '-' {
        match parse_u64_at(s, pos + 1) {
            Some((v, p2)) => {
                if v <= i64::MAX as u64 {
                    let t: i64 = (-1i128 - v as i128) as i64;
                    proof {
                        assert(t as int == -1 - v as int);
                    }
                    Some((t, p2))
                } else {
                    None
                }
            },
            None => None,
        }
    } else {
        None
    }
}

/// A boolean: '1' for true, '0' for false.
pub open spec fn enc_bool(b: bool) -> Seq<char> {
    if b {
        seq!['1']
    } else {
        seq!['0']
    }
}

/// Consumes a boolean from the front of `s`.
pub open spec fn parse_bool_v(s: Seq<char>) -> Option<(bool, Seq<char>)> {
    if s.len() < 1 {
        None
    } else if s[0] == '1' {
        Some((true, s.skip(1)))
    } else if s[0] == '0' {
        Some((false, s.skip(1)))
    } else {
        None
    }
}

/// Parsing inverts encoding for booleans.
pub proof fn lemma_rt_bool(b: bool, rest: Seq<char>)
    ensures
        parse_bool_v(enc_bool(b) + rest) == Some((b, rest)),
{
    assert((enc_bool(b) + rest)[0] == if b { '1' } else { '0' });
    assert((enc_bool(b) + rest).skip(1) =~= rest);
}

/// Appends the encoding of a boolean.
pub fn encode_bool(out: &mut String, b: bool)
    ensures
        final(out)@ == old(out)@ + enc_bool(b),
{
    push_char(out, if b { '1' } else { '0' });
    proof {
        assert(out@ =~= old(out)@ + enc_bool(b));
    }
}

/// Reads a boolean at `pos`.
pub fn parse_bool_at(s: &str, pos: usize) -> (r: Option<(bool, usize)>)
    requires
        pos <= s@.len(),
    ensures
        match r {
            Some(pr) => {
                &&& pos <= pr.1 <= s@.len()
                &&& parse_bool_v(s@.skip(pos as int)) == Some((pr.0, s@.skip(pr.1 as int)))
            },
            None => parse_bool_v(s@.skip(pos as int)) is None,
        },
{
    let n = s.unicode_len();
    if pos >= n {
        return None;
    }
    let c = s.get_char(pos);
    proof {
        assert(s@.skip(pos as int)[0] == s@[pos as int]);
        assert(s@.skip(pos as int).skip(1) =~= s@.skip(pos + 1));
    }
    if c == '1' {
        Some((true, pos + 1))
    } else if c == '0' {
        Some((false, pos + 1))
    } else {
        None
    }
}

/// An optional period: 'n' for absent, else the period's own letter.
pub open spec fn enc_opt_period(p: Option<Period>) -> Seq<char> {
    match p {
        None => seq!['n'],
        Some(Period::Day) => seq!['d'],
        Some(Period::Week) => seq!['w'],
        Some(Period::Month) => seq!['m'],
        Some(Period::Year) => seq!['y'],
    }
}

/// Consumes an optional period from the front of `s`.
pub open spec fn parse_opt_period_v(s: Seq<char>) -> Option<(Option<Period>, Seq<char>)> {
    if s.len() < 1 {
        None
    } else if s[0] == 'n' {
        Some((None, s.skip(1)))
    } else if s[0] == 'd' {
        Some((Some(Period::Day), s.skip(1)))
    } else if s[0] == 'w' {
        Some((Some(Period::Week), s.skip(1)))
    } else if s[0] == 'm' {
        Some((Some(Period::Month), s.skip(1)))
    } else if s[0] == 'y' {
        Some((Some(Period::Year), s.skip(1)))
    } else {
        None
    }
}

/// Parsing inverts encoding for optional periods.
pub proof fn lemma_rt_opt_period(p: Option<Period>, rest: Seq<char>)
    ensures
        parse_opt_period_v(enc_opt_period(p) + rest) == Some((p, rest)),
{
    assert((enc_opt_period(p) + rest)[0] == enc_opt_period(p)[0]);
    assert((enc_opt_period(p) + rest).skip(1) =~= rest);
}

/// Appends the encoding of an optional period.
pub fn encode_opt_period(out: &mut String, p: &Option<Period>)
    ensures
        final(out)@ == old(out)@ + enc_opt_period(*p),
{
    let c: char = match p {
        None => 'n',
        Some(Period::Day) => 'd',
        Some(Period::Week) => 'w',
        Some(Period::Month) => 'm',
        Some(Period::Year) => 'y',
    };
    push_char(out, c);
    proof {
        assert(out@ =~= old(out)@ + enc_opt_period(*p));
    }
}

/// Reads an optional period at `pos`.
pub fn parse_opt_period_at(s: &str, pos: usize) -> (r: Option<(Option<Period>, usize)>)
    requires
        pos <= s@.len(),
    ensures
        match r {
            Some(pr) => {
                &&& pos <= pr.1 <= s@.len()
                &&& parse_opt_period_v(s@.skip(pos as int)) == Some((pr.0, s@.skip(pr.1 as int)))
            },
            None => parse_opt_period_v(s@.skip(pos as int)) is None,
        },
{
    let n = s.unicode_len();
    if pos >= n {
        return None;
    }
    let c = s.get_char(pos);
    proof {
        assert(s@.skip(pos as int)[0] == s@[pos as int]);
        assert(s@.skip(pos as int).skip(1) =~= s@.skip(pos + 1));
    }
    if c == 'n' {
        Some((None, pos + 1))
    } else if c == 'd' {
        Some((Some(Period::Day), pos + 1))
    } else if c == 'w' {
        Some((Some(Period::Week), pos + 1))
    } else if c == 'm' {
        Some((Some(Period::Month), pos + 1))
    } else if c == 'y' {
        Some((Some(Period::Year), pos + 1))
    } else {
        None
    }
}

/// An optional amount: 'n' for absent, or 's' and a 20-digit group.
pub open spec fn enc_opt_amount(a: Option<usize>) -> Seq<char> {
    match a {
        None => seq!['n'],
        Some(v) => seq!['s'] + enc_u64(v as u64),
    }
}

/// Consumes an optional amount from the front of `s`.
pub open spec fn parse_opt_amount_v(s: Seq<char>) -> Option<(Option<usize>, Seq<char>)> {
    if s.len() < 1 {
        None
    } else if s[0] == 'n' {
        Some((None, s.skip(1)))
    } else if s[0] == 's' {
        match parse_u64_v(s.skip(1)) {
            Some((v, rest)) => if v <= usize::MAX as u64 {
                Some((Some(v as usize), rest))
            } else {
                None
            },
            None => None,
        }
    } else {
        None
    }
}

/// Parsing inverts encoding for optional amounts.
pub proof fn lemma_rt_opt_amount(a: Option<usize>, rest: Seq<char>)
    ensures
        parse_opt_amount_v(enc_opt_amount(a) + rest) == Some((a, rest)),
{
    match a {
        None => {
            assert((enc_opt_amount(a) + rest)[0] == 'n');
            assert((enc_opt_amount(a) + rest).skip(1) =~= rest);
        },
        Some(v) => {
            assert(enc_opt_amount(a) + rest =~= seq!['s'] + (enc_u64(v as u64) + rest));
            assert((enc_opt_amount(a) + rest)[0] == 's');
            assert((enc_opt_amount(a) + rest).skip(1) =~= enc_u64(v as u64) + rest);
            lemma_rt_u64(v as u64, rest);
        },
    }
}

/// Appends the encoding of an optional amount.
pub fn encode_opt_amount(out: &mut String, a: &Option<usize>)
    ensures
        final(out)@ == old(out)@ + enc_opt_amount(*a),
{
    match a {
        None => {
            push_char(out, 'n');
        },
        Some(v) => {
            push_char(out, 's');
            encode_u64(out, *v as u64);
        },
    }
    proof {
        assert(out@ =~= old(out)@ + enc_opt_amount(*a));
    }
}

/// Reads an optional amount at `pos`.
pub fn parse_opt_amount_at(s: &str, pos: usize) -> (r: Option<(Option<usize>, usize)>)
    requires
        pos <= s@.len(),
    ensures
        match r {
            Some(pr) => {
                &&& pos <= pr.1 <= s@.len()
                &&& parse_opt_amount_v(s@.skip(pos as int)) == Some((pr.0, s@.skip(pr.1 as int)))
            },
            None => parse_opt_amount_v(s@.skip(pos as int)) is None,
        },
{
    let n = s.unicode_len();
    if pos >= n {
        return None;
    }
    let c = s.get_char(pos);
    proof {
        assert(s@.skip(pos as int)[0] == s@[pos as int]);
        assert(s@.skip(pos as int).skip(1) =~= s@.skip(pos + 1));
    }
    if c == 'n' {
        Some((None, pos + 1))
    } else if c == 's' {
        match parse_u64_at(s, pos + 1) {
            Some((v, p2)) => {
                if v <= usize::MAX as u64 {
                    Some((Some(v as usize), p2))
                } else {
                    None
                }
            },
            None => None,
        }
    } else {
        None
    }
}

/// A parameter bundle: its two flags, the period and the amount, in order.
pub open spec fn enc_params(p: TaskParameters) -> Seq<char> {
    enc_bool(p.last) + enc_bool(p.all) + enc_opt_period(p.period) + enc_opt_amount(p.amount)
}

/// Consumes a parameter bundle from the front of `s`.
pub open spec fn parse_params_v(s: Seq<char>) -> Option<(TaskParameters, Seq<char>)> {
    match parse_bool_v(s) {
        None => None,
        Some((last, s1)) => match parse_bool_v(s1) {
            None => None,
            Some((all, s2)) => match parse_opt_period_v(s2) {
                None => None,
                Some((period, s3)) => match parse_opt_amount_v(s3) {
                    None => None,
                    Some((amount, s4)) => Some((TaskParameters { last, all, period, amount }, s4)),
                },
            },
        },
    }
}

/// Parsing inverts encoding for parameter bundles.
pub proof fn lemma_rt_params(p: TaskParameters, rest: Seq<char>)
    ensures
        parse_params_v(enc_params(p) + rest) == Some((p, rest)),
{
    let b = enc_bool(p.last);
    let c = enc_bool(p.all);
    let d = enc_opt_period(p.period);
    let e = enc_opt_amount(p.amount);
    assert(enc_params(p) + rest =~= b + (c + (d + (e + rest))));
    lemma_rt_bool(p.last, c + (d + (e + rest)));
    lemma_rt_bool(p.all, d + (e + rest));
    lemma_rt_opt_period(p.period, e + rest);
    lemma_rt_opt_amount(p.amount, rest);
}

/// Appends the encoding of a parameter bundle.
pub fn encode_params(out: &mut String, p: &TaskParameters)
    ensures
        final(out)@ == old(out)@ + enc_params(*p),
{
    encode_bool(out, p.last);
    encode_bool(out, p.all);
    encode_opt_period(out, &p.period);
    encode_opt_amount(out, &p.amount);
    proof {
        assert(out@ =~= old(out)@ + enc_params(*p));
    }
}

/// Reads a parameter bundle at `pos`.
pub fn parse_params_at(s: &str, pos: usize) -> (r: Option<(TaskParameters, usize)>)
    requires
        pos <= s@.len(),
    ensures
        match r {
            Some(pr) => {
                &&& pos <= pr.1 <= s@.len()
                &&& parse_params_v(s@.skip(pos as int)) == Some((pr.0, s@.skip(pr.1 as int)))
            },
            None => parse_params_v(s@.skip(pos as int)) is None,
        },
{
    match parse_bool_at(s, pos) {
        None => None,
        Some((last, p1)) => match parse_bool_at(s, p1) {
            None => None,
            Some((all, p2)) => match parse_opt_period_at(s, p2) {
                None => None,
                Some((period, p3)) => match parse_opt_amount_at(s, p3) {
                    None => None,
                    Some((amount, p4)) => Some((TaskParameters { last, all, period, amount }, p4)),
                },
            },
        },
    }
}

/// A structured payload: its parameter bundle, then its detail text.
pub open spec fn enc_payload(d: PayloadView) -> Seq<char> {
    enc_params(d.parameters) + enc_str(d.detail)
}

/// Consumes a structured payload from the front of `s`.
pub open spec fn parse_payload_v(s: Seq<char>) -> Option<(PayloadView, Seq<char>)> {
    match parse_params_v(s) {
        None => None,
        Some((parameters, s1)) => match parse_str_v(s1) {
            None => None,
            Some((detail, s2)) => Some((PayloadView { parameters, detail }, s2)),
        },
    }
}

/// Parsing inverts encoding for payloads with a fitting detail length.
pub proof fn lemma_rt_payload(d: PayloadView, rest: Seq<char>)
    requires
        d.detail.len() <= u64::MAX,
    ensures
        parse_payload_v(enc_payload(d) + rest) == Some((d, rest)),
{
    assert(enc_payload(d) + rest =~= enc_params(d.parameters) + (enc_str(d.detail) + rest));
    lemma_rt_params(d.parameters, enc_str(d.detail) + rest);
    lemma_rt_str(d.detail, rest);
}

/// Appends the encoding of a structured payload.
pub fn encode_payload(out: &mut String, d: &StructuredPayload)
    ensures
        final(out)@ == old(out)@ + enc_payload(d@),
{
    encode_params(out, &d.parameters);
    encode_str(out, d.detail.as_str());
    proof {
        assert(out@ =~= old(out)@ + enc_payload(d@));
    }
}

/// Reads a structured payload at `pos`.
pub fn parse_payload_at(s: &str, pos: usize) -> (r: Option<(StructuredPayload, usize)>)
    requires
        pos <= s@.len(),
    ensures
        match r {
            Some(pr) => {
                &&& pos <= pr.1 <= s@.len()
                &&& parse_payload_v(s@.skip(pos as int)) == Some((pr.0@, s@.skip(pr.1 as int)))
            },
            None => parse_payload_v(s@.skip(pos as int)) is None,
        },
{
    match parse_params_at(s, pos) {
        None => None,
        Some((parameters, p1)) => match parse_string_at(s, p1) {
            None => None,
            Some((detail, p2)) => Some((StructuredPayload { parameters, detail }, p2)),
        },
    }
}

/// An event: its one-character tag, its request id, then its own fields.
pub open spec fn enc_event(e: EventView) -> Seq<char> {
    match e {
        EventView::Started { request_id, timestamp } => seq!['S'] + enc_str(request_id)
            + enc_i64(timestamp),
        EventView::CoordinatorThinking { request_id, message } => seq!['K'] + enc_str(request_id)
            + enc_str(message),
        EventView::TextChunk { request_id, chunk } => seq!['T'] + enc_str(request_id) + enc_str(
            chunk,
        ),
        EventView::ObjectChunk { request_id, data } => seq!['O'] + enc_str(request_id)
            + enc_payload(data),
        EventView::DocumentChunk { request_id, data } => seq!['D'] + enc_str(request_id)
            + enc_payload(data),
        EventView::DescriptionChunk { request_id, data } => seq!['P'] + enc_str(request_id)
            + enc_payload(data),
        EventView::ComparisonChunk { request_id, data } => seq!['C'] + enc_str(request_id)
            + enc_payload(data),
        EventView::Completed { request_id, final_result, timestamp } => seq!['F'] + enc_str(
            request_id,
        ) + enc_str(final_result) + enc_i64(timestamp),
        EventView::Error { request_id, error, recoverable } => seq!['E'] + enc_str(request_id)
            + enc_str(error) + enc_bool(recoverable),
        EventView::Cancelled { request_id, reason } => seq!['X'] + enc_str(request_id) + enc_str(
            reason,
        ),
    }
}

/// Consumes one event from the front of `s`.
pub open spec fn parse_event_v(s: Seq<char>) -> Option<(EventView, Seq<char>)> {
    if s.len() < 1 {
        None
    } else {
        let t = s.skip(1);
        if s[0] == 'S' {
            match parse_str_v(t) {
                None => None,
                Some((request_id, s1)) => match parse_i64_v(s1) {
                    None => None,
                    Some((timestamp, s2)) => Some(
                        (EventView::Started { request_id, timestamp }, s2),
                    ),
                },
            }
        } else if s[0] == 'K' {
            match parse_str_v(t) {
                None => None,
                Some((request_id, s1)) => match parse_str_v(s1) {
                    None => None,
                    Some((message, s2)) => Some(
                        (EventView::CoordinatorThinking { request_id, message }, s2),
                    ),
                },
            }
        } else if s[0] == 'T' {
            match parse_str_v(t) {
                None => None,
                Some((request_id, s1)) => match parse_str_v(s1) {
                    None => None,
                    Some((chunk, s2)) => Some((EventView::TextChunk { request_id, chunk }, s2)),
                },
            }
        } else if s[0] == 'O' {
            match parse_str_v(t) {
                None => None,
                Some((request_id, s1)) => match parse_payload_v(s1) {
                    None => None,
                    Some((data, s2)) => Some((EventView::ObjectChunk { request_id, data }, s2)),
                },
            }
        } else if s[0] == 'D' {
            match parse_str_v(t) {
                None => None,
                Some((request_id, s1)) => match parse_payload_v(s1) {
                    None => None,
                    Some((data, s2)) => Some((EventView::DocumentChunk { request_id, data }, s2)),
                },
            }
        } else if s[0] == 'P' {
            match parse_str_v(t) {
                None => None,
                Some((request_id, s1)) => match parse_payload_v(s1) {
                    None => None,
                    Some((data, s2)) => Some(
                        (EventView::DescriptionChunk { request_id, data }, s2),
                    ),
                },
            }
        } else if s[0] == 'C' {
            match parse_str_v(t) {
                None => None,
                Some((request_id, s1)) => match parse_payload_v(s1) {
                    None => None,
                    Some((data, s2)) => Some(
                        (EventView::ComparisonChunk { request_id, data }, s2),
                    ),
                },
            }
        } else if s[0] == 'F' {
            match parse_str_v(t) {
                None => None,
                Some((request_id, s1)) => match parse_str_v(s1) {
                    None => None,
                    Some((final_result, s2)) => match parse_i64_v(s2) {
                        None => None,
                        Some((timestamp, s3)) => Some(
                            (EventView::Completed { request_id, final_result, timestamp }, s3),
                        ),
                    },
                },
            }
        } else if s[0] == 'E' {
            match parse_str_v(t) {
                None => None,
                Some((request_id, s1)) => match parse_str_v(s1) {
                    None => None,
                    Some((error, s2)) => match parse_bool_v(s2) {
                        None => None,
                        Some((recoverable, s3)) => Some(
                            (EventView::Error { request_id, error, recoverable }, s3),
                        ),
                    },
                },
            }
        } else if s[0] == 'X' {
            match parse_str_v(t) {
                None => None,
                Some((request_id, s1)) => match parse_str_v(s1) {
                    None => None,
                    Some((reason, s2)) => Some((EventView::Cancelled { request_id, reason }, s2)),
                },
            }
        } else {
            None
        }
    }
}

/// Decodes a whole message: one event and nothing after it.
pub open spec fn dec_event(s: Seq<char>) -> Option<EventView> {
    match parse_event_v(s) {
        Some((e, rest)) => if rest.len() == 0 {
            Some(e)
        } else {
            None
        },
        None => None,
    }
}

/// Every string of the event fits a length group. True of any event built
/// from real strings.
pub open spec fn wf_event(e: EventView) -> bool {
    match e {
        EventView::Started { request_id, .. } => request_id.len() <= u64::MAX,
        EventView::CoordinatorThinking { request_id, message } => request_id.len() <= u64::MAX
            && message.len() <= u64::MAX,
        EventView::TextChunk { request_id, chunk } => request_id.len() <= u64::MAX && chunk.len()
            <= u64::MAX,
        EventView::ObjectChunk { request_id, data } => request_id.len() <= u64::MAX
            && data.detail.len() <= u64::MAX,
        EventView::DocumentChunk { request_id, data } => request_id.len() <= u64::MAX
            && data.detail.len() <= u64::MAX,
        EventView::DescriptionChunk { request_id, data } => request_id.len() <= u64::MAX
            && data.detail.len() <= u64::MAX,
        EventView::ComparisonChunk { request_id, data } => request_id.len() <= u64::MAX
            && data.detail.len() <= u64::MAX,
        EventView::Completed { request_id, final_result, .. } => request_id.len() <= u64::MAX
            && final_result.len() <= u64::MAX,
        EventView::Error { request_id, error, .. } => request_id.len() <= u64::MAX && error.len()
            <= u64::MAX,
        EventView::Cancelled { request_id, reason } => request_id.len() <= u64::MAX && reason.len()
            <= u64::MAX,
    }
}

/// Wire-format fidelity: decoding an encoded event gives the event back,
/// for every variant and every field value.
pub proof fn lemma_event_round_trip(e: EventView)
    requires
        wf_event(e),
    ensures
        dec_event(enc_event(e)) == Some(e),
{
    let emp = Seq::<char>::empty();
    match e {
        EventView::Started { request_id, timestamp } => {
            let a = enc_str(request_id);
            let b = enc_i64(timestamp);
            assert(enc_event(e) =~= seq!['S'] + (a + (b + emp)));
            assert(enc_event(e)[0] == 'S');
            assert(enc_event(e).skip(1) =~= a + (b + emp));
            lemma_rt_str(request_id, b + emp);
            assert(b + emp =~= b + emp);
            lemma_rt_i64(timestamp, emp);
            assert(b + emp =~= enc_i64(timestamp) + emp);
        },
        EventView::CoordinatorThinking { request_id, message } => {
            let a = enc_str(request_id);
            let b = enc_str(message);
            assert(enc_event(e) =~= seq!['K'] + (a + (b + emp)));
            assert(enc_event(e)[0] == 'K');
            assert(enc_event(e).skip(1) =~= a + (b + emp));
            lemma_rt_str(request_id, b + emp);
            lemma_rt_str(message, emp);
        },
        EventView::TextChunk { request_id, chunk } => {
            let a = enc_str(request_id);
            let b = enc_str(chunk);
            assert(enc_event(e) =~= seq!['T'] + (a + (b + emp)));
            assert(enc_event(e)[0] == 'T');
            assert(enc_event(e).skip(1) =~= a + (b + emp));
            lemma_rt_str(request_id, b + emp);
            lemma_rt_str(chunk, emp);
        },
        EventView::ObjectChunk { request_id, data } => {
            let a = enc_str(request_id);
            let b = enc_payload(data);
            assert(enc_event(e) =~= seq!['O'] + (a + (b + emp)));
            assert(enc_event(e)[0] == 'O');
            assert(enc_event(e).skip(1) =~= a + (b + emp));
            lemma_rt_str(request_id, b + emp);
            lemma_rt_payload(data, emp);
        },
        EventView::DocumentChunk { request_id, data } => {
            let a = enc_str(request_id);
            let b = enc_payload(data);
            assert(enc_event(e) =~= seq!['D'] + (a + (b + emp)));
            assert(enc_event(e)[0] == 'D');
            assert(enc_event(e).skip(1) =~= a + (b + emp));
            lemma_rt_str(request_id, b + emp);
            lemma_rt_payload(data, emp);
        },
        EventView::DescriptionChunk { request_id, data } => {
            let a = enc_str(request_id);
            let b = enc_payload(data);
            assert(enc_event(e) =~= seq!['P'] + (a + (b + emp)));
            assert(enc_event(e)[0] == 'P');
            assert(enc_event(e).skip(1) =~= a + (b + emp));
            lemma_rt_str(request_id, b + emp);
            lemma_rt_payload(data, emp);
        },
        EventView::ComparisonChunk { request_id, data } => {
            let a = enc_str(request_id);
            let b = enc_payload(data);
            assert(enc_event(e) =~= seq!['C'] + (a + (b + emp)));
            assert(enc_event(e)[0] == 'C');
            assert(enc_event(e).skip(1) =~= a + (b + emp));
            lemma_rt_str(request_id, b + emp);
            lemma_rt_payload(data, emp);
        },
        EventView::Completed { request_id, final_result, timestamp } => {
            let a = enc_str(request_id);
            let b = enc_str(final_result);
            let c = enc_i64(timestamp);
            assert(enc_event(e) =~= seq!['F'] + (a + (b + (c + emp))));
            assert(enc_event(e)[0] == 'F');
            assert(enc_event(e).skip(1) =~= a + (b + (c + emp)));
            lemma_rt_str(request_id, b + (c + emp));
            lemma_rt_str(final_result, c + emp);
            lemma_rt_i64(timestamp, emp);
        },
        EventView::Error { request_id, error, recoverable } => {
            let a = enc_str(request_id);
            let b = enc_str(error);
            let c = enc_bool(recoverable);
            assert(enc_event(e) =~= seq!['E'] + (a + (b + (c + emp))));
            assert(enc_event(e)[0] == 'E');
            assert(enc_event(e).skip(1) =~= a + (b + (c + emp)));
            lemma_rt_str(request_id, b + (c + emp));
            lemma_rt_str(error, c + emp);
            lemma_rt_bool(recoverable, emp);
        },
        EventView::Cancelled { request_id, reason } => {
            let a = enc_str(request_id);
            let b = enc_str(reason);
            assert(enc_event(e) =~= seq!['X'] + (a + (b + emp)));
            assert(enc_event(e)[0] == 'X');
            assert(enc_event(e).skip(1) =~= a + (b + emp));
            lemma_rt_str(request_id, b + emp);
            lemma_rt_str(reason, emp);
        },
    }
}

/// Encodes one event as one wire message.
pub fn encode_event(e: &StreamEvent) -> (r: String)
    ensures
        r@ == enc_event(e@),
{
    let mut out = String::new();
    match e {
        StreamEvent::Started { request_id, timestamp } => {
            push_char(&mut out, 'S');
            encode_str(&mut out, request_id.as_str());
            encode_i64(&mut out, *timestamp);
        },
        StreamEvent::CoordinatorThinking { request_id, message } => {
            push_char(&mut out, 'K');
            encode_str(&mut out, request_id.as_str());
            encode_str(&mut out, message.as_str());
        },
        StreamEvent::TextChunk { request_id, chunk } => {
            push_char(&mut out, 'T');
            encode_str(&mut out, request_id.as_str());
            encode_str(&mut out, chunk.as_str());
        },
        StreamEvent::ObjectChunk { request_id, data } => {
            push_char(&mut out, 'O');
            encode_str(&mut out, request_id.as_str());
            encode_payload(&mut out, data);
        },
        StreamEvent::DocumentChunk { request_id, data } => {
            push_char(&mut out, 'D');
            encode_str(&mut out, request_id.as_str());
            encode_payload(&mut out, data);
        },
        StreamEvent::DescriptionChunk { request_id, data } => {
            push_char(&mut out, 'P');
            encode_str(&mut out, request_id.as_str());
            encode_payload(&mut out, data);
        },
        StreamEvent::ComparisonChunk { request_id, data } => {
            push_char(&mut out, 'C');
            encode_str(&mut out, request_id.as_str());
            encode_payload(&mut out, data);
        },
        StreamEvent::Completed { request_id, final_result, timestamp } => {
            push_char(&mut out, 'F');
            encode_str(&mut out, request_id.as_str());
            encode_str(&mut out, final_result.as_str());
            encode_i64(&mut out, *timestamp);
        },
        StreamEvent::Error { request_id, error, recoverable } => {
            push_char(&mut out, 'E');
            encode_str(&mut out, request_id.as_str());
            encode_str(&mut out, error.as_str());
            encode_bool(&mut out, *recoverable);
        },
        StreamEvent::Cancelled { request_id, reason } => {
            push_char(&mut out, 'X');
            encode_str(&mut out, request_id.as_str());
            encode_str(&mut out, reason.as_str());
        },
    }
    proof {
        assert(out@ =~= enc_event(e@));
    }
    out
}

/// Decodes one wire message back into its event, accepting exactly the
/// encodings: anything malformed, truncated or carrying trailing characters
/// is rejected.
#[verifier::rlimit(100)]
pub fn decode_event(s: &str) -> (r: Option<StreamEvent>)
    ensures
        match r {
            Some(ev) => dec_event(s@) == Some(ev@),
            None => dec_event(s@) is None,
        },
{
    let n = s.unicode_len();
    if n < 1 {
        return None;
    }
    let tag = s.get_char(0);
    proof {
        assert(s@[0] == s@.skip(0).index(0));
        assert(s@.skip(1) =~= s@.skip(0).skip(1));
    }
    if tag == 'S' {
        match parse_string_at(s, 1) {
            None => None,
            Some((request_id, p1)) => match parse_i64_at(s, p1) {
                None => None,
                Some((timestamp, p2)) => {
                    if p2 == n {
                        proof {
                            assert(s@.skip(p2 as int).len() == 0);
                        }
                        Some(StreamEvent::Started { request_id, timestamp })
                    } else {
                        proof {
                            assert(s@.skip(p2 as int).len() > 0);
                        }
                        None
                    }
                },
            },
        }
    } else if tag == 'K' {
        match parse_string_at(s, 1) {
            None => None,
            Some((request_id, p1)) => match parse_string_at(s, p1) {
                None => None,
                Some((message, p2)) => {
                    if p2 == n {
                        Some(StreamEvent::CoordinatorThinking { request_id, message })
                    } else {
                        None
                    }
                },
            },
        }
    } else if tag == 'T' {
        match parse_string_at(s, 1) {
            None => None,
            Some((request_id, p1)) => match parse_string_at(s, p1) {
                None => None,
                Some((chunk, p2)) => {
                    if p2 == n {
                        Some(StreamEvent::TextChunk { request_id, chunk })
                    } else {
                        None
                    }
                },
            },
        }
    } else if tag == 'O' {
        match parse_string_at(s, 1) {
            None => None,
            Some((request_id, p1)) => match parse_payload_at(s, p1) {
                None => None,
                Some((data, p2)) => {
                    if p2 == n {
                        Some(StreamEvent::ObjectChunk { request_id, data })
                    } else {
                        None
                    }
                },
            },
        }
    } else if tag == 'D' {
        match parse_string_at(s, 1) {
            None => None,
            Some((request_id, p1)) => match parse_payload_at(s, p1) {
                None => None,
                Some((data, p2)) => {
                    if p2 == n {
                        Some(StreamEvent::DocumentChunk { request_id, data })
                    } else {
                        None
                    }
                },
            },
        }
    } else if tag == 'P' {
        match parse_string_at(s, 1) {
            None => None,
            Some((request_id, p1)) => match parse_payload_at(s, p1) {
                None => None,
                Some((data, p2)) => {
                    if p2 == n {
                        Some(StreamEvent::DescriptionChunk { request_id, data })
                    } else {
                        None
                    }
                },
            },
        }
    } else if tag == 'C' {
        match parse_string_at(s, 1) {
            None => None,
            Some((request_id, p1)) => match parse_payload_at(s, p1) {
                None => None,
                Some((data, p2)) => {
                    if p2 == n {
                        Some(StreamEvent::ComparisonChunk { request_id, data })
                    } else {
                        None
                    }
                },
            },
        }
    } else if tag == 'F' {
        match parse_string_at(s, 1) {
            None => None,
            Some((request_id, p1)) => match parse_string_at(s, p1) {
                None => None,
                Some((final_result, p2)) => match parse_i64_at(s, p2) {
                    None => None,
                    Some((timestamp, p3)) => {
                        if p3 == n {
                            Some(StreamEvent::Completed { request_id, final_result, timestamp })
                        } else {
                            None
                        }
                    },
                },
            },
        }
    } else if tag == 'E' {
        match parse_string_at(s, 1) {
            None => None,
            Some((request_id, p1)) => match parse_string_at(s, p1) {
                None => None,
                Some((error, p2)) => match parse_bool_at(s, p2) {
                    None => None,
                    Some((recoverable, p3)) => {
                        if p3 == n {
                            Some(StreamEvent::Error { request_id, error, recoverable })
                        } else {
                            None
                        }
                    },
                },
            },
        }
    } else if tag == 'X' {
        match parse_string_at(s, 1) {
            None => None,
            Some((request_id, p1)) => match parse_string_at(s, p1) {
                None => None,
                Some((reason, p2)) => {
                    if p2 == n {
                        Some(StreamEvent::Cancelled { request_id, reason })
                    } else {
                        None
                    }
                },
            },
        }
    } else {
        None
    }
}

} // verus!
