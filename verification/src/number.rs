//! Block numbers as text: decimal and hexadecimal parsing, and the canonical
//! `0x` form that goes on the wire.

use vstd::prelude::*;
use vstd::string::*;
use crate::error::SessionError;

verus! {

/// The value of one digit in the given radix, if the character is one.
pub open spec fn digit_of(c: char, radix: nat) -> Option<nat> {
    let v: int = if '0' <= c && c <= '9' {
        c as int - 48
    } else if 'a' <= c && c <= 'z' {
        c as int - 87
    } else if 'A' <= c && c <= 'Z' {
        c as int - 55
    } else {
        -1
    };
    if 0 <= v && v < radix {
        Some(v as nat)
    } else {
        None
    }
}

/// Every character is a digit of the radix.
pub open spec fn all_digits(s: Seq<char>, radix: nat) -> bool {
    forall|i: int| 0 <= i < s.len() ==> (#[trigger] digit_of(s[i], radix)) is Some
}

/// The number that a run of digits denotes, most significant digit first.
pub open spec fn radix_value(s: Seq<char>, radix: nat) -> nat
    decreases s.len(),
{
    if s.len() == 0 {
        0
    } else {
        radix_value(s.drop_last(), radix) * radix + digit_of(s.last(), radix).unwrap_or(0)
    }
}

/// The number that the text denotes as an unsigned 64-bit integer in the
/// radix: one digit or more and nothing else, no sign, the whole within
/// range. `None` for any other text.
pub open spec fn unsigned_of(s: Seq<char>, radix: nat) -> Option<u64> {
    if s.len() > 0 && all_digits(s, radix) && radix_value(s, radix) <= u64::MAX {
        Some(radix_value(s, radix) as u64)
    } else {
        None
    }
}

/// Whether the text starts with `0x`.
pub open spec fn has_hex_prefix(s: Seq<char>) -> bool {
    s.len() >= 2 && s[0] == '0' && s[1] == 'x'
}

/// The text without `0x` in front, where it starts with it. Only one `0x`
/// is dropped.
pub open spec fn without_hex_prefix(s: Seq<char>) -> Seq<char> {
    if has_hex_prefix(s) {
        s.skip(2)
    } else {
        s
    }
}

/// The character of a digit below sixteen, in lower case.
pub open spec fn digit_char(d: nat) -> char
    recommends
        d < 16,
{
    if d < 10 {
        (48 + d) as char
    } else {
        (87 + d) as char
    }
}

/// The hexadecimal digits of a number, without leading zeros.
pub open spec fn hex_digits(n: nat) -> Seq<char>
    decreases n,
{
    if n < 16 {
        seq![digit_char(n)]
    } else {
        hex_digits(n / 16) + seq![digit_char(n % 16)]
    }
}

/// The canonical wire form of a number: `0x`, then its hexadecimal digits.
pub open spec fn hex_text(n: nat) -> Seq<char> {
    seq!['0', 'x'] + hex_digits(n)
}

/// The number behind a hexadecimal text, with or without one `0x` in
/// front: after it, hexadecimal digits alone.
pub open spec fn hex_number(s: Seq<char>) -> Option<u64> {
    unsigned_of(without_hex_prefix(s), 16)
}

/// The decimal digits of a number, without leading zeros.
pub open spec fn decimal_digits(n: nat) -> Seq<char>
    decreases n,
{
    if n < 10 {
        seq![digit_char(n)]
    } else {
        decimal_digits(n / 10) + seq![digit_char(n % 10)]
    }
}

/// The decimal text of an integer: a minus sign where it is negative, then
/// the digits of its magnitude.
pub open spec fn decimal_text(n: int) -> Seq<char> {
    if n < 0 {
        seq!['-'] + decimal_digits((-n) as nat)
    } else {
        decimal_digits(n as nat)
    }
}

/// A run of digits is worth at least as much as any of its prefixes.
proof fn lemma_prefix_value(s: Seq<char>, k: int, radix: nat)
    requires
        0 <= k <= s.len(),
        radix >= 1,
    ensures
        radix_value(s.take(k), radix) <= radix_value(s, radix),
    decreases s.len() - k,
{
    if k == s.len() {
        assert(s.take(k) =~= s);
    } else {
        let t = s.drop_last();
        assert(t.take(k) =~= s.take(k));
        lemma_prefix_value(t, k, radix);
        let v = radix_value(t, radix);
        assert(v * radix >= v) by (nonlinear_arith)
            requires
                radix >= 1,
                v >= 0,
        ;
    }
}

/// Parses an unsigned 64-bit number in a radix from 2 to 36: digits alone, with
/// no sign.
pub fn parse_unsigned(text: &str, radix: u64) -> (r: Option<u64>)
    requires
        2 <= radix <= 36,
    ensures
        r == unsigned_of(text@, radix as nat),
{
    let len = text.unicode_len();
    if len == 0 {
        return None;
    }
    let mut i: usize = 0;
    let ghost body = text@;
    let mut acc: u64 = 0;
    while i < len
        invariant
            i <= len,
            len == text@.len(),
            2 <= radix <= 36,
            body == text@,
            all_digits(body.take(i as int), radix as nat),
            acc == radix_value(body.take(i as int), radix as nat),
        decreases len - i,
    {
        let c = text.get_char(i);
        let ghost k = i as int;
        let d: u64 = if c >= '0' && c <= '9' {
            (c as u64) - 48
        } else if c >= 'a' && c <= 'z' {
            (c as u64) - 87
        } else if c >= 'A' && c <= 'Z' {
            (c as u64) - 55
        } else {
            radix
        };
        if d >= radix {
            assert(digit_of(body[k], radix as nat) is None);
            return None;
        }
        assert(digit_of(c, radix as nat) == Some(d as nat));
        let ghost next = body.take(k + 1);
        assert(next.drop_last() =~= body.take(k));
        assert(next.last() == c);
        assert(radix_value(next, radix as nat) == acc * radix + d);
        if acc > (u64::MAX - d) / radix {
            proof {
                lemma_prefix_value(body, k + 1, radix as nat);
                assert(acc * radix + d > u64::MAX) by (nonlinear_arith)
                    requires
                        acc > (u64::MAX - d) / (radix as int),
                        2 <= radix <= 36,
                        d < radix,
                ;
            }
            return None;
        }
        assert(acc * radix + d <= u64::MAX) by (nonlinear_arith)
            requires
                acc <= (u64::MAX - d) / (radix as int),
                2 <= radix <= 36,
                d < radix,
        ;
        acc = acc * radix + d;
        i += 1;
        assert forall|j: int| 0 <= j < next.len() implies (#[trigger] digit_of(
            next[j],
            radix as nat,
        )) is Some by {
            if j < k {
                assert(next[j] == body.take(k)[j]);
            }
        }
    }
    assert(body.take(i as int) =~= body);
    Some(acc)
}

/// Whether the text starts with `0x`.
pub fn starts_with_hex_prefix(text: &str) -> (r: bool)
    ensures
        r == has_hex_prefix(text@),
{
    let len = text.unicode_len();
    len >= 2 && text.get_char(0) == '0' && text.get_char(1) == 'x'
}

/// Parses a hexadecimal number as a node reports it: one leading `0x` is
/// dropped where there is one, and the rest has to be hexadecimal digits.
pub fn parse_hex_number(text: &str) -> (r: Result<u64, SessionError>)
    ensures
        r is Ok <==> hex_number(text@) is Some,
        r matches Ok(n) ==> hex_number(text@) == Some(n),
        r matches Err(e) ==> e is NumericFormatError,
{
    let len = text.unicode_len();
    let from: usize = if starts_with_hex_prefix(text) {
        2
    } else {
        0
    };
    let rest = text.substring_char(from, len);
    assert(rest@ =~= without_hex_prefix(text@));
    match parse_unsigned(rest, 16) {
        Some(n) => Ok(n),
        None => Err(SessionError::NumericFormatError),
    }
}

/// The text of one hexadecimal digit.
fn digit_str(d: u64) -> (r: &'static str)
    requires
        d < 16,
    ensures
        r@ == seq![digit_char(d as nat)],
{
    proof {
        reveal_strlit("0");
        reveal_strlit("1");
        reveal_strlit("2");
        reveal_strlit("3");
        reveal_strlit("4");
        reveal_strlit("5");
        reveal_strlit("6");
        reveal_strlit("7");
        reveal_strlit("8");
        reveal_strlit("9");
        reveal_strlit("a");
        reveal_strlit("b");
        reveal_strlit("c");
        reveal_strlit("d");
        reveal_strlit("e");
        reveal_strlit("f");
    }
    let r = if d == 0 {
        "0"
    } else if d == 1 {
        "1"
    } else if d == 2 {
        "2"
    } else if d == 3 {
        "3"
    } else if d == 4 {
        "4"
    } else if d == 5 {
        "5"
    } else if d == 6 {
        "6"
    } else if d == 7 {
        "7"
    } else if d == 8 {
        "8"
    } else if d == 9 {
        "9"
    } else if d == 10 {
        "a"
    } else if d == 11 {
        "b"
    } else if d == 12 {
        "c"
    } else if d == 13 {
        "d"
    } else if d == 14 {
        "e"
    } else {
        "f"
    };
    assert(r@ =~= seq![digit_char(d as nat)]);
    r
}

/// Appends the hexadecimal digits of `n` to `out`.
fn push_hex_digits(out: &mut String, n: u64)
    ensures
        final(out)@ == old(out)@ + hex_digits(n as nat),
    decreases n,
{
    if n < 16 {
        out.append(digit_str(n));
    } else {
        push_hex_digits(out, n / 16);
        out.append(digit_str(n % 16));
        assert(old(out)@ + hex_digits(n as nat / 16) + seq![digit_char(n as nat % 16)]
            =~= old(out)@ + hex_digits(n as nat));
    }
}

/// Appends the decimal digits of `n` to `out`.
fn push_decimal_digits(out: &mut String, n: u64)
    ensures
        final(out)@ == old(out)@ + decimal_digits(n as nat),
    decreases n,
{
    if n < 10 {
        out.append(digit_str(n));
    } else {
        push_decimal_digits(out, n / 10);
        out.append(digit_str(n % 10));
        assert(old(out)@ + decimal_digits(n as nat / 10) + seq![digit_char(n as nat % 10)]
            =~= old(out)@ + decimal_digits(n as nat));
    }
}

/// Writes a signed number in decimal.
pub fn signed_to_decimal(n: i64) -> (r: String)
    ensures
        r@ == decimal_text(n as int),
{
    if n < 0 {
        let magnitude: u64 = ((-(n + 1)) as u64) + 1;
        proof {
            reveal_strlit("-");
        }
        let mut out = String::from_str("-");
        assert(out@ =~= seq!['-']);
        push_decimal_digits(&mut out, magnitude);
        out
    } else {
        let mut out = String::new();
        push_decimal_digits(&mut out, n as u64);
        assert(out@ =~= decimal_digits(n as nat));
        out
    }
}

/// Writes a number in its canonical wire form.
pub fn to_hex(n: u64) -> (r: String)
    ensures
        r@ == hex_text(n as nat),
{
    proof {
        reveal_strlit("0x");
    }
    let mut out = String::from_str("0x");
    assert(out@ =~= seq!['0', 'x']);
    push_hex_digits(&mut out, n);
    out
}

/// The number that hexadecimal digits denote, least significant first.
pub open spec fn le_value(ds: Seq<u8>) -> nat
    decreases ds.len(),
{
    if ds.len() == 0 {
        0
    } else {
        ds[0] as nat + 16 * le_value(ds.skip(1))
    }
}

/// Every element is a hexadecimal digit.
pub open spec fn all_below_sixteen(ds: Seq<u8>) -> bool {
    forall|i: int| 0 <= i < ds.len() ==> (#[trigger] ds[i]) < 16
}

/// A zero at the top adds nothing to the number.
proof fn lemma_top_zero(ds: Seq<u8>)
    requires
        ds.len() > 0,
        ds.last() == 0,
    ensures
        le_value(ds) == le_value(ds.drop_last()),
    decreases ds.len(),
{
    if ds.len() == 1 {
        assert(ds.skip(1) =~= Seq::<u8>::empty());
        assert(ds.drop_last() =~= Seq::<u8>::empty());
    } else {
        lemma_top_zero(ds.skip(1));
        assert(ds.drop_last().skip(1) =~= ds.skip(1).drop_last());
        assert(ds.drop_last()[0] == ds[0]);
    }
}

/// Digits with a digit other than zero at the top denote a number other
/// than zero.
proof fn lemma_top_digit(ds: Seq<u8>)
    requires
        ds.len() > 0,
        ds.last() != 0,
    ensures
        le_value(ds) >= 1,
    decreases ds.len(),
{
    if ds.len() > 1 {
        lemma_top_digit(ds.skip(1));
    }
}

/// Multiplies the number in the digits from position `i` on by ten and adds
/// the carry; the digits below `i` stay.
fn scale_from(ds: &mut Vec<u8>, i: usize, carry: u8)
    requires
        i <= old(ds)@.len(),
        carry < 16,
        all_below_sixteen(old(ds)@),
    ensures
        all_below_sixteen(final(ds)@),
        final(ds)@.len() >= old(ds)@.len(),
        final(ds)@.take(i as int) == old(ds)@.take(i as int),
        le_value(final(ds)@.skip(i as int)) == 10 * le_value(old(ds)@.skip(i as int)) + carry,
    decreases old(ds)@.len() - i,
{
    if i == ds.len() {
        assert(old(ds)@.skip(i as int) =~= Seq::<u8>::empty());
        if carry > 0 {
            ds.push(carry);
            assert(ds@.skip(i as int) =~= seq![carry]);
            assert(ds@.skip(i as int).skip(1) =~= Seq::<u8>::empty());
            assert(ds@.take(i as int) =~= old(ds)@.take(i as int));
        }
    } else {
        let t: u8 = ds[i] * 10 + carry;
        ds.set(i, t % 16);
        let ghost mid = ds@;
        scale_from(ds, i + 1, t / 16);
        proof {
            let before = old(ds)@;
            let after = ds@;
            assert(mid.skip(i + 1) =~= before.skip(i + 1));
            assert(after.take(i + 1)[i as int] == mid.take(i + 1)[i as int]);
            assert(after[i as int] == t % 16);
            assert(after.take(i as int) =~= before.take(i as int)) by {
                assert forall|k: int| 0 <= k < i implies after[k] == before[k] by {
                    assert(after.take(i + 1)[k] == mid.take(i + 1)[k]);
                }
            }
            assert(after.skip(i as int).skip(1) =~= after.skip(i + 1));
            assert(before.skip(i as int).skip(1) =~= before.skip(i + 1));
            assert(after.skip(i as int)[0] == after[i as int]);
            assert(before.skip(i as int)[0] == before[i as int]);
        }
    }
}

/// Writes the number in the digits in its canonical wire form.
fn hex_of_digits(ds: &Vec<u8>) -> (r: String)
    requires
        all_below_sixteen(ds@),
    ensures
        r@ == hex_text(le_value(ds@)),
{
    proof {
        reveal_strlit("0x");
    }
    let mut out = String::from_str("0x");
    assert(out@ =~= seq!['0', 'x']);
    let mut top: usize = ds.len();
    assert(ds@.take(top as int) =~= ds@);
    while top > 0 && ds[top - 1] == 0
        invariant
            top <= ds.len(),
            le_value(ds@.take(top as int)) == le_value(ds@),
        decreases top,
    {
        proof {
            lemma_top_zero(ds@.take(top as int));
            assert(ds@.take(top as int).drop_last() =~= ds@.take(top - 1));
        }
        top -= 1;
    }
    let ghost kept = ds@.take(top as int);
    if top == 0 {
        out.append(digit_str(0));
        return out;
    }
    let mut i: usize = top - 1;
    out.append(digit_str(ds[i] as u64));
    proof {
        let top_digit = kept.skip(i as int);
        assert(top_digit =~= seq![ds@[i as int]]);
        assert(top_digit.skip(1) =~= Seq::<u8>::empty());
        assert(le_value(top_digit.skip(1)) == 0);
        assert(le_value(top_digit) == ds@[i as int] as nat);
        assert(out@ =~= seq!['0', 'x'] + hex_digits(le_value(top_digit)));
    }
    while i > 0
        invariant
            i < top <= ds.len(),
            kept == ds@.take(top as int),
            kept.last() != 0,
            all_below_sixteen(ds@),
            out@ == seq!['0', 'x'] + hex_digits(le_value(kept.skip(i as int))),
        decreases i,
    {
        proof {
            let upper = kept.skip(i as int);
            let lower = kept.skip(i - 1);
            assert(upper.last() == kept.last());
            lemma_top_digit(upper);
            assert(lower.skip(1) =~= upper);
            assert(lower[0] == ds@[i - 1]);
            assert(le_value(lower) == ds@[i - 1] as nat + 16 * le_value(upper));
            assert(le_value(lower) / 16 == le_value(upper));
            assert(le_value(lower) % 16 == ds@[i - 1] as nat);
        }
        i -= 1;
        out.append(digit_str(ds[i] as u64));
        assert(out@ =~= seq!['0', 'x'] + hex_digits(le_value(kept.skip(i as int))));
    }
    assert(kept.skip(0) =~= kept);
    out
}

/// Turns decimal text into the canonical hexadecimal form. The text may
/// denote a number of any size: one digit or more, and nothing else.
pub fn decimal_to_hexadecimal(decimal_str: &str) -> (r: Result<String, SessionError>)
    ensures
        r is Ok <==> decimal_str@.len() > 0 && all_digits(decimal_str@, 10),
        r matches Ok(h) ==> h@ == hex_text(radix_value(decimal_str@, 10)),
        r matches Err(e) ==> e is NumericFormatError,
{
    let len = decimal_str.unicode_len();
    if len == 0 {
        return Err(SessionError::NumericFormatError);
    }
    let ghost text = decimal_str@;
    let mut big: Vec<u8> = Vec::new();
    let mut i: usize = 0;
    while i < len
        invariant
            i <= len,
            len == text.len(),
            text == decimal_str@,
            all_below_sixteen(big@),
            all_digits(text.take(i as int), 10),
            le_value(big@) == radix_value(text.take(i as int), 10),
        decreases len - i,
    {
        let c = decimal_str.get_char(i);
        if !(c >= '0' && c <= '9') {
            assert(digit_of(text[i as int], 10) is None);
            return Err(SessionError::NumericFormatError);
        }
        let d: u8 = ((c as u64) - 48) as u8;
        let ghost next = text.take(i + 1);
        let ghost before = big@;
        scale_from(&mut big, 0, d);
        proof {
            assert(digit_of(c, 10) == Some(d as nat));
            assert(next.drop_last() =~= text.take(i as int));
            assert(next.last() == c);
            assert(big@.skip(0) =~= big@);
            assert(before.skip(0) =~= before);
            assert forall|j: int| 0 <= j < next.len() implies (#[trigger] digit_of(
                next[j],
                10,
            )) is Some by {
                if j < i {
                    assert(next[j] == text.take(i as int)[j]);
                }
            }
        }
        i += 1;
    }
    assert(text.take(i as int) =~= text);
    Ok(hex_of_digits(&big))
}

/// What normalising a block number gives: text that starts with `0x` stays
/// as it is, decimal text becomes canonical hexadecimal, anything else has
/// no normal form.
pub open spec fn normal_form(s: Seq<char>) -> Option<Seq<char>> {
    if has_hex_prefix(s) {
        Some(s)
    } else if s.len() > 0 && all_digits(s, 10) {
        Some(hex_text(radix_value(s, 10)))
    } else {
        None
    }
}

/// Normalises an optional block number to the form that goes on the wire.
pub fn identify_if_hexadecimal_or_decimal(block_number: Option<&str>) -> (r: Result<
    Option<String>,
    SessionError,
>)
    ensures
        block_number is None ==> r matches Ok(None),
        block_number matches Some(t) ==> (r is Ok <==> normal_form(t@) is Some),
        block_number matches Some(t) ==> (r matches Ok(o) ==> (o matches Some(h) && Some(h@)
            == normal_form(t@))),
        r matches Err(e) ==> e is NumericFormatError,
{
    match block_number {
        None => Ok(None),
        Some(number) => {
            if starts_with_hex_prefix(number) {
                Ok(Some(String::from_str(number)))
            } else {
                match decimal_to_hexadecimal(number) {
                    Ok(h) => Ok(Some(h)),
                    Err(e) => Err(e),
                }
            }
        },
    }
}

/// The digits that `hex_digits` writes are hexadecimal digits, and read back
/// they give the number.
pub proof fn lemma_hex_digits_value(n: nat)
    ensures
        hex_digits(n).len() >= 1,
        all_digits(hex_digits(n), 16),
        radix_value(hex_digits(n), 16) == n,
    decreases n,
{
    let s = hex_digits(n);
    if n < 16 {
        assert(digit_of(digit_char(n), 16) == Some(n));
        assert(s.drop_last() =~= Seq::<char>::empty());
        assert(radix_value(s.drop_last(), 16) == 0);
    } else {
        lemma_hex_digits_value(n / 16);
        let head = hex_digits(n / 16);
        assert(digit_of(digit_char(n % 16), 16) == Some(n % 16));
        assert(s.drop_last() =~= head);
        assert(s.last() == digit_char(n % 16));
        assert forall|i: int| 0 <= i < s.len() implies (#[trigger] digit_of(s[i], 16)) is Some by {
            if i < head.len() {
                assert(s[i] == head[i]);
            }
        }
    }
}

/// The canonical form of a number starts with `0x`, holds hexadecimal
/// digits after it, and read back gives the number, whatever its size.
pub proof fn lemma_hex_text_value(n: nat)
    ensures
        has_hex_prefix(hex_text(n)),
        without_hex_prefix(hex_text(n)) == hex_digits(n),
        all_digits(without_hex_prefix(hex_text(n)), 16),
        radix_value(without_hex_prefix(hex_text(n)), 16) == n,
{
    lemma_hex_digits_value(n);
    assert(hex_text(n).skip(2) =~= hex_digits(n));
}

/// Reading the canonical form of a number within 64 bits as a height gives
/// the number back.
pub proof fn lemma_hex_round_trip(n: u64)
    ensures
        hex_number(hex_text(n as nat)) == Some(n),
        has_hex_prefix(hex_text(n as nat)),
{
    lemma_hex_text_value(n as nat);
}

/// Normalising decimal text of any size and reading the result back as
/// hexadecimal gives the number that the decimal text denotes, and as a
/// height where it is within 64 bits; text that starts with `0x` is its own
/// normal form; and text that neither starts with `0x` nor is made of
/// decimal digits alone has none.
pub proof fn lemma_normal_form(s: Seq<char>)
    ensures
        has_hex_prefix(s) ==> normal_form(s) == Some(s),
        !has_hex_prefix(s) ==> (normal_form(s) is Some <==> s.len() > 0 && all_digits(s, 10)),
        !has_hex_prefix(s) ==> (normal_form(s) matches Some(h) ==> has_hex_prefix(h) && all_digits(
            without_hex_prefix(h),
            16,
        ) && radix_value(without_hex_prefix(h), 16) == radix_value(s, 10)),
        !has_hex_prefix(s) ==> (normal_form(s) matches Some(h) ==> hex_number(h) == unsigned_of(
            s,
            10,
        )),
        normal_form(s) matches Some(h) ==> normal_form(h) == Some(h),
{
    if !has_hex_prefix(s) && s.len() > 0 && all_digits(s, 10) {
        lemma_hex_text_value(radix_value(s, 10));
    }
}

} // verus!
