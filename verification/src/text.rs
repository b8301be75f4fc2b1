//! Text building blocks: decimal and hexadecimal renderings, JSON string
//! quoting, and character-wise string building.

use vstd::prelude::*;

verus! {

/// `String::push` appends one character at the end of the string.
pub assume_specification[ String::push ](s: &mut String, ch: char)
    ensures
        final(s)@ == old(s)@.push(ch),
;

// ─── decimal ───────────────────────────────────────────────────────

/// The ASCII digit for a value in `0..10`.
pub open spec fn digit_char(d: int) -> char {
    (d + 48) as char
}

/// Plain decimal rendering of a natural number (no sign, no padding).
pub open spec fn decimal(n: nat) -> Seq<char>
    decreases n,
{
    if n < 10 {
        seq![digit_char(n as int)]
    } else {
        decimal(n / 10).push(digit_char((n % 10) as int))
    }
}

/// Decimal rendering left-padded with `'0'` up to `width` characters.
pub open spec fn zero_padded(n: nat, width: nat) -> Seq<char> {
    let d = decimal(n);
    if d.len() >= width {
        d
    } else {
        Seq::new((width - d.len()) as nat, |i: int| '0') + d
    }
}

/// Every character of a decimal rendering is an ASCII digit.
pub open spec fn all_digits(s: Seq<char>) -> bool {
    forall|i: int| 0 <= i < s.len() ==> 48 <= #[trigger] (s[i] as int) <= 57
}

/// A decimal rendering is non-empty and made of digits; below `10^k`
/// (with `k >= 1`) it has at most `k` characters.
pub proof fn lemma_decimal_shape(n: nat, k: nat)
    ensures
        decimal(n).len() >= 1,
        all_digits(decimal(n)),
        k >= 1 && n < vstd::arithmetic::power::pow(10, k) ==> decimal(n).len() <= k,
    decreases n,
{
    reveal(vstd::arithmetic::power::pow);
    if n >= 10 {
        lemma_decimal_shape(n / 10, (k - 1) as nat);
        if k >= 1 && n < vstd::arithmetic::power::pow(10, k) {
            assert(vstd::arithmetic::power::pow(10, k) == 10 * vstd::arithmetic::power::pow(
                10,
                (k - 1) as nat,
            ));
            if k == 1 {
                assert(vstd::arithmetic::power::pow(10, 0) == 1);
            }
            assert(n / 10 < vstd::arithmetic::power::pow(10, (k - 1) as nat));
        }
        assert forall|i: int| 0 <= i < decimal(n).len() implies 48 <= #[trigger] (
        decimal(n)[i] as int) <= 57 by {
            if i < decimal(n / 10).len() {
                assert(decimal(n)[i] == decimal(n / 10)[i]);
            }
        }
    }
}

/// The number a string of decimal digits stands for, most significant
/// digit first.
pub open spec fn digits_value(s: Seq<char>) -> int
    decreases s.len(),
{
    if s.len() == 0 {
        0
    } else {
        10 * digits_value(s.drop_last()) + (s.last() as int - 48)
    }
}

/// A decimal rendering stands for the number it renders.
pub proof fn lemma_decimal_value(n: nat)
    ensures
        digits_value(decimal(n)) == n,
    decreases n,
{
    if n >= 10 {
        lemma_decimal_value(n / 10);
        assert(decimal(n).drop_last() =~= decimal(n / 10));
        assert(decimal(n).last() as int == (n % 10) + 48);
        assert(digits_value(decimal(n)) == 10 * (n / 10) + (n % 10));
    } else {
        assert(decimal(n).drop_last() =~= Seq::<char>::empty());
        assert(decimal(n).last() as int == n + 48);
        assert(digits_value(decimal(n).drop_last()) == 0);
    }
}

/// Leading zeros do not change the number a digit string stands for.
pub proof fn lemma_leading_zeros_value(k: nat, d: Seq<char>)
    ensures
        digits_value(Seq::new(k, |i: int| '0') + d) == digits_value(d),
    decreases d.len(), k,
{
    let z = Seq::new(k, |i: int| '0');
    if d.len() == 0 {
        assert(z + d =~= z);
        if k > 0 {
            assert(z.drop_last() =~= Seq::new((k - 1) as nat, |i: int| '0'));
            lemma_leading_zeros_value((k - 1) as nat, d);
            assert(Seq::new((k - 1) as nat, |i: int| '0') + d =~= Seq::new(
                (k - 1) as nat,
                |i: int| '0',
            ));
        }
    } else {
        assert((z + d).drop_last() =~= z + d.drop_last());
        lemma_leading_zeros_value(k, d.drop_last());
    }
}

/// Two digit strings of one length that stand for the same number are
/// equal.
pub proof fn lemma_digits_value_injective(s: Seq<char>, t: Seq<char>)
    requires
        s.len() == t.len(),
        all_digits(s),
        all_digits(t),
        digits_value(s) == digits_value(t),
    ensures
        s == t,
    decreases s.len(),
{
    if s.len() > 0 {
        let n = (s.len() - 1) as int;
        assert(48 <= (s[n] as int) <= 57);
        assert(48 <= (t[n] as int) <= 57);
        assert(all_digits(s.drop_last()) && all_digits(t.drop_last())) by {
            assert forall|i: int| 0 <= i < s.drop_last().len() implies 48 <= #[trigger] (
            s.drop_last()[i] as int) <= 57 by {
                assert(s.drop_last()[i] == s[i]);
            }
            assert forall|i: int| 0 <= i < t.drop_last().len() implies 48 <= #[trigger] (
            t.drop_last()[i] as int) <= 57 by {
                assert(t.drop_last()[i] == t[i]);
            }
        }
        lemma_digits_value_injective(s.drop_last(), t.drop_last());
        assert(s =~= s.drop_last().push(s.last()));
        assert(t =~= t.drop_last().push(t.last()));
    }
}

/// Of two digit strings of one length, the one that stands for the smaller
/// number has the smaller digit at the first place where they differ.
pub proof fn lemma_digits_first_difference(s: Seq<char>, t: Seq<char>) -> (i: int)
    requires
        s.len() == t.len(),
        all_digits(s),
        all_digits(t),
        digits_value(s) < digits_value(t),
    ensures
        0 <= i < s.len(),
        s.take(i) == t.take(i),
        (s[i] as int) < (t[i] as int),
    decreases s.len(),
{
    let n = (s.len() - 1) as int;
    if s.len() == 0 {
        assert(false);
        0
    } else {
        let s0 = s.drop_last();
        let t0 = t.drop_last();
        assert(48 <= (s[n] as int) <= 57);
        assert(48 <= (t[n] as int) <= 57);
        assert(all_digits(s0) && all_digits(t0)) by {
            assert forall|j: int| 0 <= j < s0.len() implies 48 <= #[trigger] (s0[j] as int)
                <= 57 by {
                assert(s0[j] == s[j]);
            }
            assert forall|j: int| 0 <= j < t0.len() implies 48 <= #[trigger] (t0[j] as int)
                <= 57 by {
                assert(t0[j] == t[j]);
            }
        }
        if digits_value(s0) < digits_value(t0) {
            let i = lemma_digits_first_difference(s0, t0);
            assert(s.take(i) =~= s0.take(i));
            assert(t.take(i) =~= t0.take(i));
            assert(s[i] == s0[i] && t[i] == t0[i]);
            i
        } else {
            assert(digits_value(s0) == digits_value(t0));
            lemma_digits_value_injective(s0, t0);
            assert(s.take(n) =~= s0);
            assert(t.take(n) =~= t0);
            n
        }
    }
}

/// A run of digits followed by text that starts with a non-digit is read
/// back unambiguously: the digits and the rest are both determined.
pub proof fn lemma_digits_then_text(d1: Seq<char>, r1: Seq<char>, d2: Seq<char>, r2: Seq<char>)
    requires
        all_digits(d1),
        all_digits(d2),
        r1.len() > 0,
        r2.len() > 0,
        !(48 <= (r1[0] as int) <= 57),
        !(48 <= (r2[0] as int) <= 57),
        d1 + r1 == d2 + r2,
    ensures
        d1 == d2,
        r1 == r2,
{
    let a = d1 + r1;
    if d1.len() < d2.len() {
        assert(a[d1.len() as int] == r1[0]);
        assert(a[d1.len() as int] == d2[d1.len() as int]);
        assert(48 <= (d2[d1.len() as int] as int) <= 57);
    } else if d2.len() < d1.len() {
        assert(a[d2.len() as int] == d1[d2.len() as int]);
        assert((d2 + r2)[d2.len() as int] == r2[0]);
        assert(48 <= (d1[d2.len() as int] as int) <= 57);
    } else {
        assert(d1 =~= a.subrange(0, d1.len() as int));
        assert(d2 =~= (d2 + r2).subrange(0, d2.len() as int));
        assert(r1 =~= a.subrange(d1.len() as int, a.len() as int));
        assert(r2 =~= (d2 + r2).subrange(d2.len() as int, a.len() as int));
    }
}

/// Text behind a common prefix is determined by the whole.
pub proof fn lemma_strip_prefix(p: Seq<char>, x: Seq<char>, y: Seq<char>)
    requires
        p + x == p + y,
    ensures
        x == y,
{
    assert(x =~= (p + x).subrange(p.len() as int, (p + x).len() as int));
    assert(y =~= (p + y).subrange(p.len() as int, (p + y).len() as int));
}

/// Distinct numbers have distinct decimal renderings.
pub proof fn lemma_decimal_injective(a: nat, b: nat)
    requires
        decimal(a) == decimal(b),
    ensures
        a == b,
{
    lemma_decimal_value(a);
    lemma_decimal_value(b);
}

/// The digit character for `d < 10`.
pub fn digit(d: u64) -> (c: char)
    requires
        d < 10,
    ensures
        c == digit_char(d as int),
{
    let b: u8 = d as u8 + 48;
    b as char
}

/// Append the decimal rendering of `n`.
pub fn push_decimal(out: &mut String, n: u64)
    ensures
        final(out)@ == old(out)@ + decimal(n as nat),
    decreases n,
{
    if n >= 10 {
        push_decimal(out, n / 10);
    }
    out.push(digit(n % 10));
}

// ─── hexadecimal ───────────────────────────────────────────────────

/// The lowercase hexadecimal digit for a value in `0..16`.
pub open spec fn hex_digit(v: int) -> char {
    if v < 10 {
        (v + 48) as char
    } else {
        (v + 87) as char
    }
}

/// Lowercase hexadecimal text of `bytes`: two characters per byte, high
/// nibble first.
pub open spec fn hex_text(bytes: Seq<u8>) -> Seq<char> {
    Seq::new(
        2 * bytes.len(),
        |i: int|
            if i % 2 == 0 {
                hex_digit((bytes[i / 2] / 16) as int)
            } else {
                hex_digit((bytes[i / 2] % 16) as int)
            },
    )
}

/// The value of a hexadecimal digit of either case.
pub open spec fn hex_value(c: char) -> Option<int> {
    let v = c as int;
    if 48 <= v <= 57 {
        Some(v - 48)
    } else if 97 <= v <= 102 {
        Some(v - 87)
    } else if 65 <= v <= 70 {
        Some(v - 55)
    } else {
        None
    }
}

/// Text that decodes as hexadecimal: an even number of hex digits.
pub open spec fn is_hex_text(s: Seq<char>) -> bool {
    &&& s.len() % 2 == 0
    &&& forall|i: int| 0 <= i < s.len() ==> #[trigger] hex_value(s[i]) is Some
}

/// The bytes that hexadecimal text denotes, pair by pair.
pub open spec fn hex_bytes(s: Seq<char>) -> Seq<u8> {
    Seq::new(
        s.len() / 2,
        |i: int| (hex_value(s[2 * i])->0 * 16 + hex_value(s[2 * i + 1])->0) as u8,
    )
}

/// Decoding the lowercase hex text of any bytes gives those bytes back.
pub proof fn lemma_hex_round_trip(b: Seq<u8>)
    ensures
        is_hex_text(hex_text(b)),
        hex_bytes(hex_text(b)) == b,
{
    let t = hex_text(b);
    assert forall|i: int| 0 <= i < t.len() implies #[trigger] hex_value(t[i]) is Some by {
        let byte = b[i / 2];
        if i % 2 == 0 {
            assert(hex_value(hex_digit((byte / 16) as int)) == Some((byte / 16) as int));
        } else {
            assert(hex_value(hex_digit((byte % 16) as int)) == Some((byte % 16) as int));
        }
    }
    assert forall|i: int| 0 <= i < b.len() implies #[trigger] hex_bytes(t)[i] == b[i] by {
        let byte = b[i];
        assert(t[2 * i] == hex_digit((byte / 16) as int));
        assert(t[2 * i + 1] == hex_digit((byte % 16) as int));
        assert(hex_value(hex_digit((byte / 16) as int)) == Some((byte / 16) as int));
        assert(hex_value(hex_digit((byte % 16) as int)) == Some((byte % 16) as int));
        assert((byte / 16) * 16 + byte % 16 == byte) by (nonlinear_arith);
    }
    assert(hex_bytes(t) =~= b);
}

/// `hex::encode`: the lowercase hexadecimal text of the bytes, two digits
/// per byte, high nibble first (the crate's `HEX_CHARS_LOWER` table).
#[verifier::external_body]
pub(crate) fn hex_encode(bytes: &[u8]) -> (s: String)
    ensures
        s@ == hex_text(bytes@),
{
    hex::encode(bytes)
}

#[verifier::external_type_specification]
#[verifier::external_body]
pub struct ExFromHexError(hex::FromHexError);

/// `hex::decode`: succeeds exactly on text made of an even number of hex
/// digits (either case), and then yields the byte of each digit pair. Any
/// other text, including non-ASCII text, is refused with `OddLength` or
/// `InvalidHexCharacter`; which of the two is not stated.
#[verifier::external_body]
pub(crate) fn hex_decode(text: &str) -> (r: Result<Vec<u8>, hex::FromHexError>)
    ensures
        r is Ok <==> is_hex_text(text@),
        r matches Ok(b) ==> b@ == hex_bytes(text@),
{
    hex::decode(text)
}

/// The `Display` text of a `hex::FromHexError`; nothing is stated of it.
#[verifier::external_body]
pub(crate) fn hex_error_message(e: &hex::FromHexError) -> String {
    e.to_string()
}

// ─── JSON strings ──────────────────────────────────────────────────

/// How `serde_json` writes one character inside a string literal: `"` and
/// `\` behind a backslash; backspace, tab, line feed, form feed and
/// carriage return as `\b`, `\t`, `\n`, `\f`, `\r`; the other control
/// characters below 0x20 as `\u00` and two lowercase hex digits; every other
/// character as itself.
pub open spec fn json_char(c: char) -> Seq<char> {
    let v = c as int;
    if c == '"' {
        seq!['\\', '"']
    } else if c == '\\' {
        seq!['\\', '\\']
    } else if v == 8 {
        seq!['\\', 'b']
    } else if v == 9 {
        seq!['\\', 't']
    } else if v == 10 {
        seq!['\\', 'n']
    } else if v == 12 {
        seq!['\\', 'f']
    } else if v == 13 {
        seq!['\\', 'r']
    } else if v < 32 {
        seq!['\\', 'u', '0', '0', hex_digit(v / 16), hex_digit(v % 16)]
    } else {
        seq![c]
    }
}

/// The compact JSON string literal that `serde_json` writes for a text:
/// quotes around the text, each character written as [`json_char`] says.
pub open spec fn json_string(text: Seq<char>) -> Seq<char> {
    seq!['"'] + text.map_values(|c: char| json_char(c)).flatten() + seq!['"']
}

/// The escaped characters of `text`, between the quotes of its literal.
pub open spec fn json_escaped(text: Seq<char>) -> Seq<char> {
    text.map_values(|c: char| json_char(c)).flatten()
}

/// What `json_char` writes is never empty and never starts with a quote;
/// an escape starts with a backslash and has a second character.
proof fn lemma_json_char_shape(c: char)
    ensures
        json_char(c).len() >= 1,
        json_char(c)[0] != '"',
        json_char(c)[0] == '\\' ==> json_char(c).len() >= 2,
        json_char(c)[0] != '\\' ==> json_char(c) == seq![c],
{
}

/// Distinct values below 16 have distinct hex digits.
proof fn lemma_hex_digit_injective(v: int, w: int)
    requires
        0 <= v < 16,
        0 <= w < 16,
        hex_digit(v) == hex_digit(w),
    ensures
        v == w,
{
    assert(hex_digit(v) as int == if v < 10 { v + 48 } else { v + 87 });
    assert(hex_digit(w) as int == if w < 10 { w + 48 } else { w + 87 });
}

/// The escape of one character is read back unambiguously from the front of
/// a longer text.
#[verifier::rlimit(40)]
proof fn lemma_json_char_prefix_free(a: char, b: char, x: Seq<char>, y: Seq<char>)
    requires
        json_char(a) + x == json_char(b) + y,
    ensures
        a == b,
        x == y,
{
    let ja = json_char(a);
    let jb = json_char(b);
    let s = ja + x;
    lemma_json_char_shape(a);
    lemma_json_char_shape(b);
    assert(s[0] == ja[0]);
    assert(s[0] == jb[0]);
    if ja[0] != '\\' {
        assert(jb[0] != '\\');
        assert(a == b);
    } else {
        assert(s[1] == ja[1]);
        assert(s[1] == jb[1]);
        let va = a as int;
        let vb = b as int;
        if ja[1] == 'u' {
            assert(ja.len() == 6 && jb.len() == 6);
            assert(s[4] == ja[4] && s[4] == jb[4]);
            assert(s[5] == ja[5] && s[5] == jb[5]);
            lemma_hex_digit_injective(va / 16, vb / 16);
            lemma_hex_digit_injective(va % 16, vb % 16);
            assert(va == vb);
        }
        assert(va == vb);
        assert(a == b);
    }
    lemma_strip_prefix(ja, x, y);
}

/// Escaping a non-empty text writes the first character's escape, then the
/// rest's.
proof fn lemma_json_escaped_front(text: Seq<char>)
    requires
        text.len() > 0,
    ensures
        json_escaped(text) == json_char(text[0]) + json_escaped(text.drop_first()),
{
    let m = text.map_values(|c: char| json_char(c));
    assert(m.drop_first() =~= text.drop_first().map_values(|c: char| json_char(c)));
}

/// Escaped text followed by a quote is read back unambiguously: the quote
/// that ends it is the first unescaped one.
proof fn lemma_json_escaped_then_quote(a: Seq<char>, r1: Seq<char>, b: Seq<char>, r2: Seq<char>)
    requires
        json_escaped(a) + (seq!['"'] + r1) == json_escaped(b) + (seq!['"'] + r2),
    ensures
        a == b,
        r1 == r2,
    decreases a.len(),
{
    if a.len() == 0 {
        assert(json_escaped(a) =~= Seq::<char>::empty());
        if b.len() > 0 {
            lemma_json_escaped_front(b);
            lemma_json_char_shape(b[0]);
            let t = json_escaped(b) + (seq!['"'] + r2);
            assert(t[0] == json_char(b[0])[0]);
            assert((json_escaped(a) + (seq!['"'] + r1))[0] == '"');
        } else {
            assert(json_escaped(b) =~= Seq::<char>::empty());
            lemma_strip_prefix(seq!['"'], r1, r2);
        }
    } else {
        lemma_json_escaped_front(a);
        lemma_json_char_shape(a[0]);
        if b.len() == 0 {
            assert(json_escaped(b) =~= Seq::<char>::empty());
            let t = json_escaped(a) + (seq!['"'] + r1);
            assert(t[0] == json_char(a[0])[0]);
            assert((json_escaped(b) + (seq!['"'] + r2))[0] == '"');
        } else {
            lemma_json_escaped_front(b);
            let xa = json_escaped(a.drop_first()) + (seq!['"'] + r1);
            let xb = json_escaped(b.drop_first()) + (seq!['"'] + r2);
            assert(json_escaped(a) + (seq!['"'] + r1) =~= json_char(a[0]) + xa);
            assert(json_escaped(b) + (seq!['"'] + r2) =~= json_char(b[0]) + xb);
            lemma_json_char_prefix_free(a[0], b[0], xa, xb);
            lemma_json_escaped_then_quote(a.drop_first(), r1, b.drop_first(), r2);
            assert(a =~= seq![a[0]] + a.drop_first());
            assert(b =~= seq![b[0]] + b.drop_first());
        }
    }
}

/// A JSON string literal followed by more text is read back unambiguously:
/// the literal gives back the text it was written for, and the rest is
/// determined.
pub proof fn lemma_json_string_then(a: Seq<char>, r1: Seq<char>, b: Seq<char>, r2: Seq<char>)
    requires
        json_string(a) + r1 == json_string(b) + r2,
    ensures
        a == b,
        r1 == r2,
{
    assert(json_string(a) + r1 =~= seq!['"'] + (json_escaped(a) + (seq!['"'] + r1)));
    assert(json_string(b) + r2 =~= seq!['"'] + (json_escaped(b) + (seq!['"'] + r2)));
    lemma_strip_prefix(seq!['"'], json_escaped(a) + (seq!['"'] + r1), json_escaped(b) + (seq!['"'] + r2));
    lemma_json_escaped_then_quote(a, r1, b, r2);
}

/// Distinct texts have distinct JSON string literals.
pub proof fn lemma_json_string_injective(a: Seq<char>, b: Seq<char>)
    requires
        json_string(a) == json_string(b),
    ensures
        a == b,
{
    assert(json_string(a) + Seq::<char>::empty() =~= json_string(a));
    assert(json_string(b) + Seq::<char>::empty() =~= json_string(b));
    lemma_json_string_then(a, Seq::<char>::empty(), b, Seq::<char>::empty());
}

#[verifier::external_type_specification]
#[verifier::external_body]
pub struct ExJsonError(serde_json::Error);

/// `serde_json::to_string` on a `str`. Serializing a `str` writes the
/// escaped string into an in-memory buffer, which cannot fail, so the call
/// always succeeds; its text is `json_string` (the crate's `ESCAPE` table
/// and `write_char_escape`).
#[verifier::external_body]
fn serde_json_string(text: &str) -> (r: Result<String, serde_json::Error>)
    ensures
        r is Ok,
        r matches Ok(s) ==> s@ == json_string(text@),
{
    serde_json::to_string(text)
}

/// Append the JSON string literal of `text`.
pub fn push_json_string(out: &mut String, text: &str)
    ensures
        final(out)@ == old(out)@ + json_string(text@),
{
    match serde_json_string(text) {
        Ok(s) => out.append(s.as_str()),
        Err(_) => {},
    }
}

/// Append `text`.
pub fn push_str(out: &mut String, text: &str)
    ensures
        final(out)@ == old(out)@ + text@,
{
    out.append(text);
}

} // verus!
