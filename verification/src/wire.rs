//! The server-to-client wire frame.
//!
//! A dispatched message crosses the transport as one JSON object with a
//! fixed field set and order:
//! `{"id":..,"userId":..,"quoteId":..,"sendTime":..,"messageType":..,"message":".."}`.
//! This module builds that frame and parses it back; parsing accepts
//! exactly the frames this module builds.

use vstd::prelude::*;

verus! {

/// The decimal digit characters, in order.
pub open spec fn digit_char(d: int) -> char {
    if d == 0 { '0' }
    else if d == 1 { '1' }
    else if d == 2 { '2' }
    else if d == 3 { '3' }
    else if d == 4 { '4' }
    else if d == 5 { '5' }
    else if d == 6 { '6' }
    else if d == 7 { '7' }
    else if d == 8 { '8' }
    else { '9' }
}

/// Whether `c` is a decimal digit character.
pub open spec fn is_digit(c: char) -> bool {
    c == '0' || c == '1' || c == '2' || c == '3' || c == '4' || c == '5' || c == '6' || c == '7'
        || c == '8' || c == '9'
}

/// The value of a decimal digit character.
pub open spec fn digit_val(c: char) -> int {
    if c == '0' { 0 }
    else if c == '1' { 1 }
    else if c == '2' { 2 }
    else if c == '3' { 3 }
    else if c == '4' { 4 }
    else if c == '5' { 5 }
    else if c == '6' { 6 }
    else if c == '7' { 7 }
    else if c == '8' { 8 }
    else { 9 }
}

/// Decimal representation of a non-negative number, most significant digit
/// first, with no leading zeros (`0` itself is the single digit `0`).
pub open spec fn dec_chars(n: nat) -> Seq<char>
    decreases n,
{
    if n < 10 {
        seq![digit_char(n as int)]
    } else {
        dec_chars(n / 10).push(digit_char((n % 10) as int))
    }
}

/// Decimal representation of an integer: a minus sign before the digits of
/// the magnitude when negative.
pub open spec fn int_chars(n: int) -> Seq<char> {
    if n < 0 {
        seq!['-'] + dec_chars((-n) as nat)
    } else {
        dec_chars(n as nat)
    }
}

/// The hexadecimal digit characters (lower case), in order.
pub open spec fn hex_char(d: int) -> char {
    if d < 10 {
        digit_char(d)
    } else if d == 10 { 'a' }
    else if d == 11 { 'b' }
    else if d == 12 { 'c' }
    else if d == 13 { 'd' }
    else if d == 14 { 'e' }
    else { 'f' }
}

/// How one character of a message body crosses the wire: quote and
/// backslash are escaped, control characters become a `\u00..` escape,
/// everything else passes through.
pub open spec fn esc_char(c: char) -> Seq<char> {
    if c == '"' {
        seq!['\\', '"']
    } else if c == '\\' {
        seq!['\\', '\\']
    } else if (c as u32) < 0x20 {
        seq!['\\', 'u', '0', '0', hex_char((c as u32) as int / 16), hex_char((c as u32) as int % 16)]
    } else {
        seq![c]
    }
}

/// A whole message body, escaped for the wire.
pub open spec fn esc_chars(s: Seq<char>) -> Seq<char>
    decreases s.len(),
{
    if s.len() == 0 {
        Seq::empty()
    } else {
        esc_char(s[0]) + esc_chars(s.drop_first())
    }
}

/// Escaping a body one character longer appends that character's escape.
proof fn lemma_esc_chars_snoc(s: Seq<char>, c: char)
    ensures
        esc_chars(s.push(c)) == esc_chars(s) + esc_char(c),
    decreases s.len(),
{
    if s.len() == 0 {
        assert(s.push(c).drop_first() =~= Seq::<char>::empty());
        assert(s.push(c)[0] == c);
        assert(esc_chars(Seq::<char>::empty()) =~= Seq::<char>::empty());
        assert(esc_chars(s.push(c)) =~= esc_char(c));
        assert(esc_chars(s) + esc_char(c) =~= esc_char(c));
    } else {
        assert(s.push(c).drop_first() =~= s.drop_first().push(c));
        assert(s.push(c)[0] == s[0]);
        lemma_esc_chars_snoc(s.drop_first(), c);
        assert(esc_chars(s.push(c)) =~= esc_chars(s) + esc_char(c));
    }
}

/// Relies on `String::push`: appends the given character to the string.
#[verifier::external_body]
fn push_char(out: &mut String, c: char)
    ensures
        final(out)@ == old(out)@.push(c),
{
    out.push(c);
}

/// The decimal digit character for a value below ten.
fn digit_of(d: u64) -> (c: char)
    requires
        d < 10,
    ensures
        c == digit_char(d as int),
{
    match d {
        0 => '0',
        1 => '1',
        2 => '2',
        3 => '3',
        4 => '4',
        5 => '5',
        6 => '6',
        7 => '7',
        8 => '8',
        _ => '9',
    }
}

/// The hexadecimal digit character (lower case) for a value below sixteen.
fn hex_of(d: u32) -> (c: char)
    requires
        d < 16,
    ensures
        c == hex_char(d as int),
{
    match d {
        0 => '0',
        1 => '1',
        2 => '2',
        3 => '3',
        4 => '4',
        5 => '5',
        6 => '6',
        7 => '7',
        8 => '8',
        9 => '9',
        10 => 'a',
        11 => 'b',
        12 => 'c',
        13 => 'd',
        14 => 'e',
        _ => 'f',
    }
}

/// Appends the decimal digits of `n`, most significant first.
fn push_u64_dec(out: &mut String, n: u64)
    ensures
        final(out)@ == old(out)@ + dec_chars(n as nat),
    decreases n,
{
    if n < 10 {
        push_char(out, digit_of(n));
        assert(out@ =~= old(out)@ + dec_chars(n as nat));
    } else {
        push_u64_dec(out, n / 10);
        push_char(out, digit_of(n % 10));
        assert(out@ =~= old(out)@ + dec_chars(n as nat));
    }
}

/// Appends the decimal representation of `n`, sign included.
fn push_i64_dec(out: &mut String, n: i64)
    ensures
        final(out)@ == old(out)@ + int_chars(n as int),
{
    if n < 0 {
        push_char(out, '-');
        let mag: u64 = ((-(n + 1)) as u64) + 1;
        assert(mag as nat == (-(n as int)) as nat);
        push_u64_dec(out, mag);
        assert(out@ =~= old(out)@ + int_chars(n as int));
    } else {
        push_u64_dec(out, n as u64);
    }
}

/// Appends the body `s`, escaped for the wire.
fn push_escaped(out: &mut String, s: &str)
    ensures
        final(out)@ == old(out)@ + esc_chars(s@),
{
    let len = s.unicode_len();
    let mut i: usize = 0;
    assert(out@ =~= old(out)@ + esc_chars(s@.take(0)));
    while i < len
        invariant
            len == s@.len(),
            i <= len,
            out@ == old(out)@ + esc_chars(s@.take(i as int)),
        decreases len - i,
    {
        let c = s.get_char(i);
        let code = c as u32;
        if c == '"' {
            push_char(out, '\\');
            push_char(out, '"');
        } else if c == '\\' {
            push_char(out, '\\');
            push_char(out, '\\');
        } else if code < 0x20 {
            push_char(out, '\\');
            push_char(out, 'u');
            push_char(out, '0');
            push_char(out, '0');
            push_char(out, hex_of(code / 16));
            push_char(out, hex_of(code % 16));
        } else {
            push_char(out, c);
        }
        proof {
            lemma_esc_chars_snoc(s@.take(i as int), s@[i as int]);
            assert(s@.take(i as int).push(s@[i as int]) =~= s@.take(i + 1));
            assert(out@ =~= old(out)@ + esc_chars(s@.take(i + 1)));
        }
        i = i + 1;
    }
    assert(s@.take(len as int) =~= s@);
}

// ---------------------------------------------------------------------------
// Parsing
// ---------------------------------------------------------------------------

/// Powers of ten.
pub open spec fn pow10(k: nat) -> int
    decreases k,
{
    if k == 0 {
        1
    } else {
        10 * pow10((k - 1) as nat)
    }
}

/// Index of the first non-digit character at or after `i`.
pub open spec fn digits_end(s: Seq<char>, i: int) -> int
    decreases s.len() - i,
{
    if 0 <= i < s.len() && is_digit(s[i]) {
        digits_end(s, i + 1)
    } else {
        i
    }
}

/// Value of the digit run `s[i..j)`, read in base ten.
pub open spec fn num_val(s: Seq<char>, i: int, j: int) -> int
    decreases j - i,
{
    if j <= i {
        0
    } else {
        num_val(s, i, j - 1) * 10 + digit_val(s[j - 1])
    }
}

/// Parse an unsigned decimal number at `i`: its value and the index just
/// past it.  There must be at least one digit and at most nineteen.
pub open spec fn spec_parse_dec(s: Seq<char>, i: int) -> Option<(int, int)> {
    let j = digits_end(s, i);
    if j == i || j - i > 19 {
        None
    } else {
        Some((num_val(s, i, j), j))
    }
}

/// Parse a decimal number at `i`, with an optional leading minus sign.
pub open spec fn spec_parse_int(s: Seq<char>, i: int) -> Option<(int, int)> {
    if 0 <= i < s.len() && s[i] == '-' {
        match spec_parse_dec(s, i + 1) {
            None => None,
            Some((v, j)) => Some((-v, j)),
        }
    } else {
        spec_parse_dec(s, i)
    }
}

/// Parse a number at `i` that must fit a 64-bit signed integer.
pub open spec fn spec_parse_i64(s: Seq<char>, i: int) -> Option<(int, int)> {
    match spec_parse_int(s, i) {
        None => None,
        Some((v, j)) => if i64::MIN <= v <= i64::MAX {
            Some((v, j))
        } else {
            None
        },
    }
}

/// Parse a number at `i` that must fit a 32-bit signed integer.
pub open spec fn spec_parse_i32(s: Seq<char>, i: int) -> Option<(int, int)> {
    match spec_parse_int(s, i) {
        None => None,
        Some((v, j)) => if i32::MIN <= v <= i32::MAX {
            Some((v, j))
        } else {
            None
        },
    }
}

/// A digit run is worth less than ten to the number of its digits.
proof fn lemma_num_val_bound(s: Seq<char>, i: int, j: int)
    requires
        i <= j,
    ensures
        0 <= num_val(s, i, j) < pow10((j - i) as nat),
    decreases j - i,
{
    if j <= i {
        assert(pow10(0) == 1);
    } else {
        lemma_num_val_bound(s, i, j - 1);
        assert(digit_val(s[j - 1]) <= 9);
        assert(pow10((j - i) as nat) == 10 * pow10((j - i - 1) as nat));
    }
}

/// Powers of ten grow with the exponent.
proof fn lemma_pow10_le(a: nat, b: nat)
    requires
        a <= b,
    ensures
        pow10(a) <= pow10(b),
    decreases b,
{
    if a < b {
        lemma_pow10_le(a, (b - 1) as nat);
        assert(pow10((b - 1) as nat) >= 1) by {
            lemma_pow10_le(0, (b - 1) as nat);
        }
    }
}

/// Whether `c` is a decimal digit character (run-time form).
fn is_digit_exec(c: char) -> (b: bool)
    ensures
        b == is_digit(c),
{
    c == '0' || c == '1' || c == '2' || c == '3' || c == '4' || c == '5' || c == '6' || c == '7'
        || c == '8' || c == '9'
}

/// The value of a decimal digit character (run-time form).
fn digit_val_exec(c: char) -> (d: u64)
    ensures
        d == digit_val(c),
{
    match c {
        '0' => 0,
        '1' => 1,
        '2' => 2,
        '3' => 3,
        '4' => 4,
        '5' => 5,
        '6' => 6,
        '7' => 7,
        '8' => 8,
        _ => 9,
    }
}

/// Index of the first non-digit character at or after `i`.
fn scan_digits(s: &str, len: usize, i: usize) -> (j: usize)
    requires
        len == s@.len(),
        i <= len,
    ensures
        i <= j <= len,
        j == digits_end(s@, i as int),
{
    let mut j = i;
    while j < len && is_digit_exec(s.get_char(j))
        invariant
            len == s@.len(),
            i <= j <= len,
            digits_end(s@, i as int) == digits_end(s@, j as int),
        decreases len - j,
    {
        j = j + 1;
    }
    j
}

/// Parse an unsigned decimal number at `i`, exactly as `spec_parse_dec`
/// reads it.
fn parse_dec_u64(s: &str, len: usize, i: usize) -> (r: Option<(u64, usize)>)
    requires
        len == s@.len(),
        i <= len,
    ensures
        match spec_parse_dec(s@, i as int) {
            None => r is None,
            Some((v, j)) => r matches Some(p) && p.0 as int == v && p.1 as int == j
                && p.1 <= len,
        },
{
    let jend = scan_digits(s, len, i);
    if jend == i || jend - i > 19 {
        return None;
    }
    proof {
        reveal_with_fuel(pow10, 20);
        lemma_pow10_le(((jend - i) as nat), 19);
    }
    let mut acc: u64 = 0;
    let mut k = i;
    while k < jend
        invariant
            len == s@.len(),
            i <= k <= jend <= len,
            jend - i <= 19,
            acc == num_val(s@, i as int, k as int),
            acc < pow10((k - i) as nat),
        decreases jend - k,
    {
        let d = digit_val_exec(s.get_char(k));
        proof {
            reveal_with_fuel(pow10, 20);
            lemma_pow10_le(((k - i) as nat) + 1, 19);
            assert(acc * 10 + 9 < pow10(((k - i) as nat) + 1)) by {
                assert(pow10(((k - i) as nat) + 1) == 10 * pow10((k - i) as nat));
            };
        }
        acc = acc * 10 + d;
        k = k + 1;
    }
    Some((acc, jend))
}

/// Parse a decimal number with optional sign at `i`, exactly as
/// `spec_parse_i64` reads it.
fn parse_i64_at(s: &str, len: usize, i: usize) -> (r: Option<(i64, usize)>)
    requires
        len == s@.len(),
        i <= len,
    ensures
        match spec_parse_i64(s@, i as int) {
            None => r is None,
            Some((v, j)) => r matches Some(p) && p.0 as int == v && p.1 as int == j
                && p.1 <= len,
        },
{
    if i < len && s.get_char(i) == '-' {
        match parse_dec_u64(s, len, i + 1) {
            None => None,
            Some((mag, j)) => {
                if mag > 0x8000_0000_0000_0000u64 {
                    None
                } else if mag == 0x8000_0000_0000_0000u64 {
                    Some((i64::MIN, j))
                } else {
                    Some((-(mag as i64), j))
                }
            },
        }
    } else {
        match parse_dec_u64(s, len, i) {
            None => None,
            Some((v, j)) => {
                if v > i64::MAX as u64 {
                    None
                } else {
                    Some((v as i64, j))
                }
            },
        }
    }
}

/// Whether the characters of `lit` stand in `s` at position `i`.
pub open spec fn lit_at(s: Seq<char>, i: int, lit: Seq<char>) -> bool {
    0 <= i && i + lit.len() <= s.len() && s.subrange(i, i + lit.len()) == lit
}

/// Check that `lit` stands at `i` and step past it.
fn expect_lit(s: &str, len: usize, i: usize, lit: &str) -> (r: Option<usize>)
    requires
        len == s@.len(),
        i <= len,
    ensures
        match r {
            Some(j) => lit_at(s@, i as int, lit@) && j == i + lit@.len() && j <= len,
            None => !lit_at(s@, i as int, lit@),
        },
{
    let llen = lit.unicode_len();
    if llen > len - i {
        return None;
    }
    let mut k: usize = 0;
    while k < llen
        invariant
            len == s@.len(),
            llen == lit@.len(),
            i + llen <= len,
            k <= llen,
            forall|t: int| 0 <= t < k ==> s@[i + t] == lit@[t],
        decreases llen - k,
    {
        if s.get_char(i + k) != lit.get_char(k) {
            proof {
                assert(s@.subrange(i as int, i + lit@.len()) != lit@) by {
                    assert(s@.subrange(i as int, i + lit@.len())[k as int] != lit@[k as int]);
                }
            }
            return None;
        }
        k = k + 1;
    }
    proof {
        assert(s@.subrange(i as int, i + lit@.len()) =~= lit@);
    }
    Some(i + llen)
}

/// Whether `c` is a lower-case hexadecimal digit character.
pub open spec fn is_hex(c: char) -> bool {
    is_digit(c) || c == 'a' || c == 'b' || c == 'c' || c == 'd' || c == 'e' || c == 'f'
}

/// The value of a lower-case hexadecimal digit character.
pub open spec fn hex_val(c: char) -> int {
    if c == 'a' { 10 }
    else if c == 'b' { 11 }
    else if c == 'c' { 12 }
    else if c == 'd' { 13 }
    else if c == 'e' { 14 }
    else if c == 'f' { 15 }
    else { digit_val(c) }
}

/// The character with code `v`, for small codes.
pub open spec fn char_from_code(v: int) -> char {
    (v as u8) as char
}

/// Whether `c` is a lower-case hexadecimal digit character (run-time form).
fn is_hex_exec(c: char) -> (b: bool)
    ensures
        b == is_hex(c),
{
    is_digit_exec(c) || c == 'a' || c == 'b' || c == 'c' || c == 'd' || c == 'e' || c == 'f'
}

/// The value of a lower-case hexadecimal digit character (run-time form).
fn hex_val_exec(c: char) -> (d: u8)
    ensures
        d == hex_val(c),
{
    match c {
        'a' => 10,
        'b' => 11,
        'c' => 12,
        'd' => 13,
        'e' => 14,
        'f' => 15,
        _ => digit_val_exec(c) as u8,
    }
}

/// Parse a message body at `i`: the text up to the closing quote, with the
/// escapes this module writes read back.  Yields the body and the index of
/// the closing quote.  Only the escapes the writer emits are accepted.
pub open spec fn spec_parse_body(s: Seq<char>, i: int) -> Option<(Seq<char>, int)>
    decreases s.len() - i,
{
    if i < 0 || i >= s.len() {
        None
    } else if s[i] == '"' {
        Some((Seq::empty(), i))
    } else if s[i] == '\\' {
        if i + 1 < s.len() && (s[i + 1] == '"' || s[i + 1] == '\\') {
            match spec_parse_body(s, i + 2) {
                None => None,
                Some((rest, j)) => Some((seq![s[i + 1]] + rest, j)),
            }
        } else if i + 5 < s.len() && s[i + 1] == 'u' && s[i + 2] == '0' && s[i + 3] == '0'
            && is_hex(s[i + 4]) && is_hex(s[i + 5]) && 16 * hex_val(s[i + 4]) + hex_val(s[i + 5]) < 0x20 {
            match spec_parse_body(s, i + 6) {
                None => None,
                Some((rest, j)) => Some(
                    (seq![char_from_code(16 * hex_val(s[i + 4]) + hex_val(s[i + 5]))] + rest, j),
                ),
            }
        } else {
            None
        }
    } else {
        match spec_parse_body(s, i + 1) {
            None => None,
            Some((rest, j)) => Some((seq![s[i]] + rest, j)),
        }
    }
}

/// Parse a message body at `i`, exactly as `spec_parse_body` reads it.
fn parse_body(s: &str, len: usize, i: usize) -> (r: Option<(String, usize)>)
    requires
        len == s@.len(),
        i <= len,
    ensures
        match spec_parse_body(s@, i as int) {
            None => r is None,
            Some((b, j)) => r matches Some(p) && p.0@ == b && p.1 as int == j && p.1 <= len,
        },
{
    let mut out = String::new();
    let mut j = i;
    loop
        invariant
            len == s@.len(),
            i <= j <= len,
            spec_parse_body(s@, i as int) == match spec_parse_body(s@, j as int) {
                None => None::<(Seq<char>, int)>,
                Some((rest, e)) => Some((out@ + rest, e)),
            },
        decreases len - j,
    {
        if j >= len {
            return None;
        }
        let c = s.get_char(j);
        if c == '"' {
            proof {
                assert(out@ + Seq::<char>::empty() =~= out@);
            }
            return Some((out, j));
        } else if c == '\\' {
            if len - j > 1 {
                let c1 = s.get_char(j + 1);
                if c1 == '"' || c1 == '\\' {
                    let ghost out_old = out@;
                    push_char(&mut out, c1);
                    proof {
                        assert(out@ =~= out_old + seq![c1]);
                        match spec_parse_body(s@, j + 2) {
                            Some((rest, e)) => {
                                assert(out@ + rest =~= out_old + (seq![c1] + rest));
                            },
                            None => {},
                        }
                    }
                    j = j + 2;
                } else if len - j > 5 && c1 == 'u' && s.get_char(j + 2) == '0'
                    && s.get_char(j + 3) == '0' && is_hex_exec(s.get_char(j + 4))
                    && is_hex_exec(s.get_char(j + 5))
                    && 16 * hex_val_exec(s.get_char(j + 4)) + hex_val_exec(s.get_char(j + 5)) < 0x20 {
                    let code: u8 = 16 * hex_val_exec(s.get_char(j + 4)) + hex_val_exec(
                        s.get_char(j + 5),
                    );
                    let ch = code as char;
                    let ghost out_old = out@;
                    push_char(&mut out, ch);
                    proof {
                        assert(out@ =~= out_old + seq![ch]);
                        match spec_parse_body(s@, j + 6) {
                            Some((rest, e)) => {
                                assert(out@ + rest =~= out_old + (seq![ch] + rest));
                            },
                            None => {},
                        }
                    }
                    j = j + 6;
                } else {
                    return None;
                }
            } else {
                return None;
            }
        } else {
            let ghost out_old = out@;
            push_char(&mut out, c);
            proof {
                assert(out@ =~= out_old + seq![c]);
                match spec_parse_body(s@, j + 1) {
                    Some((rest, e)) => {
                        assert(out@ + rest =~= out_old + (seq![c] + rest));
                    },
                    None => {},
                }
            }
            j = j + 1;
        }
    }
}

/// The fields a wire frame carries, as mathematical values.
pub struct FrameData {
    pub id: int,
    pub user_id: int,
    pub quote_id: Option<int>,
    pub send_time: int,
    pub message_type: int,
    pub message: Seq<char>,
}

/// The wire view of a delivery copy: what its frame must carry.
pub open spec fn frame_of(m: crate::model::message::StreamMessage) -> FrameData {
    FrameData {
        id: m.id as int,
        user_id: m.user_id as int,
        quote_id: match m.quote_id {
            Some(q) => Some(q as int),
            None => None,
        },
        send_time: m.send_time as int,
        message_type: m.message_type as int,
        message: m.message@,
    }
}

/// The optional quoted-message id on the wire: a number or `null`.
pub open spec fn quote_chars(q: Option<int>) -> Seq<char> {
    match q {
        None => "null"@,
        Some(v) => int_chars(v),
    }
}

/// The characters of the wire frame carrying `d`.
pub open spec fn frame_chars(d: FrameData) -> Seq<char> {
    "{\"id\":"@ + int_chars(d.id) + ",\"userId\":"@ + int_chars(d.user_id) + ",\"quoteId\":"@
        + quote_chars(d.quote_id) + ",\"sendTime\":"@ + int_chars(d.send_time)
        + ",\"messageType\":"@ + int_chars(d.message_type) + ",\"message\":\""@
        + esc_chars(d.message) + "\"}"@
}

/// Serialize a delivery copy into its wire frame.
pub fn encode_frame(m: &crate::model::message::StreamMessage) -> (r: String)
    ensures
        r@ == frame_chars(frame_of(*m)),
{
    let mut out = String::new();
    out.append("{\"id\":");
    push_i64_dec(&mut out, m.id as i64);
    out.append(",\"userId\":");
    push_i64_dec(&mut out, m.user_id as i64);
    out.append(",\"quoteId\":");
    match m.quote_id {
        Some(q) => push_i64_dec(&mut out, q as i64),
        None => out.append("null"),
    }
    out.append(",\"sendTime\":");
    push_i64_dec(&mut out, m.send_time);
    out.append(",\"messageType\":");
    push_i64_dec(&mut out, m.message_type as i64);
    out.append(",\"message\":\"");
    push_escaped(&mut out, m.message.as_str());
    out.append("\"}");
    proof {
        assert(out@ =~= frame_chars(frame_of(*m)));
    }
    out
}

/// Step past `lit` if it stands at `i`.
pub open spec fn after_lit(s: Seq<char>, i: int, lit: Seq<char>) -> Option<int> {
    if lit_at(s, i, lit) {
        Some(i + lit.len())
    } else {
        None
    }
}

/// Parse the optional quoted-message id at `i`: `null` or a number.
pub open spec fn spec_parse_quote(s: Seq<char>, i: int) -> Option<(Option<int>, int)> {
    if lit_at(s, i, "null"@) {
        Some((None, i + "null"@.len()))
    } else {
        match spec_parse_i32(s, i) {
            None => None,
            Some((v, j)) => Some((Some(v), j)),
        }
    }
}

/// Parse a whole wire frame: every field in its fixed order, and nothing
/// after the closing brace.
pub open spec fn spec_parse_frame(s: Seq<char>) -> Option<FrameData> {
    match after_lit(s, 0, "{\"id\":"@) {
        None => None,
        Some(i1) => match spec_parse_i32(s, i1) {
            None => None,
            Some((id, i2)) => match after_lit(s, i2, ",\"userId\":"@) {
                None => None,
                Some(i3) => match spec_parse_i32(s, i3) {
                    None => None,
                    Some((user_id, i4)) => match after_lit(s, i4, ",\"quoteId\":"@) {
                        None => None,
                        Some(i5) => match spec_parse_quote(s, i5) {
                            None => None,
                            Some((quote_id, i6)) => match after_lit(s, i6, ",\"sendTime\":"@) {
                                None => None,
                                Some(i7) => match spec_parse_i64(s, i7) {
                                    None => None,
                                    Some((send_time, i8)) => match after_lit(
                                        s,
                                        i8,
                                        ",\"messageType\":"@,
                                    ) {
                                        None => None,
                                        Some(i9) => match spec_parse_i32(s, i9) {
                                            None => None,
                                            Some((message_type, i10)) => match after_lit(
                                                s,
                                                i10,
                                                ",\"message\":\""@,
                                            ) {
                                                None => None,
                                                Some(i11) => match spec_parse_body(s, i11) {
                                                    None => None,
                                                    Some((message, i12)) => match after_lit(
                                                        s,
                                                        i12,
                                                        "\"}"@,
                                                    ) {
                                                        None => None,
                                                        Some(i13) => if i13 == s.len() {
                                                            Some(
                                                                FrameData {
                                                                    id,
                                                                    user_id,
                                                                    quote_id,
                                                                    send_time,
                                                                    message_type,
                                                                    message,
                                                                },
                                                            )
                                                        } else {
                                                            None
                                                        },
                                                    },
                                                },
                                            },
                                        },
                                    },
                                },
                            },
                        },
                    },
                },
            },
        },
    }
}

/// Parse a wire frame back into a delivery copy, exactly as
/// `spec_parse_frame` reads it.
pub fn parse_frame(s: &str) -> (r: Option<crate::model::message::StreamMessage>)
    ensures
        match spec_parse_frame(s@) {
            None => r is None,
            Some(d) => r matches Some(m) && frame_of(m) == d,
        },
{
    let len = s.unicode_len();
    let i1 = match expect_lit(s, len, 0, "{\"id\":") {
        None => { return None; },
        Some(i) => i,
    };
    let (id, i2) = match parse_i32_at(s, len, i1) {
        None => { return None; },
        Some(p) => p,
    };
    let i3 = match expect_lit(s, len, i2, ",\"userId\":") {
        None => { return None; },
        Some(i) => i,
    };
    let (user_id, i4) = match parse_i32_at(s, len, i3) {
        None => { return None; },
        Some(p) => p,
    };
    let i5 = match expect_lit(s, len, i4, ",\"quoteId\":") {
        None => { return None; },
        Some(i) => i,
    };
    let (quote_id, i6) = match expect_lit(s, len, i5, "null") {
        Some(i) => (None, i),
        None => match parse_i32_at(s, len, i5) {
            None => { return None; },
            Some((q, i)) => (Some(q), i),
        },
    };
    let i7 = match expect_lit(s, len, i6, ",\"sendTime\":") {
        None => { return None; },
        Some(i) => i,
    };
    let (send_time, i8) = match parse_i64_at(s, len, i7) {
        None => { return None; },
        Some(p) => p,
    };
    let i9 = match expect_lit(s, len, i8, ",\"messageType\":") {
        None => { return None; },
        Some(i) => i,
    };
    let (message_type, i10) = match parse_i32_at(s, len, i9) {
        None => { return None; },
        Some(p) => p,
    };
    let i11 = match expect_lit(s, len, i10, ",\"message\":\"") {
        None => { return None; },
        Some(i) => i,
    };
    let (message, i12) = match parse_body(s, len, i11) {
        None => { return None; },
        Some(p) => p,
    };
    let i13 = match expect_lit(s, len, i12, "\"}") {
        None => { return None; },
        Some(i) => i,
    };
    if i13 != len {
        return None;
    }
    Some(crate::model::message::StreamMessage { id, user_id, quote_id, send_time, message_type, message })
}

/// Parse a decimal number with optional sign at `i`, exactly as
/// `spec_parse_i32` reads it.
pub(crate) fn parse_i32_at(s: &str, len: usize, i: usize) -> (r: Option<(i32, usize)>)
    requires
        len == s@.len(),
        i <= len,
    ensures
        match spec_parse_i32(s@, i as int) {
            None => r is None,
            Some((v, j)) => r matches Some(p) && p.0 as int == v && p.1 as int == j
                && p.1 <= len,
        },
{
    match parse_i64_at(s, len, i) {
        None => None,
        Some((v, j)) => {
            if v < i32::MIN as i64 || v > i32::MAX as i64 {
                None
            } else {
                Some((v as i32, j))
            }
        },
    }
}

// ---------------------------------------------------------------------------
// Round trip: parsing a frame this module wrote yields the fields it was
// written from.
// ---------------------------------------------------------------------------

/// Every character of a decimal representation is a digit.
proof fn lemma_dec_chars_digits(n: nat)
    ensures
        dec_chars(n).len() >= 1,
        forall|k: int| 0 <= k < dec_chars(n).len() ==> is_digit(#[trigger] dec_chars(n)[k]),
    decreases n,
{
    if n >= 10 {
        lemma_dec_chars_digits(n / 10);
    }
}

/// A number below the `k`-th power of ten has at most `k` digits.
proof fn lemma_dec_chars_len(n: nat, k: nat)
    requires
        1 <= k,
        n < pow10(k),
    ensures
        dec_chars(n).len() <= k,
    decreases n,
{
    reveal_with_fuel(pow10, 3);
    if n >= 10 {
        assert(pow10(k) == 10 * pow10((k - 1) as nat));
        assert(pow10((k - 1) as nat) >= 1) by {
            lemma_pow10_le(0, (k - 1) as nat);
        }
        assert(k >= 2) by {
            if k == 1 {
                assert(pow10(1nat) == 10);
            }
        }
        lemma_dec_chars_len(n / 10, (k - 1) as nat);
    }
}

/// A run of digits ending at a non-digit (or at the end of the input) is
/// exactly what the digit scan covers.
proof fn lemma_digits_end_run(s: Seq<char>, i: int, j: int)
    requires
        0 <= i <= j <= s.len(),
        forall|t: int| i <= t < j ==> is_digit(#[trigger] s[t]),
        j == s.len() || !is_digit(s[j]),
    ensures
        digits_end(s, i) == j,
    decreases j - i,
{
    if i < j {
        lemma_digits_end_run(s, i + 1, j);
    }
}

/// The value of the digits of `m` is `m` itself.
proof fn lemma_num_val_dec(s: Seq<char>, i: int, m: nat)
    requires
        0 <= i,
        i + dec_chars(m).len() <= s.len(),
        s.subrange(i, i + dec_chars(m).len()) == dec_chars(m),
    ensures
        num_val(s, i, i + dec_chars(m).len()) == m,
    decreases m,
{
    let cs = dec_chars(m);
    let l = cs.len() as int;
    if m < 10 {
        assert(cs[0] == digit_char(m as int));
        assert(s[i] == cs[0]);
        assert(num_val(s, i, i) == 0);
        assert(num_val(s, i, i + 1) == num_val(s, i, i) * 10 + digit_val(s[i]));
    } else {
        let cs0 = dec_chars(m / 10);
        assert(cs == cs0.push(digit_char((m % 10) as int)));
        assert(s.subrange(i, i + cs0.len()) =~= cs0) by {
            assert(forall|k: int| 0 <= k < cs0.len() ==> s[i + k] == cs[k] && cs[k] == cs0[k]);
        }
        lemma_num_val_dec(s, i, m / 10);
        assert(s[i + l - 1] == cs[l - 1]);
        assert(cs[l - 1] == digit_char((m % 10) as int));
        assert(num_val(s, i, i + l) == num_val(s, i, i + l - 1) * 10 + digit_val(s[i + l - 1]));
    }
}

/// An unsigned decimal parse at the start of the digits of `m` yields `m`,
/// when whatever follows them is not a digit.
proof fn lemma_parse_dec_at(s: Seq<char>, i: int, m: nat)
    requires
        m < pow10(19),
        0 <= i,
        i + dec_chars(m).len() <= s.len(),
        s.subrange(i, i + dec_chars(m).len()) == dec_chars(m),
        i + dec_chars(m).len() == s.len() || !is_digit(s[i + dec_chars(m).len()]),
    ensures
        spec_parse_dec(s, i) == Some((m as int, i + dec_chars(m).len())),
{
    let l = dec_chars(m).len() as int;
    lemma_dec_chars_digits(m);
    lemma_dec_chars_len(m, 19);
    assert(forall|t: int| i <= t < i + l ==> is_digit(#[trigger] s[t])) by {
        assert(forall|t: int| i <= t < i + l ==> s[t] == dec_chars(m)[t - i]);
    }
    lemma_digits_end_run(s, i, i + l);
    lemma_num_val_dec(s, i, m);
}

/// A signed decimal parse at the start of the representation of `n` yields
/// `n`, when whatever follows it is not a digit.
proof fn lemma_parse_int_at(s: Seq<char>, i: int, n: int)
    requires
        -pow10(19) < n < pow10(19),
        0 <= i,
        i + int_chars(n).len() <= s.len(),
        s.subrange(i, i + int_chars(n).len()) == int_chars(n),
        i + int_chars(n).len() == s.len() || !is_digit(s[i + int_chars(n).len()]),
    ensures
        spec_parse_int(s, i) == Some((n, i + int_chars(n).len())),
{
    let cs = int_chars(n);
    let l = cs.len() as int;
    if n < 0 {
        let m = (-n) as nat;
        assert(cs == seq!['-'] + dec_chars(m));
        assert(s[i] == cs[0] && cs[0] == '-');
        assert(s.subrange(i + 1, i + 1 + dec_chars(m).len() as int) =~= dec_chars(m)) by {
            assert(forall|k: int| 0 <= k < dec_chars(m).len() ==> s[i + 1 + k] == cs[1 + k]
                && cs[1 + k] == dec_chars(m)[k]);
        }
        lemma_parse_dec_at(s, i + 1, m);
    } else {
        let m = n as nat;
        lemma_dec_chars_digits(m);
        assert(s[i] == cs[0]);
        assert(is_digit(cs[0]));
        lemma_parse_dec_at(s, i, m);
    }
}

/// Like `lemma_parse_int_at`, for a value that fits a 64-bit integer.
proof fn lemma_parse_i64_at(s: Seq<char>, i: int, n: int)
    requires
        i64::MIN <= n <= i64::MAX,
        0 <= i,
        i + int_chars(n).len() <= s.len(),
        s.subrange(i, i + int_chars(n).len()) == int_chars(n),
        i + int_chars(n).len() == s.len() || !is_digit(s[i + int_chars(n).len()]),
    ensures
        spec_parse_i64(s, i) == Some((n, i + int_chars(n).len())),
{
    reveal_with_fuel(pow10, 20);
    lemma_parse_int_at(s, i, n);
}

/// Like `lemma_parse_int_at`, for a value that fits a 32-bit integer.
proof fn lemma_parse_i32_at(s: Seq<char>, i: int, n: int)
    requires
        i32::MIN <= n <= i32::MAX,
        0 <= i,
        i + int_chars(n).len() <= s.len(),
        s.subrange(i, i + int_chars(n).len()) == int_chars(n),
        i + int_chars(n).len() == s.len() || !is_digit(s[i + int_chars(n).len()]),
    ensures
        spec_parse_i32(s, i) == Some((n, i + int_chars(n).len())),
{
    reveal_with_fuel(pow10, 20);
    lemma_parse_int_at(s, i, n);
}

/// A body parse at the start of the escaped text of `body` yields `body`
/// and stops at the closing quote that follows it.
#[verifier::rlimit(100)]
proof fn lemma_parse_body_at(s: Seq<char>, i: int, body: Seq<char>)
    requires
        0 <= i,
        i + esc_chars(body).len() < s.len(),
        s.subrange(i, i + esc_chars(body).len()) == esc_chars(body),
        s[i + esc_chars(body).len()] == '"',
    ensures
        spec_parse_body(s, i) == Some((body, i + esc_chars(body).len())),
    decreases body.len(),
{
    let e = esc_chars(body);
    let l = e.len() as int;
    if body.len() == 0 {
        assert(l == 0);
        assert(s[i] == '"');
        assert(body =~= Seq::<char>::empty());
    } else {
        let c = body[0];
        let rest = body.drop_first();
        let e0 = esc_char(c);
        let erest = esc_chars(rest);
        assert(e == e0 + erest);
        let l0 = e0.len() as int;
        assert(s.subrange(i + l0, i + l) =~= erest) by {
            assert(forall|k: int| 0 <= k < erest.len() ==> s[i + l0 + k] == e[l0 + k]
                && e[l0 + k] == erest[k]);
        }
        assert(forall|k: int| 0 <= k < l0 ==> s[i + k] == e0[k]) by {
            assert(forall|k: int| 0 <= k < l0 ==> s[i + k] == e[k] && e[k] == e0[k]);
        }
        lemma_parse_body_at(s, i + l0, rest);
        if c == '"' {
            assert(s[i + 0] == e0[0] && s[i + 1] == e0[1]);
            assert(s[i] == '\\' && s[i + 1] == '"');
            assert(seq![s[i + 1]] + rest =~= body);
        } else if c == '\\' {
            assert(s[i + 0] == e0[0] && s[i + 1] == e0[1]);
            assert(s[i] == '\\' && s[i + 1] == '\\');
            assert(seq![s[i + 1]] + rest =~= body);
        } else if (c as u32) < 0x20 {
            let code = (c as u32) as int;
            assert(s[i + 0] == e0[0] && s[i + 1] == e0[1] && s[i + 2] == e0[2] && s[i + 3] == e0[3]
                && s[i + 4] == e0[4] && s[i + 5] == e0[5]);
            assert(s[i] == '\\' && s[i + 1] == 'u' && s[i + 2] == '0' && s[i + 3] == '0');
            assert(s[i + 4] == hex_char(code / 16) && s[i + 5] == hex_char(code % 16));
            assert(is_hex(hex_char(code / 16)) && is_hex(hex_char(code % 16)));
            assert(hex_val(hex_char(code / 16)) == code / 16);
            assert(hex_val(hex_char(code % 16)) == code % 16);
            assert(16 * hex_val(s[i + 4]) + hex_val(s[i + 5]) == code);
            lemma_char_code_identity(c);
            assert(seq![char_from_code(code)] + rest =~= body);
        } else {
            assert(s[i + 0] == e0[0]);
            assert(s[i] == c);
            assert(seq![s[i]] + rest =~= body);
        }
    }
}

/// A control character is recovered from its code.
proof fn lemma_char_code_identity(c: char)
    requires
        (c as u32) < 0x20,
    ensures
        char_from_code((c as u32) as int) == c,
{
    assert(((c as u32) as u8) as char == c);
}


/// The first character of a number is a minus sign or a digit.
proof fn lemma_int_chars_first(n: int)
    ensures
        int_chars(n).len() >= 1,
        int_chars(n)[0] == '-' || is_digit(int_chars(n)[0]),
{
    if n < 0 {
        lemma_dec_chars_digits((-n) as nat);
        assert(int_chars(n)[0] == '-');
    } else {
        lemma_dec_chars_digits(n as nat);
        assert(int_chars(n)[0] == dec_chars(n as nat)[0]);
    }
}

/// Whether the fields fit what a frame can carry: the four 32-bit fields
/// and the 64-bit send time within their ranges.
pub open spec fn wire_range(d: FrameData) -> bool {
    &&& i32::MIN <= d.id <= i32::MAX
    &&& i32::MIN <= d.user_id <= i32::MAX
    &&& (d.quote_id matches Some(q) ==> i32::MIN <= q <= i32::MAX)
    &&& i64::MIN <= d.send_time <= i64::MAX
    &&& i32::MIN <= d.message_type <= i32::MAX
}

/// The two halves of a concatenation, as slices of it.
proof fn lemma_concat_slices(u: Seq<char>, v: Seq<char>)
    ensures
        (u + v).subrange(0, u.len() as int) == u,
        (u + v).subrange(u.len() as int, (u + v).len() as int) == v,
{
    assert((u + v).subrange(0, u.len() as int) =~= u);
    assert((u + v).subrange(u.len() as int, (u + v).len() as int) =~= v);
}

/// A slice within a prefix slice is a slice of the whole.
proof fn lemma_slice_of_prefix(s: Seq<char>, m: int, a: int, b: int)
    requires
        0 <= a <= b <= m <= s.len(),
    ensures
        s.subrange(a, b) == s.subrange(0, m).subrange(a, b),
{
    assert(s.subrange(a, b) =~= s.subrange(0, m).subrange(a, b));
}

/// Round trip: the frame built from `d` parses back to exactly `d`.
#[verifier::rlimit(100)]
pub proof fn lemma_frame_round_trip(d: FrameData)
    requires
        wire_range(d),
    ensures
        spec_parse_frame(frame_chars(d)) == Some(d),
{
    let s = frame_chars(d);
    let p1 = "{\"id\":"@;
    let x1 = int_chars(d.id);
    let p2 = ",\"userId\":"@;
    let x2 = int_chars(d.user_id);
    let p3 = ",\"quoteId\":"@;
    let x3 = quote_chars(d.quote_id);
    let p4 = ",\"sendTime\":"@;
    let x4 = int_chars(d.send_time);
    let p5 = ",\"messageType\":"@;
    let x5 = int_chars(d.message_type);
    let p6 = ",\"message\":\""@;
    let x6 = esc_chars(d.message);
    let p7 = "\"}"@;
    reveal_strlit("{\"id\":");
    reveal_strlit(",\"userId\":");
    reveal_strlit(",\"quoteId\":");
    reveal_strlit(",\"sendTime\":");
    reveal_strlit(",\"messageType\":");
    reveal_strlit(",\"message\":\"");
    reveal_strlit("\"}");
    reveal_strlit("null");
    let a1 = p1.len() as int;
    let a2 = a1 + x1.len();
    let a3 = a2 + p2.len();
    let a4 = a3 + x2.len();
    let a5 = a4 + p3.len();
    let a6 = a5 + x3.len();
    let a7 = a6 + p4.len();
    let a8 = a7 + x4.len();
    let a9 = a8 + p5.len();
    let a10 = a9 + x5.len();
    let a11 = a10 + p6.len();
    let a12 = a11 + x6.len();
    let a13 = a12 + p7.len();
    let c1 = p1;
    let c2 = c1 + x1;
    let c3 = c2 + p2;
    let c4 = c3 + x2;
    let c5 = c4 + p3;
    let c6 = c5 + x3;
    let c7 = c6 + p4;
    let c8 = c7 + x4;
    let c9 = c8 + p5;
    let c10 = c9 + x5;
    let c11 = c10 + p6;
    let c12 = c11 + x6;
    assert(s == c12 + p7);
    lemma_concat_slices(c12, p7);
    assert(s.subrange(0, a12) == c12);
    assert(s.subrange(a12, a13) == p7);
    lemma_concat_slices(c11, x6);
    lemma_slice_of_prefix(s, a12, a11, a12);
    assert(s.subrange(a11, a12) == x6);
    lemma_slice_of_prefix(s, a12, 0, a11);
    assert(s.subrange(0, a11) == c11);
    lemma_concat_slices(c10, p6);
    lemma_slice_of_prefix(s, a11, a10, a11);
    assert(s.subrange(a10, a11) == p6);
    lemma_slice_of_prefix(s, a11, 0, a10);
    assert(s.subrange(0, a10) == c10);
    lemma_concat_slices(c9, x5);
    lemma_slice_of_prefix(s, a10, a9, a10);
    assert(s.subrange(a9, a10) == x5);
    lemma_slice_of_prefix(s, a10, 0, a9);
    assert(s.subrange(0, a9) == c9);
    lemma_concat_slices(c8, p5);
    lemma_slice_of_prefix(s, a9, a8, a9);
    assert(s.subrange(a8, a9) == p5);
    lemma_slice_of_prefix(s, a9, 0, a8);
    assert(s.subrange(0, a8) == c8);
    lemma_concat_slices(c7, x4);
    lemma_slice_of_prefix(s, a8, a7, a8);
    assert(s.subrange(a7, a8) == x4);
    lemma_slice_of_prefix(s, a8, 0, a7);
    assert(s.subrange(0, a7) == c7);
    lemma_concat_slices(c6, p4);
    lemma_slice_of_prefix(s, a7, a6, a7);
    assert(s.subrange(a6, a7) == p4);
    lemma_slice_of_prefix(s, a7, 0, a6);
    assert(s.subrange(0, a6) == c6);
    lemma_concat_slices(c5, x3);
    lemma_slice_of_prefix(s, a6, a5, a6);
    assert(s.subrange(a5, a6) == x3);
    lemma_slice_of_prefix(s, a6, 0, a5);
    assert(s.subrange(0, a5) == c5);
    lemma_concat_slices(c4, p3);
    lemma_slice_of_prefix(s, a5, a4, a5);
    assert(s.subrange(a4, a5) == p3);
    lemma_slice_of_prefix(s, a5, 0, a4);
    assert(s.subrange(0, a4) == c4);
    lemma_concat_slices(c3, x2);
    lemma_slice_of_prefix(s, a4, a3, a4);
    assert(s.subrange(a3, a4) == x2);
    lemma_slice_of_prefix(s, a4, 0, a3);
    assert(s.subrange(0, a3) == c3);
    lemma_concat_slices(c2, p2);
    lemma_slice_of_prefix(s, a3, a2, a3);
    assert(s.subrange(a2, a3) == p2);
    lemma_slice_of_prefix(s, a3, 0, a2);
    assert(s.subrange(0, a2) == c2);
    lemma_concat_slices(c1, x1);
    lemma_slice_of_prefix(s, a2, a1, a2);
    assert(s.subrange(a1, a2) == x1);
    lemma_slice_of_prefix(s, a2, 0, a1);
    assert(s.subrange(0, a1) == c1);
    assert(s.subrange(0, a1) == p1);
    assert(Seq::<char>::empty() + p1 =~= p1);
    assert(s.len() == a13);

    assert(lit_at(s, 0, p1));
    assert(after_lit(s, 0, p1) == Some(a1));

    assert(s.subrange(a2, a3)[0] == s[a2 + 0]);
    assert(s[a2] == p2[0]);
    assert(!is_digit(s[a2]));
    lemma_parse_i32_at(s, a1, d.id);
    assert(spec_parse_i32(s, a1) == Some((d.id, a2)));
    assert(lit_at(s, a2, p2));
    assert(after_lit(s, a2, p2) == Some(a3));

    assert(s.subrange(a4, a5)[0] == s[a4 + 0]);
    assert(s[a4] == p3[0]);
    assert(!is_digit(s[a4]));
    lemma_parse_i32_at(s, a3, d.user_id);
    assert(spec_parse_i32(s, a3) == Some((d.user_id, a4)));
    assert(lit_at(s, a4, p3));
    assert(after_lit(s, a4, p3) == Some(a5));

    assert(s.subrange(a6, a7)[0] == s[a6 + 0]);
    assert(s[a6] == p4[0]);
    assert(!is_digit(s[a6]));
    match d.quote_id {
        None => {
            assert(x3 == "null"@);
            assert(lit_at(s, a5, "null"@));
            assert(spec_parse_quote(s, a5) == Some((None::<int>, a6)));
        },
        Some(q) => {
            lemma_int_chars_first(q);
            assert(s.subrange(a5, a6)[0] == s[a5 + 0]);
            assert(s[a5] == x3[0]);
            assert(!lit_at(s, a5, "null"@)) by {
                if lit_at(s, a5, "null"@) {
                    assert(s.subrange(a5, a5 + 4)[0] == s[a5 + 0]);
                    assert("null"@[0] == 'n');
                }
            }
            lemma_parse_i32_at(s, a5, q);
            assert(spec_parse_i32(s, a5) == Some((q, a6)));
            assert(spec_parse_quote(s, a5) == Some((Some(q), a6)));
        },
    }
    assert(spec_parse_quote(s, a5) == Some((d.quote_id, a6)));
    assert(lit_at(s, a6, p4));
    assert(after_lit(s, a6, p4) == Some(a7));

    assert(s.subrange(a8, a9)[0] == s[a8 + 0]);
    assert(s[a8] == p5[0]);
    assert(!is_digit(s[a8]));
    lemma_parse_i64_at(s, a7, d.send_time);
    assert(spec_parse_i64(s, a7) == Some((d.send_time, a8)));
    assert(lit_at(s, a8, p5));
    assert(after_lit(s, a8, p5) == Some(a9));

    assert(s.subrange(a10, a11)[0] == s[a10 + 0]);
    assert(s[a10] == p6[0]);
    assert(!is_digit(s[a10]));
    lemma_parse_i32_at(s, a9, d.message_type);
    assert(spec_parse_i32(s, a9) == Some((d.message_type, a10)));
    assert(lit_at(s, a10, p6));
    assert(after_lit(s, a10, p6) == Some(a11));

    assert(s.subrange(a12, a13)[0] == s[a12 + 0]);
    assert(s[a12] == p7[0]);
    assert(s[a12] == '"');
    lemma_parse_body_at(s, a11, d.message);
    assert(spec_parse_body(s, a11) == Some((d.message, a12)));
    assert(lit_at(s, a12, p7));
    assert(after_lit(s, a12, p7) == Some(a13));

    assert(spec_parse_frame(s) == Some(FrameData {
        id: d.id,
        user_id: d.user_id,
        quote_id: d.quote_id,
        send_time: d.send_time,
        message_type: d.message_type,
        message: d.message,
    }));
}

} // verus!
