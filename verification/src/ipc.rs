//! The datagram by which the server tells the fetcher that a feed was added:
//! the feed's id written in decimal.

use vstd::prelude::*;
use vstd::utf8::{decode_utf8, encode_utf8, is_ascii_chars, valid_utf8};
use crate::text::{is_white_space, trim, trim_str};

verus! {

broadcast use vstd::utf8::group_utf8_lib;

/// A decimal digit.
pub open spec fn is_digit(c: char) -> bool {
    '0' <= c <= '9'
}

/// The value of a decimal digit.
pub open spec fn digit_value(c: char) -> int {
    (c as int) - ('0' as int)
}

/// The digit that stands for `d`, below ten.
pub open spec fn digit_char(d: nat) -> char {
    ((d + 48) as u32) as char
}

/// Every character of `s` is a decimal digit.
pub open spec fn all_digits(s: Seq<char>) -> bool {
    forall|i: int| 0 <= i < s.len() ==> #[trigger] is_digit(s[i])
}

/// The number that a string of decimal digits denotes.
pub open spec fn digits_value(s: Seq<char>) -> int
    decreases s.len(),
{
    if s.len() == 0 {
        0
    } else {
        10 * digits_value(s.drop_last()) + digit_value(s.last())
    }
}

/// What `str::parse::<i32>` accepts: an optional `+` or `-`, then one or more
/// decimal digits, denoting a value in the range of `i32`.
pub open spec fn decimal_i32(s: Seq<char>) -> Option<i32> {
    let signed = s.len() > 0 && (s[0] == '-' || s[0] == '+');
    let body = if signed { s.drop_first() } else { s };
    let magnitude = digits_value(body);
    let v = if s.len() > 0 && s[0] == '-' { -magnitude } else { magnitude };
    if body.len() > 0 && all_digits(body) && i32::MIN <= v <= i32::MAX {
        Some(v as i32)
    } else {
        None
    }
}

/// The decimal digits of `n`, without leading zeros.
pub open spec fn nat_digits(n: nat) -> Seq<char>
    decreases n,
{
    if n < 10 {
        seq![digit_char(n)]
    } else {
        nat_digits(n / 10).push(digit_char(n % 10))
    }
}

/// `v` written in decimal, as `format!("{}", v)` writes an integer.
pub open spec fn decimal_text(v: int) -> Seq<char> {
    if v < 0 {
        seq!['-'] + nat_digits((-v) as nat)
    } else {
        nat_digits(v as nat)
    }
}

/// The datagram that announces feed `id`: its decimal text, one byte per
/// character.
pub open spec fn feed_id_datagram(id: i32) -> Seq<u8> {
    decimal_text(id as int).map_values(|c: char| c as u8)
}

/// Why a datagram does not carry a feed id.
#[derive(Debug, Clone, Copy, PartialEq, Eq, Structural)]
pub enum DecodeError {
    /// The bytes are not UTF-8.
    InvalidInput,
    /// The trimmed text is not a decimal `i32`.
    InvalidData,
}

/// What `decode_feed_id` makes of a datagram.
pub open spec fn decoded_feed_id(b: Seq<u8>) -> Result<i32, DecodeError> {
    if !valid_utf8(b) {
        Err(DecodeError::InvalidInput)
    } else {
        match decimal_i32(trim(decode_utf8(b))) {
            Some(v) => Ok(v),
            None => Err(DecodeError::InvalidData),
        }
    }
}

/// `std::str::from_utf8`: its documentation promises the text when the bytes
/// are valid UTF-8 and an error otherwise.
#[verifier::external_body]
fn utf8_text<'a>(bytes: &'a [u8]) -> (r: Option<&'a str>)
    ensures
        r is Some <==> valid_utf8(bytes@),
        r matches Some(t) ==> t@ == decode_utf8(bytes@),
{
    std::str::from_utf8(bytes).ok()
}

proof fn lemma_digits_prefix(s: Seq<char>, k: int)
    requires
        all_digits(s),
        0 <= k <= s.len(),
    ensures
        0 <= digits_value(s.take(k)) <= digits_value(s),
    decreases s.len(),
{
    if s.len() == 0 {
        assert(s.take(k) =~= s);
    } else {
        assert(is_digit(s[s.len() - 1]));
        assert(all_digits(s.drop_last()));
        if k == s.len() {
            assert(s.take(k) =~= s);
            lemma_digits_prefix(s.drop_last(), k - 1);
        } else {
            lemma_digits_prefix(s.drop_last(), k);
            assert(s.drop_last().take(k) =~= s.take(k));
            // The shorter number is not negative either.
            lemma_digits_prefix(s.drop_last(), s.len() - 1);
            assert(s.drop_last().take(s.len() - 1) =~= s.drop_last());
        }
    }
}

/// Parses `s` as `str::parse::<i32>` does.
pub fn parse_i32(s: &str) -> (r: Option<i32>)
    ensures
        r == decimal_i32(s@),
{
    let n = s.unicode_len();
    let mut start: usize = 0;
    let mut neg = false;
    if n > 0 {
        let c = s.get_char(0);
        if c == '-' {
            neg = true;
            start = 1;
        } else if c == '+' {
            start = 1;
        }
    }
    let ghost body = if start == 1 { s@.drop_first() } else { s@ };
    assert(body =~= s@.subrange(start as int, n as int));
    assert(body == (if s@.len() > 0 && (s@[0] == '-' || s@[0] == '+') { s@.drop_first() } else { s@ }));
    assert(neg == (s@.len() > 0 && s@[0] == '-'));
    if start == n {
        return None;
    }
    let mut i: usize = start;
    let mut acc: i64 = 0;
    while i < n
        invariant
            start <= i <= n,
            n == s@.len(),
            body =~= s@.subrange(start as int, n as int),
            body == (if s@.len() > 0 && (s@[0] == '-' || s@[0] == '+') { s@.drop_first() } else { s@ }),
            neg == (s@.len() > 0 && s@[0] == '-'),
            all_digits(body.take(i - start)),
            acc == digits_value(body.take(i - start)),
            0 <= acc <= 0x8000_0000,
        decreases n - i,
    {
        let c = s.get_char(i);
        assert(body[i - start] == c);
        if !('0' <= c && c <= '9') {
            assert(!is_digit(body[i - start]));
            assert(!all_digits(body));
            return None;
        }
        let d: u32 = (c as u32) - ('0' as u32);
        acc = acc * 10 + (d as i64);
        i = i + 1;
        assert(body.take(i - start).drop_last() =~= body.take(i - start - 1));
        assert(all_digits(body.take(i - start)));
        if acc > 0x8000_0000 {
            proof {
                if all_digits(body) {
                    lemma_digits_prefix(body, (i - start) as int);
                }
            }
            return None;
        }
    }
    assert(body.take(n - start) =~= body);
    let v: i64 = if neg { -acc } else { acc };
    if v < -0x8000_0000 || v > 0x7fff_ffff {
        None
    } else {
        Some(v as i32)
    }
}

fn push_digits(n: u32, out: &mut Vec<u8>)
    ensures
        final(out)@ == old(out)@ + nat_digits(n as nat).map_values(|c: char| c as u8),
    decreases n,
{
    if n >= 10 {
        push_digits(n / 10, out);
    }
    let d: u8 = (n % 10) as u8 + 48;
    out.push(d);
    proof {
        let f = |c: char| c as u8;
        if n >= 10 {
            assert(nat_digits(n as nat) == nat_digits((n / 10) as nat).push(digit_char((n % 10) as nat)));
            assert(nat_digits(n as nat).map_values(f) =~= nat_digits((n / 10) as nat).map_values(f).push(d));
        } else {
            assert(nat_digits(n as nat).map_values(f) =~= seq![d]);
        }
    }
}

/// The datagram that announces feed `feed_id`, as `format!("{}", feed_id)`
/// writes it.
pub fn feed_id_message(feed_id: i32) -> (r: Vec<u8>)
    ensures
        r@ == feed_id_datagram(feed_id),
{
    let mut out: Vec<u8> = Vec::new();
    let wide: i64 = feed_id as i64;
    let magnitude: u32 = if wide < 0 { (-wide) as u32 } else { wide as u32 };
    if wide < 0 {
        out.push(45u8);
    }
    push_digits(magnitude, &mut out);
    proof {
        let f = |c: char| c as u8;
        if wide < 0 {
            assert((seq!['-'] + nat_digits(magnitude as nat)).map_values(f)
                =~= seq![45u8] + nat_digits(magnitude as nat).map_values(f));
        }
        assert(out@ =~= feed_id_datagram(feed_id));
    }
    out
}

/// Reads the feed id that a datagram carries.
pub fn decode_feed_id(buffer: &[u8]) -> (r: Result<i32, DecodeError>)
    ensures
        r == decoded_feed_id(buffer@),
{
    match utf8_text(buffer) {
        None => Err(DecodeError::InvalidInput),
        Some(message) => match parse_i32(trim_str(message)) {
            Some(id) => Ok(id),
            None => Err(DecodeError::InvalidData),
        },
    }
}

proof fn lemma_nat_digits(n: nat)
    ensures
        nat_digits(n).len() > 0,
        all_digits(nat_digits(n)),
        digits_value(nat_digits(n)) == n,
        is_ascii_chars(nat_digits(n)),
    decreases n,
{
    assert(digit_char((n % 10) as nat) as int == (n % 10) + 48);
    if n < 10 {
        assert(nat_digits(n).drop_last() =~= Seq::<char>::empty());
        assert(n % 10 == n);
        assert(nat_digits(n).last() == digit_char(n));
        assert(digits_value(Seq::<char>::empty()) == 0);
        assert(digits_value(nat_digits(n)) == n);
    }
    if n >= 10 {
        lemma_nat_digits(n / 10);
        let s = nat_digits(n);
        assert(s.drop_last() =~= nat_digits(n / 10));
        assert(10 * (n / 10) + n % 10 == n);
        assert(s.last() == digit_char((n % 10) as nat));
        assert(digits_value(s) == 10 * digits_value(s.drop_last()) + digit_value(s.last()));
        assert(digits_value(s) == n);
        assert forall|i: int| 0 <= i < s.len() implies #[trigger] is_digit(s[i]) by {
            if i < s.len() - 1 {
                assert(s[i] == nat_digits(n / 10)[i]);
            }
        }
        assert forall|i: int| 0 <= i < s.len() implies '\0' <= #[trigger] s[i] <= '\u{7f}' by {
            assert(is_digit(s[i]));
        }
    }
}

proof fn lemma_trim_unchanged(s: Seq<char>)
    requires
        s.len() > 0,
        !is_white_space(s[0]),
        !is_white_space(s.last()),
    ensures
        trim(s) == s,
{
}

/// The fetcher reads back exactly the feed id that the server sent: decoding
/// the datagram that announces a feed gives its id.
pub proof fn lemma_feed_id_round_trip(id: i32)
    ensures
        decoded_feed_id(feed_id_datagram(id)) == Ok::<i32, DecodeError>(id),
{
    let text = decimal_text(id as int);
    let m: nat = if id < 0 { (-id) as nat } else { id as nat };
    lemma_nat_digits(m);
    let digits = nat_digits(m);
    assert(is_digit(digits[0]));
    assert(is_digit(digits.last()));
    if id < 0 {
        assert(text[0] == '-');
        assert(text.last() == digits.last());
        assert(text.drop_first() =~= digits);
        assert forall|i: int| 0 <= i < text.len() implies '\0' <= #[trigger] text[i] <= '\u{7f}' by {
            if i > 0 {
                assert(text[i] == digits[i - 1]);
            }
        }
    }
    assert(is_ascii_chars(text));
    vstd::utf8::is_ascii_chars_encode_utf8(text);
    assert(encode_utf8(text) =~= feed_id_datagram(id));
    lemma_trim_unchanged(text);
    assert(decimal_i32(text) == Some(id));
}

} // verus!
