//! Values that feeds and entries are made of: points in time, URLs, keys and
//! user ids.

use vstd::prelude::*;
use crate::text::push_char;

verus! {

/// A point in time: seconds since the epoch and nanoseconds within the second.
#[derive(Debug, Clone, Copy, PartialEq, Eq, Structural)]
pub struct Timespec {
    pub sec: i64,
    pub nsec: i32,
}

/// Nanoseconds in a second.
pub const NSEC_PER_SEC: i32 = 1_000_000_000;

/// The order of points in time: by seconds, then by nanoseconds.
pub open spec fn time_le(a: Timespec, b: Timespec) -> bool {
    a.sec < b.sec || (a.sec == b.sec && a.nsec <= b.nsec)
}

impl Timespec {
    /// A point in time; the nanoseconds lie within a second.
    pub fn new(sec: i64, nsec: i32) -> (r: Timespec)
        requires
            0 <= nsec < NSEC_PER_SEC,
        ensures
            r == (Timespec { sec, nsec }),
    {
        Timespec { sec, nsec }
    }

    /// Whether `self` is not later than `other`.
    pub fn le(&self, other: &Timespec) -> (r: bool)
        ensures
            r == time_le(*self, *other),
    {
        self.sec < other.sec || (self.sec == other.sec && self.nsec <= other.nsec)
    }
}

/// What the `url` crate makes of a text: the serialization of the parsed URL,
/// or nothing where the text is not a URL.
pub uninterp spec fn url_parse_result(input: Seq<char>) -> Option<Seq<char>>;

/// `url::Url::parse`, the parsed URL taken by its serialization
/// (`String::from(Url)`). The result is named: it is the `url` crate's parse
/// of the input and of nothing else.
#[verifier::external_body]
fn url_parse(input: &str) -> (r: Option<String>)
    ensures
        r.deep_view() == url_parse_result(input@),
{
    match url::Url::parse(input) {
        Ok(url) => Some(String::from(url)),
        Err(_) => None,
    }
}

/// A parsed URL, held by its serialization.
#[derive(Debug, Clone)]
pub struct Url {
    text: String,
}

impl View for Url {
    type V = Seq<char>;

    closed spec fn view(&self) -> Seq<char> {
        self.text@
    }
}

impl Url {
    /// Parses a URL; `None` where the text is not one.
    pub fn parse(input: &str) -> (r: Option<Url>)
        ensures
            r.deep_view() == url_parse_result(input@),
    {
        match url_parse(input) {
            Some(text) => Some(Url { text }),
            None => None,
        }
    }

    /// The URL's serialization.
    pub fn as_str(&self) -> (r: &str)
        ensures
            r@ == self@,
    {
        self.text.as_str()
    }

    /// A copy of the URL.
    pub fn duplicate(&self) -> (r: Url)
        ensures
            r == *self,
    {
        Url { text: self.text.clone() }
    }
}

impl DeepView for Url {
    type V = Seq<char>;

    open spec fn deep_view(&self) -> Seq<char> {
        self@
    }
}

/// The identifier under which a feed or an entry is stored and looked up.
#[derive(Debug, Clone)]
pub struct Key {
    raw: String,
}

impl View for Key {
    type V = Seq<char>;

    closed spec fn view(&self) -> Seq<char> {
        self.raw@
    }
}

impl DeepView for Key {
    type V = Seq<char>;

    open spec fn deep_view(&self) -> Seq<char> {
        self@
    }
}

/// The lower-case hexadecimal digit of `d`, below sixteen.
pub open spec fn hex_digit(d: u128) -> char {
    if d < 10 {
        ((d + 48) as u32) as char
    } else {
        ((d + 87) as u32) as char
    }
}

/// The `i`-th of the 32 hexadecimal digits of `v`, most significant first.
pub open spec fn nibble(v: u128, i: int) -> u128 {
    (v >> ((124 - 4 * i) as u32)) & 0xf
}

/// The 32 hexadecimal digits of `v`.
pub open spec fn hex_digits(v: u128) -> Seq<char> {
    Seq::new(32, |i: int| hex_digit(nibble(v, i)))
}

/// The hyphenated form of a UUID: groups of 8, 4, 4, 4 and 12 lower-case
/// hexadecimal digits joined by `-`.
pub open spec fn hyphenated(v: u128) -> Seq<char> {
    let h = hex_digits(v);
    h.subrange(0, 8) + seq!['-'] + h.subrange(8, 12) + seq!['-'] + h.subrange(12, 16) + seq!['-']
        + h.subrange(16, 20) + seq!['-'] + h.subrange(20, 32)
}

fn push_hex_digits(v: u128, from: u32, to: u32, out: &mut String)
    requires
        from <= to <= 32,
    ensures
        final(out)@ == old(out)@ + hex_digits(v).subrange(from as int, to as int),
{
    let mut i = from;
    while i < to
        invariant
            from <= i <= to <= 32,
            out@ == old(out)@ + hex_digits(v).subrange(from as int, i as int),
        decreases to - i,
    {
        let shift: u32 = 124 - 4 * i;
        let d: u128 = (v >> shift) & 0xf;
        assert(d < 16) by (bit_vector)
            requires
                d == (v >> shift) & 0xf,
        ;
        let c = if d < 10 {
            ((d as u8) + 48) as char
        } else {
            ((d as u8) + 87) as char
        };
        assert(c == hex_digit(nibble(v, i as int)));
        push_char(out, c);
        i = i + 1;
        assert(hex_digits(v).subrange(from as int, i as int) =~= hex_digits(v).subrange(
            from as int,
            i - 1,
        ).push(c));
    }
}

impl Key {
    /// A key given as text.
    pub fn from_raw(raw: String) -> (r: Key)
        ensures
            r@ == raw@,
    {
        Key { raw }
    }

    /// The key of a URL: its serialization.
    pub fn from_url(url: &Url) -> (r: Key)
        ensures
            r@ == url@,
    {
        Key { raw: url.text.clone() }
    }

    /// The key of a UUID: its hyphenated form.
    pub fn from_uuid(uuid: u128) -> (r: Key)
        ensures
            r@ == hyphenated(uuid),
    {
        Key { raw: uuid_text(uuid) }
    }

    /// A copy of the key.
    pub fn duplicate(&self) -> (r: Key)
        ensures
            r == *self,
    {
        Key { raw: self.raw.clone() }
    }

    /// Whether two keys have the same text.
    pub fn same(&self, other: &Key) -> (r: bool)
        ensures
            r == (self@ == other@),
    {
        self.raw == other.raw
    }

    /// The key's text.
    pub fn as_str(&self) -> (r: &str)
        ensures
            r@ == self@,
    {
        self.raw.as_str()
    }
}

/// The hyphenated form of a UUID, as the `uuid` crate writes it.
pub fn uuid_text(uuid: u128) -> (r: String)
    ensures
        r@ == hyphenated(uuid),
{
    let mut out = String::new();
    push_hex_digits(uuid, 0, 8, &mut out);
    push_char(&mut out, '-');
    push_hex_digits(uuid, 8, 12, &mut out);
    push_char(&mut out, '-');
    push_hex_digits(uuid, 12, 16, &mut out);
    push_char(&mut out, '-');
    push_hex_digits(uuid, 16, 20, &mut out);
    push_char(&mut out, '-');
    push_hex_digits(uuid, 20, 32, &mut out);
    assert(out@ =~= hyphenated(uuid));
    out
}

/// The version 5 UUID that the `uuid` crate makes of a name in the X.500
/// namespace, as a 128-bit number.
pub uninterp spec fn uuid_v5_x500(name: Seq<char>) -> u128;

/// `uuid::Uuid::new_v5` in the X.500 namespace, on the UTF-8 bytes of
/// `name`, taken by `as_u128`. The result is named: a hash of the name alone.
#[verifier::external_body]
pub(crate) fn new_v5_x500(name: &str) -> (r: u128)
    ensures
        r == uuid_v5_x500(name@),
{
    uuid::Uuid::new_v5(&uuid::Uuid::NAMESPACE_X500, name.as_bytes()).as_u128()
}

/// The UUID that the `uuid` crate reads from a text, as a 128-bit number, or
/// nothing where the text is not a UUID.
pub uninterp spec fn uuid_parse_result(input: Seq<char>) -> Option<u128>;

/// `uuid::Uuid::parse_str`, taken by `as_u128`; its error is dropped. The
/// result is named: it depends on the text alone. Its source reads a text of
/// 36 characters with hyphens after the 8th, 12th, 16th and 20th hexadecimal
/// digit as the UUID whose big-endian digits these are, so the hyphenated form
/// of a UUID reads back as that UUID.
#[verifier::external_body]
pub(crate) fn parse_uuid(input: &str) -> (r: Option<u128>)
    ensures
        r == uuid_parse_result(input@),
        forall|v: u128| input@ == #[trigger] hyphenated(v) ==> r == Some(v),
{
    match uuid::Uuid::parse_str(input) {
        Ok(uuid) => Some(uuid.as_u128()),
        Err(_) => None,
    }
}

} // verus!
