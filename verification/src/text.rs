//! Text clean-up rules for feed metadata.

use vstd::prelude::*;
use vstd::utf8::is_ascii_chars;

verus! {

/// The Unicode `White_Space` property, which `char::is_whitespace` and
/// `str::trim` go by.
pub open spec fn is_white_space(c: char) -> bool {
    ||| '\t' <= c <= '\r'
    ||| c == ' '
    ||| c == '\u{85}'
    ||| c == '\u{a0}'
    ||| c == '\u{1680}'
    ||| '\u{2000}' <= c <= '\u{200a}'
    ||| c == '\u{2028}'
    ||| c == '\u{2029}'
    ||| c == '\u{202f}'
    ||| c == '\u{205f}'
    ||| c == '\u{3000}'
}

/// `s` without its leading white space.
pub open spec fn trim_start(s: Seq<char>) -> Seq<char>
    decreases s.len(),
{
    if s.len() > 0 && is_white_space(s[0]) {
        trim_start(s.drop_first())
    } else {
        s
    }
}

/// `s` without its trailing white space.
pub open spec fn trim_end(s: Seq<char>) -> Seq<char>
    decreases s.len(),
{
    if s.len() > 0 && is_white_space(s.last()) {
        trim_end(s.drop_last())
    } else {
        s
    }
}

/// `s` without leading and trailing white space.
pub open spec fn trim(s: Seq<char>) -> Seq<char> {
    trim_end(trim_start(s))
}

/// `str::trim`: its documentation promises the slice of `s` with leading and
/// trailing `White_Space` characters removed.
#[verifier::external_body]
pub(crate) fn trim_str<'a>(s: &'a str) -> (r: &'a str)
    ensures
        r@ == trim(s@),
{
    s.trim()
}

/// `String::push`: appends one character.
#[verifier::external_body]
pub(crate) fn push_char(s: &mut String, c: char)
    ensures
        final(s)@ == old(s)@.push(c),
{
    s.push(c)
}

/// What `purify_text` keeps of a text: the trimmed text, unless nothing is left.
pub open spec fn purified(s: Seq<char>) -> Option<Seq<char>> {
    if trim(s).len() == 0 {
        None
    } else {
        Some(trim(s))
    }
}

/// Drops surrounding white space; a text that is empty or only white space
/// becomes `None`.
pub fn purify_text(string: String) -> (r: Option<String>)
    ensures
        r.deep_view() == purified(string@),
{
    let trimmed = trim_str(string.as_str());
    if trimmed.is_empty() {
        None
    } else {
        Some(trimmed.to_owned())
    }
}

/// ASCII lower case of one character; other characters stay as they are.
pub open spec fn ascii_lower(c: char) -> char {
    if 'A' <= c <= 'Z' {
        ((c as u32) + 32) as char
    } else {
        c
    }
}

/// ASCII lower case of a text.
pub open spec fn ascii_lower_seq(s: Seq<char>) -> Seq<char> {
    s.map_values(|c: char| ascii_lower(c))
}

fn lower_char(c: char) -> (r: char)
    ensures
        r == ascii_lower(c),
{
    if 'A' <= c && c <= 'Z' {
        let code: u8 = (c as u8) + 32;
        code as char
    } else {
        c
    }
}

/// The language code that `unify_language` makes of a text: nothing for a
/// text that is not ASCII or shorter than two characters, the lower-cased text
/// for a text of two, and the lower-cased first two characters of the trimmed
/// text for a longer one.
pub open spec fn unified_language(s: Seq<char>) -> Option<Seq<char>> {
    if !is_ascii_chars(s) {
        None
    } else if s.len() == 2 {
        Some(ascii_lower_seq(s))
    } else if s.len() > 2 {
        Some(ascii_lower_seq(trim(s).take(2)))
    } else {
        None
    }
}

/// Whether `unify_language` can slice the first two characters of `s`: a long
/// ASCII text must keep two of them after trimming.
pub open spec fn language_in_range(s: Seq<char>) -> bool {
    is_ascii_chars(s) && s.len() > 2 ==> trim(s).len() >= 2
}

/// Makes a two-letter lower-case language code of a feed's language field.
pub fn unify_language(language: String) -> (r: Option<String>)
    requires
        language_in_range(language@),
    ensures
        r.deep_view() == unified_language(language@),
{
    if !language.is_ascii() {
        return None;
    }
    let s = language.as_str();
    let n = s.unicode_len();
    if n == 2 {
        let mut out = String::new();
        push_char(&mut out, lower_char(s.get_char(0)));
        push_char(&mut out, lower_char(s.get_char(1)));
        assert(out@ =~= ascii_lower_seq(language@));
        Some(out)
    } else if n > 2 {
        let t = trim_str(s);
        let mut out = String::new();
        push_char(&mut out, lower_char(t.get_char(0)));
        push_char(&mut out, lower_char(t.get_char(1)));
        assert(out@ =~= ascii_lower_seq(trim(language@).take(2)));
        Some(out)
    } else {
        None
    }
}

proof fn lemma_trim_start_shape(s: Seq<char>)
    ensures
        trim_start(s).len() > 0 ==> !is_white_space(trim_start(s)[0]),
        s.len() == 0 || !is_white_space(s[0]) ==> trim_start(s) == s,
    decreases s.len(),
{
    if s.len() > 0 && is_white_space(s[0]) {
        lemma_trim_start_shape(s.drop_first());
    }
}

proof fn lemma_trim_end_shape(s: Seq<char>)
    ensures
        trim_end(s).len() > 0 ==> !is_white_space(trim_end(s).last()),
        s.len() == 0 || !is_white_space(s.last()) ==> trim_end(s) == s,
        s.len() > 0 && !is_white_space(s[0]) ==> trim_end(s).len() > 0 && trim_end(s)[0] == s[0],
    decreases s.len(),
{
    if s.len() > 0 && is_white_space(s.last()) {
        lemma_trim_end_shape(s.drop_last());
        if s.len() > 1 {
            assert(s.drop_last()[0] == s[0]);
        }
    }
}

proof fn lemma_trim_edges(s: Seq<char>)
    ensures
        trim(s).len() > 0 ==> !is_white_space(trim(s)[0]) && !is_white_space(trim(s).last()),
        trim(trim(s)) == trim(s),
{
    lemma_trim_start_shape(s);
    lemma_trim_end_shape(trim_start(s));
    lemma_trim_start_shape(trim(s));
    lemma_trim_end_shape(trim(s));
}

/// A purified text has no white space at either end, and purifying it again
/// leaves it as it is.
pub proof fn lemma_purify_idempotent(s: Seq<char>)
    ensures
        purified(s) matches Some(t) ==> purified(t) == Some(t),
        purified(s) matches Some(t) ==> t.len() > 0 && !is_white_space(t[0]) && !is_white_space(
            t.last(),
        ),
{
    lemma_trim_edges(s);
}

proof fn trim_start_cut(s: Seq<char>) -> (a: int)
    ensures
        0 <= a <= s.len(),
        trim_start(s) == s.skip(a),
        forall|i: int| 0 <= i < a ==> is_white_space(#[trigger] s[i]),
    decreases s.len(),
{
    if s.len() > 0 && is_white_space(s[0]) {
        let a = trim_start_cut(s.drop_first());
        assert(s.drop_first().skip(a) =~= s.skip(a + 1));
        assert forall|i: int| 0 <= i < a + 1 implies is_white_space(#[trigger] s[i]) by {
            if i > 0 {
                assert(s[i] == s.drop_first()[i - 1]);
            }
        }
        a + 1
    } else {
        assert(s.skip(0) =~= s);
        0
    }
}

proof fn trim_end_cut(s: Seq<char>) -> (b: int)
    ensures
        0 <= b <= s.len(),
        trim_end(s) == s.take(b),
        forall|i: int| b <= i < s.len() ==> is_white_space(#[trigger] s[i]),
    decreases s.len(),
{
    if s.len() > 0 && is_white_space(s.last()) {
        let b = trim_end_cut(s.drop_last());
        assert(s.drop_last().take(b) =~= s.take(b));
        assert forall|i: int| b <= i < s.len() implies is_white_space(#[trigger] s[i]) by {
            if i < s.len() - 1 {
                assert(s[i] == s.drop_last()[i]);
            }
        }
        b
    } else {
        assert(s.take(s.len() as int) =~= s);
        s.len() as int
    }
}

/// What purifying keeps of a text: nothing exactly when the text is empty or
/// all white space; otherwise the text itself less its white-space margins,
/// whatever its length, starting and ending with a character that is not
/// white space.
pub proof fn lemma_purified_is_the_text_without_margins(s: Seq<char>)
    ensures
        purified(s) is None <==> forall|i: int| 0 <= i < s.len() ==> is_white_space(#[trigger] s[i]),
        purified(s) matches Some(t) ==> exists|a: int, b: int|
            {
                &&& 0 <= a < b <= s.len()
                &&& t == s.subrange(a, b)
                &&& (forall|i: int| 0 <= i < a ==> is_white_space(#[trigger] s[i]))
                &&& (forall|i: int| b <= i < s.len() ==> is_white_space(#[trigger] s[i]))
                &&& !is_white_space(t[0])
                &&& !is_white_space(t.last())
            },
{
    let a = trim_start_cut(s);
    let u = s.skip(a);
    let b = trim_end_cut(u);
    assert(trim(s) =~= s.subrange(a, a + b));
    assert forall|i: int| a + b <= i < s.len() implies is_white_space(#[trigger] s[i]) by {
        assert(s[i] == u[i - a]);
    }
    lemma_trim_edges(s);
    if purified(s) is None {
        assert(b == 0);
        assert forall|i: int| 0 <= i < s.len() implies is_white_space(#[trigger] s[i]) by {
            if i >= a {
                assert(s[i] == u[i - a]);
            }
        }
    } else {
        let t = trim(s);
        assert(t[0] == s[a]);
        assert(!is_white_space(s[a]));
        assert(t == s.subrange(a, a + b));
    }
}

/// A unified language code has two characters, none of them an upper-case
/// ASCII letter.
pub proof fn lemma_unified_language_shape(s: Seq<char>)
    requires
        language_in_range(s),
    ensures
        unified_language(s) matches Some(code) ==> code.len() == 2 && forall|i: int|
            0 <= i < 2 ==> !('A' <= #[trigger] code[i] <= 'Z'),
{
}

} // verus!
