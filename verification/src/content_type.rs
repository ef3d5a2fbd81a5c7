//! Content-type detection from a file's name and first bytes: SVG images by
//! their second line, other binary formats by their magic numbers (`infer`),
//! and text by the name's extension (`mime_guess`).
use vstd::prelude::*;
use crate::file_store::opt_text;
use crate::text::{chars_of, first_index_of, string_of, vec_index_of};

verus! {

/// What `infer` detects from the magic numbers of `bytes`, as a MIME type.
pub uninterp spec fn spec_infer_mime(bytes: Seq<u8>) -> Option<Seq<char>>;

/// Whether `infer::text::is_xml` takes `bytes` for an XML document.
pub uninterp spec fn spec_is_xml(bytes: Seq<u8>) -> bool;

/// The text of `bytes` read as UTF-8, invalid sequences replaced by U+FFFD
/// (`String::from_utf8_lossy`).
pub uninterp spec fn spec_utf8_lossy(bytes: Seq<u8>) -> Seq<char>;

/// Whether `bytes` are valid UTF-8 (`std::str::from_utf8(..).is_ok()`).
pub uninterp spec fn spec_is_utf8(bytes: Seq<u8>) -> bool;

/// The MIME type that `mime_guess` gives for the extension of `path`, or
/// `text/plain` when it knows none (`first_or_text_plain`), as its essence.
pub uninterp spec fn spec_guess_mime(path: Seq<char>) -> Seq<char>;

/// `infer::get(bytes)`: the type of the first of `infer`'s built-in matchers
/// that accepts the bytes, as its MIME type. Its result is named, not stated.
#[verifier::external_body]
fn infer_mime(bytes: &[u8]) -> (r: Option<String>)
    ensures
        opt_text(r) == spec_infer_mime(bytes@),
{
    infer::get(bytes).map(|t| t.mime_type().to_string())
}

/// `infer::text::is_xml(bytes)`: after leading whitespace and byte order
/// marks, the bytes start with `<?xml` in any case. Its result is named.
#[verifier::external_body]
fn infer_is_xml(bytes: &[u8]) -> (r: bool)
    ensures
        r == spec_is_xml(bytes@),
{
    infer::text::is_xml(bytes)
}

/// `String::from_utf8_lossy(bytes)`, owned. Its result is named.
#[verifier::external_body]
fn utf8_lossy(bytes: &[u8]) -> (s: String)
    ensures
        s@ == spec_utf8_lossy(bytes@),
{
    String::from_utf8_lossy(bytes).into_owned()
}

/// `std::str::from_utf8(bytes).is_ok()`. Its result is named.
#[verifier::external_body]
fn is_utf8(bytes: &[u8]) -> (r: bool)
    ensures
        r == spec_is_utf8(bytes@),
{
    std::str::from_utf8(bytes).is_ok()
}

/// `mime_guess::from_path(path).first_or_text_plain()`, as its essence
/// string. Its result is named.
#[verifier::external_body]
fn guess_mime(path: &str) -> (r: String)
    ensures
        r@ == spec_guess_mime(path@),
{
    mime_guess::from_path(path).first_or_text_plain().essence_str().to_string()
}

/// The characters that `char::is_whitespace` accepts (Unicode `White_Space`).
pub open spec fn is_whitespace(c: char) -> bool {
    let n = c as u32;
    (9 <= n <= 13) || n == 32 || n == 0x85 || n == 0xA0 || n == 0x1680 || (0x2000 <= n <= 0x200A)
        || n == 0x2028 || n == 0x2029 || n == 0x202F || n == 0x205F || n == 0x3000
}

/// `str::trim`: the text without its leading and trailing whitespace.
pub open spec fn trimmed(s: Seq<char>) -> Seq<char>
    decreases s.len(),
{
    if s.len() > 0 && is_whitespace(s[0]) {
        trimmed(s.drop_first())
    } else if s.len() > 0 && is_whitespace(s.last()) {
        trimmed(s.drop_last())
    } else {
        s
    }
}

/// `str::lines().nth(1)`: the text after the first line ending, up to the
/// next one (without the `\r` of a `\r\n`); none when nothing follows the
/// first line ending, or there is none.
pub open spec fn second_line(t: Seq<char>) -> Option<Seq<char>> {
    match first_index_of(t, '\n') {
        None => None,
        Some(i) => {
            let rest = t.skip(i + 1);
            if rest.len() == 0 {
                None
            } else {
                match first_index_of(rest, '\n') {
                    None => Some(rest),
                    Some(j) => if j > 0 && rest[j - 1] == '\r' {
                        Some(rest.take(j - 1))
                    } else {
                        Some(rest.take(j))
                    },
                }
            }
        },
    }
}

/// Whether a line opens an SVG element.
pub open spec fn opens_svg(line: Seq<char>) -> bool {
    line.len() >= 4 && line.take(4) == seq!['<', 's', 'v', 'g']
}

/// Whether the bytes are an SVG image: an XML document whose second line
/// (of the trimmed text) opens an `<svg` element; none when the document is
/// XML and its trimmed text has no second line.
pub open spec fn svg_decision(bytes: Seq<u8>) -> Option<bool> {
    if !spec_is_xml(bytes) {
        Some(false)
    } else {
        match second_line(trimmed(spec_utf8_lossy(bytes))) {
            None => None,
            Some(l) => Some(opens_svg(l)),
        }
    }
}

/// The content type detected for a file named `name` whose content starts
/// with `bytes`: SVG first, then `infer`'s magic numbers, then, for text, the
/// type of the name's extension; none for unknown binary content.
pub open spec fn detected_type(name: Seq<char>, bytes: Seq<u8>) -> Option<Seq<char>> {
    if svg_decision(bytes) == Some(true) {
        Some("text/svg"@)
    } else if spec_infer_mime(bytes) is Some {
        spec_infer_mime(bytes)
    } else if spec_is_utf8(bytes) {
        Some(spec_guess_mime(name))
    } else {
        None
    }
}

fn trim_bounds(v: &Vec<char>) -> (r: (usize, usize))
    ensures
        r.0 <= r.1 <= v@.len(),
        v@.subrange(r.0 as int, r.1 as int) == trimmed(v@),
{
    let mut a: usize = 0;
    assert(v@.subrange(0, v@.len() as int) =~= v@);
    while a < v.len() && is_whitespace_char(v[a])
        invariant
            a <= v@.len(),
            trimmed(v@) == trimmed(v@.subrange(a as int, v@.len() as int)),
        decreases v.len() - a,
    {
        assert(v@.subrange(a as int, v@.len() as int).drop_first() =~= v@.subrange(a + 1, v@.len() as int));
        a = a + 1;
    }
    let mut b: usize = v.len();
    while b > a && is_whitespace_char(v[b - 1])
        invariant
            a <= b <= v@.len(),
            a < v@.len() ==> !is_whitespace(v@[a as int]),
            trimmed(v@) == trimmed(v@.subrange(a as int, b as int)),
        decreases b - a,
    {
        let ghost sub = v@.subrange(a as int, b as int);
        assert(sub[0] == v@[a as int]);
        assert(sub.last() == v@[b - 1]);
        assert(sub.drop_last() =~= v@.subrange(a as int, b - 1));
        b = b - 1;
    }
    proof {
        let sub = v@.subrange(a as int, b as int);
        if sub.len() > 0 {
            assert(sub[0] == v@[a as int]);
            assert(sub.last() == v@[b - 1]);
        }
    }
    (a, b)
}

/// Whether `c` is whitespace in the sense of `char::is_whitespace`.
pub fn is_whitespace_char(c: char) -> (r: bool)
    ensures
        r == is_whitespace(c),
{
    let n = c as u32;
    (9 <= n && n <= 13) || n == 32 || n == 0x85 || n == 0xA0 || n == 0x1680 || (0x2000 <= n && n <= 0x200A)
        || n == 0x2028 || n == 0x2029 || n == 0x202F || n == 0x205F || n == 0x3000
}

fn second_line_of(t: &Vec<char>) -> (r: Option<Vec<char>>)
    ensures
        match r {
            Some(l) => second_line(t@) == Some(l@),
            None => second_line(t@) is None,
        },
{
    match vec_index_of(t, '\n') {
        None => None,
        Some(i) => {
            assert(i < t@.len());
            if i == t.len() - 1 {
                assert(t@.skip(i + 1).len() == 0);
                return None;
            }
            let mut rest: Vec<char> = Vec::new();
            let mut k: usize = i + 1;
            while k < t.len()
                invariant
                    i + 1 <= k <= t@.len(),
                    rest@ == t@.subrange(i + 1, k as int),
                decreases t.len() - k,
            {
                rest.push(t[k]);
                k = k + 1;
                assert(rest@ =~= t@.subrange(i + 1, k as int));
            }
            assert(rest@ =~= t@.skip(i + 1));
            match vec_index_of(&rest, '\n') {
                None => Some(rest),
                Some(j) => {
                    let end = if j > 0 && rest[j - 1] == '\r' { j - 1 } else { j };
                    let mut line: Vec<char> = Vec::new();
                    let mut m: usize = 0;
                    while m < end
                        invariant
                            end <= rest@.len(),
                            m <= end,
                            line@ == rest@.take(m as int),
                        decreases end - m,
                    {
                        line.push(rest[m]);
                        m = m + 1;
                        assert(line@ =~= rest@.take(m as int));
                    }
                    Some(line)
                },
            }
        },
    }
}

fn opens_svg_line(line: &Vec<char>) -> (r: bool)
    ensures
        r == opens_svg(line@),
{
    if line.len() < 4 {
        return false;
    }
    let r = line[0] == '<' && line[1] == 's' && line[2] == 'v' && line[3] == 'g';
    proof {
        if r {
            assert(line@.take(4) =~= seq!['<', 's', 'v', 'g']);
        } else {
            if line@.take(4) == seq!['<', 's', 'v', 'g'] {
                assert(line@.take(4)[0] == line@[0]);
                assert(line@.take(4)[1] == line@[1]);
                assert(line@.take(4)[2] == line@[2]);
                assert(line@.take(4)[3] == line@[3]);
            }
        }
    }
    r
}

/// Whether the bytes are an SVG image (see `svg_decision`): none where the
/// bytes are XML whose trimmed text has no second line.
fn svg_check(bytes: &[u8]) -> (r: Option<bool>)
    ensures
        r == svg_decision(bytes@),
{
    if !infer_is_xml(bytes) {
        return Some(false);
    }
    let text = utf8_lossy(bytes);
    let v = chars_of(text.as_str());
    let (a, b) = trim_bounds(&v);
    let t = chars_of(string_of(&v, a, b).as_str());
    match second_line_of(&t) {
        None => None,
        Some(l) => Some(opens_svg_line(&l)),
    }
}

/// The content type of a file named `name` whose content starts with
/// `content`; none for unknown binary content. The content must not be an XML
/// document whose trimmed text is a single line.
pub fn detect(name: &str, content: &[u8]) -> (r: Option<String>)
    requires
        svg_decision(content@) is Some,
    ensures
        opt_text(r) == detected_type(name@, content@),
{
    match svg_check(content) {
        Some(true) => {
            return Some(String::from_str("text/svg"));
        },
        _ => {},
    }
    match infer_mime(content) {
        Some(m) => {
            return Some(m);
        },
        None => {},
    }
    if is_utf8(content) {
        Some(guess_mime(name))
    } else {
        None
    }
}

/// The content type as `detect` finds it; none (the outer option) when the
/// content is an XML document whose trimmed text is a single line, where the
/// SVG check has no second line to read.
pub fn try_detect(name: &str, content: &[u8]) -> (r: Option<Option<String>>)
    ensures
        r is None <==> svg_decision(content@) is None,
        r matches Some(d) ==> opt_text(d) == detected_type(name@, content@),
{
    match svg_check(content) {
        None => None,
        Some(_) => Some(detect(name, content)),
    }
}

/// The type of content that nothing was detected of.
pub open spec fn default_binary_type() -> Seq<char> {
    "application/octet-stream"@
}

/// The content type of an upload: the detected one, or
/// `application/octet-stream` when none was.
pub fn content_type_or_default(detected: Option<String>) -> (r: String)
    ensures
        r@ == match opt_text(detected) {
            Some(t) => t,
            None => default_binary_type(),
        },
{
    match detected {
        Some(t) => t,
        None => String::from_str("application/octet-stream"),
    }
}

} // verus!
