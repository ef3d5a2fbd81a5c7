//! File tags: `key` or `key:value` expressions, their parsing rules and the
//! keys that the system reserves for itself.
use vstd::prelude::*;
use crate::text::{decimal, has_char, occurs_at, chars_of, contains_seq, first_index_of, push_char, str_eq, string_of, vec_contains, vec_eq, vec_index_of};

verus! {

/// The reserved key holding a file's name.
pub open spec fn name_key() -> Seq<char> {
    seq!['n', 'a', 'm', 'e']
}

/// The reserved key holding a file's content type.
pub open spec fn content_type_key() -> Seq<char> {
    seq!['c', 'o', 'n', 't', 'e', 'n', 't', '_', 't', 'y', 'p', 'e']
}

/// The reserved key holding a file's size.
pub open spec fn size_key() -> Seq<char> {
    seq!['s', 'i', 'z', 'e']
}

/// The key holding a file's extension (set by the system, but not reserved).
pub open spec fn ext_key() -> Seq<char> {
    seq!['e', 'x', 't']
}

/// Keys that users may not set themselves.
pub open spec fn is_reserved_key(k: Seq<char>) -> bool {
    k == name_key() || k == content_type_key() || k == size_key()
}

/// Characters that may not appear in a tag expression.
pub open spec fn is_invalid_char(c: char) -> bool {
    c == ';' || c == '(' || c == ')'
}

pub open spec fn has_invalid_char(s: Seq<char>) -> bool {
    exists|i: int| 0 <= i < s.len() && is_invalid_char(s[i])
}

/// Keywords of the search language that a tag expression may not contain.
pub open spec fn and_keyword() -> Seq<char> {
    seq!['A', 'N', 'D']
}

pub open spec fn or_keyword() -> Seq<char> {
    seq!['O', 'R']
}

/// The key of a tag expression: everything before the first `:`, or the whole expression.
pub open spec fn expr_key(e: Seq<char>) -> Seq<char> {
    match first_index_of(e, ':') {
        Some(i) => e.take(i),
        None => e,
    }
}

/// The value of a tag expression: everything after the first `:`, if there is one.
pub open spec fn expr_value(e: Seq<char>) -> Option<Seq<char>> {
    match first_index_of(e, ':') {
        Some(i) => Some(e.skip(i + 1)),
        None => None,
    }
}

/// The expressions that `Tag::parse` accepts.
pub open spec fn valid_tag_expr(e: Seq<char>) -> bool {
    &&& !has_invalid_char(e)
    &&& !contains_seq(e, and_keyword())
    &&& !contains_seq(e, or_keyword())
    &&& expr_key(e).len() > 0
}

pub open spec fn opt_view(o: Option<String>) -> Option<Seq<char>> {
    match o {
        Some(s) => Some(s@),
        None => None,
    }
}

/// The text form of a tag: `key`, or `key:value`.
pub open spec fn tag_text(key: Seq<char>, value: Option<Seq<char>>) -> Seq<char> {
    match value {
        Some(v) => key + seq![':'] + v,
        None => key,
    }
}

/// A tag value that can follow `key:` in an expression that `Tag::parse` accepts.
pub open spec fn valid_tag_value(v: Seq<char>) -> bool {
    &&& !has_invalid_char(v)
    &&& !contains_seq(v, and_keyword())
    &&& !contains_seq(v, or_keyword())
}

/// A key that can start an expression: non-empty, and neither a `:` nor a
/// character or keyword that the parser refuses.
pub open spec fn valid_tag_key(k: Seq<char>) -> bool {
    &&& k.len() > 0
    &&& !has_char(k, ':')
    &&& valid_tag_value(k)
}

proof fn lemma_first_colon(k: Seq<char>, v: Seq<char>)
    requires
        !has_char(k, ':'),
    ensures
        first_index_of(k + seq![':'] + v, ':') == Some(k.len() as int),
{
    let s = k + seq![':'] + v;
    assert(s[k.len() as int] == ':');
    assert(has_char(s, ':'));
    let i = choose|i: int| 0 <= i < s.len() && s[i] == ':' && forall|j: int| 0 <= j < i ==> s[j] != ':';
    if i < k.len() {
        assert(k[i] == s[i]);
    }
    if i > k.len() {
        assert(s[k.len() as int] == ':');
    }
}

proof fn lemma_keyword_in_expr(k: Seq<char>, v: Seq<char>, kw: Seq<char>)
    requires
        kw.len() > 0,
        !has_char(kw, ':'),
    ensures
        contains_seq(k + seq![':'] + v, kw) <==> (contains_seq(k, kw) || contains_seq(v, kw)),
{
    let s = k + seq![':'] + v;
    if contains_seq(s, kw) {
        let i = choose|i: int| occurs_at(s, kw, i);
        if i + kw.len() <= k.len() {
            assert(k.subrange(i, i + kw.len()) =~= s.subrange(i, i + kw.len()));
            assert(occurs_at(k, kw, i));
        } else if i > k.len() {
            let j = i - k.len() - 1;
            assert(v.subrange(j, j + kw.len()) =~= s.subrange(i, i + kw.len()));
            assert(occurs_at(v, kw, j));
        } else {
            let d = k.len() - i;
            assert(s.subrange(i, i + kw.len())[d] == kw[d]);
            assert(s[k.len() as int] == ':');
            assert(kw[d] == ':');
            assert(has_char(kw, ':'));
        }
    }
    if contains_seq(k, kw) {
        let i = choose|i: int| occurs_at(k, kw, i);
        assert(k.subrange(i, i + kw.len()) =~= s.subrange(i, i + kw.len()));
        assert(occurs_at(s, kw, i));
    }
    if contains_seq(v, kw) {
        let j = choose|j: int| occurs_at(v, kw, j);
        let i = j + k.len() + 1;
        assert(v.subrange(j, j + kw.len()) =~= s.subrange(i, i + kw.len()));
        assert(occurs_at(s, kw, i));
    }
}

/// `key:value` is a valid tag expression exactly when the value is a valid tag
/// value, for a valid key; it then parses to that key and value.
pub proof fn lemma_tag_expr(k: Seq<char>, v: Seq<char>)
    requires
        valid_tag_key(k),
    ensures
        valid_tag_expr(k + seq![':'] + v) <==> valid_tag_value(v),
        expr_key(k + seq![':'] + v) == k,
        expr_value(k + seq![':'] + v) == Some(v),
{
    let s = k + seq![':'] + v;
    lemma_first_colon(k, v);
    assert(s.take(k.len() as int) =~= k);
    assert(s.skip(k.len() as int + 1) =~= v);
    lemma_keywords(k, v);
    lemma_invalid_in_expr(k, v);
}

proof fn lemma_keywords(k: Seq<char>, v: Seq<char>)
    ensures
        contains_seq(k + seq![':'] + v, and_keyword()) <==> (contains_seq(k, and_keyword()) || contains_seq(v, and_keyword())),
        contains_seq(k + seq![':'] + v, or_keyword()) <==> (contains_seq(k, or_keyword()) || contains_seq(v, or_keyword())),
{
    assert(!has_char(and_keyword(), ':')) by {
        assert(and_keyword()[0] != ':' && and_keyword()[1] != ':' && and_keyword()[2] != ':');
    }
    assert(!has_char(or_keyword(), ':')) by {
        assert(or_keyword()[0] != ':' && or_keyword()[1] != ':');
    }
    lemma_keyword_in_expr(k, v, and_keyword());
    lemma_keyword_in_expr(k, v, or_keyword());
}

proof fn lemma_invalid_in_expr(k: Seq<char>, v: Seq<char>)
    ensures
        has_invalid_char(k + seq![':'] + v) <==> (has_invalid_char(k) || has_invalid_char(v)),
{
    let s = k + seq![':'] + v;
    if has_invalid_char(s) {
        let i = choose|i: int| 0 <= i < s.len() && is_invalid_char(s[i]);
        if i < k.len() {
            assert(k[i] == s[i]);
        } else if i > k.len() {
            assert(v[i - k.len() - 1] == s[i]);
        }
    }
    if has_invalid_char(v) {
        let j = choose|j: int| 0 <= j < v.len() && is_invalid_char(v[j]);
        assert(s[j + k.len() + 1] == v[j]);
    }
    if has_invalid_char(k) {
        let j = choose|j: int| 0 <= j < k.len() && is_invalid_char(k[j]);
        assert(s[j] == k[j]);
    }
}

proof fn lemma_digits_only_valid(v: Seq<char>)
    requires
        forall|i: int| 0 <= i < v.len() ==> '0' <= #[trigger] v[i] <= '9',
    ensures
        valid_tag_value(v),
{
    if contains_seq(v, and_keyword()) {
        let i = choose|i: int| occurs_at(v, and_keyword(), i);
        assert(v.subrange(i, i + 3)[0] == v[i]);
    }
    if contains_seq(v, or_keyword()) {
        let i = choose|i: int| occurs_at(v, or_keyword(), i);
        assert(v.subrange(i, i + 2)[0] == v[i]);
    }
}

proof fn lemma_decimal_digits(n: nat)
    ensures
        forall|i: int| 0 <= i < decimal(n).len() ==> '0' <= #[trigger] decimal(n)[i] <= '9',
    decreases n,
{
    if n >= 10 {
        lemma_decimal_digits(n / 10);
        assert forall|i: int| 0 <= i < decimal(n).len() implies '0' <= #[trigger] decimal(n)[i] <= '9' by {
            if i < decimal(n / 10).len() {
                assert(decimal(n)[i] == decimal(n / 10)[i]);
            }
        }
    }
}

/// The decimal rendering of a number is a valid tag value.
pub proof fn lemma_decimal_is_valid_tag_value(n: nat)
    ensures
        valid_tag_value(decimal(n)),
{
    lemma_decimal_digits(n);
    lemma_digits_only_valid(decimal(n));
}

/// A label attached to a file, either a bare key or a key with a value.
#[derive(Clone, Debug)]
pub struct Tag {
    pub key: String,
    pub value: Option<String>,
}

/// Why a tag expression was refused.
#[derive(Debug)]
pub enum ParseError {
    /// The key is reserved for the system.
    Reserved(String),
    /// The expression is not a valid tag.
    Invalid(String),
}

/// Whether `c` may not appear anywhere in a tag expression.
pub fn invalid_character(c: char) -> (r: bool)
    ensures
        r == is_invalid_char(c),
{
    c == ';' || c == '(' || c == ')'
}

/// Whether two optional strings are equal.
pub fn opt_string_eq(a: &Option<String>, b: &Option<String>) -> (r: bool)
    ensures
        r == (opt_view(*a) == opt_view(*b)),
{
    match (a, b) {
        (Some(x), Some(y)) => str_eq(x.as_str(), y.as_str()),
        (None, None) => true,
        _ => false,
    }
}

/// A copy of an optional string.
pub fn clone_opt_string(a: &Option<String>) -> (r: Option<String>)
    ensures
        opt_view(r) == opt_view(*a),
{
    match a {
        Some(x) => Some(String::from_str(x.as_str())),
        None => None,
    }
}

/// Whether `text` can follow `key:` in a tag expression: it holds no character
/// and no keyword that the parser refuses.
pub fn valid_tag_value_text(text: &str) -> (r: bool)
    ensures
        r == valid_tag_value(text@),
{
    let v = chars_of(text);
    let mut i: usize = 0;
    while i < v.len()
        invariant
            v@ == text@,
            i <= v@.len(),
            forall|j: int| 0 <= j < i ==> !is_invalid_char(#[trigger] v@[j]),
        decreases v.len() - i,
    {
        if invalid_character(v[i]) {
            assert(is_invalid_char(text@[i as int]));
            return false;
        }
        i = i + 1;
    }
    let and_kw: Vec<char> = vec!['A', 'N', 'D'];
    let or_kw: Vec<char> = vec!['O', 'R'];
    assert(and_kw@ =~= and_keyword());
    assert(or_kw@ =~= or_keyword());
    !(vec_contains(&v, &and_kw) || vec_contains(&v, &or_kw))
}

impl PartialEq for Tag {
    fn eq(&self, other: &Self) -> (r: bool) {
        str_eq(self.key.as_str(), other.key.as_str()) && opt_string_eq(&self.value, &other.value)
    }
}

impl vstd::std_specs::cmp::PartialEqSpecImpl for Tag {
    open spec fn obeys_eq_spec() -> bool {
        true
    }

    open spec fn eq_spec(&self, other: &Self) -> bool {
        self.key@ == other.key@ && opt_view(self.value) == opt_view(other.value)
    }
}

impl Eq for Tag {}

impl Tag {
    /// The tag's text, `key` or `key:value`.
    pub open spec fn text(&self) -> Seq<char> {
        tag_text(self.key@, opt_view(self.value))
    }

    /// A tag with both a key and a value.
    pub fn full(key: &str, value: &str) -> (t: Tag)
        ensures
            t.key@ == key@,
            opt_view(t.value) == Some(value@),
    {
        Tag { key: String::from_str(key), value: Some(String::from_str(value)) }
    }

    /// A tag made of a key alone.
    pub fn key(key: &str) -> (t: Tag)
        ensures
            t.key@ == key@,
            t.value is None,
    {
        Tag { key: String::from_str(key), value: None }
    }

    /// A copy of this tag with the same key and value.
    pub fn duplicate(&self) -> (t: Tag)
        ensures
            t.key@ == self.key@,
            opt_view(t.value) == opt_view(self.value),
    {
        Tag { key: String::from_str(self.key.as_str()), value: clone_opt_string(&self.value) }
    }

    /// Parses `key` or `key:value`. The expression may not contain `;`, `(`, `)`,
    /// nor the keywords `AND` and `OR`, and its key may not be empty. The value is
    /// everything after the first `:`.
    pub fn parse(expr: &str) -> (r: Result<Tag, ParseError>)
        ensures
            r is Ok <==> valid_tag_expr(expr@),
            r matches Ok(t) ==> t.key@ == expr_key(expr@) && opt_view(t.value) == expr_value(expr@),
            r matches Err(e) ==> (e matches ParseError::Invalid(s) && s@ == expr@),
    {
        let v = chars_of(expr);
        let mut i: usize = 0;
        while i < v.len()
            invariant
                v@ == expr@,
                i <= v@.len(),
                forall|j: int| 0 <= j < i ==> !is_invalid_char(#[trigger] v@[j]),
            decreases v.len() - i,
        {
            if invalid_character(v[i]) {
                assert(is_invalid_char(expr@[i as int]));
                assert(has_invalid_char(expr@));
                return Err(ParseError::Invalid(String::from_str(expr)));
            }
            i = i + 1;
        }
        let and_kw: Vec<char> = vec!['A', 'N', 'D'];
        let or_kw: Vec<char> = vec!['O', 'R'];
        assert(and_kw@ =~= and_keyword());
        assert(or_kw@ =~= or_keyword());
        if vec_contains(&v, &and_kw) || vec_contains(&v, &or_kw) {
            return Err(ParseError::Invalid(String::from_str(expr)));
        }
        let (key, value) = match vec_index_of(&v, ':') {
            Some(c) => (string_of(&v, 0, c), Some(string_of(&v, c + 1, v.len()))),
            None => (string_of(&v, 0, v.len()), None),
        };
        assert(v@.subrange(0, v@.len() as int) =~= v@);
        if key.unicode_len() == 0 {
            return Err(ParseError::Invalid(String::from_str(expr)));
        }
        Ok(Tag { key, value })
    }

    /// Parses a tag that users may set: as `parse`, and the key may not be reserved.
    pub fn parse_public(expr: &str) -> (r: Result<Tag, ParseError>)
        ensures
            r is Ok <==> valid_tag_expr(expr@) && !is_reserved_key(expr_key(expr@)),
            r matches Ok(t) ==> t.key@ == expr_key(expr@) && opt_view(t.value) == expr_value(expr@),
            r matches Err(e) ==> {
                if valid_tag_expr(expr@) {
                    e matches ParseError::Reserved(k) && k@ == expr_key(expr@)
                } else {
                    e matches ParseError::Invalid(s) && s@ == expr@
                }
            },
    {
        let tag = Tag::parse(expr)?;
        if tag.is_reserved() {
            return Err(ParseError::Reserved(tag.key));
        }
        Ok(tag)
    }

    /// Whether the key is one of the reserved keys `name`, `content_type`, `size`.
    pub fn is_reserved(&self) -> (r: bool)
        ensures
            r == is_reserved_key(self.key@),
    {
        let k = chars_of(self.key.as_str());
        let name: Vec<char> = vec!['n', 'a', 'm', 'e'];
        let content_type: Vec<char> = vec!['c', 'o', 'n', 't', 'e', 'n', 't', '_', 't', 'y', 'p', 'e'];
        let size: Vec<char> = vec!['s', 'i', 'z', 'e'];
        assert(name@ =~= name_key());
        assert(content_type@ =~= content_type_key());
        assert(size@ =~= size_key());
        vec_eq(&k, &name) || vec_eq(&k, &content_type) || vec_eq(&k, &size)
    }

    /// Whether users may set this tag: its key is not reserved.
    pub fn is_public(&self) -> (r: bool)
        ensures
            r == !is_reserved_key(self.key@),
    {
        !self.is_reserved()
    }

    /// The text form of the tag: `key`, or `key:value`.
    pub fn to_display_string(&self) -> (s: String)
        ensures
            s@ == self.text(),
    {
        let mut s = String::from_str(self.key.as_str());
        match &self.value {
            Some(v) => {
                push_char(&mut s, ':');
                s.append(v.as_str());
            },
            None => {},
        }
        s
    }

    /// Whether the text form of the tag equals `other`.
    pub fn eq_str(&self, other: &str) -> (r: bool)
        ensures
            r == (self.text() == other@),
    {
        let s = self.to_display_string();
        str_eq(s.as_str(), other)
    }

    /// Builds a tag from a key and an optional value.
    pub fn from_parts(key: String, value: Option<String>) -> (t: Tag)
        ensures
            t.key == key,
            t.value == value,
    {
        Tag { key, value }
    }

    /// Splits the tag into its key and optional value.
    pub fn into_parts(self) -> (r: (String, Option<String>))
        ensures
            r.0 == self.key,
            r.1 == self.value,
    {
        (self.key, self.value)
    }
}

} // verus!
