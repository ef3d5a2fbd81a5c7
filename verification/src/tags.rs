//! A file's set of tags, keyed by tag key, and the search filters that
//! select files by their tags.
use vstd::prelude::*;
use crate::tag::{Tag, opt_view};
use crate::text::str_eq;

verus! {

/// What a set of tags holds: each key with its optional value.
pub type TagMap = Map<Seq<char>, Option<Seq<char>>>;

/// The map that a sequence of tags denotes, later tags overriding earlier ones.
pub open spec fn entries_map(s: Seq<Tag>) -> TagMap
    decreases s.len(),
{
    if s.len() == 0 {
        Map::empty()
    } else {
        entries_map(s.drop_last()).insert(s.last().key@, opt_view(s.last().value))
    }
}

/// The map obtained by inserting the tags of `s` into `m`, in order.
pub open spec fn insert_tags(m: TagMap, s: Seq<Tag>) -> TagMap
    decreases s.len(),
{
    if s.len() == 0 {
        m
    } else {
        insert_tags(m, s.drop_last()).insert(s.last().key@, opt_view(s.last().value))
    }
}

/// The map that a sequence of (key, value) pairs denotes, later pairs overriding earlier ones.
pub open spec fn pairs_map(s: Seq<(String, Option<String>)>) -> TagMap
    decreases s.len(),
{
    if s.len() == 0 {
        Map::empty()
    } else {
        pairs_map(s.drop_last()).insert(s.last().0@, opt_view(s.last().1))
    }
}

proof fn lemma_pairs_map_entries(p: Seq<(String, Option<String>)>, t: Seq<Tag>)
    requires
        p.len() == t.len(),
        forall|j: int| 0 <= j < p.len() ==> p[j].0@ == t[j].key@ && opt_view(p[j].1) == opt_view(t[j].value),
    ensures
        pairs_map(p) == entries_map(t),
    decreases p.len(),
{
    if p.len() > 0 {
        lemma_pairs_map_entries(p.drop_last(), t.drop_last());
    }
}

/// No two tags of `s` share a key.
pub open spec fn unique_keys(s: Seq<Tag>) -> bool {
    forall|i: int, j: int| 0 <= i < s.len() && 0 <= j < s.len() && i != j ==> s[i].key@ != s[j].key@
}

proof fn lemma_entries_map_dom(s: Seq<Tag>, k: Seq<char>)
    ensures
        entries_map(s).dom().contains(k) <==> exists|i: int| 0 <= i < s.len() && s[i].key@ == k,
    decreases s.len(),
{
    if s.len() > 0 {
        lemma_entries_map_dom(s.drop_last(), k);
        if exists|i: int| 0 <= i < s.len() && s[i].key@ == k {
            let i = choose|i: int| 0 <= i < s.len() && s[i].key@ == k;
            if i < s.len() - 1 {
                assert(s.drop_last()[i] == s[i]);
            }
        }
        if exists|i: int| 0 <= i < s.len() - 1 && s.drop_last()[i].key@ == k {
            let i = choose|i: int| 0 <= i < s.len() - 1 && s.drop_last()[i].key@ == k;
            assert(s[i] == s.drop_last()[i]);
        }
    }
}

proof fn lemma_entries_map_value(s: Seq<Tag>, i: int)
    requires
        unique_keys(s),
        0 <= i < s.len(),
    ensures
        entries_map(s).dom().contains(s[i].key@),
        entries_map(s)[s[i].key@] == opt_view(s[i].value),
    decreases s.len(),
{
    if i < s.len() - 1 {
        let t = s.drop_last();
        assert(t[i] == s[i]);
        assert(unique_keys(t)) by {
            assert forall|a: int, b: int| 0 <= a < t.len() && 0 <= b < t.len() && a != b implies t[a].key@ != t[b].key@ by {
                assert(t[a] == s[a]);
                assert(t[b] == s[b]);
            }
        }
        lemma_entries_map_value(t, i);
        assert(s.last().key@ != s[i].key@);
    }
}

proof fn lemma_entries_map_len(s: Seq<Tag>)
    requires
        unique_keys(s),
    ensures
        entries_map(s).dom().finite(),
        entries_map(s).dom().len() == s.len(),
    decreases s.len(),
{
    if s.len() > 0 {
        let t = s.drop_last();
        assert(unique_keys(t)) by {
            assert forall|a: int, b: int| 0 <= a < t.len() && 0 <= b < t.len() && a != b implies t[a].key@ != t[b].key@ by {
                assert(t[a] == s[a]);
                assert(t[b] == s[b]);
            }
        }
        lemma_entries_map_len(t);
        lemma_entries_map_dom(t, s.last().key@);
        if entries_map(t).dom().contains(s.last().key@) {
            let i = choose|i: int| 0 <= i < t.len() && t[i].key@ == s.last().key@;
            assert(t[i] == s[i]);
            assert(false);
        }
    }
}

proof fn lemma_entries_map_congruent(s: Seq<Tag>, t: Seq<Tag>)
    requires
        s.len() == t.len(),
        forall|i: int| 0 <= i < s.len() ==> s[i].key@ == t[i].key@ && opt_view(s[i].value) == opt_view(t[i].value),
    ensures
        entries_map(s) == entries_map(t),
    decreases s.len(),
{
    if s.len() > 0 {
        lemma_entries_map_congruent(s.drop_last(), t.drop_last());
    }
}

/// The tags of a file, at most one per key.
pub struct Tags {
    entries: Vec<Tag>,
}

impl View for Tags {
    type V = TagMap;

    closed spec fn view(&self) -> TagMap {
        entries_map(self.entries@)
    }
}

impl Tags {
    #[verifier::type_invariant]
    spec fn keys_are_unique(self) -> bool {
        unique_keys(self.entries@)
    }

    /// The tag key and value at position `i` (in the set's internal order).
    pub closed spec fn entry(&self, i: int) -> Tag {
        self.entries@[i]
    }

    /// An empty set of tags.
    pub fn new() -> (r: Tags)
        ensures
            r@ == TagMap::empty(),
    {
        let r = Tags { entries: Vec::new() };
        assert(r@ == entries_map(Seq::empty()));
        r
    }

    /// Number of tags, that is of distinct keys.
    pub fn len(&self) -> (n: usize)
        ensures
            self@.dom().finite(),
            n == self@.dom().len(),
    {
        proof {
            use_type_invariant(self);
            lemma_entries_map_len(self.entries@);
        }
        self.entries.len()
    }

    /// Position of the tag with key `key`, if any.
    fn position(&self, key: &str) -> (r: Option<usize>)
        ensures
            match r {
                Some(i) => i < self.entries@.len() && self.entries@[i as int].key@ == key@,
                None => forall|i: int| 0 <= i < self.entries@.len() ==> self.entries@[i].key@ != key@,
            },
    {
        let mut i: usize = 0;
        while i < self.entries.len()
            invariant
                i <= self.entries@.len(),
                forall|j: int| 0 <= j < i ==> self.entries@[j].key@ != key@,
            decreases self.entries.len() - i,
        {
            if str_eq(self.entries[i].key.as_str(), key) {
                return Some(i);
            }
            i = i + 1;
        }
        None
    }

    /// The tag with key `key`, if any.
    pub fn get(&self, key: &str) -> (r: Option<&Tag>)
        ensures
            match r {
                Some(t) => self@.contains_key(key@) && t.key@ == key@ && opt_view(t.value) == self@[key@],
                None => !self@.contains_key(key@),
            },
    {
        proof {
            use_type_invariant(self);
        }
        match self.position(key) {
            Some(i) => {
                proof {
                    lemma_entries_map_value(self.entries@, i as int);
                }
                Some(&self.entries[i])
            },
            None => {
                proof {
                    lemma_entries_map_dom(self.entries@, key@);
                }
                None
            },
        }
    }

    /// Whether some tag has key `key`.
    pub fn contains_key(&self, key: &str) -> (r: bool)
        ensures
            r == self@.contains_key(key@),
    {
        self.get(key).is_some()
    }

    /// Inserts `tag`, replacing the tag with the same key if there is one.
    pub fn insert(&mut self, tag: Tag)
        ensures
            final(self)@ == old(self)@.insert(tag.key@, opt_view(tag.value)),
    {
        proof {
            use_type_invariant(&*self);
        }
        let ghost old_entries = self.entries@;
        let ghost k = tag.key@;
        let ghost v = opt_view(tag.value);
        match self.position(tag.key.as_str()) {
            Some(i) => {
                let mut entries = Vec::new();
                std::mem::swap(&mut entries, &mut self.entries);
                entries.set(i, tag);
                let ghost s = entries@;
                assert(s == old_entries.update(i as int, s[i as int]));
                assert(unique_keys(s)) by {
                    assert forall|a: int, b: int| 0 <= a < s.len() && 0 <= b < s.len() && a != b implies s[a].key@ != s[b].key@ by {
                        if a != i && b != i {
                            assert(s[a] == old_entries[a]);
                            assert(s[b] == old_entries[b]);
                        } else if a == i {
                            assert(s[b] == old_entries[b]);
                        } else {
                            assert(s[a] == old_entries[a]);
                        }
                    }
                }
                proof {
                    let m0 = entries_map(old_entries);
                    let m1 = entries_map(s);
                    assert forall|key: Seq<char>| m1.dom().contains(key) <==> m0.insert(k, v).dom().contains(key) by {
                        lemma_entries_map_dom(s, key);
                        lemma_entries_map_dom(old_entries, key);
                        if exists|j: int| 0 <= j < old_entries.len() && old_entries[j].key@ == key {
                            let j = choose|j: int| 0 <= j < old_entries.len() && old_entries[j].key@ == key;
                            if j != i {
                                assert(s[j] == old_entries[j]);
                            }
                        }
                        if exists|j: int| 0 <= j < s.len() && s[j].key@ == key {
                            let j = choose|j: int| 0 <= j < s.len() && s[j].key@ == key;
                            if j != i {
                                assert(s[j] == old_entries[j]);
                            }
                        }
                    }
                    assert forall|key: Seq<char>| m1.dom().contains(key) implies m1[key] == m0.insert(k, v)[key] by {
                        lemma_entries_map_dom(s, key);
                        let j = choose|j: int| 0 <= j < s.len() && s[j].key@ == key;
                        lemma_entries_map_value(s, j);
                        if j != i {
                            assert(s[j] == old_entries[j]);
                            lemma_entries_map_value(old_entries, j);
                        }
                    }
                    assert(m1 =~= m0.insert(k, v));
                }
                self.entries = entries;
            },
            None => {
                let mut entries = Vec::new();
                std::mem::swap(&mut entries, &mut self.entries);
                entries.push(tag);
                assert(entries@.drop_last() =~= old_entries);
                assert(unique_keys(entries@)) by {
                    let s = entries@;
                    assert forall|a: int, b: int| 0 <= a < s.len() && 0 <= b < s.len() && a != b implies s[a].key@ != s[b].key@ by {
                        if a < old_entries.len() {
                            assert(s[a] == old_entries[a]);
                        }
                        if b < old_entries.len() {
                            assert(s[b] == old_entries[b]);
                        }
                    }
                }
                self.entries = entries;
            },
        }
    }

    /// Inserts every tag of `tags`, in order; a later tag replaces an earlier one with the same key.
    pub fn extend(&mut self, tags: Vec<Tag>)
        ensures
            final(self)@ == insert_tags(old(self)@, tags@),
    {
        let ghost m0 = self@;
        let mut n: usize = 0;
        assert(insert_tags(m0, tags@.take(0)) == m0);
        while n < tags.len()
            invariant
                n <= tags@.len(),
                self@ == insert_tags(m0, tags@.take(n as int)),
            decreases tags.len() - n,
        {
            let t = tags[n].duplicate();
            self.insert(t);
            assert(tags@.take(n + 1).drop_last() =~= tags@.take(n as int));
            n = n + 1;
        }
        assert(tags@.take(tags@.len() as int) =~= tags@);
    }

    /// A copy of these tags.
    pub fn duplicate(&self) -> (r: Tags)
        ensures
            r@ == self@,
    {
        proof {
            use_type_invariant(self);
        }
        let mut entries: Vec<Tag> = Vec::new();
        let mut i: usize = 0;
        while i < self.entries.len()
            invariant
                i <= self.entries@.len(),
                entries@.len() == i,
                forall|j: int| 0 <= j < i ==> entries@[j].key@ == self.entries@[j].key@ && opt_view(entries@[j].value) == opt_view(self.entries@[j].value),
            decreases self.entries.len() - i,
        {
            entries.push(self.entries[i].duplicate());
            i = i + 1;
        }
        proof {
            lemma_entries_map_congruent(entries@, self.entries@);
            assert(unique_keys(entries@)) by {
                let s = entries@;
                let t = self.entries@;
                assert forall|a: int, b: int| 0 <= a < s.len() && 0 <= b < s.len() && a != b implies s[a].key@ != s[b].key@ by {
                    assert(t[a].key@ != t[b].key@);
                }
            }
        }
        Tags { entries }
    }

    /// The (key, value) pairs of the set, one per key, in the set's order.
    pub fn pairs(&self) -> (r: Vec<(String, Option<String>)>)
        ensures
            pairs_map(r@) == self@,
            forall|a: int, b: int| 0 <= a < r@.len() && 0 <= b < r@.len() && a != b ==> r@[a].0@ != r@[b].0@,
    {
        proof {
            use_type_invariant(self);
        }
        let mut r: Vec<(String, Option<String>)> = Vec::new();
        let mut i: usize = 0;
        while i < self.entries.len()
            invariant
                i <= self.entries@.len(),
                r@.len() == i,
                forall|j: int| 0 <= j < i ==> r@[j].0@ == self.entries@[j].key@ && opt_view(r@[j].1) == opt_view(self.entries@[j].value),
            decreases self.entries.len() - i,
        {
            let t = &self.entries[i];
            r.push((String::from_str(t.key.as_str()), crate::tag::clone_opt_string(&t.value)));
            i = i + 1;
        }
        proof {
            lemma_pairs_map_entries(r@, self.entries@);
        }
        r
    }

    /// Whether every tag of `self` is in `other` with the same value.
    fn included_in(&self, other: &Tags) -> (r: bool)
        ensures
            r == (forall|k: Seq<char>| #[trigger] self@.contains_key(k) ==> other@.contains_key(k) && other@[k] == self@[k]),
    {
        proof {
            use_type_invariant(self);
        }
        let mut i: usize = 0;
        while i < self.entries.len()
            invariant
                unique_keys(self.entries@),
                i <= self.entries@.len(),
                forall|j: int| 0 <= j < i ==> other@.contains_key(#[trigger] self.entries@[j].key@) && other@[self.entries@[j].key@] == opt_view(self.entries@[j].value),
            decreases self.entries.len() - i,
        {
            let t = &self.entries[i];
            match other.get(t.key.as_str()) {
                Some(o) => {
                    if !crate::tag::opt_string_eq(&o.value, &t.value) {
                        proof {
                            lemma_entries_map_value(self.entries@, i as int);
                            assert(self@.contains_key(self.entries@[i as int].key@));
                        }
                        return false;
                    }
                },
                None => {
                    proof {
                        lemma_entries_map_value(self.entries@, i as int);
                        assert(self@.contains_key(self.entries@[i as int].key@));
                    }
                    return false;
                },
            }
            i = i + 1;
        }
        proof {
            assert forall|k: Seq<char>| #[trigger] self@.contains_key(k) implies other@.contains_key(k) && other@[k] == self@[k] by {
                lemma_entries_map_dom(self.entries@, k);
                let j = choose|j: int| 0 <= j < self.entries@.len() && self.entries@[j].key@ == k;
                lemma_entries_map_value(self.entries@, j);
            }
        }
        true
    }

    /// Whether both sets hold the same keys with the same values.
    pub fn same_as(&self, other: &Tags) -> (r: bool)
        ensures
            r == (self@ == other@),
    {
        let a = self.included_in(other);
        let b = other.included_in(self);
        if a && b {
            assert(self@ =~= other@);
        }
        a && b
    }
}

/// How two filters are combined.
#[derive(Clone, Copy, Debug, PartialEq, Eq, Structural)]
pub enum Op {
    And,
    Or,
}

/// A search filter over a file's tags.
#[derive(Debug)]
pub enum Filter {
    /// Every file.
    All,
    /// Files with a tag of this key and, if given, this value.
    Tag { key: String, value: Option<String> },
    /// Two filters combined.
    Op { lhs: Box<Filter>, op: Op, rhs: Box<Filter> },
}

/// What a filter is, as plain values.
pub enum FilterView {
    All,
    Tag { key: Seq<char>, value: Option<Seq<char>> },
    Op { lhs: Box<FilterView>, op: Op, rhs: Box<FilterView> },
}

/// The plain-value form of a filter.
pub open spec fn filter_view(f: Filter) -> FilterView
    decreases f,
{
    match f {
        Filter::All => FilterView::All,
        Filter::Tag { key, value } => FilterView::Tag { key: key@, value: opt_view(value) },
        Filter::Op { lhs, op, rhs } => FilterView::Op {
            lhs: Box::new(filter_view(*lhs)),
            op,
            rhs: Box::new(filter_view(*rhs)),
        },
    }
}

impl View for Filter {
    type V = FilterView;

    open spec fn view(&self) -> FilterView {
        filter_view(*self)
    }
}

impl Filter {
    /// A copy of this filter.
    pub fn duplicate(&self) -> (r: Filter)
        ensures
            r@ == self@,
        decreases self,
    {
        match self {
            Filter::All => Filter::All,
            Filter::Tag { key, value } => Filter::Tag {
                key: String::from_str(key.as_str()),
                value: crate::tag::clone_opt_string(value),
            },
            Filter::Op { lhs, op, rhs } => Filter::Op {
                lhs: Box::new(lhs.duplicate()),
                op: *op,
                rhs: Box::new(rhs.duplicate()),
            },
        }
    }
}

/// A wanted value is met by any value when it is absent, and by an equal value otherwise.
pub open spec fn value_matches(actual: Option<Seq<char>>, wanted: Option<Seq<char>>) -> bool {
    match (actual, wanted) {
        (_, None) => true,
        (None, Some(_)) => false,
        (Some(a), Some(w)) => a == w,
    }
}

/// A tag with key `tag_key` and value `tag_value` meets the wanted key and value.
pub open spec fn spec_tag_matches(
    tag_key: Seq<char>,
    tag_value: Option<Seq<char>>,
    key: Seq<char>,
    value: Option<Seq<char>>,
) -> bool {
    tag_key == key && value_matches(tag_value, value)
}

/// Some tag of `m` meets the wanted key and value.
pub open spec fn some_tag_matches(m: TagMap, key: Seq<char>, value: Option<Seq<char>>) -> bool {
    exists|k: Seq<char>| #[trigger] m.contains_key(k) && spec_tag_matches(k, m[k], key, value)
}

/// Whether a file with tags `m` passes filter `f`.
pub open spec fn filter_accepts(f: FilterView, m: TagMap) -> bool
    decreases f,
{
    match f {
        FilterView::All => true,
        FilterView::Tag { key, value } => some_tag_matches(m, key, value),
        FilterView::Op { lhs, op, rhs } => match op {
            Op::And => filter_accepts(*lhs, m) && filter_accepts(*rhs, m),
            Op::Or => filter_accepts(*lhs, m) || filter_accepts(*rhs, m),
        },
    }
}

/// Whether `tag` has key `key` and, when `value` is given, that value.
pub fn tag_matches(tag: &Tag, key: &String, value: Option<&String>) -> (r: bool)
    ensures
        r == spec_tag_matches(
            tag.key@,
            opt_view(tag.value),
            key@,
            match value {
                Some(v) => Some(v@),
                None => None,
            },
        ),
{
    let key_matches = str_eq(tag.key.as_str(), key.as_str());
    let value_matches = match (&tag.value, value) {
        (_, None) => true,
        (None, Some(_)) => false,
        (Some(v1), Some(v2)) => str_eq(v1.as_str(), v2.as_str()),
    };
    key_matches && value_matches
}

impl Tags {
    /// Whether some tag has key `key` and, when `value` is given, that value.
    pub fn any_matches(&self, key: &String, value: Option<&String>) -> (r: bool)
        ensures
            r == some_tag_matches(
                self@,
                key@,
                match value {
                    Some(v) => Some(v@),
                    None => None,
                },
            ),
    {
        proof {
            use_type_invariant(self);
        }
        let ghost wanted = match value {
            Some(v) => Some(v@),
            None => None,
        };
        let mut i: usize = 0;
        while i < self.entries.len()
            invariant
                unique_keys(self.entries@),
                i <= self.entries@.len(),
                wanted == match value {
                    Some(v) => Some(v@),
                    None => None,
                },
                forall|j: int| 0 <= j < i ==> !spec_tag_matches(
                    #[trigger] self.entries@[j].key@,
                    opt_view(self.entries@[j].value),
                    key@,
                    wanted,
                ),
            decreases self.entries.len() - i,
        {
            if tag_matches(&self.entries[i], key, value) {
                proof {
                    lemma_entries_map_value(self.entries@, i as int);
                    assert(self@.contains_key(self.entries@[i as int].key@));
                }
                return true;
            }
            i = i + 1;
        }
        proof {
            assert forall|k: Seq<char>| #[trigger] self@.contains_key(k) implies !spec_tag_matches(k, self@[k], key@, wanted) by {
                lemma_entries_map_dom(self.entries@, k);
                let j = choose|j: int| 0 <= j < self.entries@.len() && self.entries@[j].key@ == k;
                lemma_entries_map_value(self.entries@, j);
            }
        }
        false
    }
}

/// Whether a file with tags `tags` passes `filter`.
pub fn filter_matches(filter: &Filter, tags: &Tags) -> (r: bool)
    ensures
        r == filter_accepts(filter@, tags@),
    decreases filter,
{
    match filter {
        Filter::All => true,
        Filter::Tag { key, value } => {
            let wanted: Option<&String> = match value {
                Some(v) => Some(v),
                None => None,
            };
            tags.any_matches(key, wanted)
        },
        Filter::Op { lhs, op, rhs } => {
            let l = filter_matches(lhs, tags);
            let r = filter_matches(rhs, tags);
            match op {
                Op::And => l && r,
                Op::Or => l || r,
            }
        },
    }
}

} // verus!
