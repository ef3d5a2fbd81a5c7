//! Cursor pagination: which page of a listing is wanted, and the page that comes back.
use vstd::prelude::*;
use crate::ids::uuid_text;
use crate::text::{chars_of, seq_lt, vec_lt};

verus! {

/// A page request: the items after (or before) a cursor, at most `first` (or `last`) of them.
/// An empty cursor means the start (or the end) of the listing.
#[derive(Debug)]
pub enum Paginate {
    Forward { after: String, first: usize },
    Backward { before: String, last: usize },
}

/// A page of items, with the cursors that lead to the next and the previous page.
#[derive(Debug)]
pub struct Slice<T> {
    pub items: Vec<T>,
    pub next: Option<String>,
    pub previous: Option<String>,
}

impl<T> Slice<T> {
    /// A page holding `items`.
    pub fn new(items: Vec<T>, next: Option<String>, previous: Option<String>) -> (s: Slice<T>)
        ensures
            s.items == items,
            s.next == next,
            s.previous == previous,
    {
        Slice { items, next, previous }
    }

    /// Number of items on the page.
    pub fn len(&self) -> (n: usize)
        ensures
            n == self.items@.len(),
    {
        self.items.len()
    }

    /// Whether the page holds no item.
    pub fn is_empty(&self) -> (b: bool)
        ensures
            b == (self.items@.len() == 0),
    {
        self.items.len() == 0
    }
}

/// Whether the request goes forward.
pub open spec fn is_forward(p: Paginate) -> bool {
    p is Forward
}

/// The most items a page may hold.
pub open spec fn page_limit(p: Paginate) -> usize {
    match p {
        Paginate::Forward { first, .. } => first,
        Paginate::Backward { last, .. } => last,
    }
}

/// The cursor that items are compared with: the given one, or the text of the
/// smallest (forward) or largest (backward) UUID when none is given.
pub open spec fn cursor_text(p: Paginate) -> Seq<char> {
    match p {
        Paginate::Forward { after, .. } => if after@.len() == 0 {
            uuid_text(0)
        } else {
            after@
        },
        Paginate::Backward { before, .. } => if before@.len() == 0 {
            uuid_text(u128::MAX)
        } else {
            before@
        },
    }
}

/// An item with identifier `id` lies beyond the cursor: after it going forward,
/// before it going backward, comparing identifier texts.
pub open spec fn past_cursor(p: Paginate, id: u128) -> bool {
    if is_forward(p) {
        seq_lt(cursor_text(p), uuid_text(id))
    } else {
        seq_lt(uuid_text(id), cursor_text(p))
    }
}

/// The first `limit` items of `s`, or all of them when there are fewer.
pub open spec fn take_at_most<A>(s: Seq<A>, limit: nat) -> Seq<A> {
    if s.len() <= limit {
        s
    } else {
        s.take(limit as int)
    }
}

impl Paginate {
    /// The first `n` items.
    pub fn first(n: usize) -> (p: Paginate)
        ensures
            p matches Paginate::Forward { after, first } && after@.len() == 0 && first == n,
    {
        Paginate::Forward { after: String::new(), first: n }
    }

    /// The last `n` items.
    pub fn last(n: usize) -> (p: Paginate)
        ensures
            p matches Paginate::Backward { before, last } && before@.len() == 0 && last == n,
    {
        Paginate::Backward { before: String::new(), last: n }
    }

    /// The cursor, the page limit and the direction of this request.
    pub fn cursor(&self) -> (r: (Vec<char>, usize, bool))
        ensures
            r.0@ == cursor_text(*self),
            r.1 == page_limit(*self),
            r.2 == is_forward(*self),
    {
        match self {
            Paginate::Forward { after, first } => {
                let c = chars_of(after.as_str());
                if c.len() == 0 {
                    (chars_of(crate::ids::uuid_to_text(0).as_str()), *first, true)
                } else {
                    (c, *first, true)
                }
            },
            Paginate::Backward { before, last } => {
                let c = chars_of(before.as_str());
                if c.len() == 0 {
                    (chars_of(crate::ids::uuid_to_text(u128::MAX).as_str()), *last, false)
                } else {
                    (c, *last, false)
                }
            },
        }
    }
}

/// Whether an item whose identifier has text `id_text` lies beyond `cursor`.
pub fn is_past_cursor(cursor: &Vec<char>, forward: bool, id_text: &Vec<char>) -> (r: bool)
    ensures
        r == if forward {
            seq_lt(cursor@, id_text@)
        } else {
            seq_lt(id_text@, cursor@)
        },
{
    if forward {
        vec_lt(cursor, id_text)
    } else {
        vec_lt(id_text, cursor)
    }
}

/// Splitting a sequence does not change what a filter keeps of it: the filtered
/// prefix is a prefix of the filtered whole.
pub proof fn lemma_filter_prefix<A>(s: Seq<A>, pred: spec_fn(A) -> bool, i: int)
    requires
        0 <= i <= s.len(),
    ensures
        s.filter(pred) == s.take(i).filter(pred) + s.skip(i).filter(pred),
{
    assert(s =~= s.take(i) + s.skip(i));
    Seq::filter_distributes_over_add(s.take(i), s.skip(i), pred);
}

} // verus!
