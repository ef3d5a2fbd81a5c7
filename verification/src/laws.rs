//! Properties that hold across the library's operations: round trips of the
//! tag syntax, what the tag, credential and store operations keep, and what
//! a search can return.
use vstd::prelude::*;
use crate::account::AccountView;
use crate::collection::{listing_pred, listing_selection, lists_each_once, CollectionView};
use crate::credentials::{
    argon2_accepts, creds_accept, creds_readable, password_id, phc_parses, CredsMap, CredsView,
    VerifyCreds,
};
use crate::file::{default_tag_map, public_tags};
use crate::file_store::{lists_each_file_once, search_items, search_pred};
use crate::file::FileView;
use crate::paginate::{page_limit, past_cursor, Paginate};
use crate::tag::{
    expr_key, expr_value, is_reserved_key, lemma_tag_expr, opt_view, tag_text, valid_tag_expr,
    valid_tag_key, valid_tag_value, Tag,
};
use crate::tags::{filter_accepts, insert_tags, FilterView, TagMap};
use crate::text::{first_index_of, lemma_first_index_of};

verus! {

/// Parsing a tag expression and writing the tag back gives the expression:
/// `key:value` splits at the first `:`, and a bare key is the whole text.
pub proof fn law_parse_then_display(e: Seq<char>)
    requires
        valid_tag_expr(e),
    ensures
        tag_text(expr_key(e), expr_value(e)) == e,
{
    lemma_first_index_of(e, ':');
    match first_index_of(e, ':') {
        Some(i) => {
            assert(e.take(i) + seq![':'] + e.skip(i + 1) =~= e);
        },
        None => {},
    }
}

/// Writing a tag with a valid key (and a valid value, if any) and parsing the
/// text gives the same key and value back.
pub proof fn law_display_then_parse(key: Seq<char>, value: Option<Seq<char>>)
    requires
        valid_tag_key(key),
        value matches Some(v) ==> valid_tag_value(v),
    ensures
        valid_tag_expr(tag_text(key, value)),
        expr_key(tag_text(key, value)) == key,
        expr_value(tag_text(key, value)) == value,
{
    match value {
        Some(v) => {
            lemma_tag_expr(key, v);
        },
        None => {
            lemma_first_index_of(key, ':');
        },
    }
}

/// Inserting tags none of which has the key `k` leaves the entry of `k` as it was.
pub proof fn law_other_keys_unchanged(m: TagMap, ts: Seq<Tag>, k: Seq<char>)
    requires
        forall|i: int| 0 <= i < ts.len() ==> (#[trigger] ts[i]).key@ != k,
    ensures
        insert_tags(m, ts).contains_key(k) == m.contains_key(k),
        m.contains_key(k) ==> insert_tags(m, ts)[k] == m[k],
    decreases ts.len(),
{
    if ts.len() > 0 {
        let rest = ts.drop_last();
        assert forall|i: int| 0 <= i < rest.len() implies (#[trigger] rest[i]).key@ != k by {
            assert(rest[i] == ts[i]);
        }
        law_other_keys_unchanged(m, rest, k);
        assert(ts.last() == ts[ts.len() - 1]);
    }
}

/// Replacing a file's tags never changes its reserved tags: they keep the
/// values derived from the file, whatever tags are given.
pub proof fn law_set_tags_keeps_reserved(
    name: Seq<char>,
    content_type: Seq<char>,
    size: nat,
    ext: Option<Seq<char>>,
    tags: Seq<Tag>,
    k: Seq<char>,
)
    requires
        is_reserved_key(k),
    ensures
        insert_tags(default_tag_map(name, content_type, size, ext), public_tags(tags)).contains_key(k),
        insert_tags(default_tag_map(name, content_type, size, ext), public_tags(tags))[k]
            == default_tag_map(name, content_type, size, ext)[k],
{
    let m = default_tag_map(name, content_type, size, ext);
    let pts = public_tags(tags);
    assert forall|i: int| 0 <= i < pts.len() implies (#[trigger] pts[i]).key@ != k by {
        tags.lemma_filter_pred(|t: Tag| !is_reserved_key(t.key@), i);
    }
    law_other_keys_unchanged(m, pts, k);
}

/// Adding a tag that was just added changes nothing.
pub proof fn law_same_tag_twice(m: TagMap, ts: Seq<Tag>, t: Tag)
    ensures
        insert_tags(m, ts.push(t).push(t)) == insert_tags(m, ts.push(t)),
{
    assert(ts.push(t).push(t).drop_last() == ts.push(t));
    assert(ts.push(t).drop_last() == ts);
    assert(insert_tags(m, ts.push(t)).insert(t.key@, opt_view(t.value)) =~= insert_tags(m, ts.push(t)));
}

/// A password credential built from a hash of `password` is readable and
/// accepts `password`; registering it (by adding or replacing) keeps every
/// other credential as it was, so a password login with it succeeds.
pub proof fn law_hashed_password_is_accepted(before: CredsMap, hash: Seq<char>, password: String)
    requires
        phc_parses(hash),
        argon2_accepts(hash, password@),
    ensures
        ({
            let after = before.insert(password_id(), CredsView::Password(hash));
            &&& after.contains_key(password_id())
            &&& creds_readable(after[password_id()])
            &&& creds_accept(after[password_id()], VerifyCreds::Password(password))
            &&& forall|k: Seq<char>| k != password_id() && #[trigger] before.contains_key(k)
                ==> after.contains_key(k) && after[k] == before[k]
            &&& (forall|k: Seq<char>| #[trigger] before.contains_key(k) ==> creds_readable(before[k]))
                ==> forall|k: Seq<char>| #[trigger] after.contains_key(k) ==> creds_readable(after[k])
        }),
{
}

/// After a file is saved, a lookup of its identifier finds exactly the saved
/// file, and a lookup of any other identifier finds what it found before.
pub proof fn law_saved_file_is_found(before: Map<u128, FileView>, f: FileView, other: u128)
    requires
        other != f.id,
    ensures
        before.insert(f.id, f).contains_key(f.id),
        before.insert(f.id, f)[f.id] == f,
        before.insert(f.id, f).contains_key(other) == before.contains_key(other),
        before.contains_key(other) ==> before.insert(f.id, f)[other] == before[other],
{
}

/// After an account is saved, a lookup of its identifier finds exactly the
/// saved account, a lookup of any other identifier finds what it found
/// before, and the number of accounts grows by one exactly when no account
/// had that identifier.
pub proof fn law_saved_account_is_found(before: Map<u128, AccountView>, a: AccountView, other: u128)
    requires
        before.dom().finite(),
        other != a.id,
    ensures
        before.insert(a.id, a).contains_key(a.id),
        before.insert(a.id, a)[a.id] == a,
        before.insert(a.id, a).contains_key(other) == before.contains_key(other),
        before.contains_key(other) ==> before.insert(a.id, a)[other] == before[other],
        before.insert(a.id, a).dom().len() == if before.contains_key(a.id) {
            before.dom().len()
        } else {
            before.dom().len() + 1
        },
{
    assert(before.insert(a.id, a).dom() =~= before.dom().insert(a.id));
}

/// After a collection is saved, a lookup of its identifier finds exactly the
/// saved collection, and a lookup of any other identifier finds what it found
/// before.
pub proof fn law_saved_collection_is_found(before: Map<u128, CollectionView>, c: CollectionView, other: u128)
    requires
        other != c.id,
    ensures
        before.insert(c.id, c).contains_key(c.id),
        before.insert(c.id, c)[c.id] == c,
        before.insert(c.id, c).contains_key(other) == before.contains_key(other),
        before.contains_key(other) ==> before.insert(c.id, c)[other] == before[other],
{
}

/// A search returns no more files than the page allows, and only files of
/// the owner that the filter accepts and that lie beyond the cursor.
pub proof fn law_search_results_match(s: Seq<FileView>, owner: u128, filter: FilterView, p: Paginate)
    ensures
        search_items(s, owner, filter, p).len() <= page_limit(p),
        forall|i: int| 0 <= i < search_items(s, owner, filter, p).len() ==> {
            let f = #[trigger] search_items(s, owner, filter, p)[i];
            &&& f.owner_id == owner
            &&& filter_accepts(filter, f.tags)
            &&& past_cursor(p, f.id)
        },
{
    let pred = search_pred(owner, filter, p);
    let kept = s.filter(pred);
    let items = search_items(s, owner, filter, p);
    assert forall|i: int| 0 <= i < items.len() implies ({
        let f = #[trigger] items[i];
        &&& f.owner_id == owner
        &&& filter_accepts(filter, f.tags)
        &&& past_cursor(p, f.id)
    }) by {
        assert(items[i] == kept[i]);
        s.lemma_filter_pred(pred, i);
    }
}

/// A search returns only stored files: taken from any walk that lists each
/// stored file once, every file it returns is the one stored under its
/// identifier.
pub proof fn law_search_returns_stored_files(
    w: Seq<FileView>,
    m: Map<u128, FileView>,
    owner: u128,
    filter: FilterView,
    p: Paginate,
)
    requires
        lists_each_file_once(w, m),
    ensures
        forall|i: int| 0 <= i < search_items(w, owner, filter, p).len() ==> {
            let f = #[trigger] search_items(w, owner, filter, p)[i];
            m.contains_key(f.id) && m[f.id] == f
        },
{
    let kept = w.filter(search_pred(owner, filter, p));
    let items = search_items(w, owner, filter, p);
    assert forall|i: int| 0 <= i < items.len() implies ({
        let f = #[trigger] items[i];
        m.contains_key(f.id) && m[f.id] == f
    }) by {
        assert(items[i] == kept[i]);
        assert(kept.contains(kept[i]));
        w.lemma_filter_contains_rev(search_pred(owner, filter, p), kept[i]);
        let j = choose|j: int| 0 <= j < w.len() && w[j] == kept[i];
        assert(m.contains_key(w[j].id));
    }
}

/// A listing returns only stored collections of its owner: taken from any
/// walk that lists each stored collection once, every collection it selects
/// is the one stored under its identifier and belongs to the owner.
pub proof fn law_listing_returns_stored_collections(
    w: Seq<CollectionView>,
    m: Map<u128, CollectionView>,
    owner: u128,
    p: Paginate,
)
    requires
        lists_each_once(w, m),
    ensures
        forall|i: int| 0 <= i < listing_selection(w, owner, p).len() ==> {
            let c = #[trigger] listing_selection(w, owner, p)[i];
            m.contains_key(c.id) && m[c.id] == c && c.owner_id == owner
        },
{
    let pred = listing_pred(owner, p);
    let kept = w.filter(pred);
    let items = listing_selection(w, owner, p);
    assert forall|i: int| 0 <= i < items.len() implies ({
        let c = #[trigger] items[i];
        m.contains_key(c.id) && m[c.id] == c && c.owner_id == owner
    }) by {
        assert(items[i] == kept[i]);
        w.lemma_filter_pred(pred, i);
        assert(kept.contains(kept[i]));
        w.lemma_filter_contains_rev(pred, kept[i]);
        let j = choose|j: int| 0 <= j < w.len() && w[j] == kept[i];
        assert(m.contains_key(w[j].id));
    }
}

/// Saving an account's non-empty credentials and loading that account's
/// credentials gives them back; the credentials of other accounts are kept.
pub proof fn law_saved_credentials_are_loaded(before: Map<u128, CredsMap>, account: u128, creds: CredsMap, other: u128)
    requires
        creds.dom() != Set::<Seq<char>>::empty(),
    ensures
        before.insert(account, creds).contains_key(account),
        before.insert(account, creds)[account] == creds,
        other != account ==> before.insert(account, creds).contains_key(other) == before.contains_key(other),
        other != account && before.contains_key(other) ==> before.insert(account, creds)[other] == before[other],
{
}

} // verus!
