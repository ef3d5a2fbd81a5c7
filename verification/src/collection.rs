//! Collections: named, owned searches over a user's files, with the set of
//! files they matched when last refreshed, and an in-memory store of them.
use vstd::prelude::*;
use crate::file::File;
use crate::file_store::opt_text;
use crate::ids::{uuid_text, AccountId, CollectionId, FileId};
use crate::paginate::{
    cursor_text, is_forward, is_past_cursor, lemma_filter_prefix, page_limit, past_cursor,
    take_at_most, Paginate, Slice,
};
use crate::tags::{Filter, FilterView};
use crate::text::chars_of;
use std::collections::{HashMap, HashSet};

verus! {

broadcast use vstd::std_specs::hash::group_hash_axioms;

/// What a collection is, as plain values.
pub struct CollectionView {
    pub id: u128,
    pub name: Seq<char>,
    pub owner_id: u128,
    pub filter: FilterView,
    pub files: Set<u128>,
}

/// The identifiers in `s`, as a set.
pub open spec fn id_set(s: Seq<FileId>) -> Set<u128> {
    Set::new(|u: u128| exists|i: int| 0 <= i < s.len() && s[i]@ == u)
}

/// A named search owned by an account, with the files it matched.
pub struct Collection {
    pub id: CollectionId,
    pub name: String,
    pub owner_id: AccountId,
    filter: Filter,
    files: HashSet<u128>,
}

impl View for Collection {
    type V = CollectionView;

    closed spec fn view(&self) -> CollectionView {
        CollectionView {
            id: self.id@,
            name: self.name@,
            owner_id: self.owner_id@,
            filter: self.filter@,
            files: self.files@,
        }
    }
}

/// The data to create a collection: its name and filter query.
pub struct CreateCollection {
    pub name: String,
    pub filter: String,
}

/// Changes to a collection's name and filter query.
pub struct UpdateCollection {
    pub name: Option<String>,
    pub filter: Option<String>,
}

/// A request to recompute the files of a collection.
#[derive(Debug)]
pub struct RefreshCollection {
    pub collection_id: CollectionId,
}

/// The identifiers of a set, each once, in the order that the set walks them.
fn ids_of(set: &HashSet<u128>) -> (r: Vec<FileId>)
    ensures
        id_set(r@) == set@,
        forall|i: int, j: int| 0 <= i < r@.len() && 0 <= j < r@.len() && i != j ==> r@[i]@ != r@[j]@,
{
    let ghost keys = vstd::std_specs::iter::IteratorSpec::remaining(&vstd::std_specs::hash::spec_hash_keys_iter(set));
    let mut r: Vec<FileId> = Vec::new();
    for x in it: set.iter()
        invariant
            it.seq() == keys,
            keys.unref().to_set() == set@,
            keys.no_duplicates(),
            r@.len() == it.index(),
            forall|j: int| 0 <= j < it.index() ==> r@[j]@ == *keys[j],
    {
        r.push(FileId::from_u128(*x));
    }
    assert(id_set(r@) =~= set@) by {
        assert forall|u: u128| id_set(r@).contains(u) implies set@.contains(u) by {
            let i = choose|i: int| 0 <= i < r@.len() && r@[i]@ == u;
            assert(keys.unref()[i] == u);
        }
        assert forall|u: u128| set@.contains(u) implies id_set(r@).contains(u) by {
            assert(keys.unref().contains(u));
            let i = choose|i: int| 0 <= i < keys.unref().len() && keys.unref()[i] == u;
            assert(r@[i]@ == u);
        }
    }
    assert forall|i: int, j: int| 0 <= i < r@.len() && 0 <= j < r@.len() && i != j implies r@[i]@ != r@[j]@ by {
        assert(keys[i] != keys[j]);
    }
    r
}

impl Collection {
    /// A new collection with no files yet.
    pub fn new(owner_id: AccountId, name: &str, filter: Filter) -> (c: Collection)
        ensures
            c@.owner_id == owner_id@,
            c@.name == name@,
            c@.filter == filter@,
            c@.files == Set::<u128>::empty(),
    {
        Collection {
            id: CollectionId::new(),
            owner_id,
            name: String::from_str(name),
            filter,
            files: HashSet::new(),
        }
    }

    /// The identifier (as a plain value), for use by other modules.
    pub fn id_value(&self) -> (v: u128)
        ensures
            v == self@.id,
    {
        self.id.as_u128()
    }

    /// The owner's identifier (as a plain value), for use by other modules.
    pub fn owner_value(&self) -> (v: u128)
        ensures
            v == self@.owner_id,
    {
        self.owner_id.as_u128()
    }

    /// The collection's name, for use by other modules.
    pub fn name_str(&self) -> (s: &str)
        ensures
            s@ == self@.name,
    {
        self.name.as_str()
    }

    /// The files of the collection, each once.
    pub fn files(&self) -> (r: Vec<FileId>)
        ensures
            id_set(r@) == self@.files,
            forall|i: int, j: int| 0 <= i < r@.len() && 0 <= j < r@.len() && i != j ==> r@[i]@ != r@[j]@,
    {
        ids_of(&self.files)
    }

    /// The collection's filter.
    pub fn filter(&self) -> (f: &Filter)
        ensures
            f@ == self@.filter,
    {
        &self.filter
    }

    /// Whether `id` is among the files of the collection.
    pub fn contains_file(&self, id: FileId) -> (r: bool)
        ensures
            r == self@.files.contains(id@),
    {
        self.files.contains(&id.as_u128())
    }

    /// Adds files to the collection; files already in it are kept once.
    pub fn add(&mut self, files: Vec<FileId>)
        ensures
            final(self)@ == (CollectionView { files: old(self)@.files.union(id_set(files@)), ..old(self)@ }),
    {
        let ghost before = self@;
        let mut k: usize = 0;
        assert(id_set(files@.take(0)) =~= Set::<u128>::empty());
        assert(before.files.union(Set::<u128>::empty()) =~= before.files);
        while k < files.len()
            invariant
                k <= files@.len(),
                self@ == (CollectionView { files: before.files.union(id_set(files@.take(k as int))), ..before }),
            decreases files.len() - k,
        {
            let id = files[k];
            self.files.insert(id.as_u128());
            proof {
                assert(files@.take(k + 1) =~= files@.take(k as int).push(id));
                assert(id_set(files@.take(k + 1)) =~= id_set(files@.take(k as int)).insert(id@)) by {
                    let t = files@.take(k as int);
                    let t1 = files@.take(k + 1);
                    assert forall|u: u128| id_set(t1).contains(u) implies id_set(t).insert(id@).contains(u) by {
                        let i = choose|i: int| 0 <= i < t1.len() && t1[i]@ == u;
                        if i < t.len() {
                            assert(t1[i] == t[i]);
                        }
                    }
                    assert forall|u: u128| id_set(t).insert(id@).contains(u) implies id_set(t1).contains(u) by {
                        if u == id@ {
                            assert(t1[k as int] == id);
                        } else {
                            let i = choose|i: int| 0 <= i < t.len() && t[i]@ == u;
                            assert(t1[i] == t[i]);
                        }
                    }
                }
                assert(self@.files =~= before.files.union(id_set(files@.take(k + 1))));
            }
            k = k + 1;
        }
        assert(files@.take(files@.len() as int) =~= files@);
    }

    /// Empties the collection's files.
    pub fn clear_files(&mut self)
        ensures
            final(self)@ == (CollectionView { files: Set::<u128>::empty(), ..old(self)@ }),
    {
        self.files.clear();
    }

    /// Sets a new name.
    pub fn rename(&mut self, name: String)
        ensures
            final(self)@ == (CollectionView { name: name@, ..old(self)@ }),
    {
        self.name = name;
    }

    /// Sets a new filter.
    pub fn set_filter(&mut self, filter: Filter)
        ensures
            final(self)@ == (CollectionView { filter: filter@, ..old(self)@ }),
    {
        self.filter = filter;
    }

    /// A copy of this collection.
    pub fn duplicate(&self) -> (c: Collection)
        ensures
            c@ == self@,
    {
        let mut c = Collection {
            id: self.id,
            name: String::from_str(self.name.as_str()),
            owner_id: self.owner_id,
            filter: self.filter.duplicate(),
            files: HashSet::new(),
        };
        c.add(ids_of(&self.files));
        assert(Set::<u128>::empty().union(self.files@) =~= self.files@);
        c
    }
}

/// The identifiers of a sequence of files.
pub open spec fn file_ids(s: Seq<File>) -> Set<u128> {
    Set::new(|u: u128| exists|i: int| 0 <= i < s.len() && s[i]@.id == u)
}

/// Recomputes a collection's files from the files that its filter found:
/// the collection then holds exactly those files.
pub fn refresh(collection: Collection, found: &Slice<File>) -> (c: Collection)
    ensures
        c@ == (CollectionView { files: file_ids(found.items@), ..collection@ }),
{
    let mut c = collection;
    c.clear_files();
    let mut ids: Vec<FileId> = Vec::new();
    let mut i: usize = 0;
    while i < found.items.len()
        invariant
            i <= found.items@.len(),
            ids@.len() == i,
            forall|j: int| 0 <= j < i ==> ids@[j]@ == found.items@[j]@.id,
        decreases found.items.len() - i,
    {
        ids.push(found.items[i].id);
        i = i + 1;
    }
    c.add(ids);
    proof {
        assert(Set::<u128>::empty().union(id_set(ids@)) =~= file_ids(found.items@)) by {
            assert forall|u: u128| id_set(ids@).contains(u) implies file_ids(found.items@).contains(u) by {
                let j = choose|j: int| 0 <= j < ids@.len() && ids@[j]@ == u;
                assert(found.items@[j]@.id == u);
            }
            assert forall|u: u128| file_ids(found.items@).contains(u) implies id_set(ids@).contains(u) by {
                let j = choose|j: int| 0 <= j < found.items@.len() && found.items@[j]@.id == u;
                assert(ids@[j]@ == u);
            }
        }
    }
    c
}

/// The files that `links` attach to the collection `id`.
pub open spec fn linked_files(links: Seq<(CollectionId, FileId)>, id: u128) -> Set<u128> {
    Set::new(|f: u128| exists|i: int| 0 <= i < links.len() && links[i].0@ == id && links[i].1@ == f)
}

/// The collection with the files that the stored `(collection, file)` links
/// attach to it, and no other.
pub fn with_linked_files(collection: Collection, links: &Vec<(CollectionId, FileId)>) -> (c: Collection)
    ensures
        c@ == (CollectionView { files: linked_files(links@, collection@.id), ..collection@ }),
{
    let id = collection.id_value();
    let mut c = collection;
    c.clear_files();
    let mut ids: Vec<FileId> = Vec::new();
    let mut i: usize = 0;
    while i < links.len()
        invariant
            i <= links@.len(),
            forall|u: u128| id_set(ids@).contains(u) <==> exists|j: int| 0 <= j < i && links@[j].0@ == id && links@[j].1@ == u,
        decreases links.len() - i,
    {
        let ghost before = ids@;
        if links[i].0.as_u128() == id {
            ids.push(links[i].1);
        }
        proof {
            assert forall|u: u128| id_set(ids@).contains(u) <==> exists|j: int| 0 <= j < i + 1 && links@[j].0@ == id && links@[j].1@ == u by {
                if id_set(ids@).contains(u) {
                    let k = choose|k: int| 0 <= k < ids@.len() && ids@[k]@ == u;
                    if k < before.len() {
                        assert(ids@[k] == before[k]);
                        assert(id_set(before).contains(u));
                        let j = choose|j: int| 0 <= j < i && links@[j].0@ == id && links@[j].1@ == u;
                        assert(0 <= j < i + 1 && links@[j].0@ == id && links@[j].1@ == u);
                    } else {
                        assert(links@[i as int].0@ == id && links@[i as int].1@ == u);
                    }
                }
                if exists|j: int| 0 <= j < i + 1 && links@[j].0@ == id && links@[j].1@ == u {
                    let j = choose|j: int| 0 <= j < i + 1 && links@[j].0@ == id && links@[j].1@ == u;
                    if j < i {
                        assert(id_set(before).contains(u));
                        let k = choose|k: int| 0 <= k < before.len() && before[k]@ == u;
                        assert(ids@[k] == before[k]);
                        assert(id_set(ids@).contains(u));
                    } else {
                        assert(ids@[ids@.len() - 1]@ == u);
                    }
                }
            }
        }
        i = i + 1;
    }
    c.add(ids);
    proof {
        assert(Set::<u128>::empty().union(id_set(ids@)) =~= linked_files(links@, id as u128));
    }
    c
}

/// The plain-value form of a sequence of collections.
pub open spec fn collections_view(s: Seq<Collection>) -> Seq<CollectionView> {
    s.map_values(|c: Collection| c@)
}

/// Which collections a listing keeps: owned by `owner`, beyond the cursor.
pub open spec fn listing_pred(owner: u128, p: Paginate) -> spec_fn(CollectionView) -> bool {
    |c: CollectionView| c.owner_id == owner && past_cursor(p, c.id)
}

/// Sorted by identifier.
pub open spec fn sorted_by_id(s: Seq<CollectionView>) -> bool {
    forall|i: int, j: int| 0 <= i <= j < s.len() ==> s[i].id <= s[j].id
}

/// The collections a listing selects from the walk `s`, in its order, before sorting.
pub open spec fn listing_selection(s: Seq<CollectionView>, owner: u128, p: Paginate) -> Seq<CollectionView> {
    take_at_most(s.filter(listing_pred(owner, p)), page_limit(p) as nat)
}

/// `w` lists the collections of `m`, each once: as many entries as `m` has,
/// each stored under its identifier, and every stored collection among them.
pub open spec fn lists_each_once(w: Seq<CollectionView>, m: Map<u128, CollectionView>) -> bool {
    &&& w.len() == m.dom().len()
    &&& forall|i: int| 0 <= i < w.len() ==> m.contains_key(#[trigger] w[i].id) && m[w[i].id] == w[i]
    &&& forall|k: u128| #[trigger] m.contains_key(k) ==> w.contains(m[k])
}

/// Collections held in memory, keyed by identifier.
pub struct InMemoryCollectionStore {
    collections: HashMap<u128, Collection>,
}

proof fn lemma_insert_multiset<A>(s: Seq<A>, i: int, x: A)
    requires
        0 <= i <= s.len(),
    ensures
        s.insert(i, x).to_multiset() == s.to_multiset().insert(x),
{
    broadcast use vstd::seq_lib::group_to_multiset_ensures;
    let t = s.insert(i, x);
    assert(t.remove(i) =~= s);
    assert(t[i] == x);
    assert(t.to_multiset().remove(x) == s.to_multiset());
    assert(t.to_multiset().count(x) > 0);
    assert(t.to_multiset() =~= s.to_multiset().insert(x));
}

impl InMemoryCollectionStore {
    #[verifier::type_invariant]
    spec fn keyed_by_id(self) -> bool {
        forall|k: u128| #[trigger] self.collections@.contains_key(k) ==> self.collections@[k]@.id == k
    }

    /// The stored collections, by identifier.
    pub closed spec fn stored(&self) -> Map<u128, CollectionView> {
        Map::new(|k: u128| self.collections@.contains_key(k), |k: u128| self.collections@[k]@)
    }

    /// An empty store.
    pub fn new() -> (r: InMemoryCollectionStore)
        ensures
            r.stored() == Map::<u128, CollectionView>::empty(),
    {
        let r = InMemoryCollectionStore { collections: HashMap::new() };
        assert(r.stored() =~= Map::<u128, CollectionView>::empty());
        r
    }

    /// The collection with identifier `id`, if it is stored.
    pub fn by_id(&self, id: CollectionId) -> (r: Option<Collection>)
        ensures
            match r {
                Some(c) => self.stored().contains_key(id@) && self.stored()[id@] == c@ && c@.id == id@,
                None => !self.stored().contains_key(id@),
            },
    {
        proof {
            use_type_invariant(self);
        }
        match self.collections.get(&id.as_u128()) {
            Some(c) => Some(c.duplicate()),
            None => None,
        }
    }

    /// Saves `collection` under its identifier, replacing any stored one;
    /// returns a copy of it.
    pub fn save(&mut self, collection: Collection) -> (r: Collection)
        ensures
            r@ == collection@,
            final(self).stored() == old(self).stored().insert(collection@.id, collection@),
    {
        proof {
            use_type_invariant(&*self);
        }
        let copy = collection.duplicate();
        let mut m = HashMap::new();
        std::mem::swap(&mut m, &mut self.collections);
        m.insert(collection.id_value(), collection);
        self.collections = m;
        assert(self.stored() =~= old(self).stored().insert(copy@.id, copy@));
        copy
    }

    /// A copy of each stored collection, in the order the store walks them.
    fn walk_copies(&self) -> (all: Vec<Collection>)
        ensures
            lists_each_once(collections_view(all@), self.stored()),
    {
        proof {
            use_type_invariant(self);
        }
        let ghost seq = vstd::std_specs::iter::IteratorSpec::remaining(
            &vstd::std_specs::hash::spec_values_iter(&self.collections),
        );
        let mut all: Vec<Collection> = Vec::new();
        for c in it: self.collections.values()
            invariant
                it.seq() == seq,
                seq.unref().to_set() == self.collections@.values(),
                seq.len() == self.collections@.dom().len(),
                all@.len() == it.index(),
                forall|j: int| 0 <= j < it.index() ==> all@[j]@ == (*seq[j])@,
        {
            all.push(c.duplicate());
        }
        proof {
            let w = collections_view(all@);
            let u = seq.unref();
            assert(self.stored().dom() =~= self.collections@.dom());
            assert forall|i: int| 0 <= i < w.len() implies self.stored().contains_key(#[trigger] w[i].id)
                && self.stored()[w[i].id] == w[i] by {
                assert(u.to_set().contains(u[i]));
                let k = choose|k: u128| self.collections@.dom().contains(k) && self.collections@[k] == u[i];
                assert(w[i] == u[i]@);
            }
            assert forall|k: u128| #[trigger] self.stored().contains_key(k) implies w.contains(self.stored()[k]) by {
                assert(self.collections@.values().contains(self.collections@[k]));
                assert(u.to_set().contains(self.collections@[k]));
                let i = choose|i: int| 0 <= i < u.len() && u[i] == self.collections@[k];
                assert(w[i] == self.stored()[k]);
            }
        }
        all
    }

    /// The collections owned by `owner_id` beyond the request's cursor, up to its
    /// limit (taken in the order the store walks them, which lists each stored
    /// collection once), sorted by identifier; with the cursor of the next page
    /// (going forward) or of the previous one (going backward).
    pub fn all_owned_by(&self, owner_id: AccountId, paginate: &Paginate) -> (r: Slice<Collection>)
        ensures
            sorted_by_id(collections_view(r.items@)),
            exists|w: Seq<CollectionView>| #[trigger] lists_each_once(w, self.stored())
                && collections_view(r.items@).to_multiset() == listing_selection(w, owner_id@, *paginate).to_multiset(),
            (opt_text(r.next), opt_text(r.previous)) == (if r.items@.len() == 0 {
                (None::<Seq<char>>, None::<Seq<char>>)
            } else if is_forward(*paginate) {
                (Some(uuid_text(r.items@.last()@.id)), None)
            } else {
                (None, Some(uuid_text(r.items@[0]@.id)))
            }),
    {
        let all = self.walk_copies();
        let ghost s = collections_view(all@);
        let ghost pred = listing_pred(owner_id@, *paginate);
        let (cursor, limit, forward) = paginate.cursor();
        let mut out: Vec<Collection> = Vec::new();
        let mut i: usize = 0;
        proof {
            reveal_with_fuel(Seq::<_>::filter, 1);
            assert(s.take(0) =~= Seq::<CollectionView>::empty());
        }
        while i < all.len() && out.len() < limit
            invariant
                s == collections_view(all@),
                pred == listing_pred(owner_id@, *paginate),
                cursor@ == cursor_text(*paginate),
                limit == page_limit(*paginate),
                forward == is_forward(*paginate),
                i <= all@.len(),
                out@.len() <= limit,
                collections_view(out@) == s.take(i as int).filter(pred),
            decreases all.len() - i,
        {
            let c = &all[i];
            let id_text = chars_of(c.id.to_uuid_string().as_str());
            let keep = c.owner_id.as_u128() == owner_id.as_u128() && is_past_cursor(&cursor, forward, &id_text);
            proof {
                reveal_with_fuel(Seq::<_>::filter, 1);
                assert(s.take(i + 1).drop_last() =~= s.take(i as int));
                assert(s.take(i + 1).last() == s[i as int]);
                assert(s[i as int] == c@);
                assert(keep == pred(s[i as int]));
            }
            if keep {
                let d = c.duplicate();
                out.push(d);
                assert(collections_view(out@) =~= s.take(i as int).filter(pred).push(s[i as int]));
            }
            i = i + 1;
        }
        proof {
            let all = s.filter(pred);
            lemma_filter_prefix(s, pred, i as int);
            if i == s.len() {
                assert(s.take(i as int) =~= s);
                assert(s.skip(i as int) =~= Seq::<CollectionView>::empty());
                reveal_with_fuel(Seq::<_>::filter, 1);
                assert(all =~= s.take(i as int).filter(pred));
            } else {
                assert(out@.len() == limit);
                assert(all.take(limit as int) =~= s.take(i as int).filter(pred));
            }
        }
        let ghost selection = collections_view(out@);
        // sort by identifier, inserting each selected collection in place
        let mut sorted: Vec<Collection> = Vec::new();
        let mut k: usize = 0;
        let total = out.len();
        proof {
            assert(selection.take(0) =~= Seq::<CollectionView>::empty());
            assert(collections_view(sorted@) =~= Seq::<CollectionView>::empty());
        }
        while k < total
            invariant
                total == selection.len(),
                selection == collections_view(out@),
                k <= total,
                sorted_by_id(collections_view(sorted@)),
                collections_view(sorted@).to_multiset() == selection.take(k as int).to_multiset(),
            decreases total - k,
        {
            let c = out[k].duplicate();
            assert(c@ == selection[k as int]);
            let cid = c.id_value();
            let mut p: usize = 0;
            while p < sorted.len() && sorted[p].id_value() <= cid
                invariant
                    p <= sorted@.len(),
                    cid == c@.id,
                    forall|j: int| 0 <= j < p ==> (#[trigger] sorted@[j])@.id <= cid,
                decreases sorted.len() - p,
            {
                p = p + 1;
            }
            let ghost before = collections_view(sorted@);
            sorted.insert(p, c);
            proof {
                let after = collections_view(sorted@);
                assert(after =~= before.insert(p as int, selection[k as int]));
                lemma_insert_multiset(before, p as int, selection[k as int]);
                broadcast use vstd::seq_lib::group_to_multiset_ensures;
                assert(selection.take(k + 1) =~= selection.take(k as int).push(selection[k as int]));
                assert forall|a: int, b: int| 0 <= a <= b < after.len() implies after[a].id <= after[b].id by {
                    if b < p {
                    } else if a > p {
                    } else if a == p && b == p {
                    } else if a == p {
                        assert(after[b] == before[b - 1]);
                        if p < before.len() {
                            assert(before[p as int].id > cid);
                        }
                    } else if b == p {
                        assert(after[a] == before[a]);
                    } else {
                        assert(after[a] == before[a]);
                        assert(after[b] == before[b - 1]);
                    }
                }
            }
            k = k + 1;
        }
        assert(selection.take(total as int) =~= selection);
        let n = sorted.len();
        if n == 0 {
            return Slice::new(sorted, None, None);
        }
        if forward {
            let next = sorted[n - 1].id.to_uuid_string();
            Slice::new(sorted, Some(next), None)
        } else {
            let previous = sorted[0].id.to_uuid_string();
            Slice::new(sorted, None, Some(previous))
        }
    }
}

} // verus!
