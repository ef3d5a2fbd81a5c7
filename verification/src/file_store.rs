//! An in-memory store of file metadata, with tag search and cursor pagination.
use vstd::prelude::*;
use crate::file::{File, FileView};
use crate::ids::{uuid_text, AccountId, FileId};
use crate::paginate::{
    cursor_text, is_forward, is_past_cursor, lemma_filter_prefix, page_limit, past_cursor,
    take_at_most, Paginate, Slice,
};
use crate::tags::{filter_accepts, filter_matches, Filter, FilterView};
use crate::text::{chars_of, str_eq};
use std::collections::HashMap;

verus! {

broadcast use vstd::std_specs::hash::group_hash_axioms;

/// The plain-value form of a sequence of files.
pub open spec fn files_view(s: Seq<File>) -> Seq<FileView> {
    s.map_values(|f: File| f@)
}

/// `w` lists the files of `m`, each once: as many entries as `m` has, each
/// stored under its identifier, and every stored file among them.
pub open spec fn lists_each_file_once(w: Seq<FileView>, m: Map<u128, FileView>) -> bool {
    &&& w.len() == m.dom().len()
    &&& forall|i: int| 0 <= i < w.len() ==> m.contains_key(#[trigger] w[i].id) && m[w[i].id] == w[i]
    &&& forall|k: u128| #[trigger] m.contains_key(k) ==> w.contains(m[k])
}

/// The stored files after saving each of `files` in order.
pub open spec fn saved_in_order(files: Seq<FileView>) -> Map<u128, FileView> {
    files.fold_left(Map::<u128, FileView>::empty(), |acc: Map<u128, FileView>, f: FileView| acc.insert(f.id, f))
}

/// Which files a search keeps: owned by `owner`, passing `filter`, beyond the cursor.
pub open spec fn search_pred(owner: u128, filter: FilterView, p: Paginate) -> spec_fn(FileView) -> bool {
    |f: FileView| f.owner_id == owner && filter_accepts(filter, f.tags) && past_cursor(p, f.id)
}

/// The files a search returns, in the order `s` lists them: those it keeps, up to the page limit.
pub open spec fn search_items(s: Seq<FileView>, owner: u128, filter: FilterView, p: Paginate) -> Seq<FileView> {
    take_at_most(s.filter(search_pred(owner, filter, p)), page_limit(p) as nat)
}

/// The cursor of the next page (going forward) or of the previous page (going
/// backward): the identifier text of the last, or the first, item returned.
pub open spec fn page_cursors(items: Seq<FileView>, p: Paginate) -> (Option<Seq<char>>, Option<Seq<char>>) {
    if items.len() == 0 {
        (None, None)
    } else if is_forward(p) {
        (Some(uuid_text(items.last().id)), None)
    } else {
        (None, Some(uuid_text(items[0].id)))
    }
}

pub open spec fn opt_text(o: Option<String>) -> Option<Seq<char>> {
    match o {
        Some(s) => Some(s@),
        None => None,
    }
}

/// File metadata held in memory, keyed by identifier.
pub struct InMemoryFileMetadata {
    files: HashMap<u128, File>,
}

impl InMemoryFileMetadata {
    #[verifier::type_invariant]
    spec fn keyed_by_id(self) -> bool {
        forall|k: u128| #[trigger] self.files@.contains_key(k) ==> self.files@[k]@.id == k
    }

    /// The stored files, by identifier.
    pub closed spec fn stored(&self) -> Map<u128, FileView> {
        Map::new(|k: u128| self.files@.contains_key(k), |k: u128| self.files@[k]@)
    }

    /// An empty store.
    pub fn new() -> (r: InMemoryFileMetadata)
        ensures
            r.stored() == Map::<u128, FileView>::empty(),
    {
        let r = InMemoryFileMetadata { files: HashMap::new() };
        assert(r.stored() =~= Map::<u128, FileView>::empty());
        r
    }

    /// A store holding `files`, saved in order.
    pub fn from_files(files: Vec<File>) -> (r: InMemoryFileMetadata)
        ensures
            r.stored() == saved_in_order(files_view(files@)),
    {
        let mut r = InMemoryFileMetadata::new();
        let mut i: usize = 0;
        while i < files.len()
            invariant
                i <= files@.len(),
                r.stored() == saved_in_order(files_view(files@).take(i as int)),
            decreases files.len() - i,
        {
            let f = files[i].duplicate();
            r.save(f);
            proof {
                let v = files_view(files@);
                assert(v.take(i + 1).drop_last() =~= v.take(i as int));
                assert(v.take(i + 1).last() == files@[i as int]@);
            }
            i = i + 1;
        }
        assert(files_view(files@).take(files@.len() as int) =~= files_view(files@));
        r
    }

    /// Saves `file` under its identifier, replacing any stored one; returns a copy of it.
    pub fn save(&mut self, file: File) -> (r: File)
        ensures
            final(self).stored() == old(self).stored().insert(file@.id, file@),
            r@ == file@,
    {
        proof {
            use_type_invariant(&*self);
        }
        let copy = file.duplicate();
        let mut m = HashMap::new();
        std::mem::swap(&mut m, &mut self.files);
        m.insert(file.id.as_u128(), file);
        self.files = m;
        assert(self.stored() =~= old(self).stored().insert(copy@.id, copy@));
        copy
    }

    /// The file with identifier `id`, if it is stored and owned by `owner_id`.
    pub fn by_id(&self, owner_id: AccountId, id: FileId) -> (r: Option<File>)
        ensures
            match r {
                Some(f) => self.stored().contains_key(id@) && self.stored()[id@] == f@ && f@.id == id@
                    && f@.owner_id == owner_id@,
                None => !(self.stored().contains_key(id@) && self.stored()[id@].owner_id == owner_id@),
            },
    {
        proof {
            use_type_invariant(self);
        }
        match self.files.get(&id.as_u128()) {
            Some(f) => {
                if f.owner_id.as_u128() == owner_id.as_u128() {
                    Some(f.duplicate())
                } else {
                    None
                }
            },
            None => None,
        }
    }

    /// A copy of each stored file, in the order the store walks them.
    fn walk_copies(&self) -> (all: Vec<File>)
        ensures
            lists_each_file_once(files_view(all@), self.stored()),
    {
        proof {
            use_type_invariant(self);
        }
        let ghost seq = vstd::std_specs::iter::IteratorSpec::remaining(
            &vstd::std_specs::hash::spec_values_iter(&self.files),
        );
        let mut all: Vec<File> = Vec::new();
        for f in it: self.files.values()
            invariant
                it.seq() == seq,
                seq.unref().to_set() == self.files@.values(),
                seq.len() == self.files@.dom().len(),
                all@.len() == it.index(),
                forall|j: int| 0 <= j < it.index() ==> all@[j]@ == (*seq[j])@,
        {
            all.push(f.duplicate());
        }
        proof {
            let w = files_view(all@);
            let u = seq.unref();
            assert(self.stored().dom() =~= self.files@.dom());
            assert forall|i: int| 0 <= i < w.len() implies self.stored().contains_key(#[trigger] w[i].id)
                && self.stored()[w[i].id] == w[i] by {
                assert(u.to_set().contains(u[i]));
                let k = choose|k: u128| self.files@.dom().contains(k) && self.files@[k] == u[i];
                assert(w[i] == u[i]@);
            }
            assert forall|k: u128| #[trigger] self.stored().contains_key(k) implies w.contains(self.stored()[k]) by {
                assert(self.files@.values().contains(self.files@[k]));
                assert(u.to_set().contains(self.files@[k]));
                let i = choose|i: int| 0 <= i < u.len() && u[i] == self.files@[k];
                assert(w[i] == self.stored()[k]);
            }
        }
        all
    }

    /// A stored file owned by `owner_id` with name `file_name`: the first such
    /// in the order the store walks them.
    pub fn by_name(&self, owner_id: AccountId, file_name: &str) -> (r: Option<File>)
        ensures
            match r {
                Some(f) => self.stored().contains_key(f@.id) && self.stored()[f@.id] == f@
                    && f@.owner_id == owner_id@ && f@.name == file_name@,
                None => forall|k: u128| #[trigger] self.stored().contains_key(k) ==>
                    !(self.stored()[k].owner_id == owner_id@ && self.stored()[k].name == file_name@),
            },
    {
        let all = self.walk_copies();
        let ghost w = files_view(all@);
        let mut i: usize = 0;
        while i < all.len()
            invariant
                w == files_view(all@),
                lists_each_file_once(w, self.stored()),
                i <= all@.len(),
                forall|j: int| 0 <= j < i ==> !(w[j].owner_id == owner_id@ && w[j].name == file_name@),
            decreases all.len() - i,
        {
            let f = &all[i];
            if f.owner_id.as_u128() == owner_id.as_u128() && str_eq(f.name.as_str(), file_name) {
                let d = f.duplicate();
                assert(w[i as int] == d@);
                return Some(d);
            }
            i = i + 1;
        }
        assert forall|k: u128| #[trigger] self.stored().contains_key(k) implies
            !(self.stored()[k].owner_id == owner_id@ && self.stored()[k].name == file_name@) by {
            assert(w.contains(self.stored()[k]));
        }
        None
    }

    /// The files owned by `owner_id` that pass `filter`, beyond the request's
    /// cursor, up to its limit, in the order the store walks them (which lists
    /// each stored file once); with the cursor of the next page (going forward)
    /// or of the previous one (going backward).
    pub fn search(&self, owner_id: AccountId, filter: &Filter, paginate: &Paginate) -> (r: Slice<File>)
        ensures
            exists|w: Seq<FileView>| #[trigger] lists_each_file_once(w, self.stored())
                && files_view(r.items@) == search_items(w, owner_id@, filter@, *paginate),
            (opt_text(r.next), opt_text(r.previous)) == page_cursors(files_view(r.items@), *paginate),
    {
        let all = self.walk_copies();
        let ghost s = files_view(all@);
        let ghost pred = search_pred(owner_id@, filter@, *paginate);
        let (cursor, limit, forward) = paginate.cursor();
        let mut out: Vec<File> = Vec::new();
        let mut i: usize = 0;
        proof {
            reveal_with_fuel(Seq::<_>::filter, 1);
            assert(s.take(0) =~= Seq::<FileView>::empty());
        }
        while i < all.len() && out.len() < limit
            invariant
                s == files_view(all@),
                pred == search_pred(owner_id@, filter@, *paginate),
                cursor@ == cursor_text(*paginate),
                limit == page_limit(*paginate),
                forward == is_forward(*paginate),
                i <= all@.len(),
                out@.len() <= limit,
                files_view(out@) == s.take(i as int).filter(pred),
            decreases all.len() - i,
        {
            let f = &all[i];
            let id_text = chars_of(f.id.to_uuid_string().as_str());
            let keep = f.owner_id.as_u128() == owner_id.as_u128() && filter_matches(filter, &f.tags)
                && is_past_cursor(&cursor, forward, &id_text);
            proof {
                reveal_with_fuel(Seq::<_>::filter, 1);
                assert(s.take(i + 1).drop_last() =~= s.take(i as int));
                assert(s.take(i + 1).last() == s[i as int]);
                assert(keep == pred(s[i as int]));
            }
            if keep {
                let d = f.duplicate();
                out.push(d);
                assert(files_view(out@) =~= s.take(i as int).filter(pred).push(s[i as int]));
            }
            i = i + 1;
        }
        proof {
            let all = s.filter(pred);
            lemma_filter_prefix(s, pred, i as int);
            if i == s.len() {
                assert(s.take(i as int) =~= s);
                assert(s.skip(i as int) =~= Seq::<FileView>::empty());
                reveal_with_fuel(Seq::<_>::filter, 1);
                assert(all =~= s.take(i as int).filter(pred));
            } else {
                assert(out@.len() == limit);
                assert(all.take(limit as int) =~= s.take(i as int).filter(pred));
            }
        }
        let n = out.len();
        if n == 0 {
            return Slice::new(out, None, None);
        }
        if forward {
            let next = out[n - 1].id.to_uuid_string();
            Slice::new(out, Some(next), None)
        } else {
            let previous = out[0].id.to_uuid_string();
            Slice::new(out, None, Some(previous))
        }
    }

    /// All files owned by `owner_id`, paginated: a search that every file passes.
    pub fn all_owned_by(&self, owner_id: AccountId, paginate: &Paginate) -> (r: Slice<File>)
        ensures
            exists|w: Seq<FileView>| #[trigger] lists_each_file_once(w, self.stored())
                && files_view(r.items@) == search_items(w, owner_id@, FilterView::All, *paginate),
            (opt_text(r.next), opt_text(r.previous)) == page_cursors(files_view(r.items@), *paginate),
    {
        let all = Filter::All;
        self.search(owner_id, &all, paginate)
    }
}

} // verus!
