//! Accounts and an in-memory store of them.
use vstd::prelude::*;
use crate::ids::AccountId;
use crate::text::str_eq;
use std::collections::HashMap;

verus! {

broadcast use vstd::std_specs::hash::group_hash_axioms;

/// What an account is, as plain values.
pub struct AccountView {
    pub id: u128,
    pub username: Seq<char>,
}

/// A user account.
#[derive(Debug)]
pub struct Account {
    pub id: AccountId,
    pub username: String,
}

impl View for Account {
    type V = AccountView;

    open spec fn view(&self) -> AccountView {
        AccountView { id: self.id@, username: self.username@ }
    }
}

impl Account {
    /// A new account with a fresh identifier.
    pub fn create(username: &str) -> (a: Account)
        ensures
            a@.username == username@,
    {
        Account { id: AccountId::new(), username: String::from_str(username) }
    }

    /// A copy of this account.
    pub fn duplicate(&self) -> (a: Account)
        ensures
            a@ == self@,
    {
        Account { id: self.id, username: String::from_str(self.username.as_str()) }
    }
}

/// Accounts held in memory, keyed by identifier.
pub struct InMemoryAccounts {
    accounts: HashMap<u128, Account>,
}

/// The plain-value form of a sequence of accounts.
pub open spec fn accounts_view(s: Seq<Account>) -> Seq<AccountView> {
    s.map_values(|a: Account| a@)
}

/// `w` lists the accounts of `m`, each once: as many entries as `m` has, each
/// stored under its identifier, and every stored account among them.
pub open spec fn lists_each_account_once(w: Seq<AccountView>, m: Map<u128, AccountView>) -> bool {
    &&& w.len() == m.dom().len()
    &&& forall|i: int| 0 <= i < w.len() ==> m.contains_key(#[trigger] w[i].id) && m[w[i].id] == w[i]
    &&& forall|k: u128| #[trigger] m.contains_key(k) ==> w.contains(m[k])
}

/// The stored accounts after saving each of `accounts` in order.
pub open spec fn accounts_saved_in_order(accounts: Seq<AccountView>) -> Map<u128, AccountView> {
    accounts.fold_left(Map::<u128, AccountView>::empty(), |acc: Map<u128, AccountView>, a: AccountView| acc.insert(a.id, a))
}

impl InMemoryAccounts {
    #[verifier::type_invariant]
    spec fn keyed_by_id(self) -> bool {
        forall|k: u128| #[trigger] self.accounts@.contains_key(k) ==> self.accounts@[k]@.id == k
    }

    /// The stored accounts, by identifier.
    pub closed spec fn stored(&self) -> Map<u128, AccountView> {
        Map::new(|k: u128| self.accounts@.contains_key(k), |k: u128| self.accounts@[k]@)
    }

    /// An empty store.
    pub fn new() -> (r: InMemoryAccounts)
        ensures
            r.stored() == Map::<u128, AccountView>::empty(),
    {
        let r = InMemoryAccounts { accounts: HashMap::new() };
        assert(r.stored() =~= Map::<u128, AccountView>::empty());
        r
    }

    /// A store holding `accounts`, saved in order.
    pub fn from_accounts(accounts: Vec<Account>) -> (r: InMemoryAccounts)
        ensures
            r.stored() == accounts_saved_in_order(accounts_view(accounts@)),
    {
        let mut r = InMemoryAccounts::new();
        let mut i: usize = 0;
        while i < accounts.len()
            invariant
                i <= accounts@.len(),
                r.stored() == accounts_saved_in_order(accounts_view(accounts@).take(i as int)),
            decreases accounts.len() - i,
        {
            let a = accounts[i].duplicate();
            r.save(a);
            proof {
                let v = accounts_view(accounts@);
                assert(v.take(i + 1).drop_last() =~= v.take(i as int));
                assert(v.take(i + 1).last() == accounts@[i as int]@);
            }
            i = i + 1;
        }
        assert(accounts_view(accounts@).take(accounts@.len() as int) =~= accounts_view(accounts@));
        r
    }

    /// Number of stored accounts.
    pub fn count(&self) -> (n: usize)
        ensures
            n == self.stored().dom().len(),
    {
        assert(self.stored().dom() =~= self.accounts@.dom());
        self.accounts.len()
    }

    /// The account with identifier `id`, if it is stored.
    pub fn by_id(&self, id: AccountId) -> (r: Option<Account>)
        ensures
            match r {
                Some(a) => self.stored().contains_key(id@) && self.stored()[id@] == a@ && a@.id == id@,
                None => !self.stored().contains_key(id@),
            },
    {
        proof {
            use_type_invariant(self);
        }
        match self.accounts.get(&id.as_u128()) {
            Some(a) => Some(a.duplicate()),
            None => None,
        }
    }

    /// A copy of each stored account, in the order the store walks them.
    fn walk_copies(&self) -> (all: Vec<Account>)
        ensures
            lists_each_account_once(accounts_view(all@), self.stored()),
    {
        proof {
            use_type_invariant(self);
        }
        let ghost seq = vstd::std_specs::iter::IteratorSpec::remaining(
            &vstd::std_specs::hash::spec_values_iter(&self.accounts),
        );
        let mut all: Vec<Account> = Vec::new();
        for a in it: self.accounts.values()
            invariant
                it.seq() == seq,
                seq.unref().to_set() == self.accounts@.values(),
                seq.len() == self.accounts@.dom().len(),
                all@.len() == it.index(),
                forall|j: int| 0 <= j < it.index() ==> all@[j]@ == (*seq[j])@,
        {
            all.push(a.duplicate());
        }
        proof {
            let w = accounts_view(all@);
            let u = seq.unref();
            assert(self.stored().dom() =~= self.accounts@.dom());
            assert forall|i: int| 0 <= i < w.len() implies self.stored().contains_key(#[trigger] w[i].id)
                && self.stored()[w[i].id] == w[i] by {
                assert(u.to_set().contains(u[i]));
                let k = choose|k: u128| self.accounts@.dom().contains(k) && self.accounts@[k] == u[i];
                assert(w[i] == u[i]@);
            }
            assert forall|k: u128| #[trigger] self.stored().contains_key(k) implies w.contains(self.stored()[k]) by {
                assert(self.accounts@.values().contains(self.accounts@[k]));
                assert(u.to_set().contains(self.accounts@[k]));
                let i = choose|i: int| 0 <= i < u.len() && u[i] == self.accounts@[k];
                assert(w[i] == self.stored()[k]);
            }
        }
        all
    }

    /// A stored account with this username: the first such in the order the
    /// store walks them.
    pub fn by_username(&self, username: &str) -> (r: Option<Account>)
        ensures
            match r {
                Some(a) => a@.username == username@ && self.stored().contains_key(a@.id) && self.stored()[a@.id] == a@,
                None => forall|k: u128| #[trigger] self.stored().contains_key(k) ==> self.stored()[k].username != username@,
            },
    {
        let all = self.walk_copies();
        let ghost w = accounts_view(all@);
        let mut i: usize = 0;
        while i < all.len()
            invariant
                w == accounts_view(all@),
                lists_each_account_once(w, self.stored()),
                i <= all@.len(),
                forall|j: int| 0 <= j < i ==> w[j].username != username@,
            decreases all.len() - i,
        {
            if str_eq(all[i].username.as_str(), username) {
                let a = all[i].duplicate();
                assert(w[i as int] == a@);
                return Some(a);
            }
            i = i + 1;
        }
        assert forall|k: u128| #[trigger] self.stored().contains_key(k) implies self.stored()[k].username != username@ by {
            assert(w.contains(self.stored()[k]));
        }
        None
    }

    /// Saves `account` under its identifier, replacing any stored one; returns a copy of it.
    pub fn save(&mut self, account: Account) -> (r: Account)
        ensures
            r@ == account@,
            final(self).stored() == old(self).stored().insert(account@.id, account@),
    {
        proof {
            use_type_invariant(&*self);
        }
        let copy = account.duplicate();
        let mut m = HashMap::new();
        std::mem::swap(&mut m, &mut self.accounts);
        m.insert(account.id.as_u128(), account);
        self.accounts = m;
        assert(self.stored() =~= old(self).stored().insert(copy@.id, copy@));
        copy
    }
}

} // verus!
