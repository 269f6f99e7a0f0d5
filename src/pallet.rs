//! The registry: a primary table from filename to record, an index from owner to the
//! filenames it owns, and a count of records, changed together or not at all.
use std::collections::HashMap;
use vstd::prelude::*;

use crate::keymap::{
    filename_key, key_of, lemma_key_of_injective, AccountId, Digest, DispatchError, Error,
    Event, Filename, Keymap, Origin, ensure_signed, signer_of,
};

verus! {

broadcast use vstd::std_specs::hash::group_hash_axioms;

/// Deployment settings of the registry.
#[derive(Clone, Copy, Debug, PartialEq, Eq, Structural)]
pub struct Config {
    /// How many filenames a single account may own.
    pub max_acc_mappings_owned: u32,
}

/// The registry state.
pub struct Pallet {
    /// Number of records in existence.
    count_for_mappings: u64,
    /// Records, keyed by the integer key of their filename.
    acc_mappings: HashMap<u128, Keymap>,
    /// Filenames owned by each account, in order of registration.
    acc_mappings_owned: HashMap<AccountId, Vec<Filename>>,
    /// Capacity of each owner's entry.
    max_owned: u32,
    /// Events published so far, oldest first.
    events: Vec<Event>,
}

/// The outcome of the checks that precede a registration: the new count, or the refusal.
///
/// A duplicate filename is reported first, then a full counter, then a full owner entry.
pub open spec fn checked_outcome(already_registered: bool, count: int, owned_len: int, max_owned: int) -> Result<u64, Error> {
    if already_registered {
        Err(Error::DuplicateKeymap)
    } else if count >= u64::MAX {
        Err(Error::Overflow)
    } else if owned_len >= max_owned {
        Err(Error::TooManyOwned)
    } else {
        Ok((count + 1) as u64)
    }
}

/// Runs the checks that precede a registration: whether the filename is taken, whether
/// the count can grow, and whether the owner's entry has room. Returns the new count.
pub fn check_register(already_registered: bool, count: u64, owned_len: usize, max_owned: u32) -> (r: Result<u64, Error>)
    ensures
        r == checked_outcome(already_registered, count as int, owned_len as int, max_owned as int),
{
    if already_registered {
        return Err(Error::DuplicateKeymap);
    }
    let new_count = match count.checked_add(1) {
        Some(c) => c,
        None => {
            return Err(Error::Overflow);
        },
    };
    if owned_len >= max_owned as usize {
        return Err(Error::TooManyOwned);
    }
    Ok(new_count)
}

impl Pallet {
    /// The number of records.
    pub closed spec fn count(&self) -> int {
        self.count_for_mappings as int
    }

    /// The primary table: each registered filename with its record.
    pub closed spec fn records(&self) -> Map<Filename, Keymap> {
        Map::new(
            |f: Filename| self.acc_mappings@.contains_key(key_of(f)),
            |f: Filename| self.acc_mappings@[key_of(f)],
        )
    }

    /// The owner index: each account that owns a filename, with its filenames in order.
    pub closed spec fn owned(&self) -> Map<AccountId, Seq<Filename>> {
        Map::new(
            |a: AccountId| self.acc_mappings_owned@.contains_key(a),
            |a: AccountId| self.acc_mappings_owned@[a]@,
        )
    }

    /// The capacity of each owner's entry.
    pub closed spec fn max_owned(&self) -> int {
        self.max_owned as int
    }

    /// The events published so far, oldest first.
    pub closed spec fn events(&self) -> Seq<Event> {
        self.events@
    }

    /// The filenames that account `a` owns, in order of registration (empty if none).
    pub open spec fn owned_by(&self, a: AccountId) -> Seq<Filename> {
        if self.owned().contains_key(a) {
            self.owned()[a]
        } else {
            Seq::empty()
        }
    }

    /// How the tables are laid out: each record is stored under its filename's key.
    pub closed spec fn layout(&self) -> bool {
        forall|k: u128| #[trigger] self.acc_mappings@.contains_key(k)
            ==> key_of(self.acc_mappings@[k].filename) == k
    }

    /// The registry's invariant.
    pub open spec fn wf(&self) -> bool {
        &&& self.layout()
        &&& self.records().dom().finite()
        &&& self.count() == self.records().dom().len()
        &&& forall|f: Filename| #[trigger] self.records().contains_key(f)
            ==> self.records()[f].filename == f
                && self.owned_by(self.records()[f].owner).contains(f)
        &&& forall|a: AccountId| #[trigger] self.owned_by(a).len() <= self.max_owned()
        &&& forall|a: AccountId| #[trigger] self.owned_by(a).no_duplicates()
        &&& forall|a: AccountId, i: int| 0 <= i < self.owned_by(a).len()
            ==> self.records().contains_key(#[trigger] self.owned_by(a)[i])
                && self.records()[self.owned_by(a)[i]].owner == a
    }

    /// Why registering `f` for `owner` would be refused, if it would.
    pub open spec fn refusal(&self, owner: AccountId, f: Filename) -> Option<Error> {
        match checked_outcome(
            self.records().contains_key(f),
            self.count(),
            self.owned_by(owner).len() as int,
            self.max_owned(),
        ) {
            Ok(_) => None,
            Err(e) => Some(e),
        }
    }

    /// `post` is `pre` with the record `(f, d, owner)` committed and its event published.
    pub open spec fn committed(pre: Pallet, post: Pallet, owner: AccountId, f: Filename, d: Digest) -> bool {
        &&& post.records() == pre.records().insert(
            f,
            Keymap { filename: f, index_of_sha: d, owner },
        )
        &&& post.owned() == pre.owned().insert(owner, pre.owned_by(owner).push(f))
        &&& post.count() == pre.count() + 1
        &&& post.max_owned() == pre.max_owned()
        &&& post.events() == pre.events().push(Event::Created { filename: f, owner })
    }

    /// One registration of `f` with digest `d` by `owner` took `pre` to `post` and returned `r`:
    /// a refusal returns its error and leaves the state as it was; otherwise the record is
    /// committed and the filename returned.
    pub open spec fn registration(
        pre: Pallet,
        post: Pallet,
        owner: AccountId,
        f: Filename,
        d: Digest,
        r: Result<Filename, Error>,
    ) -> bool {
        match pre.refusal(owner, f) {
            Some(e) => r == Err::<Filename, Error>(e) && post == pre,
            None => r == Ok::<Filename, Error>(f) && Self::committed(pre, post, owner, f, d),
        }
    }

    /// Committing a record that passed the checks keeps the invariant.
    proof fn lemma_commit_keeps_wf(pre: Pallet, post: Pallet, owner: AccountId, f: Filename, d: Digest)
        requires
            pre.wf(),
            pre.refusal(owner, f) is None,
            Self::committed(pre, post, owner, f, d),
            post.layout(),
        ensures
            post.wf(),
    {
        let km = Keymap { filename: f, index_of_sha: d, owner };
        assert(post.records().dom() =~= pre.records().dom().insert(f));
        assert(!pre.owned_by(owner).contains(f)) by {
            if pre.owned_by(owner).contains(f) {
                let i = choose|i: int| 0 <= i < pre.owned_by(owner).len() && pre.owned_by(owner)[i] == f;
                assert(pre.records().contains_key(pre.owned_by(owner)[i]));
            }
        }
        assert forall|a: AccountId| #[trigger] post.owned_by(a) == if a == owner {
            pre.owned_by(owner).push(f)
        } else {
            pre.owned_by(a)
        } by {}
        assert forall|g: Filename| #[trigger] post.records().contains_key(g)
            implies post.records()[g].filename == g
                && post.owned_by(post.records()[g].owner).contains(g) by {
            if g != f {
                let a = pre.records()[g].owner;
                assert(pre.owned_by(a).contains(g));
                if a == owner {
                    let i = choose|i: int| 0 <= i < pre.owned_by(a).len() && pre.owned_by(a)[i] == g;
                    assert(post.owned_by(a)[i] == g);
                }
            } else {
                assert(post.owned_by(owner)[pre.owned_by(owner).len() as int] == f);
            }
        }
        assert forall|a: AccountId| #[trigger] post.owned_by(a).no_duplicates() by {
            assert(pre.owned_by(a).no_duplicates());
        }
        assert forall|a: AccountId| #[trigger] post.owned_by(a).len() <= post.max_owned() by {
            assert(pre.owned_by(a).len() <= pre.max_owned());
        }
        assert forall|a: AccountId, i: int| 0 <= i < post.owned_by(a).len()
            implies post.records().contains_key(#[trigger] post.owned_by(a)[i])
                && post.records()[post.owned_by(a)[i]].owner == a by {
            if a == owner && i == pre.owned_by(owner).len() {
            } else {
                assert(pre.records().contains_key(pre.owned_by(a)[i]));
                assert(pre.owned_by(a)[i] != f);
            }
        }
    }

    /// An empty registry whose owners may each own `config.max_acc_mappings_owned` filenames.
    pub fn new(config: Config) -> (p: Pallet)
        ensures
            p.wf(),
            p.count() == 0,
            p.records() == Map::<Filename, Keymap>::empty(),
            p.owned() == Map::<AccountId, Seq<Filename>>::empty(),
            p.max_owned() == config.max_acc_mappings_owned as int,
            p.events() == Seq::<Event>::empty(),
    {
        let p = Pallet {
            count_for_mappings: 0,
            acc_mappings: HashMap::new(),
            acc_mappings_owned: HashMap::new(),
            max_owned: config.max_acc_mappings_owned,
            events: Vec::new(),
        };
        assert(p.records() =~= Map::<Filename, Keymap>::empty());
        assert(p.owned() =~= Map::<AccountId, Seq<Filename>>::empty());
        p
    }

    /// Registers `curr_filename` with digest `curr_index_of_sha` for `curr_owner`.
    ///
    /// Refused with `DuplicateKeymap` if the filename is registered, else with `Overflow`
    /// if the count is at its largest value, else with `TooManyOwned` if the owner's entry
    /// is full; a refusal changes nothing. Otherwise the record is stored, the filename
    /// appended to the owner's entry, the count raised by one, a `Created` event
    /// published, and the filename returned.
    pub fn append_mapping(
        &mut self,
        curr_owner: &AccountId,
        curr_filename: Filename,
        curr_index_of_sha: Digest,
    ) -> (r: Result<Filename, Error>)
        requires
            old(self).wf(),
        ensures
            final(self).wf(),
            Self::registration(*old(self), *final(self), *curr_owner, curr_filename, curr_index_of_sha, r),
    {
        let key = filename_key(&curr_filename);
        let already_registered = self.acc_mappings.contains_key(&key);
        let owned_len: usize = match self.acc_mappings_owned.get(curr_owner) {
            Some(v) => v.len(),
            None => 0,
        };
        let new_count = match check_register(already_registered, self.count_for_mappings, owned_len, self.max_owned) {
            Ok(c) => c,
            Err(e) => {
                return Err(e);
            },
        };
        let ghost pre = *self;
        let mut list = match self.acc_mappings_owned.remove(curr_owner) {
            Some(v) => v,
            None => Vec::new(),
        };
        list.push(curr_filename);
        self.acc_mappings_owned.insert(*curr_owner, list);
        let keymap_obj = Keymap { owner: *curr_owner, filename: curr_filename, index_of_sha: curr_index_of_sha };
        self.acc_mappings.insert(key, keymap_obj);
        self.count_for_mappings = new_count;
        self.events.push(Event::Created { filename: curr_filename, owner: *curr_owner });
        proof {
            assert forall|g: Filename| key_of(g) == key_of(curr_filename) implies g == curr_filename by {
                lemma_key_of_injective(g, curr_filename);
            }
            assert(self.records() =~= pre.records().insert(curr_filename, keymap_obj));
            assert(self.owned() =~= pre.owned().insert(*curr_owner, pre.owned_by(*curr_owner).push(curr_filename)));
            Self::lemma_commit_keeps_wf(pre, *self, *curr_owner, curr_filename, curr_index_of_sha);
        }
        Ok(curr_filename)
    }

    /// The dispatchable call: registers `filename` for the account that signed `origin`.
    ///
    /// A call that is not signed by an account fails with `BadOrigin` and changes nothing;
    /// otherwise it behaves as `append_mapping`, with its refusal wrapped in `Module`.
    #[allow(non_snake_case)]
    pub fn create_Keymap(&mut self, origin: Origin, filename: Filename, index_of_sha: Digest) -> (r: Result<(), DispatchError>)
        requires
            old(self).wf(),
        ensures
            final(self).wf(),
            match signer_of(origin) {
                None => r == Err::<(), DispatchError>(DispatchError::BadOrigin) && *final(self) == *old(self),
                Some(who) => match old(self).refusal(who, filename) {
                    Some(e) => r == Err::<(), DispatchError>(DispatchError::Module(e)) && *final(self) == *old(self),
                    None => r == Ok::<(), DispatchError>(()) && Self::committed(*old(self), *final(self), who, filename, index_of_sha),
                },
            },
    {
        let sender = match ensure_signed(origin) {
            Ok(who) => who,
            Err(e) => {
                return Err(e);
            },
        };
        match self.append_mapping(&sender, filename, index_of_sha) {
            Ok(_) => Ok(()),
            Err(e) => Err(DispatchError::Module(e)),
        }
    }

    /// The number of records.
    pub fn count_for_mappings(&self) -> (n: u64)
        ensures
            n as int == self.count(),
    {
        self.count_for_mappings
    }

    /// The record registered under `filename`, if any.
    pub fn acc_mappings(&self, filename: &Filename) -> (r: Option<Keymap>)
        ensures
            match r {
                Some(k) => self.records().contains_key(*filename) && k == self.records()[*filename],
                None => !self.records().contains_key(*filename),
            },
    {
        let key = filename_key(filename);
        match self.acc_mappings.get(&key) {
            Some(k) => Some(*k),
            None => None,
        }
    }

    /// The filenames that `owner` owns, in order of registration.
    pub fn acc_mappings_owned(&self, owner: &AccountId) -> (r: Vec<Filename>)
        ensures
            r@ == self.owned_by(*owner),
    {
        let mut out: Vec<Filename> = Vec::new();
        match self.acc_mappings_owned.get(owner) {
            Some(v) => {
                let mut i: usize = 0;
                while i < v.len()
                    invariant
                        i <= v.len(),
                        v@ == self.owned_by(*owner),
                        out@ == v@.subrange(0, i as int),
                    decreases v.len() - i,
                {
                    out.push(v[i]);
                    i = i + 1;
                    assert(out@ =~= v@.subrange(0, i as int));
                }
                assert(out@ =~= v@);
            },
            None => {},
        }
        out
    }

    /// The capacity of each owner's entry.
    pub fn max_acc_mappings_owned(&self) -> (n: u32)
        ensures
            n as int == self.max_owned(),
    {
        self.max_owned
    }

    /// The events published so far, oldest first.
    pub fn deposited_events(&self) -> (r: &Vec<Event>)
        ensures
            r@ == self.events(),
    {
        &self.events
    }
}

} // verus!
