//! What holds of every run of the registry: properties of sequences of registrations,
//! proved from the contract of `Pallet::append_mapping`.
use vstd::prelude::*;

use crate::keymap::{AccountId, Digest, Error, Filename};
use crate::pallet::Pallet;

verus! {

/// One call of `append_mapping`: the caller, the filename and the digest.
pub type Call = (AccountId, Filename, Digest);

/// `states[0]`, `states[1]`, ... are the states that the calls in `calls` went through,
/// call `i` taking `states[i]` to `states[i + 1]` and returning `results[i]`.
pub open spec fn run(states: Seq<Pallet>, calls: Seq<Call>, results: Seq<Result<Filename, Error>>) -> bool {
    &&& states.len() == calls.len() + 1
    &&& results.len() == calls.len()
    &&& forall|i: int| 0 <= i < states.len() ==> (#[trigger] states[i]).wf()
    &&& forall|i: int| 0 <= i < calls.len() ==> Pallet::registration(
        states[i],
        states[i + 1],
        (#[trigger] calls[i]).0,
        calls[i].1,
        calls[i].2,
        results[i],
    )
}

/// How many of `results` are successes.
pub open spec fn successes(results: Seq<Result<Filename, Error>>) -> nat
    decreases results.len(),
{
    if results.len() == 0 {
        0
    } else {
        successes(results.drop_last()) + if results.last() is Ok { 1nat } else { 0nat }
    }
}

/// The filenames that account `o` has registered.
pub open spec fn registered_to(s: Pallet, o: AccountId) -> Set<Filename> {
    s.records().dom().filter(|f: Filename| s.records()[f].owner == o)
}

/// Along a run, no record is ever removed or changed.
pub proof fn lemma_records_kept(states: Seq<Pallet>, calls: Seq<Call>, results: Seq<Result<Filename, Error>>, i: int, j: int)
    requires
        run(states, calls, results),
        0 <= i <= j < states.len(),
    ensures
        states[i].records().submap_of(states[j].records()),
    decreases j - i,
{
    if i < j {
        lemma_records_kept(states, calls, results, i, j - 1);
        let c = calls[j - 1];
        if states[j - 1].refusal(c.0, c.1) is None {
            assert(!states[j - 1].records().contains_key(c.1));
        }
    }
}

/// Uniqueness: no filename is committed by two registrations of a run, and once one has
/// been committed, every later registration of it is refused as a duplicate and changes
/// nothing.
pub proof fn lemma_filename_committed_once(states: Seq<Pallet>, calls: Seq<Call>, results: Seq<Result<Filename, Error>>)
    requires
        run(states, calls, results),
    ensures
        forall|i: int, j: int| 0 <= i < j < calls.len() && results[i] is Ok && calls[j].1 == calls[i].1
            ==> results[j] == Err::<Filename, Error>(Error::DuplicateKeymap) && states[j + 1] == states[j],
        forall|i: int, j: int| 0 <= i < j < calls.len() && #[trigger] results[i] is Ok && #[trigger] results[j] is Ok
            ==> calls[i].1 != calls[j].1,
{
    assert forall|i: int, j: int| 0 <= i < j < calls.len() && results[i] is Ok && calls[j].1 == calls[i].1
        implies results[j] == Err::<Filename, Error>(Error::DuplicateKeymap) && states[j + 1] == states[j] by {
        let c = calls[i];
        assert(Pallet::registration(states[i], states[i + 1], c.0, c.1, c.2, results[i]));
        assert(states[i + 1].records().contains_key(c.1));
        lemma_records_kept(states, calls, results, i + 1, j);
        assert(Pallet::registration(states[j], states[j + 1], calls[j].0, calls[j].1, calls[j].2, results[j]));
    }
}

/// Counter correctness: along a run that starts from an empty count, the count equals
/// the number of registrations that succeeded.
pub proof fn lemma_count_is_successes(states: Seq<Pallet>, calls: Seq<Call>, results: Seq<Result<Filename, Error>>)
    requires
        run(states, calls, results),
        states[0].count() == 0,
    ensures
        states.last().count() == successes(results),
{
    lemma_count_prefix(states, calls, results, calls.len() as int);
    assert(results.subrange(0, calls.len() as int) =~= results);
}

proof fn lemma_count_prefix(states: Seq<Pallet>, calls: Seq<Call>, results: Seq<Result<Filename, Error>>, k: int)
    requires
        run(states, calls, results),
        0 <= k <= calls.len(),
    ensures
        states[k].count() == states[0].count() + successes(results.subrange(0, k)),
    decreases k,
{
    if k > 0 {
        lemma_count_prefix(states, calls, results, k - 1);
        assert(results.subrange(0, k).drop_last() =~= results.subrange(0, k - 1));
        let c = calls[k - 1];
        assert(Pallet::registration(states[k - 1], states[k], c.0, c.1, c.2, results[k - 1]));
    }
}

/// Capacity bound: the filenames registered to an account are exactly those in its owner
/// entry, and there are never more of them than the capacity.
pub proof fn lemma_owner_capacity(s: Pallet, o: AccountId)
    requires
        s.wf(),
    ensures
        registered_to(s, o) == s.owned_by(o).to_set(),
        registered_to(s, o).len() == s.owned_by(o).len(),
        registered_to(s, o).len() <= s.max_owned(),
{
    let l = s.owned_by(o);
    assert forall|f: Filename| registered_to(s, o).contains(f) <==> l.to_set().contains(f) by {
        if registered_to(s, o).contains(f) {
            assert(l.contains(f));
        }
        if l.to_set().contains(f) {
            let i = choose|i: int| 0 <= i < l.len() && l[i] == f;
            assert(s.records().contains_key(l[i]));
        }
    }
    assert(registered_to(s, o) =~= l.to_set());
    l.unique_seq_to_set();
}

/// Capacity bound: once an account has registered as many filenames as the capacity, its
/// next registration of a new filename is refused with `TooManyOwned` and changes nothing,
/// the count included. (A filename already taken is refused as a duplicate first, and a
/// count at its largest value as an overflow first.)
pub proof fn lemma_full_owner_refused(pre: Pallet, post: Pallet, o: AccountId, f: Filename, d: Digest, r: Result<Filename, Error>)
    requires
        pre.wf(),
        registered_to(pre, o).len() == pre.max_owned(),
        !pre.records().contains_key(f),
        pre.count() < u64::MAX,
        Pallet::registration(pre, post, o, f, d, r),
    ensures
        r == Err::<Filename, Error>(Error::TooManyOwned),
        post == pre,
        post.count() == pre.count(),
{
    lemma_owner_capacity(pre, o);
}

/// Idempotence of failure: a refused registration, repeated with the same inputs, is
/// refused with the same error and again changes nothing.
pub proof fn lemma_refusal_repeats(
    s0: Pallet,
    s1: Pallet,
    s2: Pallet,
    o: AccountId,
    f: Filename,
    d: Digest,
    e: Error,
    r: Result<Filename, Error>,
)
    requires
        Pallet::registration(s0, s1, o, f, d, Err(e)),
        Pallet::registration(s1, s2, o, f, d, r),
    ensures
        r == Err::<Filename, Error>(e),
        s2 == s1,
        s1 == s0,
{
}

} // verus!
