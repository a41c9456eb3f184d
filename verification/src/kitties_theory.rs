//! What holds of the kitties ledger over every state and every sequence of
//! transitions.

use crate::kitties::{mix_genes, AccountId, Created, Error, KittyId, State};
use vstd::prelude::*;

verus! {

/// One transition of the ledger with its arguments.
pub enum Call {
    GetNextId,
    Create { who: AccountId },
    Breed { who: AccountId, kitty_id_1: KittyId, kitty_id_2: KittyId, selector: Seq<u8> },
    Transfer { who: AccountId, kitty_id: KittyId, to: AccountId },
}

/// The state after `call` in the state `s`.
pub open spec fn step(s: State, call: Call) -> State {
    match call {
        Call::GetNextId => s.allocate().0,
        Call::Create { who } => s.create(who).0,
        Call::Breed { who, kitty_id_1, kitty_id_2, selector } => s.breed(who, kitty_id_1, kitty_id_2, selector).0,
        Call::Transfer { who, kitty_id, to } => s.transfer(who, kitty_id, to).0,
    }
}

/// The identifier that `call` is given in the state `s`, if it is given one.
pub open spec fn allocated(s: State, call: Call) -> Option<KittyId> {
    match call {
        Call::GetNextId => match s.allocate().1 {
            Ok(id) => Some(id),
            Err(_) => None,
        },
        Call::Create { who } => match s.create(who).1 {
            Ok(created) => Some(created.kitty_id),
            Err(_) => None,
        },
        Call::Breed { who, kitty_id_1, kitty_id_2, selector } => match s.breed(
            who,
            kitty_id_1,
            kitty_id_2,
            selector,
        ).1 {
            Ok(created) => Some(created.kitty_id),
            Err(_) => None,
        },
        Call::Transfer { .. } => None,
    }
}

/// The state after `calls`, one after the other, from the state `s`.
pub open spec fn run(s: State, calls: Seq<Call>) -> State
    decreases calls.len(),
{
    if calls.len() == 0 {
        s
    } else {
        step(run(s, calls.drop_last()), calls.last())
    }
}

/// An allocation fails exactly when the counter stands at its maximum, and
/// then the state is as before; otherwise it hands out the counter's value
/// and the counter is one higher.
pub proof fn lemma_allocate(s: State)
    ensures
        s.allocate().1 is Err <==> s.next_kitty_id == u32::MAX,
        s.allocate().1 is Err ==> s.allocate().0 == s && s.allocate().1 == Err::<KittyId, Error>(
            Error::AllocationExhausted,
        ),
        s.allocate().1 matches Ok(id) ==> id == s.next_kitty_id && s.allocate().0.next_kitty_id == id + 1
            && s.allocate().0.kitties == s.kitties && s.allocate().0.kitty_owner == s.kitty_owner,
{
}

/// Creating a kitty fails exactly when the counter stands at its maximum;
/// then nothing is registered and the counter stays.
pub proof fn lemma_create_fails_only_at_maximum(s: State, who: AccountId)
    ensures
        s.create(who).1 is Err <==> s.next_kitty_id == u32::MAX,
        s.create(who).1 is Err ==> s.create(who).0 == s,
        s.create(who).1 matches Ok(created) ==> created.kitty_id == s.next_kitty_id && created.who == who
            && s.create(who).0.kitties.contains_key(created.kitty_id) && s.create(who).0.kitty_owner[created.kitty_id]
            == who,
{
}

/// A transition that fails leaves the state as it was.
pub proof fn lemma_failure_changes_nothing(
    s: State,
    who: AccountId,
    kitty_id_1: KittyId,
    kitty_id_2: KittyId,
    selector: Seq<u8>,
    to: AccountId,
)
    ensures
        s.allocate().1 is Err ==> s.allocate().0 == s,
        s.create(who).1 is Err ==> s.create(who).0 == s,
        s.breed(who, kitty_id_1, kitty_id_2, selector).1 is Err ==> s.breed(
            who,
            kitty_id_1,
            kitty_id_2,
            selector,
        ).0 == s,
        s.transfer(who, kitty_id_1, to).1 is Err ==> s.transfer(who, kitty_id_1, to).0 == s,
{
}

/// Every transition keeps the ledger valid.
pub proof fn lemma_step_preserves_wf(s: State, call: Call)
    requires
        s.wf(),
    ensures
        step(s, call).wf(),
{
    let t = step(s, call);
    assert(t.kitties.dom() =~= t.kitty_owner.dom());
}

/// A transition never lowers the counter. It raises the counter by one
/// exactly when it is given an identifier, and that identifier is the
/// counter's value before.
pub proof fn lemma_step_counter(s: State, call: Call)
    ensures
        s.next_kitty_id <= step(s, call).next_kitty_id,
        allocated(s, call) matches Some(id) ==> id == s.next_kitty_id && step(s, call).next_kitty_id == id + 1,
        allocated(s, call) is None ==> step(s, call).next_kitty_id == s.next_kitty_id,
{
}

/// Every sequence of transitions keeps the ledger valid.
pub proof fn lemma_run_preserves_wf(s: State, calls: Seq<Call>)
    requires
        s.wf(),
    ensures
        run(s, calls).wf(),
    decreases calls.len(),
{
    if calls.len() > 0 {
        lemma_run_preserves_wf(s, calls.drop_last());
        lemma_step_preserves_wf(run(s, calls.drop_last()), calls.last());
    }
}

/// The counter after a longer prefix of `calls` is not below the counter
/// after a shorter one.
pub proof fn lemma_counter_never_decreases(s: State, calls: Seq<Call>, i: int, j: int)
    requires
        0 <= i <= j <= calls.len(),
    ensures
        run(s, calls.take(i)).next_kitty_id <= run(s, calls.take(j)).next_kitty_id,
    decreases j - i,
{
    if i < j {
        lemma_counter_never_decreases(s, calls, i, j - 1);
        assert(calls.take(j).drop_last() =~= calls.take(j - 1));
        lemma_step_counter(run(s, calls.take(j - 1)), calls.take(j).last());
    }
}

/// Identifiers are handed out in strictly increasing order: of two calls
/// in a sequence that are each given an identifier, the later one is given
/// the greater. So no identifier is handed out twice.
pub proof fn lemma_ids_strictly_increase(s: State, calls: Seq<Call>, i: int, j: int)
    requires
        0 <= i < j < calls.len(),
        allocated(run(s, calls.take(i)), calls[i]) is Some,
        allocated(run(s, calls.take(j)), calls[j]) is Some,
    ensures
        allocated(run(s, calls.take(i)), calls[i])->0 < allocated(run(s, calls.take(j)), calls[j])->0,
{
    lemma_step_counter(run(s, calls.take(i)), calls[i]);
    lemma_step_counter(run(s, calls.take(j)), calls[j]);
    assert(calls.take(i + 1).drop_last() =~= calls.take(i));
    assert(calls.take(i + 1).last() == calls[i]);
    lemma_counter_never_decreases(s, calls, i + 1, j);
}

/// An identifier that is handed out was not registered before, and lies
/// above every identifier registered before.
pub proof fn lemma_allocated_id_is_fresh(s: State, call: Call, id: KittyId)
    requires
        s.wf(),
        allocated(s, call) is Some,
        s.kitties.contains_key(id),
    ensures
        id < allocated(s, call)->0,
{
}

/// A kitty, once registered, stays registered with the same genes.
pub proof fn lemma_kitties_are_immutable(s: State, call: Call, id: KittyId)
    requires
        s.wf(),
        s.kitties.contains_key(id),
    ensures
        step(s, call).kitties.contains_key(id),
        step(s, call).kitties[id] == s.kitties[id],
{
}

/// Breeding a kitty with itself fails, whatever the selector and whether
/// or not the kitty is registered, and changes nothing.
pub proof fn lemma_breed_same_parent(s: State, who: AccountId, kitty_id: KittyId, selector: Seq<u8>)
    ensures
        s.breed(who, kitty_id, kitty_id, selector) == (s, Err::<Created, Error>(Error::SameKittyId)),
{
}

/// Breeding is refused exactly for equal parents, for a parent that is not
/// registered, and at the maximum of the counter, in this order.
pub proof fn lemma_breed_errors(s: State, who: AccountId, kitty_id_1: KittyId, kitty_id_2: KittyId, selector: Seq<u8>)
    ensures
        s.breed(who, kitty_id_1, kitty_id_2, selector).1 == Err::<Created, Error>(Error::SameKittyId) <==> kitty_id_1
            == kitty_id_2,
        s.breed(who, kitty_id_1, kitty_id_2, selector).1 == Err::<Created, Error>(Error::InvalidKittyId)
            <==> kitty_id_1 != kitty_id_2 && !(s.kitties.contains_key(kitty_id_1) && s.kitties.contains_key(
            kitty_id_2,
        )),
        s.breed(who, kitty_id_1, kitty_id_2, selector).1 == Err::<Created, Error>(Error::AllocationExhausted)
            <==> kitty_id_1 != kitty_id_2 && s.kitties.contains_key(kitty_id_1) && s.kitties.contains_key(
            kitty_id_2,
        ) && s.next_kitty_id == u32::MAX,
        s.breed(who, kitty_id_1, kitty_id_2, selector).1 matches Ok(created) ==> created.who == who
            && created.kitty_id == s.next_kitty_id && created.genes == mix_genes(
            s.kitties[kitty_id_1],
            s.kitties[kitty_id_2],
            selector,
        ),
{
}

/// Breeding the same parents under the same selector again gives a child
/// with the same genes, unless the counter has reached its maximum.
pub proof fn lemma_breed_is_reproducible(
    s: State,
    who_1: AccountId,
    who_2: AccountId,
    kitty_id_1: KittyId,
    kitty_id_2: KittyId,
    selector: Seq<u8>,
)
    requires
        s.wf(),
        s.breed(who_1, kitty_id_1, kitty_id_2, selector).1 is Ok,
    ensures
        ({
            let (after, first) = s.breed(who_1, kitty_id_1, kitty_id_2, selector);
            let second = after.breed(who_2, kitty_id_1, kitty_id_2, selector).1;
            &&& second is Err ==> second == Err::<Created, Error>(Error::AllocationExhausted)
            &&& second matches Ok(child) ==> child.genes == first->Ok_0.genes && child.kitty_id
                == first->Ok_0.kitty_id + 1
        }),
{
}

/// A transfer succeeds exactly when the kitty is registered and `who` owns
/// it. Then the owner of that kitty is `to`, and nothing else has changed.
/// A transfer that fails changes nothing.
pub proof fn lemma_transfer(s: State, who: AccountId, kitty_id: KittyId, to: AccountId, other: KittyId)
    requires
        other != kitty_id,
    ensures
        s.transfer(who, kitty_id, to).1 is Ok <==> s.kitty_owner.contains_key(kitty_id) && s.kitty_owner[kitty_id]
            == who,
        s.transfer(who, kitty_id, to).1 == Err::<(), Error>(Error::InvalidKittyId) <==> !s.kitty_owner.contains_key(
            kitty_id,
        ),
        s.transfer(who, kitty_id, to).1 == Err::<(), Error>(Error::NotOwner) <==> s.kitty_owner.contains_key(
            kitty_id,
        ) && s.kitty_owner[kitty_id] != who,
        s.transfer(who, kitty_id, to).1 is Err ==> s.transfer(who, kitty_id, to).0 == s,
        s.transfer(who, kitty_id, to).1 is Ok ==> s.transfer(who, kitty_id, to).0.kitty_owner[kitty_id] == to,
        s.transfer(who, kitty_id, to).0.kitty_owner.dom() == s.kitty_owner.dom(),
        s.kitty_owner.contains_key(other) ==> s.transfer(who, kitty_id, to).0.kitty_owner[other]
            == s.kitty_owner[other],
        s.transfer(who, kitty_id, to).0.kitties == s.kitties,
        s.transfer(who, kitty_id, to).0.next_kitty_id == s.next_kitty_id,
{
    assert(s.transfer(who, kitty_id, to).0.kitty_owner.dom() =~= s.kitty_owner.dom());
}

/// The owner of a kitty changes only by a transfer of that kitty which its
/// owner makes.
pub proof fn lemma_owner_changes_only_by_transfer(s: State, call: Call, id: KittyId)
    requires
        s.wf(),
        s.kitty_owner.contains_key(id),
        step(s, call).kitty_owner[id] != s.kitty_owner[id],
    ensures
        call matches Call::Transfer { who, kitty_id, to } && kitty_id == id && who == s.kitty_owner[id] && to
            == step(s, call).kitty_owner[id],
{
}

} // verus!
