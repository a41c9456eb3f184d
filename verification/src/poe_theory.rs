//! What holds of the registry of claims over every state and every
//! sequence of transitions.

use crate::poe::{AccountId, BlockNumber, Error, Record, State};
use vstd::prelude::*;

verus! {

/// One transition of the registry with its arguments.
pub enum Call {
    Create { sender: AccountId, claim: Seq<u8>, now: BlockNumber },
    Revoke { sender: AccountId, claim: Seq<u8> },
    Transfer { sender: AccountId, claim: Seq<u8>, dest: AccountId, now: BlockNumber },
}

/// The state after `call` in the state `s`.
pub open spec fn step(s: State, call: Call) -> State {
    match call {
        Call::Create { sender, claim, now } => s.create_claim(sender, claim, now).0,
        Call::Revoke { sender, claim } => s.revoke_claim(sender, claim).0,
        Call::Transfer { sender, claim, dest, now } => s.transfer_claim(sender, claim, dest, now).0,
    }
}

/// The claim that `call` is about.
pub open spec fn subject(call: Call) -> Seq<u8> {
    match call {
        Call::Create { claim, .. } => claim,
        Call::Revoke { claim, .. } => claim,
        Call::Transfer { claim, .. } => claim,
    }
}

/// The state after `calls`, one after the other, from the state `s`.
pub open spec fn run(s: State, calls: Seq<Call>) -> State
    decreases calls.len(),
{
    if calls.len() == 0 {
        s
    } else {
        step(run(s, calls.drop_last()), calls.last())
    }
}

/// Every transition keeps the registry valid and the bound on claims as
/// it is.
pub proof fn lemma_step_preserves_wf(s: State, call: Call)
    requires
        s.wf(),
    ensures
        step(s, call).wf(),
        step(s, call).max_claim_length == s.max_claim_length,
{
}

/// Every sequence of transitions keeps the registry valid and the bound on
/// claims as it is.
pub proof fn lemma_run_preserves_wf(s: State, calls: Seq<Call>)
    requires
        s.wf(),
    ensures
        run(s, calls).wf(),
        run(s, calls).max_claim_length == s.max_claim_length,
    decreases calls.len(),
{
    if calls.len() > 0 {
        lemma_run_preserves_wf(s, calls.drop_last());
        lemma_step_preserves_wf(run(s, calls.drop_last()), calls.last());
    }
}

/// A claim is created exactly when it is short enough and not registered;
/// it then belongs to the sender at the block of the call. A claim that is
/// too long is refused before anything else is looked at.
pub proof fn lemma_create(s: State, sender: AccountId, claim: Seq<u8>, now: BlockNumber)
    ensures
        s.create_claim(sender, claim, now).1 is Ok <==> claim.len() <= s.max_claim_length
            && !s.proofs.contains_key(claim),
        s.create_claim(sender, claim, now).1 == Err::<Record, Error>(Error::ClaimTooLong) <==> claim.len()
            > s.max_claim_length,
        s.create_claim(sender, claim, now).1 == Err::<Record, Error>(Error::ProofAlreadyExist) <==> claim.len()
            <= s.max_claim_length && s.proofs.contains_key(claim),
        s.create_claim(sender, claim, now).1 is Err ==> s.create_claim(sender, claim, now).0 == s,
        s.create_claim(sender, claim, now).1 is Ok ==> s.create_claim(sender, claim, now).0.proofs.contains_key(
            claim,
        ) && s.create_claim(sender, claim, now).0.proofs[claim] == (sender, now),
{
}

/// Creating a claim a second time, by whomever and whenever, fails and
/// changes nothing.
pub proof fn lemma_create_twice(
    s: State,
    first: AccountId,
    second: AccountId,
    claim: Seq<u8>,
    now: BlockNumber,
    later: BlockNumber,
)
    requires
        s.create_claim(first, claim, now).1 is Ok,
    ensures
        ({
            let after = s.create_claim(first, claim, now).0;
            after.create_claim(second, claim, later) == (after, Err::<Record, Error>(Error::ProofAlreadyExist))
        }),
{
}

/// A registered claim stays registered through every sequence of calls in
/// which nobody revokes it.
pub proof fn lemma_registered_until_revoked(s: State, calls: Seq<Call>, claim: Seq<u8>)
    requires
        s.proofs.contains_key(claim),
        forall|k: int| 0 <= k < calls.len() ==> !(#[trigger] calls[k] matches Call::Revoke { claim: c, .. } && c == claim),
    ensures
        run(s, calls).proofs.contains_key(claim),
    decreases calls.len(),
{
    if calls.len() > 0 {
        let init = calls.drop_last();
        assert forall|k: int| 0 <= k < init.len() implies !(#[trigger] init[k] matches Call::Revoke { claim: c, .. } && c
            == claim) by {
            assert(init[k] == calls[k]);
        }
        lemma_registered_until_revoked(s, init, claim);
        assert(calls.last() == calls[calls.len() - 1]);
    }
}

/// Creating a claim fails with `ProofAlreadyExist` whenever the claim was
/// created before and nobody has revoked it since.
pub proof fn lemma_create_again_without_revoke(
    s: State,
    first: AccountId,
    second: AccountId,
    claim: Seq<u8>,
    now: BlockNumber,
    later: BlockNumber,
    between: Seq<Call>,
)
    requires
        s.wf(),
        s.create_claim(first, claim, now).1 is Ok,
        forall|k: int|
            0 <= k < between.len() ==> !(#[trigger] between[k] matches Call::Revoke { claim: c, .. } && c == claim),
    ensures
        ({
            let after = run(s.create_claim(first, claim, now).0, between);
            after.create_claim(second, claim, later) == (after, Err::<Record, Error>(Error::ProofAlreadyExist))
        }),
{
    let created = s.create_claim(first, claim, now).0;
    lemma_step_preserves_wf(s, Call::Create { sender: first, claim, now });
    lemma_registered_until_revoked(created, between, claim);
    lemma_run_preserves_wf(created, between);
}

/// Revoking or transferring a claim that is not registered fails with
/// `ClaimNotExist` and changes nothing.
pub proof fn lemma_absent_claim(s: State, sender: AccountId, claim: Seq<u8>, dest: AccountId, now: BlockNumber)
    requires
        !s.proofs.contains_key(claim),
    ensures
        s.revoke_claim(sender, claim) == (s, Err::<Record, Error>(Error::ClaimNotExist)),
        s.transfer_claim(sender, claim, dest, now) == (s, Err::<(), Error>(Error::ClaimNotExist)),
{
}

/// Revoking or transferring a claim of another account fails with
/// `NotClaimOwner` and changes nothing: the claim keeps its owner.
pub proof fn lemma_not_claim_owner(s: State, sender: AccountId, claim: Seq<u8>, dest: AccountId, now: BlockNumber)
    requires
        s.proofs.contains_key(claim),
        s.proofs[claim].0 != sender,
    ensures
        s.revoke_claim(sender, claim) == (s, Err::<Record, Error>(Error::NotClaimOwner)),
        s.transfer_claim(sender, claim, dest, now) == (s, Err::<(), Error>(Error::NotClaimOwner)),
{
}

/// The owner of a claim revokes it: the claim is then not registered, and
/// any account can create it again.
pub proof fn lemma_revoke(s: State, sender: AccountId, claim: Seq<u8>, anyone: AccountId, later: BlockNumber)
    requires
        s.wf(),
        s.proofs.contains_key(claim),
        s.proofs[claim].0 == sender,
    ensures
        s.revoke_claim(sender, claim).1 == Ok::<Record, Error>(Record::ClaimRevoked(sender, claim)),
        !s.revoke_claim(sender, claim).0.proofs.contains_key(claim),
        s.revoke_claim(sender, claim).0.create_claim(anyone, claim, later).1 is Ok,
{
}

/// The owner of a claim transfers it: the claim then belongs to `dest` at
/// the block of the transfer.
pub proof fn lemma_transfer(s: State, sender: AccountId, claim: Seq<u8>, dest: AccountId, now: BlockNumber)
    requires
        s.proofs.contains_key(claim),
        s.proofs[claim].0 == sender,
    ensures
        s.transfer_claim(sender, claim, dest, now).1 is Ok,
        s.transfer_claim(sender, claim, dest, now).0.proofs.contains_key(claim),
        s.transfer_claim(sender, claim, dest, now).0.proofs[claim] == (dest, now),
{
}

/// A transition leaves every claim but its own as it was.
pub proof fn lemma_other_claims_untouched(s: State, call: Call, other: Seq<u8>)
    requires
        other != subject(call),
    ensures
        step(s, call).proofs.contains_key(other) == s.proofs.contains_key(other),
        s.proofs.contains_key(other) ==> step(s, call).proofs[other] == s.proofs[other],
{
}

/// A registered claim changes its owner only by a transfer that its owner
/// makes, and leaves the registry only by a revocation that its owner
/// makes.
pub proof fn lemma_only_the_owner_disposes(s: State, call: Call, claim: Seq<u8>)
    requires
        s.proofs.contains_key(claim),
    ensures
        !step(s, call).proofs.contains_key(claim) ==> call == (Call::Revoke { sender: s.proofs[claim].0, claim }),
        step(s, call).proofs.contains_key(claim) && step(s, call).proofs[claim].0 != s.proofs[claim].0 ==> (
        call matches Call::Transfer { sender, claim: c, dest, .. } && c == claim && sender == s.proofs[claim].0
            && dest == step(s, call).proofs[claim].0),
{
}

} // verus!
