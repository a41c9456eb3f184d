//! Proof of existence: claims keyed by their own content, each with its
//! owner and the block at which the owner took it.

use vstd::prelude::*;

verus! {

/// Identifier of an account.
pub type AccountId = u64;

/// Height of a block.
pub type BlockNumber = u64;

/// What is fixed for a deployment.
#[derive(Clone, Copy, Debug, PartialEq, Eq)]
pub struct Config {
    /// The greatest number of bytes that a claim may have.
    pub max_claim_length: u32,
}

/// What went wrong in a transition; the state is then as it was.
#[derive(Clone, Copy, Debug, PartialEq, Eq)]
pub enum Error {
    /// The claim is registered already.
    ProofAlreadyExist,
    /// The claim has more bytes than the deployment allows.
    ClaimTooLong,
    /// The claim is not registered.
    ClaimNotExist,
    /// The caller does not own the claim.
    NotClaimOwner,
}

/// The record of a change, for readers outside the ledger.
#[derive(Clone, Debug, PartialEq, Eq)]
pub enum Event {
    /// The account registered the claim.
    ClaimCreated(AccountId, Vec<u8>),
    /// The account withdrew the claim.
    ClaimRevoked(AccountId, Vec<u8>),
}

/// An `Event` as a mathematical value.
pub enum Record {
    ClaimCreated(AccountId, Seq<u8>),
    ClaimRevoked(AccountId, Seq<u8>),
}

impl View for Event {
    type V = Record;

    open spec fn view(&self) -> Record {
        match *self {
            Event::ClaimCreated(who, claim) => Record::ClaimCreated(who, claim@),
            Event::ClaimRevoked(who, claim) => Record::ClaimRevoked(who, claim@),
        }
    }
}

/// The result of a transition that emits an event, as a mathematical value.
pub open spec fn outcome(r: Result<Event, Error>) -> Result<Record, Error> {
    match r {
        Ok(event) => Ok(event@),
        Err(e) => Err(e),
    }
}

/// The registry of claims as a mathematical value.
pub struct State {
    /// The greatest length of a claim.
    pub max_claim_length: u32,
    /// Owner and block of every registered claim, by the claim's bytes.
    pub proofs: Map<Seq<u8>, (AccountId, BlockNumber)>,
}

impl State {
    /// No registered claim is longer than the deployment allows.
    pub open spec fn wf(self) -> bool {
        forall|claim: Seq<u8>| #[trigger]
            self.proofs.contains_key(claim) ==> claim.len() <= self.max_claim_length
    }

    /// The registry of a deployment before the first transition.
    pub open spec fn empty(config: Config) -> State {
        State { max_claim_length: config.max_claim_length, proofs: Map::empty() }
    }

    /// Registers `claim` for `sender` at block `now`, unless it is too long
    /// or registered already.
    pub open spec fn create_claim(self, sender: AccountId, claim: Seq<u8>, now: BlockNumber) -> (
        State,
        Result<Record, Error>,
    ) {
        if claim.len() > self.max_claim_length {
            (self, Err(Error::ClaimTooLong))
        } else if self.proofs.contains_key(claim) {
            (self, Err(Error::ProofAlreadyExist))
        } else {
            (
                State { proofs: self.proofs.insert(claim, (sender, now)), ..self },
                Ok(Record::ClaimCreated(sender, claim)),
            )
        }
    }

    /// Withdraws `claim`, which `sender` must own.
    pub open spec fn revoke_claim(self, sender: AccountId, claim: Seq<u8>) -> (State, Result<Record, Error>) {
        if !self.proofs.contains_key(claim) {
            (self, Err(Error::ClaimNotExist))
        } else if self.proofs[claim].0 != sender {
            (self, Err(Error::NotClaimOwner))
        } else {
            (State { proofs: self.proofs.remove(claim), ..self }, Ok(Record::ClaimRevoked(sender, claim)))
        }
    }

    /// Hands `claim`, which `sender` must own, to `dest` at block `now`.
    pub open spec fn transfer_claim(self, sender: AccountId, claim: Seq<u8>, dest: AccountId, now: BlockNumber)
        -> (State, Result<(), Error>) {
        if !self.proofs.contains_key(claim) {
            (self, Err(Error::ClaimNotExist))
        } else if self.proofs[claim].0 != sender {
            (self, Err(Error::NotClaimOwner))
        } else {
            (State { proofs: self.proofs.insert(claim, (dest, now)), ..self }, Ok(()))
        }
    }
}

/// One registered claim.
#[derive(Clone, Debug, PartialEq, Eq)]
struct Proof {
    claim: Vec<u8>,
    owner: AccountId,
    block_number: BlockNumber,
}

/// Whether `claim` is the content of one of `entries`.
spec fn registered(entries: Seq<Proof>, claim: Seq<u8>) -> bool {
    exists|i: int| 0 <= i < entries.len() && #[trigger] entries[i].claim@ == claim
}

/// A position at which `claim` stands in `entries`.
spec fn position(entries: Seq<Proof>, claim: Seq<u8>) -> int {
    choose|i: int| 0 <= i < entries.len() && #[trigger] entries[i].claim@ == claim
}

/// No two of `entries` have the same content.
spec fn distinct(entries: Seq<Proof>) -> bool {
    forall|i: int, j: int|
        0 <= i < j < entries.len() ==> #[trigger] entries[i].claim@ != #[trigger] entries[j].claim@
}

/// The map from content to owner and block that `entries` stand for.
spec fn as_map(entries: Seq<Proof>) -> Map<Seq<u8>, (AccountId, BlockNumber)> {
    Map::new(
        |claim: Seq<u8>| registered(entries, claim),
        |claim: Seq<u8>| (entries[position(entries, claim)].owner, entries[position(entries, claim)].block_number),
    )
}

/// Among distinct entries, the position of an entry's content is its index.
proof fn lemma_position(entries: Seq<Proof>, i: int)
    requires
        distinct(entries),
        0 <= i < entries.len(),
    ensures
        registered(entries, entries[i].claim@),
        position(entries, entries[i].claim@) == i,
{
    let claim = entries[i].claim@;
    assert(entries[i].claim@ == claim);
    let p = position(entries, claim);
    assert(0 <= p < entries.len() && entries[p].claim@ == claim);
    if p < i {
        assert(entries[p].claim@ != entries[i].claim@);
    } else if i < p {
        assert(entries[i].claim@ != entries[p].claim@);
    }
}

/// Appending an entry with new content inserts it into the map.
proof fn lemma_push(entries: Seq<Proof>, entry: Proof)
    requires
        distinct(entries),
        !registered(entries, entry.claim@),
    ensures
        distinct(entries.push(entry)),
        as_map(entries.push(entry)) == as_map(entries).insert(entry.claim@, (entry.owner, entry.block_number)),
{
    let after = entries.push(entry);
    assert forall|i: int, j: int| 0 <= i < j < after.len() implies #[trigger] after[i].claim@
        != #[trigger] after[j].claim@ by {
        if j == entries.len() {
            assert(entries[i].claim@ == after[i].claim@);
        } else {
            assert(entries[i].claim@ != entries[j].claim@);
        }
    }
    let expected = as_map(entries).insert(entry.claim@, (entry.owner, entry.block_number));
    assert forall|claim: Seq<u8>| as_map(after).contains_key(claim) <==> expected.contains_key(claim) by {
        if registered(after, claim) {
            let p = position(after, claim);
            if p < entries.len() {
                assert(entries[p].claim@ == claim);
            }
        }
        if registered(entries, claim) {
            let p = position(entries, claim);
            assert(after[p].claim@ == claim);
        }
        if claim == entry.claim@ {
            assert(after[entries.len() as int].claim@ == claim);
        }
    }
    assert forall|claim: Seq<u8>| as_map(after).contains_key(claim) implies as_map(after)[claim]
        == expected[claim] by {
        let p = position(after, claim);
        lemma_position(after, p);
        if p < entries.len() {
            assert(entries[p].claim@ == claim);
            lemma_position(entries, p);
        }
    }
    assert(as_map(after) =~= expected);
}

/// Replacing an entry by one of the same content overwrites its value.
proof fn lemma_update(entries: Seq<Proof>, i: int, entry: Proof)
    requires
        distinct(entries),
        0 <= i < entries.len(),
        entry.claim@ == entries[i].claim@,
    ensures
        distinct(entries.update(i, entry)),
        as_map(entries.update(i, entry)) == as_map(entries).insert(
            entry.claim@,
            (entry.owner, entry.block_number),
        ),
{
    let after = entries.update(i, entry);
    assert forall|a: int, b: int| 0 <= a < b < after.len() implies #[trigger] after[a].claim@
        != #[trigger] after[b].claim@ by {
        assert(entries[a].claim@ != entries[b].claim@);
    }
    let expected = as_map(entries).insert(entry.claim@, (entry.owner, entry.block_number));
    assert forall|claim: Seq<u8>| as_map(after).contains_key(claim) <==> expected.contains_key(claim) by {
        if registered(after, claim) {
            let p = position(after, claim);
            assert(entries[p].claim@ == claim);
        }
        if registered(entries, claim) {
            let p = position(entries, claim);
            assert(after[p].claim@ == claim);
        }
        if claim == entry.claim@ {
            assert(after[i].claim@ == claim);
        }
    }
    assert forall|claim: Seq<u8>| as_map(after).contains_key(claim) implies as_map(after)[claim]
        == expected[claim] by {
        let p = position(after, claim);
        lemma_position(after, p);
        assert(entries[p].claim@ == claim);
        lemma_position(entries, p);
    }
    assert(as_map(after) =~= expected);
}

/// Taking an entry out removes its content from the map.
proof fn lemma_remove(entries: Seq<Proof>, i: int)
    requires
        distinct(entries),
        0 <= i < entries.len(),
    ensures
        distinct(entries.remove(i)),
        as_map(entries.remove(i)) == as_map(entries).remove(entries[i].claim@),
{
    let after = entries.remove(i);
    assert forall|a: int, b: int| 0 <= a < b < after.len() implies #[trigger] after[a].claim@
        != #[trigger] after[b].claim@ by {
        let a0 = if a < i { a } else { a + 1 };
        let b0 = if b < i { b } else { b + 1 };
        assert(entries[a0].claim@ != entries[b0].claim@);
    }
    let expected = as_map(entries).remove(entries[i].claim@);
    assert forall|claim: Seq<u8>| as_map(after).contains_key(claim) <==> expected.contains_key(claim) by {
        if registered(after, claim) {
            let p = position(after, claim);
            let p0 = if p < i { p } else { p + 1 };
            assert(entries[p0].claim@ == claim);
            lemma_position(entries, p0);
            lemma_position(entries, i);
        }
        if registered(entries, claim) && claim != entries[i].claim@ {
            let p = position(entries, claim);
            let p1 = if p < i { p } else { p - 1 };
            assert(after[p1].claim@ == claim);
        }
    }
    assert forall|claim: Seq<u8>| as_map(after).contains_key(claim) implies as_map(after)[claim]
        == expected[claim] by {
        let p = position(after, claim);
        lemma_position(after, p);
        let p0 = if p < i { p } else { p + 1 };
        assert(entries[p0].claim@ == claim);
        lemma_position(entries, p0);
    }
    assert(as_map(after) =~= expected);
}

/// Whether two byte strings are the same.
fn same_bytes(a: &[u8], b: &[u8]) -> (same: bool)
    ensures
        same == (a@ == b@),
{
    if a.len() != b.len() {
        return false;
    }
    let mut i: usize = 0;
    while i < a.len()
        invariant
            a.len() == b.len(),
            i <= a.len(),
            forall|j: int| 0 <= j < i ==> a@[j] == b@[j],
        decreases a.len() - i,
    {
        if a[i] != b[i] {
            return false;
        }
        i += 1;
    }
    assert(a@ =~= b@);
    true
}

/// The registry of claims of one deployment.
#[derive(Clone, Debug, PartialEq, Eq)]
pub struct Pallet {
    config: Config,
    proofs: Vec<Proof>,
}

impl View for Pallet {
    type V = State;

    closed spec fn view(&self) -> State {
        State { max_claim_length: self.config.max_claim_length, proofs: as_map(self.proofs@) }
    }
}

impl Pallet {
    /// The invariant of the registry: every claim is registered once, and
    /// none is longer than the deployment allows.
    pub closed spec fn wf(&self) -> bool {
        &&& distinct(self.proofs@)
        &&& self@.wf()
    }

    /// A valid registry has a valid value.
    pub proof fn lemma_wf(&self)
        requires
            self.wf(),
        ensures
            self@.wf(),
    {
    }

    /// An empty registry for a deployment.
    pub fn new(config: Config) -> (pallet: Pallet)
        ensures
            pallet.wf(),
            pallet@ == State::empty(config),
    {
        let pallet = Pallet { config, proofs: Vec::new() };
        assert(pallet@.proofs =~= Map::empty());
        pallet
    }

    /// The greatest number of bytes that a claim may have.
    pub fn max_claim_length(&self) -> (max: u32)
        ensures
            max == self@.max_claim_length,
    {
        self.config.max_claim_length
    }

    /// The index of the entry that holds `claim`, if it is registered.
    fn find(&self, claim: &[u8]) -> (found: Option<usize>)
        requires
            self.wf(),
        ensures
            found is Some <==> self@.proofs.contains_key(claim@),
            found matches Some(i) ==> i < self.proofs@.len() && self.proofs@[i as int].claim@ == claim@
                && self@.proofs[claim@] == (self.proofs@[i as int].owner, self.proofs@[i as int].block_number),
    {
        let mut i: usize = 0;
        while i < self.proofs.len()
            invariant
                self.wf(),
                i <= self.proofs@.len(),
                forall|j: int| 0 <= j < i ==> (#[trigger] self.proofs@[j]).claim@ != claim@,
            decreases self.proofs@.len() - i,
        {
            if same_bytes(self.proofs[i].claim.as_slice(), claim) {
                proof {
                    lemma_position(self.proofs@, i as int);
                }
                return Some(i);
            }
            i += 1;
        }
        assert(!registered(self.proofs@, claim@));
        None
    }

    /// Owner and block of `claim`, if it is registered.
    pub fn proofs(&self, claim: &[u8]) -> (proof_of: Option<(AccountId, BlockNumber)>)
        requires
            self.wf(),
        ensures
            proof_of == (if self@.proofs.contains_key(claim@) {
                Some(self@.proofs[claim@])
            } else {
                None
            }),
    {
        match self.find(claim) {
            Some(i) => Some((self.proofs[i].owner, self.proofs[i].block_number)),
            None => None,
        }
    }

    /// Registers `claim` for `sender` at `block_number`. A claim that is too
    /// long, or registered already, is refused.
    pub fn create_claim(&mut self, sender: AccountId, claim: Vec<u8>, block_number: BlockNumber) -> (r: Result<
        Event,
        Error,
    >)
        requires
            old(self).wf(),
        ensures
            final(self).wf(),
            (final(self)@, outcome(r)) == old(self)@.create_claim(sender, claim@, block_number),
    {
        if claim.len() > self.config.max_claim_length as usize {
            return Err(Error::ClaimTooLong);
        }
        if self.find(claim.as_slice()).is_some() {
            return Err(Error::ProofAlreadyExist);
        }
        let entry = Proof { claim: claim.clone(), owner: sender, block_number };
        proof {
            lemma_push(self.proofs@, entry);
        }
        self.proofs.push(entry);
        Ok(Event::ClaimCreated(sender, claim))
    }

    /// Withdraws `claim`, which `sender` must own.
    pub fn revoke_claim(&mut self, sender: AccountId, claim: Vec<u8>) -> (r: Result<Event, Error>)
        requires
            old(self).wf(),
        ensures
            final(self).wf(),
            (final(self)@, outcome(r)) == old(self)@.revoke_claim(sender, claim@),
    {
        match self.find(claim.as_slice()) {
            None => Err(Error::ClaimNotExist),
            Some(i) => {
                if self.proofs[i].owner != sender {
                    Err(Error::NotClaimOwner)
                } else {
                    proof {
                        lemma_remove(self.proofs@, i as int);
                    }
                    self.proofs.remove(i);
                    Ok(Event::ClaimRevoked(sender, claim))
                }
            },
        }
    }

    /// Hands `claim`, which `sender` must own, to `dest`; the claim's block
    /// becomes `block_number`.
    pub fn transfer_claim(&mut self, sender: AccountId, claim: Vec<u8>, dest: AccountId, block_number: BlockNumber)
        -> (r: Result<(), Error>)
        requires
            old(self).wf(),
        ensures
            final(self).wf(),
            (final(self)@, r) == old(self)@.transfer_claim(sender, claim@, dest, block_number),
    {
        match self.find(claim.as_slice()) {
            None => Err(Error::ClaimNotExist),
            Some(i) => {
                if self.proofs[i].owner != sender {
                    Err(Error::NotClaimOwner)
                } else {
                    let entry = Proof { claim, owner: dest, block_number };
                    proof {
                        lemma_update(self.proofs@, i as int, entry);
                    }
                    self.proofs.set(i, entry);
                    Ok(())
                }
            },
        }
    }
}

} // verus!
