//! Kitties: identifier allocation, the registry with its owner index,
//! breeding and transfer of ownership.

use crate::randomness::{derive_seed, seed_of};
use std::collections::HashMap;
use vstd::prelude::*;

verus! {

broadcast use vstd::std_specs::hash::group_hash_axioms;

/// Identifier of a kitty.
pub type KittyId = u32;

/// Identifier of an account.
pub type AccountId = u64;

/// A kitty: sixteen bytes of genes, never changed once the kitty exists.
#[derive(Clone, Copy, Debug, PartialEq, Eq)]
pub struct Kitty(pub [u8; 16]);

/// The byte that a child gets at one position: each set bit of `selector`
/// takes the bit of `a`, each clear bit takes the bit of `b`.
pub open spec fn mix_byte(a: u8, b: u8, selector: u8) -> u8 {
    (a & selector) | (b & !selector)
}

/// The genes of the child of `a` and `b` under `selector`, byte by byte.
pub open spec fn mix_genes(a: Seq<u8>, b: Seq<u8>, selector: Seq<u8>) -> Seq<u8> {
    Seq::new(16, |i: int| mix_byte(a[i], b[i], selector[i]))
}

impl View for Kitty {
    type V = Seq<u8>;

    open spec fn view(&self) -> Seq<u8> {
        self.0@
    }
}

impl Default for Kitty {
    /// The kitty without parents: all genes zero.
    fn default() -> (kitty: Kitty)
        ensures
            kitty@ == genesis_genes(),
    {
        let kitty = Kitty([0u8; 16]);
        assert(kitty@ =~= genesis_genes());
        kitty
    }
}

impl Kitty {
    /// The child of `self` and `other`: at every position `i` its byte is
    /// `(self[i] & selector[i]) | (other[i] & !selector[i])`.
    pub fn breed_with(&self, other: &Kitty, selector: &[u8; 16]) -> (child: Kitty)
        ensures
            child@ == mix_genes(self@, other@, selector@),
    {
        let mut genes: [u8; 16] = [0u8; 16];
        let mut i: usize = 0;
        while i < 16
            invariant
                i <= 16,
                forall|j: int| 0 <= j < i ==> genes@[j] == mix_byte(self.0@[j], other.0@[j], selector@[j]),
            decreases 16 - i,
        {
            let byte: u8 = (self.0[i] & selector[i]) | (other.0[i] & !selector[i]);
            genes[i] = byte;
            i += 1;
        }
        Kitty(genes)
    }
}

/// What went wrong in a transition; the state is then as it was.
#[derive(Clone, Copy, Debug, PartialEq, Eq)]
pub enum Error {
    /// No kitty is registered under the identifier.
    InvalidKittyId,
    /// Both parents are the same kitty.
    SameKittyId,
    /// The identifier counter stands at its maximum.
    AllocationExhausted,
    /// The caller does not own the kitty.
    NotOwner,
}

/// The record of a change, for readers outside the ledger.
#[derive(Clone, Copy, Debug, PartialEq, Eq)]
pub enum Event {
    /// A kitty was registered under `kitty_id` with `who` as its owner.
    KittyCreated { who: AccountId, kitty_id: KittyId, kitty: Kitty },
}

/// An `Event` as a mathematical value.
pub struct Created {
    pub who: AccountId,
    pub kitty_id: KittyId,
    pub genes: Seq<u8>,
}

impl View for Event {
    type V = Created;

    open spec fn view(&self) -> Created {
        match *self {
            Event::KittyCreated { who, kitty_id, kitty } => Created { who, kitty_id, genes: kitty@ },
        }
    }
}

/// The result of a transition that emits an event, as a mathematical value.
pub open spec fn outcome(r: Result<Event, Error>) -> Result<Created, Error> {
    match r {
        Ok(event) => Ok(event@),
        Err(e) => Err(e),
    }
}

/// The ledger of kitties as a mathematical value.
pub struct State {
    /// The identifier that the next allocation hands out.
    pub next_kitty_id: KittyId,
    /// The genes of every kitty, by identifier.
    pub kitties: Map<KittyId, Seq<u8>>,
    /// The owner of every kitty, by identifier.
    pub kitty_owner: Map<KittyId, AccountId>,
}

/// The genes of a kitty made without parents.
pub open spec fn genesis_genes() -> Seq<u8> {
    Seq::new(16, |i: int| 0u8)
}

impl State {
    /// Every kitty has genes of sixteen bytes and exactly one owner, and
    /// the counter is above every identifier in use.
    pub open spec fn wf(self) -> bool {
        &&& self.kitties.dom() == self.kitty_owner.dom()
        &&& forall|id: KittyId| #[trigger]
            self.kitties.contains_key(id) ==> id < self.next_kitty_id && self.kitties[id].len() == 16
    }

    /// The ledger before the first transition.
    pub open spec fn empty() -> State {
        State { next_kitty_id: 0, kitties: Map::empty(), kitty_owner: Map::empty() }
    }

    /// Whether the ledger holds exactly `entries`, each an identifier with
    /// its kitty and its owner, and its counter stands at `next_kitty_id`.
    pub open spec fn holds(self, next_kitty_id: KittyId, entries: Seq<(KittyId, Kitty, AccountId)>) -> bool {
        &&& self.next_kitty_id == next_kitty_id
        &&& self.kitties.dom() == self.kitty_owner.dom()
        &&& forall|i: int|
            0 <= i < entries.len() ==> {
                let entry = #[trigger] entries[i];
                &&& self.kitties.contains_key(entry.0)
                &&& self.kitties[entry.0] == entry.1@
                &&& self.kitty_owner[entry.0] == entry.2
            }
        &&& forall|id: KittyId| #[trigger]
            self.kitties.contains_key(id) ==> exists|i: int|
                0 <= i < entries.len() && (#[trigger] entries[i]).0 == id
    }

    /// Hands out the counter's value and advances the counter by one; at
    /// the maximum nothing is handed out and nothing changes.
    pub open spec fn allocate(self) -> (State, Result<KittyId, Error>) {
        if self.next_kitty_id == u32::MAX {
            (self, Err(Error::AllocationExhausted))
        } else {
            (State { next_kitty_id: (self.next_kitty_id + 1) as u32, ..self }, Ok(self.next_kitty_id))
        }
    }

    /// Allocates an identifier and registers `genes` under it for `who`.
    pub open spec fn register(self, who: AccountId, genes: Seq<u8>) -> (State, Result<Created, Error>) {
        match self.allocate().1 {
            Ok(kitty_id) => (
                State {
                    next_kitty_id: self.allocate().0.next_kitty_id,
                    kitties: self.kitties.insert(kitty_id, genes),
                    kitty_owner: self.kitty_owner.insert(kitty_id, who),
                },
                Ok(Created { who, kitty_id, genes }),
            ),
            Err(e) => (self, Err(e)),
        }
    }

    /// Registers a kitty without parents for `who`.
    pub open spec fn create(self, who: AccountId) -> (State, Result<Created, Error>) {
        self.register(who, genesis_genes())
    }

    /// Registers for `who` the child of two distinct registered kitties.
    /// The parents are checked, in this order, before anything is allocated.
    pub open spec fn breed(self, who: AccountId, kitty_id_1: KittyId, kitty_id_2: KittyId, selector: Seq<u8>)
        -> (State, Result<Created, Error>) {
        if kitty_id_1 == kitty_id_2 {
            (self, Err(Error::SameKittyId))
        } else if !self.kitties.contains_key(kitty_id_1) || !self.kitties.contains_key(kitty_id_2) {
            (self, Err(Error::InvalidKittyId))
        } else {
            self.register(who, mix_genes(self.kitties[kitty_id_1], self.kitties[kitty_id_2], selector))
        }
    }

    /// Hands the kitty `kitty_id` from its owner `who` to `to`.
    pub open spec fn transfer(self, who: AccountId, kitty_id: KittyId, to: AccountId) -> (State, Result<(), Error>) {
        if !self.kitty_owner.contains_key(kitty_id) {
            (self, Err(Error::InvalidKittyId))
        } else if self.kitty_owner[kitty_id] != who {
            (self, Err(Error::NotOwner))
        } else {
            (State { kitty_owner: self.kitty_owner.insert(kitty_id, to), ..self }, Ok(()))
        }
    }
}

/// Whether `entries` can stand in one ledger under the counter
/// `next_kitty_id`: every identifier is below the counter and none occurs
/// twice.
pub open spec fn restorable(next_kitty_id: KittyId, entries: Seq<(KittyId, Kitty, AccountId)>) -> bool {
    &&& forall|i: int| 0 <= i < entries.len() ==> (#[trigger] entries[i]).0 < next_kitty_id
    &&& forall|i: int, j: int|
        0 <= i < j < entries.len() ==> (#[trigger] entries[i]).0 != (#[trigger] entries[j]).0
}

/// The ledger of kitties: the identifier counter, the registry of genes
/// and the owner index.
#[derive(Clone, Debug, PartialEq, Eq)]
pub struct Pallet {
    next_kitty_id: KittyId,
    kitties: HashMap<KittyId, Kitty>,
    kitty_owner: HashMap<KittyId, AccountId>,
}

impl View for Pallet {
    type V = State;

    closed spec fn view(&self) -> State {
        State {
            next_kitty_id: self.next_kitty_id,
            kitties: Map::new(|id: KittyId| self.kitties@.contains_key(id), |id: KittyId| self.kitties@[id]@),
            kitty_owner: self.kitty_owner@,
        }
    }
}

impl Pallet {
    /// The invariant of the ledger, stated on its value.
    pub open spec fn wf(&self) -> bool {
        self@.wf()
    }

    /// A ledger without kitties, whose counter stands at zero.
    pub fn new() -> (pallet: Pallet)
        ensures
            pallet.wf(),
            pallet@ == State::empty(),
    {
        let pallet = Pallet { next_kitty_id: 0, kitties: HashMap::new(), kitty_owner: HashMap::new() };
        assert(pallet@.kitties =~= Map::empty());
        pallet
    }

    /// The ledger that holds `entries` under the counter `next_kitty_id`,
    /// or nothing if an identifier is not below the counter or occurs twice.
    pub fn restore(next_kitty_id: KittyId, entries: &Vec<(KittyId, Kitty, AccountId)>) -> (pallet: Option<Pallet>)
        ensures
            pallet is Some <==> restorable(next_kitty_id, entries@),
            pallet matches Some(p) ==> p.wf() && p@.holds(next_kitty_id, entries@),
    {
        let mut pallet = Pallet { next_kitty_id, kitties: HashMap::new(), kitty_owner: HashMap::new() };
        assert(pallet@.kitties =~= Map::empty());
        let mut i: usize = 0;
        while i < entries.len()
            invariant
                i <= entries.len(),
                pallet.wf(),
                restorable(next_kitty_id, entries@.take(i as int)),
                pallet@.holds(next_kitty_id, entries@.take(i as int)),
            decreases entries.len() - i,
        {
            let (kitty_id, kitty, owner) = entries[i];
            let ghost done = entries@.take(i as int);
            let ghost upto = entries@.take(i + 1);
            let ghost before = pallet@;
            if kitty_id >= next_kitty_id || pallet.kitties.contains_key(&kitty_id) {
                proof {
                    if kitty_id < next_kitty_id {
                        assert(before.kitties.contains_key(kitty_id));
                        let j = choose|j: int| 0 <= j < done.len() && (#[trigger] done[j]).0 == kitty_id;
                        assert(entries@[j].0 == entries@[i as int].0);
                    }
                }
                return None;
            }
            pallet.kitties.insert(kitty_id, kitty);
            pallet.kitty_owner.insert(kitty_id, owner);
            proof {
                assert(pallet@.kitties =~= before.kitties.insert(kitty_id, kitty@));
                assert(pallet@.kitty_owner =~= before.kitty_owner.insert(kitty_id, owner));
                assert forall|a: int, b: int| 0 <= a < b < upto.len() implies (#[trigger] upto[a]).0 != (
                #[trigger] upto[b]).0 by {
                    if b == i {
                        assert(before.kitties.contains_key(done[a].0));
                    } else {
                        assert(done[a].0 != done[b].0);
                    }
                }
                assert forall|a: int| 0 <= a < upto.len() implies (#[trigger] upto[a]).0 < next_kitty_id by {
                    if a < i {
                        assert(done[a].0 < next_kitty_id);
                    }
                }
                assert forall|a: int| 0 <= a < upto.len() implies ({
                    let entry = #[trigger] upto[a];
                    &&& pallet@.kitties.contains_key(entry.0)
                    &&& pallet@.kitties[entry.0] == entry.1@
                    &&& pallet@.kitty_owner[entry.0] == entry.2
                }) by {
                    if a < i {
                        assert(done[a] == upto[a]);
                        assert(before.kitties.contains_key(done[a].0));
                    }
                }
                assert forall|id: KittyId| #[trigger] pallet@.kitties.contains_key(id) implies exists|a: int|
                    0 <= a < upto.len() && (#[trigger] upto[a]).0 == id by {
                    if id == kitty_id {
                        assert(upto[i as int].0 == id);
                    } else {
                        assert(before.kitties.contains_key(id));
                        let a = choose|a: int| 0 <= a < done.len() && (#[trigger] done[a]).0 == id;
                        assert(upto[a].0 == id);
                    }
                }
            }
            i += 1;
        }
        assert(entries@.take(i as int) =~= entries@);
        Some(pallet)
    }

    /// The identifier that the next allocation hands out.
    pub fn next_kitty_id(&self) -> (id: KittyId)
        ensures
            id == self@.next_kitty_id,
    {
        self.next_kitty_id
    }

    /// The kitty registered under `kitty_id`, if there is one.
    pub fn kitties(&self, kitty_id: KittyId) -> (kitty: Option<Kitty>)
        ensures
            kitty is Some <==> self@.kitties.contains_key(kitty_id),
            kitty matches Some(k) ==> k@ == self@.kitties[kitty_id],
    {
        match self.kitties.get(&kitty_id) {
            Some(kitty) => Some(*kitty),
            None => None,
        }
    }

    /// The owner of the kitty `kitty_id`, if the kitty is registered.
    pub fn kitty_owner(&self, kitty_id: KittyId) -> (owner: Option<AccountId>)
        ensures
            owner == (if self@.kitty_owner.contains_key(kitty_id) {
                Some(self@.kitty_owner[kitty_id])
            } else {
                None
            }),
    {
        match self.kitty_owner.get(&kitty_id) {
            Some(owner) => Some(*owner),
            None => None,
        }
    }

    /// Allocates the next identifier. At the maximum of the counter the
    /// allocation fails and the counter stays.
    pub fn get_next_id(&mut self) -> (r: Result<KittyId, Error>)
        requires
            old(self).wf(),
        ensures
            final(self).wf(),
            (final(self)@, r) == old(self)@.allocate(),
    {
        let current: KittyId = self.next_kitty_id;
        if current == u32::MAX {
            Err(Error::AllocationExhausted)
        } else {
            self.next_kitty_id = current + 1;
            assert(self@.kitties =~= old(self)@.kitties);
            Ok(current)
        }
    }

    /// Allocates an identifier and registers `kitty` under it for `who`.
    fn register(&mut self, who: AccountId, kitty: Kitty) -> (r: Result<Event, Error>)
        requires
            old(self).wf(),
        ensures
            final(self).wf(),
            (final(self)@, outcome(r)) == old(self)@.register(who, kitty@),
    {
        match self.get_next_id() {
            Ok(kitty_id) => {
                self.kitties.insert(kitty_id, kitty);
                self.kitty_owner.insert(kitty_id, who);
                assert(self@.kitties =~= old(self)@.kitties.insert(kitty_id, kitty@));
                Ok(Event::KittyCreated { who, kitty_id, kitty })
            },
            Err(e) => Err(e),
        }
    }

    /// Registers a kitty without parents, with all genes zero, for `who`.
    pub fn create(&mut self, who: AccountId) -> (r: Result<Event, Error>)
        requires
            old(self).wf(),
        ensures
            final(self).wf(),
            (final(self)@, outcome(r)) == old(self)@.create(who),
    {
        self.register(who, Kitty::default())
    }

    /// Registers for `who` the child of the kitties `kitty_id_1` and
    /// `kitty_id_2` under `selector`.
    pub fn breed_with_selector(
        &mut self,
        who: AccountId,
        kitty_id_1: KittyId,
        kitty_id_2: KittyId,
        selector: &[u8; 16],
    ) -> (r: Result<Event, Error>)
        requires
            old(self).wf(),
        ensures
            final(self).wf(),
            (final(self)@, outcome(r)) == old(self)@.breed(who, kitty_id_1, kitty_id_2, selector@),
    {
        if kitty_id_1 == kitty_id_2 {
            return Err(Error::SameKittyId);
        }
        let kitty_1 = match self.kitties(kitty_id_1) {
            Some(kitty) => kitty,
            None => { return Err(Error::InvalidKittyId); },
        };
        let kitty_2 = match self.kitties(kitty_id_2) {
            Some(kitty) => kitty,
            None => { return Err(Error::InvalidKittyId); },
        };
        let child = kitty_1.breed_with(&kitty_2, selector);
        self.register(who, child)
    }

    /// Registers for `who` the child of the kitties `kitty_id_1` and
    /// `kitty_id_2`. The selector is the seed derived from `entropy`, the
    /// caller and `call_index`.
    pub fn breed(
        &mut self,
        who: AccountId,
        kitty_id_1: KittyId,
        kitty_id_2: KittyId,
        entropy: &[u8],
        call_index: u32,
    ) -> (r: Result<Event, Error>)
        requires
            old(self).wf(),
        ensures
            final(self).wf(),
            (final(self)@, outcome(r)) == old(self)@.breed(
                who,
                kitty_id_1,
                kitty_id_2,
                seed_of(entropy@, who, call_index),
            ),
    {
        let selector = derive_seed(entropy, who, call_index);
        self.breed_with_selector(who, kitty_id_1, kitty_id_2, &selector)
    }

    /// Hands the kitty `kitty_id` from `who` to `to`. Only the owner index
    /// changes, and only at `kitty_id`.
    pub fn transfer(&mut self, who: AccountId, kitty_id: KittyId, to: AccountId) -> (r: Result<(), Error>)
        requires
            old(self).wf(),
        ensures
            final(self).wf(),
            (final(self)@, r) == old(self)@.transfer(who, kitty_id, to),
    {
        match self.kitty_owner(kitty_id) {
            None => Err(Error::InvalidKittyId),
            Some(owner) => {
                if owner != who {
                    Err(Error::NotOwner)
                } else {
                    self.kitty_owner.insert(kitty_id, to);
                    assert(self@.kitties =~= old(self)@.kitties);
                    assert(self@.kitty_owner.dom() =~= old(self)@.kitty_owner.dom());
                    Ok(())
                }
            },
        }
    }
}

} // verus!
