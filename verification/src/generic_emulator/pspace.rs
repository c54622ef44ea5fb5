//! PSPACE: memory outside the core that a warrior keeps between rounds.
//!
//! Warriors that name the same pin share one PSPACE, except for the cell at
//! index 0, which every warrior has to itself.

use crate::emulator_core::{CoreAddr, EmulatorError, EmulatorResult, ErrorKind};
use std::collections::HashMap;
use vstd::prelude::*;

verus! {

broadcast use vstd::std_specs::hash::group_hash_axioms;

/// Holds the pin of each warrior and the cells of each PSPACE.
pub struct PSpace {
    /// Number of cells in each PSPACE.
    pspace_size: u32,
    /// The pin of each warrior that has a PSPACE.
    warrior_to_pin: HashMap<u64, u64>,
    /// The cell at index 0 of each warrior, which is not shared.
    zero_index_values: HashMap<u64, CoreAddr>,
    /// The cells of each PSPACE, by pin.  The cell at index 0 is unused.
    pin_to_pspace: HashMap<u64, Vec<CoreAddr>>,
}

/// What a [`PSpace`] holds.
pub struct PSpaceView {
    /// Number of cells in each PSPACE.
    pub size: nat,
    /// The pin of each warrior that has a PSPACE.
    pub pins: Map<u64, u64>,
    /// The unshared cell at index 0 of each warrior.
    pub zero: Map<u64, CoreAddr>,
    /// The shared cells of each PSPACE, by pin.
    pub pages: Map<u64, Seq<CoreAddr>>,
}

impl PSpaceView {
    /// A PSPACE store of `size` cells per pin, without pins or warriors.
    pub open spec fn empty(size: nat) -> PSpaceView {
        PSpaceView { size, pins: Map::empty(), zero: Map::empty(), pages: Map::empty() }
    }

    /// Every PSPACE has `size` cells, and every warrior with a pin has a
    /// PSPACE under that pin and a cell at index 0 of its own.
    pub open spec fn wf(self) -> bool {
        &&& forall|pin: u64| #[trigger]
            self.pages.contains_key(pin) ==> self.pages[pin].len() == self.size
        &&& forall|w: u64| #[trigger]
            self.pins.contains_key(w) ==> self.pages.contains_key(self.pins[w])
        &&& forall|w: u64| self.pins.contains_key(w) <==> #[trigger] self.zero.contains_key(w)
    }

    /// Every value held is less than `bound`.
    pub open spec fn bounded(self, bound: int) -> bool {
        &&& forall|w: u64| #[trigger] self.zero.contains_key(w) ==> self.zero[w] < bound
        &&& forall|pin: u64, i: int|
            self.pages.contains_key(pin) && 0 <= i < self.pages[pin].len()
                ==> #[trigger] self.pages[pin][i] < bound
    }

    /// The pin of `warrior_id`, if the warrior can reach the shared cell at
    /// `location`.
    pub open spec fn shared_pin(self, location: CoreAddr, warrior_id: u64) -> Option<u64> {
        if self.pins.contains_key(warrior_id) && self.pages.contains_key(self.pins[warrior_id])
            && location < self.pages[self.pins[warrior_id]].len() {
            Some(self.pins[warrior_id])
        } else {
            None
        }
    }

    /// What `warrior_id` reads at `location`, or `None` if it has no cell
    /// there.
    pub open spec fn read(self, location: CoreAddr, warrior_id: u64) -> Option<CoreAddr> {
        if location >= self.size {
            None
        } else if location == 0 {
            if self.zero.contains_key(warrior_id) {
                Some(self.zero[warrior_id])
            } else {
                None
            }
        } else {
            match self.shared_pin(location, warrior_id) {
                Some(pin) => Some(self.pages[pin][location as int]),
                None => None,
            }
        }
    }

    /// The store after `warrior_id` wrote `value` at `location`, or `None` if
    /// it has no cell there.
    pub open spec fn write(self, location: CoreAddr, value: CoreAddr, warrior_id: u64) -> Option<
        PSpaceView,
    > {
        if location >= self.size {
            None
        } else if location == 0 {
            if self.zero.contains_key(warrior_id) {
                Some(PSpaceView { zero: self.zero.insert(warrior_id, value), ..self })
            } else {
                None
            }
        } else {
            match self.shared_pin(location, warrior_id) {
                Some(pin) => Some(
                    PSpaceView {
                        pages: self.pages.insert(
                            pin,
                            self.pages[pin].update(location as int, value),
                        ),
                        ..self
                    },
                ),
                None => None,
            }
        }
    }

    /// The store after a PSPACE of zeros was allocated under `pin`.
    pub open spec fn add_pspace(self, pin: u64) -> PSpaceView {
        PSpaceView {
            pages: self.pages.insert(pin, Seq::new(self.size, |i: int| 0u32)),
            ..self
        }
    }

    /// The store after `warrior_id` was given the PSPACE under `pin`.  A
    /// warrior that had no cell at index 0 gets one that holds zero; one that
    /// had a cell keeps it with what it holds.
    pub open spec fn assign_pspace(self, warrior_id: u64, pin: u64) -> PSpaceView {
        PSpaceView {
            pins: self.pins.insert(warrior_id, pin),
            zero: if self.zero.contains_key(warrior_id) {
                self.zero
            } else {
                self.zero.insert(warrior_id, 0)
            },
            ..self
        }
    }
}

impl View for PSpace {
    type V = PSpaceView;

    closed spec fn view(&self) -> PSpaceView {
        PSpaceView {
            size: self.pspace_size as nat,
            pins: self.warrior_to_pin@,
            zero: self.zero_index_values@,
            pages: Map::new(
                |pin: u64| self.pin_to_pspace@.contains_key(pin),
                |pin: u64| self.pin_to_pspace@[pin]@,
            ),
        }
    }
}

impl PSpace {
    /// Construct a PSPACE store without pins or warriors.
    pub fn new(pspace_size: u32) -> (r: Self)
        ensures
            r@ == PSpaceView::empty(pspace_size as nat),
            r@.wf(),
    {
        let r = Self {
            pspace_size,
            warrior_to_pin: HashMap::new(),
            zero_index_values: HashMap::new(),
            pin_to_pspace: HashMap::new(),
        };
        assert(r@.pages =~= Map::empty());
        r
    }

    /// The number of cells in each PSPACE.
    pub fn size(&self) -> (r: u32)
        ensures
            r == self@.size,
    {
        self.pspace_size
    }

    /// Read the value at `location` in the PSPACE of `warrior_id`.
    ///
    /// # Errors
    ///
    /// Returns [`EmulatorError::InvalidParam`] if `location` is not an index
    /// of a PSPACE, or if the warrior has no PSPACE.
    pub fn read(&self, location: CoreAddr, warrior_id: u64) -> (r: EmulatorResult<CoreAddr>)
        ensures
            match self@.read(location, warrior_id) {
                Some(value) => r == Ok::<CoreAddr, EmulatorError>(value),
                None => r matches Err(e) && e.kind() == ErrorKind::InvalidParam,
            },
    {
        if location >= self.pspace_size {
            return Err(EmulatorError::InvalidParam("invalid pspace reference"));
        }
        if location == 0 {
            return match self.zero_index_values.get(&warrior_id) {
                Some(value) => Ok(*value),
                None => Err(EmulatorError::InvalidParam("invalid pspace reference")),
            };
        }
        let Some(pin) = self.warrior_to_pin.get(&warrior_id) else {
            return Err(EmulatorError::InvalidParam("invalid pspace reference"));
        };
        let Some(pspace) = self.pin_to_pspace.get(pin) else {
            return Err(EmulatorError::InvalidParam("invalid pspace reference"));
        };
        let index = location as usize;
        if index < pspace.len() {
            Ok(pspace[index])
        } else {
            Err(EmulatorError::InvalidParam("invalid pspace reference"))
        }
    }

    /// Write `value` to `location` in the PSPACE of `warrior_id`.
    ///
    /// # Errors
    ///
    /// Returns [`EmulatorError::InvalidParam`] if `location` is not an index
    /// of a PSPACE, or if the warrior has no PSPACE.  Nothing is written then.
    pub fn write(&mut self, location: CoreAddr, value: CoreAddr, warrior_id: u64) -> (r:
        EmulatorResult<()>)
        ensures
            old(self)@.wf() ==> final(self)@.wf(),
            match old(self)@.write(location, value, warrior_id) {
                Some(written) => r is Ok && final(self)@ == written,
                None => (r matches Err(e) && e.kind() == ErrorKind::InvalidParam) && final(self)@
                    == old(self)@,
            },
    {
        if location >= self.pspace_size {
            return Err(EmulatorError::InvalidParam("invalid pspace reference"));
        }
        if location == 0 {
            if self.zero_index_values.contains_key(&warrior_id) {
                self.zero_index_values.insert(warrior_id, value);
                return Ok(());
            }
            return Err(EmulatorError::InvalidParam("invalid pspace reference"));
        }
        let pin = match self.warrior_to_pin.get(&warrior_id) {
            Some(pin) => *pin,
            None => {
                return Err(EmulatorError::InvalidParam("invalid pspace reference"));
            },
        };
        let index = location as usize;
        match self.pin_to_pspace.remove(&pin) {
            Some(mut pspace) => {
                if index < pspace.len() {
                    pspace.set(index, value);
                    self.pin_to_pspace.insert(pin, pspace);
                    assert(self@.pages =~= old(self)@.pages.insert(
                        pin,
                        old(self)@.pages[pin].update(location as int, value),
                    ));
                    Ok(())
                } else {
                    self.pin_to_pspace.insert(pin, pspace);
                    assert(self@.pages =~= old(self)@.pages);
                    Err(EmulatorError::InvalidParam("invalid pspace reference"))
                }
            },
            None => {
                assert(self@.pages =~= old(self)@.pages);
                Err(EmulatorError::InvalidParam("invalid pspace reference"))
            },
        }
    }

    /// Allocate a PSPACE of zeros under `pin`.
    ///
    /// # Errors
    ///
    /// Returns [`EmulatorError::InternalError`] if there is a PSPACE under
    /// this pin already.  Nothing changes then.
    pub fn add_pspace(&mut self, pin: u64) -> (r: EmulatorResult<()>)
        ensures
            old(self)@.wf() ==> final(self)@.wf(),
            old(self)@.pages.contains_key(pin) ==> (r matches Err(e) && e.kind()
                == ErrorKind::InternalError) && final(self)@ == old(self)@,
            !old(self)@.pages.contains_key(pin) ==> r is Ok && final(self)@ == old(self)@.add_pspace(pin),
    {
        if self.pin_to_pspace.contains_key(&pin) {
            return Err(EmulatorError::InternalError("a pspace already exists with this PIN"));
        }
        let size = self.pspace_size as usize;
        let mut cells: Vec<CoreAddr> = Vec::new();
        let mut i: usize = 0;
        while i < size
            invariant
                i <= size,
                cells@.len() == i,
                forall|k: int| 0 <= k < i ==> cells@[k] == 0,
            decreases size - i,
        {
            cells.push(0);
            i += 1;
        }
        assert(cells@ =~= Seq::new(self@.size, |i: int| 0u32));
        self.pin_to_pspace.insert(pin, cells);
        assert(self@.pages =~= old(self)@.add_pspace(pin).pages);
        Ok(())
    }

    /// Give a warrior the PSPACE under `pin`, and a cell at index 0 that holds
    /// zero if it has none yet.
    ///
    /// # Errors
    ///
    /// Returns [`EmulatorError::InternalError`] if there is no PSPACE under
    /// this pin.  Nothing changes then.
    pub fn assign_pspace(&mut self, warrior_id: u64, pin: u64) -> (r: EmulatorResult<()>)
        ensures
            old(self)@.wf() ==> final(self)@.wf(),
            !old(self)@.pages.contains_key(pin) ==> (r matches Err(e) && e.kind()
                == ErrorKind::InternalError) && final(self)@ == old(self)@,
            old(self)@.pages.contains_key(pin) ==> r is Ok && final(self)@ == old(self)@.assign_pspace(warrior_id, pin),
    {
        if !self.pin_to_pspace.contains_key(&pin) {
            return Err(EmulatorError::InternalError("no pspace exists with this PIN"));
        }
        self.warrior_to_pin.insert(warrior_id, pin);
        if !self.zero_index_values.contains_key(&warrior_id) {
            self.zero_index_values.insert(warrior_id, 0);
        }
        proof {
            if old(self)@.wf() {
                assert(self@.pages =~= old(self)@.pages);
                assert forall|w: u64|
                    self@.pins.contains_key(w) <==> #[trigger] self@.zero.contains_key(w) by {
                    assert(old(self)@.pins.contains_key(w) <==> old(self)@.zero.contains_key(w));
                }
                assert forall|w: u64| #[trigger]
                    self@.pins.contains_key(w) implies self@.pages.contains_key(self@.pins[w]) by {
                    if w != warrior_id {
                        assert(old(self)@.pins.contains_key(w));
                    }
                }
            }
        }
        Ok(())
    }
}

/// Writing a bounded value keeps a well-formed, bounded store so.
pub proof fn lemma_write_keeps(
    store: PSpaceView,
    location: CoreAddr,
    value: CoreAddr,
    warrior_id: u64,
    bound: int,
)
    requires
        store.wf(),
        store.bounded(bound),
        value < bound,
        store.write(location, value, warrior_id) is Some,
    ensures
        store.write(location, value, warrior_id)->0.wf(),
        store.write(location, value, warrior_id)->0.bounded(bound),
        store.write(location, value, warrior_id)->0.size == store.size,
{
    let written = store.write(location, value, warrior_id)->0;
    if location == 0 {
        assert forall|w: u64| store.pins.contains_key(w) <==> #[trigger] written.zero.contains_key(
            w,
        ) by {
            assert(store.pins.contains_key(w) <==> store.zero.contains_key(w));
        }
    }
}

} // verus!
