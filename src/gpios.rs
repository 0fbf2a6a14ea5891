//! Handles of configured pins, kept by pin number.

use vstd::prelude::*;
use crate::config::ConfigError;

verus! {

/// Number of pins of the chip.
pub const NUM_MCU_PINS: usize = 30;

/// One slot per pin of the chip, holding the handle of a configured pin.
#[derive(Debug)]
pub struct IoPins<T> {
    pins: Vec<Option<T>>,
}

impl<T> View for IoPins<T> {
    type V = Seq<Option<T>>;

    closed spec fn view(&self) -> Seq<Option<T>> {
        self.pins@
    }
}

impl<T> IoPins<T> {
    pub closed spec fn wf(&self) -> bool {
        self.pins@.len() == NUM_MCU_PINS
    }

    /// No pin registered.
    pub fn new() -> (r: IoPins<T>)
        ensures
            r.wf(),
            r@.len() == NUM_MCU_PINS,
            forall|i: int| 0 <= i < NUM_MCU_PINS ==> #[trigger] r@[i] is None,
    {
        let mut pins: Vec<Option<T>> = Vec::new();
        let mut i: usize = 0;
        while i < NUM_MCU_PINS
            invariant
                i <= NUM_MCU_PINS,
                pins@.len() == i,
                forall|k: int| 0 <= k < i ==> #[trigger] pins@[k] is None,
            decreases NUM_MCU_PINS - i,
        {
            pins.push(None);
            i += 1;
        }
        IoPins { pins }
    }

    /// Stores the handle of pin `id`, replacing any earlier one.
    pub fn register(&mut self, id: u8, pin: T)
        requires
            old(self).wf(),
            (id as int) < NUM_MCU_PINS,
        ensures
            final(self).wf(),
            final(self)@ == old(self)@.update(id as int, Some(pin)),
    {
        self.pins.set(id as usize, Some(pin));
    }

    /// The handle of pin `id`: `OutOfBounds` for a number the chip does not
    /// have, `GpioNotFound` for a pin that was not registered.
    pub fn get(&mut self, id: u8) -> (r: Result<&mut T, ConfigError>)
        requires
            old(self).wf(),
        ensures
            (id as int) >= NUM_MCU_PINS ==> r is Err && r->Err_0 == ConfigError::OutOfBounds
                && final(self).wf() && final(self)@ == old(self)@,
            (id as int) < NUM_MCU_PINS && old(self)@[id as int] is None ==> r is Err && r->Err_0
                == ConfigError::GpioNotFound && final(self).wf() && final(self)@ == old(self)@,
            (id as int) < NUM_MCU_PINS && old(self)@[id as int] is Some ==> r is Ok && *r->Ok_0
                == old(self)@[id as int]->0 && final(self).wf() && final(self)@ == old(self)@.update(
                id as int,
                Some(*final(r->Ok_0)),
            ),
    {
        if id as usize >= NUM_MCU_PINS {
            return Err(ConfigError::OutOfBounds);
        }
        match self.pins[id as usize].as_mut() {
            Some(p) => Ok(p),
            None => Err(ConfigError::GpioNotFound),
        }
    }

    /// The handle of pin `id`, if the chip has that pin and it was registered.
    pub fn get_by_gpio_id(&mut self, id: u8) -> (r: Option<&mut T>)
        requires
            old(self).wf(),
        ensures
            ((id as int) >= NUM_MCU_PINS || old(self)@[id as int] is None) ==> r is None
                && final(self).wf() && final(self)@ == old(self)@,
            (id as int) < NUM_MCU_PINS && old(self)@[id as int] is Some ==> r is Some && *r->0
                == old(self)@[id as int]->0 && final(self).wf() && final(self)@ == old(self)@.update(
                id as int,
                Some(*final(r->0)),
            ),
    {
        if id as usize >= NUM_MCU_PINS {
            return None;
        }
        self.pins[id as usize].as_mut()
    }
}

} // verus!
