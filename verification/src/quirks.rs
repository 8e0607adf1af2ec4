//! The points on which historical interpreters disagree, as a
//! configuration chosen when the machine is built.

use vstd::prelude::*;

verus! {

/// One of the two historical behaviours of an instruction family.
#[derive(Clone, Copy, Debug, PartialEq, Eq, Structural)]
pub enum Variant {
    /// The behaviour of the first interpreters.
    Legacy,
    /// The behaviour that later interpreters settled on.
    Modern,
}

/// The variant in force for each instruction family that has two.
#[derive(Clone, Copy, Debug, PartialEq, Eq, Structural)]
pub struct Quirks {
    /// Shifts: `Legacy` shifts the value of Vy into Vx, `Modern` shifts Vx
    /// in place.
    pub shift: Variant,
    /// Jump with offset: `Legacy` adds V0 to the address, `Modern` adds the
    /// register that the address's top nibble names.
    pub jump: Variant,
    /// Register store and load: `Legacy` leaves the index register just past
    /// the last byte used, `Modern` leaves it unchanged.
    pub store_load: Variant,
}

impl Quirks {
    /// In-place shifts, jumps offset by V0, store and load that keep the
    /// index register.
    pub open spec fn standard() -> Quirks {
        Quirks { shift: Variant::Modern, jump: Variant::Legacy, store_load: Variant::Modern }
    }
}

impl Default for Quirks {
    fn default() -> (q: Quirks)
        ensures
            q == Quirks::standard(),
    {
        Quirks { shift: Variant::Modern, jump: Variant::Legacy, store_load: Variant::Modern }
    }
}

} // verus!
