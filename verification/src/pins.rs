//! Pin model: the mapping from logical signals to bit positions in the
//! adapter's 8-bit control word, the composite direction bytes, and the
//! chip-select arbitration.
//!
//! Both chip-select lines are active low: a control byte *asserts* a
//! chip-select when the corresponding bit is clear.

use vstd::prelude::*;

verus! {

/// Chip-select 0; driving it low addresses the flash chip.
pub const PIN_CSN0: u8 = 0x01;
/// Chip-select 1; driving it low addresses the FPGA.
pub const PIN_CSN1: u8 = 0x02;
/// The SPI clock line.
pub const PIN_SCLK: u8 = 0x04;
/// Serial data from the device to the host; sampled, never driven.
pub const PIN_MISO: u8 = 0x08;
/// Serial data from the host to the device.
pub const PIN_MOSI: u8 = 0x10;
/// The FPGA's program-enable line.
pub const PIN_PROG: u8 = 0x20;

/// Direction byte with clock, data-out and both chip-selects driven as
/// outputs and program-enable left undriven.
pub const DIR_IDLE: u8 = 0x17;
/// Direction byte for programming: `DIR_IDLE` plus program-enable driven.
pub const DIR_PROG: u8 = 0x37;

/// The pin bit positions are pairwise disjoint, and the two composite
/// direction bytes are exactly the documented pin combinations.
pub proof fn lemma_pin_layout()
    ensures
        PIN_CSN0 & PIN_CSN1 == 0,
        PIN_CSN0 & PIN_SCLK == 0,
        PIN_CSN0 & PIN_MISO == 0,
        PIN_CSN0 & PIN_MOSI == 0,
        PIN_CSN0 & PIN_PROG == 0,
        PIN_CSN1 & PIN_SCLK == 0,
        PIN_CSN1 & PIN_MISO == 0,
        PIN_CSN1 & PIN_MOSI == 0,
        PIN_CSN1 & PIN_PROG == 0,
        PIN_SCLK & PIN_MISO == 0,
        PIN_SCLK & PIN_MOSI == 0,
        PIN_SCLK & PIN_PROG == 0,
        PIN_MISO & PIN_MOSI == 0,
        PIN_MISO & PIN_PROG == 0,
        PIN_MOSI & PIN_PROG == 0,
        DIR_IDLE == PIN_CSN0 | PIN_CSN1 | PIN_SCLK | PIN_MOSI,
        DIR_PROG == DIR_IDLE | PIN_PROG,
{
    assert(0x01u8 & 0x02u8 == 0 && 0x01u8 & 0x04u8 == 0 && 0x01u8 & 0x08u8 == 0
        && 0x01u8 & 0x10u8 == 0 && 0x01u8 & 0x20u8 == 0 && 0x02u8 & 0x04u8 == 0
        && 0x02u8 & 0x08u8 == 0 && 0x02u8 & 0x10u8 == 0 && 0x02u8 & 0x20u8 == 0
        && 0x04u8 & 0x08u8 == 0 && 0x04u8 & 0x10u8 == 0 && 0x04u8 & 0x20u8 == 0
        && 0x08u8 & 0x10u8 == 0 && 0x08u8 & 0x20u8 == 0 && 0x10u8 & 0x20u8 == 0
        && 0x17u8 == 0x01u8 | 0x02u8 | 0x04u8 | 0x10u8
        && 0x37u8 == 0x17u8 | 0x20u8) by (bit_vector);
}

/// The direction byte the adapter is configured with: `DIR_PROG` while the
/// program-enable line must be driven, `DIR_IDLE` otherwise.
pub open spec fn spec_direction_byte(program: bool) -> u8 {
    if program {
        DIR_PROG
    } else {
        DIR_IDLE
    }
}

/// Picks the adapter direction byte for entering or leaving program mode.
pub fn direction_byte(program: bool) -> (d: u8)
    ensures
        d == spec_direction_byte(program),
{
    if program {
        DIR_PROG
    } else {
        DIR_IDLE
    }
}

/// Exclusive choice of the addressed device.  Each variant maps to one
/// control byte, and no control byte of a variant ever asserts both
/// chip-selects, so at most one device is addressable at a time.
#[derive(Clone, Copy, PartialEq, Eq, Structural, Debug)]
pub enum DeviceSelect {
    Fpga,
    Flash,
    Idle,
}

impl DeviceSelect {
    /// The control byte this selection writes to the bus.  Chip-selects are
    /// active low, so the byte keeps the *other* line(s) high.
    pub open spec fn spec_byte(self) -> u8 {
        match self {
            DeviceSelect::Fpga => PIN_CSN0,
            DeviceSelect::Flash => PIN_CSN1,
            DeviceSelect::Idle => PIN_CSN0 | PIN_CSN1,
        }
    }

    /// Emits the control byte for this selection.
    pub fn byte(self) -> (b: u8)
        ensures
            b == self.spec_byte(),
    {
        match self {
            DeviceSelect::Fpga => PIN_CSN0,
            DeviceSelect::Flash => PIN_CSN1,
            DeviceSelect::Idle => PIN_CSN0 | PIN_CSN1,
        }
    }
}

/// Whether a control byte asserts (drives low) the flash chip-select.
pub open spec fn flash_asserted(b: u8) -> bool {
    b & PIN_CSN0 == 0
}

/// Whether a control byte asserts (drives low) the FPGA chip-select.
pub open spec fn fpga_asserted(b: u8) -> bool {
    b & PIN_CSN1 == 0
}

/// A control byte keeps the chip-selects mutually exclusive: it does not
/// drive both low at once.
pub open spec fn cs_exclusive(b: u8) -> bool {
    !(flash_asserted(b) && fpga_asserted(b))
}

/// No selection's control byte asserts both chip-selects.
pub proof fn lemma_selection_exclusive(d: DeviceSelect)
    ensures
        cs_exclusive(d.spec_byte()),
        !(flash_asserted(d.spec_byte()) && fpga_asserted(d.spec_byte())),
        d is Fpga ==> !flash_asserted(d.spec_byte()) && fpga_asserted(d.spec_byte()),
        d is Flash ==> flash_asserted(d.spec_byte()) && !fpga_asserted(d.spec_byte()),
        d is Idle ==> !flash_asserted(d.spec_byte()) && !fpga_asserted(d.spec_byte()),
{
    assert(0x01u8 & 0x01u8 != 0 && 0x01u8 & 0x02u8 == 0 && 0x02u8 & 0x01u8 == 0
        && 0x02u8 & 0x02u8 != 0 && (0x01u8 | 0x02u8) & 0x01u8 != 0
        && (0x01u8 | 0x02u8) & 0x02u8 != 0) by (bit_vector);
}

/// Mutual exclusion across re-selection.  The selector is idempotent and the
/// bus shows only the most recent control byte, so after `select(d1)`
/// followed by `select(d2)` the wire carries `d2.spec_byte()` — and that
/// byte, like every selection byte, never asserts both chip-selects, for any
/// pair of selections.
pub proof fn lemma_select_mutual_exclusion(d1: DeviceSelect, d2: DeviceSelect)
    ensures
        !(flash_asserted(d2.spec_byte()) && fpga_asserted(d2.spec_byte())),
        !(flash_asserted(d1.spec_byte()) && fpga_asserted(d1.spec_byte())),
{
    lemma_selection_exclusive(d1);
    lemma_selection_exclusive(d2);
}

} // verus!
