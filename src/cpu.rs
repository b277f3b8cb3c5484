//! The emulated processor's architectural state.
use vstd::prelude::*;

verus! {

/// Offset at which the boot sector is staged and first executed (segment 0).
pub const BOOT_OFFSET: u16 = 0x7C00;

/// The sixteen-bit registers of a real-mode processor.
///
/// The flags register is carried along but no modelled instruction reads or
/// writes it.
#[derive(Clone, Copy, Debug, PartialEq, Eq, Structural)]
pub struct Cpu {
    pub ax: u16,
    pub bx: u16,
    pub cx: u16,
    pub dx: u16,
    pub sp: u16,
    pub bp: u16,
    pub si: u16,
    pub di: u16,
    pub cs: u16,
    pub ip: u16,
    pub flags: u16,
}

/// The state in which execution of a freshly loaded boot sector begins.
pub open spec fn boot_state() -> Cpu {
    Cpu {
        ax: 0,
        bx: 0,
        cx: 0,
        dx: 0,
        sp: 0,
        bp: 0,
        si: 0,
        di: 0,
        cs: 0,
        ip: BOOT_OFFSET,
        flags: 0,
    }
}

/// Low byte of a sixteen-bit register.
pub open spec fn low_byte(x: u16) -> u8 {
    (x % 256) as u8
}

/// High byte of a sixteen-bit register.
pub open spec fn high_byte(x: u16) -> u8 {
    (x / 256) as u8
}

impl Cpu {
    /// Segment 0, offset 0x7C00, every other register zero.
    pub fn boot() -> (r: Cpu)
        ensures
            r == boot_state(),
    {
        Cpu {
            ax: 0,
            bx: 0,
            cx: 0,
            dx: 0,
            sp: 0,
            bp: 0,
            si: 0,
            di: 0,
            cs: 0,
            ip: BOOT_OFFSET,
            flags: 0,
        }
    }
}

} // verus!
