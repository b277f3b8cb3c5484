//! Checking a boot image and staging it into memory.
use vstd::prelude::*;
use crate::cpu::{Cpu, boot_state};

verus! {

/// Size of the emulated memory: the whole real-mode address space, 1 MiB.
pub const MEMORY_SIZE: usize = 0x10_0000;

/// Size of a boot sector.
pub const SECTOR_SIZE: usize = 512;

/// Physical address at which the boot sector is staged (0000:7C00).
pub const LOAD_ADDRESS: usize = 0x7C00;

/// Why a boot image was refused.
#[derive(Clone, Copy, Debug, PartialEq, Eq, Structural)]
pub enum LoadError {
    /// The image holds fewer than 512 bytes.
    TooShort,
    /// Bytes 510 and 511 are not 0x55, 0xAA.
    BadSignature,
}

/// Whether bytes 510 and 511 of the image are the boot signature 0x55, 0xAA.
pub open spec fn has_signature(image: Seq<u8>) -> bool {
    image.len() >= SECTOR_SIZE && image[510] == 0x55 && image[511] == 0xAA
}

/// Memory `mem` with the first sector of `image` copied to the load address.
pub open spec fn staged(mem: Seq<u8>, image: Seq<u8>) -> Seq<u8> {
    mem.subrange(0, LOAD_ADDRESS as int) + image.subrange(0, SECTOR_SIZE as int) + mem.subrange(
        (LOAD_ADDRESS + SECTOR_SIZE) as int,
        mem.len() as int,
    )
}

/// A zero-filled memory of [`MEMORY_SIZE`] bytes.
pub fn new_memory() -> (r: Vec<u8>)
    ensures
        r@.len() == MEMORY_SIZE,
        forall|i: int| 0 <= i < MEMORY_SIZE ==> r@[i] == 0,
{
    vec![0u8; MEMORY_SIZE]
}

/// Checks a boot image and stages its first 512 bytes at 0000:7C00.
///
/// Fails with [`LoadError::TooShort`] when the image holds fewer than 512
/// bytes, and otherwise with [`LoadError::BadSignature`] when bytes 510 and
/// 511 are not 0x55, 0xAA; memory is then left untouched. On success it
/// returns the processor state in which execution begins. Bytes past the
/// first sector are ignored.
pub fn load_boot_sector(image: &[u8], mem: &mut Vec<u8>) -> (r: Result<Cpu, LoadError>)
    requires
        old(mem)@.len() == MEMORY_SIZE,
    ensures
        image@.len() < SECTOR_SIZE ==> r == Err::<Cpu, LoadError>(LoadError::TooShort),
        image@.len() >= SECTOR_SIZE && !has_signature(image@) ==> r == Err::<Cpu, LoadError>(
            LoadError::BadSignature,
        ),
        has_signature(image@) ==> r == Ok::<Cpu, LoadError>(boot_state()),
        r is Ok ==> final(mem)@ == staged(old(mem)@, image@),
        r is Err ==> final(mem)@ == old(mem)@,
{
    if image.len() < SECTOR_SIZE {
        return Err(LoadError::TooShort);
    }
    if image[510] != 0x55 || image[511] != 0xAA {
        return Err(LoadError::BadSignature);
    }
    let ghost before = mem@;
    let mut i: usize = 0;
    while i < SECTOR_SIZE
        invariant
            i <= SECTOR_SIZE,
            image@.len() >= SECTOR_SIZE,
            mem@.len() == MEMORY_SIZE,
            forall|k: int| 0 <= k < LOAD_ADDRESS ==> mem@[k] == before[k],
            forall|k: int| LOAD_ADDRESS + i <= k < MEMORY_SIZE ==> mem@[k] == before[k],
            forall|k: int| 0 <= k < i ==> mem@[LOAD_ADDRESS + k] == image@[k],
        decreases SECTOR_SIZE - i,
    {
        mem[LOAD_ADDRESS + i] = image[i];
        i = i + 1;
    }
    assert(mem@ =~= staged(before, image@));
    Ok(Cpu::boot())
}

} // verus!
