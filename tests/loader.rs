use bootsim::cpu::Cpu;
use bootsim::loader::{load_boot_sector, new_memory, LoadError, LOAD_ADDRESS, MEMORY_SIZE};

fn signed_image(len: usize) -> Vec<u8> {
    let mut image: Vec<u8> = (0..len).map(|i| (i % 251) as u8).collect();
    image[510] = 0x55;
    image[511] = 0xAA;
    image
}

#[test]
fn new_memory_is_one_mebibyte_of_zeros() {
    let mem = new_memory();
    assert_eq!(mem.len(), MEMORY_SIZE);
    assert_eq!(mem.len(), 1024 * 1024);
    assert!(mem.iter().all(|b| *b == 0));
}

#[test]
fn empty_image_is_too_short() {
    let mut mem = new_memory();
    assert_eq!(load_boot_sector(&[], &mut mem), Err(LoadError::TooShort));
    assert!(mem.iter().all(|b| *b == 0));
}

#[test]
fn image_of_511_bytes_is_too_short_and_stages_nothing() {
    let mut image = vec![0x90u8; 511];
    image[510] = 0x55;
    let mut mem = new_memory();
    assert_eq!(load_boot_sector(&image, &mut mem), Err(LoadError::TooShort));
    assert!(mem.iter().all(|b| *b == 0));
}

#[test]
fn zero_signature_is_refused() {
    let image = vec![0u8; 512];
    let mut mem = new_memory();
    assert_eq!(load_boot_sector(&image, &mut mem), Err(LoadError::BadSignature));
    assert!(mem.iter().all(|b| *b == 0));
}

#[test]
fn swapped_signature_is_refused() {
    let mut image = vec![0u8; 512];
    image[510] = 0xAA;
    image[511] = 0x55;
    let mut mem = new_memory();
    assert_eq!(load_boot_sector(&image, &mut mem), Err(LoadError::BadSignature));
}

#[test]
fn half_signature_is_refused() {
    let mut image = vec![0u8; 512];
    image[510] = 0x55;
    image[511] = 0xAB;
    let mut mem = new_memory();
    assert_eq!(load_boot_sector(&image, &mut mem), Err(LoadError::BadSignature));
}

#[test]
fn valid_image_is_staged_at_7c00() {
    let image = signed_image(512);
    let mut mem = new_memory();
    let cpu = load_boot_sector(&image, &mut mem).unwrap();
    assert_eq!(&mem[0x7C00..0x7E00], &image[..]);
    assert_eq!(LOAD_ADDRESS, 0x7C00);
    assert!(mem[..0x7C00].iter().all(|b| *b == 0));
    assert!(mem[0x7E00..].iter().all(|b| *b == 0));
    assert_eq!(cpu, Cpu::boot());
    assert_eq!(cpu.cs, 0);
    assert_eq!(cpu.ip, 0x7C00);
    assert_eq!(
        (cpu.ax, cpu.bx, cpu.cx, cpu.dx, cpu.sp, cpu.bp, cpu.si, cpu.di, cpu.flags),
        (0, 0, 0, 0, 0, 0, 0, 0, 0)
    );
}

#[test]
fn bytes_past_the_sector_are_ignored() {
    let image = signed_image(1024);
    let mut mem = new_memory();
    assert!(load_boot_sector(&image, &mut mem).is_ok());
    assert_eq!(&mem[0x7C00..0x7E00], &image[..512]);
    assert!(mem[0x7E00..].iter().all(|b| *b == 0));
}

#[test]
fn loading_keeps_other_memory() {
    let image = signed_image(512);
    let mut mem = new_memory();
    mem[0] = 7;
    mem[0x7BFF] = 8;
    mem[0x7E00] = 9;
    assert!(load_boot_sector(&image, &mut mem).is_ok());
    assert_eq!((mem[0], mem[0x7BFF], mem[0x7E00]), (7, 8, 9));
}
