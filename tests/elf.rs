use mpsc_queue::{round_up_to_next_multiple, Assembler, LOAD_BASE};

fn u64_at(b: &[u8], off: usize) -> u64 {
    let mut v: u64 = 0;
    for i in 0..8 {
        v |= (b[off + i] as u64) << (8 * i);
    }
    v
}

fn u32_at(b: &[u8], off: usize) -> u32 {
    let mut v: u32 = 0;
    for i in 0..4 {
        v |= (b[off + i] as u32) << (8 * i);
    }
    v
}

#[test]
fn rounding_up_to_multiples() {
    assert_eq!(round_up_to_next_multiple(0, 16), 0);
    assert_eq!(round_up_to_next_multiple(1, 16), 16);
    assert_eq!(round_up_to_next_multiple(16, 16), 16);
    assert_eq!(round_up_to_next_multiple(4097, 4096), 8192);
    assert_eq!(round_up_to_next_multiple(7, 1), 7);
}

#[test]
fn syscall_appends_two_bytes() {
    let mut a = Assembler::default();
    a.op_syscall();
    a.op_syscall();
    assert_eq!(a.instructions, vec![0x0f, 0x05, 0x0f, 0x05]);
    assert!(a.rodata.is_empty());
    assert!(a.data.is_empty());
    assert_eq!(a.bss_size, 0);
}

#[test]
fn empty_image_layout() {
    let a = Assembler::default();
    let image = a.elf_image();
    // Section headers start at 0x1030, right after the 34-byte string table
    // at 0x1000 padded to 16; six entries of 64 bytes follow.
    assert_eq!(image.len(), 0x1030 + 6 * 64);
    assert_eq!(&image[0..4], b"\x7fELF");
    assert_eq!(image[4], 2);
    assert_eq!(image[5], 1);
    assert_eq!(u64_at(&image, 0x18), LOAD_BASE);
    assert_eq!(u64_at(&image, 0x20), 0x40);
    assert_eq!(u64_at(&image, 0x28), 0x1030);
    assert_eq!(&image[0x1000..0x1022], b"\0.text\0.rodata\0.data\0.bss\0.strtab\0");
    assert!(image[0xe8..0x1000].iter().all(|b| *b == 0));
}

#[test]
fn image_places_sections() {
    let mut a = Assembler::default();
    a.op_syscall();
    a.rodata = vec![1, 2, 3];
    a.data = vec![9; 20];
    a.bss_size = 5;
    let image = a.elf_image();
    assert_eq!(&image[0x1000..0x1002], &[0x0f, 0x05]);
    assert_eq!(&image[0x2000..0x2003], &[1, 2, 3]);
    assert_eq!(&image[0x3000..0x3014], &[9; 20][..]);
    // The string table follows .data at the next multiple of 16.
    assert_eq!(image[0x3020], 0);
    assert_eq!(image[0x3021], b'.');
    let e_shoff = u64_at(&image, 0x28) as usize;
    assert_eq!(e_shoff, 0x3050);
    assert_eq!(image.len(), e_shoff + 6 * 64);
    // Program header 1 (.text): PT_LOAD, R+X, offset 0x1000, two bytes.
    let ph = 0x40;
    assert_eq!(u32_at(&image, ph), 1);
    assert_eq!(u32_at(&image, ph + 4), 0x5);
    assert_eq!(u64_at(&image, ph + 8), 0x1000);
    assert_eq!(u64_at(&image, ph + 32), 2);
    // Program header 3 (.data + .bss): R+W, in memory 32 + 16 bytes.
    let ph3 = 0x40 + 2 * 0x38;
    assert_eq!(u32_at(&image, ph3 + 4), 0x6);
    assert_eq!(u64_at(&image, ph3 + 8), 0x3000);
    assert_eq!(u64_at(&image, ph3 + 16), LOAD_BASE + 0x2000);
    assert_eq!(u64_at(&image, ph3 + 32), 20);
    assert_eq!(u64_at(&image, ph3 + 40), 48);
    // Section header 4 (.bss): NOBITS at the string table's offset.
    let sh4 = e_shoff + 4 * 64;
    assert_eq!(u32_at(&image, sh4), 21);
    assert_eq!(u32_at(&image, sh4 + 4), 8);
    assert_eq!(u64_at(&image, sh4 + 24), 0x3020);
    assert_eq!(u64_at(&image, sh4 + 32), 5);
}
