//! Building a static x86-64 ELF64 executable image from the bytes of its
//! sections.
//!
//! The image starts with the ELF header at 0x0 and the program header table at
//! 0x40 (three `PT_LOAD` entries ending at 0xe8). `.text` starts at 0x1000;
//! `.rodata` and `.data` each start at the next multiple of 4096; the string
//! table of section names follows at the next multiple of 16, and the section
//! header table (null, `.text`, `.rodata`, `.data`, `.bss`, `.strtab`) at the
//! next multiple of 16 after that. The gaps are zero bytes.
//!
//! File offset `x` is loaded at `LOAD_BASE + (x - 0x1000)`. The loads map
//! `.text` readable and executable, `.rodata` readable, and `.data` readable
//! and writable, the last one extended in memory to cover `.bss` (`.data`
//! padded to 16 bytes, then `.bss`, padded to 16 bytes), which the loader
//! fills with zeros.
use vstd::prelude::*;

verus! {

/// Virtual address at which `.text` is loaded, and the entry point.
pub const LOAD_BASE: u64 = 0x400000;

/// File offset of `.text`.
pub const TEXT_OFF: u64 = 0x1000;

/// Alignment of the loaded sections in the file and in memory.
pub const PAGE_SIZE: u64 = 4096;

/// File offset just past the program header table: the ELF header (0x40
/// bytes) and three program headers of 0x38 bytes each.
pub const HEADERS_END: u64 = 0xe8;

pub const PF_X: u32 = 0x1;

pub const PF_W: u32 = 0x2;

pub const PF_R: u32 = 0x4;

pub const SHF_WRITE: u64 = 0x1;

pub const SHF_ALLOC: u64 = 0x2;

pub const SHF_EXECINSTR: u64 = 0x4;

pub const SHF_STRINGS: u64 = 0x20;

pub const SHT_PROGBITS: u32 = 1;

pub const SHT_STRTAB: u32 = 3;

pub const SHT_NOBITS: u32 = 8;

/// Length of the section name string table.
pub const STRTAB_LEN: u64 = 34;

/// Offsets of the section names within the string table.
pub const NAME_TEXT: u32 = 1;

pub const NAME_RODATA: u32 = 7;

pub const NAME_DATA: u32 = 15;

pub const NAME_BSS: u32 = 21;

pub const NAME_STRTAB: u32 = 26;

/// The section name string table: `"\0.text\0.rodata\0.data\0.bss\0.strtab\0"`.
pub open spec fn strtab_bytes() -> Seq<u8> {
    seq![
        0u8, 46, 116, 101, 120, 116, 0, 46, 114, 111, 100, 97, 116, 97, 0, 46, 100, 97, 116, 97, 0,
        46, 98, 115, 115, 0, 46, 115, 116, 114, 116, 97, 98, 0,
    ]
}

/// The smallest multiple of `m` that is at least `x`, for positive `m`.
pub open spec fn round_up(x: int, m: int) -> int {
    x + m - 1 - (x + m - 1) % m
}

/// The `n` low bytes of `x`, least significant first.
pub open spec fn le_bytes(x: nat, n: nat) -> Seq<u8>
    decreases n,
{
    if n == 0 {
        Seq::empty()
    } else {
        seq![(x % 256) as u8] + le_bytes(x / 256, (n - 1) as nat)
    }
}

/// `n` zero bytes.
pub open spec fn zeros(n: nat) -> Seq<u8> {
    Seq::new(n, |i: int| 0u8)
}

pub open spec fn rodata_off(t: nat) -> int {
    round_up(TEXT_OFF + t, PAGE_SIZE as int)
}

pub open spec fn data_off(t: nat, r: nat) -> int {
    round_up(rodata_off(t) + r, PAGE_SIZE as int)
}

pub open spec fn strtab_off(t: nat, r: nat, d: nat) -> int {
    round_up(data_off(t, r) + d, 16)
}

pub open spec fn shoff(t: nat, r: nat, d: nat) -> int {
    round_up(strtab_off(t, r, d) + STRTAB_LEN, 16)
}

/// Size in memory of the writable load: `.data` padded to 16, then `.bss`,
/// padded to 16.
pub open spec fn rw_load_size(d: nat, bss: nat) -> int {
    round_up(round_up(d as int, 16) + bss, 16)
}

/// The ELF64 header of an x86-64 executable whose section header table
/// starts at `e_shoff`.
pub open spec fn elf_header(e_shoff: nat) -> Seq<u8> {
    seq![0x7fu8, 0x45, 0x4c, 0x46, 2, 1, 1, 0, 0] + zeros(7) + le_bytes(2, 2) + le_bytes(0x3e, 2)
        + le_bytes(1, 4) + le_bytes(LOAD_BASE as nat, 8) + le_bytes(0x40, 8) + le_bytes(e_shoff, 8)
        + le_bytes(0, 4) + le_bytes(0x40, 2) + le_bytes(0x38, 2) + le_bytes(3, 2) + le_bytes(0x40, 2)
        + le_bytes(6, 2) + le_bytes(5, 2)
}

/// A `PT_LOAD` program header.
pub open spec fn pt_load(flags: nat, off: nat, vaddr: nat, filesz: nat, memsz: nat, align: nat) -> Seq<
    u8,
> {
    le_bytes(1, 4) + le_bytes(flags, 4) + le_bytes(off, 8) + le_bytes(vaddr, 8) + le_bytes(vaddr, 8)
        + le_bytes(filesz, 8) + le_bytes(memsz, 8) + le_bytes(align, 8)
}

/// A section header with no link, info or entry size.
pub open spec fn section_header(
    name: nat,
    kind: nat,
    flags: nat,
    addr: nat,
    off: nat,
    size: nat,
    align: nat,
) -> Seq<u8> {
    le_bytes(name, 4) + le_bytes(kind, 4) + le_bytes(flags, 8) + le_bytes(addr, 8) + le_bytes(off, 8)
        + le_bytes(size, 8) + le_bytes(0, 4) + le_bytes(0, 4) + le_bytes(align, 8) + le_bytes(0, 8)
}

/// The section header table.
pub open spec fn section_headers(t: nat, r: nat, d: nat, bss: nat) -> Seq<u8> {
    let ro = rodata_off(t);
    let da = data_off(t, r);
    let st = strtab_off(t, r, d);
    section_header(0, 0, 0, 0, 0, 0, 0) + section_header(
        NAME_TEXT as nat,
        SHT_PROGBITS as nat,
        (SHF_ALLOC | SHF_EXECINSTR) as nat,
        LOAD_BASE as nat,
        TEXT_OFF as nat,
        t,
        PAGE_SIZE as nat,
    ) + section_header(
        NAME_RODATA as nat,
        SHT_PROGBITS as nat,
        SHF_ALLOC as nat,
        (LOAD_BASE + ro - TEXT_OFF) as nat,
        ro as nat,
        r,
        PAGE_SIZE as nat,
    ) + section_header(
        NAME_DATA as nat,
        SHT_PROGBITS as nat,
        (SHF_ALLOC | SHF_WRITE) as nat,
        (LOAD_BASE + da - TEXT_OFF) as nat,
        da as nat,
        d,
        PAGE_SIZE as nat,
    ) + section_header(
        NAME_BSS as nat,
        SHT_NOBITS as nat,
        (SHF_ALLOC | SHF_WRITE) as nat,
        (LOAD_BASE + st - TEXT_OFF) as nat,
        st as nat,
        bss,
        16,
    ) + section_header(
        NAME_STRTAB as nat,
        SHT_STRTAB as nat,
        SHF_STRINGS as nat,
        0,
        st as nat,
        STRTAB_LEN as nat,
        1,
    )
}

/// The ELF header and the program header table.
pub open spec fn image_headers(t: nat, r: nat, d: nat, bss: nat) -> Seq<u8> {
    let ro = rodata_off(t);
    let da = data_off(t, r);
    elf_header(shoff(t, r, d) as nat) + pt_load(
        (PF_X | PF_R) as nat,
        TEXT_OFF as nat,
        LOAD_BASE as nat,
        t,
        t,
        PAGE_SIZE as nat,
    ) + pt_load(
        PF_R as nat,
        ro as nat,
        (LOAD_BASE + ro - TEXT_OFF) as nat,
        r,
        r,
        PAGE_SIZE as nat,
    ) + pt_load(
        (PF_R | PF_W) as nat,
        da as nat,
        (LOAD_BASE + da - TEXT_OFF) as nat,
        d,
        rw_load_size(d, bss) as nat,
        PAGE_SIZE as nat,
    )
}

/// The section contents and the string table, each at its offset.
pub open spec fn image_sections(text: Seq<u8>, rodata: Seq<u8>, data: Seq<u8>) -> Seq<u8> {
    let t = text.len();
    let r = rodata.len();
    let d = data.len();
    let ro = rodata_off(t);
    let da = data_off(t, r);
    let st = strtab_off(t, r, d);
    zeros((TEXT_OFF - HEADERS_END) as nat) + text + zeros((ro - TEXT_OFF - t) as nat) + rodata
        + zeros((da - ro - r) as nat) + data + zeros((st - da - d) as nat) + strtab_bytes() + zeros(
        (shoff(t, r, d) - st - STRTAB_LEN) as nat,
    )
}

/// The complete executable image for sections `text`, `rodata` and `data`
/// and a `.bss` of `bss` bytes.
pub open spec fn elf_image(text: Seq<u8>, rodata: Seq<u8>, data: Seq<u8>, bss: nat) -> Seq<u8> {
    image_headers(text.len(), rodata.len(), data.len(), bss) + image_sections(text, rodata, data)
        + section_headers(text.len(), rodata.len(), data.len(), bss)
}

/// The file offsets of an image, as computed for writing it.
struct Layout {
    rodata_off: u64,
    data_off: u64,
    strtab_off: u64,
    e_shoff: u64,
    rw_load_size: u64,
}

/// Images whose sections together stay this far below `u64::MAX` have every
/// offset and address representable.
pub open spec fn image_fits(t: nat, r: nat, d: nat, bss: nat) -> bool {
    t + r + d + bss + 0x1000000 <= u64::MAX
}

fn compute_layout(t: u64, r: u64, d: u64, bss: u64) -> (l: Layout)
    requires
        image_fits(t as nat, r as nat, d as nat, bss as nat),
    ensures
        layout_of(&l, t as nat, r as nat, d as nat, bss as nat),
{
    let rodata_off = round_up_to_next_multiple(TEXT_OFF + t, PAGE_SIZE);
    let data_off = round_up_to_next_multiple(rodata_off + r, PAGE_SIZE);
    let strtab_off = round_up_to_next_multiple(data_off + d, 16);
    let e_shoff = round_up_to_next_multiple(strtab_off + STRTAB_LEN, 16);
    let rw_load_size = round_up_to_next_multiple(round_up_to_next_multiple(d, 16) + bss, 16);
    Layout { rodata_off, data_off, strtab_off, e_shoff, rw_load_size }
}

/// The smallest multiple of `modulus` that is at least `x`.
pub fn round_up_to_next_multiple(x: u64, modulus: u64) -> (r: u64)
    requires
        modulus > 0,
        x + modulus <= u64::MAX,
    ensures
        r == round_up(x as int, modulus as int),
        r % modulus == 0,
        x <= r < x + modulus,
{
    let s = x + modulus - 1;
    proof {
        vstd::arithmetic::div_mod::lemma_fundamental_div_mod(s as int, modulus as int);
        vstd::arithmetic::div_mod::lemma_mod_multiples_basic(s as int / modulus as int, modulus as int);
        assert((s - s % modulus) % (modulus as int) == 0) by {
            assert(s - s % modulus == modulus * (s as int / modulus as int));
            vstd::arithmetic::mul::lemma_mul_is_commutative(modulus as int, s as int / modulus as int);
        }
    }
    s - s % modulus
}

/// Appends the `n` low bytes of `x`, least significant first.
fn push_le(out: &mut Vec<u8>, x: u64, n: usize)
    requires
        n <= 8,
    ensures
        final(out)@ == old(out)@ + le_bytes(x as nat, n as nat),
    decreases n,
{
    if n == 0 {
        assert(old(out)@ + le_bytes(x as nat, 0) =~= old(out)@);
        return;
    }
    out.push((x % 256) as u8);
    push_le(out, x / 256, n - 1);
    assert(old(out)@ + le_bytes(x as nat, n as nat) =~= old(out)@.push((x % 256) as u8)
        + le_bytes((x / 256) as nat, (n - 1) as nat));
}

/// Appends `n` zero bytes.
fn push_zeros(out: &mut Vec<u8>, n: u64)
    ensures
        final(out)@ == old(out)@ + zeros(n as nat),
{
    let mut i: u64 = 0;
    while i < n
        invariant
            i <= n,
            out@ == old(out)@ + zeros(i as nat),
        decreases n - i,
    {
        out.push(0u8);
        i = i + 1;
        assert(out@ =~= old(out)@ + zeros(i as nat));
    }
}

/// Appends the bytes of `src`.
fn push_all_bytes(out: &mut Vec<u8>, src: &Vec<u8>)
    ensures
        final(out)@ == old(out)@ + src@,
{
    let mut i: usize = 0;
    while i < src.len()
        invariant
            i <= src@.len(),
            out@ == old(out)@ + src@.take(i as int),
        decreases src@.len() - i,
    {
        out.push(src[i]);
        i = i + 1;
        assert(out@ =~= old(out)@ + src@.take(i as int));
    }
    assert(src@.take(src@.len() as int) =~= src@);
}

fn write_elf_header(out: &mut Vec<u8>, e_shoff: u64)
    ensures
        final(out)@ == old(out)@ + elf_header(e_shoff as nat),
{
    out.push(0x7fu8);
    out.push(0x45u8);
    out.push(0x4cu8);
    out.push(0x46u8);
    out.push(2u8);
    out.push(1u8);
    out.push(1u8);
    out.push(0u8);
    out.push(0u8);
    let ghost ident = out@;
    push_zeros(out, 7);
    push_le(out, 2, 2);
    push_le(out, 0x3e, 2);
    push_le(out, 1, 4);
    push_le(out, LOAD_BASE, 8);
    push_le(out, 0x40, 8);
    push_le(out, e_shoff, 8);
    push_le(out, 0, 4);
    push_le(out, 0x40, 2);
    push_le(out, 0x38, 2);
    push_le(out, 3, 2);
    push_le(out, 0x40, 2);
    push_le(out, 6, 2);
    push_le(out, 5, 2);
    assert(ident =~= old(out)@ + seq![0x7fu8, 0x45, 0x4c, 0x46, 2, 1, 1, 0, 0]);
    assert(out@ =~= old(out)@ + elf_header(e_shoff as nat));
}

fn write_pt_load(
    out: &mut Vec<u8>,
    p_flags: u32,
    p_offset: u64,
    p_vaddr: u64,
    p_filesz: u64,
    p_memsz: u64,
    p_align: u64,
)
    ensures
        final(out)@ == old(out)@ + pt_load(
            p_flags as nat,
            p_offset as nat,
            p_vaddr as nat,
            p_filesz as nat,
            p_memsz as nat,
            p_align as nat,
        ),
{
    push_le(out, 1, 4);
    push_le(out, p_flags as u64, 4);
    push_le(out, p_offset, 8);
    push_le(out, p_vaddr, 8);
    push_le(out, p_vaddr, 8);
    push_le(out, p_filesz, 8);
    push_le(out, p_memsz, 8);
    push_le(out, p_align, 8);
    assert(out@ =~= old(out)@ + pt_load(
        p_flags as nat,
        p_offset as nat,
        p_vaddr as nat,
        p_filesz as nat,
        p_memsz as nat,
        p_align as nat,
    ));
}

fn write_section_header_table_entry(
    out: &mut Vec<u8>,
    sh_name: u32,
    sh_type: u32,
    sh_flags: u64,
    sh_addr: u64,
    sh_offset: u64,
    sh_size: u64,
    sh_addralign: u64,
)
    ensures
        final(out)@ == old(out)@ + section_header(
            sh_name as nat,
            sh_type as nat,
            sh_flags as nat,
            sh_addr as nat,
            sh_offset as nat,
            sh_size as nat,
            sh_addralign as nat,
        ),
{
    push_le(out, sh_name as u64, 4);
    push_le(out, sh_type as u64, 4);
    push_le(out, sh_flags, 8);
    push_le(out, sh_addr, 8);
    push_le(out, sh_offset, 8);
    push_le(out, sh_size, 8);
    push_le(out, 0, 4);
    push_le(out, 0, 4);
    push_le(out, sh_addralign, 8);
    push_le(out, 0, 8);
    assert(out@ =~= old(out)@ + section_header(
        sh_name as nat,
        sh_type as nat,
        sh_flags as nat,
        sh_addr as nat,
        sh_offset as nat,
        sh_size as nat,
        sh_addralign as nat,
    ));
}

/// `l` holds the offsets of an image with sections of these lengths.
spec fn layout_of(l: &Layout, t: nat, r: nat, d: nat, bss: nat) -> bool {
    &&& l.rodata_off == rodata_off(t)
    &&& l.data_off == data_off(t, r)
    &&& l.strtab_off == strtab_off(t, r, d)
    &&& l.e_shoff == shoff(t, r, d)
    &&& l.rw_load_size == rw_load_size(d, bss)
    &&& TEXT_OFF + t <= l.rodata_off
    &&& l.rodata_off + r <= l.data_off
    &&& l.data_off + d <= l.strtab_off
    &&& l.strtab_off + STRTAB_LEN <= l.e_shoff
    &&& l.e_shoff <= u64::MAX - LOAD_BASE
}

fn write_image_headers(out: &mut Vec<u8>, l: &Layout, t: u64, r: u64, d: u64, bss: u64)
    requires
        layout_of(l, t as nat, r as nat, d as nat, bss as nat),
    ensures
        final(out)@ == old(out)@ + image_headers(t as nat, r as nat, d as nat, bss as nat),
{
    write_elf_header(out, l.e_shoff);
    write_pt_load(out, PF_X | PF_R, TEXT_OFF, LOAD_BASE, t, t, PAGE_SIZE);
    write_pt_load(out, PF_R, l.rodata_off, LOAD_BASE + (l.rodata_off - TEXT_OFF), r, r, PAGE_SIZE);
    write_pt_load(
        out,
        PF_R | PF_W,
        l.data_off,
        LOAD_BASE + (l.data_off - TEXT_OFF),
        d,
        l.rw_load_size,
        PAGE_SIZE,
    );
}

fn write_image_sections(
    out: &mut Vec<u8>,
    l: &Layout,
    text: &Vec<u8>,
    rodata: &Vec<u8>,
    data: &Vec<u8>,
    bss: u64,
)
    requires
        layout_of(l, text@.len(), rodata@.len(), data@.len(), bss as nat),
    ensures
        final(out)@ == old(out)@ + image_sections(text@, rodata@, data@),
{
    let strtab: Vec<u8> = vec![
        0u8, 46, 116, 101, 120, 116, 0, 46, 114, 111, 100, 97, 116, 97, 0, 46, 100, 97, 116, 97,
        0, 46, 98, 115, 115, 0, 46, 115, 116, 114, 116, 97, 98, 0,
    ];
    assert(strtab@ =~= strtab_bytes());
    let t = text.len() as u64;
    let r = rodata.len() as u64;
    let d = data.len() as u64;
    push_zeros(out, TEXT_OFF - HEADERS_END);
    push_all_bytes(out, text);
    push_zeros(out, l.rodata_off - (TEXT_OFF + t));
    push_all_bytes(out, rodata);
    push_zeros(out, l.data_off - (l.rodata_off + r));
    push_all_bytes(out, data);
    push_zeros(out, l.strtab_off - (l.data_off + d));
    push_all_bytes(out, &strtab);
    push_zeros(out, l.e_shoff - (l.strtab_off + STRTAB_LEN));
}

fn write_section_headers(out: &mut Vec<u8>, l: &Layout, t: u64, r: u64, d: u64, bss: u64)
    requires
        layout_of(l, t as nat, r as nat, d as nat, bss as nat),
    ensures
        final(out)@ == old(out)@ + section_headers(t as nat, r as nat, d as nat, bss as nat),
{
    write_section_header_table_entry(out, 0, 0, 0, 0, 0, 0, 0);
    write_section_header_table_entry(
        out,
        NAME_TEXT,
        SHT_PROGBITS,
        SHF_ALLOC | SHF_EXECINSTR,
        LOAD_BASE,
        TEXT_OFF,
        t,
        PAGE_SIZE,
    );
    write_section_header_table_entry(
        out,
        NAME_RODATA,
        SHT_PROGBITS,
        SHF_ALLOC,
        LOAD_BASE + (l.rodata_off - TEXT_OFF),
        l.rodata_off,
        r,
        PAGE_SIZE,
    );
    write_section_header_table_entry(
        out,
        NAME_DATA,
        SHT_PROGBITS,
        SHF_ALLOC | SHF_WRITE,
        LOAD_BASE + (l.data_off - TEXT_OFF),
        l.data_off,
        d,
        PAGE_SIZE,
    );
    // `.bss` occupies no file bytes; its offset is where the string table
    // starts, the first offset past the loaded data.
    let bss_off = l.strtab_off;
    write_section_header_table_entry(
        out,
        NAME_BSS,
        SHT_NOBITS,
        SHF_ALLOC | SHF_WRITE,
        LOAD_BASE + (bss_off - TEXT_OFF),
        bss_off,
        bss,
        16,
    );
    write_section_header_table_entry(
        out,
        NAME_STRTAB,
        SHT_STRTAB,
        SHF_STRINGS,
        0,
        l.strtab_off,
        STRTAB_LEN,
        1,
    );
}

/// A section of the image.
pub enum SectionName {
    Instructions,
    ROData,
    Data,
    BSS,
}

/// A place in a section that refers to another location.
pub struct RelocationRef {
    pub section: SectionName,
    pub offset: u64,
}

/// A relocation to be resolved against a section.
pub struct RelocationEntry {
    pub section: SectionName,
}

/// An x86-64 general-purpose register, by its encoding number.
pub type Register = u8;

/// The operand width of an instruction.
pub enum RegisterSize {
    Bits8,
    Bits16,
    Bits32,
    Bits64,
}

pub const REG_RAX: Register = 0;

pub const REG_RCX: Register = 1;

pub const REG_RDX: Register = 2;

pub const REG_RBX: Register = 3;

pub const REG_RSP: Register = 4;

pub const REG_RBP: Register = 5;

pub const REG_RSI: Register = 6;

pub const REG_RDI: Register = 7;

pub const REG_R8: Register = 8;

pub const REG_R9: Register = 9;

pub const REG_R10: Register = 10;

pub const REG_R11: Register = 11;

pub const REG_R12: Register = 12;

pub const REG_R13: Register = 13;

pub const REG_R14: Register = 14;

pub const REG_R15: Register = 15;

/// The contents of the sections of an executable being assembled.
pub struct Assembler {
    pub instructions: Vec<u8>,
    pub rodata: Vec<u8>,
    pub data: Vec<u8>,
    /// Size in bytes of the zero-initialised `.bss` section.
    pub bss_size: u64,
}

impl Default for Assembler {
    /// Empty sections.
    fn default() -> (r: Self)
        ensures
            r.instructions@ == Seq::<u8>::empty(),
            r.rodata@ == Seq::<u8>::empty(),
            r.data@ == Seq::<u8>::empty(),
            r.bss_size == 0,
    {
        Assembler { instructions: Vec::new(), rodata: Vec::new(), data: Vec::new(), bss_size: 0 }
    }
}

impl Assembler {
    /// Appends a `syscall` instruction (`0f 05`).
    pub fn op_syscall(&mut self)
        ensures
            final(self).instructions@ == old(self).instructions@ + seq![0x0fu8, 0x05u8],
            final(self).rodata@ == old(self).rodata@,
            final(self).data@ == old(self).data@,
            final(self).bss_size == old(self).bss_size,
    {
        self.instructions.push(0x0fu8);
        self.instructions.push(0x05u8);
        assert(self.instructions@ =~= old(self).instructions@ + seq![0x0fu8, 0x05u8]);
    }

    /// The bytes of the executable file for these sections, laid out as the
    /// module documentation describes.
    pub fn elf_image(&self) -> (r: Vec<u8>)
        requires
            image_fits(
                self.instructions@.len(),
                self.rodata@.len(),
                self.data@.len(),
                self.bss_size as nat,
            ),
        ensures
            r@ == elf_image(self.instructions@, self.rodata@, self.data@, self.bss_size as nat),
    {
        let text_len = self.instructions.len() as u64;
        let rodata_len = self.rodata.len() as u64;
        let data_len = self.data.len() as u64;
        let layout = compute_layout(text_len, rodata_len, data_len, self.bss_size);
        let mut out: Vec<u8> = Vec::new();
        write_image_headers(&mut out, &layout, text_len, rodata_len, data_len, self.bss_size);
        let ghost headers = out@;
        write_image_sections(
            &mut out,
            &layout,
            &self.instructions,
            &self.rodata,
            &self.data,
            self.bss_size,
        );
        let ghost sections = out@;
        write_section_headers(&mut out, &layout, text_len, rodata_len, data_len, self.bss_size);
        proof {
            let t = text_len as nat;
            let r = rodata_len as nat;
            let d = data_len as nat;
            let b = self.bss_size as nat;
            assert(headers == image_headers(t, r, d, b));
            assert(sections == headers + image_sections(self.instructions@, self.rodata@, self.data@));
            assert(out@ =~= elf_image(self.instructions@, self.rodata@, self.data@, b));
        }
        out
    }
}

} // verus!
