//! Parsing the kernel's executable image: a 64-bit little-endian ELF file.
//!
//! The loader reads the header's magic and class, the entry address, the
//! program header table (one descriptor per loadable segment) and the
//! section header table (diagnostic only), all from the raw file bytes.
//! Every field is specified as a little-endian read at a fixed offset, and
//! the parser's contract ties each extracted value to those reads.

use vstd::prelude::*;

verus! {

/// Byte length of the ELF64 file header.
pub const ELF64_HEADER_LEN: usize = 64;

/// Byte length of one ELF64 program header table entry.
pub const ELF64_PHENTSIZE: u16 = 56;

/// Byte length of one ELF64 section header table entry.
pub const ELF64_SHENTSIZE: u16 = 64;

/// The little-endian 16-bit value at offset `i`.
pub open spec fn le16(s: Seq<u8>, i: int) -> int {
    s[i] as int + 0x100 * (s[i + 1] as int)
}

/// The little-endian 32-bit value at offset `i`.
pub open spec fn le32(s: Seq<u8>, i: int) -> int {
    le16(s, i) + 0x1_0000 * le16(s, i + 2)
}

/// The little-endian 64-bit value at offset `i`.
pub open spec fn le64(s: Seq<u8>, i: int) -> int {
    le32(s, i) + 0x1_0000_0000 * le32(s, i + 4)
}

/// Reads the little-endian 16-bit value at `off`.
pub fn read_u16_le(buf: &Vec<u8>, off: usize) -> (r: u16)
    requires
        off + 2 <= buf.len(),
    ensures
        r as int == le16(buf@, off as int),
{
    buf[off] as u16 + 0x100 * (buf[off + 1] as u16)
}

/// Reads the little-endian 32-bit value at `off`.
pub fn read_u32_le(buf: &Vec<u8>, off: usize) -> (r: u32)
    requires
        off + 4 <= buf.len(),
    ensures
        r as int == le32(buf@, off as int),
{
    let lo = read_u16_le(buf, off);
    let hi = read_u16_le(buf, off + 2);
    lo as u32 + 0x1_0000 * (hi as u32)
}

/// Reads the little-endian 64-bit value at `off`.
pub fn read_u64_le(buf: &Vec<u8>, off: usize) -> (r: u64)
    requires
        off + 8 <= buf.len(),
    ensures
        r as int == le64(buf@, off as int),
{
    let lo = read_u32_le(buf, off);
    let hi = read_u32_le(buf, off + 4);
    lo as u64 + 0x1_0000_0000 * (hi as u64)
}

/// The file starts with the ELF magic: 0x7F 'E' 'L' 'F'.
pub open spec fn magic_ok(s: Seq<u8>) -> bool {
    &&& s[0] == 0x7Fu8
    &&& s[1] == 0x45u8
    &&& s[2] == 0x4Cu8
    &&& s[3] == 0x46u8
}

/// The identification bytes name a 64-bit image.
pub open spec fn class64(s: Seq<u8>) -> bool {
    s[4] == 2u8
}

/// The identification bytes name little-endian encoding.
pub open spec fn little_endian(s: Seq<u8>) -> bool {
    s[5] == 1u8
}

/// The entry address field of the header.
pub open spec fn spec_entry(s: Seq<u8>) -> int {
    le64(s, 24)
}

/// The program header table's file offset.
pub open spec fn spec_phoff(s: Seq<u8>) -> int {
    le64(s, 32)
}

/// The section header table's file offset.
pub open spec fn spec_shoff(s: Seq<u8>) -> int {
    le64(s, 40)
}

/// The size of one program header table entry.
pub open spec fn spec_phentsize(s: Seq<u8>) -> int {
    le16(s, 54)
}

/// The number of program header table entries.
pub open spec fn spec_phnum(s: Seq<u8>) -> int {
    le16(s, 56)
}

/// The size of one section header table entry.
pub open spec fn spec_shentsize(s: Seq<u8>) -> int {
    le16(s, 58)
}

/// The number of section header table entries.
pub open spec fn spec_shnum(s: Seq<u8>) -> int {
    le16(s, 60)
}

/// The index of the section holding the section name strings.
pub open spec fn spec_shstrndx(s: Seq<u8>) -> int {
    le16(s, 62)
}

/// The program header table is absent, or has the 64-bit entry size and
/// lies entirely within the file.
pub open spec fn ph_table_ok(s: Seq<u8>) -> bool {
    spec_phnum(s) == 0 || (spec_phentsize(s) == ELF64_PHENTSIZE && spec_phoff(s) + 56
        * spec_phnum(s) <= s.len())
}

/// The section header table is absent, or has the 64-bit entry size and
/// lies entirely within the file.
pub open spec fn sh_table_ok(s: Seq<u8>) -> bool {
    spec_shnum(s) == 0 || (spec_shentsize(s) == ELF64_SHENTSIZE && spec_shoff(s) + 64
        * spec_shnum(s) <= s.len())
}

/// The bytes parse as a 64-bit little-endian ELF image whose header tables
/// lie within the file.
pub open spec fn parse_ok(s: Seq<u8>) -> bool {
    &&& s.len() >= ELF64_HEADER_LEN
    &&& magic_ok(s)
    &&& class64(s)
    &&& little_endian(s)
    &&& ph_table_ok(s)
    &&& sh_table_ok(s)
}

/// One loadable-segment descriptor from the program header table.
#[derive(Clone, Copy, Debug, PartialEq, Eq, Structural)]
pub struct ProgramHeader {
    pub p_offset: u64,
    pub p_vaddr: u64,
    pub p_paddr: u64,
    pub p_filesz: u64,
    pub p_memsz: u64,
}

/// One named-region descriptor from the section header table; diagnostic
/// only.
#[derive(Clone, Copy, Debug, PartialEq, Eq, Structural)]
pub struct SectionHeader {
    pub sh_name: u32,
    pub sh_addr: u64,
    pub sh_offset: u64,
    pub sh_size: u64,
    pub sh_addralign: u64,
    pub sh_flags: u64,
}

/// The `k`-th program header, as the fixed-offset little-endian reads of
/// its entry give it.
pub open spec fn spec_ph(s: Seq<u8>, k: int) -> ProgramHeader {
    let base = spec_phoff(s) + 56 * k;
    ProgramHeader {
        p_offset: le64(s, base + 8) as u64,
        p_vaddr: le64(s, base + 16) as u64,
        p_paddr: le64(s, base + 24) as u64,
        p_filesz: le64(s, base + 32) as u64,
        p_memsz: le64(s, base + 40) as u64,
    }
}

/// The whole program header table.
pub open spec fn spec_phs(s: Seq<u8>) -> Seq<ProgramHeader> {
    Seq::new(spec_phnum(s) as nat, |k: int| spec_ph(s, k))
}

/// The `k`-th section header, as the fixed-offset little-endian reads of
/// its entry give it.
pub open spec fn spec_sh(s: Seq<u8>, k: int) -> SectionHeader {
    let base = spec_shoff(s) + 64 * k;
    SectionHeader {
        sh_name: le32(s, base) as u32,
        sh_addr: le64(s, base + 16) as u64,
        sh_offset: le64(s, base + 24) as u64,
        sh_size: le64(s, base + 32) as u64,
        sh_addralign: le64(s, base + 48) as u64,
        sh_flags: le64(s, base + 8) as u64,
    }
}

/// The whole section header table.
pub open spec fn spec_shs(s: Seq<u8>) -> Seq<SectionHeader> {
    Seq::new(spec_shnum(s) as nat, |k: int| spec_sh(s, k))
}

/// Why the bytes were rejected as a kernel image.
#[derive(Clone, Copy, Debug, PartialEq, Eq, Structural)]
pub enum ElfError {
    TooShort,
    BadMagic,
    BadClass,
    BadEncoding,
    BadProgramHeaderTable,
    BadSectionHeaderTable,
}

/// The exact condition under which each parse error is reported: each
/// variant names the first check that fails.
pub open spec fn elf_error_cond(s: Seq<u8>, e: ElfError) -> bool {
    match e {
        ElfError::TooShort => s.len() < ELF64_HEADER_LEN,
        ElfError::BadMagic => s.len() >= ELF64_HEADER_LEN && !magic_ok(s),
        ElfError::BadClass => s.len() >= ELF64_HEADER_LEN && magic_ok(s) && !class64(s),
        ElfError::BadEncoding => s.len() >= ELF64_HEADER_LEN && magic_ok(s) && class64(s)
            && !little_endian(s),
        ElfError::BadProgramHeaderTable => s.len() >= ELF64_HEADER_LEN && magic_ok(s) && class64(s)
            && little_endian(s) && !ph_table_ok(s),
        ElfError::BadSectionHeaderTable => s.len() >= ELF64_HEADER_LEN && magic_ok(s) && class64(s)
            && little_endian(s) && ph_table_ok(s) && !sh_table_ok(s),
    }
}

/// The parsed image: entry address and both header tables.
#[derive(Debug)]
pub struct ElfImage {
    pub entry: u64,
    pub phs: Vec<ProgramHeader>,
    pub shs: Vec<SectionHeader>,
    pub shstrndx: u16,
}

/// Parses the kernel image. On success every extracted value equals the
/// specified little-endian read; on failure the error names the first
/// check that failed.
pub fn parse_elf(buf: &Vec<u8>) -> (r: Result<ElfImage, ElfError>)
    ensures
        r is Ok <==> parse_ok(buf@),
        r matches Ok(img) ==> {
            &&& img.entry as int == spec_entry(buf@)
            &&& img.phs@ == spec_phs(buf@)
            &&& img.shs@ == spec_shs(buf@)
            &&& img.shstrndx as int == spec_shstrndx(buf@)
        },
        r matches Err(e) ==> elf_error_cond(buf@, e),
{
    if buf.len() < ELF64_HEADER_LEN {
        return Err(ElfError::TooShort);
    }
    if !(buf[0] == 0x7Fu8 && buf[1] == 0x45u8 && buf[2] == 0x4Cu8 && buf[3] == 0x46u8) {
        return Err(ElfError::BadMagic);
    }
    if buf[4] != 2u8 {
        return Err(ElfError::BadClass);
    }
    if buf[5] != 1u8 {
        return Err(ElfError::BadEncoding);
    }
    let entry = read_u64_le(buf, 24);
    let phoff = read_u64_le(buf, 32);
    let shoff = read_u64_le(buf, 40);
    let phentsize = read_u16_le(buf, 54);
    let phnum = read_u16_le(buf, 56);
    let shentsize = read_u16_le(buf, 58);
    let shnum = read_u16_le(buf, 60);
    let shstrndx = read_u16_le(buf, 62);
    let n = buf.len();
    if phnum != 0 {
        if phentsize != ELF64_PHENTSIZE {
            return Err(ElfError::BadProgramHeaderTable);
        }
        if phoff > n as u64 || 56 * (phnum as u64) > n as u64 - phoff {
            return Err(ElfError::BadProgramHeaderTable);
        }
    }
    if shnum != 0 {
        if shentsize != ELF64_SHENTSIZE {
            return Err(ElfError::BadSectionHeaderTable);
        }
        if shoff > n as u64 || 64 * (shnum as u64) > n as u64 - shoff {
            return Err(ElfError::BadSectionHeaderTable);
        }
    }
    let mut phs: Vec<ProgramHeader> = Vec::new();
    let mut k: usize = 0;
    while k < phnum as usize
        invariant
            k <= phnum as usize,
            parse_ok(buf@),
            n == buf@.len(),
            phnum as int == spec_phnum(buf@),
            phnum != 0 ==> phoff as int == spec_phoff(buf@),
            phnum != 0 ==> phoff + 56 * (phnum as u64) <= n,
            phs@.len() == k,
            forall|m: int| 0 <= m < k ==> phs@[m] == spec_ph(buf@, m),
        decreases phnum as usize - k,
    {
        let base = phoff as usize + 56 * k;
        let ph = ProgramHeader {
            p_offset: read_u64_le(buf, base + 8),
            p_vaddr: read_u64_le(buf, base + 16),
            p_paddr: read_u64_le(buf, base + 24),
            p_filesz: read_u64_le(buf, base + 32),
            p_memsz: read_u64_le(buf, base + 40),
        };
        proof {
            assert(base as int == spec_phoff(buf@) + 56 * (k as int));
            assert(ph == spec_ph(buf@, k as int));
        }
        phs.push(ph);
        k = k + 1;
    }
    let mut shs: Vec<SectionHeader> = Vec::new();
    let mut k: usize = 0;
    while k < shnum as usize
        invariant
            k <= shnum as usize,
            parse_ok(buf@),
            n == buf@.len(),
            shnum as int == spec_shnum(buf@),
            shnum != 0 ==> shoff as int == spec_shoff(buf@),
            shnum != 0 ==> shoff + 64 * (shnum as u64) <= n,
            shs@.len() == k,
            forall|m: int| 0 <= m < k ==> shs@[m] == spec_sh(buf@, m),
        decreases shnum as usize - k,
    {
        let base = shoff as usize + 64 * k;
        let sh = SectionHeader {
            sh_name: read_u32_le(buf, base),
            sh_addr: read_u64_le(buf, base + 16),
            sh_offset: read_u64_le(buf, base + 24),
            sh_size: read_u64_le(buf, base + 32),
            sh_addralign: read_u64_le(buf, base + 48),
            sh_flags: read_u64_le(buf, base + 8),
        };
        proof {
            assert(base as int == spec_shoff(buf@) + 64 * (k as int));
            assert(sh == spec_sh(buf@, k as int));
        }
        shs.push(sh);
        k = k + 1;
    }
    proof {
        assert(phs@ =~= spec_phs(buf@));
        assert(shs@ =~= spec_shs(buf@));
    }
    Ok(ElfImage { entry, phs, shs, shstrndx })
}

/// Some byte at or after `idx` is a NUL terminator.
pub open spec fn nul_after(s: Seq<u8>, idx: int) -> bool {
    exists|j: int| idx <= j < s.len() && s[j] == 0u8
}

/// Length of the NUL-terminated name starting at `idx`: the number of
/// bytes before the first NUL, or to the end when no NUL follows.
pub open spec fn name_len(s: Seq<u8>, idx: int) -> int
    decreases s.len() - idx,
{
    if idx < 0 || idx >= s.len() || s[idx] == 0u8 {
        0
    } else {
        1 + name_len(s, idx + 1)
    }
}

/// The NUL-terminated name starting at `idx`.
pub open spec fn name_at(s: Seq<u8>, idx: int) -> Seq<u8> {
    s.subrange(idx, idx + name_len(s, idx))
}

/// A scan that ran from `idx` to `j` without meeting a NUL pins the name
/// length down to the distance covered.
proof fn lemma_name_len_at(s: Seq<u8>, idx: int, j: int)
    requires
        0 <= idx <= j <= s.len(),
        forall|m: int| idx <= m < j ==> s[m] != 0u8,
        j == s.len() || s[j] == 0u8,
    ensures
        name_len(s, idx) == j - idx,
    decreases j - idx,
{
    if idx < j {
        lemma_name_len_at(s, idx + 1, j);
    }
}

/// Resolves a section's name from the string-table bytes: the
/// NUL-terminated byte string starting at the name index. A name index
/// past the table, or one whose name runs to the end of the table without
/// a terminator, resolves to nothing; the caller treats that (and an empty
/// name) as diagnostic only.
pub fn resolve_name(strtab: &Vec<u8>, idx: usize) -> (r: Option<Vec<u8>>)
    ensures
        r is Some <==> idx < strtab@.len() && nul_after(strtab@, idx as int),
        r matches Some(name) ==> name@ == name_at(strtab@, idx as int),
{
    let n = strtab.len();
    if idx >= n {
        proof {
            assert(!(idx < strtab@.len()));
        }
        return None;
    }
    let mut j: usize = idx;
    while j < n && strtab[j] != 0u8
        invariant
            idx <= j <= n,
            n == strtab@.len(),
            forall|m: int| idx <= m < j ==> strtab@[m] != 0u8,
        decreases n - j,
    {
        j = j + 1;
    }
    if j == n {
        proof {
            assert forall|m: int| idx <= m < strtab@.len() implies strtab@[m] != 0u8 by {}
            assert(!nul_after(strtab@, idx as int));
        }
        return None;
    }
    proof {
        lemma_name_len_at(strtab@, idx as int, j as int);
        assert(strtab@[j as int] == 0u8);
        assert(nul_after(strtab@, idx as int));
    }
    let mut name: Vec<u8> = Vec::new();
    let mut m: usize = idx;
    while m < j
        invariant
            idx <= m <= j <= n,
            n == strtab@.len(),
            name@.len() == m - idx,
            forall|t: int| 0 <= t < name@.len() ==> name@[t] == strtab@[idx + t],
        decreases j - m,
    {
        name.push(strtab[m]);
        m = m + 1;
    }
    proof {
        assert(name@ =~= name_at(strtab@, idx as int));
    }
    Some(name)
}

} // verus!
