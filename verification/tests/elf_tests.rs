use eboot::elf::{parse_elf, read_u16_le, read_u32_le, read_u64_le, resolve_name, ElfError};

fn put_u16(buf: &mut Vec<u8>, off: usize, v: u16) {
    buf[off] = (v & 0xFF) as u8;
    buf[off + 1] = (v >> 8) as u8;
}

fn put_u64(buf: &mut Vec<u8>, off: usize, v: u64) {
    let mut x = v;
    for i in 0..8 {
        buf[off + i] = (x & 0xFF) as u8;
        x >>= 8;
    }
}

/// A 64-bit little-endian ELF image of `total_len` bytes with the given
/// entry address and program headers (offset, vaddr, paddr, filesz, memsz),
/// and no section headers.
fn make_elf(total_len: usize, entry: u64, phs: &[(u64, u64, u64, u64, u64)]) -> Vec<u8> {
    let mut buf = vec![0u8; total_len];
    buf[0] = 0x7F;
    buf[1] = b'E';
    buf[2] = b'L';
    buf[3] = b'F';
    buf[4] = 2; // 64-bit
    buf[5] = 1; // little-endian
    put_u64(&mut buf, 24, entry);
    if !phs.is_empty() {
        put_u64(&mut buf, 32, 64); // program header table right after the header
        put_u16(&mut buf, 54, 56);
        put_u16(&mut buf, 56, phs.len() as u16);
    }
    for (k, &(off, vaddr, paddr, filesz, memsz)) in phs.iter().enumerate() {
        let base = 64 + 56 * k;
        put_u64(&mut buf, base + 8, off);
        put_u64(&mut buf, base + 16, vaddr);
        put_u64(&mut buf, base + 24, paddr);
        put_u64(&mut buf, base + 32, filesz);
        put_u64(&mut buf, base + 40, memsz);
    }
    buf
}

#[test]
fn le_reads_exact() {
    let buf = vec![0x01u8, 0x02, 0x03, 0x04, 0x05, 0x06, 0x07, 0x08];
    assert_eq!(read_u16_le(&buf, 0), 0x0201);
    assert_eq!(read_u16_le(&buf, 6), 0x0807);
    assert_eq!(read_u32_le(&buf, 0), 0x0403_0201);
    assert_eq!(read_u64_le(&buf, 0), 0x0807_0605_0403_0201);
}

#[test]
fn parse_minimal_header() {
    let buf = make_elf(64, 0x40_1000, &[]);
    let img = parse_elf(&buf).unwrap();
    assert_eq!(img.entry, 0x40_1000);
    assert_eq!(img.phs.len(), 0);
    assert_eq!(img.shs.len(), 0);
    assert_eq!(img.shstrndx, 0);
}

#[test]
fn parse_extracts_program_headers() {
    let buf = make_elf(
        0x2000,
        0x200000,
        &[
            (0x1000, 0x200000, 0x200000, 0x10, 0x20),
            (0x1800, 0x0, 0x0, 0x8, 0x8),
        ],
    );
    let img = parse_elf(&buf).unwrap();
    assert_eq!(img.phs.len(), 2);
    assert_eq!(img.phs[0].p_offset, 0x1000);
    assert_eq!(img.phs[0].p_vaddr, 0x200000);
    assert_eq!(img.phs[0].p_paddr, 0x200000);
    assert_eq!(img.phs[0].p_filesz, 0x10);
    assert_eq!(img.phs[0].p_memsz, 0x20);
    assert_eq!(img.phs[1].p_vaddr, 0);
    assert_eq!(img.phs[1].p_paddr, 0);
}

#[test]
fn parse_too_short() {
    let buf = vec![0x7Fu8, b'E', b'L', b'F'];
    assert_eq!(parse_elf(&buf).unwrap_err(), ElfError::TooShort);
}

#[test]
fn parse_bad_magic() {
    let mut buf = make_elf(64, 0, &[]);
    buf[0] = 0x7E;
    assert_eq!(parse_elf(&buf).unwrap_err(), ElfError::BadMagic);
}

#[test]
fn parse_bad_class() {
    let mut buf = make_elf(64, 0, &[]);
    buf[4] = 1; // 32-bit image
    assert_eq!(parse_elf(&buf).unwrap_err(), ElfError::BadClass);
}

#[test]
fn parse_bad_encoding() {
    let mut buf = make_elf(64, 0, &[]);
    buf[5] = 2; // big-endian
    assert_eq!(parse_elf(&buf).unwrap_err(), ElfError::BadEncoding);
}

#[test]
fn parse_bad_phentsize() {
    let mut buf = make_elf(0x1000, 0, &[(0, 1, 1, 0, 0)]);
    put_u16(&mut buf, 54, 32);
    assert_eq!(parse_elf(&buf).unwrap_err(), ElfError::BadProgramHeaderTable);
}

#[test]
fn parse_ph_table_past_end() {
    let mut buf = make_elf(0x1000, 0, &[(0, 1, 1, 0, 0)]);
    put_u16(&mut buf, 56, 1000); // far more entries than the file holds
    assert_eq!(parse_elf(&buf).unwrap_err(), ElfError::BadProgramHeaderTable);
}

#[test]
fn parse_bad_sh_table() {
    let mut buf = make_elf(0x1000, 0, &[]);
    put_u64(&mut buf, 40, 0x8000); // section table offset past the end
    put_u16(&mut buf, 58, 64);
    put_u16(&mut buf, 60, 1);
    assert_eq!(parse_elf(&buf).unwrap_err(), ElfError::BadSectionHeaderTable);
}

#[test]
fn parse_section_headers() {
    let mut buf = make_elf(0x1000, 0, &[]);
    put_u64(&mut buf, 40, 64); // one section header right after the file header
    put_u16(&mut buf, 58, 64);
    put_u16(&mut buf, 60, 1);
    put_u16(&mut buf, 62, 0);
    let base = 64;
    // sh_name, sh_flags, sh_addr, sh_offset, sh_size, sh_addralign
    buf[base] = 7;
    put_u64(&mut buf, base + 8, 0x6);
    put_u64(&mut buf, base + 16, 0x400000);
    put_u64(&mut buf, base + 24, 0x200);
    put_u64(&mut buf, base + 32, 0x80);
    put_u64(&mut buf, base + 48, 0x10);
    let img = parse_elf(&buf).unwrap();
    assert_eq!(img.shs.len(), 1);
    assert_eq!(img.shs[0].sh_name, 7);
    assert_eq!(img.shs[0].sh_flags, 0x6);
    assert_eq!(img.shs[0].sh_addr, 0x400000);
    assert_eq!(img.shs[0].sh_offset, 0x200);
    assert_eq!(img.shs[0].sh_size, 0x80);
    assert_eq!(img.shs[0].sh_addralign, 0x10);
}

#[test]
fn resolve_name_basic() {
    let strtab = b"\0.text\0.data\0".to_vec();
    assert_eq!(resolve_name(&strtab, 1), Some(b".text".to_vec()));
    assert_eq!(resolve_name(&strtab, 7), Some(b".data".to_vec()));
}

#[test]
fn resolve_name_empty() {
    let strtab = b"\0.text\0".to_vec();
    assert_eq!(resolve_name(&strtab, 0), Some(Vec::new()));
}

#[test]
fn resolve_name_unterminated() {
    let strtab = b"\0.tex".to_vec();
    assert_eq!(resolve_name(&strtab, 1), None);
}

#[test]
fn resolve_name_index_past_table() {
    let strtab = b"\0.text\0".to_vec();
    assert_eq!(resolve_name(&strtab, 7), None);
    assert_eq!(resolve_name(&strtab, 100), None);
}
