//! Loading the kernel image: segment copy planning and the entry address.
//!
//! The loader parses the image, widens the entry address to the platform's
//! pointer width, and turns the program header table into a copy plan: one
//! raw-memory copy per loadable segment, in table order. A header is
//! loadable unless both its virtual and its physical address are zero; a
//! loadable header asks for exactly its file-size bytes, taken at its file
//! offset, placed at its virtual address. The surrounding program performs
//! the raw copies; the byte extraction from the image buffer is verified
//! here.

use vstd::prelude::*;
use crate::elf::ElfError;
use crate::elf::ElfImage;
use crate::elf::ProgramHeader;
use crate::elf::SectionHeader;
use crate::elf::elf_error_cond;
use crate::elf::parse_elf;
use crate::elf::parse_ok;
use crate::elf::spec_entry;
use crate::elf::spec_phs;
use crate::elf::spec_shs;
use crate::elf::spec_shstrndx;

verus! {

/// One raw-memory copy: `len` bytes from `src_offset` in the image buffer
/// to the physical destination address `dest`.
#[derive(Clone, Copy, Debug, PartialEq, Eq, Structural)]
pub struct CopyCmd {
    pub src_offset: u64,
    pub dest: u64,
    pub len: u64,
}

/// A program header describes a segment to place in memory unless both its
/// virtual and its physical address are zero.
pub open spec fn loadable(ph: ProgramHeader) -> bool {
    !(ph.p_vaddr == 0 && ph.p_paddr == 0)
}

/// The copy a loadable header asks for: its file-size bytes, from its file
/// offset, to its virtual address.
pub open spec fn cmd_of(ph: ProgramHeader) -> CopyCmd {
    CopyCmd { src_offset: ph.p_offset, dest: ph.p_vaddr, len: ph.p_filesz }
}

/// The copy plan of a program header table: the copies of its loadable
/// headers, in table order.
pub open spec fn plan_of(phs: Seq<ProgramHeader>) -> Seq<CopyCmd>
    decreases phs.len(),
{
    if phs.len() == 0 {
        Seq::empty()
    } else {
        plan_of(phs.drop_last()) + if loadable(phs.last()) {
            seq![cmd_of(phs.last())]
        } else {
            Seq::empty()
        }
    }
}

/// Builds the copy plan for a program header table.
pub fn copy_plan(phs: &Vec<ProgramHeader>) -> (r: Vec<CopyCmd>)
    ensures
        r@ == plan_of(phs@),
{
    let mut plan: Vec<CopyCmd> = Vec::new();
    let n = phs.len();
    let mut i: usize = 0;
    while i < n
        invariant
            i <= n,
            n == phs@.len(),
            plan@ == plan_of(phs@.subrange(0, i as int)),
        decreases n - i,
    {
        let ph = phs[i];
        if !(ph.p_vaddr == 0 && ph.p_paddr == 0) {
            plan.push(CopyCmd { src_offset: ph.p_offset, dest: ph.p_vaddr, len: ph.p_filesz });
        }
        proof {
            let pre = phs@.subrange(0, i as int);
            let cur = phs@.subrange(0, i + 1);
            assert(cur.drop_last() =~= pre);
            assert(cur.last() == phs@[i as int]);
        }
        i = i + 1;
    }
    proof {
        assert(phs@.subrange(0, phs@.len() as int) =~= phs@);
    }
    plan
}

/// Every loadable header's copy is in the plan: its file-size bytes from
/// its file offset to its virtual address.
pub proof fn lemma_plan_covers_loadable(phs: Seq<ProgramHeader>, k: int)
    requires
        0 <= k < phs.len(),
        loadable(phs[k]),
    ensures
        plan_of(phs).contains(cmd_of(phs[k])),
    decreases phs.len(),
{
    if k == phs.len() - 1 {
        let p = plan_of(phs);
        assert(p[p.len() - 1] == cmd_of(phs[k]));
    } else {
        lemma_plan_covers_loadable(phs.drop_last(), k);
        let sub = plan_of(phs.drop_last());
        let j = choose|j: int| 0 <= j < sub.len() && sub[j] == cmd_of(phs.drop_last()[k]);
        assert(plan_of(phs)[j] == cmd_of(phs[k]));
    }
}

/// Nothing else is in the plan: every planned copy is the copy of some
/// loadable header. In particular a header whose virtual and physical
/// addresses are both zero contributes no copy.
pub proof fn lemma_plan_only_loadable(phs: Seq<ProgramHeader>, j: int)
    requires
        0 <= j < plan_of(phs).len(),
    ensures
        exists|k: int|
            0 <= k < phs.len() && loadable(phs[k]) && plan_of(phs)[j] == cmd_of(phs[k]),
    decreases phs.len(),
{
    let sub = plan_of(phs.drop_last());
    if j < sub.len() {
        lemma_plan_only_loadable(phs.drop_last(), j);
        let k = choose|k: int|
            0 <= k < phs.drop_last().len() && loadable(phs.drop_last()[k]) && sub[j] == cmd_of(
                phs.drop_last()[k],
            );
        assert(loadable(phs[k]) && plan_of(phs)[j] == cmd_of(phs[k]));
    } else {
        let k = phs.len() - 1;
        assert(loadable(phs[k]) && plan_of(phs)[j] == cmd_of(phs[k]));
    }
}

/// Why loading the kernel image failed.
#[derive(Clone, Copy, Debug, PartialEq, Eq, Structural)]
pub enum LoadError {
    Malformed(ElfError),
    EntryOverflow,
}

/// Widens the image's entry address to the platform's pointer width. An
/// entry address that does not fit a native pointer is rejected, never
/// silently truncated.
pub fn entry_to_native(entry: u64) -> (r: Result<usize, LoadError>)
    ensures
        entry <= usize::MAX ==> r == Ok::<usize, LoadError>(entry as usize),
        entry > usize::MAX ==> r == Err::<usize, LoadError>(LoadError::EntryOverflow),
{
    if entry <= usize::MAX as u64 {
        Ok(entry as usize)
    } else {
        Err(LoadError::EntryOverflow)
    }
}

/// A loaded kernel: its native-width entry address, the copy plan of its
/// loadable segments, and its section headers with the index of the
/// name-string section (diagnostic only).
#[derive(Debug)]
pub struct LoadedKernel {
    pub entry: usize,
    pub copies: Vec<CopyCmd>,
    pub sections: Vec<SectionHeader>,
    pub shstrndx: u16,
}

/// Loads the kernel from its raw file bytes: parses the image, widens the
/// entry address, and plans one copy per loadable segment. Fails exactly
/// on a malformed image or an entry address beyond native pointer width.
pub fn load_kernel_image(kern_buf: &Vec<u8>) -> (r: Result<LoadedKernel, LoadError>)
    ensures
        r is Ok <==> parse_ok(kern_buf@) && spec_entry(kern_buf@) <= usize::MAX,
        r matches Ok(k) ==> {
            &&& k.entry as int == spec_entry(kern_buf@)
            &&& k.copies@ == plan_of(spec_phs(kern_buf@))
            &&& k.sections@ == spec_shs(kern_buf@)
            &&& k.shstrndx as int == spec_shstrndx(kern_buf@)
        },
        (r == Err::<LoadedKernel, LoadError>(LoadError::EntryOverflow)) <==> (parse_ok(kern_buf@)
            && spec_entry(kern_buf@) > usize::MAX),
        r matches Err(e) ==> (e matches LoadError::Malformed(pe) ==> elf_error_cond(
            kern_buf@,
            pe,
        )),
{
    let img: ElfImage = match parse_elf(kern_buf) {
        Ok(img) => img,
        Err(pe) => {
            return Err(LoadError::Malformed(pe));
        },
    };
    let entry: usize = match entry_to_native(img.entry) {
        Ok(e) => e,
        Err(le) => {
            return Err(le);
        },
    };
    let copies = copy_plan(&img.phs);
    Ok(LoadedKernel { entry, copies, sections: img.shs, shstrndx: img.shstrndx })
}

/// The bytes a copy command takes from the image buffer: the command's
/// length of bytes starting at its source offset.
pub fn segment_bytes(buf: &Vec<u8>, offset: usize, len: usize) -> (r: Vec<u8>)
    requires
        offset + len <= buf.len(),
    ensures
        r@ == buf@.subrange(offset as int, offset as int + len as int),
{
    let mut out: Vec<u8> = Vec::new();
    let mut i: usize = 0;
    while i < len
        invariant
            i <= len,
            offset + len <= buf.len(),
            out@.len() == i,
            forall|j: int| 0 <= j < i ==> out@[j] == buf@[offset + j],
        decreases len - i,
    {
        out.push(buf[offset + i]);
        i = i + 1;
    }
    proof {
        assert(out@ =~= buf@.subrange(offset as int, offset as int + len as int));
    }
    out
}

/// Writes `data` into `mem` at `at`, leaving every other byte as it was:
/// the in-memory form of one segment copy.
pub fn write_bytes(mem: &mut Vec<u8>, at: usize, data: &Vec<u8>)
    requires
        at + data@.len() <= old(mem).len(),
    ensures
        final(mem)@.len() == old(mem)@.len(),
        final(mem)@.subrange(at as int, at + data@.len()) == data@,
        forall|j: int|
            0 <= j < final(mem)@.len() && !(at <= j < at + data@.len()) ==> final(mem)@[j] == old(
                mem,
            )@[j],
{
    let mut i: usize = 0;
    while i < data.len()
        invariant
            i <= data@.len(),
            at + data@.len() <= mem.len(),
            mem@.len() == old(mem)@.len(),
            forall|j: int| 0 <= j < i ==> mem@[at + j] == data@[j],
            forall|j: int|
                0 <= j < mem@.len() && !(at <= j < at + data@.len()) ==> mem@[j] == old(mem)@[j],
        decreases data@.len() - i,
    {
        mem.set(at + i, data[i]);
        i = i + 1;
    }
    proof {
        assert(mem@.subrange(at as int, at + data@.len()) =~= data@);
    }
}

/// The range of `len` bytes at `offset`, or nothing when it runs past the
/// end of the buffer.
pub fn bytes_at(buf: &Vec<u8>, offset: u64, len: u64) -> (r: Option<Vec<u8>>)
    ensures
        r is Some <==> offset + len <= buf@.len(),
        r matches Some(v) ==> v@ == buf@.subrange(offset as int, offset + len as int),
{
    let n = buf.len();
    if offset > n as u64 || len > n as u64 - offset {
        return None;
    }
    Some(segment_bytes(buf, offset as usize, len as usize))
}

/// Whether a copy command's source range lies within the image buffer, so
/// its bytes can be taken from the buffer.
pub open spec fn cmd_in_bounds(s: Seq<u8>, c: CopyCmd) -> bool {
    c.src_offset + c.len <= s.len()
}

/// Extracts the source bytes of one copy command from the image buffer,
/// or nothing when the command's source range runs past the buffer.
pub fn extract_segment(buf: &Vec<u8>, c: &CopyCmd) -> (r: Option<Vec<u8>>)
    ensures
        r is Some <==> cmd_in_bounds(buf@, *c),
        r matches Some(v) ==> v@ == buf@.subrange(
            c.src_offset as int,
            c.src_offset + c.len as int,
        ),
{
    bytes_at(buf, c.src_offset, c.len)
}

} // verus!
