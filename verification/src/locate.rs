//! Locating the kernel file in a directory listing.
//!
//! The surrounding program enumerates filesystem handles, opens the first
//! volume's root directory and reads its entries one by one; this module
//! holds the decision logic: which entry counts as the kernel file, and
//! which entry of a listing the locator settles on. An entry matches when
//! its attribute bits mark it as exactly an archive (regular) file and its
//! name, truncated to the bounded scratch length, equals the fixed kernel
//! name.

use vstd::prelude::*;

verus! {

/// The attribute bit pattern of a regular (archive) file.
pub const FILE_ATTR_ARCHIVE: u64 = 0x20;

/// Capacity of the bounded scratch buffer a file name is read into; longer
/// names are silently truncated before the comparison.
pub const NAME_SCRATCH_LEN: usize = 64;

/// The fixed name of the kernel file, as bytes: "KERNEL".
pub open spec fn kernel_name() -> Seq<u8> {
    seq![0x4Bu8, 0x45u8, 0x52u8, 0x4Eu8, 0x45u8, 0x4Cu8]
}

/// The fixed name of the kernel file.
pub fn kernel_name_bytes() -> (r: Vec<u8>)
    ensures
        r@ == kernel_name(),
{
    let mut v: Vec<u8> = Vec::new();
    v.push(0x4Bu8);
    v.push(0x45u8);
    v.push(0x52u8);
    v.push(0x4Eu8);
    v.push(0x45u8);
    v.push(0x4Cu8);
    proof {
        assert(v@ =~= kernel_name());
    }
    v
}

/// One directory entry, as read into the scratch record: name bytes,
/// attribute bitset, and file size.
pub struct DirEntry {
    pub name: Vec<u8>,
    pub attr: u64,
    pub size: u64,
}

/// A name as the bounded scratch buffer holds it: cut to the scratch
/// length, kept whole when it already fits.
pub open spec fn truncated_name(name: Seq<u8>) -> Seq<u8> {
    if name.len() <= NAME_SCRATCH_LEN {
        name
    } else {
        name.subrange(0, NAME_SCRATCH_LEN as int)
    }
}

/// Whether a directory entry is the kernel file: attribute exactly the
/// archive bit, and the truncated name equal to the fixed kernel name.
pub open spec fn entry_matches(e: DirEntry) -> bool {
    &&& e.attr == FILE_ATTR_ARCHIVE
    &&& truncated_name(e.name@) == kernel_name()
}

/// Decides whether one directory entry is the kernel file.
pub fn matches_kernel(e: &DirEntry) -> (r: bool)
    ensures
        r == entry_matches(*e),
{
    if e.attr != FILE_ATTR_ARCHIVE {
        return false;
    }
    if e.name.len() != 6 {
        proof {
            if e.name@.len() <= NAME_SCRATCH_LEN {
                assert(truncated_name(e.name@).len() != kernel_name().len());
            } else {
                assert(truncated_name(e.name@).len() == NAME_SCRATCH_LEN);
                assert(truncated_name(e.name@).len() != kernel_name().len());
            }
        }
        return false;
    }
    let k = kernel_name_bytes();
    let mut i: usize = 0;
    while i < 6
        invariant
            i <= 6,
            e.name@.len() == 6,
            k@ == kernel_name(),
            forall|j: int| 0 <= j < i ==> e.name@[j] == kernel_name()[j],
        decreases 6 - i,
    {
        if e.name[i] != k[i] {
            proof {
                assert(truncated_name(e.name@) == e.name@);
                assert(e.name@[i as int] != kernel_name()[i as int]);
            }
            return false;
        }
        i = i + 1;
    }
    proof {
        assert(truncated_name(e.name@) =~= kernel_name());
    }
    true
}

/// What the locator's scan of a full listing may report: the first matching
/// entry's index, or nothing when no entry matches.
pub open spec fn locator_post(s: Seq<DirEntry>, r: Option<usize>) -> bool {
    match r {
        Some(i) => {
            &&& i < s.len()
            &&& entry_matches(s[i as int])
            &&& forall|j: int| 0 <= j < i ==> !entry_matches(s[j])
        },
        None => forall|j: int| 0 <= j < s.len() ==> !entry_matches(s[j]),
    }
}

/// Scans a directory listing for the kernel file: the index of the first
/// matching entry, or `None` when the listing holds no match. First match
/// wins; later entries are not consulted.
pub fn scan_listing(entries: &Vec<DirEntry>) -> (r: Option<usize>)
    ensures
        locator_post(entries@, r),
{
    let n = entries.len();
    let mut i: usize = 0;
    while i < n
        invariant
            i <= n,
            n == entries@.len(),
            forall|j: int| 0 <= j < i ==> !entry_matches(entries@[j]),
        decreases n - i,
    {
        if matches_kernel(&entries[i]) {
            return Some(i);
        }
        i = i + 1;
    }
    None
}

/// A listing that holds the kernel name exactly once is resolved to that
/// entry, whatever its position and however many entries surround it.
pub proof fn lemma_unique_match_found(s: Seq<DirEntry>, r: Option<usize>, k: int)
    requires
        locator_post(s, r),
        0 <= k < s.len(),
        entry_matches(s[k]),
        forall|j: int| 0 <= j < s.len() && j != k ==> !entry_matches(s[j]),
    ensures
        r == Some(k as usize),
{
    match r {
        Some(i) => {
            assert(entry_matches(s[i as int]));
            if (i as int) < k {
                assert(!entry_matches(s[i as int]));
            }
            if (i as int) > k {
                assert(!entry_matches(s[k]));
            }
        },
        None => {
            assert(!entry_matches(s[k]));
        },
    }
}

/// A listing with no matching entry is reported as "not found": the scan
/// reaches the end of the directory and returns nothing.
pub proof fn lemma_no_match_none(s: Seq<DirEntry>, r: Option<usize>)
    requires
        locator_post(s, r),
        forall|j: int| 0 <= j < s.len() ==> !entry_matches(s[j]),
    ensures
        r is None,
{
    match r {
        Some(i) => {
            assert(!entry_matches(s[i as int]));
        },
        None => {},
    }
}

} // verus!
