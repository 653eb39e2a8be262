//! The debug-directory walk that locates a build id in structured-header
//! formats.
//!
//! The module image opens with a legacy header whose field at offset 0x3C
//! points at the newer header; behind that sit a fixed file header, an
//! optional header (this walker reads the wide 64-bit layout), and a table
//! of data directories.  Directory entry 6 describes the debug directory:
//! an array of 28-byte entries.  The entry of the symbol-format type points
//! at a payload that opens with a 4-byte signature and then the 16-byte
//! identifier.
//!
//! Every step is bounds-checked against the image region; any shortfall,
//! absent table, or wrong signature is the no-identifier outcome, never a
//! fault.

use vstd::prelude::*;

use crate::region::{read_u16, read_u32, spec_le16, spec_le32};
use vstd::slice::slice_subrange;

verus! {

broadcast use vstd::slice::group_slice_axioms;

/// Index of the debug directory in the optional header's directory table.
pub const IMAGE_DIRECTORY_ENTRY_DEBUG: u32 = 6;

/// Type tag of a debug-directory entry that carries symbol-format data.
pub const IMAGE_DEBUG_TYPE_CODEVIEW: u32 = 2;

/// Leading signature of the recognized symbol-format payload (`"RSDS"`).
pub const CV_SIGNATURE_PDB70: u32 = 0x5344_5352;

/// Offset of the pointer to the newer header inside the legacy header.
pub const NEW_HEADER_PTR_OFFSET: usize = 0x3C;

/// Size of one debug-directory entry.
pub const DEBUG_DIRECTORY_ENTRY_SIZE: u32 = 28;

/// Byte offset of the file header: the legacy header's pointer plus the
/// 4-byte signature it points at.
pub open spec fn spec_file_header_off(img: Seq<u8>) -> int
    recommends
        img.len() >= 0x40,
{
    spec_le32(img.subrange(0x3C, 0x40)) + 4
}

/// Locate the debug data directory: its virtual address and declared size.
///
/// Nothing is found when the image is too short for a header, the optional
/// header is absent, or the directory table does not reach entry 6.
pub open spec fn spec_debug_dir(img: Seq<u8>) -> Option<(u32, u32)> {
    if img.len() < 0x40 {
        None
    } else {
        let fh = spec_file_header_off(img);
        if fh + 20 > img.len() {
            None
        } else if spec_le16(img.subrange(fh + 16, fh + 18)) == 0 {
            None
        } else {
            let opt = fh + 20;
            if opt + 112 > img.len() {
                None
            } else if spec_le32(img.subrange(opt + 108, opt + 112))
                <= IMAGE_DIRECTORY_ENTRY_DEBUG {
                None
            } else if opt + 168 > img.len() {
                None
            } else {
                Some(
                    (
                        spec_le32(img.subrange(opt + 160, opt + 164)),
                        spec_le32(img.subrange(opt + 164, opt + 168)),
                    ),
                )
            }
        }
    }
}

/// The identifier inside a symbol-format payload at `raw`: the 16 bytes
/// after the leading signature, provided the signature is the recognized
/// one and the payload lies inside the image.
pub open spec fn spec_codeview_id(img: Seq<u8>, raw: int) -> Option<Seq<u8>> {
    if raw + 24 > img.len() {
        None
    } else if spec_le32(img.subrange(raw, raw + 4)) != CV_SIGNATURE_PDB70 {
        None
    } else {
        Some(img.subrange(raw + 4, raw + 20))
    }
}

/// Scan up to `n` debug-directory entries from `base`; the first entry of
/// the symbol-format type decides the outcome.
pub open spec fn spec_scan_debug_entries(img: Seq<u8>, base: int, n: nat) -> Option<Seq<u8>>
    decreases n,
{
    if n == 0 {
        None
    } else if base + 28 > img.len() {
        None
    } else if spec_le32(img.subrange(base + 12, base + 16)) == IMAGE_DEBUG_TYPE_CODEVIEW {
        spec_codeview_id(img, spec_le32(img.subrange(base + 20, base + 24)) as int)
    } else {
        spec_scan_debug_entries(img, base + 28, (n - 1) as nat)
    }
}

/// The identifier carried by the image, if any: the debug directory is
/// located, its entries are scanned, and the matching entry's payload is
/// verified and read.
pub open spec fn spec_pe_build_id(img: Seq<u8>) -> Option<Seq<u8>> {
    match spec_debug_dir(img) {
        None => None,
        Some((va, size)) => {
            if size == 0 {
                None
            } else {
                spec_scan_debug_entries(img, va as int, (size / 28) as nat)
            }
        },
    }
}

/// A debug directory whose declared size is zero yields nothing, whatever
/// its (meaningless) address field holds; the address is never read.
pub proof fn lemma_empty_debug_directory_absent(img: Seq<u8>)
    requires
        spec_debug_dir(img) matches Some((va, size)) && size == 0,
    ensures
        spec_pe_build_id(img) is None,
{
}

/// The identifier carried by a module image, if any.
///
/// `image` is the module's mapped image from its base.  Absence of any
/// header, table, or entry along the way, and a payload with the wrong
/// signature, are all the `None` outcome.
pub fn build_id<'a>(image: &'a [u8]) -> (r: Option<&'a [u8]>)
    ensures
        match r {
            Some(d) => spec_pe_build_id(image@) == Some(d@),
            None => spec_pe_build_id(image@) is None,
        },
{
    let img_len = image.len();
    if img_len < 0x40 {
        return None;
    }
    let e_lfanew = read_u32(image, NEW_HEADER_PTR_OFFSET);
    let fh: u64 = e_lfanew as u64 + 4;
    if fh + 20 > img_len as u64 {
        return None;
    }
    let fh_us = fh as usize;
    let opt_size = read_u16(image, fh_us + 16);
    if opt_size == 0 {
        return None;
    }
    let opt: u64 = fh + 20;
    if opt + 112 > img_len as u64 {
        return None;
    }
    let opt_us = opt as usize;
    let nrva = read_u32(image, opt_us + 108);
    if nrva <= IMAGE_DIRECTORY_ENTRY_DEBUG {
        return None;
    }
    if opt + 168 > img_len as u64 {
        return None;
    }
    let dir_va = read_u32(image, opt_us + 160);
    let dir_size = read_u32(image, opt_us + 164);
    if dir_size == 0 {
        return None;
    }
    let n_entries = dir_size / DEBUG_DIRECTORY_ENTRY_SIZE;

    let mut i: u32 = 0;
    while i < n_entries
        invariant
            i <= n_entries,
            img_len == image@.len(),
            spec_debug_dir(image@) == Some((dir_va, dir_size)),
            dir_size != 0,
            n_entries == dir_size / 28,
            spec_scan_debug_entries(
                image@,
                dir_va as int + i as int * 28,
                (n_entries - i) as nat,
            ) == spec_pe_build_id(image@),
        decreases n_entries - i,
    {
        let base: u64 = dir_va as u64 + i as u64 * 28;
        if base + 28 > img_len as u64 {
            return None;
        }
        let base_us = base as usize;
        let entry_type = read_u32(image, base_us + 12);
        if entry_type == IMAGE_DEBUG_TYPE_CODEVIEW {
            let raw = read_u32(image, base_us + 20);
            if raw as u64 + 24 > img_len as u64 {
                return None;
            }
            let raw_us = raw as usize;
            let sig = read_u32(image, raw_us);
            if sig != CV_SIGNATURE_PDB70 {
                return None;
            }
            return Some(slice_subrange(image, raw_us + 4, raw_us + 20));
        }
        i = i + 1;
    }
    None
}

} // verus!
