//! The note-record format and the module walk that locates a build id in it.
//!
//! A note segment is a sequence of self-describing variable-length records:
//! a 12-byte header (name length, payload length, type tag), then the name
//! bytes and the payload bytes, each padded to 4-byte alignment.  The build
//! id is the payload of the record whose type tag is `NT_GNU_BUILD_ID` and
//! whose name is `"GNU\0"`.
//!
//! Everything here works on plain byte regions and plain descriptor values;
//! the platform shell that obtains them from the loader stays outside the
//! crate.

use vstd::prelude::*;

use crate::align::{lemma_align_up_bounds, spec_align_up};
use crate::region::{lemma_le32_round_trip, read_u32, spec_le32, spec_le32_bytes};
use vstd::slice::{slice_subrange, spec_slice_len};

verus! {

broadcast use vstd::slice::group_slice_axioms;

/// Type tag of the note record that carries a build id.
pub const NT_GNU_BUILD_ID: u32 = 3;

/// Why a byte region could not be split into a leading note record.
///
/// Both cases are expected outcomes on foreign data, never a fault: a
/// segment may end, and a record may claim more bytes than its segment
/// holds.  The needed length is reported as it was computed, so it may
/// exceed what any region on the platform could hold.
#[derive(Clone, Copy, Debug, PartialEq, Eq, Structural)]
pub enum NoteError {
    /// Fewer bytes remain than the three 32-bit header fields occupy.
    MissingHeader { size: usize },
    /// The record's declared extent runs past the end of the region.
    Truncated { have: usize, need: u64 },
}

/// The declared name length of the note record at the start of `note`.
pub open spec fn spec_name_len(note: Seq<u8>) -> nat
    recommends
        note.len() >= 12,
{
    spec_le32(note.subrange(0, 4)) as nat
}

/// The declared payload length of the note record at the start of `note`.
pub open spec fn spec_desc_len(note: Seq<u8>) -> nat
    recommends
        note.len() >= 12,
{
    spec_le32(note.subrange(4, 8)) as nat
}

/// The type tag of the note record at the start of `note`.
pub open spec fn spec_note_type(note: Seq<u8>) -> u32
    recommends
        note.len() >= 12,
{
    spec_le32(note.subrange(8, 12))
}

/// The total extent of the record: header plus padded name plus padded
/// payload.
pub open spec fn spec_note_end(note: Seq<u8>) -> int
    recommends
        note.len() >= 12,
{
    12 + spec_align_up(spec_name_len(note) as int, 4) + spec_align_up(spec_desc_len(note) as int, 4)
}

/// The name bytes of the record (unpadded).
pub open spec fn spec_note_name(note: Seq<u8>) -> Seq<u8> {
    note.subrange(12, 12 + spec_name_len(note) as int)
}

/// The payload bytes of the record (unpadded).
pub open spec fn spec_note_desc(note: Seq<u8>) -> Seq<u8> {
    let b = 12 + spec_align_up(spec_name_len(note) as int, 4);
    note.subrange(b, b + spec_desc_len(note) as int)
}

/// A region holds a whole note record and nothing else.
pub open spec fn spec_note_wf(note: Seq<u8>) -> bool {
    note.len() >= 12 && spec_note_end(note) == note.len()
}

/// Splitting a region into its leading note record and the remainder.
pub open spec fn spec_parse_note(r: Seq<u8>) -> Result<(Seq<u8>, Seq<u8>), NoteError> {
    if r.len() < 12 {
        Err(NoteError::MissingHeader { size: r.len() as usize })
    } else if spec_note_end(r) > r.len() {
        Err(NoteError::Truncated { have: r.len() as usize, need: spec_note_end(r) as u64 })
    } else {
        Ok((r.subrange(0, spec_note_end(r)), r.subrange(spec_note_end(r), r.len() as int)))
    }
}

/// A parsed note record: a view over the exact bytes of one record.
#[derive(Clone, Copy)]
pub struct Note<'a> {
    data: &'a [u8],
}

impl<'a> View for Note<'a> {
    type V = Seq<u8>;

    closed spec fn view(&self) -> Seq<u8> {
        self.data@
    }
}

/// Round a declared field length up to the 4-byte record alignment.
fn align4_u64(x: u64) -> (r: u64)
    requires
        x <= u32::MAX,
    ensures
        r == spec_align_up(x as int, 4),
        x <= r <= x + 3,
{
    proof {
        lemma_align_up_bounds(x as int, 4);
    }
    ((x + 3) / 4) * 4
}

impl<'a> Note<'a> {
    /// Record padding alignment.  The nominal rule of the format gives
    /// 8-byte alignment on wide targets, but toolchains uniformly emit
    /// 4-byte alignment, so that is what the parser follows.
    pub const ALIGN: usize = 4;

    /// The bytes of this record hold exactly one whole note record.
    pub open spec fn wf(self) -> bool {
        spec_note_wf(self@)
    }

    fn from_bytes_raw(data: &'a [u8]) -> (r: Note<'a>)
        ensures
            r@ == data@,
    {
        Note { data }
    }

    /// Split `data` into its leading note record and the unconsumed rest.
    pub fn from_bytes(data: &'a [u8]) -> (r: Result<(Note<'a>, &'a [u8]), NoteError>)
        ensures
            match r {
                Ok((note, rest)) => {
                    &&& spec_parse_note(data@) == Ok::<_, NoteError>((note@, rest@))
                    &&& note.wf()
                },
                Err(e) => spec_parse_note(data@) == Err::<(Seq<u8>, Seq<u8>), _>(e),
            },
    {
        if data.len() < 12 {
            return Err(NoteError::MissingHeader { size: data.len() });
        }
        Self::from_bytes_raw(data).split_trailing()
    }

    /// The declared length of the record's name, in bytes.
    pub fn name_len(&self) -> (r: usize)
        requires
            self@.len() >= 12,
        ensures
            r == spec_name_len(self@),
    {
        read_u32(self.data, 0) as usize
    }

    /// The declared length of the record's payload, in bytes.
    pub fn desc_len(&self) -> (r: usize)
        requires
            self@.len() >= 12,
        ensures
            r == spec_desc_len(self@),
    {
        read_u32(self.data, 4) as usize
    }

    /// The record's type tag.
    pub fn type_(&self) -> (r: u32)
        requires
            self@.len() >= 12,
        ensures
            r == spec_note_type(self@),
    {
        read_u32(self.data, 8)
    }

    /// The record's name bytes.
    pub fn name(&self) -> (r: &'a [u8])
        requires
            self.wf(),
        ensures
            r@ == spec_note_name(self@),
    {
        let nl = read_u32(self.data, 0);
        proof {
            assert(spec_slice_len(self.data) == self.data@.len());
            lemma_align_up_bounds(nl as int, 4);
            lemma_align_up_bounds(spec_desc_len(self@) as int, 4);
        }
        slice_subrange(self.data, 12, 12 + nl as usize)
    }

    /// The record's payload bytes.
    pub fn desc(&self) -> (r: &'a [u8])
        requires
            self.wf(),
        ensures
            r@ == spec_note_desc(self@),
    {
        let nl = read_u32(self.data, 0);
        let dl = read_u32(self.data, 4);
        proof {
            assert(spec_slice_len(self.data) == self.data@.len());
            lemma_align_up_bounds(nl as int, 4);
            lemma_align_up_bounds(dl as int, 4);
        }
        let b = 12 + (align4_u64(nl as u64) as usize);
        slice_subrange(self.data, b, b + dl as usize)
    }

    /// Split off the record declared at the start of this region and hand
    /// back whatever follows it.
    pub fn split_trailing(&self) -> (r: Result<(Note<'a>, &'a [u8]), NoteError>)
        requires
            self@.len() >= 12,
        ensures
            match r {
                Ok((note, rest)) => {
                    &&& spec_parse_note(self@) == Ok::<_, NoteError>((note@, rest@))
                    &&& note.wf()
                },
                Err(e) => spec_parse_note(self@) == Err::<(Seq<u8>, Seq<u8>), _>(e),
            },
    {
        let name_len = read_u32(self.data, 0);
        let desc_len = read_u32(self.data, 4);
        let end: u64 = 12 + align4_u64(name_len as u64) + align4_u64(desc_len as u64);
        if end > self.data.len() as u64 {
            Err(NoteError::Truncated { have: self.data.len(), need: end })
        } else {
            let end = end as usize;
            let note = Note { data: slice_subrange(self.data, 0, end) };
            let rest = slice_subrange(self.data, end, self.data.len());
            Ok((note, rest))
        }
    }
}

/// The fixed name carried by a build-id note record: `"GNU\0"`.
pub open spec fn spec_build_id_name() -> Seq<u8> {
    seq![0x47u8, 0x4Eu8, 0x55u8, 0x00u8]
}

/// The matching rule: build-id type tag, the fixed name, and a non-empty
/// payload.
pub open spec fn spec_is_build_id_note(note: Seq<u8>) -> bool {
    &&& spec_note_type(note) == NT_GNU_BUILD_ID
    &&& spec_desc_len(note) != 0
    &&& spec_note_name(note) == spec_build_id_name()
}

impl<'a> Note<'a> {
    /// Whether this record is a build-id record.
    pub fn is_build_id(&self) -> (r: bool)
        requires
            self.wf(),
        ensures
            r == spec_is_build_id_note(self@),
    {
        if self.type_() != NT_GNU_BUILD_ID {
            return false;
        }
        if self.desc_len() == 0 {
            return false;
        }
        let name = self.name();
        if name.len() != 4 {
            proof {
                assert(spec_note_name(self@).len() != spec_build_id_name().len());
            }
            return false;
        }
        let r = name[0] == 0x47 && name[1] == 0x4E && name[2] == 0x55 && name[3] == 0x00;
        proof {
            if r {
                assert(name@ =~= spec_build_id_name());
            }
        }
        r
    }
}

/// What scanning one note segment for a build id comes to.
pub enum SegmentScan {
    /// The payload of the first matching record.
    Found(Seq<u8>),
    /// The segment ended without a matching record.
    End,
    /// A record could not be split off; the rest of the segment is
    /// abandoned.
    Fail(NoteError),
}

/// Scan a region record by record until a build-id record, the end, or a
/// malformed record.
pub open spec fn spec_scan(r: Seq<u8>) -> SegmentScan
    decreases r.len(),
{
    if r.len() == 0 {
        SegmentScan::End
    } else {
        match spec_parse_note(r) {
            Err(e) => SegmentScan::Fail(e),
            Ok((note, rest)) => {
                if spec_is_build_id_note(note) {
                    SegmentScan::Found(spec_note_desc(note))
                } else {
                    spec_scan(rest)
                }
            },
        }
    }
}

/// Scan the contents of one note segment for a build-id record.
///
/// The records are visited in the order they appear; the first match wins.
/// Running off the end of the segment is the expected no-build-id outcome;
/// a record that misdeclares its lengths stops the scan with the error.
pub fn find_build_id_in_segment<'a>(segment: &'a [u8]) -> (r: Result<Option<&'a [u8]>, NoteError>)
    ensures
        match r {
            Ok(Some(d)) => spec_scan(segment@) == SegmentScan::Found(d@),
            Ok(None) => spec_scan(segment@) == SegmentScan::End,
            Err(e) => spec_scan(segment@) == SegmentScan::Fail(e),
        },
{
    let mut cur: &'a [u8] = segment;
    loop
        invariant
            spec_scan(cur@) == spec_scan(segment@),
        decreases cur@.len(),
    {
        if cur.len() == 0 {
            return Ok(None);
        }
        match Note::from_bytes(cur) {
            Err(e) => {
                return Err(e);
            },
            Ok((note, rest)) => {
                if note.is_build_id() {
                    return Ok(Some(note.desc()));
                }
                cur = rest;
            },
        }
    }
}

/// The byte sequence of a well-formed build-id note record with the given
/// payload: the three header fields, the fixed name (already 4-byte
/// aligned), the payload, and its zero padding.
pub open spec fn spec_encode_build_id_note(payload: Seq<u8>) -> Seq<u8> {
    spec_le32_bytes(4) + spec_le32_bytes(payload.len() as u32) + spec_le32_bytes(NT_GNU_BUILD_ID)
        + spec_build_id_name() + payload + Seq::new(
        (spec_align_up(payload.len() as int, 4) - payload.len()) as nat,
        |i: int| 0u8,
    )
}

/// Round trip: a constructed build-id record parses back as one whole
/// record, matches the build-id rule, and its payload is recovered exactly,
/// so scanning a segment holding just this record finds the payload.
pub proof fn lemma_note_round_trip(payload: Seq<u8>)
    requires
        0 < payload.len() <= u32::MAX,
    ensures
        ({
            let r = spec_encode_build_id_note(payload);
            &&& spec_note_wf(r)
            &&& spec_parse_note(r) == Ok::<_, NoteError>((r, Seq::<u8>::empty()))
            &&& spec_is_build_id_note(r)
            &&& spec_note_desc(r) == payload
            &&& spec_scan(r) == SegmentScan::Found(payload)
        }),
{
    let r = spec_encode_build_id_note(payload);
    let plen = payload.len() as int;
    lemma_align_up_bounds(plen, 4);
    let pad = spec_align_up(plen, 4) - plen;
    assert(r.len() == 16 + plen + pad);
    lemma_le32_round_trip(4);
    lemma_le32_round_trip(payload.len() as u32);
    lemma_le32_round_trip(NT_GNU_BUILD_ID);
    assert(r.subrange(0, 4) =~= spec_le32_bytes(4));
    assert(r.subrange(4, 8) =~= spec_le32_bytes(payload.len() as u32));
    assert(r.subrange(8, 12) =~= spec_le32_bytes(NT_GNU_BUILD_ID));
    assert(spec_name_len(r) == 4 && spec_desc_len(r) == payload.len() && spec_note_type(r)
        == NT_GNU_BUILD_ID);
    assert(spec_align_up(4, 4) == 4);
    assert(spec_note_end(r) == r.len());
    assert(spec_note_name(r) =~= spec_build_id_name());
    assert(spec_note_desc(r) =~= payload);
    assert(r.subrange(0, spec_note_end(r)) =~= r);
    assert(r.subrange(spec_note_end(r), r.len() as int) =~= Seq::<u8>::empty());
}

/// Truncation safety: cutting the backing region of a parseable record
/// anywhere short of the record's declared extent makes the parse fail
/// cleanly — a missing header below 12 bytes, a truncation report above —
/// never an out-of-bounds read.
pub proof fn lemma_truncation_detected(r: Seq<u8>, l: int)
    requires
        spec_parse_note(r) is Ok,
        0 <= l < spec_note_end(r),
        l <= usize::MAX,
    ensures
        ({
            let t = r.subrange(0, l);
            if l < 12 {
                spec_parse_note(t) == Err::<(Seq<u8>, Seq<u8>), _>(
                    NoteError::MissingHeader { size: l as usize },
                )
            } else {
                spec_parse_note(t) == Err::<(Seq<u8>, Seq<u8>), _>(
                    NoteError::Truncated { have: l as usize, need: spec_note_end(r) as u64 },
                )
            }
        }),
{
    let t = r.subrange(0, l);
    if l >= 12 {
        assert(t.subrange(0, 4) =~= r.subrange(0, 4));
        assert(t.subrange(4, 8) =~= r.subrange(4, 8));
        assert(t.subrange(8, 12) =~= r.subrange(8, 12));
        assert(spec_note_end(t) == spec_note_end(r));
    }
}

/// A region that starts with a whole non-matching record scans exactly as
/// the region after that record does: the leading record is skipped.
pub proof fn lemma_scan_skips_leading_record(r1: Seq<u8>, r2: Seq<u8>)
    requires
        spec_note_wf(r1),
        !spec_is_build_id_note(r1),
        r1.len() + r2.len() <= usize::MAX,
    ensures
        spec_scan(r1 + r2) == spec_scan(r2),
{
    let c = r1 + r2;
    assert(c.subrange(0, 4) =~= r1.subrange(0, 4));
    assert(c.subrange(4, 8) =~= r1.subrange(4, 8));
    assert(c.subrange(8, 12) =~= r1.subrange(8, 12));
    assert(spec_note_end(c) == spec_note_end(r1));
    let note = c.subrange(0, spec_note_end(c));
    assert(note =~= r1);
    assert(c.subrange(spec_note_end(c), c.len() as int) =~= r2);
}

/// Segment type of a loadable segment; the first one fixes the module's
/// load base.
pub const PT_LOAD: u32 = 1;

/// Segment type of a note-bearing segment.
pub const PT_NOTE: u32 = 4;

/// The fields of one program segment that the walk reads: its type tag,
/// its virtual address relative to the module's load offset, and its
/// mapped file size.
#[derive(Clone, Copy, Debug, PartialEq, Eq, Structural)]
pub struct ProgramHeader {
    pub p_type: u32,
    pub p_vaddr: u64,
    pub p_filesz: u64,
}

impl ProgramHeader {
    /// Whether this segment carries note records.
    pub fn is_note(&self) -> (r: bool)
        ensures
            r == (self.p_type == PT_NOTE),
    {
        self.p_type == PT_NOTE
    }
}

/// One loaded module as the enumeration facility reports it: its load
/// offset and its program segments, in table order.
pub struct ModuleInfo {
    pub load_offset: u64,
    pub phdrs: Vec<ProgramHeader>,
}

/// The module's load base: its load offset plus the virtual address of its
/// first loadable segment; nothing if no segment is loadable.
pub open spec fn spec_load_base(load_offset: u64, phdrs: Seq<ProgramHeader>) -> Option<int>
    decreases phdrs.len(),
{
    if phdrs.len() == 0 {
        None
    } else if phdrs[0].p_type == PT_LOAD {
        Some(load_offset + phdrs[0].p_vaddr)
    } else {
        spec_load_base(load_offset, phdrs.drop_first())
    }
}

impl ModuleInfo {
    /// Compute this module's load base, or nothing if it has no loadable
    /// segment (such a module is skipped, not an error).
    pub fn load_base(&self) -> (r: Option<u64>)
        requires
            spec_load_base(self.load_offset, self.phdrs@) matches Some(b) ==> b <= u64::MAX,
        ensures
            match r {
                Some(b) => spec_load_base(self.load_offset, self.phdrs@) == Some(b as int),
                None => spec_load_base(self.load_offset, self.phdrs@) is None,
            },
    {
        let ghost all = self.phdrs@;
        proof {
            assert(all.skip(0) =~= all);
        }
        let n = self.phdrs.len();
        let mut i: usize = 0;
        while i < n
            invariant
                i <= n,
                n == self.phdrs@.len(),
                self.phdrs@ == all,
                spec_load_base(self.load_offset, all) matches Some(b) ==> b <= u64::MAX,
                spec_load_base(self.load_offset, all.skip(i as int)) == spec_load_base(
                    self.load_offset,
                    all,
                ),
            decreases n - i,
        {
            let ph = self.phdrs[i];
            if ph.p_type == PT_LOAD {
                return Some(self.load_offset + ph.p_vaddr);
            }
            proof {
                assert(all.skip(i as int).drop_first() =~= all.skip(i as int + 1));
            }
            i = i + 1;
        }
        None
    }

    /// Whether this module is the one whose load base the address lookup
    /// resolved: exact equality of the computed and the resolved base.
    pub fn is_self(&self, resolved_base: u64) -> (r: bool)
        requires
            spec_load_base(self.load_offset, self.phdrs@) matches Some(b) ==> b <= u64::MAX,
        ensures
            r == (spec_load_base(self.load_offset, self.phdrs@) == Some(resolved_base as int)),
    {
        match self.load_base() {
            Some(b) => b == resolved_base,
            None => false,
        }
    }
}

/// Scan the note segments of the matched module in order: the first
/// segment whose scan finds a build-id record decides; a segment that ends
/// or fails is passed over.
pub open spec fn spec_scan_segments(segs: Seq<Seq<u8>>) -> Option<Seq<u8>>
    decreases segs.len(),
{
    if segs.len() == 0 {
        None
    } else {
        match spec_scan(segs[0]) {
            SegmentScan::Found(d) => Some(d),
            _ => spec_scan_segments(segs.drop_first()),
        }
    }
}

/// The build id carried by the given note segments, if any.
///
/// The segments are the contents of the matched module's note-bearing
/// segments, in table order.  A malformed record abandons its segment and
/// the scan moves to the next one; no outcome here is a fault.
pub fn build_id<'a>(note_segments: &Vec<&'a [u8]>) -> (r: Option<&'a [u8]>)
    ensures
        match r {
            Some(d) => spec_scan_segments(note_segments.deep_view()) == Some(d@),
            None => spec_scan_segments(note_segments.deep_view()) is None,
        },
{
    let ghost all = note_segments.deep_view();
    proof {
        assert(all.skip(0) =~= all);
    }
    let n = note_segments.len();
    let mut i: usize = 0;
    while i < n
        invariant
            i <= n,
            n == note_segments@.len(),
            all == note_segments.deep_view(),
            spec_scan_segments(all.skip(i as int)) == spec_scan_segments(all),
        decreases n - i,
    {
        let segment: &'a [u8] = note_segments[i];
        proof {
            assert(all.skip(i as int)[0] == segment@);
            assert(all.skip(i as int).drop_first() =~= all.skip(i as int + 1));
        }
        match find_build_id_in_segment(segment) {
            Ok(Some(d)) => {
                return Some(d);
            },
            _ => {},
        }
        i = i + 1;
    }
    None
}

} // verus!
