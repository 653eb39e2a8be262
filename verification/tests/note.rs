use buildid::elf::{build_id, find_build_id_in_segment, ModuleInfo, Note, NoteError, ProgramHeader};

fn make_note(name: &[u8], desc: &[u8], type_: u32) -> Vec<u8> {
    let mut v = Vec::new();
    v.extend_from_slice(&(name.len() as u32).to_le_bytes());
    v.extend_from_slice(&(desc.len() as u32).to_le_bytes());
    v.extend_from_slice(&type_.to_le_bytes());
    v.extend_from_slice(name);
    while v.len() % Note::ALIGN != 0 {
        v.push(0);
    }
    v.extend_from_slice(desc);
    while v.len() % Note::ALIGN != 0 {
        v.push(0);
    }
    v
}

#[test]
fn note_round_trip() {
    let payload = [0xDE, 0xAD, 0xBE, 0xEF, 0x01, 0x02, 0x03];
    let bytes = make_note(b"GNU\0", &payload, 3);
    let (note, rest) = Note::from_bytes(&bytes).unwrap();
    assert!(rest.is_empty());
    assert_eq!(note.name_len(), 4);
    assert_eq!(note.desc_len(), payload.len());
    assert_eq!(note.type_(), 3);
    assert_eq!(note.name(), &b"GNU\0"[..]);
    assert_eq!(note.desc(), &payload[..]);

    assert_eq!(find_build_id_in_segment(&bytes), Ok(Some(&payload[..])));
}

#[test]
fn note_missing_header() {
    let bytes = make_note(b"GNU\0", &[1, 2, 3, 4], 3);
    for l in 0..12 {
        match Note::from_bytes(&bytes[..l]) {
            Err(e) => assert_eq!(e, NoteError::MissingHeader { size: l }),
            Ok(_) => panic!("a region of {} bytes must not parse", l),
        }
    }
}

#[test]
fn note_truncation_detected() {
    let bytes = make_note(b"GNU\0", &[1, 2, 3, 4, 5], 3);
    let total = bytes.len();
    for l in 12..total {
        match Note::from_bytes(&bytes[..l]) {
            Err(e) => assert_eq!(e, NoteError::Truncated { have: l, need: total as u64 }),
            Ok(_) => panic!("a truncated record must not parse"),
        }
    }
}

#[test]
fn note_multiple_record_skip() {
    let payload = [7u8, 8, 9, 10, 11];
    let mut segment = make_note(b"ABC\0", b"other data", 1);
    segment.extend_from_slice(&make_note(b"GNU\0", &payload, 3));
    assert_eq!(find_build_id_in_segment(&segment), Ok(Some(&payload[..])));
}

#[test]
fn note_no_match_reaches_end() {
    let mut segment = make_note(b"GNU\0", &[1, 2, 3], 1);
    segment.extend_from_slice(&make_note(b"ABC\0", &[4, 5, 6], 3));
    segment.extend_from_slice(&make_note(b"GNU\0", &[], 3));
    assert_eq!(find_build_id_in_segment(&segment), Ok(None));
    assert_eq!(find_build_id_in_segment(&[]), Ok(None));
}

#[test]
fn note_malformed_record_stops_scan() {
    let mut segment = make_note(b"ABC\0", &[1, 2, 3], 1);
    // A trailing header that declares more payload than the segment holds.
    segment.extend_from_slice(&4u32.to_le_bytes());
    segment.extend_from_slice(&0xFFFF_FFF0u32.to_le_bytes());
    segment.extend_from_slice(&3u32.to_le_bytes());
    let r = find_build_id_in_segment(&segment);
    assert_eq!(
        r,
        Err(NoteError::Truncated { have: 12, need: 12 + 4 + 0xFFFF_FFF0u64 })
    );
}

#[test]
fn segments_first_match_wins() {
    let id = [0xAAu8; 20];
    let plain = make_note(b"ABC\0", &[1, 2, 3], 1);
    let with_id = make_note(b"GNU\0", &id, 3);
    let segments = vec![&plain[..], &with_id[..]];
    assert_eq!(build_id(&segments), Some(&id[..]));
    let none: Vec<&[u8]> = Vec::new();
    assert_eq!(build_id(&none), None);
}

#[test]
fn segments_error_passes_to_next() {
    let id = [0x55u8; 8];
    let mut bad = 16u32.to_le_bytes().to_vec();
    bad.extend_from_slice(&0xFFFF_0000u32.to_le_bytes());
    bad.extend_from_slice(&3u32.to_le_bytes());
    let with_id = make_note(b"GNU\0", &id, 3);
    let segments = vec![&bad[..], &with_id[..]];
    assert_eq!(build_id(&segments), Some(&id[..]));
}

#[test]
fn module_load_base_first_loadable() {
    let m = ModuleInfo {
        load_offset: 0x1000,
        phdrs: vec![
            ProgramHeader { p_type: 4, p_vaddr: 0x0, p_filesz: 32 },
            ProgramHeader { p_type: 1, p_vaddr: 0x400, p_filesz: 64 },
            ProgramHeader { p_type: 1, p_vaddr: 0x800, p_filesz: 64 },
        ],
    };
    assert_eq!(m.load_base(), Some(0x1400));
    assert!(m.is_self(0x1400));
    assert!(!m.is_self(0x1800));
}

#[test]
fn module_without_loadable_segment() {
    let m = ModuleInfo {
        load_offset: 0x1000,
        phdrs: vec![ProgramHeader { p_type: 4, p_vaddr: 0x0, p_filesz: 32 }],
    };
    assert_eq!(m.load_base(), None);
    assert!(!m.is_self(0x1000));
}

#[test]
fn program_header_note_tag() {
    assert!(ProgramHeader { p_type: 4, p_vaddr: 0, p_filesz: 0 }.is_note());
    assert!(!ProgramHeader { p_type: 1, p_vaddr: 0, p_filesz: 0 }.is_note());
}
