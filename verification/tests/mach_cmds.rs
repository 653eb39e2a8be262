use buildid::mach::{build_id, Command, CommandError, CommandIter, LC_UUID};

fn make_cmd(cmd: u32, payload: &[u8]) -> Vec<u8> {
    let mut v = Vec::new();
    v.extend_from_slice(&cmd.to_le_bytes());
    v.extend_from_slice(&((8 + payload.len()) as u32).to_le_bytes());
    v.extend_from_slice(payload);
    v
}

#[test]
fn walk_yields_exactly_declared_commands() {
    let mut region = make_cmd(0x19, &[1, 2, 3, 4]);
    region.extend_from_slice(&make_cmd(0x32, &[]));
    region.extend_from_slice(&make_cmd(0x0E, &[9; 12]));

    let mut it = CommandIter::new(&region, 3);
    let mut yielded = 0;
    while let Some(step) = it.next() {
        let cmd: Command = step.unwrap();
        assert!(cmd.data.len() <= 12);
        yielded += 1;
    }
    assert_eq!(yielded, 3);

    // With a larger declared count the walk stops at the region's end.
    let mut it = CommandIter::new(&region, 5);
    assert!(it.next().unwrap().is_ok());
    assert!(it.next().unwrap().is_ok());
    assert!(it.next().unwrap().is_ok());
    assert_eq!(
        it.next(),
        Some(Err(CommandError::Truncated { have: 0, need: 8 }))
    );
    assert_eq!(it.next(), None);
}

#[test]
fn walk_stops_on_zero_size_command() {
    let mut region = Vec::new();
    region.extend_from_slice(&0x19u32.to_le_bytes());
    region.extend_from_slice(&0u32.to_le_bytes());
    region.extend_from_slice(&[0; 16]);

    let mut it = CommandIter::new(&region, 4);
    assert_eq!(it.next(), Some(Err(CommandError::BadSize { size: 0 })));
    assert_eq!(it.next(), None);
    assert_eq!(build_id(&region, 4), None);
}

#[test]
fn walk_stops_on_oversized_command() {
    let region = {
        let mut v = make_cmd(0x19, &[5, 6]);
        let pos = v.len();
        v.extend_from_slice(&0x1Bu32.to_le_bytes());
        v.extend_from_slice(&100u32.to_le_bytes());
        let _ = pos;
        v
    };
    let mut it = CommandIter::new(&region, 2);
    assert!(it.next().unwrap().is_ok());
    assert_eq!(
        it.next(),
        Some(Err(CommandError::Truncated { have: 8, need: 100 }))
    );
    assert_eq!(it.next(), None);
}

#[test]
fn uuid_command_found() {
    let uuid = [0x42u8; 16];
    let mut region = make_cmd(0x19, &[1, 2, 3, 4]);
    region.extend_from_slice(&make_cmd(LC_UUID, &uuid));
    region.extend_from_slice(&make_cmd(0x0E, &[7; 4]));
    assert_eq!(build_id(&region, 3), Some(&uuid[..]));
}

#[test]
fn first_uuid_wins() {
    let first = [0x11u8; 16];
    let second = [0x22u8; 16];
    let mut region = make_cmd(LC_UUID, &first);
    region.extend_from_slice(&make_cmd(LC_UUID, &second));
    assert_eq!(build_id(&region, 2), Some(&first[..]));
}

#[test]
fn no_uuid_command_absent() {
    let mut region = make_cmd(0x19, &[1, 2, 3, 4]);
    region.extend_from_slice(&make_cmd(0x32, &[]));
    assert_eq!(build_id(&region, 2), None);
    assert_eq!(build_id(&region, 0), None);
    assert_eq!(build_id(&[], 3), None);
}

#[test]
fn uuid_past_declared_count_not_reached() {
    let uuid = [0x33u8; 16];
    let mut region = make_cmd(0x19, &[]);
    region.extend_from_slice(&make_cmd(LC_UUID, &uuid));
    assert_eq!(build_id(&region, 1), None);
    assert_eq!(build_id(&region, 2), Some(&uuid[..]));
}
