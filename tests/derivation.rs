use controller_events::events::{derive_events, diff_byte, pad_transition, ButtonEvent, Change};
use controller_events::report::{
    buttons_set, flat_group, ButtonId, DPad, DecodeError, AUX_OFFSET, FACE_PAD_OFFSET,
    REPORT_LEN, SHOULDER_OFFSET,
};

fn report_with(bytes: &[(usize, u8)]) -> Vec<u8> {
    let mut r = vec![0u8; REPORT_LEN];
    for &(i, b) in bytes {
        r[i] = b;
    }
    r
}

fn changes(events: &[ButtonEvent]) -> Vec<Change> {
    events.iter().map(|e| e.change).collect()
}

#[test]
fn triangle_and_pad_south_from_zero_report() {
    let prev = report_with(&[(FACE_PAD_OFFSET, 0b0000_0000)]);
    let curr = report_with(&[(FACE_PAD_OFFSET, 0b1000_0100)]);
    let d = derive_events(&prev, &curr, 7);
    assert_eq!(
        changes(&d.events),
        vec![Change::Pressed(ButtonId::Triangle), Change::Pad(DPad::North, DPad::South)]
    );
    assert!(d.events.iter().all(|e| e.timestamp == 7));
    assert_eq!(d.pad_error, None);
}

#[test]
fn r1_and_l1_released() {
    let prev = report_with(&[(FACE_PAD_OFFSET, 0x08), (SHOULDER_OFFSET, 0x03)]);
    let curr = report_with(&[(FACE_PAD_OFFSET, 0x08), (SHOULDER_OFFSET, 0x00)]);
    let d = derive_events(&prev, &curr, 1);
    let c = changes(&d.events);
    assert_eq!(c.len(), 2);
    assert!(c.contains(&Change::Released(ButtonId::R1)));
    assert!(c.contains(&Change::Released(ButtonId::L1)));
    assert!(c.iter().all(|x| matches!(x, Change::Released(_))));
}

#[test]
fn identical_reports_give_no_events() {
    let x = report_with(&[(FACE_PAD_OFFSET, 0xa3), (SHOULDER_OFFSET, 0x5c), (AUX_OFFSET, 0x03), (0, 0x7f)]);
    let d = derive_events(&x, &x, 3);
    assert!(d.events.is_empty());
    assert_eq!(d.pad_error, None);
}

#[test]
fn unchanged_byte_gives_no_events() {
    let mut out = Vec::new();
    diff_byte(&flat_group(SHOULDER_OFFSET), 0x5a, 0x5a, 0, &mut out);
    assert!(out.is_empty());
}

#[test]
fn single_press_and_single_release() {
    let mut out = Vec::new();
    diff_byte(&flat_group(SHOULDER_OFFSET), 0x01, 0x09, 4, &mut out);
    assert_eq!(out, vec![ButtonEvent { change: Change::Pressed(ButtonId::R2), timestamp: 4 }]);
    let mut out = Vec::new();
    diff_byte(&flat_group(AUX_OFFSET), 0x03, 0x01, 5, &mut out);
    assert_eq!(out, vec![ButtonEvent { change: Change::Released(ButtonId::Touchpad), timestamp: 5 }]);
}

#[test]
fn presses_precede_releases_and_count_matches() {
    let prev: u8 = 0b1010_0101;
    let curr: u8 = 0b0101_0110;
    let mut out = Vec::new();
    diff_byte(&flat_group(SHOULDER_OFFSET), prev, curr, 0, &mut out);
    assert_eq!((prev ^ curr).count_ones() as usize, out.len());
    assert_eq!(
        changes(&out),
        vec![
            Change::Pressed(ButtonId::L3),
            Change::Pressed(ButtonId::Share),
            Change::Pressed(ButtonId::R1),
            Change::Released(ButtonId::R3),
            Change::Released(ButtonId::Options),
            Change::Released(ButtonId::L1),
        ]
    );
}

#[test]
fn pad_change_is_one_transition() {
    let prev = report_with(&[(FACE_PAD_OFFSET, 0x20 | 0x03)]);
    let curr = report_with(&[(FACE_PAD_OFFSET, 0x20 | 0x06)]);
    let d = derive_events(&prev, &curr, 9);
    assert_eq!(changes(&d.events), vec![Change::Pad(DPad::SouthEast, DPad::West)]);
    assert_eq!(pad_transition(0x08, 0x08, 0), None);
    assert_eq!(
        pad_transition(0x18, 0x07, 2),
        Some(ButtonEvent { change: Change::Pad(DPad::Released, DPad::NorthWest), timestamp: 2 })
    );
}

#[test]
fn invalid_pad_keeps_flat_events() {
    let prev = report_with(&[(FACE_PAD_OFFSET, 0x08)]);
    let curr = report_with(&[(FACE_PAD_OFFSET, 0x1b), (AUX_OFFSET, 0x01)]);
    let d = derive_events(&prev, &curr, 0);
    assert_eq!(d.pad_error, Some(DecodeError::InvalidPadValue(0x0b)));
    assert_eq!(
        changes(&d.events),
        vec![Change::Pressed(ButtonId::Square), Change::Pressed(ButtonId::Ps)]
    );
}

#[test]
fn events_follow_offset_order() {
    let prev = report_with(&[(FACE_PAD_OFFSET, 0x48), (SHOULDER_OFFSET, 0x00), (AUX_OFFSET, 0x02)]);
    let curr = report_with(&[(FACE_PAD_OFFSET, 0x02), (SHOULDER_OFFSET, 0x80), (AUX_OFFSET, 0x00)]);
    let d = derive_events(&prev, &curr, 0);
    assert_eq!(
        changes(&d.events),
        vec![
            Change::Released(ButtonId::Circle),
            Change::Pad(DPad::Released, DPad::East),
            Change::Pressed(ButtonId::R3),
            Change::Released(ButtonId::Touchpad),
        ]
    );
}

#[test]
fn untracked_bits_are_ignored() {
    let prev = report_with(&[(AUX_OFFSET, 0x00), (0, 0x00), (8, 0x10)]);
    let curr = report_with(&[(AUX_OFFSET, 0xfc), (0, 0xff), (8, 0x00)]);
    let d = derive_events(&prev, &curr, 0);
    assert!(d.events.is_empty());
}

#[test]
fn pad_nibbles_decode() {
    let expected = [
        DPad::North,
        DPad::NorthEast,
        DPad::East,
        DPad::SouthEast,
        DPad::South,
        DPad::SouthWest,
        DPad::West,
        DPad::NorthWest,
        DPad::Released,
    ];
    for n in 0u8..=8 {
        let p = DPad::from_byte(n).unwrap();
        assert_eq!(p, expected[n as usize]);
        assert_eq!(p.nibble(), n);
        assert_eq!(DPad::from_byte(0xf0 | n), Ok(p));
    }
    for n in 9u8..=15 {
        assert_eq!(DPad::from_byte(n), Err(DecodeError::InvalidPadValue(n)));
    }
    assert_eq!(DPad::default(), DPad::Released);
}

#[test]
fn buttons_set_lists_set_bits_in_table_order() {
    assert_eq!(
        buttons_set(0xa0, &flat_group(FACE_PAD_OFFSET)),
        vec![ButtonId::Triangle, ButtonId::Cross]
    );
    assert_eq!(buttons_set(0x0f, &flat_group(FACE_PAD_OFFSET)), Vec::<ButtonId>::new());
    assert_eq!(buttons_set(0xff, &flat_group(AUX_OFFSET)), vec![ButtonId::Touchpad, ButtonId::Ps]);
    assert_eq!(buttons_set(0xff, &flat_group(0)), Vec::<ButtonId>::new());
    assert_eq!(flat_group(SHOULDER_OFFSET).len(), 8);
}
