use std::cell::RefCell;

use controller_events::controls::{Button, Controls};
use controller_events::events::Change;
use controller_events::report::{ButtonId, DPad, DecodeError, REPORT_LEN};

type NoHandler = fn(bool, bool);
type NoPadHandler = fn(DPad, DPad);

#[test]
fn button_calls_handler_only_on_change() {
    let seen = RefCell::new(Vec::new());
    let mut b = Button::default();
    b.set_handler(|o: bool, n: bool| seen.borrow_mut().push((o, n)));
    assert_eq!(b.update(false), None);
    assert_eq!(b.update(true), Some((false, true)));
    assert_eq!(b.update(true), None);
    assert_eq!(b.update(false), Some((true, false)));
    assert_eq!(*seen.borrow(), vec![(false, true), (true, false)]);
    assert!(!b.state);
}

#[test]
fn button_new_holds_state() {
    let b: Button<DPad, NoPadHandler> = Button::new(DPad::West);
    assert_eq!(b.state, DPad::West);
    assert!(b.handler.is_none());
}

#[test]
fn controls_start_at_zero_report() {
    let c: Controls<NoHandler, NoPadHandler> = Controls::new();
    assert_eq!(c.dpad.state, DPad::North);
    assert_eq!(c.previous_report(), vec![0u8; REPORT_LEN]);
}

#[test]
fn controls_follow_report() {
    let pads = RefCell::new(Vec::new());
    let mut c: Controls<NoHandler, _> = Controls::new();
    c.dpad.set_handler(|o: DPad, n: DPad| pads.borrow_mut().push((o, n)));
    let mut report = [0u8; REPORT_LEN];
    report[5] = 0x90 | 0x02;
    report[6] = 0x21;
    report[7] = 0x02;
    let d = c.update(&report, 1);
    assert_eq!(d.pad_error, None);
    assert!(c.triangle.state && c.square.state && !c.circle.state && !c.x.state);
    assert!(c.options.state && c.l1.state && !c.r1.state && !c.r3.state);
    assert!(c.tpad.state && !c.ps.state);
    assert_eq!(c.dpad.state, DPad::East);
    assert_eq!(c.previous_report()[5], 0x92);
    report[5] = 0x08;
    let d = c.update(&report, 2);
    assert_eq!(
        d.events.iter().map(|e| e.change).collect::<Vec<_>>(),
        vec![
            Change::Released(ButtonId::Triangle),
            Change::Released(ButtonId::Square),
            Change::Pad(DPad::East, DPad::Released),
        ]
    );
    assert!(!c.triangle.state);
    assert_eq!(*pads.borrow(), vec![(DPad::North, DPad::East), (DPad::East, DPad::Released)]);
}

#[test]
fn controls_dispatch_triangle_and_pad_south() {
    let calls = RefCell::new(Vec::new());
    let pads = RefCell::new(Vec::new());
    let mut c = Controls::new();
    let h = |o: bool, n: bool| calls.borrow_mut().push((o, n));
    c.triangle.set_handler(h);
    c.circle.set_handler(h);
    c.r1.set_handler(h);
    c.ps.set_handler(h);
    c.dpad.set_handler(|o: DPad, n: DPad| pads.borrow_mut().push((o, n)));
    let zero = [0u8; REPORT_LEN];
    assert!(c.update(&zero, 0).events.is_empty());
    let mut curr = [0u8; REPORT_LEN];
    curr[5] = 0b1000_0100;
    let d = c.update(&curr, 1);
    assert_eq!(
        d.events.iter().map(|e| e.change).collect::<Vec<_>>(),
        vec![Change::Pressed(ButtonId::Triangle), Change::Pad(DPad::North, DPad::South)]
    );
    assert_eq!(*calls.borrow(), vec![(false, true)]);
    assert_eq!(*pads.borrow(), vec![(DPad::North, DPad::South)]);
    assert!(c.update(&curr, 2).events.is_empty());
    assert_eq!(calls.borrow().len(), 1);
    assert_eq!(pads.borrow().len(), 1);
}

#[test]
fn controls_dispatch_presses_before_releases() {
    let calls = RefCell::new(Vec::new());
    let mut c: Controls<_, NoPadHandler> = Controls::new();
    let h = |o: bool, n: bool| calls.borrow_mut().push((o, n));
    c.r1.set_handler(h);
    c.l1.set_handler(h);
    c.r3.set_handler(h);
    let mut prev = [0u8; REPORT_LEN];
    prev[6] = 0x03;
    c.update(&prev, 0);
    calls.borrow_mut().clear();
    let mut curr = [0u8; REPORT_LEN];
    curr[6] = 0x80;
    let d = c.update(&curr, 1);
    assert_eq!(
        d.events.iter().map(|e| e.change).collect::<Vec<_>>(),
        vec![
            Change::Pressed(ButtonId::R3),
            Change::Released(ButtonId::R1),
            Change::Released(ButtonId::L1),
        ]
    );
    assert_eq!(*calls.borrow(), vec![(false, true), (true, false), (true, false)]);
}

#[test]
fn controls_invalid_pad_keeps_pad_and_updates_buttons() {
    let mut c: Controls<NoHandler, NoPadHandler> = Controls::new();
    let mut report = [0u8; REPORT_LEN];
    report[5] = 0x4c;
    report[7] = 0x01;
    let d = c.update(&report, 0);
    assert_eq!(d.pad_error, Some(DecodeError::InvalidPadValue(0x0c)));
    assert_eq!(
        d.events.iter().map(|e| e.change).collect::<Vec<_>>(),
        vec![Change::Pressed(ButtonId::Circle), Change::Pressed(ButtonId::Ps)]
    );
    assert_eq!(c.dpad.state, DPad::North);
    assert!(c.circle.state && c.ps.state);
    report[5] = 0x44;
    let d = c.update(&report, 1);
    assert_eq!(
        d.events.iter().map(|e| e.change).collect::<Vec<_>>(),
        vec![Change::Pad(DPad::North, DPad::South)]
    );
}

#[test]
fn default_pad_control_is_released() {
    let b: Button<DPad, NoPadHandler> = Button::default();
    assert_eq!(b.state, DPad::Released);
    assert_eq!(b.state, DPad::default());
    let f: Button<bool, NoHandler> = Button::default();
    assert!(!f.state);
}

#[test]
fn controls_poll_failed_read_changes_nothing() {
    let calls = RefCell::new(Vec::new());
    let mut c: Controls<_, NoPadHandler> = Controls::new();
    c.ps.set_handler(|o: bool, n: bool| calls.borrow_mut().push((o, n)));
    let mut report = [0u8; REPORT_LEN];
    report[7] = 0x01;
    let failed: Result<&[u8], &str> = Err("disconnected");
    assert_eq!(c.poll(failed, 0), Err("disconnected"));
    assert!(!c.ps.state);
    assert!(calls.borrow().is_empty());
    let d = c.poll::<&str>(Ok(&report[..]), 1).unwrap();
    assert_eq!(
        d.events.iter().map(|e| e.change).collect::<Vec<_>>(),
        vec![Change::Pressed(ButtonId::Ps)]
    );
    assert_eq!(*calls.borrow(), vec![(false, true)]);
}
