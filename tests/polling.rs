use controller_events::events::Change;
use controller_events::polling::{DeviceIoError, EventSource, RateLimiter};
use controller_events::report::{ButtonId, DPad, REPORT_LEN};

#[test]
fn failed_read_surfaces_error_and_keeps_previous() {
    let mut src = EventSource::new();
    let mut first = vec![0u8; REPORT_LEN];
    first[5] = 0x08;
    first[6] = 0x02;
    let d = src.poll(Ok(first.clone()), 1).unwrap();
    assert_eq!(
        d.events.iter().map(|e| e.change).collect::<Vec<_>>(),
        vec![Change::Pad(DPad::North, DPad::Released), Change::Pressed(ButtonId::R1)]
    );
    assert_eq!(src.previous(), first.as_slice());
    assert_eq!(src.poll(Err(DeviceIoError), 2), Err(DeviceIoError));
    assert_eq!(src.previous(), first.as_slice());
    let d = src.poll(Ok(first.clone()), 3).unwrap();
    assert!(d.events.is_empty());
}

#[test]
fn invalid_pad_nibble_is_not_kept() {
    let mut src = EventSource::new();
    let mut r = vec![0u8; REPORT_LEN];
    r[5] = 0x06;
    src.poll(Ok(r.clone()), 0).unwrap();
    r[5] = 0x1e;
    let d = src.poll(Ok(r.clone()), 1).unwrap();
    assert!(d.pad_error.is_some());
    assert_eq!(d.events.iter().map(|e| e.change).collect::<Vec<_>>(), vec![Change::Pressed(ButtonId::Square)]);
    assert_eq!(src.previous()[5], 0x16);
    r[5] = 0x12;
    let d = src.poll(Ok(r), 2).unwrap();
    assert_eq!(d.events.iter().map(|e| e.change).collect::<Vec<_>>(), vec![Change::Pad(DPad::West, DPad::East)]);
}

#[test]
fn event_source_starts_from_zero_report() {
    let src = EventSource::new();
    assert_eq!(src.previous(), vec![0u8; REPORT_LEN].as_slice());
}

#[test]
fn rate_limiter_delays() {
    let mut rl = RateLimiter::new(16_000_000);
    assert_eq!(rl.delay(5), 0);
    rl.mark(100);
    assert_eq!(rl.delay(100), 16_000_000);
    assert_eq!(rl.delay(6_000_100), 10_000_000);
    assert_eq!(rl.delay(16_000_100), 0);
    assert_eq!(rl.delay(50_000_000), 0);
    assert_eq!(rl.delay(50), 16_000_000);
    assert_eq!(rl.interval, 16_000_000);
}
