//! Diffing two reports into an ordered sequence of edge-triggered events.
use vstd::prelude::*;
use crate::report::{
    buttons_in, buttons_set, decoded_pad, flat_group, group_of, ButtonId, DPad, DecodeError,
    MaskEntry, AUX_OFFSET, FACE_PAD_OFFSET, REPORT_LEN, SHOULDER_OFFSET,
};

verus! {

/// What changed.
#[derive(Debug, Clone, Copy, PartialEq, Eq, Structural)]
pub enum Change {
    /// A flat button went from released to held.
    Pressed(ButtonId),
    /// A flat button went from held to released.
    Released(ButtonId),
    /// The directional pad left the first position for the second.
    Pad(DPad, DPad),
}

/// One change, stamped with the time of the poll that saw it.
#[derive(Debug, Clone, Copy, PartialEq, Eq, Structural)]
pub struct ButtonEvent {
    pub change: Change,
    pub timestamp: u64,
}

/// The outcome of diffing two reports: the events, and the pad decode error of the
/// current report if its nibble is invalid. The flat-button events are there either way.
#[derive(Debug, Clone, PartialEq, Eq)]
pub struct Derivation {
    pub events: Vec<ButtonEvent>,
    pub pad_error: Option<DecodeError>,
}

pub open spec fn flat_event(b: ButtonId, pressed: bool, ts: u64) -> ButtonEvent {
    ButtonEvent {
        change: if pressed { Change::Pressed(b) } else { Change::Released(b) },
        timestamp: ts,
    }
}

/// One Pressed (or Released) event for each button of `ids`, in order.
pub open spec fn tagged(ids: Seq<ButtonId>, pressed: bool, ts: u64) -> Seq<ButtonEvent> {
    ids.map_values(|b: ButtonId| flat_event(b, pressed, ts))
}

/// The flat-button events of one byte group: nothing when the byte is unchanged;
/// otherwise a Pressed event for each table bit that went from 0 to 1, then a Released
/// event for each table bit that went from 1 to 0.
pub open spec fn byte_events(g: Seq<MaskEntry>, prev: u8, curr: u8, ts: u64) -> Seq<ButtonEvent> {
    if prev == curr {
        seq![]
    } else {
        let changed = prev ^ curr;
        tagged(buttons_in(g, changed & curr), true, ts) + tagged(
            buttons_in(g, changed & prev),
            false,
            ts,
        )
    }
}

/// The pad event between two bytes that hold the pad nibble: one transition when both
/// decode and the positions differ, else none.
pub open spec fn pad_events(prev: u8, curr: u8, ts: u64) -> Seq<ButtonEvent> {
    match (decoded_pad(prev), decoded_pad(curr)) {
        (Ok(a), Ok(b)) => if a != b {
            seq![ButtonEvent { change: Change::Pad(a, b), timestamp: ts }]
        } else {
            seq![]
        },
        _ => seq![],
    }
}

/// The decode error that the pad nibble of the current byte gives, if any.
pub open spec fn pad_error_of(curr: u8) -> Option<DecodeError> {
    match decoded_pad(curr) {
        Ok(_) => None,
        Err(e) => Some(e),
    }
}

/// All events between two reports, by ascending offset: the face buttons, then the pad,
/// then the shoulder byte, then the auxiliary byte.
pub open spec fn report_events(prev: Seq<u8>, curr: Seq<u8>, ts: u64) -> Seq<ButtonEvent> {
    let f = FACE_PAD_OFFSET as int;
    let s = SHOULDER_OFFSET as int;
    let a = AUX_OFFSET as int;
    byte_events(group_of(f), prev[f], curr[f], ts) + pad_events(prev[f], curr[f], ts)
        + byte_events(group_of(s), prev[s], curr[s], ts) + byte_events(
        group_of(a),
        prev[a],
        curr[a],
        ts,
    )
}

fn push_tagged(out: &mut Vec<ButtonEvent>, ids: &Vec<ButtonId>, pressed: bool, ts: u64)
    ensures
        final(out)@ == old(out)@ + tagged(ids@, pressed, ts),
{
    let ghost start = out@;
    let mut i: usize = 0;
    while i < ids.len()
        invariant
            i <= ids@.len(),
            out@ == start + tagged(ids@.subrange(0, i as int), pressed, ts),
        decreases ids@.len() - i,
    {
        let b = ids[i];
        let change = if pressed {
            Change::Pressed(b)
        } else {
            Change::Released(b)
        };
        out.push(ButtonEvent { change, timestamp: ts });
        i = i + 1;
        assert(tagged(ids@.subrange(0, i as int), pressed, ts) =~= tagged(
            ids@.subrange(0, i - 1),
            pressed,
            ts,
        ).push(flat_event(b, pressed, ts)));
    }
    assert(ids@.subrange(0, ids@.len() as int) =~= ids@);
}

/// Appends the flat-button events of one byte group to `out`.
pub fn diff_byte(group: &Vec<MaskEntry>, prev: u8, curr: u8, ts: u64, out: &mut Vec<ButtonEvent>)
    ensures
        final(out)@ == old(out)@ + byte_events(group@, prev, curr, ts),
{
    if prev == curr {
        assert(old(out)@ + seq![] =~= old(out)@);
        return ;
    }
    let changed = prev ^ curr;
    let pressed = buttons_set(changed & curr, group);
    let released = buttons_set(changed & prev, group);
    push_tagged(out, &pressed, true, ts);
    push_tagged(out, &released, false, ts);
    assert(final(out)@ =~= old(out)@ + byte_events(group@, prev, curr, ts));
}

/// The pad transition between two pad bytes, if any.
pub fn pad_transition(prev: u8, curr: u8, ts: u64) -> (r: Option<ButtonEvent>)
    ensures
        pad_events(prev, curr, ts) == match r {
            Some(e) => seq![e],
            None => Seq::<ButtonEvent>::empty(),
        },
{
    match (DPad::from_byte(prev), DPad::from_byte(curr)) {
        (Ok(a), Ok(b)) => if a != b {
            Some(ButtonEvent { change: Change::Pad(a, b), timestamp: ts })
        } else {
            None
        },
        _ => None,
    }
}

/// Every event between the previous and the current report, in ascending offset order,
/// together with the decode error of the current pad nibble if it is invalid.
pub fn derive_events(prev: &[u8], curr: &[u8], ts: u64) -> (r: Derivation)
    requires
        prev@.len() == REPORT_LEN,
        curr@.len() == REPORT_LEN,
    ensures
        r.events@ == report_events(prev@, curr@, ts),
        r.pad_error == pad_error_of(curr@[FACE_PAD_OFFSET as int]),
{
    let mut events: Vec<ButtonEvent> = Vec::new();
    diff_byte(
        &flat_group(FACE_PAD_OFFSET),
        prev[FACE_PAD_OFFSET],
        curr[FACE_PAD_OFFSET],
        ts,
        &mut events,
    );
    match pad_transition(prev[FACE_PAD_OFFSET], curr[FACE_PAD_OFFSET], ts) {
        Some(e) => events.push(e),
        None => {},
    }
    diff_byte(
        &flat_group(SHOULDER_OFFSET),
        prev[SHOULDER_OFFSET],
        curr[SHOULDER_OFFSET],
        ts,
        &mut events,
    );
    diff_byte(&flat_group(AUX_OFFSET), prev[AUX_OFFSET], curr[AUX_OFFSET], ts, &mut events);
    let pad_error = match DPad::from_byte(curr[FACE_PAD_OFFSET]) {
        Ok(_) => None,
        Err(e) => Some(e),
    };
    assert(events@ =~= report_events(prev@, curr@, ts));
    Derivation { events, pad_error }
}

} // verus!
