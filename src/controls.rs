//! Per-control state tracking: each control remembers its last value and calls its
//! handler, with the old and the new value, exactly when the value changes.
use vstd::prelude::*;
use crate::events::{derive_events, pad_error_of, report_events, ButtonEvent, Change, Derivation};
use crate::report::{
    decoded_pad, nibble_of, zero_report, ButtonId, DPad, AUX_OFFSET, FACE_PAD_OFFSET, REPORT_LEN,
    SHOULDER_OFFSET,
};

verus! {

/// A value that a control can hold, with its resting value and an equality test.
pub trait ControlState: Copy {
    /// The value a control holds before any report is seen.
    spec fn rest() -> Self;

    fn initial() -> (r: Self)
        ensures
            r == Self::rest(),
    ;

    fn same(&self, other: &Self) -> (r: bool)
        ensures
            r == (*self == *other),
    ;
}

impl ControlState for bool {
    open spec fn rest() -> bool {
        false
    }

    fn initial() -> (r: bool) {
        false
    }

    fn same(&self, other: &bool) -> (r: bool) {
        *self == *other
    }
}

/// A pad control rests released, as `DPad::default()` has it.
impl ControlState for DPad {
    open spec fn rest() -> DPad {
        DPad::Released
    }

    fn initial() -> (r: DPad) {
        DPad::default()
    }

    fn same(&self, other: &DPad) -> (r: bool) {
        *self == *other
    }
}

/// One control: its last seen value and an optional change handler.
pub struct Button<T, F> {
    pub state: T,
    pub handler: Option<F>,
}

impl<T: ControlState, F: Fn(T, T)> Button<T, F> {
    /// The handler, if any, accepts every pair of values.
    pub open spec fn wf(&self) -> bool {
        match self.handler {
            Some(h) => forall|a: T, b: T| #[trigger] h.requires((a, b)),
            None => true,
        }
    }

    pub fn new(state: T) -> (r: Self)
        ensures
            r.state == state,
            r.handler.is_none(),
            r.wf(),
    {
        Button { state, handler: None }
    }

    /// A control at its resting value, with no handler.
    pub fn default() -> (r: Self)
        ensures
            r.state == T::rest(),
            r.handler.is_none(),
            r.wf(),
    {
        Button::new(T::initial())
    }

    pub fn set_handler(&mut self, handler: F)
        requires
            forall|a: T, b: T| #[trigger] handler.requires((a, b)),
        ensures
            final(self).state == old(self).state,
            final(self).handler == Some(handler),
            final(self).wf(),
    {
        self.handler = Some(handler);
    }

    /// Records a new value. When it differs from the stored one, the handler (if any)
    /// is called once with the old and the new value, and the pair is returned.
    pub fn update(&mut self, new_state: T) -> (r: Option<(T, T)>)
        requires
            old(self).wf(),
        ensures
            final(self).state == new_state,
            final(self).handler == old(self).handler,
            final(self).wf(),
            r == (if old(self).state == new_state {
                None
            } else {
                Some((old(self).state, new_state))
            }),
    {
        if self.state.same(&new_state) {
            None
        } else {
            let old_state = self.state;
            self.state = new_state;
            match &self.handler {
                Some(h) => {
                    h(old_state, new_state);
                },
                None => {},
            }
            Some((old_state, new_state))
        }
    }
}

/// Whether bit `mask` of byte `offset` is set in `report`.
pub open spec fn held(report: Seq<u8>, offset: int, mask: u8) -> bool {
    report[offset] & mask != 0
}

/// `m` when `b` holds, else no bit.
pub open spec fn flag(b: bool, m: u8) -> u8 {
    if b {
        m
    } else {
        0
    }
}

fn flag_of(b: bool, m: u8) -> (r: u8)
    ensures
        r == flag(b, m),
{
    if b {
        m
    } else {
        0
    }
}

/// Every control of the controller.
pub struct Controls<F, G> {
    pub triangle: Button<bool, F>,
    pub circle: Button<bool, F>,
    pub x: Button<bool, F>,
    pub square: Button<bool, F>,
    pub dpad: Button<DPad, G>,
    pub r3: Button<bool, F>,
    pub l3: Button<bool, F>,
    pub options: Button<bool, F>,
    pub share: Button<bool, F>,
    pub r2: Button<bool, F>,
    pub l2: Button<bool, F>,
    pub r1: Button<bool, F>,
    pub l1: Button<bool, F>,
    pub tpad: Button<bool, F>,
    pub ps: Button<bool, F>,
}

impl<F: Fn(bool, bool), G: Fn(DPad, DPad)> Controls<F, G> {
    pub open spec fn wf(&self) -> bool {
        &&& self.triangle.wf()
        &&& self.circle.wf()
        &&& self.x.wf()
        &&& self.square.wf()
        &&& self.dpad.wf()
        &&& self.r3.wf()
        &&& self.l3.wf()
        &&& self.options.wf()
        &&& self.share.wf()
        &&& self.r2.wf()
        &&& self.l2.wf()
        &&& self.r1.wf()
        &&& self.l1.wf()
        &&& self.tpad.wf()
        &&& self.ps.wf()
    }

    /// The handlers of `self` and `other` are the same, control by control.
    pub open spec fn same_handlers(&self, other: &Self) -> bool {
        &&& self.triangle.handler == other.triangle.handler
        &&& self.circle.handler == other.circle.handler
        &&& self.x.handler == other.x.handler
        &&& self.square.handler == other.square.handler
        &&& self.dpad.handler == other.dpad.handler
        &&& self.r3.handler == other.r3.handler
        &&& self.l3.handler == other.l3.handler
        &&& self.options.handler == other.options.handler
        &&& self.share.handler == other.share.handler
        &&& self.r2.handler == other.r2.handler
        &&& self.l2.handler == other.l2.handler
        &&& self.r1.handler == other.r1.handler
        &&& self.l1.handler == other.l1.handler
        &&& self.tpad.handler == other.tpad.handler
        &&& self.ps.handler == other.ps.handler
    }

    /// The report that the controls stand for: each flat button's bit set when it is
    /// held, the pad nibble of the pad's position, every other bit clear.
    pub open spec fn seen(&self) -> Seq<u8> {
        let face = flag(self.triangle.state, 0x80) | flag(self.circle.state, 0x40) | flag(
            self.x.state,
            0x20,
        ) | flag(self.square.state, 0x10) | nibble_of(self.dpad.state);
        let shoulder = flag(self.r3.state, 0x80) | flag(self.l3.state, 0x40) | flag(
            self.options.state,
            0x20,
        ) | flag(self.share.state, 0x10) | flag(self.r2.state, 0x08) | flag(self.l2.state, 0x04)
            | flag(self.r1.state, 0x02) | flag(self.l1.state, 0x01);
        let aux = flag(self.tpad.state, 0x02) | flag(self.ps.state, 0x01);
        zero_report().update(FACE_PAD_OFFSET as int, face).update(
            SHOULDER_OFFSET as int,
            shoulder,
        ).update(AUX_OFFSET as int, aux)
    }

    /// No control has a handler.
    pub open spec fn no_handlers(&self) -> bool {
        &&& self.triangle.handler is None
        &&& self.circle.handler is None
        &&& self.x.handler is None
        &&& self.square.handler is None
        &&& self.dpad.handler is None
        &&& self.r3.handler is None
        &&& self.l3.handler is None
        &&& self.options.handler is None
        &&& self.share.handler is None
        &&& self.r2.handler is None
        &&& self.l2.handler is None
        &&& self.r1.handler is None
        &&& self.l1.handler is None
        &&& self.tpad.handler is None
        &&& self.ps.handler is None
    }

    /// The flat buttons of `self` hold what `report` says.
    pub open spec fn flat_match(&self, report: Seq<u8>) -> bool {
        let f = FACE_PAD_OFFSET as int;
        let s = SHOULDER_OFFSET as int;
        let a = AUX_OFFSET as int;
        &&& self.triangle.state == held(report, f, 0x80)
        &&& self.circle.state == held(report, f, 0x40)
        &&& self.x.state == held(report, f, 0x20)
        &&& self.square.state == held(report, f, 0x10)
        &&& self.r3.state == held(report, s, 0x80)
        &&& self.l3.state == held(report, s, 0x40)
        &&& self.options.state == held(report, s, 0x20)
        &&& self.share.state == held(report, s, 0x10)
        &&& self.r2.state == held(report, s, 0x08)
        &&& self.l2.state == held(report, s, 0x04)
        &&& self.r1.state == held(report, s, 0x02)
        &&& self.l1.state == held(report, s, 0x01)
        &&& self.tpad.state == held(report, a, 0x02)
        &&& self.ps.state == held(report, a, 0x01)
    }

    /// Every control as the all-zero report has it (buttons released, pad North, which
    /// is what that report's nibble decodes to, not a default pad control's Released),
    /// with no handlers. The first update is diffed against that report, so it reports every
    /// held button as pressed and any other pad position as a move from North.
    pub fn new() -> (r: Self)
        ensures
            r.wf(),
            r.flat_match(zero_report()),
            r.dpad.state == DPad::North,
            r.seen() == zero_report(),
            r.no_handlers(),
    {
        let r = Controls {
            triangle: Button::default(),
            circle: Button::default(),
            x: Button::default(),
            square: Button::default(),
            dpad: Button::new(DPad::North),
            r3: Button::default(),
            l3: Button::default(),
            options: Button::default(),
            share: Button::default(),
            r2: Button::default(),
            l2: Button::default(),
            r1: Button::default(),
            l1: Button::default(),
            tpad: Button::default(),
            ps: Button::default(),
        };
        assert(0u8 & 0x80u8 == 0 && 0u8 & 0x40u8 == 0 && 0u8 & 0x20u8 == 0 && 0u8 & 0x10u8 == 0
            && 0u8 & 0x08u8 == 0 && 0u8 & 0x04u8 == 0 && 0u8 & 0x02u8 == 0 && 0u8 & 0x01u8 == 0)
            by (bit_vector);
        assert((0u8 | 0u8 | 0u8 | 0u8 | 0u8) == 0u8 && (0u8 | 0u8 | 0u8 | 0u8 | 0u8 | 0u8 | 0u8
            | 0u8) == 0u8 && (0u8 | 0u8) == 0u8) by (bit_vector);
        assert(r.seen() =~= zero_report());
        r
    }

    /// The report that the controls stand for.
    pub fn previous_report(&self) -> (r: Vec<u8>)
        ensures
            r@ == self.seen(),
    {
        let mut r: Vec<u8> = vec![0u8; REPORT_LEN];
        let face = flag_of(self.triangle.state, 0x80) | flag_of(self.circle.state, 0x40) | flag_of(
            self.x.state,
            0x20,
        ) | flag_of(self.square.state, 0x10) | self.dpad.state.nibble();
        let shoulder = flag_of(self.r3.state, 0x80) | flag_of(self.l3.state, 0x40) | flag_of(
            self.options.state,
            0x20,
        ) | flag_of(self.share.state, 0x10) | flag_of(self.r2.state, 0x08) | flag_of(
            self.l2.state,
            0x04,
        ) | flag_of(self.r1.state, 0x02) | flag_of(self.l1.state, 0x01);
        let aux = flag_of(self.tpad.state, 0x02) | flag_of(self.ps.state, 0x01);
        r.set(FACE_PAD_OFFSET, face);
        r.set(SHOULDER_OFFSET, shoulder);
        r.set(AUX_OFFSET, aux);
        assert(r@ =~= self.seen());
        r
    }

    fn notify_flat(&self, id: ButtonId, was: bool, now: bool)
        requires
            self.wf(),
    {
        let b = match id {
            ButtonId::Triangle => &self.triangle,
            ButtonId::Circle => &self.circle,
            ButtonId::Cross => &self.x,
            ButtonId::Square => &self.square,
            ButtonId::R3 => &self.r3,
            ButtonId::L3 => &self.l3,
            ButtonId::Options => &self.options,
            ButtonId::Share => &self.share,
            ButtonId::R2 => &self.r2,
            ButtonId::L2 => &self.l2,
            ButtonId::R1 => &self.r1,
            ButtonId::L1 => &self.l1,
            ButtonId::Touchpad => &self.tpad,
            ButtonId::Ps => &self.ps,
        };
        match &b.handler {
            Some(h) => {
                h(was, now);
            },
            None => {},
        }
    }

    /// Calls, for each event in order, the handler of the control it names: a flat
    /// button's with `(false, true)` for Pressed and `(true, false)` for Released, the
    /// pad's with the old and the new position.
    fn dispatch(&self, events: &Vec<ButtonEvent>)
        requires
            self.wf(),
    {
        let mut i: usize = 0;
        while i < events.len()
            invariant
                self.wf(),
            decreases events@.len() - i,
        {
            match events[i].change {
                Change::Pressed(id) => self.notify_flat(id, false, true),
                Change::Released(id) => self.notify_flat(id, true, false),
                Change::Pad(a, b) => match &self.dpad.handler {
                    Some(h) => {
                        h(a, b);
                    },
                    None => {},
                },
            }
            i = i + 1;
        }
    }

    /// Brings every control up to date with `report` and returns the events between the
    /// report the controls stood for and `report` (see [`derive_events`]): nothing for an
    /// unchanged byte, Pressed before Released within a byte, one event per changed
    /// table bit, one pad transition, bytes in ascending order. The handlers are then
    /// called once per event, in that order. When the pad nibble is invalid the pad
    /// keeps its last valid position and the error is returned beside the flat-button
    /// events, which are updated and dispatched either way.
    pub fn update(&mut self, report: &[u8], ts: u64) -> (r: Derivation)
        requires
            old(self).wf(),
            report@.len() == REPORT_LEN,
        ensures
            final(self).wf(),
            final(self).same_handlers(old(self)),
            r.events@ == report_events(old(self).seen(), report@, ts),
            r.pad_error == pad_error_of(report@[FACE_PAD_OFFSET as int]),
            final(self).flat_match(report@),
            match decoded_pad(report@[FACE_PAD_OFFSET as int]) {
                Ok(p) => final(self).dpad.state == p,
                Err(_) => final(self).dpad.state == old(self).dpad.state,
            },
    {
        let previous = self.previous_report();
        let d = derive_events(previous.as_slice(), report, ts);
        let f = report[FACE_PAD_OFFSET];
        let s = report[SHOULDER_OFFSET];
        let a = report[AUX_OFFSET];
        self.triangle.state = f & 0x80 != 0;
        self.circle.state = f & 0x40 != 0;
        self.x.state = f & 0x20 != 0;
        self.square.state = f & 0x10 != 0;
        match DPad::from_byte(f) {
            Ok(p) => {
                self.dpad.state = p;
            },
            Err(_) => {},
        }
        self.r3.state = s & 0x80 != 0;
        self.l3.state = s & 0x40 != 0;
        self.options.state = s & 0x20 != 0;
        self.share.state = s & 0x10 != 0;
        self.r2.state = s & 0x08 != 0;
        self.l2.state = s & 0x04 != 0;
        self.r1.state = s & 0x02 != 0;
        self.l1.state = s & 0x01 != 0;
        self.tpad.state = a & 0x02 != 0;
        self.ps.state = a & 0x01 != 0;
        self.dispatch(&d.events);
        d
    }

    /// One step of the polling loop, given what the device read gave. A failed read is
    /// handed back as it is and leaves every control and handler untouched: nothing is
    /// derived and no handler runs. A report is handled as [`Controls::update`] does.
    pub fn poll<E>(&mut self, read: Result<&[u8], E>, ts: u64) -> (r: Result<Derivation, E>)
        requires
            old(self).wf(),
            read matches Ok(report) ==> report@.len() == REPORT_LEN,
        ensures
            final(self).wf(),
            final(self).same_handlers(old(self)),
            match read {
                Err(e) => r == Err::<Derivation, E>(e) && *final(self) == *old(self),
                Ok(report) => match r {
                    Ok(d) => {
                        &&& d.events@ == report_events(old(self).seen(), report@, ts)
                        &&& d.pad_error == pad_error_of(report@[FACE_PAD_OFFSET as int])
                        &&& final(self).flat_match(report@)
                        &&& match decoded_pad(report@[FACE_PAD_OFFSET as int]) {
                            Ok(p) => final(self).dpad.state == p,
                            Err(_) => final(self).dpad.state == old(self).dpad.state,
                        }
                    },
                    Err(_) => false,
                },
            },
    {
        match read {
            Err(e) => Err(e),
            Ok(report) => Ok(self.update(report, ts)),
        }
    }
}

} // verus!
