//! The fixed report layout: which bit of which byte is which button, and how the
//! directional-pad nibble decodes.
use vstd::prelude::*;

verus! {

/// Length in bytes of one raw status report.
pub const REPORT_LEN: usize = 64;

/// Offset of the byte holding the four face buttons (high nibble) and the pad nibble (low).
pub const FACE_PAD_OFFSET: usize = 5;

/// Offset of the byte holding the shoulder, stick and menu buttons.
pub const SHOULDER_OFFSET: usize = 6;

/// Offset of the byte holding the touchpad click and the system button.
pub const AUX_OFFSET: usize = 7;

/// Mask of the directional-pad nibble within its byte.
pub const PAD_MASK: u8 = 0x0f;

/// Identity of a flat (single-bit) button.
#[derive(Debug, Clone, Copy, PartialEq, Eq, Structural)]
pub enum ButtonId {
    Triangle,
    Circle,
    Cross,
    Square,
    R3,
    L3,
    Options,
    Share,
    R2,
    L2,
    R1,
    L1,
    Touchpad,
    Ps,
}

/// Position of the directional pad: eight compass directions or released.
#[derive(Debug, Clone, Copy, PartialEq, Eq, Structural)]
pub enum DPad {
    Released,
    NorthWest,
    West,
    SouthWest,
    South,
    SouthEast,
    East,
    NorthEast,
    North,
}

/// A report that cannot be decoded.
#[derive(Debug, Clone, Copy, PartialEq, Eq, Structural)]
pub enum DecodeError {
    /// The pad nibble held this value, outside 0 to 8.
    InvalidPadValue(u8),
}

/// One row of the flat-button table: the button whose bit is `mask`.
#[derive(Debug, Clone, Copy, PartialEq, Eq, Structural)]
pub struct MaskEntry {
    pub mask: u8,
    pub button: ButtonId,
}

/// The all-zero report.
pub open spec fn zero_report() -> Seq<u8> {
    Seq::new(REPORT_LEN as nat, |i: int| 0u8)
}

/// The pad position that a nibble value stands for, if any.
pub open spec fn pad_of(n: u8) -> Option<DPad> {
    if n == 0 {
        Some(DPad::North)
    } else if n == 1 {
        Some(DPad::NorthEast)
    } else if n == 2 {
        Some(DPad::East)
    } else if n == 3 {
        Some(DPad::SouthEast)
    } else if n == 4 {
        Some(DPad::South)
    } else if n == 5 {
        Some(DPad::SouthWest)
    } else if n == 6 {
        Some(DPad::West)
    } else if n == 7 {
        Some(DPad::NorthWest)
    } else if n == 8 {
        Some(DPad::Released)
    } else {
        None
    }
}

/// The nibble value that encodes a pad position.
pub open spec fn nibble_of(p: DPad) -> u8 {
    match p {
        DPad::North => 0,
        DPad::NorthEast => 1,
        DPad::East => 2,
        DPad::SouthEast => 3,
        DPad::South => 4,
        DPad::SouthWest => 5,
        DPad::West => 6,
        DPad::NorthWest => 7,
        DPad::Released => 8,
    }
}

/// What decoding the pad nibble of byte `b` gives.
pub open spec fn decoded_pad(b: u8) -> Result<DPad, DecodeError> {
    match pad_of(b & PAD_MASK) {
        Some(p) => Ok(p),
        None => Err(DecodeError::InvalidPadValue(b & PAD_MASK)),
    }
}

pub open spec fn entry(mask: u8, button: ButtonId) -> MaskEntry {
    MaskEntry { mask, button }
}

/// The flat buttons of the byte at `offset`, from the highest bit down; empty for an
/// untracked offset. The pad nibble is not in the table.
pub open spec fn group_of(offset: int) -> Seq<MaskEntry> {
    if offset == FACE_PAD_OFFSET {
        seq![
            entry(0x80, ButtonId::Triangle),
            entry(0x40, ButtonId::Circle),
            entry(0x20, ButtonId::Cross),
            entry(0x10, ButtonId::Square),
        ]
    } else if offset == SHOULDER_OFFSET {
        seq![
            entry(0x80, ButtonId::R3),
            entry(0x40, ButtonId::L3),
            entry(0x20, ButtonId::Options),
            entry(0x10, ButtonId::Share),
            entry(0x08, ButtonId::R2),
            entry(0x04, ButtonId::L2),
            entry(0x02, ButtonId::R1),
            entry(0x01, ButtonId::L1),
        ]
    } else if offset == AUX_OFFSET {
        seq![entry(0x02, ButtonId::Touchpad), entry(0x01, ButtonId::Ps)]
    } else {
        seq![]
    }
}

/// The bits of the byte at `offset` that the flat table covers.
pub open spec fn tracked_mask(offset: int) -> u8 {
    if offset == FACE_PAD_OFFSET {
        0xf0
    } else if offset == SHOULDER_OFFSET {
        0xff
    } else if offset == AUX_OFFSET {
        0x03
    } else {
        0
    }
}

/// The buttons of `g` whose bit is set in `bits`, in table order.
pub open spec fn buttons_in(g: Seq<MaskEntry>, bits: u8) -> Seq<ButtonId>
    decreases g.len(),
{
    if g.len() == 0 {
        seq![]
    } else {
        let rest = buttons_in(g.drop_last(), bits);
        if bits & g.last().mask != 0 {
            rest.push(g.last().button)
        } else {
            rest
        }
    }
}

impl DPad {
    /// Decodes the pad nibble (the low four bits) of a report byte.
    pub fn from_byte(b: u8) -> (r: Result<DPad, DecodeError>)
        ensures
            r == decoded_pad(b),
    {
        let n = b & PAD_MASK;
        match n {
            0x08 => Ok(DPad::Released),
            0x07 => Ok(DPad::NorthWest),
            0x06 => Ok(DPad::West),
            0x05 => Ok(DPad::SouthWest),
            0x04 => Ok(DPad::South),
            0x03 => Ok(DPad::SouthEast),
            0x02 => Ok(DPad::East),
            0x01 => Ok(DPad::NorthEast),
            0x00 => Ok(DPad::North),
            _ => Err(DecodeError::InvalidPadValue(n)),
        }
    }

    /// The nibble value that encodes this position.
    pub fn nibble(&self) -> (r: u8)
        ensures
            r == nibble_of(*self),
    {
        match self {
            DPad::North => 0,
            DPad::NorthEast => 1,
            DPad::East => 2,
            DPad::SouthEast => 3,
            DPad::South => 4,
            DPad::SouthWest => 5,
            DPad::West => 6,
            DPad::NorthWest => 7,
            DPad::Released => 8,
        }
    }
}

impl Default for DPad {
    fn default() -> (r: DPad)
        ensures
            r == DPad::Released,
    {
        DPad::Released
    }
}

/// The flat-button table of the byte at `offset`.
pub fn flat_group(offset: usize) -> (r: Vec<MaskEntry>)
    ensures
        r@ == group_of(offset as int),
{
    if offset == FACE_PAD_OFFSET {
        vec![
            MaskEntry { mask: 0x80, button: ButtonId::Triangle },
            MaskEntry { mask: 0x40, button: ButtonId::Circle },
            MaskEntry { mask: 0x20, button: ButtonId::Cross },
            MaskEntry { mask: 0x10, button: ButtonId::Square },
        ]
    } else if offset == SHOULDER_OFFSET {
        vec![
            MaskEntry { mask: 0x80, button: ButtonId::R3 },
            MaskEntry { mask: 0x40, button: ButtonId::L3 },
            MaskEntry { mask: 0x20, button: ButtonId::Options },
            MaskEntry { mask: 0x10, button: ButtonId::Share },
            MaskEntry { mask: 0x08, button: ButtonId::R2 },
            MaskEntry { mask: 0x04, button: ButtonId::L2 },
            MaskEntry { mask: 0x02, button: ButtonId::R1 },
            MaskEntry { mask: 0x01, button: ButtonId::L1 },
        ]
    } else if offset == AUX_OFFSET {
        vec![
            MaskEntry { mask: 0x02, button: ButtonId::Touchpad },
            MaskEntry { mask: 0x01, button: ButtonId::Ps },
        ]
    } else {
        Vec::new()
    }
}

/// Every button of `group` whose bit is set in `byte`, in table order.
pub fn buttons_set(byte: u8, group: &Vec<MaskEntry>) -> (r: Vec<ButtonId>)
    ensures
        r@ == buttons_in(group@, byte),
{
    let mut r: Vec<ButtonId> = Vec::new();
    let mut i: usize = 0;
    while i < group.len()
        invariant
            i <= group@.len(),
            r@ == buttons_in(group@.subrange(0, i as int), byte),
        decreases group@.len() - i,
    {
        let e = group[i];
        proof {
            let next = group@.subrange(0, i + 1);
            assert(next.drop_last() =~= group@.subrange(0, i as int));
            assert(next.last() == e);
        }
        if byte & e.mask != 0 {
            r.push(e.button);
        }
        i = i + 1;
    }
    assert(group@.subrange(0, group@.len() as int) =~= group@);
    r
}

} // verus!
