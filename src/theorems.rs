//! Properties of the report model and of event derivation, proved over the spec
//! functions that the executable code is verified against.
use vstd::prelude::*;
use crate::controls::{flag, Controls};
use crate::events::{byte_events, flat_event, pad_events, report_events, tagged, ButtonEvent, Change};
use crate::report::{
    buttons_in, decoded_pad, group_of, ButtonId, nibble_of, pad_of, tracked_mask, DPad, MaskEntry,
    AUX_OFFSET, FACE_PAD_OFFSET, REPORT_LEN, SHOULDER_OFFSET,
};

verus! {

/// `m` has exactly one bit set.
pub open spec fn one_bit(m: u8) -> bool {
    m == 0x01 || m == 0x02 || m == 0x04 || m == 0x08 || m == 0x10 || m == 0x20 || m == 0x40
        || m == 0x80
}

/// Each entry of `g` has a single-bit mask, and no two entries share a mask.
pub open spec fn disjoint_masks(g: Seq<MaskEntry>) -> bool {
    &&& forall|i: int| 0 <= i < g.len() ==> one_bit(#[trigger] g[i].mask)
    &&& forall|i: int, j: int|
        0 <= i < g.len() && 0 <= j < g.len() && i != j ==> #[trigger] g[i].mask != #[trigger] g[j].mask
}

/// The byte offsets that carry flat buttons.
pub open spec fn tracked_offset(offset: int) -> bool {
    offset == FACE_PAD_OFFSET || offset == SHOULDER_OFFSET || offset == AUX_OFFSET
}

proof fn distinct_bits(a: u8, b: u8)
    by (bit_vector)
    requires
        one_bit(a),
        one_bit(b),
    ensures
        a != b ==> a & b == 0,
        a & a != 0,
{
}

/// Within each tracked byte the flat table's masks are single, distinct bits.
pub proof fn tables_have_disjoint_masks(offset: int)
    ensures
        disjoint_masks(group_of(offset)),
{
}

proof fn buttons_in_none(g: Seq<MaskEntry>, bits: u8)
    requires
        forall|i: int| 0 <= i < g.len() ==> bits & #[trigger] g[i].mask == 0,
    ensures
        buttons_in(g, bits) == Seq::<crate::report::ButtonId>::empty(),
    decreases g.len(),
{
    if g.len() > 0 {
        let d = g.drop_last();
        assert forall|i: int| 0 <= i < d.len() implies bits & #[trigger] d[i].mask == 0 by {
            assert(d[i] == g[i]);
        }
        buttons_in_none(d, bits);
        assert(bits & g[g.len() - 1].mask == 0);
    }
}

proof fn buttons_in_one(g: Seq<MaskEntry>, bits: u8, k: int)
    requires
        0 <= k < g.len(),
        bits & g[k].mask != 0,
        forall|i: int| 0 <= i < g.len() && i != k ==> bits & #[trigger] g[i].mask == 0,
    ensures
        buttons_in(g, bits) == seq![g[k].button],
    decreases g.len(),
{
    let d = g.drop_last();
    if k == g.len() - 1 {
        assert forall|i: int| 0 <= i < d.len() implies bits & #[trigger] d[i].mask == 0 by {
            assert(d[i] == g[i]);
        }
        buttons_in_none(d, bits);
        assert(buttons_in(g, bits) =~= seq![g[k].button]);
    } else {
        assert forall|i: int| 0 <= i < d.len() && i != k implies bits & #[trigger] d[i].mask
            == 0 by {
            assert(d[i] == g[i]);
        }
        assert(d[k] == g[k]);
        buttons_in_one(d, bits, k);
        assert(bits & g[g.len() - 1].mask == 0);
    }
}

/// In a table of disjoint single-bit masks, the byte holding only entry `k`'s bit
/// selects exactly entry `k`'s button.
pub proof fn single_mask_selects_one(g: Seq<MaskEntry>, k: int)
    requires
        disjoint_masks(g),
        0 <= k < g.len(),
    ensures
        buttons_in(g, g[k].mask) == seq![g[k].button],
{
    let m = g[k].mask;
    assert forall|i: int| 0 <= i < g.len() && i != k implies m & #[trigger] g[i].mask == 0 by {
        distinct_bits(m, g[i].mask);
    }
    distinct_bits(m, m);
    buttons_in_one(g, m, k);
}

proof fn zero_selects_none(g: Seq<MaskEntry>)
    ensures
        buttons_in(g, 0) == Seq::<crate::report::ButtonId>::empty(),
{
    assert forall|i: int| 0 <= i < g.len() implies 0u8 & #[trigger] g[i].mask == 0 by {
        let m = g[i].mask;
        assert(0u8 & m == 0) by (bit_vector);
    }
    buttons_in_none(g, 0);
}

/// A byte that did not change yields no events.
pub proof fn unchanged_byte_yields_nothing(g: Seq<MaskEntry>, b: u8, ts: u64)
    ensures
        byte_events(g, b, b, ts) == Seq::<ButtonEvent>::empty(),
{
}

/// Diffing a report against itself yields no events.
pub proof fn identical_reports_yield_nothing(x: Seq<u8>, ts: u64)
    requires
        x.len() == REPORT_LEN,
    ensures
        report_events(x, x, ts) == Seq::<ButtonEvent>::empty(),
{
    assert(report_events(x, x, ts) =~= Seq::<ButtonEvent>::empty());
}

/// When exactly one table bit of a tracked byte goes from 0 to 1, the byte yields one
/// Pressed event for that bit's button and nothing else.
pub proof fn single_press_yields_one_event(offset: int, k: int, prev: u8, ts: u64)
    requires
        tracked_offset(offset),
        0 <= k < group_of(offset).len(),
        prev & group_of(offset)[k].mask == 0,
    ensures
        byte_events(group_of(offset), prev, prev | group_of(offset)[k].mask, ts) == seq![
            flat_event(group_of(offset)[k].button, true, ts),
        ],
{
    let g = group_of(offset);
    let m = g[k].mask;
    let curr = prev | m;
    tables_have_disjoint_masks(offset);
    assert(one_bit(m));
    assert(prev != curr && (prev ^ curr) & curr == m && (prev ^ curr) & prev == 0) by (bit_vector)
        requires
            prev & m == 0,
            one_bit(m),
            curr == prev | m,
    ;
    single_mask_selects_one(g, k);
    zero_selects_none(g);
    assert(byte_events(g, prev, curr, ts) =~= seq![flat_event(g[k].button, true, ts)]);
}

/// When exactly one table bit of a tracked byte goes from 1 to 0, the byte yields one
/// Released event for that bit's button and nothing else.
pub proof fn single_release_yields_one_event(offset: int, k: int, prev: u8, ts: u64)
    requires
        tracked_offset(offset),
        0 <= k < group_of(offset).len(),
        prev & group_of(offset)[k].mask != 0,
    ensures
        byte_events(group_of(offset), prev, prev & !group_of(offset)[k].mask, ts) == seq![
            flat_event(group_of(offset)[k].button, false, ts),
        ],
{
    let g = group_of(offset);
    let m = g[k].mask;
    let curr = prev & !m;
    tables_have_disjoint_masks(offset);
    assert(one_bit(m));
    assert(prev != curr && (prev ^ curr) & curr == 0 && (prev ^ curr) & prev == m) by (bit_vector)
        requires
            prev & m != 0,
            one_bit(m),
            curr == prev & !m,
    ;
    single_mask_selects_one(g, k);
    zero_selects_none(g);
    assert(byte_events(g, prev, curr, ts) =~= seq![flat_event(g[k].button, false, ts)]);
}

/// The events of one byte group are flat button events, and no Pressed event comes
/// after a Released one.
pub proof fn pressed_before_released(g: Seq<MaskEntry>, prev: u8, curr: u8, ts: u64)
    ensures
        forall|i: int|
            0 <= i < byte_events(g, prev, curr, ts).len() ==> !(#[trigger] byte_events(
                g,
                prev,
                curr,
                ts,
            )[i].change is Pad),
        forall|i: int, j: int|
            0 <= i < j < byte_events(g, prev, curr, ts).len() && #[trigger] byte_events(
                g,
                prev,
                curr,
                ts,
            )[i].change is Released ==> #[trigger] byte_events(g, prev, curr, ts)[j].change is Released,
{
    if prev != curr {
        let changed = prev ^ curr;
        let p = tagged(buttons_in(g, changed & curr), true, ts);
        let r = tagged(buttons_in(g, changed & prev), false, ts);
        let ev = byte_events(g, prev, curr, ts);
        assert(ev == p + r);
        assert forall|i: int| 0 <= i < ev.len() implies (i < p.len() ==> ev[i].change is Pressed)
            && (i >= p.len() ==> ev[i].change is Released) by {
            if i < p.len() {
                assert(ev[i] == p[i]);
            } else {
                assert(ev[i] == r[i - p.len()]);
            }
        }
    }
}

/// Pad decoding: the nibbles 0 to 8 each stand for one position, and each position is
/// encoded by exactly one of them; the nibbles 9 to 15 stand for none.
pub proof fn pad_decoding_round_trips()
    ensures
        forall|n: u8| n <= 8 ==> (#[trigger] pad_of(n)) is Some && nibble_of(pad_of(n)->Some_0) == n,
        forall|n: u8| 9 <= n <= 15 ==> (#[trigger] pad_of(n)) is None,
        forall|p: DPad| #[trigger] pad_of(nibble_of(p)) == Some(p),
        forall|p: DPad, q: DPad| #[trigger] nibble_of(p) == #[trigger] nibble_of(q) ==> p == q,
{
}

/// A pad change is one logical transition: between two pad bytes there is at most one
/// pad event, never a flat one, and exactly one when both nibbles decode to different
/// positions.
pub proof fn pad_events_are_one_transition(prev: u8, curr: u8, ts: u64)
    ensures
        pad_events(prev, curr, ts).len() <= 1,
        forall|i: int|
            0 <= i < pad_events(prev, curr, ts).len() ==> (#[trigger] pad_events(prev, curr, ts)[i]).change is Pad,
        decoded_pad(prev) is Ok && decoded_pad(curr) is Ok && decoded_pad(prev) != decoded_pad(curr)
            ==> pad_events(prev, curr, ts) == seq![
            ButtonEvent {
                change: Change::Pad(decoded_pad(prev)->Ok_0, decoded_pad(curr)->Ok_0),
                timestamp: ts,
            },
        ],
{
}

/// Two reports that differ only in the pad nibble yield the single pad transition and
/// no flat button events.
pub proof fn pad_only_change_yields_one_transition(prev: Seq<u8>, curr: Seq<u8>, ts: u64)
    requires
        prev.len() == REPORT_LEN,
        curr.len() == REPORT_LEN,
        forall|i: int| 0 <= i < REPORT_LEN && i != FACE_PAD_OFFSET ==> prev[i] == curr[i],
        prev[FACE_PAD_OFFSET as int] & 0xf0 == curr[FACE_PAD_OFFSET as int] & 0xf0,
        decoded_pad(prev[FACE_PAD_OFFSET as int]) is Ok,
        decoded_pad(curr[FACE_PAD_OFFSET as int]) is Ok,
        decoded_pad(prev[FACE_PAD_OFFSET as int]) != decoded_pad(curr[FACE_PAD_OFFSET as int]),
    ensures
        report_events(prev, curr, ts) == seq![
            ButtonEvent {
                change: Change::Pad(
                    decoded_pad(prev[FACE_PAD_OFFSET as int])->Ok_0,
                    decoded_pad(curr[FACE_PAD_OFFSET as int])->Ok_0,
                ),
                timestamp: ts,
            },
        ],
{
    let f = FACE_PAD_OFFSET as int;
    let p = prev[f];
    let c = curr[f];
    let g = group_of(f);
    assert(((p ^ c) & c) & 0x80 == 0 && ((p ^ c) & c) & 0x40 == 0 && ((p ^ c) & c) & 0x20 == 0
        && ((p ^ c) & c) & 0x10 == 0 && ((p ^ c) & p) & 0x80 == 0 && ((p ^ c) & p) & 0x40 == 0
        && ((p ^ c) & p) & 0x20 == 0 && ((p ^ c) & p) & 0x10 == 0) by (bit_vector)
        requires
            p & 0xf0 == c & 0xf0,
    ;
    buttons_in_none(g, (p ^ c) & c);
    buttons_in_none(g, (p ^ c) & p);
    assert(prev[SHOULDER_OFFSET as int] == curr[SHOULDER_OFFSET as int]);
    assert(prev[AUX_OFFSET as int] == curr[AUX_OFFSET as int]);
    assert(report_events(prev, curr, ts) =~= pad_events(p, c, ts));
}

/// 1 when `b` has a bit of `m` set, else 0.
pub open spec fn ind(b: u8, m: u8) -> nat {
    if b & m != 0 {
        1
    } else {
        0
    }
}

/// The number of bits set in `b`.
pub open spec fn bit_count(b: u8) -> nat {
    ind(b, 0x80) + ind(b, 0x40) + ind(b, 0x20) + ind(b, 0x10) + ind(b, 0x08) + ind(b, 0x04) + ind(
        b,
        0x02,
    ) + ind(b, 0x01)
}

/// How many of the first `n` entries of `g` have their bit set in `bits`.
pub open spec fn selected_upto(g: Seq<MaskEntry>, bits: u8, n: int) -> nat
    decreases n,
{
    if n <= 0 {
        0
    } else {
        selected_upto(g, bits, n - 1) + ind(bits, g[n - 1].mask)
    }
}

proof fn selected_upto_prefix(g: Seq<MaskEntry>, d: Seq<MaskEntry>, bits: u8, n: int)
    requires
        0 <= n <= d.len(),
        n <= g.len(),
        forall|i: int| 0 <= i < n ==> g[i] == d[i],
    ensures
        selected_upto(g, bits, n) == selected_upto(d, bits, n),
    decreases n,
{
    if n > 0 {
        selected_upto_prefix(g, d, bits, n - 1);
    }
}

proof fn buttons_in_len(g: Seq<MaskEntry>, bits: u8)
    ensures
        buttons_in(g, bits).len() == selected_upto(g, bits, g.len() as int),
    decreases g.len(),
{
    if g.len() > 0 {
        let d = g.drop_last();
        buttons_in_len(d, bits);
        selected_upto_prefix(g, d, bits, d.len() as int);
    }
}

proof fn split_bit(p: u8, q: u8, m: u8)
    by (bit_vector)
    requires
        one_bit(m),
    ensures
        ((p ^ q) & m != 0) == (((p ^ q) & q) & m != 0 || ((p ^ q) & p) & m != 0),
        !(((p ^ q) & q) & m != 0 && ((p ^ q) & p) & m != 0),
{
}

proof fn split_all_bits(p: u8, q: u8)
    ensures
        ind(p ^ q, 0x80) == ind((p ^ q) & q, 0x80) + ind((p ^ q) & p, 0x80),
        ind(p ^ q, 0x40) == ind((p ^ q) & q, 0x40) + ind((p ^ q) & p, 0x40),
        ind(p ^ q, 0x20) == ind((p ^ q) & q, 0x20) + ind((p ^ q) & p, 0x20),
        ind(p ^ q, 0x10) == ind((p ^ q) & q, 0x10) + ind((p ^ q) & p, 0x10),
        ind(p ^ q, 0x08) == ind((p ^ q) & q, 0x08) + ind((p ^ q) & p, 0x08),
        ind(p ^ q, 0x04) == ind((p ^ q) & q, 0x04) + ind((p ^ q) & p, 0x04),
        ind(p ^ q, 0x02) == ind((p ^ q) & q, 0x02) + ind((p ^ q) & p, 0x02),
        ind(p ^ q, 0x01) == ind((p ^ q) & q, 0x01) + ind((p ^ q) & p, 0x01),
{
    split_bit(p, q, 0x80);
    split_bit(p, q, 0x40);
    split_bit(p, q, 0x20);
    split_bit(p, q, 0x10);
    split_bit(p, q, 0x08);
    split_bit(p, q, 0x04);
    split_bit(p, q, 0x02);
    split_bit(p, q, 0x01);
}

proof fn face_count(prev: u8, curr: u8)
    requires
        (prev ^ curr) & !0xf0u8 == 0,
    ensures
        buttons_in(group_of(FACE_PAD_OFFSET as int), (prev ^ curr) & curr).len() + buttons_in(
            group_of(FACE_PAD_OFFSET as int),
            (prev ^ curr) & prev,
        ).len() == bit_count(prev ^ curr),
{
    let g = group_of(FACE_PAD_OFFSET as int);
    let c = prev ^ curr;
    buttons_in_len(g, c & curr);
    buttons_in_len(g, c & prev);
    reveal_with_fuel(selected_upto, 5);
    split_all_bits(prev, curr);
    assert(c & 0x08 == 0 && c & 0x04 == 0 && c & 0x02 == 0 && c & 0x01 == 0) by (bit_vector)
        requires
            c & !0xf0u8 == 0,
    ;
}

proof fn shoulder_count(prev: u8, curr: u8)
    ensures
        buttons_in(group_of(SHOULDER_OFFSET as int), (prev ^ curr) & curr).len() + buttons_in(
            group_of(SHOULDER_OFFSET as int),
            (prev ^ curr) & prev,
        ).len() == bit_count(prev ^ curr),
{
    let g = group_of(SHOULDER_OFFSET as int);
    let c = prev ^ curr;
    buttons_in_len(g, c & curr);
    buttons_in_len(g, c & prev);
    reveal_with_fuel(selected_upto, 9);
    split_all_bits(prev, curr);
}

proof fn aux_count(prev: u8, curr: u8)
    requires
        (prev ^ curr) & !0x03u8 == 0,
    ensures
        buttons_in(group_of(AUX_OFFSET as int), (prev ^ curr) & curr).len() + buttons_in(
            group_of(AUX_OFFSET as int),
            (prev ^ curr) & prev,
        ).len() == bit_count(prev ^ curr),
{
    let g = group_of(AUX_OFFSET as int);
    let c = prev ^ curr;
    buttons_in_len(g, c & curr);
    buttons_in_len(g, c & prev);
    reveal_with_fuel(selected_upto, 3);
    split_all_bits(prev, curr);
    assert(c & 0x80 == 0 && c & 0x40 == 0 && c & 0x20 == 0 && c & 0x10 == 0 && c & 0x08 == 0 && c
        & 0x04 == 0) by (bit_vector)
        requires
            c & !0x03u8 == 0,
    ;
}

/// When only table bits of a tracked byte change, the byte yields one event per
/// changed bit: the number of events is the number of bits set in `prev ^ curr`.
pub proof fn event_count_is_changed_bit_count(offset: int, prev: u8, curr: u8, ts: u64)
    requires
        tracked_offset(offset),
        (prev ^ curr) & !tracked_mask(offset) == 0,
    ensures
        byte_events(group_of(offset), prev, curr, ts).len() == bit_count(prev ^ curr),
{
    let c = prev ^ curr;
    if prev == curr {
        assert(bit_count(prev ^ curr) == 0) by (bit_vector)
            requires
                prev == curr,
        ;
    } else if offset == FACE_PAD_OFFSET {
        face_count(prev, curr);
    } else if offset == SHOULDER_OFFSET {
        shoulder_count(prev, curr);
    } else {
        aux_count(prev, curr);
    }
}

/// No two entries of `g` name the same button.
pub open spec fn distinct_buttons(g: Seq<MaskEntry>) -> bool {
    forall|i: int, j: int|
        0 <= i < g.len() && 0 <= j < g.len() && i != j ==> #[trigger] g[i].button
            != #[trigger] g[j].button
}

proof fn buttons_in_from_table(g: Seq<MaskEntry>, bits: u8)
    ensures
        forall|x: ButtonId| #[trigger]
            buttons_in(g, bits).contains(x) ==> exists|i: int| 0 <= i < g.len() && g[i].button == x,
    decreases g.len(),
{
    if g.len() > 0 {
        let d = g.drop_last();
        buttons_in_from_table(d, bits);
        assert forall|x: ButtonId| #[trigger] buttons_in(g, bits).contains(x) implies exists|i: int|
            0 <= i < g.len() && g[i].button == x by {
            if buttons_in(d, bits).contains(x) {
                let i = choose|i: int| 0 <= i < d.len() && d[i].button == x;
                assert(g[i] == d[i]);
            } else {
                assert(x == g[g.len() - 1].button);
            }
        }
    }
}

proof fn buttons_in_contains(g: Seq<MaskEntry>, bits: u8, k: int)
    requires
        distinct_buttons(g),
        0 <= k < g.len(),
    ensures
        buttons_in(g, bits).contains(g[k].button) <==> bits & g[k].mask != 0,
    decreases g.len(),
{
    let d = g.drop_last();
    let last = g.len() - 1;
    if k == last {
        buttons_in_from_table(d, bits);
        if buttons_in(d, bits).contains(g[k].button) {
            let i = choose|i: int| 0 <= i < d.len() && d[i].button == g[k].button;
            assert(g[i] == d[i]);
        }
        if bits & g[k].mask != 0 {
            assert(buttons_in(g, bits).last() == g[k].button);
        }
    } else {
        assert forall|i: int, j: int|
            0 <= i < d.len() && 0 <= j < d.len() && i != j implies #[trigger] d[i].button
            != #[trigger] d[j].button by {
            assert(d[i] == g[i] && d[j] == g[j]);
        }
        assert(d[k] == g[k]);
        buttons_in_contains(d, bits, k);
        assert(g[last].button != g[k].button);
        if bits & g[last].mask != 0 {
            let r = buttons_in(d, bits);
            assert(buttons_in(g, bits) == r.push(g[last].button));
            if r.push(g[last].button).contains(g[k].button) {
                let n = choose|n: int| 0 <= n < r.len() + 1 && r.push(g[last].button)[n] == g[k].button;
                assert(n < r.len());
                assert(r[n] == g[k].button);
            }
            if r.contains(g[k].button) {
                let n = choose|n: int| 0 <= n < r.len() && r[n] == g[k].button;
                assert(r.push(g[last].button)[n] == g[k].button);
            }
        }
    }
}

proof fn tagged_contains(ids: Seq<ButtonId>, pressed: bool, ts: u64, b: ButtonId)
    ensures
        tagged(ids, pressed, ts).contains(flat_event(b, pressed, ts)) <==> ids.contains(b),
        !tagged(ids, pressed, ts).contains(flat_event(b, !pressed, ts)),
{
    let t = tagged(ids, pressed, ts);
    if ids.contains(b) {
        let n = choose|n: int| 0 <= n < ids.len() && ids[n] == b;
        assert(t[n] == flat_event(b, pressed, ts));
    }
    if t.contains(flat_event(b, pressed, ts)) {
        let n = choose|n: int| 0 <= n < t.len() && t[n] == flat_event(b, pressed, ts);
        assert(ids[n] == b);
    }
    if t.contains(flat_event(b, !pressed, ts)) {
        let n = choose|n: int| 0 <= n < t.len() && t[n] == flat_event(b, !pressed, ts);
        assert(t[n] == flat_event(ids[n], pressed, ts));
    }
}

/// A flat button gets a Pressed event from its byte exactly when its bit goes from 0 to
/// 1, and a Released event exactly when its bit goes from 1 to 0: a control's change is
/// reported if and only if its value changed.
pub proof fn flat_event_iff_bit_changed(offset: int, k: int, prev: u8, curr: u8, ts: u64)
    requires
        tracked_offset(offset),
        0 <= k < group_of(offset).len(),
    ensures
        byte_events(group_of(offset), prev, curr, ts).contains(
            flat_event(group_of(offset)[k].button, true, ts),
        ) <==> (prev & group_of(offset)[k].mask == 0 && curr & group_of(offset)[k].mask != 0),
        byte_events(group_of(offset), prev, curr, ts).contains(
            flat_event(group_of(offset)[k].button, false, ts),
        ) <==> (prev & group_of(offset)[k].mask != 0 && curr & group_of(offset)[k].mask == 0),
{
    let g = group_of(offset);
    let m = g[k].mask;
    let b = g[k].button;
    tables_have_disjoint_masks(offset);
    assert(one_bit(m));
    assert(distinct_buttons(g));
    if prev == curr {
        assert(!(prev & m == 0 && curr & m != 0) && !(prev & m != 0 && curr & m == 0));
    } else {
        let c = prev ^ curr;
        let pr = buttons_in(g, c & curr);
        let rl = buttons_in(g, c & prev);
        buttons_in_contains(g, c & curr, k);
        buttons_in_contains(g, c & prev, k);
        tagged_contains(pr, true, ts, b);
        tagged_contains(rl, false, ts, b);
        assert(((c & curr) & m != 0) == (prev & m == 0 && curr & m != 0) && ((c & prev) & m != 0)
            == (prev & m != 0 && curr & m == 0)) by (bit_vector)
            requires
                c == prev ^ curr,
                one_bit(m),
        ;
        let ev = byte_events(g, prev, curr, ts);
        assert(ev == tagged(pr, true, ts) + tagged(rl, false, ts));
        assert forall|e: ButtonEvent| ev.contains(e) <==> (tagged(pr, true, ts).contains(e)
            || tagged(rl, false, ts).contains(e)) by {
            let a = tagged(pr, true, ts);
            let z = tagged(rl, false, ts);
            if ev.contains(e) {
                let n = choose|n: int| 0 <= n < ev.len() && ev[n] == e;
                if n < a.len() {
                    assert(a[n] == e);
                } else {
                    assert(z[n - a.len()] == e);
                }
            }
            if a.contains(e) {
                let n = choose|n: int| 0 <= n < a.len() && a[n] == e;
                assert(ev[n] == e);
            }
            if z.contains(e) {
                let n = choose|n: int| 0 <= n < z.len() && z[n] == e;
                assert(ev[n + a.len()] == e);
            }
        }
    }
}

proof fn buttons_in_agree(g: Seq<MaskEntry>, a: u8, b: u8)
    requires
        forall|i: int| 0 <= i < g.len() ==> (a & #[trigger] g[i].mask != 0) == (b & g[i].mask != 0),
    ensures
        buttons_in(g, a) == buttons_in(g, b),
    decreases g.len(),
{
    if g.len() > 0 {
        let d = g.drop_last();
        assert forall|i: int| 0 <= i < d.len() implies (a & #[trigger] d[i].mask != 0) == (b
            & d[i].mask != 0) by {
            assert(d[i] == g[i]);
        }
        buttons_in_agree(d, a, b);
        assert((a & g[g.len() - 1].mask != 0) == (b & g[g.len() - 1].mask != 0));
    }
}

proof fn bits_agree(s: u8, p: u8, y: u8, m: u8)
    by (bit_vector)
    requires
        s & m == p & m,
    ensures
        (((s ^ y) & y) & m != 0) == (((p ^ y) & y) & m != 0),
        (((s ^ y) & s) & m != 0) == (((p ^ y) & p) & m != 0),
        s == y ==> ((p ^ y) & y) & m == 0 && ((p ^ y) & p) & m == 0,
        p == y ==> ((s ^ y) & y) & m == 0 && ((s ^ y) & s) & m == 0,
{
}

/// Two previous bytes that agree on every bit of a table give the same events against
/// any current byte.
proof fn table_bits_decide_events(g: Seq<MaskEntry>, s: u8, p: u8, y: u8, ts: u64)
    requires
        forall|i: int| 0 <= i < g.len() ==> s & #[trigger] g[i].mask == p & g[i].mask,
    ensures
        byte_events(g, s, y, ts) == byte_events(g, p, y, ts),
{
    assert forall|i: int| 0 <= i < g.len() implies {
        &&& (((s ^ y) & y) & #[trigger] g[i].mask != 0) == (((p ^ y) & y) & g[i].mask != 0)
        &&& (((s ^ y) & s) & g[i].mask != 0) == (((p ^ y) & p) & g[i].mask != 0)
        &&& s == y ==> ((p ^ y) & y) & g[i].mask == 0 && ((p ^ y) & p) & g[i].mask == 0
        &&& p == y ==> ((s ^ y) & y) & g[i].mask == 0 && ((s ^ y) & s) & g[i].mask == 0
    } by {
        bits_agree(s, p, y, g[i].mask);
    }
    if s == y && p != y {
        buttons_in_none(g, (p ^ y) & y);
        buttons_in_none(g, (p ^ y) & p);
        assert(byte_events(g, p, y, ts) =~= byte_events(g, s, y, ts));
    } else if p == y && s != y {
        buttons_in_none(g, (s ^ y) & y);
        buttons_in_none(g, (s ^ y) & s);
        assert(byte_events(g, p, y, ts) =~= byte_events(g, s, y, ts));
    } else if s != y && p != y {
        buttons_in_agree(g, (s ^ y) & y, (p ^ y) & y);
        buttons_in_agree(g, (s ^ y) & s, (p ^ y) & p);
    }
}

proof fn flag_is_bit(x: u8, m: u8)
    by (bit_vector)
    requires
        one_bit(m),
    ensures
        flag(x & m != 0, m) == x & m,
{
}

/// The events that `Controls::update` dispatches, taken against the report the controls
/// stand for, are exactly the events between the last report they were brought up to
/// date with (`prev`, with a valid pad nibble) and the current one. So every property of
/// `report_events` holds of what the controls dispatch.
pub proof fn controls_events_are_report_events<F: Fn(bool, bool), G: Fn(DPad, DPad)>(
    c: Controls<F, G>,
    prev: Seq<u8>,
    curr: Seq<u8>,
    ts: u64,
)
    requires
        prev.len() == REPORT_LEN,
        curr.len() == REPORT_LEN,
        c.flat_match(prev),
        decoded_pad(prev[FACE_PAD_OFFSET as int]) == Ok::<DPad, crate::report::DecodeError>(
            c.dpad.state,
        ),
    ensures
        report_events(c.seen(), curr, ts) == report_events(prev, curr, ts),
{
    let sn = c.seen();
    let f = FACE_PAD_OFFSET as int;
    let sh = SHOULDER_OFFSET as int;
    let a = AUX_OFFSET as int;
    let x = prev[f];
    let y = prev[sh];
    let z = prev[a];
    flag_is_bit(x, 0x80);
    flag_is_bit(x, 0x40);
    flag_is_bit(x, 0x20);
    flag_is_bit(x, 0x10);
    flag_is_bit(y, 0x80);
    flag_is_bit(y, 0x40);
    flag_is_bit(y, 0x20);
    flag_is_bit(y, 0x10);
    flag_is_bit(y, 0x08);
    flag_is_bit(y, 0x04);
    flag_is_bit(y, 0x02);
    flag_is_bit(y, 0x01);
    flag_is_bit(z, 0x02);
    flag_is_bit(z, 0x01);
    let n = nibble_of(c.dpad.state);
    assert(n == x & 0x0f);
    let s5 = sn[f];
    let s6 = sn[sh];
    let s7 = sn[a];
    assert(s5 == (x & 0x80) | (x & 0x40) | (x & 0x20) | (x & 0x10) | n);
    assert(s6 == (y & 0x80) | (y & 0x40) | (y & 0x20) | (y & 0x10) | (y & 0x08) | (y & 0x04) | (y
        & 0x02) | (y & 0x01));
    assert(s7 == (z & 0x02) | (z & 0x01));
    assert(s5 == x && s6 == y && s7 & 0x02 == z & 0x02 && s7 & 0x01 == z & 0x01) by (bit_vector)
        requires
            n == x & 0x0f,
            s5 == (x & 0x80) | (x & 0x40) | (x & 0x20) | (x & 0x10) | n,
            s6 == (y & 0x80) | (y & 0x40) | (y & 0x20) | (y & 0x10) | (y & 0x08) | (y & 0x04) | (y
                & 0x02) | (y & 0x01),
            s7 == (z & 0x02) | (z & 0x01),
    ;
    table_bits_decide_events(group_of(a), s7, z, curr[a], ts);
}

/// Controls brought up to date with a report `x` (with a valid pad nibble) dispatch no
/// event when updated with `x` again.
pub proof fn controls_repeated_report_dispatches_nothing<F: Fn(bool, bool), G: Fn(DPad, DPad)>(
    c: Controls<F, G>,
    x: Seq<u8>,
    ts: u64,
)
    requires
        x.len() == REPORT_LEN,
        c.flat_match(x),
        decoded_pad(x[FACE_PAD_OFFSET as int]) == Ok::<DPad, crate::report::DecodeError>(
            c.dpad.state,
        ),
    ensures
        report_events(c.seen(), x, ts) == Seq::<ButtonEvent>::empty(),
{
    controls_events_are_report_events(c, x, x, ts);
    identical_reports_yield_nothing(x, ts);
}

} // verus!
