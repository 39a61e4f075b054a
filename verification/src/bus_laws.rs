//! Laws of DMA transfers: what a control write latches, what a transfer
//! copies and how far it moves its addresses, how a channel ends, which
//! channels a blanking period runs and in what order, and that a result
//! does not depend on the DMA nesting budget that defines it.
use vstd::prelude::*;
use crate::bus::{
    BusState, DmaChannel, Timer, in_io, in_ram, ram_cell, le16, le32, lemma_store_ram, dma_enabled, dma_transfer_32, dma_start_timing, dma_dest_control,
    dma_src_control, dma_repeat, dma_unit_count, dma_next_src, dma_next_dst, scanline_at,
    hblank_at, dispstat_value,
};

verus! {

/// `t` has the same registers, DMA and timer state as `s`: a transfer that
/// writes outside the I/O registers changes only memory.
pub open spec fn same_registers(s: BusState, t: BusState) -> bool {
    &&& t.io == s.io
    &&& t.dma == s.dma
    &&& t.timers == s.timers
    &&& t.cycles == s.cycles
    &&& t.keyinput == s.keyinput
    &&& t.bios == s.bios
    &&& t.rom == s.rom
}

/// The bytes of one unit written at `dst` lie outside the I/O registers.
pub open spec fn dma_unit_avoids_io(t32: bool, dst: u32) -> bool {
    &&& !in_io(dst)
    &&& !in_io((dst + 1) as u32)
    &&& t32 ==> !in_io((dst + 2) as u32) && !in_io((dst + 3) as u32)
}

/// Every byte the next `n` units of a transfer write lies outside the I/O
/// registers (so the transfer starts no other transfer and touches no
/// register).
pub open spec fn dma_dsts_avoid_io(t32: bool, dst_control: u16, dst: u32, n: nat) -> bool
    decreases n,
{
    n == 0 || (dma_unit_avoids_io(t32, dst) && dma_dsts_avoid_io(
        t32,
        dst_control,
        dma_next_dst(
            dst_control,
            dst,
            if t32 {
                4
            } else {
                2
            },
        ),
        (n - 1) as nat,
    ))
}

/// Source address after `n` units: `n * step` bytes on for increment,
/// back for decrement (wrapping), unchanged otherwise.
pub open spec fn dma_src_after(src_control: u16, src: u32, step: u32, n: nat) -> u32 {
    if src_control == 0 {
        ((src + n * step) % 0x1_0000_0000) as u32
    } else if src_control == 1 {
        ((src - n * step) % 0x1_0000_0000) as u32
    } else {
        src
    }
}

/// Destination address after `n` units: `n * step` bytes on for increment
/// (and increment/reload), back for decrement (wrapping), unchanged when
/// fixed.
pub open spec fn dma_dst_after(dst_control: u16, dst: u32, step: u32, n: nat) -> u32 {
    if dst_control == 0 || dst_control == 3 {
        ((dst + n * step) % 0x1_0000_0000) as u32
    } else if dst_control == 1 {
        ((dst - n * step) % 0x1_0000_0000) as u32
    } else {
        dst
    }
}

/// A byte store outside the I/O registers changes only memory, and such a
/// write starts no transfer.
proof fn lemma_write_outside_io(s: BusState, a: u32, v: u8, f: nat)
    requires
        !in_io(a),
    ensures
        s.write_byte_f(a, v, f) == Some(s.store_byte(a, v)),
        same_registers(s, s.store_byte(a, v)),
        s.wf() ==> s.store_byte(a, v).wf(),
{
}

proof fn lemma_unit_outside_io(s: BusState, t32: bool, dst: u32, v: u32, f: nat)
    requires
        s.wf(),
        dma_unit_avoids_io(t32, dst),
        t32 ==> s.write_word_f(dst, v, f) is Some,
        !t32 ==> s.write_halfword_f(dst, v as u16, f) is Some,
    ensures
        t32 ==> same_registers(s, s.write_word_f(dst, v, f)->0) && (s.write_word_f(
            dst,
            v,
            f,
        )->0).wf(),
        !t32 ==> same_registers(s, s.write_halfword_f(dst, v as u16, f)->0) && (
        s.write_halfword_f(dst, v as u16, f)->0).wf(),
{
    lemma_write_outside_io(s, dst, v as u8, f);
    let s1 = s.store_byte(dst, v as u8);
    if t32 {
        lemma_write_outside_io(s1, (dst + 1) as u32, (v >> 8u32) as u8, f);
        let s2 = s1.store_byte((dst + 1) as u32, (v >> 8u32) as u8);
        lemma_write_outside_io(s2, (dst + 2) as u32, (v >> 16u32) as u8, f);
        let s3 = s2.store_byte((dst + 2) as u32, (v >> 16u32) as u8);
        lemma_write_outside_io(s3, (dst + 3) as u32, (v >> 24u32) as u8, f);
    } else {
        lemma_write_outside_io(s1, (dst + 1) as u32, ((v as u16) >> 8u16) as u8, f);
    }
}

proof fn lemma_src_after_step(sc: u16, src: u32, step: u32, n: nat)
    requires
        n > 0,
    ensures
        dma_src_after(sc, dma_next_src(sc, src, step), step, (n - 1) as nat) == dma_src_after(
            sc,
            src,
            step,
            n,
        ),
{
    let m = 0x1_0000_0000int;
    let k = (n - 1) * step;
    assert(n * step == k + step) by (nonlinear_arith)
        requires
            k == (n - 1) * step,
    ;
    if sc == 0 {
        let w = vstd::wrapping::u32_specs::wrapping_add(src, step);
        vstd::arithmetic::div_mod::lemma_add_mod_noop_right(k, src + step, m);
        vstd::arithmetic::div_mod::lemma_fundamental_div_mod_converse(
            src + step,
            m,
            if src + step > u32::MAX { 1 } else { 0 },
            w as int,
        );
        assert(w + k == k + w);
    } else if sc == 1 {
        let w = vstd::wrapping::u32_specs::wrapping_sub(src, step);
        vstd::arithmetic::div_mod::lemma_add_mod_noop_right(-k, src - step, m);
        vstd::arithmetic::div_mod::lemma_fundamental_div_mod_converse(
            src - step,
            m,
            if src - step < 0 { -1 } else { 0 },
            w as int,
        );
        assert(w - k == -k + w);
    }
}

proof fn lemma_dst_after_step(dc: u16, dst: u32, step: u32, n: nat)
    requires
        n > 0,
    ensures
        dma_dst_after(dc, dma_next_dst(dc, dst, step), step, (n - 1) as nat) == dma_dst_after(
            dc,
            dst,
            step,
            n,
        ),
{
    let m = 0x1_0000_0000int;
    let k = (n - 1) * step;
    assert(n * step == k + step) by (nonlinear_arith)
        requires
            k == (n - 1) * step,
    ;
    if dc == 0 || dc == 3 {
        let w = vstd::wrapping::u32_specs::wrapping_add(dst, step);
        vstd::arithmetic::div_mod::lemma_add_mod_noop_right(k, dst + step, m);
        vstd::arithmetic::div_mod::lemma_fundamental_div_mod_converse(
            dst + step,
            m,
            if dst + step > u32::MAX { 1 } else { 0 },
            w as int,
        );
        assert(w + k == k + w);
    } else if dc == 1 {
        let w = vstd::wrapping::u32_specs::wrapping_sub(dst, step);
        vstd::arithmetic::div_mod::lemma_add_mod_noop_right(-k, dst - step, m);
        vstd::arithmetic::div_mod::lemma_fundamental_div_mod_converse(
            dst - step,
            m,
            if dst - step < 0 { -1 } else { 0 },
            w as int,
        );
        assert(w - k == -k + w);
    }
}

/// A run of `n` units that writes outside the I/O registers changes only
/// memory and leaves the addresses `n` units on.
#[verifier::spinoff_prover]
proof fn lemma_units(
    s: BusState,
    t32: bool,
    sc: u16,
    dc: u16,
    src: u32,
    dst: u32,
    n: nat,
    f: nat,
)
    requires
        s.wf(),
        dma_dsts_avoid_io(t32, dc, dst, n),
        s.dma_units_f(t32, sc, dc, src, dst, n, f) is Some,
    ensures
        same_registers(s, (s.dma_units_f(t32, sc, dc, src, dst, n, f)->0).0),
        (s.dma_units_f(t32, sc, dc, src, dst, n, f)->0).0.wf(),
        (s.dma_units_f(t32, sc, dc, src, dst, n, f)->0).1 == dma_src_after(
            sc,
            src,
            if t32 {
                4
            } else {
                2
            },
            n,
        ),
        (s.dma_units_f(t32, sc, dc, src, dst, n, f)->0).2 == dma_dst_after(
            dc,
            dst,
            if t32 {
                4
            } else {
                2
            },
            n,
        ),
    decreases n,
{
    let step: u32 = if t32 {
        4
    } else {
        2
    };
    if n > 0 {
        let v = if t32 {
            s.read_word(src)
        } else {
            s.read_halfword(src) as u32
        };
        lemma_unit_outside_io(s, t32, dst, v, f);
        let s1 = if t32 {
            s.write_word_f(dst, s.read_word(src), f)->0
        } else {
            s.write_halfword_f(dst, s.read_halfword(src), f)->0
        };
        assert(s.read_halfword(src) == (s.read_halfword(src) as u32) as u16);
        lemma_units(
            s1,
            t32,
            sc,
            dc,
            dma_next_src(sc, src, step),
            dma_next_dst(dc, dst, step),
            (n - 1) as nat,
            f,
        );
        lemma_src_after_step(sc, src, step, n);
        lemma_dst_after_step(dc, dst, step, n);
    } else {
        assert(src == dma_src_after(sc, src, step, 0));
        assert(dst == dma_dst_after(dc, dst, step, 0));
    }
}

/// Bytes per unit of a transfer with control `control`.
pub open spec fn dma_unit_size(control: u16) -> u32 {
    if dma_transfer_32(control) {
        4
    } else {
        2
    }
}

/// Whether channel `ch`'s next transfer writes only outside the I/O
/// registers.
#[verifier::opaque]
pub open spec fn dma_transfer_avoids_io(d: DmaChannel, ch: int) -> bool {
    dma_dsts_avoid_io(
        dma_transfer_32(d.control),
        dma_dest_control(d.control),
        d.internal_dad,
        dma_unit_count(ch, d.count),
    )
}

proof fn lemma_clear_enable(c: u16)
    ensures
        !dma_enabled(c & 0x7FFF),
        (c & 0x7FFF) & 0x7FFF == c & 0x7FFF,
{
    assert(!((c & 0x7FFF) & 0x8000 != 0) && (c & 0x7FFF) & 0x7FFF == c & 0x7FFF) by (bit_vector);
}

/// A whole transfer of channel `ch` that writes outside the I/O registers
/// moves exactly `dma_unit_count(ch, count)` units of 2 or 4 bytes (a count
/// of 0 meaning 0x4000, or 0x10000 for channel 3): the running source ends
/// that many units on, back, or in place by its control; the running
/// destination likewise, or reloads from DAD in increment/reload mode. The
/// latched addresses and count stay. The channel stays enabled exactly when
/// it repeats on a blanking trigger; otherwise its enable bit is cleared and
/// the I/O control bytes mirror the new control. No other channel, register
/// or timer changes.
pub proof fn lemma_run_dma(s: BusState, ch: int, f: nat)
    requires
        s.wf(),
        0 <= ch < 4,
        s.run_dma_f(ch, f) is Some,
        dma_transfer_avoids_io(s.dma[ch], ch),
    ensures
        (s.run_dma_f(ch, f)->0).wf(),
        (s.run_dma_f(ch, f)->0).dma[ch].sad == s.dma[ch].sad,
        (s.run_dma_f(ch, f)->0).dma[ch].dad == s.dma[ch].dad,
        (s.run_dma_f(ch, f)->0).dma[ch].count == s.dma[ch].count,
        (s.run_dma_f(ch, f)->0).dma[ch].internal_sad == dma_src_after(
            dma_src_control(s.dma[ch].control),
            s.dma[ch].internal_sad,
            dma_unit_size(s.dma[ch].control),
            dma_unit_count(ch, s.dma[ch].count),
        ),
        (s.run_dma_f(ch, f)->0).dma[ch].internal_dad == if dma_dest_control(s.dma[ch].control)
            == 3 {
            s.dma[ch].dad
        } else {
            dma_dst_after(
                dma_dest_control(s.dma[ch].control),
                s.dma[ch].internal_dad,
                dma_unit_size(s.dma[ch].control),
                dma_unit_count(ch, s.dma[ch].count),
            )
        },
        dma_enabled((s.run_dma_f(ch, f)->0).dma[ch].control) == (dma_enabled(s.dma[ch].control)
            && dma_repeat(s.dma[ch].control) && dma_start_timing(s.dma[ch].control) != 0),
        (s.run_dma_f(ch, f)->0).dma[ch].control & 0x7FFF == s.dma[ch].control & 0x7FFF,
        (s.run_dma_f(ch, f)->0).io == if dma_repeat(s.dma[ch].control) && dma_start_timing(
            s.dma[ch].control,
        ) != 0 {
            s.io
        } else {
            s.io.update(0xB0 + ch * 12 + 10, (s.dma[ch].control & 0x7FFF) as u8).update(
                0xB0 + ch * 12 + 11,
                ((s.dma[ch].control & 0x7FFF) >> 8u16) as u8,
            )
        },
        forall|j: int| 0 <= j < 4 && j != ch ==> (#[trigger] (s.run_dma_f(ch, f)->0).dma[j])
            == s.dma[j],
        (s.run_dma_f(ch, f)->0).timers == s.timers,
        (s.run_dma_f(ch, f)->0).cycles == s.cycles,
        (s.run_dma_f(ch, f)->0).keyinput == s.keyinput,
        (s.run_dma_f(ch, f)->0).bios == s.bios,
        (s.run_dma_f(ch, f)->0).rom == s.rom,
{
    let d = s.dma[ch];
    let t32 = dma_transfer_32(d.control);
    let dc = dma_dest_control(d.control);
    let sc = dma_src_control(d.control);
    let n = dma_unit_count(ch, d.count);
    reveal(dma_transfer_avoids_io);
    lemma_units(s, t32, sc, dc, d.internal_sad, d.internal_dad, n, (f - 1) as nat);
    lemma_clear_enable(d.control);
}

/// I/O offset of channel `ch`'s registers (SAD, DAD, count, control).
pub open spec fn dma_base(ch: int) -> int {
    0xB0 + ch * 12
}

/// SAD of channel `ch` as written in the I/O file, masked to the channel's
/// source range (27 bits for channel 0, 28 bits otherwise).
pub open spec fn io_sad(s: BusState, ch: int) -> u32 {
    s.io_u32(dma_base(ch)) & if ch == 0 {
        0x07FF_FFFFu32
    } else {
        0x0FFF_FFFFu32
    }
}

/// DAD of channel `ch` as written in the I/O file, masked to the channel's
/// destination range (28 bits for channel 3, 27 bits otherwise).
pub open spec fn io_dad(s: BusState, ch: int) -> u32 {
    s.io_u32(dma_base(ch) + 4) & if ch == 3 {
        0x0FFF_FFFFu32
    } else {
        0x07FF_FFFFu32
    }
}

/// The bus after channel `ch` latches its registers from the I/O file: SAD,
/// DAD (masked), count and control, with the running addresses reset.
pub open spec fn dma_latched(s: BusState, ch: int) -> BusState {
    BusState {
        dma: s.dma.update(
            ch,
            DmaChannel {
                sad: io_sad(s, ch),
                dad: io_dad(s, ch),
                count: s.io_u16(dma_base(ch) + 8),
                control: s.io_u16(dma_base(ch) + 10),
                internal_sad: io_sad(s, ch),
                internal_dad: io_dad(s, ch),
            },
        ),
        ..s
    }
}

/// A write of channel `ch`'s control high byte: on a rising enable edge the
/// channel latches the masked SAD and DAD, the count and the control from
/// the I/O file; with a blanking start timing nothing else happens, and with
/// immediate timing the transfer runs at once from the latched state, after
/// which (when it writes outside the I/O registers) the latched addresses
/// and count still hold.
/// Without a rising edge only the channel's control register is reloaded:
/// addresses and count are not latched again.
pub proof fn lemma_dma_latch(s: BusState, ch: int, f: nat)
    requires
        s.wf(),
        0 <= ch < 4,
        s.dma_control_write_f(ch, f) is Some,
    ensures
        !dma_enabled(s.dma[ch].control) && dma_enabled(s.io_u16(dma_base(ch) + 10)) ==> {
            &&& (dma_start_timing(s.io_u16(dma_base(ch) + 10)) != 0 || dma_dsts_avoid_io(
                dma_transfer_32(s.io_u16(dma_base(ch) + 10)),
                dma_dest_control(s.io_u16(dma_base(ch) + 10)),
                io_dad(s, ch),
                dma_unit_count(ch, s.io_u16(dma_base(ch) + 8)),
            )) ==> {
                &&& (s.dma_control_write_f(ch, f)->0).dma[ch].sad == io_sad(s, ch)
                &&& (s.dma_control_write_f(ch, f)->0).dma[ch].dad == io_dad(s, ch)
                &&& (s.dma_control_write_f(ch, f)->0).dma[ch].count == s.io_u16(dma_base(ch) + 8)
                &&& (s.dma_control_write_f(ch, f)->0).dma[ch].control & 0x7FFF == s.io_u16(
                    dma_base(ch) + 10,
                ) & 0x7FFF
            }
            &&& dma_start_timing(s.io_u16(dma_base(ch) + 10)) != 0 ==> (s.dma_control_write_f(
                ch,
                f,
            )->0) == dma_latched(s, ch)
            &&& dma_start_timing(s.io_u16(dma_base(ch) + 10)) == 0 ==> s.dma_control_write_f(ch, f)
                == dma_latched(s, ch).run_dma_f(ch, f)
        },
        !(!dma_enabled(s.dma[ch].control) && dma_enabled(s.io_u16(dma_base(ch) + 10))) ==> (
        s.dma_control_write_f(ch, f)->0) == (BusState {
            dma: s.dma.update(ch, DmaChannel { control: s.io_u16(dma_base(ch) + 10), ..s.dma[ch] }),
            ..s
        }),
{
    let control = s.io_u16(dma_base(ch) + 10);
    if !dma_enabled(s.dma[ch].control) && dma_enabled(control) {
        let nd = DmaChannel {
            sad: io_sad(s, ch),
            dad: io_dad(s, ch),
            count: s.io_u16(dma_base(ch) + 8),
            control,
            internal_sad: io_sad(s, ch),
            internal_dad: io_dad(s, ch),
        };
        let s2 = BusState { dma: s.dma.update(ch, nd), ..s };
        assert(s2.dma[ch] == nd);
        if dma_start_timing(control) == 0 {
            if dma_dsts_avoid_io(
                dma_transfer_32(control),
                dma_dest_control(control),
                io_dad(s, ch),
                dma_unit_count(ch, s.io_u16(dma_base(ch) + 8)),
            ) {
                reveal(dma_transfer_avoids_io);
                lemma_run_dma(s2, ch, f);
            }
        }
    }
}

/// Channel `ch` is enabled with start timing `timing`.
pub open spec fn dma_armed(s: BusState, ch: int, timing: u16) -> bool {
    dma_enabled(s.dma[ch].control) && dma_start_timing(s.dma[ch].control) == timing
}

/// What a blanking-triggered transfer leaves in channel `ch`, whose state
/// before it was `d`: the latched registers stay, the running addresses move
/// by the whole transfer, and the channel stays enabled exactly when it
/// repeats.
#[verifier::opaque]
pub open spec fn dma_after_blanking_run(d: DmaChannel, ch: int, t: DmaChannel) -> bool {
    &&& t.sad == d.sad
    &&& t.dad == d.dad
    &&& t.count == d.count
    &&& t.control & 0x7FFF == d.control & 0x7FFF
    &&& dma_enabled(t.control) == dma_repeat(d.control)
    &&& t.internal_sad == dma_src_after(
        dma_src_control(d.control),
        d.internal_sad,
        dma_unit_size(d.control),
        dma_unit_count(ch, d.count),
    )
    &&& t.internal_dad == if dma_dest_control(d.control) == 3 {
        d.dad
    } else {
        dma_dst_after(
            dma_dest_control(d.control),
            d.internal_dad,
            dma_unit_size(d.control),
            dma_unit_count(ch, d.count),
        )
    }
}

/// `t` has the same DMA channels as `s` except possibly channel `k`.
#[verifier::opaque]
pub open spec fn dma_others_kept(s: BusState, t: BusState, k: int) -> bool {
    forall|j: int| 0 <= j < 4 && j != k ==> #[trigger] t.dma[j] == s.dma[j]
}

pub(crate) proof fn lemma_run_armed(s: BusState, k: int, timing: u16, f: nat)
    requires
        s.wf(),
        0 <= k < 4,
        timing == 1 || timing == 2,
        dma_armed(s, k, timing),
        s.run_dma_f(k, f) is Some,
        dma_transfer_avoids_io(s.dma[k], k),
    ensures
        (s.run_dma_f(k, f)->0).wf(),
        dma_after_blanking_run(s.dma[k], k, (s.run_dma_f(k, f)->0).dma[k]),
        dma_others_kept(s, s.run_dma_f(k, f)->0, k),
{
    lemma_run_dma(s, k, f);
    reveal(dma_after_blanking_run);
    reveal(dma_others_kept);
}

/// Every channel from `k` on that is armed for `timing` has a transfer
/// writing only outside the I/O registers.
#[verifier::opaque]
pub open spec fn armed_from_avoid_io(s: BusState, k: int, timing: u16) -> bool {
    forall|i: int| k <= i < 4 && #[trigger] dma_armed(s, i, timing) ==> dma_transfer_avoids_io(s.dma[i], i)
}

pub(crate) proof fn lemma_armed_from_step(s: BusState, k: int, timing: u16)
    requires
        0 <= k < 4,
        armed_from_avoid_io(s, k, timing),
    ensures
        dma_armed(s, k, timing) ==> dma_transfer_avoids_io(s.dma[k], k),
        armed_from_avoid_io(s, k + 1, timing),
{
    reveal(armed_from_avoid_io);
}

pub(crate) proof fn lemma_armed_from_kept(s: BusState, t: BusState, k: int, timing: u16)
    requires
        0 <= k < 4,
        armed_from_avoid_io(s, k + 1, timing),
        dma_others_kept(s, t, k),
    ensures
        armed_from_avoid_io(t, k + 1, timing),
{
    reveal(armed_from_avoid_io);
    reveal(dma_others_kept);
    assert forall|i: int| k + 1 <= i < 4 && #[trigger] dma_armed(t, i, timing) implies dma_transfer_avoids_io(t.dma[i], i) by {
        assert(t.dma[i] == s.dma[i]);
        assert(dma_armed(s, i, timing));
    }
}

proof fn lemma_others_kept_at(s: BusState, t: BusState, k: int, j: int)
    requires
        dma_others_kept(s, t, k),
        0 <= j < 4,
        j != k,
    ensures
        t.dma[j] == s.dma[j],
{
    reveal(dma_others_kept);
}

pub(crate) proof fn lemma_check_channel(s: BusState, k: int, timing: u16, f: nat, j: int)
    requires
        s.wf(),
        0 <= k,
        0 <= j < 4,
        timing == 1 || timing == 2,
        s.check_dma_from(k, timing, f) is Some,
        k < 4 ==> armed_from_avoid_io(s, k, timing),
    ensures
        (s.check_dma_from(k, timing, f)->0).wf(),
        (j < k || !dma_armed(s, j, timing)) ==> (s.check_dma_from(k, timing, f)->0).dma[j]
            == s.dma[j],
        (k <= j && dma_armed(s, j, timing)) ==> dma_after_blanking_run(
            s.dma[j],
            j,
            (s.check_dma_from(k, timing, f)->0).dma[j],
        ),
    decreases 4 - k,
{
    if k < 4 {
        lemma_armed_from_step(s, k, timing);
        if dma_armed(s, k, timing) {
            lemma_run_armed(s, k, timing, f);
            let s1 = s.run_dma_f(k, f)->0;
            if k + 1 < 4 {
                lemma_armed_from_kept(s, s1, k, timing);
            }
            lemma_check_channel(s1, k + 1, timing, f, j);
            if j != k {
                lemma_others_kept_at(s, s1, k, j);
            }
        } else {
            lemma_check_channel(s, k + 1, timing, f, j);
        }
    }
}

pub(crate) proof fn lemma_none_armed(s: BusState, k: int, timing: u16, f: nat)
    requires
        0 <= k,
        forall|i: int| k <= i < 4 ==> !#[trigger] dma_armed(s, i, timing),
    ensures
        s.check_dma_from(k, timing, f) == Some(s),
    decreases 4 - k,
{
    if k < 4 {
        assert(!dma_armed(s, k, timing));
        lemma_none_armed(s, k + 1, timing, f);
    }
}

/// Blanking DMA runs, in ascending channel order, exactly the channels
/// enabled with the blanking's start timing (1 VBlank, 2 HBlank): with no
/// channel armed the bus is unchanged; and when the armed channels'
/// transfers write outside the I/O registers, a channel not armed keeps its
/// state and an armed one ends its whole transfer (enabled afterwards
/// exactly when it repeats).
pub proof fn lemma_blanking_dma(s: BusState, timing: u16, j: int)
    requires
        s.wf(),
        0 <= j < 4,
        timing == 1 || timing == 2,
        s.check_dma_ok(timing),
    ensures
        (forall|i: int| 0 <= i < 4 ==> !#[trigger] dma_armed(s, i, timing)) ==> s.check_dma_result(
            timing,
        ) == s,
        (forall|i: int|
            0 <= i < 4 && #[trigger] dma_armed(s, i, timing) ==> dma_transfer_avoids_io(s.dma[i], i))
            ==> {
            &&& s.check_dma_result(timing).wf()
            &&& !dma_armed(s, j, timing) ==> s.check_dma_result(timing).dma[j] == s.dma[j]
            &&& dma_armed(s, j, timing) ==> dma_after_blanking_run(
                s.dma[j],
                j,
                s.check_dma_result(timing).dma[j],
            )
        },
{
    let f = choose|f: nat| (#[trigger] s.check_dma_from(0, timing, f)) is Some;
    if forall|i: int| 0 <= i < 4 ==> !#[trigger] dma_armed(s, i, timing) {
        lemma_none_armed(s, 0, timing, f);
    }
    if forall|i: int|
        0 <= i < 4 && #[trigger] dma_armed(s, i, timing) ==> dma_transfer_avoids_io(s.dma[i], i) {
        assert(armed_from_avoid_io(s, 0, timing)) by {
            reveal(armed_from_avoid_io);
        }
        lemma_check_channel(s, 0, timing, f, j);
    }
}

/// Blanking DMA runs channels in ascending order: when channel `k` is the
/// lowest one armed for the blanking, its transfer runs first, on the bus as
/// it was, and the channels above it run afterwards on the bus it leaves.
pub proof fn lemma_blanking_dma_order(s: BusState, timing: u16, f: nat, k: int)
    requires
        0 <= k < 4,
        s.check_dma_from(0, timing, f) is Some,
        dma_armed(s, k, timing),
        forall|i: int| 0 <= i < k ==> !#[trigger] dma_armed(s, i, timing),
    ensures
        s.run_dma_f(k, f) is Some,
        s.check_dma_from(0, timing, f) == (s.run_dma_f(k, f)->0).check_dma_from(k + 1, timing, f),
{
    lemma_skip_unarmed(s, 0, k, timing, f);
}

proof fn lemma_skip_unarmed(s: BusState, i: int, k: int, timing: u16, f: nat)
    requires
        0 <= i <= k < 4,
        forall|m: int| i <= m < k ==> !#[trigger] dma_armed(s, m, timing),
    ensures
        s.check_dma_from(i, timing, f) == s.check_dma_from(k, timing, f),
    decreases k - i,
{
    if i < k {
        assert(!dma_armed(s, i, timing));
        lemma_skip_unarmed(s, i + 1, k, timing, f);
    }
}

proof fn lemma_timer_flag_bits(x: u8, idx: int)
    requires
        0 <= idx < 4,
    ensures
        (x | (1u8 << ((3 + idx) as u8))) & 7 == x & 7,
{
    let sh = (3 + idx) as u8;
    assert(3 <= sh < 7 ==> (x | (1u8 << sh)) & 7 == x & 7) by (bit_vector);
}

/// The timers touch only IF among the I/O registers, and only its timer
/// bits (3-6).
proof fn lemma_timer_add_io(s: BusState, idx: int, ticks: u32, k: int)
    requires
        s.wf(),
        0 <= idx < 4,
        0 <= k < 0x400,
        s.timer_add_f(idx, ticks) is Some,
    ensures
        k != 0x202 ==> (s.timer_add_f(idx, ticks)->0).io[k] == s.io[k],
        (s.timer_add_f(idx, ticks)->0).io[0x202] & 7 == s.io[0x202] & 7,
        (s.timer_add_f(idx, ticks)->0).io.len() == s.io.len(),
        (s.timer_add_f(idx, ticks)->0).cycles == s.cycles,
        (s.timer_add_f(idx, ticks)->0).dma == s.dma,
    decreases 4 - idx,
{
    let t = s.timers[idx];
    let nv = t.counter as u32 + ticks;
    if nv > 0xFFFF {
        let remaining = nv - 0x10000;
        let reload = t.reload as u32;
        let range = 0x10000 - reload;
        let overflows = (1 + remaining / range) as u32;
        let s1 = BusState {
            timers: s.timers.update(idx, Timer { counter: (reload + remaining % range) as u16, ..t }),
            ..s
        };
        let control = s1.io[0x102 + idx * 4];
        lemma_timer_flag_bits(s1.io[0x202], idx);
        let s2 = if control & 0x40 != 0 {
            BusState { io: s1.io.update(0x202, s1.io[0x202] | (1u8 << ((3 + idx) as u8))), ..s1 }
        } else {
            s1
        };
        if idx < 3 {
            let next = s2.io[0x102 + (idx + 1) * 4];
            if next & 0x80 != 0 && next & 0x04 != 0 {
                lemma_timer_add_io(s2, idx + 1, overflows, k);
            }
        }
    }
}

pub(crate) proof fn lemma_timers_io(s: BusState, i: int, cycles: u32, k: int)
    requires
        s.wf(),
        0 <= i,
        0 <= k < 0x400,
        s.timers_from(i, cycles) is Some,
    ensures
        k != 0x202 ==> (s.timers_from(i, cycles)->0).io[k] == s.io[k],
        (s.timers_from(i, cycles)->0).io[0x202] & 7 == s.io[0x202] & 7,
        (s.timers_from(i, cycles)->0).cycles == s.cycles,
        (s.timers_from(i, cycles)->0).dma == s.dma,
    decreases 4 - i,
{
    if i < 4 {
        let r = s.timer_step(i, cycles)->0;
        let control = s.io[0x102 + i * 4];
        if !(control & 0x80 == 0 || (control & 0x04 != 0 && i > 0)) {
            let t = s.timers[i];
            let pre = crate::bus::prescaler_divider(control & 3);
            let pc = (t.prescaler_counter + cycles) as u32;
            let s1 = BusState {
                timers: s.timers.update(i, Timer { prescaler_counter: pc % pre, ..t }),
                ..s
            };
            if pc / pre > 0 {
                lemma_timer_add_io(s1, i, pc / pre, k);
                crate::bus::lemma_timer_add_frame(s1, i, pc / pre);
            }
        }
        lemma_timers_io(r, i + 1, cycles, k);
    }
}

pub(crate) proof fn lemma_dispstat_bits(old: u8, line: u8, target: u8, hblank: bool)
    ensures
        (dispstat_value(old, line, target, hblank) & 1 != 0) == (line >= 160),
        (dispstat_value(old, line, target, hblank) & 2 != 0) == hblank,
        (dispstat_value(old, line, target, hblank) & 4 != 0) == (line == target),
        dispstat_value(old, line, target, hblank) & 0xF8 == old & 0xF8,
{
    let d0 = old & 0xF8;
    let d1 = if line >= 160 {
        d0 | 1
    } else {
        d0
    };
    let d2 = if hblank {
        d1 | 2
    } else {
        d1
    };
    let d3 = if line == target {
        d2 | 4
    } else {
        d2
    };
    assert(d0 == old & 0xF8 ==> (d0 & 1 == 0 && d0 & 2 == 0 && d0 & 4 == 0 && (d0 | 1) & 1 != 0
        && (d0 | 1) & 2 == 0 && (d0 | 1) & 4 == 0 && d0 & 0xF8 == old & 0xF8 && (d0 | 1) & 0xF8
        == old & 0xF8)) by (bit_vector);
    assert((d1 & 2 == 0 && d1 & 4 == 0) ==> ((d1 | 2) & 1 == d1 & 1 && (d1 | 2) & 2 != 0 && (d1
        | 2) & 4 == 0 && (d1 | 2) & 0xF8 == d1 & 0xF8)) by (bit_vector);
    assert(d2 & 4 == 0 ==> ((d2 | 4) & 1 == d2 & 1 && (d2 | 4) & 2 == d2 & 2 && (d2 | 4) & 4 != 0
        && (d2 | 4) & 0xF8 == d2 & 0xF8)) by (bit_vector);
}

pub(crate) proof fn lemma_if_bits(f0: u8, c1: bool, c2: bool, c3: bool, x: u8)
    ensures
        ({
            let f1 = if c1 {
                f0 | 1
            } else {
                f0
            };
            let f2 = if c2 {
                f1 | 2
            } else {
                f1
            };
            let f3 = if c3 {
                f2 | 4
            } else {
                f2
            };
            x & 7 == f3 & 7 ==> (x & 1 != 0) == (f0 & 1 != 0 || c1) && (x & 2 != 0) == (f0 & 2
                != 0 || c2) && (x & 4 != 0) == (f0 & 4 != 0 || c3)
        }),
{
    assert((x & 7 == (if c3 { (if c2 { (if c1 { f0 | 1 } else { f0 }) | 2 } else { (if c1 { f0 | 1 } else { f0 }) }) | 4 } else { (if c2 { (if c1 { f0 | 1 } else { f0 }) | 2 } else { (if c1 { f0 | 1 } else { f0 }) }) }) & 7) ==> (x & 1 != 0) == (f0 & 1 != 0 || c1) && (x & 2 != 0) == (f0 & 2 != 0 || c2) && (x & 4 != 0) == (f0 & 4 != 0 || c3)) by (bit_vector);
}

// ---------------------------------------------------------------------------
// DMA nesting budgets
// ---------------------------------------------------------------------------

/// A byte write defined with one DMA nesting budget gives the same result
/// with any larger budget.
pub proof fn lemma_write_byte_budget(s: BusState, a: u32, v: u8, f: nat, g: nat)
    requires
        s.write_byte_f(a, v, f) is Some,
        f <= g,
    ensures
        s.write_byte_f(a, v, g) == s.write_byte_f(a, v, f),
    decreases f, 0nat, 3nat,
{
    if BusState::starts_dma_check(a) {
        lemma_control_write_budget(s.store_byte(a, v), ((a % 0x400) - 0xBB) / 12, f, g);
    }
}

proof fn lemma_control_write_budget(s: BusState, ch: int, f: nat, g: nat)
    requires
        s.dma_control_write_f(ch, f) is Some,
        f <= g,
    ensures
        s.dma_control_write_f(ch, g) == s.dma_control_write_f(ch, f),
    decreases f, 0nat, 2nat,
{
    let base = 0xB0 + ch * 12;
    let control = s.io_u16(base + 10);
    if !dma_enabled(s.dma[ch].control) && dma_enabled(control) && dma_start_timing(control) == 0 {
        let sad_mask: u32 = if ch == 0 {
            0x07FF_FFFF
        } else {
            0x0FFF_FFFF
        };
        let dad_mask: u32 = if ch == 3 {
            0x0FFF_FFFF
        } else {
            0x07FF_FFFF
        };
        let nd = DmaChannel {
            sad: s.io_u32(base) & sad_mask,
            dad: s.io_u32(base + 4) & dad_mask,
            count: s.io_u16(base + 8),
            control,
            internal_sad: s.io_u32(base) & sad_mask,
            internal_dad: s.io_u32(base + 4) & dad_mask,
        };
        lemma_run_dma_budget(BusState { dma: s.dma.update(ch, nd), ..s }, ch, f, g);
    }
}

proof fn lemma_run_dma_budget(s: BusState, ch: int, f: nat, g: nat)
    requires
        s.run_dma_f(ch, f) is Some,
        f <= g,
    ensures
        s.run_dma_f(ch, g) == s.run_dma_f(ch, f),
    decreases f, 0nat, 1nat,
{
    let d = s.dma[ch];
    lemma_units_budget(
        s,
        dma_transfer_32(d.control),
        dma_src_control(d.control),
        dma_dest_control(d.control),
        d.internal_sad,
        d.internal_dad,
        dma_unit_count(ch, d.count),
        (f - 1) as nat,
        (g - 1) as nat,
    );
}

proof fn lemma_units_budget(
    s: BusState,
    t32: bool,
    sc: u16,
    dc: u16,
    src: u32,
    dst: u32,
    n: nat,
    f: nat,
    g: nat,
)
    requires
        s.dma_units_f(t32, sc, dc, src, dst, n, f) is Some,
        f <= g,
    ensures
        s.dma_units_f(t32, sc, dc, src, dst, n, g) == s.dma_units_f(t32, sc, dc, src, dst, n, f),
    decreases f, n, 0nat,
{
    if n > 0 {
        let step: u32 = if t32 {
            4
        } else {
            2
        };
        if t32 {
            lemma_write_word_budget(s, dst, s.read_word(src), f, g);
            let s1 = s.write_word_f(dst, s.read_word(src), f)->0;
            lemma_units_budget(
                s1,
                t32,
                sc,
                dc,
                dma_next_src(sc, src, step),
                dma_next_dst(dc, dst, step),
                (n - 1) as nat,
                f,
                g,
            );
        } else {
            lemma_write_halfword_budget(s, dst, s.read_halfword(src), f, g);
            let s1 = s.write_halfword_f(dst, s.read_halfword(src), f)->0;
            lemma_units_budget(
                s1,
                t32,
                sc,
                dc,
                dma_next_src(sc, src, step),
                dma_next_dst(dc, dst, step),
                (n - 1) as nat,
                f,
                g,
            );
        }
    }
}

/// A halfword write defined with one DMA nesting budget gives the same
/// result with any larger budget.
pub proof fn lemma_write_halfword_budget(s: BusState, a: u32, v: u16, f: nat, g: nat)
    requires
        s.write_halfword_f(a, v, f) is Some,
        f <= g,
    ensures
        s.write_halfword_f(a, v, g) == s.write_halfword_f(a, v, f),
    decreases f, 0nat, 4nat,
{
    lemma_write_byte_budget(s, a, v as u8, f, g);
    let s1 = s.write_byte_f(a, v as u8, f)->0;
    lemma_write_byte_budget(s1, (a + 1) as u32, (v >> 8u16) as u8, f, g);
}

/// A word write defined with one DMA nesting budget gives the same result
/// with any larger budget.
pub proof fn lemma_write_word_budget(s: BusState, a: u32, v: u32, f: nat, g: nat)
    requires
        s.write_word_f(a, v, f) is Some,
        f <= g,
    ensures
        s.write_word_f(a, v, g) == s.write_word_f(a, v, f),
    decreases f, 0nat, 4nat,
{
    lemma_write_byte_budget(s, a, v as u8, f, g);
    let s1 = s.write_byte_f(a, v as u8, f)->0;
    lemma_write_byte_budget(s1, (a + 1) as u32, (v >> 8u32) as u8, f, g);
    let s2 = s1.write_byte_f((a + 1) as u32, (v >> 8u32) as u8, f)->0;
    lemma_write_byte_budget(s2, (a + 2) as u32, (v >> 16u32) as u8, f, g);
    let s3 = s2.write_byte_f((a + 2) as u32, (v >> 16u32) as u8, f)->0;
    lemma_write_byte_budget(s3, (a + 3) as u32, (v >> 24u32) as u8, f, g);
}

proof fn lemma_check_dma_budget(s: BusState, ch: int, timing: u16, f: nat, g: nat)
    requires
        0 <= ch,
        s.check_dma_from(ch, timing, f) is Some,
        f <= g,
    ensures
        s.check_dma_from(ch, timing, g) == s.check_dma_from(ch, timing, f),
    decreases 4 - ch,
{
    if ch < 4 {
        let d = s.dma[ch];
        if dma_enabled(d.control) && dma_start_timing(d.control) == timing {
            lemma_run_dma_budget(s, ch, f, g);
            lemma_check_dma_budget(s.run_dma_f(ch, f)->0, ch + 1, timing, f, g);
        } else {
            lemma_check_dma_budget(s, ch + 1, timing, f, g);
        }
    }
}

/// A tick defined with one DMA nesting budget gives the same result with
/// any larger budget.
pub proof fn lemma_tick_budget(s: BusState, cycles: u32, f: nat, g: nat)
    requires
        s.tick_f(cycles, f) is Some,
        f <= g,
    ensures
        s.tick_f(cycles, g) == s.tick_f(cycles, f),
{
    reveal(BusState::tick_f);
    let old_ds = s.io[4];
    let s1 = s.display_update(cycles);
    let ds = s1.io[4];
    if ds & 1 != 0 && old_ds & 1 == 0 {
        lemma_check_dma_budget(s1, 0, 1, f, g);
    }
    let s2 = if ds & 1 != 0 && old_ds & 1 == 0 {
        s1.check_dma_from(0, 1, f)->0
    } else {
        s1
    };
    if ds & 2 != 0 && old_ds & 2 == 0 {
        lemma_check_dma_budget(s2, 0, 2, f, g);
    }
}

/// Every budget with which a byte write is defined gives the write's result.
pub proof fn lemma_write_byte_any_budget(s: BusState, a: u32, v: u8, f: nat)
    requires
        s.write_byte_f(a, v, f) is Some,
    ensures
        s.write_byte_ok(a, v),
        s.write_byte_result(a, v) == s.write_byte_f(a, v, f)->0,
{
    let f0 = choose|f: nat| (#[trigger] s.write_byte_f(a, v, f)) is Some;
    if f0 <= f {
        lemma_write_byte_budget(s, a, v, f0, f);
    } else {
        lemma_write_byte_budget(s, a, v, f, f0);
    }
}

/// Every budget with which a halfword write is defined gives its result.
pub proof fn lemma_write_halfword_any_budget(s: BusState, a: u32, v: u16, f: nat)
    requires
        s.write_halfword_f(a, v, f) is Some,
    ensures
        s.write_halfword_ok(a, v),
        s.write_halfword_result(a, v) == s.write_halfword_f(a, v, f)->0,
{
    let f0 = choose|f: nat| (#[trigger] s.write_halfword_f(a, v, f)) is Some;
    if f0 <= f {
        lemma_write_halfword_budget(s, a, v, f0, f);
    } else {
        lemma_write_halfword_budget(s, a, v, f, f0);
    }
}

/// Every budget with which a word write is defined gives its result.
pub proof fn lemma_write_word_any_budget(s: BusState, a: u32, v: u32, f: nat)
    requires
        s.write_word_f(a, v, f) is Some,
    ensures
        s.write_word_ok(a, v),
        s.write_word_result(a, v) == s.write_word_f(a, v, f)->0,
{
    let f0 = choose|f: nat| (#[trigger] s.write_word_f(a, v, f)) is Some;
    if f0 <= f {
        lemma_write_word_budget(s, a, v, f0, f);
    } else {
        lemma_write_word_budget(s, a, v, f, f0);
    }
}

/// Every budget with which a tick is defined gives the tick's result.
pub proof fn lemma_tick_any_budget(s: BusState, cycles: u32, f: nat)
    requires
        s.tick_f(cycles, f) is Some,
    ensures
        s.tick_ok(cycles),
        s.tick_result(cycles) == s.tick_f(cycles, f)->0,
{
    let f0 = choose|f: nat| (#[trigger] s.tick_f(cycles, f)) is Some;
    if f0 <= f {
        lemma_tick_budget(s, cycles, f0, f);
    } else {
        lemma_tick_budget(s, cycles, f, f0);
    }
}

/// Every budget with which blanking DMA is defined gives its result.
pub proof fn lemma_check_dma_any_budget(s: BusState, timing: u16, f: nat)
    requires
        s.check_dma_from(0, timing, f) is Some,
    ensures
        s.check_dma_ok(timing),
        s.check_dma_result(timing) == s.check_dma_from(0, timing, f)->0,
{
    let f0 = choose|f: nat| (#[trigger] s.check_dma_from(0, timing, f)) is Some;
    if f0 <= f {
        lemma_check_dma_budget(s, 0, timing, f0, f);
    } else {
        lemma_check_dma_budget(s, 0, timing, f, f0);
    }
}

// ---------------------------------------------------------------------------
// What a transfer copies
// ---------------------------------------------------------------------------

/// Address of byte `j` of unit `k` of a transfer whose running source is
/// `src`.
pub open spec fn dma_src_byte(sc: u16, src: u32, step: u32, k: nat, j: nat) -> u32 {
    (dma_src_after(sc, src, step, k) + j) as u32
}

/// Address of byte `j` of unit `k` of a transfer whose running destination
/// is `dst`.
pub open spec fn dma_dst_byte(dc: u16, dst: u32, step: u32, k: nat, j: nat) -> u32 {
    (dma_dst_after(dc, dst, step, k) + j) as u32
}

/// Whether one of the next `n` units writes the RAM cell that `x` names.
pub open spec fn dma_writes_cell(dc: u16, dst: u32, step: u32, n: nat, x: u32) -> bool {
    &&& in_ram(x)
    &&& exists|k: nat, j: nat|
        k < n && j < step && ram_cell(#[trigger] dma_dst_byte(dc, dst, step, k, j)) == ram_cell(x)
}

/// The next `n` units write RAM only, each written byte to a cell of its
/// own, and no unit reads a cell that a unit writes.
pub open spec fn dma_copy_separate(
    t32: bool,
    sc: u16,
    dc: u16,
    src: u32,
    dst: u32,
    n: nat,
) -> bool {
    let step = dma_step(t32);
    &&& forall|k: nat, j: nat|
        k < n && j < step ==> in_ram(#[trigger] dma_dst_byte(dc, dst, step, k, j))
    &&& forall|k: nat, j: nat|
        k < n && j < step ==> !dma_writes_cell(
            dc,
            dst,
            step,
            n,
            #[trigger] dma_src_byte(sc, src, step, k, j),
        )
    &&& forall|k1: nat, j1: nat, k2: nat, j2: nat|
        k1 < n && j1 < step && k2 < n && j2 < step && (k1 != k2 || j1 != j2) ==> ram_cell(
            #[trigger] dma_dst_byte(dc, dst, step, k1, j1),
        ) != ram_cell(#[trigger] dma_dst_byte(dc, dst, step, k2, j2))
}

/// Bytes per unit: 4 for 32-bit transfers, 2 otherwise.
pub open spec fn dma_step(t32: bool) -> u32 {
    if t32 {
        4
    } else {
        2
    }
}

/// The write of one unit from `src` to `dst`.
pub(crate) open spec fn unit_write(s: BusState, t32: bool, src: u32, dst: u32, f: nat) -> Option<BusState> {
    if t32 {
        if src > 0xFFFF_FFFC {
            None
        } else {
            s.write_word_f(dst, s.read_word(src), f)
        }
    } else {
        if src > 0xFFFF_FFFE {
            None
        } else {
            s.write_halfword_f(dst, s.read_halfword(src), f)
        }
    }
}

proof fn lemma_le_bytes(b0: u8, b1: u8, b2: u8, b3: u8)
    ensures
        le32(b0, b1, b2, b3) as u8 == b0,
        (le32(b0, b1, b2, b3) >> 8u32) as u8 == b1,
        (le32(b0, b1, b2, b3) >> 16u32) as u8 == b2,
        (le32(b0, b1, b2, b3) >> 24u32) as u8 == b3,
        le16(b0, b1) as u8 == b0,
        (le16(b0, b1) >> 8u16) as u8 == b1,
{
    assert(((b0 as u32) | ((b1 as u32) << 8u32) | ((b2 as u32) << 16u32) | ((b3 as u32)
        << 24u32)) as u8 == b0) by (bit_vector);
    assert((((b0 as u32) | ((b1 as u32) << 8u32) | ((b2 as u32) << 16u32) | ((b3 as u32)
        << 24u32)) >> 8u32) as u8 == b1) by (bit_vector);
    assert((((b0 as u32) | ((b1 as u32) << 8u32) | ((b2 as u32) << 16u32) | ((b3 as u32)
        << 24u32)) >> 16u32) as u8 == b2) by (bit_vector);
    assert((((b0 as u32) | ((b1 as u32) << 8u32) | ((b2 as u32) << 16u32) | ((b3 as u32)
        << 24u32)) >> 24u32) as u8 == b3) by (bit_vector);
    assert(((b0 as u16) | ((b1 as u16) << 8u16)) as u8 == b0) by (bit_vector);
    assert((((b0 as u16) | ((b1 as u16) << 8u16)) >> 8u16) as u8 == b1) by (bit_vector);
}

/// One unit copies its bytes in order from `src` to `dst` and changes no
/// other RAM cell, nor anything else a read sees outside RAM.
#[verifier::spinoff_prover]
pub(crate) proof fn lemma_unit_copy(
    s: BusState,
    t32: bool,
    sc: u16,
    dc: u16,
    src: u32,
    dst: u32,
    step: u32,
    f: nat,
)
    requires
        s.wf(),
        step == if t32 {
            4u32
        } else {
            2u32
        },
        unit_write(s, t32, src, dst, f) is Some,
        forall|j: nat| j < step ==> in_ram(#[trigger] dma_dst_byte(dc, dst, step, 0, j)),
        forall|j1: nat, j2: nat|
            j1 < j2 < step ==> ram_cell(#[trigger] dma_dst_byte(dc, dst, step, 0, j1)) != ram_cell(
                #[trigger] dma_dst_byte(dc, dst, step, 0, j2),
            ),
    ensures
        (unit_write(s, t32, src, dst, f)->0).wf(),
        forall|j: nat|
            j < step ==> (unit_write(s, t32, src, dst, f)->0).read_byte(
                #[trigger] dma_dst_byte(dc, dst, step, 0, j),
            ) == s.read_byte(dma_src_byte(sc, src, step, 0, j)),
        forall|x: u32|
            !dma_writes_cell(dc, dst, step, 1, x) ==> (#[trigger] (unit_write(
                s,
                t32,
                src,
                dst,
                f,
            )->0).read_byte(x)) == s.read_byte(x),
{
    assert(dma_dst_after(dc, dst, step, 0) == dst);
    assert(dma_src_after(sc, src, step, 0) == src);
    let a0 = dma_dst_byte(dc, dst, step, 0, 0);
    let a1 = dma_dst_byte(dc, dst, step, 0, 1);
    assert(a0 == dst);
    assert(a1 == (dst + 1) as u32);
    assert(in_ram(a0) && in_ram(a1));
    assert(ram_cell(a0) != ram_cell(a1));
    let b0 = s.read_byte(src);
    let b1 = s.read_byte((src + 1) as u32);
    let b2 = s.read_byte((src + 2) as u32);
    let b3 = s.read_byte((src + 3) as u32);
    lemma_le_bytes(b0, b1, b2, b3);
    let s1 = s.store_byte(a0, b0);
    lemma_store_ram(s, a0, a0, b0);
    if t32 {
        let a2 = dma_dst_byte(dc, dst, step, 0, 2);
        let a3 = dma_dst_byte(dc, dst, step, 0, 3);
        assert(a2 == (dst + 2) as u32);
        assert(a3 == (dst + 3) as u32);
        assert(in_ram(a2) && in_ram(a3));
        assert(ram_cell(a0) != ram_cell(a2) && ram_cell(a0) != ram_cell(a3));
        assert(ram_cell(a1) != ram_cell(a2) && ram_cell(a1) != ram_cell(a3));
        assert(ram_cell(a2) != ram_cell(a3));
        let s2 = s1.store_byte(a1, b1);
        lemma_store_ram(s1, a1, a1, b1);
        let s3 = s2.store_byte(a2, b2);
        lemma_store_ram(s2, a2, a2, b2);
        let s4 = s3.store_byte(a3, b3);
        lemma_store_ram(s3, a3, a3, b3);
        assert(unit_write(s, t32, src, dst, f) == Some(s4));
        assert forall|x: u32| true implies #[trigger] s4.read_byte(x) == if in_ram(x) && ram_cell(
            x,
        ) == ram_cell(a3) {
            b3
        } else if in_ram(x) && ram_cell(x) == ram_cell(a2) {
            b2
        } else if in_ram(x) && ram_cell(x) == ram_cell(a1) {
            b1
        } else if in_ram(x) && ram_cell(x) == ram_cell(a0) {
            b0
        } else {
            s.read_byte(x)
        } by {
            lemma_store_ram(s, a0, x, b0);
            lemma_store_ram(s1, a1, x, b1);
            lemma_store_ram(s2, a2, x, b2);
            lemma_store_ram(s3, a3, x, b3);
        }
        assert forall|j: nat| j < step implies s4.read_byte(
            #[trigger] dma_dst_byte(dc, dst, step, 0, j),
        ) == s.read_byte(dma_src_byte(sc, src, step, 0, j)) by {
            assert(j == 0 || j == 1 || j == 2 || j == 3);
        }
        assert forall|x: u32| !dma_writes_cell(dc, dst, step, 1, x) implies #[trigger] s4.read_byte(
            x,
        ) == s.read_byte(x) by {
            if in_ram(x) {
                assert(ram_cell(dma_dst_byte(dc, dst, step, 0, 0)) != ram_cell(x));
                assert(ram_cell(dma_dst_byte(dc, dst, step, 0, 1)) != ram_cell(x));
                assert(ram_cell(dma_dst_byte(dc, dst, step, 0, 2)) != ram_cell(x));
                assert(ram_cell(dma_dst_byte(dc, dst, step, 0, 3)) != ram_cell(x));
            }
        }
    } else {
        let s2 = s1.store_byte(a1, b1);
        lemma_store_ram(s1, a1, a1, b1);
        assert(unit_write(s, t32, src, dst, f) == Some(s2));
        assert forall|x: u32| true implies #[trigger] s2.read_byte(x) == if in_ram(x) && ram_cell(
            x,
        ) == ram_cell(a1) {
            b1
        } else if in_ram(x) && ram_cell(x) == ram_cell(a0) {
            b0
        } else {
            s.read_byte(x)
        } by {
            lemma_store_ram(s, a0, x, b0);
            lemma_store_ram(s1, a1, x, b1);
        }
        assert forall|j: nat| j < step implies s2.read_byte(
            #[trigger] dma_dst_byte(dc, dst, step, 0, j),
        ) == s.read_byte(dma_src_byte(sc, src, step, 0, j)) by {
            assert(j == 0 || j == 1);
        }
        assert forall|x: u32| !dma_writes_cell(dc, dst, step, 1, x) implies #[trigger] s2.read_byte(
            x,
        ) == s.read_byte(x) by {
            if in_ram(x) {
                assert(ram_cell(dma_dst_byte(dc, dst, step, 0, 0)) != ram_cell(x));
                assert(ram_cell(dma_dst_byte(dc, dst, step, 0, 1)) != ram_cell(x));
            }
        }
    }
}

/// Unit `k` of the transfer that starts one unit on is unit `k + 1` of
/// this one.
pub(crate) proof fn lemma_unit_bytes_shift(sc: u16, dc: u16, src: u32, dst: u32, step: u32)
    ensures
        forall|k: nat, j: nat|
            #[trigger] dma_src_byte(sc, dma_next_src(sc, src, step), step, k, j) == dma_src_byte(
                sc,
                src,
                step,
                k + 1,
                j,
            ),
        forall|k: nat, j: nat|
            #[trigger] dma_dst_byte(dc, dma_next_dst(dc, dst, step), step, k, j) == dma_dst_byte(
                dc,
                dst,
                step,
                k + 1,
                j,
            ),
{
    assert forall|k: nat, j: nat|
        #[trigger] dma_src_byte(sc, dma_next_src(sc, src, step), step, k, j) == dma_src_byte(
            sc,
            src,
            step,
            k + 1,
            j,
        ) by {
        lemma_src_after_step(sc, src, step, k + 1);
    }
    assert forall|k: nat, j: nat|
        #[trigger] dma_dst_byte(dc, dma_next_dst(dc, dst, step), step, k, j) == dma_dst_byte(
            dc,
            dst,
            step,
            k + 1,
            j,
        ) by {
        lemma_dst_after_step(dc, dst, step, k + 1);
    }
}

#[verifier::spinoff_prover]
pub(crate) proof fn lemma_units_copy(
    s: BusState,
    t32: bool,
    sc: u16,
    dc: u16,
    src: u32,
    dst: u32,
    n: nat,
    f: nat,
)
    requires
        s.wf(),
        s.dma_units_f(t32, sc, dc, src, dst, n, f) is Some,
        dma_copy_separate(t32, sc, dc, src, dst, n),
    ensures
        (s.dma_units_f(t32, sc, dc, src, dst, n, f)->0).0.wf(),
        forall|k: nat, j: nat|
            k < n && j < dma_step(t32) ==> (s.dma_units_f(t32, sc, dc, src, dst, n, f)->0).0.read_byte(
                #[trigger] dma_dst_byte(
                    dc,
                    dst,
                    dma_step(t32),
                    k,
                    j,
                ),
            ) == s.read_byte(
                dma_src_byte(
                    sc,
                    src,
                    dma_step(t32),
                    k,
                    j,
                ),
            ),
        forall|x: u32|
            !dma_writes_cell(
                dc,
                dst,
                dma_step(t32),
                n,
                x,
            ) ==> (#[trigger] (s.dma_units_f(t32, sc, dc, src, dst, n, f)->0).0.read_byte(x))
                == s.read_byte(x),
    decreases n,
{
    let step = dma_step(t32);
    if n > 0 {
        assert(unit_write(s, t32, src, dst, f) is Some);
        assert forall|j1: nat, j2: nat| j1 < j2 < step implies ram_cell(
            #[trigger] dma_dst_byte(dc, dst, step, 0, j1),
        ) != ram_cell(#[trigger] dma_dst_byte(dc, dst, step, 0, j2)) by {
        }
        lemma_unit_copy(s, t32, sc, dc, src, dst, step, f);
        let s1 = unit_write(s, t32, src, dst, f)->0;
        let nsrc = dma_next_src(sc, src, step);
        let ndst = dma_next_dst(dc, dst, step);
        let m = (n - 1) as nat;
        lemma_unit_bytes_shift(sc, dc, src, dst, step);
        // A cell written by a later unit is written by this transfer.
        assert forall|x: u32| #[trigger] dma_writes_cell(dc, ndst, step, m, x) implies dma_writes_cell(
            dc,
            dst,
            step,
            n,
            x,
        ) by {
            let (k, j) = choose|k: nat, j: nat|
                k < m && j < step && ram_cell(#[trigger] dma_dst_byte(dc, ndst, step, k, j))
                    == ram_cell(x);
            assert(dma_dst_byte(dc, dst, step, k + 1, j) == dma_dst_byte(dc, ndst, step, k, j));
        }
        // A cell written by the first unit is written by this transfer.
        assert forall|x: u32| #[trigger] dma_writes_cell(dc, dst, step, 1, x) implies dma_writes_cell(
            dc,
            dst,
            step,
            n,
            x,
        ) by {
            let (k, j) = choose|k: nat, j: nat|
                k < 1 && j < step && ram_cell(#[trigger] dma_dst_byte(dc, dst, step, k, j))
                    == ram_cell(x);
        }
        assert(dma_copy_separate(t32, sc, dc, nsrc, ndst, m)) by {
            assert forall|k: nat, j: nat| k < m && j < step implies in_ram(
                #[trigger] dma_dst_byte(dc, ndst, step, k, j),
            ) by {
                assert(dma_dst_byte(dc, ndst, step, k, j) == dma_dst_byte(dc, dst, step, k + 1, j));
            }
            assert forall|k: nat, j: nat| k < m && j < step implies !dma_writes_cell(
                dc,
                ndst,
                step,
                m,
                #[trigger] dma_src_byte(sc, nsrc, step, k, j),
            ) by {
                assert(dma_src_byte(sc, nsrc, step, k, j) == dma_src_byte(sc, src, step, k + 1, j));
                assert(!dma_writes_cell(dc, dst, step, n, dma_src_byte(sc, src, step, k + 1, j)));
            }
            assert forall|k1: nat, j1: nat, k2: nat, j2: nat|
                k1 < m && j1 < step && k2 < m && j2 < step && (k1 != k2 || j1 != j2) implies ram_cell(
                #[trigger] dma_dst_byte(dc, ndst, step, k1, j1),
            ) != ram_cell(#[trigger] dma_dst_byte(dc, ndst, step, k2, j2)) by {
                assert(dma_dst_byte(dc, ndst, step, k1, j1) == dma_dst_byte(
                    dc,
                    dst,
                    step,
                    k1 + 1,
                    j1,
                ));
                assert(dma_dst_byte(dc, ndst, step, k2, j2) == dma_dst_byte(
                    dc,
                    dst,
                    step,
                    k2 + 1,
                    j2,
                ));
            }
        }
        assert(s.dma_units_f(t32, sc, dc, src, dst, n, f) == s1.dma_units_f(
            t32,
            sc,
            dc,
            nsrc,
            ndst,
            m,
            f,
        ));
        lemma_units_copy(s1, t32, sc, dc, nsrc, ndst, m, f);
        let r = (s1.dma_units_f(t32, sc, dc, nsrc, ndst, m, f)->0).0;
        assert forall|k: nat, j: nat| k < n && j < step implies r.read_byte(
            #[trigger] dma_dst_byte(dc, dst, step, k, j),
        ) == s.read_byte(dma_src_byte(sc, src, step, k, j)) by {
            if k == 0 {
                let a = dma_dst_byte(dc, dst, step, 0, j);
                if dma_writes_cell(dc, ndst, step, m, a) {
                    let (k2, j2) = choose|k2: nat, j2: nat|
                        k2 < m && j2 < step && ram_cell(
                            #[trigger] dma_dst_byte(dc, ndst, step, k2, j2),
                        ) == ram_cell(a);
                    assert(dma_dst_byte(dc, ndst, step, k2, j2) == dma_dst_byte(
                        dc,
                        dst,
                        step,
                        k2 + 1,
                        j2,
                    ));
                    assert(false);
                }
            } else {
                let k1 = (k - 1) as nat;
                assert(dma_dst_byte(dc, ndst, step, k1, j) == dma_dst_byte(dc, dst, step, k, j));
                assert(dma_src_byte(sc, nsrc, step, k1, j) == dma_src_byte(sc, src, step, k, j));
                let b = dma_src_byte(sc, src, step, k, j);
                assert(!dma_writes_cell(dc, dst, step, n, b));
                assert(!dma_writes_cell(dc, dst, step, 1, b));
                assert(s1.read_byte(b) == s.read_byte(b));
                assert(r.read_byte(dma_dst_byte(dc, ndst, step, k1, j)) == s1.read_byte(
                    dma_src_byte(sc, nsrc, step, k1, j),
                ));
            }
        }
        assert forall|x: u32| !dma_writes_cell(dc, dst, step, n, x) implies #[trigger] r.read_byte(x)
            == s.read_byte(x) by {
            assert(!dma_writes_cell(dc, dst, step, 1, x));
            assert(!dma_writes_cell(dc, ndst, step, m, x));
            assert(s1.read_byte(x) == s.read_byte(x));
        }
    }
}

/// A whole transfer of channel `ch` whose units write RAM only, each written
/// byte to a cell of its own, and never read a cell that the transfer
/// writes, copies: byte `j` of unit `k` at the destination reads as byte `j`
/// of unit `k` at the source did before the transfer (units of 2 or 4 bytes,
/// addresses moving as the channel's control says, a count of 0 meaning the
/// maximum). Every RAM cell that no unit writes keeps its value.
pub proof fn lemma_run_dma_copies(s: BusState, ch: int, f: nat)
    requires
        s.wf(),
        0 <= ch < 4,
        s.run_dma_f(ch, f) is Some,
        dma_copy_separate(
            dma_transfer_32(s.dma[ch].control),
            dma_src_control(s.dma[ch].control),
            dma_dest_control(s.dma[ch].control),
            s.dma[ch].internal_sad,
            s.dma[ch].internal_dad,
            dma_unit_count(ch, s.dma[ch].count),
        ),
    ensures
        forall|k: nat, j: nat|
            k < dma_unit_count(ch, s.dma[ch].count) && j < dma_unit_size(s.dma[ch].control) ==> (
            s.run_dma_f(ch, f)->0).read_byte(
                #[trigger] dma_dst_byte(
                    dma_dest_control(s.dma[ch].control),
                    s.dma[ch].internal_dad,
                    dma_unit_size(s.dma[ch].control),
                    k,
                    j,
                ),
            ) == s.read_byte(
                dma_src_byte(
                    dma_src_control(s.dma[ch].control),
                    s.dma[ch].internal_sad,
                    dma_unit_size(s.dma[ch].control),
                    k,
                    j,
                ),
            ),
        forall|x: u32|
            in_ram(x) && !dma_writes_cell(
                dma_dest_control(s.dma[ch].control),
                s.dma[ch].internal_dad,
                dma_unit_size(s.dma[ch].control),
                dma_unit_count(ch, s.dma[ch].count),
                x,
            ) ==> (#[trigger] (s.run_dma_f(ch, f)->0).read_byte(x)) == s.read_byte(x),
{
    let d = s.dma[ch];
    let t32 = dma_transfer_32(d.control);
    let dc = dma_dest_control(d.control);
    let sc = dma_src_control(d.control);
    let n = dma_unit_count(ch, d.count);
    lemma_units_copy(s, t32, sc, dc, d.internal_sad, d.internal_dad, n, (f - 1) as nat);
    let r = s.dma_units_f(t32, sc, dc, d.internal_sad, d.internal_dad, n, (f - 1) as nat)->0;
    let t = s.run_dma_f(ch, f)->0;
    assert(t == r.0.dma_finish(ch, r.1, r.2, dc));
    assert forall|x: u32| in_ram(x) implies #[trigger] t.read_byte(x) == r.0.read_byte(x) by {
    }
}

} // verus!
