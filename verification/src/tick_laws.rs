//! Laws of a tick: the display registers and interrupt flags it leaves, the
//! I/O registers it keeps, and when blanking DMA runs.
use vstd::prelude::*;
use crate::bus::{BusState, Timer, dma_start_timing, scanline_at, hblank_at};
use crate::bus_laws::{
    dma_armed, dma_transfer_avoids_io, dma_after_blanking_run, armed_from_avoid_io, lemma_run_dma,
    lemma_run_armed, lemma_armed_from_step, lemma_armed_from_kept, lemma_check_channel,
    lemma_none_armed, lemma_timers_io, lemma_dispstat_bits, lemma_if_bits,
};

verus! {

/// The cycle count a tick reaches.
pub open spec fn tick_cycles(s: BusState, cycles: u32) -> u32 {
    vstd::wrapping::u32_specs::wrapping_add(s.cycles, cycles)
}

/// Blanking DMA runs only on a rising edge: a tick that neither enters
/// VBlank nor HBlank runs no transfer; it updates the display registers,
/// raises the display interrupt flags and advances the timers.
pub proof fn lemma_tick_dma_on_rising_edge_only(s: BusState, cycles: u32, f: nat)
    ensures
        !(s.display_update(cycles).io[4] & 1 != 0 && s.io[4] & 1 == 0) && !(s.display_update(
            cycles,
        ).io[4] & 2 != 0 && s.io[4] & 2 == 0) ==> s.tick_f(cycles, f) == s.display_update(
            cycles,
        ).raise_display_irqs(s.io[4], s.display_update(cycles).io[4]).timers_from(0, cycles),
{
    reveal(BusState::tick_f);
}

/// I/O offsets of the DMA control registers (two bytes per channel).
pub open spec fn dma_control_byte(m: int) -> bool {
    0xB0 <= m < 0xE0 && (m - 0xB0) % 12 >= 10
}

/// Every channel armed for VBlank or HBlank has a transfer that writes only
/// outside the I/O registers.
pub open spec fn blanking_dma_avoids_io(s: BusState) -> bool {
    forall|i: int|
        #![trigger dma_armed(s, i, 1)]
        #![trigger dma_armed(s, i, 2)]
        0 <= i < 4 && (dma_armed(s, i, 1) || dma_armed(s, i, 2)) ==> dma_transfer_avoids_io(
            s.dma[i],
            i,
        )
}

proof fn lemma_control_bytes(ch: int)
    requires
        0 <= ch < 4,
    ensures
        dma_control_byte(0xB0 + ch * 12 + 10),
        dma_control_byte(0xB0 + ch * 12 + 11),
{
    if ch == 0 {
    } else if ch == 1 {
    } else if ch == 2 {
    } else {
    }
}

/// Blanking DMA whose transfers avoid the I/O registers changes, of them,
/// only the channels' control bytes; the clock and timers stay.
proof fn lemma_check_keeps_io(s: BusState, k: int, timing: u16, f: nat, m: int)
    requires
        s.wf(),
        0 <= k,
        timing == 1 || timing == 2,
        s.check_dma_from(k, timing, f) is Some,
        k < 4 ==> armed_from_avoid_io(s, k, timing),
        0 <= m < 0x400,
        !dma_control_byte(m),
    ensures
        (s.check_dma_from(k, timing, f)->0).wf(),
        (s.check_dma_from(k, timing, f)->0).io[m] == s.io[m],
        (s.check_dma_from(k, timing, f)->0).cycles == s.cycles,
    decreases 4 - k,
{
    if k < 4 {
        lemma_armed_from_step(s, k, timing);
        if dma_armed(s, k, timing) {
            lemma_run_armed(s, k, timing, f);
            lemma_run_dma(s, k, f);
            lemma_control_bytes(k);
            let s1 = s.run_dma_f(k, f)->0;
            if k + 1 < 4 {
                lemma_armed_from_kept(s, s1, k, timing);
            }
            lemma_check_keeps_io(s1, k + 1, timing, f, m);
        } else {
            lemma_check_keeps_io(s, k + 1, timing, f, m);
        }
    }
}

/// Blanking DMA from channel 0 whose transfers avoid the I/O registers keeps
/// every I/O byte but the DMA control registers, and the clock.
proof fn lemma_check_keeps_all_io(s: BusState, timing: u16, f: nat)
    requires
        s.wf(),
        timing == 1 || timing == 2,
        s.check_dma_from(0, timing, f) is Some,
        armed_from_avoid_io(s, 0, timing),
    ensures
        (s.check_dma_from(0, timing, f)->0).wf(),
        (s.check_dma_from(0, timing, f)->0).cycles == s.cycles,
        forall|m: int|
            0 <= m < 0x400 && !dma_control_byte(m) ==> #[trigger] (s.check_dma_from(
                0,
                timing,
                f,
            )->0).io[m] == s.io[m],
{
    lemma_check_keeps_io(s, 0, timing, f, 0);
    assert forall|m: int| 0 <= m < 0x400 && !dma_control_byte(m) implies #[trigger] (
    s.check_dma_from(0, timing, f)->0).io[m] == s.io[m] by {
        lemma_check_keeps_io(s, 0, timing, f, m);
    }
}

proof fn lemma_start_timing_low_bits(a: u16, b: u16)
    requires
        a & 0x7FFF == b & 0x7FFF,
    ensures
        dma_start_timing(a) == dma_start_timing(b),
{
    assert(a & 0x7FFF == b & 0x7FFF ==> (a >> 12u16) & 3 == (b >> 12u16) & 3) by (bit_vector);
}

/// After VBlank DMA, the channels armed for HBlank are those that were, with
/// their state unchanged.
proof fn lemma_hblank_armed_after_vblank(s: BusState, f: nat)
    requires
        s.wf(),
        s.check_dma_from(0, 1, f) is Some,
        blanking_dma_avoids_io(s),
    ensures
        armed_from_avoid_io(s.check_dma_from(0, 1, f)->0, 0, 2),
{
    let t = s.check_dma_from(0, 1, f)->0;
    assert(armed_from_avoid_io(s, 0, 1)) by {
        reveal(armed_from_avoid_io);
    }
    assert forall|i: int| 0 <= i < 4 && #[trigger] dma_armed(t, i, 2) implies dma_transfer_avoids_io(
        t.dma[i],
        i,
    ) by {
        lemma_check_channel(s, 0, 1, f, i);
        if dma_armed(s, i, 1) {
            reveal(dma_after_blanking_run);
            lemma_start_timing_low_bits(s.dma[i].control, t.dma[i].control);
        }
        assert(t.dma[i] == s.dma[i]);
    }
    reveal(armed_from_avoid_io);
}

/// The blanking transfers of a tick: VBlank DMA on a VBlank edge `v`, then
/// HBlank DMA on an HBlank edge `h`.
spec fn blanking_phases(s1: BusState, v: bool, h: bool, f: nat) -> Option<BusState> {
    let r2 = if v {
        s1.check_dma_from(0, 1, f)
    } else {
        Some(s1)
    };
    match r2 {
        None => None,
        Some(s2) => if h {
            s2.check_dma_from(0, 2, f)
        } else {
            Some(s2)
        },
    }
}

#[verifier::spinoff_prover]
proof fn lemma_blanking_phases_io(s1: BusState, v: bool, h: bool, f: nat)
    requires
        s1.wf(),
        blanking_phases(s1, v, h, f) is Some,
        blanking_dma_avoids_io(s1),
    ensures
        (blanking_phases(s1, v, h, f)->0).wf(),
        (blanking_phases(s1, v, h, f)->0).cycles == s1.cycles,
        forall|m: int|
            0 <= m < 0x400 && !dma_control_byte(m) ==> #[trigger] (blanking_phases(
                s1,
                v,
                h,
                f,
            )->0).io[m] == s1.io[m],
{
    let s2 = if v {
        s1.check_dma_from(0, 1, f)->0
    } else {
        s1
    };
    if v {
        assert(armed_from_avoid_io(s1, 0, 1)) by {
            reveal(armed_from_avoid_io);
        }
        lemma_check_keeps_all_io(s1, 1, f);
        lemma_hblank_armed_after_vblank(s1, f);
    } else {
        assert(armed_from_avoid_io(s1, 0, 2)) by {
            reveal(armed_from_avoid_io);
        }
    }
    if h {
        lemma_check_keeps_all_io(s2, 2, f);
        let s3 = s2.check_dma_from(0, 2, f)->0;
        assert forall|m: int| 0 <= m < 0x400 && !dma_control_byte(m) implies #[trigger] s3.io[m]
            == s1.io[m] by {
            assert(s2.io[m] == s1.io[m]);
        }
    }
}

/// A tick is the display update, the blanking transfers, the display
/// interrupt flags and the timers.
proof fn lemma_tick_phases(s: BusState, cycles: u32, f: nat)
    ensures
        s.tick_f(cycles, f) == match blanking_phases(
            s.display_update(cycles),
            s.display_update(cycles).io[4] & 1 != 0 && s.io[4] & 1 == 0,
            s.display_update(cycles).io[4] & 2 != 0 && s.io[4] & 2 == 0,
            f,
        ) {
            None => None,
            Some(s3) => s3.raise_display_irqs(s.io[4], s.display_update(cycles).io[4]).timers_from(
                0,
                cycles,
            ),
        },
{
    reveal(BusState::tick_f);
}

/// Display updates leave the DMA channels alone.
proof fn lemma_display_update_dma(s: BusState, cycles: u32)
    requires
        s.wf(),
        blanking_dma_avoids_io(s),
    ensures
        s.display_update(cycles).wf(),
        blanking_dma_avoids_io(s.display_update(cycles)),
{
    let s1 = s.display_update(cycles);
    assert(s1.dma == s.dma);
    assert forall|i: int|
        #![trigger dma_armed(s1, i, 1)]
        #![trigger dma_armed(s1, i, 2)]
        0 <= i < 4 && (dma_armed(s1, i, 1) || dma_armed(s1, i, 2)) implies dma_transfer_avoids_io(
        s1.dma[i],
        i,
    ) by {
        assert(s1.dma[i] == s.dma[i]);
        if dma_armed(s1, i, 1) {
            assert(dma_armed(s, i, 1));
        } else {
            assert(dma_armed(s, i, 2));
        }
    }
}

/// A tick whose blanking transfers avoid the I/O registers: the display
/// update, blanking DMA that keeps every I/O byte but the DMA control
/// registers, then the display interrupt flags and the timers.
proof fn lemma_tick_through(s: BusState, cycles: u32, f: nat) -> (s3: BusState)
    requires
        s.wf(),
        s.tick_f(cycles, f) is Some,
        blanking_dma_avoids_io(s),
    ensures
        s3.wf(),
        s3.cycles == s.display_update(cycles).cycles,
        forall|m: int|
            0 <= m < 0x400 && !dma_control_byte(m) ==> #[trigger] s3.io[m] == s.display_update(
                cycles,
            ).io[m],
        s.tick_f(cycles, f) == s3.raise_display_irqs(s.io[4], s.display_update(cycles).io[4]).timers_from(
            0,
            cycles,
        ),
        s3 == blanking_phases(
            s.display_update(cycles),
            s.display_update(cycles).io[4] & 1 != 0 && s.io[4] & 1 == 0,
            s.display_update(cycles).io[4] & 2 != 0 && s.io[4] & 2 == 0,
            f,
        )->0,
{
    let s1 = s.display_update(cycles);
    let v = s1.io[4] & 1 != 0 && s.io[4] & 1 == 0;
    let h = s1.io[4] & 2 != 0 && s.io[4] & 2 == 0;
    lemma_tick_phases(s, cycles, f);
    lemma_display_update_dma(s, cycles);
    lemma_blanking_phases_io(s1, v, h, f);
    blanking_phases(s1, v, h, f)->0
}

/// The display registers and interrupt flags after a tick whose blanking
/// transfers (if any channel is armed for VBlank or HBlank) write only
/// outside the I/O registers: the cycle count wrap-adds, VCOUNT is the
/// scanline of the new count (0-227, 1232 cycles each, 228 per frame) with
/// its high byte clear, DISPSTAT bit 0 is VBlank (lines 160-227), bit 1
/// HBlank (from cycle 960 of a line), bit 2 the VCount match against
/// DISPSTAT's high byte, with bits 3-7 and the high byte kept; IF gains the
/// VBlank, HBlank and VCount-match bits exactly on rising edges whose
/// interrupt DISPSTAT enables.
pub proof fn lemma_tick_display(s: BusState, cycles: u32)
    requires
        s.wf(),
        s.tick_ok(cycles),
        blanking_dma_avoids_io(s),
    ensures
        s.tick_result(cycles).cycles == tick_cycles(s, cycles),
        scanline_at(tick_cycles(s, cycles)) < 228,
        s.tick_result(cycles).io[6] == scanline_at(tick_cycles(s, cycles)),
        s.tick_result(cycles).io[7] == 0,
        (s.tick_result(cycles).io[4] & 1 != 0) == (scanline_at(tick_cycles(s, cycles)) >= 160),
        (s.tick_result(cycles).io[4] & 2 != 0) == hblank_at(tick_cycles(s, cycles)),
        (s.tick_result(cycles).io[4] & 4 != 0) == (scanline_at(tick_cycles(s, cycles)) == s.io[5]),
        s.tick_result(cycles).io[4] & 0xF8 == s.io[4] & 0xF8,
        s.tick_result(cycles).io[5] == s.io[5],
        (s.tick_result(cycles).io[0x202] & 1 != 0) == (s.io[0x202] & 1 != 0 || (scanline_at(
            tick_cycles(s, cycles),
        ) >= 160 && s.io[4] & 1 == 0 && s.io[4] & 0x08 != 0)),
        (s.tick_result(cycles).io[0x202] & 2 != 0) == (s.io[0x202] & 2 != 0 || (hblank_at(
            tick_cycles(s, cycles),
        ) && s.io[4] & 2 == 0 && s.io[4] & 0x10 != 0)),
        (s.tick_result(cycles).io[0x202] & 4 != 0) == (s.io[0x202] & 4 != 0 || (scanline_at(
            tick_cycles(s, cycles),
        ) == s.io[5] && s.io[4] & 4 == 0 && s.io[4] & 0x20 != 0)),
{
    let f = choose|f: nat| (#[trigger] s.tick_f(cycles, f)) is Some;
    let s3 = lemma_tick_through(s, cycles, f);
    let cyc = tick_cycles(s, cycles);
    let line = scanline_at(cyc);
    let s1 = s.display_update(cycles);
    let old_ds = s.io[4];
    let ds = s1.io[4];
    assert(s3.io[4] == s1.io[4]);
    assert(s3.io[5] == s1.io[5]);
    assert(s3.io[6] == s1.io[6]);
    assert(s3.io[7] == s1.io[7]);
    assert(s3.io[0x202] == s1.io[0x202]);
    lemma_dispstat_bits(s.io[4], line, s.io[5], hblank_at(cyc));
    let s4 = s3.raise_display_irqs(old_ds, ds);
    assert(s4.wf());
    lemma_timers_io(s4, 0, cycles, 4);
    lemma_timers_io(s4, 0, cycles, 5);
    lemma_timers_io(s4, 0, cycles, 6);
    lemma_timers_io(s4, 0, cycles, 7);
    lemma_timers_io(s4, 0, cycles, 0x202);
    let c1 = ds & 1 != 0 && old_ds & 1 == 0 && ds & 0x08 != 0;
    let c2 = ds & 2 != 0 && old_ds & 2 == 0 && ds & 0x10 != 0;
    let c3 = ds & 4 != 0 && old_ds & 4 == 0 && ds & 0x20 != 0;
    assert((ds & 0xF8 == old_ds & 0xF8) ==> (ds & 0x08 == old_ds & 0x08 && ds & 0x10 == old_ds
        & 0x10 && ds & 0x20 == old_ds & 0x20)) by (bit_vector);
    lemma_if_bits(s.io[0x202], c1, c2, c3, s.tick_result(cycles).io[0x202]);
}

proof fn lemma_idle_phases_on(s1: BusState, v: bool, h: bool, f: nat)
    requires
        forall|i: int|
            #![trigger dma_armed(s1, i, 1)]
            #![trigger dma_armed(s1, i, 2)]
            0 <= i < 4 ==> !dma_armed(s1, i, 1) && !dma_armed(s1, i, 2),
    ensures
        blanking_phases(s1, v, h, f) == Some(s1),
{
    lemma_none_armed(s1, 0, 1, f);
    lemma_none_armed(s1, 0, 2, f);
}

/// With no channel armed for VBlank or HBlank a tick runs no transfer.
#[verifier::spinoff_prover]
proof fn lemma_idle_phases(s: BusState, cycles: u32, f: nat)
    requires
        forall|i: int|
            #![trigger dma_armed(s, i, 1)]
            #![trigger dma_armed(s, i, 2)]
            0 <= i < 4 ==> !dma_armed(s, i, 1) && !dma_armed(s, i, 2),
    ensures
        blanking_phases(
            s.display_update(cycles),
            s.display_update(cycles).io[4] & 1 != 0 && s.io[4] & 1 == 0,
            s.display_update(cycles).io[4] & 2 != 0 && s.io[4] & 2 == 0,
            f,
        ) == Some(s.display_update(cycles)),
{
    let s1 = s.display_update(cycles);
    assert forall|i: int|
        #![trigger dma_armed(s1, i, 1)]
        #![trigger dma_armed(s1, i, 2)]
        0 <= i < 4 implies !dma_armed(s1, i, 1) && !dma_armed(s1, i, 2) by {
        assert(s1.dma[i] == s.dma[i]);
        assert(!dma_armed(s, i, 1) && !dma_armed(s, i, 2));
    }
    lemma_idle_phases_on(
        s1,
        s1.io[4] & 1 != 0 && s.io[4] & 1 == 0,
        s1.io[4] & 2 != 0 && s.io[4] & 2 == 0,
        f,
    );
}

/// A tick whose blanking transfers write only outside the I/O registers
/// changes, among the I/O registers, only DISPSTAT (offset 4), VCOUNT (6 and
/// 7), IF (0x202) and the DMA control registers of the channels it runs:
/// every other byte, the VCount target (offset 5) among them, is kept; with
/// no channel armed for VBlank or HBlank the DMA control registers are kept
/// too.
pub proof fn lemma_tick_keeps_io(s: BusState, cycles: u32, k: int)
    requires
        s.wf(),
        s.tick_ok(cycles),
        blanking_dma_avoids_io(s),
        0 <= k < 0x400,
        k != 4 && k != 6 && k != 7 && k != 0x202,
        !dma_control_byte(k) || forall|i: int|
            #![trigger dma_armed(s, i, 1)]
            #![trigger dma_armed(s, i, 2)]
            0 <= i < 4 ==> !dma_armed(s, i, 1) && !dma_armed(s, i, 2),
    ensures
        s.tick_result(cycles).io[k] == s.io[k],
{
    let f = choose|f: nat| (#[trigger] s.tick_f(cycles, f)) is Some;
    let s3 = lemma_tick_through(s, cycles, f);
    let s1 = s.display_update(cycles);
    if dma_control_byte(k) {
        lemma_idle_phases(s, cycles, f);
    }
    assert(s3.io[k] == s1.io[k]);
    let s4 = s3.raise_display_irqs(s.io[4], s1.io[4]);
    assert(s4.wf());
    assert(s4.io[k] == s.io[k]);
    lemma_timers_io(s4, 0, cycles, k);
}

/// An enabled timer that does not count overflows of the timer below
/// (cascade, bit 2, which timer 0 ignores) advances by one for every
/// `period` cycles accumulated with those it had left over, `period` being
/// 1, 64, 256 or 1024 by the control's low two bits; the
/// cycles short of the next tick are kept. Without an overflow no other
/// timer and no I/O register changes.
pub proof fn lemma_timer_counts(s: BusState, i: int, cycles: u32, period: int)
    requires
        s.wf(),
        0 <= i < 4,
        s.io[0x102 + i * 4] & 0x80 != 0,
        i == 0 || s.io[0x102 + i * 4] & 0x04 == 0,
        period == if s.io[0x102 + i * 4] & 3 == 0 {
            1int
        } else if s.io[0x102 + i * 4] & 3 == 1 {
            64
        } else if s.io[0x102 + i * 4] & 3 == 2 {
            256
        } else {
            1024
        },
        s.timers[i].prescaler_counter + cycles <= u32::MAX,
        s.timers[i].counter + (s.timers[i].prescaler_counter + cycles) / period <= 0xFFFF,
    ensures
        s.timer_step(i, cycles) is Some,
        (s.timer_step(i, cycles)->0).timers[i].counter == s.timers[i].counter + (
        s.timers[i].prescaler_counter + cycles) / period,
        (s.timer_step(i, cycles)->0).timers[i].prescaler_counter == (s.timers[i].prescaler_counter
            + cycles) % period,
        (s.timer_step(i, cycles)->0).timers[i].reload == s.timers[i].reload,
        (s.timer_step(i, cycles)->0).io == s.io,
        forall|j: int|
            0 <= j < 4 && j != i ==> #[trigger] (s.timer_step(i, cycles)->0).timers[j]
                == s.timers[j],
{
    let control = s.io[0x102 + i * 4];
    assert(crate::bus::prescaler_divider(control & 3) as int == period) by {
        crate::bits::lemma_and_le_u8(control, 3);
    }
}

proof fn lemma_bit_kept(x: u8, y: u8, k: u8)
    by (bit_vector)
    requires
        k < 8,
    ensures
        x & (1u8 << k) != 0 ==> (x | y) & (1u8 << k) != 0,
        (x | (1u8 << k)) & (1u8 << k) != 0,
{
}

/// An overflow carried into timer `idx` leaves the timers below it alone
/// and clears no interrupt flag.
proof fn lemma_timer_add_keeps(s: BusState, idx: int, ticks: u32, i: int, k: u8)
    requires
        s.wf(),
        0 <= i < idx < 4,
        k < 8,
        s.timer_add_f(idx, ticks) is Some,
    ensures
        (s.timer_add_f(idx, ticks)->0).timers[i] == s.timers[i],
        (s.timer_add_f(idx, ticks)->0).wf(),
        s.io[0x202] & (1u8 << k) != 0 ==> (s.timer_add_f(idx, ticks)->0).io[0x202] & (1u8 << k)
            != 0,
    decreases 4 - idx,
{
    let t = s.timers[idx];
    let nv = t.counter as u32 + ticks;
    if nv > 0xFFFF {
        let remaining = nv - 0x10000;
        let reload = t.reload as u32;
        let range = 0x10000 - reload;
        let overflows = (1 + remaining / range) as u32;
        let s1 = BusState {
            timers: s.timers.update(idx, Timer { counter: (reload + remaining % range) as u16, ..t }),
            ..s
        };
        let control = s1.io[0x102 + idx * 4];
        lemma_bit_kept(s1.io[0x202], 1u8 << ((3 + idx) as u8), k);
        let s2 = if control & 0x40 != 0 {
            BusState { io: s1.io.update(0x202, s1.io[0x202] | (1u8 << ((3 + idx) as u8))), ..s1 }
        } else {
            s1
        };
        if idx < 3 {
            let next = s2.io[0x102 + (idx + 1) * 4];
            if next & 0x80 != 0 && next & 0x04 != 0 {
                lemma_timer_add_keeps(s2, idx + 1, overflows, i, k);
            }
        }
    }
}

/// An enabled timer that does not cascade and overflows on this step (its
/// count plus the `period`-cycle ticks accumulated passes 0xFFFF) restarts
/// from its reload value: it ends at `reload + (count + ticks - 0x10000)`
/// modulo the `0x10000 - reload` counts of a period, keeps the cycles short
/// of the next tick, and raises its interrupt flag (IF bit 3 + timer) when
/// its control enables the interrupt (bit 6). The next timer, when enabled
/// in cascade mode, counts the overflows: one plus the whole periods past
/// the first (when that does not overflow it in turn).
pub proof fn lemma_timer_overflows(s: BusState, i: int, cycles: u32, period: int)
    requires
        s.wf(),
        0 <= i < 4,
        s.io[0x102 + i * 4] & 0x80 != 0,
        i == 0 || s.io[0x102 + i * 4] & 0x04 == 0,
        period == if s.io[0x102 + i * 4] & 3 == 0 {
            1int
        } else if s.io[0x102 + i * 4] & 3 == 1 {
            64
        } else if s.io[0x102 + i * 4] & 3 == 2 {
            256
        } else {
            1024
        },
        s.timers[i].counter + (s.timers[i].prescaler_counter + cycles) / period > 0xFFFF,
        s.timer_step(i, cycles) is Some,
    ensures
        (s.timer_step(i, cycles)->0).timers[i].counter == s.timers[i].reload + (s.timers[i].counter
            + (s.timers[i].prescaler_counter + cycles) / period - 0x10000) % (0x10000
            - s.timers[i].reload),
        (s.timer_step(i, cycles)->0).timers[i].prescaler_counter == (s.timers[i].prescaler_counter
            + cycles) % period,
        s.io[0x102 + i * 4] & 0x40 != 0 ==> (s.timer_step(i, cycles)->0).io[0x202] & (1u8 << ((3
            + i) as u8)) != 0,
        i < 3 && s.io[0x102 + (i + 1) * 4] & 0x80 != 0 && s.io[0x102 + (i + 1) * 4] & 0x04 != 0
            && s.timers[i + 1].counter + 1 + (s.timers[i].counter + (s.timers[i].prescaler_counter
            + cycles) / period - 0x10000) / (0x10000 - s.timers[i].reload) <= 0xFFFF ==> (
        s.timer_step(i, cycles)->0).timers[i + 1].counter == s.timers[i + 1].counter + 1 + (
        s.timers[i].counter + (s.timers[i].prescaler_counter + cycles) / period - 0x10000) / (
        0x10000 - s.timers[i].reload),
{
    let control = s.io[0x102 + i * 4];
    assert(crate::bus::prescaler_divider(control & 3) as int == period) by {
        crate::bits::lemma_and_le_u8(control, 3);
    }
    let t = s.timers[i];
    let pc = (t.prescaler_counter + cycles) as u32;
    let ticks = pc / (period as u32);
    let s0 = BusState {
        timers: s.timers.update(i, Timer { prescaler_counter: pc % (period as u32), ..t }),
        ..s
    };
    assert(s.timer_step(i, cycles) == s0.timer_add_f(i, ticks));
    let t0 = s0.timers[i];
    let nv = t0.counter as u32 + ticks;
    let remaining = nv - 0x10000;
    let reload = t0.reload as u32;
    let range = 0x10000 - reload;
    let overflows = (1 + remaining / range) as u32;
    assert(0 <= remaining % range < range);
    let s1 = BusState {
        timers: s0.timers.update(i, Timer { counter: (reload + remaining % range) as u16, ..t0 }),
        ..s0
    };
    let k = (3 + i) as u8;
    lemma_bit_kept(s1.io[0x202], 1u8 << k, k);
    let s2 = if control & 0x40 != 0 {
        BusState { io: s1.io.update(0x202, s1.io[0x202] | (1u8 << k)), ..s1 }
    } else {
        s1
    };
    if i < 3 {
        let next = s2.io[0x102 + (i + 1) * 4];
        if next & 0x80 != 0 && next & 0x04 != 0 {
            lemma_timer_add_keeps(s2, i + 1, overflows, i, k);
        }
    }
}

} // verus!
