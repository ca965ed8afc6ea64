//! The timer: a free-running DIV counter at 0xFF04 and the programmable
//! TIMA counter at 0xFF05, reloaded from TMA (0xFF06) on overflow and
//! controlled by TAC (0xFF07).  Each tick receives the cycle count of the
//! instruction that just ran.

use vstd::prelude::*;
use vstd::arithmetic::div_mod::{lemma_fundamental_div_mod, lemma_fundamental_div_mod_converse};
use crate::memory::{Memory, fold_echo, lemma_read_after_write};

verus! {

/// Whether TAC bit 2 enables the TIMA counter.
pub open spec fn tac_enabled(tac: u8) -> bool {
    tac / 4 % 2 == 1
}

/// The cycle count per TIMA increment that TAC bits 0..1 select.
pub open spec fn tac_rate(tac: u8) -> u32 {
    if tac % 4 == 0 {
        1024
    } else if tac % 4 == 1 {
        16
    } else if tac % 4 == 2 {
        64
    } else {
        256
    }
}

/// TIMA after `k` increments: each step adds one, and a step leaving 0xFF
/// reloads from TMA instead.
pub open spec fn tima_after(tima: u8, tma: u8, k: nat) -> u8
    decreases k,
{
    if k == 0 {
        tima
    } else {
        let prev = tima_after(tima, tma, (k - 1) as nat);
        if prev == 0xFF {
            tma
        } else {
            (prev + 1) as u8
        }
    }
}

/// Whether one of the first `k` increments overflowed (left 0xFF).
pub open spec fn tima_overflowed(tima: u8, tma: u8, k: nat) -> bool
    decreases k,
{
    if k == 0 {
        false
    } else {
        tima_overflowed(tima, tma, (k - 1) as nat) || tima_after(tima, tma, (k - 1) as nat) == 0xFF
    }
}

#[derive(Debug)]
pub struct Clock {
    pub time: u32,
    pub div_clock: u32,
}

/// How one timer tick of `ticks` cycles relates the clock and the bus
/// before to the clock and the bus after.  DIV gains one for every 256
/// cycles.  When TAC enables it, TIMA gains one for every `tac_rate`
/// cycles, reloading from TMA and raising interrupt bit 2 on overflow.
/// Writes stay within DIV, TIMA and the interrupt flag register.
pub open spec fn clock_tick_rel(c0: Clock, m0: Memory, c1: Clock, m1: Memory, ticks: u32) -> bool {
    let div_total = c0.div_clock + ticks;
    let tac = m0.read_spec(0xFF07);
    let rate = tac_rate(tac);
    let t0 = m0.read_spec(0xFF05);
    let tma = m0.read_spec(0xFF06);
    let k = ((c0.time + ticks) / rate as int) as nat;
    &&& c1.wf()
    &&& m1.wf()
    &&& m1.cart == m0.cart
    &&& c1.div_clock == div_total % 256
    &&& c1.time == if tac_enabled(tac) {
        (c0.time + ticks) % rate as int
    } else {
        c0.time as int
    }
    &&& m1.read_spec(0xFF04) == (m0.read_spec(0xFF04) + div_total / 256) % 256
    &&& m1.read_spec(0xFF05) == if tac_enabled(tac) {
        tima_after(t0, tma, k)
    } else {
        t0
    }
    &&& m1.read_spec(0xFF0F) == if tac_enabled(tac) && tima_overflowed(t0, tma, k) {
        m0.read_spec(0xFF0F) | 4
    } else {
        m0.read_spec(0xFF0F)
    }
    &&& forall|x: u16|
        fold_echo(x) != 0xFF04 && fold_echo(x) != 0xFF05 && fold_echo(x) != 0xFF0F
            ==> #[trigger] m1.read_spec(x) == m0.read_spec(x)
}

impl Clock {
    /// Both accumulators stay below one full period of their counters.
    pub open spec fn wf(self) -> bool {
        self.div_clock < 256 && self.time < 1024
    }

    pub fn make_clock() -> (r: Clock)
        ensures
            r == (Clock { time: 0u32, div_clock: 0u32 }),
            r.wf(),
    {
        Clock { time: 0, div_clock: 0 }
    }

    /// Advances the timer by `ticks` cycles; the whole effect is
    /// `clock_tick_rel`.
    pub fn tick(&mut self, memory: &mut Memory, ticks: u32)
        requires
            old(self).wf(),
            old(memory).wf(),
            ticks <= 0x10000,
        ensures
            clock_tick_rel(*old(self), *old(memory), *final(self), *final(memory), ticks),
    {
        let ghost m0 = *memory;
        let total: u32 = self.div_clock + ticks;
        self.div_clock = total % 256;
        let old_div = memory.get(0xFF04);
        let new_div: u8 = ((old_div as u32 + total / 256) % 256) as u8;
        memory.set(0xFF04, new_div);
        let ghost m1 = *memory;
        proof {
            assert forall|x: u16| fold_echo(x) != 0xFF04 implies #[trigger] m1.read_spec(x)
                == m0.read_spec(x) by {
                lemma_read_after_write(m0, m1, 0xFF04, new_div, x);
            }
            lemma_read_after_write(m0, m1, 0xFF04, new_div, 0xFF04);
        }

        let tac = memory.get(0xFF07);
        if tac / 4 % 2 == 0 {
            return ;
        }
        let rate: u32 = if tac % 4 == 0 {
            1024
        } else if tac % 4 == 1 {
            16
        } else if tac % 4 == 2 {
            64
        } else {
            256
        };
        let time_total: u32 = self.time + ticks;
        self.time = time_total;
        let tma = memory.get(0xFF06);
        let ghost t0 = m1.read_spec(0xFF05);
        let ghost if0 = m1.read_spec(0xFF0F);
        let mut tima = memory.get(0xFF05);
        let ghost mut i: nat = 0nat;
        while self.time >= rate
            invariant
                memory.wf(),
                memory.cart == m1.cart,
                self.div_clock == (old(self).div_clock + ticks) % 256,
                16 <= rate <= 1024,
                rate == tac_rate(m1.read_spec(0xFF07)),
                self.time + i * rate == time_total,
                tima == tima_after(t0, tma, i),
                tma == m1.read_spec(0xFF06),
                memory.read_spec(0xFF0F) == if tima_overflowed(t0, tma, i) {
                    if0 | 4
                } else {
                    if0
                },
                forall|x: u16|
                    fold_echo(x) != 0xFF0F ==> #[trigger] memory.read_spec(x) == m1.read_spec(x),
            decreases self.time,
        {
            self.time = self.time - rate;
            let ghost m_before = *memory;
            if tima == 0xFF {
                memory.setInterruptFlag(2);
                proof {
                    assert(1u8 << 2 == 4) by (bit_vector);
                    assert forall|x: u16| fold_echo(x) != 0xFF0F implies #[trigger] memory
                        .read_spec(x) == m_before.read_spec(x) by {
                        lemma_read_after_write(
                            m_before,
                            *memory,
                            0xFF0F,
                            m_before.read_spec(0xFF0F) | 4,
                            x,
                        );
                    }
                    lemma_read_after_write(
                        m_before,
                        *memory,
                        0xFF0F,
                        m_before.read_spec(0xFF0F) | 4,
                        0xFF0F,
                    );
                    assert((if0 | 4) | 4 == if0 | 4) by (bit_vector);
                }
                tima = tma;
            } else {
                tima = tima + 1;
            }
            proof {
                assert((i + 1) * rate == i * rate + rate) by (nonlinear_arith);
                i = i + 1;
            }
        }
        proof {
            lemma_fundamental_div_mod_converse(
                time_total as int,
                rate as int,
                i as int,
                self.time as int,
            );
        }
        let ghost m2 = *memory;
        memory.set(0xFF05, tima);
        proof {
            assert forall|x: u16| fold_echo(x) != 0xFF05 implies #[trigger] memory.read_spec(x)
                == m2.read_spec(x) by {
                lemma_read_after_write(m2, *memory, 0xFF05, tima, x);
            }
            lemma_read_after_write(m2, *memory, 0xFF05, tima, 0xFF05);
        }
    }
}

/// A whole run of the timer: each entry of `ticks` is one `tick` call.
pub open spec fn clock_run_rel(c0: Clock, m0: Memory, c1: Clock, m1: Memory, ticks: Seq<u32>) -> bool
    decreases ticks.len(),
{
    if ticks.len() == 0 {
        c1 == c0 && m1 == m0
    } else {
        exists|cm: Clock, mm: Memory|
            #[trigger] clock_tick_rel(c0, m0, cm, mm, ticks[0]) && clock_run_rel(
                cm,
                mm,
                c1,
                m1,
                ticks.drop_first(),
            )
    }
}

/// The total cycle count of a run.
pub open spec fn sum_ticks(ticks: Seq<u32>) -> int
    decreases ticks.len(),
{
    if ticks.len() == 0 {
        0
    } else {
        ticks[0] + sum_ticks(ticks.drop_first())
    }
}

/// A run's total cycle count is never negative.
pub proof fn lemma_sum_ticks_nonneg(ticks: Seq<u32>)
    ensures
        sum_ticks(ticks) >= 0,
    decreases ticks.len(),
{
    if ticks.len() > 0 {
        lemma_sum_ticks_nonneg(ticks.drop_first());
    }
}

/// TIMA increments compose: `k1` steps and then `k2` more are `k1 + k2`
/// steps.
pub proof fn lemma_tima_after_adds(t: u8, tma: u8, k1: nat, k2: nat)
    ensures
        tima_after(tima_after(t, tma, k1), tma, k2) == tima_after(t, tma, (k1 + k2) as nat),
    decreases k2,
{
    if k2 > 0 {
        lemma_tima_after_adds(t, tma, k1, (k2 - 1) as nat);
    }
}

/// Overflow detection composes the same way.
pub proof fn lemma_tima_overflowed_adds(t: u8, tma: u8, k1: nat, k2: nat)
    ensures
        tima_overflowed(t, tma, (k1 + k2) as nat) == (tima_overflowed(t, tma, k1)
            || tima_overflowed(tima_after(t, tma, k1), tma, k2)),
    decreases k2,
{
    if k2 > 0 {
        lemma_tima_overflowed_adds(t, tma, k1, (k2 - 1) as nat);
        lemma_tima_after_adds(t, tma, k1, (k2 - 1) as nat);
    }
}

/// From zero, the first 255 increments just count up.
pub proof fn lemma_tima_counts_up(tma: u8, i: nat)
    requires
        i <= 255,
    ensures
        tima_after(0, tma, i) == i,
    decreases i,
{
    if i > 0 {
        lemma_tima_counts_up(tma, (i - 1) as nat);
    }
}

/// Over a whole run at TAC 0x04 (rate 1024, enabled), the timer state is a
/// function of the total cycle count alone: TIMA has taken one step per
/// 1024 cycles elapsed, and interrupt bit 2 is raised exactly when one of
/// those steps overflowed.
pub proof fn lemma_timer_run(c0: Clock, m0: Memory, c1: Clock, m1: Memory, ticks: Seq<u32>)
    requires
        clock_run_rel(c0, m0, c1, m1, ticks),
        c0.wf(),
        m0.read_spec(0xFF07) == 0x04,
    ensures
        c1.wf(),
        m1.read_spec(0xFF07) == 0x04,
        m1.read_spec(0xFF06) == m0.read_spec(0xFF06),
        c1.time == (c0.time + sum_ticks(ticks)) % 1024,
        m1.read_spec(0xFF05) == tima_after(
            m0.read_spec(0xFF05),
            m0.read_spec(0xFF06),
            ((c0.time + sum_ticks(ticks)) / 1024) as nat,
        ),
        m1.read_spec(0xFF0F) == if tima_overflowed(
            m0.read_spec(0xFF05),
            m0.read_spec(0xFF06),
            ((c0.time + sum_ticks(ticks)) / 1024) as nat,
        ) {
            m0.read_spec(0xFF0F) | 4
        } else {
            m0.read_spec(0xFF0F)
        },
    decreases ticks.len(),
{
    if ticks.len() == 0 {
    } else {
        let (cm, mm) = choose|cm: Clock, mm: Memory|
            #[trigger] clock_tick_rel(c0, m0, cm, mm, ticks[0]) && clock_run_rel(
                cm,
                mm,
                c1,
                m1,
                ticks.drop_first(),
            );
        lemma_timer_run(cm, mm, c1, m1, ticks.drop_first());
        let t0 = m0.read_spec(0xFF05);
        let tma = m0.read_spec(0xFF06);
        let a = ticks[0] as int;
        let b = sum_ticks(ticks.drop_first());
        let k1 = ((c0.time + a) / 1024) as nat;
        let k2 = ((cm.time + b) / 1024) as nat;
        lemma_sum_ticks_nonneg(ticks.drop_first());
        lemma_fundamental_div_mod(c0.time + a, 1024);
        lemma_fundamental_div_mod(cm.time + b, 1024);
        assert(c0.time + a == k1 * 1024 + cm.time);
        assert(cm.time + b == k2 * 1024 + (cm.time + b) % 1024);
        assert((k1 as int + k2 as int) * 1024 == k1 * 1024 + k2 * 1024) by (nonlinear_arith);
        assert(c0.time + a + b == (k1 as int + k2 as int) * 1024 + (cm.time + b) % 1024);
        lemma_fundamental_div_mod_converse(
            c0.time + a + b,
            1024,
            k1 as int + k2 as int,
            (cm.time + b) % 1024,
        );
        lemma_tima_after_adds(t0, tma, k1, k2);
        lemma_tima_overflowed_adds(t0, tma, k1, k2);
        let if0 = m0.read_spec(0xFF0F);
        assert((if0 | 4) | 4 == if0 | 4) by (bit_vector);
    }
}

/// Every run of tick calls summing exactly 1024*256 cycles, started with
/// the timer enabled at rate 1024 and TIMA zero, overflows TIMA: it is
/// reloaded from TMA and interrupt flag bit 2 is set.
pub proof fn lemma_timer_overflow_interrupt(
    c0: Clock,
    m0: Memory,
    c1: Clock,
    m1: Memory,
    ticks: Seq<u32>,
)
    requires
        clock_run_rel(c0, m0, c1, m1, ticks),
        c0.wf(),
        c0.time == 0,
        m0.read_spec(0xFF07) == 0x04,
        m0.read_spec(0xFF05) == 0,
        sum_ticks(ticks) == 1024 * 256,
    ensures
        m1.read_spec(0xFF05) == m0.read_spec(0xFF06),
        m1.read_spec(0xFF0F) & 0x04 != 0,
{
    let tma = m0.read_spec(0xFF06);
    lemma_timer_run(c0, m0, c1, m1, ticks);
    lemma_tima_counts_up(tma, 255);
    assert(tima_after(0, tma, 255) == 255);
    assert(tima_overflowed(0, tma, 256));
    let if0 = m0.read_spec(0xFF0F);
    assert((if0 | 4) & 0x04 != 0) by (bit_vector);
}

} // verus!
