//! Clock-timing derivation.
//!
//! I2C timing is specified in nanoseconds but the peripheral only understands
//! system-clock-cycle counts, so the requested bus frequency and the system
//! clock are translated into the high/low period counts, the spike-suppression
//! length and the SDA hold count, using integer arithmetic that never
//! overflows and never truncates the hold time to zero.

use vstd::arithmetic::div_mod::{
    lemma_div_is_ordered, lemma_div_multiples_vanish, lemma_div_nonincreasing,
};
use vstd::prelude::*;

verus! {

/// The bus period in system-clock cycles: `round(sys / freq)`, computed in
/// the rounding form `(sys + freq/2) / freq`.
pub open spec fn period_of(sys: int, freq: int) -> int
    recommends
        freq >= 1,
{
    (sys + freq / 2) / freq
}

/// The SCL low-period count: 3/5 (60%) of the period.
pub open spec fn lcnt_of(sys: int, freq: int) -> int {
    period_of(sys, freq) * 3 / 5
}

/// The SCL high-period count: the rest (40%) of the period.
pub open spec fn hcnt_of(sys: int, freq: int) -> int {
    period_of(sys, freq) - lcnt_of(sys, freq)
}

/// The spike-suppression length: 1 for short low periods, else `lcnt / 16`,
/// truncated to the register's 8 bits.
pub open spec fn spklen_of(sys: int, freq: int) -> int {
    if lcnt_of(sys, freq) < 16 {
        1
    } else {
        lcnt_of(sys, freq) / 16 % 256
    }
}

/// The SDA hold count: at least 300 ns of hold time in standard and fast
/// mode (`3/10^7` of a second, in system-clock cycles), 120 ns (`3/(25*10^6)`)
/// in fast-mode plus, each rounded up by one cycle to avoid truncation to
/// zero.
pub open spec fn sda_hold_of(sys: int, freq: int) -> int {
    if freq < 1000000 {
        sys * 3 / 10000000 + 1
    } else {
        sys * 3 / 25000000 + 1
    }
}

/// The pairs of system clock and bus frequency the peripheral can be timed
/// for: the frequency is at most 1 MHz, both period counts fit the hardware
/// range `[8, 0xffff]`, fast-mode plus demands a system clock of at least
/// 32 MHz, and the hold count leaves a two-cycle margin below the low count.
pub open spec fn timing_ok(sys: int, freq: int) -> bool {
    &&& 1 <= freq <= 1000000
    &&& hcnt_of(sys, freq) <= 0xffff
    &&& lcnt_of(sys, freq) <= 0xffff
    &&& hcnt_of(sys, freq) >= 8
    &&& lcnt_of(sys, freq) >= 8
    &&& (freq == 1000000 ==> sys >= 32000000)
    &&& sda_hold_of(sys, freq) <= lcnt_of(sys, freq) - 2
}

/// The four derived timing register values.
#[derive(Clone, Copy, Debug, PartialEq, Eq, Structural)]
pub struct Timing {
    /// SCL high-period count.
    pub hcnt: u16,
    /// SCL low-period count.
    pub lcnt: u16,
    /// Spike-suppression length.
    pub spklen: u8,
    /// SDA transmit hold count.
    pub sda_hold: u16,
}

impl Timing {
    /// Derive the timing register values for a bus frequency `freq` under a
    /// system clock `sys`, both in Hz. Returns `None` exactly when the pair
    /// cannot be timed; otherwise the high and low counts split the rounded
    /// period 40%/60% and the hold count keeps its two-cycle margin.
    pub fn compute(sys: u32, freq: u32) -> (r: Option<Timing>)
        ensures
            r is Some <==> timing_ok(sys as int, freq as int),
            r matches Some(t) ==> {
                &&& t.hcnt == hcnt_of(sys as int, freq as int)
                &&& t.lcnt == lcnt_of(sys as int, freq as int)
                &&& t.spklen == spklen_of(sys as int, freq as int)
                &&& t.sda_hold == sda_hold_of(sys as int, freq as int)
                &&& t.hcnt + t.lcnt == period_of(sys as int, freq as int)
                &&& t.sda_hold + 2 <= t.lcnt
                &&& 8 <= t.hcnt <= 0xffff
                &&& 8 <= t.lcnt <= 0xffff
            },
    {
        if freq == 0 || freq > 1000000 {
            return None;
        }
        let sys64: u64 = sys as u64;
        let freq64: u64 = freq as u64;
        let rounding: u64 = sys64 + freq64 / 2;
        let period: u64 = rounding / freq64;
        proof {
            lemma_div_nonincreasing(rounding as int, freq64 as int);
        }
        let lcnt: u64 = period * 3 / 5;
        proof {
            lemma_div_is_ordered(period as int * 3, 5 * (period as int), 5);
            lemma_div_multiples_vanish(period as int, 5);
        }
        let hcnt: u64 = period - lcnt;
        if hcnt > 0xffff || lcnt > 0xffff || hcnt < 8 || lcnt < 8 {
            return None;
        }
        let sda_hold: u64 = if freq < 1000000 {
            sys64 * 3 / 10000000 + 1
        } else {
            // fast-mode plus needs a system clock of at least 32 MHz
            if sys < 32000000 {
                return None;
            }
            sys64 * 3 / 25000000 + 1
        };
        if sda_hold > lcnt - 2 {
            return None;
        }
        // the register holds 8 bits; a quotient past 255 wraps as the cast would
        let spklen: u8 = if lcnt < 16 {
            1
        } else {
            (lcnt / 16 % 256) as u8
        };
        Some(Timing { hcnt: hcnt as u16, lcnt: lcnt as u16, spklen, sda_hold: sda_hold as u16 })
    }
}

} // verus!
