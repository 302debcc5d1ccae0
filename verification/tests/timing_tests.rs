//! Timing derivation: the register values, and the pairs that are rejected.

use rp2040_i2c::{Bus, Timing, I2C};

#[test]
fn timing_standard_mode_values() {
    // 125 MHz system clock, 100 kHz bus: period = round(125e6 / 1e5) = 1250,
    // low = 60% = 750, high = 40% = 500, spike = 750 / 16 = 46,
    // hold = 125e6 * 3 / 1e7 + 1 = 38
    let t = Timing::compute(125_000_000, 100_000).unwrap();
    assert_eq!(t.hcnt, 500);
    assert_eq!(t.lcnt, 750);
    assert_eq!(t.hcnt as u32 + t.lcnt as u32, 1250);
    assert_eq!(t.spklen, 46);
    assert_eq!(t.sda_hold, 38);
    assert!(t.sda_hold <= t.lcnt - 2);
}

#[test]
fn timing_fast_mode_values() {
    // 125 MHz system clock, 400 kHz bus: period = round(125e6 / 4e5) = 313,
    // low = 187, high = 126, spike = 187 / 16 = 11, hold = 38
    let t = Timing::compute(125_000_000, 400_000).unwrap();
    assert_eq!(t.lcnt, 187);
    assert_eq!(t.hcnt, 126);
    assert_eq!(t.hcnt as u32 + t.lcnt as u32, 313);
    assert_eq!(t.spklen, 11);
    assert_eq!(t.sda_hold, 38);
    assert!(t.sda_hold <= t.lcnt - 2);
}

#[test]
fn timing_fast_mode_plus_values() {
    // 48 MHz system clock, 1 MHz bus: period = 48, low = 28, high = 20,
    // spike = 1 (28 < ... 28/16 = 1), hold = 48e6 * 3 / 25e6 + 1 = 6
    let t = Timing::compute(48_000_000, 1_000_000).unwrap();
    assert_eq!(t.hcnt, 20);
    assert_eq!(t.lcnt, 28);
    assert_eq!(t.spklen, 1);
    assert_eq!(t.sda_hold, 6);
}

#[test]
fn timing_spike_length_wraps_to_register_width() {
    // 1 GHz system clock, 100 kHz bus: period = 10000, low = 6000,
    // quotient 6000 / 16 = 375 wraps to the register's 8 bits: 119
    let t = Timing::compute(1_000_000_000, 100_000).unwrap();
    assert_eq!(t.lcnt, 6000);
    assert_eq!(t.hcnt, 4000);
    assert_eq!(t.spklen, 119);
}

#[test]
fn timing_rejects_zero_frequency() {
    assert!(Timing::compute(125_000_000, 0).is_none());
    assert!(I2C::new_controller(Bus::new(vec![]), 0, 125_000_000).is_none());
}

#[test]
fn timing_rejects_frequency_above_one_megahertz() {
    assert!(Timing::compute(125_000_000, 1_000_001).is_none());
    assert!(I2C::new_controller(Bus::new(vec![]), 2_000_000, 125_000_000).is_none());
}

#[test]
fn timing_rejects_counts_below_minimum() {
    // period rounds to 0: both counts fall below the 8-cycle floor
    assert!(Timing::compute(1_000, 100_000).is_none());
}

#[test]
fn timing_rejects_counts_above_sixteen_bits() {
    // period = u32::MAX: the low count exceeds 0xffff
    assert!(Timing::compute(u32::MAX, 1).is_none());
}

#[test]
fn timing_rejects_fast_mode_plus_below_32_megahertz() {
    assert!(Timing::compute(31_999_999, 1_000_000).is_none());
    assert!(I2C::new_controller(Bus::new(vec![]), 1_000_000, 31_999_999).is_none());
    // the same system clock is fine below fast-mode plus
    assert!(Timing::compute(31_999_999, 400_000).is_some());
}

#[test]
fn configure_is_deterministic() {
    // identical arguments give identical register contents, both times
    let a = I2C::new_controller(Bus::new(vec![]), 100_000, 125_000_000).unwrap();
    let b = I2C::new_controller(Bus::new(vec![]), 100_000, 125_000_000).unwrap();
    assert_eq!(a.bus.enabled, b.bus.enabled);
    assert_eq!(a.bus.con, b.bus.con);
    assert_eq!(a.bus.hcnt, b.bus.hcnt);
    assert_eq!(a.bus.lcnt, b.bus.lcnt);
    assert_eq!(a.bus.spklen, b.bus.spklen);
    assert_eq!(a.bus.sda_hold, b.bus.sda_hold);
    assert_eq!(a.bus.tx_tl, b.bus.tx_tl);
    assert_eq!(a.bus.rx_tl, b.bus.rx_tl);
}

#[test]
fn configure_programs_the_registers() {
    let c = I2C::new_controller(Bus::new(vec![]), 100_000, 125_000_000).unwrap();
    assert!(c.bus.enabled);
    assert!(c.bus.con.master_mode);
    assert!(c.bus.con.slave_disable);
    assert!(c.bus.con.restart_en);
    assert!(c.bus.con.tx_empty_ctrl);
    assert!(c.bus.con.speed_fast);
    assert!(c.bus.con.addr_7bits);
    assert_eq!(c.bus.hcnt, 500);
    assert_eq!(c.bus.lcnt, 750);
    assert_eq!(c.bus.spklen, 46);
    assert_eq!(c.bus.sda_hold, 38);
    assert_eq!(c.bus.tx_tl, 0);
    assert_eq!(c.bus.rx_tl, 0);
    assert!(c.bus.cmds.is_empty());
}
