//! Controller-mode driver for an RP2040-style I2C peripheral.
//!
//! The driver programs the peripheral's clock-timing registers for a
//! requested bus frequency, then drives byte-level read/write transactions
//! through the transmit/receive FIFOs, sequencing START, repeated-START and
//! STOP conditions across one or more logical operations.

#![verifier::loop_isolation(false)]

use vstd::prelude::*;

mod controller;
mod hw;
mod ops;
mod timing;
mod trace;

pub use controller::{
    i2c_reserved_addr, is_configured, lemma_configure_deterministic, reserved_addr, same_setup,
    same_timing_config, validate_spec, I2C,
};
pub use hw::{abort_of, byte_of, resp_at, Bus, Cmd, CmdKind, Con, Response};
pub use ops::{
    op_buf, op_cmds, op_len, ops_arg_error, ops_cmds, ops_cmds_prefix, ops_len_prefix,
    ops_total_len, transaction_error, Operation,
};
pub use timing::{hcnt_of, lcnt_of, period_of, sda_hold_of, spklen_of, timing_ok, Timing};
pub use trace::{
    echo_script, first_abort_in, lemma_first_abort, lemma_first_abort_props,
    lemma_no_abort_split, lemma_write_read_round_trip, no_abort_in, pushed_count, read_bytes,
    read_cmds, write_cmds, xfer_result,
};

verus! {

/// Outcome of an argument check or a bus transaction.
#[derive(Clone, Copy, Debug, PartialEq, Eq, Structural)]
pub enum Error {
    /// A write buffer was supplied but holds no bytes.
    InvalidWriteBufferLength,
    /// A read buffer was supplied but holds no bytes.
    InvalidReadBufferLength,
    /// The device address does not fit in 7 bits.
    AddressOutOfRange(u16),
    /// The device address lies in the protocol-reserved space.
    AddressReserved(u16),
    /// The hardware aborted the transaction; the field keeps the raw
    /// abort-reason bits exactly as the peripheral reported them.
    Abort(u32),
}

} // verus!
