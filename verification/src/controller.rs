//! The controller-mode driver: timing configuration, argument validation,
//! the byte-transfer engine and the transaction sequencer.

use crate::hw::{abort_of, byte_of, resp_at, Bus, Cmd, CmdKind, Con};
use crate::timing::{
    hcnt_of, lcnt_of, sda_hold_of, spklen_of, timing_ok, Timing,
};
use crate::trace::{
    first_abort_in, lemma_first_abort, no_abort_in, pushed_count, read_bytes, read_cmds,
    write_cmds, xfer_result,
};
use crate::Error;
use vstd::prelude::*;

verus! {

/// Whether a 7-bit-aligned address lies in the protocol-reserved space
/// (general call / START byte block and the 11xx-xxx block).
pub open spec fn reserved_addr(addr: u16) -> bool {
    addr & 0x78 == 0 || addr & 0x78 == 0x78
}

/// Whether `addr` is reserved by the protocol.
pub fn i2c_reserved_addr(addr: u16) -> (r: bool)
    ensures
        r == reserved_addr(addr),
{
    addr & 0x78 == 0 || addr & 0x78 == 0x78
}

/// The outcome of argument validation: buffer-length checks first (write
/// before read), then the address range, then the reserved set.
pub open spec fn validate_spec(
    address: u8,
    opt_tx_empty: Option<bool>,
    opt_rx_empty: Option<bool>,
) -> Result<(), Error> {
    if opt_tx_empty == Some(true) {
        Err(Error::InvalidWriteBufferLength)
    } else if opt_rx_empty == Some(true) {
        Err(Error::InvalidReadBufferLength)
    } else if address >= 0x80 {
        Err(Error::AddressOutOfRange(address as u16))
    } else if reserved_addr(address as u16) {
        Err(Error::AddressReserved(address as u16))
    } else {
        Ok(())
    }
}

/// The timing-configuration registers (and the script) are the same on both
/// buses; the target address and the enable bit may differ.
pub open spec fn same_timing_config(a: Bus, b: Bus) -> bool {
    &&& a.responses@ == b.responses@
    &&& a.con == b.con
    &&& a.hcnt == b.hcnt
    &&& a.lcnt == b.lcnt
    &&& a.spklen == b.spklen
    &&& a.sda_hold == b.sda_hold
    &&& a.tx_tl == b.tx_tl
    &&& a.rx_tl == b.rx_tl
}

/// As [`same_timing_config`], and the target address and enable bit agree too.
pub open spec fn same_setup(a: Bus, b: Bus) -> bool {
    &&& same_timing_config(a, b)
    &&& a.enabled == b.enabled
    &&& a.tar == b.tar
}

/// The configuration `new_controller` leaves in the registers for a given
/// system clock and bus frequency.
pub open spec fn is_configured(bus: Bus, sys: int, freq: int) -> bool {
    &&& bus.enabled
    &&& bus.con == (Con {
        speed_fast: true,
        master_mode: true,
        addr_7bits: true,
        slave_disable: true,
        restart_en: true,
        tx_empty_ctrl: true,
    })
    &&& bus.hcnt == hcnt_of(sys, freq)
    &&& bus.lcnt == lcnt_of(sys, freq)
    &&& bus.spklen == spklen_of(sys, freq)
    &&& bus.sda_hold == sda_hold_of(sys, freq)
    &&& bus.tx_tl == 0
    &&& bus.rx_tl == 0
}

/// Law: the register contents after configuration are a function of the
/// system clock and the requested frequency alone, so configuring twice with
/// identical arguments yields identical register contents.
pub proof fn lemma_configure_deterministic(sys: int, freq: int, a: Bus, b: Bus)
    requires
        is_configured(a, sys, freq),
        is_configured(b, sys, freq),
    ensures
        a.enabled == b.enabled,
        a.con == b.con,
        a.hcnt == b.hcnt,
        a.lcnt == b.lcnt,
        a.spklen == b.spklen,
        a.sda_hold == b.sda_hold,
        a.tx_tl == b.tx_tl,
        a.rx_tl == b.rx_tl,
{
}

/// Exclusive handle to one I2C peripheral, reconfigured for controller mode.
pub struct I2C {
    /// The register block, together with the scripted peripheral model.
    pub bus: Bus,
}

impl I2C {
    /// Configure the peripheral to work in controller mode at `freq` Hz under
    /// a system clock of `system_clock` Hz: disable the block, program the
    /// mode bits, the FIFO trigger levels and the derived timing registers,
    /// then re-enable it. Returns `None` exactly when the pair cannot be
    /// timed (frequency zero or above 1 MHz, a period count outside
    /// `[8, 0xffff]`, or fast-mode plus under a 32 MHz system clock).
    pub fn new_controller(bus: Bus, freq: u32, system_clock: u32) -> (r: Option<I2C>)
        ensures
            r is Some <==> timing_ok(system_clock as int, freq as int),
            r matches Some(c) ==> {
                &&& is_configured(c.bus, system_clock as int, freq as int)
                &&& c.bus.cmds@ == bus.cmds@
                &&& c.bus.responses@ == bus.responses@
                &&& c.bus.tar == bus.tar
            },
    {
        let timing = match Timing::compute(system_clock, freq) {
            Some(t) => t,
            None => {
                return None;
            },
        };
        let mut bus = bus;
        bus.write_enable(false);

        // select controller mode & speed
        bus.write_con(
            Con {
                speed_fast: true,
                master_mode: true,
                addr_7bits: true,
                slave_disable: true,
                restart_en: true,
                tx_empty_ctrl: true,
            },
        );

        // clear FIFO thresholds: interrupt on any data
        bus.write_tx_tl(0);
        bus.write_rx_tl(0);

        bus.write_hcnt(timing.hcnt);
        bus.write_lcnt(timing.lcnt);
        bus.write_spklen(timing.spklen);
        bus.write_sda_hold(timing.sda_hold);

        bus.write_enable(true);
        Some(I2C { bus })
    }

    /// Validate user-supplied arguments: an empty write buffer, then an empty
    /// read buffer, then an address past 7 bits, then a reserved address each
    /// fail, in that order; anything else passes.
    pub fn validate(
        address: u8,
        opt_tx_empty: Option<bool>,
        opt_rx_empty: Option<bool>,
    ) -> (r: Result<(), Error>)
        ensures
            r == validate_spec(address, opt_tx_empty, opt_rx_empty),
    {
        // validate tx parameters if present
        let tx_empty = match opt_tx_empty {
            Some(b) => b,
            None => false,
        };
        if tx_empty {
            return Err(Error::InvalidWriteBufferLength);
        }
        // validate rx parameters if present
        let rx_empty = match opt_rx_empty {
            Some(b) => b,
            None => false,
        };
        if rx_empty {
            return Err(Error::InvalidReadBufferLength);
        }
        // validate address
        if address >= 0x80 {
            Err(Error::AddressOutOfRange(address as u16))
        } else if i2c_reserved_addr(address as u16) {
            Err(Error::AddressReserved(address as u16))
        } else {
            Ok(())
        }
    }

    /// Re-target the peripheral: disable the block, program the target
    /// address register, re-enable. Nothing else changes.
    pub(crate) fn setup(&mut self, address: u8)
        ensures
            final(self).bus == (Bus { enabled: true, tar: address as u16, ..old(self).bus }),
    {
        self.bus.write_enable(false);
        self.bus.write_tar(address as u16);
        self.bus.write_enable(true);
    }

    /// Read the abort-reason register and, when it is non-zero, acknowledge
    /// it through the paired clear register, so the hardware state is never
    /// left half-cleared. Returns the captured reason, if any.
    pub fn read_and_clear_abort_reason(&mut self) -> (r: Option<u32>)
        ensures
            final(self).bus == (Bus { abort_source: 0u32, ..old(self).bus }),
            r == (if old(self).bus.abort_source != 0 {
                Some(old(self).bus.abort_source)
            } else {
                None::<u32>
            }),
    {
        let abort_reason = self.bus.read_tx_abrt_source();
        if abort_reason != 0 {
            // the reason register is clear-on-read; the paired clear register
            // must be read once to finish clearing, and always reads 0
            let _ = self.bus.read_clr_tx_abrt();
            Some(abort_reason)
        } else {
            None
        }
    }

    /// Push every byte of `bytes` to the FIFO, marking the stop flag on the
    /// last byte when `do_stop`; wait out each byte and stop at the first
    /// hardware abort, returning its reason. Every abort reason read is
    /// acknowledged through the paired clear register, and the stop-detected
    /// status is waited on and cleared after an abort or a stopping last
    /// byte, so neither status is left half-cleared.
    pub fn write_internal(&mut self, bytes: &Vec<u8>, do_stop: bool) -> (r: Result<(), Error>)
        requires
            old(self).bus.enabled,
        ensures
            ({
                let script = old(self).bus.responses@;
                let p = old(self).bus.cmds@.len() as int;
                let n = bytes@.len() as int;
                &&& same_setup(final(self).bus, old(self).bus)
                &&& r == xfer_result(script, p, n)
                &&& final(self).bus.cmds@ == old(self).bus.cmds@ + write_cmds(bytes@, do_stop)
                    .take(pushed_count(script, p, n))
                &&& final(self).bus.abort_source == (if n > 0 {
                    0u32
                } else {
                    old(self).bus.abort_source
                })
                &&& final(self).bus.stop_det == (if r is Err || (do_stop && n > 0) {
                    false
                } else {
                    old(self).bus.stop_det
                })
            }),
    {
        let ghost script = self.bus.responses@;
        let ghost p = self.bus.cmds@.len() as int;
        let ghost init_bus = self.bus;
        let n = bytes.len();
        for i in 0..n
            invariant
                self.bus.enabled,
                same_setup(self.bus, init_bus),
                self.bus.cmds@ == init_bus.cmds@ + write_cmds(bytes@, do_stop).take(i as int),
                no_abort_in(script, p, i as int),
                self.bus.abort_source == (if i > 0 {
                    0u32
                } else {
                    init_bus.abort_source
                }),
                self.bus.stop_det == (if do_stop && i == n && n > 0 {
                    false
                } else {
                    init_bus.stop_det
                }),
        {
            let byte = bytes[i];
            let last = i == n - 1;

            self.bus.write_data_cmd(
                Cmd { restart: false, stop: do_stop && last, kind: CmdKind::Write(byte) },
            );
            proof {
                assert(write_cmds(bytes@, do_stop).take(i as int).push(
                    write_cmds(bytes@, do_stop)[i as int],
                ) =~= write_cmds(bytes@, do_stop).take(i as int + 1));
            }

            // wait until the byte has left the internal shift register; the
            // TX_EMPTY_CTRL bit set at configuration makes this status track
            // the shift register rather than the FIFO
            while !self.bus.read_tx_empty()
                decreases 0int,
            {
            }

            let abort_reason = self.read_and_clear_abort_reason();

            if abort_reason.is_some() || (do_stop && last) {
                // aborted, or this byte ended the transaction: wait for the
                // STOP condition and clear the stop-detected status
                while !self.bus.read_stop_det()
                    decreases 0int,
                {
                }
                let _ = self.bus.read_clr_stop_det();
            }

            // the hardware issues a STOP and flushes both FIFOs by itself on
            // an abort, so no recovery writes are needed here
            if let Some(reason) = abort_reason {
                proof {
                    lemma_first_abort(script, p, n as int, p + i as int);
                }
                return Err(Error::Abort(reason));
            }
        }
        Ok(())
    }

    /// Push one read command per slot of `buffer`, marking the restart flag
    /// on the first command when `force_restart` and the stop flag on the
    /// last when `do_stop`; pop each received byte into its slot. At the
    /// first hardware abort, return its reason: the slot being read and
    /// every later one keep their old contents. Every abort reason read is
    /// acknowledged through the paired clear register; the read path does
    /// not clear the stop-detected status, so a stopping last command or an
    /// abort leaves it set.
    pub fn read_internal(
        &mut self,
        buffer: &mut Vec<u8>,
        force_restart: bool,
        do_stop: bool,
    ) -> (r: Result<(), Error>)
        requires
            old(self).bus.enabled,
            old(buffer)@.len() >= 1,
        ensures
            ({
                let script = old(self).bus.responses@;
                let p = old(self).bus.cmds@.len() as int;
                let n = old(buffer)@.len() as int;
                &&& same_setup(final(self).bus, old(self).bus)
                &&& final(buffer)@.len() == n
                &&& r == xfer_result(script, p, n)
                &&& final(self).bus.cmds@ == old(self).bus.cmds@ + read_cmds(
                    n,
                    force_restart,
                    do_stop,
                ).take(pushed_count(script, p, n))
                &&& final(self).bus.abort_source == 0
                &&& final(self).bus.stop_det == (if r is Err || do_stop {
                    true
                } else {
                    old(self).bus.stop_det
                })
                &&& (r is Ok ==> final(buffer)@ == read_bytes(script, p, n))
                &&& (r is Err ==> forall|k: int|
                    0 <= k < first_abort_in(script, p, n) - p ==> final(buffer)@[k] == byte_of(
                        resp_at(script, p + k),
                    ))
                &&& (r is Err ==> forall|k: int|
                    first_abort_in(script, p, n) - p <= k < n ==> final(buffer)@[k] == old(
                        buffer,
                    )@[k])
            }),
    {
        let ghost script = self.bus.responses@;
        let ghost p = self.bus.cmds@.len() as int;
        let ghost init_bus = self.bus;
        let ghost init_buffer = buffer@;
        let n = buffer.len();
        let lastindex = n - 1;
        for i in 0..n
            invariant
                self.bus.enabled,
                same_setup(self.bus, init_bus),
                self.bus.cmds@ == init_bus.cmds@ + read_cmds(n as int, force_restart, do_stop)
                    .take(i as int),
                no_abort_in(script, p, i as int),
                buffer@.len() == n,
                forall|k: int| 0 <= k < i ==> buffer@[k] == byte_of(resp_at(script, p + k)),
                forall|k: int| i <= k < n ==> buffer@[k] == init_buffer[k],
                self.bus.abort_source == (if i > 0 {
                    0u32
                } else {
                    init_bus.abort_source
                }),
                self.bus.stop_det == (if do_stop && i == n {
                    true
                } else {
                    init_bus.stop_det
                }),
        {
            let first = i == 0;
            let last = i == lastindex;

            // wait until there is space in the FIFO: the read command itself
            // occupies a slot
            while self.bus.tx_fifo_full()
                decreases 0int,
            {
            }

            self.bus.write_data_cmd(
                Cmd { restart: force_restart && first, stop: do_stop && last, kind: CmdKind::Read },
            );
            proof {
                assert(read_cmds(n as int, force_restart, do_stop).take(i as int).push(
                    read_cmds(n as int, force_restart, do_stop)[i as int],
                ) =~= read_cmds(n as int, force_restart, do_stop).take(i as int + 1));
            }

            // wait for the received byte, polling the abort reason on every
            // turn: on an abort nothing arrives, so the slot stays untouched
            let ghost waiting = self.bus;
            while self.bus.read_rxflr() == 0
                invariant
                    self.bus == waiting,
                decreases 0int,
            {
                if let Some(abort_reason) = self.read_and_clear_abort_reason() {
                    proof {
                        lemma_first_abort(script, p, n as int, p + i as int);
                    }
                    return Err(Error::Abort(abort_reason));
                }
            }

            let byte = self.bus.read_data();
            buffer[i] = byte;
        }
        proof {
            assert(buffer@ =~= read_bytes(script, p, n as int));
        }
        Ok(())
    }

    /// Write `bytes` to the device at `address` as one transaction: a STOP
    /// follows the last byte. Rejects an empty buffer and an illegal address
    /// before touching the hardware.
    pub fn write(&mut self, address: u8, bytes: &Vec<u8>) -> (r: Result<(), Error>)
        ensures
            ({
                let v = validate_spec(address, Some(bytes@.len() == 0), None);
                let script = old(self).bus.responses@;
                let p = old(self).bus.cmds@.len() as int;
                let n = bytes@.len() as int;
                &&& (v matches Err(e) ==> r == Err::<(), Error>(e) && *final(self) == *old(self))
                &&& (v is Ok ==> ({
                    &&& same_timing_config(final(self).bus, old(self).bus)
                    &&& final(self).bus.enabled
                    &&& final(self).bus.tar == address as u16
                    &&& r == xfer_result(script, p, n)
                    &&& final(self).bus.cmds@ == old(self).bus.cmds@ + write_cmds(bytes@, true)
                        .take(pushed_count(script, p, n))
                    &&& final(self).bus.abort_source == 0
                    &&& final(self).bus.stop_det == false
                }))
            }),
    {
        match Self::validate(address, Some(bytes.len() == 0), None) {
            Ok(()) => {},
            Err(e) => {
                return Err(e);
            },
        }
        self.setup(address);

        self.write_internal(bytes, true)
    }

    /// Read `buffer.len()` bytes from the device at `address` as one
    /// transaction: a STOP follows the last byte, which the controller does
    /// not acknowledge. Rejects an empty buffer and an illegal address before
    /// touching the hardware.
    pub fn read(&mut self, address: u8, buffer: &mut Vec<u8>) -> (r: Result<(), Error>)
        ensures
            ({
                let v = validate_spec(address, None, Some(old(buffer)@.len() == 0));
                let script = old(self).bus.responses@;
                let p = old(self).bus.cmds@.len() as int;
                let n = old(buffer)@.len() as int;
                &&& (v matches Err(e) ==> r == Err::<(), Error>(e) && *final(self) == *old(self)
                    && final(buffer)@ == old(buffer)@)
                &&& (v is Ok ==> ({
                    &&& same_timing_config(final(self).bus, old(self).bus)
                    &&& final(self).bus.enabled
                    &&& final(self).bus.tar == address as u16
                    &&& final(buffer)@.len() == n
                    &&& r == xfer_result(script, p, n)
                    &&& final(self).bus.cmds@ == old(self).bus.cmds@ + read_cmds(n, true, true)
                        .take(pushed_count(script, p, n))
                    &&& final(self).bus.abort_source == 0
                    &&& final(self).bus.stop_det == true
                    &&& (r is Ok ==> final(buffer)@ == read_bytes(script, p, n))
                    &&& (r is Err ==> forall|k: int|
                        0 <= k < first_abort_in(script, p, n) - p ==> final(buffer)@[k] == byte_of(
                            resp_at(script, p + k),
                        ))
                    &&& (r is Err ==> forall|k: int|
                        first_abort_in(script, p, n) - p <= k < n ==> final(buffer)@[k] == old(
                            buffer,
                        )@[k])
                }))
            }),
    {
        match Self::validate(address, None, Some(buffer.len() == 0)) {
            Ok(()) => {},
            Err(e) => {
                return Err(e);
            },
        }
        self.setup(address);

        self.read_internal(buffer, true, true)
    }

    /// Write `tx` and then read into `rx` from the device at `addr` as one
    /// electrical transaction: no STOP after the write phase, a repeated
    /// START on the read phase's first byte, a STOP after its last.
    pub fn write_read(&mut self, addr: u8, tx: &Vec<u8>, rx: &mut Vec<u8>) -> (r: Result<
        (),
        Error,
    >)
        ensures
            ({
                let v = validate_spec(addr, Some(tx@.len() == 0), Some(old(rx)@.len() == 0));
                let script = old(self).bus.responses@;
                let p = old(self).bus.cmds@.len() as int;
                let ntx = tx@.len() as int;
                let nrx = old(rx)@.len() as int;
                &&& (v matches Err(e) ==> r == Err::<(), Error>(e) && *final(self) == *old(self)
                    && final(rx)@ == old(rx)@)
                &&& (v is Ok ==> ({
                    &&& same_timing_config(final(self).bus, old(self).bus)
                    &&& final(self).bus.enabled
                    &&& final(self).bus.tar == addr as u16
                    &&& final(rx)@.len() == nrx
                    &&& final(self).bus.abort_source == 0
                    &&& (!no_abort_in(script, p, ntx) ==> ({
                        &&& r == xfer_result(script, p, ntx)
                        &&& final(self).bus.cmds@ == old(self).bus.cmds@ + write_cmds(tx@, false)
                            .take(pushed_count(script, p, ntx))
                        &&& final(rx)@ == old(rx)@
                        &&& final(self).bus.stop_det == false
                    }))
                    &&& (no_abort_in(script, p, ntx) ==> ({
                        &&& final(self).bus.stop_det == true
                        &&& r == xfer_result(script, p + ntx, nrx)
                        &&& final(self).bus.cmds@ == old(self).bus.cmds@ + write_cmds(tx@, false)
                            + read_cmds(nrx, true, true).take(pushed_count(script, p + ntx, nrx))
                        &&& (r is Ok ==> final(rx)@ == read_bytes(script, p + ntx, nrx))
                        &&& (r is Err ==> forall|k: int|
                            0 <= k < first_abort_in(script, p + ntx, nrx) - (p + ntx)
                                ==> final(rx)@[k] == byte_of(resp_at(script, p + ntx + k)))
                        &&& (r is Err ==> forall|k: int|
                            first_abort_in(script, p + ntx, nrx) - (p + ntx) <= k < nrx
                                ==> final(rx)@[k] == old(rx)@[k])
                    }))
                }))
            }),
    {
        match Self::validate(addr, Some(tx.len() == 0), Some(rx.len() == 0)) {
            Ok(()) => {},
            Err(e) => {
                return Err(e);
            },
        }
        self.setup(addr);

        match self.write_internal(tx, false) {
            Ok(()) => {},
            Err(e) => {
                return Err(e);
            },
        }
        let res = self.read_internal(rx, true, true);
        proof {
            let script = old(self).bus.responses@;
            let p = old(self).bus.cmds@.len() as int;
            let ntx = tx@.len() as int;
            let nrx = old(rx)@.len() as int;
            assert(write_cmds(tx@, false).take(ntx) =~= write_cmds(tx@, false));
            assert((old(self).bus.cmds@ + write_cmds(tx@, false)) + read_cmds(nrx, true, true)
                .take(pushed_count(script, p + ntx, nrx)) =~= old(self).bus.cmds@ + write_cmds(
                tx@,
                false,
            ) + read_cmds(nrx, true, true).take(pushed_count(script, p + ntx, nrx)));
        }
        res
    }

    /// Write the bytes of a byte source to the device at `address`, pushing
    /// them one at a time; the bus events are the same as [`I2C::write`]'s.
    /// An empty source is an error.
    pub fn write_iter(&mut self, address: u8, bytes: &Vec<u8>) -> (r: Result<(), Error>)
        ensures
            ({
                let v = validate_spec(address, Some(bytes@.len() == 0), None);
                let script = old(self).bus.responses@;
                let p = old(self).bus.cmds@.len() as int;
                let n = bytes@.len() as int;
                &&& (v matches Err(e) ==> r == Err::<(), Error>(e) && *final(self) == *old(self))
                &&& (v is Ok ==> ({
                    &&& same_timing_config(final(self).bus, old(self).bus)
                    &&& final(self).bus.enabled
                    &&& final(self).bus.tar == address as u16
                    &&& r == xfer_result(script, p, n)
                    &&& final(self).bus.cmds@ == old(self).bus.cmds@ + write_cmds(bytes@, true)
                        .take(pushed_count(script, p, n))
                    &&& final(self).bus.abort_source == 0
                    &&& final(self).bus.stop_det == false
                }))
            }),
    {
        match Self::validate(address, Some(bytes.len() == 0), None) {
            Ok(()) => {},
            Err(e) => {
                return Err(e);
            },
        }
        self.setup(address);

        let ghost base = self.bus;
        let ghost script = self.bus.responses@;
        let ghost p = self.bus.cmds@.len() as int;
        let n = bytes.len();
        for i in 0..n
            invariant
                self.bus.enabled,
                same_setup(self.bus, base),
                self.bus.cmds@ == base.cmds@ + write_cmds(bytes@, true).take(i as int),
                no_abort_in(script, p, i as int),
                self.bus.abort_source == (if i > 0 {
                    0u32
                } else {
                    base.abort_source
                }),
                self.bus.stop_det == (if i == n && n > 0 {
                    false
                } else {
                    base.stop_det
                }),
        {
            let mut one: Vec<u8> = Vec::new();
            one.push(bytes[i]);
            let last = i == n - 1;
            match self.write_internal(&one, last) {
                Ok(()) => {
                    proof {
                        assert(write_cmds(bytes@, true).take(i as int).push(
                            write_cmds(bytes@, true)[i as int],
                        ) =~= write_cmds(bytes@, true).take(i as int + 1));
                        assert(write_cmds(one@, last).take(1) =~= write_cmds(one@, last));
                        assert(write_cmds(one@, last)[0] == write_cmds(bytes@, true)[i as int]);
                        assert(self.bus.cmds@ =~= base.cmds@ + write_cmds(bytes@, true).take(
                            i as int + 1,
                        ));
                    }
                },
                Err(e) => {
                    proof {
                        assert(abort_of(resp_at(script, p + i as int)) != 0);
                        lemma_first_abort(script, p, n as int, p + i as int);
                        assert(write_cmds(one@, last).take(1) =~= write_cmds(one@, last));
                        assert(write_cmds(one@, last)[0] == write_cmds(bytes@, true)[i as int]);
                        assert(write_cmds(bytes@, true).take(i as int).push(
                            write_cmds(bytes@, true)[i as int],
                        ) =~= write_cmds(bytes@, true).take(i as int + 1));
                        assert(self.bus.cmds@ =~= base.cmds@ + write_cmds(bytes@, true).take(
                            i as int + 1,
                        ));
                    }
                    return Err(e);
                },
            }
        }
        proof {
            assert(write_cmds(bytes@, true).take(n as int) =~= write_cmds(bytes@, true));
        }
        Ok(())
    }

    /// Write the bytes of a byte source and then read into `buffer`, as one
    /// electrical transaction: no STOP within or after the write phase, a
    /// repeated START on the read phase's first byte, a STOP after its last.
    /// The bus events are the same as [`I2C::write_read`]'s, and both the
    /// byte source's and the read buffer's emptiness are validated before
    /// the hardware is touched.
    pub fn write_iter_read(&mut self, address: u8, bytes: &Vec<u8>, buffer: &mut Vec<u8>) -> (r:
        Result<(), Error>)
        ensures
            ({
                let v = validate_spec(
                    address,
                    Some(bytes@.len() == 0),
                    Some(old(buffer)@.len() == 0),
                );
                let script = old(self).bus.responses@;
                let p = old(self).bus.cmds@.len() as int;
                let ntx = bytes@.len() as int;
                let nrx = old(buffer)@.len() as int;
                &&& (v matches Err(e) ==> r == Err::<(), Error>(e) && *final(self) == *old(self)
                    && final(buffer)@ == old(buffer)@)
                &&& (v is Ok ==> ({
                    &&& same_timing_config(final(self).bus, old(self).bus)
                    &&& final(self).bus.enabled
                    &&& final(self).bus.tar == address as u16
                    &&& final(buffer)@.len() == nrx
                    &&& final(self).bus.abort_source == 0
                    &&& (!no_abort_in(script, p, ntx) ==> ({
                        &&& r == xfer_result(script, p, ntx)
                        &&& final(self).bus.cmds@ == old(self).bus.cmds@ + write_cmds(
                            bytes@,
                            false,
                        ).take(pushed_count(script, p, ntx))
                        &&& final(buffer)@ == old(buffer)@
                        &&& final(self).bus.stop_det == false
                    }))
                    &&& (no_abort_in(script, p, ntx) ==> ({
                        &&& final(self).bus.stop_det == true
                        &&& r == xfer_result(script, p + ntx, nrx)
                        &&& final(self).bus.cmds@ == old(self).bus.cmds@ + write_cmds(
                            bytes@,
                            false,
                        ) + read_cmds(nrx, true, true).take(pushed_count(script, p + ntx, nrx))
                        &&& (r is Ok ==> final(buffer)@ == read_bytes(script, p + ntx, nrx))
                        &&& (r is Err ==> forall|k: int|
                            0 <= k < first_abort_in(script, p + ntx, nrx) - (p + ntx)
                                ==> final(buffer)@[k] == byte_of(resp_at(script, p + ntx + k)))
                        &&& (r is Err ==> forall|k: int|
                            first_abort_in(script, p + ntx, nrx) - (p + ntx) <= k < nrx
                                ==> final(buffer)@[k] == old(buffer)@[k])
                    }))
                }))
            }),
    {
        match Self::validate(address, Some(bytes.len() == 0), Some(buffer.len() == 0)) {
            Ok(()) => {},
            Err(e) => {
                return Err(e);
            },
        }
        self.setup(address);

        let ghost base = self.bus;
        let ghost script = self.bus.responses@;
        let ghost p = self.bus.cmds@.len() as int;
        let ntx = bytes.len();
        for i in 0..ntx
            invariant
                self.bus.enabled,
                same_setup(self.bus, base),
                self.bus.cmds@ == base.cmds@ + write_cmds(bytes@, false).take(i as int),
                no_abort_in(script, p, i as int),
                self.bus.abort_source == (if i > 0 {
                    0u32
                } else {
                    base.abort_source
                }),
                self.bus.stop_det == base.stop_det,
        {
            let mut one: Vec<u8> = Vec::new();
            one.push(bytes[i]);
            match self.write_internal(&one, false) {
                Ok(()) => {
                    proof {
                        assert(write_cmds(bytes@, false).take(i as int).push(
                            write_cmds(bytes@, false)[i as int],
                        ) =~= write_cmds(bytes@, false).take(i as int + 1));
                        assert(write_cmds(one@, false).take(1) =~= write_cmds(one@, false));
                        assert(write_cmds(one@, false)[0] == write_cmds(bytes@, false)[i as int]);
                        assert(self.bus.cmds@ =~= base.cmds@ + write_cmds(bytes@, false).take(
                            i as int + 1,
                        ));
                    }
                },
                Err(e) => {
                    proof {
                        assert(abort_of(resp_at(script, p + i as int)) != 0);
                        lemma_first_abort(script, p, ntx as int, p + i as int);
                        assert(write_cmds(one@, false).take(1) =~= write_cmds(one@, false));
                        assert(write_cmds(one@, false)[0] == write_cmds(bytes@, false)[i as int]);
                        assert(write_cmds(bytes@, false).take(i as int).push(
                            write_cmds(bytes@, false)[i as int],
                        ) =~= write_cmds(bytes@, false).take(i as int + 1));
                        assert(self.bus.cmds@ =~= base.cmds@ + write_cmds(bytes@, false).take(
                            i as int + 1,
                        ));
                    }
                    return Err(e);
                },
            }
        }
        let res = self.read_internal(buffer, true, true);
        proof {
            let nrx = old(buffer)@.len() as int;
            assert(write_cmds(bytes@, false).take(ntx as int) =~= write_cmds(bytes@, false));
            assert((old(self).bus.cmds@ + write_cmds(bytes@, false)) + read_cmds(nrx, true, true)
                .take(pushed_count(script, p + ntx as int, nrx)) =~= old(self).bus.cmds@
                + write_cmds(bytes@, false) + read_cmds(nrx, true, true).take(
                pushed_count(script, p + ntx as int, nrx),
            ));
        }
        res
    }
}

} // verus!
