//! Register-level model of the I2C peripheral block.
//!
//! The driver owns a [`Bus`]: an exclusive handle to the register surface of
//! the peripheral together with a model of the device on the other end of the
//! wire. Every write to the data/command register is recorded in [`Bus::cmds`]
//! (what the hardware observed), and the peripheral's reaction to the `i`-th
//! command is scripted by [`Bus::responses`]: an acknowledge, a received byte,
//! or an abort with its reason bits. A command past the end of the script is
//! acknowledged (a read command past the end yields the byte `0`).
//!
//! The model is synchronous: a command is fully processed by the time the
//! push returns, so the status registers a driver busy-waits on are already
//! settled. Configuration registers accept writes only while the block is
//! disabled, which makes the mandatory disable/configure/enable ordering a
//! checked protocol rather than a convention.

use vstd::prelude::*;

verus! {

/// One command pushed to the transmit FIFO: either "send this byte" or
/// "clock one byte in", with the restart and stop framing flags.
#[derive(Clone, Copy, Debug, PartialEq, Eq, Structural)]
pub enum CmdKind {
    /// Clock one byte in from the device.
    Read,
    /// Send this byte to the device.
    Write(u8),
}

/// A data/command register write, as the hardware observes it.
#[derive(Clone, Copy, Debug, PartialEq, Eq, Structural)]
pub struct Cmd {
    /// Issue a repeated START before this command.
    pub restart: bool,
    /// Issue a STOP after this command.
    pub stop: bool,
    /// Direction and, for a write, the byte itself.
    pub kind: CmdKind,
}

/// The scripted reaction of the peripheral to one FIFO command.
#[derive(Clone, Copy, Debug, PartialEq, Eq, Structural)]
pub enum Response {
    /// The command completes normally; a read command yields the byte `0`.
    Ack,
    /// The command completes normally and a read command yields this byte.
    Byte(u8),
    /// The hardware aborts the transaction with these reason bits
    /// (`Abort(0)` behaves like an acknowledge: the reason register stays 0).
    Abort(u32),
}

/// The abort-reason bits a response leaves in the abort-source register.
pub open spec fn abort_of(r: Response) -> u32 {
    match r {
        Response::Abort(a) => a,
        _ => 0,
    }
}

/// The byte a response delivers to the receive FIFO.
pub open spec fn byte_of(r: Response) -> u8 {
    match r {
        Response::Byte(b) => b,
        _ => 0,
    }
}

/// The scripted response to the `i`-th command; past the end of the script
/// the peripheral acknowledges everything.
pub open spec fn resp_at(script: Seq<Response>, i: int) -> Response {
    if 0 <= i < script.len() {
        script[i]
    } else {
        Response::Ack
    }
}

/// The controller-configuration register fields the driver programs.
#[derive(Clone, Copy, Debug, PartialEq, Eq, Structural)]
pub struct Con {
    /// Fast-mode speed selection.
    pub speed_fast: bool,
    /// Controller (master) mode enabled.
    pub master_mode: bool,
    /// 7-bit addressing in controller mode.
    pub addr_7bits: bool,
    /// Target (slave) interface disabled.
    pub slave_disable: bool,
    /// Repeated-START generation enabled.
    pub restart_en: bool,
    /// Transmit-empty status reflects the shift register, not the FIFO.
    pub tx_empty_ctrl: bool,
}

/// Exclusive handle to the peripheral's register block, together with the
/// scripted model of the device on the other end of the wire.
pub struct Bus {
    /// Script: the peripheral's reaction to the `i`-th FIFO command.
    pub responses: Vec<Response>,
    /// Trace: every data/command register write, in order.
    pub cmds: Vec<Cmd>,
    /// Enable register.
    pub enabled: bool,
    /// Controller-configuration register.
    pub con: Con,
    /// Target-address register.
    pub tar: u16,
    /// SCL high-period count register.
    pub hcnt: u16,
    /// SCL low-period count register.
    pub lcnt: u16,
    /// Spike-suppression length register.
    pub spklen: u8,
    /// SDA transmit hold-count register.
    pub sda_hold: u16,
    /// Transmit FIFO trigger-level register.
    pub tx_tl: u8,
    /// Receive FIFO trigger-level register.
    pub rx_tl: u8,
    /// Abort-reason status register (clear-on-acknowledge).
    pub abort_source: u32,
    /// Receive FIFO holds a byte.
    pub rx_full: bool,
    /// The byte at the head of the receive FIFO.
    pub rx_byte: u8,
    /// Raw interrupt status: transmit shift register empty.
    pub tx_done: bool,
    /// Raw interrupt status: STOP condition seen on the bus.
    pub stop_det: bool,
}

impl Bus {
    /// A freshly reset register block wired to a peripheral that will follow
    /// `responses`.
    pub fn new(responses: Vec<Response>) -> (bus: Bus)
        ensures
            bus.responses == responses,
            bus.cmds@ == Seq::<Cmd>::empty(),
            !bus.enabled,
            bus.con == (Con {
                speed_fast: false,
                master_mode: false,
                addr_7bits: false,
                slave_disable: false,
                restart_en: false,
                tx_empty_ctrl: false,
            }),
            bus.tar == 0,
            bus.hcnt == 0,
            bus.lcnt == 0,
            bus.spklen == 0,
            bus.sda_hold == 0,
            bus.tx_tl == 0,
            bus.rx_tl == 0,
            bus.abort_source == 0,
            !bus.rx_full,
            bus.rx_byte == 0,
            !bus.tx_done,
            !bus.stop_det,
    {
        Bus {
            responses,
            cmds: Vec::new(),
            enabled: false,
            con: Con {
                speed_fast: false,
                master_mode: false,
                addr_7bits: false,
                slave_disable: false,
                restart_en: false,
                tx_empty_ctrl: false,
            },
            tar: 0,
            hcnt: 0,
            lcnt: 0,
            spklen: 0,
            sda_hold: 0,
            tx_tl: 0,
            rx_tl: 0,
            abort_source: 0,
            rx_full: false,
            rx_byte: 0,
            tx_done: false,
            stop_det: false,
        }
    }

    /// Write the enable register.
    pub fn write_enable(&mut self, on: bool)
        ensures
            *final(self) == (Bus { enabled: on, ..*old(self) }),
    {
        self.enabled = on;
    }

    /// Write the controller-configuration register; the block must be
    /// disabled, as configuration is ignored while it runs.
    pub fn write_con(&mut self, con: Con)
        requires
            !old(self).enabled,
        ensures
            *final(self) == (Bus { con, ..*old(self) }),
    {
        self.con = con;
    }

    /// Write the target-address register; only legal while disabled.
    pub fn write_tar(&mut self, address: u16)
        requires
            !old(self).enabled,
        ensures
            *final(self) == (Bus { tar: address, ..*old(self) }),
    {
        self.tar = address;
    }

    /// Write the SCL high-period count register; only legal while disabled.
    pub fn write_hcnt(&mut self, v: u16)
        requires
            !old(self).enabled,
        ensures
            *final(self) == (Bus { hcnt: v, ..*old(self) }),
    {
        self.hcnt = v;
    }

    /// Write the SCL low-period count register; only legal while disabled.
    pub fn write_lcnt(&mut self, v: u16)
        requires
            !old(self).enabled,
        ensures
            *final(self) == (Bus { lcnt: v, ..*old(self) }),
    {
        self.lcnt = v;
    }

    /// Write the spike-suppression length register; only legal while disabled.
    pub fn write_spklen(&mut self, v: u8)
        requires
            !old(self).enabled,
        ensures
            *final(self) == (Bus { spklen: v, ..*old(self) }),
    {
        self.spklen = v;
    }

    /// Write the SDA hold-count register; only legal while disabled.
    pub fn write_sda_hold(&mut self, v: u16)
        requires
            !old(self).enabled,
        ensures
            *final(self) == (Bus { sda_hold: v, ..*old(self) }),
    {
        self.sda_hold = v;
    }

    /// Write the transmit FIFO trigger level; only legal while disabled.
    pub fn write_tx_tl(&mut self, v: u8)
        requires
            !old(self).enabled,
        ensures
            *final(self) == (Bus { tx_tl: v, ..*old(self) }),
    {
        self.tx_tl = v;
    }

    /// Write the receive FIFO trigger level; only legal while disabled.
    pub fn write_rx_tl(&mut self, v: u8)
        requires
            !old(self).enabled,
        ensures
            *final(self) == (Bus { rx_tl: v, ..*old(self) }),
    {
        self.rx_tl = v;
    }

    /// Whether the transmit FIFO is full; the synchronous model drains every
    /// command as it arrives, so it never is.
    pub fn tx_fifo_full(&self) -> (r: bool)
        ensures
            r == false,
    {
        false
    }

    /// Push one command to the data/command register and let the scripted
    /// peripheral process it.
    pub fn write_data_cmd(&mut self, cmd: Cmd)
        requires
            old(self).enabled,
        ensures
            ({
                let r = resp_at(old(self).responses@, old(self).cmds@.len() as int);
                let aborted = abort_of(r) != 0;
                *final(self) == (Bus {
                    cmds: final(self).cmds,
                    abort_source: abort_of(r),
                    rx_full: !aborted && cmd.kind is Read,
                    rx_byte: (if !aborted && cmd.kind is Read {
                        byte_of(r)
                    } else {
                        old(self).rx_byte
                    }),
                    tx_done: true,
                    stop_det: old(self).stop_det || aborted || cmd.stop,
                    ..*old(self)
                })
            }),
            final(self).cmds@ == old(self).cmds@.push(cmd),
    {
        let i = self.cmds.len();
        let r = if i < self.responses.len() {
            self.responses[i]
        } else {
            Response::Ack
        };
        self.cmds.push(cmd);
        let a = match r {
            Response::Abort(reason) => reason,
            _ => 0,
        };
        self.abort_source = a;
        self.tx_done = true;
        if a != 0 {
            self.rx_full = false;
            self.stop_det = true;
        } else {
            match cmd.kind {
                CmdKind::Read => {
                    self.rx_full = true;
                    self.rx_byte = match r {
                        Response::Byte(b) => b,
                        _ => 0,
                    };
                }
                CmdKind::Write(_) => {
                    self.rx_full = false;
                }
            }
            if cmd.stop {
                self.stop_det = true;
            }
        }
    }

    /// Read the receive FIFO level: 1 when a byte is waiting, else 0.
    pub fn read_rxflr(&self) -> (r: u32)
        ensures
            r == (if self.rx_full { 1u32 } else { 0u32 }),
    {
        if self.rx_full {
            1
        } else {
            0
        }
    }

    /// Pop the byte at the head of the receive FIFO.
    pub fn read_data(&mut self) -> (b: u8)
        requires
            old(self).rx_full,
        ensures
            b == old(self).rx_byte,
            *final(self) == (Bus { rx_full: false, ..*old(self) }),
    {
        self.rx_full = false;
        self.rx_byte
    }

    /// Read the abort-reason status register. Reading does not clear it: the
    /// paired clear register must be read for that.
    pub fn read_tx_abrt_source(&self) -> (r: u32)
        ensures
            r == self.abort_source,
    {
        self.abort_source
    }

    /// Read the abort clear register: always reads 0, and as a side effect
    /// finishes clearing the abort-reason state.
    pub fn read_clr_tx_abrt(&mut self) -> (r: u32)
        ensures
            r == 0,
            *final(self) == (Bus { abort_source: 0u32, ..*old(self) }),
    {
        self.abort_source = 0;
        0
    }

    /// Raw interrupt status: transmit shift register empty.
    pub fn read_tx_empty(&self) -> (r: bool)
        ensures
            r == self.tx_done,
    {
        self.tx_done
    }

    /// Raw interrupt status: a STOP condition was seen on the bus.
    pub fn read_stop_det(&self) -> (r: bool)
        ensures
            r == self.stop_det,
    {
        self.stop_det
    }

    /// Read the stop-detected clear register: always reads 0, and as a side
    /// effect clears the stop-detected status.
    pub fn read_clr_stop_det(&mut self) -> (r: u32)
        ensures
            r == 0,
            *final(self) == (Bus { stop_det: false, ..*old(self) }),
    {
        self.stop_det = false;
        0
    }
}

} // verus!
