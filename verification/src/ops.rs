//! The transaction sequencer: one electrical transaction built from an
//! ordered list of logical read/write operations.
//!
//! The sequencer walks the operations in order. Bytes of adjacent operations
//! of the same direction follow each other with no repeated START or STOP in
//! between; on a direction change the hardware inserts the repeated START
//! itself, from the command-type transition, so no restart flag is pushed
//! here. Only the last byte of the last operation carries the stop flag, and
//! the controller does not acknowledge the final byte of a closing read.

use crate::controller::{same_setup, same_timing_config, validate_spec, I2C};
use crate::hw::{abort_of, byte_of, resp_at, Response};
use crate::trace::{
    first_abort_in, lemma_first_abort, lemma_first_abort_props, lemma_no_abort_split,
    no_abort_in, pushed_count, read_bytes, read_cmds, write_cmds, xfer_result,
};
use crate::{Cmd, Error};
use vstd::prelude::*;

verus! {

/// One logical operation of a transaction.
#[derive(Debug)]
pub enum Operation {
    /// Fill this buffer from the device.
    Read(Vec<u8>),
    /// Send these bytes to the device.
    Write(Vec<u8>),
}

/// How many bytes an operation moves.
pub open spec fn op_len(op: Operation) -> int {
    match op {
        Operation::Read(b) => b@.len() as int,
        Operation::Write(b) => b@.len() as int,
    }
}

/// The operation's buffer, as a sequence.
pub open spec fn op_buf(op: Operation) -> Seq<u8> {
    match op {
        Operation::Read(b) => b@,
        Operation::Write(b) => b@,
    }
}

/// The commands one operation pushes when it is (`last`) or is not the final
/// operation of its transaction.
pub open spec fn op_cmds(op: Operation, last: bool) -> Seq<Cmd> {
    match op {
        Operation::Read(b) => read_cmds(b@.len() as int, false, last),
        Operation::Write(b) => write_cmds(b@, last),
    }
}

/// Total byte count of the first `k` operations.
pub open spec fn ops_len_prefix(ops: Seq<Operation>, k: int) -> int
    decreases k,
{
    if k <= 0 {
        0
    } else {
        ops_len_prefix(ops, k - 1) + op_len(ops[k - 1])
    }
}

/// The commands the first `k` of `nops` operations push, concatenated.
pub open spec fn ops_cmds_prefix(ops: Seq<Operation>, k: int, nops: int) -> Seq<Cmd>
    decreases k,
{
    if k <= 0 {
        Seq::empty()
    } else {
        ops_cmds_prefix(ops, k - 1, nops) + op_cmds(ops[k - 1], k == nops)
    }
}

/// Total byte count of a transaction.
pub open spec fn ops_total_len(ops: Seq<Operation>) -> int {
    ops_len_prefix(ops, ops.len() as int)
}

/// The full command trace of a transaction.
pub open spec fn ops_cmds(ops: Seq<Operation>) -> Seq<Cmd> {
    ops_cmds_prefix(ops, ops.len() as int, ops.len() as int)
}

/// The buffer-length error of the first empty-buffered operation, if any:
/// a write buffer gives the write error, a read buffer the read error.
pub open spec fn ops_arg_error(ops: Seq<Operation>) -> Option<Error>
    decreases ops.len(),
{
    if ops.len() == 0 {
        None::<Error>
    } else {
        match ops[0] {
            Operation::Write(b) => if b@.len() == 0 {
                Some(Error::InvalidWriteBufferLength)
            } else {
                ops_arg_error(ops.drop_first())
            },
            Operation::Read(b) => if b@.len() == 0 {
                Some(Error::InvalidReadBufferLength)
            } else {
                ops_arg_error(ops.drop_first())
            },
        }
    }
}

/// The argument error a transaction is rejected with, if any: buffer checks
/// over all operations first, then the address checks.
pub open spec fn transaction_error(address: u8, ops: Seq<Operation>) -> Option<Error> {
    match ops_arg_error(ops) {
        Some(e) => Some(e),
        None => match validate_spec(address, None, None) {
            Err(e) => Some(e),
            Ok(_) => None::<Error>,
        },
    }
}

/// Skipping operations with non-empty buffers does not change which
/// buffer-length error a list yields.
proof fn lemma_ops_arg_error_skip(ops: Seq<Operation>, k: int)
    requires
        0 <= k <= ops.len(),
        forall|i: int| 0 <= i < k ==> op_len(#[trigger] ops[i]) >= 1,
    ensures
        ops_arg_error(ops) == ops_arg_error(ops.skip(k)),
    decreases k,
{
    if k == 0 {
        assert(ops.skip(0) =~= ops);
    } else {
        lemma_ops_arg_error_skip(ops, k - 1);
        let s = ops.skip(k - 1);
        assert(s[0] == ops[k - 1]);
        assert(op_len(ops[k - 1]) >= 1);
        assert(ops_arg_error(s) == ops_arg_error(s.drop_first()));
        assert(s.drop_first() =~= ops.skip(k));
    }
}

/// The command trace of a prefix is as long as the bytes it moves, and byte
/// counts are never negative.
proof fn lemma_ops_prefix_len(ops: Seq<Operation>, k: int, nops: int)
    requires
        0 <= k <= ops.len(),
    ensures
        ops_cmds_prefix(ops, k, nops).len() == ops_len_prefix(ops, k),
        ops_len_prefix(ops, k) >= 0,
    decreases k,
{
    if k > 0 {
        lemma_ops_prefix_len(ops, k - 1, nops);
    }
}

/// Byte counts of prefixes grow with the prefix.
proof fn lemma_len_prefix_mono(ops: Seq<Operation>, a: int, b: int)
    requires
        0 <= a <= b <= ops.len(),
    ensures
        ops_len_prefix(ops, a) <= ops_len_prefix(ops, b),
    decreases b,
{
    if b > a {
        lemma_len_prefix_mono(ops, a, b - 1);
        lemma_ops_prefix_len(ops, b, ops.len() as int);
    }
}

/// Cutting the full trace after `c` commands of operation `i` leaves the
/// trace of the first `i` operations followed by those `c` commands.
proof fn lemma_ops_cmds_take_mid(ops: Seq<Operation>, i: int, c: int, k: int)
    requires
        0 <= i < k <= ops.len(),
        0 <= c <= op_len(ops[i]),
    ensures
        ops_cmds_prefix(ops, k, ops.len() as int).take(ops_len_prefix(ops, i) + c)
            == ops_cmds_prefix(ops, i, ops.len() as int) + op_cmds(
            ops[i],
            i == ops.len() - 1,
        ).take(c),
    decreases k,
{
    let n = ops.len() as int;
    lemma_ops_prefix_len(ops, i, n);
    if k == i + 1 {
        assert((ops_cmds_prefix(ops, i, n) + op_cmds(ops[i], i + 1 == n)).take(
            ops_len_prefix(ops, i) + c,
        ) =~= ops_cmds_prefix(ops, i, n) + op_cmds(ops[i], i == n - 1).take(c));
    } else {
        lemma_ops_cmds_take_mid(ops, i, c, k - 1);
        lemma_ops_prefix_len(ops, k - 1, n);
        lemma_len_prefix_mono(ops, i + 1, k - 1);
        lemma_ops_prefix_len(ops, i + 1, n);
        assert((ops_cmds_prefix(ops, k - 1, n) + op_cmds(ops[k - 1], k == n)).take(
            ops_len_prefix(ops, i) + c,
        ) =~= ops_cmds_prefix(ops, k - 1, n).take(ops_len_prefix(ops, i) + c));
    }
}

/// The full trace of a non-empty transaction ends with a command of its last
/// operation, in that operation's direction.
proof fn lemma_trace_last_full(ops: Seq<Operation>)
    requires
        ops.len() > 0,
        op_len(ops[ops.len() - 1]) >= 1,
    ensures
        ops_cmds(ops).len() == ops_total_len(ops),
        ops_cmds(ops).len() >= 1,
        (ops_cmds(ops).last().kind is Read) <==> ops[ops.len() - 1] is Read,
{
    let n = ops.len() as int;
    lemma_ops_prefix_len(ops, n, n);
    lemma_ops_prefix_len(ops, n - 1, n);
    let lastop = ops[n - 1];
    let oc = op_cmds(lastop, true);
    assert(ops_cmds(ops) == ops_cmds_prefix(ops, n - 1, n) + oc);
    match lastop {
        Operation::Read(b) => {
            assert(oc[op_len(lastop) - 1].kind is Read);
        },
        Operation::Write(b) => {
            assert(!(oc[op_len(lastop) - 1].kind is Read));
        },
    }
    assert(ops_cmds(ops).last() == oc[op_len(lastop) - 1]);
}

/// A trace cut after `c` commands of operation `i` (one of that operation's
/// commands being the last kept) ends with a command in that operation's
/// direction.
proof fn lemma_trace_last_cut(ops: Seq<Operation>, i: int, c: int)
    requires
        0 <= i < ops.len(),
        1 <= c <= op_len(ops[i]),
    ensures
        ops_cmds(ops).take(ops_len_prefix(ops, i) + c).len() == ops_len_prefix(ops, i) + c,
        (ops_cmds(ops).take(ops_len_prefix(ops, i) + c).last().kind is Read) <==> ops[i] is Read,
{
    let n = ops.len() as int;
    lemma_ops_cmds_take_mid(ops, i, c, n);
    lemma_ops_prefix_len(ops, i, n);
    let oc = op_cmds(ops[i], i == n - 1);
    match ops[i] {
        Operation::Read(b) => {
            assert(oc[c - 1].kind is Read);
        },
        Operation::Write(b) => {
            assert(!(oc[c - 1].kind is Read));
        },
    }
    assert((ops_cmds_prefix(ops, i, n) + oc.take(c)).last() == oc[c - 1]);
}

/// A processed operation: a write is untouched, a read has been filled from
/// its window of the script, starting at position `q`.
pub open spec fn op_done(cur: Operation, orig: Operation, script: Seq<Response>, q: int) -> bool {
    match orig {
        Operation::Write(_) => cur == orig,
        Operation::Read(b) => match cur {
            Operation::Read(c) => c@ == read_bytes(script, q, b@.len() as int),
            Operation::Write(_) => false,
        },
    }
}

impl I2C {
    /// Execute the operations on the bus as one transaction, per the framing
    /// contract: a START and the target address go out automatically before
    /// the first command, same-direction neighbours run back-to-back, the
    /// hardware inserts a repeated START on each direction change, a STOP
    /// follows the last byte of the last operation or the first abort, and
    /// the final byte of a closing read is not acknowledged. Buffers and
    /// address are validated before the hardware is touched; the walk stops
    /// at the first abort, leaving later operations unexecuted.
    pub fn transaction(&mut self, address: u8, operations: &mut Vec<Operation>) -> (r: Result<
        (),
        Error,
    >)
        ensures
            ({
                let verr = transaction_error(address, old(operations)@);
                let script = old(self).bus.responses@;
                let p = old(self).bus.cmds@.len() as int;
                let ops = old(operations)@;
                let fops = final(operations)@;
                let total = ops_total_len(ops);
                &&& (verr matches Some(e) ==> r == Err::<(), Error>(e) && *final(self) == *old(
                    self,
                ) && fops == ops)
                &&& (verr is None ==> ({
                    &&& same_timing_config(final(self).bus, old(self).bus)
                    &&& final(self).bus.enabled
                    &&& final(self).bus.tar == address as u16
                    &&& r == xfer_result(script, p, total)
                    &&& final(self).bus.cmds@ == old(self).bus.cmds@ + ops_cmds(ops).take(
                        pushed_count(script, p, total),
                    )
                    &&& final(self).bus.abort_source == (if ops.len() > 0 {
                        0u32
                    } else {
                        old(self).bus.abort_source
                    })
                    &&& (ops.len() > 0 ==> final(self).bus.stop_det == (final(self).bus.cmds@
                        .last().kind is Read))
                    &&& (ops.len() == 0 ==> final(self).bus.stop_det == old(self).bus.stop_det)
                    &&& fops.len() == ops.len()
                    &&& forall|t: int|
                        0 <= t < ops.len() && ops[t] is Write ==> #[trigger] fops[t] == ops[t]
                    &&& forall|t: int|
                        0 <= t < ops.len() && ops[t] is Read ==> #[trigger] fops[t] is Read
                            && op_buf(fops[t]).len() == op_len(ops[t])
                    &&& forall|t: int|
                        0 <= t < ops.len() && ops[t] is Read && no_abort_in(
                            script,
                            p,
                            ops_len_prefix(ops, t + 1),
                        ) ==> op_buf(#[trigger] fops[t]) == read_bytes(
                            script,
                            p + ops_len_prefix(ops, t),
                            op_len(ops[t]),
                        )
                }))
            }),
    {
        let ghost init_ops = operations@;

        // validate every buffer, in order, then the address; nothing touches
        // the hardware until all checks pass
        let nops = operations.len();
        for k in 0..nops
            invariant
                operations@ == init_ops,
                nops == init_ops.len(),
                forall|t: int| 0 <= t < k ==> op_len(#[trigger] init_ops[t]) >= 1,
        {
            let (is_empty, err) = match &operations[k] {
                Operation::Read(b) => (b.len() == 0, Error::InvalidReadBufferLength),
                Operation::Write(b) => (b.len() == 0, Error::InvalidWriteBufferLength),
            };
            if is_empty {
                proof {
                    lemma_ops_arg_error_skip(init_ops, k as int);
                    assert(init_ops.skip(k as int)[0] == init_ops[k as int]);
                }
                return Err(err);
            }
        }
        proof {
            lemma_ops_arg_error_skip(init_ops, nops as int);
        }
        match Self::validate(address, None, None) {
            Ok(()) => {},
            Err(e) => {
                return Err(e);
            },
        }

        self.setup(address);
        self.run_ops(operations)
    }

    /// Walk validated operations in order, delegating each to the byte
    /// engine with the stop flag on the final operation, and stop at the
    /// first abort.
    #[verifier::rlimit(100)]
    fn run_ops(&mut self, operations: &mut Vec<Operation>) -> (r: Result<(), Error>)
        requires
            old(self).bus.enabled,
            forall|t: int|
                0 <= t < old(operations)@.len() ==> op_len(#[trigger] old(operations)@[t]) >= 1,
        ensures
            ({
                let script = old(self).bus.responses@;
                let p = old(self).bus.cmds@.len() as int;
                let ops = old(operations)@;
                let fops = final(operations)@;
                let total = ops_total_len(ops);
                &&& same_setup(final(self).bus, old(self).bus)
                &&& r == xfer_result(script, p, total)
                &&& final(self).bus.cmds@ == old(self).bus.cmds@ + ops_cmds(ops).take(
                    pushed_count(script, p, total),
                )
                &&& final(self).bus.abort_source == (if ops.len() > 0 {
                    0u32
                } else {
                    old(self).bus.abort_source
                })
                &&& (ops.len() > 0 ==> final(self).bus.stop_det == (final(self).bus.cmds@
                    .last().kind is Read))
                &&& (ops.len() == 0 ==> final(self).bus.stop_det == old(self).bus.stop_det)
                &&& fops.len() == ops.len()
                &&& forall|t: int|
                    0 <= t < ops.len() && ops[t] is Write ==> #[trigger] fops[t] == ops[t]
                &&& forall|t: int|
                    0 <= t < ops.len() && ops[t] is Read ==> #[trigger] fops[t] is Read && op_buf(
                        fops[t],
                    ).len() == op_len(ops[t])
                &&& forall|t: int|
                    0 <= t < ops.len() && ops[t] is Read && no_abort_in(
                        script,
                        p,
                        ops_len_prefix(ops, t + 1),
                    ) ==> op_buf(#[trigger] fops[t]) == read_bytes(
                        script,
                        p + ops_len_prefix(ops, t),
                        op_len(ops[t]),
                    )
            }),
    {
        let ghost init_ops = operations@;
        let ghost base = self.bus;
        let ghost script = self.bus.responses@;
        let ghost p = self.bus.cmds@.len() as int;
        let nops = operations.len();
        let ghost n = nops as int;
        for i in 0..nops
            invariant
                self.bus.enabled,
                same_setup(self.bus, base),
                operations@.len() == n,
                forall|t: int| i <= t < n ==> operations@[t] == init_ops[t],
                forall|t: int|
                    0 <= t < i ==> op_done(
                        #[trigger] operations@[t],
                        init_ops[t],
                        script,
                        p + ops_len_prefix(init_ops, t),
                    ),
                self.bus.cmds@ == base.cmds@ + ops_cmds_prefix(init_ops, i as int, n),
                no_abort_in(script, p, ops_len_prefix(init_ops, i as int)),
                self.bus.abort_source == (if i > 0 {
                    0u32
                } else {
                    base.abort_source
                }),
                i < nops || nops == 0 ==> self.bus.stop_det == base.stop_det,
                i == nops && nops > 0 ==> self.bus.stop_det == (init_ops[n - 1] is Read),
        {
            let last = i == nops - 1;
            proof {
                lemma_ops_prefix_len(init_ops, i as int, n);
            }
            let ghost q = p + ops_len_prefix(init_ops, i as int);
            let ghost pre_ops = operations@;
            proof {
                assert(operations@[i as int] == init_ops[i as int]);
                assert(op_len(init_ops[i as int]) >= 1);
            }
            let op = operations.remove(i);
            let (op, res) = match op {
                Operation::Read(mut buf) => {
                    let res = self.read_internal(&mut buf, false, last);
                    (Operation::Read(buf), res)
                },
                Operation::Write(buf) => {
                    let res = self.write_internal(&buf, last);
                    (Operation::Write(buf), res)
                },
            };
            operations.insert(i, op);
            proof {
                assert(operations@ =~= pre_ops.update(i as int, op));
            }
            match res {
                Ok(()) => {
                    proof {
                        let ni = op_len(init_ops[i as int]);
                        lemma_no_abort_split(script, p, ops_len_prefix(init_ops, i as int), ni);
                        assert(op_cmds(init_ops[i as int], last).take(ni) =~= op_cmds(
                            init_ops[i as int],
                            last,
                        ));
                        assert(self.bus.cmds@ =~= base.cmds@ + ops_cmds_prefix(
                            init_ops,
                            i as int + 1,
                            n,
                        ));
                    }
                },
                Err(e) => {
                    proof {
                        let ni = op_len(init_ops[i as int]);
                        lemma_first_abort_props(script, q, ni);
                        let j = first_abort_in(script, q, ni);
                        lemma_ops_prefix_len(init_ops, i as int + 1, n);
                        assert forall|t: int| i as int + 1 <= t <= n implies ops_len_prefix(
                            init_ops,
                            i as int + 1,
                        ) <= #[trigger] ops_len_prefix(init_ops, t) by {
                            lemma_len_prefix_mono(init_ops, i as int + 1, t);
                        }
                        lemma_first_abort(script, p, ops_total_len(init_ops), j);
                        lemma_ops_cmds_take_mid(init_ops, i as int, j - q + 1, n);
                        assert(self.bus.cmds@ =~= base.cmds@ + ops_cmds(init_ops).take(
                            pushed_count(script, p, ops_total_len(init_ops)),
                        ));
                        lemma_trace_last_cut(init_ops, i as int, j - q + 1);
                        assert(self.bus.cmds@.last() == ops_cmds(init_ops).take(
                            ops_len_prefix(init_ops, i as int) + (j - q + 1),
                        ).last());
                    }
                    return Err(e);
                },
            }
        }
        proof {
            lemma_ops_prefix_len(init_ops, n, n);
            assert(ops_cmds(init_ops).take(ops_total_len(init_ops)) =~= ops_cmds(init_ops));
            if nops > 0 {
                assert(op_len(init_ops[n - 1]) >= 1);
                lemma_trace_last_full(init_ops);
                assert(self.bus.cmds@.last() == ops_cmds(init_ops).last());
            }
        }
        Ok(())
    }
}

} // verus!
