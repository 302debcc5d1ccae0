//! The command traces the byte-transfer engine leaves on the bus, and the
//! outcome a peripheral script assigns to them.
//!
//! A transfer that starts when `p` commands have already been pushed consumes
//! the script positions `p`, `p+1`, ... one per command. These functions say,
//! over a script and such a window, whether the transfer aborts, with which
//! reason, how many commands reach the FIFO, and which bytes a read delivers.

use crate::hw::{abort_of, byte_of, resp_at, Cmd, CmdKind, Response};
use crate::Error;
use vstd::prelude::*;

verus! {

/// The commands a write of `bytes` pushes: one write command per byte, no
/// restarts, the stop flag on the last byte exactly when `do_stop`.
pub open spec fn write_cmds(bytes: Seq<u8>, do_stop: bool) -> Seq<Cmd> {
    Seq::new(
        bytes.len(),
        |i: int|
            Cmd {
                restart: false,
                stop: do_stop && i == bytes.len() - 1,
                kind: CmdKind::Write(bytes[i]),
            },
    )
}

/// The commands a read of `n` bytes pushes: one read command per byte, the
/// restart flag on the first exactly when `force_restart`, the stop flag on
/// the last exactly when `do_stop`.
pub open spec fn read_cmds(n: int, force_restart: bool, do_stop: bool) -> Seq<Cmd>
    recommends
        n >= 0,
{
    Seq::new(
        n as nat,
        |i: int|
            Cmd { restart: force_restart && i == 0, stop: do_stop && i == n - 1, kind: CmdKind::Read },
    )
}

/// No response in the script window `[from, from + n)` aborts.
pub open spec fn no_abort_in(script: Seq<Response>, from: int, n: int) -> bool {
    forall|j: int| from <= j < from + n ==> abort_of(#[trigger] resp_at(script, j)) == 0
}

/// The position of the first aborting response in the window `[from, from+n)`
/// (meaningful only when the window holds one).
pub open spec fn first_abort_in(script: Seq<Response>, from: int, n: int) -> int
    recommends
        n >= 0,
    decreases n,
{
    if n <= 0 {
        from
    } else if abort_of(resp_at(script, from)) != 0 {
        from
    } else {
        first_abort_in(script, from + 1, n - 1)
    }
}

/// The outcome of a transfer of `n` commands starting at script position `p`:
/// `Ok` when nothing in the window aborts, else the first abort's reason.
pub open spec fn xfer_result(script: Seq<Response>, p: int, n: int) -> Result<(), Error> {
    if no_abort_in(script, p, n) {
        Ok(())
    } else {
        Err(Error::Abort(abort_of(resp_at(script, first_abort_in(script, p, n)))))
    }
}

/// How many of the transfer's `n` commands reach the FIFO: all of them, or,
/// on an abort, those up to and including the aborted command.
pub open spec fn pushed_count(script: Seq<Response>, p: int, n: int) -> int {
    if no_abort_in(script, p, n) {
        n
    } else {
        first_abort_in(script, p, n) - p + 1
    }
}

/// The bytes a read of `n` starting at script position `p` delivers.
pub open spec fn read_bytes(script: Seq<Response>, p: int, n: int) -> Seq<u8> {
    Seq::new(n as nat, |i: int| byte_of(resp_at(script, p + i)))
}

/// A window whose prefix `[from, j)` is abort-free and whose position `j`
/// aborts has its first abort at `j`.
pub proof fn lemma_first_abort(script: Seq<Response>, from: int, n: int, j: int)
    requires
        from <= j < from + n,
        abort_of(resp_at(script, j)) != 0,
        forall|k: int| from <= k < j ==> abort_of(#[trigger] resp_at(script, k)) == 0,
    ensures
        !no_abort_in(script, from, n),
        first_abort_in(script, from, n) == j,
    decreases j - from,
{
    if j > from {
        lemma_first_abort(script, from + 1, n - 1, j);
    }
}

/// The script of a cooperating peripheral that acknowledges a write of
/// `bytes` and then echoes those same bytes back to a read of equal length.
pub open spec fn echo_script(script: Seq<Response>, bytes: Seq<u8>) -> bool {
    &&& script.len() == 2 * bytes.len()
    &&& forall|j: int| 0 <= j < bytes.len() ==> #[trigger] script[j] == Response::Ack
    &&& forall|j: int|
        bytes.len() <= j < 2 * bytes.len() ==> #[trigger] script[j] == Response::Byte(
            bytes[j - bytes.len()],
        )
}

/// Law (round trip): against a fresh echoing peripheral, a write of `bytes`
/// aborts nowhere and pushes every byte, and the read of equal length that
/// follows aborts nowhere and delivers exactly `bytes`. Through the
/// contracts of the driver's `write` and `read`, which speak of
/// `xfer_result`, `pushed_count` and `read_bytes` over the same windows,
/// the write returns `Ok` and the read returns `Ok` with its buffer equal
/// to the bytes written.
pub proof fn lemma_write_read_round_trip(script: Seq<Response>, bytes: Seq<u8>)
    requires
        echo_script(script, bytes),
    ensures
        xfer_result(script, 0, bytes.len() as int) == Ok::<(), Error>(()),
        pushed_count(script, 0, bytes.len() as int) == bytes.len() as int,
        xfer_result(script, bytes.len() as int, bytes.len() as int) == Ok::<(), Error>(()),
        read_bytes(script, bytes.len() as int, bytes.len() as int) == bytes,
{
    let n = bytes.len() as int;
    assert(no_abort_in(script, 0, n));
    assert(no_abort_in(script, n, n));
    assert(read_bytes(script, n, n) =~= bytes);
}

/// In a window that holds an abort, the first abort lies in the window, it
/// aborts, and nothing before it does.
pub proof fn lemma_first_abort_props(script: Seq<Response>, from: int, n: int)
    requires
        n >= 0,
        !no_abort_in(script, from, n),
    ensures
        from <= first_abort_in(script, from, n) < from + n,
        abort_of(resp_at(script, first_abort_in(script, from, n))) != 0,
        forall|k: int|
            from <= k < first_abort_in(script, from, n) ==> abort_of(
                #[trigger] resp_at(script, k),
            ) == 0,
    decreases n,
{
    if abort_of(resp_at(script, from)) != 0 {
    } else {
        assert(!no_abort_in(script, from + 1, n - 1));
        lemma_first_abort_props(script, from + 1, n - 1);
    }
}

/// An abort-free window splits into abort-free halves, and conversely.
pub proof fn lemma_no_abort_split(script: Seq<Response>, from: int, m: int, n: int)
    requires
        0 <= m,
        0 <= n,
    ensures
        no_abort_in(script, from, m + n) <==> (no_abort_in(script, from, m) && no_abort_in(
            script,
            from + m,
            n,
        )),
{
}

} // verus!
