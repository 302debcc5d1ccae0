//! End-to-end transfers against the scripted peripheral: framing flags,
//! abort propagation, combined transactions and the round trip.

use rp2040_i2c::{Bus, CmdKind, Error, Operation, Response, I2C};

fn controller(script: Vec<Response>) -> I2C {
    I2C::new_controller(Bus::new(script), 100_000, 125_000_000).unwrap()
}

#[test]
fn write_two_bytes_frames_stop_on_last() {
    let mut i2c = controller(vec![Response::Ack, Response::Ack]);
    let r = i2c.write(0x50, &vec![0x01, 0x02]);
    assert_eq!(r, Ok(()));
    // the hardware observed the target address and two FIFO pushes,
    // the second carrying the stop flag
    assert_eq!(i2c.bus.tar, 0x50);
    assert!(i2c.bus.enabled);
    assert_eq!(i2c.bus.cmds.len(), 2);
    assert_eq!(i2c.bus.cmds[0].kind, CmdKind::Write(0x01));
    assert!(!i2c.bus.cmds[0].restart);
    assert!(!i2c.bus.cmds[0].stop);
    assert_eq!(i2c.bus.cmds[1].kind, CmdKind::Write(0x02));
    assert!(i2c.bus.cmds[1].stop);
    // the stop-detected status was waited on and cleared after the stopping
    // byte, and no abort reason is left pending
    assert!(!i2c.bus.stop_det);
    assert_eq!(i2c.bus.abort_source, 0);
}

#[test]
fn write_abort_reports_reason_and_stops_pushing() {
    let mut i2c = controller(vec![Response::Ack, Response::Abort(42), Response::Ack]);
    let r = i2c.write(0x50, &vec![0x01, 0x02, 0x03]);
    assert_eq!(r, Err(Error::Abort(42)));
    // the aborted byte was pushed; the one after it never was
    assert_eq!(i2c.bus.cmds.len(), 2);
    // the abort reason was acknowledged and the stop (auto-issued by the
    // hardware on abort) was waited on and cleared
    assert_eq!(i2c.bus.abort_source, 0);
    assert!(!i2c.bus.stop_det);
}

#[test]
fn write_rejects_arguments_without_touching_hardware() {
    let mut i2c = controller(vec![]);
    assert_eq!(i2c.write(0x50, &vec![]), Err(Error::InvalidWriteBufferLength));
    assert_eq!(i2c.write(0x80, &vec![1]), Err(Error::AddressOutOfRange(0x80)));
    assert_eq!(i2c.write(0x78, &vec![1]), Err(Error::AddressReserved(0x78)));
    assert!(i2c.bus.cmds.is_empty());
    assert_eq!(i2c.bus.tar, 0);
}

#[test]
fn read_fills_buffer_and_frames_restart_and_stop() {
    let mut i2c = controller(vec![
        Response::Byte(0xAA),
        Response::Byte(0xBB),
        Response::Byte(0xCC),
    ]);
    let mut buf = vec![0u8; 3];
    let r = i2c.read(0x50, &mut buf);
    assert_eq!(r, Ok(()));
    assert_eq!(buf, vec![0xAA, 0xBB, 0xCC]);
    assert_eq!(i2c.bus.cmds.len(), 3);
    assert_eq!(i2c.bus.cmds[0].kind, CmdKind::Read);
    assert!(i2c.bus.cmds[0].restart);
    assert!(!i2c.bus.cmds[0].stop);
    assert!(!i2c.bus.cmds[1].restart);
    assert!(i2c.bus.cmds[2].stop);
    // the read path does not clear the stop-detected status
    assert!(i2c.bus.stop_det);
    assert_eq!(i2c.bus.abort_source, 0);
}

#[test]
fn read_abort_after_two_bytes_leaves_last_slot_untouched() {
    let mut i2c = controller(vec![
        Response::Byte(0xAA),
        Response::Byte(0xBB),
        Response::Abort(8),
    ]);
    let mut buf = vec![9u8, 9, 9];
    let r = i2c.read(0x50, &mut buf);
    assert_eq!(r, Err(Error::Abort(8)));
    // the first two slots carry whatever arrived; the third was never written
    assert_eq!(buf[0], 0xAA);
    assert_eq!(buf[1], 0xBB);
    assert_eq!(buf[2], 9);
    // the reason was captured and then cleared through both reads
    assert_eq!(i2c.bus.abort_source, 0);
}

#[test]
fn read_rejects_empty_buffer() {
    let mut i2c = controller(vec![]);
    let mut buf: Vec<u8> = vec![];
    assert_eq!(i2c.read(0x50, &mut buf), Err(Error::InvalidReadBufferLength));
    assert!(i2c.bus.cmds.is_empty());
}

#[test]
fn write_read_is_one_transaction_with_one_restart() {
    let mut i2c = controller(vec![Response::Ack, Response::Byte(7), Response::Byte(8)]);
    let mut rx = vec![0u8; 2];
    let r = i2c.write_read(0x50, &vec![0x01], &mut rx);
    assert_eq!(r, Ok(()));
    assert_eq!(rx, vec![7, 8]);
    assert_eq!(i2c.bus.cmds.len(), 3);
    // write phase: no stop anywhere
    assert_eq!(i2c.bus.cmds[0].kind, CmdKind::Write(0x01));
    assert!(!i2c.bus.cmds[0].stop);
    // read phase: restart on its first byte, stop on its last
    assert_eq!(i2c.bus.cmds[1].kind, CmdKind::Read);
    assert!(i2c.bus.cmds[1].restart);
    assert!(!i2c.bus.cmds[1].stop);
    assert!(!i2c.bus.cmds[2].restart);
    assert!(i2c.bus.cmds[2].stop);
}

#[test]
fn write_read_abort_in_write_phase_reads_nothing() {
    let mut i2c = controller(vec![Response::Abort(3)]);
    let mut rx = vec![5u8; 2];
    let r = i2c.write_read(0x50, &vec![0x01], &mut rx);
    assert_eq!(r, Err(Error::Abort(3)));
    assert_eq!(rx, vec![5, 5]);
    assert_eq!(i2c.bus.cmds.len(), 1);
}

#[test]
fn write_iter_matches_write_events() {
    let mut a = controller(vec![Response::Ack, Response::Ack]);
    let mut b = controller(vec![Response::Ack, Response::Ack]);
    assert_eq!(a.write(0x50, &vec![0xDE, 0xAD]), Ok(()));
    assert_eq!(b.write_iter(0x50, &vec![0xDE, 0xAD]), Ok(()));
    assert_eq!(a.bus.cmds, b.bus.cmds);
}

#[test]
fn write_iter_empty_source_is_an_error() {
    let mut i2c = controller(vec![]);
    assert_eq!(i2c.write_iter(0x50, &vec![]), Err(Error::InvalidWriteBufferLength));
    assert!(i2c.bus.cmds.is_empty());
}

#[test]
fn write_iter_abort_stops_the_sequence() {
    let mut i2c = controller(vec![Response::Abort(16), Response::Ack]);
    assert_eq!(i2c.write_iter(0x50, &vec![1, 2]), Err(Error::Abort(16)));
    assert_eq!(i2c.bus.cmds.len(), 1);
}

#[test]
fn write_iter_read_is_one_transaction() {
    let mut i2c = controller(vec![Response::Ack, Response::Byte(0x99)]);
    let mut rx = vec![0u8; 1];
    let r = i2c.write_iter_read(0x50, &vec![0x01], &mut rx);
    assert_eq!(r, Ok(()));
    assert_eq!(rx, vec![0x99]);
    assert_eq!(i2c.bus.cmds.len(), 2);
    assert!(!i2c.bus.cmds[0].stop);
    assert_eq!(i2c.bus.cmds[1].kind, CmdKind::Read);
    assert!(i2c.bus.cmds[1].restart);
    assert!(i2c.bus.cmds[1].stop);
}

#[test]
fn write_iter_read_rejects_empty_read_buffer() {
    let mut i2c = controller(vec![]);
    let mut rx: Vec<u8> = vec![];
    assert_eq!(
        i2c.write_iter_read(0x50, &vec![0x01], &mut rx),
        Err(Error::InvalidReadBufferLength)
    );
    assert!(i2c.bus.cmds.is_empty());
    assert_eq!(i2c.bus.tar, 0);
}

#[test]
fn transaction_mixed_operations_framing() {
    let mut i2c = controller(vec![
        Response::Ack,
        Response::Byte(0x10),
        Response::Byte(0x20),
    ]);
    let mut ops = vec![Operation::Write(vec![0xAA]), Operation::Read(vec![0u8; 2])];
    let r = i2c.transaction(0x20, &mut ops);
    assert_eq!(r, Ok(()));
    assert_eq!(i2c.bus.tar, 0x20);
    assert_eq!(i2c.bus.cmds.len(), 3);
    // first byte pushed with stop = false
    assert_eq!(i2c.bus.cmds[0].kind, CmdKind::Write(0xAA));
    assert!(!i2c.bus.cmds[0].stop);
    // two read commands; the direction change carries no explicit restart
    // flag (the hardware inserts the repeated START itself); the second
    // carries the stop flag
    assert_eq!(i2c.bus.cmds[1].kind, CmdKind::Read);
    assert!(!i2c.bus.cmds[1].restart);
    assert!(!i2c.bus.cmds[1].stop);
    assert!(i2c.bus.cmds[2].stop);
    match &ops[1] {
        Operation::Read(buf) => assert_eq!(buf, &vec![0x10, 0x20]),
        Operation::Write(_) => panic!("operation changed direction"),
    }
    // the transaction ends in a read, which leaves stop-detected set
    assert!(i2c.bus.stop_det);
    assert_eq!(i2c.bus.abort_source, 0);
}

#[test]
fn transaction_rejects_empty_buffers_in_order() {
    let mut i2c = controller(vec![]);
    let mut ops = vec![Operation::Write(vec![]), Operation::Read(vec![])];
    assert_eq!(i2c.transaction(0x50, &mut ops), Err(Error::InvalidWriteBufferLength));
    let mut ops = vec![Operation::Read(vec![]), Operation::Write(vec![])];
    assert_eq!(i2c.transaction(0x50, &mut ops), Err(Error::InvalidReadBufferLength));
    // buffer checks precede the address checks
    let mut ops = vec![Operation::Read(vec![])];
    assert_eq!(i2c.transaction(0x80, &mut ops), Err(Error::InvalidReadBufferLength));
    let mut ops = vec![Operation::Write(vec![1])];
    assert_eq!(i2c.transaction(0x80, &mut ops), Err(Error::AddressOutOfRange(0x80)));
    let mut ops = vec![Operation::Write(vec![1])];
    assert_eq!(i2c.transaction(0x00, &mut ops), Err(Error::AddressReserved(0x00)));
    assert!(i2c.bus.cmds.is_empty());
    assert_eq!(i2c.bus.tar, 0);
}

#[test]
fn transaction_abort_skips_remaining_operations() {
    let mut i2c = controller(vec![Response::Ack, Response::Abort(4)]);
    let mut ops = vec![Operation::Write(vec![1, 2]), Operation::Read(vec![9u8; 2])];
    assert_eq!(i2c.transaction(0x50, &mut ops), Err(Error::Abort(4)));
    assert_eq!(i2c.bus.cmds.len(), 2);
    match &ops[1] {
        Operation::Read(buf) => assert_eq!(buf, &vec![9, 9]),
        Operation::Write(_) => panic!("operation changed direction"),
    }
}

#[test]
fn transaction_same_direction_operations_run_back_to_back() {
    let mut i2c = controller(vec![Response::Ack, Response::Ack, Response::Ack]);
    let mut ops = vec![Operation::Write(vec![1, 2]), Operation::Write(vec![3])];
    assert_eq!(i2c.transaction(0x50, &mut ops), Ok(()));
    assert_eq!(i2c.bus.cmds.len(), 3);
    // no restart anywhere, stop only on the very last byte
    assert!(i2c.bus.cmds.iter().all(|c| !c.restart));
    assert!(!i2c.bus.cmds[0].stop);
    assert!(!i2c.bus.cmds[1].stop);
    assert!(i2c.bus.cmds[2].stop);
    // a transaction ending in a write waits out and clears stop-detected
    assert!(!i2c.bus.stop_det);
    assert_eq!(i2c.bus.abort_source, 0);
}

#[test]
fn round_trip_write_then_read_echoes_bytes() {
    // a cooperating peripheral that echoes the written bytes
    let written = vec![5u8, 6, 7];
    let mut script = vec![Response::Ack; written.len()];
    for b in &written {
        script.push(Response::Byte(*b));
    }
    let mut i2c = controller(script);
    assert_eq!(i2c.write(0x50, &written), Ok(()));
    let mut back = vec![0u8; written.len()];
    assert_eq!(i2c.read(0x50, &mut back), Ok(()));
    assert_eq!(back, written);
}
