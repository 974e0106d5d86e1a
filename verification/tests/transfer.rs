use rp_usb_host::channel::Channel;
use rp_usb_host::epx_transaction::Request;
use rp_usb_host::host::{Allocator, HostState};
use rp_usb_host::regs::{Op, BUF_FULL};
use rp_usb_host::transfer::{
    setup_length, ControlStage, ControlTransfer, EpxRead, PacketWriter, ReadStep, WritePhase,
};
use rp_usb_host::types::{EndpointInfo, EndpointType, PipeDirection, PipeError};

fn pipe(ep_type: EndpointType, dir: PipeDirection, max_packet_size: u16) -> (HostState, Channel) {
    let mut state = HostState::new();
    let endpoint = EndpointInfo { addr: 1, ep_type, max_packet_size, interval_ms: 1 };
    let channel = Allocator {}.alloc_pipe(&mut state, 1, &endpoint, dir, None).unwrap();
    (state, channel)
}

fn bulk(max_packet_size: u16) -> Channel {
    pipe(EndpointType::Bulk, PipeDirection::InOut, max_packet_size).1
}

/// Runs a read against a device that sends packets of these lengths. Returns the lengths asked
/// for and the result.
fn read(len: usize, mps: u16, packets: &[u32]) -> (Vec<u16>, Result<usize, PipeError>) {
    let mut channel = bulk(mps);
    let mut read = EpxRead::new(len);
    let mut asked = Vec::new();
    let mut at_next = 0;
    for (k, &packet) in packets.iter().enumerate() {
        match read.request(&channel) {
            Request::DataIn { len, pid } => {
                assert_eq!(pid, k % 2 == 1);
                asked.push(len);
            }
            other => panic!("{:?}", other),
        }
        let (step, ops) = read.on_packet(&mut channel, packet | BUF_FULL);
        if let [Op::CopyIn { addr, at, len }] = ops[..] {
            assert_eq!((addr, at, len), (channel.buf.addr, at_next, packet as usize));
            at_next += len;
        } else {
            assert!(ops.is_empty());
        }
        if let ReadStep::Done(result) = step {
            assert_eq!(k + 1, packets.len());
            return (asked, result);
        }
    }
    panic!("not done after {:?}", packets);
}

#[test]
fn reads_end_when_full_or_short() {
    assert_eq!(read(100, 64, &[64, 36]), (vec![64, 36], Ok(100)));
    assert_eq!(read(100, 64, &[64, 10]), (vec![64, 36], Ok(74)));
    assert_eq!(read(100, 64, &[64, 0]), (vec![64, 36], Ok(64)));
    assert_eq!(read(100, 64, &[3]), (vec![64], Ok(3)));
    assert_eq!(read(128, 64, &[64, 64]), (vec![64, 64], Ok(128)));
    assert_eq!(read(0, 64, &[0]), (vec![0], Ok(0)));
    assert_eq!(read(20, 8, &[8, 8, 4]), (vec![8, 8, 4], Ok(20)));
}

#[test]
fn packet_too_large_for_the_buffer() {
    assert_eq!(read(5, 64, &[6]), (vec![5], Err(PipeError::BufferOverflow)));
    assert_eq!(read(70, 64, &[64, 7]), (vec![64, 6], Err(PipeError::BufferOverflow)));
}

/// The packets of a write, as offset and length.
fn write(total: usize, zlp: bool, mps: u16) -> Vec<(usize, usize)> {
    let mut channel = bulk(mps);
    let mut writer = PacketWriter::new(total, zlp);
    let mut packets = Vec::new();
    loop {
        let request = writer.request(&channel);
        match request {
            Request::DataOut { from, total, pid } => {
                assert_eq!(pid, packets.len() % 2 == 1);
                packets.push((from, channel.set_data_out(from, total, pid).0));
            }
            other => panic!("{:?}", other),
        }
        if writer.on_sent(&mut channel) {
            assert_eq!(writer.phase, WritePhase::Done);
            return packets;
        }
    }
}

#[test]
fn writes_are_cut_into_packets() {
    assert_eq!(write(0, false, 8), vec![(0, 0)]);
    assert_eq!(write(0, true, 8), vec![(0, 0)]);
    assert_eq!(write(5, true, 8), vec![(0, 5)]);
    assert_eq!(write(8, false, 8), vec![(0, 8)]);
    assert_eq!(write(8, true, 8), vec![(0, 8), (8, 0)]);
    assert_eq!(write(20, true, 8), vec![(0, 8), (8, 8), (16, 4)]);
    assert_eq!(write(16, true, 8), vec![(0, 8), (8, 8), (16, 0)]);
}

#[test]
fn number_of_packets() {
    for mps in [1u16, 8, 64] {
        for total in 0..200usize {
            for zlp in [false, true] {
                let full = total > 0 && total % mps as usize == 0;
                let expected = total.div_ceil(mps as usize).max(1) + usize::from(zlp && full);
                let packets = write(total, zlp, mps);
                assert_eq!(packets.len(), expected);
                assert_eq!(packets.iter().map(|p| p.1).sum::<usize>(), total);
            }
        }
    }
}

#[test]
fn interrupt_writes_use_the_same_packets() {
    let (_, mut c) = pipe(EndpointType::Interrupt, PipeDirection::Out, 8);
    let mut writer = PacketWriter::new(8, true);
    assert_eq!(writer.send_interrupt(&c), c.interrupt_send(0, 8).1);
    assert!(!writer.on_sent(&mut c));
    assert!(c.pid);
    assert_eq!(writer.send_interrupt(&c), c.interrupt_send(8, 8).1);
    assert!(writer.on_sent(&mut c));
    assert!(!c.pid);
}

const GET: [u8; 8] = [0x80, 6, 0, 1, 0, 0, 0x12, 0x01];
const SET: [u8; 8] = [0x00, 9, 1, 0, 0, 0, 0, 0];

#[test]
fn announced_length_is_little_endian() {
    assert_eq!(setup_length(&GET), 0x112);
    assert_eq!(setup_length(&SET), 0);
    assert_eq!(setup_length(&[0xff; 8]), 0xffff);
}

#[test]
fn control_data_must_fit() {
    let (_, mut c) = pipe(EndpointType::Control, PipeDirection::InOut, 64);
    let before = c;
    assert_eq!(
        ControlTransfer::begin(&mut c, &GET, 0x111, false),
        Err(PipeError::BufferOverflow)
    );
    assert_eq!(c, before);
    assert!(ControlTransfer::begin(&mut c, &GET, 0x112, false).is_ok());
    assert_eq!(c.control_timeout_us, Some(500_000));
}

#[test]
fn control_transfer_with_data() {
    for out in [false, true] {
        let (_, mut c) = pipe(EndpointType::Control, PipeDirection::InOut, 64);
        let mut t = ControlTransfer::begin(&mut c, &GET, 0x200, out).unwrap();
        assert_eq!(t.request(&c), Request::Setup(GET));
        assert_eq!(t.on_stage(&mut c, Ok(0)), None);
        assert_eq!(t.stage, ControlStage::Data);
        assert!(c.pid);
        if out {
            assert_eq!(t.data_write(), PacketWriter::new(0x112, false));
        } else {
            assert_eq!(t.data_read(), EpxRead::new(0x112));
        }
        assert_eq!(t.on_stage(&mut c, Ok(0x112)), None);
        assert_eq!(t.stage, ControlStage::Status);
        let status = if out {
            Request::DataIn { len: 0, pid: true }
        } else {
            Request::DataOut { from: 0, total: 0, pid: true }
        };
        assert_eq!(t.request(&c), status);
        assert_eq!(t.on_stage(&mut c, Ok(0)), Some(Ok(0x112)));
        assert_eq!(t.stage, ControlStage::Done);
        assert!(!c.pid);
        assert_eq!(c.control_timeout_us, None);
    }
}

#[test]
fn control_transfer_without_data() {
    let (_, mut c) = pipe(EndpointType::Control, PipeDirection::InOut, 64);
    c.timeout.no_data_timeout_us = 77;
    let mut t = ControlTransfer::begin(&mut c, &SET, 0, true).unwrap();
    assert_eq!(c.control_timeout_us, Some(77));
    assert_eq!(t.on_stage(&mut c, Ok(0)), None);
    assert_eq!(t.stage, ControlStage::Status);
    assert_eq!(t.on_stage(&mut c, Ok(0)), Some(Ok(0)));
}

#[test]
fn control_error_ends_the_transfer() {
    for stages in 0..3 {
        let (_, mut c) = pipe(EndpointType::Control, PipeDirection::InOut, 64);
        let mut t = ControlTransfer::begin(&mut c, &GET, 0x200, false).unwrap();
        for _ in 0..stages {
            assert_eq!(t.on_stage(&mut c, Ok(1)), None);
        }
        assert_eq!(
            t.on_stage(&mut c, Err(PipeError::Stall)),
            Some(Err(PipeError::Stall))
        );
        assert_eq!(t.stage, ControlStage::Done);
        assert_eq!(c.control_timeout_us, None);
        assert_eq!(c.pid, stages > 0);
    }
}

#[test]
fn failed_packet_ends_a_write() {
    let mut channel = bulk(8);
    let mut writer = PacketWriter::new(20, true);
    assert_eq!(writer.on_result(&mut channel, Ok(())), None);
    assert!(channel.pid);
    let (before, pipe_before) = (writer, channel);
    assert_eq!(
        writer.on_result(&mut channel, Err(PipeError::Stall)),
        Some(Err(PipeError::Stall))
    );
    assert_eq!((writer, channel), (before, pipe_before));

    let mut writer = PacketWriter::new(8, true);
    assert_eq!(writer.on_result(&mut channel, Ok(())), None);
    assert_eq!(writer.on_result(&mut channel, Ok(())), Some(Ok(())));
}

#[test]
fn failed_packet_ends_a_read() {
    let mut channel = bulk(8);
    let mut read = EpxRead::new(20);
    let (step, ops) = read.on_result(&mut channel, Ok(()), BUF_FULL | 8);
    assert_eq!(step, ReadStep::More);
    assert_eq!(ops, vec![Op::CopyIn { addr: channel.buf.addr, at: 0, len: 8 }]);
    let (before, pipe_before) = (read, channel);
    assert_eq!(
        read.on_result(&mut channel, Err(PipeError::DataToggleError), BUF_FULL | 8),
        (ReadStep::Done(Err(PipeError::DataToggleError)), vec![])
    );
    assert_eq!((read, channel), (before, pipe_before));
    assert_eq!(
        read.on_result(&mut channel, Ok(()), BUF_FULL | 3).0,
        ReadStep::Done(Ok(11))
    );
}

#[test]
fn control_read_stops_at_the_announced_length() {
    let (_, mut c) = pipe(EndpointType::Control, PipeDirection::InOut, 8);
    let setup = [0x80, 6, 0, 1, 0, 0, 18, 0];
    let mut t = ControlTransfer::begin(&mut c, &setup, 64, false).unwrap();
    let _ = t.on_stage(&mut c, Ok(0));
    let mut read = t.data_read();
    let mut asked = Vec::new();
    loop {
        let len = match read.request(&c) {
            Request::DataIn { len, pid } => {
                assert_eq!(pid, asked.len() % 2 == 0);
                len
            }
            other => panic!("{:?}", other),
        };
        asked.push(len);
        let (step, _) = read.on_result(&mut c, Ok(()), BUF_FULL | u32::from(len));
        if let ReadStep::Done(result) = step {
            assert_eq!(result, Ok(18));
            break;
        }
    }
    assert_eq!(asked, vec![8, 8, 2]);

    // One byte more than announced does not fit.
    let mut read = t.data_read();
    let _ = read.on_result(&mut c, Ok(()), BUF_FULL | 8);
    let _ = read.on_result(&mut c, Ok(()), BUF_FULL | 8);
    assert_eq!(
        read.on_result(&mut c, Ok(()), BUF_FULL | 3),
        (ReadStep::Done(Err(PipeError::BufferOverflow)), vec![])
    );
}

#[test]
fn control_write_has_no_empty_packet_behind_it() {
    let (_, mut c) = pipe(EndpointType::Control, PipeDirection::InOut, 8);
    let setup = [0x00, 9, 0, 0, 0, 0, 16, 0];
    let mut t = ControlTransfer::begin(&mut c, &setup, 64, true).unwrap();
    let _ = t.on_stage(&mut c, Ok(0));
    let mut writer = t.data_write();
    for (from, pid, done) in [(0, true, None), (8, false, Some(Ok(())))] {
        assert_eq!(writer.request(&c), Request::DataOut { from, total: 16, pid });
        assert_eq!(writer.on_result(&mut c, Ok(())), done);
    }
}
