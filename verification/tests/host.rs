use rp_usb_host::channel::{Channel, EndpointBuffer};
use rp_usb_host::host::{Allocator, BusReset, Driver, HostState, PortChange};
use rp_usb_host::layout::EP_COUNT;
use rp_usb_host::regs::{
    Op, Reg, Waker, INT_BUFF_STATUS, INT_ERROR_BIT_STUFF, INT_ERROR_CRC, INT_ERROR_DATA_SEQ,
    INT_HOST_CONN_DIS, INT_HOST_RESUME, MAIN_CONTROLLER_EN, MAIN_HOST_NDEVICE, MAIN_PHY_ISO,
    MUX_SOFTCON, MUX_TO_PHY, PWR_VBUS_DETECT, PWR_VBUS_DETECT_OVERRIDE_EN, SIE_KEEP_ALIVE_EN,
    SIE_PULLDOWN_EN, SIE_RESET_BUS, SIE_SOF_EN, STATUS_SPEED,
};
use rp_usb_host::types::{
    Chip, DeviceEvent, EndpointInfo, EndpointType, HostError, PipeDirection, Speed, SplitInfo,
};

fn open_pipe(state: &mut HostState, ep_type: EndpointType, mps: u16) -> Result<Channel, HostError> {
    let endpoint = EndpointInfo { addr: 0x81, ep_type, max_packet_size: mps, interval_ms: 4 };
    Allocator {}.alloc_pipe(state, 3, &endpoint, PipeDirection::In, None)
}

#[test]
fn bring_up() {
    for (chip, bit, isolation) in
        [(Chip::Rp2040, 1u32 << 24, 0), (Chip::Rp235x, 1 << 28, MAIN_PHY_ISO)]
    {
        let mut state = HostState::new();
        let _ = open_pipe(&mut state, EndpointType::Bulk, 64);
        let _ = open_pipe(&mut state, EndpointType::Interrupt, 8);
        let (driver, ops) = Driver::new(&mut state, chip);
        assert_eq!(state, HostState::new());
        assert!(!driver.connected);
        assert_eq!(
            ops,
            vec![
                Op::Modify(Reg::Resets, 0, bit),
                Op::Modify(Reg::Resets, bit, 0),
                Op::WaitSet(Reg::ResetDone, bit),
                Op::ZeroDpram(96),
                Op::Modify(Reg::UsbMuxing, 0, MUX_TO_PHY | MUX_SOFTCON),
                Op::Modify(Reg::UsbPwr, 0, PWR_VBUS_DETECT | PWR_VBUS_DETECT_OVERRIDE_EN),
                Op::Modify(Reg::MainCtrl, isolation, MAIN_CONTROLLER_EN | MAIN_HOST_NDEVICE),
                Op::Modify(Reg::SieCtrl, 0, SIE_SOF_EN | SIE_KEEP_ALIVE_EN | SIE_PULLDOWN_EN),
                Op::Write(
                    Reg::Inte,
                    INT_BUFF_STATUS
                        | INT_HOST_RESUME
                        | INT_ERROR_DATA_SEQ
                        | INT_ERROR_CRC
                        | INT_ERROR_BIT_STUFF
                ),
                Op::UnpendIrq,
                Op::EnableIrq,
                Op::Wake(Waker::Bus),
            ]
        );
        assert_eq!(driver.allocator(), Allocator {});
    }
}

#[test]
fn port_events() {
    let (mut driver, _) = Driver::new(&mut HostState::new(), Chip::Rp2040);
    assert_eq!(
        driver.watch_port(),
        vec![
            Op::Clear(Reg::SieStatus, STATUS_SPEED),
            Op::Modify(Reg::Inte, 0, INT_HOST_CONN_DIS),
        ]
    );
    let noise = !STATUS_SPEED;
    let attach = |driver: &Driver, speed| {
        Some(PortChange {
            event: DeviceEvent::Connected(speed),
            reset: Some(driver.bus_reset()),
        })
    };
    let detach = Some(PortChange { event: DeviceEvent::Disconnected, reset: None });
    assert_eq!(driver.wait_for_device_event(noise), None);
    assert_eq!(driver.wait_for_device_event(0x300), None);
    assert_eq!(driver.wait_for_device_event(noise | 0x100), attach(&driver, Speed::Low));
    assert!(driver.connected);
    assert_eq!(driver.wait_for_device_event(0x200), None);
    assert_eq!(driver.wait_for_device_event(0x300), detach);
    assert!(!driver.connected);
    assert_eq!(driver.wait_for_device_event(0x200), attach(&driver, Speed::Full));
    assert_eq!(driver.wait_for_device_event(0), detach);
}

#[test]
fn root_port_reset() {
    assert_eq!(
        Driver { connected: true }.bus_reset(),
        BusReset {
            assert_reset: Op::Modify(Reg::SieCtrl, 0, SIE_RESET_BUS),
            drive_ms: 50,
            release_reset: Op::Modify(Reg::SieCtrl, SIE_RESET_BUS, 0),
            recovery_ms: 10,
        }
    );
}

#[test]
fn interrupt_pipes_have_fixed_buffers() {
    let mut state = HostState::new();
    for index in 1..EP_COUNT {
        let c = open_pipe(&mut state, EndpointType::Interrupt, 8).unwrap();
        assert_eq!(c.index, index);
        assert_eq!(c.buf, EndpointBuffer { addr: 0x180 + 64 * (index as u16 - 1), len: 64 });
    }
    assert_eq!(open_pipe(&mut state, EndpointType::Interrupt, 8), Err(HostError::OutOfPipes));
    // The others have their own pool.
    assert!(open_pipe(&mut state, EndpointType::Bulk, 64).is_ok());
}

#[test]
fn interrupt_packet_sizes() {
    let mut state = HostState::new();
    for mps in [0, 65, 1024, u16::MAX] {
        assert_eq!(
            open_pipe(&mut state, EndpointType::Interrupt, mps),
            Err(HostError::InvalidDescriptor)
        );
    }
    assert_eq!(state, HostState::new());
    for mps in [1, 64] {
        assert_eq!(
            open_pipe(&mut state, EndpointType::Interrupt, mps).unwrap().max_packet_size,
            mps
        );
    }
}

#[test]
fn epx_pipes_share_memory() {
    let mut state = HostState::new();
    let iso = open_pipe(&mut state, EndpointType::Isochronous, 1023).unwrap();
    assert_eq!(iso.index, EP_COUNT);
    assert_eq!(iso.buf, EndpointBuffer { addr: 0x540, len: 1024 });
    let iso = open_pipe(&mut state, EndpointType::Isochronous, 1023).unwrap();
    assert_eq!(iso.buf.addr, 0x940);
    // 11 of 43 blocks are left.
    let before = state;
    assert_eq!(
        open_pipe(&mut state, EndpointType::Isochronous, 1023),
        Err(HostError::InsufficientMemory)
    );
    assert_eq!(state, before);
    for _ in 0..11 {
        assert!(open_pipe(&mut state, EndpointType::Control, 64).is_ok());
    }
    assert_eq!(
        open_pipe(&mut state, EndpointType::Bulk, 1),
        Err(HostError::InsufficientMemory)
    );
    assert_eq!(open_pipe(&mut state, EndpointType::Bulk, 0), Err(HostError::InsufficientMemory));
}

#[test]
fn epx_slots_run_out() {
    let mut state = HostState::new();
    for _ in 0..16 {
        assert!(open_pipe(&mut state, EndpointType::Bulk, 64).is_ok());
    }
    assert_eq!(open_pipe(&mut state, EndpointType::Bulk, 64), Err(HostError::OutOfPipes));
}

#[test]
fn pipe_knows_its_endpoint() {
    let mut state = HostState::new();
    let endpoint = EndpointInfo {
        addr: 0x8f,
        ep_type: EndpointType::Bulk,
        max_packet_size: 32,
        interval_ms: 7,
    };
    let split = Some(SplitInfo { hub_addr: 4, port: 1, device_speed: Speed::Low });
    let c = Allocator {}
        .alloc_pipe(&mut state, 99, &endpoint, PipeDirection::Out, split)
        .unwrap();
    assert_eq!(c.ep_addr, 15);
    assert_eq!(c.dev_addr, 99);
    assert_eq!(c.dir, PipeDirection::Out);
    assert_eq!(c.ep_type, EndpointType::Bulk);
    assert_eq!(c.max_packet_size, 32);
    assert_eq!(c.interval, 7);
    assert!(c.pre);
    assert!(!c.pid);
}

#[test]
fn dropping_gives_everything_back() {
    for ep_type in [
        EndpointType::Control,
        EndpointType::Isochronous,
        EndpointType::Bulk,
        EndpointType::Interrupt,
    ] {
        let mut state = HostState::new();
        let _ = open_pipe(&mut state, EndpointType::Bulk, 64);
        let _ = open_pipe(&mut state, EndpointType::Interrupt, 8);
        let before = state;
        let c = open_pipe(&mut state, ep_type, 48).unwrap();
        assert_ne!(state, before);
        let ops = c.retire(&mut state);
        assert_eq!(state, before);
        if ep_type == EndpointType::Interrupt {
            assert_eq!(
                ops,
                vec![
                    Op::Modify(Reg::IntEpCtrl, 1 << 2, 0),
                    Op::Write(Reg::EpInControl(1), 0),
                    Op::Write(Reg::EpInBufferControl(2), 0),
                    Op::Clear(Reg::BuffStatus, 0b11_0000),
                ]
            );
        } else {
            assert_eq!(ops, vec![]);
        }
    }
}

#[test]
fn live_buffers_never_overlap() {
    let mut state = HostState::new();
    let mut live: Vec<Channel> = Vec::new();
    let mut seed = 1u32;
    for _ in 0..2000 {
        seed = seed.wrapping_mul(1_103_515_245).wrapping_add(12_345);
        let pick = (seed >> 16) as usize;
        if pick % 3 == 0 && !live.is_empty() {
            let gone = live.swap_remove(pick / 3 % live.len());
            let _ = gone.retire(&mut state);
        } else {
            let (ep_type, limit) = match pick % 4 {
                0 => (EndpointType::Interrupt, 64),
                1 => (EndpointType::Isochronous, 1023),
                2 => (EndpointType::Bulk, 64),
                _ => (EndpointType::Control, 64),
            };
            let mps = (pick / 7 % limit) as u16 + 1;
            if let Ok(c) = open_pipe(&mut state, ep_type, mps) {
                live.push(c);
            }
        }
        let mut spans: Vec<(u16, u16)> =
            live.iter().map(|c| (c.buf.addr, c.buf.addr + c.buf.len)).collect();
        spans.sort();
        assert!(spans.windows(2).all(|w| w[0].1 <= w[1].0));
        let mut indices: Vec<usize> = live.iter().map(|c| c.index).collect();
        indices.sort();
        assert!(indices.windows(2).all(|w| w[0] != w[1]));
        let blocks: u32 = live
            .iter()
            .filter(|c| c.index >= EP_COUNT)
            .map(|c| u32::from(c.buf.len) / 64)
            .sum();
        assert_eq!(state.epx.used_blocks.count_ones(), blocks);
    }
    for c in live {
        let _ = c.retire(&mut state);
    }
    assert_eq!(state, HostState::new());
}
