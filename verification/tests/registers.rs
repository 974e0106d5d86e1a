//! Register fields, held against the peripheral access crate.

use rp_pac::usb::regs::{
    AddrEndp, AddrEndpX, Int, IntEpCtrl, MainCtrl, NakPoll, SieCtrl, SieStatus, UsbMuxing, UsbPwr,
};
use rp_pac::usb_dpram::regs::{EpBufferControl, EpControl, SetupPacketHigh, SetupPacketLow};
use rp_pac::usb_dpram::vals::EpControlEndpointType;
use rp_usb_host::epx::{NAK_POLL_NORMAL, NAK_POLL_YIELD};
use rp_usb_host::host::reset_bit;
use rp_usb_host::regs::{
    addr_word, addr_word_x, buff_status_bits, buffer_length, buffer_word, has_flag, int_ep_bit,
    interrupt_ep_word, modify_word, pack_bytes, type_bits, BUF_AVAILABLE, BUF_FULL,
    EP_BUFFER_ADDRESS, EP_ENABLE, EP_INTERRUPT_PER_BUFF, EP_TYPE, INT_BUFF_STATUS,
    INT_EPX_STOPPED_ON_NAK, INT_ERROR_BIT_STUFF, INT_ERROR_CRC, INT_ERROR_DATA_SEQ,
    INT_ERROR_RX_OVERFLOW, INT_ERROR_RX_TIMEOUT, INT_HOST_CONN_DIS, INT_HOST_RESUME, INT_HOST_SOF,
    INT_STALL, INT_TRANS_COMPLETE, MAIN_CONTROLLER_EN, MAIN_HOST_NDEVICE, MAIN_PHY_ISO, MUX_SOFTCON,
    MUX_TO_PHY, NAK_EPX_STOPPED_ON_NAK, NAK_STOP_EPX_ON_NAK, PWR_VBUS_DETECT,
    PWR_VBUS_DETECT_OVERRIDE_EN, SIE_KEEP_ALIVE_EN, SIE_PREAMBLE_EN, SIE_PULLDOWN_EN,
    SIE_RECEIVE_DATA, SIE_RESET_BUS, SIE_SEND_DATA, SIE_SEND_SETUP, SIE_SOF_EN, SIE_SOF_SYNC,
    SIE_START_TRANS, SIE_STOP_TRANS, STATUS_BIT_STUFF_ERROR, STATUS_CRC_ERROR,
    STATUS_DATA_SEQ_ERROR, STATUS_OUTCOMES, STATUS_RESUME, STATUS_RX_OVERFLOW, STATUS_RX_TIMEOUT,
    STATUS_SPEED, STATUS_STALL_REC, STATUS_TRANS_COMPLETE,
};
use rp_usb_host::types::{Chip, EndpointType};

#[test]
fn buffer_word_fields() {
    for last in [false, true] {
        for pid in [false, true] {
            for full in [false, true] {
                for length in [0u16, 1, 8, 64, 1023] {
                    let mut w = EpBufferControl::default();
                    w.set_last(0, last);
                    w.set_pid(0, pid);
                    w.set_full(0, full);
                    w.set_reset(true);
                    w.set_length(0, length);
                    w.set_available(0, true);
                    let word = buffer_word(last, pid, full, length);
                    assert_eq!(word, w.0);
                    assert_eq!(buffer_length(word), length as usize);
                    assert!(has_flag(word, BUF_AVAILABLE));
                    assert_eq!(has_flag(word, BUF_FULL), full);
                }
            }
        }
    }
}

#[test]
fn buffer_word_keeps_ten_bits_of_length() {
    let mut w = EpBufferControl::default();
    w.set_length(0, 2048 + 5);
    w.set_reset(true);
    w.set_last(0, true);
    w.set_available(0, true);
    let word = buffer_word(true, false, false, 2048 + 5);
    assert_eq!(word, w.0);
    assert_eq!(buffer_length(word), 5);
}

#[test]
fn ep_control_fields() {
    let types = [
        (EndpointType::Control, EpControlEndpointType::CONTROL),
        (EndpointType::Isochronous, EpControlEndpointType::ISOCHRONOUS),
        (EndpointType::Bulk, EpControlEndpointType::BULK),
        (EndpointType::Interrupt, EpControlEndpointType::INTERRUPT),
    ];
    for (ours, theirs) in types {
        let mut w = EpControl::default();
        w.set_endpoint_type(theirs);
        assert_eq!(type_bits(ours), w.0);
    }
    let mut w = EpControl(u32::MAX);
    w.set_endpoint_type(EpControlEndpointType::CONTROL);
    w.set_buffer_address(0);
    assert_eq!(w.0, !(EP_TYPE | EP_BUFFER_ADDRESS));
    let mut w = EpControl::default();
    w.set_enable(true);
    assert_eq!(w.0, EP_ENABLE);
    let mut w = EpControl::default();
    w.set_interrupt_per_buff(true);
    assert_eq!(w.0, EP_INTERRUPT_PER_BUFF);
}

#[test]
fn interrupt_ep_word_fields() {
    for (interval, stored) in [(0u8, 0u32), (1, 0), (2, 1), (10, 9), (255, 254)] {
        let mut w = EpControl::default();
        w.set_endpoint_type(EpControlEndpointType::INTERRUPT);
        w.set_interrupt_per_buff(true);
        w.0 |= stored << 16;
        w.set_buffer_address(0x1c0);
        w.set_enable(true);
        assert_eq!(interrupt_ep_word(0x1c0, interval), w.0);
    }
}

#[test]
fn address_word_fields() {
    let mut w = AddrEndp::default();
    w.set_address(0x55);
    w.set_endpoint(3);
    assert_eq!(addr_word(0x55, 3), w.0);
    for out in [false, true] {
        for pre in [false, true] {
            let mut w = AddrEndpX::default();
            w.set_address(127);
            w.set_endpoint(15);
            w.set_intep_dir(out);
            w.set_intep_preamble(pre);
            assert_eq!(addr_word_x(127, 15, out, pre), w.0);
        }
    }
    let mut w = AddrEndp::default();
    w.set_address(0xff);
    w.set_endpoint(0xff);
    assert_eq!(addr_word(0xff, 0xff), w.0);
}

#[test]
fn setup_words() {
    let mut low = SetupPacketLow::default();
    low.set_bmrequesttype(0x80);
    low.set_brequest(0x06);
    low.set_wvalue(0x0100);
    assert_eq!(pack_bytes(0x80, 0x06, 0x00, 0x01), low.0);
    let mut high = SetupPacketHigh::default();
    high.set_windex(0x0409);
    high.set_wlength(0x1234);
    assert_eq!(pack_bytes(0x09, 0x04, 0x34, 0x12), high.0);
}

#[test]
fn sie_ctrl_bits() {
    let bit = |f: &dyn Fn(&mut SieCtrl)| {
        let mut w = SieCtrl::default();
        f(&mut w);
        w.0
    };
    assert_eq!(SIE_START_TRANS, bit(&|w| w.set_start_trans(true)));
    assert_eq!(SIE_SEND_SETUP, bit(&|w| w.set_send_setup(true)));
    assert_eq!(SIE_SEND_DATA, bit(&|w| w.set_send_data(true)));
    assert_eq!(SIE_RECEIVE_DATA, bit(&|w| w.set_receive_data(true)));
    assert_eq!(SIE_STOP_TRANS, bit(&|w| w.set_stop_trans(true)));
    assert_eq!(SIE_PREAMBLE_EN, bit(&|w| w.set_preamble_en(true)));
    assert_eq!(SIE_SOF_SYNC, bit(&|w| w.set_sof_sync(true)));
    assert_eq!(SIE_SOF_EN, bit(&|w| w.set_sof_en(true)));
    assert_eq!(SIE_KEEP_ALIVE_EN, bit(&|w| w.set_keep_alive_en(true)));
    assert_eq!(SIE_RESET_BUS, bit(&|w| w.set_reset_bus(true)));
    assert_eq!(SIE_PULLDOWN_EN, bit(&|w| w.set_pulldown_en(true)));
}

#[test]
fn sie_status_bits() {
    let bit = |f: &dyn Fn(&mut SieStatus)| {
        let mut w = SieStatus::default();
        f(&mut w);
        w.0
    };
    assert_eq!(STATUS_SPEED, bit(&|w| w.set_speed(0b11)));
    assert_eq!(STATUS_RESUME, bit(&|w| w.set_resume(true)));
    assert_eq!(STATUS_TRANS_COMPLETE, bit(&|w| w.set_trans_complete(true)));
    assert_eq!(STATUS_CRC_ERROR, bit(&|w| w.set_crc_error(true)));
    assert_eq!(STATUS_BIT_STUFF_ERROR, bit(&|w| w.set_bit_stuff_error(true)));
    assert_eq!(STATUS_RX_OVERFLOW, bit(&|w| w.set_rx_overflow(true)));
    assert_eq!(STATUS_RX_TIMEOUT, bit(&|w| w.set_rx_timeout(true)));
    assert_eq!(STATUS_STALL_REC, bit(&|w| w.set_stall_rec(true)));
    assert_eq!(STATUS_DATA_SEQ_ERROR, bit(&|w| w.set_data_seq_error(true)));
    assert_eq!(
        STATUS_OUTCOMES,
        bit(&|w| {
            w.set_trans_complete(true);
            w.set_stall_rec(true);
            w.set_rx_timeout(true);
            w.set_rx_overflow(true);
        })
    );
}

#[test]
fn interrupt_bits() {
    let bit = |f: &dyn Fn(&mut Int)| {
        let mut w = Int::default();
        f(&mut w);
        w.0
    };
    assert_eq!(INT_HOST_CONN_DIS, bit(&|w| w.set_host_conn_dis(true)));
    assert_eq!(INT_HOST_RESUME, bit(&|w| w.set_host_resume(true)));
    assert_eq!(INT_HOST_SOF, bit(&|w| w.set_host_sof(true)));
    assert_eq!(INT_TRANS_COMPLETE, bit(&|w| w.set_trans_complete(true)));
    assert_eq!(INT_BUFF_STATUS, bit(&|w| w.set_buff_status(true)));
    assert_eq!(INT_ERROR_DATA_SEQ, bit(&|w| w.set_error_data_seq(true)));
    assert_eq!(INT_ERROR_RX_TIMEOUT, bit(&|w| w.set_error_rx_timeout(true)));
    assert_eq!(INT_ERROR_RX_OVERFLOW, bit(&|w| w.set_error_rx_overflow(true)));
    assert_eq!(INT_ERROR_BIT_STUFF, bit(&|w| w.set_error_bit_stuff(true)));
    assert_eq!(INT_ERROR_CRC, bit(&|w| w.set_error_crc(true)));
    assert_eq!(INT_STALL, bit(&|w| w.set_stall(true)));
    assert_eq!(INT_EPX_STOPPED_ON_NAK, bit(&|w| w.set_epx_stopped_on_nak(true)));
}

#[test]
fn other_control_bits() {
    let mut w = NakPoll::default();
    w.set_stop_epx_on_nak(true);
    assert_eq!(NAK_STOP_EPX_ON_NAK, w.0);
    let mut w = NakPoll::default();
    w.set_epx_stopped_on_nak(true);
    assert_eq!(NAK_EPX_STOPPED_ON_NAK, w.0);
    let mut w = NakPoll::default();
    w.set_delay_fs(300);
    w.set_delay_ls(300);
    assert_eq!(NAK_POLL_YIELD, w.0);
    let mut w = NakPoll::default();
    w.set_delay_fs(16);
    w.set_delay_ls(16);
    assert_eq!(NAK_POLL_NORMAL, w.0);
    let mut w = MainCtrl::default();
    w.set_controller_en(true);
    assert_eq!(MAIN_CONTROLLER_EN, w.0);
    let mut w = MainCtrl::default();
    w.set_host_ndevice(true);
    assert_eq!(MAIN_HOST_NDEVICE, w.0);
    let mut w = MainCtrl::default();
    w.set_phy_iso(true);
    assert_eq!(MAIN_PHY_ISO, w.0);
    let mut w = UsbMuxing::default();
    w.set_to_phy(true);
    assert_eq!(MUX_TO_PHY, w.0);
    let mut w = UsbMuxing::default();
    w.set_softcon(true);
    assert_eq!(MUX_SOFTCON, w.0);
    let mut w = UsbPwr::default();
    w.set_vbus_detect(true);
    assert_eq!(PWR_VBUS_DETECT, w.0);
    let mut w = UsbPwr::default();
    w.set_vbus_detect_override_en(true);
    assert_eq!(PWR_VBUS_DETECT_OVERRIDE_EN, w.0);
}

#[test]
fn reset_bits() {
    let mut w = rp_pac::resets::regs::Peripherals::default();
    w.set_usbctrl(true);
    assert_eq!(reset_bit(Chip::Rp235x), w.0);
    assert_eq!(reset_bit(Chip::Rp2040), 1 << 24);
}

#[test]
fn interrupt_endpoint_bits() {
    for index in 1..16usize {
        let mut w = IntEpCtrl::default();
        w.set_int_ep_active(1 << (index - 1));
        assert_eq!(int_ep_bit(index), w.0);
        assert_eq!(buff_status_bits(index), 0b11 << (index * 2));
    }
}

#[test]
fn modify_clears_then_sets() {
    assert_eq!(modify_word(0xff00, 0x0f00, 0x0101), 0xf101);
    assert_eq!(modify_word(0x1234, 0, 0), 0x1234);
}
