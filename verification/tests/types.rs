use embassy_usb_driver::host::pipe::{Direction, In, InOut, Out};
use rp_usb_host::types::{default_timeout, split_to_pre, PipeDirection, Speed, SplitInfo};

#[test]
fn default_budgets() {
    let theirs = embassy_usb_driver::host::TimeoutConfig::default();
    let ours = default_timeout();
    assert_eq!(ours.data_timeout_us, theirs.data_timeout.as_micros());
    assert_eq!(ours.data_timeout_us, 500_000);
    assert_eq!(ours.no_data_timeout_us, 500_000);
    assert_ne!(ours.no_data_timeout_us, theirs.no_data_timeout.as_micros());
}

#[test]
fn preamble_for_low_speed_behind_a_hub() {
    let behind = |device_speed| Some(SplitInfo { hub_addr: 1, port: 2, device_speed });
    assert!(!split_to_pre(None));
    assert!(!split_to_pre(behind(Speed::Full)));
    assert!(split_to_pre(behind(Speed::Low)));
}

#[test]
fn directions_that_carry_out() {
    assert_eq!(PipeDirection::In.is_out(), In::is_out());
    assert_eq!(PipeDirection::Out.is_out(), Out::is_out());
    assert_eq!(PipeDirection::InOut.is_out(), InOut::is_out());
    assert!(!PipeDirection::In.is_out());
    assert!(PipeDirection::Out.is_out());
}
