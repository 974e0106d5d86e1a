//! Values that pass between the driver and its callers.

use vstd::prelude::*;

verus! {

/// Controller variant.
#[derive(Clone, Copy, PartialEq, Eq, Structural, Debug)]
pub enum Chip {
    /// Stops EPX by watching frame boundaries.
    Rp2040,
    /// Stops EPX at its next NAK in hardware.
    Rp235x,
}

/// USB transfer type of an endpoint.
#[derive(Clone, Copy, PartialEq, Eq, Structural, Debug)]
pub enum EndpointType {
    Control,
    Isochronous,
    Bulk,
    Interrupt,
}

/// Directions that a pipe carries.
#[derive(Clone, Copy, PartialEq, Eq, Structural, Debug)]
pub enum PipeDirection {
    In,
    Out,
    InOut,
}

impl PipeDirection {
    /// Whether the pipe carries data to the device.
    pub open spec fn spec_is_out(self) -> bool {
        self != PipeDirection::In
    }

    /// Whether the pipe carries data to the device.
    #[verifier::when_used_as_spec(spec_is_out)]
    pub fn is_out(self) -> (r: bool)
        ensures
            r == self.is_out(),
    {
        match self {
            PipeDirection::In => false,
            PipeDirection::Out => true,
            PipeDirection::InOut => true,
        }
    }
}

/// Speed of a device on the root port.
#[derive(Clone, Copy, PartialEq, Eq, Structural, Debug)]
pub enum Speed {
    Low,
    Full,
}

/// A device behind a hub: the hub, the port on it and the speed of the device.
#[derive(Clone, Copy, PartialEq, Eq, Structural, Debug)]
pub struct SplitInfo {
    pub hub_addr: u8,
    pub port: u8,
    pub device_speed: Speed,
}

/// What a pipe has to know of its endpoint.
#[derive(Clone, Copy, PartialEq, Eq, Structural, Debug)]
pub struct EndpointInfo {
    /// Endpoint address: the number in the low bits, the direction in the top bit.
    pub addr: u8,
    pub ep_type: EndpointType,
    pub max_packet_size: u16,
    pub interval_ms: u8,
}

/// Why a transfer ended early.
#[derive(Clone, Copy, PartialEq, Eq, Structural, Debug)]
pub enum PipeError {
    BufferOverflow,
    BadResponse,
    DataToggleError,
    Canceled,
    Stall,
    Timeout,
}

/// Why no pipe was allocated.
#[derive(Clone, Copy, PartialEq, Eq, Structural, Debug)]
pub enum HostError {
    InvalidDescriptor,
    OutOfPipes,
    InsufficientMemory,
}

/// Attach or detach on the root port.
#[derive(Clone, Copy, PartialEq, Eq, Structural, Debug)]
pub enum DeviceEvent {
    Connected(Speed),
    Disconnected,
}

/// Control response budgets, in microseconds.
#[derive(Clone, Copy, PartialEq, Eq, Structural, Debug)]
pub struct TimeoutConfig {
    /// For transactions of a request with a data stage.
    pub data_timeout_us: u128,
    /// For transactions of a request without a data stage.
    pub no_data_timeout_us: u128,
}

/// The data-stage budget of `embassy_usb_driver::host::TimeoutConfig::default()`, in
/// microseconds. Trusted: the default is 500 ms.
#[verifier::external_body]
fn default_data_timeout_us() -> (us: u128)
    ensures
        us == 500_000,
{
    embassy_usb_driver::host::TimeoutConfig::default().data_timeout.as_micros()
}

/// Default control timeout: half a second with or without a data stage, because devices may
/// overrun the USB 2.0 §9.2.6.4 response requirement while configuring.
pub fn default_timeout() -> (timeout: TimeoutConfig)
    ensures
        timeout.data_timeout_us == 500_000,
        timeout.no_data_timeout_us == 500_000,
{
    TimeoutConfig { data_timeout_us: default_data_timeout_us(), no_data_timeout_us: 500_000 }
}

/// Whether transfers need the legacy PRE packet. USB 1.1 §11.8.6: PRE is required when the
/// target device is low-speed and reached through a full-speed hub.
pub fn split_to_pre(split: Option<SplitInfo>) -> (pre: bool)
    ensures
        pre <==> split is Some && split->0.device_speed == Speed::Low,
{
    match split {
        Some(s) => s.device_speed == Speed::Low,
        None => false,
    }
}

} // verus!
