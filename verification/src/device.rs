//! The device descriptor: identity of the hardware the session drives.
//!
//! Loaded once at start and never mutated; the connection state machine
//! filters the enumerated devices against it.
use vstd::prelude::*;

use crate::area::Area;

verus! {

/// USB identity and initialization data of the device.
#[derive(Clone, Debug)]
pub struct Info {
    pub vendor: u16,
    pub product: u16,
    pub usage: u16,
    pub usage_page: u16,
    pub init_features: Vec<u8>,
}

/// The mathematical value of an `Info`.
#[verifier::ext_equal]
pub struct InfoView {
    pub vendor: u16,
    pub product: u16,
    pub usage: u16,
    pub usage_page: u16,
    pub init_features: Seq<u8>,
}

impl View for Info {
    type V = InfoView;

    open spec fn view(&self) -> InfoView {
        InfoView {
            vendor: self.vendor,
            product: self.product,
            usage: self.usage,
            usage_page: self.usage_page,
            init_features: self.init_features@,
        }
    }
}

/// The device descriptor: name, identity, device-space area, and the
/// largest pressure value it reports.
#[derive(Clone, Debug)]
pub struct Device {
    pub name: String,
    pub info: Info,
    pub area: Area,
    pub max_pressure: u16,
}

/// The mathematical value of a `Device`.
#[verifier::ext_equal]
pub struct DeviceView {
    pub name: Seq<char>,
    pub info: InfoView,
    pub area: Area,
    pub max_pressure: u16,
}

impl View for Device {
    type V = DeviceView;

    open spec fn view(&self) -> DeviceView {
        DeviceView {
            name: self.name@,
            info: self.info@,
            area: self.area,
            max_pressure: self.max_pressure,
        }
    }
}

/// Validity of a device descriptor: a nonempty initialization feature
/// report, whose first byte is the report id.
pub open spec fn device_ok(d: DeviceView) -> bool {
    d.info.init_features.len() >= 1
}

impl Info {
    /// Whether an enumerated device entry matches this descriptor.
    pub fn matches(&self, vendor: u16, product: u16, usage: u16, usage_page: u16) -> (r: bool)
        ensures
            r == (self.vendor == vendor && self.product == product && self.usage == usage
                && self.usage_page == usage_page),
    {
        self.vendor == vendor && self.product == product && self.usage == usage && self.usage_page
            == usage_page
    }
}

impl Device {
    /// The report id this device uses: the first initialization byte.
    pub fn report_id(&self) -> (r: u8)
        requires
            device_ok(self@),
        ensures
            r == self@.info.init_features[0],
    {
        self.info.init_features[0]
    }
}

} // verus!
