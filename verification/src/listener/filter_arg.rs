//! What to capture and keep: device or input file, port, extra filter
//! expression, and the application protocol a frame must carry.

use vstd::prelude::*;

use crate::analyze::ApplicationPro;
use vstd::string::StringExecFns;

verus! {

/// The ghost image of a [`FilterArg`]: the same choices with the names as
/// character sequences.
pub struct FilterArgView {
    pub device_name: Seq<char>,
    pub file_name: Option<Seq<char>>,
    pub application_pro: Option<ApplicationPro>,
    pub port: Option<u16>,
    pub bpf: Option<Seq<char>>,
    pub timeout: i32,
}

/// Capture and filter choices.
#[derive(Debug)]
pub struct FilterArg {
    /// The device to listen on; `any` stands for every device.
    pub device_name: String,
    /// When set, read frames from this capture file instead of a device.
    pub file_name: Option<String>,
    /// When set, keep only frames whose application layer carries this
    /// protocol.
    pub application_pro: Option<ApplicationPro>,
    /// When set, capture only this port.
    pub port: Option<u16>,
    /// An extra capture filter expression, in the capture library's own
    /// filter language.
    pub bpf: Option<String>,
    /// How long one read from the device may block, in milliseconds.
    pub timeout: i32,
}

impl View for FilterArg {
    type V = FilterArgView;

    open spec fn view(&self) -> FilterArgView {
        FilterArgView {
            device_name: self.device_name@,
            file_name: match self.file_name {
                Some(ref f) => Some(f@),
                None => None,
            },
            application_pro: self.application_pro,
            port: self.port,
            bpf: match self.bpf {
                Some(ref f) => Some(f@),
                None => None,
            },
            timeout: self.timeout,
        }
    }
}

/// The default capture: every device, HTTP traffic on port 80, with a
/// 200 millisecond read timeout.
pub open spec fn spec_default_filter_arg() -> FilterArgView {
    FilterArgView {
        device_name: "any"@,
        file_name: None,
        application_pro: Some(ApplicationPro::HTTP),
        port: Some(80u16),
        bpf: None,
        timeout: 200,
    }
}

impl FilterArg {
    /// The default capture choices.
    pub fn new() -> (r: FilterArg)
        ensures
            r@ == spec_default_filter_arg(),
    {
        let filter_arg = FilterArg {
            device_name: String::from_str("any"),
            file_name: None,
            application_pro: Some(ApplicationPro::HTTP),
            port: Some(80),
            bpf: None,
            timeout: 200,
        };
        filter_arg
    }
}

} // verus!
