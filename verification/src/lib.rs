//! Layered protocol classifier and HTTP message reconstructor.
//!
//! Given the raw bytes of one captured network frame and a hint about the
//! capture medium, [`analyze::classify`] locates the link, network, transport
//! and application layer headers, degrading gracefully on truncated or
//! unrecognized input.  For frames whose payload looks like HTTP,
//! [`process::pro_http::ProArgHttp::byte_process`] rebuilds a presentable
//! copy of the HTTP message.  Capture, filtering at the device, threading and
//! final output live outside this crate.

pub mod analyze;
pub mod dump_arg;
pub mod listener;
pub mod process;
pub mod text;

pub use listener::filter_arg::FilterArg;
pub use process::out_arg::OutArg;

use vstd::prelude::*;

verus! {

/// Error produced while reading command line style arguments.
#[derive(Debug, Clone)]
pub struct DumpError {
    msg: String,
}

impl DumpError {
    /// The human readable description of the error.
    pub fn message(&self) -> (m: &str)
        ensures
            m@ == self.spec_msg(),
    {
        self.msg.as_str()
    }

    /// The description of the error, as a sequence of characters.
    pub closed spec fn spec_msg(&self) -> Seq<char> {
        self.msg@
    }
}

/// One captured frame together with its classification.
#[derive(Debug)]
pub struct PacketInfo {
    /// Where each layer begins in `data` and how long its header is.
    pub pro_type: analyze::ProType,
    /// The raw bytes of the frame.
    pub data: Vec<u8>,
}

impl PacketInfo {
    /// The classification's spans all lie inside the frame.
    pub open spec fn wf(&self) -> bool {
        self.pro_type.wf(self.data@.len() as int)
    }

    /// Classify one captured frame.
    pub fn new(data: Vec<u8>, hint: analyze::LinkTypeHint) -> (r: PacketInfo)
        requires
            data@.len() + 64 <= usize::MAX,
        ensures
            r.data == data,
            r.pro_type == analyze::spec_classify(data@, hint),
            r.wf(),
    {
        let pro_type = analyze::classify(data.as_slice(), hint);
        PacketInfo { pro_type, data }
    }
}

} // verus!
