//! Per packet data processing: selecting a layer's bytes, protocol aware
//! reshaping of the payload, and conversion to a printable form.

pub mod change_data;
pub mod get_pro_data;
pub mod out_arg;
pub mod pro_http;

use vstd::prelude::*;

use crate::process::change_data::{change_data_fn, spec_change_data};
use crate::process::get_pro_data::{get_data_fn, spec_pro_data};
use crate::process::out_arg::{spec_byte_process, OutArg};
use crate::PacketInfo;

verus! {

/// What one frame's output is: the chosen layer's bytes, reshaped by the
/// protocol handling, rendered in the chosen textual form.
pub open spec fn spec_process(out_arg: OutArg, packet_info: PacketInfo) -> Seq<u8> {
    spec_change_data(
        out_arg.out_type,
        spec_byte_process(out_arg.pro_arg, spec_pro_data(packet_info, out_arg.out_pro)),
    )
}

/// Turn one classified frame into its output bytes.
pub fn process(out_arg: &OutArg, packet_info: &PacketInfo) -> (out: Vec<u8>)
    requires
        packet_info.data@.len() + 4 <= usize::MAX,
    ensures
        out@ == spec_process(*out_arg, *packet_info),
{
    let data = get_data_fn(&out_arg.out_pro, packet_info);
    let data = out_arg.pro_arg.byte_process(data);
    let data = change_data_fn(&out_arg.out_type, data.as_slice());
    data
}

} // verus!
