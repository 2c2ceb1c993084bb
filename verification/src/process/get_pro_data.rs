//! Selecting the bytes of one layer: the frame from that layer's start
//! offset onward, header included.

use vstd::prelude::*;
use vstd::slice::slice_subrange;

use crate::process::out_arg::OutPro;
use crate::PacketInfo;

verus! {

/// The frame from `start` onward, or nothing when `start` lies past the
/// end (a transport header can advertise more bytes than were captured).
pub open spec fn spec_layer_tail(data: Seq<u8>, start: int) -> Seq<u8> {
    if 0 <= start <= data.len() {
        data.skip(start)
    } else {
        Seq::empty()
    }
}

/// The bytes a layer choice selects from a classified frame.
pub open spec fn spec_pro_data(packet_info: PacketInfo, out_pro: OutPro) -> Seq<u8> {
    match out_pro {
        OutPro::Link => spec_layer_tail(packet_info.data@, packet_info.pro_type.link_start as int),
        OutPro::Network => spec_layer_tail(
            packet_info.data@,
            packet_info.pro_type.network_start as int,
        ),
        OutPro::Transport => spec_layer_tail(
            packet_info.data@,
            packet_info.pro_type.transport_start as int,
        ),
        OutPro::Application => spec_layer_tail(
            packet_info.data@,
            packet_info.pro_type.application_start as int,
        ),
    }
}

fn layer_tail(data: &Vec<u8>, start: usize) -> (r: &[u8])
    ensures
        r@ == spec_layer_tail(data@, start as int),
{
    if start <= data.len() {
        slice_subrange(data.as_slice(), start, data.len())
    } else {
        slice_subrange(data.as_slice(), 0, 0)
    }
}

/// The frame from the link layer on: the whole frame.
pub fn link_pro_data(packet_info: &PacketInfo) -> (r: &[u8])
    ensures
        r@ == spec_pro_data(*packet_info, OutPro::Link),
{
    layer_tail(&packet_info.data, packet_info.pro_type.link_start)
}

/// The frame from the network layer on.
pub fn network_pro_data(packet_info: &PacketInfo) -> (r: &[u8])
    ensures
        r@ == spec_pro_data(*packet_info, OutPro::Network),
{
    layer_tail(&packet_info.data, packet_info.pro_type.network_start)
}

/// The frame from the transport layer on.
pub fn transport_pro_data(packet_info: &PacketInfo) -> (r: &[u8])
    ensures
        r@ == spec_pro_data(*packet_info, OutPro::Transport),
{
    layer_tail(&packet_info.data, packet_info.pro_type.transport_start)
}

/// The frame from the application layer on.
pub fn application_pro_data(packet_info: &PacketInfo) -> (r: &[u8])
    ensures
        r@ == spec_pro_data(*packet_info, OutPro::Application),
{
    layer_tail(&packet_info.data, packet_info.pro_type.application_start)
}

/// The bytes of whichever layer was chosen for output.
pub fn get_data_fn<'a>(out_pro: &OutPro, packet_info: &'a PacketInfo) -> (r: &'a [u8])
    ensures
        r@ == spec_pro_data(*packet_info, *out_pro),
{
    match out_pro {
        OutPro::Link => link_pro_data(packet_info),
        OutPro::Network => network_pro_data(packet_info),
        OutPro::Transport => transport_pro_data(packet_info),
        OutPro::Application => application_pro_data(packet_info),
    }
}

} // verus!
