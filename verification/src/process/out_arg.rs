//! What to output for each packet: which layer, in which textual form,
//! with which protocol aware reshaping, and where to send it.

use vstd::prelude::*;

use crate::process::pro_http::{spec_reconstruct, ProArgHttp};
use crate::text::str_eq;
use vstd::slice::slice_to_vec;

verus! {

/// The textual form of the output.
#[derive(Debug, Clone, Copy, PartialEq, Eq, Structural)]
pub enum OutType {
    /// The bytes themselves.
    Itself,
    /// A decimal byte list.
    Decimal,
    /// A hexadecimal byte list.
    Hexadecimal,
}

/// Which layer of the frame to output, header included.
#[derive(Debug, Clone, Copy, PartialEq, Eq, Structural)]
pub enum OutPro {
    Link,
    Network,
    Transport,
    Application,
}

/// Protocol aware payload reshaping, applied before the textual
/// conversion.
#[derive(Debug, Clone, Copy, PartialEq, Eq, Structural)]
pub enum ProArg {
    /// No reshaping: the bytes pass through unchanged.
    Plain,
    /// HTTP reconstruction with its flags.
    Http(ProArgHttp),
}

/// What each reshaping mode turns a payload into.
pub open spec fn spec_byte_process(p: ProArg, data: Seq<u8>) -> Seq<u8> {
    match p {
        ProArg::Plain => data,
        ProArg::Http(arg) => spec_reconstruct(data, arg),
    }
}

impl ProArg {
    /// Reshape one payload.
    pub fn byte_process(&self, data: &[u8]) -> (out: Vec<u8>)
        requires
            data@.len() + 4 <= usize::MAX,
        ensures
            out@ == spec_byte_process(*self, data@),
    {
        match self {
            ProArg::Plain => slice_to_vec(data),
            ProArg::Http(arg) => arg.byte_process(data),
        }
    }
}

/// The ghost image of an [`OutArg`]: the same choices with the file names
/// as character sequences.
pub struct OutArgView {
    pub out_type: OutType,
    pub out_pro: OutPro,
    pub pro_arg: ProArg,
    pub out_file: Option<Seq<char>>,
    pub pcap_file_name: Option<Seq<char>>,
}

/// Output control: form, layer, reshaping, and destination files.
#[derive(Debug)]
pub struct OutArg {
    /// The textual form of the output.
    pub out_type: OutType,
    /// Which layer of the frame to output.
    pub out_pro: OutPro,
    /// Protocol aware payload reshaping.
    pub pro_arg: ProArg,
    /// When set, write the output to this file instead of the console.
    pub out_file: Option<String>,
    /// When set, write the raw frames to this capture file.
    pub pcap_file_name: Option<String>,
}

impl View for OutArg {
    type V = OutArgView;

    open spec fn view(&self) -> OutArgView {
        OutArgView {
            out_type: self.out_type,
            out_pro: self.out_pro,
            pro_arg: self.pro_arg,
            out_file: match self.out_file {
                Some(ref f) => Some(f@),
                None => None,
            },
            pcap_file_name: match self.pcap_file_name {
                Some(ref f) => Some(f@),
                None => None,
            },
        }
    }
}

/// The default output: the application layer's bytes, untouched.
pub open spec fn spec_default_out_arg() -> OutArgView {
    OutArgView {
        out_type: OutType::Itself,
        out_pro: OutPro::Application,
        pro_arg: ProArg::Plain,
        out_file: None,
        pcap_file_name: None,
    }
}

impl OutArg {
    /// The default output choices.
    pub fn new() -> (r: OutArg)
        ensures
            r@ == spec_default_out_arg(),
    {
        OutArg {
            out_type: OutType::Itself,
            out_pro: OutPro::Application,
            pro_arg: ProArg::Plain,
            out_file: None,
            pcap_file_name: None,
        }
    }

    /// The default output choices with the given reshaping.
    pub fn new_with_pro_arg(pro_arg: ProArg) -> (r: OutArg)
        ensures
            r@ == (OutArgView { pro_arg, ..spec_default_out_arg() }),
    {
        OutArg {
            out_type: OutType::Itself,
            out_pro: OutPro::Application,
            pro_arg,
            out_file: None,
            pcap_file_name: None,
        }
    }
}

/// The output form a command line word names, if any.
pub open spec fn spec_out_type_from_name(name: Seq<char>) -> Option<OutType> {
    if name == "itself"@ {
        Some(OutType::Itself)
    } else if name == "decimal"@ {
        Some(OutType::Decimal)
    } else if name == "hexadecimal"@ {
        Some(OutType::Hexadecimal)
    } else {
        None
    }
}

impl OutType {
    /// The output form a command line word names, if any.
    pub fn from_name(name: &str) -> (r: Option<OutType>)
        ensures
            r == spec_out_type_from_name(name@),
    {
        if str_eq(name, "itself") {
            Some(OutType::Itself)
        } else if str_eq(name, "decimal") {
            Some(OutType::Decimal)
        } else if str_eq(name, "hexadecimal") {
            Some(OutType::Hexadecimal)
        } else {
            None
        }
    }
}

/// The layer a command line word names, if any.
pub open spec fn spec_out_pro_from_name(name: Seq<char>) -> Option<OutPro> {
    if name == "link"@ {
        Some(OutPro::Link)
    } else if name == "network"@ {
        Some(OutPro::Network)
    } else if name == "transport"@ {
        Some(OutPro::Transport)
    } else if name == "application"@ {
        Some(OutPro::Application)
    } else {
        None
    }
}

impl OutPro {
    /// The layer a command line word names, if any.
    pub fn from_name(name: &str) -> (r: Option<OutPro>)
        ensures
            r == spec_out_pro_from_name(name@),
    {
        if str_eq(name, "link") {
            Some(OutPro::Link)
        } else if str_eq(name, "network") {
            Some(OutPro::Network)
        } else if str_eq(name, "transport") {
            Some(OutPro::Transport)
        } else if str_eq(name, "application") {
            Some(OutPro::Application)
        } else {
            None
        }
    }
}

} // verus!
