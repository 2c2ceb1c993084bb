//! Reading the capture and output choices from command line words.
//! Each recognized option consumes its value; unknown words are passed
//! over, so the caller may mix in words meant for other readers.

pub mod http_arg;

use vstd::prelude::*;
use vstd::string::StringExecFns;

use crate::listener::filter_arg::{spec_default_filter_arg, FilterArg, FilterArgView};
use crate::process::out_arg::{
    spec_default_out_arg,
    spec_out_pro_from_name,
    spec_out_type_from_name,
    OutArg,
    OutArgView,
    OutPro,
    OutType,
};
use crate::text::{parse_u16, spec_parse_u16, str_eq};
use crate::DumpError;

verus! {

/// The outcome of reading the words from position `i` on: the final
/// choices, or the text of the first complaint.  Every recognized option
/// takes the next word as its value and the reading continues after it;
/// an option at the very end, with no word left for its value, is a
/// complaint, as is a value of the wrong shape.
pub open spec fn spec_read_args(
    args: Seq<Seq<char>>,
    i: int,
    fa: FilterArgView,
    oa: OutArgView,
) -> Result<(FilterArgView, OutArgView), Seq<char>>
    decreases args.len() - i,
{
    if i < 0 || i >= args.len() {
        Ok((fa, oa))
    } else {
        let key = args[i];
        if key == "-i"@ {
            if i + 1 >= args.len() {
                Err("missing value for the device option"@)
            } else {
                spec_read_args(args, i + 2, FilterArgView { device_name: args[i + 1], ..fa }, oa)
            }
        } else if key == "-r"@ {
            if i + 1 >= args.len() {
                Err("missing input file name"@)
            } else {
                spec_read_args(
                    args,
                    i + 2,
                    FilterArgView { file_name: Some(args[i + 1]), ..fa },
                    oa,
                )
            }
        } else if key == "-w"@ {
            if i + 1 >= args.len() {
                Err("missing capture file name"@)
            } else {
                spec_read_args(
                    args,
                    i + 2,
                    fa,
                    OutArgView { pcap_file_name: Some(args[i + 1]), ..oa },
                )
            }
        } else if key == "-p"@ || key == "--port"@ {
            if i + 1 >= args.len() {
                Err("missing value for the port option"@)
            } else {
                match spec_parse_u16(args[i + 1]) {
                    Some(p) => spec_read_args(
                        args,
                        i + 2,
                        FilterArgView { port: Some(p), ..fa },
                        oa,
                    ),
                    None => Err("invalid port, only 0 to 65535 is supported"@),
                }
            }
        } else if key == "--bpf"@ {
            if i + 1 >= args.len() {
                Err("missing value for the BPF filter option"@)
            } else {
                spec_read_args(args, i + 2, FilterArgView { bpf: Some(args[i + 1]), ..fa }, oa)
            }
        } else if key == "-ot"@ || key == "--outType"@ {
            if i + 1 >= args.len() {
                Err("missing value for the output type option"@)
            } else {
                match spec_out_type_from_name(args[i + 1]) {
                    Some(t) => spec_read_args(args, i + 2, fa, OutArgView { out_type: t, ..oa }),
                    None => Err("unsupported output type"@),
                }
            }
        } else if key == "-op"@ || key == "--outPro"@ {
            if i + 1 >= args.len() {
                Err("missing value for the output layer option"@)
            } else {
                match spec_out_pro_from_name(args[i + 1]) {
                    Some(p) => spec_read_args(args, i + 2, fa, OutArgView { out_pro: p, ..oa }),
                    None => Err("unsupported output layer"@),
                }
            }
        } else {
            spec_read_args(args, i + 1, fa, oa)
        }
    }
}

fn missing_value(text: &str) -> (r: DumpError)
    ensures
        r.spec_msg() == text@,
{
    DumpError { msg: String::from_str(text) }
}

/// The device to listen on (`-i`).
pub fn device_name_analy(
    args: &Vec<String>,
    index: usize,
    filter_arg: &mut FilterArg,
    _out_arg: &mut OutArg,
) -> (r: Result<usize, DumpError>)
    requires
        index < args@.len(),
    ensures
        index + 1 < args@.len() ==> (r matches Ok(ni) && ni == index + 2 && final(filter_arg)@ == (
        FilterArgView { device_name: args.deep_view()[index + 1], ..old(filter_arg)@ })
            && final(_out_arg)@ == old(_out_arg)@),
        index + 1 >= args@.len() ==> (r matches Err(e) && e.spec_msg()
            == "missing value for the device option"@ && final(filter_arg)@ == old(filter_arg)@
            && final(_out_arg)@ == old(_out_arg)@),
{
    if args.len() <= index + 1 {
        return Err(missing_value("missing value for the device option"));
    }
    let index = index + 1;
    filter_arg.device_name = args[index].clone();
    Ok(index + 1)
}

/// The capture file to read frames from (`-r`), taking the place of a
/// device.
pub fn in_file_name_analy(
    args: &Vec<String>,
    index: usize,
    filter_arg: &mut FilterArg,
    _out_arg: &mut OutArg,
) -> (r: Result<usize, DumpError>)
    requires
        index < args@.len(),
    ensures
        index + 1 < args@.len() ==> (r matches Ok(ni) && ni == index + 2 && final(filter_arg)@ == (
        FilterArgView { file_name: Some(args.deep_view()[index + 1]), ..old(filter_arg)@ })
            && final(_out_arg)@ == old(_out_arg)@),
        index + 1 >= args@.len() ==> (r matches Err(e) && e.spec_msg()
            == "missing input file name"@ && final(filter_arg)@ == old(filter_arg)@ && final(_out_arg)@ == old(_out_arg)@),
{
    if args.len() <= index + 1 {
        return Err(missing_value("missing input file name"));
    }
    let index = index + 1;
    filter_arg.file_name = Some(args[index].clone());
    Ok(index + 1)
}

/// The port to capture (`-p`, `--port`).
pub fn port_analy(
    args: &Vec<String>,
    index: usize,
    filter_arg: &mut FilterArg,
    _out_arg: &mut OutArg,
) -> (r: Result<usize, DumpError>)
    requires
        index < args@.len(),
    ensures
        index + 1 < args@.len() && spec_parse_u16(args.deep_view()[index + 1]) is Some ==> (r matches Ok(ni) && ni == index + 2 && final(filter_arg)@ == (FilterArgView {
            port: spec_parse_u16(args.deep_view()[index + 1]),
            ..old(filter_arg)@
        }) && final(_out_arg)@ == old(_out_arg)@),
        index + 1 < args@.len() && spec_parse_u16(args.deep_view()[index + 1]) is None ==> (r matches Err(e) && e.spec_msg() == "invalid port, only 0 to 65535 is supported"@
            && final(filter_arg)@ == old(filter_arg)@ && final(_out_arg)@ == old(_out_arg)@),
        index + 1 >= args@.len() ==> (r matches Err(e) && e.spec_msg()
            == "missing value for the port option"@ && final(filter_arg)@ == old(filter_arg)@
            && final(_out_arg)@ == old(_out_arg)@),
{
    if args.len() <= index + 1 {
        return Err(missing_value("missing value for the port option"));
    }
    let index = index + 1;
    let port = parse_u16(args[index].as_str());
    match port {
        Some(p) => {
            filter_arg.port = Some(p);
            Ok(index + 1)
        },
        None => Err(missing_value("invalid port, only 0 to 65535 is supported")),
    }
}

/// An extra capture filter expression (`--bpf`).
pub fn bpf_analy(
    args: &Vec<String>,
    index: usize,
    filter_arg: &mut FilterArg,
    _out_arg: &mut OutArg,
) -> (r: Result<usize, DumpError>)
    requires
        index < args@.len(),
    ensures
        index + 1 < args@.len() ==> (r matches Ok(ni) && ni == index + 2 && final(filter_arg)@ == (
        FilterArgView { bpf: Some(args.deep_view()[index + 1]), ..old(filter_arg)@ }) && final(_out_arg)@ == old(_out_arg)@),
        index + 1 >= args@.len() ==> (r matches Err(e) && e.spec_msg()
            == "missing value for the BPF filter option"@ && final(filter_arg)@ == old(filter_arg)@ && final(_out_arg)@ == old(_out_arg)@),
{
    if args.len() <= index + 1 {
        return Err(missing_value("missing value for the BPF filter option"));
    }
    let index = index + 1;
    filter_arg.bpf = Some(args[index].clone());
    Ok(index + 1)
}

/// Which layer to output (`-op`, `--outPro`).
pub fn out_pro_analy(
    args: &Vec<String>,
    index: usize,
    _filter_arg: &mut FilterArg,
    out_arg: &mut OutArg,
) -> (r: Result<usize, DumpError>)
    requires
        index < args@.len(),
    ensures
        index + 1 < args@.len() && spec_out_pro_from_name(args.deep_view()[index + 1]) is Some
            ==> (r matches Ok(ni) && ni == index + 2 && Some(final(out_arg)@.out_pro)
            == spec_out_pro_from_name(args.deep_view()[index + 1]) && final(out_arg)@ == (
        OutArgView { out_pro: final(out_arg)@.out_pro, ..old(out_arg)@ }) && final(_filter_arg)@
            == old(_filter_arg)@),
        index + 1 < args@.len() && spec_out_pro_from_name(args.deep_view()[index + 1]) is None
            ==> (r matches Err(e) && e.spec_msg() == "unsupported output layer"@ && final(_filter_arg)@ == old(_filter_arg)@ && final(out_arg)@ == old(out_arg)@),
        index + 1 >= args@.len() ==> (r matches Err(e) && e.spec_msg()
            == "missing value for the output layer option"@ && final(_filter_arg)@ == old(_filter_arg)@ && final(out_arg)@ == old(out_arg)@),
{
    if args.len() <= index + 1 {
        return Err(missing_value("missing value for the output layer option"));
    }
    let index = index + 1;
    match OutPro::from_name(args[index].as_str()) {
        Some(out_pro) => {
            out_arg.out_pro = out_pro;
            Ok(index + 1)
        },
        None => Err(missing_value("unsupported output layer")),
    }
}

/// In which textual form to output (`-ot`, `--outType`).
pub fn out_type_analy(
    args: &Vec<String>,
    index: usize,
    _filter_arg: &mut FilterArg,
    out_arg: &mut OutArg,
) -> (r: Result<usize, DumpError>)
    requires
        index < args@.len(),
    ensures
        index + 1 < args@.len() && spec_out_type_from_name(args.deep_view()[index + 1]) is Some
            ==> (r matches Ok(ni) && ni == index + 2 && Some(final(out_arg)@.out_type)
            == spec_out_type_from_name(args.deep_view()[index + 1]) && final(out_arg)@ == (
        OutArgView { out_type: final(out_arg)@.out_type, ..old(out_arg)@ }) && final(_filter_arg)@
            == old(_filter_arg)@),
        index + 1 < args@.len() && spec_out_type_from_name(args.deep_view()[index + 1]) is None
            ==> (r matches Err(e) && e.spec_msg() == "unsupported output type"@ && final(_filter_arg)@ == old(_filter_arg)@ && final(out_arg)@ == old(out_arg)@),
        index + 1 >= args@.len() ==> (r matches Err(e) && e.spec_msg()
            == "missing value for the output type option"@ && final(_filter_arg)@ == old(_filter_arg)@ && final(out_arg)@ == old(out_arg)@),
{
    if args.len() <= index + 1 {
        return Err(missing_value("missing value for the output type option"));
    }
    let index = index + 1;
    match OutType::from_name(args[index].as_str()) {
        Some(out_type) => {
            out_arg.out_type = out_type;
            Ok(index + 1)
        },
        None => Err(missing_value("unsupported output type")),
    }
}

/// The capture file to write raw frames to (`-w`).
pub fn pcap_file_name_analy(
    args: &Vec<String>,
    index: usize,
    _filter_arg: &mut FilterArg,
    out_arg: &mut OutArg,
) -> (r: Result<usize, DumpError>)
    requires
        index < args@.len(),
    ensures
        index + 1 < args@.len() ==> (r matches Ok(ni) && ni == index + 2 && final(out_arg)@ == (
        OutArgView { pcap_file_name: Some(args.deep_view()[index + 1]), ..old(out_arg)@ })
            && final(_filter_arg)@ == old(_filter_arg)@),
        index + 1 >= args@.len() ==> (r matches Err(e) && e.spec_msg()
            == "missing capture file name"@ && final(_filter_arg)@ == old(_filter_arg)@ && final(out_arg)@ == old(out_arg)@),
{
    if args.len() <= index + 1 {
        return Err(missing_value("missing capture file name"));
    }
    let index = index + 1;
    out_arg.pcap_file_name = Some(args[index].clone());
    Ok(index + 1)
}

/// Read the capture and output choices out of the command line words,
/// starting from the defaults; words that name no option are passed
/// over.
pub fn read_arg(args: Vec<String>) -> (r: Result<(FilterArg, OutArg), DumpError>)
    ensures
        match r {
            Ok(p) => spec_read_args(
                args.deep_view(),
                0,
                spec_default_filter_arg(),
                spec_default_out_arg(),
            ) == Ok::<(FilterArgView, OutArgView), Seq<char>>((p.0@, p.1@)),
            Err(e) => spec_read_args(
                args.deep_view(),
                0,
                spec_default_filter_arg(),
                spec_default_out_arg(),
            ) == Err::<(FilterArgView, OutArgView), Seq<char>>(e.spec_msg()),
        },
{
    let mut filter_arg = FilterArg::new();
    let mut out_arg = OutArg::new();
    let ghost dv = args.deep_view();
    let mut index: usize = 0;
    while index < args.len()
        invariant
            0 <= index <= args@.len(),
            dv == args.deep_view(),
            dv.len() == args@.len(),
            spec_read_args(dv, 0, spec_default_filter_arg(), spec_default_out_arg())
                == spec_read_args(dv, index as int, filter_arg@, out_arg@),
        decreases args@.len() - index,
    {
        let ghost fa0 = filter_arg@;
        let ghost oa0 = out_arg@;
        let ghost i0 = index as int;
        proof {
            assert(dv[i0] == args@[i0]@);
        }
        let key = &args[index];
        let step: Result<usize, DumpError> = if str_eq(key.as_str(), "-i") {
            device_name_analy(&args, index, &mut filter_arg, &mut out_arg)
        } else if str_eq(key.as_str(), "-r") {
            in_file_name_analy(&args, index, &mut filter_arg, &mut out_arg)
        } else if str_eq(key.as_str(), "-w") {
            pcap_file_name_analy(&args, index, &mut filter_arg, &mut out_arg)
        } else if str_eq(key.as_str(), "-p") || str_eq(key.as_str(), "--port") {
            port_analy(&args, index, &mut filter_arg, &mut out_arg)
        } else if str_eq(key.as_str(), "--bpf") {
            bpf_analy(&args, index, &mut filter_arg, &mut out_arg)
        } else if str_eq(key.as_str(), "-ot") || str_eq(key.as_str(), "--outType") {
            out_type_analy(&args, index, &mut filter_arg, &mut out_arg)
        } else if str_eq(key.as_str(), "-op") || str_eq(key.as_str(), "--outPro") {
            out_pro_analy(&args, index, &mut filter_arg, &mut out_arg)
        } else {
            Ok(index + 1)
        };
        proof {
            if i0 + 1 < dv.len() {
                assert(dv[i0 + 1] == args@[i0 + 1]@);
            }
        }
        match step {
            Ok(ni) => {
                index = ni;
            },
            Err(e) => {
                return Err(e);
            },
        }
    }
    Ok((filter_arg, out_arg))
}

} // verus!
