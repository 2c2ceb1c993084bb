//! Reading the HTTP output flags from command line words: hide the
//! header section, hide the body, or output the bytes raw.

use vstd::prelude::*;

use crate::process::pro_http::ProArgHttp;
use crate::text::str_eq;
use crate::DumpError;

verus! {

/// What one command line word does to the HTTP flags: an unknown word
/// changes nothing.
pub open spec fn spec_http_arg_step(key: Seq<char>, arg: ProArgHttp) -> ProArgHttp {
    if key == "-http.hh"@ || key == "--http.hideHead"@ {
        ProArgHttp { head_show: false, ..arg }
    } else if key == "-http.hb"@ || key == "--http.hideBody"@ {
        ProArgHttp { body_show: false, ..arg }
    } else if key == "-http.it"@ || key == "--http.itself"@ {
        ProArgHttp { itself: true, ..arg }
    } else {
        arg
    }
}

/// The HTTP flags after reading the words from position `i` on.
pub open spec fn spec_http_args(args: Seq<Seq<char>>, i: int, arg: ProArgHttp) -> ProArgHttp
    decreases args.len() - i,
{
    if i < 0 || i >= args.len() {
        arg
    } else {
        spec_http_args(args, i + 1, spec_http_arg_step(args[i], arg))
    }
}

/// Hide the header section.
pub fn hide_head_analy(_args: &Vec<String>, index: usize, pro_arg: &mut ProArgHttp) -> (r: Result<
    usize,
    DumpError,
>)
    requires
        index < usize::MAX,
    ensures
        r matches Ok(i) && i == index + 1,
        *final(pro_arg) == (ProArgHttp { head_show: false, ..*old(pro_arg) }),
{
    pro_arg.head_show = false;
    Ok(index + 1)
}

/// Hide the body.
pub fn hide_body_analy(_args: &Vec<String>, index: usize, pro_arg: &mut ProArgHttp) -> (r: Result<
    usize,
    DumpError,
>)
    requires
        index < usize::MAX,
    ensures
        r matches Ok(i) && i == index + 1,
        *final(pro_arg) == (ProArgHttp { body_show: false, ..*old(pro_arg) }),
{
    pro_arg.body_show = false;
    Ok(index + 1)
}

/// Output the bytes raw.
pub fn out_itself_analy(_args: &Vec<String>, index: usize, pro_arg: &mut ProArgHttp) -> (r: Result<
    usize,
    DumpError,
>)
    requires
        index < usize::MAX,
    ensures
        r matches Ok(i) && i == index + 1,
        *final(pro_arg) == (ProArgHttp { itself: true, ..*old(pro_arg) }),
{
    pro_arg.itself = true;
    Ok(index + 1)
}

/// Read the HTTP output flags out of the command line words, starting
/// from the defaults; words that name no flag are passed over.  Reading
/// the flags never fails.
pub fn read_arg(args: &Vec<String>) -> (r: Result<ProArgHttp, DumpError>)
    ensures
        r matches Ok(p) && p == spec_http_args(
            args.deep_view(),
            0,
            ProArgHttp { head_show: true, body_show: true, itself: false },
        ),
{
    let mut pro_arg = ProArgHttp::new();
    let ghost dv = args.deep_view();
    let ghost init = pro_arg;
    let mut index: usize = 0;
    while index < args.len()
        invariant
            0 <= index <= args@.len(),
            dv == args.deep_view(),
            dv.len() == args@.len(),
            spec_http_args(dv, 0, init) == spec_http_args(dv, index as int, pro_arg),
            init == (ProArgHttp { head_show: true, body_show: true, itself: false }),
        decreases args@.len() - index,
    {
        let ghost arg0 = pro_arg;
        let key = &args[index];
        proof {
            assert(dv[index as int] == args@[index as int]@);
        }
        if str_eq(key.as_str(), "-http.hh") || str_eq(key.as_str(), "--http.hideHead") {
            index = hide_head_analy(args, index, &mut pro_arg)?;
        } else if str_eq(key.as_str(), "-http.hb") || str_eq(key.as_str(), "--http.hideBody") {
            index = hide_body_analy(args, index, &mut pro_arg)?;
        } else if str_eq(key.as_str(), "-http.it") || str_eq(key.as_str(), "--http.itself") {
            index = out_itself_analy(args, index, &mut pro_arg)?;
        } else {
            index += 1;
        }
        proof {
            assert(pro_arg == spec_http_arg_step(dv[index - 1], arg0));
        }
    }
    Ok(pro_arg)
}

} // verus!
