use http_dump::analyze::{classify, ApplicationPro, LinkTypeHint};
use http_dump::dump_arg::{http_arg, read_arg};
use http_dump::listener::filter;
use http_dump::process::change_data::{u8_to_10, u8_to_16};
use http_dump::process::get_pro_data::{application_pro_data, get_data_fn};
use http_dump::process::out_arg::{OutArg, OutPro, OutType, ProArg};
use http_dump::process::pro_http::ProArgHttp;
use http_dump::process::process;
use http_dump::{FilterArg, PacketInfo};

fn words(args: &[&str]) -> Vec<String> {
    args.iter().map(|s| s.to_string()).collect()
}

#[test]
fn defaults_without_arguments() {
    let (fa, oa) = read_arg(Vec::new()).unwrap();
    assert_eq!(fa.device_name, "any");
    assert!(fa.file_name.is_none());
    assert!(matches!(fa.application_pro, Some(ApplicationPro::HTTP)));
    assert_eq!(fa.port, Some(80));
    assert!(fa.bpf.is_none());
    assert_eq!(fa.timeout, 200);
    assert!(matches!(oa.out_type, OutType::Itself));
    assert!(matches!(oa.out_pro, OutPro::Application));
    assert!(matches!(oa.pro_arg, ProArg::Plain));
    assert!(oa.out_file.is_none());
    assert!(oa.pcap_file_name.is_none());
}

#[test]
fn device_port_and_bpf_are_read() {
    let (fa, _) = read_arg(words(&["-i", "en0", "--port", "8080", "--bpf", "host 1.2.3.4"]))
        .unwrap();
    assert_eq!(fa.device_name, "en0");
    assert_eq!(fa.port, Some(8080));
    assert_eq!(fa.bpf.as_deref(), Some("host 1.2.3.4"));
}

#[test]
fn output_options_are_read() {
    let (_, oa) = read_arg(words(&["-ot", "hexadecimal", "-op", "link", "-w", "cap.pcap"]))
        .unwrap();
    assert!(matches!(oa.out_type, OutType::Hexadecimal));
    assert!(matches!(oa.out_pro, OutPro::Link));
    assert_eq!(oa.pcap_file_name.as_deref(), Some("cap.pcap"));
}

#[test]
fn input_file_is_read() {
    let (fa, _) = read_arg(words(&["-r", "input.pcap"])).unwrap();
    assert_eq!(fa.file_name.as_deref(), Some("input.pcap"));
}

#[test]
fn unknown_words_are_passed_over() {
    let (fa, _) = read_arg(words(&["mystery", "-i", "lo0", "trailing"])).unwrap();
    assert_eq!(fa.device_name, "lo0");
}

#[test]
fn option_without_value_is_refused() {
    let e = read_arg(words(&["-i"])).unwrap_err();
    assert_eq!(e.message(), "missing value for the device option");
    let e = read_arg(words(&["-r"])).unwrap_err();
    assert_eq!(e.message(), "missing input file name");
    let e = read_arg(words(&["-w"])).unwrap_err();
    assert_eq!(e.message(), "missing capture file name");
    let e = read_arg(words(&["-p"])).unwrap_err();
    assert_eq!(e.message(), "missing value for the port option");
    let e = read_arg(words(&["--bpf"])).unwrap_err();
    assert_eq!(e.message(), "missing value for the BPF filter option");
    let e = read_arg(words(&["-ot"])).unwrap_err();
    assert_eq!(e.message(), "missing value for the output type option");
    let e = read_arg(words(&["-op"])).unwrap_err();
    assert_eq!(e.message(), "missing value for the output layer option");
}

#[test]
fn bad_values_are_refused() {
    let e = read_arg(words(&["-p", "70000"])).unwrap_err();
    assert_eq!(e.message(), "invalid port, only 0 to 65535 is supported");
    let e = read_arg(words(&["-p", "80x"])).unwrap_err();
    assert_eq!(e.message(), "invalid port, only 0 to 65535 is supported");
    let e = read_arg(words(&["-ot", "octal"])).unwrap_err();
    assert_eq!(e.message(), "unsupported output type");
    let e = read_arg(words(&["-op", "session"])).unwrap_err();
    assert_eq!(e.message(), "unsupported output layer");
}

#[test]
fn port_accepts_a_plus_sign_and_leading_zeroes() {
    let (fa, _) = read_arg(words(&["-p", "+00443"])).unwrap();
    assert_eq!(fa.port, Some(443));
}

#[test]
fn http_flags_are_read() {
    let p = http_arg::read_arg(&words(&["--http.hideHead", "-http.it", "noise"])).unwrap();
    assert!(!p.head_show);
    assert!(p.body_show);
    assert!(p.itself);
    let p = http_arg::read_arg(&words(&["-http.hb"])).unwrap();
    assert!(p.head_show);
    assert!(!p.body_show);
    assert!(!p.itself);
}

#[test]
fn from_name_rejects_unknown_words() {
    assert!(OutType::from_name("decimal").is_some());
    assert!(OutType::from_name("Decimal").is_none());
    assert!(OutPro::from_name("transport").is_some());
    assert!(OutPro::from_name("").is_none());
}

#[test]
fn decimal_rendering_matches_debug_form() {
    assert_eq!(u8_to_10(&[]), b"[]".to_vec());
    assert_eq!(u8_to_10(&[0]), b"[0]".to_vec());
    assert_eq!(u8_to_10(&[7, 42, 250]), b"[7, 42, 250]".to_vec());
}

#[test]
fn hexadecimal_rendering_is_uppercase_two_digit() {
    assert_eq!(u8_to_16(&[]), b"[]".to_vec());
    assert_eq!(u8_to_16(&[0, 10, 255]), b"[0x00, 0x0A, 0xFF]".to_vec());
}

fn http_frame() -> Vec<u8> {
    let mut frame = vec![0u8; 14];
    frame[12] = 0x08;
    frame[13] = 0x00;
    let mut ipv4 = vec![0u8; 20];
    ipv4[0] = 0x45;
    ipv4[9] = 0x06;
    let mut tcp = vec![0u8; 20];
    tcp[12] = 0x50;
    frame.extend_from_slice(&ipv4);
    frame.extend_from_slice(&tcp);
    frame.extend_from_slice(b"GET / HTTP/1.1\r\nHost: x\r\n\r\nbody");
    frame
}

#[test]
fn filter_keeps_only_the_requested_protocol() {
    let fa = FilterArg::new();
    let http = classify(&http_frame(), LinkTypeHint::Ethernet);
    assert!(filter(&fa, &http));
    let other = classify(&[0u8; 20], LinkTypeHint::Ethernet);
    assert!(!filter(&fa, &other));
    let mut open = FilterArg::new();
    open.application_pro = None;
    assert!(filter(&open, &other));
}

#[test]
fn layer_slices_start_at_the_layer_offsets() {
    let info = PacketInfo::new(http_frame(), LinkTypeHint::Ethernet);
    assert_eq!(get_data_fn(&OutPro::Link, &info), &http_frame()[..]);
    assert_eq!(get_data_fn(&OutPro::Network, &info), &http_frame()[14..]);
    assert_eq!(get_data_fn(&OutPro::Transport, &info), &http_frame()[34..]);
    assert_eq!(
        application_pro_data(&info),
        b"GET / HTTP/1.1\r\nHost: x\r\n\r\nbody"
    );
}

#[test]
fn process_composes_slice_reshape_and_render() {
    let info = PacketInfo::new(http_frame(), LinkTypeHint::Ethernet);
    let mut oa = OutArg::new_with_pro_arg(ProArg::Http(ProArgHttp {
        head_show: false,
        body_show: true,
        itself: true,
    }));
    assert_eq!(process(&oa, &info), b"body".to_vec());
    oa.out_type = OutType::Decimal;
    assert_eq!(process(&oa, &info), b"[98, 111, 100, 121]".to_vec());
}
