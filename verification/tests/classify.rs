use http_dump::analyze::{
    classify, ApplicationPro, LinkPro, LinkTypeHint, NetworkPro, TransportPro,
};

/// A well formed Ethernet + IPv4 + TCP frame carrying `payload`, with an
/// IHL of five words and a TCP data offset of five words.
fn ethernet_tcp_frame(payload: &[u8]) -> Vec<u8> {
    let mut frame = vec![0u8; 14];
    frame[12] = 0x08;
    frame[13] = 0x00;
    let mut ipv4 = vec![0u8; 20];
    ipv4[0] = 0x45;
    ipv4[9] = 0x06;
    let mut tcp = vec![0u8; 20];
    tcp[12] = 0x50;
    frame.extend_from_slice(&ipv4);
    frame.extend_from_slice(&tcp);
    frame.extend_from_slice(payload);
    frame
}

#[test]
fn empty_frame_resolves_nothing() {
    for hint in [
        LinkTypeHint::NoLinkLayer,
        LinkTypeHint::LoopbackAddress,
        LinkTypeHint::Ethernet,
        LinkTypeHint::Unsupported,
    ] {
        let r = classify(&[], hint);
        assert!(matches!(r.link_pro, LinkPro::Unsupported));
        assert_eq!(r.link_start, 0);
        assert_eq!(r.link_head_len, 0);
        assert!(matches!(r.network_pro, NetworkPro::Unsupported));
        assert_eq!(r.network_start, 0);
        assert_eq!(r.network_head_len, 0);
        assert!(matches!(r.transport_pro, TransportPro::Unsupported));
        assert_eq!(r.transport_start, 0);
        assert_eq!(r.transport_head_len, 0);
        assert!(matches!(r.application_pro, ApplicationPro::Unsupported));
        assert_eq!(r.application_start, 0);
    }
}

#[test]
fn truncated_ethernet_link_is_unsupported() {
    // 13 bytes cannot hold an Ethernet header.
    let r = classify(&[0u8; 13], LinkTypeHint::Ethernet);
    assert!(matches!(r.link_pro, LinkPro::Unsupported));
    assert_eq!(r.link_head_len, 0);
}

#[test]
fn truncated_loopback_link_is_unsupported() {
    let r = classify(&[2, 0, 0], LinkTypeHint::LoopbackAddress);
    assert!(matches!(r.link_pro, LinkPro::Unsupported));
    assert_eq!(r.link_head_len, 0);
}

#[test]
fn loopback_link_spans_four_bytes() {
    let mut frame = vec![2u8, 0, 0, 0];
    frame.push(0x45);
    frame.extend_from_slice(&[0u8; 19]);
    let r = classify(&frame, LinkTypeHint::LoopbackAddress);
    assert!(matches!(r.link_pro, LinkPro::LoopbackAddress));
    assert_eq!(r.link_head_len, 4);
    // The sniffed network layer accepts the IPv4 shape behind it.
    assert!(matches!(r.network_pro, NetworkPro::IPv4));
    assert_eq!(r.network_start, 4);
    assert_eq!(r.network_head_len, 20);
}

#[test]
fn ethernet_ipv4_offsets() {
    let frame = ethernet_tcp_frame(b"");
    let r = classify(&frame, LinkTypeHint::Ethernet);
    assert!(matches!(r.link_pro, LinkPro::Ethernet));
    assert_eq!(r.link_head_len, 14);
    assert!(matches!(r.network_pro, NetworkPro::IPv4));
    assert_eq!(r.network_start, 14);
    assert_eq!(r.network_head_len, 20);
}

#[test]
fn ethernet_other_ethertype_is_unsupported() {
    let mut frame = ethernet_tcp_frame(b"");
    frame[12] = 0x86;
    frame[13] = 0xdd;
    let r = classify(&frame, LinkTypeHint::Ethernet);
    assert!(matches!(r.network_pro, NetworkPro::Unsupported));
    assert_eq!(r.network_start, 14);
    assert_eq!(r.network_head_len, 0);
    // Downstream layers stay anchored at the same boundary.
    assert!(matches!(r.transport_pro, TransportPro::Unsupported));
    assert_eq!(r.transport_start, 14);
    assert_eq!(r.application_start, 14);
}

#[test]
fn ipv4_tcp_header_length_from_data_offset() {
    let mut frame = ethernet_tcp_frame(b"");
    // Data offset nibble 7: a 28 byte TCP header advertised.
    frame[14 + 20 + 12] = 0x70;
    let r = classify(&frame, LinkTypeHint::Ethernet);
    assert!(matches!(r.transport_pro, TransportPro::TCP));
    assert_eq!(r.transport_start, 34);
    assert_eq!(r.transport_head_len, 28);
    assert_eq!(r.application_start, 62);
    // The advertised header runs past the capture: nothing resolves there.
    assert!(matches!(r.application_pro, ApplicationPro::Unsupported));
}

#[test]
fn ipv4_non_tcp_protocol_is_unsupported() {
    let mut frame = ethernet_tcp_frame(b"");
    frame[14 + 9] = 0x11; // UDP
    let r = classify(&frame, LinkTypeHint::Ethernet);
    assert!(matches!(r.transport_pro, TransportPro::Unsupported));
    assert_eq!(r.transport_start, 34);
    assert_eq!(r.transport_head_len, 0);
}

#[test]
fn truncated_tcp_is_unsupported() {
    let mut frame = ethernet_tcp_frame(b"");
    frame.truncate(14 + 20 + 19);
    let r = classify(&frame, LinkTypeHint::Ethernet);
    assert!(matches!(r.network_pro, NetworkPro::IPv4));
    assert!(matches!(r.transport_pro, TransportPro::Unsupported));
    assert_eq!(r.transport_start, 34);
    assert_eq!(r.transport_head_len, 0);
}

#[test]
fn http_request_payload_is_detected() {
    let frame = ethernet_tcp_frame(b"GET / HTTP/1.1\r\n\r\n");
    let r = classify(&frame, LinkTypeHint::Ethernet);
    assert!(matches!(r.transport_pro, TransportPro::TCP));
    assert_eq!(r.application_start, 54);
    assert!(matches!(r.application_pro, ApplicationPro::HTTP));
}

#[test]
fn http_response_payload_is_detected() {
    let frame = ethernet_tcp_frame(b"HTTP/1.1 200 OK\r\n\r\n");
    let r = classify(&frame, LinkTypeHint::Ethernet);
    assert!(matches!(r.application_pro, ApplicationPro::HTTP));
}

#[test]
fn every_method_prefix_is_detected() {
    for payload in [
        &b"GET /"[..],
        b"POST /",
        b"PUT /",
        b"DELETE /",
        b"HEAD /",
        b"OPTIONS /",
        b"PATCH /",
        b"CONNECT h",
        b"TRACE /",
        b"HTTP/1.1",
    ] {
        let frame = ethernet_tcp_frame(payload);
        let r = classify(&frame, LinkTypeHint::Ethernet);
        assert!(matches!(r.application_pro, ApplicationPro::HTTP));
    }
}

#[test]
fn method_prefixes_are_case_sensitive() {
    let frame = ethernet_tcp_frame(b"get / HTTP/1.1");
    let r = classify(&frame, LinkTypeHint::Ethernet);
    assert!(matches!(r.application_pro, ApplicationPro::Unsupported));
}

#[test]
fn non_http_payload_is_unsupported() {
    let frame = ethernet_tcp_frame(b"SSH-2.0-OpenSSH\r\n");
    let r = classify(&frame, LinkTypeHint::Ethernet);
    assert!(matches!(r.application_pro, ApplicationPro::Unsupported));
}

#[test]
fn no_link_layer_guesses_ipv4_at_offset_zero() {
    let mut frame = vec![0x45u8];
    frame.extend_from_slice(&[0u8; 19]);
    let r = classify(&frame, LinkTypeHint::NoLinkLayer);
    assert!(matches!(r.link_pro, LinkPro::NotHave));
    assert_eq!(r.link_head_len, 0);
    assert!(matches!(r.network_pro, NetworkPro::IPv4));
    assert_eq!(r.network_start, 0);
    assert_eq!(r.network_head_len, 20);
}

#[test]
fn guess_rejects_wrong_version_nibble() {
    let mut frame = vec![0x60u8];
    frame.extend_from_slice(&[0u8; 39]);
    let r = classify(&frame, LinkTypeHint::NoLinkLayer);
    assert!(matches!(r.network_pro, NetworkPro::Unsupported));
    assert_eq!(r.network_head_len, 0);
}

#[test]
fn guess_rejects_truncated_advertised_header() {
    // Version nibble 4, IHL 15: a 60 byte header advertised in 20 bytes.
    let mut frame = vec![0x4fu8];
    frame.extend_from_slice(&[0u8; 19]);
    let r = classify(&frame, LinkTypeHint::NoLinkLayer);
    assert!(matches!(r.network_pro, NetworkPro::Unsupported));
}

#[test]
fn unsupported_hint_still_sniffs_ipv4() {
    let mut frame = vec![0x45u8];
    frame.extend_from_slice(&[0u8; 19]);
    let r = classify(&frame, LinkTypeHint::Unsupported);
    assert!(matches!(r.link_pro, LinkPro::Unsupported));
    assert!(matches!(r.network_pro, NetworkPro::IPv4));
    assert_eq!(r.network_start, 0);
}
