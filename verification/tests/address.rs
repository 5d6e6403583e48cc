use socket_programming::address::{host_port, ip_version_label, IpFamily, STREAM_PORT};
use socket_programming::chat::CHAT_PORT;

#[test]
fn listen_address_of_the_chat_servers() {
    assert_eq!(host_port("0.0.0.0", CHAT_PORT), "0.0.0.0:9034");
}

#[test]
fn client_address() {
    assert_eq!(host_port("127.0.0.1", STREAM_PORT), "127.0.0.1:3490");
}

#[test]
fn port_edges() {
    assert_eq!(host_port("h", 0), "h:0");
    assert_eq!(host_port("h", 7), "h:7");
    assert_eq!(host_port("h", 10), "h:10");
    assert_eq!(host_port("h", 65535), "h:65535");
    assert_eq!(host_port("", 80), ":80");
}

#[test]
fn family_labels() {
    assert_eq!(ip_version_label(IpFamily::V4), "IPv4");
    assert_eq!(ip_version_label(IpFamily::V6), "IPv6");
}
