use hala::rproxy::profile::ReverseProxyProfile;
use hala::rproxy::tcp::{TcpHandshaker, TcpSslHandshaker};
use hala::rproxy::utils::{clap_parse_duration, clap_parse_ports, sockaddr_arg_split};
use std::time::Duration;

fn std_message(s: &str) -> String {
    s.parse::<u16>().unwrap_err().to_string()
}

#[test]
fn ports_ranges() {
    assert_eq!(clap_parse_ports("80"), Ok(80..81));
    assert_eq!(clap_parse_ports("1000-2000"), Ok(1000..2000));
    assert_eq!(clap_parse_ports("0"), Ok(0..1));
    assert_eq!(clap_parse_ports("65534"), Ok(65534..65535));
    assert_eq!(clap_parse_ports("5-3"), Ok(5..3));
    assert_eq!(clap_parse_ports("+8"), Ok(8..9));
    assert_eq!(clap_parse_ports("1-65535"), Ok(1..65535));
}

#[test]
fn ports_errors_read_as_std() {
    assert_eq!(clap_parse_ports(""), Err(std_message("")));
    assert_eq!(clap_parse_ports("a"), Err(std_message("a")));
    assert_eq!(clap_parse_ports("70000"), Err(std_message("70000")));
    assert_eq!(clap_parse_ports("1-"), Err(std_message("")));
    assert_eq!(clap_parse_ports("x-2"), Err(std_message("x")));
    assert_eq!(clap_parse_ports("+"), Err(std_message("+")));
    assert_eq!(
        clap_parse_ports("1-2-3"),
        Err("Invalid port-range arg, the desired format is `a-b` or `a`".to_string())
    );
}

#[test]
fn sockaddr_splits() {
    assert_eq!(sockaddr_arg_split("localhost:80-90"), Some(9));
    assert_eq!(sockaddr_arg_split("localhost"), None);
    assert_eq!(sockaddr_arg_split("a:b:c"), None);
    assert_eq!(sockaddr_arg_split(":1"), Some(0));
}

#[test]
fn profile_summary() {
    let p = ReverseProxyProfile::default();
    assert_eq!(p.summary(), "ac=0, cc=0, pc=0, fd=0, bd=0");
}

#[test]
fn handshakers_hold_config() {
    let _t = TcpHandshaker::new(String::from("tcp"));
    let _s = TcpSslHandshaker::new(3u8);
}

#[test]
fn duration_arguments() {
    assert_eq!(clap_parse_duration("10s"), Ok(Duration::from_secs(10)));
    assert_eq!(clap_parse_duration("1m"), Ok(Duration::from_secs(60)));
    assert_eq!(clap_parse_duration("1h 30m"), Ok(Duration::from_secs(5400)));
    assert_eq!(clap_parse_duration(""), Err(String::from("Empty input")));
    assert!(clap_parse_duration("ten seconds").is_err());
}
