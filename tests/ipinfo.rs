use wanstat::{parse_conn_ipinfo, parse_ipinfo, IPInfo, IpAddress, Json, ParseError};

fn text(s: &str) -> Json {
    Json::Str(s.to_string())
}

fn entries(items: Vec<(&str, Json)>) -> Vec<(String, Json)> {
    items.into_iter().map(|(k, v)| (k.to_string(), v)).collect()
}

fn sample_ipinfo() -> Vec<(String, Json)> {
    entries(vec![
        ("gateway", text("192.168.1.1")),
        ("ip_address", text("192.168.1.9")),
        ("netmask", text("255.255.255.0")),
        ("dnslist", Json::Array(vec![text("192.168.1.1")])),
    ])
}

#[test]
fn test_parse_ipinfo() {
    let j = entries(vec![("ipinfo", Json::Object(sample_ipinfo()))]);
    let inner = match &j[0].1 {
        Json::Object(o) => o,
        _ => panic!("ipinfo is an object"),
    };
    let ipinfo: IPInfo = parse_ipinfo(inner).expect("failed to parse");
    println!("parsed ipinfo={}", ipinfo.to_string());
    assert_eq!(ipinfo.ip_address.is_ipv4(), true);
    assert_eq!(ipinfo.ip_address.to_string(), "192.168.1.9");
    assert_eq!(ipinfo.gateway.to_string(), "192.168.1.1");
    assert_eq!(ipinfo.netmask.to_string(), "255.255.255.0");
    assert_eq!(ipinfo.dnslist.len(), 1);
}

#[test]
fn test_parse_2ipinfo_conn() {
    let ipinfo = entries(vec![
        ("gateway", text("172.16.253.1")),
        ("ip_address", text("172.16.253.42")),
        ("netmask", text("255.255.255.0")),
        ("dnslist", Json::Array(vec![text("172.16.253.1"), text("8.8.8.8")])),
    ]);
    let conn = entries(vec![
        ("name", text("DHCP")),
        ("enabled", Json::Bool(true)),
        ("traits", Json::Array(vec![text("ip")])),
        ("state", text("connected")),
        ("ipinfo", Json::Object(ipinfo)),
        ("ip6info", Json::Null),
        ("exception", Json::Null),
        ("timeout", Json::Null),
        ("dhclient_state", text("STARTED")),
    ]);
    let ipi = parse_conn_ipinfo(&conn).expect("failed to parse 2");
    println!("parsed ipinfo={}", ipi.to_string());
    assert_eq!(
        ipi.to_string(),
        "ip=172.16.253.42 sm=255.255.255.0 gw=172.16.253.1 dns=[172.16.253.1,8.8.8.8]"
    );
}

#[test]
fn test_parse_invalid_ip() {
    let ip_str = "invalid";
    let ip = IpAddress::parse(ip_str);
    match ip {
        Some(_) => println!("parse ok"),
        None => println!("err=invalid IP address syntax"),
    }
    assert!(ip.is_none());
}

#[test]
fn test_bad_strings() {
    let j = entries(vec![("ipinfo", Json::Object(sample_ipinfo()))]);
    let ipinfo = parse_ipinfo(&j).expect("failed to parse");
    println!("parsed ipinfo={}", ipinfo.to_string());
}

#[test]
fn ipinfo_renders_back_to_its_texts() {
    let ipinfo = parse_ipinfo(&sample_ipinfo()).expect("parses");
    assert_eq!(
        ipinfo.to_string(),
        "ip=192.168.1.9 sm=255.255.255.0 gw=192.168.1.1 dns=[192.168.1.1]"
    );
}

#[test]
fn invalid_address_fails_the_whole_configuration() {
    let mut cfg = sample_ipinfo();
    cfg[1].1 = text("invalid");
    assert_eq!(parse_ipinfo(&cfg).err(), Some(ParseError::InvalidAddress));
}

#[test]
fn non_string_name_server_fails_the_configuration() {
    let cfg = entries(vec![("dnslist", Json::Array(vec![text("8.8.8.8"), Json::Int(8)]))]);
    assert_eq!(parse_ipinfo(&cfg).err(), Some(ParseError::InvalidAddress));
}

#[test]
fn empty_configuration_is_all_zeros() {
    let ipinfo = parse_ipinfo(&Vec::new()).expect("parses");
    assert_eq!(ipinfo.to_string(), "ip=0.0.0.0 sm=0.0.0.0 gw=0.0.0.0 dns=[]");
}

#[test]
fn unknown_keys_and_non_strings_are_ignored() {
    let cfg = entries(vec![
        ("broadcast", text("10.0.0.255")),
        ("mtu", Json::Int(1500)),
        ("ip_address", text("10.0.0.2")),
    ]);
    let ipinfo = parse_ipinfo(&cfg).expect("parses");
    assert_eq!(ipinfo.ip_address, IpAddress::V4(10, 0, 0, 2));
    assert_eq!(ipinfo.gateway, IpAddress::V4(0, 0, 0, 0));
}

#[test]
fn ipv6_addresses_parse_and_render() {
    let a = IpAddress::parse("2001:db8::1").expect("parses");
    assert!(!a.is_ipv4());
    assert_eq!(a.to_string(), "2001:db8::1");
    assert_eq!(IpAddress::parse("0:0:0:0:0:0:0:1").map(|a| a.to_string()), Some("::1".to_string()));
}

#[test]
fn leading_zero_octet_is_not_an_address() {
    assert!(IpAddress::parse("192.168.01.1").is_none());
    assert_eq!(IpAddress::parse("10.1.2.3"), Some(IpAddress::V4(10, 1, 2, 3)));
}

#[test]
fn missing_or_non_object_ipinfo_is_unset() {
    let conn = entries(vec![("name", text("DHCP"))]);
    assert!(parse_conn_ipinfo(&conn).is_none());
    let conn = entries(vec![("ipinfo", text("10.0.0.1"))]);
    assert!(parse_conn_ipinfo(&conn).is_none());
}
