use wanstat::{
    get_connectors, get_i32, get_u32, make_string, parse_connector, str_or_none, AnyConnector,
    Connector, FloatNumber, Json, ParseError,
};

fn jtext(s: &str) -> Json {
    Json::Str(s.to_string())
}

fn fields(items: Vec<(&str, Json)>) -> Vec<(String, Json)> {
    items.into_iter().map(|(k, v)| (k.to_string(), v)).collect()
}

fn record(name: Option<&str>, enabled: Option<bool>, state: &str) -> Vec<(String, Json)> {
    let mut r = Vec::new();
    if let Some(n) = name {
        r.push(("name".to_string(), jtext(n)));
    }
    if let Some(e) = enabled {
        r.push(("enabled".to_string(), Json::Bool(e)));
    }
    r.push(("state".to_string(), jtext(state)));
    r
}

#[test]
fn dhcp_connector_renders_its_configuration() {
    let conn = fields(vec![
        ("name", jtext("DHCP")),
        ("enabled", Json::Bool(true)),
        ("state", jtext("connected")),
        (
            "ipinfo",
            Json::Object(fields(vec![
                ("gateway", jtext("192.168.1.1")),
                ("ip_address", jtext("192.168.1.9")),
                ("netmask", jtext("255.255.255.0")),
                ("dnslist", Json::Array(vec![jtext("192.168.1.1")])),
            ])),
        ),
    ]);
    let c = parse_connector(&Vec::new(), &conn).expect("parses");
    assert!(matches!(c, AnyConnector::DHCP(_)));
    assert_eq!(
        c.print(),
        "DHCP true connected ipinfo=ip=192.168.1.9 sm=255.255.255.0 gw=192.168.1.1 dns=[192.168.1.1]"
    );
}

#[test]
fn dhcp_without_ipinfo_is_unset() {
    let c = parse_connector(&Vec::new(), &record(Some("DHCP"), Some(false), "idle")).expect("parses");
    match &c {
        AnyConnector::DHCP(d) => assert!(d.ipinfo.is_none()),
        _ => panic!("a DHCP connector"),
    }
    assert_eq!(c.print(), "DHCP false idle ipinfo=<none>");
}

#[test]
fn dhcp_with_invalid_ipinfo_is_unset() {
    let mut conn = record(Some("DHCP"), Some(true), "up");
    conn.push(("ipinfo".to_string(), Json::Object(fields(vec![("ip_address", jtext("invalid"))]))));
    let c = parse_connector(&Vec::new(), &conn).expect("parses");
    assert_eq!(c.print(), "DHCP true up ipinfo=<none>");
}

#[test]
fn unnamed_record_is_generic() {
    let c = parse_connector(&Vec::new(), &record(None, Some(true), "ready")).expect("parses");
    match &c {
        AnyConnector::Generic(g) => assert_eq!(g.name, "(none)"),
        _ => panic!("a generic connector"),
    }
    assert_eq!(c.print(), "(none) true ready");
}

#[test]
fn unknown_name_is_generic() {
    let c = parse_connector(&Vec::new(), &record(Some("LTE"), Some(false), "down")).expect("parses");
    assert!(matches!(c, AnyConnector::Generic(_)));
    assert_eq!(c.print(), "LTE false down");
}

#[test]
fn missing_enabled_fails_for_every_kind() {
    let device = fields(vec![("diagnostics", Json::Object(Vec::new()))]);
    for name in [Some("WiFiClient"), Some("DHCP"), Some("Other"), None] {
        let r = parse_connector(&device, &record(name, None, "x"));
        assert_eq!(r.err(), Some(ParseError::MissingRequiredField));
    }
    let mut rec = record(Some("DHCP"), None, "x");
    rec.push(("enabled".to_string(), jtext("true")));
    assert_eq!(parse_connector(&device, &rec).err(), Some(ParseError::MissingRequiredField));
}

#[test]
fn wifi_client_reads_device_diagnostics() {
    let device = fields(vec![(
        "diagnostics",
        Json::Object(fields(vec![
            ("SSID", jtext("home")),
            ("signal_strength", Json::Int(-61)),
            ("channel", Json::Int(11)),
        ])),
    )]);
    let c = parse_connector(&device, &record(Some("WiFiClient"), Some(true), "connected"))
        .expect("parses");
    assert_eq!(c.print(), "WiFiClient true connected \"home\" rssi=-61 channel=11");
}

#[test]
fn wifi_client_with_unset_link_values() {
    let device = fields(vec![("diagnostics", Json::Object(Vec::new()))]);
    let c = parse_connector(&device, &record(Some("WiFiClient"), Some(false), "idle")).expect("parses");
    assert_eq!(c.print(), "WiFiClient false idle \"(none)\" rssi=<unset> channel=<unset>");
}

#[test]
fn wifi_client_without_diagnostics_fails() {
    let rec = record(Some("WiFiClient"), Some(true), "up");
    assert_eq!(parse_connector(&Vec::new(), &rec).err(), Some(ParseError::MissingDiagnostics));
    let device = fields(vec![("diagnostics", jtext("none"))]);
    assert_eq!(parse_connector(&device, &rec).err(), Some(ParseError::MissingDiagnostics));
}

#[test]
fn non_object_items_are_skipped() {
    let device = fields(vec![(
        "connectors",
        Json::Array(vec![Json::Object(record(Some("Eth"), Some(true), "up")), Json::Int(3)]),
    )]);
    let cs = get_connectors(&device).expect("parses");
    assert_eq!(cs.len(), 1);
    assert_eq!(cs[0].print(), "Eth true up");
}

#[test]
fn no_connectors_array_gives_none() {
    assert_eq!(get_connectors(&Vec::new()).expect("parses").len(), 0);
    let device = fields(vec![("connectors", jtext("none"))]);
    assert_eq!(get_connectors(&device).expect("parses").len(), 0);
}

#[test]
fn one_bad_record_fails_the_device() {
    let device = fields(vec![(
        "connectors",
        Json::Array(vec![
            Json::Object(record(Some("Eth"), Some(true), "up")),
            Json::Object(record(Some("Eth"), None, "up")),
        ]),
    )]);
    assert_eq!(get_connectors(&device).err(), Some(ParseError::MissingRequiredField));
}

#[test]
fn scalar_coercions() {
    let entry = fields(vec![("a", jtext("x")), ("b", Json::Int(1)), ("a", jtext("y"))]);
    assert_eq!(str_or_none(&entry, "a"), "x");
    assert_eq!(str_or_none(&entry, "b"), "(none)");
    assert_eq!(str_or_none(&entry, "c"), "(none)");
    assert_eq!(make_string(Some(&jtext("z"))), "z");
    assert_eq!(make_string(None), "(none)");
    assert_eq!(get_i32(Some(&Json::Int(-7))), Some(-7));
    assert_eq!(get_i32(Some(&Json::Int(5_000_000_000))), Some(i32::MAX));
    assert_eq!(get_i32(Some(&Json::Int(-5_000_000_000))), Some(i32::MIN));
    let f = Json::Float(FloatNumber { whole: -3, text: "-3.7".to_string() });
    assert_eq!(get_i32(Some(&f)), Some(-3));
    assert_eq!(get_i32(Some(&jtext("4"))), None);
    assert_eq!(get_i32(None), None);
    assert_eq!(get_u32(Some(&Json::Int(11))), Some(11));
    assert_eq!(get_u32(Some(&Json::Int(4_294_967_301))), Some(5));
    assert_eq!(get_u32(Some(&Json::Int(-1))), None);
    assert_eq!(get_u32(Some(&f)), None);
}
