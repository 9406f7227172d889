use wanstat::{
    connector_row, device_summary, emit_device_section, json_to_string, pad_left, pad_right,
    wan_report, FloatNumber, Json, ParseError,
};

fn st(s: &str) -> Json {
    Json::Str(s.to_string())
}

fn ob(items: Vec<(&str, Json)>) -> Json {
    Json::Object(items.into_iter().map(|(k, v)| (k.to_string(), v)).collect())
}

fn fields_of(v: Json) -> Vec<(String, Json)> {
    match v {
        Json::Object(f) => f,
        _ => panic!("an object"),
    }
}

fn device(plugged: Json, connectors: Option<Json>) -> Json {
    let mut f = vec![
        ("info", ob(vec![("type", st("ethernet"))])),
        ("status", ob(vec![("plugged", plugged), ("reason", st("ok")), ("summary", st("connected"))])),
    ];
    if let Some(c) = connectors {
        f.push(("connectors", c));
    }
    ob(f)
}

#[test]
fn padding_justifies_and_never_cuts() {
    assert_eq!(pad_left("ab", 5), "   ab");
    assert_eq!(pad_right("ab", 5), "ab   ");
    assert_eq!(pad_left("abcdef", 3), "abcdef");
    assert_eq!(pad_right("", 2), "  ");
}

#[test]
fn json_textual_forms() {
    assert_eq!(json_to_string(&Json::Null), "null");
    assert_eq!(json_to_string(&Json::Bool(true)), "true");
    assert_eq!(json_to_string(&Json::Int(-42)), "-42");
    let f = Json::Float(FloatNumber { whole: 1, text: "1.5".to_string() });
    assert_eq!(json_to_string(&f), "1.5");
    assert_eq!(json_to_string(&st("a\"b")), "\"a\\\"b\"");
    let v = Json::Array(vec![Json::Int(1), ob(vec![("k", st("v")), ("n", Json::Null)])]);
    assert_eq!(json_to_string(&v), "[1,{\"k\":\"v\",\"n\":null}]");
    assert_eq!(json_to_string(&Json::Array(Vec::new())), "[]");
}

#[test]
fn summary_row_layout() {
    let f = fields_of(device(Json::Bool(true), None));
    let expected = format!("{:>40} {:<10} {:<7} {:<10} {}", "ethernet-wan", "ethernet", "true", "ok", "connected");
    assert_eq!(device_summary("ethernet-wan", &f), expected);
}

#[test]
fn summary_row_with_absent_fields() {
    let f: Vec<(String, Json)> = Vec::new();
    let expected = format!("{:>40} {:<10} {:<7} {:<10} {}", "d", "(none)", "(none)", "(none)", "(none)");
    assert_eq!(device_summary("d", &f), expected);
    let g = fields_of(device(st("yes"), None));
    assert!(device_summary("d", &g).contains(" \"yes\"  "));
}

#[test]
fn connector_row_layout() {
    let e = fields_of(ob(vec![("name", st("DHCP")), ("state", st("connected")), ("timeout", Json::Null)]));
    let expected = format!("{:>40}  {:<15} {:<10} {:<10}", "DHCP", "connected", "(none)", "(none)");
    assert_eq!(connector_row(&e), expected);
}

#[test]
fn device_section_lists_raw_rows_then_parsed_connectors() {
    let conns = Json::Array(vec![
        ob(vec![("name", st("Eth")), ("enabled", Json::Bool(true)), ("state", st("up"))]),
        Json::Int(0),
    ]);
    let f = fields_of(device(Json::Bool(true), Some(conns)));
    let mut out = vec!["before".to_string()];
    emit_device_section(&mut out, "wan1", &f);
    assert_eq!(out.len(), 6);
    assert_eq!(out[1], "");
    assert_eq!(out[2], "connectors for wan1");
    assert_eq!(out[3], "                                    NAME  STATE           EXCEPTION  TIMEOUT  ");
    assert_eq!(out[4], format!("{:>40}  {:<15} {:<10} {:<10}", "Eth", "up", "(none)", "(none)"));
    assert_eq!(out[5], "c=Eth true up");
}

#[test]
fn failed_transaction_skips_devices() {
    let doc = ob(vec![("success", Json::Bool(false))]);
    let lines = wan_report(&doc).expect("a report");
    assert_eq!(lines, vec!["success=false".to_string(), "transaction failed".to_string()]);
}

#[test]
fn malformed_documents_are_refused() {
    assert_eq!(wan_report(&Json::Null).err(), Some(ParseError::MalformedDocument));
    let no_success = ob(vec![("data", ob(vec![]))]);
    assert_eq!(wan_report(&no_success).err(), Some(ParseError::MalformedDocument));
    let bad_device = ob(vec![
        ("success", Json::Bool(true)),
        ("data", ob(vec![("devices", ob(vec![("d", Json::Int(1))]))])),
    ]);
    assert_eq!(wan_report(&bad_device).err(), Some(ParseError::MalformedDocument));
}

#[test]
fn failing_device_leaves_siblings_alone() {
    let bad = Json::Array(vec![ob(vec![
        ("name", st("WiFiClient")),
        ("enabled", Json::Bool(true)),
        ("state", st("up")),
    ])]);
    let good = Json::Array(vec![ob(vec![("name", st("Eth")), ("enabled", Json::Bool(false)), ("state", st("down"))])]);
    let doc = ob(vec![
        ("success", Json::Bool(true)),
        (
            "data",
            ob(vec![(
                "devices",
                ob(vec![
                    ("a", device(Json::Bool(true), Some(bad))),
                    ("b", device(Json::Bool(false), Some(good))),
                ]),
            )]),
        ),
    ]);
    let lines = wan_report(&doc).expect("a report");
    assert_eq!(lines[0], "success=true");
    assert_eq!(lines[1], "                                    NAME TYPE       PLUGGED REASON     SUMMARY");
    assert_eq!(lines[2], format!("{:>40} {:<10} {:<7} {:<10} {}", "a", "ethernet", "true", "ok", "connected"));
    assert_eq!(lines[3], format!("{:>40} {:<10} {:<7} {:<10} {}", "b", "ethernet", "false", "ok", "connected"));
    assert_eq!(lines[4], "");
    assert_eq!(lines[5], "connectors for a");
    assert_eq!(
        lines[8],
        "connectors of a not parsed: no `diagnostics` object for a WiFi client"
    );
    assert_eq!(lines[10], "connectors for b");
    assert_eq!(lines[13], "c=Eth false down");
    assert_eq!(lines.len(), 14);
}
