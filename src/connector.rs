use vstd::prelude::*;
use crate::addr::{decimal, int_text};
use crate::error::ParseError;
use crate::ipinfo::{conn_ipinfo, ipinfo_text, parse_conn_ipinfo, IPInfo, IpInfoView};
use crate::json::{
    get_i32, get_u32, i32_of, lookup, lookup_index, make_string, none_text, str_or_none,
    text_or_none, u32_of, Json,
};

verus! {

/// A connector that renders itself as one line of text.
pub trait Connector {
    /// The line the connector renders as.
    spec fn line(&self) -> Seq<char>;

    fn print(&self) -> (r: String)
        ensures
            r@ == self.line(),
    ;
}

/// A connector of a kind that has no parser of its own.
pub struct GenericConnector {
    pub name: String,
    pub enabled: bool,
    pub state: String,
}

/// A WiFi client connector, with what its device's diagnostics say of the
/// link.
pub struct WiFiClientConnector {
    pub name: String,
    pub ssid: String,
    pub signal_strength: Option<i32>,
    pub channel: Option<u32>,
    pub enabled: bool,
    pub state: String,
}

/// A DHCP connector, with the address configuration it holds, if any.
pub struct DHCPConnector {
    pub name: String,
    pub ipinfo: Option<IPInfo>,
    pub enabled: bool,
    pub state: String,
}

/// A parsed connector of any kind.
pub enum AnyConnector {
    Generic(GenericConnector),
    WiFiClient(WiFiClientConnector),
    DHCP(DHCPConnector),
}

/// What a parsed connector holds.
pub enum ConnectorView {
    Generic { name: Seq<char>, enabled: bool, state: Seq<char> },
    WiFiClient {
        name: Seq<char>,
        ssid: Seq<char>,
        signal_strength: Option<i32>,
        channel: Option<u32>,
        enabled: bool,
        state: Seq<char>,
    },
    DHCP { name: Seq<char>, ipinfo: Option<IpInfoView>, enabled: bool, state: Seq<char> },
}

impl View for AnyConnector {
    type V = ConnectorView;

    open spec fn view(&self) -> ConnectorView {
        match self {
            AnyConnector::Generic(c) => ConnectorView::Generic {
                name: c.name@,
                enabled: c.enabled,
                state: c.state@,
            },
            AnyConnector::WiFiClient(c) => ConnectorView::WiFiClient {
                name: c.name@,
                ssid: c.ssid@,
                signal_strength: c.signal_strength,
                channel: c.channel,
                enabled: c.enabled,
                state: c.state@,
            },
            AnyConnector::DHCP(c) => ConnectorView::DHCP {
                name: c.name@,
                ipinfo: match c.ipinfo {
                    Some(i) => Some(i@),
                    None => None,
                },
                enabled: c.enabled,
                state: c.state@,
            },
        }
    }
}

/// The connector a record describes, on a device with fields `fields`. The
/// record's `name` picks the kind; `enabled` must be a boolean; a
/// `WiFiClient` reads its link from the device's `diagnostics` object,
/// which must exist; a `DHCP` reads its own `ipinfo` object.
pub open spec fn connector_of(fields: Seq<(String, Json)>, conn: Seq<(String, Json)>) -> Result<
    ConnectorView,
    ParseError,
> {
    let name = text_or_none(lookup(conn, "name"@));
    let state = text_or_none(lookup(conn, "state"@));
    match lookup(conn, "enabled"@) {
        Some(Json::Bool(enabled)) => if name == "WiFiClient"@ {
            match lookup(fields, "diagnostics"@) {
                Some(Json::Object(d)) => Ok(
                    ConnectorView::WiFiClient {
                        name,
                        ssid: text_or_none(lookup(d@, "SSID"@)),
                        signal_strength: i32_of(lookup(d@, "signal_strength"@)),
                        channel: u32_of(lookup(d@, "channel"@)),
                        enabled,
                        state,
                    },
                ),
                _ => Err(ParseError::MissingDiagnostics),
            }
        } else if name == "DHCP"@ {
            Ok(ConnectorView::DHCP { name, ipinfo: conn_ipinfo(conn), enabled, state })
        } else {
            Ok(ConnectorView::Generic { name, enabled, state })
        },
        _ => Err(ParseError::MissingRequiredField),
    }
}

/// `true` or `false`.
pub open spec fn bool_text(b: bool) -> Seq<char> {
    if b {
        "true"@
    } else {
        "false"@
    }
}

/// An optional number in decimal, or `<unset>`.
pub open spec fn opt_text(n: Option<int>) -> Seq<char> {
    match n {
        Some(v) => int_text(v),
        None => "<unset>"@,
    }
}

/// The one-line rendering of a connector.
pub open spec fn connector_line(c: ConnectorView) -> Seq<char> {
    match c {
        ConnectorView::Generic { name, enabled, state } => name + " "@ + bool_text(enabled) + " "@
            + state,
        ConnectorView::WiFiClient { name, ssid, signal_strength, channel, enabled, state } => name
            + " "@ + bool_text(enabled) + " "@ + state + " \""@ + ssid + "\" rssi="@ + opt_text(
            match signal_strength {
                Some(v) => Some(v as int),
                None => None,
            },
        ) + " channel="@ + opt_text(
            match channel {
                Some(v) => Some(v as int),
                None => None,
            },
        ),
        ConnectorView::DHCP { name, ipinfo, enabled, state } => name + " "@ + bool_text(enabled)
            + " "@ + state + " ipinfo="@ + match ipinfo {
            Some(i) => ipinfo_text(i),
            None => "<none>"@,
        },
    }
}

fn bool_string(b: bool) -> (r: String)
    ensures
        r@ == bool_text(b),
{
    if b {
        String::from_str("true")
    } else {
        String::from_str("false")
    }
}

fn common_prefix(name: &String, enabled: bool, state: &String) -> (r: String)
    ensures
        r@ == name@ + " "@ + bool_text(enabled) + " "@ + state@,
{
    let mut r = name.clone();
    r.append(" ");
    r.append(bool_string(enabled).as_str());
    r.append(" ");
    r.append(state.as_str());
    r
}

impl Connector for GenericConnector {
    open spec fn line(&self) -> Seq<char> {
        connector_line(
            ConnectorView::Generic { name: self.name@, enabled: self.enabled, state: self.state@ },
        )
    }

    fn print(&self) -> (r: String) {
        common_prefix(&self.name, self.enabled, &self.state)
    }
}

impl Connector for WiFiClientConnector {
    open spec fn line(&self) -> Seq<char> {
        connector_line(
            ConnectorView::WiFiClient {
                name: self.name@,
                ssid: self.ssid@,
                signal_strength: self.signal_strength,
                channel: self.channel,
                enabled: self.enabled,
                state: self.state@,
            },
        )
    }

    fn print(&self) -> (r: String) {
        let signal_strength = match self.signal_strength {
            Some(v) => decimal(v as i128),
            None => String::from_str("<unset>"),
        };
        let channel = match self.channel {
            Some(v) => decimal(v as i128),
            None => String::from_str("<unset>"),
        };
        let mut r = common_prefix(&self.name, self.enabled, &self.state);
        r.append(" \"");
        r.append(self.ssid.as_str());
        r.append("\" rssi=");
        r.append(signal_strength.as_str());
        r.append(" channel=");
        r.append(channel.as_str());
        r
    }
}

impl Connector for DHCPConnector {
    open spec fn line(&self) -> Seq<char> {
        connector_line(
            ConnectorView::DHCP {
                name: self.name@,
                ipinfo: match self.ipinfo {
                    Some(i) => Some(i@),
                    None => None,
                },
                enabled: self.enabled,
                state: self.state@,
            },
        )
    }

    fn print(&self) -> (r: String) {
        let s_ipinfo = match &self.ipinfo {
            Some(ipinfo) => ipinfo.to_string(),
            None => String::from_str("<none>"),
        };
        let mut r = common_prefix(&self.name, self.enabled, &self.state);
        r.append(" ipinfo=");
        r.append(s_ipinfo.as_str());
        r
    }
}

impl Connector for AnyConnector {
    open spec fn line(&self) -> Seq<char> {
        connector_line(self@)
    }

    fn print(&self) -> (r: String) {
        match self {
            AnyConnector::Generic(c) => c.print(),
            AnyConnector::WiFiClient(c) => c.print(),
            AnyConnector::DHCP(c) => c.print(),
        }
    }
}

/// Parses one connector record of a device with fields `fields`.
pub fn parse_connector(fields: &Vec<(String, Json)>, conn: &Vec<(String, Json)>) -> (r: Result<
    AnyConnector,
    ParseError,
>)
    ensures
        match r {
            Ok(c) => connector_of(fields@, conn@) == Ok::<ConnectorView, ParseError>(c@),
            Err(e) => connector_of(fields@, conn@) == Err::<ConnectorView, ParseError>(e),
        },
{
    let name = str_or_none(conn, "name");
    let state = match lookup_index(conn, "state") {
        Some(i) => make_string(Some(&conn[i].1)),
        None => make_string(None),
    };
    let enabled = match lookup_index(conn, "enabled") {
        Some(i) => match &conn[i].1 {
            Json::Bool(b) => *b,
            _ => {
                return Err(ParseError::MissingRequiredField);
            },
        },
        None => {
            return Err(ParseError::MissingRequiredField);
        },
    };
    if name == String::from_str("WiFiClient") {
        match lookup_index(fields, "diagnostics") {
            Some(k) => match &fields[k].1 {
                Json::Object(d) => {
                    let ssid = str_or_none(d, "SSID");
                    let signal_strength = match lookup_index(d, "signal_strength") {
                        Some(j) => get_i32(Some(&d[j].1)),
                        None => get_i32(None),
                    };
                    let channel = match lookup_index(d, "channel") {
                        Some(j) => get_u32(Some(&d[j].1)),
                        None => get_u32(None),
                    };
                    Ok(
                        AnyConnector::WiFiClient(
                            WiFiClientConnector {
                                name,
                                ssid,
                                signal_strength,
                                channel,
                                enabled,
                                state,
                            },
                        ),
                    )
                },
                _ => Err(ParseError::MissingDiagnostics),
            },
            None => Err(ParseError::MissingDiagnostics),
        }
    } else if name == String::from_str("DHCP") {
        let ipinfo = parse_conn_ipinfo(conn);
        Ok(AnyConnector::DHCP(DHCPConnector { name, ipinfo, enabled, state }))
    } else {
        Ok(AnyConnector::Generic(GenericConnector { name, enabled, state }))
    }
}

/// The connectors parsed from the first `n` items of a connector list, in
/// order: items that are not objects are skipped; the first record that
/// fails to parse fails the whole list.
pub open spec fn connectors_upto(fields: Seq<(String, Json)>, items: Seq<Json>, n: nat) -> Result<
    Seq<ConnectorView>,
    ParseError,
>
    decreases n,
{
    if n == 0 {
        Ok(Seq::empty())
    } else {
        match connectors_upto(fields, items, (n - 1) as nat) {
            Ok(done) => match items[n - 1] {
                Json::Object(c) => match connector_of(fields, c@) {
                    Ok(x) => Ok(done.push(x)),
                    Err(e) => Err(e),
                },
                _ => Ok(done),
            },
            Err(e) => Err(e),
        }
    }
}

/// The connectors of a device with fields `fields`: none when it has no
/// `connectors` array.
pub open spec fn connectors_of(fields: Seq<(String, Json)>) -> Result<Seq<ConnectorView>, ParseError> {
    match lookup(fields, "connectors"@) {
        Some(Json::Array(items)) => connectors_upto(fields, items@, items@.len()),
        _ => Ok(Seq::empty()),
    }
}

/// The views of parsed connectors.
pub open spec fn views(cs: Seq<AnyConnector>) -> Seq<ConnectorView> {
    cs.map_values(|c: AnyConnector| c@)
}

proof fn connectors_err_extends(
    fields: Seq<(String, Json)>,
    items: Seq<Json>,
    n: nat,
    m: nat,
    e: ParseError,
)
    requires
        n <= m <= items.len(),
        connectors_upto(fields, items, n) == Err::<Seq<ConnectorView>, ParseError>(e),
    ensures
        connectors_upto(fields, items, m) == Err::<Seq<ConnectorView>, ParseError>(e),
    decreases m - n,
{
    if n < m {
        connectors_err_extends(fields, items, n, (m - 1) as nat, e);
    }
}

/// Parses every object of a device's `connectors` array, in order, skipping
/// items that are not objects. A device without such an array has no
/// connectors. The first record that fails to parse fails the whole list.
pub fn get_connectors(fields: &Vec<(String, Json)>) -> (r: Result<Vec<AnyConnector>, ParseError>)
    ensures
        match r {
            Ok(cs) => connectors_of(fields@) == Ok::<Seq<ConnectorView>, ParseError>(views(cs@)),
            Err(e) => connectors_of(fields@) == Err::<Seq<ConnectorView>, ParseError>(e),
        },
{
    let mut out: Vec<AnyConnector> = Vec::new();
    let k: usize = match lookup_index(fields, "connectors") {
        Some(k) => k,
        None => {
            proof {
                assert(views(out@) == Seq::<ConnectorView>::empty());
            }
            return Ok(out);
        },
    };
    let items = match &fields[k].1 {
        Json::Array(items) => items,
        _ => {
            proof {
                assert(views(out@) == Seq::<ConnectorView>::empty());
            }
            return Ok(out);
        },
    };
    let mut i: usize = 0;
    proof {
        assert(views(out@) == Seq::<ConnectorView>::empty());
    }
    while i < items.len()
        invariant
            0 <= i <= items@.len(),
            lookup(fields@, "connectors"@) == Some(Json::Array(*items)),
            connectors_upto(fields@, items@, i as nat) == Ok::<Seq<ConnectorView>, ParseError>(
                views(out@),
            ),
        decreases items@.len() - i,
    {
        match &items[i] {
            Json::Object(c) => match parse_connector(fields, c) {
                Ok(x) => {
                    let ghost before = out@;
                    let ghost xv = x@;
                    out.push(x);
                    proof {
                        assert(views(out@) =~= views(before).push(xv));
                    }
                },
                Err(e) => {
                    proof {
                        connectors_err_extends(fields@, items@, (i + 1) as nat, items@.len(), e);
                    }
                    return Err(e);
                },
            },
            _ => {},
        }
        i = i + 1;
    }
    Ok(out)
}

/// A record without a `name`, whose `enabled` is a boolean, is a generic
/// connector named by the sentinel, on any device.
pub proof fn lemma_unnamed_is_generic(fields: Seq<(String, Json)>, conn: Seq<(String, Json)>)
    requires
        lookup(conn, "name"@) == None::<Json>,
        lookup(conn, "enabled"@) matches Some(Json::Bool(_)),
    ensures
        connector_of(fields, conn) matches Ok(ConnectorView::Generic { name, .. }) && name
            == none_text(),
{
    reveal_strlit("WiFiClient");
    reveal_strlit("DHCP");
    assert(none_text() != "WiFiClient"@) by {
        assert(none_text()[0] != "WiFiClient"@[0]);
    };
    assert(none_text() != "DHCP"@) by {
        assert(none_text()[0] != "DHCP"@[0]);
    };
}

/// A record without a boolean `enabled` fails with `MissingRequiredField`,
/// whatever its kind and device.
pub proof fn lemma_enabled_required(fields: Seq<(String, Json)>, conn: Seq<(String, Json)>)
    requires
        !(lookup(conn, "enabled"@) matches Some(Json::Bool(_))),
    ensures
        connector_of(fields, conn) == Err::<ConnectorView, ParseError>(
            ParseError::MissingRequiredField,
        ),
{
}

/// A `WiFiClient` record on a device without a `diagnostics` object fails,
/// and so does the device's whole connector list when the record stands in
/// its `connectors` array and the records before it parse.
pub proof fn lemma_wifi_needs_diagnostics(
    fields: Seq<(String, Json)>,
    items: Vec<Json>,
    i: int,
    conn: Seq<(String, Json)>,
)
    requires
        lookup(conn, "name"@) matches Some(Json::Str(s)) && s@ == "WiFiClient"@,
        lookup(conn, "enabled"@) matches Some(Json::Bool(_)),
        !(lookup(fields, "diagnostics"@) matches Some(Json::Object(_))),
        lookup(fields, "connectors"@) == Some(Json::Array(items)),
        0 <= i < items@.len(),
        items@[i] matches Json::Object(c) && c@ == conn,
        connectors_upto(fields, items@, i as nat) is Ok,
    ensures
        connector_of(fields, conn) == Err::<ConnectorView, ParseError>(
            ParseError::MissingDiagnostics,
        ),
        connectors_of(fields) == Err::<Seq<ConnectorView>, ParseError>(
            ParseError::MissingDiagnostics,
        ),
{
    assert(connectors_upto(fields, items@, (i + 1) as nat) == Err::<Seq<ConnectorView>, ParseError>(
        ParseError::MissingDiagnostics,
    ));
    connectors_err_extends(
        fields,
        items@,
        (i + 1) as nat,
        items@.len(),
        ParseError::MissingDiagnostics,
    );
}

/// A `DHCP` record without an `ipinfo` field parses, with no configuration,
/// and renders it as `<none>`.
pub proof fn lemma_dhcp_without_ipinfo(fields: Seq<(String, Json)>, conn: Seq<(String, Json)>)
    requires
        lookup(conn, "name"@) matches Some(Json::Str(s)) && s@ == "DHCP"@,
        lookup(conn, "enabled"@) matches Some(Json::Bool(_)),
        lookup(conn, "ipinfo"@) == None::<Json>,
    ensures
        connector_of(fields, conn) matches Ok(c) && c matches ConnectorView::DHCP {
            name,
            ipinfo,
            enabled,
            state,
        } && ipinfo is None && connector_line(c) == name + " "@ + bool_text(enabled) + " "@ + state
            + " ipinfo=<none>"@,
{
    reveal_strlit("WiFiClient");
    reveal_strlit("DHCP");
    reveal_strlit(" ipinfo=");
    reveal_strlit("<none>");
    reveal_strlit(" ipinfo=<none>");
    assert("DHCP"@ != "WiFiClient"@) by {
        assert("DHCP"@[0] != "WiFiClient"@[0]);
    };
    assert(" ipinfo="@ + "<none>"@ == " ipinfo=<none>"@);
}

} // verus!
