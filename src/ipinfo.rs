use vstd::prelude::*;
use crate::addr::{address_of_text, address_text, is_v4_text, IpAddress};
use crate::error::ParseError;
use crate::json::Json;

verus! {

/// The address configuration of a connector.
pub struct IPInfo {
    pub ip_address: IpAddress,
    pub netmask: IpAddress,
    pub gateway: IpAddress,
    pub dnslist: Vec<IpAddress>,
}

/// What an `IPInfo` holds, with the address list as a sequence.
pub struct IpInfoView {
    pub ip_address: IpAddress,
    pub netmask: IpAddress,
    pub gateway: IpAddress,
    pub dnslist: Seq<IpAddress>,
}

impl View for IPInfo {
    type V = IpInfoView;

    open spec fn view(&self) -> IpInfoView {
        IpInfoView {
            ip_address: self.ip_address,
            netmask: self.netmask,
            gateway: self.gateway,
            dnslist: self.dnslist@,
        }
    }
}

/// The configuration before any entry is read: every address all zeros,
/// no name servers.
pub open spec fn default_ipinfo() -> IpInfoView {
    IpInfoView {
        ip_address: IpAddress::V4(0, 0, 0, 0),
        netmask: IpAddress::V4(0, 0, 0, 0),
        gateway: IpAddress::V4(0, 0, 0, 0),
        dnslist: Seq::empty(),
    }
}

/// The addresses that a list of JSON strings denotes, in order; `None` if
/// an item is not a string or not an address.
pub open spec fn dns_of(items: Seq<Json>) -> Option<Seq<IpAddress>>
    decreases items.len(),
{
    if items.len() == 0 {
        Some(Seq::empty())
    } else {
        match dns_of(items.drop_last()) {
            Some(d) => match items.last() {
                Json::Str(s) => match address_of_text(s@) {
                    Some(a) => Some(d.push(a)),
                    None => None,
                },
                _ => None,
            },
            None => None,
        }
    }
}

/// The effect of one entry of the configuration object: a string is an
/// address, stored under the field its key names (`ip_address`, `netmask`,
/// `gateway`; other keys are ignored); an array is the name-server list;
/// anything else is ignored. An invalid address fails the whole parse.
pub open spec fn ipinfo_step(info: IpInfoView, key: Seq<char>, v: Json) -> Option<IpInfoView> {
    match v {
        Json::Str(s) => match address_of_text(s@) {
            Some(a) => Some(
                if key == "ip_address"@ {
                    IpInfoView { ip_address: a, ..info }
                } else if key == "netmask"@ {
                    IpInfoView { netmask: a, ..info }
                } else if key == "gateway"@ {
                    IpInfoView { gateway: a, ..info }
                } else {
                    info
                },
            ),
            None => None,
        },
        Json::Array(items) => match dns_of(items@) {
            Some(d) => Some(IpInfoView { dnslist: d, ..info }),
            None => None,
        },
        _ => Some(info),
    }
}

/// The configuration after the first `n` entries are read in order.
pub open spec fn ipinfo_upto(entries: Seq<(String, Json)>, n: nat) -> Option<IpInfoView>
    decreases n,
{
    if n == 0 {
        Some(default_ipinfo())
    } else {
        match ipinfo_upto(entries, (n - 1) as nat) {
            Some(info) => ipinfo_step(info, entries[n - 1].0@, entries[n - 1].1),
            None => None,
        }
    }
}

/// The configuration an object's entries describe; `None` where an address
/// is invalid.
pub open spec fn ipinfo_of(entries: Seq<(String, Json)>) -> Option<IpInfoView> {
    ipinfo_upto(entries, entries.len())
}

/// Addresses in textual form, separated by commas.
pub open spec fn join_addresses(d: Seq<IpAddress>) -> Seq<char>
    decreases d.len(),
{
    if d.len() == 0 {
        Seq::empty()
    } else if d.len() == 1 {
        address_text(d[0])
    } else {
        join_addresses(d.drop_last()) + ","@ + address_text(d.last())
    }
}

/// `ip=<address> sm=<netmask> gw=<gateway> dns=[<address>,...]`.
pub open spec fn ipinfo_text(i: IpInfoView) -> Seq<char> {
    "ip="@ + address_text(i.ip_address) + " sm="@ + address_text(i.netmask) + " gw="@
        + address_text(i.gateway) + " dns=["@ + join_addresses(i.dnslist) + "]"@
}

fn parse_dnslist(items: &Vec<Json>) -> (r: Result<Vec<IpAddress>, ParseError>)
    ensures
        match r {
            Ok(d) => dns_of(items@) == Some(d@),
            Err(e) => dns_of(items@) == None::<Seq<IpAddress>> && e == ParseError::InvalidAddress,
        },
{
    let mut out: Vec<IpAddress> = Vec::new();
    let mut i: usize = 0;
    while i < items.len()
        invariant
            0 <= i <= items@.len(),
            dns_of(items@.subrange(0, i as int)) == Some(out@),
        decreases items@.len() - i,
    {
        proof {
            assert(items@.subrange(0, i + 1).drop_last() == items@.subrange(0, i as int));
        }
        match &items[i] {
            Json::Str(s) => match IpAddress::parse(s.as_str()) {
                Some(a) => out.push(a),
                None => {
                    proof {
                        dns_none_extends(items@, (i + 1) as nat);
                    }
                    return Err(ParseError::InvalidAddress);
                },
            },
            _ => {
                proof {
                    dns_none_extends(items@, (i + 1) as nat);
                }
                return Err(ParseError::InvalidAddress);
            },
        }
        i = i + 1;
    }
    proof {
        assert(items@.subrange(0, i as int) == items@);
    }
    Ok(out)
}

proof fn dns_none_extends(items: Seq<Json>, n: nat)
    requires
        n <= items.len(),
        dns_of(items.subrange(0, n as int)) == None::<Seq<IpAddress>>,
    ensures
        dns_of(items) == None::<Seq<IpAddress>>,
    decreases items.len() - n,
{
    if n < items.len() {
        assert(items.subrange(0, (n + 1) as int).drop_last() == items.subrange(0, n as int));
        dns_none_extends(items, n + 1);
    } else {
        assert(items.subrange(0, n as int) == items);
    }
}

proof fn ipinfo_none_extends(entries: Seq<(String, Json)>, n: nat, m: nat)
    requires
        n <= m <= entries.len(),
        ipinfo_upto(entries, n) == None::<IpInfoView>,
    ensures
        ipinfo_upto(entries, m) == None::<IpInfoView>,
    decreases m - n,
{
    if n < m {
        ipinfo_none_extends(entries, n, (m - 1) as nat);
    }
}

/// Parses an address-configuration object. Every string entry must be an
/// address and is stored under the field its key names; an array entry is
/// the name-server list and must hold address strings only. Fails with
/// `InvalidAddress` exactly where an address is invalid.
pub fn parse_ipinfo(contents: &Vec<(String, Json)>) -> (r: Result<IPInfo, ParseError>)
    ensures
        match r {
            Ok(info) => ipinfo_of(contents@) == Some(info@),
            Err(e) => ipinfo_of(contents@) == None::<IpInfoView> && e == ParseError::InvalidAddress,
        },
{
    let ip_key = String::from_str("ip_address");
    let mask_key = String::from_str("netmask");
    let gw_key = String::from_str("gateway");
    let mut info = IPInfo {
        ip_address: IpAddress::unspecified(),
        netmask: IpAddress::unspecified(),
        gateway: IpAddress::unspecified(),
        dnslist: Vec::new(),
    };
    let mut i: usize = 0;
    while i < contents.len()
        invariant
            0 <= i <= contents@.len(),
            ipinfo_upto(contents@, i as nat) == Some(info@),
            ip_key@ == "ip_address"@,
            mask_key@ == "netmask"@,
            gw_key@ == "gateway"@,
        decreases contents@.len() - i,
    {
        let key = &contents[i].0;
        match &contents[i].1 {
            Json::Str(s) => match IpAddress::parse(s.as_str()) {
                Some(a) => {
                    if *key == ip_key {
                        info.ip_address = a;
                    } else if *key == mask_key {
                        info.netmask = a;
                    } else if *key == gw_key {
                        info.gateway = a;
                    }
                },
                None => {
                    proof {
                        ipinfo_none_extends(contents@, (i + 1) as nat, contents@.len());
                    }
                    return Err(ParseError::InvalidAddress);
                },
            },
            Json::Array(items) => match parse_dnslist(items) {
                Ok(d) => {
                    info.dnslist = d;
                },
                Err(e) => {
                    proof {
                        ipinfo_none_extends(contents@, (i + 1) as nat, contents@.len());
                    }
                    return Err(e);
                },
            },
            _ => {},
        }
        i = i + 1;
    }
    Ok(info)
}

/// The configuration under a connector's `ipinfo` object; `None` when the
/// connector has no such object or it does not parse.
pub fn parse_conn_ipinfo(conn: &Vec<(String, Json)>) -> (r: Option<IPInfo>)
    ensures
        r matches Some(info) ==> conn_ipinfo(conn@) == Some(info@),
        r is None ==> conn_ipinfo(conn@) == None::<IpInfoView>,
{
    match crate::json::lookup_index(conn, "ipinfo") {
        Some(i) => match &conn[i].1 {
            Json::Object(contents) => match parse_ipinfo(contents) {
                Ok(info) => Some(info),
                Err(_) => None,
            },
            _ => None,
        },
        None => None,
    }
}

/// The configuration under a connector's `ipinfo` object, if it is an
/// object that parses.
pub open spec fn conn_ipinfo(conn: Seq<(String, Json)>) -> Option<IpInfoView> {
    match crate::json::lookup(conn, "ipinfo"@) {
        Some(Json::Object(contents)) => ipinfo_of(contents@),
        _ => None,
    }
}

fn append_addresses(out: &mut String, d: &Vec<IpAddress>)
    ensures
        final(out)@ == old(out)@ + join_addresses(d@),
{
    let mut i: usize = 0;
    let ghost start = out@;
    while i < d.len()
        invariant
            0 <= i <= d@.len(),
            out@ == start + join_addresses(d@.subrange(0, i as int)),
        decreases d@.len() - i,
    {
        proof {
            assert(d@.subrange(0, i + 1).drop_last() == d@.subrange(0, i as int));
        }
        if i > 0 {
            out.append(",");
        }
        let t = d[i].to_string();
        out.append(t.as_str());
        proof {
            if i == 0 {
                assert(join_addresses(d@.subrange(0, 1)) == address_text(d@[0]));
            }
        }
        i = i + 1;
    }
    proof {
        assert(d@.subrange(0, i as int) == d@);
    }
}

impl IPInfo {
    /// `ip=<address> sm=<netmask> gw=<gateway> dns=[<address>,...]`.
    pub fn to_string(&self) -> (r: String)
        ensures
            r@ == ipinfo_text(self@),
    {
        let mut r = String::from_str("ip=");
        r.append(self.ip_address.to_string().as_str());
        r.append(" sm=");
        r.append(self.netmask.to_string().as_str());
        r.append(" gw=");
        r.append(self.gateway.to_string().as_str());
        r.append(" dns=[");
        append_addresses(&mut r, &self.dnslist);
        r.append("]");
        r
    }
}

/// An entry of a configuration object under a known key with IPv4 text:
/// `ip_address`, `netmask` or `gateway` with a dot-decimal string, or
/// `dnslist` with an array of dot-decimal strings.
pub open spec fn known_v4_entry(e: (String, Json)) -> bool {
    match e.1 {
        Json::Str(s) => (e.0@ == "ip_address"@ || e.0@ == "netmask"@ || e.0@ == "gateway"@)
            && is_v4_text(s@),
        Json::Array(a) => e.0@ == "dnslist"@ && forall|j: int|
            0 <= j < a@.len() ==> (#[trigger] a@[j] matches Json::Str(t) && is_v4_text(t@)),
        _ => false,
    }
}

/// Whether the addresses in `info` render back to the texts of entry `e`.
pub open spec fn renders_back(e: (String, Json), info: IpInfoView) -> bool {
    match e.1 {
        Json::Str(s) => {
            &&& e.0@ == "ip_address"@ ==> address_text(info.ip_address) == s@
            &&& e.0@ == "netmask"@ ==> address_text(info.netmask) == s@
            &&& e.0@ == "gateway"@ ==> address_text(info.gateway) == s@
        },
        Json::Array(a) => {
            &&& info.dnslist.len() == a@.len()
            &&& forall|j: int|
                0 <= j < a@.len() ==> (#[trigger] a@[j] matches Json::Str(t) && address_text(
                    info.dnslist[j],
                ) == t@)
        },
        _ => true,
    }
}

proof fn lemma_v4_renders_back(s: Seq<char>)
    requires
        is_v4_text(s),
    ensures
        address_of_text(s) matches Some(a) && address_text(a) == s,
{
}

proof fn lemma_dns_renders_back(items: Seq<Json>)
    requires
        forall|j: int| 0 <= j < items.len() ==> (#[trigger] items[j] matches Json::Str(t) && is_v4_text(t@)),
    ensures
        dns_of(items) matches Some(d) && d.len() == items.len() && forall|j: int|
            0 <= j < items.len() ==> (#[trigger] items[j] matches Json::Str(t) && address_text(d[j])
                == t@),
    decreases items.len(),
{
    if items.len() > 0 {
        let init = items.drop_last();
        assert forall|j: int| 0 <= j < init.len() implies (#[trigger] init[j] matches Json::Str(t)
            && is_v4_text(t@)) by {
            assert(init[j] == items[j]);
        };
        lemma_dns_renders_back(init);
        assert(items[items.len() - 1] matches Json::Str(t) && is_v4_text(t@));
        let t = items.last()->Str_0;
        lemma_v4_renders_back(t@);
        let d = dns_of(init)->Some_0;
        let a = address_of_text(t@)->Some_0;
        assert forall|j: int| 0 <= j < items.len() implies (#[trigger] items[j] matches Json::Str(
            u,
        ) && address_text(d.push(a)[j]) == u@) by {
            if j < init.len() {
                assert(init[j] == items[j]);
            }
        };
    }
}

proof fn lemma_keys_distinct()
    ensures
        "ip_address"@ != "netmask"@,
        "ip_address"@ != "gateway"@,
        "netmask"@ != "gateway"@,
        "dnslist"@ != "ip_address"@,
        "dnslist"@ != "netmask"@,
        "dnslist"@ != "gateway"@,
{
    reveal_strlit("ip_address");
    reveal_strlit("netmask");
    reveal_strlit("gateway");
    reveal_strlit("dnslist");
    assert("ip_address"@[0] != "netmask"@[0]);
    assert("ip_address"@[0] != "gateway"@[0]);
    assert("netmask"@[0] != "gateway"@[0]);
    assert("dnslist"@[0] != "ip_address"@[0]);
    assert("dnslist"@[0] != "netmask"@[0]);
    assert("dnslist"@[0] != "gateway"@[0]);
}

proof fn lemma_round_trip_upto(entries: Seq<(String, Json)>, n: nat)
    requires
        n <= entries.len(),
        forall|i: int| 0 <= i < entries.len() ==> known_v4_entry(#[trigger] entries[i]),
        forall|i: int, j: int|
            0 <= i < entries.len() && 0 <= j < entries.len() && i != j ==> #[trigger] entries[i].0@
                != #[trigger] entries[j].0@,
    ensures
        ipinfo_upto(entries, n) matches Some(info) && forall|i: int|
            0 <= i < n ==> renders_back(#[trigger] entries[i], info),
    decreases n,
{
    if n > 0 {
        lemma_round_trip_upto(entries, (n - 1) as nat);
        lemma_keys_distinct();
        let info = ipinfo_upto(entries, (n - 1) as nat)->Some_0;
        let e = entries[n - 1];
        assert(known_v4_entry(e));
        match e.1 {
            Json::Str(s) => {
                lemma_v4_renders_back(s@);
            },
            Json::Array(a) => {
                lemma_dns_renders_back(a@);
            },
            _ => {},
        }
        let next = ipinfo_upto(entries, n)->Some_0;
        assert forall|i: int| 0 <= i < n implies renders_back(#[trigger] entries[i], next) by {
            if i < n - 1 {
                assert(known_v4_entry(entries[i]));
                assert(renders_back(entries[i], info));
                assert(entries[i].0@ != e.0@);
            }
        };
    }
}

/// A configuration object whose keys are distinct, each `ip_address`,
/// `netmask`, `gateway` or `dnslist`, with dot-decimal address texts, parses;
/// each address of the result renders back to the text it was read from.
pub proof fn lemma_ipinfo_round_trip(entries: Seq<(String, Json)>)
    requires
        forall|i: int| 0 <= i < entries.len() ==> known_v4_entry(#[trigger] entries[i]),
        forall|i: int, j: int|
            0 <= i < entries.len() && 0 <= j < entries.len() && i != j ==> #[trigger] entries[i].0@
                != #[trigger] entries[j].0@,
    ensures
        ipinfo_of(entries) matches Some(info) && forall|i: int|
            0 <= i < entries.len() ==> renders_back(#[trigger] entries[i], info),
{
    lemma_round_trip_upto(entries, entries.len());
}

} // verus!
