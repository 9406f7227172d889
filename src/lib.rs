//! Parsing and reporting of a router's WAN status document: devices, their
//! network connectors and the connectors' address configuration.

pub mod addr;
pub mod connector;
pub mod error;
pub mod ipinfo;
pub mod json;
pub mod report;

pub use addr::IpAddress;
pub use connector::{
    get_connectors, parse_connector, AnyConnector, Connector, DHCPConnector, GenericConnector,
    WiFiClientConnector,
};
pub use error::ParseError;
pub use ipinfo::{parse_conn_ipinfo, parse_ipinfo, IPInfo};
pub use json::{get_i32, get_u32, lookup_index, make_string, str_or_none, FloatNumber, Json};
pub use report::{connector_row, device_summary, emit_device_section, json_to_string, pad_left, pad_right, wan_report};
