use vstd::prelude::*;

verus! {

/// Why a connector or its address configuration could not be parsed.
#[derive(Clone, Copy, PartialEq, Eq, Structural, Debug)]
pub enum ParseError {
    /// A connector has no boolean `enabled` field.
    MissingRequiredField,
    /// A text that must be an IP address is not one, or an address list holds
    /// something other than a string.
    InvalidAddress,
    /// A `WiFiClient` connector's device has no `diagnostics` object.
    MissingDiagnostics,
    /// The status document has no boolean `success`, or, when it reports
    /// success, no `data.devices` object whose values are all objects.
    MalformedDocument,
}

} // verus!
