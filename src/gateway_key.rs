use vstd::prelude::*;
use vstd::string::StringSliceAdditionalSpecFns;

verus! {

/// A byte that may stand in an HTTP header value: visible ASCII, a space, a tab, or any
/// byte above ASCII.
pub open spec fn header_value_byte(b: u8) -> bool {
    (b >= 32 && b != 127) || b == 9
}

pub open spec fn header_value_ok(s: Seq<u8>) -> bool {
    forall|i: int| 0 <= i < s.len() ==> header_value_byte(#[trigger] s[i])
}

/// Relies on `http::HeaderValue::from_str`, which accepts a text exactly when each of its
/// bytes is a tab, or at least 32 and not 127.
#[verifier::external_body]
fn header_value_accepts(s: &str) -> (r: bool)
    ensures
        r == header_value_ok(s.spec_bytes()),
{
    http::HeaderValue::from_str(s).is_ok()
}

/// The name of the header that carries the gateway key.
pub const GATEWAY_KEY_HEADER: &'static str = "x-throttling-bypass";

#[derive(Clone, Copy, Debug, PartialEq, Eq, Structural)]
pub enum GatewayKeyError {
    /// The key cannot stand in a header value.
    InvalidApiKeyFormat,
}

/// Checks that a gateway key can be sent as the value of the throttling-bypass header.
pub fn check_gateway_key(key: &str) -> (r: Result<(), GatewayKeyError>)
    ensures
        r is Ok <==> header_value_ok(key.spec_bytes()),
        r is Err ==> r == Err::<(), GatewayKeyError>(GatewayKeyError::InvalidApiKeyFormat),
{
    if header_value_accepts(key) {
        Ok(())
    } else {
        Err(GatewayKeyError::InvalidApiKeyFormat)
    }
}

} // verus!
