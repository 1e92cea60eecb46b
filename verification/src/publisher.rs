//! The update request sent to the provider, and what its reply means.

use vstd::prelude::*;
use vstd::utf8::encode_utf8;
use crate::address::Ipv6Address;
use crate::form::{form_encode, lemma_plain_text_unchanged, lemma_read_query, query_text, read_query};
use crate::text::address_text;

verus! {

/// The provider's update endpoint, to which the query is appended.
pub const UPDATE_ENDPOINT: &'static str = "https://dynv6.com/api/update";

/// The reply of the transport to the one GET request.
#[derive(Clone, Debug, PartialEq, Eq)]
pub enum TransportReply {
    /// A response arrived, with this HTTP status.
    Status(u16),
    /// No response arrived; the transport's reason.
    Failed(String),
}

/// Why an update failed.
#[derive(Clone, Debug, PartialEq, Eq)]
pub enum FailureReason {
    /// The provider answered with a status outside 200..=299.
    HttpStatus(u16),
    /// The request did not complete (name resolution, connection, TLS).
    Transport(String),
}

/// How the update ended.
#[derive(Clone, Debug, PartialEq, Eq)]
pub enum UpdateOutcome {
    Success,
    Failure(FailureReason),
}

/// The endpoint could not be made into a URL.
#[derive(Clone, Copy, Debug, PartialEq, Eq)]
pub struct RequestBuildError;

/// A URL without query, followed by `?` and three query parameters that `&`
/// separates.
pub open spec fn with_query(
    url: Seq<char>,
    first: (Seq<char>, Seq<char>),
    second: (Seq<char>, Seq<char>),
    third: (Seq<char>, Seq<char>),
) -> Seq<char> {
    url + seq!['?'] + query_text(first, second, third)
}

/// The text of the update request for a zone, its token and the address in
/// its textual form: the endpoint with the parameters `zone`, `token` and
/// `ipv6`, in this order.
pub open spec fn update_url_text(ipv6: Seq<char>, zone: Seq<char>, token: Seq<char>) -> Seq<char> {
    with_query(UPDATE_ENDPOINT@, ("zone"@, zone), ("token"@, token), ("ipv6"@, ipv6))
}

/// The request as it goes over the wire: the endpoint, then
/// `?zone=`, `&token=` and `&ipv6=`, each followed by the form encoding of
/// its value.
pub proof fn lemma_update_url_shape(ipv6: Seq<char>, zone: Seq<char>, token: Seq<char>)
    ensures
        update_url_text(ipv6, zone, token) == "https://dynv6.com/api/update?zone="@ + form_encode(
            encode_utf8(zone),
        ) + "&token="@ + form_encode(encode_utf8(token)) + "&ipv6="@ + form_encode(
            encode_utf8(ipv6),
        ),
{
    reveal_strlit("https://dynv6.com/api/update");
    reveal_strlit("https://dynv6.com/api/update?zone=");
    reveal_strlit("&token=");
    reveal_strlit("&ipv6=");
    reveal_strlit("zone");
    reveal_strlit("token");
    reveal_strlit("ipv6");
    lemma_plain_text_unchanged("zone"@);
    lemma_plain_text_unchanged("token"@);
    lemma_plain_text_unchanged("ipv6"@);
    assert(update_url_text(ipv6, zone, token) =~= "https://dynv6.com/api/update?zone="@
        + form_encode(encode_utf8(zone)) + "&token="@ + form_encode(encode_utf8(token))
        + "&ipv6="@ + form_encode(encode_utf8(ipv6)));
}

/// The provider reads from the request exactly the parameters `zone`,
/// `token` and `ipv6`, in this order, with the values they were given and
/// nothing else, whatever characters the values hold.
pub proof fn lemma_update_url_reads_back(ipv6: Seq<char>, zone: Seq<char>, token: Seq<char>)
    ensures
        update_url_text(ipv6, zone, token) == UPDATE_ENDPOINT@ + seq!['?'] + query_text(
            ("zone"@, zone),
            ("token"@, token),
            ("ipv6"@, ipv6),
        ),
        read_query(query_text(("zone"@, zone), ("token"@, token), ("ipv6"@, ipv6))) == seq![
            (encode_utf8("zone"@), encode_utf8(zone)),
            (encode_utf8("token"@), encode_utf8(token)),
            (encode_utf8("ipv6"@), encode_utf8(ipv6)),
        ],
{
    lemma_read_query(("zone"@, zone), ("token"@, token), ("ipv6"@, ipv6));
}

/// Whether `reqwest::Url::parse_with_params` accepts a text as an absolute
/// URL.
pub uninterp spec fn url_accepted(input: Seq<char>) -> bool;

/// Calls `reqwest::Url::parse_with_params`, which parses `endpoint` and
/// appends the three pairs to its query, and hands back the URL's text;
/// `None` where the parser refuses `endpoint`.
///
/// Taken on trust: for the update endpoint, which holds neither query nor
/// fragment and which the parser keeps as written, the text is the
/// endpoint, `?`, and the pairs in their order, each as `name=value` in the
/// form encoding of its UTF-8 bytes, with `&` between two pairs.
#[verifier::external_body]
fn endpoint_with_pairs(
    endpoint: &str,
    first: (&str, &str),
    second: (&str, &str),
    third: (&str, &str),
) -> (res: Option<String>)
    requires
        endpoint@ == UPDATE_ENDPOINT@,
    ensures
        res is Some <==> url_accepted(endpoint@),
        res matches Some(text) ==> text@ == with_query(
            endpoint@,
            (first.0@, first.1@),
            (second.0@, second.1@),
            (third.0@, third.1@),
        ),
{
    match reqwest::Url::parse_with_params(endpoint, [first, second, third]) {
        Ok(url) => Some(String::from(url)),
        Err(_) => None,
    }
}

/// Builds the URL of the update request for the address `ip`: the endpoint
/// with the parameters `zone`, `token` and `ipv6`, the last being the address
/// in its textual form. The request cannot be built only where the URL parser
/// refuses the endpoint.
pub fn update_url(ip: &Ipv6Address, zone: &str, token: &str) -> (res: Result<
    String,
    RequestBuildError,
>)
    ensures
        res is Ok <==> url_accepted(UPDATE_ENDPOINT@),
        res matches Ok(url) ==> url@ == update_url_text(address_text(*ip), zone@, token@),
{
    let ipv6 = ip.to_text();
    match endpoint_with_pairs(
        UPDATE_ENDPOINT,
        ("zone", zone),
        ("token", token),
        ("ipv6", ipv6.as_str()),
    ) {
        Some(url) => Ok(url),
        None => Err(RequestBuildError),
    }
}

/// A status of the successful class, 200 to 299.
pub open spec fn spec_is_success(status: u16) -> bool {
    200 <= status < 300
}

/// What a reply means: `Success` for a status from 200 to 299, else a failure
/// that carries the status; a failure with the transport's reason where no
/// response arrived.
pub open spec fn outcome_of(reply: TransportReply) -> UpdateOutcome {
    match reply {
        TransportReply::Status(status) => if spec_is_success(status) {
            UpdateOutcome::Success
        } else {
            UpdateOutcome::Failure(FailureReason::HttpStatus(status))
        },
        TransportReply::Failed(reason) => UpdateOutcome::Failure(FailureReason::Transport(reason)),
    }
}

/// Classifies the reply to the update request.
pub fn classify_reply(reply: TransportReply) -> (outcome: UpdateOutcome)
    ensures
        outcome == outcome_of(reply),
{
    match reply {
        TransportReply::Status(status) => {
            if 200 <= status && status < 300 {
                UpdateOutcome::Success
            } else {
                UpdateOutcome::Failure(FailureReason::HttpStatus(status))
            }
        },
        TransportReply::Failed(reason) => UpdateOutcome::Failure(FailureReason::Transport(reason)),
    }
}

} // verus!
