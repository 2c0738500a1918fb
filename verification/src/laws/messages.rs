//! What messages to a user promise.
use crate::adapter::http;
use crate::adapter::http::TargetError;
use crate::adapter::outbound;
use crate::adapter::outbound::AdapterError;
use crate::controller::netd_client;
use crate::controller::netd_client::{ClientErrorView, Question};
use crate::netd::daemon;
use crate::netd::daemon::FaultView;
use crate::netd::proto;
use crate::netd::proto::NetdResponse;
use crate::parser::error;
use crate::parser::error::ErrorView;
use crate::text;
use vstd::prelude::*;

verus! {

proof fn lemma_end(head: Seq<char>, tail: Seq<char>)
    ensures
        tail.is_suffix_of(head + tail),
{
    assert((head + tail).subrange(
        (head + tail).len() as int - tail.len() as int,
        (head + tail).len() as int,
    ) =~= tail);
}

/// What is said of an entry that cannot be read ends with what is wrong with it; of a bad
/// value it names the field too.
pub proof fn law_parse_errors_say_what_is_wrong(s: Seq<char>, field: Seq<char>)
    ensures
        s.is_suffix_of(error::error_text(ErrorView::UnsupportedFormat(s))),
        s.is_suffix_of(error::error_text(ErrorView::InvalidUri(s))),
        s.is_suffix_of(error::error_text(ErrorView::Base64Decode(s))),
        s.is_suffix_of(error::error_text(ErrorView::Json(s))),
        s.is_suffix_of(error::error_text(ErrorView::MissingField(s))),
        s.is_suffix_of(error::error_text(ErrorView::InvalidUuid(s))),
        s.is_suffix_of(error::error_text(ErrorView::InvalidEndpoint(s))),
        error::error_text(ErrorView::InvalidValue { field, value: s }) == "invalid value for "@
            + field + ": "@ + s,
{
    lemma_end("unsupported format or scheme: "@, s);
    lemma_end("malformed URI: "@, s);
    lemma_end("Base64 decoding failed: "@, s);
    lemma_end("JSON deserialization failed: "@, s);
    lemma_end("missing mandatory field: "@, s);
    lemma_end("invalid UUID: "@, s);
    lemma_end("invalid endpoint: "@, s);
}

/// What the daemon says of a subnet ends with the subnet, and what it says of a backend
/// that failed is what the backend said.
pub proof fn law_refusals_say_what_is_refused(s: Seq<char>)
    ensures
        s.is_suffix_of(daemon::fault_text(FaultView::InvalidSubnet(s))),
        s.is_suffix_of(daemon::fault_text(FaultView::InvalidSubnetV6(s))),
        daemon::fault_text(FaultView::Backend(s)) == s,
{
    lemma_end("invalid IPv4 subnet: "@, s);
    lemma_end("invalid IPv6 subnet: "@, s);
}

/// What a client says of a refusal ends with the daemon's reason, and of an unexpected
/// answer with the answer.
pub proof fn law_clients_say_what_was_answered(
    question: Question,
    reason: Seq<char>,
    reply: NetdResponse<Seq<char>>,
)
    ensures
        reason.is_suffix_of(
            netd_client::client_error_text(ClientErrorView::Refused { question, reason }),
        ),
        proto::response_text(reply).is_suffix_of(
            netd_client::client_error_text(ClientErrorView::Unexpected { question, reply }),
        ),
{
    lemma_end("netd rejected handshake: "@, reason);
    lemma_end("netd: "@, reason);
    lemma_end(netd_client::surprise(question), proto::response_text(reply));
}

/// What is said of a server that cannot be dialed, and of a target that cannot be asked,
/// holds the name between quotation marks.
pub proof fn law_refused_names_are_quoted(s: Seq<char>)
    ensures
        text::quoted(s).is_suffix_of(
            outbound::adapter_error_text(AdapterError::InvalidServer(s)),
        ),
        s.is_suffix_of(outbound::adapter_error_text(AdapterError::ConfigRejected(s))),
        text::quoted(s).is_suffix_of(http::target_error_text(TargetError::InvalidPort(s))),
        http::target_error_text(TargetError::NotHostPort(s)) == "target "@ + text::quoted(s)
            + " must be host:port"@,
        http::target_error_text(TargetError::EmptyHost(s)) == "target "@ + text::quoted(s)
            + " has an empty host"@,
{
    lemma_end("invalid server address: "@, text::quoted(s));
    lemma_end("sing-box rejected the config: "@, s);
    lemma_end("invalid target port in "@, text::quoted(s));
}

} // verus!
