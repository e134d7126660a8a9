//! Calls of the Browser's debugging protocol: requests, and what each reply or
//! failure means for an observation and for an effect.
use crate::browser_error;
use crate::browser_error::BrowserError;
use crate::json;
use crate::json::{add_field, number_value, parse_json, render_json, text_value, JsonValue};
use crate::text;
use crate::text::{clip_bytes, joined};
use vstd::prelude::*;
use vstd::string::*;

verus! {

/// An error that the Browser reports is shown up to this many bytes.
pub const MAX_REPORTED_ERROR_BYTES: usize = 256;

/// The document of a request.
pub open spec fn request_document(
    id: u64,
    method: Seq<char>,
    params: json::JsonView,
) -> json::JsonView {
    json::JsonView::Object(
        seq![
            ("id"@, json::number(id)),
            ("method"@, json::JsonView::Text(method)),
            ("params"@, params),
        ],
    )
}

/// The identifier after the given one, up to the largest number that there is.
pub open spec fn following(id: u64) -> u64 {
    if id == u64::MAX {
        id
    } else {
        (id + 1) as u64
    }
}

/// Makes the next request: its identifier and its text.
pub fn next_request(next_id: &mut u64, method: &str, params: &JsonValue) -> (request: (
    u64,
    String,
))
    ensures
        request.0 == *old(next_id),
        *final(next_id) == following(*old(next_id)),
        request.1@ == json::rendered_json(request_document(*old(next_id), method@, params@)),
{
    let id = *next_id;
    *next_id = id.saturating_add(1);
    let mut fields: Vec<(String, JsonValue)> = Vec::new();
    add_field(&mut fields, "id", number_value(id));
    add_field(&mut fields, "method", text_value(method));
    add_field(&mut fields, "params", params.duplicate());
    proof {
        json::lemma_object_view(fields);
        assert(json::fields_view(fields@) =~= request_document(id, method@, params@)->Object_0);
    }
    let document = JsonValue::Object(fields);
    (id, render_json(&document))
}

/// What went wrong with a connection to the Browser.
#[derive(Debug)]
pub enum ConnectionFailure {
    /// No connection came about.
    Connect(String),
    /// Reading could not be bounded in time.
    ReadTimeout(String),
    /// Writing could not be bounded in time.
    WriteTimeout(String),
    /// The connection is not a plain one.
    NotPlain,
    /// The request could not be sent whole.
    Send(String),
}

/// The failure of a call whose connection failed. Until the request was handed
/// over nothing began; from then on an effect may have taken place.
pub open spec fn connection_error(failure: ConnectionFailure, effect: bool) -> browser_error::BrowserErrorView {
    match failure {
        ConnectionFailure::Connect(error) => browser_error::not_started_error(
            "cdp_connect_failed"@,
            "could not connect to loopback CDP: "@ + error@,
        ),
        ConnectionFailure::ReadTimeout(error) => browser_error::not_started_error(
            "cdp_timeout_config_failed"@,
            "could not bound CDP read timeout: "@ + error@,
        ),
        ConnectionFailure::WriteTimeout(error) => browser_error::not_started_error(
            "cdp_timeout_config_failed"@,
            "could not bound CDP write timeout: "@ + error@,
        ),
        ConnectionFailure::NotPlain => browser_error::not_started_error(
            "cdp_endpoint_invalid"@,
            "Browser CDP transport must be a plain loopback websocket"@,
        ),
        ConnectionFailure::Send(error) => if effect {
            browser_error::uncertain_error(
                "cdp_delivery_uncertain"@,
                "effect delivery became uncertain: "@ + error@,
                "snapshot"@,
            )
        } else {
            browser_error::observed_error("cdp_send_failed"@, error@, None)
        },
    }
}

/// The failure of a call whose connection failed.
pub fn connection_failed(failure: &ConnectionFailure, effect: bool) -> (error: BrowserError)
    ensures
        error@ == connection_error(*failure, effect),
{
    match failure {
        ConnectionFailure::Connect(error) => BrowserError::not_started(
            "cdp_connect_failed",
            joined("could not connect to loopback CDP: ", error.as_str()).as_str(),
        ),
        ConnectionFailure::ReadTimeout(error) => BrowserError::not_started(
            "cdp_timeout_config_failed",
            joined("could not bound CDP read timeout: ", error.as_str()).as_str(),
        ),
        ConnectionFailure::WriteTimeout(error) => BrowserError::not_started(
            "cdp_timeout_config_failed",
            joined("could not bound CDP write timeout: ", error.as_str()).as_str(),
        ),
        ConnectionFailure::NotPlain => BrowserError::not_started(
            "cdp_endpoint_invalid",
            "Browser CDP transport must be a plain loopback websocket",
        ),
        ConnectionFailure::Send(error) => if effect {
            BrowserError::uncertain(
                "cdp_delivery_uncertain",
                joined("effect delivery became uncertain: ", error.as_str()).as_str(),
                "snapshot",
            )
        } else {
            BrowserError::observed("cdp_send_failed", error.as_str(), None)
        },
    }
}

/// What came over the connection.
#[derive(Debug)]
pub enum CdpFrame {
    Text(String),
    Closed,
    /// A frame that is neither text nor the end.
    Other,
    Failed(String),
}

/// What a frame means for a call.
#[derive(Debug)]
pub enum CdpReply {
    /// It is not the reply: wait for the next frame.
    Wait,
    Done(JsonValue),
    Failed(BrowserError),
}

/// What a [`CdpReply`] stands for.
pub enum CdpReplyView {
    Wait,
    Done(json::JsonView),
    Failed(browser_error::BrowserErrorView),
}

impl View for CdpReply {
    type V = CdpReplyView;

    open spec fn view(&self) -> CdpReplyView {
        match self {
            CdpReply::Wait => CdpReplyView::Wait,
            CdpReply::Done(result) => CdpReplyView::Done(result@),
            CdpReply::Failed(error) => CdpReplyView::Failed(error@),
        }
    }
}

/// The failure that the Browser reported for a call.
pub open spec fn reported_error(error: json::JsonView, effect: bool) -> browser_error::BrowserErrorView {
    let shown = text::clipped(json::rendered_json(error), MAX_REPORTED_ERROR_BYTES as nat);
    if effect {
        browser_error::uncertain_error(
            "cdp_effect_error"@,
            "CDP effect returned an error after dispatch: "@ + shown,
            "snapshot"@,
        )
    } else {
        browser_error::observed_error(
            "cdp_error"@,
            "CDP observation returned an error: "@ + shown,
            None,
        )
    }
}

/// What a document means for the call `id`: one for another call is not the
/// reply; an error wins over a result; a reply without a result is empty.
pub open spec fn reply_of(document: json::JsonView, id: u64, effect: bool) -> CdpReplyView {
    if !(document.get("id"@) matches Some(held) && held.as_u64() == Some(id)) {
        CdpReplyView::Wait
    } else {
        match document.get("error"@) {
            Some(error) => CdpReplyView::Failed(reported_error(error, effect)),
            None => CdpReplyView::Done(
                match document.get("result"@) {
                    Some(result) => result,
                    None => json::JsonView::Object(Seq::empty()),
                },
            ),
        }
    }
}

/// What a frame means for the call `id`, given what its text spells.
pub open spec fn frame_means(
    frame: CdpFrame,
    spelled: Option<json::JsonView>,
    id: u64,
    effect: bool,
) -> CdpReplyView {
    match frame {
        CdpFrame::Text(_) => match spelled {
            Some(document) => reply_of(document, id, effect),
            None => CdpReplyView::Wait,
        },
        CdpFrame::Closed => CdpReplyView::Failed(
            if effect {
                browser_error::uncertain_error(
                    "cdp_closed"@,
                    "CDP connection closed after effect dispatch"@,
                    "snapshot"@,
                )
            } else {
                browser_error::observed_error("cdp_closed"@, "CDP connection closed"@, None)
            },
        ),
        CdpFrame::Other => CdpReplyView::Wait,
        CdpFrame::Failed(error) => CdpReplyView::Failed(
            if effect {
                browser_error::uncertain_error(
                    "cdp_receive_uncertain"@,
                    "effect result became uncertain: "@ + error@,
                    "snapshot"@,
                )
            } else {
                browser_error::observed_error("cdp_receive_failed"@, error@, None)
            },
        ),
    }
}

/// What a document means for the call `id`.
pub fn interpret_document(document: &JsonValue, id: u64, effect: bool) -> (reply: CdpReply)
    ensures
        reply@ == reply_of(document@, id, effect),
{
    let same = match document.get("id") {
        Some(held) => held.as_u64() == Some(id),
        None => false,
    };
    if !same {
        return CdpReply::Wait;
    }
    match document.get("error") {
        Some(error) => {
            let rendered = render_json(error);
            let shown = clip_bytes(rendered.as_str(), MAX_REPORTED_ERROR_BYTES);
            if effect {
                CdpReply::Failed(
                    BrowserError::uncertain(
                        "cdp_effect_error",
                        joined(
                            "CDP effect returned an error after dispatch: ",
                            shown.as_str(),
                        ).as_str(),
                        "snapshot",
                    ),
                )
            } else {
                CdpReply::Failed(
                    BrowserError::observed(
                        "cdp_error",
                        joined("CDP observation returned an error: ", shown.as_str()).as_str(),
                        None,
                    ),
                )
            }
        },
        None => match document.get("result") {
            Some(result) => CdpReply::Done(result.duplicate()),
            None => {
                let fields: Vec<(String, JsonValue)> = Vec::new();
                proof {
                    json::lemma_object_view(fields);
                    assert(json::fields_view(fields@) =~= Seq::<
                        (Seq<char>, json::JsonView),
                    >::empty());
                }
                CdpReply::Done(JsonValue::Object(fields))
            },
        },
    }
}

/// What the next frame means for the call `id`.
pub fn interpret_frame(frame: &CdpFrame, id: u64, effect: bool) -> (reply: CdpReply)
    ensures
        reply@ == frame_means(
            *frame,
            match *frame {
                CdpFrame::Text(held) => json::parsed_json(held@),
                _ => None,
            },
            id,
            effect,
        ),
{
    match frame {
        CdpFrame::Text(held) => match parse_json(held.as_str()) {
            Some(document) => interpret_document(&document, id, effect),
            None => CdpReply::Wait,
        },
        CdpFrame::Closed => if effect {
            CdpReply::Failed(
                BrowserError::uncertain(
                    "cdp_closed",
                    "CDP connection closed after effect dispatch",
                    "snapshot",
                ),
            )
        } else {
            CdpReply::Failed(BrowserError::observed("cdp_closed", "CDP connection closed", None))
        },
        CdpFrame::Other => CdpReply::Wait,
        CdpFrame::Failed(error) => if effect {
            CdpReply::Failed(
                BrowserError::uncertain(
                    "cdp_receive_uncertain",
                    joined("effect result became uncertain: ", error.as_str()).as_str(),
                    "snapshot",
                ),
            )
        } else {
            CdpReply::Failed(BrowserError::observed("cdp_receive_failed", error.as_str(), None))
        },
    }
}

/// Once an effect was handed over, every failure leaves its outcome open and
/// names the look that settles it; an observation never does.
pub proof fn law_dispatched_effect_is_uncertain(
    frame: CdpFrame,
    spelled: Option<json::JsonView>,
    id: u64,
    effect: bool,
)
    ensures
        frame_means(frame, spelled, id, effect) matches CdpReplyView::Failed(error) ==> {
            &&& effect ==> error.execution_state == browser_error::ExecutionState::OutcomeUnknown
                && error.recovery_action == Some("snapshot"@)
            &&& !effect ==> error.execution_state == browser_error::ExecutionState::Observed
        },
{
}

/// Before the request was handed over, even an effect did not begin.
pub proof fn law_unsent_effect_did_not_start(failure: ConnectionFailure)
    requires
        failure !is Send,
    ensures
        connection_error(failure, true).execution_state
            == browser_error::ExecutionState::NotStarted,
        connection_error(failure, true) == connection_error(failure, false),
{
}

/// A frame that is not the reply to the call changes nothing: only one with its
/// identifier ends a call that neither closed nor failed.
pub proof fn law_only_the_own_reply_counts(document: json::JsonView, id: u64, effect: bool)
    ensures
        reply_of(document, id, effect) !is Wait ==> (document.get("id"@) matches Some(held)
            && held.as_u64() == Some(id)),
{
}

/// A call is written down with its own number, its method and its parameters.
pub proof fn law_request_carries_its_call(id: u64, method: Seq<char>, params: json::JsonView)
    ensures
        request_document(id, method, params) is Object,
        (request_document(id, method, params)->Object_0).len() == 3,
        request_document(id, method, params).get("id"@) == Some(json::number(id)),
        request_document(id, method, params).get("method"@) == Some(json::JsonView::Text(method)),
        request_document(id, method, params).get("params"@) == Some(params),
{
    reveal_strlit("id");
    reveal_strlit("method");
    reveal_strlit("params");
    assert("id"@.len() == 2);
    assert("method"@.len() == 6);
    assert("params"@.len() == 6);
    assert("method"@[0] != "params"@[0]);
    let fields = request_document(id, method, params)->Object_0;
    json::law_field_is_found(fields, 0);
    json::law_field_is_found(fields, 1);
    json::law_field_is_found(fields, 2);
}

/// Calls are numbered one after the other, so that no two that follow each other
/// share a number while there is one left.
pub proof fn law_calls_are_numbered_apart(id: u64)
    ensures
        id < u64::MAX ==> following(id) == id + 1,
        id == u64::MAX ==> following(id) == u64::MAX,
        json::number(id).as_u64() == Some(id),
{
}

/// The reply to a call is told by its number. One that reports an error failed,
/// whatever else it holds, and the error is told; one that does not is done with
/// what it holds, or with nothing; a reply to another call, or to none, says
/// nothing.
pub proof fn law_reply_is_taken_by_its_number(
    document: json::JsonView,
    answered: u64,
    id: u64,
    effect: bool,
)
    requires
        document.get("id"@) matches Some(held) && held.as_u64() == Some(answered),
    ensures
        answered != id ==> reply_of(document, id, effect) is Wait,
        answered == id && document.get("error"@) is Some ==> reply_of(document, id, effect) is Failed,
        answered == id && document.get("error"@) is None ==> (reply_of(
            document,
            id,
            effect,
        ) matches CdpReplyView::Done(result) && match document.get("result"@) {
            Some(held) => result == held,
            None => result == json::JsonView::Object(Seq::empty()),
        }),
{
}

/// A frame without a number, one that is not text, and a text that is no document
/// are waited past; a connection that closes or fails ends the call.
pub proof fn law_call_waits_for_its_reply(
    frame: CdpFrame,
    spelled: Option<json::JsonView>,
    id: u64,
    effect: bool,
)
    ensures
        frame is Other ==> frame_means(frame, spelled, id, effect) is Wait,
        frame is Text && spelled is None ==> frame_means(frame, spelled, id, effect) is Wait,
        frame is Text && (spelled matches Some(document) && document.get("id"@) is None)
            ==> frame_means(frame, spelled, id, effect) is Wait,
        frame is Text ==> (spelled matches Some(document) ==> frame_means(
            frame,
            spelled,
            id,
            effect,
        ) == reply_of(document, id, effect)),
        frame is Closed ==> (frame_means(frame, spelled, id, effect) matches CdpReplyView::Failed(
            error,
        ) && error.kind == "cdp_closed"@),
        frame matches CdpFrame::Failed(reason) ==> (frame_means(
            frame,
            spelled,
            id,
            effect,
        ) matches CdpReplyView::Failed(error) && text::finishes_with(error.message, reason@)
            && error.kind == (if effect {
            "cdp_receive_uncertain"@
        } else {
            "cdp_receive_failed"@
        })),
{
    if let CdpFrame::Failed(reason) = frame {
        text::law_prefix_and_suffix(reason@, reason@, "effect result became uncertain: "@);
        text::law_prefix_and_suffix(reason@, reason@, Seq::empty());
        assert(Seq::<char>::empty() + reason@ =~= reason@);
    }
}

/// An error that the browser reports is told, as far as it is short: whether of an
/// effect that was dispatched or of a look, each under its own kind.
pub proof fn law_reported_error_is_told(error: json::JsonView, effect: bool)
    requires
        text::byte_len(json::rendered_json(error)) <= 256,
    ensures
        text::finishes_with(reported_error(error, effect).message, json::rendered_json(error)),
        effect ==> reported_error(error, effect).kind == "cdp_effect_error"@,
        !effect ==> reported_error(error, effect).kind == "cdp_error"@ && reported_error(
            error,
            effect,
        ).recovery_action is None,
{
    let shown = json::rendered_json(error);
    text::law_clipping_keeps_the_longest_beginning(shown, 256);
    text::law_prefix_and_suffix(
        shown,
        shown,
        "CDP effect returned an error after dispatch: "@,
    );
    text::law_prefix_and_suffix(shown, shown, "CDP observation returned an error: "@);
}

/// A connection that cannot be made fails under the kind of what could not be
/// done, and says why. Only what failed while it was being sent may have taken
/// effect.
pub proof fn law_failed_connection_says_why(failure: ConnectionFailure, effect: bool)
    ensures
        match failure {
            ConnectionFailure::Connect(reason) => connection_error(failure, effect).kind
                == "cdp_connect_failed"@ && text::finishes_with(
                connection_error(failure, effect).message,
                reason@,
            ),
            ConnectionFailure::ReadTimeout(reason) => connection_error(failure, effect).kind
                == "cdp_timeout_config_failed"@ && text::finishes_with(
                connection_error(failure, effect).message,
                reason@,
            ),
            ConnectionFailure::WriteTimeout(reason) => connection_error(failure, effect).kind
                == "cdp_timeout_config_failed"@ && text::finishes_with(
                connection_error(failure, effect).message,
                reason@,
            ),
            ConnectionFailure::NotPlain => connection_error(failure, effect).kind
                == "cdp_endpoint_invalid"@,
            ConnectionFailure::Send(reason) => text::finishes_with(
                connection_error(failure, effect).message,
                reason@,
            ) && connection_error(failure, effect).kind == (if effect {
                "cdp_delivery_uncertain"@
            } else {
                "cdp_send_failed"@
            }),
        },
        failure is Send ==> connection_error(failure, true).execution_state
            == browser_error::ExecutionState::OutcomeUnknown && connection_error(
            failure,
            true,
        ).recovery_action == Some("snapshot"@),
        failure is Send ==> connection_error(failure, false).execution_state
            == browser_error::ExecutionState::Observed,
{
    match failure {
        ConnectionFailure::Connect(reason) => {
            text::law_prefix_and_suffix(
                reason@,
                reason@,
                "could not connect to loopback CDP: "@,
            );
        },
        ConnectionFailure::ReadTimeout(reason) => {
            text::law_prefix_and_suffix(reason@, reason@, "could not bound CDP read timeout: "@);
        },
        ConnectionFailure::WriteTimeout(reason) => {
            text::law_prefix_and_suffix(
                reason@,
                reason@,
                "could not bound CDP write timeout: "@,
            );
        },
        ConnectionFailure::NotPlain => {},
        ConnectionFailure::Send(reason) => {
            text::law_prefix_and_suffix(reason@, reason@, "effect delivery became uncertain: "@);
            text::law_prefix_and_suffix(reason@, reason@, Seq::empty());
            assert(Seq::<char>::empty() + reason@ =~= reason@);
        },
    }
}

} // verus!
