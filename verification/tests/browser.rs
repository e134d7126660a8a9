use webcodex::browser_call::{
    connection_failed, interpret_document, interpret_frame, next_request, CdpFrame, CdpReply,
    ConnectionFailure,
};
use webcodex::browser_error::{
    post_effect_error, pre_dispatch_error, staged_error, BrowserError, EffectStage, ExecutionState,
};
use webcodex::browser_page::{
    accept_browser_endpoint, accept_page_endpoint, ax_value, box_coordinates, browser_endpoint,
    created_page, is_actionable, key_event, launch_poll, loader_id, mouse_event, page_endpoint,
    page_list, page_list_address, parse_devtools_active_port, read_snapshot, screenshot_data,
    shutdown_failed, with_loader, LaunchPoll, SnapshotLimits, UrlParts,
};
use webcodex::chromium::{chromium_candidates, program_variables, Candidate, Platform};
use webcodex::json::{number_value, parse_json, render_json, JsonValue};

fn tree(text: &str) -> JsonValue {
    parse_json(text).unwrap()
}

fn list(text: &str) -> Vec<JsonValue> {
    match tree(text) {
        JsonValue::Array(items) => items,
        other => panic!("{other:?}"),
    }
}

fn failure(reply: CdpReply) -> BrowserError {
    match reply {
        CdpReply::Failed(error) => error,
        other => panic!("{other:?}"),
    }
}

#[test]
fn devtools_active_port_is_parsed_only_as_loopback_browser_path_input() {
    assert_eq!(
        parse_devtools_active_port("9222\n/devtools/browser/opaque\n"),
        Some((9222, "/devtools/browser/opaque".to_string()))
    );
    assert!(parse_devtools_active_port("0\n/devtools/browser/x\n").is_none());
    assert!(parse_devtools_active_port("9222\nws://evil.example/devtools/browser/x\n").is_none());
    assert!(parse_devtools_active_port("9222\n/devtools/page/x\n").is_none());
}

#[test]
fn effect_composition_preserves_pre_dispatch_and_partial_effect_certainty() {
    let pre = pre_dispatch_error(BrowserError::observed("probe_failed", "probe", None));
    assert_eq!(pre.execution_state, ExecutionState::NotStarted);
    assert_eq!(pre.recovery_action, None);

    let partial = post_effect_error(
        BrowserError::not_started("second_stage_not_started", "second stage"),
        "snapshot",
    );
    assert_eq!(partial.execution_state, ExecutionState::OutcomeUnknown);
    assert_eq!(partial.recovery_action, Some("snapshot"));
}

#[test]
fn fake_cdp_observation_round_trip_is_deterministic() {
    let mut next_id = 1;
    let (id, request) = next_request(&mut next_id, "Page.getFrameTree", &tree("{}"));
    let request = tree(&request);
    assert_eq!(request.get("id").and_then(|held| held.as_u64()), Some(id));
    assert_eq!(request.text_field("method"), Some("Page.getFrameTree"));
    let reply = format!(
        "{{\"id\": {id}, \"result\": {{\"frameTree\": {{\"frame\": {{\"loaderId\": \"doc\"}}}}}}}}"
    );
    match interpret_frame(&CdpFrame::Text(reply), id, false) {
        CdpReply::Done(result) => assert_eq!(loader_id(&result), Some("doc")),
        other => panic!("{other:?}"),
    }
    assert_eq!(next_id, 2);
}

#[test]
fn fake_cdp_close_after_effect_dispatch_is_outcome_unknown() {
    let mut next_id = 7;
    let (id, _) = next_request(
        &mut next_id,
        "Page.navigate",
        &tree("{\"url\": \"https://example.test/\"}"),
    );
    let error = failure(interpret_frame(&CdpFrame::Closed, id, true));
    assert_eq!(error.execution_state, ExecutionState::OutcomeUnknown);
    assert_eq!(error.recovery_action, Some("snapshot"));
}

#[test]
fn an_observation_that_fails_is_observed() {
    let closed = failure(interpret_frame(&CdpFrame::Closed, 1, false));
    assert_eq!(closed.kind, "cdp_closed");
    assert_eq!(closed.execution_state, ExecutionState::Observed);
    let failed = failure(interpret_frame(&CdpFrame::Failed("reset".to_string()), 1, false));
    assert_eq!((failed.kind, failed.message.as_str()), ("cdp_receive_failed", "reset"));
    let failed = failure(interpret_frame(&CdpFrame::Failed("reset".to_string()), 1, true));
    assert_eq!(failed.kind, "cdp_receive_uncertain");
    assert_eq!(failed.message, "effect result became uncertain: reset");
}

#[test]
fn only_the_own_reply_counts() {
    assert!(matches!(
        interpret_document(&tree("{\"id\": 2, \"result\": {}}"), 1, false),
        CdpReply::Wait
    ));
    assert!(matches!(
        interpret_frame(&CdpFrame::Text("no document".to_string()), 1, true),
        CdpReply::Wait
    ));
    assert!(matches!(interpret_frame(&CdpFrame::Other, 1, true), CdpReply::Wait));
    let error = failure(interpret_document(
        &tree("{\"id\": 1, \"error\": {\"code\": 3}}"),
        1,
        true,
    ));
    assert_eq!(error.kind, "cdp_effect_error");
    assert_eq!(
        error.message,
        "CDP effect returned an error after dispatch: {\"code\":3}"
    );
    let error = failure(interpret_document(
        &tree("{\"id\": 1, \"error\": {\"code\": 3}}"),
        1,
        false,
    ));
    assert_eq!(error.kind, "cdp_error");
    match interpret_document(&tree("{\"id\": 1}"), 1, false) {
        CdpReply::Done(result) => assert_eq!(render_json(&result), "{}"),
        other => panic!("{other:?}"),
    }
}

#[test]
fn connections_that_fail_did_not_start_an_effect() {
    let connect = connection_failed(&ConnectionFailure::Connect("refused".to_string()), true);
    assert_eq!(connect.kind, "cdp_connect_failed");
    assert_eq!(connect.message, "could not connect to loopback CDP: refused");
    assert_eq!(connect.execution_state, ExecutionState::NotStarted);
    let read = connection_failed(&ConnectionFailure::ReadTimeout("x".to_string()), true);
    assert_eq!(read.message, "could not bound CDP read timeout: x");
    let write = connection_failed(&ConnectionFailure::WriteTimeout("x".to_string()), true);
    assert_eq!(write.message, "could not bound CDP write timeout: x");
    let plain = connection_failed(&ConnectionFailure::NotPlain, false);
    assert_eq!(plain.kind, "cdp_endpoint_invalid");
    let sent = connection_failed(&ConnectionFailure::Send("broken".to_string()), true);
    assert_eq!(sent.kind, "cdp_delivery_uncertain");
    assert_eq!(sent.execution_state, ExecutionState::OutcomeUnknown);
    let sent = connection_failed(&ConnectionFailure::Send("broken".to_string()), false);
    assert_eq!(sent.kind, "cdp_send_failed");
}

#[test]
fn a_failure_is_as_certain_as_its_stage() {
    let make = || BrowserError::observed("k", "m", None);
    assert_eq!(
        staged_error(EffectStage::Probe, make(), "snapshot").execution_state,
        ExecutionState::NotStarted
    );
    assert_eq!(
        staged_error(EffectStage::First, make(), "snapshot").execution_state,
        ExecutionState::Observed
    );
    assert_eq!(
        staged_error(EffectStage::Later, make(), "snapshot").execution_state,
        ExecutionState::OutcomeUnknown
    );
    let kept = BrowserError::uncertain("k", "m", "pages");
    assert_eq!(kept.recovery_action, Some("pages"));
}

#[test]
fn a_launch_is_ready_before_it_is_anything_else() {
    match launch_poll(Some("9222\n/devtools/browser/x"), true, true) {
        LaunchPoll::Ready { port, path } => {
            assert_eq!((port, path.as_str()), (9222, "/devtools/browser/x"))
        }
        other => panic!("{other:?}"),
    }
    assert!(matches!(launch_poll(None, false, false), LaunchPoll::Wait));
    match launch_poll(Some(""), true, false) {
        LaunchPoll::Failed(error) => assert_eq!(error.kind, "launch_failed"),
        other => panic!("{other:?}"),
    }
    match launch_poll(None, false, true) {
        LaunchPoll::Failed(error) => assert_eq!(error.kind, "launch_timeout"),
        other => panic!("{other:?}"),
    }
}

#[test]
fn endpoints_are_on_this_machine() {
    let endpoint = browser_endpoint(9222, "/devtools/browser/x").unwrap();
    assert_eq!(endpoint.address, "ws://127.0.0.1:9222/devtools/browser/x");
    assert_eq!(endpoint.host.as_deref(), Some("127.0.0.1"));
    assert_eq!(endpoint.port, Some(9222));
    assert_eq!(page_list_address(&endpoint), "http://127.0.0.1:9222/json/list");
    let named = UrlParts {
        address: "ws://localhost:1/".to_string(),
        host: Some("localhost".to_string()),
        port: Some(1),
    };
    assert_eq!(
        accept_browser_endpoint(Some(named)).unwrap_err().message,
        "Browser CDP endpoint was not loopback"
    );
    assert_eq!(
        accept_browser_endpoint(None).unwrap_err().message,
        "Browser returned an invalid loopback CDP endpoint"
    );
    let elsewhere = UrlParts {
        address: "ws://example.test/".to_string(),
        host: Some("example.test".to_string()),
        port: None,
    };
    assert_eq!(
        accept_page_endpoint(Some(elsewhere)).unwrap_err().message,
        "page CDP endpoint is not loopback"
    );
    assert_eq!(
        accept_page_endpoint(None).unwrap_err().message,
        "page CDP endpoint is invalid"
    );
}

#[test]
fn pages_are_found_in_the_list() {
    let entries = list(
        "[{\"id\": \"w\", \"type\": \"worker\"},
          {\"id\": \"p\", \"type\": \"page\", \"title\": \"T\", \"url\": \"http://a/\",
           \"webSocketDebuggerUrl\": \"ws://LOCALHOST:9222/devtools/page/p\"},
          {\"id\": \"q\", \"type\": \"page\", \"webSocketDebuggerUrl\": \"ws://example.test/\"},
          {\"id\": \"r\", \"type\": \"page\"}]",
    );
    let pages = page_list(&entries, 2);
    assert_eq!(pages.len(), 2);
    assert_eq!(pages[0].target_id, "p");
    assert_eq!(pages[0].title, "T");
    assert_eq!(pages[0].document_id, "http://a/");
    assert_eq!(pages[1].title, "");
    assert_eq!(pages[1].document_id, "about:blank");
    let endpoint = page_endpoint(&entries, "p").unwrap();
    assert_eq!(endpoint.address, "ws://localhost:9222/devtools/page/p");
    assert_eq!(page_endpoint(&entries, "q").unwrap_err().kind, "cdp_endpoint_invalid");
    assert_eq!(page_endpoint(&entries, "r").unwrap_err().kind, "stale_page");
    assert_eq!(page_endpoint(&entries, "gone").unwrap_err().kind, "stale_page");
    let frame = tree("{\"frameTree\": {\"frame\": {\"loaderId\": \"L\"}}}");
    assert_eq!(page_list(&entries, 0).len(), 1);
    let page = page_list(&entries, 1).pop().unwrap();
    assert_eq!(with_loader(page, Some(&frame)).document_id, "L");
}

#[test]
fn replies_are_read() {
    assert_eq!(created_page(&tree("{\"targetId\": \"t\"}")).unwrap(), "t");
    let error = created_page(&tree("{}")).unwrap_err();
    assert_eq!(error.kind, "create_page_result_invalid");
    assert_eq!(error.execution_state, ExecutionState::OutcomeUnknown);
    assert_eq!(error.recovery_action, Some("pages"));
    assert_eq!(screenshot_data(&tree("{\"data\": \"QUJD\"}")).unwrap(), "QUJD");
    assert_eq!(screenshot_data(&tree("{}")).unwrap_err().kind, "invalid_image");
    assert!(shutdown_failed("x").message.contains('x'));
}

#[test]
fn snapshots_hold_what_fits() {
    let frame = tree("{}");
    let nodes = tree(
        "{\"nodes\": [
            {\"role\": {\"value\": \"RootWebArea\"}},
            {\"role\": {\"value\": \"button\"}, \"name\": {\"value\": \"Press here now\"}, \"backendDOMNodeId\": 4},
            {\"role\": {\"value\": \"button\"}},
            {\"name\": {\"value\": \"n\"}}]}",
    );
    let limits = SnapshotLimits { max_nodes: 10, max_bytes: 10_000, max_text_bytes: 11 };
    let all = read_snapshot(&frame, &nodes, limits);
    assert_eq!(all.document_id, "unknown-document");
    assert!(!all.truncated);
    assert_eq!(all.nodes.len(), 3);
    assert_eq!(all.nodes[0].role, "button");
    assert_eq!(all.nodes[0].name.as_deref(), Some("Press here "));
    assert!(all.nodes[0].actionable);
    assert!(!all.nodes[1].actionable);
    assert_eq!(all.nodes[2].role, "generic");
    let limits = SnapshotLimits { max_nodes: 10, max_bytes: 100, max_text_bytes: 20 };
    let few = read_snapshot(&frame, &nodes, limits);
    assert!(few.truncated);
    assert_eq!(few.nodes.len(), 1);
    assert!(few.nodes[0].actionable);
    let limits = SnapshotLimits { max_nodes: 1, max_bytes: 10_000, max_text_bytes: 20 };
    let none = read_snapshot(&frame, &nodes, limits);
    assert!(none.truncated);
    assert!(none.nodes.is_empty());
    assert!(is_actionable("link"));
    assert!(!is_actionable("generic"));
    assert_eq!(
        ax_value(&tree("{\"name\": {\"value\": \"abc\"}}"), "name", 2).as_deref(),
        Some("ab")
    );
}

#[test]
fn boxes_and_events_are_spelled() {
    let model = tree("{\"model\": {\"content\": [1, 2, 3.5, 4, 5, 6, 7, 8]}}");
    assert_eq!(box_coordinates(&model).unwrap().len(), 8);
    assert_eq!(
        box_coordinates(&tree("{}")).unwrap_err().message,
        "element has no current box model"
    );
    assert_eq!(
        box_coordinates(&tree("{\"model\": {\"content\": [1, \"2\"]}}")).unwrap_err().message,
        "element box model is invalid"
    );
    assert_eq!(
        render_json(&mouse_event(true, &number_value(3), &number_value(4))),
        "{\"button\":\"left\",\"clickCount\":1,\"type\":\"mousePressed\",\"x\":3,\"y\":4}"
    );
    assert_eq!(
        render_json(&key_event(true, "Enter", "Enter", Some("\r"))),
        "{\"code\":\"Enter\",\"key\":\"Enter\",\"text\":\"\\r\",\"type\":\"keyDown\"}"
    );
    assert_eq!(
        render_json(&key_event(false, "Enter", "Enter", Some("\r"))),
        "{\"code\":\"Enter\",\"key\":\"Enter\",\"type\":\"keyUp\"}"
    );
}

#[test]
fn browsers_are_looked_for_in_order() {
    assert_eq!(program_variables(), ["PROGRAMFILES", "PROGRAMFILES(X86)", "LOCALAPPDATA"]);
    let bases = vec![true, false, true];
    let candidates = chromium_candidates(Platform::Windows, &bases);
    assert_eq!(candidates.len(), 6);
    match &candidates[0] {
        Candidate::Below(base, rest) => {
            assert_eq!(*base, 0);
            assert_eq!(*rest, "Microsoft/Edge/Application/msedge.exe");
        }
        other => panic!("{other:?}"),
    }
    match &candidates[3] {
        Candidate::Below(base, rest) => {
            assert_eq!(*base, 2);
            assert_eq!(*rest, "Google/Chrome/Application/chrome.exe");
        }
        other => panic!("{other:?}"),
    }
    assert!(matches!(candidates[5], Candidate::OnPath("chrome.exe")));
    let unix = chromium_candidates(Platform::OtherUnix, &bases);
    assert_eq!(unix.len(), 4);
    assert!(matches!(unix[0], Candidate::OnPath("google-chrome")));
    let mac = chromium_candidates(Platform::Macos, &bases);
    assert!(matches!(
        mac[0],
        Candidate::File("/Applications/Google Chrome.app/Contents/MacOS/Google Chrome")
    ));
    assert!(chromium_candidates(Platform::Other, &bases).is_empty());
}
