use tracklist::live::{
    advance, encode_event, relay, EncodeError, LiveAction, LivePhase, LiveSignal, DEBUG_MARKER,
};

#[test]
fn a_debug_build_greets_with_the_marker() {
    let step = advance(LivePhase::Opening, LiveSignal::Upgraded { debug: true });
    assert_eq!(step, (LivePhase::Greeting, LiveAction::Send("{\"debug_mode\": true}".to_string())));
    assert_eq!(DEBUG_MARKER, "{\"debug_mode\": true}");
}

#[test]
fn a_release_build_waits_at_once() {
    let step = advance(LivePhase::Opening, LiveSignal::Upgraded { debug: false });
    assert_eq!(step, (LivePhase::Streaming, LiveAction::AwaitEvent));
}

#[test]
fn the_greeting_may_fail() {
    assert_eq!(
        advance(LivePhase::Greeting, LiveSignal::Sent),
        (LivePhase::Streaming, LiveAction::AwaitEvent)
    );
    assert_eq!(
        advance(LivePhase::Greeting, LiveSignal::SendFailed),
        (LivePhase::Streaming, LiveAction::AwaitEvent)
    );
}

#[test]
fn an_encoded_event_is_sent() {
    let step = advance(LivePhase::Streaming, LiveSignal::Encoded(Ok("\"foo\"".to_string())));
    assert_eq!(step, (LivePhase::Sending, LiveAction::Send("\"foo\"".to_string())));
}

#[test]
fn after_a_send_the_connection_waits_again() {
    assert_eq!(
        advance(LivePhase::Sending, LiveSignal::Sent),
        (LivePhase::Streaming, LiveAction::AwaitEvent)
    );
}

#[test]
fn a_failed_send_closes_the_connection() {
    assert_eq!(
        advance(LivePhase::Sending, LiveSignal::SendFailed),
        (LivePhase::Closed, LiveAction::Close)
    );
}

#[test]
fn an_event_that_cannot_be_encoded_closes_the_connection() {
    assert_eq!(
        advance(LivePhase::Streaming, LiveSignal::Encoded(Err(EncodeError))),
        (LivePhase::Closed, LiveAction::Close)
    );
}

#[test]
fn a_closed_connection_stays_closed() {
    let signals = || {
        vec![
            LiveSignal::Upgraded { debug: true },
            LiveSignal::Upgraded { debug: false },
            LiveSignal::Encoded(Ok("x".to_string())),
            LiveSignal::Encoded(Err(EncodeError)),
            LiveSignal::Sent,
            LiveSignal::SendFailed,
        ]
    };
    for signal in signals() {
        assert_eq!(advance(LivePhase::Closed, signal), (LivePhase::Closed, LiveAction::Close));
    }
}

#[test]
fn an_unexpected_signal_closes_the_connection() {
    let closed = (LivePhase::Closed, LiveAction::Close);
    assert_eq!(advance(LivePhase::Opening, LiveSignal::Sent), closed);
    assert_eq!(advance(LivePhase::Opening, LiveSignal::Encoded(Ok("x".to_string()))), closed);
    assert_eq!(advance(LivePhase::Greeting, LiveSignal::Upgraded { debug: true }), closed);
    assert_eq!(advance(LivePhase::Greeting, LiveSignal::Encoded(Ok("x".to_string()))), closed);
    assert_eq!(advance(LivePhase::Streaming, LiveSignal::Sent), closed);
    assert_eq!(advance(LivePhase::Streaming, LiveSignal::SendFailed), closed);
    assert_eq!(advance(LivePhase::Sending, LiveSignal::Encoded(Ok("x".to_string()))), closed);
    assert_eq!(advance(LivePhase::Sending, LiveSignal::Upgraded { debug: false }), closed);
}

#[test]
fn an_event_is_encoded_as_a_json_string() {
    assert_eq!(encode_event("foo"), Ok("\"foo\"".to_string()));
    assert_eq!(encode_event(""), Ok("\"\"".to_string()));
}

#[test]
fn encoding_escapes_what_json_asks_for() {
    assert_eq!(encode_event("say \"hi\""), Ok("\"say \\\"hi\\\"\"".to_string()));
    assert_eq!(encode_event("a\\b"), Ok("\"a\\\\b\"".to_string()));
    assert_eq!(encode_event("line\nbreak\ttab"), Ok("\"line\\nbreak\\ttab\"".to_string()));
    assert_eq!(encode_event("\u{1}"), Ok("\"\\u0001\"".to_string()));
    assert_eq!(encode_event("né"), Ok("\"né\"".to_string()));
}

#[test]
fn encoding_agrees_with_the_encoder() {
    for event in ["foo", "", "a\"b", "tab\t", "\u{7f}", "日本語", "</script>"] {
        assert_eq!(encode_event(event), Ok(serde_json::to_string(event).unwrap()));
    }
}

#[test]
fn a_streaming_connection_relays_the_event_as_json() {
    assert_eq!(
        relay(LivePhase::Streaming, "foo"),
        (LivePhase::Sending, LiveAction::Send("\"foo\"".to_string()))
    );
    assert_eq!(
        relay(LivePhase::Streaming, "a\"b"),
        (LivePhase::Sending, LiveAction::Send("\"a\\\"b\"".to_string()))
    );
}

#[test]
fn only_a_streaming_connection_relays() {
    for phase in [LivePhase::Opening, LivePhase::Greeting, LivePhase::Sending, LivePhase::Closed] {
        assert_eq!(relay(phase, "foo"), (LivePhase::Closed, LiveAction::Close));
    }
}

#[test]
fn a_connection_runs_from_upgrade_to_close() {
    let (phase, action) = advance(LivePhase::Opening, LiveSignal::Upgraded { debug: true });
    assert_eq!(action, LiveAction::Send(DEBUG_MARKER.to_string()));
    let (phase, action) = advance(phase, LiveSignal::Sent);
    assert_eq!(action, LiveAction::AwaitEvent);
    let (phase, action) = relay(phase, "one");
    assert_eq!(action, LiveAction::Send("\"one\"".to_string()));
    let (phase, action) = advance(phase, LiveSignal::Sent);
    assert_eq!(action, LiveAction::AwaitEvent);
    let (phase, action) = relay(phase, "two");
    assert_eq!(action, LiveAction::Send("\"two\"".to_string()));
    let (phase, action) = advance(phase, LiveSignal::SendFailed);
    assert_eq!((phase, action), (LivePhase::Closed, LiveAction::Close));
}
