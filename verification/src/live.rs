//! The decisions of a live connection: what to send to a client that has
//! upgraded its connection, and when to give the connection up.
//!
//! The connection itself, waiting for events and sending, is the caller's.
//! It reports what happened as a signal and does what `advance` returns.

use vstd::prelude::*;
use vstd::string::*;

verus! {

/// The error of the JSON encoder.
#[verifier::external_type_specification]
#[verifier::external_body]
pub struct ExJsonError(serde_json::Error);

/// What `serde_json` makes of a string: its JSON text, the string in double
/// quotes with the escapes that JSON asks for, or nothing if it fails.
pub uninterp spec fn json_encoding(event: Seq<char>) -> Option<Seq<char>>;

/// Calls `serde_json::to_string` on a string. The outcome depends on the
/// string alone and is named `json_encoding`: the text where the encoder
/// succeeds, nothing where it fails. Nothing is claimed of when it succeeds.
#[verifier::external_body]
fn to_json(event: &str) -> (encoded: Result<String, serde_json::Error>)
    ensures
        encoded matches Ok(text) ==> json_encoding(event@) == Some(text@),
        encoded is Err ==> json_encoding(event@) is None,
{
    serde_json::to_string(event)
}

/// The marker that a client gets first on a connection of a debug build.
pub const DEBUG_MARKER: &'static str = "{\"debug_mode\": true}";

/// An event could not be encoded for the client.
#[derive(Clone, Copy, Debug, PartialEq, Eq, Structural)]
pub struct EncodeError;

/// Where a live connection stands.
#[derive(Clone, Copy, Debug, PartialEq, Eq, Structural)]
pub enum LivePhase {
    /// The client has not upgraded the connection yet.
    Opening,
    /// The debug marker is on its way to the client.
    Greeting,
    /// The connection waits for the next event.
    Streaming,
    /// An event is on its way to the client.
    Sending,
    /// The connection is given up.
    Closed,
}

/// What happened on a live connection.
#[derive(Debug, PartialEq, Eq)]
pub enum LiveSignal {
    /// The client has upgraded the connection; `debug` says whether this is
    /// a debug build.
    Upgraded { debug: bool },
    /// An event was published and encoded for the client, or could not be
    /// encoded.
    Encoded(Result<String, EncodeError>),
    /// What was to be sent has reached the client.
    Sent,
    /// What was to be sent could not be sent.
    SendFailed,
}

/// What a live connection is to do next.
#[derive(Clone, Debug, PartialEq, Eq)]
pub enum LiveAction {
    /// Send this text to the client and report `Sent` or `SendFailed`.
    Send(String),
    /// Wait for the next event and report it.
    AwaitEvent,
    /// Close the connection and unsubscribe its listener.
    Close,
}

/// The mathematical content of a signal.
pub enum SignalView {
    Upgraded { debug: bool },
    Encoded(Result<Seq<char>, EncodeError>),
    Sent,
    SendFailed,
}

/// The mathematical content of an action.
pub enum ActionView {
    Send(Seq<char>),
    AwaitEvent,
    Close,
}

impl View for LiveSignal {
    type V = SignalView;

    open spec fn view(&self) -> SignalView {
        match *self {
            LiveSignal::Upgraded { debug } => SignalView::Upgraded { debug },
            LiveSignal::Encoded(Ok(text)) => SignalView::Encoded(Ok(text@)),
            LiveSignal::Encoded(Err(e)) => SignalView::Encoded(Err(e)),
            LiveSignal::Sent => SignalView::Sent,
            LiveSignal::SendFailed => SignalView::SendFailed,
        }
    }
}

impl View for LiveAction {
    type V = ActionView;

    open spec fn view(&self) -> ActionView {
        match *self {
            LiveAction::Send(text) => ActionView::Send(text@),
            LiveAction::AwaitEvent => ActionView::AwaitEvent,
            LiveAction::Close => ActionView::Close,
        }
    }
}

/// The phase and the action that follow a signal.
///
/// An upgraded connection of a debug build first sends the debug marker,
/// and goes on whether or not the marker arrived. Then each event is sent
/// as it comes. The connection is given up when an event could not be
/// encoded or could not be sent, and on a signal that the phase does not
/// expect. A closed connection stays closed.
pub open spec fn next_step(phase: LivePhase, signal: SignalView) -> (LivePhase, ActionView) {
    match (phase, signal) {
        (LivePhase::Opening, SignalView::Upgraded { debug }) => if debug {
            (LivePhase::Greeting, ActionView::Send(DEBUG_MARKER@))
        } else {
            (LivePhase::Streaming, ActionView::AwaitEvent)
        },
        (LivePhase::Greeting, SignalView::Sent) => (LivePhase::Streaming, ActionView::AwaitEvent),
        (LivePhase::Greeting, SignalView::SendFailed) => (
            LivePhase::Streaming,
            ActionView::AwaitEvent,
        ),
        (LivePhase::Streaming, SignalView::Encoded(Ok(text))) => (
            LivePhase::Sending,
            ActionView::Send(text),
        ),
        (LivePhase::Sending, SignalView::Sent) => (LivePhase::Streaming, ActionView::AwaitEvent),
        _ => (LivePhase::Closed, ActionView::Close),
    }
}

/// Decides what a live connection does after a signal.
pub fn advance(phase: LivePhase, signal: LiveSignal) -> (step: (LivePhase, LiveAction))
    ensures
        (step.0, step.1@) == next_step(phase, signal@),
{
    match (phase, signal) {
        (LivePhase::Opening, LiveSignal::Upgraded { debug }) => {
            if debug {
                (LivePhase::Greeting, LiveAction::Send(String::from_str(DEBUG_MARKER)))
            } else {
                (LivePhase::Streaming, LiveAction::AwaitEvent)
            }
        },
        (LivePhase::Greeting, LiveSignal::Sent) => (LivePhase::Streaming, LiveAction::AwaitEvent),
        (LivePhase::Greeting, LiveSignal::SendFailed) => (
            LivePhase::Streaming,
            LiveAction::AwaitEvent,
        ),
        (LivePhase::Streaming, LiveSignal::Encoded(Ok(text))) => (
            LivePhase::Sending,
            LiveAction::Send(text),
        ),
        (LivePhase::Sending, LiveSignal::Sent) => (LivePhase::Streaming, LiveAction::AwaitEvent),
        _ => (LivePhase::Closed, LiveAction::Close),
    }
}

/// Encodes an event for the client as JSON text.
pub fn encode_event(event: &str) -> (encoded: Result<String, EncodeError>)
    ensures
        match encoded {
            Ok(text) => encoded_event(event@) == Ok::<Seq<char>, EncodeError>(text@),
            Err(error) => encoded_event(event@) == Err::<Seq<char>, EncodeError>(error),
        },
{
    match to_json(event) {
        Ok(text) => Ok(text),
        Err(_) => Err(EncodeError),
    }
}

/// The outcome of encoding an event: the JSON text that the encoder makes
/// of it, or the error where the encoder makes none.
pub open spec fn encoded_event(event: Seq<char>) -> Result<Seq<char>, EncodeError> {
    match json_encoding(event) {
        Some(text) => Ok(text),
        None => Err(EncodeError),
    }
}

/// Decides what a live connection does with an event that was published:
/// the event is encoded, and the connection advances on the outcome. A
/// streaming connection sends the JSON text of the event, or is given up
/// if the encoder failed.
pub fn relay(phase: LivePhase, event: &str) -> (step: (LivePhase, LiveAction))
    ensures
        (step.0, step.1@) == next_step(phase, SignalView::Encoded(encoded_event(event@))),
{
    advance(phase, LiveSignal::Encoded(encode_event(event)))
}

} // verus!
