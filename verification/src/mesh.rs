//! The mesh side: what to do with tones to send and lines that arrive.

use crate::intent::{parse_inbound_dispatch, DispatchIntent};
use crate::json::encode_line;
use crate::text::is_blank;
use serde_json::Value;
#[allow(unused_imports)]
use crate::{intent, json, text, tone};
#[allow(unused_imports)]
use crate::intent::IntentView;
use vstd::prelude::*;

verus! {

/// What happened.
#[derive(Debug)]
pub enum MeshEvent {
    /// A tone is to be sent.
    Tone(Value),
    /// A line arrived.
    Line(String),
    /// The other side closed the socket.
    Closed,
    /// Reading failed, for this reason.
    ReadFailed(String),
}

/// What to do.
#[derive(Debug)]
pub enum MeshAction {
    /// Send this line, its line feed included.
    Send(String),
    /// Hand this call to the chain side.
    Dispatch(DispatchIntent),
    /// Nothing.
    Ignore,
    /// Give up.
    Stop(MeshStop),
}

/// Why the mesh side gives up.
#[derive(Debug, Clone)]
pub enum MeshStop {
    /// The other side closed the socket.
    Closed,
    /// Reading failed, for this reason.
    ReadFailed(String),
}

impl MeshStop {
    /// The message for logs.
    pub fn message(&self) -> (r: String)
        ensures
            match *self {
                MeshStop::Closed => r@ == "humd socket closed"@,
                MeshStop::ReadFailed(reason) => r@ == "humd read failed: "@ + reason@,
            },
    {
        match self {
            MeshStop::Closed => String::from_str("humd socket closed"),
            MeshStop::ReadFailed(reason) => {
                String::from_str("humd read failed: ").concat(reason.as_str())
            },
        }
    }
}

/// The call that a line asks for: a blank line asks for none.
pub open spec fn call_of_line(line: Seq<char>) -> Option<IntentView> {
    if text::blank(line) {
        None
    } else {
        intent::dispatch_of_line(line)
    }
}

/// What to do about an event.
pub fn on_event(event: MeshEvent) -> (r: MeshAction)
    ensures
        match event {
            MeshEvent::Tone(tone) => {
                &&& r matches MeshAction::Send(line)
                &&& line@ == json::compact(json::content(tone)).push('\n')
                &&& (forall|i: int| 0 <= i < line@.len() - 1 ==> #[trigger] line@[i] != '\n')
                &&& (json::content(tone).simple(127) ==> json::document(
                    line@.drop_last(),
                ) == Some(json::content(tone)) && intent::dispatch_of_line(
                    line@.drop_last(),
                ) == intent::dispatch_of(json::content(tone)))
            },
            MeshEvent::Line(line) => match call_of_line(line@) {
                Some(call) => r matches MeshAction::Dispatch(intent) && intent@ == call,
                None => r == MeshAction::Ignore,
            },
            MeshEvent::Closed => r == MeshAction::Stop(MeshStop::Closed),
            MeshEvent::ReadFailed(reason) => r == MeshAction::Stop(MeshStop::ReadFailed(reason)),
        },
        event matches MeshEvent::Line(line) ==> {
            &&& !text::blank(line@) ==> (intent::dispatch_of_line(line@) matches Some(call) ==> (
            r matches MeshAction::Dispatch(intent) && intent@ == call))
            &&& r is Ignore <==> text::blank(line@) || intent::dispatch_of_line(line@) is None
            &&& r is Ignore || r is Dispatch
        },
{
    match event {
        MeshEvent::Tone(tone) => MeshAction::Send(encode_line(&tone)),
        MeshEvent::Line(line) => {
            if is_blank(line.as_str()) {
                MeshAction::Ignore
            } else {
                match parse_inbound_dispatch(line.as_str()) {
                    Some(intent) => MeshAction::Dispatch(intent),
                    None => MeshAction::Ignore,
                }
            }
        },
        MeshEvent::Closed => MeshAction::Stop(MeshStop::Closed),
        MeshEvent::ReadFailed(reason) => MeshAction::Stop(MeshStop::ReadFailed(reason)),
    }
}

/// A line that holds a tone of the bridge's own making asks for no call when
/// it comes back from the mesh.
pub proof fn law_own_line_asks_for_no_call(
    line: Seq<char>,
    log: tone::LogView,
    chis: Map<Seq<char>, Seq<char>>,
)
    ensures
        tone_of_line(line, log, chis) ==> call_of_line(line) is None,
{
    tone::law_own_tone_asks_for_no_call(log, chis);
}

/// The line is a JSON document that holds the tone for a log entry.
pub open spec fn tone_of_line(
    line: Seq<char>,
    log: tone::LogView,
    chis: Map<Seq<char>, Seq<char>>,
) -> bool {
    tone::tone_of(log, chis) is Some && json::document(line) == tone::tone_of(
        log,
        chis,
    )
}

/// A line that holds more than white space asks for whatever call its document
/// asks for, of either kind and with the same texts; a blank line asks for none.
pub proof fn law_no_call_is_passed_over(line: Seq<char>)
    ensures
        !text::blank(line) ==> call_of_line(line) == intent::dispatch_of_line(line),
        text::blank(line) ==> call_of_line(line) is None,
{
}

} // verus!
