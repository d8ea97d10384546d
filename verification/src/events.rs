//! Worker log events and their wire form.
//!
//! A worker's runtime fans its standard output, standard error and log
//! records out to connected clients over a bounded channel; when the
//! channel is full the event is dropped rather than blocking the worker.
//! The conversion from the runtime's event to the wire event is here;
//! the channel and the forwarder task live with the transport.

use vstd::prelude::*;

use vstd::utf8::{decode_utf8, valid_utf8};

verus! {

/// Capacity of the bounded log-event channel; on overflow the sender
/// drops the event, so a worker never blocks on its log consumers.
pub const LOG_EVENT_CHANNEL_CAPACITY: usize = 128;

/// Severity of a worker log record.
#[derive(Clone, Copy, PartialEq, Eq, Structural, Debug)]
pub enum LogLevel {
    Trace,
    Debug,
    Info,
    Warn,
    Error,
    Critical,
}

/// An event produced by a worker's runtime.
pub enum WorkerEvent {
    /// A line of standard output, as raw bytes.
    StdOut(Vec<u8>),
    /// A line of standard error, as raw bytes.
    StdErr(Vec<u8>),
    /// A structured log record.
    Log { level: LogLevel, context: String, message: String },
    /// The worker is gone; the stream ends.
    Close,
}

/// The wire form of a log event, as a connected client receives it.
pub enum LogEvent {
    Stdout(String),
    Stderr(String),
    Log { level: LogLevel, context: String, message: String },
}

/// Converts a runtime event to its wire form; `Close` ends the stream
/// and yields nothing.  Output lines are UTF-8.
pub fn log_event_of(event: WorkerEvent) -> (r: Option<LogEvent>)
    requires
        event matches WorkerEvent::StdOut(line) ==> valid_utf8(line@),
        event matches WorkerEvent::StdErr(line) ==> valid_utf8(line@),
    ensures
        event matches WorkerEvent::StdOut(line) ==> (r matches Some(e) && e matches
            LogEvent::Stdout(s) && s@ == decode_utf8(line@)),
        event matches WorkerEvent::StdErr(line) ==> (r matches Some(e) && e matches
            LogEvent::Stderr(s) && s@ == decode_utf8(line@)),
        event matches WorkerEvent::Log { level, context, message } ==> (r matches Some(e) && (
        e matches LogEvent::Log { level: l, context: c, message: m } && l == level && c@
            == context@ && m@ == message@)),
        event is Close ==> r is None,
{
    match event {
        WorkerEvent::StdOut(line) => match crate::codec::string_from_utf8(line) {
            Some(s) => Some(LogEvent::Stdout(s)),
            None => {
                proof {
                    assert(false);
                }
                None
            },
        },
        WorkerEvent::StdErr(line) => match crate::codec::string_from_utf8(line) {
            Some(s) => Some(LogEvent::Stderr(s)),
            None => {
                proof {
                    assert(false);
                }
                None
            },
        },
        WorkerEvent::Log { level, context, message } => Some(
            LogEvent::Log { level, context, message },
        ),
        WorkerEvent::Close => None,
    }
}

} // verus!
