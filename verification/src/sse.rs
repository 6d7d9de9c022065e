//! The server-sent event stream of a scan: what frame to emit next, as a state
//! machine driven by the scan's result channel and a periodic tick.

use vstd::prelude::*;
use crate::scan::ScanResult;
use crate::text::{concat_str, decimal, decimal_chars, string_of};

verus! {

/// Scans of more than this many ports report their progress.
pub const PROGRESS_THRESHOLD: usize = 9;

/// Events produced by the scan and consumed by the stream.
#[derive(Debug, Clone, PartialEq, Eq)]
pub enum SseEvent {
    /// A discovered open port with its service information.
    Result(ScanResult),
    /// How many ports have been scanned so far, out of how many.
    Progress { scanned: usize, total: usize },
}

/// What polling the result channel gave.
#[derive(Debug, Clone, PartialEq, Eq)]
pub enum ChannelPoll {
    /// An event arrived.
    Event(SseEvent),
    /// The channel is closed: the scan is over.
    Closed,
    /// Nothing yet.
    Pending,
}

/// A frame of the stream.
#[derive(Debug, Clone, PartialEq, Eq)]
pub enum SseFrame {
    /// `event: found` with the result as data.
    Found(ScanResult),
    /// `event: progress` with the counts as data.
    Progress { scanned: usize, total: usize },
    /// `event: done`, the last frame.
    Done,
}

/// The state of a scan's event stream.
#[derive(Debug, Clone, PartialEq, Eq)]
pub struct SseState {
    /// The stream has emitted its last frame.
    pub done: bool,
    /// The scanned count most recently reported.
    pub last_emitted: usize,
    /// The number of ports the scan covers.
    pub total_ports: usize,
    /// Whether periodic progress is reported (scans of more than
    /// [`PROGRESS_THRESHOLD`] ports).
    pub tracks_progress: bool,
}

/// The event that opens the stream: a progress event with nothing scanned yet,
/// for scans that report their progress.
pub fn initial_event(total_ports: usize) -> (ev: Option<SseEvent>)
    ensures
        total_ports > PROGRESS_THRESHOLD ==> ev == Some(SseEvent::Progress { scanned: 0, total: total_ports }),
        total_ports <= PROGRESS_THRESHOLD ==> ev is None,
{
    if total_ports > PROGRESS_THRESHOLD {
        Some(SseEvent::Progress { scanned: 0, total: total_ports })
    } else {
        None
    }
}

impl SseState {
    /// The state of a new stream over `total_ports` ports.
    pub fn new(total_ports: usize) -> (s: Self)
        ensures
            !s.done,
            s.last_emitted == 0,
            s.total_ports == total_ports,
            s.tracks_progress == (total_ports > PROGRESS_THRESHOLD),
    {
        SseState { done: false, last_emitted: 0, total_ports, tracks_progress: total_ports > PROGRESS_THRESHOLD }
    }

    /// Handle what polling the result channel gave.  A result becomes a
    /// `found` frame; a progress event becomes a `progress` frame and records
    /// its count; a closed channel ends the stream with a `done` frame.
    /// Nothing is emitted once the stream is done, or while the channel is pending.
    pub fn on_channel(&mut self, poll: ChannelPoll) -> (frame: Option<SseFrame>)
        ensures
            old(self).done ==> frame is None && *final(self) == *old(self),
            !old(self).done ==> match poll {
                ChannelPoll::Event(SseEvent::Result(r)) => frame == Some(SseFrame::Found(r))
                    && *final(self) == *old(self),
                ChannelPoll::Event(SseEvent::Progress { scanned, total }) => frame == Some(
                    SseFrame::Progress { scanned, total },
                ) && *final(self) == (SseState { last_emitted: scanned, ..*old(self) }),
                ChannelPoll::Closed => frame == Some(SseFrame::Done) && *final(self) == (SseState {
                    done: true,
                    ..*old(self)
                }),
                ChannelPoll::Pending => frame is None && *final(self) == *old(self),
            },
    {
        if self.done {
            return None;
        }
        match poll {
            ChannelPoll::Event(SseEvent::Result(r)) => Some(SseFrame::Found(r)),
            ChannelPoll::Event(SseEvent::Progress { scanned, total }) => {
                self.last_emitted = scanned;
                Some(SseFrame::Progress { scanned, total })
            },
            ChannelPoll::Closed => {
                self.done = true;
                Some(SseFrame::Done)
            },
            ChannelPoll::Pending => None,
        }
    }

    /// Handle a tick of the progress timer, with the number of ports scanned
    /// so far.  When progress is tracked and the count grew past the last one
    /// reported, a `progress` frame reports it.
    pub fn on_tick(&mut self, scanned: usize) -> (frame: Option<SseFrame>)
        ensures
            (!old(self).done && old(self).tracks_progress && scanned > old(self).last_emitted) ==> frame == Some(
                SseFrame::Progress { scanned, total: old(self).total_ports },
            ) && *final(self) == (SseState { last_emitted: scanned, ..*old(self) }),
            !(!old(self).done && old(self).tracks_progress && scanned > old(self).last_emitted) ==> frame is None
                && *final(self) == *old(self),
    {
        if !self.done && self.tracks_progress && scanned > self.last_emitted {
            self.last_emitted = scanned;
            Some(SseFrame::Progress { scanned, total: self.total_ports })
        } else {
            None
        }
    }
}

/// The text of a `progress` frame.
pub open spec fn spec_progress_frame(scanned: nat, total: nat) -> Seq<char> {
    "event: progress\ndata: {\"scanned\":"@ + decimal(scanned) + ",\"total\":"@ + decimal(total) + "}\n\n"@
}

/// Format a `progress` frame: `event: progress` with the counts as JSON data.
pub fn progress_frame(scanned: usize, total: usize) -> (text: String)
    ensures
        text@ == spec_progress_frame(scanned as nat, total as nat),
{
    let a = string_of(decimal_chars(scanned as u64).as_slice());
    let b = string_of(decimal_chars(total as u64).as_slice());
    let t1 = concat_str("event: progress\ndata: {\"scanned\":", a.as_str());
    let t2 = concat_str(t1.as_str(), ",\"total\":");
    let t3 = concat_str(t2.as_str(), b.as_str());
    concat_str(t3.as_str(), "}\n\n")
}

/// Format a `found` frame around the JSON text of a result.
pub fn found_frame(json: &str) -> (text: String)
    ensures
        text@ == "event: found\ndata: "@ + json@ + "\n\n"@,
{
    let t = concat_str("event: found\ndata: ", json);
    concat_str(t.as_str(), "\n\n")
}

/// The terminal `done` frame.
pub fn done_frame() -> (text: String)
    ensures
        text@ == "event: done\n\n"@,
{
    String::from_str("event: done\n\n")
}

} // verus!
