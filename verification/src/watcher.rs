//! Bookkeeping for a log file that is read as it grows: how far it has been
//! read, and what each event of the watch asks for.

use vstd::prelude::*;

verus! {

/// What the watch of a file reports.
#[derive(Clone, Copy, Debug, PartialEq, Eq, Structural)]
pub enum WatchEvent {
    /// The file was touched; its length is now `length` bytes.
    Changed { length: u64 },
    /// The watch reported an error in place of a change.
    Failed,
    /// The watch has ended: no further event will come.
    Closed,
}

/// What to do about an event.
#[derive(Clone, Copy, Debug, PartialEq, Eq, Structural)]
pub enum WatchAction {
    /// Nothing: wait for the next event.
    Ignore,
    /// Read the lines from byte `from` to the end of the file and hand them
    /// on, one by one and in their order, then wait for the next event.
    Read { from: u64 },
    /// Stop watching.
    Stop,
}

/// How far a watched file has been read, as a byte offset.
#[derive(Clone, Copy, Debug, PartialEq, Eq, Structural)]
pub struct FileWatcher {
    pub position: u64,
}

/// What an event asks for when the file has been read up to `position`. A
/// change that leaves the length at the position brought nothing new. An
/// error of the watch is passed over. Only the end of the watch stops it.
pub open spec fn action_for(position: u64, event: WatchEvent) -> WatchAction {
    match event {
        WatchEvent::Changed { length } => if length == position {
            WatchAction::Ignore
        } else {
            WatchAction::Read { from: position }
        },
        WatchEvent::Failed => WatchAction::Ignore,
        WatchEvent::Closed => WatchAction::Stop,
    }
}

/// The position after an event: the length that a change reports, and the
/// old position otherwise.
pub open spec fn position_after(position: u64, event: WatchEvent) -> u64 {
    match event {
        WatchEvent::Changed { length } => length,
        _ => position,
    }
}

impl FileWatcher {
    /// Starts at the current end of the file: what the file holds already is
    /// never read.
    pub fn new(length: u64) -> (r: FileWatcher)
        ensures
            r.position == length,
    {
        FileWatcher { position: length }
    }

    /// Takes an event of the watch, says what to do about it, and records
    /// how far the file will have been read once that is done.
    pub fn watch(&mut self, event: WatchEvent) -> (r: WatchAction)
        ensures
            r == action_for(old(self).position, event),
            final(self).position == position_after(old(self).position, event),
    {
        match event {
            WatchEvent::Changed { length } => {
                if length == self.position {
                    WatchAction::Ignore
                } else {
                    let from = self.position;
                    self.position = length;
                    WatchAction::Read { from }
                }
            },
            WatchEvent::Failed => WatchAction::Ignore,
            WatchEvent::Closed => WatchAction::Stop,
        }
    }
}

} // verus!
