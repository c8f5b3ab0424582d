//! The sound object's loading state machine.
//!
//! The audio backend, the garbage-collected object cell and the script
//! activation live outside this model; a sound, a channel and a sound-info
//! block appear here as plain identifiers. What is verified is the
//! decision logic: which state each call moves the object to, which plays
//! are queued while loading, and which effect the caller must then carry
//! out against the backend. A play request's position check against the
//! sound's duration is the caller's job (it compares the backend's
//! measurements), as is actually starting playback.

use vstd::prelude::*;

verus! {

/// A sound registered with the audio backend.
#[derive(Clone, Copy, Debug, PartialEq, Eq, Structural)]
pub struct SoundHandle {
    pub id: u64,
}

/// A play request parked while the sound loads: the info block to start
/// with, an optional local transform, and the channel object promised to
/// the script.
#[derive(Clone, Copy, Debug, PartialEq, Eq, Structural)]
pub struct QueuedPlay {
    pub sound_info: u64,
    pub sound_transform: Option<u64>,
    pub sound_channel: u64,
}

/// The sound the object holds.
pub enum SoundData {
    Empty,
    Loading { queued_plays: Vec<QueuedPlay> },
    Loaded { sound: SoundHandle },
    Generated,
}

/// What the caller must do after a `play` call.
#[derive(Clone, Copy, Debug, PartialEq, Eq, Structural)]
pub enum PlayEffect {
    /// Hand the script its channel; nothing starts yet.
    ReturnChannel,
    /// Start this request on the backend now.
    StartNow(QueuedPlay, SoundHandle),
}

/// The sound-object allocator: a freshly allocated sound object holds
/// nothing.
pub fn sound_allocator() -> (r: SoundData)
    ensures
        r == SoundData::Empty,
{
    SoundData::Empty
}

impl SoundData {
    /// The backend handle, once the sound is loaded.
    pub fn sound_handle(&self) -> (r: Option<SoundHandle>)
        ensures
            match *self {
                SoundData::Loaded { sound } => r == Some(sound),
                _ => r is None,
            },
    {
        match self {
            SoundData::Loaded { sound } => Some(*sound),
            _ => None,
        }
    }

    /// A script `play` call: park the request while loading, start it at
    /// once when loaded, and otherwise just hand the channel back (an
    /// empty object becomes a generated sound).
    pub fn play(self, queued: QueuedPlay) -> (r: (SoundData, PlayEffect))
        ensures
            ({
                let (st, eff) = r;
                match self {
                    SoundData::Empty => st == SoundData::Generated && eff
                        == PlayEffect::ReturnChannel,
                    SoundData::Generated => st == SoundData::Generated && eff
                        == PlayEffect::ReturnChannel,
                    SoundData::Loaded { sound } => st == (SoundData::Loaded { sound }) && eff
                        == PlayEffect::StartNow(queued, sound),
                    SoundData::Loading { queued_plays } => eff == PlayEffect::ReturnChannel
                        && match st {
                        SoundData::Loading { queued_plays: q2 } => q2@ == queued_plays@.push(
                            queued,
                        ),
                        _ => false,
                    },
                }
            }),
    {
        match self {
            SoundData::Loading { mut queued_plays } => {
                queued_plays.push(queued);
                (SoundData::Loading { queued_plays }, PlayEffect::ReturnChannel)
            },
            SoundData::Loaded { sound } => (
                SoundData::Loaded { sound },
                PlayEffect::StartNow(queued, sound),
            ),
            SoundData::Empty => (SoundData::Generated, PlayEffect::ReturnChannel),
            SoundData::Generated => (SoundData::Generated, PlayEffect::ReturnChannel),
        }
    }

    /// The script called `load`: only an empty object may start loading;
    /// anything else is a caller bug, excluded outright.
    pub fn load_called(self) -> (r: SoundData)
        requires
            self is Empty,
        ensures
            match r {
                SoundData::Loading { queued_plays } => queued_plays@.len() == 0,
                _ => false,
            },
    {
        SoundData::Loading { queued_plays: Vec::new() }
    }

    /// Loading finished: hold the backend handle and hand back, in order,
    /// every play request parked meanwhile, for the caller to start.
    /// Replacing an already loaded or generated sound is a caller bug,
    /// excluded outright.
    ///
    /// Deliberately, the state commits to `Loaded` before any parked play
    /// is started: a backend error while starting them is the caller's to
    /// surface, and later calls still see the sound as loaded. (A runtime
    /// that starts the queue itself could instead abandon the transition
    /// mid-queue on an error; here the backend lives outside the model, so
    /// the queue is handed out and the transition is unconditional.)
    pub fn set_sound(self, sound: SoundHandle) -> (r: (SoundData, Vec<QueuedPlay>))
        requires
            self is Empty || self is Loading,
        ensures
            r.0 == (SoundData::Loaded { sound }),
            match self {
                SoundData::Empty => r.1@.len() == 0,
                SoundData::Loading { queued_plays } => r.1@ == queued_plays@,
                _ => false,
            },
    {
        match self {
            SoundData::Empty => (SoundData::Loaded { sound }, Vec::new()),
            SoundData::Loading { queued_plays } => (SoundData::Loaded { sound }, queued_plays),
            SoundData::Loaded { sound: old_sound } => (SoundData::Loaded { sound }, Vec::new()),
            SoundData::Generated => (SoundData::Loaded { sound }, Vec::new()),
        }
    }
}

} // verus!
