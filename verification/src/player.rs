//! A player session's decisions: the playback state machine behind
//! pause and resume, and when delivered packets are accepted.  The
//! subscription channel and the transport stay with the caller.

use vstd::prelude::*;

verus! {

/// The states a playback session moves through.
#[derive(Debug, Clone, Copy, PartialEq, Eq, Structural)]
pub enum PlaybackState {
    /// Created, not yet subscribed.
    Idle,
    /// Subscribed, filling the buffer.
    Buffering,
    /// Delivering.
    Playing,
    /// Paused by the viewer.
    Paused,
    /// Unsubscribed.
    Stopped,
}

/// A player for one stream: its name, its buffer time, and where its
/// playback stands.
pub struct Player {
    stream_name: String,
    buffer_time: u32,
    state: PlaybackState,
}

impl Player {
    /// The playback state.
    pub closed spec fn state_spec(self) -> PlaybackState {
        self.state
    }

    /// The stream name playing.
    pub closed spec fn name_view(self) -> Seq<char> {
        self.stream_name@
    }

    /// The buffer time in milliseconds.
    pub closed spec fn buffer_spec(self) -> u32 {
        self.buffer_time
    }

    /// A fresh, idle player for a stream.
    pub fn new(stream_name: String, buffer_time: u32) -> (r: Player)
        ensures
            r.state_spec() == PlaybackState::Idle,
            r.name_view() == stream_name@,
            r.buffer_spec() == buffer_time,
    {
        Player { stream_name, buffer_time, state: PlaybackState::Idle }
    }

    /// Begin playback: once the caller has subscribed to the publisher,
    /// the session buffers, whatever it did before.
    pub fn start(&mut self)
        ensures
            final(self).state_spec() == PlaybackState::Buffering,
            final(self).name_view() == old(self).name_view(),
            final(self).buffer_spec() == old(self).buffer_spec(),
    {
        self.state = PlaybackState::Buffering;
    }

    /// End playback: once the caller has unsubscribed, the session stops,
    /// whatever it did before.
    pub fn stop(&mut self)
        ensures
            final(self).state_spec() == PlaybackState::Stopped,
            final(self).name_view() == old(self).name_view(),
            final(self).buffer_spec() == old(self).buffer_spec(),
    {
        self.state = PlaybackState::Stopped;
    }

    /// Pause: only a playing session pauses; any other state stays as it
    /// was.
    pub fn pause(&mut self)
        ensures
            final(self).state_spec() == (if old(self).state_spec() == PlaybackState::Playing {
                PlaybackState::Paused
            } else {
                old(self).state_spec()
            }),
            final(self).name_view() == old(self).name_view(),
            final(self).buffer_spec() == old(self).buffer_spec(),
    {
        if self.state == PlaybackState::Playing {
            self.state = PlaybackState::Paused;
        }
    }

    /// Resume: only a paused session resumes; any other state stays as it
    /// was.
    pub fn resume(&mut self)
        ensures
            final(self).state_spec() == (if old(self).state_spec() == PlaybackState::Paused {
                PlaybackState::Playing
            } else {
                old(self).state_spec()
            }),
            final(self).name_view() == old(self).name_view(),
            final(self).buffer_spec() == old(self).buffer_spec(),
    {
        if self.state == PlaybackState::Paused {
            self.state = PlaybackState::Playing;
        }
    }

    /// Whether delivered packets are accepted now: only while playing or
    /// buffering.
    pub fn accepts_packets(&self) -> (r: bool)
        ensures
            r <==> (self.state_spec() == PlaybackState::Playing || self.state_spec()
                == PlaybackState::Buffering),
    {
        self.state == PlaybackState::Playing || self.state == PlaybackState::Buffering
    }

    /// The playback state.
    pub fn state(&self) -> (r: PlaybackState)
        ensures
            r == self.state_spec(),
    {
        self.state
    }

    /// The stream name playing.
    pub fn stream_name(&self) -> (r: &str)
        ensures
            r@ == self.name_view(),
    {
        self.stream_name.as_str()
    }

    /// The buffer time in milliseconds.
    pub fn buffer_time(&self) -> (r: u32)
        ensures
            r == self.buffer_spec(),
    {
        self.buffer_time
    }
}

} // verus!
