//! The audio signal: a two-state event derived from the sound timer.
//! A nonzero sound timer asks the external audio adapter to play a tone,
//! a zero one asks it to stop.

use vstd::prelude::*;

verus! {

/// What the external audio adapter should do after a cycle.
#[derive(Clone, Copy, Debug, PartialEq, Eq, Structural)]
pub enum AudioEvent {
    /// Start (or keep) playing the tone.
    Play,
    /// Stop the tone.
    Stop,
}

/// Hand-off slot for the audio event of the latest cycle.
pub struct AudioSink {
    /// The most recent event, if any.
    pub event: Option<AudioEvent>,
}

impl AudioSink {
    /// A sink holding the initial `Stop` signal.
    pub fn new() -> (s: AudioSink)
        ensures
            s.event == Some(AudioEvent::Stop),
    {
        AudioSink { event: Some(AudioEvent::Stop) }
    }
}

} // verus!
