//! Requests handed to the external audio-queue service.
//!
//! The simulation never plays sound itself: it appends `AudioRequest`s to a
//! queue that the surrounding application drains into the real audio backend.

use vstd::prelude::*;

verus! {

/// Channel a sound is routed to by the audio collaborator.
#[derive(Clone, Copy, PartialEq, Eq, Structural, Debug)]
pub enum AudioType {
    Music,
    Sound,
    UI,
}

/// One queued playback request; `volume` is in thousandths of full volume.
#[derive(Clone, Debug)]
pub struct AudioRequest {
    pub audio_name: String,
    pub audio_type: AudioType,
    pub volume: i64,
    pub looping: bool,
}

#[verifier::ext_equal]
pub ghost struct AudioRequestView {
    pub audio_name: Seq<char>,
    pub audio_type: AudioType,
    pub volume: i64,
    pub looping: bool,
}

impl DeepView for AudioRequest {
    type V = AudioRequestView;

    open spec fn deep_view(&self) -> AudioRequestView {
        AudioRequestView {
            audio_name: self.audio_name@,
            audio_type: self.audio_type,
            volume: self.volume,
            looping: self.looping,
        }
    }
}

impl AudioRequest {
    pub fn new(audio_name: String, audio_type: AudioType, volume: i64, looping: bool) -> (r:
        AudioRequest)
        ensures
            r == (AudioRequest { audio_name, audio_type, volume, looping }),
    {
        AudioRequest { audio_name, audio_type, volume, looping }
    }
}

} // verus!
