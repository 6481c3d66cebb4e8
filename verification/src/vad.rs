//! Per-frame binary voice activity decisions for the poll loop.

use vstd::prelude::*;

verus! {

/// webrtc_vad's detector, declared so it can live in a field; its internal
/// smoothing state stays opaque.
#[verifier::external_type_specification]
#[verifier::external_body]
pub struct ExVad(webrtc_vad::Vad);

/// A frame the voice classifier refused: its length is not 10, 20 or 30 ms
/// of audio at the configured rate.
#[derive(Debug, PartialEq, Eq, Structural)]
pub enum ClassifierError {
    InvalidFrame,
}

/// Relies on webrtc_vad::Vad::new_with_rate_and_mode: a detector for 16 kHz
/// audio in the most aggressive filtering mode.
#[verifier::external_body]
fn new_vad_16k() -> webrtc_vad::Vad {
    webrtc_vad::Vad::new_with_rate_and_mode(
        webrtc_vad::SampleRate::Rate16kHz,
        webrtc_vad::VadMode::VeryAggressive,
    )
}

/// Per-frame binary voice / non-voice classification, stateless at this
/// interface beyond the external detector's own smoothing. The only
/// constructor builds the detector for 16 kHz audio, so the frame lengths
/// it accepts are fixed by construction.
pub struct VoiceActivityGate {
    vad: webrtc_vad::Vad,
}

/// Relies on webrtc_vad::Vad::is_voice_segment: the voice decision for a
/// frame of 10, 20 or 30 ms at the detector's rate, an error for any other
/// length; which boolean it is also depends on the detector's internal
/// state, so success alone is stated. `VoiceActivityGate::new`, the one
/// constructor, builds its detector for 16 kHz, where those lengths are
/// 160, 320 and 480 samples. The underlying call reads the frame's first
/// element, so an empty frame is excluded.
#[verifier::external_body]
fn gate_is_voice(g: &mut VoiceActivityGate, frame: &[i16]) -> (r: Result<bool, ()>)
    requires
        frame@.len() > 0,
    ensures
        r is Ok <==> (frame@.len() == 160 || frame@.len() == 320 || frame@.len() == 480),
{
    g.vad.is_voice_segment(frame)
}

impl VoiceActivityGate {
    /// A gate over the external classifier, configured for 16 kHz capture.
    pub fn new() -> VoiceActivityGate {
        VoiceActivityGate { vad: new_vad_16k() }
    }

    /// Whether voice is present in this frame, by the external classifier:
    /// a decision exactly for the frame lengths the detector supports at
    /// 16 kHz (160, 320 or 480 samples), and the invalid-frame error for
    /// every other length.
    pub fn classify(&mut self, frame: &[i16]) -> (r: Result<bool, ClassifierError>)
        requires
            frame@.len() > 0,
        ensures
            r is Ok <==> (frame@.len() == 160 || frame@.len() == 320 || frame@.len() == 480),
            r matches Err(e) ==> e == ClassifierError::InvalidFrame,
    {
        match gate_is_voice(self, frame) {
            Ok(b) => Ok(b),
            Err(_) => Err(ClassifierError::InvalidFrame),
        }
    }
}

} // verus!
