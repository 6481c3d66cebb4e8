//! Real-time utterance segmentation for a voice-assistant front end.
//!
//! A bounded ring buffer holds the most recent audio samples, a frame
//! extractor materialises fixed-size trailing windows for the classifiers,
//! and a timing-based state machine decides where an utterance begins and
//! ends before the audio is handed to the speech-to-text collaborator.
//! Around the core sit the conversation history for the chat collaborator
//! and the transcript normalisation the hand-off needs.

pub mod chat;
pub mod circular_buffer;
pub mod frame;
pub mod json;
pub mod state_machine;
pub mod text;
pub mod transcript;
pub mod vad;
