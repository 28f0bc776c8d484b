//! Descriptor layer of a USB MIDI (Audio Class 1.0, MIDI Streaming) function.
//!
//! `sink` holds an in-memory descriptor buffer with deferred 16-bit patches;
//! `midi` builds the Audio Control / MIDI Streaming interface pair into it.
pub mod midi;
pub mod sink;

pub use midi::{MidiClass, CS_ENDPOINT, CS_INTERFACE, DESCRIPTORS_LEN, IN_JACK_ID, OUT_JACK_ID};
pub use sink::{
    next_record, DeferredSpan, DescriptorError, DescriptorSink, EndpointInfo, ENDPOINT_DESCRIPTOR,
    INTERFACE_DESCRIPTOR,
};
