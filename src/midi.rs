use vstd::prelude::*;

use crate::sink::{
    endpoint_payload, interface_payload, record, DescriptorError, DescriptorSink, EndpointInfo,
    ENDPOINT_DESCRIPTOR, INTERFACE_DESCRIPTOR,
};

verus! {

/// Audio interface class.
pub const AUDIO_CLASS: u8 = 0x01;

/// Audio Control interface subclass.
pub const AUDIO_CONTROL_SUBCLASS: u8 = 0x01;

/// MIDI Streaming interface subclass.
pub const MIDI_STREAMING_SUBCLASS: u8 = 0x03;

/// Class-specific interface descriptor type.
pub const CS_INTERFACE: u8 = 0x24;

/// Class-specific endpoint descriptor type.
pub const CS_ENDPOINT: u8 = 0x25;

/// Total length of the descriptors that `get_configuration_descriptors` writes.
pub const DESCRIPTORS_LEN: usize = 73;

/// Jack ID of the embedded MIDI IN jack.
pub const IN_JACK_ID: u8 = 1;

/// Jack ID of the embedded MIDI OUT jack.
pub const OUT_JACK_ID: u8 = 2;

/// A USB MIDI function: an Audio Control interface, a MIDI Streaming interface
/// and a bulk endpoint in each direction.
pub struct MidiClass {
    pub audio_control_if: u8,
    pub midi_streaming_if: u8,
    pub out_ep: EndpointInfo,
    pub in_ep: EndpointInfo,
}

/// Payload of the class-specific Audio Control header: revision 1.0, total
/// length `size`, one streaming interface, `ms_if`.
pub open spec fn ac_header_payload(size: u16, ms_if: u8) -> Seq<u8> {
    seq![0x01u8, 0x00u8, 0x01u8, size as u8, (size >> 8) as u8, 0x01u8, ms_if]
}

/// Payload of the class-specific MIDI Streaming header: revision 1.0, total
/// length `size`.
pub open spec fn ms_header_payload(size: u16) -> Seq<u8> {
    seq![0x01u8, 0x00u8, 0x01u8, size as u8, (size >> 8) as u8]
}

/// Payload of the embedded MIDI IN jack.
pub open spec fn in_jack_payload() -> Seq<u8> {
    seq![0x02u8, 0x01u8, IN_JACK_ID, 0x00u8]
}

/// Payload of the embedded MIDI OUT jack, fed by pin 1 of the IN jack.
pub open spec fn out_jack_payload() -> Seq<u8> {
    seq![0x03u8, 0x01u8, OUT_JACK_ID, 0x01u8, IN_JACK_ID, 0x01u8, 0x00u8]
}

/// Payload of a class-specific bulk endpoint descriptor with one embedded jack.
pub open spec fn cs_endpoint_payload(jack: u8) -> Seq<u8> {
    seq![0x01u8, 0x01u8, jack]
}

/// Where each record ends, counted from the first byte written, once `n`
/// records are written.
pub open spec fn record_end(n: nat) -> int {
    if n == 0 { 0 }
    else if n == 1 { 9 }
    else if n == 2 { 18 }
    else if n == 3 { 27 }
    else if n == 4 { 34 }
    else if n == 5 { 40 }
    else if n == 6 { 49 }
    else if n == 7 { 56 }
    else if n == 8 { 61 }
    else if n == 9 { 68 }
    else { 73 }
}

/// How many whole records fit in `room` bytes.
pub open spec fn records_fitting(room: int) -> nat {
    if room >= 73 { 10 }
    else if room >= 68 { 9 }
    else if room >= 61 { 8 }
    else if room >= 56 { 7 }
    else if room >= 49 { 6 }
    else if room >= 40 { 5 }
    else if room >= 34 { 4 }
    else if room >= 27 { 3 }
    else if room >= 18 { 2 }
    else if room >= 9 { 1 }
    else { 0 }
}

impl MidiClass {
    /// The ten records in order, with `eps` as the endpoint count of the MIDI
    /// Streaming interface and `ms_size` in its class-specific header.
    pub open spec fn layout(&self, eps: u8, ms_size: u16) -> Seq<u8> {
        record(INTERFACE_DESCRIPTOR, interface_payload(self.audio_control_if, AUDIO_CLASS, AUDIO_CONTROL_SUBCLASS, 0))
            + record(CS_INTERFACE, ac_header_payload((record_end(2) - record_end(1)) as u16, self.midi_streaming_if))
            + record(INTERFACE_DESCRIPTOR, interface_payload(self.midi_streaming_if, AUDIO_CLASS, MIDI_STREAMING_SUBCLASS, 0).update(2, eps))
            + record(CS_INTERFACE, ms_header_payload(ms_size))
            + record(CS_INTERFACE, in_jack_payload())
            + record(CS_INTERFACE, out_jack_payload())
            + record(ENDPOINT_DESCRIPTOR, endpoint_payload(self.out_ep))
            + record(CS_ENDPOINT, cs_endpoint_payload(IN_JACK_ID))
            + record(ENDPOINT_DESCRIPTOR, endpoint_payload(self.in_ep))
            + record(CS_ENDPOINT, cs_endpoint_payload(OUT_JACK_ID))
    }

    /// The bytes of the first `n` records as they stand once written: the
    /// endpoint count reflects the endpoints written so far, and the MIDI
    /// Streaming length is patched only once all ten are in.
    pub open spec fn stage(&self, n: nat) -> Seq<u8> {
        let eps: u8 = if n >= 9 { 2 } else if n >= 7 { 1 } else { 0 };
        let ms_size: u16 = if n >= 10 { (record_end(10) - record_end(3)) as u16 } else { 0 };
        self.layout(eps, ms_size).take(record_end(n))
    }

    /// The complete descriptor set.
    pub open spec fn descriptors(&self) -> Seq<u8> {
        self.stage(10)
    }

    /// What a sink holds after `get_configuration_descriptors` on `sink`.
    pub open spec fn emitted(&self, sink: DescriptorSink) -> Seq<u8> {
        sink.bytes() + self.stage(records_fitting(sink.capacity() - sink.bytes().len()))
    }

    /// The two interfaces are distinct.
    pub open spec fn wf(&self) -> bool {
        self.audio_control_if != self.midi_streaming_if
    }

    /// A MIDI function on the interfaces and endpoints given to it.
    pub fn new(audio_control_if: u8, midi_streaming_if: u8, out_ep: EndpointInfo, in_ep: EndpointInfo) -> (r: MidiClass)
        requires
            audio_control_if != midi_streaming_if,
        ensures
            r.wf(),
            r.audio_control_if == audio_control_if,
            r.midi_streaming_if == midi_streaming_if,
            r.out_ep == out_ep,
            r.in_ep == in_ep,
    {
        MidiClass { audio_control_if, midi_streaming_if, out_ep, in_ep }
    }

    pub fn audio_control_interface(&self) -> (r: u8)
        ensures
            r == self.audio_control_if,
    {
        self.audio_control_if
    }

    pub fn midi_streaming_interface(&self) -> (r: u8)
        ensures
            r == self.midi_streaming_if,
    {
        self.midi_streaming_if
    }

    pub fn out_endpoint(&self) -> (r: EndpointInfo)
        ensures
            r == self.out_ep,
    {
        self.out_ep
    }

    pub fn in_endpoint(&self) -> (r: EndpointInfo)
        ensures
            r == self.in_ep,
    {
        self.in_ep
    }

    /// Writes the Audio Control and MIDI Streaming interfaces with their
    /// class-specific descriptors and both bulk endpoints, then patches the
    /// total length of each class-specific block with the number of bytes
    /// written from its header on. Stops at the first record that does not
    /// fit, with `BufferOverflow`.
    #[verifier::rlimit(50)]
    pub fn get_configuration_descriptors(&self, sink: &mut DescriptorSink) -> (r: Result<(), DescriptorError>)
        requires
            old(sink).wf(),
        ensures
            final(sink).wf(),
            final(sink).capacity() == old(sink).capacity(),
            final(sink).bytes() == self.emitted(*old(sink)),
            r is Ok <==> old(sink).bytes().len() + DESCRIPTORS_LEN <= old(sink).capacity(),
            r is Ok ==> final(sink).bytes() == old(sink).bytes() + self.descriptors(),
            r is Ok ==> final(sink).pending() == old(sink).pending(),
            r is Err ==> r == Err::<(), DescriptorError>(DescriptorError::BufferOverflow),
    {
        let ghost b0 = sink.bytes();
        assert((0u16 >> 8u16) == 0u16 && (9u16 >> 8u16) == 0u16 && (46u16 >> 8u16) == 0u16) by (bit_vector);

        let r = sink.interface(self.audio_control_if, AUDIO_CLASS, AUDIO_CONTROL_SUBCLASS, 0x00);
        if r.is_err() {
            return r;
        }
        assert(sink.bytes() =~= b0 + self.stage(1));

        // Class-specific Audio Control header; its total length is patched below.
        let ac_span = match sink.defer_ahead(5, 7) {
            Ok(span) => span,
            Err(e) => {
                return Err(e);
            },
        };
        let ac_start = sink.position();
        let ac_header: [u8; 7] = [0x01, 0x00, 0x01, 0x00, 0x00, 0x01, self.midi_streaming_if];
        let r = sink.write(CS_INTERFACE, &ac_header);
        if r.is_err() {
            return r;
        }
        let ac_end = sink.position();
        let ac_size = ac_end - ac_start;
        if ac_size > 0xffff {
            return Err(DescriptorError::SizeOverflow);
        }
        assert(ac_header@ =~= ac_header_payload(0, self.midi_streaming_if));
        let r = sink.patch_u16(ac_span, ac_size as u16);
        if r.is_err() {
            return r;
        }
        assert(sink.bytes() =~= b0 + self.stage(2));

        let r = sink.interface(self.midi_streaming_if, AUDIO_CLASS, MIDI_STREAMING_SUBCLASS, 0x00);
        if r.is_err() {
            return r;
        }
        assert(sink.bytes() =~= b0 + self.stage(3));

        // Class-specific MIDI Streaming header; its total length covers every
        // record up to the last class-specific endpoint descriptor.
        let ms_span = match sink.defer_ahead(5, 7) {
            Ok(span) => span,
            Err(e) => {
                return Err(e);
            },
        };
        let ms_start = sink.position();
        let ms_header: [u8; 5] = [0x01, 0x00, 0x01, 0x00, 0x00];
        assert(ms_header@ =~= ms_header_payload(0));
        let r = sink.write(CS_INTERFACE, &ms_header);
        if r.is_err() {
            return r;
        }
        assert(sink.bytes() =~= b0 + self.stage(4));

        let in_jack: [u8; 4] = [0x02, 0x01, IN_JACK_ID, 0x00];
        assert(in_jack@ =~= in_jack_payload());
        let r = sink.write(CS_INTERFACE, &in_jack);
        if r.is_err() {
            return r;
        }
        assert(sink.bytes() =~= b0 + self.stage(5));

        let out_jack: [u8; 7] = [0x03, 0x01, OUT_JACK_ID, 0x01, IN_JACK_ID, 0x01, 0x00];
        assert(out_jack@ =~= out_jack_payload());
        let r = sink.write(CS_INTERFACE, &out_jack);
        if r.is_err() {
            return r;
        }
        assert(sink.bytes() =~= b0 + self.stage(6));

        let r = sink.endpoint(&self.out_ep);
        if r.is_err() {
            return r;
        }
        assert(sink.bytes() =~= b0 + self.stage(7));

        let out_cs: [u8; 3] = [0x01, 0x01, IN_JACK_ID];
        assert(out_cs@ =~= cs_endpoint_payload(IN_JACK_ID));
        let r = sink.write(CS_ENDPOINT, &out_cs);
        if r.is_err() {
            return r;
        }
        assert(sink.bytes() =~= b0 + self.stage(8));

        let r = sink.endpoint(&self.in_ep);
        if r.is_err() {
            return r;
        }
        assert(sink.bytes() =~= b0 + self.stage(9));

        let in_cs: [u8; 3] = [0x01, 0x01, OUT_JACK_ID];
        assert(in_cs@ =~= cs_endpoint_payload(OUT_JACK_ID));
        let r = sink.write(CS_ENDPOINT, &in_cs);
        if r.is_err() {
            return r;
        }
        assert(sink.bytes() =~= b0 + self.layout(2, 0));

        let ms_end = sink.position();
        let ms_size = ms_end - ms_start;
        if ms_size > 0xffff {
            return Err(DescriptorError::SizeOverflow);
        }
        let r = sink.patch_u16(ms_span, ms_size as u16);
        if r.is_err() {
            return r;
        }
        assert(sink.bytes() =~= b0 + self.stage(10));
        Ok(())
    }
}

/// The little-endian 16-bit value at `i`.
pub open spec fn le16_at(s: Seq<u8>, i: int) -> int {
    s[i] as int + 256 * s[i + 1] as int
}

/// Emitting into two sinks appends the same bytes to each, whatever they held
/// before, as long as both have room for the whole set, or the same room.
pub proof fn lemma_emission_repeatable(m: MidiClass, a: DescriptorSink, b: DescriptorSink)
    requires
        a.wf(),
        b.wf(),
        (a.bytes().len() + DESCRIPTORS_LEN <= a.capacity() && b.bytes().len() + DESCRIPTORS_LEN <= b.capacity())
            || a.capacity() - a.bytes().len() == b.capacity() - b.bytes().len(),
    ensures
        m.emitted(a).skip(a.bytes().len() as int) == m.emitted(b).skip(b.bytes().len() as int),
{
    assert(m.emitted(a).skip(a.bytes().len() as int) =~= m.stage(records_fitting(a.capacity() - a.bytes().len())));
    assert(m.emitted(b).skip(b.bytes().len() as int) =~= m.stage(records_fitting(b.capacity() - b.bytes().len())));
}

/// Each patched length equals the position after its block minus the
/// position where the block's header starts: 9 for the Audio Control header,
/// and for the MIDI Streaming header everything from it to the end.
pub proof fn lemma_patched_lengths(m: MidiClass)
    ensures
        m.descriptors().len() == record_end(10),
        le16_at(m.descriptors(), record_end(1) + 5) == record_end(2) - record_end(1),
        le16_at(m.descriptors(), record_end(3) + 5) == record_end(10) - record_end(3),
        le16_at(m.descriptors(), record_end(1) + 5) == 9,
        le16_at(m.descriptors(), record_end(3) + 5) == 46,
{
    assert((9u16 >> 8u16) == 0u16 && (46u16 >> 8u16) == 0u16) by (bit_vector);
}

/// The descriptors form a chain of records: the length byte of each one is
/// the distance to the next.
pub proof fn lemma_record_chain(m: MidiClass)
    ensures
        forall|k: nat| k < 10 ==> #[trigger] m.descriptors()[record_end(k)] == record_end(k + 1) - record_end(k),
{
    assert forall|k: nat| k < 10 implies #[trigger] m.descriptors()[record_end(k)] == record_end(k + 1) - record_end(k) by {
        assert(k == 0 || k == 1 || k == 2 || k == 3 || k == 4 || k == 5 || k == 6 || k == 7 || k == 8 || k == 9);
    }
}

/// The class-specific descriptor that follows the OUT endpoint names the MIDI
/// IN jack, and the one that follows the IN endpoint names the MIDI OUT jack.
pub proof fn lemma_jack_links(m: MidiClass)
    ensures
        m.descriptors()[record_end(4) + 2] == 0x02,
        m.descriptors()[record_end(4) + 4] == IN_JACK_ID,
        m.descriptors()[record_end(5) + 2] == 0x03,
        m.descriptors()[record_end(5) + 4] == OUT_JACK_ID,
        m.descriptors()[record_end(6) + 1] == ENDPOINT_DESCRIPTOR,
        m.descriptors()[record_end(6) + 2] == m.out_ep.address,
        m.descriptors()[record_end(7) + 1] == CS_ENDPOINT,
        m.descriptors()[record_end(7) + 4] == IN_JACK_ID,
        m.descriptors()[record_end(8) + 1] == ENDPOINT_DESCRIPTOR,
        m.descriptors()[record_end(8) + 2] == m.in_ep.address,
        m.descriptors()[record_end(9) + 1] == CS_ENDPOINT,
        m.descriptors()[record_end(9) + 4] == OUT_JACK_ID,
{
}

/// A failed emission leaves whole records only: those that fit, and the next
/// one would not have.
pub proof fn lemma_failure_stops_at_record(m: MidiClass, s: DescriptorSink)
    requires
        s.wf(),
        s.bytes().len() + DESCRIPTORS_LEN > s.capacity(),
    ensures
        ({
            let room = s.capacity() - s.bytes().len();
            let n = records_fitting(room);
            &&& n < 10
            &&& m.emitted(s).len() == s.bytes().len() + record_end(n)
            &&& record_end(n) <= room < record_end(n + 1)
        }),
{
    s.lemma_within_capacity();
    let n = records_fitting(s.capacity() - s.bytes().len());
    let eps: u8 = if n >= 9 { 2 } else if n >= 7 { 1 } else { 0 };
    assert(m.layout(eps, 0).len() == record_end(10));
}

} // verus!
