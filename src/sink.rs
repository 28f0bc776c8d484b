use vstd::prelude::*;

verus! {

/// Standard descriptor type of an interface descriptor.
pub const INTERFACE_DESCRIPTOR: u8 = 4;

/// Standard descriptor type of an endpoint descriptor.
pub const ENDPOINT_DESCRIPTOR: u8 = 5;

/// `bmAttributes` of a bulk endpoint.
pub const BULK_ATTRIBUTES: u8 = 2;

/// What can go wrong while descriptors are written.
#[derive(Debug, Clone, Copy, PartialEq, Eq, Structural)]
pub enum DescriptorError {
    /// The record or span does not fit in the buffer.
    BufferOverflow,
    /// The call does not fit the writer's state (no interface yet, bad span).
    InvalidState,
    /// A measured length does not fit its 16-bit field.
    SizeOverflow,
}

/// An endpoint as its standard descriptor reports it.
#[derive(Debug, Clone, Copy, PartialEq, Eq, Structural)]
pub struct EndpointInfo {
    pub address: u8,
    pub attributes: u8,
    pub max_packet_size: u16,
    pub interval: u8,
}

impl EndpointInfo {
    /// A bulk endpoint: attributes 0x02, polling interval 0.
    pub fn bulk(address: u8, max_packet_size: u16) -> (r: EndpointInfo)
        ensures
            r == (EndpointInfo { address, attributes: BULK_ATTRIBUTES, max_packet_size, interval: 0 }),
    {
        EndpointInfo { address, attributes: BULK_ATTRIBUTES, max_packet_size, interval: 0 }
    }
}

/// A descriptor record: its total length, its type, then the payload.
pub open spec fn record(descriptor_type: u8, payload: Seq<u8>) -> Seq<u8> {
    seq![(payload.len() + 2) as u8, descriptor_type] + payload
}

/// Payload of a standard interface descriptor (default alternate setting, no
/// endpoints yet, no string).
pub open spec fn interface_payload(number: u8, class: u8, subclass: u8, protocol: u8) -> Seq<u8> {
    seq![number, 0u8, 0u8, class, subclass, protocol, 0u8]
}

/// Payload of a standard endpoint descriptor; the packet size is little-endian.
pub open spec fn endpoint_payload(ep: EndpointInfo) -> Seq<u8> {
    seq![ep.address, ep.attributes, ep.max_packet_size as u8, (ep.max_packet_size >> 8) as u8, ep.interval]
}

/// Where the record that starts at `pos` ends, when its length byte frames a
/// whole record of at least two bytes inside `bytes`.
pub fn next_record(bytes: &[u8], pos: usize) -> (r: Option<usize>)
    ensures
        r == (if pos < bytes@.len() && bytes@[pos as int] >= 2 && pos + bytes@[pos as int] <= bytes@.len() {
            Some((pos + bytes@[pos as int]) as usize)
        } else {
            None::<usize>
        }),
{
    if pos >= bytes.len() {
        return None;
    }
    let len = bytes[pos] as usize;
    if len < 2 || bytes.len() - pos < len {
        return None;
    }
    Some(pos + len)
}

/// A byte range of the buffer reserved for a later 16-bit patch. It is consumed
/// when the patch is made, so it cannot be resolved twice.
pub struct DeferredSpan {
    start: usize,
    end: usize,
}

impl DeferredSpan {
    pub closed spec fn start(&self) -> nat {
        self.start as nat
    }

    pub closed spec fn end(&self) -> nat {
        self.end as nat
    }
}

/// A bounded in-memory descriptor buffer.
pub struct DescriptorSink {
    buf: Vec<u8>,
    capacity: usize,
    num_endpoints_mark: Option<usize>,
    pending: Ghost<nat>,
}

impl DescriptorSink {
    /// The bytes written so far.
    pub closed spec fn bytes(&self) -> Seq<u8> {
        self.buf@
    }

    /// The most bytes the buffer takes.
    pub closed spec fn capacity(&self) -> nat {
        self.capacity as nat
    }

    /// Where the endpoint count of the last interface descriptor stands.
    pub closed spec fn endpoint_mark(&self) -> Option<nat> {
        match self.num_endpoints_mark {
            Some(m) => Some(m as nat),
            None => None,
        }
    }

    /// How many reserved spans are not resolved yet.
    pub closed spec fn pending(&self) -> nat {
        self.pending@
    }

    pub closed spec fn wf(&self) -> bool {
        &&& self.buf.len() <= self.capacity
        &&& match self.num_endpoints_mark {
            Some(m) => m < self.buf.len(),
            None => true,
        }
    }

    /// A well-formed buffer holds no more than its capacity.
    pub proof fn lemma_within_capacity(&self)
        requires
            self.wf(),
        ensures
            self.bytes().len() <= self.capacity(),
    {
    }

    /// An empty buffer that takes at most `capacity` bytes.
    pub fn new(capacity: usize) -> (r: DescriptorSink)
        ensures
            r.wf(),
            r.bytes() == Seq::<u8>::empty(),
            r.capacity() == capacity,
            r.endpoint_mark() is None,
            r.pending() == 0,
    {
        DescriptorSink { buf: Vec::new(), capacity, num_endpoints_mark: None, pending: Ghost(0) }
    }

    /// The number of bytes written so far.
    pub fn position(&self) -> (r: usize)
        ensures
            r == self.bytes().len(),
    {
        self.buf.len()
    }

    /// The bytes written so far.
    pub fn as_bytes(&self) -> (r: &[u8])
        ensures
            r@ == self.bytes(),
    {
        self.buf.as_slice()
    }

    /// Appends one record of type `descriptor_type` around `payload`. Fails,
    /// writing nothing, when the record would pass the capacity or its length
    /// does not fit the length byte.
    pub fn write(&mut self, descriptor_type: u8, payload: &[u8]) -> (r: Result<(), DescriptorError>)
        requires
            old(self).wf(),
        ensures
            final(self).wf(),
            final(self).capacity() == old(self).capacity(),
            final(self).endpoint_mark() == old(self).endpoint_mark(),
            final(self).pending() == old(self).pending(),
            r is Ok <==> payload@.len() + 2 <= 255
                && old(self).bytes().len() + payload@.len() + 2 <= old(self).capacity(),
            r is Ok ==> final(self).bytes() == old(self).bytes() + record(descriptor_type, payload@),
            r is Err ==> r == Err::<(), DescriptorError>(DescriptorError::BufferOverflow)
                && final(self).bytes() == old(self).bytes(),
    {
        let n = payload.len();
        if n > 253 || self.capacity - self.buf.len() < n + 2 {
            return Err(DescriptorError::BufferOverflow);
        }
        let ghost start = self.buf@;
        self.buf.push((n + 2) as u8);
        self.buf.push(descriptor_type);
        let mut i: usize = 0;
        while i < n
            invariant
                i <= n,
                n == payload@.len(),
                self.capacity == old(self).capacity,
                self.num_endpoints_mark == old(self).num_endpoints_mark,
                self.pending == old(self).pending,
                start == old(self).buf@,
                self.buf@ == start + seq![(n + 2) as u8, descriptor_type] + payload@.take(i as int),
            decreases n - i,
        {
            self.buf.push(payload[i]);
            i = i + 1;
            assert(payload@.take(i as int) =~= payload@.take(i - 1) + seq![payload@[i - 1]]);
        }
        assert(payload@.take(n as int) =~= payload@);
        assert(self.buf@ =~= start + record(descriptor_type, payload@));
        Ok(())
    }

    /// Appends a standard interface descriptor and makes it the one whose
    /// endpoint count later endpoint descriptors raise.
    pub fn interface(&mut self, number: u8, class: u8, subclass: u8, protocol: u8) -> (r: Result<(), DescriptorError>)
        requires
            old(self).wf(),
        ensures
            final(self).wf(),
            final(self).capacity() == old(self).capacity(),
            final(self).pending() == old(self).pending(),
            r is Ok <==> old(self).bytes().len() + 9 <= old(self).capacity(),
            r is Ok ==> final(self).bytes() == old(self).bytes()
                + record(INTERFACE_DESCRIPTOR, interface_payload(number, class, subclass, protocol)),
            r is Ok ==> final(self).endpoint_mark() == Some(old(self).bytes().len() + 4),
            r is Err ==> r == Err::<(), DescriptorError>(DescriptorError::BufferOverflow)
                && final(self).bytes() == old(self).bytes()
                && final(self).endpoint_mark() == old(self).endpoint_mark(),
    {
        let pos = self.buf.len();
        let payload: [u8; 7] = [number, 0, 0, class, subclass, protocol, 0];
        let r = self.write(INTERFACE_DESCRIPTOR, &payload);
        if r.is_ok() {
            self.num_endpoints_mark = Some(pos + 4);
        }
        assert(payload@ =~= interface_payload(number, class, subclass, protocol));
        r
    }

    /// Appends a standard endpoint descriptor and raises the endpoint count of
    /// the last interface descriptor. Fails with `InvalidState`, writing
    /// nothing, when no interface descriptor came before or its count is full.
    pub fn endpoint(&mut self, ep: &EndpointInfo) -> (r: Result<(), DescriptorError>)
        requires
            old(self).wf(),
        ensures
            final(self).wf(),
            final(self).capacity() == old(self).capacity(),
            final(self).pending() == old(self).pending(),
            final(self).endpoint_mark() == old(self).endpoint_mark(),
            match old(self).endpoint_mark() {
                None => r == Err::<(), DescriptorError>(DescriptorError::InvalidState)
                    && final(self).bytes() == old(self).bytes(),
                Some(m) => if old(self).bytes()[m as int] == 255 {
                    r == Err::<(), DescriptorError>(DescriptorError::InvalidState)
                        && final(self).bytes() == old(self).bytes()
                } else if old(self).bytes().len() + 7 <= old(self).capacity() {
                    r is Ok && final(self).bytes() == (old(self).bytes() + record(
                        ENDPOINT_DESCRIPTOR,
                        endpoint_payload(*ep),
                    )).update(m as int, (old(self).bytes()[m as int] + 1) as u8)
                } else {
                    r == Err::<(), DescriptorError>(DescriptorError::BufferOverflow)
                        && final(self).bytes() == old(self).bytes()
                },
            },
    {
        let mark = match self.num_endpoints_mark {
            Some(m) => m,
            None => {
                return Err(DescriptorError::InvalidState);
            },
        };
        let count = self.buf[mark];
        if count == 255 {
            return Err(DescriptorError::InvalidState);
        }
        let mps = ep.max_packet_size;
        let payload: [u8; 5] = [ep.address, ep.attributes, mps as u8, (mps >> 8) as u8, ep.interval];
        assert(payload@ =~= endpoint_payload(*ep));
        let r = self.write(ENDPOINT_DESCRIPTOR, &payload);
        if r.is_ok() {
            self.buf.set(mark, count + 1);
        }
        r
    }

    /// Reserves the bytes `start..end` counted from the current position, to be
    /// patched once they are written. Fails when `start > end`
    /// (`InvalidState`) or when the span passes the capacity (`BufferOverflow`).
    pub fn defer_ahead(&mut self, start: usize, end: usize) -> (r: Result<DeferredSpan, DescriptorError>)
        requires
            old(self).wf(),
        ensures
            final(self).wf(),
            final(self).capacity() == old(self).capacity(),
            final(self).bytes() == old(self).bytes(),
            final(self).endpoint_mark() == old(self).endpoint_mark(),
            match r {
                Ok(span) => start <= end
                    && old(self).bytes().len() + end <= old(self).capacity()
                    && span.start() == old(self).bytes().len() + start
                    && span.end() == old(self).bytes().len() + end
                    && final(self).pending() == old(self).pending() + 1,
                Err(e) => final(self).pending() == old(self).pending() && if start > end {
                    e == DescriptorError::InvalidState
                } else {
                    e == DescriptorError::BufferOverflow
                        && old(self).bytes().len() + end > old(self).capacity()
                },
            },
    {
        if start > end {
            return Err(DescriptorError::InvalidState);
        }
        let pos = self.buf.len();
        if self.capacity - pos < end {
            return Err(DescriptorError::BufferOverflow);
        }
        self.pending = Ghost(self.pending@ + 1);
        Ok(DeferredSpan { start: pos + start, end: pos + end })
    }

    /// Resolves a reserved two-byte span with `value`, little-endian. Fails with
    /// `InvalidState`, writing nothing, when the span is not two bytes long or
    /// not yet written.
    pub fn patch_u16(&mut self, span: DeferredSpan, value: u16) -> (r: Result<(), DescriptorError>)
        requires
            old(self).wf(),
        ensures
            final(self).wf(),
            final(self).capacity() == old(self).capacity(),
            final(self).endpoint_mark() == old(self).endpoint_mark(),
            r is Ok <==> span.end() == span.start() + 2 && span.end() <= old(self).bytes().len(),
            r is Ok ==> final(self).bytes() == old(self).bytes()
                .update(span.start() as int, value as u8)
                .update(span.start() + 1int, (value >> 8) as u8),
            r is Ok ==> final(self).pending() == (old(self).pending() - 1) as nat,
            r is Err ==> r == Err::<(), DescriptorError>(DescriptorError::InvalidState)
                && final(self).bytes() == old(self).bytes()
                && final(self).pending() == old(self).pending(),
    {
        if span.end < span.start || span.end - span.start != 2 || span.end > self.buf.len() {
            return Err(DescriptorError::InvalidState);
        }
        self.buf.set(span.start, value as u8);
        self.buf.set(span.start + 1, (value >> 8) as u8);
        self.pending = Ghost((self.pending@ - 1) as nat);
        Ok(())
    }
}

} // verus!
