use vstd::prelude::*;

verus! {

/// One delivered packet: the bytes copied out of the capture engine, the
/// wall-clock time of the copy and the length the packet had on the wire.
///
/// The captured length is the length of the data; a record never holds more
/// bytes than the packet had. Records do not change once built.
#[derive(Debug)]
pub struct PacketRecord {
    ts_sec: u32,
    ts_nsec: u32,
    orig_len: u32,
    data: Vec<u8>,
}

impl PacketRecord {
    #[verifier::type_invariant]
    spec fn captured_within_wire_length(&self) -> bool {
        self.data@.len() <= self.orig_len
    }

    pub closed spec fn ts_sec_spec(&self) -> u32 {
        self.ts_sec
    }

    pub closed spec fn ts_nsec_spec(&self) -> u32 {
        self.ts_nsec
    }

    pub closed spec fn orig_len_spec(&self) -> u32 {
        self.orig_len
    }

    pub closed spec fn data_spec(&self) -> Seq<u8> {
        self.data@
    }

    /// Captured length within the original length, as every record built by
    /// this type has it.
    pub open spec fn wf(&self) -> bool {
        self.data_spec().len() <= self.orig_len_spec()
    }

    /// Builds a record from a delivered buffer. It is refused when the
    /// buffer is longer than the original length, or when the original
    /// length is above the engine's maximum packet size.
    pub fn new(ts_sec: u32, ts_nsec: u32, data: Vec<u8>, orig_len: u32, max_packet_size: u32) -> (r:
        Option<PacketRecord>)
        ensures
            r is Some <==> (data@.len() <= orig_len && orig_len <= max_packet_size),
            r matches Some(rec) ==> {
                &&& rec.ts_sec_spec() == ts_sec
                &&& rec.ts_nsec_spec() == ts_nsec
                &&& rec.orig_len_spec() == orig_len
                &&& rec.data_spec() == data@
            },
    {
        if data.len() <= orig_len as usize && orig_len <= max_packet_size {
            Some(PacketRecord { ts_sec, ts_nsec, orig_len, data })
        } else {
            None
        }
    }

    /// A record for a buffer taken whole off the wire: the original length is
    /// the buffer's own length. Refused when the buffer is longer than the
    /// engine's maximum packet size.
    pub fn from_delivery(ts_sec: u32, ts_nsec: u32, data: Vec<u8>, max_packet_size: u32) -> (r:
        Option<PacketRecord>)
        ensures
            r is Some <==> data@.len() <= max_packet_size,
            r matches Some(rec) ==> {
                &&& rec.ts_sec_spec() == ts_sec
                &&& rec.ts_nsec_spec() == ts_nsec
                &&& rec.orig_len_spec() == data@.len()
                &&& rec.data_spec() == data@
            },
    {
        if data.len() <= max_packet_size as usize {
            let len = data.len() as u32;
            Some(PacketRecord { ts_sec, ts_nsec, orig_len: len, data })
        } else {
            None
        }
    }

    pub fn ts_sec(&self) -> (r: u32)
        ensures
            r == self.ts_sec_spec(),
    {
        self.ts_sec
    }

    pub fn ts_nsec(&self) -> (r: u32)
        ensures
            r == self.ts_nsec_spec(),
    {
        self.ts_nsec
    }

    /// The length the packet had on the wire, which bounds the data.
    pub fn orig_len(&self) -> (r: u32)
        ensures
            r == self.orig_len_spec(),
            self.data_spec().len() <= r,
    {
        proof {
            use_type_invariant(self);
        }
        self.orig_len
    }

    /// The captured bytes, which the original length bounds.
    pub fn data(&self) -> (r: &Vec<u8>)
        ensures
            r@ == self.data_spec(),
            r@.len() <= self.orig_len_spec(),
    {
        proof {
            use_type_invariant(self);
        }
        &self.data
    }

    /// Number of bytes held by the record.
    pub fn captured_len(&self) -> (r: usize)
        ensures
            r == self.data_spec().len(),
            r <= self.orig_len_spec(),
    {
        proof {
            use_type_invariant(self);
        }
        self.data.len()
    }
}

} // verus!
