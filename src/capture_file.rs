//! One rotation epoch of output: a pcap container (big-endian, nanosecond
//! timestamps) whose bytes are handed out as they are produced, so that the
//! caller appends them to the file on disk.
use crate::record::PacketRecord;
use pcap_file::pcap::{PcapHeader, PcapWriter};
use pcap_file::DataLink;
use vstd::prelude::*;

verus! {

/// Magic number of a big-endian pcap file with nanosecond timestamps.
pub const MAGIC_NUMBER: u32 = 0xa1b23c4d;

pub const VERSION_MAJOR: u16 = 2;

pub const VERSION_MINOR: u16 = 4;

/// Link type of Ethernet frames.
pub const LINKTYPE_ETHERNET: u32 = 1;

/// Bytes in the file header.
pub const FILE_HEADER_LEN: usize = 24;

/// `x` as four bytes, most significant first.
pub open spec fn be32(x: u32) -> Seq<u8> {
    seq![
        (x / 0x1000000) as u8,
        (x / 0x10000 % 0x100) as u8,
        (x / 0x100 % 0x100) as u8,
        (x % 0x100) as u8,
    ]
}

/// `x` as two bytes, most significant first.
pub open spec fn be16(x: u16) -> Seq<u8> {
    seq![(x / 0x100) as u8, (x % 0x100) as u8]
}

/// The file header: magic number, version 2.4, no timezone correction, zero
/// accuracy, the snapshot length and the Ethernet link type.
pub open spec fn file_header_bytes(snaplen: u32) -> Seq<u8> {
    be32(MAGIC_NUMBER) + be16(VERSION_MAJOR) + be16(VERSION_MINOR) + be32(0) + be32(0) + be32(
        snaplen,
    ) + be32(LINKTYPE_ETHERNET)
}

/// One record: seconds, nanoseconds, captured length, original length,
/// then the captured bytes as they are.
pub open spec fn record_bytes(ts_sec: u32, ts_nsec: u32, data: Seq<u8>, orig_len: u32) -> Seq<u8> {
    be32(ts_sec) + be32(ts_nsec) + be32(data.len() as u32) + be32(orig_len) + data
}

pub open spec fn packet_record_bytes(r: PacketRecord) -> Seq<u8> {
    record_bytes(r.ts_sec_spec(), r.ts_nsec_spec(), r.data_spec(), r.orig_len_spec())
}

/// The records of `rs`, one after the other.
pub open spec fn records_bytes(rs: Seq<PacketRecord>) -> Seq<u8>
    decreases rs.len(),
{
    if rs.len() == 0 {
        Seq::empty()
    } else {
        records_bytes(rs.drop_last()) + packet_record_bytes(rs.last())
    }
}

/// A whole capture file holding `rs`.
pub open spec fn file_bytes(snaplen: u32, rs: Seq<PacketRecord>) -> Seq<u8> {
    file_header_bytes(snaplen) + records_bytes(rs)
}

/// The big-endian `u32` at byte `i` of `b`.
pub open spec fn be32_at(b: Seq<u8>, i: int) -> int {
    b[i] * 0x1000000 + b[i + 1] * 0x10000 + b[i + 2] * 0x100 + b[i + 3]
}

/// What a reader recovers of one record: seconds, nanoseconds, captured
/// length, original length and the captured bytes.
pub open spec fn decoded(r: PacketRecord) -> (u32, u32, u32, u32, Seq<u8>) {
    (r.ts_sec_spec(), r.ts_nsec_spec(), r.data_spec().len() as u32, r.orig_len_spec(), r.data_spec())
}

/// Reads a sequence of records back: each is a 16-byte header whose third
/// field gives the number of data bytes that follow it.
pub open spec fn decode_records(b: Seq<u8>) -> Option<Seq<(u32, u32, u32, u32, Seq<u8>)>>
    decreases b.len(),
{
    if b.len() == 0 {
        Some(Seq::empty())
    } else if b.len() < 16 {
        None
    } else {
        let incl = be32_at(b, 8);
        if b.len() < 16 + incl {
            None
        } else {
            match decode_records(b.subrange(16 + incl, b.len() as int)) {
                Some(rest) => Some(
                    seq![
                        (
                            be32_at(b, 0) as u32,
                            be32_at(b, 4) as u32,
                            incl as u32,
                            be32_at(b, 12) as u32,
                            b.subrange(16, 16 + incl),
                        ),
                    ] + rest,
                ),
                None => None,
            }
        }
    }
}

proof fn lemma_be32_round_trip(x: u32)
    ensures
        be32(x).len() == 4,
        be32_at(be32(x), 0) == x,
{
    let b = be32(x);
    assert(b[0] == x / 0x1000000);
    assert(b[1] == x / 0x10000 % 0x100);
    assert(b[2] == x / 0x100 % 0x100);
    assert(b[3] == x % 0x100);
    assert((x / 0x1000000) * 0x1000000 + (x / 0x10000 % 0x100) * 0x10000 + (x / 0x100 % 0x100)
        * 0x100 + x % 0x100 == x) by (bit_vector);
}

proof fn lemma_be32_at_offset(a: Seq<u8>, x: u32, c: Seq<u8>)
    ensures
        be32_at(a + be32(x) + c, a.len() as int) == x,
{
    lemma_be32_round_trip(x);
    let b = a + be32(x) + c;
    let i = a.len() as int;
    assert(b[i] == be32(x)[0]);
    assert(b[i + 1] == be32(x)[1]);
    assert(b[i + 2] == be32(x)[2]);
    assert(b[i + 3] == be32(x)[3]);
}

proof fn lemma_records_bytes_cons(r: PacketRecord, rest: Seq<PacketRecord>)
    ensures
        records_bytes(seq![r] + rest) == packet_record_bytes(r) + records_bytes(rest),
    decreases rest.len(),
{
    let s = seq![r] + rest;
    if rest.len() == 0 {
        assert(s.drop_last() =~= Seq::<PacketRecord>::empty());
        assert(s.last() == r);
        assert(records_bytes(Seq::<PacketRecord>::empty()) == Seq::<u8>::empty());
        assert(records_bytes(s) =~= packet_record_bytes(r));
        assert(rest =~= Seq::<PacketRecord>::empty());
        assert(packet_record_bytes(r) + records_bytes(rest) =~= packet_record_bytes(r));
    } else {
        lemma_records_bytes_cons(r, rest.drop_last());
        assert(s.drop_last() =~= seq![r] + rest.drop_last());
        assert(s.last() == rest.last());
        assert(records_bytes(s) =~= packet_record_bytes(r) + records_bytes(rest));
    }
}

proof fn lemma_record_fields(r: PacketRecord, tail: Seq<u8>)
    requires
        r.wf(),
    ensures
        ({
            let b = packet_record_bytes(r) + tail;
            let len = r.data_spec().len() as int;
            &&& b.len() >= 16 + len
            &&& be32_at(b, 0) == r.ts_sec_spec()
            &&& be32_at(b, 4) == r.ts_nsec_spec()
            &&& be32_at(b, 8) == len
            &&& be32_at(b, 12) == r.orig_len_spec()
            &&& b.subrange(16, 16 + len) == r.data_spec()
            &&& b.subrange(16 + len, b.len() as int) == tail
        }),
{
    let data = r.data_spec();
    let len = data.len() as u32;
    let h0 = be32(r.ts_sec_spec());
    let h1 = be32(r.ts_nsec_spec());
    let h2 = be32(len);
    let h3 = be32(r.orig_len_spec());
    let b = packet_record_bytes(r) + tail;
    lemma_be32_round_trip(r.ts_sec_spec());
    lemma_be32_round_trip(r.ts_nsec_spec());
    lemma_be32_round_trip(len);
    lemma_be32_round_trip(r.orig_len_spec());
    assert(b =~= Seq::<u8>::empty() + h0 + (h1 + h2 + h3 + data + tail));
    lemma_be32_at_offset(Seq::<u8>::empty(), r.ts_sec_spec(), h1 + h2 + h3 + data + tail);
    assert(b =~= h0 + h1 + (h2 + h3 + data + tail));
    lemma_be32_at_offset(h0, r.ts_nsec_spec(), h2 + h3 + data + tail);
    assert(b =~= (h0 + h1) + h2 + (h3 + data + tail));
    lemma_be32_at_offset(h0 + h1, len, h3 + data + tail);
    assert(b =~= (h0 + h1 + h2) + h3 + (data + tail));
    lemma_be32_at_offset(h0 + h1 + h2, r.orig_len_spec(), data + tail);
    assert(b.subrange(16, 16 + data.len() as int) =~= data);
    assert(b.subrange(16 + data.len() as int, b.len() as int) =~= tail);
}

/// Reading back the records of a capture file gives, for each record
/// written and in the same order, its data byte for byte, its captured and
/// original lengths, and its time to the nanosecond.
pub proof fn lemma_records_round_trip(rs: Seq<PacketRecord>)
    requires
        forall|i: int| 0 <= i < rs.len() ==> (#[trigger] rs[i]).wf(),
    ensures
        decode_records(records_bytes(rs)) == Some(rs.map_values(|r: PacketRecord| decoded(r))),
    decreases rs.len(),
{
    if rs.len() == 0 {
        assert(rs.map_values(|r: PacketRecord| decoded(r)) =~= Seq::empty());
    } else {
        let r = rs[0];
        let rest = rs.drop_first();
        assert(rs =~= seq![r] + rest);
        assert forall|i: int| 0 <= i < rest.len() implies (#[trigger] rest[i]).wf() by {
            assert(rest[i] == rs[i + 1]);
        }
        assert(rs[0].wf());
        lemma_records_bytes_cons(r, rest);
        lemma_records_round_trip(rest);
        lemma_record_fields(r, records_bytes(rest));
        let b = records_bytes(rs);
        assert(b.len() > 0);
        assert(rs.map_values(|r: PacketRecord| decoded(r)) =~= seq![decoded(r)] + rest.map_values(
            |r: PacketRecord| decoded(r),
        ));
    }
}

/// A capture file holding `rs` starts with the header for its snapshot
/// length, and the rest of it reads back as the records of `rs`.
pub proof fn lemma_file_round_trip(snaplen: u32, rs: Seq<PacketRecord>)
    requires
        forall|i: int| 0 <= i < rs.len() ==> (#[trigger] rs[i]).wf(),
    ensures
        file_bytes(snaplen, rs).subrange(0, FILE_HEADER_LEN as int) == file_header_bytes(snaplen),
        decode_records(file_bytes(snaplen, rs).subrange(FILE_HEADER_LEN as int, file_bytes(snaplen, rs).len() as int))
            == Some(rs.map_values(|r: PacketRecord| decoded(r))),
{
    lemma_records_round_trip(rs);
    let b = file_bytes(snaplen, rs);
    assert(file_header_bytes(snaplen).len() == 24);
    assert(b.subrange(0, 24) =~= file_header_bytes(snaplen));
    assert(b.subrange(24, b.len() as int) =~= records_bytes(rs));
}

/// A pcap writer over an in-memory buffer. The writer type is bounded by
/// `std::io::Write` and cannot be declared as an outside type, so it is held
/// here, opaque; what it holds is `pcap_pending`, and the magic number of its
/// header, which fixes how records are laid out, is `pcap_magic`.
#[verifier::external_body]
pub struct PcapBuffer {
    writer: PcapWriter<Vec<u8>>,
}

/// The bytes a writer holds that have not been taken out yet.
pub uninterp spec fn pcap_pending(w: PcapBuffer) -> Seq<u8>;

/// The magic number of the header the writer was made with.
pub uninterp spec fn pcap_magic(w: PcapBuffer) -> u32;

/// Relies on pcap_file::pcap::PcapWriter::with_header: it keeps the header
/// and writes it into the buffer it is given (magic number first, then the
/// other fields in the byte order that the magic number selects, big-endian
/// for this one). Writing into a `Vec<u8>` does not fail.
#[verifier::external_body]
fn pcap_writer_open(magic_number: u32, snaplen: u32) -> (r: Option<PcapBuffer>)
    requires
        magic_number == MAGIC_NUMBER,
    ensures
        r is Some,
        pcap_magic(r.unwrap()) == magic_number,
        pcap_pending(r.unwrap()) == file_header_bytes(snaplen),
{
    let header = PcapHeader {
        magic_number,
        version_major: VERSION_MAJOR,
        version_minor: VERSION_MINOR,
        ts_correction: 0,
        ts_accuracy: 0,
        snaplen,
        datalink: DataLink::ETHERNET,
    };
    PcapWriter::with_header(header, Vec::new()).ok().map(|writer| PcapBuffer { writer })
}

/// Relies on pcap_file::pcap::PcapWriter::write: it appends the record
/// header (big-endian and with the nanoseconds as they are, as the header's
/// magic number asks) and then the data. Writing into a `Vec<u8>` does not
/// fail.
#[verifier::external_body]
fn pcap_writer_write(
    w: &mut PcapBuffer,
    ts_sec: u32,
    ts_nsec: u32,
    data: &[u8],
    orig_len: u32,
) -> (r: bool)
    requires
        data@.len() <= u32::MAX,
        pcap_magic(*old(w)) == MAGIC_NUMBER,
    ensures
        r,
        pcap_magic(*final(w)) == pcap_magic(*old(w)),
        pcap_pending(*final(w)) == pcap_pending(*old(w)) + record_bytes(
            ts_sec,
            ts_nsec,
            data@,
            orig_len,
        ),
{
    w.writer.write(ts_sec, ts_nsec, data, orig_len).is_ok()
}

/// Relies on pcap_file::pcap::PcapWriter::get_mut: the buffer written so far,
/// which is moved out and left empty.
#[verifier::external_body]
fn pcap_writer_take(w: &mut PcapBuffer) -> (r: Vec<u8>)
    ensures
        r@ == pcap_pending(*old(w)),
        pcap_pending(*final(w)) == Seq::<u8>::empty(),
        pcap_magic(*final(w)) == pcap_magic(*old(w)),
{
    std::mem::take(w.writer.get_mut())
}

/// A capture file being produced. What has been taken out of it and what it
/// still holds make up, in that order, the pcap encoding of its records.
pub struct CaptureFile {
    writer: PcapBuffer,
    snaplen: u32,
    records: Ghost<Seq<PacketRecord>>,
    taken: Ghost<Seq<u8>>,
}

impl CaptureFile {
    pub closed spec fn snaplen_spec(&self) -> u32 {
        self.snaplen
    }

    /// The records written so far, in order.
    pub closed spec fn records(&self) -> Seq<PacketRecord> {
        self.records@
    }

    /// The bytes handed out so far, in order.
    pub closed spec fn taken(&self) -> Seq<u8> {
        self.taken@
    }

    /// The bytes produced and not yet handed out.
    pub closed spec fn pending(&self) -> Seq<u8> {
        pcap_pending(self.writer)
    }

    pub closed spec fn wf(&self) -> bool {
        &&& pcap_magic(self.writer) == MAGIC_NUMBER
        &&& self.taken@ + pcap_pending(self.writer) == file_bytes(self.snaplen, self.records@)
    }

    /// A new file with a header for snapshot length `snaplen` and no record.
    pub fn open(snaplen: u32) -> (r: CaptureFile)
        ensures
            r.wf(),
            r.snaplen_spec() == snaplen,
            r.records() == Seq::<PacketRecord>::empty(),
            r.taken() == Seq::<u8>::empty(),
            r.pending() == file_header_bytes(snaplen),
    {
        let writer = pcap_writer_open(MAGIC_NUMBER, snaplen).unwrap();
        let f = CaptureFile {
            writer,
            snaplen,
            records: Ghost(Seq::empty()),
            taken: Ghost(Seq::empty()),
        };
        assert(records_bytes(Seq::<PacketRecord>::empty()) == Seq::<u8>::empty());
        assert(f.taken@ + pcap_pending(f.writer) =~= file_bytes(snaplen, f.records@));
        f
    }

    /// Appends one record.
    pub fn write(&mut self, record: &PacketRecord)
        requires
            old(self).wf(),
        ensures
            final(self).wf(),
            final(self).snaplen_spec() == old(self).snaplen_spec(),
            final(self).records() == old(self).records().push(*record),
            final(self).taken() == old(self).taken(),
            final(self).pending() == old(self).pending() + packet_record_bytes(*record),
    {
        let orig_len = record.orig_len();
        let data = record.data();
        let _ = pcap_writer_write(
            &mut self.writer,
            record.ts_sec(),
            record.ts_nsec(),
            data.as_slice(),
            orig_len,
        );
        let ghost old_records = self.records@;
        self.records = Ghost(self.records@.push(*record));
        proof {
            let rs = self.records@;
            let rb = packet_record_bytes(*record);
            assert(rs.drop_last() =~= old_records);
            assert(records_bytes(rs) == records_bytes(old_records) + rb);
            assert(file_bytes(self.snaplen, rs) =~= file_bytes(self.snaplen, old_records) + rb);
            assert(self.taken@ + pcap_pending(self.writer) =~= file_bytes(self.snaplen, old_records)
                + rb);
        }
    }

    /// Appends the records of `records`, in order.
    pub fn write_all(&mut self, records: &Vec<PacketRecord>)
        requires
            old(self).wf(),
        ensures
            final(self).wf(),
            final(self).snaplen_spec() == old(self).snaplen_spec(),
            final(self).records() == old(self).records() + records@,
            final(self).taken() == old(self).taken(),
    {
        let mut i: usize = 0;
        while i < records.len()
            invariant
                i <= records@.len(),
                self.wf(),
                self.snaplen_spec() == old(self).snaplen_spec(),
                self.records() == old(self).records() + records@.subrange(0, i as int),
                self.taken() == old(self).taken(),
            decreases records@.len() - i,
        {
            self.write(&records[i]);
            assert(records@.subrange(0, i + 1) =~= records@.subrange(0, i as int).push(records@[i as int]));
            i += 1;
        }
        assert(records@.subrange(0, records@.len() as int) =~= records@);
    }

    /// Hands out the bytes produced since the last call.
    pub fn take_bytes(&mut self) -> (r: Vec<u8>)
        requires
            old(self).wf(),
        ensures
            final(self).wf(),
            r@ == old(self).pending(),
            final(self).snaplen_spec() == old(self).snaplen_spec(),
            final(self).records() == old(self).records(),
            final(self).taken() == old(self).taken() + r@,
            final(self).pending() == Seq::<u8>::empty(),
            final(self).taken() == file_bytes(final(self).snaplen_spec(), final(self).records()),
    {
        let bytes = pcap_writer_take(&mut self.writer);
        self.taken = Ghost(self.taken@ + bytes@);
        proof {
            assert(self.taken@ + pcap_pending(self.writer) =~= file_bytes(
                self.snaplen,
                self.records@,
            ));
            assert(self.taken@ + pcap_pending(self.writer) =~= self.taken@);
        }
        bytes
    }
}

} // verus!
