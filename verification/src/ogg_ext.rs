//! Trusted boundary to the `ogg` crate: the container's page reader and
//! writer. Packets cross the boundary as plain values; the page framing,
//! CRC and segment tables stay inside the outside crate. Both directions
//! are deterministic — the reader yields packets as a function of the
//! bytes it was built over, the writer's output is a function of the
//! packets written — so each side's behaviour is captured by named
//! functions that the wrappers' contracts share.
use vstd::prelude::*;

verus! {

/// ogg's read error, carried through and mapped by verified code.
#[verifier::external_type_specification]
#[verifier::external_body]
pub struct ExOggReadError(ogg::OggReadError);

/// std's I/O error, returned by the page writer's signature (never, for
/// an in-memory sink).
#[verifier::external_type_specification]
#[verifier::external_body]
pub struct ExIoError(std::io::Error);

/// One container packet, as plain values: its payload, the granule
/// position of its page, and whether it ends the logical stream.
pub struct OggPacket {
    pub data: Vec<u8>,
    pub absgp: u64,
    pub last: bool,
}

/// What a parsed packet holds, at the specification level.
pub struct PacketModel {
    pub data: Seq<u8>,
    pub absgp: u64,
    pub last: bool,
}

/// One packet as handed to the page writer: payload, stream serial, end
/// marker, granule position.
pub struct WrittenPacket {
    pub data: Seq<u8>,
    pub serial: u32,
    pub end: PacketEnd,
    pub absgp: u64,
}

/// The packets that repeated reads of an Ogg stream yield, in order, up
/// to the first outcome that is not a packet (clean exhaustion or a read
/// error). Parsing an in-memory stream is deterministic, so this is a
/// function of the bytes alone.
pub uninterp spec fn ogg_packets(bytes: Seq<u8>) -> Seq<PacketModel>;

/// Whether the first non-packet outcome after `ogg_packets(bytes)` is a
/// read error rather than clean exhaustion.
pub uninterp spec fn ogg_tail_error(bytes: Seq<u8>) -> bool;

/// The bytes a reader was built over.
pub uninterp spec fn reader_bytes(r: OggReader) -> Seq<u8>;

/// How many packets a reader has yielded so far.
pub uninterp spec fn reader_pos(r: OggReader) -> int;

/// Whether the reader has not yet reported a read error. After the first
/// error the underlying reader may recapture at a later page, so nothing
/// is stated of further reads.
pub uninterp spec fn reader_live(r: OggReader) -> bool;

/// The sequence of packets written into an in-memory stream so far.
pub uninterp spec fn writer_log(w: OggWriter) -> Seq<WrittenPacket>;

/// The bytes the page writer has emitted for a packet sequence: the
/// pages that encapsulate it, a deterministic function of the packets
/// alone.
pub uninterp spec fn ogg_encapsulation(log: Seq<WrittenPacket>) -> Seq<u8>;

/// Reads packets out of an in-memory Ogg stream. Opaque: Verus refuses a
/// declaration of `ogg::PacketReader` itself, whose type parameter is
/// bound by `std::io` traits, so the whole struct is held behind
/// `external_body` and described through `reader_bytes`, `reader_pos`
/// and `reader_live`.
#[verifier::external_body]
pub struct OggReader {
    reader: ogg::PacketReader<std::io::Cursor<Vec<u8>>>,
}

/// Accumulates the pages of one Ogg stream into memory. Opaque for the
/// same reason as `OggReader`; described through `writer_log`.
#[verifier::external_body]
pub struct OggWriter {
    writer: ogg::PacketWriter<'static, Vec<u8>>,
}

/// What the write of a packet ends: nothing, the page, or the stream.
#[derive(Debug, Clone, Copy, PartialEq, Eq, Structural)]
pub enum PacketEnd {
    NormalPacket,
    EndPage,
    EndStream,
}

/// Relies on ogg::PacketReader::new over an in-memory cursor: a fresh
/// reader over exactly these bytes, no packet yielded yet. A packet
/// needs at least one complete page — a 27-byte header and one segment
/// lacing byte — so fewer than 28 bytes parse to no packet at all.
#[verifier::external_body]
pub(crate) fn reader_new(data: Vec<u8>) -> (r: OggReader)
    ensures
        reader_bytes(r) == data@,
        reader_pos(r) == 0,
        reader_live(r),
        data@.len() < 28 ==> ogg_packets(reader_bytes(r)).len() == 0,
{
    OggReader { reader: ogg::PacketReader::new(std::io::Cursor::new(data)) }
}

/// Relies on ogg::PacketReader::read_packet: while no error has come,
/// hands out the next packet of the stream's parse, then `None` forever
/// once it is exhausted, or one error where the parse ends badly.
#[verifier::external_body]
pub(crate) fn reader_next(r: &mut OggReader) -> (res: Result<
    Option<OggPacket>,
    ogg::OggReadError,
>)
    ensures
        reader_bytes(*final(r)) == reader_bytes(*old(r)),
        ({
            let ps = ogg_packets(reader_bytes(*old(r)));
            let i = reader_pos(*old(r));
            &&& (reader_live(*old(r)) && 0 <= i < ps.len() ==> (res matches Ok(Some(p))
                && p.data@ == ps[i].data && p.absgp == ps[i].absgp && p.last == ps[i].last
                && reader_pos(*final(r)) == i + 1 && reader_live(*final(r))))
            &&& (reader_live(*old(r)) && i >= ps.len() && !ogg_tail_error(
                reader_bytes(*old(r)),
            ) ==> (res matches Ok(q) && q is None && reader_pos(*final(r)) == i && reader_live(
                *final(r),
            )))
            &&& (reader_live(*old(r)) && i >= ps.len() && ogg_tail_error(
                reader_bytes(*old(r)),
            ) ==> res is Err && !reader_live(*final(r)))
        }),
{
    match r.reader.read_packet() {
        Ok(Some(p)) => {
            let absgp = p.absgp_page();
            let last = p.last_in_stream();
            Ok(Some(OggPacket { data: p.data, absgp, last }))
        }
        Ok(None) => Ok(None),
        Err(e) => Err(e),
    }
}

/// Relies on ogg::PacketWriter::new over a fresh in-memory buffer: no
/// packet written yet.
#[verifier::external_body]
pub(crate) fn writer_new() -> (w: OggWriter)
    ensures
        writer_log(w) == Seq::<WrittenPacket>::empty(),
{
    OggWriter { writer: ogg::PacketWriter::new(Vec::new()) }
}

/// Relies on ogg::PacketWriter::write_packet: frames `data` as the next
/// packet of the logical stream `serial` with the given granule position,
/// ending a page or the stream as `end` says. Every write goes into
/// owned memory, so it cannot fail.
#[verifier::external_body]
pub(crate) fn writer_write(
    w: &mut OggWriter,
    data: Vec<u8>,
    serial: u32,
    end: PacketEnd,
    absgp: u64,
) -> (r: Result<(), std::io::Error>)
    ensures
        r is Ok,
        writer_log(*final(w)) == writer_log(*old(w)).push(
            (WrittenPacket { data: data@, serial, end, absgp }),
        ),
{
    let inf = match end {
        PacketEnd::NormalPacket => ogg::PacketWriteEndInfo::NormalPacket,
        PacketEnd::EndPage => ogg::PacketWriteEndInfo::EndPage,
        PacketEnd::EndStream => ogg::PacketWriteEndInfo::EndStream,
    };
    w.writer.write_packet(data, serial, inf, absgp)
}

/// Relies on ogg::PacketWriter::into_inner: the bytes of every page
/// emitted for the packets written so far.
#[verifier::external_body]
pub(crate) fn writer_into_bytes(w: OggWriter) -> (r: Vec<u8>)
    ensures
        r@ == ogg_encapsulation(writer_log(w)),
{
    w.writer.into_inner()
}

} // verus!
