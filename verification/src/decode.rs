//! Decoder pipeline: consumes an Ogg Opus container and collects the PCM
//! it carries. The container is read and validated here; each audio
//! packet's payload is decompressed by the caller through the raw Opus
//! primitive and handed back, and the pre-skip removal and end-trimming
//! arithmetic is applied to it.
use vstd::prelude::*;

use crate::common::{
    calc_sr, lemma_scaled_le, scaled, supported_rate, validate_rate, OGG_OPUS_SPS,
};
use crate::ogg_ext::{
    ogg_packets, ogg_tail_error, reader_bytes, reader_live, reader_new, reader_next, reader_pos,
    OggPacket, OggReader, PacketModel,
};
use crate::Error;

verus! {

/// Little-endian 16-bit value at `off`.
pub open spec fn le16(s: Seq<u8>, off: int) -> int {
    s[off] + 0x100 * s[off + 1]
}

/// The signed reading of the 16-bit little-endian value at `off`.
pub open spec fn le16_signed(s: Seq<u8>, off: int) -> int {
    if le16(s, off) < 0x8000 {
        le16(s, off)
    } else {
        le16(s, off) - 0x10000
    }
}

/// An identification header this decoder accepts: at least 19 bytes, the
/// "OpusHead" magic, and version byte 1.
pub open spec fn head_ok(s: Seq<u8>) -> bool {
    &&& s.len() >= 19
    &&& s[0] == 0x4fu8
    &&& s[1] == 0x70u8
    &&& s[2] == 0x75u8
    &&& s[3] == 0x73u8
    &&& s[4] == 0x48u8
    &&& s[5] == 0x65u8
    &&& s[6] == 0x61u8
    &&& s[7] == 0x64u8
    &&& s[8] == 1u8
}

/// A comment header this decoder accepts: at least 12 bytes and the
/// "OpusTags" magic.
pub open spec fn tags_ok(s: Seq<u8>) -> bool {
    &&& s.len() >= 12
    &&& s[0] == 0x4fu8
    &&& s[1] == 0x70u8
    &&& s[2] == 0x75u8
    &&& s[3] == 0x73u8
    &&& s[4] == 0x54u8
    &&& s[5] == 0x61u8
    &&& s[6] == 0x67u8
    &&& s[7] == 0x73u8
}

/// The parsed packet sequences the decoder turns away at its start:
/// fewer than two packets before the container ends or errors, a bad
/// identification header, a channel count that is neither mono nor
/// stereo, or a bad comment header.
pub open spec fn header_rejected(ps: Seq<PacketModel>) -> bool {
    ||| ps.len() < 2
    ||| !head_ok(ps[0].data)
    ||| !(ps[0].data[9] == 1 || ps[0].data[9] == 2)
    ||| !tags_ok(ps[1].data)
}

/// Playback metadata extracted from the identification header.
#[derive(Debug, Clone, Copy, PartialEq, Eq, Structural)]
pub struct PlayData {
    pub channels: u16,
}

/// Decoder configuration extracted from the identification header:
/// pre-skip rescaled down to the target rate, and the output gain.
#[derive(Debug, Clone, Copy, PartialEq, Eq, Structural)]
pub struct DecodeData {
    pub pre_skip: u16,
    pub gain: i32,
}

/// Analyzes the first packet of the container. Rejects exactly the
/// packets `head_ok` refuses — a missing or wrong magic or a version
/// other than 1, whatever the rest holds; otherwise extracts the channel
/// count, the pre-skip rescaled from 48 kHz to the target rate, and the
/// signed output gain.
pub fn check_fp(fp: &Vec<u8>, target_s_ps: u32) -> (r: Result<(PlayData, DecodeData), Error>)
    requires
        supported_rate(target_s_ps as int),
    ensures
        r is Err <==> !head_ok(fp@),
        r matches Err(e) ==> e == Error::MalformedAudio,
        r matches Ok(v) ==> v.0.channels == fp@[9] as u16 && v.1.pre_skip as int == scaled(
            le16(fp@, 10),
            OGG_OPUS_SPS as int,
            target_s_ps as int,
        ) && v.1.gain as int == le16_signed(fp@, 16),
{
    if fp.len() < 19 {
        return Err(Error::MalformedAudio);
    }
    if !(fp[0] == 0x4f && fp[1] == 0x70 && fp[2] == 0x75 && fp[3] == 0x73 && fp[4] == 0x48
        && fp[5] == 0x65 && fp[6] == 0x61 && fp[7] == 0x64) {
        return Err(Error::MalformedAudio);
    }
    if fp[8] != 1 {
        return Err(Error::MalformedAudio);
    }
    let raw_skip: u16 = fp[10] as u16 + 0x100 * (fp[11] as u16);
    proof {
        lemma_scaled_le(raw_skip as int, OGG_OPUS_SPS as int, target_s_ps as int);
    }
    let pre_skip = calc_sr(raw_skip, OGG_OPUS_SPS, target_s_ps);
    let g_u: u16 = fp[16] as u16 + 0x100 * (fp[17] as u16);
    let gain: i32 = if g_u < 0x8000 {
        g_u as i32
    } else {
        g_u as i32 - 0x10000
    };
    Ok((PlayData { channels: fp[9] as u16 }, DecodeData { pre_skip, gain }))
}

/// Checks the second packet's "OpusTags" magic and minimum size; rejects
/// exactly the packets `tags_ok` refuses. Contents past the magic are not
/// interpreted.
pub fn check_sp(sp: &Vec<u8>) -> (r: Result<(), Error>)
    ensures
        r is Ok <==> tags_ok(sp@),
        r matches Err(e) ==> e == Error::MalformedAudio,
{
    if sp.len() < 12 {
        return Err(Error::MalformedAudio);
    }
    if !(sp[0] == 0x4f && sp[1] == 0x70 && sp[2] == 0x75 && sp[3] == 0x73 && sp[4] == 0x54
        && sp[5] == 0x61 && sp[6] == 0x67 && sp[7] == 0x73) {
        return Err(Error::MalformedAudio);
    }
    Ok(())
}

/// Appends `src[from..to]` to `dst`.
fn extend_range(dst: &mut Vec<i16>, src: &Vec<i16>, from: usize, to: usize)
    requires
        from <= to <= src@.len(),
    ensures
        final(dst)@ == old(dst)@ + src@.subrange(from as int, to as int),
{
    let mut i: usize = from;
    while i < to
        invariant
            from <= i <= to <= src@.len(),
            dst@ == old(dst)@ + src@.subrange(from as int, i as int),
        decreases to - i,
    {
        dst.push(src[i]);
        i = i + 1;
        proof {
            assert(dst@ =~= old(dst)@ + src@.subrange(from as int, i as int));
        }
    }
    proof {
        assert(dst@ =~= old(dst)@ + src@.subrange(from as int, to as int));
    }
}

/// Rescales an on-wire 48 kHz granule position down to the target rate:
/// exactly `scaled(absgp, 48000, target)`, for every 64-bit position.
fn scale_granule(absgp: u64, target_s_ps: u32) -> (r: u64)
    requires
        supported_rate(target_s_ps as int),
    ensures
        r as int == scaled(absgp as int, OGG_OPUS_SPS as int, target_s_ps as int),
        r <= absgp,
{
    let q: u64 = absgp / 48000;
    let rm: u64 = absgp % 48000;
    let t: u64 = target_s_ps as u64;
    proof {
        assert(q as int * t as int <= absgp as int && 0 <= q as int * t as int)
            by (nonlinear_arith)
            requires
                q as int == absgp as int / 48000,
                rm as int == absgp as int % 48000,
                0 <= absgp as int,
                0 < t as int,
                t as int <= 48000,
        ;
        assert(rm as int * t as int <= 0x1_0000_0000_0000) by (nonlinear_arith)
            requires
                0 <= rm as int,
                (rm as int) < 48000,
                0 < t as int,
                t as int <= 48000,
        ;
    }
    let high: u64 = q * t;
    let low: u64 = (rm * t) / 48000;
    proof {
        assert(high as int + low as int == scaled(
            absgp as int,
            OGG_OPUS_SPS as int,
            target_s_ps as int,
        )) by (nonlinear_arith)
            requires
                absgp as int == 48000 * (q as int) + rm as int,
                0 <= rm as int,
                (rm as int) < 48000,
                0 < t as int,
                high as int == q as int * t as int,
                low as int == rm as int * t as int / 48000,
                t as int == target_s_ps as int,
        ;
        lemma_scaled_le(absgp as int, OGG_OPUS_SPS as int, target_s_ps as int);
    }
    high + low
}

/// Ghost model of a decode stream: the PCM collected so far, the
/// remaining pre-skip, the running per-channel decoded total, and the
/// header configuration.
pub struct DecodeModel {
    pub pcm: Seq<i16>,
    pub rem_skip: int,
    pub decoded: int,
    pub channels: int,
    pub gain: int,
    pub target: int,
}

/// The per-channel position the stream's last packet declares as its end,
/// in the target rate domain.
pub open spec fn declared_end(absgp: int, target: int) -> int {
    scaled(absgp, OGG_OPUS_SPS as int, target)
}

/// When one decoded frame cannot be accounted: the running total would
/// overflow its 64-bit accumulator, or the declared end position of the
/// last packet asks to trim more samples than the frame holds past the
/// remaining pre-skip. Both are structural violations of the container.
pub open spec fn frame_rejected(m: DecodeModel, out_size: int, absgp: int, last: bool) -> bool {
    ||| m.decoded + out_size > u64::MAX
    ||| (m.rem_skip < out_size && last && m.decoded + out_size > declared_end(absgp, m.target)
        && m.decoded + out_size - declared_end(absgp, m.target) > out_size * m.channels
            - m.rem_skip)
}

/// How one accepted frame changes the stream: a frame wholly inside the
/// pre-skip is consumed without output; otherwise the part after the
/// remaining pre-skip is appended, cut back to the declared end position
/// when the last packet's running total overruns it.
pub open spec fn frame_accepted(
    m: DecodeModel,
    frame: Seq<i16>,
    out_size: int,
    absgp: int,
    last: bool,
) -> DecodeModel {
    let after = m.decoded + out_size;
    if m.rem_skip >= out_size {
        DecodeModel { rem_skip: m.rem_skip - out_size, decoded: after, ..m }
    } else {
        let full = out_size * m.channels;
        let end = if last && after > declared_end(absgp, m.target) {
            full - (after - declared_end(absgp, m.target))
        } else {
            full
        };
        DecodeModel {
            pcm: m.pcm + frame.subrange(m.rem_skip, end),
            rem_skip: 0,
            decoded: after,
            ..m
        }
    }
}

/// One decode invocation's container state: the Ogg reader past both
/// header packets, the PCM collected so far, and the skip and granule
/// accounting. The caller decompresses each audio packet through the Opus
/// frame primitive and hands the frame back in order.
pub struct DecodeStream {
    reader: OggReader,
    buffer: Vec<i16>,
    rem_skip: usize,
    dec_absgsp: u64,
    channels: u8,
    gain: i32,
    target_s_ps: u32,
}

impl View for DecodeStream {
    type V = DecodeModel;

    closed spec fn view(&self) -> DecodeModel {
        DecodeModel {
            pcm: self.buffer@,
            rem_skip: self.rem_skip as int,
            decoded: self.dec_absgsp as int,
            channels: self.channels as int,
            gain: self.gain as int,
            target: self.target_s_ps as int,
        }
    }
}

impl DecodeStream {
    /// The container bytes this stream reads.
    pub closed spec fn spec_bytes(self) -> Seq<u8> {
        reader_bytes(self.reader)
    }

    /// How many packets of the container's parse were consumed.
    pub closed spec fn spec_pos(self) -> int {
        reader_pos(self.reader)
    }

    /// Whether no read error has surfaced yet.
    pub closed spec fn spec_live(self) -> bool {
        reader_live(self.reader)
    }

    pub open spec fn wf(self) -> bool {
        &&& 1 <= self@.channels <= 2
        &&& supported_rate(self@.target)
        &&& 0 <= self@.rem_skip <= u16::MAX
        &&& 0 <= self@.decoded <= u64::MAX
    }

    /// Opens a container for decoding: validates the target rate before
    /// anything else, then reads and checks the identification and
    /// comment headers. Fails with InvalidSampleRate exactly on an
    /// unsupported rate, and with MalformedAudio exactly when the
    /// container's parse does not open with a valid identification
    /// header (mono or stereo) followed by a valid comment header.
    pub fn new(data: Vec<u8>, target_s_ps: u32) -> (r: Result<DecodeStream, Error>)
        ensures
            !supported_rate(target_s_ps as int) <==> r == Err::<DecodeStream, Error>(
                Error::InvalidSampleRate,
            ),
            r matches Err(e) ==> e == Error::InvalidSampleRate || e == Error::MalformedAudio,
            supported_rate(target_s_ps as int) ==> ((r is Err) == header_rejected(
                ogg_packets(data@),
            )),
            supported_rate(target_s_ps as int) && data@.len() < 28 ==> r == Err::<
                DecodeStream,
                Error,
            >(Error::MalformedAudio),
            r matches Ok(s) ==> ({
                let ps = ogg_packets(data@);
                &&& s.wf()
                &&& s@.pcm.len() == 0
                &&& s@.decoded == 0
                &&& s@.target == target_s_ps as int
                &&& s@.channels == ps[0].data[9] as int
                &&& s@.gain == le16_signed(ps[0].data, 16)
                &&& s@.rem_skip == scaled(
                    le16(ps[0].data, 10),
                    OGG_OPUS_SPS as int,
                    target_s_ps as int,
                )
                &&& s.spec_bytes() == data@
                &&& s.spec_pos() == 2
                &&& s.spec_live()
            }),
    {
        if validate_rate(target_s_ps).is_none() {
            return Err(Error::InvalidSampleRate);
        }
        let mut reader = reader_new(data);
        let fp = match reader_next(&mut reader) {
            Ok(Some(p)) => p,
            Ok(None) => return Err(Error::MalformedAudio),
            Err(_) => return Err(Error::MalformedAudio),
        };
        let (pd, dd) = match check_fp(&fp.data, target_s_ps) {
            Ok(v) => v,
            Err(e) => return Err(e),
        };
        let channels: u8 = if pd.channels == 1 {
            1
        } else if pd.channels == 2 {
            2
        } else {
            return Err(Error::MalformedAudio);
        };
        let sp = match reader_next(&mut reader) {
            Ok(Some(p)) => p,
            Ok(None) => return Err(Error::MalformedAudio),
            Err(_) => return Err(Error::MalformedAudio),
        };
        match check_sp(&sp.data) {
            Ok(_) => {},
            Err(e) => return Err(e),
        }
        Ok(
            DecodeStream {
                reader,
                buffer: Vec::new(),
                rem_skip: dd.pre_skip as usize,
                dec_absgsp: 0,
                channels,
                gain: dd.gain,
                target_s_ps,
            },
        )
    }

    /// Channel count from the header: 1 or 2.
    pub fn channels(&self) -> (r: u16)
        ensures
            r as int == self@.channels,
    {
        self.channels as u16
    }

    /// Output gain from the header, for the caller to apply to the Opus
    /// primitive.
    pub fn gain(&self) -> (r: i32)
        ensures
            r as int == self@.gain,
    {
        self.gain
    }

    /// Reads the next audio packet of the container: the next packet of
    /// the parse, then `None` forever once it is exhausted, or one
    /// IOFailure where the parse ends in a read error.
    pub fn next_packet(&mut self) -> (r: Result<Option<OggPacket>, Error>)
        ensures
            final(self)@ == old(self)@,
            final(self).spec_bytes() == old(self).spec_bytes(),
            r matches Err(e) ==> e == Error::IOFailure,
            ({
                let ps = ogg_packets(old(self).spec_bytes());
                let i = old(self).spec_pos();
                &&& (old(self).spec_live() && 0 <= i < ps.len() ==> (r matches Ok(Some(p))
                    && p.data@ == ps[i].data && p.absgp == ps[i].absgp && p.last == ps[i].last
                    && final(self).spec_pos() == i + 1 && final(self).spec_live()))
                &&& (old(self).spec_live() && i >= ps.len() && !ogg_tail_error(
                    old(self).spec_bytes(),
                ) ==> (r matches Ok(q) && q is None && final(self).spec_pos() == i
                    && final(self).spec_live()))
                &&& (old(self).spec_live() && i >= ps.len() && ogg_tail_error(
                    old(self).spec_bytes(),
                ) ==> r is Err && !final(self).spec_live())
            }),
    {
        match reader_next(&mut self.reader) {
            Ok(v) => Ok(v),
            Err(_) => Err(Error::IOFailure),
        }
    }

    /// Accounts one decoded frame: `frame` is the primitive's output for
    /// one packet, `out_size` its per-channel sample count, `absgp` and
    /// `last` the packet's granule position and end flag. Consumes the
    /// frame as pre-skip while any remains, trims the last packet back to
    /// its declared end position, and appends the rest. Fails, leaving
    /// the stream unchanged, exactly on the structural violations
    /// `frame_rejected` names (where the container's own arithmetic is
    /// inconsistent).
    pub fn accept_frame(&mut self, frame: &Vec<i16>, out_size: usize, absgp: u64, last: bool) -> (r:
        Result<(), Error>)
        requires
            old(self).wf(),
            out_size * old(self)@.channels <= frame@.len(),
        ensures
            final(self).wf(),
            r matches Err(e) ==> e == Error::MalformedAudio,
            r is Err <==> frame_rejected(old(self)@, out_size as int, absgp as int, last),
            r is Err ==> final(self)@ == old(self)@,
            r is Ok ==> final(self)@ == frame_accepted(
                old(self)@,
                frame@,
                out_size as int,
                absgp as int,
                last,
            ),
    {
        let n: usize = out_size;
        if self.dec_absgsp > u64::MAX - n as u64 {
            return Err(Error::MalformedAudio);
        }
        let after: u64 = self.dec_absgsp + n as u64;
        if self.rem_skip >= n {
            self.rem_skip = self.rem_skip - n;
            self.dec_absgsp = after;
            return Ok(());
        }
        let ch: usize = self.channels as usize;
        let flen: usize = frame.len();
        proof {
            assert(n as int * 1 <= n as int * ch as int) by (nonlinear_arith)
                requires
                    1 <= ch as int,
                    0 <= n as int,
            ;
        }
        let mut trimmed_end: usize = n * ch;
        if last {
            let declared: u64 = scale_granule(absgp, self.target_s_ps);
            if after > declared {
                let over: u64 = after - declared;
                if over > (trimmed_end - self.rem_skip) as u64 {
                    return Err(Error::MalformedAudio);
                }
                trimmed_end = trimmed_end - over as usize;
            }
        }
        extend_range(&mut self.buffer, frame, self.rem_skip, trimmed_end);
        self.rem_skip = 0;
        self.dec_absgsp = after;
        Ok(())
    }

    /// Ends decoding: the PCM collected and the playback metadata.
    pub fn finish(self) -> (r: (Vec<i16>, PlayData))
        ensures
            r.0@ == self@.pcm,
            r.1.channels as int == self@.channels,
    {
        let pd = PlayData { channels: self.channels as u16 };
        (self.buffer, pd)
    }
}

} // verus!
