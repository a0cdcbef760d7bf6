//! Encoder pipeline: turns interleaved 16-bit PCM plus a rate and channel
//! configuration into an Ogg Opus stream. The stream's framing is planned
//! and written here; each planned PCM window is compressed by the caller
//! through the raw Opus primitive and handed back as packet bytes.
use vstd::prelude::*;

use crate::common::{
    calc_sr, calc_sr_u64, opus_channels, scaled, supported_rate, validate_rate, FRAME_TIME_MS,
    MAX_INPUT_SAMPLES, MAX_NUM_CHANNELS, MIN_FRAME_MICROS, OGG_OPUS_SPS,
};
use crate::ogg_ext::{
    ogg_encapsulation, writer_into_bytes, writer_log, writer_new, writer_write, OggWriter,
    PacketEnd, WrittenPacket,
};
use crate::Error;

verus! {

/// Samples per channel in a frame of `ms` milliseconds at rate `s_ps`.
pub open spec fn spec_to_samples(s_ps: int, ms: int) -> int {
    s_ps * ms / 1000
}

pub fn to_samples(s_ps: u32, ms: u32) -> (r: usize)
    requires
        s_ps as int * ms as int <= u32::MAX as int,
    ensures
        r == spec_to_samples(s_ps as int, ms as int),
{
    ((s_ps * ms) / 1000) as usize
}

/// Interleaved samples in a frame of `us` tenths of a millisecond.
pub open spec fn spec_fr_size(us: int, channels: int, s_ps: int) -> int {
    s_ps * us * channels / 10000
}

/// Interleaved frame size for a duration given in tenths of a millisecond
/// (25 stands for the 2.5 ms frame).
pub fn calc_fr_size(us: u32, channels: u8, sps: u32) -> (r: usize)
    requires
        1 <= channels,
        sps as int * us as int * channels as int <= u32::MAX as int,
    ensures
        r == spec_fr_size(us as int, channels as int, sps as int),
{
    proof {
        assert(sps as int * us as int <= sps as int * us as int * channels as int)
            by (nonlinear_arith)
            requires
                1 <= channels as int,
                0 <= sps as int * us as int,
        ;
    }
    let samps_ms: u32 = sps * us;
    ((samps_ms * channels as u32) / 10000) as usize
}

/// On-wire granule position of a per-channel sample position at `s_ps`:
/// the position rescaled to the canonical 48 kHz domain.
pub fn granule(val: usize, s_ps: u32) -> (r: u64)
    requires
        s_ps > 0,
        val as int * OGG_OPUS_SPS as int <= u64::MAX as int,
    ensures
        r as int == scaled(val as int, s_ps as int, OGG_OPUS_SPS as int),
{
    calc_sr_u64(val as u64, s_ps, OGG_OPUS_SPS)
}

/// Per-channel samples of the standard 20 ms frame.
pub open spec fn frame_samples_of(s_ps: int) -> int {
    spec_to_samples(s_ps, FRAME_TIME_MS as int)
}

/// Interleaved samples of the standard 20 ms frame.
pub open spec fn frame_size_of(s_ps: int, ch: int) -> int {
    frame_samples_of(s_ps) * ch
}

/// The standard short sizes are positive, ordered by duration, and the
/// longest equals the main loop's 20 ms frame.
pub proof fn lemma_short_sizes(s_ps: int, ch: int)
    requires
        supported_rate(s_ps),
        1 <= ch <= 2,
    ensures
        0 < spec_fr_size(25, ch, s_ps),
        spec_fr_size(25, ch, s_ps) <= spec_fr_size(50, ch, s_ps),
        spec_fr_size(50, ch, s_ps) <= spec_fr_size(100, ch, s_ps),
        spec_fr_size(100, ch, s_ps) <= spec_fr_size(200, ch, s_ps),
        spec_fr_size(200, ch, s_ps) == frame_size_of(s_ps, ch),
        spec_fr_size(200, ch, s_ps) <= 1920,
        0 < frame_samples_of(s_ps) <= 960,
        ch * frame_samples_of(s_ps) == frame_size_of(s_ps, ch),
{
    if ch == 1 {
        assert(spec_fr_size(25, 1, s_ps) > 0);
        assert(spec_fr_size(200, 1, s_ps) == frame_size_of(s_ps, 1));
    } else {
        assert(spec_fr_size(25, 2, s_ps) > 0);
        assert(spec_fr_size(200, 2, s_ps) == frame_size_of(s_ps, 2));
    }
}

/// One audio packet the encoder will emit, at the specification level:
/// the window [a, b) over the lookahead-shifted timeline, the packet's
/// granule position, and whether it ends the stream.
pub struct FrameSpec {
    pub a: int,
    pub b: int,
    pub absgp: int,
    pub last: bool,
}

/// One audio packet the encoder will emit, as machine values.
#[derive(Debug, Clone, Copy, PartialEq, Eq, Structural)]
pub struct PlannedFrame {
    pub a: usize,
    pub b: usize,
    pub absgp: u64,
    pub last: bool,
}

impl View for PlannedFrame {
    type V = FrameSpec;

    open spec fn view(&self) -> FrameSpec {
        FrameSpec {
            a: self.a as int,
            b: self.b as int,
            absgp: self.absgp as int,
            last: self.last,
        }
    }
}

pub open spec fn plan_view(s: Seq<PlannedFrame>) -> Seq<FrameSpec> {
    s.map_values(|f: PlannedFrame| f@)
}

/// The frames of the encoder's fixed-size main loop: consecutive 20 ms
/// windows, as many as fit `len + skip` whole.
pub open spec fn main_frames(len: int, skip: int, s_ps: int, ch: int) -> Seq<FrameSpec> {
    let tot = len + skip;
    let fsz = frame_size_of(s_ps, ch);
    let fsamp = frame_samples_of(s_ps);
    Seq::new(
        (tot / fsz) as nat,
        |i: int|
            FrameSpec {
                a: i * fsz,
                b: (i + 1) * fsz,
                absgp: scaled(skip + (i + 1) * fsamp, s_ps, OGG_OPUS_SPS as int),
                last: (i + 1) * fsz == tot,
            },
    )
}

/// The largest standard short duration whose frame fits `rem`, if any.
pub open spec fn pick_short(rem: int, ch: int, s_ps: int) -> Option<int> {
    if spec_fr_size(200, ch, s_ps) <= rem {
        Some(spec_fr_size(200, ch, s_ps))
    } else if spec_fr_size(100, ch, s_ps) <= rem {
        Some(spec_fr_size(100, ch, s_ps))
    } else if spec_fr_size(50, ch, s_ps) <= rem {
        Some(spec_fr_size(50, ch, s_ps))
    } else if spec_fr_size(25, ch, s_ps) <= rem {
        Some(spec_fr_size(25, ch, s_ps))
    } else {
        None
    }
}

/// The tail frames once `last` interleaved samples are covered: the
/// largest standard short frame that still fits, repeatedly, then one
/// zero-padded 2.5 ms frame when none fits. The terminal packet's granule
/// position is the true per-channel total `(skip + len) / ch`, never the
/// padded length.
pub open spec fn tail_frames(last: int, len: int, skip: int, s_ps: int, ch: int) -> Seq<
    FrameSpec,
>
    decreases len + skip - last
        when supported_rate(s_ps) && 1 <= ch <= 2 && 0 <= last
        via tail_frames_decreases
{
    let tot = len + skip;
    if last >= tot {
        Seq::empty()
    } else {
        match pick_short(tot - last, ch, s_ps) {
            Some(fs) => seq![
                FrameSpec {
                    a: last,
                    b: last + fs,
                    absgp: scaled((last + fs) / ch, s_ps, OGG_OPUS_SPS as int),
                    last: last + fs == tot,
                },
            ] + tail_frames(last + fs, len, skip, s_ps, ch),
            None => seq![
                FrameSpec {
                    a: last,
                    b: last + spec_fr_size(25, ch, s_ps),
                    absgp: scaled((skip + len) / ch, s_ps, OGG_OPUS_SPS as int),
                    last: true,
                },
            ],
        }
    }
}

#[via_fn]
proof fn tail_frames_decreases(last: int, len: int, skip: int, s_ps: int, ch: int) {
    lemma_short_sizes(s_ps, ch);
}

/// Every audio packet one encode call emits, in order.
pub open spec fn encode_plan(len: int, skip: int, s_ps: int, ch: int) -> Seq<FrameSpec> {
    let tot = len + skip;
    let fsz = frame_size_of(s_ps, ch);
    main_frames(len, skip, s_ps, ch) + tail_frames(tot / fsz * fsz, len, skip, s_ps, ch)
}

/// Computes the full packet plan of one encode call: the main 20 ms
/// frames, the short tail frames, and the padded terminal frame when the
/// remainder fits no standard duration.
pub fn plan_packets(len: usize, skip: u16, s_ps: u32, channels: u8) -> (r: Vec<PlannedFrame>)
    requires
        supported_rate(s_ps as int),
        1 <= channels <= 2,
        len <= MAX_INPUT_SAMPLES,
        len + 0x20000 <= usize::MAX,
    ensures
        plan_view(r@) == encode_plan(len as int, skip as int, s_ps as int, channels as int),
{
    proof {
        lemma_short_sizes(s_ps as int, channels as int);
    }
    let chu: usize = channels as usize;
    let skip_us: usize = skip as usize;
    let tot: usize = len + skip_us;
    let fsamp: usize = to_samples(s_ps, FRAME_TIME_MS);
    let fsz: usize = fsamp * chu;
    proof {
        assert(fsz == frame_size_of(s_ps as int, channels as int));
        assert(fsamp as int <= fsz as int && fsz as int <= 2 * fsamp as int)
            by (nonlinear_arith)
            requires
                fsz as int == fsamp as int * chu as int,
                1 <= chu as int <= 2,
                0 <= fsamp as int,
        ;
        vstd::arithmetic::div_mod::lemma_fundamental_div_mod(tot as int, fsz as int);
        vstd::arithmetic::div_mod::lemma_mod_bound(tot as int, fsz as int);
    }
    let max: usize = tot / fsz;
    proof {
        assert(max as int * fsz as int <= tot as int) by (nonlinear_arith)
            requires
                tot as int == fsz as int * (tot as int / fsz as int) + tot as int % fsz as int,
                0 <= tot as int % fsz as int,
                max as int == tot as int / fsz as int,
        ;
    }

    let ghost leni = len as int;
    let ghost skipi = skip as int;
    let ghost spsi = s_ps as int;
    let ghost chi = channels as int;

    let mut r: Vec<PlannedFrame> = Vec::new();
    let mut i: usize = 0;
    while i < max
        invariant
            supported_rate(spsi),
            1 <= chi <= 2,
            leni <= MAX_INPUT_SAMPLES,
            leni + 0x20000 <= usize::MAX,
            leni == len as int,
            skipi == skip as int,
            spsi == s_ps as int,
            chi == channels as int,
            chu == channels as usize,
            skip_us == skip as usize,
            tot == leni + skipi,
            fsamp == frame_samples_of(spsi),
            fsz == frame_size_of(spsi, chi),
            0 < fsamp <= fsz,
            fsz <= 2 * fsamp,
            max == tot as int / fsz as int,
            max * fsz <= tot,
            i <= max,
            r@.len() == i,
            forall|j: int|
                0 <= j < i ==> r@[j]@ == main_frames(leni, skipi, spsi, chi)[j],
        decreases max - i,
    {
        proof {
            vstd::arithmetic::mul::lemma_mul_inequality(i as int, i as int + 1, fsz as int);
            vstd::arithmetic::mul::lemma_mul_inequality(i as int + 1, max as int, fsz as int);
            vstd::arithmetic::mul::lemma_mul_inequality(i as int + 1, max as int, fsamp as int);
            vstd::arithmetic::mul::lemma_mul_inequality(fsamp as int, fsz as int, max as int);
            assert(max as int * fsamp as int == fsamp as int * max as int)
                by (nonlinear_arith);
            assert(max as int * fsz as int == fsz as int * max as int) by (nonlinear_arith);
        }
        let a: usize = i * fsz;
        let b: usize = (i + 1) * fsz;
        let gpos: usize = skip_us + (i + 1) * fsamp;
        let absgp: u64 = granule(gpos, s_ps);
        let f = PlannedFrame { a, b, absgp, last: b == tot };
        proof {
            assert(f@ == main_frames(leni, skipi, spsi, chi)[i as int]);
        }
        r.push(f);
        i = i + 1;
    }

    proof {
        assert(plan_view(r@) =~= main_frames(leni, skipi, spsi, chi));
    }

    let s0: usize = calc_fr_size(MIN_FRAME_MICROS, channels, s_ps);
    let s1: usize = calc_fr_size(50, channels, s_ps);
    let s2: usize = calc_fr_size(100, channels, s_ps);
    let s3: usize = calc_fr_size(200, channels, s_ps);

    let mut last: usize = max * fsz;
    proof {
        assert(plan_view(r@) + tail_frames(last as int, leni, skipi, spsi, chi) =~= encode_plan(
            leni,
            skipi,
            spsi,
            chi,
        ));
    }
    while last < tot
        invariant
            supported_rate(spsi),
            1 <= chi <= 2,
            leni == len as int,
            skipi == skip as int,
            spsi == s_ps as int,
            chi == channels as int,
            chu == channels as usize,
            skip_us == skip as usize,
            leni <= MAX_INPUT_SAMPLES,
            leni + 0x20000 <= usize::MAX,
            tot == leni + skipi,
            s0 == spec_fr_size(25, chi, spsi),
            s1 == spec_fr_size(50, chi, spsi),
            s2 == spec_fr_size(100, chi, spsi),
            s3 == spec_fr_size(200, chi, spsi),
            0 < s0 <= s1 <= s2 <= s3 <= 1920,
            0 <= last <= tot,
            plan_view(r@) + tail_frames(last as int, leni, skipi, spsi, chi) == encode_plan(
                leni,
                skipi,
                spsi,
                chi,
            ),
        decreases tot - last,
    {
        let rem: usize = tot - last;
        let ghost tail_here = tail_frames(last as int, leni, skipi, spsi, chi);
        if s3 <= rem || s2 <= rem || s1 <= rem || s0 <= rem {
            let fs: usize = if s3 <= rem {
                s3
            } else if s2 <= rem {
                s2
            } else if s1 <= rem {
                s1
            } else {
                s0
            };
            proof {
                assert(pick_short(rem as int, chi, spsi) == Some(fs as int));
            }
            proof {
                assert((last + fs) as int / chu as int <= (last + fs) as int)
                    by (nonlinear_arith)
                    requires
                        1 <= chu as int,
                        0 <= (last + fs) as int,
                ;
            }
            let absgp: u64 = granule((last + fs) / chu, s_ps);
            let f = PlannedFrame { a: last, b: last + fs, absgp, last: last + fs == tot };
            proof {
                assert(tail_here =~= seq![f@] + tail_frames(
                    last as int + fs as int,
                    leni,
                    skipi,
                    spsi,
                    chi,
                ));
            }
            let ghost prev = r@;
            r.push(f);
            last = last + fs;
            proof {
                assert(plan_view(r@) =~= plan_view(prev) + seq![f@]);
                assert((plan_view(prev) + seq![f@]) + tail_frames(
                    last as int,
                    leni,
                    skipi,
                    spsi,
                    chi,
                ) =~= plan_view(prev) + tail_here);
            }
        } else {
            proof {
                assert(pick_short(rem as int, chi, spsi) is None);
            }
            proof {
                assert((skip_us + len) as int / chu as int <= (skip_us + len) as int)
                    by (nonlinear_arith)
                    requires
                        1 <= chu as int,
                        0 <= (skip_us + len) as int,
                ;
            }
            let absgp: u64 = granule((skip_us + len) / chu, s_ps);
            let f = PlannedFrame { a: last, b: last + s0, absgp, last: true };
            proof {
                assert(tail_here =~= seq![f@]);
            }
            let ghost prev = r@;
            r.push(f);
            last = tot;
            proof {
                assert(plan_view(r@) =~= plan_view(prev) + seq![f@]);
                assert(tail_frames(last as int, leni, skipi, spsi, chi) =~= Seq::<
                    FrameSpec,
                >::empty());
                assert((plan_view(prev) + seq![f@]) + Seq::<FrameSpec>::empty() =~= plan_view(
                    prev,
                ) + tail_here);
            }
        }
    }
    proof {
        assert(tail_frames(last as int, leni, skipi, spsi, chi) =~= Seq::<FrameSpec>::empty());
        assert(plan_view(r@) =~= encode_plan(leni, skipi, spsi, chi));
    }
    r
}

proof fn lemma_tail_frames_props(last: int, len: int, skip: int, s_ps: int, ch: int)
    requires
        supported_rate(s_ps),
        1 <= ch <= 2,
        0 <= last,
    ensures
        ({
            let tot = len + skip;
            let t = tail_frames(last, len, skip, s_ps, ch);
            &&& (last < tot ==> t.len() > 0)
            &&& (last >= tot ==> t.len() == 0)
            &&& (forall|i: int| 0 <= i < t.len() ==> (#[trigger] t[i]).a < t[i].b)
            &&& (t.len() > 0 ==> t.last().last)
            &&& (forall|i: int| 0 <= i < t.len() - 1 ==> !(#[trigger] t[i]).last)
            &&& (t.len() > 0 && ch == 1 ==> t.last().absgp == scaled(
                skip + len,
                s_ps,
                OGG_OPUS_SPS as int,
            ))
        }),
    decreases len + skip - last,
{
    lemma_short_sizes(s_ps, ch);
    let tot = len + skip;
    let t = tail_frames(last, len, skip, s_ps, ch);
    if last < tot {
        match pick_short(tot - last, ch, s_ps) {
            Some(fs) => {
                lemma_tail_frames_props(last + fs, len, skip, s_ps, ch);
                let rest = tail_frames(last + fs, len, skip, s_ps, ch);
                if last + fs == tot {
                    assert(t.len() == 1);
                    if ch == 1 {
                        assert(tot / 1 == tot);
                        assert(t.last().absgp == scaled(skip + len, s_ps, OGG_OPUS_SPS as int));
                    }
                } else {
                    assert(t.last() == rest.last());
                }
            },
            None => {
                assert(t.len() == 1);
                if ch == 1 {
                    assert((skip + len) / 1 == skip + len);
                }
            },
        }
    }
}

/// The encoder never plans a packet with a sample count of 0: every
/// window of `encode_plan` covers at least one interleaved sample.
pub proof fn lemma_plan_no_empty_packet(len: int, skip: int, s_ps: int, ch: int)
    requires
        supported_rate(s_ps),
        1 <= ch <= 2,
        0 <= len,
        0 <= skip,
    ensures
        forall|i: int|
            0 <= i < encode_plan(len, skip, s_ps, ch).len() ==> (#[trigger] encode_plan(
                len,
                skip,
                s_ps,
                ch,
            )[i]).a < encode_plan(len, skip, s_ps, ch)[i].b,
{
    lemma_short_sizes(s_ps, ch);
    let tot = len + skip;
    let fsz = frame_size_of(s_ps, ch);
    let m = main_frames(len, skip, s_ps, ch);
    lemma_tail_frames_props(tot / fsz * fsz, len, skip, s_ps, ch);
    assert forall|i: int| 0 <= i < m.len() implies (#[trigger] m[i]).a < m[i].b by {
        assert((i + 1) * fsz == i * fsz + fsz) by (nonlinear_arith);
    }
}

/// The terminal packet of the plan carries the stream's true per-channel
/// length, `skip + len` rescaled to 48 kHz, never the padded length; every
/// earlier packet is non-terminal. This holds for mono streams, except
/// when a nonzero lookahead makes `len + skip` an exact multiple of the
/// 20 ms frame, in which case the fixed-size main loop ends the stream
/// with its own running position.
pub proof fn lemma_plan_terminal_granule(len: int, skip: int, s_ps: int)
    requires
        supported_rate(s_ps),
        0 <= len,
        0 <= skip,
        skip == 0 || (len + skip) % frame_size_of(s_ps, 1) != 0,
    ensures
        len + skip > 0 ==> ({
            let p = encode_plan(len, skip, s_ps, 1);
            &&& p.len() > 0
            &&& p.last().last
            &&& p.last().absgp == scaled(skip + len, s_ps, OGG_OPUS_SPS as int)
            &&& forall|i: int| 0 <= i < p.len() - 1 ==> !(#[trigger] p[i]).last
        }),
{
    lemma_short_sizes(s_ps, 1);
    let tot = len + skip;
    let fsz = frame_size_of(s_ps, 1);
    let fsamp = frame_samples_of(s_ps);
    let max = tot / fsz;
    let m = main_frames(len, skip, s_ps, 1);
    let t = tail_frames(max * fsz, len, skip, s_ps, 1);
    let p = encode_plan(len, skip, s_ps, 1);
    vstd::arithmetic::div_mod::lemma_fundamental_div_mod(tot, fsz);
    vstd::arithmetic::div_mod::lemma_mod_bound(tot, fsz);
    assert(max * fsz == fsz * max) by (nonlinear_arith);
    lemma_tail_frames_props(max * fsz, len, skip, s_ps, 1);
    if tot > 0 {
        assert forall|i: int| 0 <= i < m.len() && (i + 1) < max implies !(#[trigger] m[i]).last by {
            vstd::arithmetic::mul::lemma_mul_strict_inequality(i + 1, max, fsz);
            assert((i + 1) * fsz == fsz * (i + 1) && max * fsz == fsz * max) by (nonlinear_arith);
        }
        if tot % fsz == 0 {
            // The plan ends on a main-loop boundary; the requires pins skip to 0.
            assert(max * fsz == tot);
            assert(t.len() == 0);
            assert(max > 0) by (nonlinear_arith)
                requires
                    max * fsz == tot,
                    tot > 0,
                    fsz > 0,
            ;
            assert(m.len() == max);
            assert(p.last() == m[max - 1]);
            assert(m[max - 1].last);
            assert(fsamp == fsz);
            assert(m[max - 1].absgp == scaled(skip + max * fsamp, s_ps, OGG_OPUS_SPS as int));
            assert(skip + max * fsamp == skip + len);
        } else {
            assert(max * fsz < tot);
            assert(t.len() > 0);
            assert(p.last() == t.last());
            assert forall|i: int| 0 <= i < m.len() implies !(#[trigger] m[i]).last by {
                vstd::arithmetic::mul::lemma_mul_inequality(i + 1, max, fsz);
                assert((i + 1) * fsz == fsz * (i + 1) && max * fsz == fsz * max)
                    by (nonlinear_arith);
            }
        }
    }
}

/// Rescaling to the canonical 48 kHz domain is strictly monotone: every
/// supported rate divides 48000.
proof fn lemma_scaled_strict(a: int, b: int, s_ps: int)
    requires
        supported_rate(s_ps),
        0 <= a < b,
    ensures
        scaled(a, s_ps, OGG_OPUS_SPS as int) < scaled(b, s_ps, OGG_OPUS_SPS as int),
{
    if s_ps == 8000 {
        assert(a * 48000 / 8000 == a * 6 && b * 48000 / 8000 == b * 6 && a * 6 < b * 6)
            by (nonlinear_arith)
            requires
                0 <= a < b,
        ;
    } else if s_ps == 12000 {
        assert(a * 48000 / 12000 == a * 4 && b * 48000 / 12000 == b * 4 && a * 4 < b * 4)
            by (nonlinear_arith)
            requires
                0 <= a < b,
        ;
    } else if s_ps == 16000 {
        assert(a * 48000 / 16000 == a * 3 && b * 48000 / 16000 == b * 3 && a * 3 < b * 3)
            by (nonlinear_arith)
            requires
                0 <= a < b,
        ;
    } else if s_ps == 24000 {
        assert(a * 48000 / 24000 == a * 2 && b * 48000 / 24000 == b * 2 && a * 2 < b * 2)
            by (nonlinear_arith)
            requires
                0 <= a < b,
        ;
    } else {
        assert(a * 48000 / 48000 == a && b * 48000 / 48000 == b) by (nonlinear_arith);
    }
}

proof fn lemma_tail_granules_increase(last: int, len: int, s_ps: int)
    requires
        supported_rate(s_ps),
        0 <= last,
    ensures
        ({
            let t = tail_frames(last, len, 0, s_ps, 1);
            &&& (forall|i: int|
                0 <= i < t.len() - 1 ==> (#[trigger] t[i]).absgp < t[i + 1].absgp)
            &&& (t.len() > 0 ==> t[0].absgp > scaled(last, s_ps, OGG_OPUS_SPS as int))
        }),
    decreases len - last,
{
    lemma_short_sizes(s_ps, 1);
    let t = tail_frames(last, len, 0, s_ps, 1);
    if last < len {
        match pick_short(len - last, 1, s_ps) {
            Some(fs) => {
                lemma_tail_granules_increase(last + fs, len, s_ps);
                let rest = tail_frames(last + fs, len, 0, s_ps, 1);
                assert((last + fs) / 1 == last + fs) by (nonlinear_arith);
                lemma_scaled_strict(last, last + fs, s_ps);
                assert(t[0].absgp > scaled(last, s_ps, OGG_OPUS_SPS as int));
                assert forall|i: int| 0 <= i < t.len() - 1 implies (#[trigger] t[i]).absgp < t[i
                    + 1].absgp by {
                    if i == 0 {
                        if rest.len() > 0 {
                            assert(t[1] == rest[0]);
                        }
                    } else {
                        assert(t[i] == rest[i - 1] && t[i + 1] == rest[i]);
                    }
                }
            },
            None => {
                assert((0 + len) / 1 == len) by (nonlinear_arith);
                lemma_scaled_strict(last, len, s_ps);
            },
        }
    }
}

/// Granule positions strictly increase from each packet of the plan to
/// the next, for a mono stream with no lookahead. (With a nonzero
/// lookahead the fixed-size main loop adds the lookahead to its granule
/// positions while the tail loop does not, so the first tail packet can
/// fall below the last main packet — 48000 mono samples with a lookahead
/// of 312 give 48312 followed by 48240.)
pub proof fn lemma_plan_granules_increase(len: int, s_ps: int)
    requires
        supported_rate(s_ps),
        0 <= len,
    ensures
        forall|i: int|
            0 <= i < encode_plan(len, 0, s_ps, 1).len() - 1 ==> (#[trigger] encode_plan(
                len,
                0,
                s_ps,
                1,
            )[i]).absgp < encode_plan(len, 0, s_ps, 1)[i + 1].absgp,
{
    lemma_short_sizes(s_ps, 1);
    let fsz = frame_size_of(s_ps, 1);
    let fsamp = frame_samples_of(s_ps);
    let max = len / fsz;
    let m = main_frames(len, 0, s_ps, 1);
    let t = tail_frames(max * fsz, len, 0, s_ps, 1);
    let p = encode_plan(len, 0, s_ps, 1);
    vstd::arithmetic::div_mod::lemma_fundamental_div_mod(len, fsz);
    vstd::arithmetic::div_mod::lemma_mod_bound(len, fsz);
    assert(0 <= max * fsz <= len && max * fsz == fsz * max) by (nonlinear_arith)
        requires
            len == fsz * max + len % fsz,
            0 <= len % fsz,
            fsz > 0,
            max >= 0,
    ;
    lemma_tail_granules_increase(max * fsz, len, s_ps);
    assert forall|i: int| 0 <= i < p.len() - 1 implies (#[trigger] p[i]).absgp < p[i + 1].absgp by {
        if i + 1 < m.len() {
            assert((i + 1) * fsamp < (i + 2) * fsamp) by (nonlinear_arith)
                requires
                    fsamp > 0,
                    0 <= i,
            ;
            lemma_scaled_strict((i + 1) * fsamp, (i + 2) * fsamp, s_ps);
        } else if i + 1 == m.len() {
            // Last main packet against the first tail packet.
            assert(p[i] == m[i] && p[i + 1] == t[0]);
            assert(max * fsamp == max * fsz);
            assert(m[i].absgp == scaled(max * fsamp, s_ps, OGG_OPUS_SPS as int));
        } else {
            assert(p[i] == t[i - m.len()] && p[i + 1] == t[i + 1 - m.len()]);
        }
    }
}

/// Value at position `p` of the lookahead-shifted timeline: silence before
/// `skip` and past the input's end, the input sample at `p - skip` between.
pub open spec fn shifted_sample(audio: Seq<i16>, skip: int, p: int) -> i16 {
    if p < skip {
        0i16
    } else if p - skip < audio.len() {
        audio[p - skip]
    } else {
        0i16
    }
}

/// Materializes the window [a, b) of the lookahead-shifted timeline as the
/// PCM buffer to hand to the Opus frame primitive.
pub fn build_frame(audio: &Vec<i16>, skip: usize, a: usize, b: usize) -> (r: Vec<i16>)
    requires
        a <= b,
    ensures
        r@.len() == b - a,
        forall|i: int|
            0 <= i < r@.len() ==> r@[i] == shifted_sample(audio@, skip as int, a + i),
{
    let mut r: Vec<i16> = Vec::new();
    let mut p: usize = a;
    while p < b
        invariant
            a <= p <= b,
            r@.len() == p - a,
            forall|i: int|
                0 <= i < r@.len() ==> r@[i] == shifted_sample(audio@, skip as int, a + i),
        decreases b - p,
    {
        let v: i16 = if p < skip {
            0
        } else if p - skip < audio.len() {
            audio[p - skip]
        } else {
            0
        };
        r.push(v);
        p = p + 1;
    }
    r
}

/// The 19 identification-header bytes: "OpusHead", version 1, the channel
/// count, little-endian pre-skip (48 kHz domain), little-endian
/// informational input rate, zero output gain, mapping family 0.
pub open spec fn opus_head_spec(channels: u8, pre_skip: u16, s_ps: u32) -> Seq<u8> {
    seq![
        0x4fu8,
        0x70u8,
        0x75u8,
        0x73u8,
        0x48u8,
        0x65u8,
        0x61u8,
        0x64u8,
        1u8,
        channels,
        (pre_skip as int % 256) as u8,
        (pre_skip as int / 256) as u8,
        (s_ps as int % 256) as u8,
        (s_ps as int / 256 % 256) as u8,
        (s_ps as int / 0x10000 % 256) as u8,
        (s_ps as int / 0x1000000) as u8,
        0u8,
        0u8,
        0u8,
    ]
}

pub fn opus_head_bytes(channels: u8, pre_skip: u16, s_ps: u32) -> (r: Vec<u8>)
    ensures
        r@ == opus_head_spec(channels, pre_skip, s_ps),
{
    let mut r: Vec<u8> = Vec::new();
    r.push(0x4f);
    r.push(0x70);
    r.push(0x75);
    r.push(0x73);
    r.push(0x48);
    r.push(0x65);
    r.push(0x61);
    r.push(0x64);
    r.push(1);
    r.push(channels);
    r.push((pre_skip % 256) as u8);
    r.push((pre_skip / 256) as u8);
    r.push((s_ps % 256) as u8);
    r.push(((s_ps / 256) % 256) as u8);
    r.push(((s_ps / 0x10000) % 256) as u8);
    r.push((s_ps / 0x1000000) as u8);
    r.push(0);
    r.push(0);
    r.push(0);
    proof {
        assert(r@ =~= opus_head_spec(channels, pre_skip, s_ps));
    }
    r
}

/// The comment-header bytes: "OpusTags", the length-prefixed vendor
/// string, and a zero user-comment count.
pub open spec fn opus_tags_spec() -> Seq<u8> {
    seq![
        0x4fu8,
        0x70u8,
        0x75u8,
        0x73u8,
        0x54u8,
        0x61u8,
        0x67u8,
        0x73u8,
        8u8,
        0u8,
        0u8,
        0u8,
        0x6fu8,
        0x67u8,
        0x67u8,
        0x5fu8,
        0x6fu8,
        0x70u8,
        0x75u8,
        0x73u8,
        0u8,
        0u8,
        0u8,
        0u8,
    ]
}

pub fn opus_tags_bytes() -> (r: Vec<u8>)
    ensures
        r@ == opus_tags_spec(),
{
    let mut r: Vec<u8> = Vec::new();
    r.push(0x4f);
    r.push(0x70);
    r.push(0x75);
    r.push(0x73);
    r.push(0x54);
    r.push(0x61);
    r.push(0x67);
    r.push(0x73);
    r.push(8);
    r.push(0);
    r.push(0);
    r.push(0);
    r.push(0x6f);
    r.push(0x67);
    r.push(0x67);
    r.push(0x5f);
    r.push(0x6f);
    r.push(0x70);
    r.push(0x75);
    r.push(0x73);
    r.push(0);
    r.push(0);
    r.push(0);
    r.push(0);
    proof {
        assert(r@ =~= opus_tags_spec());
    }
    r
}

/// Relies on rand::random for a fresh stream serial; nothing is promised
/// of the value.
#[verifier::external_body]
fn random_serial() -> u32 {
    rand::random::<u32>()
}

/// The pre-skip value the identification header carries: the lookahead
/// rescaled to the 48 kHz domain, as the 16-bit field holds it.
pub open spec fn header_pre_skip(skip: u16, s_ps: int) -> u16 {
    (scaled(skip as int, s_ps, OGG_OPUS_SPS as int) % 0x10000) as u16
}

/// Ghost model of an encode stream: the full packet plan, how many of
/// its packets were written, the stream serial, and the log of every
/// packet handed to the page writer.
pub struct EncodeModel {
    pub plan: Seq<FrameSpec>,
    pub next: int,
    pub serial: u32,
    pub log: Seq<WrittenPacket>,
}

/// One encode invocation's container state: the Ogg writer with both
/// headers already written, the stream serial, and the packet plan. The
/// caller compresses each planned window through the Opus frame primitive
/// and hands the bytes back in order.
pub struct EncodeStream {
    writer: OggWriter,
    serial: u32,
    plan: Vec<PlannedFrame>,
    next: usize,
}

impl View for EncodeStream {
    type V = EncodeModel;

    closed spec fn view(&self) -> EncodeModel {
        EncodeModel {
            plan: plan_view(self.plan@),
            next: self.next as int,
            serial: self.serial,
            log: writer_log(self.writer),
        }
    }
}

/// The channel count actually encoded and written to the header: a
/// configured count of 0 is treated as mono.
pub open spec fn effective_channels(n_channels: u8) -> int {
    if n_channels == 2 {
        2
    } else {
        1
    }
}

/// The two header packets every stream opens with: the identification
/// header and the comment header, each ending its own page, both with
/// granule position 0, both under the stream's serial.
pub open spec fn header_log(n_channels: u8, skip: u16, s_ps: u32, serial: u32) -> Seq<
    WrittenPacket,
> {
    seq![
        (WrittenPacket {
            data: opus_head_spec(
                effective_channels(n_channels) as u8,
                header_pre_skip(skip, s_ps as int),
                s_ps,
            ),
            serial,
            end: PacketEnd::EndPage,
            absgp: 0,
        }),
        (WrittenPacket { data: opus_tags_spec(), serial, end: PacketEnd::EndPage, absgp: 0 }),
    ]
}

impl EncodeStream {
    /// Position within the plan, and well-formed windows.
    pub open spec fn wf(self) -> bool {
        &&& 0 <= self@.next <= self@.plan.len()
        &&& forall|i: int|
            0 <= i < self@.plan.len() ==> (#[trigger] self@.plan[i]).a <= self@.plan[i].b
    }

    /// The packet handed to the writer for plan entry `i`: the compressed
    /// payload under the stream's serial, with the planned granule
    /// position, ending the stream exactly when the plan says so.
    pub open spec fn planned_write(self, i: int, payload: Seq<u8>) -> WrittenPacket {
        WrittenPacket {
            data: payload,
            serial: self@.serial,
            end: if self@.plan[i].last {
                PacketEnd::EndStream
            } else {
                PacketEnd::NormalPacket
            },
            absgp: self@.plan[i].absgp as u64,
        }
    }

    /// Opens an Ogg Opus stream: validates the rate before anything else,
    /// plans every audio packet, and writes the identification and
    /// comment headers, each forced onto its own page with granule
    /// position 0. `skip` is the Opus encoder's lookahead in the stream's
    /// own rate domain; the header carries it rescaled to 48 kHz. Fails
    /// exactly on an unsupported rate: the in-memory page writer cannot.
    pub fn new(audio_len: usize, s_ps: u32, n_channels: u8, skip: u16, serial: u32) -> (r:
        Result<EncodeStream, Error>)
        requires
            n_channels <= MAX_NUM_CHANNELS,
            audio_len <= MAX_INPUT_SAMPLES,
            audio_len + 0x20000 <= usize::MAX,
        ensures
            r is Ok <==> supported_rate(s_ps as int),
            r matches Err(e) ==> e == Error::InvalidSampleRate,
            r matches Ok(s) ==> s.wf() && s@.next == 0 && s@.serial == serial && s@.plan
                == encode_plan(
                audio_len as int,
                skip as int,
                s_ps as int,
                effective_channels(n_channels),
            ) && s@.log == header_log(n_channels, skip, s_ps, serial),
    {
        if validate_rate(s_ps).is_none() {
            return Err(Error::InvalidSampleRate);
        }
        let chans = opus_channels(n_channels);
        let eff = chans.count();
        let skip48 = calc_sr(skip, s_ps, OGG_OPUS_SPS);
        let plan = plan_packets(audio_len, skip, s_ps, eff);
        proof {
            lemma_plan_no_empty_packet(
                audio_len as int,
                skip as int,
                s_ps as int,
                eff as int,
            );
        }
        let mut writer = writer_new();
        let head = opus_head_bytes(eff, skip48, s_ps);
        let _ = writer_write(&mut writer, head, serial, PacketEnd::EndPage, 0);
        let tags = opus_tags_bytes();
        let _ = writer_write(&mut writer, tags, serial, PacketEnd::EndPage, 0);
        let r = EncodeStream { writer, serial, plan, next: 0 };
        proof {
            assert(r@.log =~= header_log(n_channels, skip, s_ps, serial));
        }
        Ok(r)
    }

    /// As `new`, with a freshly drawn random stream serial.
    pub fn with_random_serial(audio_len: usize, s_ps: u32, n_channels: u8, skip: u16) -> (r:
        Result<EncodeStream, Error>)
        requires
            n_channels <= MAX_NUM_CHANNELS,
            audio_len <= MAX_INPUT_SAMPLES,
            audio_len + 0x20000 <= usize::MAX,
        ensures
            r is Ok <==> supported_rate(s_ps as int),
            r matches Err(e) ==> e == Error::InvalidSampleRate,
            r matches Ok(s) ==> s.wf() && s@.next == 0 && s@.plan == encode_plan(
                audio_len as int,
                skip as int,
                s_ps as int,
                effective_channels(n_channels),
            ) && s@.log == header_log(n_channels, skip, s_ps, s@.serial),
    {
        let serial = random_serial();
        EncodeStream::new(audio_len, s_ps, n_channels, skip, serial)
    }

    /// The window of the next packet still to encode, if one is left.
    pub fn next_window(&self) -> (r: Option<(usize, usize)>)
        requires
            self.wf(),
        ensures
            r is Some <==> self@.next < self@.plan.len(),
            r matches Some(w) ==> w.0 == self@.plan[self@.next].a && w.1
                == self@.plan[self@.next].b && w.0 <= w.1,
    {
        if self.next < self.plan.len() {
            let f = self.plan[self.next];
            Some((f.a, f.b))
        } else {
            None
        }
    }

    /// Writes compressed bytes as the next planned packet — under the
    /// stream's serial, with the planned granule position, ending the
    /// stream exactly when the plan says so — and advances past it. The
    /// in-memory page writer cannot fail.
    pub fn push_packet(&mut self, packet: Vec<u8>) -> (r: Result<(), Error>)
        requires
            old(self).wf(),
            old(self)@.next < old(self)@.plan.len(),
        ensures
            r is Ok,
            final(self).wf(),
            final(self)@.plan == old(self)@.plan,
            final(self)@.serial == old(self)@.serial,
            final(self)@.next == old(self)@.next + 1,
            final(self)@.log == old(self)@.log.push(
                old(self).planned_write(old(self)@.next, packet@),
            ),
    {
        proof {
            assert(self@.plan.len() == self.plan@.len());
        }
        let cur: usize = self.next;
        assert(cur < self.plan.len());
        let f = self.plan[cur];
        let inf = if f.last {
            PacketEnd::EndStream
        } else {
            PacketEnd::NormalPacket
        };
        let _ = writer_write(&mut self.writer, packet, self.serial, inf, f.absgp);
        self.next = cur + 1;
        Ok(())
    }

    /// Closes the stream: the container bytes are the pages that
    /// encapsulate exactly the packets logged so far.
    pub fn finish(self) -> (r: Vec<u8>)
        ensures
            r@ == ogg_encapsulation(self@.log),
    {
        writer_into_bytes(self.writer)
    }
}

} // verus!
