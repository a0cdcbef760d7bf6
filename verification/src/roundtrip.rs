//! The container-level round trip, stated and proved at the model level:
//! a decoder that is handed every planned window whole, in order, with
//! the planned granule positions and end flags, collects exactly the PCM
//! the encoder was given — the lookahead silence is skipped and the
//! terminal zero padding trimmed away, no more and no less. In a real
//! stream the lossy Opus primitive sits between the two pipelines; this
//! law states that the framing itself loses and invents nothing.
use vstd::prelude::*;

use crate::common::{scaled, supported_rate, MAX_INPUT_SAMPLES, OGG_OPUS_SPS};
use crate::decode::{declared_end, frame_accepted, frame_rejected, DecodeModel};
use crate::encode::{
    encode_plan, frame_samples_of, frame_size_of, lemma_short_sizes, main_frames, pick_short,
    shifted_sample, spec_fr_size, tail_frames, FrameSpec,
};

verus! {

/// The PCM window a planned frame carries.
pub open spec fn frame_of(audio: Seq<i16>, skip: int, f: FrameSpec) -> Seq<i16> {
    Seq::new((f.b - f.a) as nat, |j: int| shifted_sample(audio, skip, f.a + j))
}

/// The decoder model after accepting every frame of `plan`, each handed
/// over whole.
pub open spec fn run_frames(
    m: DecodeModel,
    audio: Seq<i16>,
    skip: int,
    plan: Seq<FrameSpec>,
) -> DecodeModel
    decreases plan.len(),
{
    if plan.len() == 0 {
        m
    } else {
        let f = plan[0];
        let m2 = frame_accepted(
            m,
            frame_of(audio, skip, f),
            (f.b - f.a) / m.channels,
            f.absgp,
            f.last,
        );
        run_frames(m2, audio, skip, plan.drop_first())
    }
}

/// No step of the run is rejected.
pub open spec fn run_ok(m: DecodeModel, audio: Seq<i16>, skip: int, plan: Seq<FrameSpec>) -> bool
    decreases plan.len(),
{
    if plan.len() == 0 {
        true
    } else {
        let f = plan[0];
        let m2 = frame_accepted(
            m,
            frame_of(audio, skip, f),
            (f.b - f.a) / m.channels,
            f.absgp,
            f.last,
        );
        &&& !frame_rejected(m, (f.b - f.a) / m.channels, f.absgp, f.last)
        &&& run_ok(m2, audio, skip, plan.drop_first())
    }
}

/// Nonnegative part.
pub open spec fn clamp0(x: int) -> int {
    if x < 0 {
        0
    } else {
        x
    }
}

/// Every supported rate divides 48000, so a position scaled up to the
/// canonical domain and back is recovered exactly.
proof fn lemma_scaled_exact(pos: int, s_ps: int)
    requires
        supported_rate(s_ps),
        0 <= pos,
    ensures
        scaled(scaled(pos, s_ps, OGG_OPUS_SPS as int), OGG_OPUS_SPS as int, s_ps) == pos,
{
    if s_ps == 8000 {
        assert(pos * 48000 / 8000 == pos * 6 && pos * 6 * 8000 / 48000 == pos)
            by (nonlinear_arith);
    } else if s_ps == 12000 {
        assert(pos * 48000 / 12000 == pos * 4 && pos * 4 * 12000 / 48000 == pos)
            by (nonlinear_arith);
    } else if s_ps == 16000 {
        assert(pos * 48000 / 16000 == pos * 3 && pos * 3 * 16000 / 48000 == pos)
            by (nonlinear_arith);
    } else if s_ps == 24000 {
        assert(pos * 48000 / 24000 == pos * 2 && pos * 2 * 24000 / 48000 == pos)
            by (nonlinear_arith);
    } else {
        assert(pos * 48000 / 48000 == pos && pos * 48000 / 48000 == pos) by (nonlinear_arith);
    }
}

/// Running a concatenation runs the parts in order.
proof fn lemma_run_concat(
    m: DecodeModel,
    audio: Seq<i16>,
    skip: int,
    a: Seq<FrameSpec>,
    b: Seq<FrameSpec>,
)
    ensures
        run_frames(m, audio, skip, a + b) == run_frames(
            run_frames(m, audio, skip, a),
            audio,
            skip,
            b,
        ),
        run_ok(m, audio, skip, a + b) == (run_ok(m, audio, skip, a) && run_ok(
            run_frames(m, audio, skip, a),
            audio,
            skip,
            b,
        )),
    decreases a.len(),
{
    if a.len() == 0 {
        assert(a + b =~= b);
    } else {
        let f = a[0];
        assert((a + b)[0] == f);
        assert((a + b).drop_first() =~= a.drop_first() + b);
        let m2 = frame_accepted(
            m,
            frame_of(audio, skip, f),
            (f.b - f.a) / m.channels,
            f.absgp,
            f.last,
        );
        lemma_run_concat(m2, audio, skip, a.drop_first(), b);
    }
}

/// The decoder state a mono run reaches once `pos` interleaved timeline
/// positions are accounted: everything before `skip` consumed as
/// pre-skip, everything after appended.
pub open spec fn mid_state(m0: DecodeModel, audio: Seq<i16>, skip: int, pos: int) -> DecodeModel {
    DecodeModel {
        pcm: audio.take(clamp0(pos - skip)),
        rem_skip: clamp0(skip - pos),
        decoded: pos,
        ..m0
    }
}

/// One frame of the plan advances a mono mid-state from `f.a` to `f.b`,
/// as long as no trimming fires and the window stays inside the timeline.
proof fn lemma_step(m0: DecodeModel, audio: Seq<i16>, s_ps: int, skip: int, f: FrameSpec)
    requires
        supported_rate(s_ps),
        m0.channels == 1,
        m0.target == s_ps,
        audio.len() <= MAX_INPUT_SAMPLES,
        0 <= skip <= 0xffff,
        0 <= f.a < f.b,
        f.b <= audio.len() + skip,
        declared_end(f.absgp, s_ps) >= f.b,
    ensures
        !frame_rejected(mid_state(m0, audio, skip, f.a), (f.b - f.a) / 1, f.absgp, f.last),
        frame_accepted(
            mid_state(m0, audio, skip, f.a),
            frame_of(audio, skip, f),
            (f.b - f.a) / 1,
            f.absgp,
            f.last,
        ) == mid_state(m0, audio, skip, f.b),
{
    let m = mid_state(m0, audio, skip, f.a);
    let out = (f.b - f.a) / 1;
    assert((f.b - f.a) / 1 == f.b - f.a) by (nonlinear_arith);
    let frame = frame_of(audio, skip, f);
    assert(out * m.channels == out) by (nonlinear_arith)
        requires
            m.channels == 1,
    ;
    let m2 = frame_accepted(m, frame, out, f.absgp, f.last);
    let target = mid_state(m0, audio, skip, f.b);
    if m.rem_skip >= out {
        // The window lies wholly inside the pre-skip.
        assert(skip - f.a >= out);
        assert(m2.rem_skip == skip - f.b);
        assert(m2.pcm =~= target.pcm);
        assert(m2 == target);
    } else {
        // The declared end is at or past the window's end, so nothing is
        // trimmed, and the part after the remaining pre-skip is appended.
        assert(m2.pcm == m.pcm + frame.subrange(m.rem_skip, out));
        assert(m2.pcm =~= target.pcm);
        assert(m2 == target);
    }
}

proof fn lemma_main_run(m0: DecodeModel, audio: Seq<i16>, s_ps: int, skip: int, i: int)
    requires
        supported_rate(s_ps),
        audio.len() <= MAX_INPUT_SAMPLES,
        m0.channels == 1,
        m0.target == s_ps,
        0 <= skip <= 0xffff,
        0 <= i <= (audio.len() + skip) as int / frame_size_of(s_ps, 1),
    ensures
        ({
            let tot = audio.len() + skip;
            let fsz = frame_size_of(s_ps, 1);
            let max = tot as int / fsz;
            let rest = main_frames(audio.len() as int, skip, s_ps, 1).skip(i);
            let m = mid_state(m0, audio, skip, i * fsz);
            &&& run_ok(m, audio, skip, rest)
            &&& run_frames(m, audio, skip, rest) == mid_state(m0, audio, skip, max * fsz)
        }),
    decreases (audio.len() + skip) as int / frame_size_of(s_ps, 1) - i,
{
    lemma_short_sizes(s_ps, 1);
    let len = audio.len() as int;
    let tot = len + skip;
    let fsz = frame_size_of(s_ps, 1);
    let max = tot / fsz;
    let main = main_frames(len, skip, s_ps, 1);
    let rest = main.skip(i);
    let m = mid_state(m0, audio, skip, i * fsz);
    vstd::arithmetic::div_mod::lemma_fundamental_div_mod(tot, fsz);
    vstd::arithmetic::div_mod::lemma_mod_bound(tot, fsz);
    assert(max * fsz <= tot && 0 <= max * fsz) by (nonlinear_arith)
        requires
            tot == fsz * max + tot % fsz,
            0 <= tot % fsz,
            fsz > 0,
            max >= 0,
    ;
    if i == max {
    } else {
        let f = main[i];
        assert(rest[0] == f);
        assert(rest.drop_first() =~= main.skip(i + 1));
        assert((i + 1) * fsz == i * fsz + fsz && 0 <= i * fsz && (i + 1) * fsz <= max * fsz)
            by (nonlinear_arith)
            requires
                0 <= i,
                i < max,
                fsz > 0,
        ;
        assert(f.a == i * fsz && f.b == (i + 1) * fsz);
        // The planned granule is the lookahead plus the window's end; it
        // survives the 48 kHz trip exactly and never asks for a trim.
        assert(frame_samples_of(s_ps) == fsz);
        assert(f.absgp == scaled(skip + (i + 1) * frame_samples_of(s_ps), s_ps, OGG_OPUS_SPS as int));
        lemma_scaled_exact(skip + f.b, s_ps);
        assert(declared_end(f.absgp, s_ps) == skip + f.b);
        lemma_step(m0, audio, s_ps, skip, f);
        let m2 = frame_accepted(m, frame_of(audio, skip, f), (f.b - f.a) / m.channels, f.absgp, f.last);
        assert(m2 == mid_state(m0, audio, skip, (i + 1) * fsz));
        lemma_main_run(m0, audio, s_ps, skip, i + 1);
    }
}

proof fn lemma_tail_run(m0: DecodeModel, audio: Seq<i16>, s_ps: int, skip: int, last: int)
    requires
        supported_rate(s_ps),
        audio.len() <= MAX_INPUT_SAMPLES,
        m0.channels == 1,
        m0.target == s_ps,
        0 <= skip <= 0xffff,
        0 <= last <= audio.len() + skip,
    ensures
        ({
            let t = tail_frames(last, audio.len() as int, skip, s_ps, 1);
            let m = mid_state(m0, audio, skip, last);
            &&& run_ok(m, audio, skip, t)
            &&& run_frames(m, audio, skip, t).pcm == audio
        }),
    decreases audio.len() + skip - last,
{
    lemma_short_sizes(s_ps, 1);
    let len = audio.len() as int;
    let tot = len + skip;
    let t = tail_frames(last, len, skip, s_ps, 1);
    let m = mid_state(m0, audio, skip, last);
    if last >= tot {
        assert(t.len() == 0);
        assert(m.pcm =~= audio);
    } else {
        match pick_short(tot - last, 1, s_ps) {
            Some(fs) => {
                let f = t[0];
                assert(f.a == last && f.b == last + fs && f.last == (last + fs == tot));
                assert(t.drop_first() =~= tail_frames(last + fs, len, skip, s_ps, 1));
                assert((last + fs) / 1 == last + fs) by (nonlinear_arith);
                lemma_scaled_exact(last + fs, s_ps);
                assert(declared_end(f.absgp, s_ps) == last + fs);
                lemma_step(m0, audio, s_ps, skip, f);
                let m2 = frame_accepted(
                    m,
                    frame_of(audio, skip, f),
                    (f.b - f.a) / m.channels,
                    f.absgp,
                    f.last,
                );
                assert(m2 == mid_state(m0, audio, skip, last + fs));
                lemma_tail_run(m0, audio, s_ps, skip, last + fs);
                assert(t.drop_first() == tail_frames(last + fs, len, skip, s_ps, 1));
                assert(run_frames(m, audio, skip, t) == run_frames(m2, audio, skip, t.drop_first()));
                assert(run_ok(m, audio, skip, t));
            },
            None => {
                // The terminal zero-padded frame: its granule position is
                // the true total, so the decoder trims the padding away
                // exactly.
                let s0 = spec_fr_size(25, 1, s_ps);
                let f = t[0];
                assert(f.a == last && f.b == last + s0 && f.last);
                assert(t.drop_first() =~= Seq::<FrameSpec>::empty());
                let out = (f.b - f.a) / m.channels;
                assert((f.b - f.a) / 1 == f.b - f.a) by (nonlinear_arith);
                assert(out == s0);
                let frame = frame_of(audio, skip, f);
                assert((skip + len) / 1 == skip + len) by (nonlinear_arith);
                lemma_scaled_exact(tot, s_ps);
                assert(declared_end(f.absgp, s_ps) == tot);
                let after = m.decoded + out;
                assert(after == last + s0);
                assert(after > tot);
                assert(out * m.channels == out) by (nonlinear_arith)
                    requires
                        m.channels == 1,
                ;
                // The frame reaches past the remaining pre-skip ...
                assert(m.rem_skip < out);
                // ... and the requested trim fits what it holds past it.
                assert(after - tot <= out * m.channels - m.rem_skip);
                assert(!frame_rejected(m, out, f.absgp, f.last));
                let m2 = frame_accepted(m, frame, out, f.absgp, f.last);
                let end = out * m.channels - (after - tot);
                assert(end == tot - last);
                assert(m2.pcm =~= audio);
                assert(t.drop_first() == Seq::<FrameSpec>::empty());
                assert(run_frames(m, audio, skip, t) == run_frames(m2, audio, skip, t.drop_first()));
                assert(run_frames(m2, audio, skip, Seq::<FrameSpec>::empty()) == m2);
                assert(run_ok(m2, audio, skip, Seq::<FrameSpec>::empty()));
                assert(run_ok(m, audio, skip, t));
            },
        }
    }
}

/// Container round trip for a mono stream: a decoder whose remaining
/// pre-skip starts at the encoder's lookahead, fed every planned window
/// whole, in order, with the planned granule positions and end flags,
/// rejects nothing and collects exactly the encoded input — the lookahead
/// silence is consumed at the start and the terminal frame's zero padding
/// is trimmed by its granule position, no more and no less.
pub proof fn lemma_container_round_trip(audio: Seq<i16>, s_ps: int, skip: int)
    requires
        supported_rate(s_ps),
        audio.len() <= MAX_INPUT_SAMPLES,
        0 <= skip <= 0xffff,
    ensures
        ({
            let m0 = DecodeModel {
                pcm: Seq::empty(),
                rem_skip: skip,
                decoded: 0,
                channels: 1,
                gain: 0,
                target: s_ps,
            };
            let plan = encode_plan(audio.len() as int, skip, s_ps, 1);
            &&& run_ok(m0, audio, skip, plan)
            &&& run_frames(m0, audio, skip, plan).pcm == audio
        }),
{
    lemma_short_sizes(s_ps, 1);
    let len = audio.len() as int;
    let tot = len + skip;
    let fsz = frame_size_of(s_ps, 1);
    let max = tot / fsz;
    let m0 = DecodeModel {
        pcm: Seq::empty(),
        rem_skip: skip,
        decoded: 0,
        channels: 1,
        gain: 0,
        target: s_ps,
    };
    let main = main_frames(len, skip, s_ps, 1);
    let tail = tail_frames(max * fsz, len, skip, s_ps, 1);
    assert(0 * fsz == 0) by (nonlinear_arith);
    assert(m0.pcm =~= audio.take(0));
    assert(m0 == mid_state(m0, audio, skip, 0));
    assert(main.skip(0) =~= main);
    lemma_main_run(m0, audio, s_ps, skip, 0);
    vstd::arithmetic::div_mod::lemma_fundamental_div_mod(tot, fsz);
    vstd::arithmetic::div_mod::lemma_mod_bound(tot, fsz);
    assert(max * fsz <= tot && 0 <= max * fsz) by (nonlinear_arith)
        requires
            tot == fsz * max + tot % fsz,
            0 <= tot % fsz,
            fsz > 0,
            max >= 0,
    ;
    lemma_tail_run(m0, audio, s_ps, skip, max * fsz);
    lemma_run_concat(m0, audio, skip, main, tail);
    assert(encode_plan(len, skip, s_ps, 1) == main + tail);
}

} // verus!
