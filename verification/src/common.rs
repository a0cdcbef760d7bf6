//! Conversion helpers and constants shared by the encode and decode
//! pipelines: fixed-point sample-rate rescaling, supported-rate validation,
//! and the size limits of the format.
use vstd::prelude::*;

verus! {

/// Canonical rate of on-wire granule positions (RFC 7845).
pub const OGG_OPUS_SPS: u32 = 48000;

/// At most stereo is supported.
pub const MAX_NUM_CHANNELS: u8 = 2;

/// Largest per-channel sample count one Opus frame can decode to
/// (120 ms at 48 kHz).
pub const MAX_FRAME_SAMPLES: usize = 5760;

/// Interleaved capacity of the decode scratch buffer.
pub const MAX_FRAME_SIZE: usize = MAX_FRAME_SAMPLES * 2;

/// Standard frame duration used by the encoder's main loop.
pub const FRAME_TIME_MS: u32 = 20;

/// Largest recommended Opus packet, in bytes.
pub const MAX_PACKET: usize = 4000;

/// Shortest standard frame duration, in tenths of a millisecond (2.5 ms).
pub const MIN_FRAME_MICROS: u32 = 25;

/// Cap on the number of input samples an encode call accepts, so that all
/// granule positions fit a 64-bit accumulator.
pub const MAX_INPUT_SAMPLES: usize = 0xFFFF_FFFF;

/// The rates the Opus primitive accepts.
pub open spec fn supported_rate(r: int) -> bool {
    r == 8000 || r == 12000 || r == 16000 || r == 24000 || r == 48000
}

/// The rescaling identity shared by all granule and pre-skip arithmetic:
/// `value * dest / org`, truncating.
pub open spec fn scaled(val: int, org_sr: int, dest_sr: int) -> int
    recommends
        org_sr > 0,
{
    val * dest_sr / org_sr
}

/// 16-bit rate rescale, used for the pre-skip header field. The result is
/// truncated to 16 bits; on every value that fits 16 bits after scaling
/// (all values this library produces) it equals `scaled` exactly.
pub fn calc_sr(val: u16, org_sr: u32, dest_sr: u32) -> (r: u16)
    requires
        org_sr > 0,
        val as int * dest_sr as int <= u32::MAX as int,
    ensures
        r as int == scaled(val as int, org_sr as int, dest_sr as int) % 0x10000,
        scaled(val as int, org_sr as int, dest_sr as int) <= u16::MAX
            ==> r as int == scaled(val as int, org_sr as int, dest_sr as int),
{
    let wide: u32 = (val as u32 * dest_sr) / org_sr;
    let r = (wide % 0x10000) as u16;
    proof {
        assert(wide as int == scaled(val as int, org_sr as int, dest_sr as int));
    }
    r
}

/// 64-bit rate rescale, used for granule positions and sample counts.
pub fn calc_sr_u64(val: u64, org_sr: u32, dest_sr: u32) -> (r: u64)
    requires
        org_sr > 0,
        val as int * dest_sr as int <= u64::MAX as int,
    ensures
        r as int == scaled(val as int, org_sr as int, dest_sr as int),
{
    (val * dest_sr as u64) / (org_sr as u64)
}

/// Scaling down (`dest_sr <= org_sr`) never grows a value.
pub proof fn lemma_scaled_le(val: int, org_sr: int, dest_sr: int)
    requires
        0 <= val,
        0 < dest_sr <= org_sr,
    ensures
        0 <= scaled(val, org_sr, dest_sr) <= val,
{
    assert(0 <= val * dest_sr / org_sr <= val) by (nonlinear_arith)
        requires
            0 <= val,
            0 < dest_sr <= org_sr,
    ;
}

/// Round trip of the rescaling identity: scaling up to a finer rate and
/// back down recovers the value up to one unit of truncation. For any
/// supported pair with `org_sr <= dest_sr`,
/// `scaled(scaled(x, org, dest), dest, org)` is `x` or `x - 1`.
/// (Scaling down first can lose more than one unit: 5 taken from 48000 Hz
/// to 8000 Hz and back comes out as 0.)
pub proof fn lemma_scaled_round_trip(x: int, org_sr: int, dest_sr: int)
    requires
        0 <= x,
        supported_rate(org_sr),
        supported_rate(dest_sr),
        org_sr <= dest_sr,
    ensures
        x - 1 <= scaled(scaled(x, org_sr, dest_sr), dest_sr, org_sr) <= x,
{
    let a = org_sr;
    let b = dest_sr;
    let y = x * b / a;
    let r1 = (x * b) % a;
    let z = y * a / b;
    let r2 = (y * a) % b;
    vstd::arithmetic::div_mod::lemma_fundamental_div_mod(x * b, a);
    vstd::arithmetic::div_mod::lemma_fundamental_div_mod(y * a, b);
    vstd::arithmetic::div_mod::lemma_mod_bound(x * b, a);
    vstd::arithmetic::div_mod::lemma_mod_bound(y * a, b);
    assert(x * b == a * y + r1);
    assert(y * a == b * z + r2);
    assert(b * x == b * z + r2 + r1) by (nonlinear_arith)
        requires
            x * b == a * y + r1,
            y * a == b * z + r2,
    ;
    assert(b * (x - z) == r1 + r2) by (nonlinear_arith)
        requires
            b * x == b * z + r2 + r1,
    ;
    assert(0 <= r1 + r2 < 2 * b);
    assert(x - z == 0 || x - z == 1) by (nonlinear_arith)
        requires
            b * (x - z) == r1 + r2,
            0 <= r1 + r2 < 2 * b,
            b > 0,
    ;
}

/// A sample rate from the supported enumeration, validated at the API
/// boundary before any codec primitive is built.
#[derive(Debug, Clone, Copy, PartialEq, Eq, Structural)]
pub enum CodecRate {
    Hz8000,
    Hz12000,
    Hz16000,
    Hz24000,
    Hz48000,
}

impl CodecRate {
    /// The rate in Hertz.
    pub open spec fn spec_hz(self) -> u32 {
        match self {
            CodecRate::Hz8000 => 8000,
            CodecRate::Hz12000 => 12000,
            CodecRate::Hz16000 => 16000,
            CodecRate::Hz24000 => 24000,
            CodecRate::Hz48000 => 48000,
        }
    }

    pub fn hz(&self) -> (r: u32)
        ensures
            r == self.spec_hz(),
    {
        match self {
            CodecRate::Hz8000 => 8000,
            CodecRate::Hz12000 => 12000,
            CodecRate::Hz16000 => 16000,
            CodecRate::Hz24000 => 24000,
            CodecRate::Hz48000 => 48000,
        }
    }
}

/// Checks a requested rate against the supported enumeration and hands back
/// its token; `None` exactly on the rates the codec cannot run at.
pub fn validate_rate(s_ps: u32) -> (r: Option<CodecRate>)
    ensures
        r is Some <==> supported_rate(s_ps as int),
        r matches Some(t) ==> t.spec_hz() == s_ps,
{
    match s_ps {
        8000 => Some(CodecRate::Hz8000),
        12000 => Some(CodecRate::Hz12000),
        16000 => Some(CodecRate::Hz16000),
        24000 => Some(CodecRate::Hz24000),
        48000 => Some(CodecRate::Hz48000),
        _ => None,
    }
}

/// A channel layout the Opus primitive accepts.
#[derive(Debug, Clone, Copy, PartialEq, Eq, Structural)]
pub enum CodecChannels {
    Mono,
    Stereo,
}

impl CodecChannels {
    /// The number of interleaved channels.
    pub open spec fn spec_count(self) -> u8 {
        match self {
            CodecChannels::Mono => 1,
            CodecChannels::Stereo => 2,
        }
    }

    pub fn count(&self) -> (r: u8)
        ensures
            r == self.spec_count(),
    {
        match self {
            CodecChannels::Mono => 1,
            CodecChannels::Stereo => 2,
        }
    }
}

/// Maps a configured channel count to the codec's layout; 0 is treated as
/// mono and is never written to a header.
pub fn opus_channels(val: u8) -> (r: CodecChannels)
    requires
        val <= MAX_NUM_CHANNELS,
    ensures
        r.spec_count() == if val == 2 { 2int } else { 1int },
{
    if val == 2 {
        CodecChannels::Stereo
    } else {
        CodecChannels::Mono
    }
}

/// Explicit carrier for the codec's final entropy-coder range, a
/// diagnostic of the last frame coded. Kept as a value handed in by the
/// caller so concurrent calls cannot interfere through shared state.
pub struct FinalRange {
    value: u32,
}

impl FinalRange {
    /// The recorded diagnostic; 0 before anything was recorded.
    pub closed spec fn spec_get(self) -> u32 {
        self.value
    }

    pub fn new() -> (r: FinalRange)
        ensures
            r.spec_get() == 0,
    {
        FinalRange { value: 0 }
    }

    /// Records the final range of the frame just coded.
    pub fn set_final_range(&mut self, r: u32)
        ensures
            final(self).spec_get() == r,
    {
        self.value = r;
    }

    /// Reads the recorded final range.
    pub fn get_final_range(&self) -> (r: u32)
        ensures
            r == self.spec_get(),
    {
        self.value
    }
}

} // verus!
