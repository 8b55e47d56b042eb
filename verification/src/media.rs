//! Stream descriptors and time bases.

use vstd::prelude::*;

verus! {

/// Broad category of a stream's payload.
#[derive(Clone, Copy, Debug, PartialEq, Eq, Structural)]
pub enum MediaType {
    Audio,
    Video,
    Subtitle,
    Data,
    Unknown,
}

/// Layout of one audio sample.
#[derive(Clone, Copy, Debug, PartialEq, Eq, Structural)]
pub enum SampleFormat {
    U8,
    S8,
    S16,
    S24,
    S32,
    F32,
    F64,
    U8P,
    S16P,
    S32P,
    F32P,
    F64P,
}

/// A fraction, kept as it was written (not reduced).
#[derive(Clone, Copy, Debug, PartialEq, Eq, Structural)]
pub struct Rational {
    pub num: i64,
    pub den: i64,
}

/// Seconds per tick.
#[derive(Clone, Copy, Debug, PartialEq, Eq, Structural)]
pub struct TimeBase {
    pub num: i64,
    pub den: i64,
}

/// Magnitude of an integer.
pub open spec fn magnitude(x: int) -> int {
    if x < 0 {
        -x
    } else {
        x
    }
}

/// `n / d` rounded to the nearest integer, a tie away from zero.
pub open spec fn nearest(n: int, d: int) -> int
    recommends
        d != 0,
{
    let (p, q) = (magnitude(n), magnitude(d));
    let rounded = p / q + (if 2 * (p % q) >= q {
        1int
    } else {
        0int
    });
    if (n < 0) != (d < 0) {
        -rounded
    } else {
        rounded
    }
}

/// An integer moved to the nearest end of the `i64` range where it lies outside.
pub open spec fn saturated(x: int) -> i64 {
    if x < i64::MIN {
        i64::MIN
    } else if x > i64::MAX {
        i64::MAX
    } else {
        x as i64
    }
}

impl TimeBase {
    pub fn new(num: i64, den: i64) -> (r: Self)
        ensures
            r == (TimeBase { num, den }),
    {
        TimeBase { num, den }
    }

    /// Numerator of `ts` ticks of `self` counted in ticks of `target`.
    pub open spec fn ticks_num(self, ts: i64, target: TimeBase) -> int {
        ts * (self.num * target.den)
    }

    /// Denominator of `ts` ticks of `self` counted in ticks of `target`.
    pub open spec fn ticks_den(self, target: TimeBase) -> int {
        self.den * target.num
    }

    /// The instant `ts`, counted in ticks of `target`: the nearest tick, moved
    /// into the `i64` range. A conversion without a denominator gives zero, and
    /// one whose numerator exceeds 128 bits goes to the end of the range.
    pub open spec fn rescaled(self, ts: i64, target: TimeBase) -> i64 {
        let n = self.ticks_num(ts, target);
        let d = self.ticks_den(target);
        if d == 0 {
            0
        } else if magnitude(n) > u128::MAX {
            if (n < 0) != (d < 0) {
                i64::MIN
            } else {
                i64::MAX
            }
        } else {
            saturated(nearest(n, d))
        }
    }

    /// As [`rescaled`](Self::rescaled), but `None` wherever that one gives up
    /// the instant.
    pub open spec fn rescaled_exactly(self, ts: i64, target: TimeBase) -> Option<i64> {
        let n = self.ticks_num(ts, target);
        let d = self.ticks_den(target);
        if d == 0 || magnitude(n) > u128::MAX || nearest(n, d) != saturated(nearest(n, d)) {
            None
        } else {
            Some(nearest(n, d) as i64)
        }
    }

    /// Converts a tick count of this time base into ticks of `target`.
    pub fn rescale(self, ts: i64, target: TimeBase) -> (r: i64)
        ensures
            r == self.rescaled(ts, target),
    {
        core_rescale(self, ts, target)
    }

    /// Converts a tick count of this time base into ticks of `target`, where
    /// the result exists.
    pub fn rescale_checked(self, ts: i64, target: TimeBase) -> (r: Option<i64>)
        ensures
            r == self.rescaled_exactly(ts, target),
    {
        core_rescale_checked(self, ts, target)
    }
}

/// `oxideav_core::TimeBase::rescale`: the nearest tick of the target, ties away
/// from zero; zero where the conversion has no denominator; an end of the `i64`
/// range where the result, or its 128-bit numerator, does not fit.
#[verifier::external_body]
fn core_rescale(from: TimeBase, ts: i64, to: TimeBase) -> (r: i64)
    ensures
        r == from.rescaled(ts, to),
{
    oxideav_core::TimeBase::new(from.num, from.den).rescale(
        ts,
        oxideav_core::TimeBase::new(to.num, to.den),
    )
}

/// `oxideav_core::TimeBase::rescale_checked`: as `rescale`, with `None` in place
/// of a defaulted or saturated result.
#[verifier::external_body]
fn core_rescale_checked(from: TimeBase, ts: i64, to: TimeBase) -> (r: Option<i64>)
    ensures
        r == from.rescaled_exactly(ts, to),
{
    oxideav_core::TimeBase::new(from.num, from.den).rescale_checked(
        ts,
        oxideav_core::TimeBase::new(to.num, to.den),
    )
}

/// Layout of one picture, carried unread; formats are told apart by
/// [`pixel_code`].
#[verifier::external_type_specification]
#[verifier::external_body]
pub struct ExPixelFormat(oxideav_core::PixelFormat);

/// Speaker positions of an audio stream, carried unread.
#[verifier::external_type_specification]
#[verifier::external_body]
pub struct ExChannelLayout(oxideav_core::ChannelLayout);

/// The stable number of a pixel format.
pub uninterp spec fn pixel_code(format: oxideav_core::PixelFormat) -> u16;

/// The discriminant of an `oxideav_core::PixelFormat`, which that crate pins as
/// part of its interface.
#[verifier::external_body]
pub(crate) fn core_pixel_code(format: oxideav_core::PixelFormat) -> (r: u16)
    ensures
        r == pixel_code(format),
{
    format as u16
}

/// `oxideav_core::PixelFormat::Yuv420P`, whose number is zero.
#[verifier::external_body]
pub(crate) fn yuv420p() -> (r: oxideav_core::PixelFormat)
    ensures
        pixel_code(r) == 0,
{
    oxideav_core::PixelFormat::Yuv420P
}

/// Whether two pixel formats are the same one.
pub fn same_pixel_format(a: oxideav_core::PixelFormat, b: oxideav_core::PixelFormat) -> (r: bool)
    ensures
        r == (pixel_code(a) == pixel_code(b)),
{
    core_pixel_code(a) == core_pixel_code(b)
}

/// Codec-level description of a stream: the parts that routing, selection and
/// planning read or set. What else a descriptor may hold is kept by the caller
/// under the key `rest`; zero stands for a descriptor with nothing else in it.
pub struct CodecParameters {
    pub codec_id: String,
    pub media_type: MediaType,
    pub sample_rate: Option<u32>,
    pub channels: Option<u16>,
    pub sample_format: Option<SampleFormat>,
    pub channel_layout: Option<oxideav_core::ChannelLayout>,
    pub width: Option<u32>,
    pub height: Option<u32>,
    pub pixel_format: Option<oxideav_core::PixelFormat>,
    pub frame_rate: Option<Rational>,
    pub bit_rate: Option<u64>,
    pub rest: u64,
}

/// What a [`CodecParameters`] says.
#[verifier::ext_equal]
pub struct ParamsView {
    pub codec_id: Seq<char>,
    pub media_type: MediaType,
    pub sample_rate: Option<u32>,
    pub channels: Option<u16>,
    pub sample_format: Option<SampleFormat>,
    pub channel_layout: Option<oxideav_core::ChannelLayout>,
    pub width: Option<u32>,
    pub height: Option<u32>,
    pub pixel_format: Option<oxideav_core::PixelFormat>,
    pub frame_rate: Option<Rational>,
    pub bit_rate: Option<u64>,
    pub rest: u64,
}

impl View for CodecParameters {
    type V = ParamsView;

    open spec fn view(&self) -> ParamsView {
        ParamsView {
            codec_id: self.codec_id@,
            media_type: self.media_type,
            sample_rate: self.sample_rate,
            channels: self.channels,
            sample_format: self.sample_format,
            channel_layout: self.channel_layout,
            width: self.width,
            height: self.height,
            pixel_format: self.pixel_format,
            frame_rate: self.frame_rate,
            bit_rate: self.bit_rate,
            rest: self.rest,
        }
    }
}

impl ParamsView {
    /// A descriptor of `media_type` with every optional part absent.
    pub open spec fn bare(codec_id: Seq<char>, media_type: MediaType) -> ParamsView {
        ParamsView {
            codec_id,
            media_type,
            sample_rate: None,
            channels: None,
            sample_format: None,
            channel_layout: None,
            width: None,
            height: None,
            pixel_format: None,
            frame_rate: None,
            bit_rate: None,
            rest: 0,
        }
    }

    /// Both describe the same coding at the same sample rate, channel count,
    /// sample format, picture size and pixel format.
    pub open spec fn same_core(self, other: ParamsView) -> bool {
        &&& self.codec_id == other.codec_id
        &&& self.sample_rate == other.sample_rate
        &&& self.channels == other.channels
        &&& self.sample_format == other.sample_format
        &&& self.width == other.width
        &&& self.height == other.height
        &&& same_optional_format(self.pixel_format, other.pixel_format)
    }
}

/// Both absent, or both present and the same format.
pub open spec fn same_optional_format(
    a: Option<oxideav_core::PixelFormat>,
    b: Option<oxideav_core::PixelFormat>,
) -> bool {
    match (a, b) {
        (Some(x), Some(y)) => pixel_code(x) == pixel_code(y),
        (None, None) => true,
        _ => false,
    }
}

impl CodecParameters {
    pub fn new(codec_id: String, media_type: MediaType) -> (r: Self)
        ensures
            r@ == ParamsView::bare(codec_id@, media_type),
    {
        CodecParameters {
            codec_id,
            media_type,
            sample_rate: None,
            channels: None,
            sample_format: None,
            channel_layout: None,
            width: None,
            height: None,
            pixel_format: None,
            frame_rate: None,
            bit_rate: None,
            rest: 0,
        }
    }

    /// Whether packets of one description can pass for packets of the other.
    pub fn matches_core(&self, other: &CodecParameters) -> (r: bool)
        ensures
            r == self@.same_core(other@),
    {
        let formats = match (self.pixel_format, other.pixel_format) {
            (Some(a), Some(b)) => same_pixel_format(a, b),
            (None, None) => true,
            _ => false,
        };
        self.codec_id == other.codec_id && self.sample_rate == other.sample_rate && self.channels
            == other.channels && self.sample_format == other.sample_format && self.width
            == other.width && self.height == other.height && formats
    }
}

impl Clone for CodecParameters {
    fn clone(&self) -> (r: Self)
        ensures
            r == *self,
    {
        CodecParameters {
            codec_id: self.codec_id.clone(),
            media_type: self.media_type,
            sample_rate: self.sample_rate,
            channels: self.channels,
            sample_format: self.sample_format,
            channel_layout: self.channel_layout,
            width: self.width,
            height: self.height,
            pixel_format: self.pixel_format,
            frame_rate: self.frame_rate,
            bit_rate: self.bit_rate,
            rest: self.rest,
        }
    }
}

/// One elementary stream of a source or of an output.
pub struct StreamInfo {
    pub index: u32,
    pub time_base: TimeBase,
    pub duration: Option<i64>,
    pub start_time: Option<i64>,
    pub params: CodecParameters,
}

/// What a [`StreamInfo`] says.
#[verifier::ext_equal]
pub struct StreamView {
    pub index: u32,
    pub time_base: TimeBase,
    pub duration: Option<i64>,
    pub start_time: Option<i64>,
    pub params: ParamsView,
}

impl View for StreamInfo {
    type V = StreamView;

    open spec fn view(&self) -> StreamView {
        StreamView {
            index: self.index,
            time_base: self.time_base,
            duration: self.duration,
            start_time: self.start_time,
            params: self.params@,
        }
    }
}

/// What each stream of a list says.
pub open spec fn stream_views(streams: Seq<StreamInfo>) -> Seq<StreamView> {
    Seq::new(streams.len(), |i: int| streams[i]@)
}

impl Clone for StreamInfo {
    fn clone(&self) -> (r: Self)
        ensures
            r == *self,
    {
        StreamInfo {
            index: self.index,
            time_base: self.time_base,
            duration: self.duration,
            start_time: self.start_time,
            params: self.params.clone(),
        }
    }
}

/// Shape of the frames that cross a filter port.
#[derive(Clone, Copy)]
#[allow(inconsistent_fields)]
pub enum PortParams {
    Audio { sample_rate: u32, channels: u16, format: SampleFormat },
    Video { width: u32, height: u32, format: oxideav_core::PixelFormat, time_base: TimeBase },
    Subtitle,
    Metadata,
}

/// A named filter port.
pub struct PortSpec {
    pub name: String,
    pub kind: MediaType,
    pub params: PortParams,
}

/// Rounding to the nearest integer errs by at most a half.
proof fn nearest_errs_by_half(n: int, d: int)
    requires
        d != 0,
    ensures
        2 * magnitude(nearest(n, d) * d - n) <= magnitude(d),
{
    let (p, q) = (magnitude(n), magnitude(d));
    let (k, m) = (p / q, p % q);
    assert(p == q * k + m && 0 <= m < q) by (nonlinear_arith)
        requires
            q > 0,
            p >= 0,
            k == p / q,
            m == p % q,
    ;
    let up = if 2 * m >= q {
        1int
    } else {
        0int
    };
    let rounded = k + up;
    assert(rounded * q - p == up * q - m) by (nonlinear_arith)
        requires
            p == q * k + m,
            rounded == k + up,
    ;
    assert(up * q == if up == 1 {
        q
    } else {
        0
    }) by (nonlinear_arith)
        requires
            up == 0 || up == 1,
    ;
    let r = nearest(n, d);
    assert(r * d - n == rounded * q - p || r * d - n == -(rounded * q - p)) by (nonlinear_arith)
        requires
            (n < 0 && d < 0 && p == -n && q == -d && r == rounded) || (n >= 0 && d > 0 && p == n
                && q == d && r == rounded) || (n < 0 && d > 0 && p == -n && q == d && r == -rounded)
                || (n >= 0 && d < 0 && p == n && q == -d && r == -rounded),
    ;
}

/// A rescaled time is the same instant, to within half a tick of the clock it is
/// rescaled to. Left out are a conversion without a denominator, and one whose
/// numerator or result leaves the range.
pub proof fn rescale_keeps_the_instant(from: TimeBase, ts: i64, to: TimeBase)
    requires
        from.ticks_den(to) != 0,
        magnitude(from.ticks_num(ts, to)) <= u128::MAX,
        i64::MIN <= nearest(from.ticks_num(ts, to), from.ticks_den(to)) <= i64::MAX,
    ensures
        2 * magnitude(
            from.rescaled(ts, to) * from.ticks_den(to) - from.ticks_num(ts, to),
        ) <= magnitude(from.ticks_den(to)),
        from.rescaled_exactly(ts, to) == Some(from.rescaled(ts, to)),
{
    nearest_errs_by_half(from.ticks_num(ts, to), from.ticks_den(to));
}

/// Rescaling to the same clock changes nothing. Left out are a clock with a zero
/// in it, and times whose numerator needs more than 128 bits.
pub proof fn rescale_to_same_clock(clock: TimeBase, ts: i64)
    requires
        clock.num != 0,
        clock.den != 0,
        magnitude(clock.ticks_num(ts, clock)) <= u128::MAX,
    ensures
        clock.rescaled(ts, clock) == ts,
        clock.rescaled_exactly(ts, clock) == Some(ts),
{
    let n = clock.ticks_num(ts, clock);
    let d = clock.ticks_den(clock);
    let a = clock.num as int;
    let b = clock.den as int;
    assert(d != 0) by (nonlinear_arith)
        requires
            d == b * a,
            a != 0,
            b != 0,
    ;
    assert(n == ts * d) by (nonlinear_arith)
        requires
            n == ts * (a * b),
            d == b * a,
    ;
    let (p, q) = (magnitude(n), magnitude(d));
    let t = magnitude(ts as int);
    assert(p == t * q) by (nonlinear_arith)
        requires
            n == ts * d,
            p == magnitude(n),
            q == magnitude(d),
            t == magnitude(ts as int),
            p == n && n >= 0 || p == -n && n < 0,
            q == d && d >= 0 || q == -d && d < 0,
            t == ts && ts >= 0 || t == -ts && ts < 0,
    ;
    assert(p / q == t && p % q == 0) by (nonlinear_arith)
        requires
            p == t * q,
            q > 0,
            t >= 0,
    ;
    assert(nearest(n, d) == ts) by (nonlinear_arith)
        requires
            n == ts * d,
            d != 0,
            nearest(n, d) == if (n < 0) != (d < 0) {
                -t
            } else {
                t
            },
            t == ts && ts >= 0 || t == -ts && ts < 0,
    ;
}

/// Nothing but the nearest tick is nearer to an instant, and of two that are as near the
/// one farther from zero is taken.
pub proof fn ties_go_away_from_zero(n: int, d: int)
    requires
        d > 0,
    ensures
        n >= 0 ==> nearest(n, d) == (2 * n + d) / (2 * d),
        n < 0 ==> nearest(n, d) == -nearest(-n, d),
        nearest(n, -d) == nearest(-n, d),
{
    let p = magnitude(n);
    let q = p / d;
    let r = p % d;
    vstd::arithmetic::div_mod::lemma_fundamental_div_mod(p, d);
    vstd::arithmetic::div_mod::lemma_mod_bound(p, d);
    if n >= 0 {
        if 2 * r >= d {
            assert((2 * n + d) / (2 * d) == q + 1) by (nonlinear_arith)
                requires
                    n == d * q + r,
                    d <= 2 * r,
                    r < d,
            ;
        } else {
            assert((2 * n + d) / (2 * d) == q) by (nonlinear_arith)
                requires
                    n == d * q + r,
                    0 <= 2 * r < d,
            ;
        }
    }
    if n == 0 {
        assert(0int / d == 0) by (nonlinear_arith)
            requires
                d > 0,
        ;
    }
}

/// What cannot be told on a clock exactly is told by its nearest end where it is too far
/// off, and is not told at all where that is not wanted; what can be told is told alike
/// either way.
pub proof fn both_conversions_agree(from: TimeBase, ts: i64, to: TimeBase)
    ensures
        ({
            let n = from.ticks_num(ts, to);
            let d = from.ticks_den(to);
            let r = from.rescaled_exactly(ts, to);
            &&& r is Some ==> r->0 == from.rescaled(ts, to)
            &&& d == 0 ==> r is None && from.rescaled(ts, to) == 0
            &&& r is None && d != 0 ==> from.rescaled(ts, to) == i64::MAX || from.rescaled(ts, to)
                == i64::MIN
            &&& r is Some <==> d != 0 && magnitude(n) <= u128::MAX && i64::MIN <= nearest(n, d)
                <= i64::MAX
        }),
{
}

} // verus!
