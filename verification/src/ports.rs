//! Filter ports and the stream descriptions they stand for.

use crate::media::{
    pixel_code, same_pixel_format, yuv420p, CodecParameters, MediaType, ParamsView, PortParams,
    PortSpec, Rational, SampleFormat, TimeBase,
};
use vstd::prelude::*;
use vstd::string::StringExecFns;

verus! {

/// Two ports carry frames of the same shape.
pub open spec fn same_port(a: PortParams, b: PortParams) -> bool {
    match (a, b) {
        (
            PortParams::Video { width: w, height: h, format: f, time_base: t },
            PortParams::Video { width: x, height: i, format: g, time_base: u },
        ) => w == x && h == i && pixel_code(f) == pixel_code(g) && t == u,
        _ => a == b,
    }
}

/// Whether two ports carry frames of the same shape.
pub fn port_params_equal(a: &PortParams, b: &PortParams) -> (r: bool)
    ensures
        r == same_port(*a, *b),
{
    match (a, b) {
        (
            PortParams::Audio { sample_rate: ar, channels: ac, format: af },
            PortParams::Audio { sample_rate: br, channels: bc, format: bf },
        ) => *ar == *br && *ac == *bc && *af == *bf,
        (
            PortParams::Video { width: aw, height: ah, format: af, time_base: at },
            PortParams::Video { width: bw, height: bh, format: bf, time_base: bt },
        ) => *aw == *bw && *ah == *bh && same_pixel_format(*af, *bf) && *at == *bt,
        (PortParams::Subtitle, PortParams::Subtitle) => true,
        (PortParams::Metadata, PortParams::Metadata) => true,
        _ => false,
    }
}

/// The value, or what stands for it where it is unknown.
pub open spec fn or<T>(value: Option<T>, otherwise: T) -> T {
    match value {
        Some(v) => v,
        None => otherwise,
    }
}

/// `port` is the input port that frames described by `cp`, timed by `tb`, enter
/// a filter through.
pub open spec fn is_input_port(port: PortSpec, cp: ParamsView, tb: TimeBase) -> bool {
    &&& port.name@ == "in"@
    &&& match cp.media_type {
        MediaType::Audio => port.kind == MediaType::Audio && port.params == PortParams::Audio {
            sample_rate: or(cp.sample_rate, 48_000),
            channels: or(cp.channels, 2),
            format: or(cp.sample_format, SampleFormat::F32),
        },
        _ => port.kind == MediaType::Video && match port.params {
            PortParams::Video { width, height, format, time_base } => {
                &&& width == or(cp.width, 0)
                &&& height == or(cp.height, 0)
                &&& time_base == tb
                &&& match cp.pixel_format {
                    Some(f) => format == f,
                    None => pixel_code(format) == 0,
                }
            },
            _ => false,
        },
    }
}

/// The port that frames of the running format enter a filter through.
pub fn port_spec_from_params(cp: &CodecParameters, tb: TimeBase) -> (r: PortSpec)
    ensures
        is_input_port(r, cp@, tb),
{
    let name = String::from_str("in");
    match cp.media_type {
        MediaType::Audio => PortSpec {
            name,
            kind: MediaType::Audio,
            params: PortParams::Audio {
                sample_rate: cp.sample_rate.unwrap_or(48_000),
                channels: cp.channels.unwrap_or(2),
                format: cp.sample_format.unwrap_or(SampleFormat::F32),
            },
        },
        _ => PortSpec {
            name,
            kind: MediaType::Video,
            params: PortParams::Video {
                width: cp.width.unwrap_or(0),
                height: cp.height.unwrap_or(0),
                format: cp.pixel_format.unwrap_or(yuv420p()),
                time_base: tb,
            },
        },
    }
}

/// The running description after a filter whose first output port is `port`:
/// the frame shape is the port's, everything else stays.
pub open spec fn reshaped(port: PortParams, prev: ParamsView) -> ParamsView {
    match port {
        PortParams::Audio { sample_rate, channels, format } => ParamsView {
            media_type: MediaType::Audio,
            sample_rate: Some(sample_rate),
            channels: Some(channels),
            sample_format: Some(format),
            ..prev
        },
        PortParams::Video { width, height, format, .. } => ParamsView {
            media_type: MediaType::Video,
            width: Some(width),
            height: Some(height),
            pixel_format: Some(format),
            ..prev
        },
        PortParams::Subtitle => ParamsView { media_type: MediaType::Subtitle, ..prev },
        PortParams::Metadata => ParamsView { media_type: MediaType::Data, ..prev },
    }
}

/// Carries a filter's output shape into the running description.
pub fn port_params_to_codec_params(port: &PortParams, prev: &CodecParameters) -> (r: CodecParameters)
    ensures
        r@ == reshaped(*port, prev@),
        *port is Video ==> r.width == Some(port->Video_width) && r.height == Some(
            port->Video_height,
        ) && r.pixel_format == Some(port->Video_format),
        *port is Audio ==> r.sample_rate == Some(port->Audio_sample_rate) && r.channels == Some(
            port->Audio_channels,
        ) && r.sample_format == Some(port->Audio_format),
{
    let mut cp = prev.clone();
    match port {
        PortParams::Audio { sample_rate, channels, format } => {
            cp.media_type = MediaType::Audio;
            cp.sample_rate = Some(*sample_rate);
            cp.channels = Some(*channels);
            cp.sample_format = Some(*format);
        },
        PortParams::Video { width, height, format, .. } => {
            cp.media_type = MediaType::Video;
            cp.width = Some(*width);
            cp.height = Some(*height);
            cp.pixel_format = Some(*format);
        },
        PortParams::Subtitle => {
            cp.media_type = MediaType::Subtitle;
        },
        PortParams::Metadata => {
            cp.media_type = MediaType::Data;
        },
    }
    cp
}

/// The stream that an extra output port of a filter becomes.
pub open spec fn extra_stream(port: PortParams) -> (ParamsView, TimeBase) {
    match port {
        PortParams::Audio { sample_rate, channels, format } => (
            ParamsView {
                sample_rate: Some(sample_rate),
                channels: Some(channels),
                sample_format: Some(format),
                ..ParamsView::bare("rawaudio"@, MediaType::Audio)
            },
            TimeBase {
                num: 1,
                den: if sample_rate == 0 {
                    1
                } else {
                    sample_rate as i64
                },
            },
        ),
        PortParams::Video { width, height, format, time_base } => (
            ParamsView {
                width: Some(width),
                height: Some(height),
                pixel_format: Some(format),
                frame_rate: Some(Rational { num: time_base.den, den: time_base.num }),
                ..ParamsView::bare("rawvideo"@, MediaType::Video)
            },
            time_base,
        ),
        PortParams::Subtitle => (
            ParamsView::bare("rawsubtitle"@, MediaType::Audio),
            TimeBase { num: 1, den: 1000 },
        ),
        PortParams::Metadata => (
            ParamsView::bare("rawdata"@, MediaType::Audio),
            TimeBase { num: 1, den: 1 },
        ),
    }
}

/// Describes the stream that an extra output port of a filter becomes.
pub fn extra_port_stream(port: &PortParams) -> (r: (CodecParameters, TimeBase))
    ensures
        (r.0@, r.1) == extra_stream(*port),
{
    match port {
        PortParams::Audio { sample_rate, channels, format } => {
            let mut cp = CodecParameters::new(String::from_str("rawaudio"), MediaType::Audio);
            cp.sample_rate = Some(*sample_rate);
            cp.channels = Some(*channels);
            cp.sample_format = Some(*format);
            let den: i64 = if *sample_rate == 0 {
                1
            } else {
                *sample_rate as i64
            };
            (cp, TimeBase { num: 1, den })
        },
        PortParams::Video { width, height, format, time_base } => {
            let mut cp = CodecParameters::new(String::from_str("rawvideo"), MediaType::Video);
            cp.width = Some(*width);
            cp.height = Some(*height);
            cp.pixel_format = Some(*format);
            cp.frame_rate = Some(Rational { num: time_base.den, den: time_base.num });
            (cp, *time_base)
        },
        PortParams::Subtitle => (
            CodecParameters::new(String::from_str("rawsubtitle"), MediaType::Audio),
            TimeBase { num: 1, den: 1000 },
        ),
        PortParams::Metadata => (
            CodecParameters::new(String::from_str("rawdata"), MediaType::Audio),
            TimeBase { num: 1, den: 1 },
        ),
    }
}

/// A filter whose first output port repeats the shape that came in leaves a
/// fully known description as it was.
pub proof fn pass_through_keeps_shape(cp: ParamsView, tb: TimeBase, port: PortSpec)
    requires
        is_input_port(port, cp, tb),
        cp.media_type == MediaType::Audio || cp.media_type == MediaType::Video,
        cp.media_type == MediaType::Audio ==> cp.sample_rate is Some && cp.channels is Some
            && cp.sample_format is Some,
        cp.media_type == MediaType::Video ==> cp.width is Some && cp.height is Some
            && cp.pixel_format is Some,
    ensures
        reshaped(port.params, cp) == cp,
{
}

/// Two picture ports differ in size, pixel format or clock.
pub open spec fn other_picture(a: PortParams, b: PortParams) -> bool {
    a is Video && b is Video && (a->Video_width != b->Video_width || a->Video_height
        != b->Video_height || pixel_code(a->Video_format) != pixel_code(b->Video_format)
        || a->Video_time_base != b->Video_time_base)
}

/// Two sound ports differ in rate, channels or sample format.
pub open spec fn other_sound(a: PortParams, b: PortParams) -> bool {
    a is Audio && b is Audio && (a->Audio_sample_rate != b->Audio_sample_rate || a->Audio_channels
        != b->Audio_channels || a->Audio_format != b->Audio_format)
}

/// Ports carry the same frames exactly where they are of one kind and agree in all that
/// the kind has.
pub proof fn ports_differ_where_a_field_does(a: PortParams, b: PortParams)
    ensures
        same_port(a, b) <==> {
            ||| a is Video && b is Video && !other_picture(a, b)
            ||| a is Audio && b is Audio && !other_sound(a, b)
            ||| a is Subtitle && b is Subtitle
            ||| a is Metadata && b is Metadata
        },
{
}

/// Behind a port, frames have the port's shape, whatever they had before it: a picture
/// port gives width, height and pixel format, a sound port sample rate, channels and
/// sample format. What the port does not speak of stays.
pub proof fn port_gives_the_shape(port: PortParams, before: ParamsView)
    ensures
        ({
            let after = reshaped(port, before);
            &&& port is Video ==> {
                &&& after.media_type == MediaType::Video
                &&& after.width == Some(port->Video_width)
                &&& after.height == Some(port->Video_height)
                &&& after.pixel_format == Some(port->Video_format)
                &&& after.sample_rate == before.sample_rate
                &&& after.channels == before.channels
                &&& after.sample_format == before.sample_format
            }
            &&& port is Audio ==> {
                &&& after.media_type == MediaType::Audio
                &&& after.sample_rate == Some(port->Audio_sample_rate)
                &&& after.channels == Some(port->Audio_channels)
                &&& after.sample_format == Some(port->Audio_format)
                &&& after.width == before.width
                &&& after.height == before.height
                &&& after.pixel_format == before.pixel_format
            }
            &&& port is Subtitle ==> after.media_type == MediaType::Subtitle
            &&& port is Metadata ==> after.media_type == MediaType::Data
            &&& port is Subtitle || port is Metadata ==> {
                &&& after.sample_rate == before.sample_rate
                &&& after.channels == before.channels
                &&& after.sample_format == before.sample_format
                &&& after.width == before.width
                &&& after.height == before.height
                &&& after.pixel_format == before.pixel_format
            }
            &&& after.codec_id == before.codec_id
            &&& after.channel_layout == before.channel_layout
            &&& after.frame_rate == before.frame_rate
            &&& after.bit_rate == before.bit_rate
            &&& after.rest == before.rest
        }),
{
}

/// What a port does not say of the frames before it cannot be told from the frames
/// behind it: two descriptions give the same shape behind the same port.
pub proof fn shape_is_the_ports_alone(port: PortParams, a: ParamsView, b: ParamsView)
    ensures
        port is Video ==> reshaped(port, a).width == reshaped(port, b).width && reshaped(
            port,
            a,
        ).height == reshaped(port, b).height && reshaped(port, a).pixel_format == reshaped(
            port,
            b,
        ).pixel_format,
        port is Audio ==> reshaped(port, a).sample_rate == reshaped(port, b).sample_rate
            && reshaped(port, a).channels == reshaped(port, b).channels && reshaped(
            port,
            a,
        ).sample_format == reshaped(port, b).sample_format,
{
}

/// Frames enter a filter as they are described: a port made for a description says of
/// them what the description does, and behind such a port the description is the same
/// where it was complete. Sound that is not described is taken for 48 kHz stereo
/// floats, a picture for one of no size in the format with number zero.
pub proof fn input_port_says_what_is_known(port: PortSpec, cp: ParamsView, tb: TimeBase)
    requires
        is_input_port(port, cp, tb),
    ensures
        port.name@ == "in"@,
        cp.media_type == MediaType::Audio <==> port.params is Audio,
        cp.media_type != MediaType::Audio <==> port.params is Video,
        port.params is Audio ==> port.kind == MediaType::Audio,
        port.params is Video ==> port.kind == MediaType::Video && port.params->Video_time_base
            == tb,
        port.params is Audio && cp.sample_rate is Some ==> Some(port.params->Audio_sample_rate)
            == cp.sample_rate,
        port.params is Audio && cp.channels is Some ==> Some(port.params->Audio_channels)
            == cp.channels,
        port.params is Audio && cp.sample_format is Some ==> Some(port.params->Audio_format)
            == cp.sample_format,
        port.params is Video && cp.width is Some ==> Some(port.params->Video_width) == cp.width,
        port.params is Video && cp.height is Some ==> Some(port.params->Video_height) == cp.height,
        port.params is Video && cp.pixel_format is Some ==> Some(port.params->Video_format)
            == cp.pixel_format,
        port.params is Audio && cp.sample_rate is None ==> port.params->Audio_sample_rate == 48_000,
        port.params is Audio && cp.channels is None ==> port.params->Audio_channels == 2,
        port.params is Audio && cp.sample_format is None ==> port.params->Audio_format
            == SampleFormat::F32,
        port.params is Video && cp.width is None ==> port.params->Video_width == 0,
        port.params is Video && cp.height is None ==> port.params->Video_height == 0,
        port.params is Video && cp.pixel_format is None ==> pixel_code(port.params->Video_format)
            == 0,
{
}

/// The stream of an extra port is raw, has the port's shape, and ticks with it: sound by
/// its sample rate, pictures by the port's clock, whose inverse is their rate.
pub proof fn extra_stream_has_the_ports_shape(port: PortParams)
    ensures
        ({
            let (p, tb) = extra_stream(port);
            &&& port is Audio ==> {
                &&& p.codec_id == "rawaudio"@
                &&& p.media_type == MediaType::Audio
                &&& p.sample_rate == Some(port->Audio_sample_rate)
                &&& p.channels == Some(port->Audio_channels)
                &&& p.sample_format == Some(port->Audio_format)
                &&& tb.num == 1
                &&& port->Audio_sample_rate > 0 ==> tb.den == port->Audio_sample_rate
                &&& port->Audio_sample_rate == 0 ==> tb.den == 1
                &&& p.width is None && p.height is None && p.pixel_format is None
            }
            &&& port is Video ==> {
                &&& p.codec_id == "rawvideo"@
                &&& p.media_type == MediaType::Video
                &&& p.width == Some(port->Video_width)
                &&& p.height == Some(port->Video_height)
                &&& p.pixel_format == Some(port->Video_format)
                &&& tb == port->Video_time_base
                &&& p.frame_rate is Some
                &&& p.frame_rate->0.num == tb.den && p.frame_rate->0.den == tb.num
                &&& p.sample_rate is None && p.channels is None && p.sample_format is None
            }
            &&& port is Subtitle ==> p.codec_id == "rawsubtitle"@ && tb.num == 1 && tb.den == 1000
            &&& port is Metadata ==> p.codec_id == "rawdata"@ && tb.num == 1 && tb.den == 1
        }),
{
}

} // verus!
