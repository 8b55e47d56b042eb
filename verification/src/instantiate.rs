//! Building the decoder, filters and encoder of a track, in stage order.

use crate::dag::StageSpec;
use crate::error::JobError;
use crate::failure::FailureStage;
use crate::media::{
    CodecParameters, MediaType, ParamsView, PortParams, PortSpec, StreamInfo, StreamView, TimeBase,
};
use crate::ports::{
    extra_port_stream, extra_stream, extra_stream_has_the_ports_shape, is_input_port, or,
    other_picture, other_sound, port_params_equal, port_params_to_codec_params,
    port_spec_from_params, reshaped, same_port,
};
use crate::pump::stage_kind;
use crate::selection::CodecCapabilities;
use crate::track::{
    params_view, DecoderView, FrameStage, TrackDecoder, TrackRuntime, TrackView,
};
use vstd::prelude::*;
use vstd::string::StringExecFns;

verus! {

/// The unsigned integer that a JSON object holds under a key; `None` for text
/// that is no JSON object, an absent key, or another kind of value.
pub uninterp spec fn json_u64(text: Seq<char>, key: Seq<char>) -> Option<u64>;

/// `serde_json`: the text parsed as a `Value`, its member under the key
/// (`Value::get`), as an unsigned integer (`Value::as_u64`). A function of text
/// and key alone.
#[verifier::external_body]
fn serde_json_u64(text: &str, key: &str) -> (r: Option<u64>)
    ensures
        r == json_u64(text@, key@),
{
    match serde_json::from_str::<serde_json::Value>(text) {
        Ok(value) => match value.get(key) {
            Some(member) => member.as_u64(),
            None => None,
        },
        Err(_) => None,
    }
}

/// The encoder settings that a job can override.
#[derive(Clone, Copy, Debug, PartialEq, Eq, Structural)]
pub struct EncodeOverrides {
    pub bitrate: Option<u64>,
    pub sample_rate: Option<u64>,
    pub channels: Option<u64>,
    pub width: Option<u64>,
    pub height: Option<u64>,
}

impl EncodeOverrides {
    /// What an encode stage's parameters override.
    pub open spec fn in_text(params: Seq<char>) -> EncodeOverrides {
        EncodeOverrides {
            bitrate: json_u64(params, "bitrate"@),
            sample_rate: json_u64(params, "sample_rate"@),
            channels: json_u64(params, "channels"@),
            width: json_u64(params, "width"@),
            height: json_u64(params, "height"@),
        }
    }

    /// Reads the overrides of an encode stage.
    pub fn read(params: &str) -> (r: Self)
        ensures
            r == Self::in_text(params@),
    {
        EncodeOverrides {
            bitrate: serde_json_u64(params, "bitrate"),
            sample_rate: serde_json_u64(params, "sample_rate"),
            channels: serde_json_u64(params, "channels"),
            width: serde_json_u64(params, "width"),
            height: serde_json_u64(params, "height"),
        }
    }
}

/// The low 32 bits of an override, or what was there where nothing overrides.
pub open spec fn low32(value: Option<u64>, otherwise: Option<u32>) -> Option<u32> {
    match value {
        Some(v) => Some((v % 0x1_0000_0000) as u32),
        None => otherwise,
    }
}

pub open spec fn low16(value: Option<u64>, otherwise: Option<u16>) -> Option<u16> {
    match value {
        Some(v) => Some((v % 0x1_0000) as u16),
        None => otherwise,
    }
}

fn take_low32(value: Option<u64>, otherwise: Option<u32>) -> (r: Option<u32>)
    ensures
        r == low32(value, otherwise),
{
    match value {
        Some(v) => Some((v % 0x1_0000_0000) as u32),
        None => otherwise,
    }
}

/// What the encoder of `codec` is asked for: the running description under the
/// codec's name, with the overrides applied.
pub open spec fn encoder_request(
    running: ParamsView,
    codec: Seq<char>,
    overrides: EncodeOverrides,
) -> ParamsView {
    ParamsView {
        codec_id: codec,
        bit_rate: match overrides.bitrate {
            Some(b) => Some(b),
            None => running.bit_rate,
        },
        sample_rate: low32(overrides.sample_rate, running.sample_rate),
        channels: low16(overrides.channels, running.channels),
        width: low32(overrides.width, running.width),
        height: low32(overrides.height, running.height),
        ..running
    }
}

/// Describes what the encoder of `codec` is asked for.
pub fn request_encoder(running: &CodecParameters, codec: &String, overrides: EncodeOverrides) -> (r:
    CodecParameters)
    ensures
        r@ == encoder_request(running@, codec@, overrides),
        r.codec_id@ == codec@,
        overrides.width is None ==> r.width == running.width,
        overrides.height is None ==> r.height == running.height,
        overrides.sample_rate is None ==> r.sample_rate == running.sample_rate,
        overrides.channels is None ==> r.channels == running.channels,
        overrides.bitrate is None ==> r.bit_rate == running.bit_rate,
        overrides.bitrate is Some ==> r.bit_rate == overrides.bitrate,
        r.pixel_format == running.pixel_format,
        r.sample_format == running.sample_format,
{
    let mut r = running.clone();
    r.codec_id = codec.clone();
    if overrides.bitrate.is_some() {
        r.bit_rate = overrides.bitrate;
    }
    r.sample_rate = take_low32(overrides.sample_rate, r.sample_rate);
    r.channels = match overrides.channels {
        Some(v) => Some((v % 0x1_0000) as u16),
        None => r.channels,
    };
    r.width = take_low32(overrides.width, r.width);
    r.height = take_low32(overrides.height, r.height);
    r
}

/// What a track needs next.
#[allow(inconsistent_fields)]
pub enum BuildStep {
    /// A decoder for these packets.
    Decoder { params: CodecParameters },
    /// A filter by name, for frames that enter through `input`.
    Filter { name: String, params: String, input: PortSpec },
    /// An encoder that makes this.
    Encoder { params: CodecParameters },
    Done,
}

/// A track whose stages are being built, with the description of the frames
/// that reach the next stage.
pub struct Instantiation {
    pub track: TrackRuntime,
    pub running: CodecParameters,
    pub at: usize,
    /// Number of the next extra stream of this track, counted from one.
    pub next_extra: u32,
}

#[verifier::ext_equal]
pub struct InstantiationView {
    pub track: TrackView,
    pub running: ParamsView,
    pub at: int,
    pub next_extra: int,
}

impl View for Instantiation {
    type V = InstantiationView;

    open spec fn view(&self) -> InstantiationView {
        InstantiationView {
            track: self.track@,
            running: self.running@,
            at: self.at as int,
            next_extra: self.next_extra as int,
        }
    }
}

/// The streams that the extra output ports of a filter become.
pub open spec fn extra_streams(outputs: Seq<PortSpec>, first: int) -> Seq<StreamView> {
    Seq::new(
        (outputs.len() - 1) as nat,
        |i: int|
            StreamView {
                index: (first + i) as u32,
                time_base: extra_stream(outputs[i + 1].params).1,
                duration: None,
                start_time: Some(0),
                params: extra_stream(outputs[i + 1].params).0,
            },
    )
}

/// The clock of an encoder's stream: its sample rate where it has one, else the
/// source's clock.
pub open spec fn encoder_clock(out: ParamsView, input: TimeBase) -> TimeBase {
    match out.sample_rate {
        Some(rate) => if rate > 0 {
            TimeBase { num: 1, den: rate as i64 }
        } else {
            input
        },
        None => input,
    }
}

impl InstantiationView {
    /// Passes over the stages that need nothing from outside: conversions, and a
    /// decode where a decoder is there already.
    pub open spec fn scanned(self) -> InstantiationView
        decreases self.track.stages.len() - self.at,
    {
        if self.at < 0 || self.at >= self.track.stages.len() {
            self
        } else {
            match self.track.stages[self.at] {
                StageSpec::Decode => if self.track.decoder is Some {
                    InstantiationView { at: self.at + 1, ..self }.scanned()
                } else {
                    self
                },
                StageSpec::Convert { target } => self.converted(target).scanned(),
                _ => self,
            }
        }
    }

    /// The track with a conversion to `target` appended, from the shape that
    /// frames have at this point.
    pub open spec fn converted(self, target: oxideav_core::PixelFormat) -> InstantiationView {
        InstantiationView {
            track: TrackView {
                frame_stages: self.track.frame_stages.push(
                    FrameStage::PixConvert {
                        from: or(self.running.pixel_format, target),
                        width: or(self.running.width, 0),
                        height: or(self.running.height, 0),
                        target,
                    },
                ),
                ..self.track
            },
            running: ParamsView { pixel_format: Some(target), ..self.running },
            at: self.at + 1,
            ..self
        }
    }

    /// Whether `step` is what the stage at the cursor needs.
    pub open spec fn needs(self, step: BuildStep) -> bool {
        if self.at < 0 || self.at >= self.track.stages.len() {
            step is Done
        } else {
            match self.track.stages[self.at] {
                StageSpec::Filter { name: n, params: p } => match step {
                    BuildStep::Filter { name, params, input } => name == n && params == p
                        && is_input_port(input, self.running, self.track.input_time_base),
                    _ => false,
                },
                StageSpec::Encode { codec, params: p } => match step {
                    BuildStep::Encoder { params } => params@ == encoder_request(
                        self.running,
                        codec@,
                        EncodeOverrides::in_text(p@),
                    ),
                    _ => false,
                },
                _ => match step {
                    BuildStep::Decoder { params } => params@ == self.track.input_params,
                    _ => false,
                },
            }
        }
    }

    /// The stage at the cursor waits for a decoder.
    pub open spec fn at_decode(self) -> bool {
        0 <= self.at < self.track.stages.len() && self.track.stages[self.at] is Decode
            && self.track.decoder is None
    }

    pub open spec fn at_filter(self) -> bool {
        0 <= self.at < self.track.stages.len() && self.track.stages[self.at] is Filter
    }

    pub open spec fn at_encode(self) -> bool {
        0 <= self.at < self.track.stages.len() && self.track.stages[self.at] is Encode
    }

    pub open spec fn decoded_by(self, decoder: DecoderView) -> InstantiationView {
        InstantiationView {
            track: TrackView { decoder: Some(decoder), ..self.track },
            at: self.at + 1,
            ..self
        }
    }

    /// The track with a filter appended: a first output port that changes the
    /// shape changes the running description, every further one adds a stream.
    pub open spec fn filtered_by(
        self,
        inputs: Seq<PortSpec>,
        outputs: Seq<PortSpec>,
    ) -> InstantiationView {
        let extra = outputs.len() - 1;
        InstantiationView {
            track: TrackView {
                frame_stages: self.track.frame_stages.push(FrameStage::Filter),
                extra_output_streams: self.track.extra_output_streams + extra_streams(
                    outputs,
                    self.next_extra,
                ),
                extra_output_port_counts: self.track.extra_output_port_counts.push(extra as u32),
                ..self.track
            },
            running: if inputs.len() > 0 && same_port(inputs[0].params, outputs[0].params) {
                self.running
            } else {
                reshaped(outputs[0].params, self.running)
            },
            at: self.at + 1,
            next_extra: self.next_extra + extra,
        }
    }

    pub open spec fn encoded_by(self, out: ParamsView) -> InstantiationView {
        InstantiationView {
            track: TrackView {
                encoder: Some(out),
                encoder_time_base: Some(encoder_clock(out, self.track.input_time_base)),
                ..self.track
            },
            running: out,
            at: self.at + 1,
            ..self
        }
    }
}

impl Instantiation {
    pub open spec fn wf(self) -> bool {
        self.at <= self.track.stages@.len()
    }

    /// Starts at the first stage, with the source's description.
    pub fn new(track: TrackRuntime) -> (r: Self)
        ensures
            r.wf(),
            r@ == (InstantiationView {
                track: track@,
                running: track@.input_params,
                at: 0,
                next_extra: 1,
            }),
    {
        let running = track.input_params.clone();
        Instantiation { track, running, at: 0, next_extra: 1 }
    }

    /// Moves on to the next stage that needs something, and says what.
    pub fn next(&mut self) -> (r: BuildStep)
        requires
            old(self).wf(),
        ensures
            final(self).wf(),
            final(self)@ == old(self)@.scanned(),
            final(self)@.needs(r),
    {
        let ghost goal = self@.scanned();
        loop
            invariant
                self.wf(),
                self@.scanned() == goal,
                goal == old(self)@.scanned(),
            decreases self.track.stages@.len() - self.at,
        {
            if self.at >= self.track.stages.len() {
                return BuildStep::Done;
            }
            match &self.track.stages[self.at] {
                StageSpec::Decode => {
                    if self.track.decoder.is_none() {
                        return BuildStep::Decoder { params: self.track.input_params.clone() };
                    }
                },
                StageSpec::Filter { name, params } => {
                    return BuildStep::Filter {
                        name: name.clone(),
                        params: params.clone(),
                        input: port_spec_from_params(&self.running, self.track.input_time_base),
                    };
                },
                StageSpec::Convert { target } => {
                    let target = *target;
                    let from = self.running.pixel_format.unwrap_or(target);
                    let width: u32 = self.running.width.unwrap_or(0);
                    let height: u32 = self.running.height.unwrap_or(0);
                    let ghost before = self@;
                    self.track.frame_stages.push(
                        FrameStage::PixConvert { from, width, height, target },
                    );
                    self.running.pixel_format = Some(target);
                    self.at = self.at + 1;
                    assert(self@ =~= before.converted(target));
                    continue;
                },
                StageSpec::Encode { codec, params } => {
                    return BuildStep::Encoder {
                        params: request_encoder(
                            &self.running,
                            codec,
                            EncodeOverrides::read(params.as_str()),
                        ),
                    };
                },
            }
            self.at = self.at + 1;
        }
    }

    /// The decoder that was asked for is there.
    pub fn decoder_ready(&mut self, caps: CodecCapabilities, output: Option<CodecParameters>)
        requires
            old(self).wf(),
            old(self)@.at_decode(),
        ensures
            final(self).wf(),
            final(self)@ == old(self)@.decoded_by(
                DecoderView { caps, output: params_view(output) },
            ),
    {
        let n: usize = self.track.stages.len();
        assert(self.at < n);
        let ghost before = self@;
        self.track.decoder = Some(TrackDecoder { caps, output });
        self.at = self.at + 1;
        assert(self@ =~= before.decoded_by(DecoderView { caps, output: params_view(output) }));
    }

    /// The filter that was asked for is there, with these ports. One without an
    /// output port is refused.
    pub fn filter_ready(&mut self, inputs: &Vec<PortSpec>, outputs: &Vec<PortSpec>) -> (r: Result<
        (),
        JobError,
    >)
        requires
            old(self).wf(),
            old(self)@.at_filter(),
            old(self).next_extra + outputs@.len() <= u32::MAX + 1,
        ensures
            final(self).wf(),
            if outputs@.len() == 0 {
                &&& r == Err::<(), JobError>(
                    JobError::ZeroPorts {
                        filter: old(self)@.track.stages[old(self)@.at]->Filter_name,
                    },
                )
                &&& final(self)@ == old(self)@
            } else {
                &&& r == Ok::<(), JobError>(())
                &&& final(self)@ == old(self)@.filtered_by(inputs@, outputs@)
            },
    {
        if outputs.len() == 0 {
            let filter = match &self.track.stages[self.at] {
                StageSpec::Filter { name, .. } => name.clone(),
                _ => String::new(),
            };
            return Err(JobError::ZeroPorts { filter });
        }
        let ghost before = self@;
        let n: usize = self.track.stages.len();
        assert(self.at < n);
        let same = inputs.len() > 0 && port_params_equal(&inputs[0].params, &outputs[0].params);
        if !same {
            self.running = port_params_to_codec_params(&outputs[0].params, &self.running);
        }
        let first: u32 = self.next_extra;
        let ghost running = self.running@;
        let mut i: usize = 1;
        assert(self.track@.extra_output_streams =~= before.track.extra_output_streams
            + extra_streams(outputs@, first as int).take(0));
        while i < outputs.len()
            invariant
                1 <= i <= outputs@.len(),
                first + outputs@.len() <= u32::MAX + 1,
                self.running@ == running,
                self.at == before.at,
                self.next_extra == first,
                self@ == (InstantiationView {
                    track: TrackView {
                        extra_output_streams: before.track.extra_output_streams + extra_streams(
                            outputs@,
                            first as int,
                        ).take(i - 1),
                        ..before.track
                    },
                    running,
                    ..before
                }),
            decreases outputs@.len() - i,
        {
            let (params, time_base) = extra_port_stream(&outputs[i].params);
            let info = StreamInfo {
                index: first + (i - 1) as u32,
                time_base,
                duration: None,
                start_time: Some(0),
                params,
            };
            let ghost prev = self.track@;
            self.track.extra_output_streams.push(info);
            proof {
                let all = extra_streams(outputs@, first as int);
                assert(all[i - 1] == info@);
                assert(self.track@.extra_output_streams =~= prev.extra_output_streams.push(info@));
                assert(prev.extra_output_streams.push(info@)
                    =~= before.track.extra_output_streams + all.take(i as int));
                assert(self.track@ =~= TrackView {
                    extra_output_streams: before.track.extra_output_streams + all.take(i as int),
                    ..before.track
                });
            }
            i += 1;
        }
        let extra: u32 = (outputs.len() - 1) as u32;
        self.next_extra = first + extra;
        self.track.extra_output_port_counts.push(extra);
        self.track.frame_stages.push(FrameStage::Filter);
        self.at = self.at + 1;
        proof {
            let all = extra_streams(outputs@, first as int);
            assert(all.take(i - 1) =~= all);
            assert(self@.track =~= before.filtered_by(inputs@, outputs@).track);
        }
        Ok(())
    }

    /// The encoder that was asked for is there, and says it makes `out`.
    pub fn encoder_ready(&mut self, out: CodecParameters)
        requires
            old(self).wf(),
            old(self)@.at_encode(),
        ensures
            final(self).wf(),
            final(self)@ == old(self)@.encoded_by(out@),
    {
        let n: usize = self.track.stages.len();
        assert(self.at < n);
        let ghost before = self@;
        let input = self.track.input_time_base;
        let clock = match out.sample_rate {
            Some(rate) => if rate > 0 {
                TimeBase { num: 1, den: rate as i64 }
            } else {
                input
            },
            None => input,
        };
        self.running = out.clone();
        self.track.encoder_time_base = Some(clock);
        self.track.encoder = Some(out);
        self.at = self.at + 1;
        assert(self@.track =~= before.encoded_by(out@).track);
    }
}

/// A track never gets a second decoder: once it has one, no stage asks for
/// another.
pub proof fn one_decoder_per_track(v: InstantiationView)
    requires
        v.track.decoder is Some,
        0 <= v.at,
    ensures
        !v.scanned().at_decode(),
        v.scanned().track.decoder == v.track.decoder,
    decreases v.track.stages.len() - v.at,
{
    if v.at < v.track.stages.len() {
        match v.track.stages[v.at] {
            StageSpec::Decode => one_decoder_per_track(InstantiationView { at: v.at + 1, ..v }),
            StageSpec::Convert { target } => one_decoder_per_track(v.converted(target)),
            _ => {},
        }
    }
}

/// The number of extra streams of a track.
pub open spec fn port_total(counts: Seq<u32>) -> int
    decreases counts.len(),
{
    if counts.len() == 0 {
        0
    } else {
        port_total(counts.drop_last()) + counts.last()
    }
}

/// The bookkeeping of extra streams agrees with itself: their number is the sum
/// of the filters' extra ports, and the next one follows the last.
pub open spec fn extras_balance(v: InstantiationView) -> bool {
    &&& v.track.extra_output_streams.len() == port_total(v.track.extra_output_port_counts)
    &&& v.next_extra == 1 + v.track.extra_output_streams.len()
}

/// Adding a filter keeps that bookkeeping.
pub proof fn filter_keeps_extras_balance(
    v: InstantiationView,
    inputs: Seq<PortSpec>,
    outputs: Seq<PortSpec>,
)
    requires
        extras_balance(v),
        0 < outputs.len() <= u32::MAX,
    ensures
        extras_balance(v.filtered_by(inputs, outputs)),
{
    let counts = v.track.extra_output_port_counts;
    let extra = (outputs.len() - 1) as u32;
    assert(counts.push(extra).drop_last() =~= counts);
}

/// What the frame stages among a track's stages are, in order.
pub open spec fn frame_kinds(stages: Seq<StageSpec>) -> Seq<FailureStage>
    decreases stages.len(),
{
    if stages.len() == 0 {
        Seq::empty()
    } else {
        let rest = frame_kinds(stages.drop_last());
        match stages.last() {
            StageSpec::Filter { .. } => rest.push(FailureStage::Filter),
            StageSpec::Convert { .. } => rest.push(FailureStage::Convert),
            _ => rest,
        }
    }
}

/// The frame stages that are built are those of the stages passed so far, one for
/// one and in order.
pub open spec fn mirrors(v: InstantiationView) -> bool {
    &&& 0 <= v.at <= v.track.stages.len()
    &&& v.track.frame_stages.map_values(|s: FrameStage| stage_kind(s)) == frame_kinds(
        v.track.stages.take(v.at),
    )
}

proof fn mirror_step(v: InstantiationView, w: InstantiationView)
    requires
        mirrors(v),
        v.at < v.track.stages.len(),
        w.at == v.at + 1,
        w.track.stages == v.track.stages,
        match v.track.stages[v.at] {
            StageSpec::Filter { .. } => w.track.frame_stages == v.track.frame_stages.push(
                FrameStage::Filter,
            ),
            StageSpec::Convert { .. } => w.track.frame_stages.len() == v.track.frame_stages.len()
                + 1 && w.track.frame_stages.drop_last() == v.track.frame_stages && (
            w.track.frame_stages.last() is PixConvert),
            _ => w.track.frame_stages == v.track.frame_stages,
        },
    ensures
        mirrors(w),
{
    let kind = |s: FrameStage| stage_kind(s);
    assert(w.track.stages.take(w.at).drop_last() =~= v.track.stages.take(v.at));
    if v.track.stages[v.at] is Filter || v.track.stages[v.at] is Convert {
        assert(w.track.frame_stages =~= v.track.frame_stages.push(w.track.frame_stages.last()));
        assert(w.track.frame_stages.map_values(kind) =~= v.track.frame_stages.map_values(kind).push(
            stage_kind(w.track.frame_stages.last()),
        ));
    }
}

/// Building a track keeps its frame stages in step with its stages, through every
/// move: passing over stages, and a decoder, filter or encoder that is ready.
pub proof fn building_keeps_stages_in_step(
    v: InstantiationView,
    decoder: DecoderView,
    inputs: Seq<PortSpec>,
    outputs: Seq<PortSpec>,
    out: ParamsView,
)
    requires
        mirrors(v),
    ensures
        mirrors(v.scanned()),
        v.at_decode() ==> mirrors(v.decoded_by(decoder)),
        v.at_filter() && outputs.len() > 0 ==> mirrors(v.filtered_by(inputs, outputs)),
        v.at_encode() ==> mirrors(v.encoded_by(out)),
    decreases v.track.stages.len() - v.at,
{
    if v.at_decode() {
        mirror_step(v, v.decoded_by(decoder));
    }
    if v.at_filter() && outputs.len() > 0 {
        mirror_step(v, v.filtered_by(inputs, outputs));
    }
    if v.at_encode() {
        mirror_step(v, v.encoded_by(out));
    }
    if v.at < v.track.stages.len() {
        match v.track.stages[v.at] {
            StageSpec::Decode => if v.track.decoder is Some {
                let w = InstantiationView { at: v.at + 1, ..v };
                mirror_step(v, w);
                building_keeps_stages_in_step(w, decoder, inputs, outputs, out);
            },
            StageSpec::Convert { target } => {
                let w = v.converted(target);
                assert(w.track.frame_stages.drop_last() =~= v.track.frame_stages);
                mirror_step(v, w);
                building_keeps_stages_in_step(w, decoder, inputs, outputs, out);
            },
            _ => {},
        }
    }
}

/// Behind a filter that changes the frames, they have the shape of its first output port,
/// whatever they had before; behind one that repeats its own input port they stay as they
/// are described. What the job says of the codec stays in either case.
pub proof fn filter_gives_the_shape(
    v: InstantiationView,
    inputs: Seq<PortSpec>,
    outputs: Seq<PortSpec>,
)
    requires
        outputs.len() > 0,
    ensures
        ({
            let port = outputs[0].params;
            let after = v.filtered_by(inputs, outputs).running;
            let changes = inputs.len() == 0 || !same_kind(inputs[0].params, port) || other_picture(
                inputs[0].params,
                port,
            ) || other_sound(inputs[0].params, port);
            &&& changes && port is Video ==> {
                &&& after.width == Some(port->Video_width)
                &&& after.height == Some(port->Video_height)
                &&& after.pixel_format == Some(port->Video_format)
                &&& after.media_type == MediaType::Video
            }
            &&& changes && port is Audio ==> {
                &&& after.sample_rate == Some(port->Audio_sample_rate)
                &&& after.channels == Some(port->Audio_channels)
                &&& after.sample_format == Some(port->Audio_format)
                &&& after.media_type == MediaType::Audio
            }
            &&& !changes ==> after == v.running
            &&& after.codec_id == v.running.codec_id
            &&& after.bit_rate == v.running.bit_rate
            &&& after.frame_rate == v.running.frame_rate
        }),
{
}

/// Ports of one kind.
pub open spec fn same_kind(a: PortParams, b: PortParams) -> bool {
    ||| a is Audio && b is Audio
    ||| a is Video && b is Video
    ||| a is Subtitle && b is Subtitle
    ||| a is Metadata && b is Metadata
}

/// An encoder is asked for what reaches it, under its own name: each of bit rate, sample
/// rate, channels, width and height is what the job sets, cut to its size, and where the
/// job sets nothing what the frames have; everything else is what the frames have.
pub proof fn encoder_is_asked_for_what_reaches_it(
    v: InstantiationView,
    request: CodecParameters,
    codec: String,
    params: String,
)
    requires
        v.at_encode(),
        v.track.stages[v.at] == (StageSpec::Encode { codec, params }),
        v.needs(BuildStep::Encoder { params: request }),
    ensures
        request.codec_id@ == codec@,
        request.media_type == v.running.media_type,
        json_u64(params@, "width"@) is None ==> request.width == v.running.width,
        json_u64(params@, "height"@) is None ==> request.height == v.running.height,
        json_u64(params@, "sample_rate"@) is None ==> request.sample_rate == v.running.sample_rate,
        json_u64(params@, "channels"@) is None ==> request.channels == v.running.channels,
        json_u64(params@, "bitrate"@) is None ==> request.bit_rate == v.running.bit_rate,
        json_u64(params@, "width"@) matches Some(n) ==> request.width is Some
            && request.width->0 == n % 0x1_0000_0000,
        json_u64(params@, "height"@) matches Some(n) ==> request.height is Some
            && request.height->0 == n % 0x1_0000_0000,
        json_u64(params@, "sample_rate"@) matches Some(n) ==> request.sample_rate is Some
            && request.sample_rate->0 == n % 0x1_0000_0000,
        json_u64(params@, "channels"@) matches Some(n) ==> request.channels is Some
            && request.channels->0 == n % 0x1_0000,
        json_u64(params@, "bitrate"@) matches Some(n) ==> request.bit_rate == Some(n),
        request.sample_format == v.running.sample_format,
        request.channel_layout == v.running.channel_layout,
        request.pixel_format == v.running.pixel_format,
        request.frame_rate == v.running.frame_rate,
        request.rest == v.running.rest,
{
}

/// What a filter makes is what the encoder right behind it is asked for, where the job
/// sets nothing else: the size and the pixel format of the filter's first output port, or
/// its sample rate, channels and sample format.
pub proof fn encoder_gets_what_the_filter_makes(
    v: InstantiationView,
    inputs: Seq<PortSpec>,
    outputs: Seq<PortSpec>,
    request: CodecParameters,
    codec: String,
    params: String,
)
    requires
        outputs.len() > 0,
        0 <= v.at && v.at + 1 < v.track.stages.len(),
        v.track.stages[v.at + 1] == (StageSpec::Encode { codec, params }),
        v.filtered_by(inputs, outputs).needs(BuildStep::Encoder { params: request }),
        inputs.len() == 0 || !same_kind(inputs[0].params, outputs[0].params) || other_picture(
            inputs[0].params,
            outputs[0].params,
        ) || other_sound(inputs[0].params, outputs[0].params),
    ensures
        ({
            let port = outputs[0].params;
            &&& port is Video && json_u64(params@, "width"@) is None ==> request.width == Some(
                port->Video_width,
            )
            &&& port is Video && json_u64(params@, "height"@) is None ==> request.height == Some(
                port->Video_height,
            )
            &&& port is Video ==> request.pixel_format == Some(port->Video_format)
            &&& port is Audio && json_u64(params@, "sample_rate"@) is None ==> request.sample_rate
                == Some(port->Audio_sample_rate)
            &&& port is Audio && json_u64(params@, "channels"@) is None ==> request.channels
                == Some(port->Audio_channels)
            &&& port is Audio ==> request.sample_format == Some(port->Audio_format)
            &&& request.codec_id@ == codec@
        }),
{
    filter_gives_the_shape(v, inputs, outputs);
    let w = v.filtered_by(inputs, outputs);
    assert(w.track.stages == v.track.stages);
    encoder_is_asked_for_what_reaches_it(w, request, codec, params);
}

/// A conversion is built for the frames that reach it, of their size and from their pixel
/// format, to its target; behind it, frames have the target's format and are otherwise
/// as they were.
pub proof fn conversion_fits_the_frames(v: InstantiationView, target: oxideav_core::PixelFormat)
    ensures
        ({
            let w = v.converted(target);
            let stage = w.track.frame_stages.last();
            &&& w.track.frame_stages.len() == v.track.frame_stages.len() + 1
            &&& w.track.frame_stages.drop_last() =~= v.track.frame_stages
            &&& stage is PixConvert
            &&& stage->target == target
            &&& v.running.width is Some ==> Some(stage->width) == v.running.width
            &&& v.running.height is Some ==> Some(stage->height) == v.running.height
            &&& v.running.pixel_format is Some ==> Some(stage->from) == v.running.pixel_format
            &&& v.running.pixel_format is None ==> stage->from == target
            &&& w.running.pixel_format == Some(target)
            &&& w.running.width == v.running.width
            &&& w.running.height == v.running.height
            &&& w.running.media_type == v.running.media_type
            &&& w.running.sample_rate == v.running.sample_rate
            &&& w.running.channels == v.running.channels
            &&& w.running.codec_id == v.running.codec_id
            &&& w.at == v.at + 1
        }),
{
}

/// A decoder is asked for what the source says of the track, and a decode stage changes
/// nothing of what is known of the frames.
pub proof fn decoder_is_asked_for_the_source(
    v: InstantiationView,
    request: CodecParameters,
    decoder: DecoderView,
)
    requires
        v.at_decode(),
        v.needs(BuildStep::Decoder { params: request }),
    ensures
        request.codec_id@ == v.track.input_params.codec_id,
        request.media_type == v.track.input_params.media_type,
        request.sample_rate == v.track.input_params.sample_rate,
        request.channels == v.track.input_params.channels,
        request.width == v.track.input_params.width,
        request.height == v.track.input_params.height,
        request.pixel_format == v.track.input_params.pixel_format,
        request.rest == v.track.input_params.rest,
        v.decoded_by(decoder).running == v.running,
        v.decoded_by(decoder).track.decoder == Some(decoder),
        v.decoded_by(decoder).at == v.at + 1,
{
}

/// A filter is asked for by its name and parameters, for frames as they are at its place,
/// on the source's clock.
pub proof fn filter_is_asked_for_what_reaches_it(
    v: InstantiationView,
    asked: String,
    settings: String,
    input: PortSpec,
)
    requires
        v.at_filter(),
        v.needs(BuildStep::Filter { name: asked, params: settings, input }),
    ensures
        v.track.stages[v.at] == (StageSpec::Filter { name: asked, params: settings }),
        v.running.media_type == MediaType::Audio && v.running.sample_rate is Some
            ==> input.params is Audio && Some(input.params->Audio_sample_rate)
            == v.running.sample_rate,
        v.running.media_type == MediaType::Audio && v.running.channels is Some
            ==> input.params is Audio && Some(input.params->Audio_channels) == v.running.channels,
        v.running.media_type == MediaType::Video && v.running.width is Some ==> input.params
            is Video && Some(input.params->Video_width) == v.running.width,
        v.running.media_type == MediaType::Video && v.running.height is Some ==> input.params
            is Video && Some(input.params->Video_height) == v.running.height,
        v.running.media_type == MediaType::Video && v.running.pixel_format is Some
            ==> input.params is Video && Some(input.params->Video_format)
            == v.running.pixel_format,
        v.running.media_type == MediaType::Video ==> input.params->Video_time_base
            == v.track.input_time_base,
{
}

/// Every extra output port of a filter becomes a stream of its own, with the port's shape
/// and clock, numbered on from the last one, from time zero.
pub proof fn extra_ports_become_streams(
    v: InstantiationView,
    inputs: Seq<PortSpec>,
    outputs: Seq<PortSpec>,
    i: int,
)
    requires
        1 <= i < outputs.len(),
        0 <= v.next_extra && v.next_extra + outputs.len() <= u32::MAX + 1,
    ensures
        ({
            let all = v.filtered_by(inputs, outputs).track.extra_output_streams;
            let s = all[v.track.extra_output_streams.len() + i - 1];
            let port = outputs[i].params;
            &&& all.len() == v.track.extra_output_streams.len() + outputs.len() - 1
            &&& all.take(v.track.extra_output_streams.len() as int)
                =~= v.track.extra_output_streams
            &&& s.index == v.next_extra + i - 1
            &&& s.start_time == Some(0i64)
            &&& s.duration is None
            &&& port is Video ==> s.params.width == Some(port->Video_width) && s.params.height
                == Some(port->Video_height) && s.params.pixel_format == Some(port->Video_format)
                && s.time_base == port->Video_time_base
            &&& port is Audio ==> s.params.sample_rate == Some(port->Audio_sample_rate)
                && s.params.channels == Some(port->Audio_channels) && s.params.sample_format
                == Some(port->Audio_format) && s.time_base.num == 1
        }),
{
    extra_stream_has_the_ports_shape(outputs[i].params);
}

/// An encoder's stream ticks once per sample where the encoder says a sample rate, else as
/// its source does; what the encoder says is what the track's stream is.
pub proof fn encoder_sets_the_stream(v: InstantiationView, out: ParamsView)
    ensures
        ({
            let w = v.encoded_by(out);
            &&& w.track.encoder == Some(out)
            &&& w.running == out
            &&& w.at == v.at + 1
            &&& w.track.encoder_time_base is Some
            &&& out.sample_rate matches Some(rate) ==> (rate > 0 ==> {
                &&& w.track.encoder_time_base->0.num == 1
                &&& w.track.encoder_time_base->0.den == rate
            })
            &&& out.sample_rate is None || out.sample_rate == Some(0u32)
                ==> w.track.encoder_time_base->0 == v.track.input_time_base
        }),
{
}

} // verus!
