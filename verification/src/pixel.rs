//! Conversions that are put in front of encoders that need them.

use crate::dag::StageSpec;
use crate::media::{pixel_code, same_pixel_format};
use crate::track::{TrackRuntime, TrackView};
use vstd::prelude::*;

verus! {

/// The pixel formats that a codec's encoder takes; none where it does not say.
pub struct CodecFormats {
    pub codec: String,
    pub formats: Vec<oxideav_core::PixelFormat>,
}

/// The first list that names a format; the number of lists where none does.
pub open spec fn first_named(offers: Seq<Vec<oxideav_core::PixelFormat>>, from: int) -> int
    decreases offers.len() - from,
{
    if from < 0 || from >= offers.len() {
        offers.len() as int
    } else if offers[from]@.len() > 0 {
        from
    } else {
        first_named(offers, from + 1)
    }
}

/// Which of the lists that the encoders of a codec declare, in the order they are
/// registered, stands for the codec: the first that names a format.
pub fn codec_accepted_pixel_formats(offers: &Vec<Vec<oxideav_core::PixelFormat>>) -> (r: Option<
    usize,
>)
    ensures
        r == (if first_named(offers@, 0) < offers@.len() {
            Some(first_named(offers@, 0) as usize)
        } else {
            None
        }),
        r matches Some(i) ==> i < offers@.len() && offers@[i as int]@.len() > 0,
{
    let mut i: usize = 0;
    while i < offers.len()
        invariant
            i <= offers@.len(),
            first_named(offers@, 0) == first_named(offers@, i as int),
        decreases offers@.len() - i,
    {
        if offers[i].len() > 0 {
            return Some(i);
        }
        i += 1;
    }
    None
}

/// The formats that are declared for a codec.
pub open spec fn declared(table: Seq<CodecFormats>, codec: Seq<char>) -> Seq<
    oxideav_core::PixelFormat,
>
    decreases table.len(),
{
    if table.len() == 0 {
        Seq::empty()
    } else if table.last().codec@ == codec {
        table.last().formats@
    } else {
        declared(table.drop_last(), codec)
    }
}

fn find_declared(table: &Vec<CodecFormats>, codec: &String) -> (r: Option<usize>)
    ensures
        match r {
            Some(i) => i < table@.len() && declared(table@, codec@) == table@[i as int].formats@,
            None => declared(table@, codec@).len() == 0,
        },
{
    let mut i: usize = table.len();
    assert(table@.take(i as int) =~= table@);
    while i > 0
        invariant
            i <= table.len(),
            declared(table@, codec@) == declared(table@.take(i as int), codec@),
        decreases i,
    {
        assert(table@.take(i as int).drop_last() =~= table@.take(i - 1));
        if table[i - 1].codec == *codec {
            return Some(i - 1);
        }
        i -= 1;
    }
    None
}

/// A format is one of those in a list.
pub open spec fn accepts(
    formats: Seq<oxideav_core::PixelFormat>,
    format: oxideav_core::PixelFormat,
) -> bool {
    exists|i: int|
        0 <= i < formats.len() && pixel_code(#[trigger] formats[i]) == pixel_code(format)
}

fn is_accepted(
    formats: &Vec<oxideav_core::PixelFormat>,
    format: oxideav_core::PixelFormat,
) -> (r: bool)
    ensures
        r == accepts(formats@, format),
{
    let mut i: usize = 0;
    while i < formats.len()
        invariant
            i <= formats.len(),
            forall|j: int|
                0 <= j < i ==> pixel_code(#[trigger] formats@[j]) != pixel_code(format),
        decreases formats.len() - i,
    {
        if same_pixel_format(formats[i], format) {
            assert(pixel_code(formats@[i as int]) == pixel_code(format));
            return true;
        }
        i += 1;
    }
    false
}

/// The pixel format of the frames that leave a list of stages: a conversion's
/// target after a conversion, the source's before any and after a decode.
pub open spec fn format_after(
    stages: Seq<StageSpec>,
    source: oxideav_core::PixelFormat,
) -> oxideav_core::PixelFormat
    decreases stages.len(),
{
    if stages.len() == 0 {
        source
    } else {
        match stages.last() {
            StageSpec::Decode => source,
            StageSpec::Convert { target } => target,
            _ => format_after(stages.drop_last(), source),
        }
    }
}

/// The conversion that has to precede an encoder fed with `current`.
pub open spec fn conversion_for(
    table: Seq<CodecFormats>,
    codec: Seq<char>,
    current: oxideav_core::PixelFormat,
) -> Option<oxideav_core::PixelFormat> {
    let formats = declared(table, codec);
    if formats.len() > 0 && !accepts(formats, current) {
        Some(formats[0])
    } else {
        None
    }
}

/// The stages with a conversion in front of each encoder that needs one.
pub open spec fn inserted(
    table: Seq<CodecFormats>,
    stages: Seq<StageSpec>,
    source: oxideav_core::PixelFormat,
) -> Seq<StageSpec>
    decreases stages.len(),
{
    if stages.len() == 0 {
        Seq::empty()
    } else {
        let rest = inserted(table, stages.drop_last(), source);
        match stages.last() {
            StageSpec::Encode { codec, .. } => match conversion_for(
                table,
                codec@,
                format_after(rest, source),
            ) {
                Some(target) => rest.push(StageSpec::Convert { target }).push(stages.last()),
                None => rest.push(stages.last()),
            },
            _ => rest.push(stages.last()),
        }
    }
}

/// A track with the conversions it needs; one without a known source format
/// stays as it is.
pub open spec fn with_conversions(table: Seq<CodecFormats>, track: TrackView) -> TrackView {
    match track.input_params.pixel_format {
        Some(source) => TrackView { stages: inserted(table, track.stages, source), ..track },
        None => track,
    }
}

/// Puts a conversion in front of each encoder of the track that would otherwise
/// be fed a pixel format it does not take.
pub fn apply_pixel_format_auto_insert(track: &mut TrackRuntime, table: &Vec<CodecFormats>)
    ensures
        final(track)@ == with_conversions(table@, old(track)@),
{
    let source = match track.input_params.pixel_format {
        Some(f) => f,
        None => {
            return ;
        },
    };
    let mut out: Vec<StageSpec> = Vec::new();
    let mut running = source;
    let mut i: usize = 0;
    let ghost stages = track.stages@;
    assert(out@ =~= inserted(table@, stages.take(0), source));
    while i < track.stages.len()
        invariant
            i <= track.stages.len(),
            track@ == old(track)@,
            track.stages@ == stages,
            out@ == inserted(table@, stages.take(i as int), source),
            running == format_after(out@, source),
        decreases track.stages.len() - i,
    {
        proof {
            assert(stages.take(i + 1).drop_last() =~= stages.take(i as int));
        }
        let ghost before = out@;
        match &track.stages[i] {
            StageSpec::Encode { codec, .. } => {
                if let Some(at) = find_declared(table, codec) {
                    let formats = &table[at].formats;
                    if formats.len() > 0 && !is_accepted(formats, running) {
                        let target = formats[0];
                        out.push(StageSpec::Convert { target });
                        assert(out@.drop_last() =~= before);
                        running = target;
                    }
                }
            },
            StageSpec::Decode => {
                running = source;
            },
            StageSpec::Convert { target } => {
                running = *target;
            },
            StageSpec::Filter { .. } => {},
        }
        let ghost middle = out@;
        let stage = track.stages[i].clone();
        out.push(stage);
        assert(out@.drop_last() =~= middle);
        assert(!(stage is Decode || stage is Convert) ==> format_after(middle, source) == running);
        i += 1;
    }
    assert(stages.take(i as int) =~= stages);
    track.stages = out;
}

/// Every encoder whose codec declares formats is fed one that it takes.
pub proof fn encoders_are_fed_what_they_take(
    table: Seq<CodecFormats>,
    stages: Seq<StageSpec>,
    source: oxideav_core::PixelFormat,
    i: int,
)
    requires
        0 <= i < inserted(table, stages, source).len(),
    ensures
        ({
            let out = inserted(table, stages, source);
            out[i] matches StageSpec::Encode { codec, .. } ==> declared(table, codec@).len() > 0
                ==> accepts(declared(table, codec@), format_after(out.take(i), source))
        }),
    decreases stages.len(),
{
    let out = inserted(table, stages, source);
    let rest = inserted(table, stages.drop_last(), source);
    if i < rest.len() {
        encoders_are_fed_what_they_take(table, stages.drop_last(), source, i);
        assert(out.take(i) =~= rest.take(i));
        assert(out[i] == rest[i]);
    } else {
        match stages.last() {
            StageSpec::Encode { codec, .. } => {
                match conversion_for(table, codec@, format_after(rest, source)) {
                    Some(target) => {
                        if i == rest.len() + 1 {
                            assert(out.take(i) =~= rest.push(StageSpec::Convert { target }));
                            let formats = declared(table, codec@);
                            assert(pixel_code(formats[0]) == pixel_code(target));
                        }
                    },
                    None => {
                        assert(out.take(i) =~= rest);
                    },
                }
            },
            _ => {},
        }
    }
}

/// Inserting twice inserts nothing more.
pub proof fn insertion_is_idempotent(
    table: Seq<CodecFormats>,
    stages: Seq<StageSpec>,
    source: oxideav_core::PixelFormat,
)
    ensures
        inserted(table, inserted(table, stages, source), source) == inserted(table, stages, source),
    decreases stages.len(),
{
    if stages.len() > 0 {
        let rest = inserted(table, stages.drop_last(), source);
        let last = stages.last();
        insertion_is_idempotent(table, stages.drop_last(), source);
        assert(rest.push(last).drop_last() =~= rest);
        match last {
            StageSpec::Encode { codec, .. } => {
                match conversion_for(table, codec@, format_after(rest, source)) {
                    Some(target) => {
                        let mid = rest.push(StageSpec::Convert { target });
                        assert(mid.drop_last() =~= rest);
                        assert(mid.push(last).drop_last() =~= mid);
                        assert(inserted(table, mid, source) == mid);
                        let formats = declared(table, codec@);
                        assert(pixel_code(formats[0]) == pixel_code(target));
                        assert(accepts(formats, target));
                    },
                    None => {},
                }
            },
            _ => {},
        }
    }
}

/// Where the `i`th stage has gone.
pub open spec fn place_of(
    table: Seq<CodecFormats>,
    stages: Seq<StageSpec>,
    source: oxideav_core::PixelFormat,
    i: int,
) -> int {
    inserted(table, stages.take(i + 1), source).len() - 1
}

proof fn insertion_grows(
    table: Seq<CodecFormats>,
    stages: Seq<StageSpec>,
    source: oxideav_core::PixelFormat,
    n: int,
)
    requires
        0 <= n <= stages.len(),
    ensures
        ({
            let part = inserted(table, stages.take(n), source);
            let out = inserted(table, stages, source);
            part.len() <= out.len() && part =~= out.take(part.len() as int)
        }),
    decreases stages.len() - n,
{
    if n == stages.len() {
        assert(stages.take(n) =~= stages);
    } else {
        insertion_grows(table, stages, source, n + 1);
        assert(stages.take(n + 1).drop_last() =~= stages.take(n));
    }
}

/// Every stage stays, and in its order. Between a stage and the one before it, or
/// the beginning, stands nothing new, unless it is an encoder that would be fed a
/// format it does not take: then one conversion, to the first format that its
/// codec declares.
pub proof fn stages_stay_in_order(
    table: Seq<CodecFormats>,
    stages: Seq<StageSpec>,
    source: oxideav_core::PixelFormat,
    i: int,
)
    requires
        0 <= i < stages.len(),
    ensures
        ({
            let out = inserted(table, stages, source);
            let at = place_of(table, stages, source, i);
            let next = if i == 0 {
                0int
            } else {
                place_of(table, stages, source, i - 1) + 1
            };
            let fed = format_after(out.take(next), source);
            let conversion = match stages[i] {
                StageSpec::Encode { codec, .. } => conversion_for(table, codec@, fed),
                _ => None,
            };
            &&& 0 <= at < out.len()
            &&& out[at] == stages[i]
            &&& match conversion {
                Some(target) => at == next + 1 && out[next] == (StageSpec::Convert { target }),
                None => at == next,
            }
            &&& i + 1 == stages.len() ==> at + 1 == out.len()
        }),
{
    let rest = inserted(table, stages.take(i), source);
    let part = inserted(table, stages.take(i + 1), source);
    let out = inserted(table, stages, source);
    insertion_grows(table, stages, source, i);
    insertion_grows(table, stages, source, i + 1);
    assert(stages.take(i + 1).drop_last() =~= stages.take(i));
    assert(stages.take(i + 1).last() == stages[i]);
    if i == 0 {
        assert(rest =~= Seq::empty());
    }
    assert(out.take(rest.len() as int) =~= rest);
    assert(part == out.take(part.len() as int));
    let at = part.len() - 1;
    assert(out[at] == part[at]);
    if part.len() == rest.len() + 2 {
        assert(out[at - 1] == part[at - 1]);
    }
    if i + 1 == stages.len() {
        assert(stages.take(i + 1) =~= stages);
    }
}

/// A conversion is put in front of an encoder exactly where its codec names formats and
/// the frames have none of them, and goes to the first that it names.
pub proof fn conversion_goes_to_the_first_named(
    table: Seq<CodecFormats>,
    k: int,
    current: oxideav_core::PixelFormat,
)
    requires
        0 <= k < table.len(),
        forall|j: int| 0 <= j < table.len() && j != k ==> (#[trigger] table[j]).codec@
            != table[k].codec@,
    ensures
        ({
            let formats = table[k].formats@;
            let c = conversion_for(table, table[k].codec@, current);
            let taken = exists|i: int|
                0 <= i < formats.len() && pixel_code(#[trigger] formats[i]) == pixel_code(current);
            &&& c is Some <==> formats.len() > 0 && !taken
            &&& c is Some ==> c->0 == formats[0]
        }),
{
    declared_by_one(table, k);
}

proof fn declared_by_one(table: Seq<CodecFormats>, k: int)
    requires
        0 <= k < table.len(),
        forall|j: int| 0 <= j < table.len() && j != k ==> (#[trigger] table[j]).codec@
            != table[k].codec@,
    ensures
        declared(table, table[k].codec@) == table[k].formats@,
    decreases table.len(),
{
    if k < table.len() - 1 {
        assert(table[table.len() - 1].codec@ != table[k].codec@);
        let fewer = table.drop_last();
        assert forall|j: int| 0 <= j < fewer.len() && j != k implies (#[trigger] fewer[j]).codec@
            != fewer[k].codec@ by {
            assert(table[j].codec@ != table[k].codec@);
        }
        declared_by_one(fewer, k);
    }
}

/// An encoder whose codec names no formats is fed whatever comes.
pub proof fn unnamed_codec_takes_anything(
    table: Seq<CodecFormats>,
    codec: Seq<char>,
    current: oxideav_core::PixelFormat,
)
    requires
        forall|j: int| 0 <= j < table.len() ==> (#[trigger] table[j]).codec@ != codec,
    ensures
        conversion_for(table, codec, current) is None,
    decreases table.len(),
{
    if table.len() > 0 {
        assert(table[table.len() - 1].codec@ != codec);
        let fewer = table.drop_last();
        assert forall|j: int| 0 <= j < fewer.len() implies (#[trigger] fewer[j]).codec@ != codec by {
            assert(table[j].codec@ != codec);
        }
        unnamed_codec_takes_anything(fewer, codec, current);
    }
}

/// Frames have the source's format until a conversion, the conversion's target behind it,
/// through filters and encoders, and the source's again behind a decode.
pub proof fn format_runs_through_the_stages(
    stages: Seq<StageSpec>,
    more: StageSpec,
    source: oxideav_core::PixelFormat,
)
    ensures
        format_after(Seq::empty(), source) == source,
        more is Convert ==> format_after(stages.push(more), source) == more->Convert_target,
        more is Decode ==> format_after(stages.push(more), source) == source,
        more is Filter || more is Encode ==> format_after(stages.push(more), source)
            == format_after(stages, source),
{
    assert(stages.push(more).drop_last() =~= stages);
}

/// Where the source's format is known, a track gets the conversions that its encoders
/// need and keeps everything else; where it is not known it stays as it is.
pub proof fn only_stages_are_added(table: Seq<CodecFormats>, track: TrackView)
    ensures
        ({
            let t = with_conversions(table, track);
            &&& track.input_params.pixel_format is None ==> t == track
            &&& track.input_params.pixel_format is Some ==> t.stages == inserted(
                table,
                track.stages,
                track.input_params.pixel_format->0,
            )
            &&& t.source_uri == track.source_uri
            &&& t.source_stream == track.source_stream
            &&& t.kind == track.kind
            &&& t.copy == track.copy
            &&& t.input_params == track.input_params
            &&& t.input_time_base == track.input_time_base
            &&& t.input_duration == track.input_duration
            &&& t.input_start_time == track.input_start_time
        }),
{
}

/// The formats of a codec are those of the first of its encoders that names any: it does,
/// and none before it does.
pub proof fn first_named_is_first(offers: Seq<Vec<oxideav_core::PixelFormat>>, from: int)
    requires
        0 <= from <= offers.len(),
    ensures
        from <= first_named(offers, from) <= offers.len(),
        first_named(offers, from) < offers.len() ==> offers[first_named(offers, from)]@.len() > 0,
        forall|j: int|
            from <= j < first_named(offers, from) ==> (#[trigger] offers[j])@.len() == 0,
    decreases offers.len() - from,
{
    if from < offers.len() && offers[from]@.len() == 0 {
        first_named_is_first(offers, from + 1);
    }
}

} // verus!
