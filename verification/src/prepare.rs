//! From the graph of an output to the tracks that are to be instantiated.

use crate::dag::{chain_of, Dag, DagNode, MuxTrack, NodeId, StageSpec};
use crate::error::JobError;
use crate::pixel::{
    accepts, apply_pixel_format_auto_insert, declared, encoders_are_fed_what_they_take,
    format_after, inserted, with_conversions, CodecFormats,
};
use crate::track::{
    build_track_runtime, expand_all_tracks_pump, expanded, find_source, resolve_input, source_at,
    track_of, track_views, uninstantiated, with_selected_input, SourceStreams, TrackRuntime,
    TrackView,
};
use vstd::prelude::*;

verus! {

/// The tracks of a mux, one per input; the first input that has none decides.
pub open spec fn built(nodes: Seq<DagNode>, inputs: Seq<MuxTrack>) -> Result<
    Seq<TrackView>,
    JobError,
>
    decreases inputs.len(),
{
    if inputs.len() == 0 {
        Ok(Seq::empty())
    } else {
        match built(nodes, inputs.drop_last()) {
            Err(e) => Err(e),
            Ok(done) => match track_of(
                chain_of(nodes, inputs.last().upstream as int),
                inputs.last(),
            ) {
                Ok(t) => Ok(done.push(t)),
                Err(e) => Err(e),
            },
        }
    }
}

/// A track with its source stream selected from the opened sources.
pub open spec fn connected_one(
    track: TrackView,
    sources: Seq<SourceStreams>,
    known: Option<String>,
) -> Result<TrackView, JobError> {
    let at = source_at(sources, track.source_uri@, 0);
    if 0 <= at < sources.len() {
        with_selected_input(track, sources[at].streams@)
    } else {
        Err(JobError::SourceNotOpened { uri: track.source_uri, known })
    }
}

/// Every track with its source stream selected; the first that has none decides.
pub open spec fn connected(
    tracks: Seq<TrackView>,
    sources: Seq<SourceStreams>,
    known: Option<String>,
) -> Result<Seq<TrackView>, JobError>
    decreases tracks.len(),
{
    if tracks.len() == 0 {
        Ok(Seq::empty())
    } else {
        match connected(tracks.drop_last(), sources, known) {
            Err(e) => Err(e),
            Ok(done) => match connected_one(tracks.last(), sources, known) {
                Ok(t) => Ok(done.push(t)),
                Err(e) => Err(e),
            },
        }
    }
}

/// The tracks of an output: built from the graph, expanded over the streams of
/// their sources, connected to one stream each, and given the conversions that
/// their encoders need.
pub open spec fn prepared(
    nodes: Seq<DagNode>,
    output: String,
    root: int,
    sources: Seq<SourceStreams>,
    known: Option<String>,
    table: Seq<CodecFormats>,
) -> Result<Seq<TrackView>, JobError> {
    match nodes[root] {
        DagNode::Mux { tracks, .. } => match built(nodes, tracks@) {
            Ok(list) => match connected(expanded(list, sources), sources, known) {
                Ok(list) => Ok(list.map_values(|t: TrackView| with_conversions(table, t))),
                Err(e) => Err(e),
            },
            Err(e) => Err(e),
        },
        other => Err(JobError::NotAMux { output, found: other }),
    }
}

pub open spec fn tracks_result(r: Result<Vec<TrackRuntime>, JobError>) -> Result<
    Seq<TrackView>,
    JobError,
> {
    match r {
        Ok(list) => Ok(track_views(list@)),
        Err(e) => Err(e),
    }
}

fn build_tracks(dag: &Dag, inputs: &Vec<MuxTrack>) -> (r: Result<Vec<TrackRuntime>, JobError>)
    requires
        dag.wf(),
        forall|i: int|
            0 <= i < inputs@.len() ==> (#[trigger] inputs@[i]).upstream < dag.nodes@.len(),
    ensures
        tracks_result(r) == built(dag.nodes@, inputs@),
        r matches Ok(list) ==> forall|i: int|
            0 <= i < list@.len() ==> uninstantiated(#[trigger] list@[i]@),
{
    let mut out: Vec<TrackRuntime> = Vec::new();
    let mut i: usize = 0;
    assert(track_views(out@) =~= Seq::empty());
    assert(inputs@.take(0) =~= Seq::empty());
    while i < inputs.len()
        invariant
            i <= inputs.len(),
            dag.wf(),
            forall|j: int|
                0 <= j < inputs@.len() ==> (#[trigger] inputs@[j]).upstream < dag.nodes@.len(),
            built(dag.nodes@, inputs@.take(i as int)) == Ok::<Seq<TrackView>, JobError>(
                track_views(out@),
            ),
            forall|j: int| 0 <= j < out@.len() ==> uninstantiated(#[trigger] out@[j]@),
        decreases inputs.len() - i,
    {
        proof {
            assert(inputs@.take(i + 1).drop_last() =~= inputs@.take(i as int));
        }
        match build_track_runtime(dag, &inputs[i]) {
            Ok(t) => {
                let ghost before = track_views(out@);
                out.push(t);
                assert(track_views(out@) =~= before.push(t@));
            },
            Err(e) => {
                proof {
                    built_error_stays(dag.nodes@, inputs@, i + 1, e);
                }
                return Err(e);
            },
        }
        i += 1;
    }
    assert(inputs@.take(i as int) =~= inputs@);
    Ok(out)
}

proof fn built_error_stays(nodes: Seq<DagNode>, inputs: Seq<MuxTrack>, n: int, e: JobError)
    requires
        0 <= n <= inputs.len(),
        built(nodes, inputs.take(n)) == Err::<Seq<TrackView>, JobError>(e),
    ensures
        built(nodes, inputs) == Err::<Seq<TrackView>, JobError>(e),
    decreases inputs.len() - n,
{
    if n < inputs.len() {
        assert(inputs.take(n + 1).drop_last() =~= inputs.take(n));
        built_error_stays(nodes, inputs, n + 1, e);
    } else {
        assert(inputs.take(n) =~= inputs);
    }
}

proof fn connected_error_stays(
    tracks: Seq<TrackView>,
    sources: Seq<SourceStreams>,
    known: Option<String>,
    n: int,
    e: JobError,
)
    requires
        0 <= n <= tracks.len(),
        connected(tracks.take(n), sources, known) == Err::<Seq<TrackView>, JobError>(e),
    ensures
        connected(tracks, sources, known) == Err::<Seq<TrackView>, JobError>(e),
    decreases tracks.len() - n,
{
    if n < tracks.len() {
        assert(tracks.take(n + 1).drop_last() =~= tracks.take(n));
        connected_error_stays(tracks, sources, known, n + 1, e);
    } else {
        assert(tracks.take(n) =~= tracks);
    }
}

fn connect_tracks(
    tracks: Vec<TrackRuntime>,
    sources: &Vec<SourceStreams>,
    known: Option<String>,
) -> (r: Result<Vec<TrackRuntime>, JobError>)
    ensures
        tracks_result(r) == connected(track_views(tracks@), sources@, known),
{
    let mut list = tracks;
    let ghost all = track_views(tracks@);
    let mut i: usize = 0;
    assert(all.take(0) =~= Seq::empty());
    assert(track_views(list@).take(0) =~= Seq::empty());
    while i < list.len()
        invariant
            i <= list@.len(),
            all == track_views(tracks@),
            list@.len() == all.len(),
            forall|j: int| i <= j < list@.len() ==> (#[trigger] list@[j])@ == all[j],
            connected(all.take(i as int), sources@, known) == Ok::<Seq<TrackView>, JobError>(
                track_views(list@).take(i as int),
            ),
        decreases list@.len() - i,
    {
        proof {
            assert(all.take(i + 1).drop_last() =~= all.take(i as int));
        }
        let ghost before = list@;
        let mut track = list.remove(i);
        let ghost t = track@;
        assert(t == all[i as int]);
        match find_source(sources, &track.source_uri) {
            Some(at) => {
                match resolve_input(&mut track, &sources[at].streams) {
                    Ok(_) => {},
                    Err(e) => {
                        proof {
                            connected_error_stays(all, sources@, known, i + 1, e);
                        }
                        return Err(e);
                    },
                }
            },
            None => {
                let e = JobError::SourceNotOpened { uri: track.source_uri.clone(), known };
                proof {
                    connected_error_stays(all, sources@, known, i + 1, e);
                }
                return Err(e);
            },
        }
        let ghost connected_track = track@;
        list.insert(i, track);
        proof {
            assert(list@ =~= before.update(i as int, track));
            assert(track_views(list@).take(i + 1) =~= track_views(before).take(i as int).push(
                connected_track,
            ));
        }
        i += 1;
    }
    assert(all.take(i as int) =~= all);
    assert(track_views(list@).take(i as int) =~= track_views(list@));
    Ok(list)
}

fn convert_tracks(tracks: Vec<TrackRuntime>, table: &Vec<CodecFormats>) -> (r: Vec<TrackRuntime>)
    ensures
        track_views(r@) == track_views(tracks@).map_values(
            |t: TrackView| with_conversions(table@, t),
        ),
{
    let mut list = tracks;
    let ghost all = track_views(tracks@);
    let mut i: usize = 0;
    while i < list.len()
        invariant
            i <= list@.len(),
            list@.len() == all.len(),
            forall|j: int| i <= j < list@.len() ==> (#[trigger] list@[j])@ == all[j],
            forall|j: int|
                0 <= j < i ==> (#[trigger] list@[j])@ == with_conversions(table@, all[j]),
        decreases list@.len() - i,
    {
        let ghost before = list@;
        let mut track = list.remove(i);
        apply_pixel_format_auto_insert(&mut track, table);
        list.insert(i, track);
        assert(list@ =~= before.update(i as int, track));
        i += 1;
    }
    assert(track_views(list@) =~= all.map_values(|t: TrackView| with_conversions(table@, t)));
    list
}

/// Prepares the tracks of the output that ends in node `root`. `known`, where it
/// is given, lists the opened sources for the message about a missing one.
pub fn prepare_tracks(
    dag: &Dag,
    output: &String,
    root: NodeId,
    sources: &Vec<SourceStreams>,
    known: Option<String>,
    table: &Vec<CodecFormats>,
) -> (r: Result<Vec<TrackRuntime>, JobError>)
    requires
        dag.wf(),
        root < dag.nodes@.len(),
        forall|i: int|
            0 <= i < sources@.len() ==> (#[trigger] sources@[i]).streams@.len() <= u32::MAX,
    ensures
        tracks_result(r) == prepared(
            dag.nodes@,
            *output,
            root as int,
            sources@,
            known,
            table@,
        ),
{
    let inputs = match dag.mux_tracks(output, root) {
        Ok(inputs) => inputs,
        Err(e) => {
            return Err(e);
        },
    };
    assert(dag.nodes@[root as int].reads_below(root as int));
    let list = match build_tracks(dag, inputs) {
        Ok(list) => list,
        Err(e) => {
            return Err(e);
        },
    };
    let list = expand_all_tracks_pump(list, sources);
    match connect_tracks(list, sources, known) {
        Ok(list) => Ok(convert_tracks(list, table)),
        Err(e) => Err(e),
    }
}

/// A track of the output reads from a source.
pub open spec fn is_used(tracks: Seq<TrackView>, uri: Seq<char>) -> bool {
    exists|i: int| 0 <= i < tracks.len() && (#[trigger] tracks[i]).source_uri@ == uri
}

/// Says of each source whether a track of this output reads from it. The others
/// belong to other outputs and are not read.
pub fn used_sources(tracks: &Vec<TrackRuntime>, sources: &Vec<SourceStreams>) -> (r: Vec<bool>)
    ensures
        r@.len() == sources@.len(),
        forall|i: int|
            0 <= i < sources@.len() ==> #[trigger] r@[i] == is_used(
                track_views(tracks@),
                sources@[i].uri@,
            ),
{
    let mut r: Vec<bool> = Vec::new();
    let mut i: usize = 0;
    while i < sources.len()
        invariant
            i <= sources.len(),
            r@.len() == i,
            forall|j: int|
                0 <= j < i ==> #[trigger] r@[j] == is_used(
                    track_views(tracks@),
                    sources@[j].uri@,
                ),
        decreases sources.len() - i,
    {
        let mut found = false;
        let mut k: usize = 0;
        while k < tracks.len() && !found
            invariant
                k <= tracks.len(),
                i < sources.len(),
                found ==> is_used(track_views(tracks@), sources@[i as int].uri@),
                !found ==> forall|j: int|
                    0 <= j < k ==> (#[trigger] tracks@[j]).source_uri@ != sources@[i as int].uri@,
            decreases tracks.len() - k,
        {
            if tracks[k].source_uri == sources[i].uri {
                assert(track_views(tracks@)[k as int].source_uri@ == sources@[i as int].uri@);
                found = true;
            }
            k += 1;
        }
        proof {
            if !found && is_used(track_views(tracks@), sources@[i as int].uri@) {
                let j = choose|j: int|
                    0 <= j < track_views(tracks@).len() && (
                    #[trigger] track_views(tracks@)[j]).source_uri@ == sources@[i as int].uri@;
                assert(tracks@[j].source_uri@ == sources@[i as int].uri@);
            }
        }
        r.push(found);
        i += 1;
    }
    r
}

/// Every track of a prepared output reads from an opened source, at a stream
/// which that source has.
pub proof fn prepared_tracks_are_connected(
    tracks: Seq<TrackView>,
    sources: Seq<SourceStreams>,
    known: Option<String>,
    i: int,
)
    requires
        connected(tracks, sources, known) is Ok,
        0 <= i < tracks.len(),
    ensures
        connected(tracks, sources, known)->Ok_0.len() == tracks.len(),
        ({
            let t = connected(tracks, sources, known)->Ok_0[i];
            let at = source_at(sources, t.source_uri@, 0);
            &&& 0 <= at < sources.len()
            &&& t.source_uri == tracks[i].source_uri
            &&& exists|k: int|
                0 <= k < sources[at].streams@.len() && (
                #[trigger] sources[at].streams@[k]).index == t.source_stream
                    && sources[at].streams@[k]@.params == t.input_params
        }),
    decreases tracks.len(),
{
    let n = tracks.len() - 1;
    if n > 0 {
        prepared_tracks_are_connected(
            tracks.drop_last(),
            sources,
            known,
            if i < n {
                i
            } else {
                0
            },
        );
    } else {
        assert(connected(tracks.drop_last(), sources, known) == Ok::<Seq<TrackView>, JobError>(
            Seq::empty(),
        ));
    }
    if i == n {
        let at = source_at(sources, tracks[i].source_uri@, 0);
        let streams = sources[at].streams@;
        crate::track::selected_stream_is_in_source(streams, tracks[i].selector);
        let index = crate::track::selected(streams, tracks[i].selector)->Ok_0;
        let k = crate::track::stream_at(streams, index, 0);
        assert(streams[k]@.index == streams[k].index);
    }
}

/// A mux has a track for each of its inputs, in their order: each reads the source of its
/// own chain, selects what the chain selects, and is of the kind that the input says.
pub proof fn tracks_come_in_order(nodes: Seq<DagNode>, inputs: Seq<MuxTrack>, i: int)
    requires
        built(nodes, inputs) is Ok,
        0 <= i < inputs.len(),
    ensures
        built(nodes, inputs)->Ok_0.len() == inputs.len(),
        ({
            let chain = chain_of(nodes, inputs[i].upstream as int);
            let t = built(nodes, inputs)->Ok_0[i];
            &&& chain is Ok
            &&& t.source_uri == chain->Ok_0.source
            &&& t.selector == chain->Ok_0.selector
            &&& t.kind == inputs[i].kind
            &&& t.copy == inputs[i].copy
            &&& !chain->Ok_0.frames ==> t.stages == chain->Ok_0.stages
        }),
    decreases inputs.len(),
{
    let n = inputs.len() - 1;
    if n > 0 {
        tracks_come_in_order(
            nodes,
            inputs.drop_last(),
            if i < n {
                i
            } else {
                0
            },
        );
    } else {
        assert(built(nodes, inputs.drop_last()) == Ok::<Seq<TrackView>, JobError>(Seq::empty()));
    }
}

/// Connecting tracks to their sources keeps them in order, and keeps what they are: their
/// source, selector, kind, stages, and whether they copy. Everything that a stream says
/// of itself goes over from the one stream that is selected.
pub proof fn connecting_keeps_the_tracks(
    tracks: Seq<TrackView>,
    sources: Seq<SourceStreams>,
    known: Option<String>,
    i: int,
)
    requires
        connected(tracks, sources, known) is Ok,
        0 <= i < tracks.len(),
    ensures
        connected(tracks, sources, known)->Ok_0.len() == tracks.len(),
        ({
            let t = connected(tracks, sources, known)->Ok_0[i];
            let streams = sources[source_at(sources, tracks[i].source_uri@, 0)].streams@;
            &&& t.source_uri == tracks[i].source_uri
            &&& t.selector == tracks[i].selector
            &&& t.kind == tracks[i].kind
            &&& t.copy == tracks[i].copy
            &&& t.stages == tracks[i].stages
            &&& exists|k: int|
                0 <= k < streams.len() && (#[trigger] streams[k]).index == t.source_stream
                    && streams[k].params@ == t.input_params && streams[k].time_base
                    == t.input_time_base && streams[k].start_time == t.input_start_time
                    && streams[k].duration == t.input_duration
        }),
    decreases tracks.len(),
{
    let n = tracks.len() - 1;
    if n > 0 {
        connecting_keeps_the_tracks(
            tracks.drop_last(),
            sources,
            known,
            if i < n {
                i
            } else {
                0
            },
        );
    } else {
        assert(connected(tracks.drop_last(), sources, known) == Ok::<Seq<TrackView>, JobError>(
            Seq::empty(),
        ));
    }
    if i == n {
        let streams = sources[source_at(sources, tracks[i].source_uri@, 0)].streams@;
        crate::track::track_takes_over_its_stream(tracks[i], streams);
    }
}

/// A source is found by its own URI, the first where several have it, and is not found
/// exactly where none has it.
pub proof fn source_is_found_by_its_uri(sources: Seq<SourceStreams>, uri: Seq<char>, from: int)
    requires
        0 <= from <= sources.len(),
    ensures
        ({
            let at = source_at(sources, uri, from);
            &&& from <= at <= sources.len()
            &&& at < sources.len() ==> sources[at].uri@ == uri
            &&& forall|j: int| from <= j < at ==> (#[trigger] sources[j]).uri@ != uri
        }),
    decreases sources.len() - from,
{
    if from < sources.len() && sources[from].uri@ != uri {
        source_is_found_by_its_uri(sources, uri, from + 1);
    }
}

/// An output is prepared only from a mux. Where every input of the mux says what it wants,
/// there is one track for each, in their order, each over the source of its own chain. Every
/// track reads a stream that its source has, with everything that the stream says of
/// itself; and where the pixel format there is known, each encoder of the track whose
/// codec names formats is fed one of them.
pub proof fn prepared_tracks_can_run(
    nodes: Seq<DagNode>,
    output: String,
    root: int,
    sources: Seq<SourceStreams>,
    known: Option<String>,
    table: Seq<CodecFormats>,
    i: int,
    k: int,
)
    requires
        prepared(nodes, output, root, sources, known, table) is Ok,
        0 <= i < prepared(nodes, output, root, sources, known, table)->Ok_0.len(),
    ensures
        nodes[root] is Mux,
        ({
            let t = prepared(nodes, output, root, sources, known, table)->Ok_0[i];
            let streams = sources[source_at(sources, t.source_uri@, 0)].streams@;
            &&& exists|j: int|
                0 <= j < streams.len() && (#[trigger] streams[j]).index == t.source_stream
                    && streams[j].params@ == t.input_params && streams[j].time_base
                    == t.input_time_base && streams[j].start_time == t.input_start_time
                    && streams[j].duration == t.input_duration
            &&& t.input_params.pixel_format is Some && 0 <= k < t.stages.len() ==> (
            t.stages[k] matches StageSpec::Encode { codec, .. } ==> (declared(table, codec@).len()
                > 0 ==> accepts(
                declared(table, codec@),
                format_after(t.stages.take(k), t.input_params.pixel_format->0),
            )))
        }),
        ({
            let inputs = nodes[root]->Mux_tracks@;
            let list = built(nodes, inputs);
            let all = prepared(nodes, output, root, sources, known, table)->Ok_0;
            (forall|j: int| 0 <= j < inputs.len() ==> !(#[trigger] list->Ok_0[j]).wants_all()) ==> {
                &&& all.len() == inputs.len()
                &&& all[i].source_uri == chain_of(nodes, inputs[i].upstream as int)->Ok_0.source
                &&& all[i].kind == inputs[i].kind
                &&& all[i].copy == inputs[i].copy
            }
        }),
{
    let inputs = nodes[root]->Mux_tracks@;
    let list = built(nodes, inputs)->Ok_0;
    let wide = expanded(list, sources);
    let joined = connected(wide, sources, known)->Ok_0;
    let all = prepared(nodes, output, root, sources, known, table)->Ok_0;
    assert(all == joined.map_values(|t: TrackView| with_conversions(table, t)));
    connected_len(wide, sources, known);
    connecting_keeps_the_tracks(wide, sources, known, i);
    let t = joined[i];
    let u = all[i];
    assert(u == with_conversions(table, t));
    let streams = sources[source_at(sources, u.source_uri@, 0)].streams@;
    let j = choose|j: int|
        0 <= j < streams.len() && (#[trigger] streams[j]).index == t.source_stream
            && streams[j].params@ == t.input_params && streams[j].time_base == t.input_time_base
            && streams[j].start_time == t.input_start_time && streams[j].duration
            == t.input_duration;
    assert(streams[j].index == u.source_stream);
    if u.input_params.pixel_format is Some && 0 <= k < u.stages.len() {
        let source = u.input_params.pixel_format->0;
        assert(u.stages == inserted(table, t.stages, source));
        encoders_are_fed_what_they_take(table, t.stages, source, k);
    }
    if forall|j: int| 0 <= j < inputs.len() ==> !(#[trigger] list[j]).wants_all() {
        if inputs.len() > 0 {
            tracks_come_in_order(nodes, inputs, 0);
        } else {
            assert(list =~= Seq::empty());
        }
        named_tracks_stay(list, sources);
        tracks_come_in_order(nodes, inputs, i);
    }
}

proof fn connected_len(tracks: Seq<TrackView>, sources: Seq<SourceStreams>, known: Option<String>)
    requires
        connected(tracks, sources, known) is Ok,
    ensures
        connected(tracks, sources, known)->Ok_0.len() == tracks.len(),
    decreases tracks.len(),
{
    if tracks.len() > 0 {
        connected_len(tracks.drop_last(), sources, known);
    }
}

proof fn named_tracks_stay(tracks: Seq<TrackView>, sources: Seq<SourceStreams>)
    requires
        forall|j: int| 0 <= j < tracks.len() ==> !(#[trigger] tracks[j]).wants_all(),
    ensures
        expanded(tracks, sources) == tracks,
    decreases tracks.len(),
{
    if tracks.len() > 0 {
        let rest = tracks.drop_last();
        assert forall|j: int| 0 <= j < rest.len() implies !(#[trigger] rest[j]).wants_all() by {
            assert(rest[j] == tracks[j]);
        }
        named_tracks_stay(rest, sources);
        assert(!tracks[tracks.len() - 1].wants_all());
        assert(expanded(tracks, sources) =~= tracks);
    }
}

} // verus!
