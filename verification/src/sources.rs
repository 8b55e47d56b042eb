//! Opening the sources of a job, and what each turns out to be.

use crate::dag::{Dag, DagNode, DagRoot};
use crate::error::JobError;
use crate::media::{CodecParameters, MediaType, ParamsView, StreamInfo, StreamView, TimeBase};
use crate::uri::ext_from_uri;
use vstd::prelude::*;

verus! {

/// How a source delivers: containers of packets, packets, or decoded frames.
#[derive(Clone, Copy, Debug, PartialEq, Eq, Structural)]
pub enum SourceShape {
    Demuxer,
    Packets,
    Frames,
}

/// A source that an output reads.
#[derive(Clone, Copy, Debug, PartialEq, Eq, Structural)]
pub struct RoutedSource {
    pub shape: SourceShape,
    /// What a source of packets says of itself; the others are not asked.
    pub supports_seek: bool,
}

impl RoutedSource {
    /// A container can always be asked to move, a source of packets where it says
    /// so, a source of frames never.
    pub open spec fn seekable_spec(self) -> bool {
        match self.shape {
            SourceShape::Demuxer => true,
            SourceShape::Packets => self.supports_seek,
            SourceShape::Frames => false,
        }
    }

    /// Whether the source can be moved.
    pub fn seekable(&self) -> (r: bool)
        ensures
            r == self.seekable_spec(),
    {
        match self.shape {
            SourceShape::Demuxer => true,
            SourceShape::Packets => self.supports_seek,
            SourceShape::Frames => false,
        }
    }
}

/// What the source registry handed back for a URI.
#[derive(Clone, Copy, Debug, PartialEq, Eq, Structural)]
pub enum OpenedKind {
    Bytes,
    Packets,
    Frames,
    MultiTitle,
    Other,
}

/// How an opened source is to be driven.
pub enum SourceAccess {
    /// Probe the container, with the extension as a hint, and demux it.
    Container { ext: Option<String> },
    Packets,
    Frames,
}

/// Decides how to drive what a URI opened as.
pub fn open_source(uri: &String, kind: OpenedKind) -> (r: Result<SourceAccess, JobError>)
    ensures
        match kind {
            OpenedKind::Bytes => r matches Ok(SourceAccess::Container { ext }) && match ext {
                Some(e) => crate::uri::extension(uri@) == Some(e@),
                None => crate::uri::extension(uri@) is None,
            },
            OpenedKind::Packets => r == Ok::<SourceAccess, JobError>(SourceAccess::Packets),
            OpenedKind::Frames => r == Ok::<SourceAccess, JobError>(SourceAccess::Frames),
            OpenedKind::MultiTitle => r == Err::<SourceAccess, JobError>(
                JobError::MultiTitle { uri: *uri },
            ),
            OpenedKind::Other => r == Err::<SourceAccess, JobError>(
                JobError::UnknownSourceKind { uri: *uri },
            ),
        },
{
    match kind {
        OpenedKind::Bytes => Ok(SourceAccess::Container { ext: ext_from_uri(uri.as_str()) }),
        OpenedKind::Packets => Ok(SourceAccess::Packets),
        OpenedKind::Frames => Ok(SourceAccess::Frames),
        OpenedKind::MultiTitle => Err(JobError::MultiTitle { uri: uri.clone() }),
        OpenedKind::Other => Err(JobError::UnknownSourceKind { uri: uri.clone() }),
    }
}

/// The clock of a frame source: its sample rate, else its frame rate, else
/// microseconds.
pub open spec fn frame_clock(params: ParamsView) -> TimeBase {
    match (params.media_type, params.sample_rate, params.frame_rate) {
        (MediaType::Audio, Some(rate), _) if rate > 0 => TimeBase { num: 1, den: rate as i64 },
        (MediaType::Video, _, Some(rate)) if rate.num != 0 && rate.den != 0 => TimeBase {
            num: rate.den,
            den: rate.num,
        },
        _ => TimeBase { num: 1, den: 1_000_000 },
    }
}

/// The one stream of a frame source.
pub fn synth_stream_info(params: &CodecParameters) -> (r: StreamInfo)
    ensures
        r@ == (StreamView {
            index: 0,
            time_base: frame_clock(params@),
            duration: None,
            start_time: Some(0),
            params: params@,
        }),
{
    let mut time_base = TimeBase { num: 1, den: 1_000_000 };
    match params.media_type {
        MediaType::Audio => match params.sample_rate {
            Some(rate) => if rate > 0 {
                time_base = TimeBase { num: 1, den: rate as i64 };
            },
            None => {},
        },
        MediaType::Video => match params.frame_rate {
            Some(rate) => if rate.num != 0 && rate.den != 0 {
                time_base = TimeBase { num: rate.den, den: rate.num };
            },
            None => {},
        },
        _ => {},
    }
    StreamInfo { index: 0, time_base, duration: None, start_time: Some(0), params: params.clone() }
}

/// A source that was opened, and its shape.
pub struct OpenedSource {
    pub uri: String,
    pub shape: SourceShape,
}

/// The shape of an opened source.
pub open spec fn shape_of(opened: Seq<OpenedSource>, uri: Seq<char>) -> Option<SourceShape>
    decreases opened.len(),
{
    if opened.len() == 0 {
        None
    } else if opened.last().uri@ == uri {
        Some(opened.last().shape)
    } else {
        shape_of(opened.drop_last(), uri)
    }
}

/// Looks an opened source up by its URI.
pub fn find_shape(opened: &Vec<OpenedSource>, uri: &String) -> (r: Option<SourceShape>)
    ensures
        r == shape_of(opened@, uri@),
{
    let mut i: usize = opened.len();
    assert(opened@.take(i as int) =~= opened@);
    while i > 0
        invariant
            i <= opened.len(),
            shape_of(opened@, uri@) == shape_of(opened@.take(i as int), uri@),
        decreases i,
    {
        assert(opened@.take(i as int).drop_last() =~= opened@.take(i - 1));
        if opened[i - 1].uri == *uri {
            return Some(opened[i - 1].shape);
        }
        i -= 1;
    }
    None
}

/// A demuxer leaf, once its source has shown its shape.
pub open spec fn leaf_for(source: String, shape: SourceShape) -> DagNode {
    match shape {
        SourceShape::Demuxer => DagNode::Demuxer { source },
        SourceShape::Packets => DagNode::PacketSource { source },
        SourceShape::Frames => DagNode::FrameSource { source },
    }
}

/// What the resolution of a graph's sources needs next.
pub enum ResolveStep {
    /// Open this URI and report its shape.
    Open { uri: String },
    /// Build a frame source from a render request.
    Render { source: String, backend: String, opts: String },
    /// Every leaf has its source.
    Done,
    Failed(JobError),
}

/// Opens each source of a graph once: first those of the demuxer leaves, then
/// those of the render leaves. Once all are there, each leaf is rewritten to the
/// shape its source has; until then the graph stays as it was given.
pub struct SourceResolution {
    pub dag: Dag,
    pub opened: Vec<OpenedSource>,
    pub has_factory: bool,
    pub rendering: bool,
    pub at: usize,
}

#[verifier::ext_equal]
pub struct ResolutionView {
    pub nodes: Seq<DagNode>,
    pub roots: Seq<DagRoot>,
    pub opened: Seq<OpenedSource>,
    pub has_factory: bool,
    pub rendering: bool,
    pub at: int,
}

impl View for SourceResolution {
    type V = ResolutionView;

    open spec fn view(&self) -> ResolutionView {
        ResolutionView {
            nodes: self.dag.nodes@,
            roots: self.dag.roots@,
            opened: self.opened@,
            has_factory: self.has_factory,
            rendering: self.rendering,
            at: self.at as int,
        }
    }
}

/// A leaf in the shape of its opened source; any other node as it is.
pub open spec fn resolved_node(opened: Seq<OpenedSource>, node: DagNode) -> DagNode {
    match node {
        DagNode::Demuxer { source } => match shape_of(opened, source@) {
            Some(shape) => leaf_for(source, shape),
            None => node,
        },
        DagNode::Render3D { source, .. } => if shape_of(opened, source@) is Some {
            DagNode::FrameSource { source }
        } else {
            node
        },
        _ => node,
    }
}

/// A graph with each leaf in the shape of its opened source.
pub open spec fn resolved_nodes(opened: Seq<OpenedSource>, nodes: Seq<DagNode>) -> Seq<DagNode> {
    Seq::new(nodes.len(), |i: int| resolved_node(opened, nodes[i]))
}

impl ResolutionView {
    /// Resolution of a graph that nothing was opened for yet.
    pub open spec fn start(dag: Dag, has_factory: bool) -> ResolutionView {
        ResolutionView {
            nodes: dag.nodes@,
            roots: dag.roots@,
            opened: Seq::empty(),
            has_factory,
            rendering: false,
            at: 0,
        }
    }

    /// Passes over every leaf that needs nothing from outside.
    pub open spec fn scanned(self) -> ResolutionView
        decreases
                (if self.rendering {
                    0int
                } else {
                    1int
                }), self.nodes.len() - self.at,
    {
        if self.at < 0 || self.at >= self.nodes.len() {
            if self.rendering {
                self
            } else {
                ResolutionView { rendering: true, at: 0, ..self }.scanned()
            }
        } else if self.waits() {
            self
        } else {
            ResolutionView { at: self.at + 1, ..self }.scanned()
        }
    }

    /// The leaf at the cursor needs something from outside: a demuxer leaf whose
    /// source is not open yet, and then every render leaf.
    pub open spec fn waits(self) -> bool {
        match self.nodes[self.at] {
            DagNode::Demuxer { source } => !self.rendering && shape_of(self.opened, source@)
                is None,
            DagNode::Render3D { .. } => self.rendering,
            _ => false,
        }
    }

    /// What the leaf that the scan stopped at needs.
    pub open spec fn need(self) -> ResolveStep {
        if self.at < 0 || self.at >= self.nodes.len() {
            ResolveStep::Done
        } else {
            match self.nodes[self.at] {
                DagNode::Demuxer { source } => ResolveStep::Open { uri: source },
                DagNode::Render3D { source, backend, opts } => if !self.has_factory {
                    ResolveStep::Failed(JobError::NoRenderFactory { source, backend })
                } else if shape_of(self.opened, source@) is Some {
                    ResolveStep::Failed(JobError::RenderCollision { source })
                } else {
                    ResolveStep::Render { source, backend, opts }
                },
                _ => ResolveStep::Done,
            }
        }
    }

    /// The graph is rewritten once nothing more is needed, and not before.
    pub open spec fn advanced(self) -> ResolutionView {
        let found = self.scanned();
        if found.need() is Done {
            ResolutionView { nodes: resolved_nodes(found.opened, found.nodes), ..found }
        } else {
            found
        }
    }

    /// Relates a resolution under way to the graph it started from: the graph is
    /// untouched, behind the cursor each leaf has its source, and no source was
    /// opened twice.
    pub open spec fn follows(self, start: Seq<DagNode>) -> bool {
        &&& self.nodes == start
        &&& 0 <= self.at <= start.len()
        &&& forall|i: int, j: int|
            0 <= i < j < self.opened.len() ==> (#[trigger] self.opened[i]).uri@ != (
            #[trigger] self.opened[j]).uri@
        &&& forall|i: int| #![trigger start[i]]
            0 <= i < start.len() && (self.rendering || i < self.at) && start[i] is Demuxer
                ==> shape_of(self.opened, start[i]->Demuxer_source@) is Some
        &&& forall|i: int| #![trigger start[i]]
            0 <= i < start.len() && self.rendering && i < self.at && start[i] is Render3D
                ==> shape_of(self.opened, start[i]->Render3D_source@) == Some(SourceShape::Frames)
    }
}

impl SourceResolution {
    pub open spec fn wf(self) -> bool {
        &&& self.dag.wf()
        &&& self.at <= self.dag.nodes@.len()
    }

    /// Starts on a graph; `has_factory` says whether render leaves can be built.
    pub fn new(dag: Dag, has_factory: bool) -> (r: Self)
        requires
            dag.wf(),
        ensures
            r.wf(),
            r.dag == dag,
            r@ == ResolutionView::start(dag, has_factory),
            r@.follows(dag.nodes@),
    {
        let r = SourceResolution {
            dag,
            opened: Vec::new(),
            has_factory,
            rendering: false,
            at: 0,
        };
        assert(r@.opened =~= Seq::empty());
        r
    }

    /// Moves on to the next leaf that needs something, and says what; once none
    /// does, rewrites the graph. Where a source cannot be had, the graph is the
    /// one that was given.
    pub fn next(&mut self) -> (r: ResolveStep)
        requires
            old(self).wf(),
        ensures
            final(self).wf(),
            final(self)@ == old(self)@.advanced(),
            r == final(self)@.need(),
            r is Failed ==> final(self).dag == old(self).dag,
            final(self).dag.nodes@.len() == old(self).dag.nodes@.len(),
    {
        let ghost goal = self@.scanned();
        loop
            invariant
                self.wf(),
                self@.scanned() == goal,
                goal == old(self)@.scanned(),
                self.dag == old(self).dag,
            decreases
                    (if self.rendering {
                        0int
                    } else {
                        1int
                    }), self.dag.nodes@.len() - self.at,
        {
            if self.at >= self.dag.nodes.len() {
                if self.rendering {
                    self.rewrite();
                    return ResolveStep::Done;
                }
                self.rendering = true;
                self.at = 0;
                continue;
            }
            match &self.dag.nodes[self.at] {
                DagNode::Render3D { source, backend, opts } => {
                    if self.rendering {
                        if !self.has_factory {
                            return ResolveStep::Failed(
                                JobError::NoRenderFactory {
                                    source: source.clone(),
                                    backend: backend.clone(),
                                },
                            );
                        }
                        if find_shape(&self.opened, source).is_some() {
                            return ResolveStep::Failed(
                                JobError::RenderCollision { source: source.clone() },
                            );
                        }
                        return ResolveStep::Render {
                            source: source.clone(),
                            backend: backend.clone(),
                            opts: opts.clone(),
                        };
                    }
                },
                DagNode::Demuxer { source } => {
                    if !self.rendering && find_shape(&self.opened, source).is_none() {
                        return ResolveStep::Open { uri: source.clone() };
                    }
                },
                _ => {},
            }
            self.at = self.at + 1;
        }
    }

    fn rewrite(&mut self)
        requires
            old(self).wf(),
        ensures
            final(self).wf(),
            final(self)@ == (ResolutionView {
                nodes: resolved_nodes(old(self)@.opened, old(self)@.nodes),
                ..old(self)@
            }),
    {
        let ghost nodes = self.dag.nodes@;
        let mut i: usize = 0;
        while i < self.dag.nodes.len()
            invariant
                i <= nodes.len(),
                self.wf(),
                self@ == (ResolutionView { nodes: self.dag.nodes@, ..old(self)@ }),
                self.dag.nodes@.len() == nodes.len(),
                forall|j: int|
                    0 <= j < i ==> #[trigger] self.dag.nodes@[j] == resolved_node(
                        self.opened@,
                        nodes[j],
                    ),
                forall|j: int| i <= j < nodes.len() ==> #[trigger] self.dag.nodes@[j] == nodes[j],
            decreases nodes.len() - i,
        {
            let leaf = match &self.dag.nodes[i] {
                DagNode::Demuxer { source } => match find_shape(&self.opened, source) {
                    Some(SourceShape::Demuxer) => None,
                    Some(SourceShape::Packets) => Some(
                        DagNode::PacketSource { source: source.clone() },
                    ),
                    Some(SourceShape::Frames) => Some(
                        DagNode::FrameSource { source: source.clone() },
                    ),
                    None => None,
                },
                DagNode::Render3D { source, .. } => match find_shape(&self.opened, source) {
                    Some(_) => Some(DagNode::FrameSource { source: source.clone() }),
                    None => None,
                },
                _ => None,
            };
            match leaf {
                Some(leaf) => {
                    self.dag.nodes.set(i, leaf);
                },
                None => {},
            }
            i += 1;
        }
        assert(self.dag.nodes@ =~= resolved_nodes(self.opened@, nodes));
    }

    /// The source that was asked for is open, with this shape.
    pub fn opened(&mut self, shape: SourceShape)
        requires
            old(self).wf(),
            old(self)@.need() is Open,
        ensures
            final(self).wf(),
            final(self).dag == old(self).dag,
            final(self)@ == (ResolutionView {
                opened: old(self)@.opened.push(
                    OpenedSource { uri: old(self)@.need()->uri, shape },
                ),
                ..old(self)@
            }),
    {
        let uri = match &self.dag.nodes[self.at] {
            DagNode::Demuxer { source } => source.clone(),
            _ => String::new(),
        };
        self.opened.push(OpenedSource { uri, shape });
    }

    /// The frame source that was asked for is built.
    pub fn rendered(&mut self)
        requires
            old(self).wf(),
            old(self)@.need() is Render,
        ensures
            final(self).wf(),
            final(self).dag == old(self).dag,
            final(self)@ == (ResolutionView {
                opened: old(self)@.opened.push(
                    OpenedSource {
                        uri: old(self)@.need()->source,
                        shape: SourceShape::Frames,
                    },
                ),
                at: old(self)@.at + 1,
                ..old(self)@
            }),
    {
        let source = match &self.dag.nodes[self.at] {
            DagNode::Render3D { source, .. } => source.clone(),
            _ => String::new(),
        };
        let n: usize = self.dag.nodes.len();
        assert(self.at < n);
        self.opened.push(OpenedSource { uri: source, shape: SourceShape::Frames });
        self.at = self.at + 1;
    }
}

/// A newly opened source is found, and changes nothing for the others.
pub proof fn shape_of_push(opened: Seq<OpenedSource>, new: OpenedSource, uri: Seq<char>)
    ensures
        shape_of(opened.push(new), uri) == if new.uri@ == uri {
            Some(new.shape)
        } else {
            shape_of(opened, uri)
        },
{
    assert(opened.push(new).drop_last() =~= opened);
}

proof fn shape_of_known(opened: Seq<OpenedSource>, i: int)
    requires
        0 <= i < opened.len(),
    ensures
        shape_of(opened, opened[i].uri@) is Some,
    decreases opened.len(),
{
    if opened.last().uri@ != opened[i].uri@ {
        assert(opened.drop_last()[i] == opened[i]);
        shape_of_known(opened.drop_last(), i);
    }
}

/// Scanning leaves the graph as it is and keeps the resolution in step with it.
pub proof fn scan_follows(v: ResolutionView, start: Seq<DagNode>)
    requires
        v.follows(start),
    ensures
        v.scanned().follows(start),
        v.scanned().opened == v.opened,
        v.scanned().roots == v.roots,
        v.scanned().need() is Done ==> v.scanned().rendering && v.scanned().at == start.len(),
        v.scanned().need() is Open ==> !v.scanned().rendering && shape_of(
            v.opened,
            v.scanned().need()->uri@,
        ) is None,
        v.scanned().need() is Render ==> v.scanned().rendering,
    decreases
            (if v.rendering {
                0int
            } else {
                1int
            }), v.nodes.len() - v.at,
{
    if v.at >= v.nodes.len() {
        if !v.rendering {
            scan_follows(ResolutionView { rendering: true, at: 0, ..v }, start);
        }
    } else if !v.waits() {
        scan_follows(ResolutionView { at: v.at + 1, ..v }, start);
    }
}

/// A source that was asked for and opened keeps the resolution in step; so does a
/// render request that was asked for and built.
pub proof fn reply_follows(v: ResolutionView, start: Seq<DagNode>, shape: SourceShape)
    requires
        v.follows(start),
        v.at < start.len(),
    ensures
        !v.rendering && v.need() is Open ==> shape_of(v.opened, v.need()->uri@) is None ==> (
        ResolutionView {
            opened: v.opened.push(OpenedSource { uri: v.need()->uri, shape }),
            ..v
        }).follows(start),
        v.rendering && v.need() is Render ==> (ResolutionView {
            opened: v.opened.push(
                OpenedSource { uri: v.need()->source, shape: SourceShape::Frames },
            ),
            at: v.at + 1,
            ..v
        }).follows(start),
{
    let asked: Option<String> = match v.need() {
        ResolveStep::Open { uri } => Some(uri),
        ResolveStep::Render { source, .. } => Some(source),
        _ => None,
    };
    if asked is Some && shape_of(v.opened, asked->0@) is None {
        let uri = asked->0;
        let new = if v.rendering {
            OpenedSource { uri, shape: SourceShape::Frames }
        } else {
            OpenedSource { uri, shape }
        };
        let w = if v.rendering {
            ResolutionView { opened: v.opened.push(new), at: v.at + 1, ..v }
        } else {
            ResolutionView { opened: v.opened.push(new), ..v }
        };
        assert forall|i: int| #![trigger start[i]] 0 <= i < start.len() && (w.rendering || i < w.at)
            && start[i] is Demuxer implies shape_of(w.opened, start[i]->Demuxer_source@) is Some by {
            shape_of_push(v.opened, new, start[i]->Demuxer_source@);
        }
        assert forall|i: int| #![trigger start[i]]
            0 <= i < start.len() && w.rendering && i < w.at && start[i] is Render3D implies shape_of(
            w.opened,
            start[i]->Render3D_source@,
        ) == Some(SourceShape::Frames) by {
            shape_of_push(v.opened, new, start[i]->Render3D_source@);
        }
        assert forall|i: int, j: int| 0 <= i < j < w.opened.len() implies (
        #[trigger] w.opened[i]).uri@ != (#[trigger] w.opened[j]).uri@ by {
            if j == v.opened.len() {
                shape_of_known(v.opened, i);
            }
        }
    }
}

/// Once nothing more is needed, every source leaf of the graph has the shape of
/// its opened source, every render leaf has become a frame leaf, nothing else
/// has changed, and no URI was opened twice.
pub proof fn resolution_is_complete(v: ResolutionView, start: Seq<DagNode>)
    requires
        v.follows(start),
        v.advanced().need() is Done,
    ensures
        ({
            let w = v.advanced();
            &&& w.opened == v.opened
            &&& w.roots == v.roots
            &&& w.nodes.len() == start.len()
            &&& forall|i: int|
                0 <= i < start.len() ==> (#[trigger] w.nodes[i]) == match start[i] {
                    DagNode::Demuxer { source } => leaf_for(
                        source,
                        shape_of(v.opened, source@)->0,
                    ),
                    DagNode::Render3D { source, .. } => DagNode::FrameSource { source },
                    other => other,
                }
            &&& forall|i: int| 0 <= i < w.nodes.len() ==> !((#[trigger] w.nodes[i]) is Render3D)
            &&& forall|i: int, j: int|
                0 <= i < j < v.opened.len() ==> (#[trigger] v.opened[i]).uri@ != (
                #[trigger] v.opened[j]).uri@
        }),
{
    scan_follows(v, start);
    let found = v.scanned();
    let w = v.advanced();
    assert forall|i: int| 0 <= i < start.len() implies (#[trigger] w.nodes[i]) == match start[i] {
        DagNode::Demuxer { source } => leaf_for(source, shape_of(v.opened, source@)->0),
        DagNode::Render3D { source, .. } => DagNode::FrameSource { source },
        other => other,
    } && !(w.nodes[i] is Render3D) by {
        assert(w.nodes[i] == resolved_node(found.opened, start[i]));
    }
}

/// A resolution that fails, or that still waits for a source, has changed nothing
/// in the graph that it was given.
pub proof fn unfinished_resolution_changes_nothing(v: ResolutionView, start: Seq<DagNode>)
    requires
        v.follows(start),
        !(v.advanced().need() is Done),
    ensures
        v.advanced().nodes == start,
        v.advanced().roots == v.roots,
        v.advanced().follows(start),
{
    scan_follows(v, start);
}

/// A leaf keeps its source and takes the shape that the source has: a container stays a
/// leaf that is demuxed, packets make a leaf of packets, frames one of frames.
pub proof fn leaf_takes_the_shape_of_its_source(source: String, shape: SourceShape)
    ensures
        shape is Demuxer ==> leaf_for(source, shape) is Demuxer && leaf_for(
            source,
            shape,
        )->Demuxer_source == source,
        shape is Packets ==> leaf_for(source, shape) is PacketSource && leaf_for(
            source,
            shape,
        )->PacketSource_source == source,
        shape is Frames ==> leaf_for(source, shape) is FrameSource && leaf_for(
            source,
            shape,
        )->FrameSource_source == source,
{
}

/// Sources are asked for one at a time and never twice: what is asked for next is a
/// container leaf's source that is not open yet, and every one before it is; then come the
/// render leaves, each asked for with its own backend and options. Without a factory for
/// them they are refused, and with one, a leaf whose source is open already.
pub proof fn each_source_is_asked_for_once(v: ResolutionView, start: Seq<DagNode>)
    requires
        v.follows(start),
    ensures
        ({
            let w = v.scanned();
            &&& w.need() is Open ==> {
                &&& 0 <= w.at < start.len()
                &&& start[w.at] is Demuxer
                &&& w.need()->uri == start[w.at]->Demuxer_source
                &&& forall|i: int|
                    0 <= i < v.opened.len() ==> (#[trigger] v.opened[i]).uri@
                        != w.need()->uri@
            }
            &&& w.need() is Render ==> {
                &&& 0 <= w.at < start.len()
                &&& start[w.at] is Render3D
                &&& w.need()->source == start[w.at]->Render3D_source
                &&& w.need()->backend == start[w.at]->backend
                &&& w.need()->opts == start[w.at]->opts
                &&& v.has_factory
                &&& forall|i: int|
                    0 <= i < v.opened.len() ==> (#[trigger] v.opened[i]).uri@
                        != w.need()->source@
            }
            &&& w.need() is Failed ==> {
                let e = w.need()->Failed_0;
                &&& 0 <= w.at < start.len()
                &&& start[w.at] is Render3D
                &&& !v.has_factory ==> e is NoRenderFactory && e->NoRenderFactory_source
                    == start[w.at]->Render3D_source && e->NoRenderFactory_backend
                    == start[w.at]->backend
                &&& v.has_factory ==> e is RenderCollision && e->RenderCollision_source
                    == start[w.at]->Render3D_source
            }
            &&& w.need() is Done ==> forall|i: int|
                0 <= i < start.len() && (#[trigger] start[i]) is Demuxer ==> exists|k: int|
                    0 <= k < v.opened.len() && (#[trigger] v.opened[k]).uri@
                        == start[i]->Demuxer_source@
        }),
{
    scan_follows(v, start);
    scan_keeps_the_factory(v);
    let w = v.scanned();
    assert forall|i: int| 0 <= i < v.opened.len() && (w.need() is Open || w.need() is Render)
        implies ({
        let uri = if w.need() is Open {
            w.need()->uri@
        } else {
            w.need()->source@
        };
        (#[trigger] v.opened[i]).uri@ != uri
    }) by {
        shape_of_known(v.opened, i);
    }
    if w.need() is Done {
        assert forall|i: int| 0 <= i < start.len() && (#[trigger] start[i]) is Demuxer implies exists|
            k: int,
        |
            0 <= k < v.opened.len() && (#[trigger] v.opened[k]).uri@
                == start[i]->Demuxer_source@ by {
            assert(shape_of(w.opened, start[i]->Demuxer_source@) is Some);
            let k = opened_somewhere(v.opened, start[i]->Demuxer_source@);
            assert(v.opened[k].uri@ == start[i]->Demuxer_source@);
        }
    }
}

proof fn scan_keeps_the_factory(v: ResolutionView)
    ensures
        v.scanned().has_factory == v.has_factory,
    decreases
            (if v.rendering {
                0int
            } else {
                1int
            }), v.nodes.len() - v.at,
{
    if v.at < 0 || v.at >= v.nodes.len() {
        if !v.rendering {
            scan_keeps_the_factory(ResolutionView { rendering: true, at: 0, ..v });
        }
    } else if !v.waits() {
        scan_keeps_the_factory(ResolutionView { at: v.at + 1, ..v });
    }
}

proof fn opened_somewhere(opened: Seq<OpenedSource>, uri: Seq<char>) -> (k: int)
    requires
        shape_of(opened, uri) is Some,
    ensures
        0 <= k < opened.len(),
        opened[k].uri@ == uri,
        opened[k].shape == shape_of(opened, uri)->0,
    decreases opened.len(),
{
    if opened.last().uri@ == uri {
        opened.len() - 1
    } else {
        opened_somewhere(opened.drop_last(), uri)
    }
}

/// A frame source ticks once per sample, or once per frame: its clock is the inverse of
/// the rate that it states. Where it states none, it ticks in microseconds.
pub proof fn frame_source_ticks_by_its_rate(params: ParamsView)
    ensures
        ({
            let tb = frame_clock(params);
            &&& params.media_type == MediaType::Audio && params.sample_rate is Some
                && params.sample_rate->0 > 0 ==> tb.num == 1 && tb.den == params.sample_rate->0
            &&& params.media_type == MediaType::Video && params.frame_rate is Some
                && params.frame_rate->0.num != 0 && params.frame_rate->0.den != 0 ==> tb.num
                == params.frame_rate->0.den && tb.den == params.frame_rate->0.num
            &&& params.media_type == MediaType::Audio && (params.sample_rate is None
                || params.sample_rate->0 == 0) ==> tb.num == 1 && tb.den == 1_000_000
            &&& params.media_type == MediaType::Video && params.frame_rate is None ==> tb.num == 1
                && tb.den == 1_000_000
            &&& params.media_type != MediaType::Audio && params.media_type != MediaType::Video
                ==> tb.num == 1 && tb.den == 1_000_000
        }),
{
}

/// Containers can be moved whatever they say, sources of packets where they say so, and
/// sources of frames never.
pub proof fn frames_cannot_be_moved(source: RoutedSource)
    ensures
        source.shape is Frames ==> !source.seekable_spec(),
        source.shape is Demuxer ==> source.seekable_spec(),
        source.shape is Packets ==> (source.seekable_spec() <==> source.supports_seek),
{
}

} // verus!
