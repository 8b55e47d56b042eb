//! The resolved graph of a job, and the chain of stages behind each track.

use crate::error::JobError;
use crate::media::MediaType;
use vstd::prelude::*;

verus! {

/// Position of a node in its graph.
pub type NodeId = usize;

/// Which stream of a source a track wants: the `index`th of the streams of
/// `kind`, each part optional.
#[derive(Clone, Copy, Debug, PartialEq, Eq, Structural)]
pub struct ResolvedSelector {
    pub kind: Option<MediaType>,
    pub index: Option<u32>,
}

impl ResolvedSelector {
    pub open spec fn any_spec() -> ResolvedSelector {
        ResolvedSelector { kind: None, index: None }
    }

    /// Accepts whatever the source has.
    pub fn any() -> (r: Self)
        ensures
            r == Self::any_spec(),
    {
        ResolvedSelector { kind: None, index: None }
    }
}

/// One input of a mux.
#[derive(Clone, Copy, Debug, PartialEq, Eq, Structural)]
pub struct MuxTrack {
    pub kind: MediaType,
    pub copy: bool,
    pub upstream: NodeId,
}

/// A node of the graph. Options and parameters are kept as JSON text.
#[allow(inconsistent_fields)]
pub enum DagNode {
    Demuxer { source: String },
    PacketSource { source: String },
    FrameSource { source: String },
    Render3D { source: String, backend: String, opts: String },
    Select { upstream: NodeId, selector: ResolvedSelector },
    Decode { upstream: NodeId },
    Filter { upstream: NodeId, name: String, params: String },
    PixConvert { upstream: NodeId, target: oxideav_core::PixelFormat },
    Encode { upstream: NodeId, codec: String, params: String },
    Mux { target: String, tracks: Vec<MuxTrack> },
}

/// Two nodes that say the same.
pub open spec fn same_node(a: DagNode, b: DagNode) -> bool {
    match (a, b) {
        (DagNode::Mux { target: s, tracks: t }, DagNode::Mux { target: u, tracks: v }) => s == u
            && t@ == v@,
        _ => a == b,
    }
}

fn copy_tracks(tracks: &Vec<MuxTrack>) -> (r: Vec<MuxTrack>)
    ensures
        r@ == tracks@,
{
    let mut r: Vec<MuxTrack> = Vec::new();
    let mut i: usize = 0;
    while i < tracks.len()
        invariant
            i <= tracks.len(),
            r@ == tracks@.take(i as int),
        decreases tracks.len() - i,
    {
        r.push(tracks[i]);
        assert(r@ =~= tracks@.take(i + 1));
        i += 1;
    }
    assert(tracks@.take(i as int) =~= tracks@);
    r
}

impl Clone for DagNode {
    fn clone(&self) -> (r: Self)
        ensures
            same_node(r, *self),
    {
        match self {
            DagNode::Demuxer { source } => DagNode::Demuxer { source: source.clone() },
            DagNode::PacketSource { source } => DagNode::PacketSource { source: source.clone() },
            DagNode::FrameSource { source } => DagNode::FrameSource { source: source.clone() },
            DagNode::Render3D { source, backend, opts } => DagNode::Render3D {
                source: source.clone(),
                backend: backend.clone(),
                opts: opts.clone(),
            },
            DagNode::Select { upstream, selector } => DagNode::Select {
                upstream: *upstream,
                selector: *selector,
            },
            DagNode::Decode { upstream } => DagNode::Decode { upstream: *upstream },
            DagNode::Filter { upstream, name, params } => DagNode::Filter {
                upstream: *upstream,
                name: name.clone(),
                params: params.clone(),
            },
            DagNode::PixConvert { upstream, target } => DagNode::PixConvert {
                upstream: *upstream,
                target: *target,
            },
            DagNode::Encode { upstream, codec, params } => DagNode::Encode {
                upstream: *upstream,
                codec: codec.clone(),
                params: params.clone(),
            },
            DagNode::Mux { target, tracks } => DagNode::Mux {
                target: target.clone(),
                tracks: copy_tracks(tracks),
            },
        }
    }
}

impl DagNode {
    /// Whether every node it reads from comes before `id`.
    pub open spec fn reads_below(self, id: int) -> bool {
        match self {
            DagNode::Demuxer { .. }
            | DagNode::PacketSource { .. }
            | DagNode::FrameSource { .. }
            | DagNode::Render3D { .. } => true,
            DagNode::Select { upstream, .. }
            | DagNode::Decode { upstream }
            | DagNode::Filter { upstream, .. }
            | DagNode::PixConvert { upstream, .. }
            | DagNode::Encode { upstream, .. } => upstream < id,
            DagNode::Mux { tracks, .. } => forall|i: int|
                0 <= i < tracks@.len() ==> (#[trigger] tracks@[i]).upstream < id,
        }
    }

    pub fn check_reads_below(&self, id: usize) -> (r: bool)
        ensures
            r == self.reads_below(id as int),
    {
        match self {
            DagNode::Demuxer { .. }
            | DagNode::PacketSource { .. }
            | DagNode::FrameSource { .. }
            | DagNode::Render3D { .. } => true,
            DagNode::Select { upstream, .. }
            | DagNode::Decode { upstream }
            | DagNode::Filter { upstream, .. }
            | DagNode::PixConvert { upstream, .. }
            | DagNode::Encode { upstream, .. } => *upstream < id,
            DagNode::Mux { tracks, .. } => {
                let mut i: usize = 0;
                while i < tracks.len()
                    invariant
                        i <= tracks.len(),
                        self matches DagNode::Mux { tracks: t, .. } && t@ == tracks@,
                        forall|j: int| 0 <= j < i ==> (#[trigger] tracks@[j]).upstream < id,
                    decreases tracks.len() - i,
                {
                    if tracks[i].upstream >= id {
                        assert(!(tracks@[i as int].upstream < id));
                        return false;
                    }
                    i += 1;
                }
                true
            },
        }
    }
}

/// One output of a job: its key and the node it ends in.
pub struct DagRoot {
    pub name: String,
    pub node: NodeId,
}

impl Clone for DagRoot {
    fn clone(&self) -> (r: Self)
        ensures
            r == *self,
    {
        DagRoot { name: self.name.clone(), node: self.node }
    }
}

/// The graph of a job. A node reads only from nodes before it, so every chain
/// ends.
pub struct Dag {
    pub nodes: Vec<DagNode>,
    /// The outputs, in document order.
    pub roots: Vec<DagRoot>,
}

/// Every node reads only from nodes before it.
pub open spec fn ordered(nodes: Seq<DagNode>) -> bool {
    forall|i: int| 0 <= i < nodes.len() ==> (#[trigger] nodes[i]).reads_below(i)
}

/// A node of the graph encodes.
pub open spec fn has_encoder(nodes: Seq<DagNode>) -> bool {
    exists|i: int| 0 <= i < nodes.len() && (#[trigger] nodes[i]) is Encode
}

impl Clone for Dag {
    fn clone(&self) -> (r: Self)
        ensures
            r.nodes@.len() == self.nodes@.len(),
            forall|i: int|
                0 <= i < self.nodes@.len() ==> same_node(#[trigger] r.nodes@[i], self.nodes@[i]),
            r.roots@ == self.roots@,
            self.wf() ==> r.wf(),
    {
        let mut nodes: Vec<DagNode> = Vec::new();
        let mut i: usize = 0;
        while i < self.nodes.len()
            invariant
                i <= self.nodes.len(),
                nodes.len() == i,
                forall|j: int| 0 <= j < i ==> same_node(#[trigger] nodes@[j], self.nodes@[j]),
            decreases self.nodes.len() - i,
        {
            nodes.push(self.nodes[i].clone());
            i += 1;
        }
        let mut roots: Vec<DagRoot> = Vec::new();
        let mut k: usize = 0;
        while k < self.roots.len()
            invariant
                k <= self.roots.len(),
                roots@ == self.roots@.take(k as int),
            decreases self.roots.len() - k,
        {
            roots.push(self.roots[k].clone());
            assert(roots@ =~= self.roots@.take(k + 1));
            k += 1;
        }
        assert(roots@ =~= self.roots@);
        let r = Dag { nodes, roots };
        proof {
            if self.wf() {
                assert forall|j: int| 0 <= j < r.nodes@.len() implies (
                #[trigger] r.nodes@[j]).reads_below(j) by {
                    assert(same_node(r.nodes@[j], self.nodes@[j]));
                    assert(self.nodes@[j].reads_below(j));
                }
            }
        }
        r
    }
}

impl Dag {
    pub open spec fn wf(self) -> bool {
        &&& ordered(self.nodes@)
        &&& forall|i: int|
            0 <= i < self.roots@.len() ==> (#[trigger] self.roots@[i]).node < self.nodes@.len()
    }

    pub fn new() -> (r: Self)
        ensures
            r.wf(),
            r.nodes@.len() == 0,
            r.roots@.len() == 0,
    {
        Dag { nodes: Vec::new(), roots: Vec::new() }
    }

    /// Appends a node; `None`, and no change, where it reads from a node that
    /// does not exist yet.
    pub fn push(&mut self, node: DagNode) -> (r: Option<NodeId>)
        requires
            old(self).wf(),
        ensures
            final(self).wf(),
            final(self).roots == old(self).roots,
            r == (if node.reads_below(old(self).nodes@.len() as int) {
                Some(old(self).nodes@.len() as usize)
            } else {
                None
            }),
            r is Some ==> final(self).nodes@ == old(self).nodes@.push(node),
            r is None ==> final(self).nodes == old(self).nodes,
    {
        let id: usize = self.nodes.len();
        if node.check_reads_below(id) {
            self.nodes.push(node);
            Some(id)
        } else {
            None
        }
    }

    /// Names a node as an output; `false`, and no change, where there is no such
    /// node.
    pub fn add_root(&mut self, name: String, node: NodeId) -> (r: bool)
        requires
            old(self).wf(),
        ensures
            final(self).wf(),
            final(self).nodes == old(self).nodes,
            r == (node < old(self).nodes@.len()),
            r ==> final(self).roots@ == old(self).roots@.push(DagRoot { name, node }),
            !r ==> final(self).roots == old(self).roots,
    {
        if node < self.nodes.len() {
            self.roots.push(DagRoot { name, node });
            true
        } else {
            false
        }
    }

    /// Whether every node reads only from nodes before it, and every output is a
    /// node.
    pub fn is_valid(&self) -> (r: bool)
        ensures
            r == self.wf(),
    {
        let mut i: usize = 0;
        while i < self.nodes.len()
            invariant
                i <= self.nodes.len(),
                forall|j: int| 0 <= j < i ==> (#[trigger] self.nodes@[j]).reads_below(j),
            decreases self.nodes.len() - i,
        {
            if !self.nodes[i].check_reads_below(i) {
                assert(!self.nodes@[i as int].reads_below(i as int));
                return false;
            }
            i += 1;
        }
        let mut k: usize = 0;
        while k < self.roots.len()
            invariant
                k <= self.roots.len(),
                ordered(self.nodes@),
                forall|j: int|
                    0 <= j < k ==> (#[trigger] self.roots@[j]).node < self.nodes@.len(),
            decreases self.roots.len() - k,
        {
            if self.roots[k].node >= self.nodes.len() {
                assert(self.roots@[k as int].node >= self.nodes@.len());
                return false;
            }
            k += 1;
        }
        true
    }

    /// Whether a node of the graph encodes.
    pub fn encodes(&self) -> (r: bool)
        ensures
            r == has_encoder(self.nodes@),
    {
        let mut i: usize = 0;
        while i < self.nodes.len()
            invariant
                i <= self.nodes.len(),
                forall|j: int| 0 <= j < i ==> !((#[trigger] self.nodes@[j]) is Encode),
            decreases self.nodes.len() - i,
        {
            match &self.nodes[i] {
                DagNode::Encode { .. } => {
                    assert(self.nodes@[i as int] is Encode);
                    return true;
                },
                _ => {},
            }
            i += 1;
        }
        false
    }

    /// The node at `id`.
    pub fn node(&self, id: NodeId) -> (r: &DagNode)
        requires
            id < self.nodes@.len(),
        ensures
            *r == self.nodes@[id as int],
    {
        &self.nodes[id]
    }

    /// The tracks of the output that ends in node `id`, or why it is no output.
    pub fn mux_tracks(&self, output: &String, id: NodeId) -> (r: Result<&Vec<MuxTrack>, JobError>)
        requires
            id < self.nodes@.len(),
        ensures
            match self.nodes@[id as int] {
                DagNode::Mux { tracks, .. } => r == Ok::<&Vec<MuxTrack>, JobError>(&tracks),
                other => r == Err::<&Vec<MuxTrack>, JobError>(
                    JobError::NotAMux { output: *output, found: other },
                ),
            },
    {
        match &self.nodes[id] {
            DagNode::Mux { tracks, .. } => Ok(tracks),
            other => Err(JobError::NotAMux { output: output.clone(), found: other.clone() }),
        }
    }
}

/// What a stage of a track does, before anything is instantiated.
#[allow(inconsistent_fields)]
pub enum StageSpec {
    Decode,
    Filter { name: String, params: String },
    Convert { target: oxideav_core::PixelFormat },
    Encode { codec: String, params: String },
}

impl Clone for StageSpec {
    fn clone(&self) -> (r: Self)
        ensures
            r == *self,
    {
        match self {
            StageSpec::Decode => StageSpec::Decode,
            StageSpec::Filter { name, params } => StageSpec::Filter {
                name: name.clone(),
                params: params.clone(),
            },
            StageSpec::Convert { target } => StageSpec::Convert { target: *target },
            StageSpec::Encode { codec, params } => StageSpec::Encode {
                codec: codec.clone(),
                params: params.clone(),
            },
        }
    }
}

/// A track's way through the graph: its source, which of its streams, whether
/// the source hands out decoded frames, and the stages from source to mux.
pub struct Chain {
    pub source: String,
    pub selector: ResolvedSelector,
    pub frames: bool,
    pub stages: Vec<StageSpec>,
}

#[verifier::ext_equal]
pub struct ChainView {
    pub source: String,
    pub selector: ResolvedSelector,
    pub frames: bool,
    pub stages: Seq<StageSpec>,
}

impl View for Chain {
    type V = ChainView;

    open spec fn view(&self) -> ChainView {
        ChainView {
            source: self.source,
            selector: self.selector,
            frames: self.frames,
            stages: self.stages@,
        }
    }
}

impl ChainView {
    pub open spec fn leaf(source: String, selector: ResolvedSelector, frames: bool) -> ChainView {
        ChainView { source, selector, frames, stages: Seq::empty() }
    }
}

/// The chain that ends in node `id`: the leaf's source, and one stage for each
/// node on the way down from it, in that order.
pub open spec fn chain_of(nodes: Seq<DagNode>, id: int) -> Result<ChainView, JobError>
    decreases id,
{
    if id < 0 || id >= nodes.len() || !nodes[id].reads_below(id) {
        Err(JobError::MuxInChain)
    } else {
        match nodes[id] {
            DagNode::Demuxer { source } | DagNode::PacketSource { source } => Ok(
                ChainView::leaf(source, ResolvedSelector::any_spec(), false),
            ),
            DagNode::FrameSource { source } => Ok(
                ChainView::leaf(source, ResolvedSelector::any_spec(), true),
            ),
            DagNode::Render3D { source, backend, .. } => Err(
                JobError::UnresolvedRender { source, backend },
            ),
            DagNode::Select { upstream, selector } => match nodes[upstream as int] {
                DagNode::Demuxer { source } | DagNode::PacketSource { source } => Ok(
                    ChainView::leaf(source, selector, false),
                ),
                DagNode::FrameSource { source } => Ok(ChainView::leaf(source, selector, true)),
                _ => Err(JobError::NestedSelect),
            },
            DagNode::Decode { upstream } => extended(
                chain_of(nodes, upstream as int),
                StageSpec::Decode,
            ),
            DagNode::Filter { upstream, name, params } => extended(
                chain_of(nodes, upstream as int),
                StageSpec::Filter { name, params },
            ),
            DagNode::PixConvert { upstream, target } => extended(
                chain_of(nodes, upstream as int),
                StageSpec::Convert { target },
            ),
            DagNode::Encode { upstream, codec, params } => extended(
                chain_of(nodes, upstream as int),
                StageSpec::Encode { codec, params },
            ),
            DagNode::Mux { .. } => Err(JobError::MuxInChain),
        }
    }
}

/// A chain with one more stage at its end.
pub open spec fn extended(chain: Result<ChainView, JobError>, stage: StageSpec) -> Result<
    ChainView,
    JobError,
> {
    match chain {
        Ok(c) => Ok(ChainView { stages: c.stages.push(stage), ..c }),
        Err(e) => Err(e),
    }
}

/// A fallible chain by its view.
pub open spec fn chain_result(r: Result<Chain, JobError>) -> Result<ChainView, JobError> {
    match r {
        Ok(c) => Ok(c@),
        Err(e) => Err(e),
    }
}

/// Follows a track upstream to its leaf.
pub fn walk_chain(nodes: &Vec<DagNode>, id: NodeId) -> (r: Result<Chain, JobError>)
    requires
        ordered(nodes@),
        id < nodes@.len(),
    ensures
        chain_result(r) == chain_of(nodes@, id as int),
    decreases id,
{
    assert(nodes@[id as int].reads_below(id as int));
    match &nodes[id] {
        DagNode::Demuxer { source } | DagNode::PacketSource { source } => {
            let c = leaf(source, ResolvedSelector::any(), false);
            Ok(c)
        },
        DagNode::FrameSource { source } => {
            let c = leaf(source, ResolvedSelector::any(), true);
            Ok(c)
        },
        DagNode::Render3D { source, backend, .. } => Err(
            JobError::UnresolvedRender { source: source.clone(), backend: backend.clone() },
        ),
        DagNode::Select { upstream, selector } => match &nodes[*upstream] {
            DagNode::Demuxer { source } | DagNode::PacketSource { source } => Ok(
                leaf(source, *selector, false),
            ),
            DagNode::FrameSource { source } => Ok(leaf(source, *selector, true)),
            _ => Err(JobError::NestedSelect),
        },
        DagNode::Decode { upstream } => extend(walk_chain(nodes, *upstream), StageSpec::Decode),
        DagNode::Filter { upstream, name, params } => extend(
            walk_chain(nodes, *upstream),
            StageSpec::Filter { name: name.clone(), params: params.clone() },
        ),
        DagNode::PixConvert { upstream, target } => extend(
            walk_chain(nodes, *upstream),
            StageSpec::Convert { target: *target },
        ),
        DagNode::Encode { upstream, codec, params } => extend(
            walk_chain(nodes, *upstream),
            StageSpec::Encode { codec: codec.clone(), params: params.clone() },
        ),
        DagNode::Mux { .. } => Err(JobError::MuxInChain),
    }
}

fn leaf(source: &String, selector: ResolvedSelector, frames: bool) -> (r: Chain)
    ensures
        r@ == ChainView::leaf(*source, selector, frames),
{
    let r = Chain { source: source.clone(), selector, frames, stages: Vec::new() };
    assert(r@ =~= ChainView::leaf(*source, selector, frames));
    r
}

fn extend(chain: Result<Chain, JobError>, stage: StageSpec) -> (r: Result<Chain, JobError>)
    ensures
        chain_result(r) == extended(chain_result(chain), stage),
{
    match chain {
        Ok(c) => {
            let mut stages = c.stages;
            stages.push(stage);
            Ok(Chain { source: c.source, selector: c.selector, frames: c.frames, stages })
        },
        Err(e) => Err(e),
    }
}

/// The stages that are no decode.
pub open spec fn without_decode(stages: Seq<StageSpec>) -> Seq<StageSpec>
    decreases stages.len(),
{
    if stages.len() == 0 {
        Seq::empty()
    } else {
        let rest = without_decode(stages.drop_last());
        if stages.last() is Decode {
            rest
        } else {
            rest.push(stages.last())
        }
    }
}

/// Drops every decode stage.
pub fn drop_decode(stages: &Vec<StageSpec>) -> (r: Vec<StageSpec>)
    ensures
        r@ == without_decode(stages@),
{
    let mut r: Vec<StageSpec> = Vec::new();
    let mut i: usize = 0;
    assert(stages@.take(0) =~= Seq::empty());
    while i < stages.len()
        invariant
            i <= stages.len(),
            r@ == without_decode(stages@.take(i as int)),
        decreases stages.len() - i,
    {
        assert(stages@.take(i + 1).drop_last() =~= stages@.take(i as int));
        match &stages[i] {
            StageSpec::Decode => {},
            s => {
                r.push(s.clone());
            },
        }
        i += 1;
    }
    assert(stages@.take(i as int) =~= stages@);
    r
}

/// Dropping decode stages leaves no decode stage, and leaves a list without one
/// as it was.
pub proof fn without_decode_has_none(stages: Seq<StageSpec>)
    ensures
        forall|i: int|
            0 <= i < without_decode(stages).len() ==> !((#[trigger] without_decode(stages)[i])
                is Decode),
        (forall|i: int| 0 <= i < stages.len() ==> !((#[trigger] stages[i]) is Decode))
            ==> without_decode(stages) == stages,
        without_decode(stages).len() <= stages.len(),
    decreases stages.len(),
{
    if stages.len() > 0 {
        without_decode_has_none(stages.drop_last());
        if forall|i: int| 0 <= i < stages.len() ==> !((#[trigger] stages[i]) is Decode) {
            assert(!(stages[stages.len() - 1] is Decode));
            assert(without_decode(stages) =~= stages);
        }
    } else {
        assert(without_decode(stages) =~= stages);
    }
}

/// A node adds itself, and only itself, at the end of the chain that it reads from, as the
/// stage that it is, and keeps the chain's source, stream and shape.
pub proof fn node_adds_itself_last(nodes: Seq<DagNode>, id: int, upstream: NodeId)
    requires
        0 <= id < nodes.len(),
        nodes[id].reads_below(id),
        match nodes[id] {
            DagNode::Decode { upstream: u } => u == upstream,
            DagNode::Filter { upstream: u, .. } => u == upstream,
            DagNode::PixConvert { upstream: u, .. } => u == upstream,
            DagNode::Encode { upstream: u, .. } => u == upstream,
            _ => false,
        },
    ensures
        ({
            let before = chain_of(nodes, upstream as int);
            let after = chain_of(nodes, id);
            &&& after is Ok <==> before is Ok
            &&& after is Err ==> after->Err_0 == before->Err_0
            &&& after is Ok ==> {
                let stage = after->Ok_0.stages.last();
                &&& after->Ok_0.source == before->Ok_0.source
                &&& after->Ok_0.selector == before->Ok_0.selector
                &&& after->Ok_0.frames == before->Ok_0.frames
                &&& after->Ok_0.stages.len() == before->Ok_0.stages.len() + 1
                &&& after->Ok_0.stages.drop_last() == before->Ok_0.stages
                &&& nodes[id] is Decode ==> stage is Decode
                &&& nodes[id] is Filter ==> stage is Filter && stage->Filter_name
                    == nodes[id]->Filter_name && stage->Filter_params == nodes[id]->Filter_params
                &&& nodes[id] is PixConvert ==> stage is Convert && stage->Convert_target
                    == nodes[id]->PixConvert_target
                &&& nodes[id] is Encode ==> stage is Encode && stage->Encode_codec
                    == nodes[id]->Encode_codec && stage->Encode_params == nodes[id]->Encode_params
            }
        }),
{
    let before = chain_of(nodes, upstream as int);
    let after = chain_of(nodes, id);
    if after is Ok {
        assert(after->Ok_0.stages.drop_last() =~= before->Ok_0.stages);
    }
}

/// A chain begins at a source, with no stage: at a source itself it takes any stream, and
/// behind a selection of a source's streams what the selection says; it hands out frames
/// exactly where the source does.
pub proof fn chain_begins_at_its_source(nodes: Seq<DagNode>, id: int)
    requires
        0 <= id < nodes.len(),
        nodes[id].reads_below(id),
    ensures
        ({
            let c = chain_of(nodes, id);
            &&& nodes[id] is Demuxer ==> c is Ok && c->Ok_0.source == nodes[id]->Demuxer_source
                && !c->Ok_0.frames
            &&& nodes[id] is PacketSource ==> c is Ok && c->Ok_0.source
                == nodes[id]->PacketSource_source && !c->Ok_0.frames
            &&& nodes[id] is FrameSource ==> c is Ok && c->Ok_0.source
                == nodes[id]->FrameSource_source && c->Ok_0.frames
            &&& nodes[id] is Demuxer || nodes[id] is PacketSource || nodes[id] is FrameSource ==> {
                &&& c->Ok_0.selector.kind is None && c->Ok_0.selector.index is None
                &&& c->Ok_0.stages.len() == 0
            }
            &&& nodes[id] is Select ==> {
                let source = nodes[nodes[id]->Select_upstream as int];
                let leaf = chain_of(nodes, nodes[id]->Select_upstream as int);
                &&& source is Demuxer || source is PacketSource || source is FrameSource ==> {
                    &&& c is Ok && leaf is Ok
                    &&& c->Ok_0.source == leaf->Ok_0.source
                    &&& c->Ok_0.frames == leaf->Ok_0.frames
                    &&& c->Ok_0.selector == nodes[id]->Select_selector
                    &&& c->Ok_0.stages.len() == 0
                }
                &&& !(source is Demuxer || source is PacketSource || source is FrameSource) ==> c
                    is Err && c->Err_0 is NestedSelect
            }
            &&& nodes[id] is Render3D ==> c is Err && c->Err_0 is UnresolvedRender
            &&& nodes[id] is Mux ==> c is Err && c->Err_0 is MuxInChain
        }),
{
    if nodes[id] is Select {
        let u = nodes[id]->Select_upstream as int;
        let source = nodes[u];
        assert(source is Demuxer || source is PacketSource || source is FrameSource
            ==> source.reads_below(u));
    }
}

/// Dropping decode stages keeps every other stage, in its place among the others.
pub proof fn only_decoding_is_dropped(stages: Seq<StageSpec>, more: StageSpec)
    ensures
        more is Decode ==> without_decode(stages.push(more)) == without_decode(stages),
        !(more is Decode) ==> without_decode(stages.push(more)) == without_decode(stages).push(
            more,
        ),
        without_decode(Seq::empty()) == Seq::<StageSpec>::empty(),
{
    assert(stages.push(more).drop_last() =~= stages);
}

} // verus!
