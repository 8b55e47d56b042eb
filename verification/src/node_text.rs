//! How a node of the graph is shown in a message.

use crate::dag::{DagNode, MuxTrack};
use crate::error::{
    end_is_held, holds, media_name, media_type_name, selector_text, show_selector,
};
use crate::media::pixel_code;
use crate::text::{decimal, digits, quote, quoted};
use vstd::prelude::*;
use vstd::string::StringExecFns;

verus! {

/// How a JSON value is shown, given its text; `None` for text that is no JSON.
pub uninterp spec fn json_shown(text: Seq<char>) -> Option<Seq<char>>;

pub open spec fn text_of(r: Option<String>) -> Option<Seq<char>> {
    match r {
        Some(s) => Some(s@),
        None => None,
    }
}

/// `serde_json`: the text parsed as a `Value`, and what `std::fmt::Debug` writes
/// of that value. A function of the text alone.
#[verifier::external_body]
fn serde_json_shown(text: &str) -> (r: Option<String>)
    ensures
        text_of(r) == json_shown(text@),
{
    match serde_json::from_str::<serde_json::Value>(text) {
        Ok(value) => Some(format!("{:?}", value)),
        Err(_) => None,
    }
}

/// The name of the pixel format with a number.
pub uninterp spec fn format_name(format: u16) -> Seq<char>;

/// `std::fmt::Debug` for `oxideav_core::PixelFormat`: the name of the format,
/// which its number determines.
#[verifier::external_body]
fn core_format_name(format: oxideav_core::PixelFormat) -> (r: String)
    ensures
        r@ == format_name(pixel_code(format)),
{
    format!("{:?}", format)
}

/// Options and parameters as a message shows them: the value that they are the
/// text of. Text that is no JSON is shown as it is, in quotes.
pub open spec fn options_text(text: Seq<char>) -> Seq<char> {
    match json_shown(text) {
        Some(shown) => shown,
        None => quoted(text),
    }
}

fn show_options(text: &String) -> (r: String)
    ensures
        r@ == options_text(text@),
{
    match serde_json_shown(text.as_str()) {
        Some(shown) => shown,
        None => quote(text.as_str()),
    }
}

pub open spec fn flag_text(flag: bool) -> Seq<char> {
    if flag {
        "true"@
    } else {
        "false"@
    }
}

pub open spec fn mux_track_text(t: MuxTrack) -> Seq<char> {
    "MuxTrack { kind: "@ + media_name(t.kind) + ", upstream: "@ + digits(t.upstream as nat)
        + ", copy: "@ + flag_text(t.copy) + " }"@
}

/// The first `n` inputs of a mux, separated by commas.
pub open spec fn mux_tracks_text(tracks: Seq<MuxTrack>, n: int) -> Seq<char>
    decreases n,
{
    if n <= 0 {
        Seq::empty()
    } else if n == 1 {
        mux_track_text(tracks[0])
    } else {
        mux_tracks_text(tracks, n - 1) + ", "@ + mux_track_text(tracks[n - 1])
    }
}

/// A node as a message shows it: its kind, and everything that it holds.
pub open spec fn node_text(node: DagNode) -> Seq<char> {
    match node {
        DagNode::Demuxer { source } => "Demuxer { source: "@ + quoted(source@) + " }"@,
        DagNode::PacketSource { source } => "PacketSource { source: "@ + quoted(source@) + " }"@,
        DagNode::FrameSource { source } => "FrameSource { source: "@ + quoted(source@) + " }"@,
        DagNode::Render3D { source, backend, opts } => "Render3D { source: "@ + quoted(source@)
            + ", backend: "@ + quoted(backend@) + ", opts: "@ + options_text(opts@) + " }"@,
        DagNode::Select { upstream, selector } => "Select { upstream: "@ + digits(upstream as nat)
            + ", selector: "@ + selector_text(selector.kind, selector.index) + " }"@,
        DagNode::Decode { upstream } => "Decode { upstream: "@ + digits(upstream as nat) + " }"@,
        DagNode::Filter { upstream, name, params } => "Filter { upstream: "@ + digits(
            upstream as nat,
        ) + ", name: "@ + quoted(name@) + ", params: "@ + options_text(params@) + " }"@,
        DagNode::PixConvert { upstream, target } => "PixConvert { upstream: "@ + digits(
            upstream as nat,
        ) + ", target: "@ + format_name(pixel_code(target)) + " }"@,
        DagNode::Encode { upstream, codec, params } => "Encode { upstream: "@ + digits(
            upstream as nat,
        ) + ", codec: "@ + quoted(codec@) + ", params: "@ + options_text(params@) + " }"@,
        DagNode::Mux { target, tracks } => "Mux { target: "@ + quoted(target@) + ", tracks: ["@
            + mux_tracks_text(tracks@, tracks@.len() as int) + "] }"@,
    }
}

fn show_mux_track(t: &MuxTrack) -> (r: String)
    ensures
        r@ == mux_track_text(*t),
{
    let mut r = String::from_str("MuxTrack { kind: ");
    r.append(media_type_name(t.kind));
    r.append(", upstream: ");
    r.append(decimal(t.upstream as u64).as_str());
    r.append(", copy: ");
    if t.copy {
        r.append("true");
    } else {
        r.append("false");
    }
    r.append(" }");
    r
}

fn show_mux_tracks(tracks: &Vec<MuxTrack>) -> (r: String)
    ensures
        r@ == mux_tracks_text(tracks@, tracks@.len() as int),
{
    proof {
        reveal_strlit("");
    }
    let mut r = String::from_str("");
    assert(r@ =~= Seq::empty());
    let mut i: usize = 0;
    while i < tracks.len()
        invariant
            i <= tracks.len(),
            r@ == mux_tracks_text(tracks@, i as int),
        decreases tracks.len() - i,
    {
        if i > 0 {
            r.append(", ");
        }
        let shown = show_mux_track(&tracks[i]);
        let ghost before = r@;
        r.append(shown.as_str());
        assert(i == 0 ==> r@ =~= shown@);
        i += 1;
    }
    r
}

/// Begins the text of a node with its first part.
fn begin(start: &str, first: &str) -> (r: String)
    ensures
        r@ == start@ + first@,
{
    let mut r = String::from_str(start);
    r.append(first);
    r
}

/// Shows a node, with everything that it holds.
pub fn show_node(node: &DagNode) -> (r: String)
    ensures
        r@ == node_text(*node),
{
    let mut r = match node {
        DagNode::Demuxer { source } => begin(
            "Demuxer { source: ",
            quote(source.as_str()).as_str(),
        ),
        DagNode::PacketSource { source } => begin(
            "PacketSource { source: ",
            quote(source.as_str()).as_str(),
        ),
        DagNode::FrameSource { source } => begin(
            "FrameSource { source: ",
            quote(source.as_str()).as_str(),
        ),
        DagNode::Render3D { source, backend, opts } => {
            let mut r = begin("Render3D { source: ", quote(source.as_str()).as_str());
            r.append(", backend: ");
            r.append(quote(backend.as_str()).as_str());
            r.append(", opts: ");
            r.append(show_options(opts).as_str());
            r
        },
        DagNode::Select { upstream, selector } => {
            let mut r = begin("Select { upstream: ", decimal(*upstream as u64).as_str());
            r.append(", selector: ");
            r.append(show_selector(selector.kind, selector.index).as_str());
            r
        },
        DagNode::Decode { upstream } => begin(
            "Decode { upstream: ",
            decimal(*upstream as u64).as_str(),
        ),
        DagNode::Filter { upstream, name, params } => {
            let mut r = begin("Filter { upstream: ", decimal(*upstream as u64).as_str());
            r.append(", name: ");
            r.append(quote(name.as_str()).as_str());
            r.append(", params: ");
            r.append(show_options(params).as_str());
            r
        },
        DagNode::PixConvert { upstream, target } => {
            let mut r = begin("PixConvert { upstream: ", decimal(*upstream as u64).as_str());
            r.append(", target: ");
            r.append(core_format_name(*target).as_str());
            r
        },
        DagNode::Encode { upstream, codec, params } => {
            let mut r = begin("Encode { upstream: ", decimal(*upstream as u64).as_str());
            r.append(", codec: ");
            r.append(quote(codec.as_str()).as_str());
            r.append(", params: ");
            r.append(show_options(params).as_str());
            r
        },
        DagNode::Mux { target, tracks } => {
            let mut r = begin("Mux { target: ", quote(target.as_str()).as_str());
            r.append(", tracks: [");
            r.append(show_mux_tracks(tracks).as_str());
            r.append("]");
            proof {
                reveal_strlit("]");
                reveal_strlit(" }");
                reveal_strlit("] }");
                assert("]"@ + " }"@ =~= "] }"@);
            }
            r
        },
    };
    let ghost before = r@;
    r.append(" }");
    proof {
        if node is Mux {
            let head = "Mux { target: "@ + quoted(node->Mux_target@) + ", tracks: ["@
                + mux_tracks_text(node->Mux_tracks@, node->Mux_tracks@.len() as int);
            assert(before == head + "]"@);
            assert(head + "]"@ + " }"@ =~= head + ("]"@ + " }"@));
        }
    }
    r
}

proof fn still_held(text: Seq<char>, part: Seq<char>, after: Seq<char>)
    requires
        holds(text, part),
    ensures
        holds(text + after, part),
{
    let i = choose|i: int|
        0 <= i && i + part.len() <= text.len() && #[trigger] text.subrange(i, i + part.len())
            == part;
    assert((text + after).subrange(i, i + part.len()) =~= part);
}

/// The text of a node with two things in it holds both.
proof fn two_are_held(
    a: Seq<char>,
    first: Seq<char>,
    b: Seq<char>,
    second: Seq<char>,
    c: Seq<char>,
)
    ensures
        holds(a + first + b + second + c, first),
        holds(a + first + b + second + c, second),
{
    end_is_held(a, first);
    still_held(a + first, first, b);
    still_held(a + first + b, first, second);
    still_held(a + first + b + second, first, c);
    end_is_held(a + first + b, second);
    still_held(a + first + b + second, second, c);
}

/// The text of a node holds everything that the node holds: the names in quotes, the
/// number of the node that it reads from, what it selects, its format, and its options.
pub proof fn node_shows_what_it_holds(node: DagNode)
    ensures
        node matches DagNode::Demuxer { source } ==> holds(node_text(node), quoted(source@)),
        node matches DagNode::PacketSource { source } ==> holds(node_text(node), quoted(source@)),
        node matches DagNode::FrameSource { source } ==> holds(node_text(node), quoted(source@)),
        node matches DagNode::Select { upstream, selector } ==> holds(
            node_text(node),
            digits(upstream as nat),
        ) && holds(node_text(node), selector_text(selector.kind, selector.index)),
        node matches DagNode::Decode { upstream } ==> holds(
            node_text(node),
            digits(upstream as nat),
        ),
        node matches DagNode::PixConvert { upstream, target } ==> holds(
            node_text(node),
            digits(upstream as nat),
        ) && holds(node_text(node), format_name(pixel_code(target))),
        node matches DagNode::Filter { upstream, name, params } ==> holds(
            node_text(node),
            digits(upstream as nat),
        ) && holds(node_text(node), quoted(name@)) && holds(node_text(node), options_text(params@)),
        node matches DagNode::Encode { upstream, codec, params } ==> holds(
            node_text(node),
            digits(upstream as nat),
        ) && holds(node_text(node), quoted(codec@)) && holds(
            node_text(node),
            options_text(params@),
        ),
        node matches DagNode::Render3D { source, backend, opts } ==> holds(
            node_text(node),
            quoted(source@),
        ) && holds(node_text(node), quoted(backend@)) && holds(node_text(node), options_text(opts@)),
        node matches DagNode::Mux { target, tracks } ==> holds(node_text(node), quoted(target@))
            && holds(node_text(node), mux_tracks_text(tracks@, tracks@.len() as int)),
{
    match node {
        DagNode::Demuxer { source } => {
            end_is_held("Demuxer { source: "@, quoted(source@));
            still_held("Demuxer { source: "@ + quoted(source@), quoted(source@), " }"@);
        },
        DagNode::PacketSource { source } => {
            end_is_held("PacketSource { source: "@, quoted(source@));
            still_held("PacketSource { source: "@ + quoted(source@), quoted(source@), " }"@);
        },
        DagNode::FrameSource { source } => {
            end_is_held("FrameSource { source: "@, quoted(source@));
            still_held("FrameSource { source: "@ + quoted(source@), quoted(source@), " }"@);
        },
        DagNode::Select { upstream, selector } => two_are_held(
            "Select { upstream: "@,
            digits(upstream as nat),
            ", selector: "@,
            selector_text(selector.kind, selector.index),
            " }"@,
        ),
        DagNode::Decode { upstream } => {
            let n = digits(upstream as nat);
            end_is_held("Decode { upstream: "@, n);
            still_held("Decode { upstream: "@ + n, n, " }"@);
        },
        DagNode::PixConvert { upstream, target } => two_are_held(
            "PixConvert { upstream: "@,
            digits(upstream as nat),
            ", target: "@,
            format_name(pixel_code(target)),
            " }"@,
        ),
        DagNode::Filter { upstream, name, params } => three_are_held(
            "Filter { upstream: "@,
            digits(upstream as nat),
            ", name: "@,
            quoted(name@),
            ", params: "@,
            options_text(params@),
            " }"@,
        ),
        DagNode::Encode { upstream, codec, params } => three_are_held(
            "Encode { upstream: "@,
            digits(upstream as nat),
            ", codec: "@,
            quoted(codec@),
            ", params: "@,
            options_text(params@),
            " }"@,
        ),
        DagNode::Render3D { source, backend, opts } => three_are_held(
            "Render3D { source: "@,
            quoted(source@),
            ", backend: "@,
            quoted(backend@),
            ", opts: "@,
            options_text(opts@),
            " }"@,
        ),
        DagNode::Mux { target, tracks } => two_are_held(
            "Mux { target: "@,
            quoted(target@),
            ", tracks: ["@,
            mux_tracks_text(tracks@, tracks@.len() as int),
            "] }"@,
        ),
    }
}

proof fn three_are_held(
    a: Seq<char>,
    first: Seq<char>,
    b: Seq<char>,
    second: Seq<char>,
    c: Seq<char>,
    third: Seq<char>,
    d: Seq<char>,
)
    ensures
        holds(a + first + b + second + c + third + d, first),
        holds(a + first + b + second + c + third + d, second),
        holds(a + first + b + second + c + third + d, third),
{
    two_are_held(a, first, b, second, c);
    let text = a + first + b + second + c;
    still_held(text, first, third);
    still_held(text, second, third);
    still_held(text + third, first, d);
    still_held(text + third, second, d);
    end_is_held(text, third);
    still_held(text + third, third, d);
}

} // verus!
