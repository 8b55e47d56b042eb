//! What one track counts for, once it is read: the same whether its stages take turns
//! on one thread or each has a worker of its own.

use crate::scripted::{
    decoding_tally, delivery_tally, drain_tally, flush_tally, frames_add_up,
    no_frames_change_nothing, packets_add_up, passes_add_up, PacketScript, Script, Tally, World,
};
use crate::staged::Downstream;
use crate::whole_serial::{fresh, Feed, TrackScript};
use crate::whole_sinks::{of_copied, of_encoded, packets_of};
use crate::whole_staged::{
    counted_here, decode_tally, decoded_frames, decoder_tally, packet_frames, packet_part,
    stage_extra, stage_out,
};
use vstd::prelude::*;

verus! {

impl<F, E> Script<F, E> {
    /// What comes of frames that enter stage `k` of `n` and are the last ones: each
    /// stage takes all of its frames and is then flushed.
    pub open spec fn chain(self, given: Seq<Seq<F>>, k: int, n: int, frames: Seq<F>) -> (
        Seq<F>,
        nat,
    )
        decreases n - k,
    {
        if k >= n {
            (frames, 0)
        } else {
            let all = given[k] + frames;
            let held = (self.held)(k, all);
            let (out, x) = self.chain(
                given.update(k, all),
                k + 1,
                n,
                self.outs(k, given[k], frames) + held.primary@,
            );
            (out, self.extras(k, given[k], frames) + held.extras@.len() + x)
        }
    }

    /// The same for stages that have been given nothing before: one worker after
    /// the other.
    pub open spec fn staged(self, k: int, n: int, frames: Seq<F>) -> (Seq<F>, nat)
        decreases n - k,
    {
        if k >= n {
            (frames, 0)
        } else {
            let (out, x) = self.staged(k + 1, n, stage_out(self, k, frames));
            (out, stage_extra(self, k, frames) + x)
        }
    }

    /// The frames that reach stage `k`.
    pub open spec fn reaching(self, k: int, frames: Seq<F>) -> Seq<F>
        decreases k,
    {
        if k <= 0 {
            frames
        } else {
            stage_out(self, k - 1, self.reaching(k - 1, frames))
        }
    }
}

proof fn stages_in_turn_or_in_a_row<F, E>(
    script: Script<F, E>,
    given: Seq<Seq<F>>,
    k: int,
    n: int,
    frames: Seq<F>,
)
    requires
        0 <= k,
        n <= given.len(),
    ensures
        ({
            let (o, g, x) = script.pass(given, k, n, frames);
            let (p, _, y) = script.flush(g, k, n);
            script.chain(given, k, n, frames) == (o + p, x + y)
        }),
    decreases n - k,
{
    if k >= n {
        assert(frames + Seq::<F>::empty() =~= frames);
    } else {
        let all = given[k] + frames;
        let gk = given.update(k, all);
        let made = script.outs(k, given[k], frames);
        let held = (script.held)(k, all);
        let (o, g, x) = script.pass(gk, k + 1, n, made);
        passes_add_up(script, gk, k + 1, n, made, held.primary@);
        assert(g[k] == all);
        let (p, g2, y) = script.pass(g, k + 1, n, held.primary@);
        stages_in_turn_or_in_a_row(script, gk, k + 1, n, made + held.primary@);
        let (r, _, z) = script.flush(g2, k + 1, n);
        assert(o + p + r =~= o + (p + r));
    }
}

proof fn chain_of_fresh_stages<F, E>(
    script: Script<F, E>,
    given: Seq<Seq<F>>,
    k: int,
    n: int,
    frames: Seq<F>,
)
    requires
        0 <= k,
        n <= given.len(),
        forall|j: int| k <= j < n ==> (#[trigger] given[j]).len() == 0,
    ensures
        script.chain(given, k, n, frames) == script.staged(k, n, frames),
    decreases n - k,
{
    if k < n {
        assert(given[k] =~= Seq::empty());
        assert(given[k] + frames =~= frames);
        chain_of_fresh_stages(
            script,
            given.update(k, frames),
            k + 1,
            n,
            stage_out(script, k, frames),
        );
    }
}

/// The frames of a feed, with what the decoder still holds at its end.
pub open spec fn all_frames<F, E>(script: Script<F, E>, feed: Feed<F>) -> Seq<F> {
    match feed {
        Feed::Packets(packets) => decoded_frames(packets) + script.tail,
        Feed::Frames(frames) => frames,
    }
}

/// How many packets are skipped.
pub open spec fn skips<F>(packets: Seq<PacketScript<F>>) -> nat
    decreases packets.len(),
{
    if packets.len() == 0 {
        0
    } else {
        skips(packets.skip(1)) + (if !packets[0].accepted || (packets[0].failed
            && packets[0].frames.len() == 0) {
            1nat
        } else {
            0
        })
    }
}

/// What decoding alone counts for.
pub open spec fn made_of<F>(feed: Feed<F>) -> Tally {
    match feed {
        Feed::Packets(packets) => Tally {
            decoded: decoded_frames(packets).len(),
            skipped: skips(packets),
            ..Tally::none()
        },
        Feed::Frames(_) => Tally::none(),
    }
}

/// The feed from position `i` on.
pub open spec fn feed_from<F>(feed: Feed<F>, i: nat) -> Feed<F> {
    match feed {
        Feed::Packets(packets) => Feed::Packets(packets.skip(i as int)),
        Feed::Frames(frames) => Feed::Frames(frames.skip(i as int)),
    }
}

/// The frames of a feed alone.
pub open spec fn feed_frames<F>(feed: Feed<F>) -> Seq<F> {
    match feed {
        Feed::Packets(packets) => decoded_frames(packets),
        Feed::Frames(frames) => frames,
    }
}

/// Worlds that differ at most in the packet that was decoded last.
pub open spec fn same_but_packet<F>(a: World<F>, b: World<F>) -> bool {
    a == World { packet: a.packet, ..b }
}

proof fn copies_add_up<F, E>(g: TrackScript<F, E>, w: World<F>, i: nat)
    requires
        g.track.copy,
        g.feed is Packets,
        i <= g.feed.len(),
    ensures
        ({
            let n = (g.feed.len() - i) as nat;
            &&& g.feed_tally(w, i) == of_copied(n)
            &&& g.feed_through(w, i).shown == w.shown
        }),
    decreases g.feed.len() - i,
{
    let n = (g.feed.len() - i) as nat;
    if i < g.feed.len() {
        copies_add_up(g, g.item_through(w, i), i + 1);
    }
    assert(g.feed_tally(w, i) =~= of_copied(n));
}

proof fn feed_adds_up<F, E>(g: TrackScript<F, E>, w: World<F>, i: nat)
    requires
        !g.track.copy,
        i <= g.feed.len(),
    ensures
        ({
            let rest = feed_from(g.feed, i);
            let frames = feed_frames(rest);
            let encoder = g.track.has_encoder;
            &&& g.feed_tally(w, i) == made_of(rest).plus(
                g.script.frames_tally(encoder, w, frames),
            )
            &&& same_but_packet(
                g.feed_through(w, i),
                g.script.frames_through(encoder, w, frames),
            )
        }),
    decreases g.feed.len() - i,
{
    let rest = feed_from(g.feed, i);
    let encoder = g.track.has_encoder;
    if i == g.feed.len() {
        match g.feed {
            Feed::Packets(packets) => {
                assert(packets.skip(i as int).len() == 0);
                assert(decoded_frames(packets.skip(i as int)) =~= Seq::empty());
            },
            Feed::Frames(frames) => {
                assert(frames.skip(i as int) =~= Seq::empty());
            },
        }
        assert(feed_frames(rest) =~= Seq::empty());
        no_frames_change_nothing(g.script, encoder, w);
        assert(g.feed_tally(w, i) =~= made_of(rest).plus(Tally::none()));
        assert(w == World { packet: w.packet, ..w });
    } else {
        let w1 = g.item_through(w, i);
        feed_adds_up(g, w1, i + 1);
        let next = feed_from(g.feed, i + 1);
        let more = feed_frames(next);
        let first: Seq<F> = match g.feed {
            Feed::Packets(packets) => packet_frames(packets[i as int]),
            Feed::Frames(frames) => seq![frames[i as int]],
        };
        match g.feed {
            Feed::Packets(packets) => {
                let all = packets.skip(i as int);
                assert(all[0] == packets[i as int]);
                assert(all.skip(1) =~= packets.skip(i as int + 1));
                assert(feed_frames(rest) == first + more);
                no_frames_change_nothing(g.script, encoder, w);
            },
            Feed::Frames(frames) => {
                assert(frames.skip(i as int) =~= first + frames.skip(i as int + 1));
            },
        }
        frames_add_up(g.script, encoder, w, first, more);
        let mid = g.script.frames_through(encoder, w, first);
        assert(w1 =~= World { packet: w1.packet, ..mid });
        assert(g.script.frames_tally(encoder, w1, more) == g.script.frames_tally(
            encoder,
            mid,
            more,
        ));
        let end = g.script.frames_through(encoder, mid, more);
        assert(g.script.frames_through(encoder, w1, more) =~= World { packet: w1.packet, ..end });
        assert(g.feed_through(w, i) == g.feed_through(w1, i + 1));
        assert(g.feed_through(w, i) =~= World { packet: g.feed_through(w, i).packet, ..end });
        assert(g.item_tally(w, i).plus(g.feed_tally(w1, i + 1)) =~= made_of(rest).plus(
            g.script.frames_tally(encoder, w, first + more),
        ));
    }
}

/// What reaches the sink in the end: the frames that leave the last stage, and how
/// many extra frames there were.
pub open spec fn arrivals<F, E>(g: TrackScript<F, E>) -> (Seq<F>, nat) {
    if g.track.copy {
        (Seq::empty(), 0)
    } else {
        g.script.staged(0, g.track.stages.len() as int, all_frames(g.script, g.feed))
    }
}

/// What a track counts for, once its source is read.
pub open spec fn track_tally<F, E>(g: TrackScript<F, E>) -> Tally {
    if g.track.copy {
        of_copied(g.feed.len())
    } else {
        frames_track_tally(g)
    }
}

/// What a track counts for whose packets are not copied.
pub open spec fn frames_track_tally<F, E>(g: TrackScript<F, E>) -> Tally {
    let (out, extras) = arrivals(g);
    let tail: nat = match g.feed {
        Feed::Packets(_) => g.script.tail.len(),
        Feed::Frames(_) => 0,
    };
    made_of(g.feed).plus(Tally { decoded: tail, ..Tally::none() }).plus(
        Tally::of_written(extras),
    ).plus(
        if g.track.has_encoder {
            of_encoded(packets_of(g.script, out))
        } else {
            Tally::of_written(out.len())
        },
    )
}

/// A world in which nothing has happened yet.
pub open spec fn untouched<F>(w: World<F>, stages: nat) -> bool {
    &&& fresh(w, stages)
    &&& forall|j: int| 0 <= j < stages ==> (#[trigger] w.given[j]).len() == 0
    &&& w.fed.len() == 0
    &&& w.shown == 0
}

/// On one thread, a track counts for just this, and shows the sink the frames that it
/// counts as written.
pub proof fn serial_track_counts<F, E>(g: TrackScript<F, E>, w: World<F>)
    requires
        g.wf(),
        untouched(w, g.track.stages.len()),
    ensures
        g.rest_tally(w, 0) == track_tally(g),
        g.rest_through(w, 0).shown == track_tally(g).written,
{
    if g.track.copy {
        copies_add_up(g, w, 0);
        assert(g.rest_tally(w, 0) =~= track_tally(g));
    } else {
        serial_tally_is(g, w);
    }
}

proof fn serial_tally_is<F, E>(g: TrackScript<F, E>, w: World<F>)
    requires
        g.wf(),
        !g.track.copy,
        untouched(w, g.track.stages.len()),
    ensures
        g.rest_tally(w, 0) == track_tally(g),
        g.rest_through(w, 0).shown == track_tally(g).written,
{
    let encoder = g.track.has_encoder;
    let n = g.track.stages.len() as int;
    let frames = feed_frames(g.feed);
    let all = all_frames(g.script, g.feed);
    assert(feed_from(g.feed, 0) == g.feed) by {
        match g.feed {
            Feed::Packets(packets) => {
                assert(packets.skip(0) =~= packets);
            },
            Feed::Frames(frames) => {
                assert(frames.skip(0) =~= frames);
            },
        }
    }
    feed_adds_up(g, w, 0);
    let w1 = g.feed_through(w, 0);
    let m1 = g.script.frames_through(encoder, w, frames);
    let tail = if g.feed is Packets {
        g.script.tail
    } else {
        Seq::empty()
    };
    frames_add_up(g.script, encoder, w, frames, tail);
    no_frames_change_nothing(g.script, encoder, m1);
    no_frames_change_nothing(g.script, encoder, w1);
    assert(frames + tail =~= all);
    let m2 = g.script.frames_through(encoder, m1, tail);
    let w2 = g.script.frames_through(encoder, w1, tail);
    assert(w2 =~= World { packet: w1.packet, ..m2 });
    assert(m2 == g.script.frames_through(encoder, w, all));
    let (o1, g1, x1) = g.script.pass(w.given, 0, n, all);
    let (o2, g2, x2) = g.script.flush(g1, 0, n);
    stages_in_turn_or_in_a_row(g.script, w.given, 0, n, all);
    chain_of_fresh_stages(g.script, w.given, 0, n, all);
    let (out, extras) = arrivals(g);
    assert(out == o1 + o2 && extras == x1 + x2);
    assert(w.fed =~= Seq::empty());
    assert(w.fed + o1 =~= o1);
    packets_add_up(g.script, Seq::empty(), o1, o2);
    assert(Seq::<F>::empty() + o1 =~= o1);
    assert(w2.given == g1);
    assert(encoder ==> w2.fed == o1);
    assert(flush_tally(g.script, encoder, w2) == flush_tally(g.script, encoder, m2));
    assert(g.script.frames_tally(encoder, w1, tail) == g.script.frames_tally(encoder, m1, tail));
    passes_add_up(g.script, w.given, 0, n, all, Seq::empty());
    assert(w2.given.len() == n);
    assert(g.script.flush(w2.given, 0, w2.given.len() as int) == (o2, g2, x2));
    let enter = g.script.frames_tally(encoder, w, all);
    let last = flush_tally(g.script, encoder, w2);
    assert(enter == Tally { written: x1, ..Tally::none() }.plus(
        delivery_tally(g.script, encoder, w.fed, o1),
    ));
    let ending = if g.feed is Packets {
        Tally { decoded: tail.len(), ..Tally::none() }
    } else {
        Tally::none()
    };
    assert(g.script.frames_tally(encoder, w, frames).plus(
        g.script.frames_tally(encoder, w1, tail),
    ) == enter);
    let drained = drain_tally(g.script, g.track.has_decoder, encoder, w1);
    if g.feed is Packets {
        assert(decoding_tally(g.script, encoder, w1, tail) =~= ending.plus(
            g.script.frames_tally(encoder, w1, tail),
        ));
    } else {
        assert(w2 == w1);
    }
    assert(drained =~= ending.plus(g.script.frames_tally(encoder, w1, tail)).plus(last));
    assert(g.rest_tally(w, 0) =~= made_of(g.feed).plus(ending).plus(enter).plus(last));
    if encoder {
        assert(w2.fed + o2 =~= out);
        assert(last.encoded == g.script.packets(o1, o2) + (g.script.kept)(out));
        assert(enter.encoded == g.script.packets(Seq::empty(), o1));
    }
    assert(enter.plus(last) =~= Tally::of_written(extras).plus(
        if encoder {
            of_encoded(packets_of(g.script, out))
        } else {
            Tally::of_written(out.len())
        },
    ));
    assert(g.rest_tally(w, 0) =~= track_tally(g));
    assert(g.rest_through(w, 0).shown == track_tally(g).written);
}

/// Where the frames that a worker at this place hands on go: the last one before
/// the encoder, or before the end of the track, has what the track has.
pub open spec fn last_or_channel(last: bool, to: Downstream) -> Downstream {
    if last {
        to
    } else {
        Downstream::Channel
    }
}

/// What the workers of the frame stages count, from stage `k` on.
pub open spec fn stages_tally<F, E>(g: TrackScript<F, E>, to: Downstream, k: int) -> Tally
    decreases g.track.stages.len() - k,
{
    let n = g.track.stages.len() as int;
    if k < 0 || k >= n {
        Tally::none()
    } else {
        let frames = g.script.reaching(k, all_frames(g.script, g.feed));
        let here = last_or_channel(k + 1 == n && !g.track.has_encoder, to);
        Tally::of_written(counted_here(here, stage_out(g.script, k, frames).len())).plus(
            stages_tally(g, to, k + 1),
        )
    }
}

/// What the workers of a track count together: the copier, or the decoder, one worker
/// per frame stage, and the encoder or the worker that hands frames on. `to` is where
/// the last worker delivers.
pub open spec fn workers_tally<F, E>(g: TrackScript<F, E>, to: Downstream) -> Tally {
    if g.track.copy {
        of_copied(g.feed.len())
    } else {
        frame_workers_tally(g, to)
    }
}

/// What the workers between the source and the sink count where packets are not
/// copied.
pub open spec fn frame_workers_tally<F, E>(g: TrackScript<F, E>, to: Downstream) -> Tally {
    let n = g.track.stages.len() as int;
    let encoder = g.track.has_encoder;
    let direct = n == 0 && !encoder;
    let (out, _) = arrivals(g);
    let decoder = match g.feed {
        Feed::Packets(packets) => decoder_tally(
            g.script,
            last_or_channel(direct, to),
            packets,
        ),
        Feed::Frames(_) => Tally::none(),
    };
    let end = if encoder {
        of_encoded(packets_of(g.script, out))
    } else if direct && g.feed is Frames {
        Tally::of_written(counted_here(to, out.len()))
    } else {
        Tally::none()
    };
    decoder.plus(stages_tally(g, to, 0)).plus(end)
}

proof fn decoder_counts<F>(to: Downstream, packets: Seq<PacketScript<F>>)
    ensures
        decode_tally(to, packets) == (Tally {
            read: 0,
            copied: 0,
            decoded: decoded_frames(packets).len(),
            skipped: skips(packets),
            written: counted_here(to, decoded_frames(packets).len()),
            encoded: 0,
        }),
    decreases packets.len(),
{
    if packets.len() > 0 {
        decoder_counts(to, packets.skip(1));
        let p = packets[0];
        assert(packet_part(to, p).plus(decode_tally(to, packets.skip(1))) =~= Tally {
            read: 0,
            copied: 0,
            decoded: decoded_frames(packets).len(),
            skipped: skips(packets),
            written: counted_here(to, decoded_frames(packets).len()),
            encoded: 0,
        });
    } else {
        assert(decode_tally(to, packets) =~= Tally {
            read: 0,
            copied: 0,
            decoded: 0,
            skipped: 0,
            written: 0,
            encoded: 0,
        });
    }
}

proof fn stages_count<F, E>(g: TrackScript<F, E>, to: Downstream, k: int)
    requires
        0 <= k <= g.track.stages.len(),
    ensures
        ({
            let n = g.track.stages.len() as int;
            let frames = g.script.reaching(k, all_frames(g.script, g.feed));
            let (out, _) = g.script.staged(k, n, frames);
            stages_tally(g, to, k) == Tally::of_written(
                if k < n && !g.track.has_encoder {
                    counted_here(to, out.len())
                } else {
                    0
                },
            )
        }),
    decreases g.track.stages.len() - k,
{
    let n = g.track.stages.len() as int;
    if k < n {
        stages_count(g, to, k + 1);
        let frames = g.script.reaching(k, all_frames(g.script, g.feed));
        assert(g.script.reaching(k + 1, all_frames(g.script, g.feed)) == stage_out(
            g.script,
            k,
            frames,
        ));
        let (out, _) = g.script.staged(k, n, frames);
        if k + 1 == n {
            let made = stage_out(g.script, k, frames);
            assert(g.script.staged(n, n, made) == (made, 0nat));
            assert(out == made);
        }
        assert(stages_tally(g, to, k) =~= Tally::of_written(
            if !g.track.has_encoder {
                counted_here(to, out.len())
            } else {
                0
            },
        ));
    } else {
        assert(Tally::none() =~= Tally::of_written(0));
    }
}

/// How many frames of a track reach the queue of the output's sink: the extra frames,
/// and those that leave the last stage unless they are encoded.
pub open spec fn frames_for_sink<F, E>(g: TrackScript<F, E>) -> nat {
    arrivals(g).1 + (if g.track.has_encoder {
        0
    } else {
        arrivals(g).0.len()
    })
}

/// With a worker for each stage, a track counts for the same as on one thread: its
/// workers count everything but the frames that they hand to the output's sink, and
/// the loop that feeds the sink counts those. A sink of the track's own takes no extra
/// frames.
pub proof fn staged_track_counts<F, E>(g: TrackScript<F, E>, to: Downstream)
    requires
        g.wf(),
        to is Independent ==> arrivals(g).1 == 0,
    ensures
        track_tally(g) == workers_tally(g, to).plus(
            Tally::of_written(
                if to is Independent {
                    0
                } else {
                    frames_for_sink(g)
                },
            ),
        ),
{
    let n = g.track.stages.len() as int;
    let direct = n == 0 && !g.track.has_encoder;
    if !g.track.copy {
        stages_count(g, to, 0);
        match g.feed {
            Feed::Packets(packets) => {
                decoder_counts(last_or_channel(direct, to), packets);
            },
            Feed::Frames(_) => {},
        }
    }
    assert(track_tally(g) =~= workers_tally(g, to).plus(
        Tally::of_written(
            if to is Independent {
                0
            } else {
                frames_for_sink(g)
            },
        ),
    ));
}

pub(crate) proof fn frames_reach_the_end<F, E>(script: Script<F, E>, k: int, n: int, frames: Seq<F>)
    requires
        0 <= k <= n,
    ensures
        script.staged(k, n, script.reaching(k, frames)).0 == script.reaching(n, frames),
    decreases n - k,
{
    if k < n {
        frames_reach_the_end(script, k + 1, n, frames);
    }
}

} // verus!
