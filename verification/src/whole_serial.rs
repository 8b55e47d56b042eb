//! A whole output on one thread, of any tracks over any sources, from starting its
//! sink to its final counters.

use crate::pump::{drain_mode, packet_mode, Mode, PumpTrackView, PumpView, Reply};
use crate::scripted::{
    after_turns, copied_track_is_drained, drain_tally, drain_through, finishes, frame_is_pumped,
    frames_add_up, going, leading_adds_up, leads_to, nothing_leads_nowhere, one_turn_leads,
    packet_is_copied, packet_is_pumped, packet_tally, packet_through, settled, track_is_drained,
    PacketScript, PumpSystem, Script, Tally, World,
};
use crate::serial::{
    open_from_range, takes, taker_from, taker_from_range, turn, SerialCommand, SerialPhase,
    SerialReply, SerialSource, SerialTrack, SerialView,
};
use crate::stats::ExecutorStats;
use crate::sums::{
    nothing_sums_up, sum, sum_updated, total, total_of_naturals, total_updated,
};
use crate::whole_source::Supply;
use crate::whole_staged::sizes_of;
use vstd::prelude::*;

verus! {

/// What a track is given: packets, with what its decoder makes of each, or frames.
pub enum Feed<F> {
    Packets(Seq<PacketScript<F>>),
    Frames(Seq<F>),
}

impl<F> Feed<F> {
    pub open spec fn len(self) -> nat {
        match self {
            Feed::Packets(p) => p.len(),
            Feed::Frames(f) => f.len(),
        }
    }
}

/// A track: its source, by position, and the stream of it that it takes; what it is
/// given; and what its decoder, stages and encoder do.
#[verifier::reject_recursive_types(F)]
pub struct TrackScript<F, E> {
    pub script: Script<F, E>,
    pub feed: Feed<F>,
    pub track: PumpTrackView,
    pub source: usize,
    pub stream: u32,
}

impl<F, E> TrackScript<F, E> {
    /// What one packet or frame of the feed counts for, once it was read.
    pub open spec fn item_tally(self, w: World<F>, i: nat) -> Tally {
        match self.feed {
            Feed::Packets(packets) => if self.track.copy {
                Tally { copied: 1, ..Tally::none() }
            } else {
                packet_tally(self.script, self.track.has_encoder, w, packets[i as int])
            },
            Feed::Frames(frames) => self.script.frames_tally(
                self.track.has_encoder,
                w,
                seq![frames[i as int]],
            ),
        }
    }

    /// The world after one packet or frame of the feed.
    pub open spec fn item_through(self, w: World<F>, i: nat) -> World<F> {
        match self.feed {
            Feed::Packets(packets) => {
                let w1 = World { packet: packets[i as int], ..w };
                if self.track.copy {
                    w1
                } else {
                    packet_through(self.script, self.track.has_encoder, w1, packets[i as int])
                }
            },
            Feed::Frames(frames) => self.script.frames_through(
                self.track.has_encoder,
                w,
                seq![frames[i as int]],
            ),
        }
    }

    /// What the rest of the feed counts for, from position `i` on.
    pub open spec fn feed_tally(self, w: World<F>, i: nat) -> Tally
        decreases self.feed.len() - i,
    {
        if i >= self.feed.len() {
            Tally::none()
        } else {
            self.item_tally(w, i).plus(self.feed_tally(self.item_through(w, i), i + 1))
        }
    }

    /// The world after the rest of the feed.
    pub open spec fn feed_through(self, w: World<F>, i: nat) -> World<F>
        decreases self.feed.len() - i,
    {
        if i >= self.feed.len() {
            w
        } else {
            self.feed_through(self.item_through(w, i), i + 1)
        }
    }

    /// What the end of the stream counts for.
    pub open spec fn end_tally(self, w: World<F>) -> Tally {
        if self.track.copy {
            Tally::none()
        } else {
            drain_tally(self.script, self.track.has_decoder, self.track.has_encoder, w)
        }
    }

    /// The world after the end of the stream.
    pub open spec fn end_through(self, w: World<F>) -> World<F> {
        if self.track.copy {
            w
        } else {
            drain_through(self.script, self.track.has_decoder, self.track.has_encoder, w)
        }
    }

    /// What the rest of the feed and the end of the stream count for.
    pub open spec fn rest_tally(self, w: World<F>, i: nat) -> Tally {
        self.feed_tally(w, i).plus(self.end_tally(self.feed_through(w, i)))
    }

    /// The world after the rest of the feed and the end of the stream.
    pub open spec fn rest_through(self, w: World<F>, i: nat) -> World<F> {
        self.end_through(self.feed_through(w, i))
    }

    /// The track and its feed go together: packets are copied or decoded, frames
    /// are neither.
    pub open spec fn wf(self) -> bool {
        &&& self.track.copy ==> self.feed is Packets
        &&& self.track.stages.len() <= usize::MAX
        &&& !self.track.copy ==> (self.track.has_decoder <==> self.feed is Packets)
    }

    /// What the track is given is what its source hands out for it.
    pub open spec fn fed_by(self, supply: Supply<F>) -> bool {
        match (self.feed, supply) {
            (Feed::Packets(packets), Supply::Packets(_)) => sizes_of(packets) == supply.share(
                self.stream,
                supply.len(),
            ),
            (Feed::Frames(frames), Supply::Frames(all)) => frames == all,
            _ => false,
        }
    }
}

/// What the sources of an output hand out, and the tracks that take it.
#[verifier::reject_recursive_types(F)]
pub struct OutputScript<F, E> {
    pub supplies: Seq<Supply<F>>,
    pub tracks: Seq<TrackScript<F, E>>,
}

/// An output under way on one thread.
#[verifier::ext_equal]
pub struct SerialSystem<F, E> {
    pub run: SerialView,
    /// How much of each source has been read.
    pub read: Seq<nat>,
    /// How much of its feed each track has been given.
    pub fed: Seq<nat>,
    pub worlds: Seq<World<F>>,
    /// The pump of the track that is fed or drained, while it is at work.
    pub pump: Option<PumpSystem<F, E>>,
    pub command: SerialCommand<E>,
}

/// The track that is fed or drained.
pub open spec fn busy(phase: SerialPhase) -> int {
    match phase {
        SerialPhase::Feeding { track, .. } => track as int,
        SerialPhase::Draining { track } => track as int,
        _ => 0,
    }
}

impl<F, E> OutputScript<F, E> {
    pub open spec fn wf(self) -> bool {
        &&& self.supplies.len() <= usize::MAX
        &&& self.tracks.len() <= u32::MAX
        &&& forall|t: int|
            0 <= t < self.tracks.len() ==> {
                let g = #[trigger] self.tracks[t];
                g.wf() && g.source < self.supplies.len() && g.fed_by(
                    self.supplies[g.source as int],
                )
            }
    }

    pub open spec fn answered(self, y: SerialSystem<F, E>, reply: SerialReply<E>) -> SerialSystem<
        F,
        E,
    > {
        let (run, command) = y.run.step(reply);
        SerialSystem { run, command, ..y }
    }

    /// The pump of a track starts on something.
    pub open spec fn pumping(
        self,
        y: SerialSystem<F, E>,
        t: int,
        world: World<F>,
        mode: Mode,
        lease: Option<F>,
    ) -> SerialSystem<F, E> {
        let (pump, stats, command) = PumpView::<F>::started(
            self.tracks[t].track,
            mode,
            lease,
        ).step::<E>(y.run.stats, Reply::Start);
        SerialSystem { pump: Some(PumpSystem { pump, stats, world, command }), ..y }
    }

    /// One call and what comes of it; nothing once the output is finished.
    pub open spec fn turn(self, y: SerialSystem<F, E>) -> SerialSystem<F, E> {
        match y.pump {
            Some(p) => {
                let t = busy(y.run.phase);
                if p.command is Finished {
                    self.answered(
                        SerialSystem {
                            run: SerialView { stats: p.stats, ..y.run },
                            worlds: y.worlds.update(t, p.world),
                            pump: None,
                            ..y
                        },
                        SerialReply::Done,
                    )
                } else {
                    SerialSystem { pump: Some(self.tracks[t].script.turn(p)), ..y }
                }
            },
            None => match y.command {
                SerialCommand::StartSink | SerialCommand::FinishSink => self.answered(
                    y,
                    SerialReply::Done,
                ),
                SerialCommand::ReadPacket { source } | SerialCommand::ReadFrame { source } => {
                    let s = source as int;
                    let i = y.read[s];
                    if i < self.supplies[s].len() {
                        self.answered(
                            SerialSystem { read: y.read.update(s, i + 1), ..y },
                            match self.supplies[s] {
                                Supply::Packets(p) => SerialReply::Packet {
                                    stream: p[i as int].stream,
                                },
                                Supply::Frames(_) => SerialReply::Frame,
                            },
                        )
                    } else {
                        self.answered(y, SerialReply::Eof)
                    }
                },
                SerialCommand::FeedPacket { track } => {
                    let t = track as int;
                    let g = self.tracks[t];
                    let w = World {
                        packet: g.feed->Packets_0[y.fed[t] as int],
                        ..y.worlds[t]
                    };
                    self.pumping(
                        SerialSystem { fed: y.fed.update(t, y.fed[t] + 1), ..y },
                        t,
                        w,
                        packet_mode(g.track),
                        None,
                    )
                },
                SerialCommand::FeedFrame { track } => {
                    let t = track as int;
                    let g = self.tracks[t];
                    self.pumping(
                        SerialSystem { fed: y.fed.update(t, y.fed[t] + 1), ..y },
                        t,
                        y.worlds[t],
                        Mode::Single,
                        Some(g.feed->Frames_0[y.fed[t] as int]),
                    )
                },
                SerialCommand::Drain { track } => {
                    let t = track as int;
                    self.pumping(y, t, y.worlds[t], drain_mode(self.tracks[t].track), None)
                },
                _ => y,
            },
        }
    }

    pub open spec fn turns(self) -> spec_fn(SerialSystem<F, E>) -> SerialSystem<F, E> {
        |y: SerialSystem<F, E>| self.turn(y)
    }

    /// What reading the rest of each source counts for.
    pub open spec fn unread(self, read: Seq<nat>) -> Seq<Tally> {
        Seq::new(
            self.supplies.len(),
            |i: int| self.supplies[i].reading((self.supplies[i].len() - read[i]) as nat),
        )
    }

    /// What the rest counts for on each track.
    pub open spec fn unfed(self, fed: Seq<nat>, worlds: Seq<World<F>>) -> Seq<Tally> {
        Seq::new(self.tracks.len(), |t: int| self.tracks[t].rest_tally(worlds[t], fed[t]))
    }

    /// What the end of the stream counts for on each track, from track `j` on.
    pub open spec fn undrained(self, worlds: Seq<World<F>>, j: int) -> Seq<Tally> {
        Seq::new(
            self.tracks.len(),
            |t: int|
                if t < j {
                    Tally::none()
                } else {
                    self.tracks[t].end_tally(worlds[t])
                },
        )
    }

    /// What the whole output counts for.
    pub open spec fn tally(self, worlds: Seq<World<F>>) -> Tally {
        sum(self.unread(Seq::new(self.supplies.len(), |i: int| 0nat))).plus(
            sum(self.unfed(Seq::new(self.tracks.len(), |t: int| 0nat), worlds)),
        )
    }
}

/// Counters as a tally.
pub open spec fn of_stats(s: ExecutorStats) -> Tally {
    Tally {
        read: s.packets_read as nat,
        copied: s.packets_copied as nat,
        decoded: s.frames_decoded as nat,
        skipped: s.packets_skipped as nat,
        written: s.frames_written as nat,
        encoded: s.packets_encoded as nat,
    }
}

/// Nothing is under way between decoder, stages, encoder and sink.
pub open spec fn fresh<F>(w: World<F>, stages: nat) -> bool {
    settled(w) && w.given.len() == stages
}

proof fn pump_leads_on<F, E>(
    o: OutputScript<F, E>,
    y: SerialSystem<F, E>,
    p: PumpSystem<F, E>,
    q: PumpSystem<F, E>,
    n: nat,
)
    requires
        after_turns(o.tracks[busy(y.run.phase)].script.turns(), n, p) == q,
    ensures
        leads_to(
            o.turns(),
            SerialSystem { pump: Some(p), ..y },
            SerialSystem { pump: Some(q), ..y },
        ),
    decreases n,
{
    let script = o.tracks[busy(y.run.phase)].script;
    let a = SerialSystem { pump: Some(p), ..y };
    if n == 0 {
        nothing_leads_nowhere(o.turns(), a);
    } else {
        let next = script.turn(p);
        pump_leads_on(o, y, next, q, (n - 1) as nat);
        if p.command is Finished {
            assert(next == p);
        } else {
            let b = SerialSystem { pump: Some(next), ..y };
            assert(o.turn(a) == b);
            one_turn_leads(o.turns(), a);
            leading_adds_up(o.turns(), a, b, SerialSystem { pump: Some(q), ..y });
        }
    }
}

/// The output once a pump has returned.
pub open spec fn returned<F, E>(
    o: OutputScript<F, E>,
    y: SerialSystem<F, E>,
    s: ExecutorStats,
    w: World<F>,
) -> SerialSystem<F, E> {
    o.answered(
        SerialSystem {
            run: SerialView { stats: s, ..y.run },
            worlds: y.worlds.update(busy(y.run.phase), w),
            pump: None,
            ..y
        },
        SerialReply::Done,
    )
}

/// Once its pump is finished, the output goes on with what the pump counted.
proof fn pump_returns<F, E>(
    o: OutputScript<F, E>,
    y: SerialSystem<F, E>,
    p: PumpSystem<F, E>,
    s: ExecutorStats,
    w: World<F>,
)
    requires
        finishes(o.tracks[busy(y.run.phase)].script, p, s, w),
    ensures
        leads_to(o.turns(), SerialSystem { pump: Some(p), ..y }, returned(o, y, s, w)),
{
    let script = o.tracks[busy(y.run.phase)].script;
    let q = choose|q: PumpSystem<F, E>| #[trigger]
        leads_to(script.turns(), p, q) && q.command is Finished && q.stats == s && q.world == w
            && q.pump.track == p.pump.track;
    let n = choose|n: nat| #[trigger] after_turns(script.turns(), n, p) == q;
    pump_leads_on(o, y, p, q, n);
    let a = SerialSystem { pump: Some(p), ..y };
    let b = SerialSystem { pump: Some(q), ..y };
    one_turn_leads(o.turns(), b);
    assert(o.turn(b) == returned(o, y, s, w));
    leading_adds_up(o.turns(), a, b, o.turn(b));
}

proof fn world_stays_fresh<F, E>(g: TrackScript<F, E>, w: World<F>, i: nat)
    requires
        fresh(w, g.track.stages.len()),
        i < g.feed.len(),
    ensures
        fresh(g.item_through(w, i), g.track.stages.len()),
{
    match g.feed {
        Feed::Packets(packets) => {
            let p = packets[i as int];
            frames_add_up(
                g.script,
                g.track.has_encoder,
                World { packet: p, ..w },
                p.frames,
                Seq::empty(),
            );
        },
        Feed::Frames(frames) => {
            frames_add_up(
                g.script,
                g.track.has_encoder,
                w,
                seq![frames[i as int]],
                Seq::empty(),
            );
        },
    }
}

proof fn shares_grow<F>(supply: Supply<F>, stream: u32, m: nat, n: nat)
    requires
        m <= n,
    ensures
        supply.share(stream, m).len() <= supply.share(stream, n).len(),
        supply is Frames ==> supply.share(stream, n).len() == n,
    decreases n,
{
    if n > 0 {
        if m < n {
            shares_grow(supply, stream, m, (n - 1) as nat);
        } else {
            shares_grow(supply, stream, (n - 1) as nat, (n - 1) as nat);
        }
    }
}

/// How far the feed of each track has got: what its source has read, and on the
/// tracks of source `s` from `from` on one less.
pub open spec fn fed_so_far<F, E>(
    o: OutputScript<F, E>,
    y: SerialSystem<F, E>,
    s: int,
    from: int,
) -> bool {
    forall|t: int|
        0 <= t < o.tracks.len() ==> {
            let g = #[trigger] o.tracks[t];
            let n = y.read[g.source as int];
            y.fed[t] == o.supplies[g.source as int].share(
                g.stream,
                if g.source == s && t >= from {
                    (n - 1) as nat
                } else {
                    n
                },
            ).len()
        }
}

/// The output is made of the script's sources and tracks.
pub open spec fn serial_shape<F, E>(o: OutputScript<F, E>, y: SerialSystem<F, E>) -> bool {
    &&& o.wf()
    &&& y.pump is None
    &&& y.run.sources.len() == o.supplies.len()
    &&& y.read.len() == o.supplies.len()
    &&& y.run.tracks.len() == o.tracks.len()
    &&& y.fed.len() == o.tracks.len()
    &&& y.worlds.len() == o.tracks.len()
    &&& forall|i: int|
        0 <= i < o.supplies.len() ==> {
            &&& (#[trigger] y.run.sources[i]).frames == (o.supplies[i] is Frames)
            &&& y.read[i] <= o.supplies[i].len()
            &&& y.run.sources[i].eof ==> y.read[i] == o.supplies[i].len()
        }
    &&& forall|t: int|
        0 <= t < o.tracks.len() ==> #[trigger] y.run.tracks[t] == (SerialTrack {
            source: o.tracks[t].source,
            stream: o.tracks[t].stream,
        })
}

proof fn shape_stays<F, E>(o: OutputScript<F, E>, y: SerialSystem<F, E>, d: SerialSystem<F, E>)
    requires
        serial_shape(o, y),
        d.pump is None,
        d.run.sources == y.run.sources,
        d.run.tracks == y.run.tracks,
        d.read == y.read,
        d.fed.len() == y.fed.len(),
        d.worlds.len() == y.worlds.len(),
    ensures
        serial_shape(o, d),
{
    assert forall|i: int| 0 <= i < o.supplies.len() implies {
        &&& (#[trigger] d.run.sources[i]).frames == (o.supplies[i] is Frames)
        &&& d.read[i] <= o.supplies[i].len()
        &&& d.run.sources[i].eof ==> d.read[i] == o.supplies[i].len()
    } by {
        assert(y.run.sources[i].frames == (o.supplies[i] is Frames));
    }
    assert forall|t: int| 0 <= t < o.tracks.len() implies #[trigger] d.run.tracks[t] == (
    SerialTrack { source: o.tracks[t].source, stream: o.tracks[t].stream }) by {
        assert(y.run.tracks[t] == (SerialTrack {
            source: o.tracks[t].source,
            stream: o.tracks[t].stream,
        }));
    }
}

/// An output under way counts, with all that is still to come, for `whole`, and will
/// leave its tracks in the worlds `ends`.
pub open spec fn serial_fits<F, E>(
    o: OutputScript<F, E>,
    y: SerialSystem<F, E>,
    s: int,
    from: int,
    ends: Seq<World<F>>,
    whole: Tally,
) -> bool {
    &&& serial_shape(o, y)
    &&& fed_so_far(o, y, s, from)
    &&& forall|t: int|
        0 <= t < o.tracks.len() ==> fresh(#[trigger] y.worlds[t], o.tracks[t].track.stages.len())
            && o.tracks[t].rest_through(y.worlds[t], y.fed[t]) == ends[t]
    &&& of_stats(y.run.stats).plus(sum(o.unread(y.read))).plus(sum(o.unfed(y.fed, y.worlds)))
        == whole
    &&& whole.fits(ExecutorStats::zero())
}

/// The output is about to feed what it read last to the tracks from `from` on, or has
/// done so.
pub open spec fn serial_feeds<F, E>(y: SerialSystem<F, E>, s: usize, stream: u32, from: int) -> bool {
    let v = SerialView {
        phase: SerialPhase::Feeding { source: s, stream, track: from as usize },
        ..y.run
    };
    (y.run, y.command) == v.commanded::<E>()
}

/// Everything is read.
pub open spec fn all_read<F, E>(y: SerialSystem<F, E>) -> bool {
    &&& forall|i: int| 0 <= i < y.run.sources.len() ==> (#[trigger] y.run.sources[i]).eof
    &&& (y.run, y.command) == y.run.draining::<E>(0)
}

/// The output is about to read a source, or to drain its tracks.
pub open spec fn serial_rests<F, E>(y: SerialSystem<F, E>) -> bool {
    ||| {
        &&& y.run.phase is Reading
        &&& y.run.phase->Reading_source < y.run.sources.len()
        &&& !y.run.sources[y.run.phase->Reading_source as int].eof
        &&& y.command == if y.run.sources[y.run.phase->Reading_source as int].frames {
            SerialCommand::<E>::ReadFrame { source: y.run.phase->Reading_source }
        } else {
            SerialCommand::<E>::ReadPacket { source: y.run.phase->Reading_source }
        }
    }
    ||| all_read(y)
}

proof fn reading_rests<F, E>(y: SerialSystem<F, E>, v: SerialView, k: int)
    requires
        (y.run, y.command) == v.reading::<E>(k),
        0 <= k <= v.sources.len() <= usize::MAX,
    ensures
        serial_rests(y),
{
    open_from_range(v.sources, k);
    open_from_range(v.sources, 0);
}

/// A pump that starts on one packet or frame of a feed.
pub open spec fn item_pump<F, E>(
    g: TrackScript<F, E>,
    w: World<F>,
    i: nat,
    s: ExecutorStats,
) -> PumpSystem<F, E> {
    match g.feed {
        Feed::Packets(packets) => going::<F, E>(
            PumpView::<F>::started(g.track, packet_mode(g.track), None),
            s,
            World { packet: packets[i as int], ..w },
        ),
        Feed::Frames(frames) => going::<F, E>(
            PumpView::<F>::started(g.track, Mode::Single, Some(frames[i as int])),
            s,
            w,
        ),
    }
}

proof fn item_is_pumped<F, E>(g: TrackScript<F, E>, w: World<F>, i: nat, s: ExecutorStats)
    requires
        g.wf(),
        fresh(w, g.track.stages.len()),
        i < g.feed.len(),
        g.item_tally(w, i).fits(s),
    ensures
        finishes(
            g.script,
            item_pump(g, w, i, s),
            g.item_tally(w, i).added(s),
            g.item_through(w, i),
        ),
{
    match g.feed {
        Feed::Packets(packets) => {
            let w1 = World { packet: packets[i as int], ..w };
            if g.track.copy {
                packet_is_copied(g.script, g.track, s, w1);
            } else {
                assert(packet_tally(g.script, g.track.has_encoder, w1, w1.packet)
                    == packet_tally(g.script, g.track.has_encoder, w, w1.packet));
                packet_is_pumped(g.script, g.track, s, w1);
            }
        },
        Feed::Frames(frames) => {
            frame_is_pumped(g.script, g.track, frames[i as int], s, w);
        },
    }
}

proof fn item_starts<F, E>(o: OutputScript<F, E>, y: SerialSystem<F, E>, t: usize)
    requires
        y.pump is None,
        y.command == if o.tracks[t as int].feed is Frames {
            SerialCommand::<E>::FeedFrame { track: t }
        } else {
            SerialCommand::<E>::FeedPacket { track: t }
        },
    ensures
        o.turn(y) == (SerialSystem {
            fed: y.fed.update(t as int, y.fed[t as int] + 1),
            pump: Some(
                item_pump(o.tracks[t as int], y.worlds[t as int], y.fed[t as int], y.run.stats),
            ),
            ..y
        }),
{
}

/// Commands and outcomes keep the sources, the tracks and the counters.
proof fn commanding_keeps<E>(v: SerialView)
    ensures
        v.commanded::<E>().0.sources == v.sources,
        v.commanded::<E>().0.tracks == v.tracks,
        v.commanded::<E>().0.stats == v.stats,
{
}

/// What is counted is no longer to come.
proof fn counted_once(
    s: ExecutorStats,
    dues: Seq<Tally>,
    t: int,
    item: Tally,
    rest: Tally,
    other: Tally,
    whole: Tally,
)
    requires
        0 <= t < dues.len(),
        dues[t] == item.plus(rest),
        of_stats(s).plus(sum(dues)).plus(other) == whole,
        whole.fits(ExecutorStats::zero()),
    ensures
        item.fits(s),
        of_stats(item.added(s)).plus(sum(dues.update(t, rest))).plus(other) == whole,
{
    sum_updated(dues, t, rest);
    let after = sum(dues.update(t, rest));
    assert(after.plus(dues[t]) == sum(dues).plus(rest));
    assert(sum(dues) =~= after.plus(item));
    assert(of_stats(item.added(s)).plus(after).plus(other) =~= whole);
}

/// The feeds once one more track has been given what was read.
proof fn feeds_move_on<F, E>(
    o: OutputScript<F, E>,
    y: SerialSystem<F, E>,
    d: SerialSystem<F, E>,
    s: usize,
    t: int,
)
    requires
        fed_so_far(o, y, s as int, t),
        0 <= t < o.tracks.len(),
        o.tracks[t].source == s,
        y.fed.len() == o.tracks.len(),
        y.read[s as int] > 0,
        o.supplies[s as int].goes_to(o.tracks[t].stream, y.read[s as int] - 1),
        d.read == y.read,
        d.fed == y.fed.update(t, y.fed[t] + 1),
    ensures
        fed_so_far(o, d, s as int, t + 1),
{
    assert forall|j: int| 0 <= j < o.tracks.len() implies {
        let h = #[trigger] o.tracks[j];
        let m = d.read[h.source as int];
        d.fed[j] == o.supplies[h.source as int].share(
            h.stream,
            if h.source == s && j >= t + 1 {
                (m - 1) as nat
            } else {
                m
            },
        ).len()
    } by {
        let h = o.tracks[j];
        let m = y.read[h.source as int];
        assert(y.fed[j] == o.supplies[h.source as int].share(
            h.stream,
            if h.source == s && j >= t {
                (m - 1) as nat
            } else {
                m
            },
        ).len());
    }
}

/// A track that takes what was read has a place for it in its feed.
proof fn feed_has_room<F, E>(o: OutputScript<F, E>, y: SerialSystem<F, E>, s: usize, t: int)
    requires
        o.wf(),
        fed_so_far(o, y, s as int, t),
        0 <= t < o.tracks.len(),
        o.tracks[t].source == s,
        0 < y.read[s as int] <= o.supplies[s as int].len(),
        o.supplies[s as int].goes_to(o.tracks[t].stream, y.read[s as int] - 1),
    ensures
        y.fed[t] < o.tracks[t].feed.len(),
        o.tracks[t].wf(),
        o.tracks[t].feed is Frames <==> o.supplies[s as int] is Frames,
{
    let g = o.tracks[t];
    let supply = o.supplies[s as int];
    let n = y.read[s as int];
    assert(g.fed_by(supply));
    shares_grow(supply, g.stream, n, supply.len());
    shares_grow(supply, g.stream, (n - 1) as nat, n);
}

/// A track's pump takes what was read, and the output goes on.
proof fn item_returns<F, E>(
    o: OutputScript<F, E>,
    y: SerialSystem<F, E>,
    s: usize,
    stream: u32,
    t: usize,
) -> (d: SerialSystem<F, E>)
    requires
        y.pump is None,
        y.run.phase == (SerialPhase::Feeding { source: s, stream, track: t }),
        y.command == if o.tracks[t as int].feed is Frames {
            SerialCommand::<E>::FeedFrame { track: t }
        } else {
            SerialCommand::<E>::FeedPacket { track: t }
        },
        o.tracks[t as int].wf(),
        fresh(y.worlds[t as int], o.tracks[t as int].track.stages.len()),
        y.fed[t as int] < o.tracks[t as int].feed.len(),
        o.tracks[t as int].item_tally(y.worlds[t as int], y.fed[t as int]).fits(y.run.stats),
    ensures
        leads_to(o.turns(), y, d),
        ({
            let g = o.tracks[t as int];
            let w = y.worlds[t as int];
            let i = y.fed[t as int];
            let v = SerialView {
                phase: SerialPhase::Feeding { source: s, stream, track: (t + 1) as usize },
                stats: g.item_tally(w, i).added(y.run.stats),
                ..y.run
            };
            &&& d.pump is None
            &&& d.read == y.read
            &&& d.fed == y.fed.update(t as int, i + 1)
            &&& d.worlds == y.worlds.update(t as int, g.item_through(w, i))
            &&& (d.run, d.command) == v.commanded::<E>()
        }),
{
    let g = o.tracks[t as int];
    let i = y.fed[t as int];
    let w = y.worlds[t as int];
    let s1 = y.run.stats;
    item_starts(o, y, t);
    let c = o.turn(y);
    one_turn_leads(o.turns(), y);
    let p = item_pump(g, w, i, s1);
    let end = g.item_through(w, i);
    item_is_pumped(g, w, i, s1);
    let s2 = g.item_tally(w, i).added(s1);
    assert(c == SerialSystem { pump: Some(p), ..c });
    pump_returns(o, c, p, s2, end);
    let d = returned(o, c, s2, end);
    leading_adds_up(o.turns(), y, c, d);
    d
}

/// One track is given what was read.
proof fn track_is_fed<F, E>(
    o: OutputScript<F, E>,
    y: SerialSystem<F, E>,
    s: usize,
    stream: u32,
    t: int,
    ends: Seq<World<F>>,
    whole: Tally,
) -> (d: SerialSystem<F, E>)
    requires
        serial_fits(o, y, s as int, t, ends, whole),
        serial_feeds(y, s, stream, t),
        0 <= t < o.tracks.len(),
        s < o.supplies.len(),
        y.read[s as int] > 0,
        stream == o.supplies[s as int].item(y.read[s as int] - 1).stream,
        takes(y.run.sources, y.run.tracks[t], s, stream),
    ensures
        leads_to(o.turns(), y, d),
        serial_fits(o, d, s as int, t + 1, ends, whole),
        serial_feeds(d, s, stream, t + 1),
        d.read == y.read,
        d.run.sources == y.run.sources,
{
    let g = o.tracks[t];
    let supply = o.supplies[s as int];
    let i = y.fed[t];
    let w = y.worlds[t];
    let s1 = y.run.stats;
    assert(t as usize as int == t);
    assert(y.run.sources[s as int].frames == (supply is Frames));
    assert(y.run.tracks[t].source == g.source);
    assert(fresh(y.worlds[t], g.track.stages.len()));
    assert(supply.goes_to(g.stream, y.read[s as int] - 1));
    feed_has_room(o, y, s, t);
    let v = SerialView {
        phase: SerialPhase::Feeding { source: s, stream, track: t as usize },
        ..y.run
    };
    assert(taker_from(v, s, stream, t) == t);
    assert(y.run.phase == v.phase);
    let item = g.item_tally(w, i);
    let end = g.item_through(w, i);
    let rest = g.rest_tally(end, i + 1);
    let before = o.unfed(y.fed, y.worlds);
    let unread = sum(o.unread(y.read));
    assert(before[t] =~= item.plus(rest));
    assert(of_stats(s1).plus(sum(before)).plus(unread) =~= whole) by {
        assert(of_stats(s1).plus(unread).plus(sum(before)) == whole);
    }
    counted_once(s1, before, t, item, rest, unread, whole);
    let d = item_returns(o, y, s, stream, t as usize);
    fed_track_fits(o, y, d, s, stream, t, ends, whole);
    d
}

proof fn fed_track_fits<F, E>(
    o: OutputScript<F, E>,
    y: SerialSystem<F, E>,
    d: SerialSystem<F, E>,
    s: usize,
    stream: u32,
    t: int,
    ends: Seq<World<F>>,
    whole: Tally,
)
    requires
        serial_fits(o, y, s as int, t, ends, whole),
        0 <= t < o.tracks.len(),
        s < o.supplies.len(),
        y.read[s as int] > 0,
        o.tracks[t].source == s,
        o.supplies[s as int].goes_to(o.tracks[t].stream, y.read[s as int] - 1),
        y.fed[t] < o.tracks[t].feed.len(),
        d.pump is None,
        d.read == y.read,
        d.fed == y.fed.update(t, y.fed[t] + 1),
        d.worlds == y.worlds.update(t, o.tracks[t].item_through(y.worlds[t], y.fed[t])),
        (d.run, d.command) == (SerialView {
            phase: SerialPhase::Feeding { source: s, stream, track: (t + 1) as usize },
            stats: o.tracks[t].item_tally(y.worlds[t], y.fed[t]).added(y.run.stats),
            ..y.run
        }).commanded::<E>(),
        ({
            let before = o.unfed(y.fed, y.worlds);
            let end = o.tracks[t].item_through(y.worlds[t], y.fed[t]);
            let after = before.update(t, o.tracks[t].rest_tally(end, y.fed[t] + 1));
            let item = o.tracks[t].item_tally(y.worlds[t], y.fed[t]);
            of_stats(item.added(y.run.stats)).plus(sum(after)).plus(sum(o.unread(y.read))) == whole
        }),
    ensures
        serial_fits(o, d, s as int, t + 1, ends, whole),
        serial_feeds(d, s, stream, t + 1),
        d.run.sources == y.run.sources,
{
    let g = o.tracks[t];
    let i = y.fed[t];
    let w = y.worlds[t];
    let end = g.item_through(w, i);
    let rest = g.rest_tally(end, i + 1);
    let unread = sum(o.unread(y.read));
    assert(fresh(y.worlds[t], g.track.stages.len()));
    world_stays_fresh(g, w, i);
    let v1 = SerialView {
        phase: SerialPhase::Feeding { source: s, stream, track: (t + 1) as usize },
        stats: g.item_tally(w, i).added(y.run.stats),
        ..y.run
    };
    commanding_keeps::<E>(v1);
    assert(SerialView { phase: v1.phase, ..d.run } == v1);
    feeds_move_on(o, y, d, s, t);
    let after = o.unfed(y.fed, y.worlds).update(t, rest);
    assert(o.unfed(d.fed, d.worlds) =~= after);
    assert(of_stats(v1.stats).plus(unread).plus(sum(after)) =~= of_stats(v1.stats).plus(
        sum(after),
    ).plus(unread));
    assert(g.rest_through(end, i + 1) == g.rest_through(w, i));
    assert forall|j: int| 0 <= j < o.tracks.len() implies fresh(
        #[trigger] d.worlds[j],
        o.tracks[j].track.stages.len(),
    ) && o.tracks[j].rest_through(d.worlds[j], d.fed[j]) == ends[j] by {
        assert(fresh(y.worlds[j], o.tracks[j].track.stages.len()));
    }
    shape_stays(o, y, d);
}

/// What was read goes to every track that takes it.
proof fn tracks_are_fed<F, E>(
    o: OutputScript<F, E>,
    y: SerialSystem<F, E>,
    s: usize,
    stream: u32,
    from: int,
    ends: Seq<World<F>>,
    whole: Tally,
) -> (q: SerialSystem<F, E>)
    requires
        serial_fits(o, y, s as int, from, ends, whole),
        serial_feeds(y, s, stream, from),
        0 <= from <= o.tracks.len(),
        s < o.supplies.len(),
        y.read[s as int] > 0,
        stream == o.supplies[s as int].item(y.read[s as int] - 1).stream,
    ensures
        leads_to(o.turns(), y, q),
        serial_fits(o, q, -1, 0, ends, whole),
        serial_rests(q),
        q.read == y.read,
        q.run.sources == y.run.sources,
    decreases o.tracks.len() - from,
{
    let v = SerialView {
        phase: SerialPhase::Feeding { source: s, stream, track: from as usize },
        ..y.run
    };
    let supply = o.supplies[s as int];
    let n = y.read[s as int];
    let t = taker_from(v, s, stream, from);
    taker_from_range(v, s, stream, from);
    assert(y.run.sources[s as int].frames == (supply is Frames));
    // The tracks in between take nothing.
    assert forall|j: int| from <= j < t implies {
        let h = #[trigger] o.tracks[j];
        h.source == s ==> supply.share(h.stream, n) == supply.share(h.stream, (n - 1) as nat)
    } by {
        assert(!takes(v.sources, v.tracks[j], s, stream));
        assert(y.run.tracks[j].source == o.tracks[j].source);
    }
    if t < o.tracks.len() {
        let v1 = SerialView {
            phase: SerialPhase::Feeding { source: s, stream, track: t as usize },
            ..y.run
        };
        assert(t as usize as int == t && from as usize as int == from);
        assert(taker_from(v1, s, stream, t) == t);
        assert(serial_feeds(y, s, stream, t));
        assert(fed_so_far(o, y, s as int, t));
        let d = track_is_fed(o, y, s, stream, t, ends, whole);
        let q = tracks_are_fed(o, d, s, stream, t + 1, ends, whole);
        leading_adds_up(o.turns(), y, d, q);
        q
    } else {
        assert(from as usize as int == from);
        nothing_leads_nowhere(o.turns(), y);
        assert((y.run, y.command) == v.reading::<E>(s + 1));
        reading_rests(y, v, s + 1);
        assert(fed_so_far(o, y, -1, 0));
        y
    }
}

/// How much there is still to read from each source, its end included.
pub open spec fn to_read<F, E>(o: OutputScript<F, E>, y: SerialSystem<F, E>) -> Seq<int> {
    Seq::new(
        o.supplies.len(),
        |i: int|
            o.supplies[i].len() - y.read[i] + (if y.run.sources[i].eof {
                0int
            } else {
                1
            }),
    )
}

/// A packet or frame is read.
proof fn item_is_read<F, E>(
    o: OutputScript<F, E>,
    y: SerialSystem<F, E>,
    ends: Seq<World<F>>,
    whole: Tally,
)
    requires
        serial_fits(o, y, -1, 0, ends, whole),
        serial_rests(y),
        !all_read(y),
        y.read[y.run.phase->Reading_source as int] < o.supplies[y.run.phase->Reading_source as int].len(),
    ensures
        ({
            let s = y.run.phase->Reading_source;
            let a = o.turn(y);
            let n = y.read[s as int];
            &&& serial_fits(o, a, s as int, 0, ends, whole)
            &&& serial_feeds(a, s, o.supplies[s as int].item(n as int).stream, 0)
            &&& a.read == y.read.update(s as int, n + 1)
            &&& a.run.sources == y.run.sources
        }),
{
    let s = y.run.phase->Reading_source;
    let supply = o.supplies[s as int];
    let n = y.read[s as int];
    let a = o.turn(y);
    assert(y.run.sources[s as int].frames == (supply is Frames));
    let stream = supply.item(n as int).stream;
    let left = supply.reading((supply.len() - n - 1) as nat);
    let before = o.unread(y.read);
    let one = supply.reading(1);
    let s1 = y.run.stats;
    let s2 = one.added(s1);
    let unfed = sum(o.unfed(y.fed, y.worlds));
    assert(before[s as int] =~= one.plus(left));
    counted_once(s1, before, s as int, one, left, unfed, whole);
    assert(o.unread(y.read.update(s as int, n + 1)) =~= before.update(s as int, left));
    let v = SerialView {
        phase: SerialPhase::Feeding { source: s, stream, track: 0 },
        stats: s2,
        ..y.run
    };
    assert((a.run, a.command) == v.commanded::<E>());
    commanding_keeps::<E>(v);
    assert(SerialView { phase: v.phase, ..a.run } == v);
    assert forall|t: int| 0 <= t < o.tracks.len() implies {
        let g = #[trigger] o.tracks[t];
        let m = a.read[g.source as int];
        a.fed[t] == o.supplies[g.source as int].share(
            g.stream,
            if g.source == s && t >= 0 {
                (m - 1) as nat
            } else {
                m
            },
        ).len()
    } by {
        let g = o.tracks[t];
        assert(y.fed[t] == o.supplies[g.source as int].share(
            g.stream,
            y.read[g.source as int],
        ).len());
    }
    assert forall|i: int| 0 <= i < o.supplies.len() implies {
        &&& (#[trigger] a.run.sources[i]).frames == (o.supplies[i] is Frames)
        &&& a.read[i] <= o.supplies[i].len()
        &&& a.run.sources[i].eof ==> a.read[i] == o.supplies[i].len()
    } by {
        assert(y.run.sources[i].frames == (o.supplies[i] is Frames));
    }
    assert(serial_shape(o, a));
}

/// A source is read once, and what it hands out goes to its tracks.
proof fn source_is_read<F, E>(
    o: OutputScript<F, E>,
    y: SerialSystem<F, E>,
    ends: Seq<World<F>>,
    whole: Tally,
) -> (q: SerialSystem<F, E>)
    requires
        serial_fits(o, y, -1, 0, ends, whole),
        serial_rests(y),
        !all_read(y),
    ensures
        leads_to(o.turns(), y, q),
        serial_fits(o, q, -1, 0, ends, whole),
        serial_rests(q),
        total(to_read(o, q)) < total(to_read(o, y)),
{
    let s = y.run.phase->Reading_source;
    let supply = o.supplies[s as int];
    let n = y.read[s as int];
    let a = o.turn(y);
    one_turn_leads(o.turns(), y);
    assert(y.run.sources[s as int].frames == (supply is Frames));
    if n < supply.len() {
        let stream = supply.item(n as int).stream;
        item_is_read(o, y, ends, whole);
        let q = tracks_are_fed(o, a, s, stream, 0, ends, whole);
        leading_adds_up(o.turns(), y, a, q);
        let x = (supply.len() - n) as int;
        assert(to_read(o, q) =~= to_read(o, y).update(s as int, x));
        total_updated(to_read(o, y), s as int, x);
        q
    } else {
        let sources = y.run.sources.update(
            s as int,
            SerialSource { eof: true, ..y.run.sources[s as int] },
        );
        let v = SerialView {
            sources,
            phase: SerialPhase::Reading { source: (s + 1) as usize },
            ..y.run
        };
        assert((a.run, a.command) == v.commanded::<E>());
        commanding_keeps::<E>(v);
        reading_rests(a, v, s + 1);
        assert(a.run.sources == sources);
        assert(fed_so_far(o, a, -1, 0)) by {
            assert(a.read == y.read && a.fed == y.fed);
        }
        assert(to_read(o, a) =~= to_read(o, y).update(s as int, 0));
        total_updated(to_read(o, y), s as int, 0);
        a
    }
}

proof fn sources_are_read<F, E>(
    o: OutputScript<F, E>,
    y: SerialSystem<F, E>,
    ends: Seq<World<F>>,
    whole: Tally,
) -> (q: SerialSystem<F, E>)
    requires
        serial_fits(o, y, -1, 0, ends, whole),
        serial_rests(y),
    ensures
        leads_to(o.turns(), y, q),
        serial_fits(o, q, -1, 0, ends, whole),
        all_read(q),
    decreases total(to_read(o, y)),
{
    if all_read(y) {
        nothing_leads_nowhere(o.turns(), y);
        y
    } else {
        let a = source_is_read(o, y, ends, whole);
        assert forall|i: int| 0 <= i < o.supplies.len() implies #[trigger] to_read(o, a)[i]
            >= 0 by {
            assert(a.run.sources[i].frames == (o.supplies[i] is Frames));
        }
        total_of_naturals(to_read(o, a));
        let q = sources_are_read(o, a, ends, whole);
        leading_adds_up(o.turns(), y, a, q);
        q
    }
}

/// An output that drains its tracks, from track `j` on.
pub open spec fn serial_drains<F, E>(
    o: OutputScript<F, E>,
    y: SerialSystem<F, E>,
    j: int,
    ends: Seq<World<F>>,
    whole: Tally,
) -> bool {
    &&& serial_shape(o, y)
    &&& forall|t: int|
        j <= t < o.tracks.len() ==> fresh(#[trigger] y.worlds[t], o.tracks[t].track.stages.len())
            && o.tracks[t].end_through(y.worlds[t]) == ends[t]
    &&& forall|t: int| 0 <= t < j ==> #[trigger] y.worlds[t] == ends[t]
    &&& of_stats(y.run.stats).plus(sum(o.undrained(y.worlds, j))) == whole
    &&& whole.fits(ExecutorStats::zero())
    &&& (y.run, y.command) == y.run.draining::<E>(j)
}

/// A pump that starts on the end of a stream.
pub open spec fn end_pump<F, E>(g: TrackScript<F, E>, w: World<F>, s: ExecutorStats) -> PumpSystem<
    F,
    E,
> {
    going::<F, E>(PumpView::<F>::started(g.track, drain_mode(g.track), None), s, w)
}

proof fn end_is_pumped<F, E>(g: TrackScript<F, E>, w: World<F>, s: ExecutorStats)
    requires
        g.wf(),
        fresh(w, g.track.stages.len()),
        g.end_tally(w).fits(s),
    ensures
        finishes(g.script, end_pump(g, w, s), g.end_tally(w).added(s), g.end_through(w)),
{
    if g.track.copy {
        copied_track_is_drained(g.script, g.track, s, w);
        assert(g.end_tally(w).added(s) == s);
    } else {
        track_is_drained(g.script, g.track, s, w);
    }
}

proof fn tracks_are_drained<F, E>(
    o: OutputScript<F, E>,
    y: SerialSystem<F, E>,
    j: int,
    ends: Seq<World<F>>,
    whole: Tally,
) -> (q: SerialSystem<F, E>)
    requires
        serial_drains(o, y, j, ends, whole),
        0 <= j <= o.tracks.len(),
    ensures
        leads_to(o.turns(), y, q),
        serial_drains(o, q, o.tracks.len() as int, ends, whole),
    decreases o.tracks.len() - j,
{
    if j == o.tracks.len() {
        nothing_leads_nowhere(o.turns(), y);
        y
    } else {
        let g = o.tracks[j];
        let w = y.worlds[j];
        let s1 = y.run.stats;
        assert(j as usize as int == j);
        assert(fresh(y.worlds[j], g.track.stages.len()));
        assert(g.wf());
        let before = o.undrained(y.worlds, j);
        let item = g.end_tally(w);
        assert(before[j] =~= item.plus(Tally::none()));
        assert(of_stats(s1).plus(sum(before)).plus(Tally::none()) =~= whole);
        counted_once(s1, before, j, item, Tally::none(), Tally::none(), whole);
        let c = o.turn(y);
        one_turn_leads(o.turns(), y);
        let p = end_pump(g, w, s1);
        assert(c == SerialSystem { pump: Some(p), ..y });
        end_is_pumped(g, w, s1);
        let s2 = item.added(s1);
        let end = g.end_through(w);
        assert(busy(c.run.phase) == j);
        pump_returns(o, c, p, s2, end);
        let d = returned(o, c, s2, end);
        leading_adds_up(o.turns(), y, c, d);
        let v = SerialView {
            phase: SerialPhase::Draining { track: (j + 1) as usize },
            stats: s2,
            ..y.run
        };
        assert((d.run, d.command) == v.commanded::<E>());
        commanding_keeps::<E>(v);
        assert(o.undrained(d.worlds, j + 1) =~= before.update(j, Tally::none()));
        let after = sum(before.update(j, Tally::none()));
        assert(of_stats(s2).plus(after) =~= of_stats(s2).plus(after).plus(Tally::none()));
        shape_stays(o, y, d);
        assert(serial_drains(o, d, j + 1, ends, whole));
        let q = tracks_are_drained(o, d, j + 1, ends, whole);
        leading_adds_up(o.turns(), y, d, q);
        q
    }
}

/// An output on one thread, before its sink is started.
pub open spec fn serial_start<F, E>(
    o: OutputScript<F, E>,
    worlds: Seq<World<F>>,
    discard_on_failure: bool,
) -> SerialSystem<F, E> {
    let (run, command) = SerialView {
        sources: Seq::new(
            o.supplies.len(),
            |i: int| SerialSource { frames: o.supplies[i] is Frames, eof: false },
        ),
        tracks: Seq::new(
            o.tracks.len(),
            |t: int| SerialTrack { source: o.tracks[t].source, stream: o.tracks[t].stream },
        ),
        discard_on_failure,
        phase: SerialPhase::Starting,
        stats: ExecutorStats::zero(),
    }.step(SerialReply::<E>::Start);
    SerialSystem {
        run,
        read: Seq::new(o.supplies.len(), |i: int| 0nat),
        fed: Seq::new(o.tracks.len(), |t: int| 0nat),
        worlds,
        pump: None,
        command,
    }
}

/// The worlds of the tracks after the whole output.
pub open spec fn worlds_after<F, E>(o: OutputScript<F, E>, worlds: Seq<World<F>>) -> Seq<
    World<F>,
> {
    Seq::new(o.tracks.len(), |t: int| o.tracks[t].rest_through(worlds[t], 0))
}

/// An output at its end.
pub open spec fn serial_done<F, E>(
    o: OutputScript<F, E>,
    worlds: Seq<World<F>>,
    y: SerialSystem<F, E>,
) -> bool {
    &&& y.pump is None
    &&& y.command == SerialCommand::<E>::Finished(
        o.tally(worlds).added(ExecutorStats::zero()),
    )
    &&& y.worlds == worlds_after(o, worlds)
}

/// An output on one thread runs to its end, and its counters are those of reading its
/// sources, and of what its tracks made of it.
pub proof fn serial_output_runs<F, E>(
    o: OutputScript<F, E>,
    worlds: Seq<World<F>>,
    discard_on_failure: bool,
)
    requires
        o.wf(),
        worlds.len() == o.tracks.len(),
        forall|t: int|
            0 <= t < o.tracks.len() ==> fresh(
                #[trigger] worlds[t],
                o.tracks[t].track.stages.len(),
            ),
        o.tally(worlds).fits(ExecutorStats::zero()),
    ensures
        exists|y: SerialSystem<F, E>| #[trigger]
            leads_to(o.turns(), serial_start(o, worlds, discard_on_failure), y) && serial_done(
                o,
                worlds,
                y,
            ),
{
    let ends = worlds_after(o, worlds);
    let whole = o.tally(worlds);
    let a = serial_start(o, worlds, discard_on_failure);
    let b = o.turn(a);
    one_turn_leads(o.turns(), a);
    let v = SerialView { phase: SerialPhase::Reading { source: 0 }, ..a.run };
    assert((b.run, b.command) == v.reading::<E>(0));
    reading_rests(b, v, 0);
    assert(of_stats(ExecutorStats::zero()).plus(sum(o.unread(b.read))).plus(
        sum(o.unfed(b.fed, b.worlds)),
    ) =~= whole);
    assert(serial_fits(o, b, -1, 0, ends, whole));
    let c = sources_are_read(o, b, ends, whole);
    leading_adds_up(o.turns(), a, b, c);
    let n = o.tracks.len() as int;
    assert forall|t: int| 0 <= t < n implies #[trigger] c.fed[t] == o.tracks[t].feed.len() by {
        let g = o.tracks[t];
        let supply = o.supplies[g.source as int];
        assert(c.run.sources[g.source as int].eof);
        shares_grow(supply, g.stream, supply.len(), supply.len());
    }
    assert forall|i: int| 0 <= i < o.supplies.len() implies #[trigger] o.unread(c.read)[i]
        == Tally::none() by {
        assert(c.run.sources[i].eof);
        assert(o.unread(c.read)[i] =~= Tally::none());
    }
    nothing_sums_up(o.unread(c.read));
    assert forall|t: int| 0 <= t < n implies #[trigger] o.unfed(c.fed, c.worlds)[t]
        == o.undrained(c.worlds, 0)[t] by {
        assert(c.fed[t] == o.tracks[t].feed.len());
        let e = o.tracks[t].end_tally(c.worlds[t]);
        assert(Tally::none().plus(e) =~= e);
    }
    assert(o.unfed(c.fed, c.worlds) =~= o.undrained(c.worlds, 0));
    assert(of_stats(c.run.stats).plus(Tally::none()) =~= of_stats(c.run.stats));
    assert forall|t: int| 0 <= t < n implies fresh(
        #[trigger] c.worlds[t],
        o.tracks[t].track.stages.len(),
    ) && o.tracks[t].end_through(c.worlds[t]) == ends[t] by {
        assert(c.fed[t] == o.tracks[t].feed.len());
    }
    assert(serial_drains(o, c, 0, ends, whole));
    let d = tracks_are_drained(o, c, 0, ends, whole);
    leading_adds_up(o.turns(), a, c, d);
    nothing_sums_up(o.undrained(d.worlds, n));
    assert(of_stats(d.run.stats).plus(Tally::none()) =~= of_stats(d.run.stats));
    let y = o.turn(d);
    one_turn_leads(o.turns(), d);
    leading_adds_up(o.turns(), a, d, y);
    assert(d.run.stats == whole.added(ExecutorStats::zero()));
    assert(y.worlds =~= ends);
}

} // verus!
