//! A whole output on one thread, given what its decoder, frame stages and encoder
//! do: what it counts, and how many frames reach its sink.

use crate::media::CodecParameters;
use crate::pump::{
    drain_mode, packet_mode, Command, FilterEmissions, Mode, PumpTrackView, PumpView, Reply,
};
use crate::stats::ExecutorStats;
use vstd::prelude::*;

verus! {

/// A state after so many turns.
pub open spec fn after_turns<S>(turn: spec_fn(S) -> S, n: nat, s: S) -> S
    decreases n,
{
    if n == 0 {
        s
    } else {
        after_turns(turn, (n - 1) as nat, turn(s))
    }
}

/// Turn after turn, one state leads to another.
pub open spec fn leads_to<S>(turn: spec_fn(S) -> S, a: S, b: S) -> bool {
    exists|n: nat| #[trigger] after_turns(turn, n, a) == b
}

pub(crate) proof fn turns_add_up<S>(turn: spec_fn(S) -> S, m: nat, n: nat, s: S)
    ensures
        after_turns(turn, n, after_turns(turn, m, s)) == after_turns(turn, m + n, s),
    decreases m,
{
    if m > 0 {
        turns_add_up(turn, (m - 1) as nat, n, turn(s));
    }
}

pub proof fn nothing_leads_nowhere<S>(turn: spec_fn(S) -> S, a: S)
    ensures
        leads_to(turn, a, a),
{
    assert(after_turns(turn, 0, a) == a);
}

pub proof fn one_turn_leads<S>(turn: spec_fn(S) -> S, a: S)
    ensures
        leads_to(turn, a, turn(a)),
{
    assert(after_turns(turn, 0, turn(a)) == turn(a));
    assert(after_turns(turn, 1, a) == turn(a));
}

pub proof fn leading_adds_up<S>(turn: spec_fn(S) -> S, a: S, b: S, c: S)
    requires
        leads_to(turn, a, b),
        leads_to(turn, b, c),
    ensures
        leads_to(turn, a, c),
{
    let m = choose|m: nat| #[trigger] after_turns(turn, m, a) == b;
    let n = choose|n: nat| #[trigger] after_turns(turn, n, b) == c;
    turns_add_up(turn, m, n, a);
}

pub(crate) proof fn one_more_turn<S>(turn: spec_fn(S) -> S, n: nat, s: S)
    ensures
        after_turns(turn, n + 1, s) == turn(after_turns(turn, n, s)),
{
    turns_add_up(turn, n, 1, s);
    let t = after_turns(turn, n, s);
    assert(after_turns(turn, 0, turn(t)) == turn(t));
    assert(after_turns(turn, 1, t) == turn(t));
}

proof fn end_stays<S>(turn: spec_fn(S) -> S, n: nat, s: S)
    requires
        turn(s) == s,
    ensures
        after_turns(turn, n, s) == s,
    decreases n,
{
    if n > 0 {
        end_stays(turn, (n - 1) as nat, s);
    }
}

/// Whatever leads to an end leads to no other.
pub(crate) proof fn there_is_one_end<S>(turn: spec_fn(S) -> S, s: S, p: S, q: S)
    requires
        leads_to(turn, s, p),
        leads_to(turn, s, q),
        turn(p) == p,
        turn(q) == q,
    ensures
        p == q,
{
    let m = choose|m: nat| #[trigger] after_turns(turn, m, s) == p;
    let n = choose|n: nat| #[trigger] after_turns(turn, n, s) == q;
    turns_add_up(turn, m, n, s);
    turns_add_up(turn, n, m, s);
    end_stays(turn, n, p);
    end_stays(turn, m, q);
}

/// Whatever comes on the way to an end leads to that end.
pub(crate) proof fn on_the_way<S>(turn: spec_fn(S) -> S, s: S, p: S, q: S)
    requires
        leads_to(turn, s, p),
        leads_to(turn, s, q),
        turn(q) == q,
    ensures
        leads_to(turn, p, q),
{
    let m = choose|m: nat| #[trigger] after_turns(turn, m, s) == p;
    let n = choose|n: nat| #[trigger] after_turns(turn, n, s) == q;
    if m <= n {
        turns_add_up(turn, m, (n - m) as nat, s);
        assert(after_turns(turn, (n - m) as nat, p) == q);
    } else {
        turns_add_up(turn, n, (m - n) as nat, s);
        end_stays(turn, (m - n) as nat, q);
        nothing_leads_nowhere(turn, q);
    }
}

proof fn counts_grow<S>(turn: spec_fn(S) -> S, count: spec_fn(S) -> Tally, n: nat, s: S)
    requires
        forall|x: S| count(x).at_most(count(#[trigger] turn(x))),
    ensures
        count(s).at_most(count(after_turns(turn, n, s))),
    decreases n,
{
    if n > 0 {
        counts_grow(turn, count, (n - 1) as nat, turn(s));
    }
}

/// What every turn adds to is never less on the way.
pub(crate) proof fn counts_only_grow<S>(
    turn: spec_fn(S) -> S,
    count: spec_fn(S) -> Tally,
    p: S,
    q: S,
)
    requires
        leads_to(turn, p, q),
        forall|x: S| count(x).at_most(count(#[trigger] turn(x))),
    ensures
        count(p).at_most(count(q)),
{
    let n = choose|n: nat| #[trigger] after_turns(turn, n, p) == q;
    counts_grow(turn, count, n, p);
}

/// What a decoder makes of a packet.
pub struct PacketScript<F> {
    pub bytes: u64,
    /// Whether the decoder takes the packet at all.
    pub accepted: bool,
    /// What it says of its frames, once it has taken the packet.
    pub params: Option<CodecParameters>,
    pub frames: Seq<F>,
    /// Whether it fails after those frames, instead of asking for more.
    pub failed: bool,
}

/// What the decoder, the frame stages and the encoder of a track do: each as a
/// function of what it was given before, so it does the same in every run.
#[verifier::reject_recursive_types(F)]
pub struct Script<F, E> {
    pub error: E,
    /// Whether the decoder fails when it is flushed.
    pub flush_fails: bool,
    /// The frames that the decoder hands out after it was flushed.
    pub tail: Seq<F>,
    /// Whether it fails after those.
    pub tail_fails: bool,
    /// What a stage makes of a frame, after earlier ones.
    pub made: spec_fn(int, Seq<F>, F) -> FilterEmissions<F>,
    /// What a stage still holds after all of its frames.
    pub held: spec_fn(int, Seq<F>) -> FilterEmissions<F>,
    /// How many packets the encoder makes of a frame, after earlier ones.
    pub coded: spec_fn(Seq<F>, F) -> nat,
    /// How many it still holds after all of its frames.
    pub kept: spec_fn(Seq<F>) -> nat,
}

/// How far decoder, stages, encoder and sink have got.
#[verifier::ext_equal]
pub struct World<F> {
    /// The packet that is being decoded.
    pub packet: PacketScript<F>,
    /// Frames that the decoder has still to hand out.
    pub pending: Seq<F>,
    pub failing: bool,
    /// What each stage has been given.
    pub given: Seq<Seq<F>>,
    /// What the encoder has been given.
    pub fed: Seq<F>,
    /// Packets that the encoder has still to hand out.
    pub coding: nat,
    /// Frames that the sink has been given.
    pub shown: nat,
}

/// A track under way on one thread.
#[verifier::ext_equal]
pub struct PumpSystem<F, E> {
    pub pump: PumpView<F>,
    pub stats: ExecutorStats,
    pub world: World<F>,
    pub command: Command<F, E>,
}

impl<F, E> Script<F, E> {
    /// What comes of a call.
    pub open spec fn answer(self, w: World<F>, c: Command<F, E>) -> (World<F>, Reply<F, E>) {
        match c {
            Command::SendPacket => if w.packet.accepted {
                (
                    World { pending: w.packet.frames, failing: w.packet.failed, ..w },
                    Reply::Done,
                )
            } else {
                (w, Reply::Error(self.error))
            },
            Command::ReceiveFrame => if w.pending.len() > 0 {
                (World { pending: w.pending.skip(1), ..w }, Reply::Frame(w.pending[0]))
            } else if w.failing {
                (World { failing: false, ..w }, Reply::Error(self.error))
            } else {
                (w, Reply::NoMore)
            },
            Command::Materialise(f) => (w, Reply::Frame(f)),
            Command::RunStage { stage, frame } => (
                World {
                    given: w.given.update(stage as int, w.given[stage as int].push(frame)),
                    ..w
                },
                Reply::Emitted((self.made)(stage as int, w.given[stage as int], frame)),
            ),
            Command::FlushStage { stage } => (
                w,
                Reply::Emitted((self.held)(stage as int, w.given[stage as int])),
            ),
            Command::WriteFrame { .. } => (World { shown: w.shown + 1, ..w }, Reply::Done),
            Command::SendFrame(f) => (
                World { fed: w.fed.push(f), coding: (self.coded)(w.fed, f), ..w },
                Reply::Done,
            ),
            Command::ReceivePacket => if w.coding > 0 {
                (World { coding: (w.coding - 1) as nat, ..w }, Reply::Packet)
            } else {
                (w, Reply::NoMore)
            },
            Command::FlushDecoder => (
                World { pending: self.tail, failing: self.tail_fails, ..w },
                if self.flush_fails {
                    Reply::Error(self.error)
                } else {
                    Reply::Done
                },
            ),
            Command::FlushEncoder => (World { coding: (self.kept)(w.fed), ..w }, Reply::Done),
            _ => (w, Reply::Done),
        }
    }

    /// One call and what comes of it; nothing once the pump is finished.
    pub open spec fn turn(self, p: PumpSystem<F, E>) -> PumpSystem<F, E> {
        if p.command is Finished || p.command is Failed {
            p
        } else {
            let (world, reply) = self.answer(p.world, p.command);
            let (pump, stats, command) = p.pump.step(p.stats, reply);
            PumpSystem { pump, stats, world, command }
        }
    }

    pub open spec fn turns(self) -> spec_fn(PumpSystem<F, E>) -> PumpSystem<F, E> {
        |p: PumpSystem<F, E>| self.turn(p)
    }

    /// What a stage makes of some frames, after earlier ones.
    pub open spec fn outs(self, stage: int, given: Seq<F>, frames: Seq<F>) -> Seq<F>
        decreases frames.len(),
    {
        if frames.len() == 0 {
            Seq::empty()
        } else {
            (self.made)(stage, given, frames[0]).primary@ + self.outs(
                stage,
                given.push(frames[0]),
                frames.skip(1),
            )
        }
    }

    /// How many extra frames a stage makes of some frames, after earlier ones.
    pub open spec fn extras(self, stage: int, given: Seq<F>, frames: Seq<F>) -> nat
        decreases frames.len(),
    {
        if frames.len() == 0 {
            0
        } else {
            (self.made)(stage, given, frames[0]).extras@.len() + self.extras(
                stage,
                given.push(frames[0]),
                frames.skip(1),
            )
        }
    }

    /// How many packets the encoder makes of some frames, after earlier ones.
    pub open spec fn packets(self, fed: Seq<F>, frames: Seq<F>) -> nat
        decreases frames.len(),
    {
        if frames.len() == 0 {
            0
        } else {
            (self.coded)(fed, frames[0]) + self.packets(fed.push(frames[0]), frames.skip(1))
        }
    }
}

/// The next call of a pump with nothing outstanding.
pub open spec fn going<F, E>(u: PumpView<F>, stats: ExecutorStats, world: World<F>) -> PumpSystem<
    F,
    E,
> {
    let (pump, command) = u.settled().commanded::<E>();
    PumpSystem { pump, stats, world, command }
}

/// The counters with so many frames written more.
pub open spec fn wrote(s: ExecutorStats, n: nat) -> ExecutorStats {
    ExecutorStats { frames_written: (s.frames_written + n) as u64, ..s }
}

/// The counters with so many packets encoded more.
pub open spec fn coded(s: ExecutorStats, n: nat) -> ExecutorStats {
    ExecutorStats { packets_encoded: (s.packets_encoded + n) as u64, ..s }
}

/// The counters with so many frames decoded more.
pub open spec fn decoded(s: ExecutorStats, n: nat) -> ExecutorStats {
    ExecutorStats { frames_decoded: (s.frames_decoded + n) as u64, ..s }
}

/// The world with so many frames shown more.
pub open spec fn showing<F>(w: World<F>, n: nat) -> World<F> {
    World { shown: w.shown + n, ..w }
}

proof fn extras_are_written<F, E>(
    script: Script<F, E>,
    u: PumpView<F>,
    s: ExecutorStats,
    w: World<F>,
)
    requires
        s.frames_written + u.extras.len() <= u64::MAX,
    ensures
        leads_to(
            script.turns(),
            going::<F, E>(u, s, w),
            going::<F, E>(
                PumpView { extras: Seq::empty(), ..u },
                wrote(s, u.extras.len()),
                showing(w, u.extras.len()),
            ),
        ),
    decreases u.extras.len(),
{
    let a = going::<F, E>(u, s, w);
    if u.extras.len() == 0 {
        assert(PumpView { extras: Seq::empty(), ..u } =~= u);
        assert(showing(w, 0) =~= w);
        nothing_leads_nowhere(script.turns(), a);
    } else {
        let next = PumpView { extras: u.extras.remove(0), ..u };
        let b = going::<F, E>(next, wrote(s, 1), showing(w, 1));
        assert(script.turn(a) == b);
        one_turn_leads(script.turns(), a);
        extras_are_written(script, next, wrote(s, 1), showing(w, 1));
        let n = u.extras.len();
        assert(PumpView { extras: Seq::empty(), ..next } == PumpView { extras: Seq::empty(), ..u });
        assert(wrote(wrote(s, 1), (n - 1) as nat) == wrote(s, n));
        assert(showing(showing(w, 1), (n - 1) as nat) =~= showing(w, n));
        leading_adds_up(
            script.turns(),
            a,
            b,
            going::<F, E>(PumpView { extras: Seq::empty(), ..u }, wrote(s, n), showing(w, n)),
        );
    }
}

/// A pump that has frames waiting for a stage and nothing that goes before them.
pub open spec fn at_stage<F>(u: PumpView<F>, w: World<F>) -> bool {
    &&& u.extras.len() == 0
    &&& !u.packet
    &&& !u.receiving
    &&& 0 <= u.at < u.track.stages.len() <= usize::MAX
    &&& w.given.len() == u.track.stages.len()
}

/// The pump once a stage has taken all of its frames.
pub open spec fn passed<F, E>(script: Script<F, E>, u: PumpView<F>, w: World<F>) -> PumpView<F> {
    let out = u.next + script.outs(u.at, w.given[u.at], u.todo);
    if out.len() > 0 {
        PumpView { todo: Seq::empty(), ..u }.entering(out, u.at + 1)
    } else {
        PumpView { todo: Seq::empty(), next: Seq::empty(), ..u }
    }
}

/// The world once a stage has taken these frames.
pub open spec fn taken<F>(w: World<F>, stage: int, frames: Seq<F>) -> World<F> {
    World { given: w.given.update(stage, w.given[stage] + frames), ..w }
}

proof fn stage_takes_its_frames<F, E>(
    script: Script<F, E>,
    u: PumpView<F>,
    s: ExecutorStats,
    w: World<F>,
)
    requires
        at_stage(u, w),
        u.todo.len() > 0,
        s.frames_written + script.extras(u.at, w.given[u.at], u.todo) <= u64::MAX,
    ensures
        ({
            let n = script.extras(u.at, w.given[u.at], u.todo);
            leads_to(
                script.turns(),
                going::<F, E>(u, s, w),
                going::<F, E>(
                    passed(script, u, w),
                    wrote(s, n),
                    showing(taken(w, u.at, u.todo), n),
                ),
            )
        }),
    decreases u.todo.len(),
{
    let k = u.at;
    let f = u.todo[0];
    let rest = u.todo.skip(1);
    let o = (script.made)(k, w.given[k], f);
    let a = going::<F, E>(u, s, w);
    let w1 = World { given: w.given.update(k, w.given[k].push(f)), ..w };
    let next = u.next + o.primary@;
    let u1 = PumpView { todo: rest, next, extras: o.extras@, ..u }.advanced();
    let b = going::<F, E>(u1, s, w1);
    assert(u.todo.remove(0) =~= rest);
    assert(Seq::<crate::pump::Extra<F>>::empty() + o.extras@ =~= o.extras@);
    assert(u.extras =~= Seq::empty());
    assert(script.turn(a).pump =~= b.pump);
    assert(script.turn(a) == b);
    one_turn_leads(script.turns(), a);
    extras_are_written(script, u1, s, w1);
    let m = o.extras@.len();
    assert(u1.extras == o.extras@);
    let u2 = PumpView { extras: Seq::empty(), ..u1 };
    let s2 = wrote(s, m);
    let w2 = showing(w1, m);
    let c = going::<F, E>(u2, s2, w2);
    leading_adds_up(script.turns(), a, b, c);
    let n = script.extras(k, w.given[k], u.todo);
    let goal = going::<F, E>(
        passed(script, u, w),
        wrote(s, n),
        showing(taken(w, k, u.todo), n),
    );
    if rest.len() == 0 {
        assert(script.outs(k, w.given[k].push(f), rest) =~= Seq::empty());
        assert(o.primary@ + Seq::<F>::empty() =~= o.primary@);
        assert(script.outs(k, w.given[k], u.todo) =~= o.primary@);
        assert(w.given[k] + u.todo =~= w.given[k].push(f));
        assert(rest =~= Seq::empty());
        assert(u2 =~= passed(script, u, w));
        assert(script.extras(k, w.given[k].push(f), rest) == 0);
        assert(n == m);
        assert(w2 =~= showing(taken(w, k, u.todo), n));
    } else {
        assert(u2 == PumpView { todo: rest, next, extras: Seq::empty(), ..u });
        assert(w1.given[k] == w.given[k].push(f));
        stage_takes_its_frames(script, u2, s2, w2);
        let more = script.outs(k, w1.given[k], rest);
        assert(next + more =~= u.next + script.outs(k, w.given[k], u.todo));
        assert(passed(script, u2, w2) =~= passed(script, u, w));
        assert(w.given[k].push(f) + rest =~= w.given[k] + u.todo);
        assert(taken(w2, k, rest).given =~= taken(w, k, u.todo).given);
        let n2 = script.extras(k, w2.given[k], rest);
        assert(n == m + n2);
        assert(showing(taken(w2, k, rest), n2) =~= showing(taken(w, k, u.todo), n));
        assert(wrote(s2, n2) == wrote(s, n));
        leading_adds_up(script.turns(), a, c, goal);
    }
}

impl<F, E> Script<F, E> {
    /// What comes of frames that enter stage `k` of `n`: the frames that leave the
    /// last stage, what each stage has been given by then, and how many extra
    /// frames there were on the way.
    pub open spec fn pass(self, given: Seq<Seq<F>>, k: int, n: int, frames: Seq<F>) -> (
        Seq<F>,
        Seq<Seq<F>>,
        nat,
    )
        decreases n - k,
    {
        if k >= n {
            (frames, given, 0)
        } else {
            let (out, all, extras) = self.pass(
                given.update(k, given[k] + frames),
                k + 1,
                n,
                self.outs(k, given[k], frames),
            );
            (out, all, self.extras(k, given[k], frames) + extras)
        }
    }
}

proof fn nothing_passes<F, E>(script: Script<F, E>, given: Seq<Seq<F>>, k: int, n: int)
    requires
        0 <= k,
        n <= given.len(),
    ensures
        script.pass(given, k, n, Seq::empty()) == (Seq::<F>::empty(), given, 0nat),
    decreases n - k,
{
    if k < n {
        assert(given[k] + Seq::<F>::empty() =~= given[k]);
        assert(given.update(k, given[k]) =~= given);
        assert(script.outs(k, given[k], Seq::empty()) =~= Seq::empty());
        nothing_passes(script, given, k + 1, n);
    }
}

/// Frames that left the last stage: to be delivered, or kept while stages are
/// being flushed.
pub open spec fn arrived<F>(u: PumpView<F>, frames: Seq<F>) -> PumpView<F> {
    if u.mode is FlushStages {
        PumpView { tail: u.tail + frames, todo: Seq::empty(), next: Seq::empty(), ..u }
    } else {
        PumpView { ready: u.ready + frames, todo: Seq::empty(), next: Seq::empty(), ..u }
    }
}

/// The pump comes to where it has nothing outstanding; which stage it served last
/// does not matter.
pub open spec fn comes_to<F, E>(
    script: Script<F, E>,
    p: PumpSystem<F, E>,
    u: PumpView<F>,
    s: ExecutorStats,
    w: World<F>,
) -> bool {
    exists|at: int| #[trigger] comes_to_at(script, p, u, s, w, at)
}

pub open spec fn comes_to_at<F, E>(
    script: Script<F, E>,
    p: PumpSystem<F, E>,
    u: PumpView<F>,
    s: ExecutorStats,
    w: World<F>,
    at: int,
) -> bool {
    leads_to(script.turns(), p, going::<F, E>(PumpView { at, ..u }, s, w))
}

proof fn frames_pass_the_stages<F, E>(
    script: Script<F, E>,
    u: PumpView<F>,
    s: ExecutorStats,
    w: World<F>,
)
    requires
        at_stage(u, w),
        u.todo.len() > 0,
        u.next.len() == 0,
        s.frames_written + script.pass(w.given, u.at, w.given.len() as int, u.todo).2 <= u64::MAX,
    ensures
        ({
            let (out, all, n) = script.pass(w.given, u.at, w.given.len() as int, u.todo);
            comes_to(
                script,
                going::<F, E>(u, s, w),
                arrived(u, out),
                wrote(s, n),
                showing(World { given: all, ..w }, n),
            )
        }),
    decreases w.given.len() - u.at,
{
    let k = u.at;
    let size = w.given.len() as int;
    let a = going::<F, E>(u, s, w);
    let (out, all, n) = script.pass(w.given, k, size, u.todo);
    let goal = arrived(u, out);
    let s1 = wrote(s, n);
    let w1 = showing(World { given: all, ..w }, n);
    stage_takes_its_frames(script, u, s, w);
    let m = script.extras(k, w.given[k], u.todo);
    let made = script.outs(k, w.given[k], u.todo);
    let u2 = passed(script, u, w);
    let s2 = wrote(s, m);
    let w2 = showing(taken(w, k, u.todo), m);
    let b = going::<F, E>(u2, s2, w2);
    assert(u.next + made =~= made);
    assert(w2.given == w.given.update(k, w.given[k] + u.todo));
    if made.len() == 0 {
        assert(made =~= Seq::empty());
        nothing_passes(script, w2.given, k + 1, size);
        assert(u.tail + Seq::<F>::empty() =~= u.tail);
        assert(u.ready + Seq::<F>::empty() =~= u.ready);
        assert(PumpView { at: k, ..goal } =~= u2);
        assert(w1 =~= w2);
        assert(comes_to_at(script, a, goal, s1, w1, k));
    } else if k + 1 == size {
        assert(script.pass(w2.given, k + 1, size, made) == (made, w2.given, 0nat));
        assert(PumpView { at: k + 1, ..goal } =~= u2);
        assert(w1 =~= w2);
        assert(comes_to_at(script, a, goal, s1, w1, k + 1));
    } else {
        frames_pass_the_stages(script, u2, s2, w2);
        let (out2, all2, n2) = script.pass(w2.given, k + 1, size, made);
        let u3 = arrived(u2, out2);
        let s3 = wrote(s2, n2);
        let w3 = showing(World { given: all2, ..w2 }, n2);
        let at = choose|at: int| #[trigger] comes_to_at(script, b, u3, s3, w3, at);
        assert(PumpView { at, ..u3 } =~= PumpView { at, ..goal });
        assert(s3 == s1);
        assert(w3 =~= w1);
        leading_adds_up(script.turns(), a, b, going::<F, E>(PumpView { at, ..goal }, s1, w1));
        assert(comes_to_at(script, a, goal, s1, w1, at));
    }
}

/// A pump that has nothing under way before what is ready for delivery.
pub open spec fn can_deliver<F>(u: PumpView<F>) -> bool {
    &&& u.extras.len() == 0
    &&& !u.packet
    &&& u.todo.len() == 0
    &&& !(u.mode is FlushStages)
}

proof fn frames_are_shown<F, E>(
    script: Script<F, E>,
    u: PumpView<F>,
    s: ExecutorStats,
    w: World<F>,
)
    requires
        can_deliver(u),
        !u.receiving,
        !u.track.has_encoder,
        s.frames_written + u.ready.len() <= u64::MAX,
    ensures
        leads_to(
            script.turns(),
            going::<F, E>(u, s, w),
            going::<F, E>(
                PumpView { ready: Seq::empty(), ..u },
                wrote(s, u.ready.len()),
                showing(w, u.ready.len()),
            ),
        ),
    decreases u.ready.len(),
{
    let a = going::<F, E>(u, s, w);
    if u.ready.len() == 0 {
        assert(PumpView { ready: Seq::empty(), ..u } =~= u);
        assert(showing(w, 0) =~= w);
        nothing_leads_nowhere(script.turns(), a);
    } else {
        let next = PumpView { ready: u.ready.remove(0), ..u };
        let b = going::<F, E>(next, wrote(s, 1), showing(w, 1));
        assert(script.turn(a) == b);
        one_turn_leads(script.turns(), a);
        frames_are_shown(script, next, wrote(s, 1), showing(w, 1));
        let n = u.ready.len();
        assert(PumpView { ready: Seq::empty(), ..next } == PumpView { ready: Seq::empty(), ..u });
        assert(wrote(wrote(s, 1), (n - 1) as nat) == wrote(s, n));
        assert(showing(showing(w, 1), (n - 1) as nat) =~= showing(w, n));
        leading_adds_up(
            script.turns(),
            a,
            b,
            going::<F, E>(PumpView { ready: Seq::empty(), ..u }, wrote(s, n), showing(w, n)),
        );
    }
}

proof fn packets_are_written<F, E>(
    script: Script<F, E>,
    u: PumpView<F>,
    s: ExecutorStats,
    w: World<F>,
)
    requires
        can_deliver(u),
        u.receiving,
        s.packets_encoded + w.coding <= u64::MAX,
    ensures
        leads_to(
            script.turns(),
            going::<F, E>(u, s, w),
            going::<F, E>(
                PumpView { receiving: false, ..u },
                coded(s, w.coding),
                World { coding: 0, ..w },
            ),
        ),
    decreases w.coding,
{
    let a = going::<F, E>(u, s, w);
    let goal = going::<F, E>(
        PumpView { receiving: false, ..u },
        coded(s, w.coding),
        World { coding: 0, ..w },
    );
    one_turn_leads(script.turns(), a);
    if w.coding == 0 {
        assert(World { coding: 0, ..w } =~= w);
        assert(script.turn(a) == goal);
    } else {
        let w1 = World { coding: (w.coding - 1) as nat, ..w };
        let b = going::<F, E>(PumpView { packet: true, ..u }, s, w1);
        assert(script.turn(a) == b);
        let s1 = coded(s, 1);
        let c = going::<F, E>(u, s1, w1);
        assert(script.turn(b) == c);
        one_turn_leads(script.turns(), b);
        leading_adds_up(script.turns(), a, b, c);
        packets_are_written(script, u, s1, w1);
        assert(coded(s1, w1.coding) == coded(s, w.coding));
        assert(World { coding: 0, ..w1 } =~= World { coding: 0, ..w });
        leading_adds_up(script.turns(), a, c, goal);
    }
}

proof fn frames_are_encoded<F, E>(
    script: Script<F, E>,
    u: PumpView<F>,
    s: ExecutorStats,
    w: World<F>,
)
    requires
        can_deliver(u),
        !u.receiving,
        u.track.has_encoder,
        w.coding == 0,
        s.packets_encoded + script.packets(w.fed, u.ready) <= u64::MAX,
    ensures
        leads_to(
            script.turns(),
            going::<F, E>(u, s, w),
            going::<F, E>(
                PumpView { ready: Seq::empty(), ..u },
                coded(s, script.packets(w.fed, u.ready)),
                World { fed: w.fed + u.ready, ..w },
            ),
        ),
    decreases u.ready.len(),
{
    let a = going::<F, E>(u, s, w);
    let n = script.packets(w.fed, u.ready);
    let goal = going::<F, E>(
        PumpView { ready: Seq::empty(), ..u },
        coded(s, n),
        World { fed: w.fed + u.ready, ..w },
    );
    if u.ready.len() == 0 {
        assert(PumpView { ready: Seq::empty(), ..u } =~= u);
        assert(w.fed + u.ready =~= w.fed);
        assert(World { fed: w.fed + u.ready, ..w } =~= w);
        nothing_leads_nowhere(script.turns(), a);
    } else {
        let f = u.ready[0];
        let u1 = PumpView { ready: u.ready.remove(0), ..u };
        let w1 = World { fed: w.fed.push(f), coding: (script.coded)(w.fed, f), ..w };
        let b = going::<F, E>(PumpView { receiving: true, ..u1 }, s, w1);
        assert(script.turn(a) == b);
        one_turn_leads(script.turns(), a);
        packets_are_written(script, PumpView { receiving: true, ..u1 }, s, w1);
        let s2 = coded(s, w1.coding);
        let w2 = World { coding: 0, ..w1 };
        let c = going::<F, E>(u1, s2, w2);
        assert(PumpView { receiving: false, ..PumpView { receiving: true, ..u1 } } == u1);
        leading_adds_up(script.turns(), a, b, c);
        assert(u.ready.remove(0) =~= u.ready.skip(1));
        frames_are_encoded(script, u1, s2, w2);
        assert(w2.fed + u1.ready =~= w.fed + u.ready);
        assert(World { fed: w2.fed + u1.ready, ..w2 } =~= World { fed: w.fed + u.ready, ..w });
        assert(coded(s2, script.packets(w2.fed, u1.ready)) == coded(s, n));
        leading_adds_up(script.turns(), a, c, goal);
    }
}

/// What delivering frames adds to the counters and to the world.
pub open spec fn delivering<F, E>(
    script: Script<F, E>,
    encoder: bool,
    s: ExecutorStats,
    w: World<F>,
    frames: Seq<F>,
) -> (ExecutorStats, World<F>) {
    if encoder {
        (coded(s, script.packets(w.fed, frames)), World { fed: w.fed + frames, ..w })
    } else {
        (wrote(s, frames.len()), showing(w, frames.len()))
    }
}

proof fn ready_frames_are_delivered<F, E>(
    script: Script<F, E>,
    u: PumpView<F>,
    s: ExecutorStats,
    w: World<F>,
)
    requires
        can_deliver(u),
        !u.receiving,
        w.coding == 0,
        !u.track.has_encoder ==> s.frames_written + u.ready.len() <= u64::MAX,
        u.track.has_encoder ==> s.packets_encoded + script.packets(w.fed, u.ready) <= u64::MAX,
    ensures
        ({
            let (t, x) = delivering(script, u.track.has_encoder, s, w, u.ready);
            leads_to(
                script.turns(),
                going::<F, E>(u, s, w),
                going::<F, E>(PumpView { ready: Seq::empty(), ..u }, t, x),
            )
        }),
{
    if u.track.has_encoder {
        frames_are_encoded(script, u, s, w);
    } else {
        frames_are_shown(script, u, s, w);
    }
}

/// What a run adds to the counters.
#[verifier::ext_equal]
pub struct Tally {
    pub read: nat,
    pub copied: nat,
    pub decoded: nat,
    pub skipped: nat,
    pub written: nat,
    pub encoded: nat,
}

impl Tally {
    pub open spec fn none() -> Tally {
        Tally { read: 0, copied: 0, decoded: 0, skipped: 0, written: 0, encoded: 0 }
    }

    /// Some frames written, and nothing else.
    pub open spec fn of_written(n: nat) -> Tally {
        Tally { written: n, ..Tally::none() }
    }

    pub open spec fn plus(self, t: Tally) -> Tally {
        Tally {
            read: self.read + t.read,
            copied: self.copied + t.copied,
            decoded: self.decoded + t.decoded,
            skipped: self.skipped + t.skipped,
            written: self.written + t.written,
            encoded: self.encoded + t.encoded,
        }
    }

    /// No count is more than another's.
    pub open spec fn at_most(self, t: Tally) -> bool {
        &&& self.read <= t.read
        &&& self.copied <= t.copied
        &&& self.decoded <= t.decoded
        &&& self.skipped <= t.skipped
        &&& self.written <= t.written
        &&& self.encoded <= t.encoded
    }

    /// The counters with all of it added.
    pub open spec fn added(self, s: ExecutorStats) -> ExecutorStats {
        ExecutorStats {
            packets_read: (s.packets_read + self.read) as u64,
            frames_decoded: (s.frames_decoded + self.decoded) as u64,
            packets_skipped: (s.packets_skipped + self.skipped) as u64,
            frames_written: (s.frames_written + self.written) as u64,
            packets_encoded: (s.packets_encoded + self.encoded) as u64,
            packets_copied: (s.packets_copied + self.copied) as u64,
        }
    }

    /// No counter leaves its range.
    pub open spec fn fits(self, s: ExecutorStats) -> bool {
        &&& s.packets_read + self.read <= u64::MAX
        &&& s.packets_copied + self.copied <= u64::MAX
        &&& s.frames_decoded + self.decoded <= u64::MAX
        &&& s.packets_skipped + self.skipped <= u64::MAX
        &&& s.frames_written + self.written <= u64::MAX
        &&& s.packets_encoded + self.encoded <= u64::MAX
    }
}

/// What frames that leave the last stage of a track count for.
pub open spec fn delivery_tally<F, E>(
    script: Script<F, E>,
    encoder: bool,
    fed: Seq<F>,
    frames: Seq<F>,
) -> Tally {
    if encoder {
        Tally { encoded: script.packets(fed, frames), ..Tally::none() }
    } else {
        Tally { written: frames.len(), ..Tally::none() }
    }
}

/// The world after frames have left the last stage of a track.
pub open spec fn delivered<F>(encoder: bool, w: World<F>, frames: Seq<F>) -> World<F> {
    if encoder {
        World { fed: w.fed + frames, ..w }
    } else {
        showing(w, frames.len())
    }
}

impl<F, E> Script<F, E> {
    /// What frames that enter a track count for on their way to the sink.
    pub open spec fn frames_tally(self, encoder: bool, w: World<F>, frames: Seq<F>) -> Tally {
        let (out, _, extras) = self.pass(w.given, 0, w.given.len() as int, frames);
        Tally { written: extras, ..Tally::none() }.plus(
            delivery_tally(self, encoder, w.fed, out),
        )
    }

    /// The world after frames have gone through a track.
    pub open spec fn frames_through(self, encoder: bool, w: World<F>, frames: Seq<F>) -> World<F> {
        let (out, all, extras) = self.pass(w.given, 0, w.given.len() as int, frames);
        delivered(encoder, showing(World { given: all, ..w }, extras), out)
    }
}

/// A pump with nothing under way, in a mode in which frames enter.
pub open spec fn at_rest<F>(u: PumpView<F>, w: World<F>) -> bool {
    &&& u.lease is None
    &&& u.extras.len() == 0
    &&& u.todo.len() == 0
    &&& u.next.len() == 0
    &&& u.ready.len() == 0
    &&& u.tail.len() == 0
    &&& !u.packet
    &&& !u.receiving
    &&& u.track.stages.len() <= usize::MAX
    &&& w.given.len() == u.track.stages.len()
    &&& w.coding == 0
}

proof fn frame_goes_through<F, E>(
    script: Script<F, E>,
    u: PumpView<F>,
    f: F,
    s: ExecutorStats,
    w: World<F>,
)
    requires
        at_rest(u, w),
        u.mode is Receive || u.mode is ReceiveTail || u.mode is Single,
        script.frames_tally(u.track.has_encoder, w, seq![f]).fits(s),
    ensures
        comes_to(
            script,
            going::<F, E>(PumpView { lease: Some(f), ..u }, s, w),
            u,
            script.frames_tally(u.track.has_encoder, w, seq![f]).added(s),
            script.frames_through(u.track.has_encoder, w, seq![f]),
        ),
{
    let a = going::<F, E>(PumpView { lease: Some(f), ..u }, s, w);
    let encoder = u.track.has_encoder;
    let size = u.track.stages.len() as int;
    let (out, all, n) = script.pass(w.given, 0, size, seq![f]);
    let t = script.frames_tally(encoder, w, seq![f]);
    let end = script.frames_through(encoder, w, seq![f]);
    one_turn_leads(script.turns(), a);
    assert(u.ready =~= Seq::empty());
    assert(u.todo =~= Seq::empty());
    assert(u.next =~= Seq::empty());
    if u.track.direct() {
        let b = going::<F, E>(u, wrote(s, 1), showing(w, 1));
        assert(script.turn(a).pump =~= b.pump);
        assert(script.turn(a) == b);
        assert(script.pass(w.given, 0, size, seq![f]) == (seq![f], w.given, 0nat));
        assert(seq![f].len() == 1);
        assert(end =~= showing(w, 1));
        assert(t.added(s) == wrote(s, 1));
        assert(PumpView { at: u.at, ..u } == u);
        assert(comes_to_at(script, a, u, t.added(s), end, u.at));
    } else {
        let u1 = u.entering(seq![f], 0);
        let b = going::<F, E>(u1, s, w);
        assert(script.turn(a).pump =~= b.pump);
        assert(script.turn(a) == b);
        let s2 = wrote(s, n);
        let w2 = showing(World { given: all, ..w }, n);
        let full = PumpView { ready: out, ..u };
        if size == 0 {
            assert(out == seq![f]);
            assert(u.ready + seq![f] =~= seq![f]);
            assert(u1 =~= PumpView { at: 0, ..full });
            assert(w2 =~= w);
            assert(s2 == s);
            assert(comes_to_at(script, a, full, s2, w2, 0));
        } else {
            frames_pass_the_stages(script, u1, s, w);
            let v = arrived(u1, out);
            let at = choose|at: int| #[trigger] comes_to_at(script, b, v, s2, w2, at);
            assert(u.ready + out =~= out);
            assert(PumpView { at, ..v } =~= PumpView { at, ..full });
            leading_adds_up(script.turns(), a, b, going::<F, E>(PumpView { at, ..full }, s2, w2));
            assert(comes_to_at(script, a, full, s2, w2, at));
        }
        let at = choose|at: int| #[trigger] comes_to_at(script, a, full, s2, w2, at);
        let ready = PumpView { at, ..full };
        ready_frames_are_delivered(script, ready, s2, w2);
        let (t3, w3) = delivering(script, encoder, s2, w2, out);
        assert(PumpView { ready: Seq::empty(), ..ready } =~= PumpView { at, ..u });
        assert(t3 == t.added(s));
        assert(w3 =~= end);
        leading_adds_up(
            script.turns(),
            a,
            going::<F, E>(ready, s2, w2),
            going::<F, E>(PumpView { at, ..u }, t.added(s), end),
        );
        assert(comes_to_at(script, a, u, t.added(s), end, at));
    }
}

proof fn outs_add_up<F, E>(
    script: Script<F, E>,
    k: int,
    given: Seq<F>,
    a: Seq<F>,
    b: Seq<F>,
)
    ensures
        script.outs(k, given, a + b) == script.outs(k, given, a) + script.outs(k, given + a, b),
        script.extras(k, given, a + b) == script.extras(k, given, a) + script.extras(
            k,
            given + a,
            b,
        ),
    decreases a.len(),
{
    if a.len() == 0 {
        assert(a + b =~= b);
        assert(given + a =~= given);
        assert(script.outs(k, given, a) + script.outs(k, given + a, b) =~= script.outs(
            k,
            given,
            b,
        ));
    } else {
        let f = a[0];
        outs_add_up(script, k, given.push(f), a.skip(1), b);
        assert((a + b).skip(1) =~= a.skip(1) + b);
        assert(given.push(f) + a.skip(1) =~= given + a);
        let o = (script.made)(k, given, f).primary@;
        let x = script.outs(k, given.push(f), a.skip(1));
        let y = script.outs(k, given + a, b);
        assert(o + (x + y) =~= (o + x) + y);
    }
}

pub proof fn packets_add_up<F, E>(script: Script<F, E>, fed: Seq<F>, a: Seq<F>, b: Seq<F>)
    ensures
        script.packets(fed, a + b) == script.packets(fed, a) + script.packets(fed + a, b),
    decreases a.len(),
{
    if a.len() == 0 {
        assert(a + b =~= b);
        assert(fed + a =~= fed);
    } else {
        let f = a[0];
        packets_add_up(script, fed.push(f), a.skip(1), b);
        assert((a + b).skip(1) =~= a.skip(1) + b);
        assert(fed.push(f) + a.skip(1) =~= fed + a);
    }
}

pub proof fn passes_add_up<F, E>(
    script: Script<F, E>,
    given: Seq<Seq<F>>,
    k: int,
    n: int,
    a: Seq<F>,
    b: Seq<F>,
)
    requires
        0 <= k,
        n <= given.len(),
    ensures
        ({
            let (o1, g1, x1) = script.pass(given, k, n, a);
            let (o2, g2, x2) = script.pass(g1, k, n, b);
            &&& g1.len() == given.len()
            &&& forall|j: int| 0 <= j < k ==> #[trigger] g1[j] == given[j]
            &&& script.pass(given, k, n, a + b) == (o1 + o2, g2, x1 + x2)
        }),
    decreases n - k,
{
    if k < n {
        let ga = given.update(k, given[k] + a);
        let oa = script.outs(k, given[k], a);
        let ob = script.outs(k, given[k] + a, b);
        outs_add_up(script, k, given[k], a, b);
        passes_add_up(script, ga, k + 1, n, oa, ob);
        let (o1, g1, x1) = script.pass(ga, k + 1, n, oa);
        assert(g1[k] == ga[k]);
        passes_ignore(script, ga, k + 1, n, oa, k, given[k] + a + b);
        passes_ignore(script, ga, k + 1, n, oa + ob, k, given[k] + a + b);
        assert(given[k] + (a + b) =~= given[k] + a + b);
        assert(ga.update(k, given[k] + a + b) =~= given.update(k, given[k] + (a + b)));
        let gb = g1.update(k, g1[k] + b);
        passes_ignore(script, g1, k + 1, n, ob, k, given[k] + a + b);
    }
}

/// What earlier stages have been given does not matter to later ones.
proof fn passes_ignore<F, E>(
    script: Script<F, E>,
    given: Seq<Seq<F>>,
    k: int,
    n: int,
    frames: Seq<F>,
    j: int,
    other: Seq<F>,
)
    requires
        0 <= j < k,
        j < given.len(),
        n <= given.len(),
    ensures
        ({
            let (o1, g1, x1) = script.pass(given, k, n, frames);
            script.pass(given.update(j, other), k, n, frames) == (o1, g1.update(j, other), x1)
        }),
    decreases n - k,
{
    if k < n {
        let g = given.update(k, given[k] + frames);
        assert(given.update(j, other).update(k, given[k] + frames) =~= g.update(j, other));
        passes_ignore(script, g, k + 1, n, script.outs(k, given[k], frames), j, other);
    }
}

pub proof fn frames_add_up<F, E>(
    script: Script<F, E>,
    encoder: bool,
    w: World<F>,
    a: Seq<F>,
    b: Seq<F>,
)
    ensures
        ({
            let mid = script.frames_through(encoder, w, a);
            &&& mid.given.len() == w.given.len()
            &&& script.frames_tally(encoder, w, a + b) == script.frames_tally(
                encoder,
                w,
                a,
            ).plus(script.frames_tally(encoder, mid, b))
            &&& script.frames_through(encoder, w, a + b) == script.frames_through(
                encoder,
                mid,
                b,
            )
        }),
{
    let n = w.given.len() as int;
    passes_add_up(script, w.given, 0, n, a, b);
    let mid = script.frames_through(encoder, w, a);
    let (o1, g1, x1) = script.pass(w.given, 0, n, a);
    let (o2, g2, x2) = script.pass(g1, 0, n, b);
    packets_add_up(script, w.fed, o1, o2);
    assert(w.fed + (o1 + o2) =~= w.fed + o1 + o2);
    assert(script.frames_through(encoder, w, a + b) =~= script.frames_through(encoder, mid, b));
}

pub proof fn no_frames_change_nothing<F, E>(script: Script<F, E>, encoder: bool, w: World<F>)
    ensures
        script.frames_tally(encoder, w, Seq::empty()) == Tally::none(),
        script.frames_through(encoder, w, Seq::empty()) == w,
{
    nothing_passes(script, w.given, 0, w.given.len() as int);
    assert(w.fed + Seq::<F>::empty() =~= w.fed);
    assert(script.frames_through(encoder, w, Seq::empty()) =~= w);
}

/// The mode of a pump once its decoder has handed out so many frames.
pub open spec fn mode_after(mode: Mode, frames: nat) -> Mode {
    if mode is Receive && frames > 0 {
        Mode::Receive { produced: true }
    } else {
        mode
    }
}

/// What so many frames that a decoder hands out count for, and where they lead.
pub open spec fn decoding_tally<F, E>(
    script: Script<F, E>,
    encoder: bool,
    w: World<F>,
    frames: Seq<F>,
) -> Tally {
    Tally { decoded: frames.len(), ..Tally::none() }.plus(
        script.frames_tally(encoder, w, frames),
    )
}

proof fn decoder_is_emptied<F, E>(
    script: Script<F, E>,
    u: PumpView<F>,
    s: ExecutorStats,
    w: World<F>,
)
    requires
        at_rest(u, w),
        u.mode is Receive || u.mode is ReceiveTail,
        decoding_tally(script, u.track.has_encoder, w, w.pending).fits(s),
    ensures
        comes_to(
            script,
            going::<F, E>(u, s, w),
            PumpView { mode: mode_after(u.mode, w.pending.len()), ..u },
            decoding_tally(script, u.track.has_encoder, w, w.pending).added(s),
            script.frames_through(
                u.track.has_encoder,
                World { pending: Seq::empty(), ..w },
                w.pending,
            ),
        ),
    decreases w.pending.len(),
{
    let encoder = u.track.has_encoder;
    let a = going::<F, E>(u, s, w);
    let all = w.pending;
    let still = World { pending: Seq::empty(), ..w };
    let t = decoding_tally(script, encoder, w, all);
    let goal = PumpView { mode: mode_after(u.mode, all.len()), ..u };
    let end = script.frames_through(encoder, still, all);
    if all.len() == 0 {
        assert(all =~= Seq::empty());
        assert(still =~= w);
        no_frames_change_nothing(script, encoder, w);
        assert(t.added(s) == s);
        nothing_leads_nowhere(script.turns(), a);
        assert(PumpView { at: u.at, ..goal } == u);
        assert(comes_to_at(script, a, goal, t.added(s), end, u.at));
    } else {
        let f = all[0];
        let rest = all.skip(1);
        assert(seq![f] + rest =~= all);
        frames_add_up(script, encoder, still, seq![f], rest);
        let u1 = PumpView { mode: mode_after(u.mode, 1), ..u };
        let w1 = World { pending: rest, ..w };
        let s1 = decoded(s, 1);
        let b = going::<F, E>(PumpView { lease: Some(f), ..u1 }, s1, w1);
        assert(script.turn(a) == b);
        one_turn_leads(script.turns(), a);
        frame_goes_through(script, u1, f, s1, w1);
        let t1 = script.frames_tally(encoder, w1, seq![f]);
        let s2 = t1.added(s1);
        let w2 = script.frames_through(encoder, w1, seq![f]);
        let at = choose|at: int| #[trigger] comes_to_at(script, b, u1, s2, w2, at);
        let u2 = PumpView { at, ..u1 };
        let c = going::<F, E>(u2, s2, w2);
        leading_adds_up(script.turns(), a, b, c);
        let mid = script.frames_through(encoder, still, seq![f]);
        assert(World { pending: Seq::empty(), ..w2 } =~= mid);
        assert(t1 == script.frames_tally(encoder, still, seq![f]));
        assert(script.frames_tally(encoder, w2, rest) == script.frames_tally(encoder, mid, rest));
        assert(t == script.frames_tally(encoder, still, all).plus(
            Tally { decoded: all.len(), ..Tally::none() },
        ));
        let t2 = decoding_tally(script, encoder, w2, rest);
        decoder_is_emptied(script, u2, s2, w2);
        let u3 = PumpView { mode: mode_after(u2.mode, rest.len()), ..u2 };
        let s3 = t2.added(s2);
        let w3 = script.frames_through(encoder, World { pending: Seq::empty(), ..w2 }, rest);
        let at3 = choose|at3: int| #[trigger] comes_to_at(script, c, u3, s3, w3, at3);
        assert(PumpView { at: at3, ..u3 } =~= PumpView { at: at3, ..goal });
        assert(s3 == t.added(s));
        assert(w3 == end);
        leading_adds_up(
            script.turns(),
            a,
            c,
            going::<F, E>(PumpView { at: at3, ..goal }, t.added(s), end),
        );
        assert(comes_to_at(script, a, goal, t.added(s), end, at3));
    }
}

/// The pump finishes, with these counters, in this world.
pub open spec fn finishes<F, E>(
    script: Script<F, E>,
    p: PumpSystem<F, E>,
    s: ExecutorStats,
    w: World<F>,
) -> bool {
    exists|q: PumpSystem<F, E>| #[trigger] leads_to(script.turns(), p, q) && q.command is Finished
        && q.stats == s && q.world == w && q.pump.track == p.pump.track
}

/// What a packet counts for.
pub open spec fn packet_tally<F, E>(
    script: Script<F, E>,
    encoder: bool,
    w: World<F>,
    p: PacketScript<F>,
) -> Tally {
    let skip = Tally { skipped: 1, ..Tally::none() };
    if !p.accepted {
        skip
    } else {
        let t = decoding_tally(script, encoder, w, p.frames);
        if p.failed && p.frames.len() == 0 {
            t.plus(skip)
        } else {
            t
        }
    }
}

/// The world after a packet.
pub open spec fn packet_through<F, E>(
    script: Script<F, E>,
    encoder: bool,
    w: World<F>,
    p: PacketScript<F>,
) -> World<F> {
    if p.accepted {
        script.frames_through(encoder, w, p.frames)
    } else {
        w
    }
}

/// Between two packets nothing is pending.
pub open spec fn settled<F>(w: World<F>) -> bool {
    w.pending.len() == 0 && !w.failing && w.coding == 0
}

/// On one thread, a packet counts for just this, and everything that comes of it
/// reaches the sink before the next one is read.
pub proof fn packet_is_pumped<F, E>(
    script: Script<F, E>,
    track: PumpTrackView,
    s: ExecutorStats,
    w: World<F>,
)
    requires
        !track.copy,
        track.has_decoder,
        track.stages.len() <= usize::MAX,
        w.given.len() == track.stages.len(),
        settled(w),
        packet_tally(script, track.has_encoder, w, w.packet).fits(s),
    ensures
        finishes(
            script,
            going::<F, E>(PumpView::started(track, packet_mode(track), None), s, w),
            packet_tally(script, track.has_encoder, w, w.packet).added(s),
            packet_through(script, track.has_encoder, w, w.packet),
        ),
{
    let encoder = track.has_encoder;
    let p = w.packet;
    let t = packet_tally(script, encoder, w, p);
    let u = PumpView::<F>::started(track, Mode::Send, None);
    let a = going::<F, E>(u, s, w);
    one_turn_leads(script.turns(), a);
    assert(w.pending =~= Seq::empty());
    if !p.accepted {
        let q = script.turn(a);
        assert(q.command is Finished && q.stats == t.added(s) && q.world == w && q.pump.track
            == track);
    } else {
        let u1 = PumpView { mode: Mode::Receive { produced: false }, ..u };
        let w1 = World { pending: p.frames, failing: p.failed, ..w };
        let b = going::<F, E>(u1, s, w1);
        assert(script.turn(a) == b);
        let t1 = decoding_tally(script, encoder, w1, p.frames);
        assert(t1 == decoding_tally(script, encoder, w, p.frames));
        decoder_is_emptied(script, u1, s, w1);
        let u2 = PumpView { mode: mode_after(u1.mode, p.frames.len()), ..u1 };
        let s2 = t1.added(s);
        let w2 = script.frames_through(
            encoder,
            World { pending: Seq::empty(), ..w1 },
            p.frames,
        );
        let at = choose|at: int| #[trigger] comes_to_at(script, b, u2, s2, w2, at);
        let c = going::<F, E>(PumpView { at, ..u2 }, s2, w2);
        leading_adds_up(script.turns(), a, b, c);
        one_turn_leads(script.turns(), c);
        let q = script.turn(c);
        leading_adds_up(script.turns(), a, c, q);
        assert(w2.failing == p.failed && w2.pending.len() == 0);
        assert(c.command is ReceiveFrame);
        assert(q.world =~= packet_through(script, encoder, w, p));
        assert(q.stats == t.added(s));
        assert(q.command is Finished && q.pump.track == track);
    }
}

/// On one thread, a packet that is copied counts for just that.
pub proof fn packet_is_copied<F, E>(
    script: Script<F, E>,
    track: PumpTrackView,
    s: ExecutorStats,
    w: World<F>,
)
    requires
        track.copy,
        s.packets_copied < u64::MAX,
    ensures
        finishes(
            script,
            going::<F, E>(PumpView::started(track, packet_mode(track), None), s, w),
            Tally { copied: 1, ..Tally::none() }.added(s),
            w,
        ),
{
    let a = going::<F, E>(PumpView::started(track, Mode::Copy, None), s, w);
    one_turn_leads(script.turns(), a);
    let q = script.turn(a);
    assert(q.command is Finished && q.world == w && q.pump.track == track);
}

/// On one thread, the end of a stream that is copied counts for nothing.
pub proof fn copied_track_is_drained<F, E>(
    script: Script<F, E>,
    track: PumpTrackView,
    s: ExecutorStats,
    w: World<F>,
)
    requires
        track.copy,
    ensures
        finishes(
            script,
            going::<F, E>(PumpView::started(track, drain_mode(track), None), s, w),
            s,
            w,
        ),
{
    let a = going::<F, E>(PumpView::started(track, drain_mode(track), None), s, w);
    nothing_leads_nowhere(script.turns(), a);
    assert(a.command is Finished && a.pump.track == track);
}

/// A frame that came without a packet goes through its track.
pub proof fn frame_is_pumped<F, E>(
    script: Script<F, E>,
    track: PumpTrackView,
    f: F,
    s: ExecutorStats,
    w: World<F>,
)
    requires
        track.stages.len() <= usize::MAX,
        w.given.len() == track.stages.len(),
        settled(w),
        script.frames_tally(track.has_encoder, w, seq![f]).fits(s),
    ensures
        finishes(
            script,
            going::<F, E>(PumpView::started(track, Mode::Single, Some(f)), s, w),
            script.frames_tally(track.has_encoder, w, seq![f]).added(s),
            script.frames_through(track.has_encoder, w, seq![f]),
        ),
{
    let u = PumpView::<F>::started(track, Mode::Single, None);
    let t = script.frames_tally(track.has_encoder, w, seq![f]);
    let end = script.frames_through(track.has_encoder, w, seq![f]);
    let a = going::<F, E>(PumpView { lease: Some(f), ..u }, s, w);
    frame_goes_through(script, u, f, s, w);
    let at = choose|at: int| #[trigger] comes_to_at(script, a, u, t.added(s), end, at);
    let q = going::<F, E>(PumpView { at, ..u }, t.added(s), end);
    assert(leads_to(script.turns(), a, q));
    assert(q.command is Finished);
}

impl<F, E> Script<F, E> {
    /// What comes of flushing the stages from `i` on, one after the other: the
    /// frames that leave the last stage, what each stage has been given by then,
    /// and how many extra frames there were on the way.
    pub open spec fn flush(self, given: Seq<Seq<F>>, i: int, n: int) -> (
        Seq<F>,
        Seq<Seq<F>>,
        nat,
    )
        decreases n - i,
    {
        if i >= n {
            (Seq::empty(), given, 0)
        } else {
            let held = (self.held)(i, given[i]);
            let (out, g, x) = self.pass(given, i + 1, n, held.primary@);
            let (rest, all, y) = self.flush(g, i + 1, n);
            (out + rest, all, held.extras@.len() + x + y)
        }
    }
}

proof fn stages_are_flushed<F, E>(
    script: Script<F, E>,
    u: PumpView<F>,
    i: usize,
    s: ExecutorStats,
    w: World<F>,
)
    requires
        at_rest(PumpView { tail: Seq::empty(), ..u }, w),
        u.mode == (Mode::FlushStages { stage: i }),
        i <= u.track.stages.len(),
        s.frames_written + script.flush(w.given, i as int, w.given.len() as int).2 <= u64::MAX,
    ensures
        ({
            let n = w.given.len() as int;
            let (out, all, extras) = script.flush(w.given, i as int, n);
            comes_to(
                script,
                going::<F, E>(u, s, w),
                PumpView {
                    mode: Mode::FlushStages { stage: n as usize },
                    tail: u.tail + out,
                    ..u
                },
                wrote(s, extras),
                showing(World { given: all, ..w }, extras),
            )
        }),
    decreases u.track.stages.len() - i,
{
    let n = w.given.len() as int;
    let (out, all, extras) = script.flush(w.given, i as int, n);
    let a = going::<F, E>(u, s, w);
    let goal = PumpView {
        mode: Mode::FlushStages { stage: n as usize },
        tail: u.tail + out,
        ..u
    };
    let s_end = wrote(s, extras);
    let w_end = showing(World { given: all, ..w }, extras);
    assert(u.extras =~= Seq::empty());
    assert(u.todo =~= Seq::empty());
    assert(u.next =~= Seq::empty());
    assert(u.ready =~= Seq::empty());
    if i == n {
        assert(u.tail + Seq::<F>::empty() =~= u.tail);
        assert(PumpView { at: u.at, ..goal } =~= u);
        assert(w_end =~= w);
        nothing_leads_nowhere(script.turns(), a);
        assert(comes_to_at(script, a, goal, s_end, w_end, u.at));
    } else {
        let held = (script.held)(i as int, w.given[i as int]);
        let next = Mode::FlushStages { stage: (i + 1) as usize };
        let frames = held.primary@;
        let m = held.extras@.len();
        let u1 = PumpView { mode: next, extras: held.extras@, ..u }.entering(frames, i + 1);
        let b = going::<F, E>(u1, s, w);
        assert(Seq::<crate::pump::Extra<F>>::empty() + held.extras@ =~= held.extras@);
        assert(a.command is FlushStage);
        assert(script.turn(a).pump =~= b.pump);
        assert(script.turn(a) == b);
        one_turn_leads(script.turns(), a);
        extras_are_written(script, u1, s, w);
        let u2 = PumpView { extras: Seq::empty(), ..u1 };
        let s2 = wrote(s, m);
        let w2 = showing(w, m);
        let c = going::<F, E>(u2, s2, w2);
        leading_adds_up(script.turns(), a, b, c);
        let (o3, g3, x3) = script.pass(w.given, i + 1, n, frames);
        let u3 = PumpView { mode: next, tail: u.tail + o3, ..u };
        let s3 = wrote(s2, x3);
        let w3 = showing(World { given: g3, ..w2 }, x3);
        if i + 1 == n {
            assert(script.pass(w.given, i + 1, n, frames) == (frames, w.given, 0nat));
            assert(PumpView { at: i + 1, ..u3 } =~= u2);
            assert(w3 =~= w2);
            assert(s3 == s2);
            assert(comes_to_at(script, a, u3, s3, w3, i + 1));
        } else if frames.len() == 0 {
            assert(frames =~= Seq::empty());
            nothing_passes(script, w.given, i + 1, n);
            assert(u.tail + Seq::<F>::empty() =~= u.tail);
            assert(PumpView { at: i + 1, ..u3 } =~= u2);
            assert(w3 =~= w2);
            assert(s3 == s2);
            assert(comes_to_at(script, a, u3, s3, w3, i + 1));
        } else {
            frames_pass_the_stages(script, u2, s2, w2);
            let v = arrived(u2, o3);
            let at = choose|at: int| #[trigger] comes_to_at(script, c, v, s3, w3, at);
            assert(PumpView { at, ..v } =~= PumpView { at, ..u3 });
            leading_adds_up(script.turns(), a, c, going::<F, E>(PumpView { at, ..u3 }, s3, w3));
            assert(comes_to_at(script, a, u3, s3, w3, at));
        }
        let at = choose|at: int| #[trigger] comes_to_at(script, a, u3, s3, w3, at);
        let u4 = PumpView { at, ..u3 };
        let d = going::<F, E>(u4, s3, w3);
        passes_add_up(script, w.given, i + 1, n, frames, Seq::empty());
        stages_are_flushed(script, u4, (i + 1) as usize, s3, w3);
        let (o5, g5, x5) = script.flush(g3, i + 1, n);
        let u5 = PumpView {
            mode: Mode::FlushStages { stage: n as usize },
            tail: u4.tail + o5,
            ..u4
        };
        let s5 = wrote(s3, x5);
        let w5 = showing(World { given: g5, ..w3 }, x5);
        let at5 = choose|at5: int| #[trigger] comes_to_at(script, d, u5, s5, w5, at5);
        assert(u.tail + o3 + o5 =~= u.tail + out);
        assert(PumpView { at: at5, ..u5 } =~= PumpView { at: at5, ..goal });
        assert(s5 == s_end);
        assert(w5 =~= w_end);
        leading_adds_up(
            script.turns(),
            a,
            d,
            going::<F, E>(PumpView { at: at5, ..goal }, s_end, w_end),
        );
        assert(comes_to_at(script, a, goal, s_end, w_end, at5));
    }
}

/// What the end of the stream counts for once the decoder is empty: the frames
/// that the stages still hold, and what the encoder makes of them and holds.
pub open spec fn flush_tally<F, E>(script: Script<F, E>, encoder: bool, w: World<F>) -> Tally {
    let (out, _, extras) = script.flush(w.given, 0, w.given.len() as int);
    let t = Tally { written: extras, ..Tally::none() }.plus(
        delivery_tally(script, encoder, w.fed, out),
    );
    if encoder {
        t.plus(Tally { encoded: (script.kept)(w.fed + out), ..Tally::none() })
    } else {
        t
    }
}

/// The world after the end of the stream.
pub open spec fn flush_through<F, E>(script: Script<F, E>, encoder: bool, w: World<F>) -> World<F> {
    let (out, all, extras) = script.flush(w.given, 0, w.given.len() as int);
    delivered(encoder, showing(World { given: all, ..w }, extras), out)
}

proof fn track_is_flushed<F, E>(
    script: Script<F, E>,
    u: PumpView<F>,
    s: ExecutorStats,
    w: World<F>,
)
    requires
        at_rest(u, w),
        u.mode == (Mode::FlushStages { stage: 0 }),
        flush_tally(script, u.track.has_encoder, w).fits(s),
    ensures
        finishes(
            script,
            going::<F, E>(u, s, w),
            flush_tally(script, u.track.has_encoder, w).added(s),
            flush_through(script, u.track.has_encoder, w),
        ),
{
    let encoder = u.track.has_encoder;
    let n = w.given.len() as int;
    let (out, all, extras) = script.flush(w.given, 0, n);
    let a = going::<F, E>(u, s, w);
    let t = flush_tally(script, encoder, w);
    let end = flush_through(script, encoder, w);
    assert(u.tail =~= Seq::empty());
    assert(PumpView { tail: Seq::empty(), ..u } == u);
    stages_are_flushed(script, u, 0, s, w);
    let u1 = PumpView {
        mode: Mode::FlushStages { stage: n as usize },
        tail: u.tail + out,
        ..u
    };
    let s1 = wrote(s, extras);
    let w1 = showing(World { given: all, ..w }, extras);
    let at = choose|at: int| #[trigger] comes_to_at(script, a, u1, s1, w1, at);
    assert(u.tail + out =~= out);
    let u2 = PumpView { at, mode: Mode::Tail, ready: out, ..u };
    let b = going::<F, E>(u2, s1, w1);
    assert((PumpView { at, ..u1 }).settled() =~= u2);
    assert(going::<F, E>(PumpView { at, ..u1 }, s1, w1) == b);
    ready_frames_are_delivered(script, u2, s1, w1);
    let (s3, w3) = delivering(script, encoder, s1, w1, out);
    let u3 = PumpView { ready: Seq::empty(), ..u2 };
    let c = going::<F, E>(u3, s3, w3);
    leading_adds_up(script.turns(), a, b, c);
    assert(w3 =~= end);
    if encoder {
        let u4 = PumpView { mode: Mode::LastPackets, receiving: true, ..u3 };
        let w4 = World { coding: (script.kept)(w3.fed), ..w3 };
        let d = going::<F, E>(u4, s3, w4);
        assert(script.turn(c) == d);
        one_turn_leads(script.turns(), c);
        leading_adds_up(script.turns(), a, c, d);
        packets_are_written(script, u4, s3, w4);
        let q = going::<F, E>(
            PumpView { receiving: false, ..u4 },
            coded(s3, w4.coding),
            World { coding: 0, ..w4 },
        );
        leading_adds_up(script.turns(), a, d, q);
        assert(q.world =~= end);
        assert(q.stats == t.added(s));
        assert(q.command is Finished && q.pump.track == u.track);
    } else {
        assert(c.stats == t.added(s));
        assert(c.command is Finished && c.pump.track == u.track);
    }
}

/// What the end of the stream counts for.
pub open spec fn drain_tally<F, E>(
    script: Script<F, E>,
    decoder: bool,
    encoder: bool,
    w: World<F>,
) -> Tally {
    if decoder {
        decoding_tally(script, encoder, w, script.tail).plus(
            flush_tally(script, encoder, script.frames_through(encoder, w, script.tail)),
        )
    } else {
        flush_tally(script, encoder, w)
    }
}

/// The world after the end of the stream.
pub open spec fn drain_through<F, E>(
    script: Script<F, E>,
    decoder: bool,
    encoder: bool,
    w: World<F>,
) -> World<F> {
    if decoder {
        flush_through(script, encoder, script.frames_through(encoder, w, script.tail))
    } else {
        flush_through(script, encoder, w)
    }
}

/// On one thread, the end of the stream counts for just this, and everything that
/// decoder, stages and encoder still hold reaches the sink.
pub proof fn track_is_drained<F, E>(
    script: Script<F, E>,
    track: PumpTrackView,
    s: ExecutorStats,
    w: World<F>,
)
    requires
        !track.copy,
        track.stages.len() <= usize::MAX,
        w.given.len() == track.stages.len(),
        settled(w),
        drain_tally(script, track.has_decoder, track.has_encoder, w).fits(s),
    ensures
        finishes(
            script,
            going::<F, E>(PumpView::started(track, drain_mode(track), None), s, w),
            drain_tally(script, track.has_decoder, track.has_encoder, w).added(s),
            drain_through(script, track.has_decoder, track.has_encoder, w),
        ),
{
    let encoder = track.has_encoder;
    let u = PumpView::<F>::started(track, drain_mode(track), None);
    let a = going::<F, E>(u, s, w);
    let t = drain_tally(script, track.has_decoder, encoder, w);
    let end = drain_through(script, track.has_decoder, encoder, w);
    assert(w.pending =~= Seq::empty());
    if !track.has_decoder {
        track_is_flushed(script, u, s, w);
    } else {
        let u1 = PumpView { mode: Mode::ReceiveTail, ..u };
        let w1 = World { pending: script.tail, failing: script.tail_fails, ..w };
        let b = going::<F, E>(u1, s, w1);
        assert(a.command is FlushDecoder);
        assert(script.turn(a) == b);
        one_turn_leads(script.turns(), a);
        let t1 = decoding_tally(script, encoder, w1, script.tail);
        assert(t1 == decoding_tally(script, encoder, w, script.tail));
        decoder_is_emptied(script, u1, s, w1);
        let s2 = t1.added(s);
        let w2 = script.frames_through(
            encoder,
            World { pending: Seq::empty(), ..w1 },
            script.tail,
        );
        let u2 = PumpView { mode: mode_after(u1.mode, script.tail.len()), ..u1 };
        assert(u2 == u1);
        let at = choose|at: int| #[trigger] comes_to_at(script, b, u2, s2, w2, at);
        let c = going::<F, E>(PumpView { at, ..u1 }, s2, w2);
        leading_adds_up(script.turns(), a, b, c);
        let w3 = World { failing: false, ..w2 };
        let u3 = PumpView { at, mode: Mode::FlushStages { stage: 0 }, ..u1 };
        let d = going::<F, E>(u3, s2, w3);
        assert(c.command is ReceiveFrame);
        assert(script.turn(c).world =~= w3);
        assert(script.turn(c) == d);
        one_turn_leads(script.turns(), c);
        leading_adds_up(script.turns(), a, c, d);
        assert(w3 =~= script.frames_through(encoder, w, script.tail));
        frames_add_up(script, encoder, w, script.tail, Seq::empty());
        track_is_flushed(script, u3, s2, w3);
        let t3 = flush_tally(script, encoder, w3);
        assert(t3.added(s2) == t.added(s));
        let q = choose|q: PumpSystem<F, E>| #[trigger]
            leads_to(script.turns(), d, q) && q.command is Finished && q.stats == t3.added(s2)
                && q.world == flush_through(script, encoder, w3) && q.pump.track == d.pump.track;
        leading_adds_up(script.turns(), a, d, q);
        assert(q.world == end);
        assert(q.pump.track == track);
    }
}

} // verus!
