//! Which implementation of a codec is tried, and in which order.

use crate::error::JobError;
use crate::failure::Cause;
use crate::media::CodecParameters;
use vstd::prelude::*;

verus! {

/// What a codec implementation declares of itself.
pub struct CodecCapabilities {
    pub implementation: String,
    pub hardware_accelerated: bool,
    /// Lower is tried first.
    pub priority: i32,
    pub max_width: Option<u32>,
    pub max_height: Option<u32>,
    pub max_bitrate: Option<u64>,
    pub max_sample_rate: Option<u32>,
    pub max_channels: Option<u16>,
}

impl Clone for CodecCapabilities {
    fn clone(&self) -> (r: Self)
        ensures
            r == *self,
    {
        CodecCapabilities {
            implementation: self.implementation.clone(),
            hardware_accelerated: self.hardware_accelerated,
            priority: self.priority,
            max_width: self.max_width,
            max_height: self.max_height,
            max_bitrate: self.max_bitrate,
            max_sample_rate: self.max_sample_rate,
            max_channels: self.max_channels,
        }
    }
}

/// One registered implementation of a codec.
pub struct CodecImplementation {
    pub caps: CodecCapabilities,
    pub has_decoder: bool,
    pub has_encoder: bool,
}

/// A value stays within a limit where both are given.
pub open spec fn within(limit: Option<int>, value: Option<int>) -> bool {
    match (limit, value) {
        (Some(max), Some(v)) => v <= max,
        _ => true,
    }
}

pub open spec fn opt32(x: Option<u32>) -> Option<int> {
    match x {
        Some(v) => Some(v as int),
        None => None,
    }
}

pub open spec fn opt16(x: Option<u16>) -> Option<int> {
    match x {
        Some(v) => Some(v as int),
        None => None,
    }
}

pub open spec fn opt64(x: Option<u64>) -> Option<int> {
    match x {
        Some(v) => Some(v as int),
        None => None,
    }
}

impl CodecCapabilities {
    /// Every limit that is declared admits what the parameters state.
    pub open spec fn fits(self, params: CodecParameters) -> bool {
        &&& within(opt32(self.max_width), opt32(params.width))
        &&& within(opt32(self.max_height), opt32(params.height))
        &&& within(opt64(self.max_bitrate), opt64(params.bit_rate))
        &&& within(opt32(self.max_sample_rate), opt32(params.sample_rate))
        &&& within(opt16(self.max_channels), opt16(params.channels))
    }
}

/// `oxideav_core::CodecCapabilities::fits_params`: no stated width, height, bit
/// rate, sample rate or channel count exceeds a declared limit. The direction
/// changes nothing.
#[verifier::external_body]
fn core_fits_params(caps: &CodecCapabilities, params: &CodecParameters, for_encode: bool) -> (r: bool)
    ensures
        r == caps.fits(*params),
{
    let mut c = oxideav_core::CodecCapabilities::audio("");
    c.max_width = caps.max_width;
    c.max_height = caps.max_height;
    c.max_bitrate = caps.max_bitrate;
    c.max_sample_rate = caps.max_sample_rate;
    c.max_channels = caps.max_channels;
    let mut p = oxideav_core::CodecParameters::audio(oxideav_core::CodecId::new(""));
    p.width = params.width;
    p.height = params.height;
    p.bit_rate = params.bit_rate;
    p.sample_rate = params.sample_rate;
    p.channels = params.channels;
    c.fits_params(&p, for_encode)
}

/// A name occurs in a list of names.
pub open spec fn listed(names: Seq<String>, name: Seq<char>) -> bool {
    exists|i: int| 0 <= i < names.len() && #[trigger] names[i]@ == name
}

fn is_listed(names: &Vec<String>, name: &String) -> (r: bool)
    ensures
        r == listed(names@, name@),
{
    let mut i: usize = 0;
    while i < names.len()
        invariant
            i <= names.len(),
            forall|j: int| 0 <= j < i ==> #[trigger] names[j]@ != name@,
        decreases names.len() - i,
    {
        if names[i] == *name {
            assert(names@[i as int]@ == name@);
            return true;
        }
        i += 1;
    }
    false
}

/// What a caller wants of codec selection.
pub struct CodecPreferences {
    /// Implementations whose priority is improved by `boost`.
    pub prefer: Vec<String>,
    /// Implementations that are never tried.
    pub exclude: Vec<String>,
    /// Only software implementations are tried.
    pub no_hardware: bool,
    /// Only hardware implementations are tried. With `no_hardware` as well,
    /// nothing is.
    pub require_hardware: bool,
    pub boost: i32,
}

impl Default for CodecPreferences {
    fn default() -> (r: Self)
        ensures
            r.is_default(),
    {
        CodecPreferences {
            prefer: Vec::new(),
            exclude: Vec::new(),
            no_hardware: false,
            require_hardware: false,
            boost: 0,
        }
    }
}

impl CodecPreferences {
    /// Nothing preferred, nothing excluded, hardware as it comes.
    pub open spec fn is_default(self) -> bool {
        &&& self.prefer@.len() == 0
        &&& self.exclude@.len() == 0
        &&& !self.no_hardware
        &&& !self.require_hardware
        &&& self.boost == 0
    }

    pub open spec fn excludes_spec(self, caps: CodecCapabilities) -> bool {
        ||| listed(self.exclude@, caps.implementation@)
        ||| self.no_hardware && caps.hardware_accelerated
        ||| self.require_hardware && !caps.hardware_accelerated
    }

    /// Whether the implementation must not be tried.
    pub fn excludes(&self, caps: &CodecCapabilities) -> (r: bool)
        ensures
            r == self.excludes_spec(*caps),
    {
        is_listed(&self.exclude, &caps.implementation) || (self.no_hardware
            && caps.hardware_accelerated) || (self.require_hardware && !caps.hardware_accelerated)
    }

    /// The priority an implementation is tried at: its own, improved by a
    /// positive boost where it is a preferred one.
    pub open spec fn priority_spec(self, caps: CodecCapabilities) -> int {
        if listed(self.prefer@, caps.implementation@) && self.boost > 0 {
            caps.priority - self.boost
        } else {
            caps.priority as int
        }
    }

    /// The priority an implementation is tried at.
    pub fn effective_priority(&self, caps: &CodecCapabilities) -> (r: i32)
        requires
            self.priority_spec(*caps) >= i32::MIN,
        ensures
            r == self.priority_spec(*caps),
    {
        if is_listed(&self.prefer, &caps.implementation) && self.boost > 0 {
            caps.priority - self.boost
        } else {
            caps.priority
        }
    }

    /// Whether an implementation may be tried for these parameters.
    pub open spec fn selectable(
        self,
        imp: CodecImplementation,
        params: CodecParameters,
        for_encode: bool,
    ) -> bool {
        &&& if for_encode {
            imp.has_encoder
        } else {
            imp.has_decoder
        }
        &&& !self.excludes_spec(imp.caps)
        &&& imp.caps.fits(params)
    }

    /// Candidate `a` is tried before candidate `b`: by priority, equal ones in
    /// the order they were registered.
    pub open spec fn before(self, candidates: Seq<CodecImplementation>, a: int, b: int) -> bool {
        let (p, q) = (
            self.priority_spec(candidates[a].caps),
            self.priority_spec(candidates[b].caps),
        );
        p < q || (p == q && a < b)
    }

    /// `order` lists exactly the candidates that may be tried, each once, in the
    /// order they are tried in.
    pub open spec fn is_ranking(
        self,
        candidates: Seq<CodecImplementation>,
        params: CodecParameters,
        for_encode: bool,
        order: Seq<usize>,
    ) -> bool {
        &&& forall|k: int|
            0 <= k < order.len() ==> (#[trigger] order[k]) < candidates.len() && self.selectable(
                candidates[order[k] as int],
                params,
                for_encode,
            )
        &&& forall|i: int|
            0 <= i < candidates.len() && self.selectable(
                #[trigger] candidates[i],
                params,
                for_encode,
            ) ==> order.contains(i as usize)
        &&& forall|j: int, k: int|
            0 <= j < k < order.len() ==> #[trigger] self.before(
                candidates,
                order[j] as int,
                order[k] as int,
            )
    }

    /// No boosted priority of a candidate that may be tried leaves the range.
    pub open spec fn in_range(
        self,
        candidates: Seq<CodecImplementation>,
        params: CodecParameters,
        for_encode: bool,
    ) -> bool {
        forall|i: int|
            0 <= i < candidates.len() && self.selectable(
                #[trigger] candidates[i],
                params,
                for_encode,
            ) ==> self.priority_spec(candidates[i].caps) >= i32::MIN
    }

    /// The candidates that may be tried, in the order they are tried in.
    pub fn rank(
        &self,
        candidates: &Vec<CodecImplementation>,
        params: &CodecParameters,
        for_encode: bool,
    ) -> (r: Vec<usize>)
        requires
            self.in_range(candidates@, *params, for_encode),
        ensures
            self.is_ranking(candidates@, *params, for_encode, r@),
    {
        let mut order: Vec<usize> = Vec::new();
        let mut i: usize = 0;
        while i < candidates.len()
            invariant
                i <= candidates.len(),
                self.in_range(candidates@, *params, for_encode),
                forall|k: int|
                    0 <= k < order.len() ==> (#[trigger] order[k]) < i && self.selectable(
                        candidates@[order[k] as int],
                        *params,
                        for_encode,
                    ),
                forall|j: int|
                    0 <= j < i && self.selectable(#[trigger] candidates@[j], *params, for_encode)
                        ==> order@.contains(j as usize),
                forall|j: int, k: int|
                    0 <= j < k < order.len() ==> #[trigger] self.before(
                        candidates@,
                        order[j] as int,
                        order[k] as int,
                    ),
            decreases candidates.len() - i,
        {
            let imp = &candidates[i];
            let able = if for_encode {
                imp.has_encoder
            } else {
                imp.has_decoder
            };
            if able && !self.excludes(&imp.caps) && core_fits_params(&imp.caps, params, for_encode) {
                let p: i32 = self.effective_priority(&imp.caps);
                let mut at: usize = order.len();
                let ghost prev = order@;
                while at > 0 && self.effective_priority(&candidates[order[at - 1]].caps) > p
                    invariant
                        at <= order.len(),
                        order@ == prev,
                        i < candidates.len(),
                        self.in_range(candidates@, *params, for_encode),
                        p == self.priority_spec(candidates@[i as int].caps),
                        forall|k: int|
                            0 <= k < order.len() ==> (#[trigger] order[k]) < i && self.selectable(
                                candidates@[order[k] as int],
                                *params,
                                for_encode,
                            ),
                        forall|k: int|
                            at <= k < order.len() ==> self.priority_spec(
                                candidates@[(#[trigger] order[k]) as int].caps,
                            ) > p,
                    decreases at,
                {
                    at -= 1;
                }
                order.insert(at, i);
                proof {
                    let now = order@;
                    assert(now == prev.insert(at as int, i));
                    assert forall|j: int|
                        0 <= j < i + 1 && self.selectable(
                            #[trigger] candidates@[j],
                            *params,
                            for_encode,
                        ) implies now.contains(j as usize) by {
                        if j < i {
                            let w = choose|w: int| 0 <= w < prev.len() && prev[w] == j as usize;
                            if w < at {
                                assert(now[w] == j as usize);
                            } else {
                                assert(now[w + 1] == j as usize);
                            }
                        } else {
                            assert(now[at as int] == j as usize);
                        }
                    }
                    assert forall|j: int, k: int| 0 <= j < k < now.len() implies #[trigger] self.before(
                        candidates@,
                        now[j] as int,
                        now[k] as int,
                    ) by {
                        let old_j = if j < at {
                            j
                        } else {
                            j - 1
                        };
                        let old_k = if k < at {
                            k
                        } else {
                            k - 1
                        };
                        if j != at && k != at {
                            assert(self.before(
                                candidates@,
                                prev[old_j] as int,
                                prev[old_k] as int,
                            ));
                        } else if k == at {
                            assert(prev[j] < i);
                            if at > 0 && j < at - 1 {
                                assert(self.before(
                                    candidates@,
                                    prev[j] as int,
                                    prev[at - 1] as int,
                                ));
                            }
                        } else {
                            assert(prev[old_k] == now[k]);
                        }
                    }
                }
            }
            i += 1;
        }
        order
    }
}

/// The walk over the ranked implementations of a codec: one factory after the
/// other, until one succeeds.
pub struct CodecWalk<E> {
    pub codec_id: String,
    pub for_encode: bool,
    pub order: Vec<usize>,
    pub refusals: usize,
    pub last: Option<E>,
}

impl<E> CodecWalk<E> {
    pub open spec fn wf(self) -> bool {
        &&& self.refusals <= self.order@.len()
        &&& self.last is Some <==> self.refusals > 0
    }

    /// The candidate to try now; `None` once every one has refused.
    pub open spec fn candidate_spec(self) -> Option<usize> {
        if self.refusals < self.order@.len() {
            Some(self.order@[self.refusals as int])
        } else {
            None
        }
    }

    /// The candidate to try now.
    pub fn candidate(&self) -> (r: Option<usize>)
        ensures
            r == self.candidate_spec(),
    {
        if self.refusals < self.order.len() {
            Some(self.order[self.refusals])
        } else {
            None
        }
    }

    /// The candidate that was tried has failed.
    pub fn refused(&mut self, error: E)
        requires
            old(self).wf(),
            old(self).candidate_spec() is Some,
        ensures
            final(self).wf(),
            *final(self) == (CodecWalk {
                refusals: (old(self).refusals + 1) as usize,
                last: Some(error),
                ..*old(self)
            }),
    {
        let n: usize = self.order.len();
        assert(self.refusals < n);
        self.refusals = self.refusals + 1;
        self.last = Some(error);
    }

    /// What the implementation that is being tried declares of itself: the
    /// record of the one that succeeds, after preferences and refusals.
    pub fn selected(&self, candidates: &Vec<CodecImplementation>) -> (r: Option<CodecCapabilities>)
        ensures
            r == match self.candidate_spec() {
                Some(i) => if i < candidates@.len() {
                    Some(candidates@[i as int].caps)
                } else {
                    None
                },
                None => None,
            },
    {
        match self.candidate() {
            Some(i) => if i < candidates.len() {
                Some(candidates[i].caps.clone())
            } else {
                None
            },
            None => None,
        }
    }

    /// The error of a walk that found nothing: the last refusal, or that no
    /// candidate could be tried at all.
    pub fn give_up(self) -> (r: Cause<E>)
        ensures
            r == match self.last {
                Some(e) => Cause::Raised(e),
                None => Cause::Own(
                    if self.for_encode {
                        JobError::NoFittingEncoder { codec_id: self.codec_id }
                    } else {
                        JobError::NoFittingDecoder { codec_id: self.codec_id }
                    },
                ),
            },
    {
        match self.last {
            Some(e) => Cause::Raised(e),
            None => if self.for_encode {
                Cause::Own(JobError::NoFittingEncoder { codec_id: self.codec_id })
            } else {
                Cause::Own(JobError::NoFittingDecoder { codec_id: self.codec_id })
            },
        }
    }

    /// The walk after the first `errors.len()` candidates have refused.
    pub open spec fn after(self, errors: Seq<E>) -> CodecWalk<E>
        decreases errors.len(),
    {
        if errors.len() == 0 {
            self
        } else {
            let w = self.after(errors.drop_last());
            CodecWalk { refusals: (w.refusals + 1) as usize, last: Some(errors.last()), ..w }
        }
    }
}

/// A walk at its first candidate.
pub open spec fn walk_starts<E>(
    walk: CodecWalk<E>,
    candidates: Seq<CodecImplementation>,
    params: CodecParameters,
    prefs: CodecPreferences,
    for_encode: bool,
) -> bool {
    &&& walk.wf()
    &&& walk.codec_id == params.codec_id
    &&& walk.for_encode == for_encode
    &&& walk.refusals == 0
    &&& walk.last is None
    &&& prefs.is_ranking(candidates, params, for_encode, walk.order@)
}

fn start_walk<E>(
    candidates: &Vec<CodecImplementation>,
    params: &CodecParameters,
    prefs: &CodecPreferences,
    for_encode: bool,
) -> (r: Result<CodecWalk<E>, JobError>)
    requires
        prefs.in_range(candidates@, *params, for_encode),
    ensures
        candidates@.len() == 0 ==> r == Err::<CodecWalk<E>, JobError>(
            JobError::NoImplementation { codec_id: params.codec_id },
        ),
        candidates@.len() > 0 ==> (r matches Ok(w) && walk_starts(
            w,
            candidates@,
            *params,
            *prefs,
            for_encode,
        )),
{
    if candidates.len() == 0 {
        return Err(JobError::NoImplementation { codec_id: params.codec_id.clone() });
    }
    Ok(
        CodecWalk {
            codec_id: params.codec_id.clone(),
            for_encode,
            order: prefs.rank(candidates, params, for_encode),
            refusals: 0,
            last: None,
        },
    )
}

/// Starts the walk over the decoders registered for a codec.
pub fn make_decoder_with_selection<E>(
    candidates: &Vec<CodecImplementation>,
    params: &CodecParameters,
    prefs: &CodecPreferences,
) -> (r: Result<CodecWalk<E>, JobError>)
    requires
        prefs.in_range(candidates@, *params, false),
    ensures
        candidates@.len() == 0 ==> r == Err::<CodecWalk<E>, JobError>(
            JobError::NoImplementation { codec_id: params.codec_id },
        ),
        candidates@.len() > 0 ==> (r matches Ok(w) && walk_starts(
            w,
            candidates@,
            *params,
            *prefs,
            false,
        )),
{
    start_walk(candidates, params, prefs, false)
}

/// Starts the walk over the encoders registered for a codec.
pub fn make_encoder_with_selection<E>(
    candidates: &Vec<CodecImplementation>,
    params: &CodecParameters,
    prefs: &CodecPreferences,
) -> (r: Result<CodecWalk<E>, JobError>)
    requires
        prefs.in_range(candidates@, *params, true),
    ensures
        candidates@.len() == 0 ==> r == Err::<CodecWalk<E>, JobError>(
            JobError::NoImplementation { codec_id: params.codec_id },
        ),
        candidates@.len() > 0 ==> (r matches Ok(w) && walk_starts(
            w,
            candidates@,
            *params,
            *prefs,
            true,
        )),
{
    start_walk(candidates, params, prefs, true)
}

/// Starts the walk over the decoders registered for a codec; the record of the
/// implementation that succeeds is not asked for.
pub fn make_decoder_with<E>(
    candidates: &Vec<CodecImplementation>,
    params: &CodecParameters,
    prefs: &CodecPreferences,
) -> (r: Result<CodecWalk<E>, JobError>)
    requires
        prefs.in_range(candidates@, *params, false),
    ensures
        candidates@.len() == 0 ==> r == Err::<CodecWalk<E>, JobError>(
            JobError::NoImplementation { codec_id: params.codec_id },
        ),
        candidates@.len() > 0 ==> (r matches Ok(w) && walk_starts(
            w,
            candidates@,
            *params,
            *prefs,
            false,
        )),
{
    make_decoder_with_selection(candidates, params, prefs)
}

/// As [`make_decoder_with`], without preferences.
pub fn make_decoder<E>(candidates: &Vec<CodecImplementation>, params: &CodecParameters) -> (r: Result<
    CodecWalk<E>,
    JobError,
>)
    ensures
        candidates@.len() == 0 ==> r == Err::<CodecWalk<E>, JobError>(
            JobError::NoImplementation { codec_id: params.codec_id },
        ),
        candidates@.len() > 0 ==> (r matches Ok(w) && exists|prefs: CodecPreferences|
            prefs.is_default() && #[trigger] walk_starts(w, candidates@, *params, prefs, false)),
{
    let prefs = CodecPreferences::default();
    make_decoder_with(candidates, params, &prefs)
}

/// Starts the walk over the encoders registered for a codec; the record of the
/// implementation that succeeds is not asked for.
pub fn make_encoder_with<E>(
    candidates: &Vec<CodecImplementation>,
    params: &CodecParameters,
    prefs: &CodecPreferences,
) -> (r: Result<CodecWalk<E>, JobError>)
    requires
        prefs.in_range(candidates@, *params, true),
    ensures
        candidates@.len() == 0 ==> r == Err::<CodecWalk<E>, JobError>(
            JobError::NoImplementation { codec_id: params.codec_id },
        ),
        candidates@.len() > 0 ==> (r matches Ok(w) && walk_starts(
            w,
            candidates@,
            *params,
            *prefs,
            true,
        )),
{
    make_encoder_with_selection(candidates, params, prefs)
}

/// As [`make_encoder_with`], without preferences.
pub fn make_encoder<E>(candidates: &Vec<CodecImplementation>, params: &CodecParameters) -> (r: Result<
    CodecWalk<E>,
    JobError,
>)
    ensures
        candidates@.len() == 0 ==> r == Err::<CodecWalk<E>, JobError>(
            JobError::NoImplementation { codec_id: params.codec_id },
        ),
        candidates@.len() > 0 ==> (r matches Ok(w) && exists|prefs: CodecPreferences|
            prefs.is_default() && #[trigger] walk_starts(w, candidates@, *params, prefs, true)),
{
    let prefs = CodecPreferences::default();
    make_encoder_with(candidates, params, &prefs)
}

/// With both hardware switches on, every implementation is excluded, so no
/// candidate is ever tried.
pub proof fn both_hardware_switches_exclude_everything(
    prefs: CodecPreferences,
    candidates: Seq<CodecImplementation>,
    params: CodecParameters,
    for_encode: bool,
    order: Seq<usize>,
)
    requires
        prefs.no_hardware,
        prefs.require_hardware,
        prefs.is_ranking(candidates, params, for_encode, order),
    ensures
        forall|i: int|
            0 <= i < candidates.len() ==> prefs.excludes_spec((#[trigger] candidates[i]).caps),
        order.len() == 0,
{
    if order.len() > 0 {
        assert(prefs.selectable(candidates[order[0] as int], params, for_encode));
    }
}

/// A ranking is unique: candidates, parameters and preferences determine it.
pub proof fn ranking_is_unique(
    prefs: CodecPreferences,
    candidates: Seq<CodecImplementation>,
    params: CodecParameters,
    for_encode: bool,
    a: Seq<usize>,
    b: Seq<usize>,
)
    requires
        candidates.len() <= usize::MAX,
        prefs.is_ranking(candidates, params, for_encode, a),
        prefs.is_ranking(candidates, params, for_encode, b),
    ensures
        a == b,
    decreases a.len(),
{
    ranking_prefix(prefs, candidates, params, for_encode, a, b, a.len() as int);
    ranking_prefix(prefs, candidates, params, for_encode, b, a, b.len() as int);
    assert(a =~= b);
}

proof fn ranking_prefix(
    prefs: CodecPreferences,
    candidates: Seq<CodecImplementation>,
    params: CodecParameters,
    for_encode: bool,
    a: Seq<usize>,
    b: Seq<usize>,
    n: int,
)
    requires
        candidates.len() <= usize::MAX,
        prefs.is_ranking(candidates, params, for_encode, a),
        prefs.is_ranking(candidates, params, for_encode, b),
        0 <= n <= a.len(),
    ensures
        n <= b.len(),
        forall|k: int| 0 <= k < n ==> a[k] == b[k],
    decreases n,
{
    if n > 0 {
        ranking_prefix(prefs, candidates, params, for_encode, a, b, n - 1);
        let k = n - 1;
        let x = a[k];
        assert(prefs.selectable(candidates[x as int], params, for_encode));
        assert(b.contains((x as int) as usize));
        let m = choose|m: int| 0 <= m < b.len() && b[m] == x;
        if m < k {
            assert(prefs.before(candidates, a[m] as int, a[k] as int));
            assert(a[m] == x);
        } else if m > k {
            let y = b[k];
            assert(prefs.before(candidates, b[k] as int, b[m] as int));
            assert(prefs.selectable(candidates[y as int], params, for_encode));
            assert(a.contains((y as int) as usize));
            let l = choose|l: int| 0 <= l < a.len() && a[l] == y;
            if l < k {
                assert(b[l] == y);
                assert(prefs.before(candidates, b[l] as int, b[k] as int));
            } else if l > k {
                assert(prefs.before(candidates, a[k] as int, a[l] as int));
            }
        }
    }
}

/// After any run of refusals the walk stands at the next ranked candidate, and
/// the error it would give up with is the latest one.
pub proof fn walk_tries_in_order<E>(walk: CodecWalk<E>, errors: Seq<E>)
    requires
        walk.wf(),
        walk.refusals == 0,
        errors.len() <= walk.order@.len() <= usize::MAX,
    ensures
        walk.after(errors).wf(),
        walk.after(errors).order == walk.order,
        walk.after(errors).refusals == errors.len(),
        walk.after(errors).codec_id == walk.codec_id,
        walk.after(errors).for_encode == walk.for_encode,
        errors.len() == 0 ==> walk.after(errors).last is None,
        errors.len() > 0 ==> walk.after(errors).last == Some(errors.last()),
        errors.len() < walk.order@.len() ==> walk.after(errors).candidate_spec() == Some(
            walk.order@[errors.len() as int],
        ),
        errors.len() == walk.order@.len() ==> walk.after(errors).candidate_spec() is None,
    decreases errors.len(),
{
    if errors.len() > 0 {
        walk_tries_in_order(walk, errors.drop_last());
    }
}

/// An implementation is tried exactly where it can do what is asked, its name is not
/// excluded, no switch of the hardware speaks against it, and none of the limits that it
/// declares is exceeded by what is asked for.
pub proof fn only_what_may_be_tried_is_tried(
    prefs: CodecPreferences,
    candidates: Seq<CodecImplementation>,
    params: CodecParameters,
    for_encode: bool,
    order: Seq<usize>,
    i: int,
)
    requires
        prefs.is_ranking(candidates, params, for_encode, order),
        0 <= i < candidates.len() <= usize::MAX,
    ensures
        ({
            let imp = candidates[i];
            let c = imp.caps;
            order.contains(i as usize) <==> {
                &&& for_encode ==> imp.has_encoder
                &&& !for_encode ==> imp.has_decoder
                &&& forall|k: int|
                    0 <= k < prefs.exclude@.len() ==> #[trigger] prefs.exclude@[k]@
                        != c.implementation@
                &&& prefs.no_hardware ==> !c.hardware_accelerated
                &&& prefs.require_hardware ==> c.hardware_accelerated
                &&& c.max_width is Some && params.width is Some ==> params.width->0
                    <= c.max_width->0
                &&& c.max_height is Some && params.height is Some ==> params.height->0
                    <= c.max_height->0
                &&& c.max_bitrate is Some && params.bit_rate is Some ==> params.bit_rate->0
                    <= c.max_bitrate->0
                &&& c.max_sample_rate is Some && params.sample_rate is Some
                    ==> params.sample_rate->0 <= c.max_sample_rate->0
                &&& c.max_channels is Some && params.channels is Some ==> params.channels->0
                    <= c.max_channels->0
            }
        }),
{
    if order.contains(i as usize) {
        let k = choose|k: int| 0 <= k < order.len() && order[k] == i as usize;
        assert(prefs.selectable(candidates[order[k] as int], params, for_encode));
    }
    let c = candidates[i].caps;
    assert(listed(prefs.exclude@, c.implementation@) <==> exists|k: int|
        0 <= k < prefs.exclude@.len() && #[trigger] prefs.exclude@[k]@ == c.implementation@);
}

/// Whether an implementation is one of the preferred.
pub open spec fn is_preferred(prefs: CodecPreferences, name: Seq<char>) -> bool {
    exists|i: int| 0 <= i < prefs.prefer@.len() && #[trigger] prefs.prefer@[i]@ == name
}

/// Of two implementations that are tried, the one with the lower priority comes first;
/// with equal priorities, the one that was registered first; and a preferred one is taken
/// for one whose priority is lower by the boost, where that is positive.
pub proof fn lower_priority_is_tried_first(
    prefs: CodecPreferences,
    candidates: Seq<CodecImplementation>,
    params: CodecParameters,
    for_encode: bool,
    order: Seq<usize>,
    j: int,
    k: int,
)
    requires
        prefs.is_ranking(candidates, params, for_encode, order),
        0 <= j < k < order.len(),
    ensures
        ({
            let a = candidates[order[j] as int].caps;
            let b = candidates[order[k] as int].caps;
            let boost: int = if prefs.boost > 0 {
                prefs.boost as int
            } else {
                0
            };
            let x = a.priority - (if is_preferred(prefs, a.implementation@) {
                boost
            } else {
                0
            });
            let y = b.priority - (if is_preferred(prefs, b.implementation@) {
                boost
            } else {
                0
            });
            x <= y && (x == y ==> order[j] < order[k])
        }),
{
    assert(prefs.before(candidates, order[j] as int, order[k] as int));
}

} // verus!
