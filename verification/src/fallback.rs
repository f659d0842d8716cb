//! Falling back across providers: one mod is tried at the preferred provider
//! first and, where that is allowed, at the others in the order of the
//! enumeration, until one of them serves it.

use crate::cli::Source;
use crate::model::{ErrorKind, Problem, ResolutionRequest};
use vstd::prelude::*;

verus! {

/// What tells the other providers from `preferred`.
pub open spec fn differs_from(preferred: Source) -> spec_fn(Source) -> bool {
    |s: Source| s != preferred
}

/// The providers other than `preferred`, in the order of the enumeration.
pub open spec fn others(preferred: Source) -> Seq<Source> {
    Source::enumeration().filter(differs_from(preferred))
}

/// The providers that are tried, in the order in which they are tried.
pub open spec fn order(preferred: Source, fallback: bool) -> Seq<Source> {
    if fallback {
        seq![preferred] + others(preferred)
    } else {
        seq![preferred]
    }
}

/// The two providers that are left for each preferred one.
pub proof fn lemma_others(preferred: Source)
    ensures
        others(preferred) == match preferred {
            Source::Modrinth => seq![Source::Github, Source::CurseForge],
            Source::Github => seq![Source::Modrinth, Source::CurseForge],
            Source::CurseForge => seq![Source::Modrinth, Source::Github],
        },
        others(preferred).len() == 2,
        !others(preferred).contains(preferred),
{
    let keep = differs_from(preferred);
    let e = Source::enumeration();
    reveal_with_fuel(Seq::filter, 4);
    assert(e.drop_last() =~= seq![Source::Modrinth, Source::Github]);
    assert(e.drop_last().drop_last() =~= seq![Source::Modrinth]);
    assert(e.drop_last().drop_last().drop_last() =~= Seq::<Source>::empty());
    let expected = match preferred {
        Source::Modrinth => seq![Source::Github, Source::CurseForge],
        Source::Github => seq![Source::Modrinth, Source::CurseForge],
        Source::CurseForge => seq![Source::Modrinth, Source::Github],
    };
    assert(e.filter(keep) =~= expected);
    assert forall|i: int| 0 <= i < expected.len() implies expected[i] != preferred by {}
}

/// Why one provider could not serve a mod.
#[derive(Debug, Clone)]
pub struct Failure {
    pub source: Source,
    pub problem: Problem,
}

impl View for Failure {
    type V = (Source, (ErrorKind, Seq<char>));

    open spec fn view(&self) -> (Source, (ErrorKind, Seq<char>)) {
        (self.source, self.problem@)
    }
}

/// The views of the failures, in order.
pub open spec fn failure_views(failures: Seq<Failure>) -> Seq<(Source, (ErrorKind, Seq<char>))> {
    failures.map_values(|f: Failure| f@)
}

/// Where the orchestrator stands.
#[derive(Debug, Clone, PartialEq, Eq)]
pub enum FallbackState {
    /// The preferred provider is to be tried.
    TryPreferred,
    /// The first of the remaining providers is to be tried.
    TryNext { remaining: Vec<Source> },
    /// A provider served the mod.
    Success,
    /// Every provider that could be tried has failed.
    ExhaustedFailure,
}

/// Where the orchestrator stands, as a value of the model.
pub enum StateView {
    TryPreferred,
    TryNext { remaining: Seq<Source> },
    Success,
    ExhaustedFailure,
}

impl View for FallbackState {
    type V = StateView;

    open spec fn view(&self) -> StateView {
        match self {
            FallbackState::TryPreferred => StateView::TryPreferred,
            FallbackState::TryNext { remaining } => StateView::TryNext { remaining: remaining@ },
            FallbackState::Success => StateView::Success,
            FallbackState::ExhaustedFailure => StateView::ExhaustedFailure,
        }
    }
}

/// The orchestrator as a value of the model: the attempts made so far.
pub struct Progress {
    pub preferred: Source,
    pub fallback: bool,
    /// The providers that are tried, in the order in which they are tried.
    pub order: Seq<Source>,
    /// How many attempts were recorded.
    pub tried: nat,
    /// Whether the last attempt recorded was served.
    pub served: bool,
    /// The failures recorded, in the order of the attempts.
    pub failures: Seq<(Source, (ErrorKind, Seq<char>))>,
}

impl Progress {
    /// Nothing was tried yet.
    pub open spec fn start(preferred: Source, fallback: bool) -> Progress {
        Progress {
            preferred,
            fallback,
            order: order(preferred, fallback),
            tried: 0,
            served: false,
            failures: Seq::empty(),
        }
    }

    pub open spec fn order(self) -> Seq<Source> {
        self.order
    }

    pub open spec fn wf(self) -> bool {
        &&& self.order == order(self.preferred, self.fallback)
        &&& self.tried <= self.order().len()
        &&& self.served ==> self.tried >= 1
        &&& self.failures.len() == if self.served {
            self.tried - 1
        } else {
            self.tried as int
        }
        &&& forall|i: int| 0 <= i < self.failures.len() ==> (#[trigger] self.failures[i]).0 == self.order()[i]
    }

    pub open spec fn state(self) -> StateView {
        if self.served {
            StateView::Success
        } else if self.tried >= self.order().len() {
            StateView::ExhaustedFailure
        } else if self.tried == 0 {
            StateView::TryPreferred
        } else {
            StateView::TryNext { remaining: self.order().skip(self.tried as int) }
        }
    }

    /// Whether nothing is left to try.
    pub open spec fn done(self) -> bool {
        self.served || self.tried >= self.order().len()
    }

    /// The provider to try now.
    pub open spec fn attempt(self) -> Option<Source> {
        if self.done() {
            None
        } else {
            Some(self.order()[self.tried as int])
        }
    }

    /// The provider that served the mod.
    pub open spec fn served_by(self) -> Option<Source> {
        if self.served && 1 <= self.tried <= self.order().len() {
            Some(self.order()[self.tried - 1])
        } else {
            None
        }
    }

    /// The orchestrator after the outcome of the attempt it asked for: `None`
    /// says that the provider served the mod, `Some` why it did not. Once
    /// nothing is left to try, an outcome changes nothing.
    pub open spec fn step(self, outcome: Option<(ErrorKind, Seq<char>)>) -> Progress {
        if self.done() {
            self
        } else {
            match outcome {
                None => Progress { tried: self.tried + 1, served: true, ..self },
                Some(reason) => Progress {
                    tried: self.tried + 1,
                    failures: self.failures.push((self.order()[self.tried as int], reason)),
                    ..self
                },
            }
        }
    }
}

/// Every step keeps the record of the attempts in order.
pub proof fn lemma_step_wf(p: Progress, outcome: Option<(ErrorKind, Seq<char>)>)
    requires
        p.wf(),
    ensures
        p.step(outcome).wf(),
{
}

/// With fallback off, one failure of the preferred provider ends the work.
pub proof fn lemma_no_fallback(preferred: Source, reason: (ErrorKind, Seq<char>))
    ensures
        Progress::start(preferred, false).state() == StateView::TryPreferred,
        Progress::start(preferred, false).step(Some(reason)).state() == StateView::ExhaustedFailure,
        Progress::start(preferred, false).step(Some(reason)).failures == seq![(preferred, reason)],
        Progress::start(preferred, false).step(None).state() == StateView::Success,
{
}

/// With fallback on and a preferred provider that fails, the two others are
/// tried in the order of the enumeration: the first that serves the mod ends
/// the work with success, and only after both have failed is the work given
/// up, with the three reasons in the order of the attempts.
pub proof fn lemma_fallback_tries_the_others_in_order(
    preferred: Source,
    r0: (ErrorKind, Seq<char>),
    r1: (ErrorKind, Seq<char>),
    r2: (ErrorKind, Seq<char>),
)
    ensures
        ({
            let s0 = Progress::start(preferred, true);
            let s1 = s0.step(Some(r0));
            let s2 = s1.step(Some(r1));
            let s3 = s2.step(Some(r2));
            &&& others(preferred).len() == 2
            &&& s0.state() == StateView::TryPreferred
            &&& s0.attempt() == Some(preferred)
            &&& s1.state() == StateView::TryNext { remaining: others(preferred) }
            &&& s1.attempt() == Some(others(preferred)[0])
            &&& s1.step(None).state() == StateView::Success
            &&& s1.step(None).served_by() == Some(others(preferred)[0])
            &&& s2.state() == StateView::TryNext { remaining: others(preferred).skip(1) }
            &&& s2.attempt() == Some(others(preferred)[1])
            &&& s2.step(None).state() == StateView::Success
            &&& s2.step(None).served_by() == Some(others(preferred)[1])
            &&& s3.state() == StateView::ExhaustedFailure
            &&& s3.attempt() is None
            &&& s3.failures == seq![
                (preferred, r0),
                (others(preferred)[0], r1),
                (others(preferred)[1], r2),
            ]
        }),
{
    lemma_others(preferred);
    let s0 = Progress::start(preferred, true);
    let s1 = s0.step(Some(r0));
    let s2 = s1.step(Some(r1));
    let s3 = s2.step(Some(r2));
    let o = order(preferred, true);
    assert(o.len() == 3);
    assert(o.skip(1) =~= others(preferred));
    assert(o.skip(2) =~= others(preferred).skip(1));
    assert(s3.failures =~= seq![
        (preferred, r0),
        (others(preferred)[0], r1),
        (others(preferred)[1], r2),
    ]);
}

/// The orchestrator for one mod.
pub struct Fallback {
    pub preferred: Source,
    pub fallback_enabled: bool,
    /// The providers that are tried, in order.
    pub order: Vec<Source>,
    /// How many attempts were recorded.
    pub tried: usize,
    /// Whether the last attempt recorded was served.
    pub served: bool,
    /// The failures recorded, in the order of the attempts.
    pub failures: Vec<Failure>,
}

impl View for Fallback {
    type V = Progress;

    open spec fn view(&self) -> Progress {
        Progress {
            preferred: self.preferred,
            fallback: self.fallback_enabled,
            order: self.order@,
            tried: self.tried as nat,
            served: self.served,
            failures: failure_views(self.failures@),
        }
    }
}

impl Fallback {
    pub open spec fn wf(&self) -> bool {
        self@.wf()
    }

    /// An orchestrator that has tried nothing yet.
    pub fn new(preferred: Source, fallback_enabled: bool) -> (f: Fallback)
        ensures
            f.wf(),
            f@ == Progress::start(preferred, fallback_enabled),
    {
        let mut order: Vec<Source> = Vec::new();
        order.push(preferred);
        if fallback_enabled {
            let all = Source::all();
            let ghost keep = differs_from(preferred);
            let mut i: usize = 0;
            proof {
                assert(all@.take(0) =~= Seq::<Source>::empty());
                reveal(Seq::filter);
            }
            while i < all.len()
                invariant
                    i <= all.len(),
                    all@ == Source::enumeration(),
                    keep == differs_from(preferred),
                    order@ == seq![preferred] + all@.take(i as int).filter(keep),
                decreases all.len() - i,
            {
                proof {
                    reveal(Seq::filter);
                    assert(all@.take(i + 1).drop_last() =~= all@.take(i as int));
                }
                if all[i] != preferred {
                    order.push(all[i]);
                }
                i = i + 1;
            }
            proof {
                assert(all@.take(all.len() as int) =~= all@);
            }
        }
        assert(order@ =~= self::order(preferred, fallback_enabled));
        let f = Fallback {
            preferred,
            fallback_enabled,
            order,
            tried: 0,
            served: false,
            failures: Vec::new(),
        };
        assert(failure_views(f.failures@) =~= Seq::<(Source, (ErrorKind, Seq<char>))>::empty());
        f
    }

    /// An orchestrator for one mod of a request: it starts at the provider
    /// that the request prefers and falls back where the request allows it.
    pub fn for_request(request: &ResolutionRequest) -> (f: Fallback)
        ensures
            f.wf(),
            f@ == Progress::start(request.preferred, request.fallback_enabled),
    {
        Fallback::new(request.preferred, request.fallback_enabled)
    }

    /// The provider to try now; `None` once nothing is left to try.
    pub fn next_provider(&self) -> (r: Option<Source>)
        requires
            self.wf(),
        ensures
            r == self@.attempt(),
    {
        if self.served || self.tried >= self.order.len() {
            None
        } else {
            Some(self.order[self.tried])
        }
    }

    /// Whether nothing is left to try.
    pub fn is_done(&self) -> (r: bool)
        requires
            self.wf(),
        ensures
            r == self@.done(),
    {
        self.served || self.tried >= self.order.len()
    }

    /// The provider that served the mod.
    pub fn served_by(&self) -> (r: Option<Source>)
        requires
            self.wf(),
        ensures
            r == self@.served_by(),
    {
        if self.served && self.tried >= 1 {
            Some(self.order[self.tried - 1])
        } else {
            None
        }
    }

    /// Where the orchestrator stands.
    pub fn state(&self) -> (r: FallbackState)
        requires
            self.wf(),
        ensures
            r@ == self@.state(),
    {
        if self.served {
            FallbackState::Success
        } else if self.tried >= self.order.len() {
            FallbackState::ExhaustedFailure
        } else if self.tried == 0 {
            FallbackState::TryPreferred
        } else {
            let mut remaining: Vec<Source> = Vec::new();
            let mut i: usize = self.tried;
            while i < self.order.len()
                invariant
                    self.tried <= i <= self.order.len(),
                    remaining@ == self.order@.subrange(self.tried as int, i as int),
                decreases self.order.len() - i,
            {
                remaining.push(self.order[i]);
                i = i + 1;
                assert(self.order@.subrange(self.tried as int, i as int) =~= self.order@.subrange(
                    self.tried as int,
                    i - 1,
                ).push(self.order@[i - 1]));
            }
            assert(remaining@ =~= self.order@.skip(self.tried as int));
            FallbackState::TryNext { remaining }
        }
    }

    /// Takes in the outcome of the attempt that `next_provider` asked for:
    /// `None` says that the provider served the mod, `Some` why it did not.
    pub fn record(&mut self, outcome: Option<Problem>)
        requires
            old(self).wf(),
        ensures
            final(self).wf(),
            final(self)@ == old(self)@.step(
                match outcome {
                    None => None,
                    Some(problem) => Some(problem@),
                },
            ),
    {
        if self.served || self.tried >= self.order.len() {
            return ;
        }
        let ghost before = failure_views(self.failures@);
        match outcome {
            None => {
                self.served = true;
            },
            Some(problem) => {
                let failure = Failure { source: self.order[self.tried], problem };
                self.failures.push(failure);
                proof {
                    assert(failure_views(self.failures@) =~= before.push(failure@));
                }
            },
        }
        self.tried = self.tried + 1;
    }
}

} // verus!
