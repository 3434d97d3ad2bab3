//! The per-feed submission pipeline.
//!
//! A `FeedRun` is planned once from the feed, its base URL and the ledger:
//! items are walked in reverse document order — the oldest first — and each
//! resolves either into a submission candidate or into a skip of an
//! already-recorded URL; a failing item ends the plan with the error that
//! aborts the feed. The run is then driven step by step: each method returns
//! the one external action the caller must perform next (report skips, ask
//! the operator, call the submission client, append a ledger line), and the
//! caller hands the outcome back. Confirmed and declined candidates are both
//! recorded, so neither is ever offered again; a submission failure aborts
//! the run with the candidate unrecorded, so it is retried on the next run.

use vstd::prelude::*;

use crate::errors::PipelineError;
use crate::instapaper::Link;
use crate::instapaper::LinkView;
use crate::instapaper::spec_fix_url_schema;
use crate::instapaper::spec_link_of_item;
use crate::ledger::Links;
use crate::ledger::seq_of_strings;
use crate::ledger::spec_add;
use crate::syndication::Feed;
use crate::syndication::FeedView;
use crate::syndication::Item;
use crate::syndication::ItemView;
use crate::syndication::views_of;
use crate::urls::UrlClass;
use crate::urls::classify_url;
use crate::urls::url_parse_class;

verus! {

/// One submission candidate of a feed run: the resolved link, preceded by
/// the count of already-recorded items skipped just before it.
#[derive(Debug)]
pub struct Candidate {
    pub skips_before: usize,
    pub link: Link,
}

/// The mathematical value of a `Candidate`.
pub ghost struct CandidateView {
    pub skips_before: nat,
    pub link: LinkView,
}

impl View for Candidate {
    type V = CandidateView;

    open spec fn view(&self) -> CandidateView {
        CandidateView { skips_before: self.skips_before as nat, link: self.link@ }
    }
}

/// What a feed run will do: its candidates in processing order, and how it
/// ends — the count of trailing skips, or the error that aborts the feed.
pub ghost struct PlanView {
    pub cands: Seq<CandidateView>,
    pub end: Result<nat, PipelineError>,
}

/// The base URL string of a feed: its own declared link, else the URL the
/// document was fetched from.
pub open spec fn spec_feed_base(feed: FeedView, fetch_url: Seq<char>) -> Seq<char> {
    match feed.link {
        Some(l) => l,
        None => fetch_url,
    }
}

/// The link an item resolves to against the base: validation, then URL
/// resolution.
pub open spec fn spec_resolve_item(it: ItemView, base: Seq<char>) -> Result<
    LinkView,
    PipelineError,
> {
    match spec_link_of_item(it) {
        Err(e) => Err(e),
        Ok(l) => match spec_fix_url_schema(l, base) {
            Ok(resolved) => Ok(resolved),
            Err(e) => Err(PipelineError::Url(e)),
        },
    }
}

/// The link an item resolves to, where it resolves at all.
pub open spec fn spec_resolved_link(it: ItemView, base: Seq<char>) -> LinkView {
    match spec_resolve_item(it, base) {
        Ok(l) => l,
        Err(_) => arbitrary(),
    }
}

/// The plan over the items still to process, walked from the last — the
/// oldest — backwards. `seen` holds the URLs already recorded or already
/// planned; `skips` is the pending skip count.
pub open spec fn spec_plan(
    items: Seq<ItemView>,
    base: Seq<char>,
    seen: Seq<Seq<char>>,
    skips: nat,
) -> PlanView
    decreases items.len(),
{
    if items.len() == 0 {
        PlanView { cands: Seq::empty(), end: Ok(skips) }
    } else {
        match spec_resolve_item(items.last(), base) {
            Err(e) => PlanView { cands: Seq::empty(), end: Err(e) },
            Ok(l) => if seen.contains(l.url) {
                spec_plan(items.drop_last(), base, seen, skips + 1)
            } else {
                let rest = spec_plan(items.drop_last(), base, seen.push(l.url), 0);
                PlanView {
                    cands: seq![CandidateView { skips_before: skips, link: l }] + rest.cands,
                    end: rest.end,
                }
            },
        }
    }
}

/// The plan of a whole feed run against the recorded URLs.
pub open spec fn spec_feed_plan(
    feed: FeedView,
    fetch_url: Seq<char>,
    recorded: Seq<Seq<char>>,
) -> PlanView {
    let base = spec_feed_base(feed, fetch_url);
    if url_parse_class(base) == UrlClass::Absolute {
        spec_plan(feed.items, base, recorded, 0)
    } else {
        PlanView { cands: Seq::empty(), end: Err(PipelineError::InvalidBaseUrl) }
    }
}

/// Where a feed run stands between two of the caller's calls.
#[derive(Clone, Copy, Debug, PartialEq, Eq, Structural)]
pub enum Phase {
    /// The next candidate, or the end of the run, is up next.
    Ready,
    /// The skip report before the current candidate has been emitted.
    Reported,
    /// The current candidate awaits the operator's answer.
    Asking,
    /// The current candidate has been handed to the submission client.
    Submitting,
    /// The trailing skip report has been emitted.
    Closing,
    /// The run ended normally.
    Finished,
    /// The run was aborted by an error.
    Aborted,
}

/// What the caller must do next to drive a feed run.
#[derive(Debug)]
pub enum Action {
    /// Report the batched count of just-skipped, already-recorded items,
    /// then call `proceed`.
    Report(usize),
    /// Ask the operator whether to add this link, then call `answer`.
    Ask(Link),
    /// Hand this link to the submission client, then call `submitted`.
    Submit(Link),
    /// The URL was recorded in the ledger; append its line to the log file
    /// when `append` is set. Then call `proceed`.
    Record { url: String, append: bool },
    /// The run is over.
    Done,
    /// The run is aborted by this error; nothing further is recorded.
    Abort(PipelineError),
}

/// The mathematical value of an `Action`.
pub ghost enum ActionView {
    Report(nat),
    Ask(LinkView),
    Submit(LinkView),
    Record { url: Seq<char>, append: bool },
    Done,
    Abort(PipelineError),
}

impl View for Action {
    type V = ActionView;

    open spec fn view(&self) -> ActionView {
        match self {
            Action::Report(n) => ActionView::Report(*n as nat),
            Action::Ask(l) => ActionView::Ask(l@),
            Action::Submit(l) => ActionView::Submit(l@),
            Action::Record { url, append } => ActionView::Record { url: url@, append: *append },
            Action::Done => ActionView::Done,
            Action::Abort(e) => ActionView::Abort(*e),
        }
    }
}

/// The mathematical value of a `FeedRun`.
pub ghost struct FeedRunView {
    pub plan: PlanView,
    pub pos: int,
    pub phase: Phase,
    pub auto_add: bool,
}

/// One feed's run: the precomputed plan and the position the caller has
/// driven it to.
#[derive(Debug)]
pub struct FeedRun {
    cands: Vec<Candidate>,
    end_skips: usize,
    end_err: Option<PipelineError>,
    pos: usize,
    phase: Phase,
    auto_add: bool,
}

impl View for FeedRun {
    type V = FeedRunView;

    closed spec fn view(&self) -> FeedRunView {
        FeedRunView {
            plan: PlanView {
                cands: views_of(self.cands@),
                end: (match self.end_err {
                    Some(e) => Err(e),
                    None => Ok(self.end_skips as nat),
                }),
            },
            pos: self.pos as int,
            phase: self.phase,
            auto_add: self.auto_add,
        }
    }
}

/// The action a run emits from a `proceed` call, with the state after it.
pub open spec fn spec_proceed(v: FeedRunView) -> (FeedRunView, ActionView) {
    if v.phase == Phase::Closing {
        (FeedRunView { phase: Phase::Finished, ..v }, ActionView::Done)
    } else if v.phase == Phase::Reported {
        if v.auto_add {
            (
                FeedRunView { phase: Phase::Submitting, ..v },
                ActionView::Submit(v.plan.cands[v.pos].link),
            )
        } else {
            (FeedRunView { phase: Phase::Asking, ..v }, ActionView::Ask(v.plan.cands[v.pos].link))
        }
    } else {
        if v.pos == v.plan.cands.len() {
            match v.plan.end {
                Err(e) => (FeedRunView { phase: Phase::Aborted, ..v }, ActionView::Abort(e)),
                Ok(skips) => if skips > 0 {
                    (FeedRunView { phase: Phase::Closing, ..v }, ActionView::Report(skips))
                } else {
                    (FeedRunView { phase: Phase::Finished, ..v }, ActionView::Done)
                },
            }
        } else {
            let c = v.plan.cands[v.pos];
            if c.skips_before > 0 {
                (FeedRunView { phase: Phase::Reported, ..v }, ActionView::Report(c.skips_before))
            } else if v.auto_add {
                (FeedRunView { phase: Phase::Submitting, ..v }, ActionView::Submit(c.link))
            } else {
                (FeedRunView { phase: Phase::Asking, ..v }, ActionView::Ask(c.link))
            }
        }
    }
}

/// The transition on the operator's answer: a confirmed candidate goes to
/// the submission client; a declined one is recorded at once — declined
/// items are never asked about again — without any submission.
pub open spec fn spec_answer(v: FeedRunView, entries: Seq<Seq<char>>, yes: bool) -> (
    FeedRunView,
    Seq<Seq<char>>,
    ActionView,
) {
    let c = v.plan.cands[v.pos];
    if yes {
        (FeedRunView { phase: Phase::Submitting, ..v }, entries, ActionView::Submit(c.link))
    } else {
        (
            FeedRunView { phase: Phase::Ready, pos: v.pos + 1, ..v },
            spec_add(entries, c.link.url),
            ActionView::Record { url: c.link.url, append: !entries.contains(c.link.url) },
        )
    }
}

/// The transition on the submission client's outcome: on success the URL is
/// recorded; on failure the run aborts with the candidate unrecorded, so it
/// is retried on the next run.
pub open spec fn spec_submitted(v: FeedRunView, entries: Seq<Seq<char>>, ok: bool) -> (
    FeedRunView,
    Seq<Seq<char>>,
    ActionView,
) {
    let c = v.plan.cands[v.pos];
    if ok {
        (
            FeedRunView { phase: Phase::Ready, pos: v.pos + 1, ..v },
            spec_add(entries, c.link.url),
            ActionView::Record { url: c.link.url, append: !entries.contains(c.link.url) },
        )
    } else {
        (
            FeedRunView { phase: Phase::Aborted, ..v },
            entries,
            ActionView::Abort(PipelineError::SubmissionFailed),
        )
    }
}

impl FeedRun {
    /// A valid run never points past its plan, and mid-candidate phases
    /// point at a real candidate.
    pub open spec fn wf(self) -> bool {
        &&& self@.pos <= self@.plan.cands.len()
        &&& (self@.phase == Phase::Reported || self@.phase == Phase::Asking || self@.phase
            == Phase::Submitting) ==> self@.pos < self@.plan.cands.len()
        &&& self@.phase == Phase::Closing ==> (self@.pos == self@.plan.cands.len()
            && self@.plan.end is Ok)
    }

    /// Plan a feed's run against the ledger: resolve the base URL once, then
    /// walk the items oldest-first. The plan does not depend on the answers
    /// or submission outcomes that later drive the run.
    pub fn new(feed: Feed, fetch_url: &str, auto_add: bool, ledger: &Links) -> (run: FeedRun)
        ensures
            run.wf(),
            run@.phase == Phase::Ready,
            run@.pos == 0,
            run@.auto_add == auto_add,
            run@.plan == spec_feed_plan(feed@, fetch_url@, ledger@),
    {
        let ghost feed_v = feed@;
        let ghost l0 = ledger@;
        let Feed { link, items, .. } = feed;
        let base: String = match link {
            Some(l) => l,
            None => fetch_url.to_owned(),
        };
        let ghost base_v = base@;
        assert(base_v == spec_feed_base(feed_v, fetch_url@));
        if !(classify_url(base.as_str()) == UrlClass::Absolute) {
            let run = FeedRun {
                cands: Vec::new(),
                end_skips: 0,
                end_err: Some(PipelineError::InvalidBaseUrl),
                pos: 0,
                phase: Phase::Ready,
                auto_add,
            };
            proof {
                assert(views_of(run.cands@) =~= Seq::<CandidateView>::empty());
            }
            return run;
        }
        let ghost items_v = feed_v.items;
        let mut seen_items: Vec<String> = Vec::new();
        let m = ledger.items.len();
        let mut t: usize = 0;
        proof {
            assert(seq_of_strings(seen_items@) =~= l0.subrange(0, 0));
        }
        while t < m
            invariant
                t <= m,
                m == ledger.items.len(),
                l0 == ledger@,
                seq_of_strings(seen_items@) == l0.subrange(0, t as int),
            decreases m - t,
        {
            let ghost pre = seen_items@;
            seen_items.push(ledger.items[t].clone());
            proof {
                assert(seq_of_strings(seen_items@) =~= seq_of_strings(
                    pre,
                ).push(l0[t as int]));
                assert(l0.subrange(0, t as int + 1) =~= l0.subrange(0, t as int).push(
                    l0[t as int],
                ));
            }
            t += 1;
        }
        proof {
            assert(l0.subrange(0, m as int) =~= l0);
        }
        let mut seen = Links { items: seen_items };
        let mut cands: Vec<Candidate> = Vec::new();
        let mut skips: usize = 0;
        let mut err: Option<PipelineError> = None;
        let n = items.len();
        let mut k: usize = 0;
        proof {
            assert(items_v == views_of(items@));
            assert(items_v.subrange(0, n as int) =~= items_v);
            assert(views_of(cands@) =~= Seq::<CandidateView>::empty());
        }
        while k < n && err.is_none()
            invariant
                k <= n,
                n == items.len(),
                skips <= k,
                base_v == base@,
                items_v == views_of(items@),
                err is None ==> {
                    let rest = spec_plan(
                        items_v.subrange(0, (n - k) as int),
                        base_v,
                        seen@,
                        skips as nat,
                    );
                    spec_plan(items_v, base_v, l0, 0) == (PlanView {
                        cands: views_of(cands@) + rest.cands,
                        end: rest.end,
                    })
                },
                (match err {
                    Some(e) => spec_plan(items_v, base_v, l0, 0) == (PlanView {
                        cands: views_of(cands@),
                        end: Err::<nat, PipelineError>(e),
                    }),
                    None => true,
                }),
            decreases n - k,
        {
            let ghost rem = items_v.subrange(0, (n - k) as int);
            let ghost seen_pre = seen@;
            let ghost skips_pre = skips as nat;
            proof {
                assert(rem.len() == n - k);
                assert(rem.last() == items_v[(n - k - 1) as int]);
                assert(rem.drop_last() =~= items_v.subrange(0, (n - k - 1) as int));
            }
            let it = &items[n - 1 - k];
            proof {
                assert(items_v[(n - 1 - k) as int] == it@);
                assert(rem.last() == it@);
            }
            match resolve_item(it, base.as_str()) {
                Err(e) => {
                    err = Some(e);
                    proof {
                        assert(rem.len() > 0);
                        assert(spec_resolve_item(rem.last(), base_v) == Err::<
                            LinkView,
                            PipelineError,
                        >(e));
                        assert(spec_plan(rem, base_v, seen_pre, skips_pre) == (PlanView {
                            cands: Seq::<CandidateView>::empty(),
                            end: Err::<nat, PipelineError>(e),
                        }));
                        assert(views_of(cands@) + Seq::<CandidateView>::empty() =~= views_of(
                            cands@,
                        ));
                    }
                },
                Ok(l) => {
                    if seen.saved(l.url.as_str()) {
                        skips += 1;
                        proof {
                            assert(spec_plan(rem, base_v, seen_pre, skips_pre) == spec_plan(
                                rem.drop_last(),
                                base_v,
                                seen_pre,
                                skips_pre + 1,
                            ));
                        }
                    } else {
                        let ghost cands_pre = cands@;
                        let ghost cv = CandidateView { skips_before: skips as nat, link: l@ };
                        let _ = seen.add(l.url.as_str());
                        cands.push(Candidate { skips_before: skips, link: l });
                        skips = 0;
                        proof {
                            assert(seen@ == seen_pre.push(cv.link.url));
                            let rest = spec_plan(rem.drop_last(), base_v, seen@, 0);
                            assert(spec_plan(rem, base_v, seen_pre, skips_pre) == (PlanView {
                                cands: seq![cv] + rest.cands,
                                end: rest.end,
                            }));
                            assert(views_of(cands@) =~= views_of(cands_pre).push(cv));
                            assert(views_of(cands_pre).push(cv) + rest.cands =~= views_of(
                                cands_pre,
                            ) + (seq![cv] + rest.cands));
                        }
                    }
                },
            }
            k += 1;
        }
        let run = match err {
            Some(e) => FeedRun {
                cands,
                end_skips: 0,
                end_err: Some(e),
                pos: 0,
                phase: Phase::Ready,
                auto_add,
            },
            None => {
                proof {
                    assert(items_v.subrange(0, (n - k) as int) =~= Seq::<ItemView>::empty());
                }
                FeedRun {
                    cands,
                    end_skips: skips,
                    end_err: None,
                    pos: 0,
                    phase: Phase::Ready,
                    auto_add,
                }
            },
        };
        proof {
            assert(views_of(run.cands@) + Seq::<CandidateView>::empty() =~= views_of(run.cands@));
        }
        run
    }

    /// The next action where none is pending: the current candidate's skip
    /// report, prompt or submission; or the end of the run.
    pub fn proceed(&mut self) -> (action: Action)
        requires
            old(self).wf(),
            old(self)@.phase == Phase::Ready || old(self)@.phase == Phase::Reported || old(
                self,
            )@.phase == Phase::Closing,
        ensures
            final(self).wf(),
            final(self)@ == spec_proceed(old(self)@).0,
            action@ == spec_proceed(old(self)@).1,
    {
        match self.phase {
            Phase::Closing => {
                self.phase = Phase::Finished;
                Action::Done
            },
            Phase::Reported => {
                let c = &self.cands[self.pos];
                let link = c.link.clone();
                if self.auto_add {
                    self.phase = Phase::Submitting;
                    Action::Submit(link)
                } else {
                    self.phase = Phase::Asking;
                    Action::Ask(link)
                }
            },
            _ => {
                if self.pos == self.cands.len() {
                    match self.end_err {
                        Some(e) => {
                            self.phase = Phase::Aborted;
                            Action::Abort(e)
                        },
                        None => {
                            if self.end_skips > 0 {
                                self.phase = Phase::Closing;
                                Action::Report(self.end_skips)
                            } else {
                                self.phase = Phase::Finished;
                                Action::Done
                            }
                        },
                    }
                } else {
                    let c = &self.cands[self.pos];
                    if c.skips_before > 0 {
                        self.phase = Phase::Reported;
                        Action::Report(c.skips_before)
                    } else {
                        let link = c.link.clone();
                        if self.auto_add {
                            self.phase = Phase::Submitting;
                            Action::Submit(link)
                        } else {
                            self.phase = Phase::Asking;
                            Action::Ask(link)
                        }
                    }
                }
            },
        }
    }

    /// Record the current candidate's URL and move past it.
    fn record(&mut self, ledger: &mut Links) -> (action: Action)
        requires
            old(self).wf(),
            old(self)@.pos < old(self)@.plan.cands.len(),
        ensures
            final(self).wf(),
            final(self)@ == (FeedRunView {
                phase: Phase::Ready,
                pos: old(self)@.pos + 1,
                ..old(self)@
            }),
            final(ledger)@ == spec_add(
                old(ledger)@,
                old(self)@.plan.cands[old(self)@.pos].link.url,
            ),
            old(ledger).wf() ==> final(ledger).wf(),
            action@ == (ActionView::Record {
                url: old(self)@.plan.cands[old(self)@.pos].link.url,
                append: !old(ledger)@.contains(old(self)@.plan.cands[old(self)@.pos].link.url),
            }),
    {
        proof {
            assert(self@.plan.cands.len() == self.cands@.len());
        }
        let total = self.cands.len();
        assert(self.pos < total);
        let c = &self.cands[self.pos];
        let url = c.link.url.clone();
        let append = ledger.add(url.as_str());
        self.pos = self.pos + 1;
        self.phase = Phase::Ready;
        Action::Record { url, append }
    }

    /// Hand in the operator's answer for the candidate being asked about.
    pub fn answer(&mut self, ledger: &mut Links, yes: bool) -> (action: Action)
        requires
            old(self).wf(),
            old(self)@.phase == Phase::Asking,
        ensures
            final(self).wf(),
            final(self)@ == spec_answer(old(self)@, old(ledger)@, yes).0,
            final(ledger)@ == spec_answer(old(self)@, old(ledger)@, yes).1,
            action@ == spec_answer(old(self)@, old(ledger)@, yes).2,
            old(ledger).wf() ==> final(ledger).wf(),
    {
        if yes {
            let c = &self.cands[self.pos];
            let link = c.link.clone();
            self.phase = Phase::Submitting;
            Action::Submit(link)
        } else {
            self.record(ledger)
        }
    }

    /// Hand in the submission client's outcome for the candidate it was
    /// given.
    pub fn submitted(&mut self, ledger: &mut Links, ok: bool) -> (action: Action)
        requires
            old(self).wf(),
            old(self)@.phase == Phase::Submitting,
        ensures
            final(self).wf(),
            final(self)@ == spec_submitted(old(self)@, old(ledger)@, ok).0,
            final(ledger)@ == spec_submitted(old(self)@, old(ledger)@, ok).1,
            action@ == spec_submitted(old(self)@, old(ledger)@, ok).2,
            old(ledger).wf() ==> final(ledger).wf(),
    {
        if ok {
            self.record(ledger)
        } else {
            self.phase = Phase::Aborted;
            Action::Abort(PipelineError::SubmissionFailed)
        }
    }

    /// Whether the run has ended, normally or aborted.
    pub fn is_over(&self) -> (r: bool)
        ensures
            r == (self@.phase == Phase::Finished || self@.phase == Phase::Aborted),
    {
        match self.phase {
            Phase::Finished => true,
            Phase::Aborted => true,
            _ => false,
        }
    }
}

/// Oldest-first ordering: when every item resolves, none of the resolved
/// URLs is already recorded, and they are pairwise distinct, the plan offers
/// every item and nothing is skipped, and candidate `i` is item
/// `len - 1 - i` — the items in reverse document order, the oldest first.
/// Since `proceed` emits each `Submit` for the candidate at the current
/// position and the position only advances, the submission client is invoked
/// in exactly that order.
pub proof fn lemma_oldest_first(items: Seq<ItemView>, base: Seq<char>, seen: Seq<Seq<char>>)
    requires
        forall|i: int|
            0 <= i < items.len() ==> (#[trigger] spec_resolve_item(items[i], base)) is Ok,
        forall|i: int|
            0 <= i < items.len() ==> !seen.contains(
                spec_resolved_link(#[trigger] items[i], base).url,
            ),
        forall|i: int, j: int|
            0 <= i < j < items.len() ==> spec_resolved_link(items[i], base).url
                != spec_resolved_link(items[j], base).url,
    ensures
        spec_plan(items, base, seen, 0).end == Ok::<nat, PipelineError>(0),
        spec_plan(items, base, seen, 0).cands.len() == items.len(),
        forall|i: int|
            0 <= i < items.len() ==> (#[trigger] spec_plan(items, base, seen, 0).cands[i])
                == (CandidateView {
                skips_before: 0nat,
                link: spec_resolved_link(items[items.len() - 1 - i], base),
            }),
    decreases items.len(),
{
    if items.len() > 0 {
        let n = items.len() as int;
        assert(items.last() == items[n - 1]);
        assert(spec_resolve_item(items[n - 1], base) is Ok);
        let l = spec_resolved_link(items[n - 1], base);
        assert(spec_resolve_item(items.last(), base) == Ok::<LinkView, PipelineError>(l));
        assert(!seen.contains(l.url));
        let seen2 = seen.push(l.url);
        let front = items.drop_last();
        assert(forall|i: int| 0 <= i < front.len() ==> front[i] == items[i]);
        assert forall|i: int| 0 <= i < front.len() implies (#[trigger] spec_resolve_item(
            front[i],
            base,
        )) is Ok by {
            assert(front[i] == items[i]);
            assert(spec_resolve_item(items[i], base) is Ok);
        }
        assert forall|i: int| 0 <= i < front.len() implies !seen2.contains(
            spec_resolved_link(#[trigger] front[i], base).url,
        ) by {
            assert(front[i] == items[i]);
            let u = spec_resolved_link(items[i], base).url;
            assert(u != l.url);
            assert(!seen.contains(u));
            if seen2.contains(u) {
                let k = choose|k: int| 0 <= k < seen2.len() && seen2[k] == u;
                if k < seen.len() {
                    assert(seen[k] == u);
                    assert(seen.contains(u));
                } else {
                    assert(seen2[k] == l.url);
                }
                assert(false);
            }
        }
        assert forall|i: int, j: int| 0 <= i < j < front.len() implies spec_resolved_link(
            front[i],
            base,
        ).url != spec_resolved_link(front[j], base).url by {
            assert(front[i] == items[i]);
            assert(front[j] == items[j]);
        }
        lemma_oldest_first(front, base, seen2);
        let rest = spec_plan(front, base, seen2, 0);
        let head = CandidateView { skips_before: 0nat, link: l };
        assert(spec_plan(items, base, seen, 0) == (PlanView {
            cands: seq![head] + rest.cands,
            end: rest.end,
        }));
        let cands = spec_plan(items, base, seen, 0).cands;
        assert(cands.len() == items.len());
        assert forall|i: int| 0 <= i < items.len() implies (#[trigger] cands[i])
            == (CandidateView {
            skips_before: 0nat,
            link: spec_resolved_link(items[items.len() - 1 - i], base),
        }) by {
            if i == 0 {
                assert(cands[0] == head);
            } else {
                assert(cands[i] == rest.cands[i - 1]);
                assert(rest.cands[i - 1] == (CandidateView {
                    skips_before: 0nat,
                    link: spec_resolved_link(front[front.len() - 1 - (i - 1)], base),
                }));
                assert(front[front.len() - 1 - (i - 1)] == items[items.len() - 1 - i]);
            }
        }
    }
}

/// Resolve one item against the base URL string.
fn resolve_item(it: &Item, base: &str) -> (r: Result<Link, PipelineError>)
    ensures
        (match r {
            Ok(l) => spec_resolve_item(it@, base@) == Ok::<LinkView, PipelineError>(l@),
            Err(e) => spec_resolve_item(it@, base@) == Err::<LinkView, PipelineError>(e),
        }),
{
    match Link::from_item(it.clone()) {
        Err(e) => Err(e),
        Ok(l) => match l.fix_url_schema(base) {
            Ok(resolved) => Ok(resolved),
            Err(e) => Err(PipelineError::Url(e)),
        },
    }
}

} // verus!
