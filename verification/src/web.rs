//! Links to the web. The library decides what is asked for and what an
//! answer means; the caller makes the requests. Each web address is asked
//! for once, however often it is linked, and no more requests are under way
//! at a time than the configuration allows.

use vstd::prelude::*;
use crate::link::{
    classified_views, text_view, ClassifiedLink, ClassifiedLinkView, LinkKind, LinkKindView,
};
use crate::text::position_view;
use crate::report::{Outcome, OutcomeView, Reason, ReasonView};

verus! {

/// How many redirects a request follows unless the configuration says
/// otherwise.
pub const MAX_REDIRECTS: u32 = 5;

/// How many requests are under way at a time unless the configuration says
/// otherwise.
pub const WORKERS: usize = 8;

/// How many seconds a request may take unless the configuration says
/// otherwise.
pub const TIMEOUT_SECS: u64 = 10;

/// How links to the web are checked.
#[derive(Debug, Clone, Copy, PartialEq, Eq)]
pub struct WebConfig {
    /// Whether links to the web are checked at all.
    pub follow: bool,
    /// How many redirects one check follows before it gives up.
    pub max_redirects: u32,
    /// How many requests may be under way at a time; zero counts as one.
    pub workers: usize,
    /// How many seconds the caller gives each request.
    pub timeout_secs: u64,
}

impl WebConfig {
    /// The usual configuration, with or without checks of the web.
    pub open spec fn usual(follow: bool) -> WebConfig {
        WebConfig {
            follow,
            max_redirects: MAX_REDIRECTS,
            workers: WORKERS,
            timeout_secs: TIMEOUT_SECS,
        }
    }

    /// The usual configuration, with or without checks of the web.
    pub fn new(follow: bool) -> (out: Self)
        ensures
            out == WebConfig::usual(follow),
    {
        WebConfig {
            follow,
            max_redirects: MAX_REDIRECTS,
            workers: WORKERS,
            timeout_secs: TIMEOUT_SECS,
        }
    }

    /// How many requests may be under way at a time: at least one.
    pub open spec fn limit(self) -> usize {
        if self.workers == 0 {
            1
        } else {
            self.workers
        }
    }

    /// How many requests may be under way at a time: at least one.
    pub fn worker_limit(&self) -> (n: usize)
        ensures
            n == self.limit(),
            n >= 1,
    {
        if self.workers == 0 {
            1
        } else {
            self.workers
        }
    }
}

/// What came of one request.
#[derive(Debug, PartialEq, Eq)]
pub enum Response {
    /// The server answered with a status and, where it sends the request
    /// on, the address to go to.
    Status { code: u16, location: Option<String> },
    /// No answer: no connection, no such host, no answer in time.
    Failed { message: String },
}

/// What a `Response` stands for.
pub enum ResponseView {
    Status { code: u16, location: Option<Seq<char>> },
    Failed { message: Seq<char> },
}

impl View for Response {
    type V = ResponseView;

    open spec fn view(&self) -> ResponseView {
        match *self {
            Response::Status { code, location } => ResponseView::Status {
                code,
                location: text_view(location),
            },
            Response::Failed { message } => ResponseView::Failed { message: message@ },
        }
    }
}

/// What an answer means for the check of an address.
#[derive(Debug, PartialEq, Eq)]
pub enum Verdict {
    /// The check is over, with this outcome.
    Settled(Outcome),
    /// The check goes on at this address.
    Follow(String),
}

/// What a `Verdict` stands for.
pub enum VerdictView {
    Settled(OutcomeView),
    Follow(Seq<char>),
}

impl View for Verdict {
    type V = VerdictView;

    open spec fn view(&self) -> VerdictView {
        match *self {
            Verdict::Settled(outcome) => VerdictView::Settled(outcome@),
            Verdict::Follow(target) => VerdictView::Follow(target@),
        }
    }
}

/// What an answer means, after `hops` redirects, where at most
/// `max_redirects` are followed. No answer is a network error. A status
/// from 300 to 399 that names an address to go to is followed, and is one
/// redirect too many once `max_redirects` were followed. Any other status
/// from 200 to 399 is a success. Every other status is an HTTP error.
pub open spec fn verdict_of(response: ResponseView, hops: u32, max_redirects: u32) -> VerdictView {
    match response {
        ResponseView::Failed { message } => VerdictView::Settled(
            OutcomeView::Broken(ReasonView::NetworkError { message }),
        ),
        ResponseView::Status { code, location } => if 300 <= code < 400 && location is Some {
            if hops < max_redirects {
                VerdictView::Follow(location.unwrap())
            } else {
                VerdictView::Settled(OutcomeView::Broken(ReasonView::TooManyRedirects))
            }
        } else if 200 <= code < 400 {
            VerdictView::Settled(OutcomeView::Valid)
        } else {
            VerdictView::Settled(OutcomeView::Broken(ReasonView::HttpError { status: code }))
        },
    }
}

/// What an answer means, after `hops` redirects, where at most
/// `max_redirects` are followed.
pub fn judge(response: Response, hops: u32, max_redirects: u32) -> (verdict: Verdict)
    ensures
        verdict@ == verdict_of(response@, hops, max_redirects),
{
    match response {
        Response::Failed { message } => Verdict::Settled(
            Outcome::Broken(Reason::NetworkError { message }),
        ),
        Response::Status { code, location } => {
            if 300 <= code && code < 400 && location.is_some() {
                if hops < max_redirects {
                    Verdict::Follow(location.unwrap())
                } else {
                    Verdict::Settled(Outcome::Broken(Reason::TooManyRedirects))
                }
            } else if 200 <= code && code < 400 {
                Verdict::Settled(Outcome::Valid)
            } else {
                Verdict::Settled(Outcome::Broken(Reason::HttpError { status: code }))
            }
        },
    }
}

/// Where the check of one address stands.
#[derive(Debug, Clone, Copy, PartialEq, Eq, Structural)]
pub enum Stage {
    /// A request is to be made.
    Queued,
    /// A request is under way.
    InFlight,
    /// The outcome is known.
    Done,
}

/// What the check of one address stands for.
pub struct JobView {
    /// The address as the links give it.
    pub url: Seq<char>,
    /// The address to ask next: `url`, or where the last redirect led.
    pub target: Seq<char>,
    /// How many redirects were followed.
    pub hops: u32,
    /// How many requests were handed out.
    pub fetches: u64,
    pub stage: Stage,
    /// The outcome, once the stage is `Done`.
    pub outcome: OutcomeView,
}

/// What a run of web checks stands for.
pub struct WebRunView {
    pub config: WebConfig,
    pub jobs: Seq<JobView>,
    /// How many requests are under way.
    pub active: usize,
}

/// How many of the jobs have a request under way.
pub open spec fn in_flight(jobs: Seq<JobView>) -> nat
    decreases jobs.len(),
{
    if jobs.len() == 0 {
        0
    } else if jobs.last().stage == Stage::InFlight {
        in_flight(jobs.drop_last()) + 1
    } else {
        in_flight(jobs.drop_last())
    }
}

/// How many steps one job can still take: none once it is done; else two
/// for each redirect that it may still follow, and two more while it waits
/// for a request, one more while a request is under way.
pub open spec fn job_work(job: JobView, max_redirects: u32) -> nat {
    let redirects: nat = if job.hops <= max_redirects {
        (max_redirects - job.hops) as nat
    } else {
        0
    };
    match job.stage {
        Stage::Done => 0,
        Stage::InFlight => 2 * redirects + 1,
        Stage::Queued => 2 * redirects + 2,
    }
}

/// How many steps the jobs can still take, all together.
pub open spec fn work_left(jobs: Seq<JobView>, max_redirects: u32) -> nat
    decreases jobs.len(),
{
    if jobs.len() == 0 {
        0
    } else {
        work_left(jobs.drop_last(), max_redirects) + job_work(jobs.last(), max_redirects)
    }
}

/// The first job from `from` on that waits for a request.
pub open spec fn first_queued(jobs: Seq<JobView>, from: int) -> Option<int>
    decreases jobs.len() - from,
{
    if from < 0 || from >= jobs.len() {
        None
    } else if jobs[from].stage == Stage::Queued {
        Some(from)
    } else {
        first_queued(jobs, from + 1)
    }
}

/// The first job from `from` on that checks the address `url`.
pub open spec fn job_for(jobs: Seq<JobView>, url: Seq<char>, from: int) -> Option<int>
    decreases jobs.len() - from,
{
    if from < 0 || from >= jobs.len() {
        None
    } else if jobs[from].url == url {
        Some(from)
    } else {
        job_for(jobs, url, from + 1)
    }
}

/// Whether one job is in order: it followed no more redirects than are
/// allowed, and one request was handed out for the address itself and for
/// each redirect followed, the next one not yet while the job waits.
pub open spec fn job_sound(job: JobView, max_redirects: u32) -> bool {
    &&& job.hops <= max_redirects
    &&& job.fetches == job.hops + (if job.stage == Stage::Queued {
        0int
    } else {
        1int
    })
}

impl WebRunView {
    /// Whether the run is in order: no address has two jobs, every job is
    /// in order, and the requests under way are counted right and are no
    /// more than the configuration allows.
    pub open spec fn sound(self) -> bool {
        &&& forall|i: int, j: int|
            0 <= i < self.jobs.len() && 0 <= j < self.jobs.len() && self.jobs[i].url
                == self.jobs[j].url ==> i == j
        &&& forall|i: int|
            0 <= i < self.jobs.len() ==> job_sound(#[trigger] self.jobs[i], self.config.max_redirects)
        &&& self.active == in_flight(self.jobs)
        &&& self.active <= self.config.limit()
    }

    /// Whether every job is done.
    pub open spec fn finished(self) -> bool {
        forall|i: int| 0 <= i < self.jobs.len() ==> (#[trigger] self.jobs[i]).stage == Stage::Done
    }

    /// The outcome for an address: that of its job once the job is done.
    pub open spec fn outcome(self, url: Seq<char>) -> Option<OutcomeView> {
        match job_for(self.jobs, url, 0) {
            Some(at) => if self.jobs[at].stage == Stage::Done {
                Some(self.jobs[at].outcome)
            } else {
                None
            },
            None => None,
        }
    }

    /// The steps that the run can still take.
    pub open spec fn work(self) -> nat {
        work_left(self.jobs, self.config.max_redirects)
    }
}

/// What `first_queued` names: a job that waits, with none that waits
/// between the start and it.
pub proof fn lemma_first_queued(jobs: Seq<JobView>, from: int)
    requires
        0 <= from,
    ensures
        match first_queued(jobs, from) {
            Some(at) => from <= at < jobs.len() && jobs[at].stage == Stage::Queued,
            None => forall|j: int| from <= j < jobs.len() ==> jobs[j].stage != Stage::Queued,
        },
    decreases jobs.len() - from,
{
    if from < jobs.len() && jobs[from].stage != Stage::Queued {
        lemma_first_queued(jobs, from + 1);
    }
}

/// What `job_for` names: a job for the address, with none for it between
/// the start and it.
pub proof fn lemma_job_for(jobs: Seq<JobView>, url: Seq<char>, from: int)
    requires
        0 <= from,
    ensures
        match job_for(jobs, url, from) {
            Some(at) => from <= at < jobs.len() && jobs[at].url == url,
            None => forall|j: int| from <= j < jobs.len() ==> jobs[j].url != url,
        },
    decreases jobs.len() - from,
{
    if from < jobs.len() && jobs[from].url != url {
        lemma_job_for(jobs, url, from + 1);
    }
}

/// With one job changed, the requests under way and the steps left change
/// by what that job gives.
pub proof fn lemma_change(jobs: Seq<JobView>, at: int, job: JobView, max_redirects: u32)
    requires
        0 <= at < jobs.len(),
    ensures
        in_flight(jobs.update(at, job)) + (if jobs[at].stage == Stage::InFlight {
            1int
        } else {
            0int
        }) == in_flight(jobs) + (if job.stage == Stage::InFlight {
            1int
        } else {
            0int
        }),
        work_left(jobs.update(at, job), max_redirects) + job_work(jobs[at], max_redirects)
            == work_left(jobs, max_redirects) + job_work(job, max_redirects),
    decreases jobs.len(),
{
    let changed = jobs.update(at, job);
    if at == jobs.len() - 1 {
        assert(changed.drop_last() =~= jobs.drop_last());
    } else {
        assert(changed.drop_last() =~= jobs.drop_last().update(at, job));
        lemma_change(jobs.drop_last(), at, job, max_redirects);
    }
}

/// Where no job has a request under way, none is counted.
pub proof fn lemma_none_in_flight(jobs: Seq<JobView>)
    requires
        forall|i: int| 0 <= i < jobs.len() ==> (#[trigger] jobs[i]).stage != Stage::InFlight,
    ensures
        in_flight(jobs) == 0,
    decreases jobs.len(),
{
    if jobs.len() > 0 {
        lemma_none_in_flight(jobs.drop_last());
    }
}

/// Where none is counted, no job has a request under way.
pub proof fn lemma_in_flight_zero(jobs: Seq<JobView>)
    requires
        in_flight(jobs) == 0,
    ensures
        forall|i: int| 0 <= i < jobs.len() ==> (#[trigger] jobs[i]).stage != Stage::InFlight,
    decreases jobs.len(),
{
    if jobs.len() > 0 {
        lemma_in_flight_zero(jobs.drop_last());
        assert forall|i: int| 0 <= i < jobs.len() implies (#[trigger] jobs[i]).stage
            != Stage::InFlight by {
            if i < jobs.len() - 1 {
                assert(jobs.drop_last()[i] == jobs[i]);
            }
        }
    }
}

/// In a run that is in order, no job has had more requests than one for
/// its address and one for each redirect allowed. A job that is done has had
/// one for its address and one for each redirect that it followed: an
/// address that sends nowhere else is asked for exactly once.
pub proof fn lemma_requests_per_address(run: WebRunView, at: int)
    requires
        run.sound(),
        0 <= at < run.jobs.len(),
    ensures
        run.jobs[at].fetches <= run.config.max_redirects + 1,
        run.jobs[at].stage == Stage::Done ==> run.jobs[at].fetches == run.jobs[at].hops + 1,
        run.jobs[at].stage == Stage::Done && run.jobs[at].hops == 0 ==> run.jobs[at].fetches == 1,
{
}

/// The web address that a link points at, where it points at one.
pub open spec fn web_address(link: ClassifiedLinkView) -> Option<Seq<char>> {
    match link.kind {
        LinkKindView::External { url } => Some(url),
        _ => None,
    }
}

/// The web addresses that the links point at, each once, in the order in
/// which they first occur.
pub open spec fn distinct_urls(links: Seq<ClassifiedLinkView>) -> Seq<Seq<char>>
    decreases links.len(),
{
    if links.len() == 0 {
        Seq::empty()
    } else {
        let before = distinct_urls(links.drop_last());
        match web_address(links.last()) {
            Some(url) => if before.contains(url) {
                before
            } else {
                before.push(url)
            },
            None => before,
        }
    }
}

/// The web addresses of some links hold no address twice, and hold an
/// address exactly when one of the links points at it: an address is there
/// once, however many links point at it.
pub proof fn lemma_distinct_urls(links: Seq<ClassifiedLinkView>)
    ensures
        distinct_urls(links).no_duplicates(),
        forall|url: Seq<char>|
            distinct_urls(links).contains(url) <==> exists|i: int|
                0 <= i < links.len() && web_address(#[trigger] links[i]) == Some(url),
    decreases links.len(),
{
    if links.len() > 0 {
        let rest = links.drop_last();
        let before = distinct_urls(rest);
        let all = distinct_urls(links);
        lemma_distinct_urls(rest);
        assert forall|url: Seq<char>| all.contains(url) implies exists|i: int|
            0 <= i < links.len() && web_address(#[trigger] links[i]) == Some(url) by {
            if before.contains(url) {
                let i = choose|i: int|
                    0 <= i < rest.len() && web_address(#[trigger] rest[i]) == Some(url);
                assert(links[i] == rest[i]);
            } else {
                let k = choose|k: int| 0 <= k < all.len() && all[k] == url;
                assert(k == before.len());
                assert(web_address(links[links.len() - 1]) == Some(url));
            }
        }
        assert forall|url: Seq<char>|
            (exists|i: int|
                0 <= i < links.len() && web_address(#[trigger] links[i]) == Some(
                    url,
                )) implies all.contains(url) by {
            let i = choose|i: int|
                0 <= i < links.len() && web_address(#[trigger] links[i]) == Some(url);
            if i < rest.len() {
                assert(rest[i] == links[i]);
                assert(before.contains(url));
                let k = choose|k: int| 0 <= k < before.len() && before[k] == url;
                assert(all[k] == url);
            } else {
                if before.contains(url) {
                } else {
                    assert(all[before.len() as int] == url);
                }
            }
        }
    }
}

/// The job for an address that has not been asked for.
pub open spec fn fresh_job(url: Seq<char>) -> JobView {
    JobView {
        url,
        target: url,
        hops: 0,
        fetches: 0,
        stage: Stage::Queued,
        outcome: OutcomeView::Valid,
    }
}

/// A fresh job for each of the addresses.
pub open spec fn fresh_jobs(urls: Seq<Seq<char>>) -> Seq<JobView> {
    Seq::new(urls.len(), |i: int| fresh_job(urls[i]))
}

/// The run at its start: where the web is checked, a fresh job for each
/// address that the links point at; no job where it is not.
pub open spec fn fresh_run(config: WebConfig, links: Seq<ClassifiedLinkView>) -> WebRunView {
    WebRunView {
        config,
        jobs: if config.follow {
            fresh_jobs(distinct_urls(links))
        } else {
            Seq::empty()
        },
        active: 0,
    }
}

/// Whether one of the links points at the web address `url`.
pub open spec fn points_at(links: Seq<ClassifiedLinkView>, url: Seq<char>) -> bool {
    exists|k: int| 0 <= k < links.len() && web_address(#[trigger] links[k]) == Some(url)
}

/// Whether one of the jobs checks the web address `url`.
pub open spec fn has_job(jobs: Seq<JobView>, url: Seq<char>) -> bool {
    exists|j: int| 0 <= j < jobs.len() && (#[trigger] jobs[j]).url == url
}

/// A run with web checks switched on starts with exactly one job for each
/// address that the links point at, however many links point at it, and
/// with no request made yet: every address is in one job, no two jobs are
/// for the same address, and no job is for an address that no link points
/// at.
pub proof fn lemma_one_job_per_address(config: WebConfig, links: Seq<ClassifiedLinkView>)
    requires
        config.follow,
    ensures
        fresh_run(config, links).sound(),
        forall|i: int, j: int|
            0 <= i < j < fresh_run(config, links).jobs.len() ==> fresh_run(config, links).jobs[i].url
                != fresh_run(config, links).jobs[j].url,
        forall|url: Seq<char>| #[trigger]
            points_at(links, url) <==> has_job(fresh_run(config, links).jobs, url),
        forall|j: int|
            0 <= j < fresh_run(config, links).jobs.len() ==> (#[trigger] fresh_run(
                config,
                links,
            ).jobs[j]).fetches == 0,
{
    let urls = distinct_urls(links);
    let run = fresh_run(config, links);
    lemma_distinct_urls(links);
    assert forall|i: int| 0 <= i < run.jobs.len() implies (#[trigger] run.jobs[i]).stage
        != Stage::InFlight by {}
    lemma_none_in_flight(run.jobs);
    assert forall|url: Seq<char>| #[trigger] points_at(links, url) implies has_job(run.jobs, url) by {
        assert(urls.contains(url));
        let j = choose|j: int| 0 <= j < urls.len() && urls[j] == url;
        assert(run.jobs[j].url == url);
    }
    assert forall|url: Seq<char>| has_job(run.jobs, url) implies #[trigger] points_at(links, url) by {
        let j = choose|j: int| 0 <= j < run.jobs.len() && (#[trigger] run.jobs[j]).url == url;
        assert(urls[j] == url);
        assert(urls.contains(url));
    }
}

/// What the run asks its caller to do next.
#[derive(Debug, PartialEq, Eq)]
pub enum Action {
    /// Ask for `url`, give the request `timeout_secs` seconds, and hand the
    /// answer back under the number `job`.
    Fetch { job: usize, url: String, timeout_secs: u64 },
    /// Wait for the answer to a request that is under way.
    Wait,
    /// Every address has its outcome.
    Finished,
}

/// What an `Action` stands for.
pub enum ActionView {
    Fetch { job: usize, url: Seq<char>, timeout_secs: u64 },
    Wait,
    Finished,
}

impl View for Action {
    type V = ActionView;

    open spec fn view(&self) -> ActionView {
        match *self {
            Action::Fetch { job, url, timeout_secs } => ActionView::Fetch {
                job,
                url: url@,
                timeout_secs,
            },
            Action::Wait => ActionView::Wait,
            Action::Finished => ActionView::Finished,
        }
    }
}

/// Whether a request can be handed out: fewer are under way than the
/// configuration allows, and a job waits for one.
pub open spec fn can_fetch(run: WebRunView) -> bool {
    run.active < run.config.limit() && first_queued(run.jobs, 0) is Some
}

/// A job after a request for it was handed out.
pub open spec fn handed_out(job: JobView) -> JobView {
    JobView { stage: Stage::InFlight, fetches: (job.fetches + 1) as u64, ..job }
}

/// What the run asks for next: a request for the first job that waits,
/// where one can be handed out; else to wait, while requests are under way;
/// else nothing more.
pub open spec fn action_of(run: WebRunView) -> ActionView {
    if can_fetch(run) {
        let at = first_queued(run.jobs, 0).unwrap();
        ActionView::Fetch {
            job: at as usize,
            url: run.jobs[at].target,
            timeout_secs: run.config.timeout_secs,
        }
    } else if run.active > 0 {
        ActionView::Wait
    } else {
        ActionView::Finished
    }
}

/// The run after it has said what it asks for next: with a request handed
/// out, that job has it under way; else the run is as before.
pub open spec fn after_action(run: WebRunView) -> WebRunView {
    if can_fetch(run) {
        let at = first_queued(run.jobs, 0).unwrap();
        WebRunView {
            jobs: run.jobs.update(at, handed_out(run.jobs[at])),
            active: (run.active + 1) as usize,
            ..run
        }
    } else {
        run
    }
}

/// Whether the run takes an answer under the number `job`: the job is
/// there and has a request under way.
pub open spec fn accepts(run: WebRunView, job: int) -> bool {
    0 <= job < run.jobs.len() && run.jobs[job].stage == Stage::InFlight
}

/// A job after the answer to its request: done with the outcome where the
/// answer settles it, waiting again at the new address, one redirect on,
/// where the answer sends it there.
pub open spec fn answered(job: JobView, verdict: VerdictView) -> JobView {
    match verdict {
        VerdictView::Settled(outcome) => JobView { stage: Stage::Done, outcome, ..job },
        VerdictView::Follow(target) => JobView {
            stage: Stage::Queued,
            target,
            hops: (job.hops + 1) as u32,
            ..job
        },
    }
}

/// The run after an answer was handed back under the number `job`: where
/// the run takes it, that job is as the answer leaves it and one request
/// fewer is under way; else the run is as before.
pub open spec fn after_response(run: WebRunView, job: int, response: ResponseView) -> WebRunView {
    if accepts(run, job) {
        WebRunView {
            jobs: run.jobs.update(
                job,
                answered(
                    run.jobs[job],
                    verdict_of(response, run.jobs[job].hops, run.config.max_redirects),
                ),
            ),
            active: (run.active - 1) as usize,
            ..run
        }
    } else {
        run
    }
}

/// What an optional outcome stands for.
pub open spec fn outcome_view(outcome: Option<Outcome>) -> Option<OutcomeView> {
    match outcome {
        None => None,
        Some(o) => Some(o@),
    }
}

struct Job {
    url: String,
    target: String,
    hops: u32,
    fetches: u64,
    stage: Stage,
    outcome: Outcome,
}

impl Job {
    spec fn view(&self) -> JobView {
        JobView {
            url: self.url@,
            target: self.target@,
            hops: self.hops,
            fetches: self.fetches,
            stage: self.stage,
            outcome: self.outcome@,
        }
    }
}

spec fn job_views(jobs: Seq<Job>) -> Seq<JobView> {
    Seq::new(jobs.len(), |i: int| jobs[i].view())
}

spec fn run_view(config: WebConfig, jobs: Seq<Job>, active: usize) -> WebRunView {
    WebRunView { config, jobs: job_views(jobs), active }
}

/// A run of web checks: one job for each address, and the count of the
/// requests that are under way. It doubles as the cache of outcomes.
pub struct WebRun {
    config: WebConfig,
    jobs: Vec<Job>,
    active: usize,
}

impl View for WebRun {
    type V = WebRunView;

    closed spec fn view(&self) -> WebRunView {
        run_view(self.config, self.jobs@, self.active)
    }
}

fn find_job(jobs: &Vec<Job>, url: &String) -> (found: Option<usize>)
    ensures
        position_view(found) == job_for(job_views(jobs@), url@, 0),
{
    let mut i: usize = 0;
    while i < jobs.len()
        invariant
            i <= jobs.len(),
            job_for(job_views(jobs@), url@, i as int) == job_for(job_views(jobs@), url@, 0),
        decreases jobs.len() - i,
    {
        assert(job_views(jobs@)[i as int] == jobs@[i as int].view());
        if jobs[i].url == *url {
            return Some(i);
        }
        i += 1;
    }
    None
}

fn find_queued(jobs: &Vec<Job>) -> (found: Option<usize>)
    ensures
        position_view(found) == first_queued(job_views(jobs@), 0),
{
    let mut i: usize = 0;
    while i < jobs.len()
        invariant
            i <= jobs.len(),
            first_queued(job_views(jobs@), i as int) == first_queued(job_views(jobs@), 0),
        decreases jobs.len() - i,
    {
        assert(job_views(jobs@)[i as int] == jobs@[i as int].view());
        match jobs[i].stage {
            Stage::Queued => {
                return Some(i);
            },
            _ => {},
        }
        i += 1;
    }
    None
}

impl WebRun {
    #[verifier::type_invariant]
    spec fn valid(&self) -> bool {
        self@.sound()
    }

    /// A run for the given links: where the configuration has the web
    /// checked, one job for each address that the links point at, in the
    /// order in which the addresses first occur; no job where it has not.
    pub fn new(config: WebConfig, links: &Vec<ClassifiedLink>) -> (run: Self)
        ensures
            run@ == fresh_run(config, classified_views(links@)),
            run@.sound(),
    {
        let mut jobs: Vec<Job> = Vec::new();
        let ghost all = classified_views(links@);
        if config.follow {
            let mut i: usize = 0;
            assert(all.take(0) =~= Seq::<ClassifiedLinkView>::empty());
            assert(job_views(jobs@) =~= fresh_jobs(distinct_urls(all.take(0))));
            while i < links.len()
                invariant
                    i <= links.len(),
                    all == classified_views(links@),
                    job_views(jobs@) == fresh_jobs(distinct_urls(all.take(i as int))),
                decreases links.len() - i,
            {
                proof {
                    let next = all.take(i + 1);
                    assert(next.drop_last() =~= all.take(i as int));
                    assert(next.last() == links@[i as int]@);
                }
                let ghost before = distinct_urls(all.take(i as int));
                match &links[i].kind {
                    LinkKind::External { url } => {
                        let found = find_job(&jobs, url);
                        proof {
                            lemma_job_for(job_views(jobs@), url@, 0);
                            if found is Some {
                                assert(before[found.unwrap() as int] == url@);
                            } else {
                                assert forall|k: int| 0 <= k < before.len() implies before[k]
                                    != url@ by {
                                    assert(job_views(jobs@)[k].url == before[k]);
                                }
                            }
                        }
                        if found.is_none() {
                            let ghost old_views = job_views(jobs@);
                            jobs.push(
                                Job {
                                    url: url.clone(),
                                    target: url.clone(),
                                    hops: 0,
                                    fetches: 0,
                                    stage: Stage::Queued,
                                    outcome: Outcome::Valid,
                                },
                            );
                            assert(jobs@[jobs@.len() - 1].view() == fresh_job(url@));
                            assert(job_views(jobs@) =~= old_views.push(fresh_job(url@)));
                            assert(old_views.push(fresh_job(url@)) =~= fresh_jobs(
                                before.push(url@),
                            ));
                        }
                    },
                    _ => {},
                }
                i += 1;
            }
            assert(all.take(links.len() as int) =~= all);
        } else {
            assert(job_views(jobs@) =~= Seq::<JobView>::empty());
        }
        proof {
            let view = run_view(config, jobs@, 0);
            lemma_distinct_urls(all);
            assert(view == fresh_run(config, all));
            assert forall|i: int| 0 <= i < view.jobs.len() implies (#[trigger] view.jobs[i]).stage
                != Stage::InFlight by {}
            lemma_none_in_flight(view.jobs);
            assert(view.sound());
        }
        WebRun { config, jobs, active: 0 }
    }

    /// Every run is in order.
    pub fn assure(&self)
        ensures
            self@.sound(),
    {
        proof {
            use_type_invariant(self);
        }
    }

    /// The configuration that the run was made with.
    pub fn config(&self) -> (config: WebConfig)
        ensures
            config == self@.config,
    {
        self.config
    }

    /// How many addresses the run checks.
    pub fn len(&self) -> (n: usize)
        ensures
            n == self@.jobs.len(),
    {
        self.jobs.len()
    }

    /// How many requests are under way.
    pub fn active(&self) -> (n: usize)
        ensures
            n == self@.active,
    {
        self.active
    }

    /// How many requests were handed out for the address of job `job`; zero
    /// where there is no such job.
    pub fn fetches(&self, job: usize) -> (n: u64)
        ensures
            n == (if job < self@.jobs.len() {
                self@.jobs[job as int].fetches
            } else {
                0
            }),
    {
        if job < self.jobs.len() {
            self.jobs[job].fetches
        } else {
            0
        }
    }

    /// Whether every address has its outcome.
    pub fn is_finished(&self) -> (done: bool)
        ensures
            done == self@.finished(),
    {
        let mut i: usize = 0;
        while i < self.jobs.len()
            invariant
                i <= self.jobs.len(),
                forall|j: int| 0 <= j < i ==> (#[trigger] self@.jobs[j]).stage == Stage::Done,
            decreases self.jobs.len() - i,
        {
            assert(self@.jobs[i as int] == self.jobs@[i as int].view());
            match self.jobs[i].stage {
                Stage::Done => {},
                _ => {
                    return false;
                },
            }
            i += 1;
        }
        true
    }

    /// The outcome for an address, once its check is done; `None` while it
    /// is not, and for an address that the run does not check.
    pub fn outcome_of(&self, url: &str) -> (outcome: Option<Outcome>)
        ensures
            outcome_view(outcome) == self@.outcome(url@),
    {
        let wanted = url.to_owned();
        match find_job(&self.jobs, &wanted) {
            None => None,
            Some(at) => {
                proof {
                    lemma_job_for(self@.jobs, url@, 0);
                }
                assert(self@.jobs[at as int] == self.jobs@[at as int].view());
                match self.jobs[at].stage {
                    Stage::Done => Some(self.jobs[at].outcome.clone()),
                    _ => None,
                }
            },
        }
    }

    fn take_apart(&mut self) -> (parts: (WebConfig, Vec<Job>, usize))
        ensures
            run_view(parts.0, parts.1@, parts.2) == old(self)@,
            run_view(parts.0, parts.1@, parts.2).sound(),
            final(self)@.config == old(self)@.config,
    {
        proof {
            use_type_invariant(&*self);
        }
        let mut taken = WebRun { config: self.config, jobs: Vec::new(), active: 0 };
        assert(job_views(taken.jobs@) =~= Seq::<JobView>::empty());
        std::mem::swap(self, &mut taken);
        (taken.config, taken.jobs, taken.active)
    }

    /// What the caller is to do next: make a request for the first address
    /// that waits for one, where fewer requests are under way than the
    /// configuration allows; else wait, while requests are under way; else
    /// nothing more, and then every address has its outcome. Handing out a
    /// request uses up one of the steps that the run can still take.
    pub fn next_action(&mut self) -> (action: Action)
        ensures
            action@ == action_of(old(self)@),
            final(self)@ == after_action(old(self)@),
            final(self)@.sound(),
            action is Fetch ==> final(self)@.work() < old(self)@.work(),
            action is Finished ==> final(self)@.finished(),
    {
        let (config, mut jobs, active) = self.take_apart();
        let ghost before = run_view(config, jobs@, active);
        let found = if active < config.worker_limit() {
            find_queued(&jobs)
        } else {
            None
        };
        proof {
            lemma_first_queued(before.jobs, 0);
        }
        match found {
            Some(at) => {
                let url = jobs[at].target.clone();
                assert(before.jobs[at as int] == jobs@[at as int].view());
                assert(job_sound(before.jobs[at as int], config.max_redirects));
                jobs[at].stage = Stage::InFlight;
                jobs[at].fetches = jobs[at].fetches + 1;
                proof {
                    let after = run_view(config, jobs@, (active + 1) as usize);
                    assert(after.jobs =~= before.jobs.update(
                        at as int,
                        handed_out(before.jobs[at as int]),
                    ));
                    lemma_change(
                        before.jobs,
                        at as int,
                        handed_out(before.jobs[at as int]),
                        config.max_redirects,
                    );
                    assert(after == after_action(before));
                    assert(after.sound());
                }
                *self = WebRun { config, jobs, active: active + 1 };
                Action::Fetch { job: at, url, timeout_secs: config.timeout_secs }
            },
            None => {
                proof {
                    if active == 0 {
                        lemma_in_flight_zero(before.jobs);
                        assert(before.finished());
                    }
                }
                *self = WebRun { config, jobs, active };
                if active > 0 {
                    Action::Wait
                } else {
                    Action::Finished
                }
            },
        }
    }

    /// Takes the answer to the request that was handed out under the number
    /// `job`. Where that job has a request under way, the answer settles
    /// its outcome or sends it on to wait for a request at another address,
    /// one request fewer is under way, and one of the steps that the run
    /// can still take is used up. Any other answer changes nothing. The
    /// result says whether the answer was taken.
    pub fn on_response(&mut self, job: usize, response: Response) -> (taken: bool)
        ensures
            taken == accepts(old(self)@, job as int),
            final(self)@ == after_response(old(self)@, job as int, response@),
            final(self)@.sound(),
            taken ==> final(self)@.work() < old(self)@.work(),
    {
        let (config, mut jobs, active) = self.take_apart();
        let ghost before = run_view(config, jobs@, active);
        if job >= jobs.len() {
            *self = WebRun { config, jobs, active };
            return false;
        }
        assert(before.jobs[job as int] == jobs@[job as int].view());
        match jobs[job].stage {
            Stage::InFlight => {},
            _ => {
                *self = WebRun { config, jobs, active };
                return false;
            },
        }
        assert(job_sound(before.jobs[job as int], config.max_redirects));
        let verdict = judge(response, jobs[job].hops, config.max_redirects);
        let ghost after_job = answered(before.jobs[job as int], verdict@);
        match verdict {
            Verdict::Settled(outcome) => {
                jobs[job].stage = Stage::Done;
                jobs[job].outcome = outcome;
            },
            Verdict::Follow(target) => {
                jobs[job].stage = Stage::Queued;
                jobs[job].target = target;
                jobs[job].hops = jobs[job].hops + 1;
            },
        }
        proof {
            assert(job_views(jobs@) =~= before.jobs.update(job as int, after_job));
            lemma_change(before.jobs, job as int, after_job, config.max_redirects);
            let after = run_view(config, jobs@, (active - 1) as usize);
            assert(after == after_response(before, job as int, response@));
            assert(after.sound());
        }
        *self = WebRun { config, jobs, active: active - 1 };
        true
    }
}

} // verus!
