//! The aggregator: which provider asks about which course, and how the
//! answers are put together. Sending the requests is the caller's part; it
//! hands back one outcome per job, in job order.

use vstd::prelude::*;
use crate::book_a_tee_time::{self, nodes_records, TeeNode};
use crate::foreup::{self, flipped_date, ForeUpTeeTime};
use crate::golfback::{self, GolfBackResponse};
use crate::request::HttpRequest;
use crate::structs::{views, GolfCourse, TeeTime, TeeTimeView};
use crate::teeitup::{self, TeeItUpResponse};

verus! {

/// The providers, in the order their results are reported.
#[derive(PartialEq, Eq, Structural, Clone, Copy)]
pub enum Provider {
    BookATeeTime,
    GolfBack,
    ForeUp,
    TeeItUp,
}

/// The place of a provider in the report order.
pub open spec fn rank(p: Provider) -> nat {
    match p {
        Provider::BookATeeTime => 0,
        Provider::GolfBack => 1,
        Provider::ForeUp => 2,
        Provider::TeeItUp => 3,
    }
}

/// The source tag of the courses a provider serves.
pub open spec fn tag(p: Provider) -> Seq<char> {
    match p {
        Provider::BookATeeTime => book_a_tee_time::source_tag(),
        Provider::GolfBack => golfback::source_tag(),
        Provider::ForeUp => foreup::source_tag(),
        Provider::TeeItUp => teeitup::source_tag(),
    }
}

/// One fetch to make: a provider, the index of a course, and the request.
pub struct Job {
    pub provider: Provider,
    pub course: usize,
    pub request: HttpRequest,
}

/// What came of a job: a transport or payload failure, or the provider's
/// decoded answer.
pub enum Outcome {
    Failed,
    Page(Vec<TeeNode>),
    GolfBack(GolfBackResponse),
    ForeUp(Vec<ForeUpTeeTime>),
    TeeItUp(TeeItUpResponse),
}

/// A provider can ask about a course: the tags agree, and the provider's
/// own demands hold (a readable date, a verbose identity).
pub open spec fn eligible(p: Provider, c: GolfCourse, date: Seq<char>) -> bool {
    &&& c.source@ == tag(p)
    &&& (p == Provider::ForeUp ==> flipped_date(date) is Some)
    &&& (p == Provider::TeeItUp ==> c.id is Verbose)
}

/// The (provider, course index) pairs of one provider, in course order.
pub open spec fn provider_pairs(p: Provider, courses: Seq<GolfCourse>, date: Seq<char>) -> Seq<(Provider, int)>
    decreases courses.len(),
{
    if courses.len() == 0 {
        seq![]
    } else {
        let rest = provider_pairs(p, courses.drop_last(), date);
        if eligible(p, courses.last(), date) {
            rest.push((p, courses.len() - 1))
        } else {
            rest
        }
    }
}

/// All pairs: provider by provider in report order, each in course order.
pub open spec fn planned_pairs(courses: Seq<GolfCourse>, date: Seq<char>) -> Seq<(Provider, int)> {
    provider_pairs(Provider::BookATeeTime, courses, date) + provider_pairs(Provider::GolfBack, courses, date)
        + provider_pairs(Provider::ForeUp, courses, date) + provider_pairs(Provider::TeeItUp, courses, date)
}

/// The pairs of a job list.
pub open spec fn job_pairs(jobs: Seq<Job>) -> Seq<(Provider, int)> {
    jobs.map_values(|j: Job| (j.provider, j.course as int))
}

/// The job's request is the one its provider builds for its course.
pub open spec fn job_request_ok(j: Job, c: GolfCourse, date: Seq<char>, players: u32) -> bool {
    match j.provider {
        Provider::BookATeeTime => book_a_tee_time::request_spec(c, date, players, j.request),
        Provider::GolfBack => golfback::request_spec(c, date, players, j.request),
        Provider::ForeUp => foreup::request_spec(c, date, players, j.request),
        Provider::TeeItUp => teeitup::request_spec(c, date, j.request),
    }
}

/// The records an outcome gives for a job's provider and course; a failure,
/// or an answer of another provider's shape, gives none.
pub open spec fn outcome_records(p: Provider, c: GolfCourse, date: Seq<char>, players: u32, o: Outcome) -> Seq<TeeTimeView> {
    match (p, o) {
        (Provider::BookATeeTime, Outcome::Page(nodes)) => nodes_records(c, nodes@),
        (Provider::GolfBack, Outcome::GolfBack(resp)) => golfback::response_records(c, date, players, resp.data@),
        (Provider::ForeUp, Outcome::ForeUp(tts)) => foreup::response_records(c, tts@),
        (Provider::TeeItUp, Outcome::TeeItUp(resp)) => teeitup::response_records(c, date, resp.teetimes@),
        _ => seq![],
    }
}

/// The records of all jobs, segment after segment in job order.
pub open spec fn all_records(
    courses: Seq<GolfCourse>,
    date: Seq<char>,
    players: u32,
    jobs: Seq<Job>,
    outcomes: Seq<Outcome>,
) -> Seq<TeeTimeView>
    decreases jobs.len(),
{
    if jobs.len() == 0 || outcomes.len() == 0 {
        seq![]
    } else {
        all_records(courses, date, players, jobs.drop_last(), outcomes.drop_last())
            + outcome_records(jobs.last().provider, courses[jobs.last().course as int], date, players, outcomes.last())
    }
}

fn has_source(c: &GolfCourse, t: &str) -> (r: bool)
    ensures
        r == (c.source@ == t@),
{
    c.source == String::from_str(t)
}

fn provider_jobs(p: Provider, courses: &Vec<GolfCourse>, date: &str, players: u32, jobs: &mut Vec<Job>)
    requires
        forall|k: int| 0 <= k < old(jobs)@.len() ==> (#[trigger] old(jobs)@[k]).course < courses@.len()
            && job_request_ok(old(jobs)@[k], courses@[old(jobs)@[k].course as int], date@, players),
    ensures
        job_pairs(final(jobs)@) == job_pairs(old(jobs)@) + provider_pairs(p, courses@, date@),
        forall|k: int| 0 <= k < final(jobs)@.len() ==> (#[trigger] final(jobs)@[k]).course < courses@.len()
            && job_request_ok(final(jobs)@[k], courses@[final(jobs)@[k].course as int], date@, players),
{
    proof {
        reveal_strlit("bookateetime");
        reveal_strlit("golfback");
        reveal_strlit("foreup");
        reveal_strlit("teeitup");
    }
    let t = match p {
        Provider::BookATeeTime => "bookateetime",
        Provider::GolfBack => "golfback",
        Provider::ForeUp => "foreup",
        Provider::TeeItUp => "teeitup",
    };
    assert(t@ =~= tag(p));
    let ghost start = job_pairs(jobs@);
    let mut i: usize = 0;
    while i < courses.len()
        invariant
            i <= courses@.len(),
            t@ == tag(p),
            job_pairs(jobs@) == start + provider_pairs(p, courses@.take(i as int), date@),
            forall|k: int| 0 <= k < jobs@.len() ==> (#[trigger] jobs@[k]).course < courses@.len()
                && job_request_ok(jobs@[k], courses@[jobs@[k].course as int], date@, players),
        decreases courses@.len() - i,
    {
        let c = &courses[i];
        assert(courses@.take(i + 1).drop_last() =~= courses@.take(i as int));
        let ghost before = jobs@;
        if has_source(c, t) {
            let req = match p {
                Provider::BookATeeTime => Some(book_a_tee_time::request(c, date, players)),
                Provider::GolfBack => Some(golfback::request(c, date, players)),
                Provider::ForeUp => foreup::request(c, date, players),
                Provider::TeeItUp => teeitup::request(c, date),
            };
            if let Some(request) = req {
                jobs.push(Job { provider: p, course: i, request });
                assert(job_pairs(jobs@) =~= job_pairs(before).push((p, i as int)));
            }
        }
        i = i + 1;
    }
    assert(courses@.take(i as int) =~= courses@);
}

/// The jobs of a search: for each provider in report order, each eligible
/// course in catalog order, with the request that provider builds for it.
pub fn plan_jobs(courses: &Vec<GolfCourse>, date: &str, players: u32) -> (r: Vec<Job>)
    ensures
        job_pairs(r@) == planned_pairs(courses@, date@),
        forall|k: int| 0 <= k < r@.len() ==> (#[trigger] r@[k]).course < courses@.len()
            && job_request_ok(r@[k], courses@[r@[k].course as int], date@, players),
{
    let mut jobs: Vec<Job> = Vec::new();
    assert(job_pairs(jobs@) =~= seq![]);
    provider_jobs(Provider::BookATeeTime, courses, date, players, &mut jobs);
    provider_jobs(Provider::GolfBack, courses, date, players, &mut jobs);
    provider_jobs(Provider::ForeUp, courses, date, players, &mut jobs);
    provider_jobs(Provider::TeeItUp, courses, date, players, &mut jobs);
    jobs
}

/// The records one outcome gives for a job.
pub fn records_of_outcome(job: &Job, course: &GolfCourse, date: &str, players: u32, outcome: &Outcome) -> (r: Vec<TeeTime>)
    ensures
        views(r@) == outcome_records(job.provider, *course, date@, players, *outcome),
{
    match (job.provider, outcome) {
        (Provider::BookATeeTime, Outcome::Page(nodes)) => book_a_tee_time::records_from_nodes(course, nodes),
        (Provider::GolfBack, Outcome::GolfBack(resp)) => golfback::records_from(course, date, players, resp),
        (Provider::ForeUp, Outcome::ForeUp(tts)) => foreup::records_from(course, tts),
        (Provider::TeeItUp, Outcome::TeeItUp(resp)) => teeitup::records_from(course, date, resp),
        _ => {
            let r: Vec<TeeTime> = Vec::new();
            assert(views(r@) =~= seq![]);
            r
        },
    }
}

/// The records of a search: each job's records, job after job; a failed
/// job contributes nothing and never stops the others.
pub fn collect_records(
    courses: &Vec<GolfCourse>,
    date: &str,
    players: u32,
    jobs: &Vec<Job>,
    outcomes: &Vec<Outcome>,
) -> (r: Vec<TeeTime>)
    requires
        jobs@.len() == outcomes@.len(),
        forall|k: int| 0 <= k < jobs@.len() ==> (#[trigger] jobs@[k]).course < courses@.len(),
    ensures
        views(r@) == all_records(courses@, date@, players, jobs@, outcomes@),
{
    let mut out: Vec<TeeTime> = Vec::new();
    let mut i: usize = 0;
    assert(views(out@) =~= seq![]);
    while i < jobs.len()
        invariant
            i <= jobs@.len(),
            jobs@.len() == outcomes@.len(),
            forall|k: int| 0 <= k < jobs@.len() ==> (#[trigger] jobs@[k]).course < courses@.len(),
            views(out@) == all_records(courses@, date@, players, jobs@.take(i as int), outcomes@.take(i as int)),
        decreases jobs@.len() - i,
    {
        let job = &jobs[i];
        let mut seg = records_of_outcome(job, &courses[job.course], date, players, &outcomes[i]);
        let ghost before = views(out@);
        let ghost seg_v = views(seg@);
        out.append(&mut seg);
        assert(views(out@) =~= before + seg_v);
        assert(jobs@.take(i + 1).drop_last() =~= jobs@.take(i as int));
        assert(outcomes@.take(i + 1).drop_last() =~= outcomes@.take(i as int));
        i = i + 1;
    }
    assert(jobs@.take(i as int) =~= jobs@);
    assert(outcomes@.take(i as int) =~= outcomes@);
    out
}

proof fn lemma_provider_pairs_sorted(p: Provider, courses: Seq<GolfCourse>, date: Seq<char>)
    ensures
        forall|i: int| 0 <= i < provider_pairs(p, courses, date).len() ==> {
            let e = #[trigger] provider_pairs(p, courses, date)[i];
            e.0 == p && 0 <= e.1 < courses.len() && eligible(p, courses[e.1], date)
        },
        forall|i: int, j: int| 0 <= i < j < provider_pairs(p, courses, date).len() ==>
            (#[trigger] provider_pairs(p, courses, date)[i]).1 < (#[trigger] provider_pairs(p, courses, date)[j]).1,
    decreases courses.len(),
{
    if courses.len() > 0 {
        lemma_provider_pairs_sorted(p, courses.drop_last(), date);
        let rest = provider_pairs(p, courses.drop_last(), date);
        assert forall|i: int| 0 <= i < rest.len() implies courses[rest[i].1] == courses.drop_last()[rest[i].1] by {}
    }
}

/// Results come provider by provider in the fixed report order (HTML page,
/// JSON POST, JSON GET, verbose JSON), and within a provider in catalog
/// order; every planned course is one the provider can serve. Since the
/// records are assembled by job index, the order in which answers arrive
/// plays no part.
pub proof fn lemma_report_order(courses: Seq<GolfCourse>, date: Seq<char>)
    ensures
        forall|i: int, j: int| 0 <= i < j < planned_pairs(courses, date).len() ==>
            rank((#[trigger] planned_pairs(courses, date)[i]).0) < rank((#[trigger] planned_pairs(courses, date)[j]).0)
            || (planned_pairs(courses, date)[i].0 == planned_pairs(courses, date)[j].0
                && planned_pairs(courses, date)[i].1 < planned_pairs(courses, date)[j].1),
        forall|i: int| 0 <= i < planned_pairs(courses, date).len() ==> {
            let e = #[trigger] planned_pairs(courses, date)[i];
            0 <= e.1 < courses.len() && eligible(e.0, courses[e.1], date)
        },
{
    let a = provider_pairs(Provider::BookATeeTime, courses, date);
    let b = provider_pairs(Provider::GolfBack, courses, date);
    let c = provider_pairs(Provider::ForeUp, courses, date);
    let d = provider_pairs(Provider::TeeItUp, courses, date);
    lemma_provider_pairs_sorted(Provider::BookATeeTime, courses, date);
    lemma_provider_pairs_sorted(Provider::GolfBack, courses, date);
    lemma_provider_pairs_sorted(Provider::ForeUp, courses, date);
    lemma_provider_pairs_sorted(Provider::TeeItUp, courses, date);
    let s = planned_pairs(courses, date);
    assert(s == a + b + c + d);
    let la = a.len() as int;
    let lb = la + b.len();
    let lc = lb + c.len();
    assert forall|i: int| 0 <= i < s.len() implies
        (i < la ==> s[i] == a[i]) && (la <= i < lb ==> s[i] == b[i - la])
        && (lb <= i < lc ==> s[i] == c[i - lb]) && (lc <= i ==> s[i] == d[i - lc]) by {}
}

/// All records of two job lists run one after the other are those of the
/// first list followed by those of the second.
pub proof fn lemma_all_records_split(
    courses: Seq<GolfCourse>,
    date: Seq<char>,
    players: u32,
    j1: Seq<Job>,
    o1: Seq<Outcome>,
    j2: Seq<Job>,
    o2: Seq<Outcome>,
)
    requires
        j1.len() == o1.len(),
        j2.len() == o2.len(),
    ensures
        all_records(courses, date, players, j1 + j2, o1 + o2)
            == all_records(courses, date, players, j1, o1) + all_records(courses, date, players, j2, o2),
    decreases j2.len(),
{
    if j2.len() == 0 {
        assert(j1 + j2 =~= j1);
        assert(o1 + o2 =~= o1);
        assert(all_records(courses, date, players, j1, o1) + seq![] =~= all_records(courses, date, players, j1, o1));
    } else {
        lemma_all_records_split(courses, date, players, j1, o1, j2.drop_last(), o2.drop_last());
        assert((j1 + j2).drop_last() =~= j1 + j2.drop_last());
        assert((o1 + o2).drop_last() =~= o1 + o2.drop_last());
        assert((j1 + j2).last() == j2.last());
        assert((o1 + o2).last() == o2.last());
        assert(all_records(courses, date, players, j1 + j2, o1 + o2) =~= all_records(courses, date, players, j1, o1)
            + all_records(courses, date, players, j2, o2));
    }
}

/// A failed job contributes no records and leaves every other job's records
/// where they were: the result is what the jobs before it give, followed by
/// what the jobs after it give.
pub proof fn lemma_failure_isolated(
    courses: Seq<GolfCourse>,
    date: Seq<char>,
    players: u32,
    jobs: Seq<Job>,
    outcomes: Seq<Outcome>,
    k: int,
)
    requires
        jobs.len() == outcomes.len(),
        0 <= k < jobs.len(),
    ensures
        all_records(courses, date, players, jobs, outcomes.update(k, Outcome::Failed))
            == all_records(courses, date, players, jobs.take(k), outcomes.take(k))
            + all_records(courses, date, players, jobs.skip(k + 1), outcomes.skip(k + 1)),
{
    let o = outcomes.update(k, Outcome::Failed);
    let jm = seq![jobs[k]];
    let om = seq![Outcome::Failed];
    assert(jobs =~= jobs.take(k) + jm + jobs.skip(k + 1));
    assert(o =~= outcomes.take(k) + om + outcomes.skip(k + 1));
    lemma_all_records_split(courses, date, players, jobs.take(k) + jm, outcomes.take(k) + om, jobs.skip(k + 1), outcomes.skip(k + 1));
    lemma_all_records_split(courses, date, players, jobs.take(k), outcomes.take(k), jm, om);
    assert(jm.drop_last() =~= seq![]);
    assert(om.drop_last() =~= seq![]);
    assert(om.last() == Outcome::Failed);
    assert(outcome_records(jobs[k].provider, courses[jobs[k].course as int], date, players, Outcome::Failed) =~= seq![]);
    assert(all_records(courses, date, players, jm.drop_last(), om.drop_last()) =~= seq![]);
    assert(all_records(courses, date, players, jm, om) =~= seq![]);
    assert(all_records(courses, date, players, jobs.take(k), outcomes.take(k)) + seq![]
        =~= all_records(courses, date, players, jobs.take(k), outcomes.take(k)));
}

} // verus!
