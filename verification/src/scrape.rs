//! One scrape: from the list of containers to the report.
//!
//! The caller lists the containers, runs the tasks that it is told to run, and
//! hands back what came of them, until it holds the report or an error.
use crate::config::initial_state;
use crate::containers::{
    container_ids, containers_countable, counts_fit, law_containers_counted_by_state,
    law_countable_lists, law_known_containers_run, running_containers, Container, ContainerView,
};
use crate::logs::{custom_marks, marked, LogContent};
use crate::metrics::{
    views, BaseMetrics, BaseMetricsView, InspectMetric, InspectMetricView, LogMetric,
    LogMetricView, Metrics, MetricsView,
};
use crate::pattern::regex_is_match;
use crate::record::{
    any_lost, has_lost, law_logs_summed, law_lost_among_outcomes, log_sums_fit, logs_summable,
    summed, Outcome,
};
use crate::report_laws::{
    law_logs_off_not_reported, law_report_begins_with_counts, shows_count,
};
use crate::text::{text_lines, texts};
use regex::Regex;
use vstd::prelude::*;

verus! {

/// A stream of the logs of one container.
#[derive(Debug)]
pub struct LogRequest {
    pub id: String,
    pub stdout: bool,
    pub stderr: bool,
}

#[verifier::ext_equal]
pub struct LogRequestView {
    pub id: Seq<char>,
    pub stdout: bool,
    pub stderr: bool,
}

impl View for LogRequest {
    type V = LogRequestView;

    open spec fn view(&self) -> LogRequestView {
        LogRequestView { id: self.id@, stdout: self.stdout, stderr: self.stderr }
    }
}

/// What has happened.
#[derive(Debug)]
pub enum ScrapeEvent {
    /// The containers were listed.
    Listed(Vec<Container>),
    /// The containers could not be listed.
    ListFailed,
    /// The usage of each container was asked for.
    Stats(Vec<Outcome<BaseMetrics>>),
    /// Both streams of the logs of each container were counted.
    Logs(Vec<Outcome<LogMetric>>),
    /// The start time of each container was asked for.
    Inspected(Vec<Outcome<InspectMetric>>),
}

pub enum ScrapeEventView {
    Listed(Seq<ContainerView>),
    ListFailed,
    Stats(Seq<Outcome<BaseMetricsView>>),
    Logs(Seq<Outcome<LogMetricView>>),
    Inspected(Seq<Outcome<InspectMetricView>>),
}

impl View for ScrapeEvent {
    type V = ScrapeEventView;

    open spec fn view(&self) -> ScrapeEventView {
        match self {
            ScrapeEvent::Listed(containers) => ScrapeEventView::Listed(views(containers@)),
            ScrapeEvent::ListFailed => ScrapeEventView::ListFailed,
            ScrapeEvent::Stats(outcomes) => ScrapeEventView::Stats(views(outcomes@)),
            ScrapeEvent::Logs(outcomes) => ScrapeEventView::Logs(views(outcomes@)),
            ScrapeEvent::Inspected(outcomes) => ScrapeEventView::Inspected(views(outcomes@)),
        }
    }
}

/// What is to be done next.
#[derive(Debug)]
pub enum ScrapeStep {
    /// Ask for the usage of each of these containers.
    FetchStats(Vec<String>),
    /// Count each of these streams.
    CountLogs(Vec<LogRequest>),
    /// Ask for the start time of each of these containers.
    Inspect(Vec<String>),
    /// The scrape is complete. These are the lines of the report.
    Report(Vec<String>),
    /// The scrape has failed.
    Fail,
}

pub enum ScrapeStepView {
    FetchStats(Seq<Seq<char>>),
    CountLogs(Seq<LogRequestView>),
    Inspect(Seq<Seq<char>>),
    Report(Seq<Seq<char>>),
    Fail,
}

impl View for ScrapeStep {
    type V = ScrapeStepView;

    open spec fn view(&self) -> ScrapeStepView {
        match self {
            ScrapeStep::FetchStats(ids) => ScrapeStepView::FetchStats(texts(ids@)),
            ScrapeStep::CountLogs(requests) => ScrapeStepView::CountLogs(views(requests@)),
            ScrapeStep::Inspect(ids) => ScrapeStepView::Inspect(texts(ids@)),
            ScrapeStep::Report(lines) => ScrapeStepView::Report(texts(lines@)),
            ScrapeStep::Fail => ScrapeStepView::Fail,
        }
    }
}

/// For each container its standard output, then its standard error.
pub open spec fn log_requests_for(ids: Seq<Seq<char>>) -> Seq<LogRequestView> {
    Seq::new(
        2 * ids.len(),
        |i: int|
            LogRequestView { id: ids[i / 2], stdout: i % 2 == 0, stderr: i % 2 == 1 },
    )
}

impl MetricsView {
    /// Whether the sums that an event calls for fit into their counters.
    pub open spec fn accepts(self, event: ScrapeEventView) -> bool {
        match event {
            ScrapeEventView::Listed(containers) => counts_fit(containers),
            ScrapeEventView::Logs(outcomes) => any_lost(outcomes) || log_sums_fit(
                outcomes,
                self.get_log_custom_metrics,
            ),
            _ => true,
        }
    }

    /// The state after an event.
    pub open spec fn after(self, event: ScrapeEventView) -> MetricsView {
        match event {
            ScrapeEventView::Listed(containers) => self.with_containers(containers),
            ScrapeEventView::ListFailed => self,
            ScrapeEventView::Stats(outcomes) => self.with_base(outcomes),
            ScrapeEventView::Logs(outcomes) => self.with_logs(outcomes),
            ScrapeEventView::Inspected(outcomes) => self.with_inspections(outcomes),
        }
    }

    /// What is to be done after an event. Logs are only counted where they are
    /// asked for, and a lost task fails the scrape.
    pub open spec fn step(self, event: ScrapeEventView, hostname: Seq<char>) -> ScrapeStepView {
        let next = self.after(event);
        match event {
            ScrapeEventView::Listed(_) => ScrapeStepView::FetchStats(next.ids),
            ScrapeEventView::ListFailed => ScrapeStepView::Fail,
            ScrapeEventView::Stats(outcomes) => if any_lost(outcomes) {
                ScrapeStepView::Fail
            } else if next.get_log_metrics {
                ScrapeStepView::CountLogs(log_requests_for(next.ids))
            } else {
                ScrapeStepView::Inspect(next.ids)
            },
            ScrapeEventView::Logs(outcomes) => if any_lost(outcomes) {
                ScrapeStepView::Fail
            } else {
                ScrapeStepView::Inspect(next.ids)
            },
            ScrapeEventView::Inspected(outcomes) => if any_lost(outcomes) {
                ScrapeStepView::Fail
            } else {
                ScrapeStepView::Report(next.report(hostname))
            },
        }
    }
}

fn copy_ids(ids: &Vec<String>) -> (copy: Vec<String>)
    ensures
        texts(copy@) == texts(ids@),
{
    let mut copy: Vec<String> = Vec::new();
    for i in 0..ids.len()
        invariant
            texts(copy@) == texts(ids@).take(i as int),
    {
        let ghost before = copy@;
        copy.push(ids[i].clone());
        assert(texts(copy@) =~= texts(before).push(ids@[i as int]@));
        assert(texts(ids@).take(i + 1) =~= texts(ids@).take(i as int).push(ids@[i as int]@));
    }
    assert(texts(ids@).take(ids@.len() as int) =~= texts(ids@));
    copy
}

proof fn lemma_request_pair(ids: Seq<Seq<char>>, i: int)
    requires
        0 <= i < ids.len(),
    ensures
        log_requests_for(ids).len() == 2 * ids.len(),
        log_requests_for(ids)[2 * i] == (LogRequestView {
            id: ids[i],
            stdout: true,
            stderr: false,
        }),
        log_requests_for(ids)[2 * i + 1] == (LogRequestView {
            id: ids[i],
            stdout: false,
            stderr: true,
        }),
{
}

/// Whether the requests are for the standard output and then the standard error
/// of each container.
pub open spec fn request_both_streams(requests: Seq<LogRequest>, ids: Seq<String>) -> bool {
    &&& requests.len() == 2 * ids.len()
    &&& forall|i: int|
        0 <= i < ids.len() ==> {
            &&& requests[2 * i].id@ == (#[trigger] ids[i])@
            &&& requests[2 * i].stdout
            &&& !requests[2 * i].stderr
            &&& requests[2 * i + 1].id@ == ids[i]@
            &&& !requests[2 * i + 1].stdout
            &&& requests[2 * i + 1].stderr
        }
}

proof fn lemma_requests_in_pairs(requests: Seq<LogRequest>, ids: Seq<String>)
    requires
        views(requests) == log_requests_for(texts(ids)),
    ensures
        request_both_streams(requests, ids),
{
    assert(views(requests).len() == requests.len());
    assert forall|i: int| 0 <= i < ids.len() implies {
        &&& requests[2 * i].id@ == (#[trigger] ids[i])@
        &&& requests[2 * i].stdout
        &&& !requests[2 * i].stderr
        &&& requests[2 * i + 1].id@ == ids[i]@
        &&& !requests[2 * i + 1].stdout
        &&& requests[2 * i + 1].stderr
    } by {
        lemma_request_pair(texts(ids), i);
        assert(views(requests)[2 * i] == requests[2 * i]@);
        assert(views(requests)[2 * i + 1] == requests[2 * i + 1]@);
    }
}

fn log_requests(ids: &Vec<String>) -> (requests: Vec<LogRequest>)
    ensures
        views(requests@) == log_requests_for(texts(ids@)),
        request_both_streams(requests@, ids@),
{
    let mut requests: Vec<LogRequest> = Vec::new();
    let ghost mut all = views(requests@);
    assert(all =~= log_requests_for(texts(ids@)).take(0));
    for i in 0..ids.len()
        invariant
            all == views(requests@),
            all.len() == 2 * i,
            all == log_requests_for(texts(ids@)).take(2 * i),
    {
        let ghost expected = log_requests_for(texts(ids@));
        proof {
            lemma_request_pair(texts(ids@), i as int);
        }
        requests.push(LogRequest { id: ids[i].clone(), stdout: true, stderr: false });
        requests.push(LogRequest { id: ids[i].clone(), stdout: false, stderr: true });
        proof {
            let first = LogRequestView { id: ids@[i as int]@, stdout: true, stderr: false };
            let second = LogRequestView { id: ids@[i as int]@, stdout: false, stderr: true };
            assert(views(requests@) =~= all.push(first).push(second));
            assert(expected.take(2 * (i + 1)) =~= expected.take(2 * i).push(first).push(second));
            all = views(requests@);
        }
    }
    proof {
        let expected = log_requests_for(texts(ids@));
        assert(expected.take(2 * ids@.len() as int) =~= expected);
        lemma_requests_in_pairs(requests@, ids@);
    }
    requests
}

impl Metrics {
    /// Whether the sums that an event calls for fit into their counters.
    pub fn accepts(&self, event: &ScrapeEvent) -> (fit: bool)
        ensures
            fit == self@.accepts(event@),
    {
        match event {
            ScrapeEvent::Listed(containers) => containers_countable(containers),
            ScrapeEvent::Logs(outcomes) => has_lost(outcomes) || logs_summable(
                outcomes,
                self.get_log_custom_metrics,
            ),
            _ => true,
        }
    }

    /// Counts the lines of the log that was read for a request, under the
    /// settings of this exporter.
    pub fn count_request(&self, request: &LogRequest, content: &LogContent) -> (metric: LogMetric)
        ensures
            metric@ == (LogMetricView {
                id: request.id@,
                stdout: request.stdout,
                stderr: request.stderr,
                value: text_lines(content.text@).len() as i64,
                custom_value: marked(
                    custom_marks(
                        text_lines(content.text@),
                        self@.log_regex,
                        self@.get_log_custom_metrics,
                    ),
                ) as i64,
            }),
            metric.id@ == request.id@,
            metric.stdout == request.stdout,
            metric.stderr == request.stderr,
            metric.value == text_lines(content.text@).len() as i64,
            self.get_log_custom_metrics ==> (self.log_regex matches Some(regex)
                ==> metric.custom_value == text_lines(content.text@).filter(
                |line: Seq<char>| regex_is_match(regex, line),
            ).len() as i64),
            !self.get_log_custom_metrics || self.log_regex is None ==> metric.custom_value == 0,
    {
        Metrics::get_logs_count(
            request.id.as_str(),
            request.stdout,
            request.stderr,
            content,
            &self.log_regex,
            self.get_log_custom_metrics,
        )
    }

    /// Takes in an event of a scrape and says what is to be done next.
    pub fn get_metrics(&mut self, event: ScrapeEvent, hostname: &str) -> (step: ScrapeStep)
        requires
            old(self)@.accepts(event@),
        ensures
            final(self)@ == old(self)@.after(event@),
            step@ == old(self)@.step(event@, hostname@),
            step matches ScrapeStep::FetchStats(ids) ==> texts(ids@) == texts(final(self).ids@),
            step matches ScrapeStep::CountLogs(requests) ==> request_both_streams(
                requests@,
                final(self).ids@,
            ),
            step matches ScrapeStep::Inspect(ids) ==> texts(ids@) == texts(final(self).ids@),
            event is Listed ==> step is FetchStats,
            event is ListFailed ==> step is Fail,
    {
        match event {
            ScrapeEvent::Listed(containers) => {
                self.get_containers(&containers);
                ScrapeStep::FetchStats(copy_ids(&self.ids))
            },
            ScrapeEvent::ListFailed => ScrapeStep::Fail,
            ScrapeEvent::Stats(outcomes) => {
                if !self.record_base(outcomes) {
                    ScrapeStep::Fail
                } else if self.get_log_metrics {
                    ScrapeStep::CountLogs(log_requests(&self.ids))
                } else {
                    ScrapeStep::Inspect(copy_ids(&self.ids))
                }
            },
            ScrapeEvent::Logs(outcomes) => {
                if !self.record_logs(outcomes) {
                    ScrapeStep::Fail
                } else {
                    ScrapeStep::Inspect(copy_ids(&self.ids))
                }
            },
            ScrapeEvent::Inspected(outcomes) => {
                if !self.record_inspections(outcomes) {
                    ScrapeStep::Fail
                } else {
                    ScrapeStep::Report(self.report(hostname))
                }
            },
        }
    }
}

// ---------------------------------------------------------------------------
// Laws.

/// What holds of the state before and after every event: the containers that
/// are listed are those that are known, all of them run, and the log lines of
/// each container are summed over both streams.
pub open spec fn consistent(state: MetricsView) -> bool {
    &&& state.ids.len() == state.containers_up
    &&& forall|id: Seq<char>| #[trigger]
        state.info.contains_key(id) <==> state.ids.contains(id)
    &&& forall|id: Seq<char>| #[trigger]
        state.info.contains_key(id) ==> state.info[id].state == "running"@
    &&& forall|id: Seq<char>| #[trigger]
        state.log_metrics.contains_key(id) ==> summed(
            state.log_metrics[id],
            state.get_log_custom_metrics,
        )
}

/// An exporter that has not been asked for a report yet is consistent.
pub proof fn law_initially_consistent(
    get_log_metrics: bool,
    get_log_custom_metrics: bool,
    log_regex: Option<Regex>,
)
    ensures
        consistent(initial_state(get_log_metrics, get_log_custom_metrics, log_regex)),
{
}

/// Every event keeps the state consistent.
pub proof fn law_consistency_kept(state: MetricsView, event: ScrapeEventView)
    requires
        consistent(state),
        state.accepts(event),
    ensures
        consistent(state.after(event)),
{
    let next = state.after(event);
    match event {
        ScrapeEventView::Listed(containers) => {
            let running = running_containers(containers);
            assert forall|i: int| 0 <= i < running.len() implies (#[trigger] running[i]).running() by {
                containers.lemma_filter_pred(|c: ContainerView| c.running(), i);
            }
            assert forall|id: Seq<char>| #[trigger]
                next.info.contains_key(id) == next.ids.contains(id) && (next.info.contains_key(id)
                    ==> next.info[id].state == "running"@) by {
                law_known_containers_run(running, id);
            }
        },
        ScrapeEventView::Logs(outcomes) => {
            if !any_lost(outcomes) {
                assert forall|id: Seq<char>| #[trigger]
                    next.log_metrics.contains_key(id) implies summed(
                    next.log_metrics[id],
                    next.get_log_custom_metrics,
                ) by {
                    law_logs_summed(outcomes, state.get_log_custom_metrics, id);
                }
            }
        },
        _ => {},
    }
}

/// An event that fails the scrape leaves the state as it was.
pub proof fn law_failure_keeps_state(
    state: MetricsView,
    event: ScrapeEventView,
    hostname: Seq<char>,
)
    requires
        state.step(event, hostname) is Fail,
    ensures
        state.after(event) == state,
{
}

/// What came back in a scrape in which no task was lost.
#[verifier::ext_equal]
pub struct Scrape {
    pub listed: Seq<ContainerView>,
    pub stats: Seq<Outcome<BaseMetricsView>>,
    pub logs: Seq<Outcome<LogMetricView>>,
    pub inspected: Seq<Outcome<InspectMetricView>>,
}

impl Scrape {
    /// No task was lost. Logs only matter where they are counted.
    pub open spec fn complete(self, state: MetricsView) -> bool {
        &&& !any_lost(self.stats)
        &&& state.get_log_metrics ==> !any_lost(self.logs)
        &&& !any_lost(self.inspected)
    }

    pub open spec fn after_list(self, state: MetricsView) -> MetricsView {
        state.after(ScrapeEventView::Listed(self.listed))
    }

    pub open spec fn after_stats(self, state: MetricsView) -> MetricsView {
        self.after_list(state).after(ScrapeEventView::Stats(self.stats))
    }

    pub open spec fn after_logs(self, state: MetricsView) -> MetricsView {
        if state.get_log_metrics {
            self.after_stats(state).after(ScrapeEventView::Logs(self.logs))
        } else {
            self.after_stats(state)
        }
    }

    /// The state after the whole scrape.
    pub open spec fn end(self, state: MetricsView) -> MetricsView {
        self.after_logs(state).after(ScrapeEventView::Inspected(self.inspected))
    }
}

/// A scrape in which no task is lost asks for the usage of every running
/// container, for both streams of its logs where they are asked for, and for
/// its start, in this order, and ends in the report.
pub proof fn law_scrape_ends_in_report(state: MetricsView, scrape: Scrape, hostname: Seq<char>)
    requires
        scrape.complete(state),
    ensures
        ({
            let ids = container_ids(running_containers(scrape.listed));
            &&& state.step(ScrapeEventView::Listed(scrape.listed), hostname)
                == ScrapeStepView::FetchStats(ids)
            &&& scrape.after_list(state).step(ScrapeEventView::Stats(scrape.stats), hostname)
                == if state.get_log_metrics {
                ScrapeStepView::CountLogs(log_requests_for(ids))
            } else {
                ScrapeStepView::Inspect(ids)
            }
            &&& state.get_log_metrics ==> scrape.after_stats(state).step(
                ScrapeEventView::Logs(scrape.logs),
                hostname,
            ) == ScrapeStepView::Inspect(ids)
            &&& scrape.after_logs(state).step(
                ScrapeEventView::Inspected(scrape.inspected),
                hostname,
            ) == ScrapeStepView::Report(scrape.end(state).report(hostname))
        }),
{
}

/// A report shows what its own scrape brought and nothing else: whatever was
/// known before, the same scrape under the same settings makes the same report.
pub proof fn law_report_is_fresh(
    one: MetricsView,
    other: MetricsView,
    scrape: Scrape,
    hostname: Seq<char>,
)
    requires
        one.get_log_metrics == other.get_log_metrics,
        one.get_log_custom_metrics == other.get_log_custom_metrics,
        one.log_regex == other.log_regex,
        scrape.complete(one),
    ensures
        scrape.end(one).report(hostname) == scrape.end(other).report(hostname),
{
    let a = scrape.end(one);
    let b = scrape.end(other);
    if one.get_log_metrics {
        assert(a == b);
    } else {
        law_logs_off_not_reported(a, b.log_metrics, hostname);
        assert((MetricsView { log_metrics: b.log_metrics, ..a }) == b);
    }
}

/// The view of a request shows each of its fields.
pub proof fn law_request_shown(request: LogRequest)
    ensures
        request@.id == request.id@,
        request@.stdout == request.stdout,
        request@.stderr == request.stderr,
{
}

/// The view of an event is of the same kind and shows what the event carries,
/// item by item.
pub proof fn law_event_shown(event: ScrapeEvent, i: int)
    ensures
        event matches ScrapeEvent::Listed(containers) ==> (
        event@ matches ScrapeEventView::Listed(shown) && shown.len() == containers@.len() && (0 <= i
            < containers@.len() ==> shown[i] == containers@[i]@)),
        event is ListFailed ==> event@ is ListFailed,
        event matches ScrapeEvent::Stats(outcomes) ==> (
        event@ matches ScrapeEventView::Stats(shown) && shown.len() == outcomes@.len() && (0 <= i
            < outcomes@.len() ==> shown[i] == outcomes@[i]@)),
        event matches ScrapeEvent::Logs(outcomes) ==> (
        event@ matches ScrapeEventView::Logs(shown) && shown.len() == outcomes@.len() && (0 <= i
            < outcomes@.len() ==> shown[i] == outcomes@[i]@)),
        event matches ScrapeEvent::Inspected(outcomes) ==> (
        event@ matches ScrapeEventView::Inspected(shown) && shown.len() == outcomes@.len() && (0
            <= i < outcomes@.len() ==> shown[i] == outcomes@[i]@)),
{
}

/// The view of a step is of the same kind and shows what the step carries, item
/// by item.
pub proof fn law_step_shown(step: ScrapeStep, i: int)
    ensures
        step matches ScrapeStep::FetchStats(ids) ==> (
        step@ matches ScrapeStepView::FetchStats(shown) && shown.len() == ids@.len() && (0 <= i
            < ids@.len() ==> shown[i] == ids@[i]@)),
        step matches ScrapeStep::CountLogs(requests) ==> (
        step@ matches ScrapeStepView::CountLogs(shown) && shown.len() == requests@.len() && (0 <= i
            < requests@.len() ==> shown[i] == requests@[i]@)),
        step matches ScrapeStep::Inspect(ids) ==> (step@ matches ScrapeStepView::Inspect(shown)
            && shown.len() == ids@.len() && (0 <= i < ids@.len() ==> shown[i] == ids@[i]@)),
        step matches ScrapeStep::Report(lines) ==> (step@ matches ScrapeStepView::Report(shown)
            && shown.len() == lines@.len() && (0 <= i < lines@.len() ==> shown[i] == lines@[i]@)),
        step is Fail ==> step@ is Fail,
{
}

/// Where logs are asked for, both streams of every listed container are: for
/// each identifier its standard output, and then its standard error.
pub proof fn law_both_streams_requested(
    state: MetricsView,
    outcomes: Seq<Outcome<BaseMetricsView>>,
    hostname: Seq<char>,
)
    requires
        state.get_log_metrics,
        !outcomes.contains(Outcome::<BaseMetricsView>::Lost),
    ensures
        state.step(ScrapeEventView::Stats(outcomes), hostname) matches ScrapeStepView::CountLogs(
            requests,
        ) && requests.len() == 2 * state.ids.len() && forall|i: int|
            0 <= i < state.ids.len() ==> {
                &&& requests[2 * i].id == #[trigger] state.ids[i]
                &&& requests[2 * i].stdout
                &&& !requests[2 * i].stderr
                &&& requests[2 * i + 1].id == state.ids[i]
                &&& !requests[2 * i + 1].stdout
                &&& requests[2 * i + 1].stderr
            },
{
    law_lost_among_outcomes(outcomes);
}

/// A list of containers is followed by asking for the usage of those that are
/// known to run, a list that could not be had by a failure.
pub proof fn law_step_after_list(
    state: MetricsView,
    containers: Seq<ContainerView>,
    hostname: Seq<char>,
)
    ensures
        state.step(ScrapeEventView::Listed(containers), hostname) == ScrapeStepView::FetchStats(
            state.with_containers(containers).ids,
        ),
        state.after(ScrapeEventView::Listed(containers)) == state.with_containers(containers),
        state.step(ScrapeEventView::ListFailed, hostname) == ScrapeStepView::Fail,
        state.after(ScrapeEventView::ListFailed) == state,
{
}

/// Usage is followed by the logs where they are asked for, else by asking for
/// the starts of the listed containers; a lost task is followed by a failure.
pub proof fn law_step_after_usage(
    state: MetricsView,
    outcomes: Seq<Outcome<BaseMetricsView>>,
    hostname: Seq<char>,
)
    ensures
        ({
            let step = state.step(ScrapeEventView::Stats(outcomes), hostname);
            &&& outcomes.contains(Outcome::<BaseMetricsView>::Lost) ==> step
                == ScrapeStepView::Fail
            &&& !outcomes.contains(Outcome::<BaseMetricsView>::Lost) && state.get_log_metrics
                ==> step is CountLogs
            &&& !outcomes.contains(Outcome::<BaseMetricsView>::Lost) && !state.get_log_metrics
                ==> step == ScrapeStepView::Inspect(state.ids)
        }),
        state.after(ScrapeEventView::Stats(outcomes)) == state.with_base(outcomes),
{
    law_lost_among_outcomes(outcomes);
}

/// Logs are followed by asking for the starts of the listed containers; a lost
/// task is followed by a failure.
pub proof fn law_step_after_logs(
    state: MetricsView,
    outcomes: Seq<Outcome<LogMetricView>>,
    hostname: Seq<char>,
)
    ensures
        state.step(ScrapeEventView::Logs(outcomes), hostname) == if outcomes.contains(
            Outcome::<LogMetricView>::Lost,
        ) {
            ScrapeStepView::Fail
        } else {
            ScrapeStepView::Inspect(state.ids)
        },
        state.after(ScrapeEventView::Logs(outcomes)) == state.with_logs(outcomes),
{
    law_lost_among_outcomes(outcomes);
}

/// Starts are followed by the report on the state that they are part of; a lost
/// task is followed by a failure.
pub proof fn law_step_after_starts(
    state: MetricsView,
    outcomes: Seq<Outcome<InspectMetricView>>,
    hostname: Seq<char>,
)
    ensures
        state.step(ScrapeEventView::Inspected(outcomes), hostname) == if outcomes.contains(
            Outcome::<InspectMetricView>::Lost,
        ) {
            ScrapeStepView::Fail
        } else {
            ScrapeStepView::Report(state.with_inspections(outcomes).report(hostname))
        },
        state.after(ScrapeEventView::Inspected(outcomes)) == state.with_inspections(outcomes),
{
    law_lost_among_outcomes(outcomes);
}

/// An event is accepted unless a number that it calls for is too large: the
/// containers of a list, or the log lines of both streams of a container where
/// no task was lost.
pub proof fn law_accepted_events(state: MetricsView, event: ScrapeEventView)
    ensures
        match event {
            ScrapeEventView::Listed(containers) => state.accepts(event) <==> {
                &&& containers.filter(|c: ContainerView| c.state == Some("running"@)).len()
                    <= 0x7fff_ffff
                &&& containers.filter(|c: ContainerView| c.state != Some("running"@)).len()
                    <= 0x7fff_ffff
            },
            ScrapeEventView::Logs(outcomes) => state.accepts(event) == (outcomes.contains(
                Outcome::<LogMetricView>::Lost,
            ) || log_sums_fit(outcomes, state.get_log_custom_metrics)),
            _ => state.accepts(event),
        },
{
    match event {
        ScrapeEventView::Listed(containers) => {
            law_countable_lists(containers);
        },
        ScrapeEventView::Logs(outcomes) => {
            law_lost_among_outcomes(outcomes);
        },
        _ => {},
    }
}

/// The report at the end of a scrape shows how many of the containers that the
/// scrape listed have the state `running`, and how many have not.
pub proof fn law_scrape_reports_its_counts(
    state: MetricsView,
    scrape: Scrape,
    hostname: Seq<char>,
)
    requires
        scrape.complete(state),
    ensures
        scrape.after_logs(state).step(
            ScrapeEventView::Inspected(scrape.inspected),
            hostname,
        ) matches ScrapeStepView::Report(lines) && lines.len() >= 7 && shows_count(
            lines[2],
            "docker_containers_up_count"@,
            hostname,
            scrape.listed.filter(|c: ContainerView| c.state == Some("running"@)).len() as int,
        ) && shows_count(
            lines[5],
            "docker_containers_down_count"@,
            hostname,
            scrape.listed.filter(|c: ContainerView| c.state != Some("running"@)).len() as int,
        ),
{
    law_containers_counted_by_state(state, scrape.listed);
    law_report_begins_with_counts(scrape.end(state), hostname);
}

/// What is counted for a request is counted for its container and its streams:
/// all lines of the log, and those that the expression of the exporter matches,
/// where custom lines are asked for.
pub proof fn law_request_counted(
    metrics: &Metrics,
    request: &LogRequest,
    content: &LogContent,
    metric: LogMetric,
)
    requires
        call_ensures(Metrics::count_request, (metrics, request, content), metric),
    ensures
        metric.id@ == request.id@,
        metric.stdout == request.stdout,
        metric.stderr == request.stderr,
        metric.value == text_lines(content.text@).len() as i64,
        metrics.get_log_custom_metrics ==> (metrics.log_regex matches Some(regex)
            ==> metric.custom_value == text_lines(content.text@).filter(
            |line: Seq<char>| regex_is_match(regex, line),
        ).len() as i64),
        !metrics.get_log_custom_metrics || metrics.log_regex is None ==> metric.custom_value == 0,
{
}

/// An exporter says of an event whether it can take it in: it can take in all
/// but those whose numbers are too large.
pub proof fn law_acceptance_told(metrics: &Metrics, event: &ScrapeEvent, fit: bool)
    requires
        call_ensures(Metrics::accepts, (metrics, event), fit),
    ensures
        fit == metrics@.accepts(event@),
        *event is ListFailed || *event is Stats || *event is Inspected ==> fit,
        *event matches ScrapeEvent::Listed(containers) ==> containers@.len() <= 0x7fff_ffff ==> fit,
        *event matches ScrapeEvent::Logs(outcomes) ==> (exists|i: int|
            0 <= i < outcomes@.len() && #[trigger] outcomes@[i] is Lost) ==> fit,
{
    if let ScrapeEvent::Listed(containers) = event {
        let all = views(containers@);
        law_countable_lists(all);
        all.lemma_filter_len(|c: ContainerView| c.state == Some("running"@));
        all.lemma_filter_len(|c: ContainerView| c.state != Some("running"@));
    }
    if let ScrapeEvent::Logs(outcomes) = event {
        if exists|i: int| 0 <= i < outcomes@.len() && #[trigger] outcomes@[i] is Lost {
            let i = choose|i: int| 0 <= i < outcomes@.len() && #[trigger] outcomes@[i] is Lost;
            assert(views(outcomes@)[i] is Lost);
        }
    }
}

/// Once the usage is in and logs are asked for, the next step is to count both
/// streams of every container that is listed.
pub proof fn law_streams_asked_for(
    metrics: &mut Metrics,
    outcomes: Vec<Outcome<BaseMetrics>>,
    hostname: &str,
    step: ScrapeStep,
)
    requires
        call_ensures(
            Metrics::get_metrics,
            (metrics, ScrapeEvent::Stats(outcomes), hostname),
            step,
        ),
        old(metrics).get_log_metrics,
        forall|i: int| 0 <= i < outcomes@.len() ==> !(#[trigger] outcomes@[i] is Lost),
    ensures
        step matches ScrapeStep::CountLogs(requests) && requests@.len()
            == 2 * old(metrics).ids@.len() && forall|i: int|
            0 <= i < old(metrics).ids@.len() ==> {
                &&& requests@[2 * i].id@ == (#[trigger] old(metrics).ids@[i])@
                &&& requests@[2 * i].stdout
                &&& !requests@[2 * i].stderr
                &&& requests@[2 * i + 1].id@ == old(metrics).ids@[i]@
                &&& !requests@[2 * i + 1].stdout
                &&& requests@[2 * i + 1].stderr
            },
{
    let all = views(outcomes@);
    assert forall|i: int| 0 <= i < all.len() implies !(#[trigger] all[i] is Lost) by {
        assert(all[i] == outcomes@[i]@);
    }
    assert(!all.contains(Outcome::<BaseMetricsView>::Lost));
    law_both_streams_requested(old(metrics)@, all, hostname@);
    if let ScrapeStep::CountLogs(requests) = step {
        let ids = old(metrics).ids@;
        assert(views(requests@).len() == requests@.len());
        assert(texts(ids).len() == ids.len());
        assert forall|i: int| 0 <= i < ids.len() implies {
            &&& requests@[2 * i].id@ == (#[trigger] ids[i])@
            &&& requests@[2 * i].stdout
            &&& !requests@[2 * i].stderr
            &&& requests@[2 * i + 1].id@ == ids[i]@
            &&& !requests@[2 * i + 1].stdout
            &&& requests@[2 * i + 1].stderr
        } by {
            assert(old(metrics)@.ids[i] == ids[i]@);
            assert(views(requests@)[2 * i] == requests@[2 * i]@);
            assert(views(requests@)[2 * i + 1] == requests@[2 * i + 1]@);
        }
    }
}

/// Once the containers are listed, the next step is to ask for the usage of
/// those that are listed; where they could not be listed, the scrape fails and
/// all is left as it was.
pub proof fn law_usage_asked_for(
    metrics: &mut Metrics,
    event: ScrapeEvent,
    hostname: &str,
    step: ScrapeStep,
)
    requires
        call_ensures(Metrics::get_metrics, (metrics, event, hostname), step),
    ensures
        event is Listed ==> (step matches ScrapeStep::FetchStats(ids) && texts(ids@) == texts(
            final(metrics).ids@,
        )),
        event is ListFailed ==> step is Fail && final(metrics)@ == old(metrics)@,
        step is Fail ==> final(metrics)@ == old(metrics)@,
{
    if step is Fail {
        law_failure_keeps_state(old(metrics)@, event@, hostname@);
    }
}

} // verus!
