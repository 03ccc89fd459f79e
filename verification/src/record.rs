//! What the tasks that were run for the containers brought.
use crate::metrics::{
    value_views, views, BaseMetrics, BaseMetricsView, InspectMetric, InspectMetricView, LogMetric,
    LogMetricView, LogMetrics, Metrics, MetricsView,
};
use vstd::hash_map::StringHashMap;
use vstd::prelude::*;

verus! {

/// How a task that was run for one container ended.
#[derive(Debug)]
pub enum Outcome<T> {
    /// It brought a result.
    Done(T),
    /// It reported an error: the container goes without the result.
    Failed,
    /// It was broken off, and the whole round fails with it.
    Lost,
}

impl<T: View> View for Outcome<T> {
    type V = Outcome<T::V>;

    open spec fn view(&self) -> Outcome<T::V> {
        match self {
            Outcome::Done(value) => Outcome::Done(value@),
            Outcome::Failed => Outcome::Failed,
            Outcome::Lost => Outcome::Lost,
        }
    }
}

/// Whether a task was lost.
pub open spec fn any_lost<T>(outcomes: Seq<Outcome<T>>) -> bool {
    exists|i: int| 0 <= i < outcomes.len() && #[trigger] outcomes[i] is Lost
}

/// The usage by container; of two results for one container the later counts.
pub open spec fn base_results(outcomes: Seq<Outcome<BaseMetricsView>>) -> Map<
    Seq<char>,
    BaseMetricsView,
>
    decreases outcomes.len(),
{
    if outcomes.len() == 0 {
        Map::empty()
    } else {
        let before = base_results(outcomes.drop_last());
        match outcomes.last() {
            Outcome::Done(metrics) => before.insert(metrics.id, metrics),
            _ => before,
        }
    }
}

/// The start times by container; of two results for one container the later
/// counts.
pub open spec fn inspect_results(outcomes: Seq<Outcome<InspectMetricView>>) -> Map<Seq<char>, i64>
    decreases outcomes.len(),
{
    if outcomes.len() == 0 {
        Map::empty()
    } else {
        let before = inspect_results(outcomes.drop_last());
        match outcomes.last() {
            Outcome::Done(metric) => before.insert(metric.id, metric.started_date),
            _ => before,
        }
    }
}

/// Counts of which none has been made.
pub open spec fn no_logs() -> LogMetrics {
    LogMetrics {
        stdout: 0,
        stderr: 0,
        std_all: 0,
        stderr_custom: 0,
        stdout_custom: 0,
        std_custom: 0,
    }
}

/// The counts of a container once those of one of its streams are in. The
/// custom lines of the standard output are kept under `stderr_custom` and those
/// of the standard error under `stdout_custom`; only their sum is reported.
pub open spec fn with_stream(counts: LogMetrics, metric: LogMetricView, custom: bool) -> LogMetrics {
    if metric.stdout {
        LogMetrics {
            stdout: metric.value,
            stderr_custom: if custom {
                metric.custom_value
            } else {
                counts.stderr_custom
            },
            ..counts
        }
    } else if metric.stderr {
        LogMetrics {
            stderr: metric.value,
            stdout_custom: if custom {
                metric.custom_value
            } else {
                counts.stdout_custom
            },
            ..counts
        }
    } else {
        counts
    }
}

/// The counts by container, without their sums.
pub open spec fn stream_counts(outcomes: Seq<Outcome<LogMetricView>>, custom: bool) -> Map<
    Seq<char>,
    LogMetrics,
>
    decreases outcomes.len(),
{
    if outcomes.len() == 0 {
        Map::empty()
    } else {
        let before = stream_counts(outcomes.drop_last(), custom);
        match outcomes.last() {
            Outcome::Done(metric) => {
                let counts = if before.contains_key(metric.id) {
                    before[metric.id]
                } else {
                    no_logs()
                };
                before.insert(metric.id, with_stream(counts, metric, custom))
            },
            _ => before,
        }
    }
}

/// Whether the sums over both streams fit into their counters.
pub open spec fn sums_fit(counts: LogMetrics, custom: bool) -> bool {
    &&& i64::MIN <= counts.stdout + counts.stderr <= i64::MAX
    &&& custom ==> i64::MIN <= counts.stderr_custom + counts.stdout_custom <= i64::MAX
}

/// The counts of a container with the sums over both streams.
pub open spec fn with_sums(counts: LogMetrics, custom: bool) -> LogMetrics {
    LogMetrics {
        std_all: (counts.stdout + counts.stderr) as i64,
        std_custom: if custom {
            (counts.stderr_custom + counts.stdout_custom) as i64
        } else {
            counts.std_custom
        },
        ..counts
    }
}

/// Whether all sums over both streams fit into their counters.
pub open spec fn log_sums_fit(outcomes: Seq<Outcome<LogMetricView>>, custom: bool) -> bool {
    forall|id: Seq<char>| #[trigger]
        stream_counts(outcomes, custom).contains_key(id) ==> sums_fit(
            stream_counts(outcomes, custom)[id],
            custom,
        )
}

/// The counts by container, with their sums.
pub open spec fn log_results(outcomes: Seq<Outcome<LogMetricView>>, custom: bool) -> Map<
    Seq<char>,
    LogMetrics,
> {
    stream_counts(outcomes, custom).map_values(|counts: LogMetrics| with_sums(counts, custom))
}

impl MetricsView {
    /// The state once the usage of the containers has been read. A lost task
    /// leaves what was known.
    pub open spec fn with_base(self, outcomes: Seq<Outcome<BaseMetricsView>>) -> MetricsView {
        if any_lost(outcomes) {
            self
        } else {
            MetricsView { base_metrics: base_results(outcomes), ..self }
        }
    }

    /// The state once the logs of the containers have been counted. A lost task
    /// leaves what was known.
    pub open spec fn with_logs(self, outcomes: Seq<Outcome<LogMetricView>>) -> MetricsView {
        if any_lost(outcomes) {
            self
        } else {
            MetricsView { log_metrics: log_results(outcomes, self.get_log_custom_metrics), ..self }
        }
    }

    /// The state once the start times of the containers have been read. A lost
    /// task leaves what was known.
    pub open spec fn with_inspections(
        self,
        outcomes: Seq<Outcome<InspectMetricView>>,
    ) -> MetricsView {
        if any_lost(outcomes) {
            self
        } else {
            MetricsView { inspect_metrics: inspect_results(outcomes), ..self }
        }
    }
}

/// Whether a task was lost.
pub fn has_lost<T: View>(outcomes: &Vec<Outcome<T>>) -> (lost: bool)
    ensures
        lost == any_lost(views(outcomes@)),
        lost == exists|i: int| 0 <= i < outcomes@.len() && #[trigger] outcomes@[i] is Lost,
{
    let ghost all = views(outcomes@);
    for i in 0..outcomes.len()
        invariant
            all == views(outcomes@),
            forall|j: int| 0 <= j < i ==> !(#[trigger] all[j] is Lost),
            forall|j: int| 0 <= j < i ==> !(#[trigger] outcomes@[j] is Lost),
    {
        let ghost current = outcomes@[i as int]@;
        match &outcomes[i] {
            Outcome::Lost => {
                assert(all[i as int] is Lost);
                assert(outcomes@[i as int] is Lost);
                return true;
            },
            _ => {
                assert(all[i as int] == current);
            },
        }
    }
    false
}

/// The counts by container, without their sums.
fn count_streams(outcomes: &Vec<Outcome<LogMetric>>, custom: bool) -> (counts: StringHashMap<
    LogMetrics,
>)
    ensures
        counts@ == stream_counts(views(outcomes@), custom),
{
    let ghost all = views(outcomes@);
    let mut counts: StringHashMap<LogMetrics> = StringHashMap::new();
    for i in 0..outcomes.len()
        invariant
            all == views(outcomes@),
            counts@ == stream_counts(all.take(i as int), custom),
    {
        proof {
            assert(all.take(i + 1).drop_last() =~= all.take(i as int));
            assert(all.take(i + 1).last() == outcomes@[i as int]@);
        }
        if let Outcome::Done(metric) = &outcomes[i] {
            let mut entry = match counts.get(metric.id.as_str()) {
                Some(known) => *known,
                None => LogMetrics {
                    stdout: 0,
                    stderr: 0,
                    std_all: 0,
                    stderr_custom: 0,
                    stdout_custom: 0,
                    std_custom: 0,
                },
            };
            if metric.stdout {
                entry.stdout = metric.value;
                if custom {
                    entry.stderr_custom = metric.custom_value;
                }
            } else if metric.stderr {
                entry.stderr = metric.value;
                if custom {
                    entry.stdout_custom = metric.custom_value;
                }
            }
            counts.insert(metric.id.clone(), entry);
        }
    }
    assert(all.take(all.len() as int) =~= all);
    counts
}

/// Whether `id` is that of a result among the first `n` outcomes.
spec fn counted(outcomes: Seq<Outcome<LogMetricView>>, n: int, id: Seq<char>) -> bool {
    exists|i: int|
        0 <= i < n && (#[trigger] outcomes[i] matches Outcome::Done(metric) && metric.id == id)
}

/// A container is counted exactly where there is a result for it.
proof fn lemma_counted(outcomes: Seq<Outcome<LogMetricView>>, custom: bool, id: Seq<char>)
    ensures
        stream_counts(outcomes, custom).contains_key(id) == counted(
            outcomes,
            outcomes.len() as int,
            id,
        ),
    decreases outcomes.len(),
{
    if outcomes.len() > 0 {
        let before = outcomes.drop_last();
        let n = before.len() as int;
        lemma_counted(before, custom, id);
        assert(forall|i: int| 0 <= i < n ==> before[i] == outcomes[i]);
        if counted(before, n, id) {
            let i = choose|i: int|
                0 <= i < n && (#[trigger] before[i] matches Outcome::Done(metric) && metric.id
                    == id);
            assert(outcomes[i] matches Outcome::Done(metric) && metric.id == id);
        }
        if counted(outcomes, n + 1, id) {
            let i = choose|i: int|
                0 <= i < n + 1 && (#[trigger] outcomes[i] matches Outcome::Done(metric)
                    && metric.id == id);
            if i < n {
                assert(before[i] matches Outcome::Done(metric) && metric.id == id);
            }
        }
        assert(outcomes[n] == outcomes.last());
    }
}

/// Whether the log lines of every container can be summed over both streams.
pub fn logs_summable(outcomes: &Vec<Outcome<LogMetric>>, custom: bool) -> (summable: bool)
    ensures
        summable == log_sums_fit(views(outcomes@), custom),
{
    let ghost all = views(outcomes@);
    let counts = count_streams(outcomes, custom);
    for i in 0..outcomes.len()
        invariant
            all == views(outcomes@),
            counts@ == stream_counts(all, custom),
            forall|id: Seq<char>| #[trigger]
                counts@.contains_key(id) && counted(all, i as int, id) ==> sums_fit(
                    counts@[id],
                    custom,
                ),
    {
        let ghost current = outcomes@[i as int]@;
        assert(all[i as int] == current);
        if let Outcome::Done(metric) = &outcomes[i] {
            proof {
                assert(counted(all, all.len() as int, metric.id@));
                lemma_counted(all, custom, metric.id@);
            }
            if let Some(entry) = counts.get(metric.id.as_str()) {
                if entry.stdout.checked_add(entry.stderr).is_none() {
                    return false;
                }
                if custom && entry.stderr_custom.checked_add(entry.stdout_custom).is_none() {
                    return false;
                }
            }
            assert(sums_fit(counts@[metric.id@], custom));
        }
        assert forall|id: Seq<char>| #[trigger]
            counts@.contains_key(id) && counted(all, i + 1, id) implies sums_fit(
            counts@[id],
            custom,
        ) by {
            let j = choose|j: int|
                0 <= j < i + 1 && (#[trigger] all[j] matches Outcome::Done(metric) && metric.id
                    == id);
            if j < i {
                assert(counted(all, i as int, id));
            }
        }
    }
    assert forall|id: Seq<char>| #[trigger]
        stream_counts(all, custom).contains_key(id) implies sums_fit(
        stream_counts(all, custom)[id],
        custom,
    ) by {
        lemma_counted(all, custom, id);
    }
    true
}

/// The counts by container, with their sums.
fn sum_streams(outcomes: &Vec<Outcome<LogMetric>>, custom: bool) -> (counts: StringHashMap<
    LogMetrics,
>)
    requires
        log_sums_fit(views(outcomes@), custom),
    ensures
        counts@ == log_results(views(outcomes@), custom),
{
    let ghost all = views(outcomes@);
    let mut counts = count_streams(outcomes, custom);
    let ghost plain = counts@;
    for i in 0..outcomes.len()
        invariant
            all == views(outcomes@),
            log_sums_fit(all, custom),
            plain == stream_counts(all, custom),
            counts@.dom() == plain.dom(),
            forall|id: Seq<char>| #[trigger]
                plain.contains_key(id) ==> counts@[id] == if counted(all, i as int, id) {
                    with_sums(plain[id], custom)
                } else {
                    plain[id]
                },
    {
        let ghost current = outcomes@[i as int]@;
        let ghost before = counts@;
        assert(all[i as int] == current);
        if let Outcome::Done(metric) = &outcomes[i] {
            proof {
                assert(counted(all, all.len() as int, metric.id@));
                lemma_counted(all, custom, metric.id@);
                assert(counted(all, i + 1, metric.id@));
            }
            if let Some(known) = counts.get(metric.id.as_str()) {
                let mut entry = *known;
                entry.std_all = entry.stdout + entry.stderr;
                if custom {
                    entry.std_custom = entry.stderr_custom + entry.stdout_custom;
                }
                counts.insert(metric.id.clone(), entry);
                assert(counts@.dom() =~= plain.dom());
            }
        }
        assert forall|id: Seq<char>| #[trigger] plain.contains_key(id) implies counts@[id]
            == if counted(all, i + 1, id) {
            with_sums(plain[id], custom)
        } else {
            plain[id]
        } by {
            if counted(all, i as int, id) {
                let j = choose|j: int|
                    0 <= j < i && (#[trigger] all[j] matches Outcome::Done(metric) && metric.id
                        == id);
                assert(all[j] matches Outcome::Done(metric) && metric.id == id);
                assert(counted(all, i + 1, id));
            }
        }
    }
    proof {
        assert forall|id: Seq<char>| #[trigger] plain.contains_key(id) implies counted(
            all,
            all.len() as int,
            id,
        ) by {
            lemma_counted(all, custom, id);
        }
        assert(counts@ =~= log_results(all, custom));
    }
    counts
}

impl Metrics {
    /// Takes in the usage of the containers. The result says whether no task
    /// was lost.
    pub fn record_base(&mut self, outcomes: Vec<Outcome<BaseMetrics>>) -> (complete: bool)
        ensures
            complete == !any_lost(views(outcomes@)),
            final(self)@ == old(self)@.with_base(views(outcomes@)),
            complete == !(exists|i: int|
                0 <= i < outcomes@.len() && #[trigger] outcomes@[i] is Lost),
    {
        if has_lost(&outcomes) {
            return false;
        }
        let ghost all = views(outcomes@);
        let mut collected: StringHashMap<BaseMetrics> = StringHashMap::new();
        assert(value_views(collected@) =~= base_results(all.take(0)));
        for outcome in it: outcomes
            invariant
                it.seq() == outcomes@,
                all == views(outcomes@),
                value_views(collected@) == base_results(all.take(it.index() as int)),
        {
            proof {
                let i = it.index() as int;
                assert(all[i] == outcome@);
                assert(all.take(i + 1).drop_last() =~= all.take(i));
            }
            if let Outcome::Done(metrics) = outcome {
                let ghost before = collected@;
                collected.insert(metrics.id.clone(), metrics);
                assert(value_views(collected@) =~= value_views(before).insert(
                    metrics.id@,
                    metrics@,
                ));
            }
        }
        assert(all.take(all.len() as int) =~= all);
        self.base_metrics = collected;
        assert(self@ =~= old(self)@.with_base(all));
        true
    }

    /// Takes in the log lines of the containers. The result says whether no
    /// task was lost.
    pub fn record_logs(&mut self, outcomes: Vec<Outcome<LogMetric>>) -> (complete: bool)
        requires
            any_lost(views(outcomes@)) || log_sums_fit(
                views(outcomes@),
                old(self)@.get_log_custom_metrics,
            ),
        ensures
            complete == !any_lost(views(outcomes@)),
            final(self)@ == old(self)@.with_logs(views(outcomes@)),
            complete == !(exists|i: int|
                0 <= i < outcomes@.len() && #[trigger] outcomes@[i] is Lost),
    {
        if has_lost(&outcomes) {
            return false;
        }
        self.log_metrics = sum_streams(&outcomes, self.get_log_custom_metrics);
        assert(self@ =~= old(self)@.with_logs(views(outcomes@)));
        true
    }

    /// Takes in the start times of the containers. The result says whether no
    /// task was lost.
    pub fn record_inspections(&mut self, outcomes: Vec<Outcome<InspectMetric>>) -> (complete: bool)
        ensures
            complete == !any_lost(views(outcomes@)),
            final(self)@ == old(self)@.with_inspections(views(outcomes@)),
            complete == !(exists|i: int|
                0 <= i < outcomes@.len() && #[trigger] outcomes@[i] is Lost),
    {
        if has_lost(&outcomes) {
            return false;
        }
        let ghost all = views(outcomes@);
        let mut collected: StringHashMap<i64> = StringHashMap::new();
        for outcome in it: outcomes
            invariant
                it.seq() == outcomes@,
                all == views(outcomes@),
                collected@ == inspect_results(all.take(it.index() as int)),
        {
            proof {
                let i = it.index() as int;
                assert(all[i] == outcome@);
                assert(all.take(i + 1).drop_last() =~= all.take(i));
            }
            if let Outcome::Done(metric) = outcome {
                collected.insert(metric.id, metric.started_date);
            }
        }
        assert(all.take(all.len() as int) =~= all);
        self.inspect_metrics = collected;
        assert(self@ =~= old(self)@.with_inspections(all));
        true
    }
}

// ---------------------------------------------------------------------------
// Laws.

/// Whether the sums of a container's counts are those over both streams, and
/// nothing is counted as custom where that is not asked for.
pub open spec fn summed(counts: LogMetrics, custom: bool) -> bool {
    &&& counts.std_all == counts.stdout + counts.stderr
    &&& custom ==> counts.std_custom == counts.stderr_custom + counts.stdout_custom
    &&& !custom ==> counts.stderr_custom == 0 && counts.stdout_custom == 0 && counts.std_custom
        == 0
}

proof fn lemma_no_sums_yet(
    outcomes: Seq<Outcome<LogMetricView>>,
    custom: bool,
    id: Seq<char>,
)
    requires
        stream_counts(outcomes, custom).contains_key(id),
    ensures
        !custom ==> stream_counts(outcomes, custom)[id].stderr_custom == 0,
        !custom ==> stream_counts(outcomes, custom)[id].stdout_custom == 0,
        stream_counts(outcomes, custom)[id].std_custom == 0,
    decreases outcomes.len(),
{
    let before = outcomes.drop_last();
    if stream_counts(before, custom).contains_key(id) {
        lemma_no_sums_yet(before, custom, id);
    }
}

/// The log lines of every container are summed over both streams.
pub proof fn law_logs_summed(outcomes: Seq<Outcome<LogMetricView>>, custom: bool, id: Seq<char>)
    requires
        log_sums_fit(outcomes, custom),
        log_results(outcomes, custom).contains_key(id),
    ensures
        summed(log_results(outcomes, custom)[id], custom),
{
    assert(stream_counts(outcomes, custom).contains_key(id));
    lemma_no_sums_yet(outcomes, custom, id);
}

/// Whether no outcome from position `from` on brings a count for the container.
pub open spec fn silent_from(
    outcomes: Seq<Outcome<LogMetricView>>,
    from: int,
    id: Seq<char>,
) -> bool {
    forall|i: int|
        from <= i < outcomes.len() ==> !(#[trigger] outcomes[i] matches Outcome::Done(metric)
            && metric.id == id)
}

proof fn lemma_silent_outcomes(
    outcomes: Seq<Outcome<LogMetricView>>,
    n: int,
    custom: bool,
    id: Seq<char>,
)
    requires
        0 <= n <= outcomes.len(),
        silent_from(outcomes, n, id),
    ensures
        stream_counts(outcomes, custom).contains_key(id) == stream_counts(
            outcomes.take(n),
            custom,
        ).contains_key(id),
        stream_counts(outcomes, custom).contains_key(id) ==> stream_counts(outcomes, custom)[id]
            == stream_counts(outcomes.take(n), custom)[id],
    decreases outcomes.len() - n,
{
    if n == outcomes.len() {
        assert(outcomes.take(n) =~= outcomes);
    } else {
        let before = outcomes.drop_last();
        assert forall|i: int| n <= i < before.len() implies !(
        #[trigger] before[i] matches Outcome::Done(metric) && metric.id == id) by {
            assert(before[i] == outcomes[i]);
        }
        lemma_silent_outcomes(before, n, custom, id);
        assert(before.take(n) =~= outcomes.take(n));
        assert(outcomes[outcomes.len() - 1] == outcomes.last());
    }
}

/// A container of which both streams were counted once, one after the other,
/// has the lines of each and their sum; its custom lines are those of both
/// streams, where they are asked for.
pub proof fn law_both_streams_counted(
    before: Seq<Outcome<LogMetricView>>,
    out: LogMetricView,
    err: LogMetricView,
    after: Seq<Outcome<LogMetricView>>,
    custom: bool,
)
    requires
        out.stdout,
        !err.stdout,
        err.stderr,
        out.id == err.id,
        silent_from(before, 0, out.id),
        silent_from(after, 0, out.id),
        log_sums_fit(before.push(Outcome::Done(out)).push(Outcome::Done(err)) + after, custom),
    ensures
        ({
            let results = log_results(
                before.push(Outcome::Done(out)).push(Outcome::Done(err)) + after,
                custom,
            );
            &&& results.contains_key(out.id)
            &&& results[out.id].stdout == out.value
            &&& results[out.id].stderr == err.value
            &&& results[out.id].std_all == out.value + err.value
            &&& results[out.id].std_custom == if custom {
                out.custom_value + err.custom_value
            } else {
                0
            }
        }),
{
    let id = out.id;
    let first = before.push(Outcome::Done(out));
    let both = first.push(Outcome::Done(err));
    let whole = both + after;
    let n = both.len() as int;
    assert(whole.take(n) =~= both);
    assert forall|i: int| n <= i < whole.len() implies !(
    #[trigger] whole[i] matches Outcome::Done(metric) && metric.id == id) by {
        assert(whole[i] == after[i - n]);
    }
    lemma_silent_outcomes(whole, n, custom, id);
    assert(both.drop_last() =~= first);
    assert(first.drop_last() =~= before);
    lemma_silent_outcomes(before, 0, custom, id);
    assert(before.take(0) =~= Seq::<Outcome<LogMetricView>>::empty());
    assert(!stream_counts(before, custom).contains_key(id));
    assert(stream_counts(first, custom)[id] == with_stream(no_logs(), out, custom));
    assert(stream_counts(both, custom)[id] == with_stream(
        with_stream(no_logs(), out, custom),
        err,
        custom,
    ));
    assert(stream_counts(whole, custom).contains_key(id));
    assert(sums_fit(stream_counts(whole, custom)[id], custom));
}

/// The view of an outcome ends as the outcome does and shows its result.
pub proof fn law_outcome_shown<T: View>(outcome: Outcome<T>)
    ensures
        outcome matches Outcome::Done(value) ==> outcome@ == Outcome::<T::V>::Done(value@),
        outcome is Failed ==> outcome@ is Failed,
        outcome is Lost ==> outcome@ is Lost,
{
}

/// A task was lost exactly where one of the outcomes says so.
pub proof fn law_lost_among_outcomes<T>(outcomes: Seq<Outcome<T>>)
    ensures
        any_lost(outcomes) == outcomes.contains(Outcome::<T>::Lost),
{
    if any_lost(outcomes) {
        let i = choose|i: int| 0 <= i < outcomes.len() && #[trigger] outcomes[i] is Lost;
        assert(outcomes[i] == Outcome::<T>::Lost);
    }
    if outcomes.contains(Outcome::<T>::Lost) {
        let i = choose|i: int| 0 <= i < outcomes.len() && outcomes[i] == Outcome::<T>::Lost;
        assert(outcomes[i] is Lost);
    }
}

/// A lost task leaves the state as it was, whatever the other tasks brought.
pub proof fn law_lost_task_changes_nothing(
    state: MetricsView,
    usage: Seq<Outcome<BaseMetricsView>>,
    logs: Seq<Outcome<LogMetricView>>,
    starts: Seq<Outcome<InspectMetricView>>,
)
    ensures
        usage.contains(Outcome::<BaseMetricsView>::Lost) ==> state.with_base(usage) == state,
        logs.contains(Outcome::<LogMetricView>::Lost) ==> state.with_logs(logs) == state,
        starts.contains(Outcome::<InspectMetricView>::Lost) ==> state.with_inspections(starts)
            == state,
{
    law_lost_among_outcomes(usage);
    law_lost_among_outcomes(logs);
    law_lost_among_outcomes(starts);
}

/// What the tasks of one kind brought is all that they change.
pub proof fn law_results_change_nothing_else(
    state: MetricsView,
    usage: Seq<Outcome<BaseMetricsView>>,
    logs: Seq<Outcome<LogMetricView>>,
    starts: Seq<Outcome<InspectMetricView>>,
)
    ensures
        (MetricsView { base_metrics: state.base_metrics, ..state.with_base(usage) }) == state,
        (MetricsView { log_metrics: state.log_metrics, ..state.with_logs(logs) }) == state,
        (MetricsView {
            inspect_metrics: state.inspect_metrics,
            ..state.with_inspections(starts)
        }) == state,
{
}

/// The usage that is kept of a container is the last that was brought for it,
/// as it was brought.
pub proof fn law_last_usage_kept(
    state: MetricsView,
    outcomes: Seq<Outcome<BaseMetricsView>>,
    i: int,
    metrics: BaseMetricsView,
)
    requires
        !outcomes.contains(Outcome::<BaseMetricsView>::Lost),
        0 <= i < outcomes.len(),
        outcomes[i] == Outcome::Done(metrics),
        forall|j: int|
            i < j < outcomes.len() ==> !(#[trigger] outcomes[j] matches Outcome::Done(later)
                && later.id == metrics.id),
    ensures
        state.with_base(outcomes).base_metrics.contains_key(metrics.id),
        state.with_base(outcomes).base_metrics[metrics.id] == metrics,
{
    law_lost_among_outcomes(outcomes);
    lemma_last_usage(outcomes, i, metrics);
}

proof fn lemma_last_usage(
    outcomes: Seq<Outcome<BaseMetricsView>>,
    i: int,
    metrics: BaseMetricsView,
)
    requires
        0 <= i < outcomes.len(),
        outcomes[i] == Outcome::Done(metrics),
        forall|j: int|
            i < j < outcomes.len() ==> !(#[trigger] outcomes[j] matches Outcome::Done(later)
                && later.id == metrics.id),
    ensures
        base_results(outcomes).contains_key(metrics.id),
        base_results(outcomes)[metrics.id] == metrics,
    decreases outcomes.len(),
{
    let before = outcomes.drop_last();
    if i < before.len() {
        assert forall|j: int| i < j < before.len() implies !(
        #[trigger] before[j] matches Outcome::Done(later) && later.id == metrics.id) by {
            assert(before[j] == outcomes[j]);
        }
        lemma_last_usage(before, i, metrics);
        assert(outcomes[outcomes.len() - 1] == outcomes.last());
    }
}

/// The usage of a container is known only where it was brought.
pub proof fn law_no_usage_without_result(
    state: MetricsView,
    outcomes: Seq<Outcome<BaseMetricsView>>,
    id: Seq<char>,
)
    requires
        !outcomes.contains(Outcome::<BaseMetricsView>::Lost),
        forall|j: int|
            0 <= j < outcomes.len() ==> !(#[trigger] outcomes[j] matches Outcome::Done(metrics)
                && metrics.id == id),
    ensures
        !state.with_base(outcomes).base_metrics.contains_key(id),
{
    law_lost_among_outcomes(outcomes);
    lemma_no_usage(outcomes, id);
}

proof fn lemma_no_usage(outcomes: Seq<Outcome<BaseMetricsView>>, id: Seq<char>)
    requires
        forall|j: int|
            0 <= j < outcomes.len() ==> !(#[trigger] outcomes[j] matches Outcome::Done(metrics)
                && metrics.id == id),
    ensures
        !base_results(outcomes).contains_key(id),
    decreases outcomes.len(),
{
    if outcomes.len() > 0 {
        let before = outcomes.drop_last();
        assert forall|j: int| 0 <= j < before.len() implies !(
        #[trigger] before[j] matches Outcome::Done(metrics) && metrics.id == id) by {
            assert(before[j] == outcomes[j]);
        }
        lemma_no_usage(before, id);
        assert(outcomes[outcomes.len() - 1] == outcomes.last());
    }
}

/// The start that is kept of a container is the last that was brought for it,
/// as it was brought.
pub proof fn law_last_start_kept(
    state: MetricsView,
    outcomes: Seq<Outcome<InspectMetricView>>,
    i: int,
    metric: InspectMetricView,
)
    requires
        !outcomes.contains(Outcome::<InspectMetricView>::Lost),
        0 <= i < outcomes.len(),
        outcomes[i] == Outcome::Done(metric),
        forall|j: int|
            i < j < outcomes.len() ==> !(#[trigger] outcomes[j] matches Outcome::Done(later)
                && later.id == metric.id),
    ensures
        state.with_inspections(outcomes).inspect_metrics.contains_key(metric.id),
        state.with_inspections(outcomes).inspect_metrics[metric.id] == metric.started_date,
{
    law_lost_among_outcomes(outcomes);
    lemma_last_start(outcomes, i, metric);
}

proof fn lemma_last_start(
    outcomes: Seq<Outcome<InspectMetricView>>,
    i: int,
    metric: InspectMetricView,
)
    requires
        0 <= i < outcomes.len(),
        outcomes[i] == Outcome::Done(metric),
        forall|j: int|
            i < j < outcomes.len() ==> !(#[trigger] outcomes[j] matches Outcome::Done(later)
                && later.id == metric.id),
    ensures
        inspect_results(outcomes).contains_key(metric.id),
        inspect_results(outcomes)[metric.id] == metric.started_date,
    decreases outcomes.len(),
{
    let before = outcomes.drop_last();
    if i < before.len() {
        assert forall|j: int| i < j < before.len() implies !(
        #[trigger] before[j] matches Outcome::Done(later) && later.id == metric.id) by {
            assert(before[j] == outcomes[j]);
        }
        lemma_last_start(before, i, metric);
        assert(outcomes[outcomes.len() - 1] == outcomes.last());
    }
}

/// The start of a container is known only where it was brought.
pub proof fn law_no_start_without_result(
    state: MetricsView,
    outcomes: Seq<Outcome<InspectMetricView>>,
    id: Seq<char>,
)
    requires
        !outcomes.contains(Outcome::<InspectMetricView>::Lost),
        forall|j: int|
            0 <= j < outcomes.len() ==> !(#[trigger] outcomes[j] matches Outcome::Done(metric)
                && metric.id == id),
    ensures
        !state.with_inspections(outcomes).inspect_metrics.contains_key(id),
{
    law_lost_among_outcomes(outcomes);
    lemma_no_start(outcomes, id);
}

proof fn lemma_no_start(outcomes: Seq<Outcome<InspectMetricView>>, id: Seq<char>)
    requires
        forall|j: int|
            0 <= j < outcomes.len() ==> !(#[trigger] outcomes[j] matches Outcome::Done(metric)
                && metric.id == id),
    ensures
        !inspect_results(outcomes).contains_key(id),
    decreases outcomes.len(),
{
    if outcomes.len() > 0 {
        let before = outcomes.drop_last();
        assert forall|j: int| 0 <= j < before.len() implies !(
        #[trigger] before[j] matches Outcome::Done(metric) && metric.id == id) by {
            assert(before[j] == outcomes[j]);
        }
        lemma_no_start(before, id);
        assert(outcomes[outcomes.len() - 1] == outcomes.last());
    }
}

/// The log lines of a container are known exactly where a stream of it was
/// counted.
pub proof fn law_logs_known_where_counted(
    state: MetricsView,
    outcomes: Seq<Outcome<LogMetricView>>,
    id: Seq<char>,
)
    requires
        !outcomes.contains(Outcome::<LogMetricView>::Lost),
    ensures
        state.with_logs(outcomes).log_metrics.contains_key(id) <==> exists|i: int|
            0 <= i < outcomes.len() && (#[trigger] outcomes[i] matches Outcome::Done(metric)
                && metric.id == id),
{
    law_lost_among_outcomes(outcomes);
    lemma_counted(outcomes, state.get_log_custom_metrics, id);
}

/// The lines of a container's standard output are those that were counted last,
/// and so are its custom lines, where they are asked for.
pub proof fn law_last_stdout_kept(
    state: MetricsView,
    outcomes: Seq<Outcome<LogMetricView>>,
    i: int,
    metric: LogMetricView,
)
    requires
        !outcomes.contains(Outcome::<LogMetricView>::Lost),
        0 <= i < outcomes.len(),
        outcomes[i] == Outcome::Done(metric),
        metric.stdout,
        forall|j: int|
            i < j < outcomes.len() ==> !(#[trigger] outcomes[j] matches Outcome::Done(later)
                && later.id == metric.id && later.stdout),
    ensures
        ({
            let counts = state.with_logs(outcomes).log_metrics[metric.id];
            &&& counts.stdout == metric.value
            &&& state.get_log_custom_metrics ==> counts.stderr_custom == metric.custom_value
            &&& !state.get_log_custom_metrics ==> counts.stderr_custom == 0
        }),
{
    law_lost_among_outcomes(outcomes);
    let custom = state.get_log_custom_metrics;
    lemma_last_stdout(outcomes, custom, i, metric);
    lemma_no_sums_yet(outcomes, custom, metric.id);
}

proof fn lemma_last_stdout(
    outcomes: Seq<Outcome<LogMetricView>>,
    custom: bool,
    i: int,
    metric: LogMetricView,
)
    requires
        0 <= i < outcomes.len(),
        outcomes[i] == Outcome::Done(metric),
        metric.stdout,
        forall|j: int|
            i < j < outcomes.len() ==> !(#[trigger] outcomes[j] matches Outcome::Done(later)
                && later.id == metric.id && later.stdout),
    ensures
        stream_counts(outcomes, custom).contains_key(metric.id),
        stream_counts(outcomes, custom)[metric.id].stdout == metric.value,
        custom ==> stream_counts(outcomes, custom)[metric.id].stderr_custom == metric.custom_value,
    decreases outcomes.len(),
{
    let before = outcomes.drop_last();
    if i < before.len() {
        assert forall|j: int| i < j < before.len() implies !(
        #[trigger] before[j] matches Outcome::Done(later) && later.id == metric.id
            && later.stdout) by {
            assert(before[j] == outcomes[j]);
        }
        lemma_last_stdout(before, custom, i, metric);
        assert(outcomes[outcomes.len() - 1] == outcomes.last());
    }
}

/// The lines of a container's standard error are those that were counted last,
/// and so are its custom lines, where they are asked for.
pub proof fn law_last_stderr_kept(
    state: MetricsView,
    outcomes: Seq<Outcome<LogMetricView>>,
    i: int,
    metric: LogMetricView,
)
    requires
        !outcomes.contains(Outcome::<LogMetricView>::Lost),
        0 <= i < outcomes.len(),
        outcomes[i] == Outcome::Done(metric),
        !metric.stdout,
        metric.stderr,
        forall|j: int|
            i < j < outcomes.len() ==> !(#[trigger] outcomes[j] matches Outcome::Done(later)
                && later.id == metric.id && !later.stdout && later.stderr),
    ensures
        ({
            let counts = state.with_logs(outcomes).log_metrics[metric.id];
            &&& counts.stderr == metric.value
            &&& state.get_log_custom_metrics ==> counts.stdout_custom == metric.custom_value
            &&& !state.get_log_custom_metrics ==> counts.stdout_custom == 0
        }),
{
    law_lost_among_outcomes(outcomes);
    let custom = state.get_log_custom_metrics;
    lemma_last_stderr(outcomes, custom, i, metric);
    lemma_no_sums_yet(outcomes, custom, metric.id);
}

proof fn lemma_last_stderr(
    outcomes: Seq<Outcome<LogMetricView>>,
    custom: bool,
    i: int,
    metric: LogMetricView,
)
    requires
        0 <= i < outcomes.len(),
        outcomes[i] == Outcome::Done(metric),
        !metric.stdout,
        metric.stderr,
        forall|j: int|
            i < j < outcomes.len() ==> !(#[trigger] outcomes[j] matches Outcome::Done(later)
                && later.id == metric.id && !later.stdout && later.stderr),
    ensures
        stream_counts(outcomes, custom).contains_key(metric.id),
        stream_counts(outcomes, custom)[metric.id].stderr == metric.value,
        custom ==> stream_counts(outcomes, custom)[metric.id].stdout_custom == metric.custom_value,
    decreases outcomes.len(),
{
    let before = outcomes.drop_last();
    if i < before.len() {
        assert forall|j: int| i < j < before.len() implies !(
        #[trigger] before[j] matches Outcome::Done(later) && later.id == metric.id && !later.stdout
            && later.stderr) by {
            assert(before[j] == outcomes[j]);
        }
        lemma_last_stderr(before, custom, i, metric);
        assert(outcomes[outcomes.len() - 1] == outcomes.last());
    }
}

/// A stream that was not counted has no lines.
pub proof fn law_uncounted_stream_has_no_lines(
    state: MetricsView,
    outcomes: Seq<Outcome<LogMetricView>>,
    id: Seq<char>,
)
    requires
        !outcomes.contains(Outcome::<LogMetricView>::Lost),
        state.with_logs(outcomes).log_metrics.contains_key(id),
    ensures
        ({
            let counts = state.with_logs(outcomes).log_metrics[id];
            &&& (forall|j: int|
                0 <= j < outcomes.len() ==> !(#[trigger] outcomes[j] matches Outcome::Done(metric)
                    && metric.id == id && metric.stdout)) ==> counts.stdout == 0
                && counts.stderr_custom == 0
            &&& (forall|j: int|
                0 <= j < outcomes.len() ==> !(#[trigger] outcomes[j] matches Outcome::Done(metric)
                    && metric.id == id && !metric.stdout && metric.stderr)) ==> counts.stderr == 0
                && counts.stdout_custom == 0
        }),
{
    law_lost_among_outcomes(outcomes);
    lemma_uncounted(outcomes, state.get_log_custom_metrics, id);
}

proof fn lemma_uncounted(outcomes: Seq<Outcome<LogMetricView>>, custom: bool, id: Seq<char>)
    requires
        stream_counts(outcomes, custom).contains_key(id),
    ensures
        (forall|j: int|
            0 <= j < outcomes.len() ==> !(#[trigger] outcomes[j] matches Outcome::Done(metric)
                && metric.id == id && metric.stdout)) ==> stream_counts(
            outcomes,
            custom,
        )[id].stdout == 0 && stream_counts(outcomes, custom)[id].stderr_custom == 0,
        (forall|j: int|
            0 <= j < outcomes.len() ==> !(#[trigger] outcomes[j] matches Outcome::Done(metric)
                && metric.id == id && !metric.stdout && metric.stderr)) ==> stream_counts(
            outcomes,
            custom,
        )[id].stderr == 0 && stream_counts(outcomes, custom)[id].stdout_custom == 0,
    decreases outcomes.len(),
{
    let before = outcomes.drop_last();
    assert(forall|j: int| 0 <= j < before.len() ==> before[j] == outcomes[j]);
    assert(outcomes[outcomes.len() - 1] == outcomes.last());
    if stream_counts(before, custom).contains_key(id) {
        lemma_uncounted(before, custom, id);
    }
}

/// The lines of all streams are those of the standard output and those of the
/// standard error together, and so are the custom lines; where custom lines are
/// not asked for there are none.
pub proof fn law_lines_of_both_streams_added(
    state: MetricsView,
    outcomes: Seq<Outcome<LogMetricView>>,
    id: Seq<char>,
)
    requires
        !outcomes.contains(Outcome::<LogMetricView>::Lost),
        log_sums_fit(outcomes, state.get_log_custom_metrics),
        state.with_logs(outcomes).log_metrics.contains_key(id),
    ensures
        ({
            let counts = state.with_logs(outcomes).log_metrics[id];
            &&& counts.std_all == counts.stdout + counts.stderr
            &&& state.get_log_custom_metrics ==> counts.std_custom == counts.stderr_custom
                + counts.stdout_custom
            &&& !state.get_log_custom_metrics ==> counts.std_custom == 0
        }),
{
    law_lost_among_outcomes(outcomes);
    law_logs_summed(outcomes, state.get_log_custom_metrics, id);
}

/// The sums over both streams fit where none of them leaves the range of a
/// signed 64-bit number.
pub proof fn law_log_sums_that_fit(state: MetricsView, outcomes: Seq<Outcome<LogMetricView>>)
    requires
        !outcomes.contains(Outcome::<LogMetricView>::Lost),
    ensures
        log_sums_fit(outcomes, state.get_log_custom_metrics) <==> forall|id: Seq<char>| #[trigger]
            state.with_logs(outcomes).log_metrics.contains_key(id) ==> {
                let counts = state.with_logs(outcomes).log_metrics[id];
                &&& -0x8000_0000_0000_0000 <= counts.stdout + counts.stderr
                    <= 0x7fff_ffff_ffff_ffff
                &&& state.get_log_custom_metrics ==> -0x8000_0000_0000_0000 <= counts.stderr_custom
                    + counts.stdout_custom <= 0x7fff_ffff_ffff_ffff
            },
{
    law_lost_among_outcomes(outcomes);
    let custom = state.get_log_custom_metrics;
    let plain = stream_counts(outcomes, custom);
    let known = state.with_logs(outcomes).log_metrics;
    assert forall|id: Seq<char>|
        plain.contains_key(id) == #[trigger] known.contains_key(id) && (plain.contains_key(id)
            ==> known[id] == with_sums(plain[id], custom)) by {}
    if log_sums_fit(outcomes, custom) {
        assert forall|id: Seq<char>| #[trigger] known.contains_key(id) implies sums_fit(
            plain[id],
            custom,
        ) by {
            assert(plain.contains_key(id));
        }
    }
    if !log_sums_fit(outcomes, custom) {
        let id = choose|id: Seq<char>| #[trigger]
            plain.contains_key(id) && !sums_fit(plain[id], custom);
        assert(known.contains_key(id));
    }
}

/// Whether a task was lost is told by the outcomes themselves.
pub proof fn law_loss_told<T: View>(outcomes: &Vec<Outcome<T>>, lost: bool)
    requires
        call_ensures(has_lost::<T>, (outcomes,), lost),
    ensures
        lost <==> exists|i: int| 0 <= i < outcomes@.len() && #[trigger] outcomes@[i] is Lost,
{
}

/// Once the usage is taken in, what is known of a container is the last that was
/// brought for it, in every field; a lost task is told, and leaves all as it was.
pub proof fn law_usage_taken_in(
    metrics: &mut Metrics,
    outcomes: Vec<Outcome<BaseMetrics>>,
    complete: bool,
    i: int,
)
    requires
        call_ensures(Metrics::record_base, (metrics, outcomes), complete),
    ensures
        complete <==> forall|j: int|
            0 <= j < outcomes@.len() ==> !(#[trigger] outcomes@[j] is Lost),
        !complete ==> final(metrics)@ == old(metrics)@,
        complete && 0 <= i < outcomes@.len() && (forall|j: int|
            i < j < outcomes@.len() ==> !(#[trigger] outcomes@[j]@ matches Outcome::Done(later) && (
            outcomes@[i]@ matches Outcome::Done(own) && later.id == own.id))) ==> (
        outcomes@[i] matches Outcome::Done(own) ==> {
            &&& final(metrics).base_metrics@.contains_key(own.id@)
            &&& final(metrics).base_metrics@[own.id@]@ == own@
        }),
{
    let all = views(outcomes@);
    if complete && 0 <= i < outcomes@.len() {
        assert(all[i] == outcomes@[i]@);
        if let Outcome::Done(own) = outcomes@[i] {
            if forall|j: int|
                i < j < outcomes@.len() ==> !(#[trigger] outcomes@[j]@ matches Outcome::Done(later)
                    && (outcomes@[i]@ matches Outcome::Done(mine) && later.id == mine.id)) {
                assert forall|j: int| i < j < all.len() implies !(
                #[trigger] all[j] matches Outcome::Done(later) && later.id == own@.id) by {
                    assert(all[j] == outcomes@[j]@);
                    assert(outcomes@[i]@ == Outcome::Done(own@));
                }
                law_lost_among_outcomes(all);
                law_last_usage_kept(old(metrics)@, all, i, own@);
                assert(final(metrics)@.base_metrics.contains_key(own.id@));
            }
        }
    }
}

/// Once the starts are taken in, what is known of a container is the last that
/// was brought for it; a lost task is told, and leaves all as it was.
pub proof fn law_start_taken_in(
    metrics: &mut Metrics,
    outcomes: Vec<Outcome<InspectMetric>>,
    complete: bool,
    i: int,
)
    requires
        call_ensures(Metrics::record_inspections, (metrics, outcomes), complete),
    ensures
        complete <==> forall|j: int|
            0 <= j < outcomes@.len() ==> !(#[trigger] outcomes@[j] is Lost),
        !complete ==> final(metrics)@ == old(metrics)@,
        complete && 0 <= i < outcomes@.len() && (forall|j: int|
            i < j < outcomes@.len() ==> !(#[trigger] outcomes@[j]@ matches Outcome::Done(later) && (
            outcomes@[i]@ matches Outcome::Done(own) && later.id == own.id))) ==> (
        outcomes@[i] matches Outcome::Done(own) ==> {
            &&& final(metrics).inspect_metrics@.contains_key(own.id@)
            &&& final(metrics).inspect_metrics@[own.id@] == own.started_date
        }),
{
    let all = views(outcomes@);
    if complete && 0 <= i < outcomes@.len() {
        assert(all[i] == outcomes@[i]@);
        if let Outcome::Done(own) = outcomes@[i] {
            if forall|j: int|
                i < j < outcomes@.len() ==> !(#[trigger] outcomes@[j]@ matches Outcome::Done(later)
                    && (outcomes@[i]@ matches Outcome::Done(mine) && later.id == mine.id)) {
                assert forall|j: int| i < j < all.len() implies !(
                #[trigger] all[j] matches Outcome::Done(later) && later.id == own@.id) by {
                    assert(all[j] == outcomes@[j]@);
                    assert(outcomes@[i]@ == Outcome::Done(own@));
                }
                law_lost_among_outcomes(all);
                law_last_start_kept(old(metrics)@, all, i, own@);
            }
        }
    }
}

/// Taking in the log lines tells a lost task, and then leaves all as it was;
/// else the state is the one that the counted streams make.
pub proof fn law_logs_taken_in(
    metrics: &mut Metrics,
    outcomes: Vec<Outcome<LogMetric>>,
    complete: bool,
)
    requires
        call_ensures(Metrics::record_logs, (metrics, outcomes), complete),
    ensures
        complete <==> forall|j: int|
            0 <= j < outcomes@.len() ==> !(#[trigger] outcomes@[j] is Lost),
        !complete ==> final(metrics)@ == old(metrics)@,
        final(metrics)@ == old(metrics)@.with_logs(views(outcomes@)),
{
}

} // verus!
