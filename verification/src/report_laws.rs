//! What holds of every report.
use crate::containers::{law_containers_counted_by_state, ContainerView};
use crate::metrics::{
    BaseMetricsView, InspectMetricView, LogMetricView, LogMetrics, Metrics, MetricsView,
};
use crate::prometheus::{
    base_samples, count_family, help_line, log_samples, start_samples, type_line, Labels,
    SampleView,
};
use crate::record::{any_lost, base_results, inspect_results, stream_counts, Outcome};
use crate::text::{
    decimal, decimal_value, digit, joined, law_decimal_without_leading_zeros,
    law_joined_lines_split_back, law_signed_decimal_reads_back, law_texts_one_by_one, segments,
    signed_decimal, single_line, texts,
};
use vstd::prelude::*;

verus! {

/// The number of metrics that are reported of the container `id`: twelve on
/// its usage, three or four on its logs and one on its start, each group only
/// where it was read.
pub open spec fn metric_count(state: MetricsView, id: Seq<char>) -> int {
    let base: int = if state.base_metrics.contains_key(id) {
        12
    } else {
        0
    };
    let logs: int = if !state.get_log_metrics || !state.log_metrics.contains_key(id) {
        0
    } else if state.get_log_custom_metrics {
        4
    } else {
        3
    };
    let start: int = if state.inspect_metrics.contains_key(id) {
        1
    } else {
        0
    };
    base + logs + start
}

/// The report on a container that is known to run has three lines for each
/// metric and an empty line; that on any other has the empty line alone.
pub proof fn law_container_report_len(state: MetricsView, id: Seq<char>, hostname: Seq<char>)
    ensures
        state.container_report(id, hostname).len() == if state.info.contains_key(id) {
            3 * metric_count(state, id) + 1
        } else {
            1
        },
{
    let labels = Labels { id, container_name: state.info[id].name, hostname };
    lemma_families_len(labels, base_samples(state.base_metrics[id]));
    lemma_families_len(labels, log_samples(state.log_metrics[id], state.get_log_custom_metrics));
    lemma_families_len(labels, start_samples(state.inspect_metrics[id]));
}

proof fn lemma_families_len(labels: Labels, samples: Seq<SampleView>)
    ensures
        labels.families(samples).len() == 3 * samples.len(),
    decreases samples.len(),
{
    if samples.len() > 0 {
        lemma_families_len(labels, samples.drop_last());
    }
}

/// Where logs are not asked for, counts that are kept are not reported.
pub proof fn law_logs_off_not_reported(
    state: MetricsView,
    log_metrics: Map<Seq<char>, LogMetrics>,
    hostname: Seq<char>,
)
    requires
        !state.get_log_metrics,
    ensures
        (MetricsView { log_metrics, ..state }).report(hostname) == state.report(hostname),
{
    lemma_logs_off(state, log_metrics, state.ids, hostname);
}

proof fn lemma_logs_off(
    state: MetricsView,
    log_metrics: Map<Seq<char>, LogMetrics>,
    ids: Seq<Seq<char>>,
    hostname: Seq<char>,
)
    requires
        !state.get_log_metrics,
    ensures
        (MetricsView { log_metrics, ..state }).containers_report(ids, hostname)
            == state.containers_report(ids, hostname),
    decreases ids.len(),
{
    if ids.len() > 0 {
        lemma_logs_off(state, log_metrics, ids.drop_last(), hostname);
        let other = MetricsView { log_metrics, ..state };
        assert(other.container_report(ids.last(), hostname) == state.container_report(
            ids.last(),
            hostname,
        ));
    }
}

proof fn lemma_report_prefix(
    state: MetricsView,
    ids: Seq<Seq<char>>,
    n: int,
    hostname: Seq<char>,
)
    requires
        0 <= n <= ids.len(),
    ensures
        state.containers_report(ids.take(n), hostname).len() <= state.containers_report(
            ids,
            hostname,
        ).len(),
        state.containers_report(ids, hostname).take(
            state.containers_report(ids.take(n), hostname).len() as int,
        ) == state.containers_report(ids.take(n), hostname),
    decreases ids.len() - n,
{
    let part = state.containers_report(ids.take(n), hostname);
    if n == ids.len() {
        assert(ids.take(n) =~= ids);
        assert(part.take(part.len() as int) =~= part);
    } else {
        let before = ids.drop_last();
        lemma_report_prefix(state, before, n, hostname);
        assert(before.take(n) =~= ids.take(n));
        assert(state.containers_report(ids, hostname).take(part.len() as int)
            =~= state.containers_report(before, hostname).take(part.len() as int));
    }
}

/// The report holds the lines on each running container, after those on the
/// host and on the containers listed before it.
pub proof fn law_report_holds_container(state: MetricsView, hostname: Seq<char>, i: int)
    requires
        0 <= i < state.ids.len(),
    ensures
        ({
            let lines = state.container_report(state.ids[i], hostname);
            let start = (state.host_report(hostname) + state.containers_report(
                state.ids.take(i),
                hostname,
            )).len() as int;
            &&& start + lines.len() <= state.report(hostname).len()
            &&& state.report(hostname).subrange(start, start + lines.len()) == lines
        }),
{
    let host = state.host_report(hostname);
    let lines = state.container_report(state.ids[i], hostname);
    let earlier = state.containers_report(state.ids.take(i), hostname);
    let upto = state.containers_report(state.ids.take(i + 1), hostname);
    let all = state.containers_report(state.ids, hostname);
    assert(state.ids.take(i + 1).drop_last() =~= state.ids.take(i));
    assert(upto == earlier + lines);
    lemma_report_prefix(state, state.ids, i + 1, hostname);
    let start = (host + earlier).len() as int;
    assert forall|j: int| 0 <= j < lines.len() implies state.report(hostname)[start + j]
        == lines[j] by {
        assert(all.take(upto.len() as int)[earlier.len() + j] == upto[earlier.len() + j]);
    }
    assert(state.report(hostname).subrange(start, start + lines.len()) =~= lines);
}

proof fn lemma_containers_report_end(state: MetricsView, ids: Seq<Seq<char>>, hostname: Seq<char>)
    requires
        ids.len() > 0,
    ensures
        state.containers_report(ids, hostname).len() > 0,
        state.containers_report(ids, hostname).last() == Seq::<char>::empty(),
{
    let lines = state.container_report(ids.last(), hostname);
    assert(lines.last() == Seq::<char>::empty());
    assert(state.containers_report(ids, hostname).last() == lines.last());
}

/// The text of a report ends in a line feed.
pub proof fn law_report_ends_in_line_feed(state: MetricsView, hostname: Seq<char>)
    ensures
        joined(state.report(hostname)).len() > 0,
        joined(state.report(hostname)).last() == '\n',
{
    let lines = state.report(hostname);
    let host = state.host_report(hostname);
    assert(host.last() == Seq::<char>::empty());
    if state.ids.len() > 0 {
        lemma_containers_report_end(state, state.ids, hostname);
        assert(lines.last() == state.containers_report(state.ids, hostname).last());
    } else {
        assert(lines =~= host);
    }
    assert(lines.len() > 1);
    let before = joined(lines.drop_last()).push('\n');
    assert(before + lines.last() =~= before);
}

/// Whether each of `parts` is a single line.
pub open spec fn single_lines(parts: Seq<Seq<char>>) -> bool {
    forall|i: int| 0 <= i < parts.len() ==> single_line(#[trigger] parts[i])
}

/// Whether no text that a report shows holds a line feed.
pub open spec fn shows_single_lines(state: MetricsView, hostname: Seq<char>) -> bool {
    &&& single_line(hostname)
    &&& single_lines(state.ids)
    &&& forall|id: Seq<char>| #[trigger]
        state.info.contains_key(id) ==> single_line(state.info[id].name)
    &&& forall|id: Seq<char>| #[trigger]
        state.base_metrics.contains_key(id) ==> {
            &&& single_line(state.base_metrics[id].cpu_total)
            &&& single_line(state.base_metrics[id].cpu_user)
            &&& single_line(state.base_metrics[id].cpu_kernel)
        }
}

proof fn lemma_single_concat(a: Seq<char>, b: Seq<char>)
    requires
        single_line(a),
        single_line(b),
    ensures
        single_line(a + b),
{
    assert forall|i: int| 0 <= i < (a + b).len() implies (a + b)[i] != '\n' by {
        if i < a.len() {
            assert(a.contains(a[i]));
        } else {
            assert(b.contains(b[i - a.len()]));
        }
    }
}

broadcast proof fn lemma_single_decimal(n: nat)
    ensures
        single_line(#[trigger] decimal(n)),
    decreases n,
{
    if n >= 10 {
        lemma_single_decimal(n / 10);
        let last = seq![digit((n % 10) as int)];
        assert(decimal(n) =~= decimal(n / 10) + last);
        lemma_single_concat(decimal(n / 10), last);
    }
}

broadcast proof fn lemma_single_signed(n: int)
    ensures
        single_line(#[trigger] signed_decimal(n)),
{
    if n < 0 {
        lemma_single_decimal((-n) as nat);
        lemma_single_concat(seq!['-'], decimal((-n) as nat));
    } else {
        lemma_single_decimal(n as nat);
    }
}

proof fn lemma_single_marks()
    ensures
        single_line("# HELP "@),
        single_line("# TYPE "@),
        single_line(" "@),
        single_line("{containerId=\""@),
        single_line("\",containerName=\""@),
        single_line("\",hostname=\""@),
        single_line("\"}"@),
        single_line("{hostname=\""@),
        single_line("\"} "@),
        single_line("gauge"@),
        single_line("counter"@),
{
    reveal_strlit("# HELP ");
    reveal_strlit("# TYPE ");
    reveal_strlit(" ");
    reveal_strlit("{containerId=\"");
    reveal_strlit("\",containerName=\"");
    reveal_strlit("\",hostname=\"");
    reveal_strlit("\"}");
    reveal_strlit("{hostname=\"");
    reveal_strlit("\"} ");
    reveal_strlit("gauge");
    reveal_strlit("counter");
}

proof fn lemma_single_comments(name: Seq<char>, help: Seq<char>, kind: Seq<char>)
    requires
        single_line(name),
        single_line(help),
        single_line(kind),
    ensures
        single_line(help_line(name, help)),
        single_line(type_line(name, kind)),
{
    lemma_single_marks();
    lemma_single_concat("# HELP "@, name);
    lemma_single_concat("# HELP "@ + name, " "@);
    lemma_single_concat("# HELP "@ + name + " "@, help);
    lemma_single_concat("# TYPE "@, name);
    lemma_single_concat("# TYPE "@ + name, " "@);
    lemma_single_concat("# TYPE "@ + name + " "@, kind);
}

/// Whether no label holds a line feed.
spec fn single_labels(labels: Labels) -> bool {
    single_line(labels.id) && single_line(labels.container_name) && single_line(labels.hostname)
}

/// Whether no text of a sample holds a line feed.
spec fn single_sample(sample: SampleView) -> bool {
    &&& single_line(sample.metric_name)
    &&& single_line(sample.help_text)
    &&& single_line(sample.type_data)
    &&& single_line(sample.value)
}

proof fn lemma_single_family(labels: Labels, sample: SampleView)
    requires
        single_labels(labels),
        single_sample(sample),
    ensures
        single_lines(
            labels.family(
                sample.metric_name,
                sample.help_text,
                sample.type_data,
                sample.value,
            ),
        ),
{
    lemma_single_marks();
    let name = sample.metric_name;
    lemma_single_comments(name, sample.help_text, sample.type_data);
    let a = "{containerId=\""@;
    let b = "\",containerName=\""@;
    let c = "\",hostname=\""@;
    let d = "\"}"@;
    lemma_single_concat(a, labels.id);
    lemma_single_concat(a + labels.id, b);
    lemma_single_concat(a + labels.id + b, labels.container_name);
    lemma_single_concat(a + labels.id + b + labels.container_name, c);
    lemma_single_concat(a + labels.id + b + labels.container_name + c, labels.hostname);
    lemma_single_concat(a + labels.id + b + labels.container_name + c + labels.hostname, d);
    lemma_single_concat(name, labels.text());
    lemma_single_concat(name + labels.text(), " "@);
    lemma_single_concat(name + labels.text() + " "@, sample.value);
}

proof fn lemma_single_lines_concat(a: Seq<Seq<char>>, b: Seq<Seq<char>>)
    requires
        single_lines(a),
        single_lines(b),
    ensures
        single_lines(a + b),
{
    assert forall|i: int| 0 <= i < (a + b).len() implies single_line(#[trigger] (a + b)[i]) by {
        if i < a.len() {
            assert(single_line(a[i]));
        } else {
            assert(single_line(b[i - a.len()]));
        }
    }
}

proof fn lemma_single_families(labels: Labels, samples: Seq<SampleView>)
    requires
        single_labels(labels),
        forall|i: int| 0 <= i < samples.len() ==> single_sample(#[trigger] samples[i]),
    ensures
        single_lines(labels.families(samples)),
    decreases samples.len(),
{
    if samples.len() > 0 {
        let before = samples.drop_last();
        let last = samples[samples.len() - 1];
        assert forall|i: int| 0 <= i < before.len() implies single_sample(#[trigger] before[i]) by {
            assert(before[i] == samples[i]);
        }
        lemma_single_families(labels, before);
        lemma_single_family(labels, last);
        lemma_single_lines_concat(
            labels.families(before),
            labels.family(last.metric_name, last.help_text, last.type_data, last.value),
        );
    }
}

proof fn lemma_single_base(metrics: BaseMetricsView)
    requires
        single_line(metrics.cpu_total),
        single_line(metrics.cpu_user),
        single_line(metrics.cpu_kernel),
    ensures
        forall|i: int|
            0 <= i < base_samples(metrics).len() ==> single_sample(
                #[trigger] base_samples(metrics)[i],
            ),
{
    broadcast use lemma_single_decimal;

    lemma_single_marks();
    reveal_strlit("docker_cpu_usage_total");
    reveal_strlit("Total CPU usage (user and kernel) in seconds");
    reveal_strlit("docker_cpu_usage_user");
    reveal_strlit("User CPU usage in seconds");
    reveal_strlit("docker_cpu_usage_kernel");
    reveal_strlit("Kernel CPU usage in seconds");
    reveal_strlit("docker_memory_total");
    reveal_strlit("Total memory size in bytes");
    reveal_strlit("docker_memory_usage");
    reveal_strlit("Usage memory size in bytes");
    reveal_strlit("docker_network_received_bytes");
    reveal_strlit("Number of bytes received on the network");
    reveal_strlit("docker_network_received_packages");
    reveal_strlit("Number of packages received on the network");
    reveal_strlit("docker_network_transmit_bytes");
    reveal_strlit("Number of bytes transmitted on the network");
    reveal_strlit("docker_network_transmit_packages");
    reveal_strlit("Number of packages transmitted on the network");
    reveal_strlit("docker_io_read_bytes");
    reveal_strlit("Number of bytes read by the block device");
    reveal_strlit("docker_io_write_bytes");
    reveal_strlit("Number of bytes write by the block device");
    reveal_strlit("docker_process_pids_count");
    reveal_strlit("Number of running processes and threads");
}

proof fn lemma_single_logs(metrics: LogMetrics, custom: bool)
    ensures
        forall|i: int|
            0 <= i < log_samples(metrics, custom).len() ==> single_sample(
                #[trigger] log_samples(metrics, custom)[i],
            ),
{
    broadcast use lemma_single_signed;

    lemma_single_marks();
    reveal_strlit("docker_logs_stdout_count");
    reveal_strlit("Number of logs from stdout stream");
    reveal_strlit("docker_logs_stderr_count");
    reveal_strlit("Number of logs from stderr stream");
    reveal_strlit("docker_logs_all_count");
    reveal_strlit("Number of logs from all stream");
    reveal_strlit("docker_logs_custom_count");
    reveal_strlit("Number of logs containing custom regular expression from all streams (by default, containing the error level)");
}

proof fn lemma_single_start(started_date: i64)
    ensures
        forall|i: int|
            0 <= i < start_samples(started_date).len() ==> single_sample(
                #[trigger] start_samples(started_date)[i],
            ),
{
    broadcast use lemma_single_signed;

    lemma_single_marks();
    reveal_strlit("docker_started_time");
    reveal_strlit("Container started time");
}

proof fn lemma_single_container(state: MetricsView, id: Seq<char>, hostname: Seq<char>)
    requires
        shows_single_lines(state, hostname),
        single_line(id),
    ensures
        single_lines(state.container_report(id, hostname)),
{
    let blank = seq![Seq::<char>::empty()];
    assert(single_lines(blank));
    if state.info.contains_key(id) {
        let labels = Labels { id, container_name: state.info[id].name, hostname };
        if state.base_metrics.contains_key(id) {
            lemma_single_base(state.base_metrics[id]);
            lemma_single_families(labels, base_samples(state.base_metrics[id]));
        }
        if state.log_metrics.contains_key(id) {
            let custom = state.get_log_custom_metrics;
            lemma_single_logs(state.log_metrics[id], custom);
            lemma_single_families(labels, log_samples(state.log_metrics[id], custom));
        }
        if state.inspect_metrics.contains_key(id) {
            lemma_single_start(state.inspect_metrics[id]);
            lemma_single_families(labels, start_samples(state.inspect_metrics[id]));
        }
        let base = state.base_report(id, labels);
        let logs = state.log_report(id, labels);
        let start = state.start_report(id, labels);
        lemma_single_lines_concat(base, logs);
        lemma_single_lines_concat(base + logs, start);
        lemma_single_lines_concat(base + logs + start, blank);
        assert(state.container_report(id, hostname) =~= base + logs + start + blank);
    }
}

proof fn lemma_single_containers(state: MetricsView, ids: Seq<Seq<char>>, hostname: Seq<char>)
    requires
        shows_single_lines(state, hostname),
        single_lines(ids),
    ensures
        single_lines(state.containers_report(ids, hostname)),
    decreases ids.len(),
{
    if ids.len() > 0 {
        assert forall|i: int| 0 <= i < ids.drop_last().len() implies single_line(
            #[trigger] ids.drop_last()[i],
        ) by {
            assert(ids.drop_last()[i] == ids[i]);
        }
        lemma_single_containers(state, ids.drop_last(), hostname);
        assert(single_line(ids[ids.len() - 1]));
        lemma_single_container(state, ids.last(), hostname);
        lemma_single_lines_concat(
            state.containers_report(ids.drop_last(), hostname),
            state.container_report(ids.last(), hostname),
        );
    }
}

proof fn lemma_single_count(name: Seq<char>, help: Seq<char>, hostname: Seq<char>, count: int)
    requires
        single_line(name),
        single_line(help),
        single_line(hostname),
    ensures
        single_lines(count_family(name, help, hostname, count)),
{
    lemma_single_marks();
    lemma_single_comments(name, help, "gauge"@);
    lemma_single_signed(count);
    let a = "{hostname=\""@;
    let b = "\"} "@;
    lemma_single_concat(name, a);
    lemma_single_concat(name + a, hostname);
    lemma_single_concat(name + a + hostname, b);
    lemma_single_concat(name + a + hostname + b, signed_decimal(count));
}

/// Where no text that a report shows holds a line feed, splitting the text of
/// the report at its line feeds gives back the lines of the report.
pub proof fn law_report_splits_back(state: MetricsView, hostname: Seq<char>)
    requires
        shows_single_lines(state, hostname),
    ensures
        segments(joined(state.report(hostname))) == state.report(hostname),
{
    reveal_strlit("docker_containers_up_count");
    reveal_strlit("Number of running containers");
    reveal_strlit("docker_containers_down_count");
    reveal_strlit("Number of stopped containers");
    let up = count_family(
        "docker_containers_up_count"@,
        "Number of running containers"@,
        hostname,
        state.containers_up,
    );
    let down = count_family(
        "docker_containers_down_count"@,
        "Number of stopped containers"@,
        hostname,
        state.containers_down,
    );
    let blank = seq![Seq::<char>::empty()];
    lemma_single_count(
        "docker_containers_up_count"@,
        "Number of running containers"@,
        hostname,
        state.containers_up,
    );
    lemma_single_count(
        "docker_containers_down_count"@,
        "Number of stopped containers"@,
        hostname,
        state.containers_down,
    );
    assert(single_lines(blank));
    lemma_single_lines_concat(up, down);
    lemma_single_lines_concat(up + down, blank);
    assert(state.host_report(hostname) =~= up + down + blank);
    lemma_single_containers(state, state.ids, hostname);
    lemma_single_lines_concat(
        state.host_report(hostname),
        state.containers_report(state.ids, hostname),
    );
    law_joined_lines_split_back(state.report(hostname));
}

proof fn lemma_others_kept<T>(outcomes: Seq<Outcome<T>>, i: int)
    requires
        0 <= i < outcomes.len(),
        !any_lost(outcomes),
    ensures
        !any_lost(outcomes.update(i, Outcome::Failed)),
{
    let failed = outcomes.update(i, Outcome::Failed);
    assert forall|j: int| 0 <= j < failed.len() implies !(#[trigger] failed[j] is Lost) by {
        assert(!(outcomes[j] is Lost));
    }
}

proof fn lemma_base_kept(outcomes: Seq<Outcome<BaseMetricsView>>, i: int, id: Seq<char>)
    requires
        0 <= i < outcomes.len(),
        outcomes[i] matches Outcome::Done(metrics) ==> metrics.id != id,
    ensures
        base_results(outcomes.update(i, Outcome::Failed)).contains_key(id) == base_results(
            outcomes,
        ).contains_key(id),
        base_results(outcomes).contains_key(id) ==> base_results(
            outcomes.update(i, Outcome::Failed),
        )[id] == base_results(outcomes)[id],
    decreases outcomes.len(),
{
    let failed = outcomes.update(i, Outcome::Failed);
    let before = outcomes.drop_last();
    if i == before.len() {
        assert(failed.drop_last() =~= before);
    } else {
        lemma_base_kept(before, i, id);
        assert(failed.drop_last() =~= before.update(i, Outcome::Failed));
    }
}

proof fn lemma_counts_kept(
    outcomes: Seq<Outcome<LogMetricView>>,
    custom: bool,
    i: int,
    id: Seq<char>,
)
    requires
        0 <= i < outcomes.len(),
        outcomes[i] matches Outcome::Done(metric) ==> metric.id != id,
    ensures
        stream_counts(outcomes.update(i, Outcome::Failed), custom).contains_key(id)
            == stream_counts(outcomes, custom).contains_key(id),
        stream_counts(outcomes, custom).contains_key(id) ==> stream_counts(
            outcomes.update(i, Outcome::Failed),
            custom,
        )[id] == stream_counts(outcomes, custom)[id],
    decreases outcomes.len(),
{
    let failed = outcomes.update(i, Outcome::Failed);
    let before = outcomes.drop_last();
    if i == before.len() {
        assert(failed.drop_last() =~= before);
    } else {
        lemma_counts_kept(before, custom, i, id);
        assert(failed.drop_last() =~= before.update(i, Outcome::Failed));
    }
}

proof fn lemma_starts_kept(outcomes: Seq<Outcome<InspectMetricView>>, i: int, id: Seq<char>)
    requires
        0 <= i < outcomes.len(),
        outcomes[i] matches Outcome::Done(metric) ==> metric.id != id,
    ensures
        inspect_results(outcomes.update(i, Outcome::Failed)).contains_key(id) == inspect_results(
            outcomes,
        ).contains_key(id),
        inspect_results(outcomes).contains_key(id) ==> inspect_results(
            outcomes.update(i, Outcome::Failed),
        )[id] == inspect_results(outcomes)[id],
    decreases outcomes.len(),
{
    let failed = outcomes.update(i, Outcome::Failed);
    let before = outcomes.drop_last();
    if i == before.len() {
        assert(failed.drop_last() =~= before);
    } else {
        lemma_starts_kept(before, i, id);
        assert(failed.drop_last() =~= before.update(i, Outcome::Failed));
    }
}

/// A task that fails instead of reading the usage of one container changes
/// nothing in the report on any other.
pub proof fn law_failed_usage_spares_others(
    state: MetricsView,
    outcomes: Seq<Outcome<BaseMetricsView>>,
    i: int,
    id: Seq<char>,
    hostname: Seq<char>,
)
    requires
        0 <= i < outcomes.len(),
        !any_lost(outcomes),
        outcomes[i] matches Outcome::Done(metrics) ==> metrics.id != id,
    ensures
        state.with_base(outcomes.update(i, Outcome::Failed)).container_report(id, hostname)
            == state.with_base(outcomes).container_report(id, hostname),
{
    lemma_others_kept(outcomes, i);
    lemma_base_kept(outcomes, i, id);
}

/// A task that fails instead of counting the log lines of one container changes
/// nothing in the report on any other.
pub proof fn law_failed_logs_spare_others(
    state: MetricsView,
    outcomes: Seq<Outcome<LogMetricView>>,
    i: int,
    id: Seq<char>,
    hostname: Seq<char>,
)
    requires
        0 <= i < outcomes.len(),
        !any_lost(outcomes),
        outcomes[i] matches Outcome::Done(metric) ==> metric.id != id,
    ensures
        state.with_logs(outcomes.update(i, Outcome::Failed)).container_report(id, hostname)
            == state.with_logs(outcomes).container_report(id, hostname),
{
    lemma_others_kept(outcomes, i);
    lemma_counts_kept(outcomes, state.get_log_custom_metrics, i, id);
}

/// A task that fails instead of reading the start of one container changes
/// nothing in the report on any other.
pub proof fn law_failed_inspection_spares_others(
    state: MetricsView,
    outcomes: Seq<Outcome<InspectMetricView>>,
    i: int,
    id: Seq<char>,
    hostname: Seq<char>,
)
    requires
        0 <= i < outcomes.len(),
        !any_lost(outcomes),
        outcomes[i] matches Outcome::Done(metric) ==> metric.id != id,
    ensures
        state.with_inspections(outcomes.update(i, Outcome::Failed)).container_report(id, hostname)
            == state.with_inspections(outcomes).container_report(id, hostname),
{
    lemma_others_kept(outcomes, i);
    lemma_starts_kept(outcomes, i, id);
}

/// What was not read of a container is missing from the report on it; what was
/// read is there all the same.
pub proof fn law_missing_reading_leaves_rest(
    state: MetricsView,
    id: Seq<char>,
    hostname: Seq<char>,
    labels: Labels,
)
    requires
        state.info.contains_key(id),
        labels == (Labels { id, container_name: state.info[id].name, hostname }),
    ensures
        ({
            let base = state.base_report(id, labels);
            let logs = state.log_report(id, labels);
            let start = state.start_report(id, labels);
            let report = state.container_report(id, hostname);
            let blank = Seq::<char>::empty();
            &&& !state.base_metrics.contains_key(id) ==> report == (logs + start).push(blank)
            &&& !state.log_metrics.contains_key(id) ==> report == (base + start).push(blank)
            &&& !state.inspect_metrics.contains_key(id) ==> report == (base + logs).push(blank)
        }),
{
    let none = Seq::<Seq<char>>::empty();
    let base = state.base_report(id, labels);
    let logs = state.log_report(id, labels);
    let start = state.start_report(id, labels);
    assert(none + logs =~= logs);
    assert(base + none =~= base);
    assert(base + logs + none =~= base + logs);
}

/// Whether the three lines that begin at `3 * k` are those of one metric of one
/// container: what it means, what kind it is, and its value behind the
/// identifier and the name of the container and the name of the host.
pub open spec fn shows_metric(
    report: Seq<Seq<char>>,
    k: int,
    metric_name: Seq<char>,
    help_text: Seq<char>,
    type_data: Seq<char>,
    id: Seq<char>,
    container_name: Seq<char>,
    hostname: Seq<char>,
    value: Seq<char>,
) -> bool {
    &&& report[3 * k] == "# HELP "@ + metric_name + " "@ + help_text
    &&& report[3 * k + 1] == "# TYPE "@ + metric_name + " "@ + type_data
    &&& report[3 * k + 2] == metric_name + "{containerId=\""@ + id + "\",containerName=\""@
        + container_name + "\",hostname=\""@ + hostname + "\"} "@ + value
}

proof fn lemma_shown_sample(labels: Labels, samples: Seq<SampleView>, k: int)
    requires
        0 <= k < samples.len(),
    ensures
        labels.families(samples).len() == 3 * samples.len(),
        shows_metric(
            labels.families(samples),
            k,
            samples[k].metric_name,
            samples[k].help_text,
            samples[k].type_data,
            labels.id,
            labels.container_name,
            labels.hostname,
            samples[k].value,
        ),
    decreases samples.len(),
{
    let before = samples.drop_last();
    lemma_families_len(labels, samples);
    lemma_families_len(labels, before);
    let all = labels.families(samples);
    if k < before.len() {
        lemma_shown_sample(labels, before, k);
        assert(before[k] == samples[k]);
        assert(all[3 * k] == labels.families(before)[3 * k]);
        assert(all[3 * k + 1] == labels.families(before)[3 * k + 1]);
        assert(all[3 * k + 2] == labels.families(before)[3 * k + 2]);
    } else {
        let sample = samples[k];
        reveal_strlit("\"}");
        reveal_strlit(" ");
        reveal_strlit("\"} ");
        assert("\"} "@ =~= "\"}"@ + " "@);
        assert(sample.metric_name + labels.text() + " "@ + sample.value =~= sample.metric_name
            + "{containerId=\""@ + labels.id + "\",containerName=\""@ + labels.container_name
            + "\",hostname=\""@ + labels.hostname + "\"} "@ + sample.value);
    }
}

proof fn lemma_shown_part(
    part: Seq<Seq<char>>,
    report: Seq<Seq<char>>,
    start: int,
    labels: Labels,
    samples: Seq<SampleView>,
    k: int,
)
    requires
        part == labels.families(samples),
        0 <= start,
        3 * start + part.len() <= report.len(),
        report.subrange(3 * start, 3 * start + part.len()) == part,
        0 <= k < samples.len(),
    ensures
        shows_metric(
            report,
            start + k,
            samples[k].metric_name,
            samples[k].help_text,
            samples[k].type_data,
            labels.id,
            labels.container_name,
            labels.hostname,
            samples[k].value,
        ),
{
    lemma_shown_sample(labels, samples, k);
    assert(part[3 * k] == report[3 * (start + k)]);
    assert(part[3 * k + 1] == report[3 * (start + k) + 1]);
    assert(part[3 * k + 2] == report[3 * (start + k) + 2]);
}

/// The report on a container whose usage was read begins with its twelve
/// metrics, each with the number that was read, in decimal.
pub proof fn law_usage_shown_in_report(state: MetricsView, id: Seq<char>, hostname: Seq<char>)
    requires
        state.info.contains_key(id),
        state.base_metrics.contains_key(id),
    ensures
        ({
            let report = state.container_report(id, hostname);
            let name = state.info[id].name;
            let usage = state.base_metrics[id];
            &&& report.len() > 36
            &&& shows_metric(
                report,
                0,
                "docker_cpu_usage_total"@,
                "Total CPU usage (user and kernel) in seconds"@,
                "counter"@,
                id,
                name,
                hostname,
                usage.cpu_total,
            )
            &&& shows_metric(
                report,
                1,
                "docker_cpu_usage_user"@,
                "User CPU usage in seconds"@,
                "counter"@,
                id,
                name,
                hostname,
                usage.cpu_user,
            )
            &&& shows_metric(
                report,
                2,
                "docker_cpu_usage_kernel"@,
                "Kernel CPU usage in seconds"@,
                "counter"@,
                id,
                name,
                hostname,
                usage.cpu_kernel,
            )
            &&& shows_metric(
                report,
                3,
                "docker_memory_total"@,
                "Total memory size in bytes"@,
                "gauge"@,
                id,
                name,
                hostname,
                decimal(usage.mem_total_bytes as nat),
            )
            &&& shows_metric(
                report,
                4,
                "docker_memory_usage"@,
                "Usage memory size in bytes"@,
                "gauge"@,
                id,
                name,
                hostname,
                decimal(usage.mem_usage_bytes as nat),
            )
            &&& shows_metric(
                report,
                5,
                "docker_network_received_bytes"@,
                "Number of bytes received on the network"@,
                "counter"@,
                id,
                name,
                hostname,
                decimal(usage.net_receive_bytes as nat),
            )
            &&& shows_metric(
                report,
                6,
                "docker_network_received_packages"@,
                "Number of packages received on the network"@,
                "counter"@,
                id,
                name,
                hostname,
                decimal(usage.net_receive_packets as nat),
            )
            &&& shows_metric(
                report,
                7,
                "docker_network_transmit_bytes"@,
                "Number of bytes transmitted on the network"@,
                "counter"@,
                id,
                name,
                hostname,
                decimal(usage.net_transmit_bytes as nat),
            )
            &&& shows_metric(
                report,
                8,
                "docker_network_transmit_packages"@,
                "Number of packages transmitted on the network"@,
                "counter"@,
                id,
                name,
                hostname,
                decimal(usage.net_transmit_packets as nat),
            )
            &&& shows_metric(
                report,
                9,
                "docker_io_read_bytes"@,
                "Number of bytes read by the block device"@,
                "counter"@,
                id,
                name,
                hostname,
                decimal(usage.io_read_bytes as nat),
            )
            &&& shows_metric(
                report,
                10,
                "docker_io_write_bytes"@,
                "Number of bytes write by the block device"@,
                "counter"@,
                id,
                name,
                hostname,
                decimal(usage.io_write_bytes as nat),
            )
            &&& shows_metric(
                report,
                11,
                "docker_process_pids_count"@,
                "Number of running processes and threads"@,
                "gauge"@,
                id,
                name,
                hostname,
                decimal(usage.pids as nat),
            )
        }),
{
    let report = state.container_report(id, hostname);
    let labels = Labels { id, container_name: state.info[id].name, hostname };
    let samples = base_samples(state.base_metrics[id]);
    let part = state.base_report(id, labels);
    lemma_families_len(labels, samples);
    law_container_report_len(state, id, hostname);
    assert(report.subrange(0, part.len() as int) =~= part);
    assert(samples.len() == 12);
    lemma_shown_part(part, report, 0, labels, samples, 0);
    lemma_shown_part(part, report, 0, labels, samples, 1);
    lemma_shown_part(part, report, 0, labels, samples, 2);
    lemma_shown_part(part, report, 0, labels, samples, 3);
    lemma_shown_part(part, report, 0, labels, samples, 4);
    lemma_shown_part(part, report, 0, labels, samples, 5);
    lemma_shown_part(part, report, 0, labels, samples, 6);
    lemma_shown_part(part, report, 0, labels, samples, 7);
    lemma_shown_part(part, report, 0, labels, samples, 8);
    lemma_shown_part(part, report, 0, labels, samples, 9);
    lemma_shown_part(part, report, 0, labels, samples, 10);
    lemma_shown_part(part, report, 0, labels, samples, 11);
}

/// The report on a container whose logs were counted shows the lines of each
/// stream and of both, and the custom lines where they are asked for, after the
/// metrics on its usage, where that was read.
pub proof fn law_logs_shown_in_report(state: MetricsView, id: Seq<char>, hostname: Seq<char>)
    requires
        state.info.contains_key(id),
        state.get_log_metrics,
        state.log_metrics.contains_key(id),
    ensures
        ({
            let report = state.container_report(id, hostname);
            let name = state.info[id].name;
            let counts = state.log_metrics[id];
            let k: int = if state.base_metrics.contains_key(id) {
                12
            } else {
                0
            };
            &&& report.len() > 3 * k + 9
            &&& shows_metric(
                report,
                k,
                "docker_logs_stdout_count"@,
                "Number of logs from stdout stream"@,
                "counter"@,
                id,
                name,
                hostname,
                signed_decimal(counts.stdout as int),
            )
            &&& shows_metric(
                report,
                k + 1,
                "docker_logs_stderr_count"@,
                "Number of logs from stderr stream"@,
                "counter"@,
                id,
                name,
                hostname,
                signed_decimal(counts.stderr as int),
            )
            &&& shows_metric(
                report,
                k + 2,
                "docker_logs_all_count"@,
                "Number of logs from all stream"@,
                "counter"@,
                id,
                name,
                hostname,
                signed_decimal(counts.std_all as int),
            )
            &&& state.get_log_custom_metrics ==> report.len() > 3 * k + 12 && shows_metric(
                report,
                k + 3,
                "docker_logs_custom_count"@,
                "Number of logs containing custom regular expression from all streams (by default, containing the error level)"@,
                "counter"@,
                id,
                name,
                hostname,
                signed_decimal(counts.std_custom as int),
            )
        }),
{
    let report = state.container_report(id, hostname);
    let labels = Labels { id, container_name: state.info[id].name, hostname };
    let base = state.base_report(id, labels);
    let custom = state.get_log_custom_metrics;
    let samples = log_samples(state.log_metrics[id], custom);
    let part = state.log_report(id, labels);
    let k: int = if state.base_metrics.contains_key(id) {
        12
    } else {
        0
    };
    lemma_families_len(labels, samples);
    lemma_families_len(labels, base_samples(state.base_metrics[id]));
    law_container_report_len(state, id, hostname);
    assert(base.len() == 3 * k);
    assert(report.subrange(3 * k, 3 * k + part.len()) =~= part);
    lemma_shown_part(part, report, k, labels, samples, 0);
    lemma_shown_part(part, report, k, labels, samples, 1);
    lemma_shown_part(part, report, k, labels, samples, 2);
    if custom {
        assert(samples.len() == 4);
        lemma_shown_part(part, report, k, labels, samples, 3);
    }
}

/// The report on a container whose start was read shows it last, before the
/// empty line.
pub proof fn law_start_shown_in_report(state: MetricsView, id: Seq<char>, hostname: Seq<char>)
    requires
        state.info.contains_key(id),
        state.inspect_metrics.contains_key(id),
    ensures
        ({
            let report = state.container_report(id, hostname);
            let k = metric_count(state, id) - 1;
            &&& report.len() == 3 * k + 4
            &&& shows_metric(
                report,
                k,
                "docker_started_time"@,
                "Container started time"@,
                "gauge"@,
                id,
                state.info[id].name,
                hostname,
                signed_decimal(state.inspect_metrics[id] as int),
            )
        }),
{
    let report = state.container_report(id, hostname);
    let labels = Labels { id, container_name: state.info[id].name, hostname };
    let base = state.base_report(id, labels);
    let logs = state.log_report(id, labels);
    let samples = start_samples(state.inspect_metrics[id]);
    let part = state.start_report(id, labels);
    let k = metric_count(state, id) - 1;
    lemma_families_len(labels, samples);
    lemma_families_len(labels, base_samples(state.base_metrics[id]));
    lemma_families_len(labels, log_samples(state.log_metrics[id], state.get_log_custom_metrics));
    law_container_report_len(state, id, hostname);
    assert((base + logs).len() == 3 * k);
    assert(report.subrange(3 * k, 3 * k + part.len()) =~= part);
    lemma_shown_part(part, report, k, labels, samples, 0);
}

/// The report on a container ends in an empty line, which is all there is of one
/// that is not known to run.
pub proof fn law_container_report_ends_empty(
    state: MetricsView,
    id: Seq<char>,
    hostname: Seq<char>,
)
    ensures
        state.container_report(id, hostname).len() > 0,
        state.container_report(id, hostname).last() == Seq::<char>::empty(),
        !state.info.contains_key(id) ==> state.container_report(id, hostname) == seq![
            Seq::<char>::empty(),
        ],
{
}

/// Whether `line` is the sample of a metric of the host whose value is `count`:
/// the name of the metric, the name of the host, and a decimal number without
/// leading zeros that reads as `count`.
pub open spec fn shows_count(
    line: Seq<char>,
    metric_name: Seq<char>,
    hostname: Seq<char>,
    count: int,
) -> bool {
    let start = metric_name + "{hostname=\""@ + hostname + "\"} "@;
    let number = line.skip(start.len() as int);
    &&& line.len() > start.len()
    &&& line.take(start.len() as int) == start
    &&& forall|i: int| 0 <= i < number.len() ==> '0' <= #[trigger] number[i] <= '9'
    &&& number[0] == '0' ==> number.len() == 1
    &&& decimal_value(number) == count
}

/// A report begins with the number of containers that are up and the number of
/// those that are down, each with what it means and what kind it is, and an
/// empty line.
pub proof fn law_report_begins_with_counts(state: MetricsView, hostname: Seq<char>)
    requires
        state.containers_up >= 0,
        state.containers_down >= 0,
    ensures
        ({
            let report = state.report(hostname);
            &&& report.len() >= 7
            &&& report[0] == "# HELP "@ + "docker_containers_up_count"@ + " "@
                + "Number of running containers"@
            &&& report[1] == "# TYPE "@ + "docker_containers_up_count"@ + " "@ + "gauge"@
            &&& shows_count(
                report[2],
                "docker_containers_up_count"@,
                hostname,
                state.containers_up,
            )
            &&& report[3] == "# HELP "@ + "docker_containers_down_count"@ + " "@
                + "Number of stopped containers"@
            &&& report[4] == "# TYPE "@ + "docker_containers_down_count"@ + " "@ + "gauge"@
            &&& shows_count(
                report[5],
                "docker_containers_down_count"@,
                hostname,
                state.containers_down,
            )
            &&& report[6] == Seq::<char>::empty()
        }),
{
    let report = state.report(hostname);
    let host = state.host_report(hostname);
    assert(forall|i: int| 0 <= i < 7 ==> report[i] == host[i]);
    lemma_count_shown("docker_containers_up_count"@, hostname, state.containers_up);
    lemma_count_shown("docker_containers_down_count"@, hostname, state.containers_down);
}

proof fn lemma_count_shown(metric_name: Seq<char>, hostname: Seq<char>, count: int)
    requires
        count >= 0,
    ensures
        shows_count(
            metric_name + "{hostname=\""@ + hostname + "\"} "@ + signed_decimal(count),
            metric_name,
            hostname,
            count,
        ),
{
    let start = metric_name + "{hostname=\""@ + hostname + "\"} "@;
    let line = start + signed_decimal(count);
    law_signed_decimal_reads_back(count);
    law_decimal_without_leading_zeros(count as nat);
    assert(line.take(start.len() as int) =~= start);
    assert(line.skip(start.len() as int) =~= signed_decimal(count));
}

/// The counts at the head of a report are those of the list of containers that
/// was taken in last: how many of them have the state `running`, and how many
/// have not.
pub proof fn law_report_counts_the_list(
    state: MetricsView,
    containers: Seq<ContainerView>,
    hostname: Seq<char>,
)
    ensures
        ({
            let report = state.with_containers(containers).report(hostname);
            &&& report.len() >= 7
            &&& shows_count(
                report[2],
                "docker_containers_up_count"@,
                hostname,
                containers.filter(|c: ContainerView| c.state == Some("running"@)).len() as int,
            )
            &&& shows_count(
                report[5],
                "docker_containers_down_count"@,
                hostname,
                containers.filter(|c: ContainerView| c.state != Some("running"@)).len() as int,
            )
        }),
{
    law_containers_counted_by_state(state, containers);
    law_report_begins_with_counts(state.with_containers(containers), hostname);
}

proof fn lemma_containers_in_order(state: MetricsView, ids: Seq<Seq<char>>, hostname: Seq<char>)
    ensures
        state.containers_report(ids, hostname) == ids.map_values(
            |id: Seq<char>| state.container_report(id, hostname),
        ).flatten(),
    decreases ids.len(),
{
    let lines = |id: Seq<char>| state.container_report(id, hostname);
    if ids.len() == 0 {
        assert(ids.map_values(lines) =~= Seq::<Seq<Seq<char>>>::empty());
    } else {
        let before = ids.drop_last();
        lemma_containers_in_order(state, before, hostname);
        before.map_values(lines).lemma_flatten_push(lines(ids.last()));
        assert(ids.map_values(lines) =~= before.map_values(lines).push(lines(ids.last())));
    }
}

/// After the seven lines on the host a report holds the lines on each listed
/// container, in the order of the list, and nothing else.
pub proof fn law_report_follows_list(state: MetricsView, hostname: Seq<char>)
    ensures
        state.report(hostname).len() >= 7,
        state.report(hostname).skip(7) == state.ids.map_values(
            |id: Seq<char>| state.container_report(id, hostname),
        ).flatten(),
{
    lemma_containers_in_order(state, state.ids, hostname);
    assert(state.host_report(hostname).len() == 7);
    assert(state.report(hostname).skip(7) =~= state.containers_report(state.ids, hostname));
}

/// The report that is made begins with the numbers of containers that the
/// exporter holds, and goes on with the lines on each listed container.
pub proof fn law_report_made(metrics: &Metrics, hostname: &str, data: Vec<String>)
    requires
        call_ensures(Metrics::report, (metrics, hostname), data),
        metrics.containers_up >= 0,
        metrics.containers_down >= 0,
    ensures
        data@.len() >= 7,
        shows_count(
            data@[2]@,
            "docker_containers_up_count"@,
            hostname@,
            metrics.containers_up as int,
        ),
        shows_count(
            data@[5]@,
            "docker_containers_down_count"@,
            hostname@,
            metrics.containers_down as int,
        ),
        data@[6]@ == Seq::<char>::empty(),
        texts(data@).skip(7) == texts(metrics.ids@).map_values(
            |id: Seq<char>| metrics@.container_report(id, hostname@),
        ).flatten(),
{
    law_report_begins_with_counts(metrics@, hostname@);
    law_report_follows_list(metrics@, hostname@);
    law_texts_one_by_one(data@);
}

/// The three lines of a metric are what it means, what kind it is, and its value
/// behind its labels, all as they were given.
pub proof fn law_metric_formatted(
    metric_name: &str,
    help_text: &str,
    type_data: &str,
    id: &str,
    container_name: &str,
    hostname: &str,
    value: &str,
    data: Vec<String>,
)
    requires
        call_ensures(
            Metrics::prometheus_format,
            (metric_name, help_text, type_data, id, container_name, hostname, value),
            data,
        ),
    ensures
        data@.len() == 3,
        shows_metric(
            texts(data@),
            0,
            metric_name@,
            help_text@,
            type_data@,
            id@,
            container_name@,
            hostname@,
            value@,
        ),
{
    law_texts_one_by_one(data@);
}

/// The lines that are made on a container that is known to run are three for
/// each metric and an empty one at the end, which is all there is of any other.
pub proof fn law_container_lines_made(
    metrics: &Metrics,
    id: &str,
    hostname: &str,
    data: Vec<String>,
)
    requires
        call_ensures(Metrics::prometheus_metrics, (metrics, id, hostname), data),
    ensures
        texts(data@) == metrics@.container_report(id@, hostname@),
        !metrics.info@.contains_key(id@) ==> data@.len() == 1,
        data@.len() > 0,
        data@[data@.len() - 1]@ == Seq::<char>::empty(),
        metrics.info@.contains_key(id@) ==> data@.len() == 3 * metric_count(metrics@, id@) + 1,
{
    law_texts_one_by_one(data@);
    law_container_report_len(metrics@, id@, hostname@);
    law_container_report_ends_empty(metrics@, id@, hostname@);
}

/// Whatever the two counts of the host are, their lines show them in decimal.
pub proof fn law_counts_shown_as_they_are(state: MetricsView, hostname: Seq<char>)
    ensures
        state.report(hostname).len() >= 7,
        state.report(hostname)[2] == "docker_containers_up_count"@ + "{hostname=\""@ + hostname
            + "\"} "@ + signed_decimal(state.containers_up),
        state.report(hostname)[5] == "docker_containers_down_count"@ + "{hostname=\""@ + hostname
            + "\"} "@ + signed_decimal(state.containers_down),
{
    let host = state.host_report(hostname);
    assert(forall|i: int| 0 <= i < 7 ==> state.report(hostname)[i] == host[i]);
}

} // verus!
