use docker_exporter::containers::{containers_countable, Container};
use docker_exporter::logs::{LogContent, LogEvent};
use docker_exporter::metrics::{BaseMetrics, InspectMetric, LogMetric, Metrics};
use docker_exporter::record::{has_lost, logs_summable, Outcome};
use docker_exporter::scrape::{LogRequest, ScrapeEvent, ScrapeStep};
use regex::Regex;

fn some(text: &str) -> Option<String> {
    Some(text.to_string())
}

fn container(id: &str, name: &str, state: &str) -> Container {
    Container {
        id: some(id),
        names: Some(vec![name.to_string(), "/other".to_string()]),
        state: some(state),
        status: some("Up 2 hours"),
    }
}

fn usage(id: &str) -> BaseMetrics {
    BaseMetrics {
        id: id.to_string(),
        cpu_total: "1.5".to_string(),
        cpu_user: "1".to_string(),
        cpu_kernel: "0.5".to_string(),
        mem_total_bytes: 1,
        mem_usage_bytes: 2,
        net_receive_bytes: 3,
        net_receive_packets: 4,
        net_transmit_bytes: 5,
        net_transmit_packets: 6,
        io_read_bytes: 7,
        io_write_bytes: 8,
        pids: 9,
    }
}

fn stream(id: &str, stdout: bool, value: i64, custom_value: i64) -> Outcome<LogMetric> {
    Outcome::Done(LogMetric { id: id.to_string(), stdout, stderr: !stdout, value, custom_value })
}

fn start(id: &str, started_date: i64) -> Outcome<InspectMetric> {
    Outcome::Done(InspectMetric { id: id.to_string(), started_date })
}

fn custom_exporter() -> Metrics {
    Metrics::new(true, true, Some(Regex::new("err").unwrap()))
}

fn report(step: ScrapeStep) -> Vec<String> {
    match step {
        ScrapeStep::Report(lines) => lines,
        other => panic!("a report was expected, not {:?}", other),
    }
}

#[test]
fn containers_are_counted_and_named() {
    let mut metrics = Metrics::new(false, false, None);
    let list = vec![
        container("a", "//web", "running"),
        container("b", "/db", "exited"),
        Container { id: None, names: None, state: some("running"), status: None },
        Container { id: some("c"), names: Some(vec![]), state: None, status: None },
    ];
    assert!(containers_countable(&list));
    metrics.get_containers(&list);
    assert_eq!(metrics.containers_up, 2);
    assert_eq!(metrics.containers_down, 2);
    assert_eq!(metrics.ids, vec!["a", ""]);
    let info = metrics.info.get("a").unwrap();
    assert_eq!(info.name, "web");
    assert_eq!(info.state, "running");
    assert_eq!(info.status, "Up 2 hours");
    assert_eq!(metrics.info.get("").unwrap().name, "");
    assert!(metrics.info.get("b").is_none());
    assert!(metrics.info.get("c").is_none());
}

#[test]
fn every_list_replaces_the_last() {
    let mut metrics = Metrics::new(false, false, None);
    metrics.get_containers(&vec![container("a", "/web", "running")]);
    metrics.get_containers(&vec![container("b", "/one", "running"), container("b", "/two", "running")]);
    assert_eq!(metrics.containers_up, 2);
    assert_eq!(metrics.containers_down, 0);
    assert_eq!(metrics.ids, vec!["b", "b"]);
    assert!(metrics.info.get("a").is_none());
    assert_eq!(metrics.info.get("b").unwrap().name, "two");
}

#[test]
fn a_metric_has_three_lines() {
    assert_eq!(
        Metrics::prometheus_format("m", "A help text", "gauge", "abc", "web", "box", "1.5"),
        vec![
            "# HELP m A help text",
            "# TYPE m gauge",
            "m{containerId=\"abc\",containerName=\"web\",hostname=\"box\"} 1.5",
        ]
    );
}

#[test]
fn an_unknown_container_is_not_reported() {
    let mut metrics = Metrics::new(true, true, None);
    assert!(metrics.record_base(vec![Outcome::Done(usage("a"))]));
    assert_eq!(metrics.prometheus_metrics("a", "box"), vec![""]);
}

#[test]
fn a_full_scrape_ends_in_the_report() {
    let mut metrics = custom_exporter();
    let list = vec![container("a", "/web", "running"), container("b", "/db", "exited")];
    match metrics.get_metrics(ScrapeEvent::Listed(list), "box") {
        ScrapeStep::FetchStats(ids) => assert_eq!(ids, vec!["a"]),
        other => panic!("{:?}", other),
    }
    match metrics.get_metrics(ScrapeEvent::Stats(vec![Outcome::Done(usage("a"))]), "box") {
        ScrapeStep::CountLogs(requests) => {
            assert_eq!(requests.len(), 2);
            assert_eq!(requests[0].id, "a");
            assert!(requests[0].stdout && !requests[0].stderr);
            assert_eq!(requests[1].id, "a");
            assert!(!requests[1].stdout && requests[1].stderr);
        }
        other => panic!("{:?}", other),
    }
    let logs = ScrapeEvent::Logs(vec![stream("a", true, 10, 2), stream("a", false, 20, 3)]);
    assert!(metrics.accepts(&logs));
    match metrics.get_metrics(logs, "box") {
        ScrapeStep::Inspect(ids) => assert_eq!(ids, vec!["a"]),
        other => panic!("{:?}", other),
    }
    let lines = report(metrics.get_metrics(ScrapeEvent::Inspected(vec![start("a", 1_355_314_332)]), "box"));
    let labels = "{containerId=\"a\",containerName=\"web\",hostname=\"box\"}";
    let expected = [
        ("docker_cpu_usage_total", "Total CPU usage (user and kernel) in seconds", "counter", "1.5"),
        ("docker_cpu_usage_user", "User CPU usage in seconds", "counter", "1"),
        ("docker_cpu_usage_kernel", "Kernel CPU usage in seconds", "counter", "0.5"),
        ("docker_memory_total", "Total memory size in bytes", "gauge", "1"),
        ("docker_memory_usage", "Usage memory size in bytes", "gauge", "2"),
        ("docker_network_received_bytes", "Number of bytes received on the network", "counter", "3"),
        ("docker_network_received_packages", "Number of packages received on the network", "counter", "4"),
        ("docker_network_transmit_bytes", "Number of bytes transmitted on the network", "counter", "5"),
        ("docker_network_transmit_packages", "Number of packages transmitted on the network", "counter", "6"),
        ("docker_io_read_bytes", "Number of bytes read by the block device", "counter", "7"),
        ("docker_io_write_bytes", "Number of bytes write by the block device", "counter", "8"),
        ("docker_process_pids_count", "Number of running processes and threads", "gauge", "9"),
        ("docker_logs_stdout_count", "Number of logs from stdout stream", "counter", "10"),
        ("docker_logs_stderr_count", "Number of logs from stderr stream", "counter", "20"),
        ("docker_logs_all_count", "Number of logs from all stream", "counter", "30"),
        ("docker_logs_custom_count", "Number of logs containing custom regular expression from all streams (by default, containing the error level)", "counter", "5"),
        ("docker_started_time", "Container started time", "gauge", "1355314332"),
    ];
    let mut all = vec![
        "# HELP docker_containers_up_count Number of running containers".to_string(),
        "# TYPE docker_containers_up_count gauge".to_string(),
        "docker_containers_up_count{hostname=\"box\"} 1".to_string(),
        "# HELP docker_containers_down_count Number of stopped containers".to_string(),
        "# TYPE docker_containers_down_count gauge".to_string(),
        "docker_containers_down_count{hostname=\"box\"} 1".to_string(),
        String::new(),
    ];
    for (name, help, kind, value) in expected {
        all.push(format!("# HELP {} {}", name, help));
        all.push(format!("# TYPE {} {}", name, kind));
        all.push(format!("{}{} {}", name, labels, value));
    }
    all.push(String::new());
    assert_eq!(lines, all);
    let text = docker_exporter::text::join_lines(&lines);
    assert!(text.ends_with('\n'));
    let back: Vec<&str> = text.split('\n').collect();
    assert_eq!(back, lines);
}

#[test]
fn logs_are_counted_under_the_settings() {
    let request = LogRequest { id: "a".to_string(), stdout: false, stderr: true };
    let mut content = LogContent::new();
    content.feed(&LogEvent::StdErr(b"an err\nfine\nerr\n".to_vec()));
    let metric = custom_exporter().count_request(&request, &content);
    assert_eq!(metric.id, "a");
    assert!(!metric.stdout);
    assert!(metric.stderr);
    assert_eq!(metric.value, 3);
    assert_eq!(metric.custom_value, 2);
    let other = Regex::new("fine").unwrap();
    assert_eq!(Metrics::new(true, true, Some(other)).count_request(&request, &content).custom_value, 1);
    assert_eq!(Metrics::new(true, false, None).count_request(&request, &content).custom_value, 0);
}

#[test]
fn a_failed_task_spares_the_others() {
    let report = |stats: Vec<Outcome<BaseMetrics>>| {
        let mut metrics = Metrics::new(false, false, None);
        metrics.get_containers(&vec![
            container("a", "/web", "running"),
            container("c", "/job", "running"),
        ]);
        metrics.record_base(stats);
        metrics.record_inspections(vec![start("a", 1), start("c", 2)]);
        (metrics.prometheus_metrics("a", "box"), metrics.prometheus_metrics("c", "box"))
    };
    let both = report(vec![Outcome::Done(usage("a")), Outcome::Done(usage("c"))]);
    let one = report(vec![Outcome::Failed, Outcome::Done(usage("c"))]);
    assert_eq!(one.1, both.1);
    assert_eq!(one.0[..], both.0[36..]);
}

#[test]
fn logs_are_skipped_when_not_asked_for() {
    let mut metrics = Metrics::new(false, true, None);
    metrics.get_containers(&vec![container("a", "/web", "running")]);
    match metrics.get_metrics(ScrapeEvent::Stats(vec![Outcome::Failed]), "box") {
        ScrapeStep::Inspect(ids) => assert_eq!(ids, vec!["a"]),
        other => panic!("{:?}", other),
    }
    let before = metrics.report("box");
    assert!(metrics.record_logs(vec![stream("a", true, 1, 1)]));
    assert_eq!(metrics.report("box"), before);
    assert_eq!(metrics.prometheus_metrics("a", "box"), vec![""]);
}

#[test]
fn report_lengths_follow_what_was_read() {
    let mut metrics = Metrics::new(true, false, None);
    metrics.get_containers(&vec![container("a", "/web", "running")]);
    assert_eq!(metrics.prometheus_metrics("a", "box").len(), 1);
    metrics.record_base(vec![Outcome::Done(usage("a"))]);
    assert_eq!(metrics.prometheus_metrics("a", "box").len(), 37);
    metrics.record_logs(vec![stream("a", true, 4, 1), stream("a", false, 5, 1)]);
    assert_eq!(metrics.prometheus_metrics("a", "box").len(), 46);
    metrics.record_inspections(vec![start("a", -5)]);
    let lines = metrics.prometheus_metrics("a", "box");
    assert_eq!(lines.len(), 49);
    assert_eq!(
        lines[47],
        "docker_started_time{containerId=\"a\",containerName=\"web\",hostname=\"box\"} -5"
    );
}

#[test]
fn both_streams_are_summed() {
    let mut metrics = custom_exporter();
    assert!(metrics.record_logs(vec![
        stream("a", true, 10, 2),
        stream("b", true, 1, 1),
        stream("a", false, 20, 3),
        Outcome::Failed,
    ]));
    let a = metrics.log_metrics.get("a").unwrap();
    assert_eq!((a.stdout, a.stderr, a.std_all), (10, 20, 30));
    assert_eq!((a.stderr_custom, a.stdout_custom, a.std_custom), (2, 3, 5));
    let b = metrics.log_metrics.get("b").unwrap();
    assert_eq!((b.stdout, b.stderr, b.std_all, b.std_custom), (1, 0, 1, 1));

    let mut metrics = Metrics::new(true, false, None);
    assert!(metrics.record_logs(vec![stream("a", true, 10, 2), stream("a", false, 20, 3)]));
    let a = metrics.log_metrics.get("a").unwrap();
    assert_eq!((a.std_all, a.stderr_custom, a.stdout_custom, a.std_custom), (30, 0, 0, 0));
}

#[test]
fn log_sums_that_do_not_fit_are_told() {
    let fits = vec![stream("a", true, i64::MAX, 0), stream("a", false, 0, 0), stream("b", true, 1, 0)];
    assert!(logs_summable(&fits, false));
    let too_large = vec![stream("a", true, i64::MAX, 0), stream("a", false, 1, 0)];
    assert!(!logs_summable(&too_large, false));
    let custom = vec![stream("a", true, 1, i64::MAX), stream("a", false, 1, 1)];
    assert!(logs_summable(&custom, false));
    assert!(!logs_summable(&custom, true));
    assert!(!custom_exporter().accepts(&ScrapeEvent::Logs(custom)));
    assert!(custom_exporter().accepts(&ScrapeEvent::ListFailed));
}

#[test]
fn a_failed_scrape_keeps_what_was_known() {
    let mut metrics = custom_exporter();
    metrics.get_containers(&vec![container("a", "/web", "running")]);
    metrics.record_base(vec![Outcome::Done(usage("a"))]);
    metrics.record_logs(vec![stream("a", true, 1, 1)]);
    metrics.record_inspections(vec![start("a", 5)]);
    let before = metrics.report("box");
    assert!(matches!(metrics.get_metrics(ScrapeEvent::ListFailed, "box"), ScrapeStep::Fail));
    assert!(matches!(
        metrics.get_metrics(ScrapeEvent::Stats(vec![Outcome::Done(usage("b")), Outcome::Lost]), "box"),
        ScrapeStep::Fail
    ));
    assert!(matches!(
        metrics.get_metrics(ScrapeEvent::Logs(vec![stream("a", true, 9, 9), Outcome::Lost]), "box"),
        ScrapeStep::Fail
    ));
    assert!(matches!(
        metrics.get_metrics(ScrapeEvent::Inspected(vec![Outcome::Lost, start("a", 6)]), "box"),
        ScrapeStep::Fail
    ));
    assert_eq!(metrics.report("box"), before);
}

#[test]
fn lost_tasks_are_found() {
    assert!(!has_lost(&Vec::<Outcome<LogMetric>>::new()));
    assert!(!has_lost(&vec![stream("a", true, 1, 1), Outcome::Failed]));
    assert!(has_lost(&vec![stream("a", true, 1, 1), Outcome::Lost]));
}

#[test]
fn failed_tasks_leave_their_container_out() {
    let mut metrics = Metrics::new(false, false, None);
    assert!(metrics.record_base(vec![Outcome::Failed, Outcome::Done(usage("b"))]));
    assert!(metrics.base_metrics.get("b").is_some());
    assert!(metrics.record_base(vec![Outcome::Failed]));
    assert!(metrics.base_metrics.get("b").is_none());
    assert!(metrics.record_inspections(vec![start("a", 1), Outcome::Failed, start("a", 2)]));
    assert_eq!(metrics.inspect_metrics.get("a"), Some(&2));
}

fn run(metrics: &mut Metrics) -> Vec<String> {
    let list = vec![container("a", "/web", "running"), container("c", "/job", "running")];
    metrics.get_metrics(ScrapeEvent::Listed(list), "box");
    metrics.get_metrics(ScrapeEvent::Stats(vec![Outcome::Failed, Outcome::Done(usage("c"))]), "box");
    metrics.get_metrics(ScrapeEvent::Logs(vec![stream("a", true, 1, 0)]), "box");
    report(metrics.get_metrics(ScrapeEvent::Inspected(vec![start("c", 7)]), "box"))
}

#[test]
fn a_report_does_not_depend_on_the_last() {
    let mut fresh = custom_exporter();
    let first = run(&mut fresh);
    let mut used = custom_exporter();
    used.get_containers(&vec![container("a", "/old", "running"), container("z", "/gone", "exited")]);
    used.record_base(vec![Outcome::Done(usage("a"))]);
    used.record_logs(vec![stream("c", true, 50, 5), stream("a", false, 2, 2)]);
    used.record_inspections(vec![start("a", 1)]);
    assert_eq!(run(&mut used), first);
    assert_eq!(run(&mut used), first);
}

#[test]
fn a_report_holds_every_running_container() {
    let mut metrics = custom_exporter();
    let lines = run(&mut metrics);
    let a = metrics.prometheus_metrics("a", "box");
    let c = metrics.prometheus_metrics("c", "box");
    assert_eq!(lines[7..7 + a.len()], a[..]);
    assert_eq!(lines[7 + a.len()..], c[..]);
}
