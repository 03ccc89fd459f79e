use docker_exporter::config::{custom_query, host_name, is_true, parse_switch, ConfigError};
use docker_exporter::inspect::{no_state_message, started_metric, ContainerState, InspectError};
use docker_exporter::logs::{count_marks, log_metric, match_lines, LogContent, LogEvent};
use docker_exporter::metrics::{LogMetric, Metrics};
use docker_exporter::stats::{BlockIo, ContainerStats, NetworkStats};
use regex::Regex;

fn network(rx_bytes: u64, rx_packets: u64, tx_bytes: u64, tx_packets: u64) -> NetworkStats {
    NetworkStats { rx_bytes, rx_packets, tx_bytes, tx_packets }
}

fn io(op: &str, value: u64) -> BlockIo {
    BlockIo { op: op.to_string(), value }
}

fn reading() -> ContainerStats {
    ContainerStats {
        cpu_total: "1.5".to_string(),
        cpu_user: "1".to_string(),
        cpu_kernel: "0.5".to_string(),
        mem_limit: Some(4096),
        mem_usage: Some(1024),
        networks: Some(vec![network(1, 2, 3, 4), network(10, 20, 30, 40)]),
        block_io: Some(vec![io("read", 5), io("write", 7), io("Read", 100), io("read", 6), io("sync", 1)]),
        pids: Some(3),
    }
}

#[test]
fn usage_is_summed() {
    let stats = Some(reading());
    assert!(stats.as_ref().unwrap().sums_fit());
    let metrics = Metrics::get_base_metrics("abc", &stats).unwrap();
    assert_eq!(metrics.id, "abc");
    assert_eq!(metrics.cpu_total, "1.5");
    assert_eq!(metrics.cpu_user, "1");
    assert_eq!(metrics.cpu_kernel, "0.5");
    assert_eq!(metrics.mem_total_bytes, 4096);
    assert_eq!(metrics.mem_usage_bytes, 1024);
    assert_eq!(metrics.net_receive_bytes, 11);
    assert_eq!(metrics.net_receive_packets, 22);
    assert_eq!(metrics.net_transmit_bytes, 33);
    assert_eq!(metrics.net_transmit_packets, 44);
    assert_eq!(metrics.io_read_bytes, 11);
    assert_eq!(metrics.io_write_bytes, 7);
    assert_eq!(metrics.pids, 3);
}

#[test]
fn order_of_devices_does_not_matter() {
    let mut turned = reading();
    if let Some(networks) = &mut turned.networks {
        networks.reverse();
    }
    if let Some(entries) = &mut turned.block_io {
        entries.reverse();
    }
    let one = Metrics::get_base_metrics("abc", &Some(reading())).unwrap();
    let other = Metrics::get_base_metrics("abc", &Some(turned)).unwrap();
    assert_eq!(format!("{:?}", one), format!("{:?}", other));
}

#[test]
fn missing_usage_counts_as_zero() {
    let stats = Some(ContainerStats {
        mem_limit: None,
        mem_usage: None,
        networks: None,
        block_io: None,
        pids: None,
        ..reading()
    });
    let metrics = Metrics::get_base_metrics("abc", &stats).unwrap();
    assert_eq!(metrics.mem_total_bytes, 0);
    assert_eq!(metrics.mem_usage_bytes, 0);
    assert_eq!(metrics.net_receive_bytes, 0);
    assert_eq!(metrics.net_transmit_packets, 0);
    assert_eq!(metrics.io_read_bytes, 0);
    assert_eq!(metrics.io_write_bytes, 0);
    assert_eq!(metrics.pids, 0);
}

#[test]
fn missing_reading_is_an_error() {
    let error = Metrics::get_base_metrics("abc", &None).unwrap_err();
    assert_eq!(error.message(), "No stats available for container abc");
}

#[test]
fn sums_that_do_not_fit_are_told() {
    let mut stats = reading();
    stats.networks = Some(vec![network(u64::MAX, 0, 0, 0), network(0, 0, 0, 0)]);
    assert!(stats.sums_fit());
    stats.networks = Some(vec![network(u64::MAX, 0, 0, 0), network(1, 0, 0, 0)]);
    assert!(!stats.sums_fit());
    let mut stats = reading();
    stats.block_io = Some(vec![io("write", u64::MAX), io("write", 1)]);
    assert!(!stats.sums_fit());
    stats.block_io = Some(vec![io("write", u64::MAX), io("sync", 1)]);
    assert!(stats.sums_fit());
}

#[test]
fn log_grows_event_by_event() {
    let mut content = LogContent::new();
    assert!(content.feed(&LogEvent::StdOut(b"one\n".to_vec())));
    assert!(content.feed(&LogEvent::Other));
    assert!(content.feed(&LogEvent::StdErr("zwö".as_bytes().to_vec())));
    assert!(!content.feed(&LogEvent::Failed));
    assert_eq!(content.text, "one\nzwö");
}

#[test]
fn cuts_between_characters_do_not_matter() {
    let text = "zwö\nerr ✓\r\nend";
    let mut whole = LogContent::new();
    whole.feed(&LogEvent::StdOut(text.as_bytes().to_vec()));
    for (cut, _) in text.char_indices() {
        let mut parts = LogContent::new();
        parts.feed(&LogEvent::StdOut(text.as_bytes()[..cut].to_vec()));
        parts.feed(&LogEvent::StdErr(text.as_bytes()[cut..].to_vec()));
        assert_eq!(parts.text, whole.text);
    }
}

#[test]
fn messages_are_decoded_one_by_one() {
    let mut content = LogContent::new();
    let bytes = "é".as_bytes();
    content.feed(&LogEvent::StdOut(bytes[..1].to_vec()));
    content.feed(&LogEvent::StdOut(bytes[1..].to_vec()));
    assert_eq!(content.text, "\u{fffd}\u{fffd}");
}

fn count(text: &str, log_regex: &Option<Regex>, get_custom: bool) -> LogMetric {
    let mut content = LogContent::new();
    content.feed(&LogEvent::StdOut(text.as_bytes().to_vec()));
    Metrics::get_logs_count("abc", true, false, &content, log_regex, get_custom)
}

#[test]
fn log_lines_are_counted() {
    let regex = Some(Regex::new("(err|error|ERR|ERROR)").unwrap());
    let text = "start\nan error\r\nfine\nERR\nError";
    let metric = count(text, &regex, true);
    assert_eq!(metric.id, "abc");
    assert!(metric.stdout);
    assert!(!metric.stderr);
    assert_eq!(metric.value, 5);
    assert_eq!(metric.custom_value, 2);
}

#[test]
fn custom_lines_are_among_the_lines() {
    let all = Some(Regex::new("").unwrap());
    assert_eq!(count("a\nb\n", &all, true).custom_value, 2);
    assert_eq!(count("a\nb\n", &all, false).custom_value, 0);
    assert_eq!(count("a\nb\n", &None, true).custom_value, 0);
    assert_eq!(count("", &all, true).value, 0);
    assert_eq!(count("", &all, true).custom_value, 0);
}

#[test]
fn marks_are_counted() {
    let lines = vec!["ab".to_string(), "b".to_string(), "ca".to_string()];
    let marks = match_lines(&Regex::new("^a|a$").unwrap(), &lines);
    assert_eq!(marks, vec![true, false, true]);
    assert_eq!(count_marks(&marks), 2);
    assert_eq!(count_marks(&Vec::new()), 0);
    let metric = log_metric("abc", false, true, 3, &marks);
    assert_eq!(metric.value, 3);
    assert_eq!(metric.custom_value, 2);
    assert!(metric.stderr);
    assert!(!metric.stdout);
}

fn state(started_at: &str) -> Option<ContainerState> {
    Some(ContainerState { started_at: Some(started_at.to_string()) })
}

#[test]
fn start_time_is_a_unix_time() {
    let metric = Metrics::get_inspect("abc", &state("2012-12-12T12:12:12Z")).unwrap();
    assert_eq!(metric.id, "abc");
    assert_eq!(metric.started_date, 1_355_314_332);
    let metric = Metrics::get_inspect("abc", &state("2015-05-15T02:00:00.123456789+02:00")).unwrap();
    assert_eq!(metric.started_date, 1_431_648_000);
    let metric = Metrics::get_inspect("abc", &state("0001-01-01T00:00:00Z")).unwrap();
    assert_eq!(metric.started_date, -62_135_596_800);
}

#[test]
fn start_times_print_as_whole_numbers() {
    for text in ["1970-01-01T00:00:00Z", "2024-02-29T23:59:59Z", "+262142-12-31T23:59:59Z"] {
        let metric = Metrics::get_inspect("abc", &state(text)).unwrap();
        assert_eq!(
            docker_exporter::text::signed_text(metric.started_date),
            (metric.started_date as f64).to_string()
        );
    }
}

#[test]
fn start_time_can_be_missing() {
    assert!(matches!(Metrics::get_inspect("abc", &None), Err(InspectError::NoState)));
    assert_eq!(no_state_message(), "No state info");
    assert!(matches!(
        Metrics::get_inspect("abc", &Some(ContainerState { started_at: None })),
        Err(InspectError::InvalidDate(_))
    ));
    assert!(matches!(Metrics::get_inspect("abc", &state("")), Err(InspectError::InvalidDate(_))));
    assert!(matches!(
        Metrics::get_inspect("abc", &state("yesterday")),
        Err(InspectError::InvalidDate(_))
    ));
    assert_eq!(started_metric("abc", Ok(7)).unwrap().started_date, 7);
}

fn some(text: &str) -> Option<String> {
    Some(text.to_string())
}

#[test]
fn switches_are_on_when_true() {
    assert!(parse_switch(&some("true")));
    assert!(parse_switch(&some("TRUE")));
    assert!(parse_switch(&some("tRuE")));
    assert!(!parse_switch(&some("true ")));
    assert!(!parse_switch(&some("1")));
    assert!(!parse_switch(&some("")));
    assert!(!parse_switch(&None));
    assert!(is_true("true"));
    assert!(!is_true("True"));
}

#[test]
fn settings_make_an_exporter() {
    let metrics = Metrics::configure(&None, &None, &some("(")).unwrap();
    assert!(!metrics.get_log_metrics);
    assert!(!metrics.get_log_custom_metrics);
    assert!(metrics.log_regex.is_none());
    assert_eq!(metrics.containers_up, 0);
    assert_eq!(metrics.containers_down, 0);
    assert!(metrics.ids.is_empty());

    let metrics = Metrics::configure(&some("True"), &some("true"), &None).unwrap();
    assert!(metrics.get_log_metrics);
    assert!(metrics.get_log_custom_metrics);
    assert_eq!(metrics.log_regex.unwrap().as_str(), "(err|error|ERR|ERROR)");

    let metrics = Metrics::configure(&some("no"), &some("true"), &some("warn.*")).unwrap();
    assert!(!metrics.get_log_metrics);
    assert_eq!(metrics.log_regex.unwrap().as_str(), "warn.*");
}

#[test]
fn query_must_be_an_expression() {
    assert!(matches!(
        Metrics::configure(&None, &some("true"), &some("(")),
        Err(ConfigError::InvalidQuery(_))
    ));
    assert!(matches!(
        Metrics::with_custom_logs(true, Regex::new("[")),
        Err(ConfigError::InvalidQuery(_))
    ));
}

#[test]
fn refusal_is_that_of_the_query() {
    for pattern in ["(", "a{2,1}", "[z-a]"] {
        let expected = Regex::new(pattern).unwrap_err();
        match Metrics::configure(&None, &some("true"), &some(pattern)) {
            Err(ConfigError::InvalidQuery(error)) => assert_eq!(error, expected),
            Ok(_) => panic!("{:?} must be refused", pattern),
        }
    }
}

#[test]
fn without_a_query_errors_are_looked_for() {
    assert_eq!(custom_query(&None), "(err|error|ERR|ERROR)");
    assert_eq!(custom_query(&some("warn")), "warn");
    assert_eq!(custom_query(&some("")), "");
    for log_metrics in [None, some("true")] {
        for custom in [None, some("true"), some("false")] {
            assert!(Metrics::configure(&log_metrics, &custom, &None).is_ok());
        }
    }
}

#[test]
fn host_without_name_is_unknown() {
    assert_eq!(host_name(some("box")), "box");
    assert_eq!(host_name(None), "unknown");
}
