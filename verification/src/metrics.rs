//! The state of the exporter and the records it is made of.
use crate::text::texts;
use regex::Regex;
use vstd::hash_map::StringHashMap;
use vstd::prelude::*;

verus! {

/// The views of a sequence of values.
pub open spec fn views<T: View>(values: Seq<T>) -> Seq<T::V> {
    Seq::new(values.len(), |i: int| values[i]@)
}

/// A map with each value replaced by its view.
pub open spec fn value_views<T: View>(map: Map<Seq<char>, T>) -> Map<Seq<char>, T::V> {
    map.map_values(|value: T| value@)
}

/// The text of an optional string.
pub open spec fn option_text(text: Option<String>) -> Option<Seq<char>> {
    match text {
        Some(t) => Some(t@),
        None => None,
    }
}

/// What is known of a running container from the list of containers.
#[derive(Debug)]
pub struct ContainerInfo {
    pub name: String,
    pub state: String,
    pub status: String,
}

#[verifier::ext_equal]
pub struct ContainerInfoView {
    pub name: Seq<char>,
    pub state: Seq<char>,
    pub status: Seq<char>,
}

impl View for ContainerInfo {
    type V = ContainerInfoView;

    open spec fn view(&self) -> ContainerInfoView {
        ContainerInfoView { name: self.name@, state: self.state@, status: self.status@ }
    }
}

/// The resource usage of one container.
///
/// The three processor times are in seconds, as the decimal text that stands
/// in the report: they are the only values that are not integers.
#[derive(Debug)]
pub struct BaseMetrics {
    pub id: String,
    pub cpu_total: String,
    pub cpu_user: String,
    pub cpu_kernel: String,
    pub mem_total_bytes: u64,
    pub mem_usage_bytes: u64,
    pub net_receive_bytes: u64,
    pub net_receive_packets: u64,
    pub net_transmit_bytes: u64,
    pub net_transmit_packets: u64,
    pub io_read_bytes: u64,
    pub io_write_bytes: u64,
    pub pids: u64,
}

#[verifier::ext_equal]
pub struct BaseMetricsView {
    pub id: Seq<char>,
    pub cpu_total: Seq<char>,
    pub cpu_user: Seq<char>,
    pub cpu_kernel: Seq<char>,
    pub mem_total_bytes: u64,
    pub mem_usage_bytes: u64,
    pub net_receive_bytes: u64,
    pub net_receive_packets: u64,
    pub net_transmit_bytes: u64,
    pub net_transmit_packets: u64,
    pub io_read_bytes: u64,
    pub io_write_bytes: u64,
    pub pids: u64,
}

impl View for BaseMetrics {
    type V = BaseMetricsView;

    open spec fn view(&self) -> BaseMetricsView {
        BaseMetricsView {
            id: self.id@,
            cpu_total: self.cpu_total@,
            cpu_user: self.cpu_user@,
            cpu_kernel: self.cpu_kernel@,
            mem_total_bytes: self.mem_total_bytes,
            mem_usage_bytes: self.mem_usage_bytes,
            net_receive_bytes: self.net_receive_bytes,
            net_receive_packets: self.net_receive_packets,
            net_transmit_bytes: self.net_transmit_bytes,
            net_transmit_packets: self.net_transmit_packets,
            io_read_bytes: self.io_read_bytes,
            io_write_bytes: self.io_write_bytes,
            pids: self.pids,
        }
    }
}

/// The log lines of one container, counted over both streams.
#[derive(Debug, Clone, Copy, PartialEq, Eq, Structural)]
pub struct LogMetrics {
    pub stdout: i64,
    pub stderr: i64,
    pub std_all: i64,
    pub stderr_custom: i64,
    pub stdout_custom: i64,
    pub std_custom: i64,
}

/// The log lines of one stream of one container.
#[derive(Debug)]
pub struct LogMetric {
    pub id: String,
    pub stdout: bool,
    pub stderr: bool,
    pub value: i64,
    pub custom_value: i64,
}

#[verifier::ext_equal]
pub struct LogMetricView {
    pub id: Seq<char>,
    pub stdout: bool,
    pub stderr: bool,
    pub value: i64,
    pub custom_value: i64,
}

impl View for LogMetric {
    type V = LogMetricView;

    open spec fn view(&self) -> LogMetricView {
        LogMetricView {
            id: self.id@,
            stdout: self.stdout,
            stderr: self.stderr,
            value: self.value,
            custom_value: self.custom_value,
        }
    }
}

/// When one container was started, in seconds since the Unix epoch.
#[derive(Debug)]
pub struct InspectMetric {
    pub id: String,
    pub started_date: i64,
}

#[verifier::ext_equal]
pub struct InspectMetricView {
    pub id: Seq<char>,
    pub started_date: i64,
}

impl View for InspectMetric {
    type V = InspectMetricView;

    open spec fn view(&self) -> InspectMetricView {
        InspectMetricView { id: self.id@, started_date: self.started_date }
    }
}

/// Everything that the exporter knows between two requests.
pub struct Metrics {
    pub containers_up: i32,
    pub containers_down: i32,
    pub ids: Vec<String>,
    pub info: StringHashMap<ContainerInfo>,
    pub base_metrics: StringHashMap<BaseMetrics>,
    pub get_log_metrics: bool,
    pub get_log_custom_metrics: bool,
    pub log_regex: Option<Regex>,
    pub log_metrics: StringHashMap<LogMetrics>,
    pub inspect_metrics: StringHashMap<i64>,
}

#[verifier::ext_equal]
pub struct MetricsView {
    pub containers_up: int,
    pub containers_down: int,
    pub ids: Seq<Seq<char>>,
    pub info: Map<Seq<char>, ContainerInfoView>,
    pub base_metrics: Map<Seq<char>, BaseMetricsView>,
    pub get_log_metrics: bool,
    pub get_log_custom_metrics: bool,
    pub log_regex: Option<Regex>,
    pub log_metrics: Map<Seq<char>, LogMetrics>,
    pub inspect_metrics: Map<Seq<char>, i64>,
}

impl View for Metrics {
    type V = MetricsView;

    open spec fn view(&self) -> MetricsView {
        MetricsView {
            containers_up: self.containers_up as int,
            containers_down: self.containers_down as int,
            ids: texts(self.ids@),
            info: value_views(self.info@),
            base_metrics: value_views(self.base_metrics@),
            get_log_metrics: self.get_log_metrics,
            get_log_custom_metrics: self.get_log_custom_metrics,
            log_regex: self.log_regex,
            log_metrics: self.log_metrics@,
            inspect_metrics: self.inspect_metrics@,
        }
    }
}

// ---------------------------------------------------------------------------
// Laws.

/// The views of values are theirs one by one.
pub proof fn law_views_one_by_one<T: View>(values: Seq<T>)
    ensures
        views(values).len() == values.len(),
        forall|i: int| 0 <= i < values.len() ==> #[trigger] views(values)[i] == values[i]@,
{
}

/// The view of a map has the keys of the map, each with the view of its value.
pub proof fn law_value_views_by_key<T: View>(map: Map<Seq<char>, T>, key: Seq<char>)
    ensures
        value_views(map).contains_key(key) == map.contains_key(key),
        map.contains_key(key) ==> value_views(map)[key] == map[key]@,
{
}

/// The text of an optional string is that of the string, where there is one.
pub proof fn law_option_text(text: Option<String>)
    ensures
        option_text(text) is Some == text is Some,
        text matches Some(t) ==> option_text(text) == Some(t@),
{
}

/// The view of what is known of a container shows each of its fields.
pub proof fn law_info_shown(info: ContainerInfo)
    ensures
        info@.name == info.name@,
        info@.state == info.state@,
        info@.status == info.status@,
{
}

/// The view of a container's usage shows each of its fields.
pub proof fn law_usage_shown(metrics: BaseMetrics)
    ensures
        metrics@.id == metrics.id@,
        metrics@.cpu_total == metrics.cpu_total@,
        metrics@.cpu_user == metrics.cpu_user@,
        metrics@.cpu_kernel == metrics.cpu_kernel@,
        metrics@.mem_total_bytes == metrics.mem_total_bytes,
        metrics@.mem_usage_bytes == metrics.mem_usage_bytes,
        metrics@.net_receive_bytes == metrics.net_receive_bytes,
        metrics@.net_receive_packets == metrics.net_receive_packets,
        metrics@.net_transmit_bytes == metrics.net_transmit_bytes,
        metrics@.net_transmit_packets == metrics.net_transmit_packets,
        metrics@.io_read_bytes == metrics.io_read_bytes,
        metrics@.io_write_bytes == metrics.io_write_bytes,
        metrics@.pids == metrics.pids,
{
}

/// The view of the counts of a stream shows each of its fields.
pub proof fn law_stream_shown(metric: LogMetric)
    ensures
        metric@.id == metric.id@,
        metric@.stdout == metric.stdout,
        metric@.stderr == metric.stderr,
        metric@.value == metric.value,
        metric@.custom_value == metric.custom_value,
{
}

/// The view of a start time shows each of its fields.
pub proof fn law_start_shown(metric: InspectMetric)
    ensures
        metric@.id == metric.id@,
        metric@.started_date == metric.started_date,
{
}

/// The view of the state shows each of its fields: the numbers and settings as
/// they are, the identifiers in order, and each map by its keys.
pub proof fn law_state_shown(metrics: Metrics, i: int, id: Seq<char>)
    ensures
        metrics@.containers_up == metrics.containers_up,
        metrics@.containers_down == metrics.containers_down,
        metrics@.ids.len() == metrics.ids@.len(),
        0 <= i < metrics.ids@.len() ==> metrics@.ids[i] == metrics.ids@[i]@,
        metrics@.info.contains_key(id) == metrics.info@.contains_key(id),
        metrics.info@.contains_key(id) ==> metrics@.info[id] == metrics.info@[id]@,
        metrics@.base_metrics.contains_key(id) == metrics.base_metrics@.contains_key(id),
        metrics.base_metrics@.contains_key(id) ==> metrics@.base_metrics[id]
            == metrics.base_metrics@[id]@,
        metrics@.get_log_metrics == metrics.get_log_metrics,
        metrics@.get_log_custom_metrics == metrics.get_log_custom_metrics,
        metrics@.log_regex == metrics.log_regex,
        metrics@.log_metrics == metrics.log_metrics@,
        metrics@.inspect_metrics == metrics.inspect_metrics@,
{
}

} // verus!
