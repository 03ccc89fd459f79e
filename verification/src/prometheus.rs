//! The Prometheus text format.
use crate::metrics::{views, BaseMetrics, BaseMetricsView, LogMetrics, Metrics, MetricsView};
use crate::text::{decimal, signed_decimal, signed_text, texts, unsigned_text};
use vstd::prelude::*;

verus! {

broadcast use vstd::string::group_string_axioms;

/// What tells the samples of one container from those of another.
#[verifier::ext_equal]
pub struct Labels {
    pub id: Seq<char>,
    pub container_name: Seq<char>,
    pub hostname: Seq<char>,
}

impl Labels {
    /// The labels in braces.
    pub open spec fn text(self) -> Seq<char> {
        "{containerId=\""@ + self.id + "\",containerName=\""@ + self.container_name
            + "\",hostname=\""@ + self.hostname + "\"}"@
    }

    /// The three lines of one metric: its help text, its type and its sample.
    pub open spec fn family(
        self,
        metric_name: Seq<char>,
        help_text: Seq<char>,
        type_data: Seq<char>,
        value: Seq<char>,
    ) -> Seq<Seq<char>> {
        seq![
            help_line(metric_name, help_text),
            type_line(metric_name, type_data),
            metric_name + self.text() + " "@ + value,
        ]
    }

    /// The lines of several metrics, in order.
    pub open spec fn families(self, samples: Seq<SampleView>) -> Seq<Seq<char>>
        decreases samples.len(),
    {
        if samples.len() == 0 {
            Seq::empty()
        } else {
            let last = samples.last();
            self.families(samples.drop_last()) + self.family(
                last.metric_name,
                last.help_text,
                last.type_data,
                last.value,
            )
        }
    }
}

pub open spec fn help_line(metric_name: Seq<char>, help_text: Seq<char>) -> Seq<char> {
    "# HELP "@ + metric_name + " "@ + help_text
}

pub open spec fn type_line(metric_name: Seq<char>, type_data: Seq<char>) -> Seq<char> {
    "# TYPE "@ + metric_name + " "@ + type_data
}

/// What is reported of one metric of one container.
pub struct Sample {
    pub metric_name: &'static str,
    pub help_text: &'static str,
    pub type_data: &'static str,
    pub value: String,
}

#[verifier::ext_equal]
pub struct SampleView {
    pub metric_name: Seq<char>,
    pub help_text: Seq<char>,
    pub type_data: Seq<char>,
    pub value: Seq<char>,
}

impl View for Sample {
    type V = SampleView;

    open spec fn view(&self) -> SampleView {
        SampleView {
            metric_name: self.metric_name@,
            help_text: self.help_text@,
            type_data: self.type_data@,
            value: self.value@,
        }
    }
}

/// The metrics on the resources of one container.
pub open spec fn base_samples(metrics: BaseMetricsView) -> Seq<SampleView> {
    seq![
        SampleView {
            metric_name: "docker_cpu_usage_total"@,
            help_text: "Total CPU usage (user and kernel) in seconds"@,
            type_data: "counter"@,
            value: metrics.cpu_total,
        },
        SampleView {
            metric_name: "docker_cpu_usage_user"@,
            help_text: "User CPU usage in seconds"@,
            type_data: "counter"@,
            value: metrics.cpu_user,
        },
        SampleView {
            metric_name: "docker_cpu_usage_kernel"@,
            help_text: "Kernel CPU usage in seconds"@,
            type_data: "counter"@,
            value: metrics.cpu_kernel,
        },
        SampleView {
            metric_name: "docker_memory_total"@,
            help_text: "Total memory size in bytes"@,
            type_data: "gauge"@,
            value: decimal(metrics.mem_total_bytes as nat),
        },
        SampleView {
            metric_name: "docker_memory_usage"@,
            help_text: "Usage memory size in bytes"@,
            type_data: "gauge"@,
            value: decimal(metrics.mem_usage_bytes as nat),
        },
        SampleView {
            metric_name: "docker_network_received_bytes"@,
            help_text: "Number of bytes received on the network"@,
            type_data: "counter"@,
            value: decimal(metrics.net_receive_bytes as nat),
        },
        SampleView {
            metric_name: "docker_network_received_packages"@,
            help_text: "Number of packages received on the network"@,
            type_data: "counter"@,
            value: decimal(metrics.net_receive_packets as nat),
        },
        SampleView {
            metric_name: "docker_network_transmit_bytes"@,
            help_text: "Number of bytes transmitted on the network"@,
            type_data: "counter"@,
            value: decimal(metrics.net_transmit_bytes as nat),
        },
        SampleView {
            metric_name: "docker_network_transmit_packages"@,
            help_text: "Number of packages transmitted on the network"@,
            type_data: "counter"@,
            value: decimal(metrics.net_transmit_packets as nat),
        },
        SampleView {
            metric_name: "docker_io_read_bytes"@,
            help_text: "Number of bytes read by the block device"@,
            type_data: "counter"@,
            value: decimal(metrics.io_read_bytes as nat),
        },
        SampleView {
            metric_name: "docker_io_write_bytes"@,
            help_text: "Number of bytes write by the block device"@,
            type_data: "counter"@,
            value: decimal(metrics.io_write_bytes as nat),
        },
        SampleView {
            metric_name: "docker_process_pids_count"@,
            help_text: "Number of running processes and threads"@,
            type_data: "gauge"@,
            value: decimal(metrics.pids as nat),
        },
    ]
}

/// The metrics on the logs of one container.
pub open spec fn log_samples(metrics: LogMetrics, custom: bool) -> Seq<SampleView> {
    let plain = seq![
        SampleView {
            metric_name: "docker_logs_stdout_count"@,
            help_text: "Number of logs from stdout stream"@,
            type_data: "counter"@,
            value: signed_decimal(metrics.stdout as int),
        },
        SampleView {
            metric_name: "docker_logs_stderr_count"@,
            help_text: "Number of logs from stderr stream"@,
            type_data: "counter"@,
            value: signed_decimal(metrics.stderr as int),
        },
        SampleView {
            metric_name: "docker_logs_all_count"@,
            help_text: "Number of logs from all stream"@,
            type_data: "counter"@,
            value: signed_decimal(metrics.std_all as int),
        },
    ];
    if custom {
        plain.push(
            SampleView {
                metric_name: "docker_logs_custom_count"@,
                help_text: "Number of logs containing custom regular expression from all streams (by default, containing the error level)"@,
                type_data: "counter"@,
                value: signed_decimal(metrics.std_custom as int),
            },
        )
    } else {
        plain
    }
}

/// The metric on the start time of one container.
pub open spec fn start_samples(started_date: i64) -> Seq<SampleView> {
    seq![
        SampleView {
            metric_name: "docker_started_time"@,
            help_text: "Container started time"@,
            type_data: "gauge"@,
            value: signed_decimal(started_date as int),
        },
    ]
}

impl MetricsView {
    /// What is reported of the resources of the container `id`.
    pub open spec fn base_report(self, id: Seq<char>, labels: Labels) -> Seq<Seq<char>> {
        if self.base_metrics.contains_key(id) {
            labels.families(base_samples(self.base_metrics[id]))
        } else {
            Seq::empty()
        }
    }

    /// What is reported of the logs of the container `id`.
    pub open spec fn log_report(self, id: Seq<char>, labels: Labels) -> Seq<Seq<char>> {
        if self.get_log_metrics && self.log_metrics.contains_key(id) {
            labels.families(log_samples(self.log_metrics[id], self.get_log_custom_metrics))
        } else {
            Seq::empty()
        }
    }

    /// What is reported of the start of the container `id`.
    pub open spec fn start_report(self, id: Seq<char>, labels: Labels) -> Seq<Seq<char>> {
        if self.inspect_metrics.contains_key(id) {
            labels.families(start_samples(self.inspect_metrics[id]))
        } else {
            Seq::empty()
        }
    }

    /// The lines that report on the container `id`, with an empty one at the
    /// end. Nothing is reported of a container that is not known to run.
    pub open spec fn container_report(self, id: Seq<char>, hostname: Seq<char>) -> Seq<Seq<char>> {
        if self.info.contains_key(id) {
            let labels = Labels { id, container_name: self.info[id].name, hostname };
            (self.base_report(id, labels) + self.log_report(id, labels) + self.start_report(
                id,
                labels,
            )).push(Seq::empty())
        } else {
            seq![Seq::empty()]
        }
    }
}

/// The three lines of a metric that counts the containers of a host.
pub open spec fn count_family(
    metric_name: Seq<char>,
    help_text: Seq<char>,
    hostname: Seq<char>,
    count: int,
) -> Seq<Seq<char>> {
    seq![
        help_line(metric_name, help_text),
        type_line(metric_name, "gauge"@),
        metric_name + "{hostname=\""@ + hostname + "\"} "@ + signed_decimal(count),
    ]
}

impl MetricsView {
    /// The lines on the host itself, with an empty one at the end.
    pub open spec fn host_report(self, hostname: Seq<char>) -> Seq<Seq<char>> {
        (count_family(
            "docker_containers_up_count"@,
            "Number of running containers"@,
            hostname,
            self.containers_up,
        ) + count_family(
            "docker_containers_down_count"@,
            "Number of stopped containers"@,
            hostname,
            self.containers_down,
        )).push(Seq::empty())
    }

    /// The lines on the containers `ids`, in order.
    pub open spec fn containers_report(
        self,
        ids: Seq<Seq<char>>,
        hostname: Seq<char>,
    ) -> Seq<Seq<char>>
        decreases ids.len(),
    {
        if ids.len() == 0 {
            Seq::empty()
        } else {
            self.containers_report(ids.drop_last(), hostname) + self.container_report(
                ids.last(),
                hostname,
            )
        }
    }

    /// The whole report.
    pub open spec fn report(self, hostname: Seq<char>) -> Seq<Seq<char>> {
        self.host_report(hostname) + self.containers_report(self.ids, hostname)
    }
}

/// Appends `more` to `data`.
pub(crate) fn extend(data: &mut Vec<String>, more: Vec<String>)
    ensures
        texts(final(data)@) == texts(old(data)@) + texts(more@),
{
    let mut rest = more;
    data.append(&mut rest);
    assert(texts(data@) =~= texts(old(data)@) + texts(more@));
}

fn count_lines(metric_name: &str, help_text: &str, hostname: &str, count: i32) -> (data: Vec<
    String,
>)
    ensures
        texts(data@) == count_family(metric_name@, help_text@, hostname@, count as int),
{
    let mut help = "# HELP ".to_owned();
    help.append(metric_name);
    help.append(" ");
    help.append(help_text);
    let mut kind = "# TYPE ".to_owned();
    kind.append(metric_name);
    kind.append(" ");
    kind.append("gauge");
    let mut sample = metric_name.to_owned();
    sample.append("{hostname=\"");
    sample.append(hostname);
    sample.append("\"} ");
    sample.append(signed_text(count as i64).as_str());
    let ghost expected = seq![help@, kind@, sample@];
    let mut data: Vec<String> = Vec::new();
    data.push(help);
    data.push(kind);
    data.push(sample);
    assert(texts(data@) =~= expected);
    data
}

fn usage_samples(metrics: &BaseMetrics) -> (samples: Vec<Sample>)
    ensures
        views(samples@) == base_samples(metrics@),
{
    let samples = vec![
        Sample {
            metric_name: "docker_cpu_usage_total",
            help_text: "Total CPU usage (user and kernel) in seconds",
            type_data: "counter",
            value: metrics.cpu_total.clone(),
        },
        Sample {
            metric_name: "docker_cpu_usage_user",
            help_text: "User CPU usage in seconds",
            type_data: "counter",
            value: metrics.cpu_user.clone(),
        },
        Sample {
            metric_name: "docker_cpu_usage_kernel",
            help_text: "Kernel CPU usage in seconds",
            type_data: "counter",
            value: metrics.cpu_kernel.clone(),
        },
        Sample {
            metric_name: "docker_memory_total",
            help_text: "Total memory size in bytes",
            type_data: "gauge",
            value: unsigned_text(metrics.mem_total_bytes),
        },
        Sample {
            metric_name: "docker_memory_usage",
            help_text: "Usage memory size in bytes",
            type_data: "gauge",
            value: unsigned_text(metrics.mem_usage_bytes),
        },
        Sample {
            metric_name: "docker_network_received_bytes",
            help_text: "Number of bytes received on the network",
            type_data: "counter",
            value: unsigned_text(metrics.net_receive_bytes),
        },
        Sample {
            metric_name: "docker_network_received_packages",
            help_text: "Number of packages received on the network",
            type_data: "counter",
            value: unsigned_text(metrics.net_receive_packets),
        },
        Sample {
            metric_name: "docker_network_transmit_bytes",
            help_text: "Number of bytes transmitted on the network",
            type_data: "counter",
            value: unsigned_text(metrics.net_transmit_bytes),
        },
        Sample {
            metric_name: "docker_network_transmit_packages",
            help_text: "Number of packages transmitted on the network",
            type_data: "counter",
            value: unsigned_text(metrics.net_transmit_packets),
        },
        Sample {
            metric_name: "docker_io_read_bytes",
            help_text: "Number of bytes read by the block device",
            type_data: "counter",
            value: unsigned_text(metrics.io_read_bytes),
        },
        Sample {
            metric_name: "docker_io_write_bytes",
            help_text: "Number of bytes write by the block device",
            type_data: "counter",
            value: unsigned_text(metrics.io_write_bytes),
        },
        Sample {
            metric_name: "docker_process_pids_count",
            help_text: "Number of running processes and threads",
            type_data: "gauge",
            value: unsigned_text(metrics.pids),
        },
    ];
    assert(views(samples@) =~= base_samples(metrics@));
    samples
}

fn count_samples(metrics: &LogMetrics, custom: bool) -> (samples: Vec<Sample>)
    ensures
        views(samples@) == log_samples(*metrics, custom),
{
    let mut samples = vec![
        Sample {
            metric_name: "docker_logs_stdout_count",
            help_text: "Number of logs from stdout stream",
            type_data: "counter",
            value: signed_text(metrics.stdout),
        },
        Sample {
            metric_name: "docker_logs_stderr_count",
            help_text: "Number of logs from stderr stream",
            type_data: "counter",
            value: signed_text(metrics.stderr),
        },
        Sample {
            metric_name: "docker_logs_all_count",
            help_text: "Number of logs from all stream",
            type_data: "counter",
            value: signed_text(metrics.std_all),
        },
    ];
    if custom {
        samples.push(
            Sample {
                metric_name: "docker_logs_custom_count",
                help_text: "Number of logs containing custom regular expression from all streams (by default, containing the error level)",
                type_data: "counter",
                value: signed_text(metrics.std_custom),
            },
        );
    }
    assert(views(samples@) =~= log_samples(*metrics, custom));
    samples
}

fn date_samples(started_date: i64) -> (samples: Vec<Sample>)
    ensures
        views(samples@) == start_samples(started_date),
{
    let samples = vec![
        Sample {
            metric_name: "docker_started_time",
            help_text: "Container started time",
            type_data: "gauge",
            value: signed_text(started_date),
        },
    ];
    assert(views(samples@) =~= start_samples(started_date));
    samples
}

/// Appends the lines of `samples` to `data`.
fn extend_with(
    data: &mut Vec<String>,
    samples: &Vec<Sample>,
    id: &str,
    container_name: &str,
    hostname: &str,
)
    ensures
        texts(final(data)@) == texts(old(data)@) + (Labels {
            id: id@,
            container_name: container_name@,
            hostname: hostname@,
        }).families(views(samples@)),
{
    let ghost labels = Labels { id: id@, container_name: container_name@, hostname: hostname@ };
    let ghost all = views(samples@);
    let ghost before = texts(data@);
    assert(texts(data@) =~= before + labels.families(all.take(0)));
    for i in 0..samples.len()
        invariant
            all == views(samples@),
            labels == (Labels {
                id: id@,
                container_name: container_name@,
                hostname: hostname@,
            }),
            texts(data@) == before + labels.families(all.take(i as int)),
    {
        let sample = &samples[i];
        proof {
            assert(all.take(i + 1).drop_last() =~= all.take(i as int));
            assert(all.take(i + 1).last() == sample@);
        }
        extend(
            data,
            Metrics::prometheus_format(
                sample.metric_name,
                sample.help_text,
                sample.type_data,
                id,
                container_name,
                hostname,
                sample.value.as_str(),
            ),
        );
        assert(texts(data@) =~= before + labels.families(all.take(i + 1)));
    }
    assert(all.take(all.len() as int) =~= all);
}

impl Metrics {
    /// The three lines of one metric of one container.
    pub fn prometheus_format(
        metric_name: &str,
        help_text: &str,
        type_data: &str,
        id: &str,
        container_name: &str,
        hostname: &str,
        value: &str,
    ) -> (data: Vec<String>)
        ensures
            texts(data@) == (Labels {
                id: id@,
                container_name: container_name@,
                hostname: hostname@,
            }).family(metric_name@, help_text@, type_data@, value@),
            data@.len() == 3,
            data@[0]@ == "# HELP "@ + metric_name@ + " "@ + help_text@,
            data@[1]@ == "# TYPE "@ + metric_name@ + " "@ + type_data@,
            data@[2]@ == metric_name@ + "{containerId=\""@ + id@ + "\",containerName=\""@
                + container_name@ + "\",hostname=\""@ + hostname@ + "\"} "@ + value@,
    {
        let mut help = "# HELP ".to_owned();
        help.append(metric_name);
        help.append(" ");
        help.append(help_text);
        let mut kind = "# TYPE ".to_owned();
        kind.append(metric_name);
        kind.append(" ");
        kind.append(type_data);
        let mut labels = "{containerId=\"".to_owned();
        labels.append(id);
        labels.append("\",containerName=\"");
        labels.append(container_name);
        labels.append("\",hostname=\"");
        labels.append(hostname);
        labels.append("\"}");
        let mut sample = metric_name.to_owned();
        sample.append(labels.as_str());
        sample.append(" ");
        sample.append(value);
        let ghost expected = seq![help@, kind@, sample@];
        let mut data: Vec<String> = Vec::new();
        data.push(help);
        data.push(kind);
        data.push(sample);
        assert(texts(data@) =~= expected);
        proof {
            reveal_strlit("\"}");
            reveal_strlit(" ");
            reveal_strlit("\"} ");
            assert("\"} "@ =~= "\"}"@ + " "@);
            assert(data@[2]@ =~= metric_name@ + "{containerId=\""@ + id@ + "\",containerName=\""@
                + container_name@ + "\",hostname=\""@ + hostname@ + "\"} "@ + value@);
        }
        data
    }

    /// The lines that report on the container `id`, with an empty one at the
    /// end.
    pub fn prometheus_metrics(&self, id: &str, hostname: &str) -> (data: Vec<String>)
        ensures
            texts(data@) == self@.container_report(id@, hostname@),
    {
        let mut data: Vec<String> = Vec::new();
        let ghost none = Seq::<Seq<char>>::empty();
        assert(texts(data@) =~= none);
        if let Some(info) = self.info.get(id) {
            let name = info.name.as_str();
            let ghost labels = Labels { id: id@, container_name: name@, hostname: hostname@ };
            if let Some(metrics) = self.base_metrics.get(id) {
                extend_with(&mut data, &usage_samples(metrics), id, name, hostname);
            }
            assert(texts(data@) =~= self@.base_report(id@, labels));
            if self.get_log_metrics {
                if let Some(metrics) = self.log_metrics.get(id) {
                    let samples = count_samples(metrics, self.get_log_custom_metrics);
                    extend_with(&mut data, &samples, id, name, hostname);
                }
            }
            assert(texts(data@) =~= self@.base_report(id@, labels) + self@.log_report(id@, labels));
            if let Some(started_date) = self.inspect_metrics.get(id) {
                extend_with(&mut data, &date_samples(*started_date), id, name, hostname);
            }
            assert(texts(data@) =~= self@.base_report(id@, labels) + self@.log_report(id@, labels)
                + self@.start_report(id@, labels));
        }
        let ghost reported = texts(data@);
        data.push(String::new());
        assert(texts(data@) =~= reported.push(Seq::empty()));
        assert(none.push(Seq::empty()) =~= seq![Seq::empty()]);
        data
    }

    /// The whole report: the counts of the host, then every running container.
    pub fn report(&self, hostname: &str) -> (data: Vec<String>)
        ensures
            texts(data@) == self@.report(hostname@),
    {
        let mut data = count_lines(
            "docker_containers_up_count",
            "Number of running containers",
            hostname,
            self.containers_up,
        );
        extend(
            &mut data,
            count_lines(
                "docker_containers_down_count",
                "Number of stopped containers",
                hostname,
                self.containers_down,
            ),
        );
        let ghost counts = texts(data@);
        data.push(String::new());
        assert(texts(data@) =~= counts.push(Seq::empty()));
        let ghost all = texts(self.ids@);
        assert(all.take(0) =~= Seq::<Seq<char>>::empty());
        assert(texts(data@) =~= self@.host_report(hostname@) + self@.containers_report(
            all.take(0),
            hostname@,
        ));
        for i in 0..self.ids.len()
            invariant
                all == texts(self.ids@),
                texts(data@) == self@.host_report(hostname@) + self@.containers_report(
                    all.take(i as int),
                    hostname@,
                ),
        {
            proof {
                assert(all.take(i + 1).drop_last() =~= all.take(i as int));
                assert(all.take(i + 1).last() == self.ids@[i as int]@);
            }
            extend(&mut data, self.prometheus_metrics(self.ids[i].as_str(), hostname));
            assert(texts(data@) =~= self@.host_report(hostname@) + self@.containers_report(
                all.take(i + 1),
                hostname@,
            ));
        }
        assert(all.take(all.len() as int) =~= all);
        data
    }
}

} // verus!
