//! Resource usage.
use crate::metrics::{views, BaseMetrics, BaseMetricsView, Metrics};
use crate::text::same_text;
use vstd::prelude::*;

verus! {

broadcast use vstd::string::group_string_axioms;

/// The traffic of one network interface.
#[derive(Debug, Clone, Copy)]
pub struct NetworkStats {
    pub rx_bytes: u64,
    pub rx_packets: u64,
    pub tx_bytes: u64,
    pub tx_packets: u64,
}

/// The bytes of one kind of operation on one block device.
#[derive(Debug)]
pub struct BlockIo {
    pub op: String,
    pub value: u64,
}

#[verifier::ext_equal]
pub struct BlockIoView {
    pub op: Seq<char>,
    pub value: u64,
}

impl View for BlockIo {
    type V = BlockIoView;

    open spec fn view(&self) -> BlockIoView {
        BlockIoView { op: self.op@, value: self.value }
    }
}

/// A reading of the resources that one container uses. The processor times are
/// in seconds, as decimal text.
#[derive(Debug)]
pub struct ContainerStats {
    pub cpu_total: String,
    pub cpu_user: String,
    pub cpu_kernel: String,
    pub mem_limit: Option<u64>,
    pub mem_usage: Option<u64>,
    pub networks: Option<Vec<NetworkStats>>,
    pub block_io: Option<Vec<BlockIo>>,
    pub pids: Option<u64>,
}

#[verifier::ext_equal]
pub struct ContainerStatsView {
    pub cpu_total: Seq<char>,
    pub cpu_user: Seq<char>,
    pub cpu_kernel: Seq<char>,
    pub mem_limit: Option<u64>,
    pub mem_usage: Option<u64>,
    pub networks: Seq<NetworkStats>,
    pub block_io: Seq<BlockIoView>,
    pub pids: Option<u64>,
}

impl View for ContainerStats {
    type V = ContainerStatsView;

    /// A missing list counts as an empty one.
    open spec fn view(&self) -> ContainerStatsView {
        ContainerStatsView {
            cpu_total: self.cpu_total@,
            cpu_user: self.cpu_user@,
            cpu_kernel: self.cpu_kernel@,
            mem_limit: self.mem_limit,
            mem_usage: self.mem_usage,
            networks: match self.networks {
                Some(networks) => networks@,
                None => Seq::empty(),
            },
            block_io: match self.block_io {
                Some(entries) => views(entries@),
                None => Seq::empty(),
            },
            pids: self.pids,
        }
    }
}

/// The sum of `values`.
pub open spec fn total(values: Seq<u64>) -> int
    decreases values.len(),
{
    if values.len() == 0 {
        0
    } else {
        total(values.drop_last()) + values.last()
    }
}

/// The sum of the entries for the operation `op`.
pub open spec fn block_total(entries: Seq<BlockIoView>, op: Seq<char>) -> int
    decreases entries.len(),
{
    if entries.len() == 0 {
        0
    } else {
        block_total(entries.drop_last(), op) + if entries.last().op == op {
            entries.last().value as int
        } else {
            0
        }
    }
}

/// A value, or zero where there is none.
pub open spec fn or_zero(value: Option<u64>) -> u64 {
    match value {
        Some(v) => v,
        None => 0,
    }
}

impl ContainerStatsView {
    pub open spec fn rx_bytes(self) -> int {
        total(self.networks.map_values(|n: NetworkStats| n.rx_bytes))
    }

    pub open spec fn rx_packets(self) -> int {
        total(self.networks.map_values(|n: NetworkStats| n.rx_packets))
    }

    pub open spec fn tx_bytes(self) -> int {
        total(self.networks.map_values(|n: NetworkStats| n.tx_bytes))
    }

    pub open spec fn tx_packets(self) -> int {
        total(self.networks.map_values(|n: NetworkStats| n.tx_packets))
    }

    pub open spec fn read_bytes(self) -> int {
        block_total(self.block_io, "read"@)
    }

    pub open spec fn write_bytes(self) -> int {
        block_total(self.block_io, "write"@)
    }

    /// Whether every sum fits into its counter.
    pub open spec fn sums_fit(self) -> bool {
        &&& self.rx_bytes() <= u64::MAX
        &&& self.rx_packets() <= u64::MAX
        &&& self.tx_bytes() <= u64::MAX
        &&& self.tx_packets() <= u64::MAX
        &&& self.read_bytes() <= u64::MAX
        &&& self.write_bytes() <= u64::MAX
    }

    /// The usage of the container `id` that this reading shows.
    pub open spec fn base_metrics(self, id: Seq<char>) -> BaseMetricsView {
        BaseMetricsView {
            id,
            cpu_total: self.cpu_total,
            cpu_user: self.cpu_user,
            cpu_kernel: self.cpu_kernel,
            mem_total_bytes: or_zero(self.mem_limit),
            mem_usage_bytes: or_zero(self.mem_usage),
            net_receive_bytes: self.rx_bytes() as u64,
            net_receive_packets: self.rx_packets() as u64,
            net_transmit_bytes: self.tx_bytes() as u64,
            net_transmit_packets: self.tx_packets() as u64,
            io_read_bytes: self.read_bytes() as u64,
            io_write_bytes: self.write_bytes() as u64,
            pids: or_zero(self.pids),
        }
    }
}

/// No reading of a container could be had.
#[derive(Debug)]
pub struct NoStats {
    pub id: String,
}

impl NoStats {
    /// The error in words.
    pub fn message(&self) -> (text: String)
        ensures
            text@ == "No stats available for container "@ + self.id@,
    {
        let mut text = "No stats available for container ".to_owned();
        text.append(self.id.as_str());
        text
    }
}

/// Sums too wide to overflow.
struct NetworkSums {
    rx_bytes: u128,
    rx_packets: u128,
    tx_bytes: u128,
    tx_packets: u128,
}

fn network_sums(stats: &ContainerStats) -> (sums: NetworkSums)
    ensures
        sums.rx_bytes == stats@.rx_bytes(),
        sums.rx_packets == stats@.rx_packets(),
        sums.tx_bytes == stats@.tx_bytes(),
        sums.tx_packets == stats@.tx_packets(),
{
    let mut sums = NetworkSums { rx_bytes: 0, rx_packets: 0, tx_bytes: 0, tx_packets: 0 };
    let ghost rx_bytes = stats@.networks.map_values(|n: NetworkStats| n.rx_bytes);
    let ghost rx_packets = stats@.networks.map_values(|n: NetworkStats| n.rx_packets);
    let ghost tx_bytes = stats@.networks.map_values(|n: NetworkStats| n.tx_bytes);
    let ghost tx_packets = stats@.networks.map_values(|n: NetworkStats| n.tx_packets);
    if let Some(networks) = &stats.networks {
        for i in 0..networks.len()
            invariant
                networks@ == stats@.networks,
                rx_bytes == networks@.map_values(|n: NetworkStats| n.rx_bytes),
                rx_packets == networks@.map_values(|n: NetworkStats| n.rx_packets),
                tx_bytes == networks@.map_values(|n: NetworkStats| n.tx_bytes),
                tx_packets == networks@.map_values(|n: NetworkStats| n.tx_packets),
                sums.rx_bytes == total(rx_bytes.take(i as int)),
                sums.rx_packets == total(rx_packets.take(i as int)),
                sums.tx_bytes == total(tx_bytes.take(i as int)),
                sums.tx_packets == total(tx_packets.take(i as int)),
                sums.rx_bytes <= i * 0xffff_ffff_ffff_ffff,
                sums.rx_packets <= i * 0xffff_ffff_ffff_ffff,
                sums.tx_bytes <= i * 0xffff_ffff_ffff_ffff,
                sums.tx_packets <= i * 0xffff_ffff_ffff_ffff,
        {
            proof {
                assert(rx_bytes.take(i + 1).drop_last() =~= rx_bytes.take(i as int));
                assert(rx_packets.take(i + 1).drop_last() =~= rx_packets.take(i as int));
                assert(tx_bytes.take(i + 1).drop_last() =~= tx_bytes.take(i as int));
                assert(tx_packets.take(i + 1).drop_last() =~= tx_packets.take(i as int));
            }
            let network = networks[i];
            sums.rx_bytes = sums.rx_bytes + network.rx_bytes as u128;
            sums.rx_packets = sums.rx_packets + network.rx_packets as u128;
            sums.tx_bytes = sums.tx_bytes + network.tx_bytes as u128;
            sums.tx_packets = sums.tx_packets + network.tx_packets as u128;
        }
        proof {
            assert(rx_bytes.take(networks@.len() as int) =~= rx_bytes);
            assert(rx_packets.take(networks@.len() as int) =~= rx_packets);
            assert(tx_bytes.take(networks@.len() as int) =~= tx_bytes);
            assert(tx_packets.take(networks@.len() as int) =~= tx_packets);
        }
    }
    sums
}

fn block_sums(stats: &ContainerStats) -> (sums: (u128, u128))
    ensures
        sums.0 == stats@.read_bytes(),
        sums.1 == stats@.write_bytes(),
{
    let read_op = "read";
    let write_op = "write";
    let mut read: u128 = 0;
    let mut write: u128 = 0;
    proof {
        reveal_strlit("read");
        reveal_strlit("write");
        assert("read"@.len() != "write"@.len());
    }
    if let Some(entries) = &stats.block_io {
        let ghost all = views(entries@);
        for i in 0..entries.len()
            invariant
                all == views(entries@),
                read_op@ == "read"@,
                write_op@ == "write"@,
                "read"@ != "write"@,
                read == block_total(all.take(i as int), "read"@),
                write == block_total(all.take(i as int), "write"@),
                read <= i * 0xffff_ffff_ffff_ffff,
                write <= i * 0xffff_ffff_ffff_ffff,
        {
            proof {
                assert(all.take(i + 1).drop_last() =~= all.take(i as int));
            }
            let entry = &entries[i];
            if same_text(entry.op.as_str(), read_op) {
                read = read + entry.value as u128;
            } else if same_text(entry.op.as_str(), write_op) {
                write = write + entry.value as u128;
            }
        }
        assert(all.take(all.len() as int) =~= all);
    }
    (read, write)
}

fn value_or_zero(value: Option<u64>) -> (found: u64)
    ensures
        found == or_zero(value),
{
    match value {
        Some(v) => v,
        None => 0,
    }
}

impl ContainerStats {
    /// Whether every sum of this reading fits into its counter.
    pub fn sums_fit(&self) -> (fit: bool)
        ensures
            fit == self@.sums_fit(),
    {
        let limit = u64::MAX as u128;
        let network = network_sums(self);
        let (read, write) = block_sums(self);
        network.rx_bytes <= limit && network.rx_packets <= limit && network.tx_bytes <= limit
            && network.tx_packets <= limit && read <= limit && write <= limit
    }
}

impl Metrics {
    /// The usage of the container `id` that a reading shows, summed over its
    /// network interfaces and block devices; an error where there is no reading.
    pub fn get_base_metrics(id: &str, stats: &Option<ContainerStats>) -> (result: Result<
        BaseMetrics,
        NoStats,
    >)
        requires
            stats matches Some(reading) ==> reading@.sums_fit(),
        ensures
            match *stats {
                Some(reading) => result matches Ok(metrics) && metrics@ == reading@.base_metrics(
                    id@,
                ),
                None => result matches Err(error) && error.id@ == id@,
            },
            stats matches Some(reading) ==> (result matches Ok(metrics) && {
                &&& metrics.id@ == id@
                &&& metrics.cpu_total@ == reading.cpu_total@
                &&& metrics.cpu_user@ == reading.cpu_user@
                &&& metrics.cpu_kernel@ == reading.cpu_kernel@
                &&& reading.mem_limit matches Some(v) ==> metrics.mem_total_bytes == v
                &&& reading.mem_limit is None ==> metrics.mem_total_bytes == 0
                &&& reading.mem_usage matches Some(v) ==> metrics.mem_usage_bytes == v
                &&& reading.mem_usage is None ==> metrics.mem_usage_bytes == 0
                &&& reading.pids matches Some(v) ==> metrics.pids == v
                &&& reading.pids is None ==> metrics.pids == 0
            }),
    {
        match stats {
            Some(reading) => {
                let network = network_sums(reading);
                let (read, write) = block_sums(reading);
                Ok(
                    BaseMetrics {
                        id: id.to_owned(),
                        cpu_total: reading.cpu_total.clone(),
                        cpu_user: reading.cpu_user.clone(),
                        cpu_kernel: reading.cpu_kernel.clone(),
                        mem_total_bytes: value_or_zero(reading.mem_limit),
                        mem_usage_bytes: value_or_zero(reading.mem_usage),
                        net_receive_bytes: network.rx_bytes as u64,
                        net_receive_packets: network.rx_packets as u64,
                        net_transmit_bytes: network.tx_bytes as u64,
                        net_transmit_packets: network.tx_packets as u64,
                        io_read_bytes: read as u64,
                        io_write_bytes: write as u64,
                        pids: value_or_zero(reading.pids),
                    },
                )
            },
            None => Err(NoStats { id: id.to_owned() }),
        }
    }
}

// ---------------------------------------------------------------------------
// Laws.

proof fn lemma_total_is_fold(networks: Seq<NetworkStats>, field: spec_fn(NetworkStats) -> u64)
    ensures
        total(networks.map_values(field)) == networks.fold_left(
            0int,
            |sum: int, network: NetworkStats| sum + field(network),
        ),
    decreases networks.len(),
{
    if networks.len() > 0 {
        lemma_total_is_fold(networks.drop_last(), field);
        assert(networks.map_values(field).drop_last() =~= networks.drop_last().map_values(field));
    }
}

proof fn lemma_total_permuted(
    one: Seq<NetworkStats>,
    other: Seq<NetworkStats>,
    field: spec_fn(NetworkStats) -> u64,
)
    requires
        one.to_multiset() == other.to_multiset(),
    ensures
        total(one.map_values(field)) == total(other.map_values(field)),
{
    let step = |sum: int, network: NetworkStats| sum + field(network);
    lemma_total_is_fold(one, field);
    lemma_total_is_fold(other, field);
    vstd::seq_lib::lemma_fold_left_permutation(one, other, step, 0int);
}

proof fn lemma_block_total_is_fold(entries: Seq<BlockIoView>, op: Seq<char>)
    ensures
        block_total(entries, op) == entries.fold_left(
            0int,
            |sum: int, entry: BlockIoView|
                sum + if entry.op == op {
                    entry.value as int
                } else {
                    0
                },
        ),
    decreases entries.len(),
{
    if entries.len() > 0 {
        lemma_block_total_is_fold(entries.drop_last(), op);
    }
}

proof fn lemma_block_total_permuted(
    one: Seq<BlockIoView>,
    other: Seq<BlockIoView>,
    op: Seq<char>,
)
    requires
        one.to_multiset() == other.to_multiset(),
    ensures
        block_total(one, op) == block_total(other, op),
{
    let step = |sum: int, entry: BlockIoView|
        sum + if entry.op == op {
            entry.value as int
        } else {
            0
        };
    lemma_block_total_is_fold(one, op);
    lemma_block_total_is_fold(other, op);
    vstd::seq_lib::lemma_fold_left_permutation(one, other, step, 0int);
}

/// The order in which a reading lists the network interfaces and the block
/// devices does not matter.
pub proof fn law_order_of_devices_irrelevant(
    one: ContainerStatsView,
    other: ContainerStatsView,
    id: Seq<char>,
)
    requires
        one.networks.to_multiset() == other.networks.to_multiset(),
        one.block_io.to_multiset() == other.block_io.to_multiset(),
        (ContainerStatsView { networks: other.networks, block_io: other.block_io, ..one }) == other,
    ensures
        one.sums_fit() == other.sums_fit(),
        one.base_metrics(id) == other.base_metrics(id),
{
    lemma_total_permuted(one.networks, other.networks, |n: NetworkStats| n.rx_bytes);
    lemma_total_permuted(one.networks, other.networks, |n: NetworkStats| n.rx_packets);
    lemma_total_permuted(one.networks, other.networks, |n: NetworkStats| n.tx_bytes);
    lemma_total_permuted(one.networks, other.networks, |n: NetworkStats| n.tx_packets);
    lemma_block_total_permuted(one.block_io, other.block_io, "read"@);
    lemma_block_total_permuted(one.block_io, other.block_io, "write"@);
}

/// The view of an entry for a block device shows each of its fields.
pub proof fn law_block_entry_shown(entry: BlockIo)
    ensures
        entry@.op == entry.op@,
        entry@.value == entry.value,
{
}

/// The view of a reading shows each of its fields; a list that is missing is
/// shown as an empty one.
pub proof fn law_reading_shown(reading: ContainerStats, i: int)
    ensures
        reading@.cpu_total == reading.cpu_total@,
        reading@.cpu_user == reading.cpu_user@,
        reading@.cpu_kernel == reading.cpu_kernel@,
        reading@.mem_limit == reading.mem_limit,
        reading@.mem_usage == reading.mem_usage,
        reading@.pids == reading.pids,
        reading.networks is None ==> reading@.networks.len() == 0,
        reading.networks matches Some(networks) ==> reading@.networks == networks@,
        reading.block_io is None ==> reading@.block_io.len() == 0,
        reading.block_io matches Some(entries) ==> reading@.block_io.len() == entries@.len() && (0
            <= i < entries@.len() ==> reading@.block_io[i] == entries@[i]@),
{
}

/// What a reading says of memory and processes is kept to the last bit, and
/// what it does not say is zero; the processor times and the identifier are
/// kept as they are.
pub proof fn law_single_values_kept(reading: ContainerStats, id: Seq<char>, metrics: BaseMetrics)
    requires
        metrics@ == reading@.base_metrics(id),
    ensures
        metrics.id@ == id,
        metrics.cpu_total@ == reading.cpu_total@,
        metrics.cpu_user@ == reading.cpu_user@,
        metrics.cpu_kernel@ == reading.cpu_kernel@,
        reading.mem_limit matches Some(v) ==> metrics.mem_total_bytes == v,
        reading.mem_limit is None ==> metrics.mem_total_bytes == 0,
        reading.mem_usage matches Some(v) ==> metrics.mem_usage_bytes == v,
        reading.mem_usage is None ==> metrics.mem_usage_bytes == 0,
        reading.pids matches Some(v) ==> metrics.pids == v,
        reading.pids is None ==> metrics.pids == 0,
{
}

/// A reading without network interfaces and block devices shows no traffic.
pub proof fn law_no_devices_no_traffic(reading: ContainerStatsView, id: Seq<char>)
    requires
        reading.networks.len() == 0,
        reading.block_io.len() == 0,
    ensures
        reading.sums_fit(),
        reading.base_metrics(id).net_receive_bytes == 0,
        reading.base_metrics(id).net_receive_packets == 0,
        reading.base_metrics(id).net_transmit_bytes == 0,
        reading.base_metrics(id).net_transmit_packets == 0,
        reading.base_metrics(id).io_read_bytes == 0,
        reading.base_metrics(id).io_write_bytes == 0,
{
}

proof fn lemma_total_push(
    networks: Seq<NetworkStats>,
    network: NetworkStats,
    field: spec_fn(NetworkStats) -> u64,
)
    ensures
        total(networks.push(network).map_values(field)) == total(networks.map_values(field)) + field(
            network,
        ),
        total(networks.map_values(field)) >= 0,
    decreases networks.len(),
{
    let all = networks.push(network).map_values(field);
    assert(all.drop_last() =~= networks.map_values(field));
    if networks.len() > 0 {
        lemma_total_push(networks.drop_last(), networks.last(), field);
        assert(networks.drop_last().push(networks.last()) =~= networks);
    }
}

/// A further network interface adds what it received and sent, each to its own
/// sum, and changes nothing else.
pub proof fn law_interface_adds_its_traffic(
    reading: ContainerStatsView,
    network: NetworkStats,
    id: Seq<char>,
)
    requires
        (ContainerStatsView { networks: reading.networks.push(network), ..reading }).sums_fit(),
    ensures
        reading.sums_fit(),
        ({
            let before = reading.base_metrics(id);
            let after = (ContainerStatsView {
                networks: reading.networks.push(network),
                ..reading
            }).base_metrics(id);
            &&& after.net_receive_bytes == before.net_receive_bytes + network.rx_bytes
            &&& after.net_receive_packets == before.net_receive_packets + network.rx_packets
            &&& after.net_transmit_bytes == before.net_transmit_bytes + network.tx_bytes
            &&& after.net_transmit_packets == before.net_transmit_packets + network.tx_packets
            &&& (BaseMetricsView {
                net_receive_bytes: before.net_receive_bytes,
                net_receive_packets: before.net_receive_packets,
                net_transmit_bytes: before.net_transmit_bytes,
                net_transmit_packets: before.net_transmit_packets,
                ..after
            }) == before
        }),
{
    lemma_total_push(reading.networks, network, |n: NetworkStats| n.rx_bytes);
    lemma_total_push(reading.networks, network, |n: NetworkStats| n.rx_packets);
    lemma_total_push(reading.networks, network, |n: NetworkStats| n.tx_bytes);
    lemma_total_push(reading.networks, network, |n: NetworkStats| n.tx_packets);
}

proof fn lemma_block_total_push(entries: Seq<BlockIoView>, entry: BlockIoView, op: Seq<char>)
    ensures
        block_total(entries.push(entry), op) == block_total(entries, op) + if entry.op == op {
            entry.value as int
        } else {
            0
        },
        block_total(entries, op) >= 0,
    decreases entries.len(),
{
    assert(entries.push(entry).drop_last() =~= entries);
    if entries.len() > 0 {
        lemma_block_total_push(entries.drop_last(), entries.last(), op);
        assert(entries.drop_last().push(entries.last()) =~= entries);
    }
}

/// A further entry for a block device adds its bytes to what was read where its
/// operation is `read`, to what was written where it is `write`, and to nothing
/// where it is any other.
pub proof fn law_block_entry_adds_its_bytes(
    reading: ContainerStatsView,
    entry: BlockIoView,
    id: Seq<char>,
)
    requires
        (ContainerStatsView { block_io: reading.block_io.push(entry), ..reading }).sums_fit(),
    ensures
        reading.sums_fit(),
        ({
            let before = reading.base_metrics(id);
            let after = (ContainerStatsView {
                block_io: reading.block_io.push(entry),
                ..reading
            }).base_metrics(id);
            &&& entry.op == "read"@ ==> after.io_read_bytes == before.io_read_bytes + entry.value
            &&& entry.op != "read"@ ==> after.io_read_bytes == before.io_read_bytes
            &&& entry.op == "write"@ ==> after.io_write_bytes == before.io_write_bytes
                + entry.value
            &&& entry.op != "write"@ ==> after.io_write_bytes == before.io_write_bytes
            &&& (BaseMetricsView {
                io_read_bytes: before.io_read_bytes,
                io_write_bytes: before.io_write_bytes,
                ..after
            }) == before
        }),
{
    lemma_block_total_push(reading.block_io, entry, "read"@);
    lemma_block_total_push(reading.block_io, entry, "write"@);
}

proof fn lemma_network_fold(
    networks: Seq<NetworkStats>,
    field: spec_fn(NetworkStats) -> u64,
    step: spec_fn(int, NetworkStats) -> int,
)
    requires
        forall|sum: int, n: NetworkStats| #[trigger] step(sum, n) == sum + field(n),
    ensures
        total(networks.map_values(field)) == networks.fold_left(0int, step),
        total(networks.map_values(field)) >= 0,
{
    lemma_total_is_fold(networks, field);
    assert(step =~= |sum: int, network: NetworkStats| sum + field(network));
    if networks.len() > 0 {
        lemma_total_push(networks.drop_last(), networks.last(), field);
        assert(networks.drop_last().push(networks.last()) =~= networks);
    }
}

/// The sums of a reading fit where none of the six is more than the largest
/// 64-bit number.
pub proof fn law_sums_that_fit(reading: ContainerStatsView)
    ensures
        reading.sums_fit() <==> {
            let networks = reading.networks;
            let entries = reading.block_io;
            &&& networks.fold_left(0int, |sum: int, n: NetworkStats| sum + n.rx_bytes)
                <= 0xffff_ffff_ffff_ffff
            &&& networks.fold_left(0int, |sum: int, n: NetworkStats| sum + n.rx_packets)
                <= 0xffff_ffff_ffff_ffff
            &&& networks.fold_left(0int, |sum: int, n: NetworkStats| sum + n.tx_bytes)
                <= 0xffff_ffff_ffff_ffff
            &&& networks.fold_left(0int, |sum: int, n: NetworkStats| sum + n.tx_packets)
                <= 0xffff_ffff_ffff_ffff
            &&& entries.fold_left(
                0int,
                |sum: int, entry: BlockIoView|
                    sum + if entry.op == "read"@ {
                        entry.value as int
                    } else {
                        0
                    },
            ) <= 0xffff_ffff_ffff_ffff
            &&& entries.fold_left(
                0int,
                |sum: int, entry: BlockIoView|
                    sum + if entry.op == "write"@ {
                        entry.value as int
                    } else {
                        0
                    },
            ) <= 0xffff_ffff_ffff_ffff
        },
{
    lemma_network_fold(
        reading.networks,
        |n: NetworkStats| n.rx_bytes,
        |sum: int, n: NetworkStats| sum + n.rx_bytes,
    );
    lemma_network_fold(
        reading.networks,
        |n: NetworkStats| n.rx_packets,
        |sum: int, n: NetworkStats| sum + n.rx_packets,
    );
    lemma_network_fold(
        reading.networks,
        |n: NetworkStats| n.tx_bytes,
        |sum: int, n: NetworkStats| sum + n.tx_bytes,
    );
    lemma_network_fold(
        reading.networks,
        |n: NetworkStats| n.tx_packets,
        |sum: int, n: NetworkStats| sum + n.tx_packets,
    );
    lemma_block_total_is_fold(reading.block_io, "read"@);
    lemma_block_total_is_fold(reading.block_io, "write"@);
}

/// What is said of a missing reading ends in the identifier of the container.
pub proof fn law_message_names_container(error: &NoStats, text: String)
    requires
        call_ensures(NoStats::message, (error,), text),
    ensures
        text@ == "No stats available for container "@ + error.id@,
{
}

/// The usage of a container is had wherever there is a reading and nowhere else.
/// It has the identifier that was asked for, and what the reading says of
/// memory, processes and processor times, whatever the numbers are.
pub proof fn law_usage_from_reading(
    id: &str,
    stats: &Option<ContainerStats>,
    result: Result<BaseMetrics, NoStats>,
)
    requires
        call_ensures(Metrics::get_base_metrics, (id, stats), result),
    ensures
        result is Ok == *stats is Some,
        result matches Err(error) ==> error.id@ == id@,
        *stats matches Some(reading) ==> (result matches Ok(metrics) && {
            &&& metrics.id@ == id@
            &&& metrics.cpu_total@ == reading.cpu_total@
            &&& metrics.cpu_user@ == reading.cpu_user@
            &&& metrics.cpu_kernel@ == reading.cpu_kernel@
            &&& reading.mem_limit matches Some(v) ==> metrics.mem_total_bytes == v
            &&& reading.mem_limit is None ==> metrics.mem_total_bytes == 0
            &&& reading.mem_usage matches Some(v) ==> metrics.mem_usage_bytes == v
            &&& reading.mem_usage is None ==> metrics.mem_usage_bytes == 0
            &&& reading.pids matches Some(v) ==> metrics.pids == v
            &&& reading.pids is None ==> metrics.pids == 0
        }),
{
}

/// The traffic that is shown is the sum over all network interfaces, and the
/// bytes read and written are the sums over the entries for `read` and for
/// `write`; a list that is missing counts as empty.
pub proof fn law_usage_sums_devices(
    id: &str,
    stats: &Option<ContainerStats>,
    reading: ContainerStats,
    metrics: BaseMetrics,
    networks: Seq<NetworkStats>,
    entries: Seq<BlockIo>,
)
    requires
        *stats == Some(reading),
        reading@.sums_fit(),
        call_ensures(Metrics::get_base_metrics, (id, stats), Ok(metrics)),
        reading.networks matches Some(list) ==> networks == list@,
        reading.networks is None ==> networks == Seq::<NetworkStats>::empty(),
        reading.block_io matches Some(list) ==> entries == list@,
        reading.block_io is None ==> entries == Seq::<BlockIo>::empty(),
    ensures
        metrics.net_receive_bytes == networks.fold_left(
            0int,
            |sum: int, n: NetworkStats| sum + n.rx_bytes,
        ),
        metrics.net_receive_packets == networks.fold_left(
            0int,
            |sum: int, n: NetworkStats| sum + n.rx_packets,
        ),
        metrics.net_transmit_bytes == networks.fold_left(
            0int,
            |sum: int, n: NetworkStats| sum + n.tx_bytes,
        ),
        metrics.net_transmit_packets == networks.fold_left(
            0int,
            |sum: int, n: NetworkStats| sum + n.tx_packets,
        ),
        metrics.io_read_bytes == entries.fold_left(
            0int,
            |sum: int, entry: BlockIo|
                sum + if entry.op@ == "read"@ {
                    entry.value as int
                } else {
                    0
                },
        ),
        metrics.io_write_bytes == entries.fold_left(
            0int,
            |sum: int, entry: BlockIo|
                sum + if entry.op@ == "write"@ {
                    entry.value as int
                } else {
                    0
                },
        ),
{
    lemma_network_fold(
        networks,
        |n: NetworkStats| n.rx_bytes,
        |sum: int, n: NetworkStats| sum + n.rx_bytes,
    );
    lemma_network_fold(
        networks,
        |n: NetworkStats| n.rx_packets,
        |sum: int, n: NetworkStats| sum + n.rx_packets,
    );
    lemma_network_fold(
        networks,
        |n: NetworkStats| n.tx_bytes,
        |sum: int, n: NetworkStats| sum + n.tx_bytes,
    );
    lemma_network_fold(
        networks,
        |n: NetworkStats| n.tx_packets,
        |sum: int, n: NetworkStats| sum + n.tx_packets,
    );
    lemma_entry_fold(
        entries,
        "read"@,
        |sum: int, entry: BlockIo|
            sum + if entry.op@ == "read"@ {
                entry.value as int
            } else {
                0
            },
    );
    lemma_entry_fold(
        entries,
        "write"@,
        |sum: int, entry: BlockIo|
            sum + if entry.op@ == "write"@ {
                entry.value as int
            } else {
                0
            },
    );
    assert(reading@.networks =~= networks);
    assert(reading@.block_io =~= views(entries));
}

proof fn lemma_entry_fold(
    entries: Seq<BlockIo>,
    op: Seq<char>,
    step: spec_fn(int, BlockIo) -> int,
)
    requires
        forall|sum: int, entry: BlockIo| #[trigger]
            step(sum, entry) == sum + if entry.op@ == op {
                entry.value as int
            } else {
                0
            },
    ensures
        block_total(views(entries), op) == entries.fold_left(0int, step),
        block_total(views(entries), op) >= 0,
    decreases entries.len(),
{
    if entries.len() > 0 {
        lemma_entry_fold(entries.drop_last(), op, step);
        assert(views(entries).drop_last() =~= views(entries.drop_last()));
    }
}

} // verus!
