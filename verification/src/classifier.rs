//! Facts derived from a host snapshot: system statistics with the processor
//! temperature picked by sensor label, the process listing, the security
//! audit and the hardware description.

use crate::ranking::{
    is_top_ranking, lemma_top_ranking_descends, lemma_top_ranking_unique, top_ranking,
};
use crate::snapshot::{
    HostSnapshot, HostSnapshotView, NetworkInterface, NetworkInterfaceView, ProcessRecord,
    ProcessRecordView, RefreshScope, Sensor, SensorView,
};
use crate::command::{Invocation, InvocationView};
use crate::text::{
    after_last, before_first, chars_between, chars_of, decimal, digit_char, find,
    first_occurrence, lines, lines_of, lowercase, occurs_at, occurs_in, parse_number,
    parsed_number, push_decimal, text_after_last, text_before_first, text_contains, to_lowercase,
};
use vstd::string::StringExecFns;
use vstd::prelude::*;

verus! {

/// The requests that are answered from a snapshot.
#[derive(Clone, Copy, Debug, PartialEq, Eq, Structural)]
pub enum Request {
    ListProcesses,
    SystemStats,
    SecurityAudit,
    HardwareInfo,
}

/// The parts of the host that are read anew before a request is answered.
/// The audit and the hardware description are answered from the snapshot as
/// it stands.
pub open spec fn scopes_of(request: Request) -> Seq<RefreshScope> {
    match request {
        Request::ListProcesses => seq![
            RefreshScope::Users,
            RefreshScope::Processes,
            RefreshScope::Cpu,
        ],
        Request::SystemStats => seq![
            RefreshScope::Cpu,
            RefreshScope::Memory,
            RefreshScope::Network,
            RefreshScope::Components,
        ],
        Request::SecurityAudit => Seq::empty(),
        Request::HardwareInfo => Seq::empty(),
    }
}

/// The parts of the host to read anew before a request is answered, in the
/// order in which they are to be read: see [`scopes_of`].
pub fn refresh_plan(request: Request) -> (plan: Vec<RefreshScope>)
    ensures
        plan@ == scopes_of(request),
{
    let mut plan: Vec<RefreshScope> = Vec::new();
    match request {
        Request::ListProcesses => {
            plan.push(RefreshScope::Users);
            plan.push(RefreshScope::Processes);
            plan.push(RefreshScope::Cpu);
        },
        Request::SystemStats => {
            plan.push(RefreshScope::Cpu);
            plan.push(RefreshScope::Memory);
            plan.push(RefreshScope::Network);
            plan.push(RefreshScope::Components);
        },
        Request::SecurityAudit => {},
        Request::HardwareInfo => {},
    }
    assert(plan@ =~= scopes_of(request));
    plan
}

/// The sum of the bytes that the interfaces received since boot.
pub open spec fn total_received(interfaces: Seq<NetworkInterfaceView>) -> nat
    decreases interfaces.len(),
{
    if interfaces.len() == 0 {
        0
    } else {
        total_received(interfaces.drop_last()) + interfaces.last().received as nat
    }
}

/// Sums the bytes that the interfaces received since boot. The sum is exact:
/// it is kept in 128 bits, which no number of 64-bit counters can exceed.
pub fn sum_received(interfaces: &Vec<NetworkInterface>) -> (total: u128)
    ensures
        total == total_received(interfaces.deep_view()),
{
    let ghost all = interfaces.deep_view();
    let mut total: u128 = 0;
    let mut i: usize = 0;
    assert(all.take(0) =~= Seq::empty());
    while i < interfaces.len()
        invariant
            i <= interfaces.len(),
            all == interfaces.deep_view(),
            total == total_received(all.take(i as int)),
            total <= i * 0xffff_ffff_ffff_ffff,
        decreases interfaces.len() - i,
    {
        proof {
            assert(all.take(i + 1).drop_last() =~= all.take(i as int));
            assert(all.take(i + 1).last().received == interfaces[i as int].received);
            assert((i + 1) * 0xffff_ffff_ffff_ffff == i * 0xffff_ffff_ffff_ffff
                + 0xffff_ffff_ffff_ffff) by (nonlinear_arith);
            assert((i + 1) * 0xffff_ffff_ffff_ffff <= 0xffff_ffff_ffff_ffff
                * 0xffff_ffff_ffff_ffff) by (nonlinear_arith)
                requires
                    i + 1 <= 0xffff_ffff_ffff_ffff,
            ;
        }
        total = total + interfaces[i].received as u128;
        i += 1;
    }
    assert(all.take(interfaces.len() as int) =~= all);
    total
}

/// The position of the first label in which `rule` occurs, if there is one.
pub open spec fn first_match(labels: Seq<Seq<char>>, rule: Seq<char>) -> Option<int>
    decreases labels.len(),
{
    if labels.len() == 0 {
        None
    } else {
        match first_match(labels.drop_last(), rule) {
            Some(i) => Some(i),
            None => if occurs_in(labels.last(), rule) {
                Some(labels.len() - 1)
            } else {
                None
            },
        }
    }
}

/// The position of the label that the rules select. The rules are tried in
/// order; the first rule that occurs in any label decides, and selects the
/// first label in which it occurs. Nothing is selected where no rule occurs
/// in any label.
pub open spec fn selected_label(labels: Seq<Seq<char>>, rules: Seq<Seq<char>>) -> Option<int>
    decreases rules.len(),
{
    if rules.len() == 0 {
        None
    } else {
        match first_match(labels, rules.first()) {
            Some(i) => Some(i),
            None => selected_label(labels, rules.drop_first()),
        }
    }
}

/// Finds the first label in which `rule` occurs.
pub fn find_label(labels: &Vec<String>, rule: &str) -> (found: Option<usize>)
    ensures
        match found {
            Some(i) => i < labels.len() && first_match(labels.deep_view(), rule@) == Some(i as int),
            None => first_match(labels.deep_view(), rule@) is None,
        },
{
    let needle = chars_of(rule);
    let ghost all = labels.deep_view();
    let mut i: usize = 0;
    assert(all.take(0) =~= Seq::empty());
    while i < labels.len()
        invariant
            i <= labels.len(),
            all == labels.deep_view(),
            needle@ == rule@,
            first_match(all.take(i as int), rule@) is None,
        decreases labels.len() - i,
    {
        proof {
            assert(all.take(i + 1).drop_last() =~= all.take(i as int));
            assert(all.take(i + 1).last() == labels[i as int]@);
        }
        let hay = chars_of(labels[i].as_str());
        if find(&hay, &needle).is_some() {
            proof {
                lemma_first_match_stays(all, rule@, i + 1);
            }
            return Some(i);
        }
        i += 1;
    }
    assert(all.take(labels.len() as int) =~= all);
    None
}

proof fn lemma_first_match_stays(labels: Seq<Seq<char>>, rule: Seq<char>, n: int)
    requires
        0 <= n <= labels.len(),
        first_match(labels.take(n), rule) is Some,
    ensures
        first_match(labels, rule) == first_match(labels.take(n), rule),
    decreases labels.len() - n,
{
    if n < labels.len() {
        assert(labels.take(n + 1).drop_last() =~= labels.take(n));
        lemma_first_match_stays(labels, rule, n + 1);
    } else {
        assert(labels.take(n) =~= labels);
    }
}

/// Selects a label by the rules: see [`selected_label`]. The labels are
/// matched as they stand, so for a match without regard to case they are
/// handed over in lowercase, with rules in lowercase.
pub fn select_label(labels: &Vec<String>, rules: &Vec<String>) -> (selected: Option<usize>)
    ensures
        match selected {
            Some(i) => i < labels.len() && selected_label(labels.deep_view(), rules.deep_view())
                == Some(i as int),
            None => selected_label(labels.deep_view(), rules.deep_view()) is None,
        },
{
    let ghost all = rules.deep_view();
    let mut k: usize = 0;
    assert(all.skip(0) =~= all);
    while k < rules.len()
        invariant
            k <= rules.len(),
            all == rules.deep_view(),
            selected_label(labels.deep_view(), all) == selected_label(
                labels.deep_view(),
                all.skip(k as int),
            ),
        decreases rules.len() - k,
    {
        proof {
            assert(all.skip(k as int).first() == rules[k as int]@);
            assert(all.skip(k as int).drop_first() =~= all.skip(k + 1));
        }
        match find_label(labels, rules[k].as_str()) {
            Some(i) => {
                return Some(i);
            },
            None => {},
        }
        k += 1;
    }
    None
}

proof fn lemma_first_match(labels: Seq<Seq<char>>, rule: Seq<char>)
    ensures
        match first_match(labels, rule) {
            Some(i) => {
                &&& 0 <= i < labels.len()
                &&& occurs_in(labels[i], rule)
                &&& forall|j: int| 0 <= j < i ==> !occurs_in(labels[j], rule)
            },
            None => forall|j: int| 0 <= j < labels.len() ==> !occurs_in(labels[j], rule),
        },
    decreases labels.len(),
{
    if labels.len() > 0 {
        let front = labels.drop_last();
        lemma_first_match(front, rule);
        assert forall|j: int| 0 <= j < front.len() implies front[j] == labels[j] by {}
        match first_match(front, rule) {
            Some(i) => {
                assert(front[i] == labels[i]);
            },
            None => {
                assert forall|j: int| 0 <= j < front.len() implies !occurs_in(labels[j], rule) by {
                    assert(front[j] == labels[j]);
                }
            },
        }
    }
}

/// What the rules select, said without recursion. Where a label is selected,
/// some rule occurs in it, no earlier label holds that rule, and no earlier
/// rule occurs in any label. Where none is selected, no rule occurs in any
/// label.
pub proof fn lemma_selected_label(labels: Seq<Seq<char>>, rules: Seq<Seq<char>>)
    ensures
        match selected_label(labels, rules) {
            Some(i) => {
                &&& 0 <= i < labels.len()
                &&& exists|k: int|
                    {
                        &&& 0 <= k < rules.len()
                        &&& occurs_in(labels[i], #[trigger] rules[k])
                        &&& forall|j: int| 0 <= j < i ==> !occurs_in(labels[j], rules[k])
                        &&& forall|h: int, j: int|
                            0 <= h < k && 0 <= j < labels.len() ==> !occurs_in(
                                labels[j],
                                rules[h],
                            )
                    }
            },
            None => forall|k: int, j: int|
                0 <= k < rules.len() && 0 <= j < labels.len() ==> !occurs_in(labels[j], rules[k]),
        },
    decreases rules.len(),
{
    if rules.len() > 0 {
        let rest = rules.drop_first();
        lemma_first_match(labels, rules.first());
        lemma_selected_label(labels, rest);
        match first_match(labels, rules.first()) {
            Some(i) => {
                assert(occurs_in(labels[i], rules[0]));
            },
            None => {
                assert forall|k: int| 0 <= k < rest.len() implies rest[k] == rules[k + 1] by {}
                match selected_label(labels, rest) {
                    Some(i) => {
                        let k = choose|k: int|
                            {
                                &&& 0 <= k < rest.len()
                                &&& occurs_in(labels[i], #[trigger] rest[k])
                                &&& forall|j: int| 0 <= j < i ==> !occurs_in(labels[j], rest[k])
                                &&& forall|h: int, j: int|
                                    0 <= h < k && 0 <= j < labels.len() ==> !occurs_in(
                                        labels[j],
                                        rest[h],
                                    )
                            };
                        assert(rest[k] == rules[k + 1]);
                        assert forall|h: int, j: int|
                            0 <= h < k + 1 && 0 <= j < labels.len() implies !occurs_in(
                            labels[j],
                            rules[h],
                        ) by {
                            if h > 0 {
                                assert(rest[h - 1] == rules[h]);
                            }
                        }
                        assert(occurs_in(labels[i], rules[k + 1]));
                    },
                    None => {
                        assert forall|k: int, j: int|
                            0 <= k < rules.len() && 0 <= j < labels.len() implies !occurs_in(
                            labels[j],
                            rules[k],
                        ) by {
                            if k > 0 {
                                assert(rest[k - 1] == rules[k]);
                            }
                        }
                    },
                }
            },
        }
    }
}

/// The labels of the sensors, in lowercase.
pub open spec fn lowercase_labels(sensors: Seq<SensorView>) -> Seq<Seq<char>> {
    Seq::new(sensors.len(), |i: int| lowercase(sensors[i].label))
}

/// The reading of the sensor that the rules select by its label, matched
/// without regard to case. No sensor selected means that the temperature is
/// unavailable, which is not a reading of zero.
pub open spec fn temperature_by_rules(sensors: Seq<SensorView>, rules: Seq<Seq<char>>) -> Option<
    i32,
> {
    match selected_label(lowercase_labels(sensors), rules) {
        Some(i) => Some(sensors[i].temperature_milli),
        None => None,
    }
}

/// The label parts that mark a sensor of the processor, most telling first.
pub open spec fn cpu_rules() -> Seq<Seq<char>> {
    seq!["package"@, "coretemp"@, "k10temp"@, "cpu"@, "core"@]
}

/// The label parts that mark a sensor of the processor, most telling first.
pub fn cpu_label_rules() -> (rules: Vec<String>)
    ensures
        rules.deep_view() == cpu_rules(),
{
    let mut rules: Vec<String> = Vec::new();
    rules.push("package".to_owned());
    rules.push("coretemp".to_owned());
    rules.push("k10temp".to_owned());
    rules.push("cpu".to_owned());
    rules.push("core".to_owned());
    assert(rules.deep_view() =~= cpu_rules());
    rules
}

/// Picks a temperature by the rules: see [`temperature_by_rules`].
pub fn select_temperature(sensors: &Vec<Sensor>, rules: &Vec<String>) -> (temperature: Option<i32>)
    ensures
        temperature == temperature_by_rules(sensors.deep_view(), rules.deep_view()),
{
    let mut labels: Vec<String> = Vec::new();
    let mut i: usize = 0;
    while i < sensors.len()
        invariant
            i <= sensors.len(),
            labels.len() == i,
            forall|j: int| 0 <= j < i ==> labels.deep_view()[j] == lowercase(sensors.deep_view()[j].label),
        decreases sensors.len() - i,
    {
        let lowered = to_lowercase(sensors[i].label.as_str());
        let ghost before = labels.deep_view();
        labels.push(lowered);
        assert(labels.deep_view() =~= before.push(lowered@));
        i += 1;
    }
    assert(labels.deep_view() =~= lowercase_labels(sensors.deep_view()));
    match select_label(&labels, rules) {
        Some(i) => Some(sensors[i].temperature_milli),
        None => None,
    }
}

/// The temperature of the processor, picked by the label rules of
/// [`cpu_rules`], or nothing where no sensor's label matches.
pub fn cpu_temperature(sensors: &Vec<Sensor>) -> (temperature: Option<i32>)
    ensures
        temperature == temperature_by_rules(sensors.deep_view(), cpu_rules()),
{
    let rules = cpu_label_rules();
    select_temperature(sensors, &rules)
}

/// What an optional probe of the graphics processor reported.
#[derive(Clone, Copy, Debug, PartialEq, Eq)]
pub struct GpuReading {
    /// Temperature in thousandths of a degree Celsius.
    pub temperature_milli: i32,
    /// Utilization in thousandths of a percent.
    pub utilization_milli: u32,
}

/// The most degrees Celsius that a reading in thousandths can hold.
pub const MAX_DEGREES: u64 = 2_147_483;

/// The most percent that a reading in thousandths can hold.
pub const MAX_PERCENT: u64 = 4_294_967;

/// The run of the vendor's tool that prints the temperature of the graphics
/// processor in degrees Celsius and its utilization in percent, as two
/// numbers with a comma and a space between them.
pub fn gpu_probe_command() -> (run: Invocation)
    ensures
        run@ == (InvocationView {
            program: "nvidia-smi"@,
            args: seq![
                "--query-gpu=temperature.gpu,utilization.gpu"@,
                "--format=csv,noheader,nounits"@,
            ],
        }),
{
    let mut args: Vec<String> = Vec::new();
    args.push("--query-gpu=temperature.gpu,utilization.gpu".to_owned());
    args.push("--format=csv,noheader,nounits".to_owned());
    assert(args.deep_view() =~= seq![
        "--query-gpu=temperature.gpu,utilization.gpu"@,
        "--format=csv,noheader,nounits"@,
    ]);
    Invocation { program: "nvidia-smi".to_owned(), args }
}

/// The reading that a line of the probe gives: the line holds two numbers
/// with `", "` between them, degrees Celsius first and percent second.
/// Anything else is no reading.
pub open spec fn gpu_reading_of_line(line: Seq<char>) -> Option<GpuReading> {
    if occurs_in(line, ", "@) {
        let at = first_occurrence(line, ", "@);
        match (parsed_number(line.take(at)), parsed_number(line.skip(at + ", "@.len()))) {
            (Some(degrees), Some(percent)) => if degrees <= MAX_DEGREES && percent <= MAX_PERCENT {
                Some(
                    GpuReading {
                        temperature_milli: (degrees * 1000) as i32,
                        utilization_milli: (percent * 1000) as u32,
                    },
                )
            } else {
                None
            },
            _ => None,
        }
    } else {
        None
    }
}

/// The reading that the output of the probe gives: that of its first line.
/// There is none where the probe printed nothing, or could not be run, as
/// when the vendor's tool is not installed.
pub open spec fn gpu_reading_of(output: Option<Seq<char>>) -> Option<GpuReading> {
    match output {
        Some(text) => if lines_of(text).len() > 0 {
            gpu_reading_of_line(lines_of(text)[0])
        } else {
            None
        },
        None => None,
    }
}

/// Reads the output of the probe of the graphics processor: see
/// [`gpu_reading_of`].
pub fn read_gpu_probe(output: Option<&str>) -> (reading: Option<GpuReading>)
    ensures
        reading == gpu_reading_of(output.deep_view()),
{
    let text = match output {
        Some(text) => text,
        None => {
            return None;
        },
    };
    let rows = lines(text);
    if rows.len() == 0 {
        return None;
    }
    assert(rows.deep_view()[0] == rows[0]@);
    let line = chars_of(rows[0].as_str());
    let comma = chars_of(", ");
    let at = match find(&line, &comma) {
        Some(at) => at,
        None => {
            return None;
        },
    };
    let end: usize = line.len();
    assert(at + comma@.len() <= end) by {
        assert(occurs_at(line@, comma@, at as int));
    }
    assert(first_occurrence(line@, comma@) == at);
    let left = chars_between(&line, 0, at);
    let right = chars_between(&line, at + comma.len(), end);
    assert(left@ =~= line@.take(at as int));
    assert(right@ =~= line@.skip(at + comma@.len()));
    match (parse_number(&left), parse_number(&right)) {
        (Some(degrees), Some(percent)) => if degrees <= MAX_DEGREES && percent <= MAX_PERCENT {
            Some(
                GpuReading {
                    temperature_milli: (degrees * 1000) as i32,
                    utilization_milli: (percent * 1000) as u32,
                },
            )
        } else {
            None
        },
        _ => None,
    }
}

/// The statistics of the system at one time.
#[derive(Clone, Copy, Debug, PartialEq, Eq)]
pub struct SystemStats {
    /// Utilization over all processors, in thousandths of a percent.
    pub cpu_util_milli: u32,
    /// Memory in use, in bytes.
    pub mem_used: u64,
    /// Memory in all, in bytes.
    pub mem_total: u64,
    /// Bytes received over all interfaces since boot. This is a counter, not a
    /// rate: a rate is the difference of two of these over the time between.
    pub net_in: u128,
    /// Temperature of the processor in thousandths of a degree Celsius, or
    /// nothing where it is unavailable.
    pub cpu_temp_milli: Option<i32>,
    /// Temperature of the graphics processor, where a probe reported one.
    pub gpu_temp_milli: Option<i32>,
    /// Utilization of the graphics processor, where a probe reported one.
    pub gpu_util_milli: Option<u32>,
    /// Seconds since boot.
    pub uptime: u64,
    /// The number of processes.
    pub proc_count: usize,
}

/// The statistics that a snapshot and a probe of the graphics processor give.
/// The sum of the traffic and the number of processes are written here in the
/// width of their fields; [`system_stats`] states that both fit, so that
/// nothing is cut.
pub open spec fn stats_of(snapshot: HostSnapshotView, gpu: Option<GpuReading>) -> SystemStats {
    SystemStats {
        cpu_util_milli: snapshot.cpu_total,
        mem_used: snapshot.mem_used,
        mem_total: snapshot.mem_total,
        net_in: total_received(snapshot.networks) as u128,
        cpu_temp_milli: temperature_by_rules(snapshot.sensors, cpu_rules()),
        gpu_temp_milli: match gpu {
            Some(reading) => Some(reading.temperature_milli),
            None => None,
        },
        gpu_util_milli: match gpu {
            Some(reading) => Some(reading.utilization_milli),
            None => None,
        },
        uptime: snapshot.uptime,
        proc_count: snapshot.processes.len() as usize,
    }
}

/// The statistics of the system as of the snapshot. What the probe of the
/// graphics processor reported is passed on; without a report the values are
/// unavailable.
pub fn system_stats(snapshot: &HostSnapshot, gpu: Option<GpuReading>) -> (stats: SystemStats)
    ensures
        stats == stats_of(snapshot@, gpu),
        stats.net_in == total_received(snapshot@.networks),
        stats.proc_count == snapshot@.processes.len(),
{
    SystemStats {
        cpu_util_milli: snapshot.cpu_total(),
        mem_used: snapshot.mem_used(),
        mem_total: snapshot.mem_total(),
        net_in: sum_received(snapshot.networks()),
        cpu_temp_milli: cpu_temperature(snapshot.sensors()),
        gpu_temp_milli: match gpu {
            Some(reading) => Some(reading.temperature_milli),
            None => None,
        },
        gpu_util_milli: match gpu {
            Some(reading) => Some(reading.utilization_milli),
            None => None,
        },
        uptime: snapshot.uptime(),
        proc_count: snapshot.processes().len(),
    }
}

/// The most processes that a listing holds.
pub const PROCESS_LIMIT: usize = 60;

/// The processor utilization of each record.
pub open spec fn cpu_column(records: Seq<ProcessRecordView>) -> Seq<u32> {
    Seq::new(records.len(), |i: int| records[i].detail.cpu_milli)
}

/// The records at the positions that `order` names, in that order.
pub open spec fn picked(records: Seq<ProcessRecordView>, order: Seq<usize>) -> Seq<
    ProcessRecordView,
> {
    Seq::new(order.len(), |i: int| records[order[i] as int])
}

/// `listed` is the listing of `records` by processor utilization: the records
/// with the highest utilization first, records of equal utilization in the
/// order in which they stand in `records`, cut after `limit` records.
pub open spec fn is_cpu_listing(
    records: Seq<ProcessRecordView>,
    listed: Seq<ProcessRecordView>,
    limit: nat,
) -> bool {
    exists|order: Seq<usize>|
        is_top_ranking(cpu_column(records), order, limit) && listed == picked(records, order)
}

/// There is one listing only.
pub proof fn lemma_cpu_listing_unique(
    records: Seq<ProcessRecordView>,
    a: Seq<ProcessRecordView>,
    b: Seq<ProcessRecordView>,
    limit: nat,
)
    requires
        is_cpu_listing(records, a, limit),
        is_cpu_listing(records, b, limit),
    ensures
        a == b,
{
    let first = choose|order: Seq<usize>|
        is_top_ranking(cpu_column(records), order, limit) && a == picked(records, order);
    let second = choose|order: Seq<usize>|
        is_top_ranking(cpu_column(records), order, limit) && b == picked(records, order);
    lemma_top_ranking_unique(cpu_column(records), first, second, limit);
}

/// A listing holds no more than `limit` records, each of them one of
/// `records`, and the utilization never rises along it.
pub proof fn lemma_cpu_listing_descends(
    records: Seq<ProcessRecordView>,
    listed: Seq<ProcessRecordView>,
    limit: nat,
)
    requires
        is_cpu_listing(records, listed, limit),
    ensures
        listed.len() <= limit,
        listed.len() <= records.len(),
        forall|i: int| 0 <= i < listed.len() ==> records.contains(#[trigger] listed[i]),
        forall|i: int, j: int|
            0 <= i < j < listed.len() ==> listed[i].detail.cpu_milli >= listed[j].detail.cpu_milli,
{
    let order = choose|order: Seq<usize>|
        is_top_ranking(cpu_column(records), order, limit) && listed == picked(records, order);
    lemma_top_ranking_descends(cpu_column(records), order, limit);
    assert forall|i: int| 0 <= i < listed.len() implies records.contains(#[trigger] listed[i]) by {
        assert(records[order[i] as int] == listed[i]);
    }
    assert forall|i: int, j: int| 0 <= i < j < listed.len() implies listed[i].detail.cpu_milli
        >= listed[j].detail.cpu_milli by {
        assert(cpu_column(records)[order[i] as int] >= cpu_column(records)[order[j] as int]);
    }
}

/// Lists `records` by processor utilization, highest first, and cuts the
/// listing after `limit` records. Records of equal utilization keep their
/// order.
pub fn list_by_cpu(records: &Vec<ProcessRecord>, limit: usize) -> (listed: Vec<ProcessRecord>)
    ensures
        is_cpu_listing(records.deep_view(), listed.deep_view(), limit as nat),
        listed.len() <= limit,
        forall|i: int, j: int|
            0 <= i < j < listed.len() ==> listed.deep_view()[i].detail.cpu_milli
                >= listed.deep_view()[j].detail.cpu_milli,
{
    let mut keys: Vec<u32> = Vec::new();
    let mut i: usize = 0;
    while i < records.len()
        invariant
            i <= records.len(),
            keys.len() == i,
            forall|j: int| 0 <= j < i ==> keys@[j] == records.deep_view()[j].detail.cpu_milli,
        decreases records.len() - i,
    {
        keys.push(records[i].detail.cpu_milli);
        i += 1;
    }
    assert(keys@ =~= cpu_column(records.deep_view()));
    let order = top_ranking(&keys, limit);
    let mut listed: Vec<ProcessRecord> = Vec::new();
    let mut k: usize = 0;
    while k < order.len()
        invariant
            k <= order.len(),
            listed.len() == k,
            forall|j: int| 0 <= j < order.len() ==> order@[j] < records.len(),
            forall|j: int| 0 <= j < k ==> listed.deep_view()[j] == records.deep_view()[order@[j] as int],
        decreases order.len() - k,
    {
        let record = records[order[k]].duplicate();
        let ghost before = listed.deep_view();
        listed.push(record);
        assert(listed.deep_view() =~= before.push(record@));
        k += 1;
    }
    proof {
        assert(listed.deep_view() =~= picked(records.deep_view(), order@));
        lemma_cpu_listing_descends(records.deep_view(), listed.deep_view(), limit as nat);
    }
    listed
}

/// The processes of the snapshot with the highest processor utilization, at
/// most [`PROCESS_LIMIT`] of them, highest first. Processes of equal
/// utilization stand in the order of enumeration. The owner of each is
/// resolved against the accounts of the snapshot.
pub fn list_processes(snapshot: &HostSnapshot) -> (listed: Vec<ProcessRecord>)
    ensures
        is_cpu_listing(snapshot@.processes, listed.deep_view(), PROCESS_LIMIT as nat),
        listed.len() <= PROCESS_LIMIT,
        forall|i: int, j: int|
            0 <= i < j < listed.len() ==> listed.deep_view()[i].detail.cpu_milli
                >= listed.deep_view()[j].detail.cpu_milli,
        snapshot@.consistent(),
{
    list_by_cpu(snapshot.processes(), PROCESS_LIMIT)
}

/// The text that stands for a value that is not available.
pub open spec fn unknown_text() -> Seq<char> {
    "unknown"@
}

/// A text where it is available, `unknown` where it is not.
pub open spec fn text_or_unknown(text: Option<Seq<char>>) -> Seq<char> {
    match text {
        Some(text) => text,
        None => unknown_text(),
    }
}

/// A copy of the text where it is available, `unknown` where it is not.
pub fn known_or_unknown(text: &Option<String>) -> (shown: String)
    ensures
        shown@ == text_or_unknown(text.deep_view()),
{
    match text {
        Some(text) => text.clone(),
        None => "unknown".to_owned(),
    }
}

/// The number of processes that belong to the privileged account.
pub open spec fn privileged_count(records: Seq<ProcessRecordView>) -> nat
    decreases records.len(),
{
    if records.len() == 0 {
        0
    } else {
        privileged_count(records.drop_last()) + if records.last().is_privileged() {
            1nat
        } else {
            0nat
        }
    }
}

/// Counts the processes that belong to the privileged account.
pub fn count_privileged(records: &Vec<ProcessRecord>) -> (count: usize)
    ensures
        count == privileged_count(records.deep_view()),
{
    let ghost all = records.deep_view();
    let mut count: usize = 0;
    let mut i: usize = 0;
    assert(all.take(0) =~= Seq::empty());
    while i < records.len()
        invariant
            i <= records.len(),
            all == records.deep_view(),
            count <= i,
            count == privileged_count(all.take(i as int)),
        decreases records.len() - i,
    {
        proof {
            assert(all.take(i + 1).drop_last() =~= all.take(i as int));
            assert(all.take(i + 1).last() == records[i as int]@);
        }
        if records[i].is_privileged() {
            count += 1;
        }
        i += 1;
    }
    assert(all.take(records.len() as int) =~= all);
    count
}

/// How the kernel applies its mandatory access control.
#[derive(Clone, Copy, Debug, PartialEq, Eq, Structural)]
pub enum MacMode {
    Disabled,
    Permissive,
    Enforcing,
}

/// What probes of the security posture reported. Each value is missing where
/// no probe reported it, which is often so without elevated rights.
#[derive(Clone, Copy, Debug, PartialEq, Eq)]
pub struct SecurityProbes {
    pub listening_ports: Option<u32>,
    pub mac_mode: Option<MacMode>,
    pub secure_boot: Option<bool>,
}

/// The security audit of a host. A value that no probe reported is missing:
/// it is never replaced by a value that reads like a finding.
#[derive(Clone, Debug, PartialEq, Eq)]
pub struct SecurityAudit {
    /// The version of the kernel, or `unknown`.
    pub kernel_version: String,
    /// The name of the operating system, or `unknown`.
    pub os_name: String,
    /// The number of processes that belong to the privileged account.
    pub root_procs: usize,
    pub listening_ports: Option<u32>,
    pub mac_mode: Option<MacMode>,
    pub secure_boot: Option<bool>,
}

/// The security audit as of the snapshot. The kernel version and the name of
/// the operating system are passed on as the snapshot holds them, and read
/// `unknown` where it holds none. What the probes reported is passed on.
pub fn security_audit(snapshot: &HostSnapshot, probes: SecurityProbes) -> (audit: SecurityAudit)
    ensures
        audit.kernel_version@ == text_or_unknown(snapshot@.kernel_version),
        audit.os_name@ == text_or_unknown(snapshot@.os_name),
        audit.root_procs == privileged_count(snapshot@.processes),
        audit.listening_ports == probes.listening_ports,
        audit.mac_mode == probes.mac_mode,
        audit.secure_boot == probes.secure_boot,
{
    SecurityAudit {
        kernel_version: known_or_unknown(snapshot.kernel_version()),
        os_name: known_or_unknown(snapshot.os_name()),
        root_procs: count_privileged(snapshot.processes()),
        listening_ports: probes.listening_ports,
        mac_mode: probes.mac_mode,
        secure_boot: probes.secure_boot,
    }
}

/// The run of the tool that lists the devices on the PCI bus, one to a line.
pub fn device_listing_command() -> (run: Invocation)
    ensures
        run@ == (InvocationView { program: "lspci"@, args: Seq::empty() }),
{
    let args: Vec<String> = Vec::new();
    assert(args.deep_view() =~= Seq::empty());
    Invocation { program: "lspci".to_owned(), args }
}

/// The class part of a line of the device listing: what stands before its
/// first `": "`, or the whole line where it holds none. The description of
/// the device follows it and plays no part in telling the class.
pub open spec fn device_class(line: Seq<char>) -> Seq<char> {
    before_first(line, ": "@)
}

/// The line of a device listing is that of a graphics device: its class part
/// holds `VGA` or `3D`.
pub open spec fn is_gpu_line(line: Seq<char>) -> bool {
    occurs_in(device_class(line), "VGA"@) || occurs_in(device_class(line), "3D"@)
}

/// The first line of a graphics device, if there is one.
pub open spec fn first_gpu_line(lines: Seq<Seq<char>>) -> Option<Seq<char>>
    decreases lines.len(),
{
    if lines.len() == 0 {
        None
    } else if is_gpu_line(lines.first()) {
        Some(lines.first())
    } else {
        first_gpu_line(lines.drop_first())
    }
}

/// The model of the graphics device that a listing of the devices gives:
/// what follows the last `": "` of the first line whose class is that of a
/// graphics device. Without such a line the model reads `Integrated/Unknown`,
/// whatever the descriptions of other devices hold; without a listing it
/// reads `Unknown`.
pub open spec fn gpu_model_of(listing: Option<Seq<char>>) -> Seq<char> {
    match listing {
        None => "Unknown"@,
        Some(text) => match first_gpu_line(lines_of(text)) {
            Some(line) => after_last(line, ": "@),
            None => "Integrated/Unknown"@,
        },
    }
}

/// The model of the graphics device: see [`gpu_model_of`]. The listing is
/// missing where the probe for it failed.
pub fn gpu_model(listing: Option<&str>) -> (model: String)
    ensures
        model@ == gpu_model_of(listing.deep_view()),
{
    match listing {
        None => "Unknown".to_owned(),
        Some(text) => {
            let all = lines(text);
            let ghost rows = all.deep_view();
            let mut i: usize = 0;
            assert(rows.skip(0) =~= rows);
            while i < all.len()
                invariant
                    i <= all.len(),
                    rows == all.deep_view(),
                    rows == lines_of(text@),
                    listing.deep_view() == Some(text@),
                    first_gpu_line(rows) == first_gpu_line(rows.skip(i as int)),
                decreases all.len() - i,
            {
                proof {
                    assert(rows.skip(i as int).first() == all[i as int]@);
                    assert(rows.skip(i as int).drop_first() =~= rows.skip(i + 1));
                }
                let line = all[i].as_str();
                let class = text_before_first(line, ": ");
                if text_contains(class.as_str(), "VGA") || text_contains(class.as_str(), "3D") {
                    return text_after_last(line, ": ");
                }
                i += 1;
            }
            "Integrated/Unknown".to_owned()
        },
    }
}

/// The number of bytes in a gibibyte.
pub const GIB: u64 = 0x4000_0000;

/// `bytes` in tenths of a gibibyte, rounded to the nearest tenth; where two
/// are equally near, to the even one.
pub open spec fn gib_tenths(bytes: nat) -> nat {
    let scaled = bytes * 10;
    let whole = scaled / (GIB as nat);
    let rest = scaled % (GIB as nat);
    if 2 * rest > GIB || (2 * rest == GIB && whole % 2 == 1) {
        whole + 1
    } else {
        whole
    }
}

/// An amount of memory as it is shown: in gibibytes with one decimal, and the
/// unit `GB`.
pub open spec fn ram_text(bytes: nat) -> Seq<char> {
    let tenths = gib_tenths(bytes);
    decimal(tenths / 10) + seq!['.', digit_char(tenths % 10)] + " GB"@
}

/// Writes an amount of memory as it is shown: see [`ram_text`].
pub fn format_ram(bytes: u64) -> (shown: String)
    ensures
        shown@ == ram_text(bytes as nat),
{
    let scaled: u128 = bytes as u128 * 10;
    let whole: u128 = scaled / (GIB as u128);
    let rest: u128 = scaled % (GIB as u128);
    let tenths: u128 = if 2 * rest > GIB as u128 || (2 * rest == GIB as u128 && whole % 2 == 1) {
        whole + 1
    } else {
        whole
    };
    assert(tenths == gib_tenths(bytes as nat));
    let mut shown = String::new();
    push_decimal(&mut shown, (tenths / 10) as u64);
    shown.push('.');
    shown.push((48u8 + (tenths % 10) as u8) as char);
    shown.append(" GB");
    assert(shown@ =~= ram_text(bytes as nat));
    shown
}

/// The description of the hardware.
#[derive(Clone, Debug, PartialEq, Eq)]
pub struct HardwareInfo {
    pub cpu_model: String,
    /// The number of logical processors.
    pub cpu_cores: usize,
    /// The memory in all, as it is shown: see [`ram_text`].
    pub ram_total: String,
    pub gpu_model: String,
    /// The name of the operating system, or `unknown`.
    pub os_distro: String,
}

/// The description of the hardware as of the snapshot, with the model of the
/// graphics device taken from a listing of the devices: see [`gpu_model_of`].
pub fn hardware_info(snapshot: &HostSnapshot, device_listing: Option<&str>) -> (info: HardwareInfo)
    ensures
        info.cpu_model@ == snapshot@.cpu_brand,
        info.cpu_cores == snapshot@.per_cpu.len(),
        info.ram_total@ == ram_text(snapshot@.mem_total as nat),
        info.gpu_model@ == gpu_model_of(device_listing.deep_view()),
        info.os_distro@ == text_or_unknown(snapshot@.os_name),
{
    HardwareInfo {
        cpu_model: snapshot.cpu_brand().clone(),
        cpu_cores: snapshot.per_cpu().len(),
        ram_total: format_ram(snapshot.mem_total()),
        gpu_model: gpu_model(device_listing),
        os_distro: known_or_unknown(snapshot.os_name()),
    }
}

} // verus!
