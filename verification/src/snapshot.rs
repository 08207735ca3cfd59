//! The host snapshot: what the operating system last reported of processes,
//! processors, memory, network interfaces, thermal sensors and user accounts.
//!
//! A snapshot is refreshed part by part, in place. Each reading replaces the
//! part it belongs to and leaves the others as they were, so the snapshot is
//! consistent only as of the latest reading of each part.
//!
//! Units are fixed: utilization in thousandths of a percent, temperature in
//! thousandths of a degree Celsius, memory and traffic in bytes, time in
//! seconds.

use crate::text::same_text;
use vstd::prelude::*;

verus! {

/// The parts of the host that can be read anew.
#[derive(Clone, Copy, Debug, PartialEq, Eq, Structural)]
pub enum RefreshScope {
    Processes,
    Cpu,
    Memory,
    Network,
    Components,
    Users,
    All,
}

impl RefreshScope {
    /// The parts that a scope stands for: all six for `All`, the part itself
    /// for any other.
    pub open spec fn parts_of(self) -> Seq<RefreshScope> {
        match self {
            RefreshScope::All => seq![
                RefreshScope::Users,
                RefreshScope::Processes,
                RefreshScope::Cpu,
                RefreshScope::Memory,
                RefreshScope::Network,
                RefreshScope::Components,
            ],
            part => seq![part],
        }
    }

    /// The parts that a scope stands for, in the order in which they are to
    /// be read: see [`RefreshScope::parts_of`]. The accounts come first, so
    /// that the processes read after them find their owners.
    pub fn parts(self) -> (parts: Vec<RefreshScope>)
        ensures
            parts@ == self.parts_of(),
            forall|i: int| 0 <= i < parts.len() ==> parts@[i] != RefreshScope::All,
    {
        let mut parts: Vec<RefreshScope> = Vec::new();
        match self {
            RefreshScope::All => {
                parts.push(RefreshScope::Users);
                parts.push(RefreshScope::Processes);
                parts.push(RefreshScope::Cpu);
                parts.push(RefreshScope::Memory);
                parts.push(RefreshScope::Network);
                parts.push(RefreshScope::Components);
            },
            part => {
                parts.push(part);
            },
        }
        assert(parts@ =~= self.parts_of());
        parts
    }
}

/// A user account known to the operating system.
#[derive(Clone, Debug, PartialEq, Eq)]
pub struct UserAccount {
    pub uid: u32,
    pub name: String,
}

pub struct UserAccountView {
    pub uid: u32,
    pub name: Seq<char>,
}

impl View for UserAccount {
    type V = UserAccountView;

    open spec fn view(&self) -> UserAccountView {
        UserAccountView { uid: self.uid, name: self.name@ }
    }
}

impl DeepView for UserAccount {
    type V = UserAccountView;

    open spec fn deep_view(&self) -> UserAccountView {
        self@
    }
}

/// What was read of one process.
#[derive(Clone, Debug, PartialEq, Eq)]
pub struct ProcessDetail {
    pub name: String,
    /// The id of the owning user, where the system reports one.
    pub owner_id: Option<u32>,
    pub exe: String,
    pub cmd: String,
    /// The state tag of the operating system (running, sleeping, zombie, ...).
    pub status: String,
    /// Processor utilization, in thousandths of a percent.
    pub cpu_milli: u32,
    /// Resident memory, in bytes.
    pub memory: u64,
    /// Bytes read from disk since the process started.
    pub disk_read: u64,
}

pub struct ProcessDetailView {
    pub name: Seq<char>,
    pub owner_id: Option<u32>,
    pub exe: Seq<char>,
    pub cmd: Seq<char>,
    pub status: Seq<char>,
    pub cpu_milli: u32,
    pub memory: u64,
    pub disk_read: u64,
}

impl View for ProcessDetail {
    type V = ProcessDetailView;

    open spec fn view(&self) -> ProcessDetailView {
        ProcessDetailView {
            name: self.name@,
            owner_id: self.owner_id,
            exe: self.exe@,
            cmd: self.cmd@,
            status: self.status@,
            cpu_milli: self.cpu_milli,
            memory: self.memory,
            disk_read: self.disk_read,
        }
    }
}

impl DeepView for ProcessDetail {
    type V = ProcessDetailView;

    open spec fn deep_view(&self) -> ProcessDetailView {
        self@
    }
}

impl ProcessDetail {
    /// A copy of this detail.
    pub fn duplicate(&self) -> (copy: ProcessDetail)
        ensures
            copy == *self,
    {
        ProcessDetail {
            name: self.name.clone(),
            owner_id: self.owner_id,
            exe: self.exe.clone(),
            cmd: self.cmd.clone(),
            status: self.status.clone(),
            cpu_milli: self.cpu_milli,
            memory: self.memory,
            disk_read: self.disk_read,
        }
    }
}

/// One entry of a process enumeration. The detail is missing where the process
/// could not be read, as when it exits between enumeration and reading.
#[derive(Clone, Debug, PartialEq, Eq)]
pub struct ProcessSample {
    pub pid: u32,
    pub detail: Option<ProcessDetail>,
}

pub struct ProcessSampleView {
    pub pid: u32,
    pub detail: Option<ProcessDetailView>,
}

impl View for ProcessSample {
    type V = ProcessSampleView;

    open spec fn view(&self) -> ProcessSampleView {
        ProcessSampleView { pid: self.pid, detail: self.detail.deep_view() }
    }
}

impl DeepView for ProcessSample {
    type V = ProcessSampleView;

    open spec fn deep_view(&self) -> ProcessSampleView {
        self@
    }
}

/// A live process as of the last refresh. The process id identifies it only
/// at that time: the system uses ids again.
#[derive(Clone, Debug, PartialEq, Eq)]
pub struct ProcessRecord {
    pub pid: u32,
    /// The name of the owning account, resolved against the known accounts.
    pub owner: String,
    pub detail: ProcessDetail,
}

pub struct ProcessRecordView {
    pub pid: u32,
    pub owner: Seq<char>,
    pub detail: ProcessDetailView,
}

impl View for ProcessRecord {
    type V = ProcessRecordView;

    open spec fn view(&self) -> ProcessRecordView {
        ProcessRecordView { pid: self.pid, owner: self.owner@, detail: self.detail@ }
    }
}

impl DeepView for ProcessRecord {
    type V = ProcessRecordView;

    open spec fn deep_view(&self) -> ProcessRecordView {
        self@
    }
}

/// The owner given to a process for which the system reports no owning user.
pub open spec fn system_owner() -> Seq<char> {
    "system"@
}

/// The owner given to a process whose user id no known account has.
pub open spec fn unknown_owner() -> Seq<char> {
    "unknown"@
}

/// The name of the privileged account.
pub open spec fn privileged_account() -> Seq<char> {
    "root"@
}

/// The name of the first account with the id `uid`, if there is one.
pub open spec fn account_name(users: Seq<UserAccountView>, uid: u32) -> Option<Seq<char>>
    decreases users.len(),
{
    if users.len() == 0 {
        None
    } else if users.first().uid == uid {
        Some(users.first().name)
    } else {
        account_name(users.drop_first(), uid)
    }
}

/// The owner's name for a process: `system` where no owning user is reported,
/// the account's name where the id is known, `unknown` otherwise.
pub open spec fn resolve_owner(owner_id: Option<u32>, users: Seq<UserAccountView>) -> Seq<char> {
    match owner_id {
        None => system_owner(),
        Some(uid) => match account_name(users, uid) {
            Some(name) => name,
            None => unknown_owner(),
        },
    }
}

impl ProcessRecordView {
    /// The process belongs to the privileged account.
    pub open spec fn is_privileged(self) -> bool {
        self.owner == privileged_account()
    }
}

/// A process whose owner cannot be told is never privileged: neither one
/// without an owning user, whose owner reads `system`, nor one whose user id
/// no account has, whose owner reads `unknown`.
pub proof fn lemma_unresolved_owner(record: ProcessRecordView, users: Seq<UserAccountView>)
    requires
        record.owner == resolve_owner(record.detail.owner_id, users),
    ensures
        record.detail.owner_id is None ==> record.owner == system_owner()
            && !record.is_privileged(),
        record.detail.owner_id is Some && account_name(users, record.detail.owner_id->0) is None
            ==> record.owner == unknown_owner() && !record.is_privileged(),
{
    reveal_strlit("system");
    reveal_strlit("unknown");
    reveal_strlit("root");
    assert("system"@.len() != "root"@.len());
    assert("unknown"@.len() != "root"@.len());
}

impl ProcessRecord {
    /// Tells whether the process belongs to the privileged account.
    pub fn is_privileged(&self) -> (b: bool)
        ensures
            b == self@.is_privileged(),
    {
        same_text(self.owner.as_str(), "root")
    }

    /// A copy of this record.
    pub fn duplicate(&self) -> (copy: ProcessRecord)
        ensures
            copy == *self,
    {
        ProcessRecord { pid: self.pid, owner: self.owner.clone(), detail: self.detail.duplicate() }
    }
}

/// A network interface with its traffic counters, which count from boot.
#[derive(Clone, Debug, PartialEq, Eq)]
pub struct NetworkInterface {
    pub name: String,
    /// Bytes received since boot.
    pub received: u64,
    /// Bytes sent since boot.
    pub transmitted: u64,
}

pub struct NetworkInterfaceView {
    pub name: Seq<char>,
    pub received: u64,
    pub transmitted: u64,
}

impl View for NetworkInterface {
    type V = NetworkInterfaceView;

    open spec fn view(&self) -> NetworkInterfaceView {
        NetworkInterfaceView {
            name: self.name@,
            received: self.received,
            transmitted: self.transmitted,
        }
    }
}

impl DeepView for NetworkInterface {
    type V = NetworkInterfaceView;

    open spec fn deep_view(&self) -> NetworkInterfaceView {
        self@
    }
}

/// A thermal sensor with its current reading.
#[derive(Clone, Debug, PartialEq, Eq)]
pub struct Sensor {
    pub label: String,
    /// Temperature in thousandths of a degree Celsius.
    pub temperature_milli: i32,
}

pub struct SensorView {
    pub label: Seq<char>,
    pub temperature_milli: i32,
}

impl View for Sensor {
    type V = SensorView;

    open spec fn view(&self) -> SensorView {
        SensorView { label: self.label@, temperature_milli: self.temperature_milli }
    }
}

impl DeepView for Sensor {
    type V = SensorView;

    open spec fn deep_view(&self) -> SensorView {
        self@
    }
}

/// A reading of the processors. It carries the uptime, the clock against which
/// utilization is measured.
#[derive(Clone, Debug, PartialEq, Eq)]
pub struct CpuReading {
    /// Utilization of each logical processor, in thousandths of a percent.
    pub per_cpu: Vec<u32>,
    /// Utilization over all processors, in thousandths of a percent.
    pub total: u32,
    pub brand: String,
    /// Seconds since boot.
    pub uptime: u64,
}

pub struct CpuReadingView {
    pub per_cpu: Seq<u32>,
    pub total: u32,
    pub brand: Seq<char>,
    pub uptime: u64,
}

impl View for CpuReading {
    type V = CpuReadingView;

    open spec fn view(&self) -> CpuReadingView {
        CpuReadingView {
            per_cpu: self.per_cpu@,
            total: self.total,
            brand: self.brand@,
            uptime: self.uptime,
        }
    }
}

/// What the operating system reported of one part of the host.
#[derive(Clone, Debug, PartialEq, Eq)]
pub enum Reading {
    /// The processes, in the order of enumeration.
    Processes(Vec<ProcessSample>),
    Cpu(CpuReading),
    /// Memory in use and in all, in bytes.
    Memory { used: u64, total: u64 },
    Network(Vec<NetworkInterface>),
    /// The thermal sensors, or nothing where they could not be read.
    Components(Option<Vec<Sensor>>),
    Users(Vec<UserAccount>),
}

pub enum ReadingView {
    Processes(Seq<ProcessSampleView>),
    Cpu(CpuReadingView),
    Memory { used: u64, total: u64 },
    Network(Seq<NetworkInterfaceView>),
    Components(Option<Seq<SensorView>>),
    Users(Seq<UserAccountView>),
}

impl View for Reading {
    type V = ReadingView;

    open spec fn view(&self) -> ReadingView {
        match self {
            Reading::Processes(samples) => ReadingView::Processes(samples.deep_view()),
            Reading::Cpu(cpu) => ReadingView::Cpu(cpu@),
            Reading::Memory { used, total } => ReadingView::Memory { used: *used, total: *total },
            Reading::Network(interfaces) => ReadingView::Network(interfaces.deep_view()),
            Reading::Components(sensors) => ReadingView::Components(sensors.deep_view()),
            Reading::Users(users) => ReadingView::Users(users.deep_view()),
        }
    }
}

impl Reading {
    /// The part of the host that this reading is of.
    pub fn scope(&self) -> (scope: RefreshScope)
        ensures
            scope == self@.scope(),
    {
        match self {
            Reading::Processes(_) => RefreshScope::Processes,
            Reading::Cpu(_) => RefreshScope::Cpu,
            Reading::Memory { .. } => RefreshScope::Memory,
            Reading::Network(_) => RefreshScope::Network,
            Reading::Components(_) => RefreshScope::Components,
            Reading::Users(_) => RefreshScope::Users,
        }
    }
}

impl ReadingView {
    pub open spec fn scope(self) -> RefreshScope {
        match self {
            ReadingView::Processes(_) => RefreshScope::Processes,
            ReadingView::Cpu(_) => RefreshScope::Cpu,
            ReadingView::Memory { .. } => RefreshScope::Memory,
            ReadingView::Network(_) => RefreshScope::Network,
            ReadingView::Components(_) => RefreshScope::Components,
            ReadingView::Users(_) => RefreshScope::Users,
        }
    }
}

/// Some record has the process id `pid`.
pub open spec fn has_pid(records: Seq<ProcessRecordView>, pid: u32) -> bool {
    exists|i: int| 0 <= i < records.len() && records[i].pid == pid
}

/// No process id occurs twice.
pub open spec fn distinct_pids(records: Seq<ProcessRecordView>) -> bool {
    forall|i: int, j: int| 0 <= i < j < records.len() ==> records[i].pid != records[j].pid
}

/// Every record's owner is its owner id resolved against `users`.
pub open spec fn owners_resolved(
    records: Seq<ProcessRecordView>,
    users: Seq<UserAccountView>,
) -> bool {
    forall|i: int|
        0 <= i < records.len() ==> #[trigger] records[i].owner == resolve_owner(
            records[i].detail.owner_id,
            users,
        )
}

/// The record made of a process that was read.
pub open spec fn record_of(
    pid: u32,
    detail: ProcessDetailView,
    users: Seq<UserAccountView>,
) -> ProcessRecordView {
    ProcessRecordView { pid, owner: resolve_owner(detail.owner_id, users), detail }
}

/// The records that an enumeration gives: one for each process that could be
/// read, in the order of enumeration. Of several entries with one process id
/// the first that could be read counts.
pub open spec fn records_of(
    samples: Seq<ProcessSampleView>,
    users: Seq<UserAccountView>,
) -> Seq<ProcessRecordView>
    decreases samples.len(),
{
    if samples.len() == 0 {
        Seq::empty()
    } else {
        let earlier = records_of(samples.drop_last(), users);
        let sample = samples.last();
        match sample.detail {
            Some(detail) => if has_pid(earlier, sample.pid) {
                earlier
            } else {
                earlier.push(record_of(sample.pid, detail, users))
            },
            None => earlier,
        }
    }
}

/// The records with every owner resolved anew against `users`.
pub open spec fn reowned(
    records: Seq<ProcessRecordView>,
    users: Seq<UserAccountView>,
) -> Seq<ProcessRecordView> {
    Seq::new(records.len(), |i: int| record_of(records[i].pid, records[i].detail, users))
}

/// The processes together with the accounts that their owners are resolved
/// against.
#[derive(Debug)]
struct Census {
    processes: Vec<ProcessRecord>,
    users: Vec<UserAccount>,
}

/// The state of the host as of the last reading of each part.
#[derive(Debug)]
pub struct HostSnapshot {
    census: Census,
    per_cpu: Vec<u32>,
    cpu_total: u32,
    cpu_brand: String,
    uptime: u64,
    mem_used: u64,
    mem_total: u64,
    networks: Vec<NetworkInterface>,
    sensors: Vec<Sensor>,
    os_name: Option<String>,
    kernel_version: Option<String>,
}

pub struct HostSnapshotView {
    /// The processes in the order of enumeration, no process id twice.
    pub processes: Seq<ProcessRecordView>,
    pub users: Seq<UserAccountView>,
    pub per_cpu: Seq<u32>,
    pub cpu_total: u32,
    pub cpu_brand: Seq<char>,
    pub uptime: u64,
    pub mem_used: u64,
    pub mem_total: u64,
    pub networks: Seq<NetworkInterfaceView>,
    pub sensors: Seq<SensorView>,
    pub os_name: Option<Seq<char>>,
    pub kernel_version: Option<Seq<char>>,
}

impl HostSnapshotView {
    /// What holds of every snapshot: process ids are distinct, and every
    /// process's owner is resolved against the accounts of this snapshot.
    pub open spec fn consistent(self) -> bool {
        &&& distinct_pids(self.processes)
        &&& owners_resolved(self.processes, self.users)
    }

    /// The snapshot of a host of which nothing was read yet but its identity.
    pub open spec fn initial(
        os_name: Option<Seq<char>>,
        kernel_version: Option<Seq<char>>,
    ) -> HostSnapshotView {
        HostSnapshotView {
            processes: Seq::empty(),
            users: Seq::empty(),
            per_cpu: Seq::empty(),
            cpu_total: 0,
            cpu_brand: Seq::empty(),
            uptime: 0,
            mem_used: 0,
            mem_total: 0,
            networks: Seq::empty(),
            sensors: Seq::empty(),
            os_name,
            kernel_version,
        }
    }

    /// The snapshot after a reading: the part that was read is replaced, the
    /// others stay. Processes are rebuilt from the enumeration, so a process
    /// that it does not hold is gone. Sensors that could not be read leave an
    /// empty set. New accounts resolve the owners of the processes anew.
    pub open spec fn refreshed(self, reading: ReadingView) -> HostSnapshotView {
        match reading {
            ReadingView::Processes(samples) => HostSnapshotView {
                processes: records_of(samples, self.users),
                ..self
            },
            ReadingView::Cpu(cpu) => HostSnapshotView {
                per_cpu: cpu.per_cpu,
                cpu_total: cpu.total,
                cpu_brand: cpu.brand,
                uptime: cpu.uptime,
                ..self
            },
            ReadingView::Memory { used, total } => HostSnapshotView {
                mem_used: used,
                mem_total: total,
                ..self
            },
            ReadingView::Network(interfaces) => HostSnapshotView { networks: interfaces, ..self },
            ReadingView::Components(sensors) => HostSnapshotView {
                sensors: match sensors {
                    Some(sensors) => sensors,
                    None => Seq::empty(),
                },
                ..self
            },
            ReadingView::Users(users) => HostSnapshotView {
                users,
                processes: reowned(self.processes, users),
                ..self
            },
        }
    }
}

impl View for HostSnapshot {
    type V = HostSnapshotView;

    closed spec fn view(&self) -> HostSnapshotView {
        HostSnapshotView {
            processes: self.census.processes.deep_view(),
            users: self.census.users.deep_view(),
            per_cpu: self.per_cpu@,
            cpu_total: self.cpu_total,
            cpu_brand: self.cpu_brand@,
            uptime: self.uptime,
            mem_used: self.mem_used,
            mem_total: self.mem_total,
            networks: self.networks.deep_view(),
            sensors: self.sensors.deep_view(),
            os_name: self.os_name.deep_view(),
            kernel_version: self.kernel_version.deep_view(),
        }
    }
}

/// The owner's name for a process with the owner id `owner_id`.
pub fn owner_name(owner_id: Option<u32>, users: &Vec<UserAccount>) -> (name: String)
    ensures
        name@ == resolve_owner(owner_id, users.deep_view()),
{
    match owner_id {
        None => "system".to_owned(),
        Some(uid) => {
            let ghost accounts = users.deep_view();
            let mut i: usize = 0;
            assert(accounts.skip(0) =~= accounts);
            while i < users.len()
                invariant
                    i <= users.len(),
                    owner_id == Some(uid),
                    accounts == users.deep_view(),
                    account_name(accounts, uid) == account_name(accounts.skip(i as int), uid),
                decreases users.len() - i,
            {
                assert(accounts.skip(i as int).first() == accounts[i as int]);
                assert(accounts[i as int] == users@[i as int]@);
                assert(accounts.skip(i as int).drop_first() =~= accounts.skip(i + 1));
                if users[i].uid == uid {
                    return users[i].name.clone();
                }
                i += 1;
            }
            "unknown".to_owned()
        },
    }
}

/// Tells whether some record has the process id `pid`.
pub fn holds_pid(records: &Vec<ProcessRecord>, pid: u32) -> (b: bool)
    ensures
        b == has_pid(records.deep_view(), pid),
{
    let mut i: usize = 0;
    while i < records.len()
        invariant
            i <= records.len(),
            forall|j: int| 0 <= j < i ==> records.deep_view()[j].pid != pid,
        decreases records.len() - i,
    {
        if records[i].pid == pid {
            assert(records.deep_view()[i as int].pid == pid);
            return true;
        }
        i += 1;
    }
    false
}

proof fn lemma_records_of_consistent(samples: Seq<ProcessSampleView>, users: Seq<UserAccountView>)
    ensures
        distinct_pids(records_of(samples, users)),
        owners_resolved(records_of(samples, users), users),
    decreases samples.len(),
{
    if samples.len() > 0 {
        lemma_records_of_consistent(samples.drop_last(), users);
    }
}

proof fn lemma_reowned_consistent(records: Seq<ProcessRecordView>, users: Seq<UserAccountView>)
    requires
        distinct_pids(records),
    ensures
        distinct_pids(reowned(records, users)),
        owners_resolved(reowned(records, users), users),
{
}

/// Some entry of the enumeration with the process id `pid` could be read.
pub open spec fn was_read(samples: Seq<ProcessSampleView>, pid: u32) -> bool {
    exists|i: int| 0 <= i < samples.len() && samples[i].pid == pid && samples[i].detail is Some
}

/// The records of an enumeration hold exactly the processes that could be
/// read: a process that the enumeration does not hold, or holds unread only,
/// has no record.
pub proof fn lemma_records_of_pids(
    samples: Seq<ProcessSampleView>,
    users: Seq<UserAccountView>,
    pid: u32,
)
    ensures
        has_pid(records_of(samples, users), pid) == was_read(samples, pid),
    decreases samples.len(),
{
    if samples.len() > 0 {
        let front = samples.drop_last();
        let earlier = records_of(front, users);
        let records = records_of(samples, users);
        let sample = samples.last();
        lemma_records_of_pids(front, users, pid);
        lemma_records_of_pids(front, users, sample.pid);
        if was_read(samples, pid) {
            let i = choose|i: int|
                0 <= i < samples.len() && samples[i].pid == pid && samples[i].detail is Some;
            if i < front.len() {
                assert(front[i] == samples[i]);
                let j = choose|j: int| 0 <= j < earlier.len() && earlier[j].pid == pid;
                assert(records[j] == earlier[j]);
            } else if has_pid(earlier, pid) {
                let j = choose|j: int| 0 <= j < earlier.len() && earlier[j].pid == pid;
                assert(records[j] == earlier[j]);
            } else {
                assert(records[records.len() - 1].pid == pid);
            }
        }
        if has_pid(records, pid) {
            let j = choose|j: int| 0 <= j < records.len() && records[j].pid == pid;
            if j < earlier.len() {
                assert(earlier[j] == records[j]);
                let i = choose|i: int|
                    0 <= i < front.len() && front[i].pid == pid && front[i].detail is Some;
                assert(samples[i] == front[i]);
            } else {
                assert(samples[samples.len() - 1].pid == pid);
            }
        }
    }
}

/// A reading leaves a snapshot as sound as it found it: process ids stay
/// distinct and owners stay resolved against the accounts.
pub proof fn lemma_refreshed_consistent(snapshot: HostSnapshotView, reading: ReadingView)
    requires
        snapshot.consistent(),
    ensures
        snapshot.refreshed(reading).consistent(),
{
    match reading {
        ReadingView::Processes(samples) => {
            lemma_records_of_consistent(samples, snapshot.users);
        },
        ReadingView::Users(users) => {
            lemma_reowned_consistent(snapshot.processes, users);
        },
        _ => {},
    }
}

fn build_records(samples: &Vec<ProcessSample>, users: &Vec<UserAccount>) -> (records: Vec<
    ProcessRecord,
>)
    ensures
        records.deep_view() == records_of(samples.deep_view(), users.deep_view()),
{
    let mut records: Vec<ProcessRecord> = Vec::new();
    let ghost all = samples.deep_view();
    let mut i: usize = 0;
    assert(records.deep_view() =~= Seq::empty());
    assert(all.take(0) =~= Seq::empty());
    while i < samples.len()
        invariant
            i <= samples.len(),
            all == samples.deep_view(),
            records.deep_view() == records_of(all.take(i as int), users.deep_view()),
        decreases samples.len() - i,
    {
        proof {
            assert(all.take(i + 1).drop_last() =~= all.take(i as int));
            assert(all.take(i + 1).last() == samples[i as int]@);
        }
        let sample = &samples[i];
        match &sample.detail {
            Some(detail) => {
                if !holds_pid(&records, sample.pid) {
                    let record = ProcessRecord {
                        pid: sample.pid,
                        owner: owner_name(detail.owner_id, users),
                        detail: detail.duplicate(),
                    };
                    let ghost before = records.deep_view();
                    records.push(record);
                    assert(records.deep_view() =~= before.push(record@));
                }
            },
            None => {},
        }
        i += 1;
    }
    assert(all.take(samples.len() as int) =~= all);
    records
}

fn reown(records: &Vec<ProcessRecord>, users: &Vec<UserAccount>) -> (renewed: Vec<ProcessRecord>)
    ensures
        renewed.deep_view() == reowned(records.deep_view(), users.deep_view()),
{
    let mut renewed: Vec<ProcessRecord> = Vec::new();
    let mut i: usize = 0;
    while i < records.len()
        invariant
            i <= records.len(),
            renewed.len() == i,
            forall|j: int|
                0 <= j < i ==> renewed.deep_view()[j] == record_of(
                    records.deep_view()[j].pid,
                    records.deep_view()[j].detail,
                    users.deep_view(),
                ),
        decreases records.len() - i,
    {
        let record = ProcessRecord {
            pid: records[i].pid,
            owner: owner_name(records[i].detail.owner_id, users),
            detail: records[i].detail.duplicate(),
        };
        let ghost before = renewed.deep_view();
        renewed.push(record);
        assert(renewed.deep_view() =~= before.push(record@));
        i += 1;
    }
    assert(renewed.deep_view() =~= reowned(records.deep_view(), users.deep_view()));
    renewed
}

impl HostSnapshot {
    #[verifier::type_invariant]
    spec fn well_formed(&self) -> bool {
        self@.consistent()
    }

    /// The snapshot of a host of which nothing was read yet but its name and
    /// kernel version, either of which may be unavailable.
    pub fn new(os_name: Option<String>, kernel_version: Option<String>) -> (snapshot: HostSnapshot)
        ensures
            snapshot@ == HostSnapshotView::initial(os_name.deep_view(), kernel_version.deep_view()),
            snapshot@.consistent(),
    {
        let snapshot = HostSnapshot {
            census: Census { processes: Vec::new(), users: Vec::new() },
            per_cpu: Vec::new(),
            cpu_total: 0,
            cpu_brand: String::new(),
            uptime: 0,
            mem_used: 0,
            mem_total: 0,
            networks: Vec::new(),
            sensors: Vec::new(),
            os_name,
            kernel_version,
        };
        assert(snapshot.census.processes.deep_view() =~= Seq::empty());
        assert(snapshot.census.users.deep_view() =~= Seq::empty());
        assert(snapshot.networks.deep_view() =~= Seq::empty());
        assert(snapshot.sensors.deep_view() =~= Seq::empty());
        snapshot
    }

    /// Takes a reading into the snapshot: the part that was read is replaced,
    /// the others stay as they were.
    pub fn refresh(&mut self, reading: Reading)
        ensures
            final(self)@ == old(self)@.refreshed(reading@),
            final(self)@.consistent(),
    {
        proof {
            use_type_invariant(&*self);
        }
        match reading {
            Reading::Processes(samples) => {
                let records = build_records(&samples, &self.census.users);
                proof {
                    lemma_records_of_consistent(samples.deep_view(), self.census.users.deep_view());
                }
                self.census.processes = records;
            },
            Reading::Cpu(cpu) => {
                self.per_cpu = cpu.per_cpu;
                self.cpu_total = cpu.total;
                self.cpu_brand = cpu.brand;
                self.uptime = cpu.uptime;
            },
            Reading::Memory { used, total } => {
                self.mem_used = used;
                self.mem_total = total;
            },
            Reading::Network(interfaces) => {
                self.networks = interfaces;
            },
            Reading::Components(sensors) => {
                match sensors {
                    Some(sensors) => {
                        self.sensors = sensors;
                    },
                    None => {
                        self.sensors = Vec::new();
                        assert(self.sensors.deep_view() =~= Seq::empty());
                    },
                }
            },
            Reading::Users(users) => {
                let records = reown(&self.census.processes, &users);
                proof {
                    lemma_reowned_consistent(self.census.processes.deep_view(), users.deep_view());
                }
                self.census = Census { processes: records, users };
            },
        }
    }

    /// The processes, in the order of enumeration.
    pub fn processes(&self) -> (records: &Vec<ProcessRecord>)
        ensures
            records.deep_view() == self@.processes,
            self@.consistent(),
    {
        proof {
            use_type_invariant(self);
        }
        &self.census.processes
    }

    /// The known user accounts.
    pub fn users(&self) -> (users: &Vec<UserAccount>)
        ensures
            users.deep_view() == self@.users,
    {
        &self.census.users
    }

    /// Utilization of each logical processor, in thousandths of a percent.
    pub fn per_cpu(&self) -> (per_cpu: &Vec<u32>)
        ensures
            per_cpu@ == self@.per_cpu,
    {
        &self.per_cpu
    }

    /// Utilization over all processors, in thousandths of a percent.
    pub fn cpu_total(&self) -> (total: u32)
        ensures
            total == self@.cpu_total,
    {
        self.cpu_total
    }

    /// The brand of the processor.
    pub fn cpu_brand(&self) -> (brand: &String)
        ensures
            brand@ == self@.cpu_brand,
    {
        &self.cpu_brand
    }

    /// Seconds since boot.
    pub fn uptime(&self) -> (uptime: u64)
        ensures
            uptime == self@.uptime,
    {
        self.uptime
    }

    /// Memory in use, in bytes.
    pub fn mem_used(&self) -> (used: u64)
        ensures
            used == self@.mem_used,
    {
        self.mem_used
    }

    /// Memory in all, in bytes.
    pub fn mem_total(&self) -> (total: u64)
        ensures
            total == self@.mem_total,
    {
        self.mem_total
    }

    /// The network interfaces.
    pub fn networks(&self) -> (interfaces: &Vec<NetworkInterface>)
        ensures
            interfaces.deep_view() == self@.networks,
    {
        &self.networks
    }

    /// The thermal sensors, in the order of enumeration.
    pub fn sensors(&self) -> (sensors: &Vec<Sensor>)
        ensures
            sensors.deep_view() == self@.sensors,
    {
        &self.sensors
    }

    /// The name of the operating system, where it is known.
    pub fn os_name(&self) -> (name: &Option<String>)
        ensures
            name.deep_view() == self@.os_name,
    {
        &self.os_name
    }

    /// The version of the kernel, where it is known.
    pub fn kernel_version(&self) -> (version: &Option<String>)
        ensures
            version.deep_view() == self@.kernel_version,
    {
        &self.kernel_version
    }

    /// Tells whether the snapshot holds a process with the id `pid`.
    pub fn contains_process(&self, pid: u32) -> (b: bool)
        ensures
            b == has_pid(self@.processes, pid),
    {
        holds_pid(&self.census.processes, pid)
    }
}

} // verus!
