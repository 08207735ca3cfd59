use syswatch::snapshot::{
    owner_name, CpuReading, HostSnapshot, NetworkInterface, ProcessDetail, ProcessRecord,
    ProcessSample, Reading, RefreshScope, Sensor, UserAccount,
};

fn detail(name: &str, owner_id: Option<u32>, cpu_milli: u32) -> ProcessDetail {
    ProcessDetail {
        name: name.to_string(),
        owner_id,
        exe: format!("/usr/bin/{}", name),
        cmd: format!("{} --serve", name),
        status: "Run".to_string(),
        cpu_milli,
        memory: 4096,
        disk_read: 512,
    }
}

fn sample(pid: u32, name: &str, owner_id: Option<u32>, cpu_milli: u32) -> ProcessSample {
    ProcessSample { pid, detail: Some(detail(name, owner_id, cpu_milli)) }
}

fn accounts() -> Vec<UserAccount> {
    vec![
        UserAccount { uid: 0, name: "root".to_string() },
        UserAccount { uid: 1000, name: "ada".to_string() },
        UserAccount { uid: 1000, name: "shadowed".to_string() },
    ]
}

#[test]
fn new_snapshot_is_empty_but_for_identity() {
    let snapshot = HostSnapshot::new(Some("Arch Linux".to_string()), None);
    assert!(snapshot.processes().is_empty());
    assert!(snapshot.users().is_empty());
    assert!(snapshot.per_cpu().is_empty());
    assert!(snapshot.networks().is_empty());
    assert!(snapshot.sensors().is_empty());
    assert_eq!(snapshot.cpu_total(), 0);
    assert_eq!(snapshot.cpu_brand(), "");
    assert_eq!(snapshot.uptime(), 0);
    assert_eq!(snapshot.mem_used(), 0);
    assert_eq!(snapshot.mem_total(), 0);
    assert_eq!(snapshot.os_name(), &Some("Arch Linux".to_string()));
    assert_eq!(snapshot.kernel_version(), &None);
}

#[test]
fn owner_is_resolved_against_accounts() {
    let users = accounts();
    assert_eq!(owner_name(Some(0), &users), "root");
    assert_eq!(owner_name(Some(1000), &users), "ada");
    assert_eq!(owner_name(Some(77), &users), "unknown");
    assert_eq!(owner_name(None, &users), "system");
    assert_eq!(owner_name(Some(0), &Vec::new()), "unknown");
}

#[test]
fn privileged_iff_owner_is_root() {
    let mut snapshot = HostSnapshot::new(None, None);
    snapshot.refresh(Reading::Users(accounts()));
    snapshot.refresh(Reading::Processes(vec![
        sample(1, "init", Some(0), 0),
        sample(2, "shell", Some(1000), 0),
        sample(3, "ghost", Some(4242), 0),
        sample(4, "kthread", None, 0),
    ]));
    let records = snapshot.processes();
    assert_eq!(records.len(), 4);
    assert_eq!(records[0].owner, "root");
    assert!(records[0].is_privileged());
    assert_eq!(records[1].owner, "ada");
    assert!(!records[1].is_privileged());
    assert_eq!(records[2].owner, "unknown");
    assert!(!records[2].is_privileged());
    assert_eq!(records[3].owner, "system");
    assert!(!records[3].is_privileged());
}

#[test]
fn privileged_is_exact_about_the_name() {
    let base = ProcessRecord { pid: 1, owner: "root".to_string(), detail: detail("a", Some(0), 0) };
    assert!(base.is_privileged());
    for owner in ["Root", "root ", "roo", "", "toor", "rootx"] {
        let record = ProcessRecord { owner: owner.to_string(), ..base.clone() };
        assert!(!record.is_privileged(), "{:?}", owner);
    }
}

#[test]
fn unreadable_processes_are_skipped() {
    let mut snapshot = HostSnapshot::new(None, None);
    snapshot.refresh(Reading::Processes(vec![
        sample(10, "a", None, 1),
        ProcessSample { pid: 11, detail: None },
        sample(12, "c", None, 3),
    ]));
    let pids: Vec<u32> = snapshot.processes().iter().map(|r| r.pid).collect();
    assert_eq!(pids, vec![10, 12]);
    assert!(snapshot.contains_process(10));
    assert!(!snapshot.contains_process(11));
    assert!(snapshot.contains_process(12));
}

#[test]
fn first_readable_entry_of_a_pid_counts() {
    let mut snapshot = HostSnapshot::new(None, None);
    snapshot.refresh(Reading::Processes(vec![
        ProcessSample { pid: 5, detail: None },
        sample(5, "first", None, 1),
        sample(6, "other", None, 2),
        sample(5, "second", None, 3),
    ]));
    let records = snapshot.processes();
    assert_eq!(records.len(), 2);
    assert_eq!(records[0].pid, 5);
    assert_eq!(records[0].detail.name, "first");
    assert_eq!(records[1].pid, 6);
}

#[test]
fn process_refresh_rebuilds_the_records() {
    let mut snapshot = HostSnapshot::new(None, None);
    snapshot.refresh(Reading::Processes(vec![sample(1, "a", None, 1), sample(2, "b", None, 2)]));
    snapshot.refresh(Reading::Processes(vec![sample(2, "b2", None, 9), sample(3, "c", None, 4)]));
    let records = snapshot.processes();
    assert_eq!(records.len(), 2);
    assert_eq!(records[0].pid, 2);
    assert_eq!(records[0].detail.name, "b2");
    assert_eq!(records[0].detail.cpu_milli, 9);
    assert_eq!(records[1].pid, 3);
    assert!(!snapshot.contains_process(1));
}

#[test]
fn detail_is_kept_as_read() {
    let mut snapshot = HostSnapshot::new(None, None);
    let d = detail("worker", Some(1000), 12_345);
    snapshot.refresh(Reading::Processes(vec![ProcessSample { pid: 42, detail: Some(d.clone()) }]));
    assert_eq!(
        snapshot.processes()[0],
        ProcessRecord { pid: 42, owner: "unknown".to_string(), detail: d }
    );
}

#[test]
fn new_accounts_resolve_owners_anew() {
    let mut snapshot = HostSnapshot::new(None, None);
    snapshot.refresh(Reading::Processes(vec![
        sample(1, "a", Some(0), 1),
        sample(2, "b", None, 1),
    ]));
    assert_eq!(snapshot.processes()[0].owner, "unknown");
    assert_eq!(snapshot.processes()[1].owner, "system");
    snapshot.refresh(Reading::Users(accounts()));
    assert_eq!(snapshot.processes()[0].owner, "root");
    assert_eq!(snapshot.processes()[1].owner, "system");
    assert_eq!(snapshot.users(), &accounts());
    snapshot.refresh(Reading::Users(Vec::new()));
    assert_eq!(snapshot.processes()[0].owner, "unknown");
    assert_eq!(snapshot.processes()[0].detail.name, "a");
}

#[test]
fn each_reading_replaces_its_part_only() {
    let mut snapshot = HostSnapshot::new(Some("os".to_string()), Some("6.1".to_string()));
    snapshot.refresh(Reading::Users(accounts()));
    snapshot.refresh(Reading::Processes(vec![sample(1, "a", Some(0), 1)]));
    snapshot.refresh(Reading::Cpu(CpuReading {
        per_cpu: vec![10_000, 30_000],
        total: 20_000,
        brand: "Fast CPU".to_string(),
        uptime: 99,
    }));
    snapshot.refresh(Reading::Memory { used: 1, total: 2 });
    snapshot.refresh(Reading::Network(vec![NetworkInterface {
        name: "eth0".to_string(),
        received: 7,
        transmitted: 8,
    }]));
    snapshot.refresh(Reading::Components(Some(vec![Sensor {
        label: "cpu".to_string(),
        temperature_milli: 50_000,
    }])));

    assert_eq!(snapshot.processes().len(), 1);
    assert_eq!(snapshot.processes()[0].owner, "root");
    assert_eq!(snapshot.per_cpu(), &vec![10_000, 30_000]);
    assert_eq!(snapshot.cpu_total(), 20_000);
    assert_eq!(snapshot.cpu_brand(), "Fast CPU");
    assert_eq!(snapshot.uptime(), 99);
    assert_eq!(snapshot.mem_used(), 1);
    assert_eq!(snapshot.mem_total(), 2);
    assert_eq!(snapshot.networks().len(), 1);
    assert_eq!(snapshot.networks()[0].received, 7);
    assert_eq!(snapshot.sensors().len(), 1);
    assert_eq!(snapshot.os_name(), &Some("os".to_string()));
    assert_eq!(snapshot.kernel_version(), &Some("6.1".to_string()));

    snapshot.refresh(Reading::Memory { used: 5, total: 6 });
    assert_eq!(snapshot.mem_used(), 5);
    assert_eq!(snapshot.mem_total(), 6);
    assert_eq!(snapshot.cpu_total(), 20_000);
    assert_eq!(snapshot.processes().len(), 1);
    assert_eq!(snapshot.sensors().len(), 1);
}

#[test]
fn unreadable_sensors_leave_an_empty_set() {
    let mut snapshot = HostSnapshot::new(None, None);
    snapshot.refresh(Reading::Components(Some(vec![Sensor {
        label: "cpu".to_string(),
        temperature_milli: 1,
    }])));
    assert_eq!(snapshot.sensors().len(), 1);
    snapshot.refresh(Reading::Components(None));
    assert!(snapshot.sensors().is_empty());
}

#[test]
fn reading_names_its_scope() {
    assert_eq!(Reading::Processes(Vec::new()).scope(), RefreshScope::Processes);
    assert_eq!(
        Reading::Cpu(CpuReading { per_cpu: Vec::new(), total: 0, brand: String::new(), uptime: 0 })
            .scope(),
        RefreshScope::Cpu
    );
    assert_eq!(Reading::Memory { used: 0, total: 0 }.scope(), RefreshScope::Memory);
    assert_eq!(Reading::Network(Vec::new()).scope(), RefreshScope::Network);
    assert_eq!(Reading::Components(None).scope(), RefreshScope::Components);
    assert_eq!(Reading::Users(Vec::new()).scope(), RefreshScope::Users);
}

#[test]
fn scope_all_stands_for_every_part() {
    assert_eq!(
        RefreshScope::All.parts(),
        vec![
            RefreshScope::Users,
            RefreshScope::Processes,
            RefreshScope::Cpu,
            RefreshScope::Memory,
            RefreshScope::Network,
            RefreshScope::Components,
        ]
    );
    assert_eq!(RefreshScope::Memory.parts(), vec![RefreshScope::Memory]);
    assert_eq!(RefreshScope::Users.parts(), vec![RefreshScope::Users]);
}
