use syswatch::classifier::{
    count_privileged, cpu_label_rules, cpu_temperature, find_label, format_ram, gpu_model,
    gpu_probe_command, hardware_info, list_by_cpu, list_processes, read_gpu_probe, refresh_plan,
    security_audit, select_label, select_temperature, sum_received, system_stats, GpuReading,
    MacMode, Request, SecurityProbes, PROCESS_LIMIT,
};
use syswatch::snapshot::{
    CpuReading, HostSnapshot, NetworkInterface, ProcessDetail, ProcessRecord, ProcessSample,
    Reading, RefreshScope, Sensor, UserAccount,
};

fn sample(pid: u32, owner_id: Option<u32>, cpu_milli: u32) -> ProcessSample {
    ProcessSample {
        pid,
        detail: Some(ProcessDetail {
            name: format!("p{}", pid),
            owner_id,
            exe: String::new(),
            cmd: String::new(),
            status: "Sleep".to_string(),
            cpu_milli,
            memory: pid as u64 * 10,
            disk_read: 0,
        }),
    }
}

fn record(pid: u32, cpu_milli: u32) -> ProcessRecord {
    ProcessRecord {
        pid,
        owner: "system".to_string(),
        detail: sample(pid, None, cpu_milli).detail.unwrap(),
    }
}

fn sensor(label: &str, celsius: f32) -> Sensor {
    Sensor { label: label.to_string(), temperature_milli: (celsius * 1000.0).round() as i32 }
}

fn interface(name: &str, received: u64) -> NetworkInterface {
    NetworkInterface { name: name.to_string(), received, transmitted: 1 }
}

fn strings(items: &[&str]) -> Vec<String> {
    items.iter().map(|s| s.to_string()).collect()
}

#[test]
fn listing_is_cut_at_sixty_and_never_rises() {
    let mut snapshot = HostSnapshot::new(None, None);
    let samples: Vec<ProcessSample> =
        (0..150u32).map(|i| sample(i + 1, None, (i * 7919) % 1000)).collect();
    snapshot.refresh(Reading::Processes(samples.clone()));
    let listed = list_processes(&snapshot);
    assert_eq!(PROCESS_LIMIT, 60);
    assert_eq!(listed.len(), 60);
    for pair in listed.windows(2) {
        assert!(pair[0].detail.cpu_milli >= pair[1].detail.cpu_milli);
    }
    let mut expected: Vec<ProcessRecord> = snapshot.processes().clone();
    expected.sort_by(|a, b| b.detail.cpu_milli.cmp(&a.detail.cpu_milli));
    expected.truncate(60);
    assert_eq!(listed, expected);
}

#[test]
fn listing_of_few_processes_holds_them_all() {
    let mut snapshot = HostSnapshot::new(None, None);
    snapshot.refresh(Reading::Processes(vec![
        sample(1, None, 5_000),
        sample(2, None, 90_000),
        sample(3, None, 40_000),
    ]));
    let pids: Vec<u32> = list_processes(&snapshot).iter().map(|r| r.pid).collect();
    assert_eq!(pids, vec![2, 3, 1]);
    assert!(list_processes(&HostSnapshot::new(None, None)).is_empty());
}

#[test]
fn equal_utilization_keeps_enumeration_order() {
    let records = vec![
        record(9, 10),
        record(3, 50),
        record(7, 10),
        record(1, 50),
        record(5, 10),
        record(2, 70),
    ];
    let pids: Vec<u32> = list_by_cpu(&records, 60).iter().map(|r| r.pid).collect();
    assert_eq!(pids, vec![2, 3, 1, 9, 7, 5]);
    let pids: Vec<u32> = list_by_cpu(&records, 4).iter().map(|r| r.pid).collect();
    assert_eq!(pids, vec![2, 3, 1, 9]);
    let pids: Vec<u32> = list_by_cpu(&records, 1).iter().map(|r| r.pid).collect();
    assert_eq!(pids, vec![2]);
    assert!(list_by_cpu(&records, 0).is_empty());
}

#[test]
fn listing_agrees_with_a_stable_sort() {
    let mut seed: u32 = 12345;
    for round in 0..40usize {
        let n = (round * 5) % 97;
        let mut records = Vec::new();
        for i in 0..n {
            seed = seed.wrapping_mul(1_103_515_245).wrapping_add(12345);
            records.push(record(i as u32, (seed >> 16) % 8));
        }
        for limit in [0usize, 1, 3, 60, 200] {
            let mut expected = records.clone();
            expected.sort_by(|a, b| b.detail.cpu_milli.cmp(&a.detail.cpu_milli));
            expected.truncate(limit);
            assert_eq!(list_by_cpu(&records, limit), expected);
        }
    }
}

#[test]
fn listed_records_carry_resolved_owners() {
    let mut snapshot = HostSnapshot::new(None, None);
    snapshot.refresh(Reading::Users(vec![UserAccount { uid: 0, name: "root".to_string() }]));
    snapshot.refresh(Reading::Processes(vec![
        sample(1, Some(0), 1),
        sample(2, None, 3),
        sample(3, Some(8), 2),
    ]));
    let listed = list_processes(&snapshot);
    let owners: Vec<(u32, &str, bool)> =
        listed.iter().map(|r| (r.pid, r.owner.as_str(), r.is_privileged())).collect();
    assert_eq!(owners, vec![(2, "system", false), (3, "unknown", false), (1, "root", true)]);
}

#[test]
fn package_label_wins_over_core() {
    let sensors = vec![sensor("GPU Core", 40.0), sensor("Package id 0", 65.5)];
    assert_eq!(cpu_temperature(&sensors), Some(65_500));
    assert_eq!(cpu_temperature(&sensors).map(|t| t as f32 / 1000.0), Some(65.5));
}

#[test]
fn temperature_unavailable_without_matching_label() {
    let sensors = vec![sensor("nvme Composite", 38.0), sensor("acpitz", 27.8), sensor("", 0.0)];
    assert_eq!(cpu_temperature(&sensors), None);
    assert_eq!(cpu_temperature(&Vec::new()), None);
}

#[test]
fn temperature_of_zero_is_a_reading() {
    assert_eq!(cpu_temperature(&vec![sensor("cpu", 0.0)]), Some(0));
    assert_eq!(cpu_temperature(&vec![sensor("cpu", -3.5)]), Some(-3_500));
}

#[test]
fn labels_match_without_regard_to_case() {
    assert_eq!(cpu_temperature(&vec![sensor("CPU Temp", 51.0)]), Some(51_000));
    assert_eq!(cpu_temperature(&vec![sensor("K10Temp Tctl", 44.0)]), Some(44_000));
    assert_eq!(cpu_temperature(&vec![sensor("CoreTemp", 45.0)]), Some(45_000));
    let rules = strings(&["tdie"]);
    assert_eq!(select_temperature(&vec![sensor("TDIE", 61.0)], &rules), Some(61_000));
    assert_eq!(select_temperature(&vec![sensor("TDIE", 61.0)], &strings(&["TDIE"])), None);
}

#[test]
fn rules_are_tried_in_order_and_sensors_in_enumeration_order() {
    let sensors = vec![
        sensor("Core 0", 50.0),
        sensor("cpu fan", 51.0),
        sensor("coretemp a", 52.0),
        sensor("coretemp b", 53.0),
    ];
    assert_eq!(cpu_temperature(&sensors), Some(52_000));
    assert_eq!(cpu_temperature(&sensors[..2].to_vec()), Some(51_000));
    assert_eq!(cpu_temperature(&sensors[..1].to_vec()), Some(50_000));
    assert_eq!(select_temperature(&sensors, &strings(&["fan", "core"])), Some(51_000));
    assert_eq!(select_temperature(&sensors, &strings(&["core", "fan"])), Some(50_000));
    assert_eq!(select_temperature(&sensors, &Vec::new()), None);
}

#[test]
fn default_rules_are_the_known_label_parts() {
    assert_eq!(cpu_label_rules(), strings(&["package", "coretemp", "k10temp", "cpu", "core"]));
}

#[test]
fn label_selection_on_plain_labels() {
    let labels = strings(&["gpu core", "package id 0", "package id 1"]);
    assert_eq!(find_label(&labels, "package"), Some(1));
    assert_eq!(find_label(&labels, "core"), Some(0));
    assert_eq!(find_label(&labels, "fan"), None);
    assert_eq!(find_label(&labels, ""), Some(0));
    assert_eq!(find_label(&Vec::new(), ""), None);
    assert_eq!(select_label(&labels, &cpu_label_rules()), Some(1));
    assert_eq!(select_label(&labels, &strings(&["fan", "id 1", "gpu"])), Some(2));
    assert_eq!(select_label(&labels, &strings(&["fan"])), None);
}

#[test]
fn received_bytes_are_summed_exactly() {
    assert_eq!(sum_received(&Vec::new()), 0);
    assert_eq!(sum_received(&vec![interface("lo", 5), interface("eth0", 1_000)]), 1_005);
    let big = vec![interface("a", u64::MAX), interface("b", u64::MAX), interface("c", 3)];
    assert_eq!(sum_received(&big), 2 * (u64::MAX as u128) + 3);
}

#[test]
fn stats_are_read_off_the_snapshot() {
    let mut snapshot = HostSnapshot::new(None, None);
    snapshot.refresh(Reading::Processes(vec![sample(1, None, 1), sample(2, None, 2)]));
    snapshot.refresh(Reading::Cpu(CpuReading {
        per_cpu: vec![1_000, 3_000],
        total: 2_000,
        brand: "x".to_string(),
        uptime: 3_600,
    }));
    snapshot.refresh(Reading::Memory { used: 100, total: 400 });
    snapshot.refresh(Reading::Network(vec![interface("lo", 10), interface("wlan0", 32)]));
    snapshot.refresh(Reading::Components(Some(vec![
        sensor("GPU Core", 40.0),
        sensor("Package id 0", 65.5),
    ])));
    let stats = system_stats(&snapshot, None);
    assert_eq!(stats.cpu_util_milli, 2_000);
    assert_eq!(stats.mem_used, 100);
    assert_eq!(stats.mem_total, 400);
    assert_eq!(stats.net_in, 42);
    assert_eq!(stats.cpu_temp_milli, Some(65_500));
    assert_eq!(stats.gpu_temp_milli, None);
    assert_eq!(stats.gpu_util_milli, None);
    assert_eq!(stats.uptime, 3_600);
    assert_eq!(stats.proc_count, 2);

    let gpu = GpuReading { temperature_milli: 0, utilization_milli: 0 };
    let stats = system_stats(&snapshot, Some(gpu));
    assert_eq!(stats.gpu_temp_milli, Some(0));
    assert_eq!(stats.gpu_util_milli, Some(0));
}

#[test]
fn stats_of_an_empty_snapshot_have_no_temperature() {
    let stats = system_stats(&HostSnapshot::new(None, None), None);
    assert_eq!(stats.cpu_temp_milli, None);
    assert_eq!(stats.net_in, 0);
    assert_eq!(stats.proc_count, 0);
}

#[test]
fn gpu_probe_is_read_from_its_first_line() {
    assert_eq!(
        read_gpu_probe(Some("45, 12\n")),
        Some(GpuReading { temperature_milli: 45_000, utilization_milli: 12_000 })
    );
    assert_eq!(
        read_gpu_probe(Some("0, 100\r\n61, 3\n")),
        Some(GpuReading { temperature_milli: 0, utilization_milli: 100_000 })
    );
    assert_eq!(
        read_gpu_probe(Some("2147483, 4294967")),
        Some(GpuReading { temperature_milli: 2_147_483_000, utilization_milli: 4_294_967_000 })
    );
}

#[test]
fn gpu_probe_that_cannot_be_read_gives_nothing() {
    for output in [
        "",
        "\n45, 12\n",
        "45,12",
        "45, ",
        ", 12",
        "45, 12, 7",
        "45, 12 ",
        " 45, 12",
        "-1, 12",
        "N/A, 12",
        "45, [N/A]",
        "2147484, 1",
        "1, 4294968",
        "99999999999999999999999, 1",
        "NVIDIA-SMI has failed",
    ] {
        assert_eq!(read_gpu_probe(Some(output)), None, "{:?}", output);
    }
    assert_eq!(read_gpu_probe(None), None);
}

#[test]
fn gpu_probe_command_asks_for_both_values() {
    let run = gpu_probe_command();
    assert_eq!(run.program, "nvidia-smi");
    assert_eq!(
        run.args,
        strings(&["--query-gpu=temperature.gpu,utilization.gpu", "--format=csv,noheader,nounits"])
    );
}

#[test]
fn audit_counts_privileged_processes() {
    let mut snapshot = HostSnapshot::new(Some("Arch Linux".to_string()), Some("6.9.1".to_string()));
    snapshot.refresh(Reading::Users(vec![
        UserAccount { uid: 0, name: "root".to_string() },
        UserAccount { uid: 1000, name: "ada".to_string() },
    ]));
    snapshot.refresh(Reading::Processes(vec![
        sample(1, Some(0), 0),
        sample(2, Some(1000), 0),
        sample(3, Some(0), 0),
        sample(4, None, 0),
        sample(1000, Some(1000), 0),
    ]));
    let probes = SecurityProbes { listening_ports: None, mac_mode: None, secure_boot: None };
    let audit = security_audit(&snapshot, probes);
    assert_eq!(audit.kernel_version, "6.9.1");
    assert_eq!(audit.os_name, "Arch Linux");
    assert_eq!(audit.root_procs, 2);
    assert_eq!(audit.listening_ports, None);
    assert_eq!(audit.mac_mode, None);
    assert_eq!(audit.secure_boot, None);
    assert_eq!(count_privileged(snapshot.processes()), 2);
    assert_eq!(count_privileged(&Vec::new()), 0);
}

#[test]
fn audit_marks_what_is_unknown() {
    let snapshot = HostSnapshot::new(None, None);
    let probes = SecurityProbes {
        listening_ports: Some(0),
        mac_mode: Some(MacMode::Permissive),
        secure_boot: Some(false),
    };
    let audit = security_audit(&snapshot, probes);
    assert_eq!(audit.kernel_version, "unknown");
    assert_eq!(audit.os_name, "unknown");
    assert_eq!(audit.root_procs, 0);
    assert_eq!(audit.listening_ports, Some(0));
    assert_eq!(audit.mac_mode, Some(MacMode::Permissive));
    assert_eq!(audit.secure_boot, Some(false));
}

#[test]
fn gpu_model_is_taken_from_the_first_graphics_line() {
    let listing = "00:00.0 Host bridge: Intel Corporation Device 1234\n\
                   00:02.0 VGA compatible controller: Intel Corporation UHD Graphics 620 (rev 07)\n\
                   01:00.0 3D controller: NVIDIA Corporation GP108M [GeForce MX150]\n";
    assert_eq!(gpu_model(Some(listing)), "Intel Corporation UHD Graphics 620 (rev 07)");
    let listing = "00:00.0 Host bridge: x\r\n01:00.0 3D controller: NVIDIA Corporation: GP108M\r\n";
    assert_eq!(gpu_model(Some(listing)), "GP108M");
    assert_eq!(gpu_model(Some("a VGA thing without separator")), "a VGA thing without separator");
    assert_eq!(gpu_model(Some("VGA: ")), "");
}

#[test]
fn gpu_model_without_a_graphics_line_or_listing() {
    assert_eq!(gpu_model(Some("00:00.0 Host bridge: Intel\n00:1f.3 Audio device: Intel\n")), "Integrated/Unknown");
    assert_eq!(gpu_model(Some("vga: lower case does not count")), "Integrated/Unknown");
    assert_eq!(gpu_model(Some("")), "Integrated/Unknown");
    assert_eq!(gpu_model(None), "Unknown");
}

#[test]
fn ram_is_shown_in_gibibytes_with_one_decimal() {
    assert_eq!(format_ram(0), "0.0 GB");
    assert_eq!(format_ram(1 << 30), "1.0 GB");
    assert_eq!(format_ram(16 * (1 << 30)), "16.0 GB");
    assert_eq!(format_ram(8_241_508_352), "7.7 GB");
    assert_eq!(format_ram(1 << 28), "0.2 GB");
    assert_eq!(format_ram(3 << 28), "0.8 GB");
    assert_eq!(format_ram((1 << 28) + 1), "0.3 GB");
    assert_eq!(format_ram(u64::MAX), "17179869184.0 GB");
}

#[test]
fn ram_text_agrees_with_float_formatting() {
    let mut seed: u64 = 0x9E37_79B9_7F4A_7C15;
    let mut cases: Vec<u64> = vec![0, 1, 1 << 27, 1 << 28, 3 << 28, 5 << 28, 7 << 28, 1 << 29];
    for _ in 0..2000 {
        seed ^= seed << 13;
        seed ^= seed >> 7;
        seed ^= seed << 17;
        cases.push(seed >> 11);
        cases.push(seed >> 30);
        cases.push((seed >> 40) << 28);
    }
    for bytes in cases {
        let expected = format!("{:.1} GB", bytes as f64 / 1024.0 / 1024.0 / 1024.0);
        assert_eq!(format_ram(bytes), expected, "{}", bytes);
    }
}

#[test]
fn hardware_is_described_from_the_snapshot() {
    let mut snapshot = HostSnapshot::new(Some("Arch Linux".to_string()), None);
    snapshot.refresh(Reading::Cpu(CpuReading {
        per_cpu: vec![0, 0, 0, 0],
        total: 0,
        brand: "AMD Ryzen 7".to_string(),
        uptime: 1,
    }));
    snapshot.refresh(Reading::Memory { used: 0, total: 34_359_738_368 });
    let info = hardware_info(&snapshot, Some("01:00.0 VGA compatible controller: AMD Navi 23\n"));
    assert_eq!(info.cpu_model, "AMD Ryzen 7");
    assert_eq!(info.cpu_cores, 4);
    assert_eq!(info.ram_total, "32.0 GB");
    assert_eq!(info.gpu_model, "AMD Navi 23");
    assert_eq!(info.os_distro, "Arch Linux");

    let info = hardware_info(&HostSnapshot::new(None, None), None);
    assert_eq!(info.cpu_model, "");
    assert_eq!(info.cpu_cores, 0);
    assert_eq!(info.ram_total, "0.0 GB");
    assert_eq!(info.gpu_model, "Unknown");
    assert_eq!(info.os_distro, "unknown");
}

#[test]
fn each_request_names_what_to_read_anew() {
    assert_eq!(
        refresh_plan(Request::ListProcesses),
        vec![RefreshScope::Users, RefreshScope::Processes, RefreshScope::Cpu]
    );
    assert_eq!(
        refresh_plan(Request::SystemStats),
        vec![
            RefreshScope::Cpu,
            RefreshScope::Memory,
            RefreshScope::Network,
            RefreshScope::Components
        ]
    );
    assert!(refresh_plan(Request::SecurityAudit).is_empty());
    assert!(refresh_plan(Request::HardwareInfo).is_empty());
}

#[test]
fn graphics_marker_in_a_description_does_not_count() {
    let listing = "00:1f.3 Audio device: Acme 3D Sound\n\
                   01:00.0 VGA compatible controller: NVIDIA GA104\n";
    assert_eq!(gpu_model(Some(listing)), "NVIDIA GA104");
    assert_eq!(gpu_model(Some("00:1f.3 Audio device: Acme 3D Sound\n")), "Integrated/Unknown");
    assert_eq!(gpu_model(Some("00:1f.3 Audio device: Acme 3D Sound")), "Integrated/Unknown");
    assert_eq!(gpu_model(Some("00:1f.3 Audio device: Intel Audio\n")), "Integrated/Unknown");
    assert_eq!(
        gpu_model(Some("00:14.0 USB controller: VGA: adapter dock\n")),
        "Integrated/Unknown"
    );
}

#[test]
fn graphics_line_is_told_by_its_class_part() {
    assert_eq!(gpu_model(Some("01:00.0 3D controller: Acme 3D Sound")), "Acme 3D Sound");
    assert_eq!(gpu_model(Some("01:00.0 VGA compatible controller: a: b: c")), "c");
    assert_eq!(gpu_model(Some("3D")), "3D");
    assert_eq!(gpu_model(Some(": VGA")), "Integrated/Unknown");
    let info = hardware_info(
        &HostSnapshot::new(None, None),
        Some("00:1f.3 Audio device: Acme 3D Sound\n01:00.0 VGA compatible controller: NVIDIA GA104\n"),
    );
    assert_eq!(info.gpu_model, "NVIDIA GA104");
}

#[test]
fn stats_count_processes_and_sum_traffic_without_loss() {
    let mut snapshot = HostSnapshot::new(None, None);
    snapshot.refresh(Reading::Processes((1..=75u32).map(|pid| sample(pid, None, pid)).collect()));
    snapshot.refresh(Reading::Network(vec![
        interface("a", u64::MAX),
        interface("b", u64::MAX),
        interface("c", u64::MAX),
    ]));
    let stats = system_stats(&snapshot, None);
    assert_eq!(stats.proc_count, 75);
    assert_eq!(stats.net_in, 3 * (u64::MAX as u128));
}
