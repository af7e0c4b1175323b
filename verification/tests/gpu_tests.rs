use tfl::collector::gpu::{
    amd_model_name, card_index, detect_amd_model_name, first_hwmon_entry, hwmon_files,
    is_amdgpu_driver, nvidia_vram_bytes, parse_amd_dpm_mclk, parse_i32_value,
    parse_nvidia_csv_line, parse_u32_value, parse_u64_value, pci_id_from_link, temp_label_kind,
    PowerSource, TempLabelKind, MIB,
};
use tfl::collector::gpu_process::{
    combine_fdinfo, gpu_process_entry, parse_drm_memory_kib, parse_fdinfo, parse_pid,
    process_usage, sort_by_vram_desc, FdinfoUsage, GpuProcessEntry, ProcessUsage,
};

#[test]
fn drm_memory_figures_in_kib() {
    assert_eq!(parse_drm_memory_kib("1024 KiB"), 1024);
    assert_eq!(parse_drm_memory_kib("2048 B"), 2);
    assert_eq!(parse_drm_memory_kib("1023 B"), 0);
    assert_eq!(parse_drm_memory_kib("3 MiB"), 3072);
    assert_eq!(parse_drm_memory_kib("2 GiB"), 2 * 1024 * 1024);
    assert_eq!(parse_drm_memory_kib("7"), 7);
    assert_eq!(parse_drm_memory_kib("5 TiB"), 5);
    assert_eq!(parse_drm_memory_kib("abc MiB"), 0);
    assert_eq!(parse_drm_memory_kib(""), 0);
    assert_eq!(parse_drm_memory_kib("18446744073709551615 GiB"), u64::MAX);
}

#[test]
fn pid_entries_of_proc() {
    assert_eq!(parse_pid("1234"), Some(1234));
    assert_eq!(parse_pid("self"), None);
    assert_eq!(parse_pid(""), None);
}

fn fdinfo(client: &str, vram: &str, gtt: &str) -> String {
    format!(
        "pos:\t0\nflags:\t02100002\ndrm-driver:\tamdgpu\ndrm-client-id:\t{client}\ndrm-memory-vram:\t{vram}\ndrm-memory-gtt:\t{gtt}\n"
    )
}

#[test]
fn fdinfo_file_is_read() {
    let f = parse_fdinfo(&fdinfo("42", "1024 KiB", "2 MiB"));
    assert_eq!(f.client_id, Some("42".to_string()));
    assert_eq!(f.vram_kib, 1024);
    assert_eq!(f.gtt_kib, 2048);
    assert!(f.is_drm);

    let plain = parse_fdinfo("pos:\t0\nflags:\t0100000\n");
    assert!(!plain.is_drm);
    assert_eq!(plain.client_id, None);

    let crlf = parse_fdinfo("drm-memory-vram:  8 MiB\r\n");
    assert_eq!(crlf.vram_kib, 8192);
}

#[test]
fn shared_client_is_counted_once() {
    let fds = vec![
        parse_fdinfo(&fdinfo("42", "1024 KiB", "0 KiB")),
        parse_fdinfo(&fdinfo("42", "1024 KiB", "0 KiB")),
        FdinfoUsage { client_id: None, vram_kib: 10, gtt_kib: 5, is_drm: true },
        FdinfoUsage { client_id: None, vram_kib: 99, gtt_kib: 99, is_drm: false },
    ];
    let u = combine_fdinfo(&fds);
    assert!(u.has_drm);
    assert_eq!(u.vram_kib, 1034);
    assert_eq!(u.gtt_kib, 5);
    assert!(u.is_gpu_client());
}

#[test]
fn process_without_memory_is_no_client() {
    let u = process_usage(&vec![fdinfo("1", "0 KiB", "0 KiB")]);
    assert!(u.has_drm);
    assert!(!u.is_gpu_client());
    let none = process_usage(&vec!["pos:\t0\n".to_string()]);
    assert!(!none.has_drm);
}

#[test]
fn process_entry_names_and_sizes() {
    let usage = ProcessUsage { has_drm: true, vram_kib: 1024, gtt_kib: 3 };
    let e = gpu_process_entry(7, usage, Some(" llama-server\n".to_string()));
    assert_eq!(e.pid, 7);
    assert_eq!(e.name, "llama-server");
    assert_eq!(e.vram_bytes, 1024 * 1024);
    assert_eq!(e.gtt_bytes, 3 * 1024);
    let unnamed = gpu_process_entry(4321, usage, None);
    assert_eq!(unnamed.name, "PID 4321");
    let huge = gpu_process_entry(1, ProcessUsage { has_drm: true, vram_kib: u64::MAX, gtt_kib: 0 }, None);
    assert_eq!(huge.vram_bytes, u64::MAX);
}

fn entry(pid: u32, vram: u64) -> GpuProcessEntry {
    GpuProcessEntry { pid, name: format!("p{pid}"), vram_bytes: vram, gtt_bytes: 0 }
}

#[test]
fn process_list_is_ordered_by_vram_and_stable() {
    let sorted = sort_by_vram_desc(vec![entry(1, 10), entry(2, 30), entry(3, 10), entry(4, 30), entry(5, 20)]);
    let pids: Vec<u32> = sorted.iter().map(|e| e.pid).collect();
    assert_eq!(pids, vec![2, 4, 5, 1, 3]);
    assert!(sort_by_vram_desc(vec![]).is_empty());
}

#[test]
fn drm_entries_that_are_cards() {
    assert_eq!(card_index("card0"), Some(0));
    assert_eq!(card_index("card12"), Some(12));
    assert_eq!(card_index("card1-DP-1"), None);
    assert_eq!(card_index("renderD128"), None);
    assert_eq!(card_index("cardX"), Some(0));
    assert_eq!(card_index("cardcard3"), Some(3));
    assert!(is_amdgpu_driver("../../../../bus/pci/drivers/amdgpu"));
    assert!(!is_amdgpu_driver("../../../../bus/pci/drivers/nvidia"));
}

#[test]
fn hwmon_directory_is_the_first_hwmon_entry() {
    let names = vec!["power".to_string(), "hwmon3".to_string(), "hwmon1".to_string()];
    assert_eq!(first_hwmon_entry(&names), Some(1));
    assert_eq!(first_hwmon_entry(&vec!["device".to_string()]), None);
}

#[test]
fn pci_id_comes_from_the_link() {
    let link = "../../devices/pci0000:00/0000:00:01.1/0000:03:00.0/drm/card1".to_string();
    assert_eq!(pci_id_from_link(Some(link)), "0000:00:01.1");
    assert_eq!(pci_id_from_link(Some("card1".to_string())), "0000:00:00.0");
    assert_eq!(pci_id_from_link(None), "Unknown PCI");
}

#[test]
fn amd_model_names() {
    assert_eq!(amd_model_name("0x744c", None, "0000:03:00.0"), "AMD Radeon RX 7900 XTX");
    assert_eq!(amd_model_name("0x73df", None, "0000:03:00.0"), "AMD Radeon RX 6700 XT / 6750 XT");
    assert_eq!(
        detect_amd_model_name(Some(" 0x744C\n".to_string()), None, "0000:03:00.0"),
        "AMD Radeon RX 7900 XTX"
    );
    assert_eq!(
        detect_amd_model_name(Some("0x1234".to_string()), Some("  Radeon Pro W7900 \n".to_string()), "x"),
        "Radeon Pro W7900"
    );
    assert_eq!(
        detect_amd_model_name(None, Some("   ".to_string()), "0000:03:00.0"),
        "AMD Radeon (0000:03:00.0)"
    );
}

#[test]
fn temperature_labels_pick_sensors() {
    assert!(temp_label_kind("edge") == TempLabelKind::Edge);
    assert!(temp_label_kind("hotspot") == TempLabelKind::Junction);
    assert!(temp_label_kind("mem") == TempLabelKind::Memory);
    assert!(temp_label_kind("vddgfx") == TempLabelKind::Other);

    let labels = vec![
        Some("edge\n".to_string()),
        Some("Junction\n".to_string()),
        Some("mem\n".to_string()),
        None,
        None,
    ];
    let h = hwmon_files(&labels, true, true, true, true, false);
    assert_eq!(h.temps.edge, Some(1));
    assert_eq!(h.temps.junction, Some(2));
    assert_eq!(h.temps.memory, Some(3));
    assert!(h.power == Some(PowerSource::Average));
    assert!(h.has_power_cap);
    assert!(!h.has_fan_pwm);

    let unlabelled = hwmon_files(&vec![None, None, None, None, None], true, false, true, false, true);
    assert_eq!(unlabelled.temps.edge, Some(1));
    assert_eq!(unlabelled.temps.junction, None);
    assert!(unlabelled.power == Some(PowerSource::Input));

    let missing = hwmon_files(&vec![None, None, None, None, None], false, false, false, false, false);
    assert_eq!(missing.temps.edge, None);
    assert!(missing.power.is_none());
}

#[test]
fn memory_clock_of_the_active_level() {
    assert_eq!(parse_amd_dpm_mclk("0: 96Mhz\n1: 456Mhz *\n2: 1000Mhz\n"), Some(456));
    assert_eq!(parse_amd_dpm_mclk("0: 96MHz\n1: 772MHz *\n"), Some(772));
    assert_eq!(parse_amd_dpm_mclk("0: 96Mhz\n1: 456Mhz\n"), None);
    assert_eq!(parse_amd_dpm_mclk(""), None);
}

#[test]
fn sysfs_values() {
    assert_eq!(parse_u32_value(" 42\n"), Some(42));
    assert_eq!(parse_u32_value("-1"), None);
    assert_eq!(parse_u64_value("25753026560\n"), Some(25753026560));
    assert_eq!(parse_u64_value("x"), None);
    assert_eq!(parse_i32_value("-1500\n"), Some(-1500));
    assert_eq!(parse_i32_value("45000"), Some(45000));
    assert_eq!(parse_i32_value("-2147483648"), Some(i32::MIN));
    assert_eq!(parse_i32_value("2147483648"), None);
}

#[test]
fn nvidia_smi_lines() {
    let f = parse_nvidia_csv_line("0, NVIDIA GeForce RTX 4090, 550.54, 35, 12, 24564, 1024, 45, 120.50, 450.00")
        .expect("ten fields");
    assert_eq!(f.index, 0);
    assert_eq!(f.name, "NVIDIA GeForce RTX 4090");
    assert_eq!(f.driver_version, "550.54");
    assert_eq!(f.utilization_gpu, "35");
    assert_eq!(f.memory_total_mib, 24564);
    assert_eq!(f.memory_used_mib, 1024);
    assert_eq!(f.power_limit, "450.00");
    assert!(parse_nvidia_csv_line("0, name, 1").is_none());
    let odd = parse_nvidia_csv_line("x, n, d, a, b, [N/A], 5, t, p, l").expect("ten fields");
    assert_eq!(odd.index, 0);
    assert_eq!(odd.memory_total_mib, 0);

    let (total, used, free) = nvidia_vram_bytes(24564, 1024);
    assert_eq!(total, 24564 * MIB);
    assert_eq!(used, 1024 * MIB);
    assert_eq!(free, 23540 * MIB);
    assert_eq!(nvidia_vram_bytes(1, 2).2, 0);
}
