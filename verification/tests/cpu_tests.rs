use tfl::collector::cpu::{average_frequency_mhz, cpu_brand, is_cpu_temp_sensor};
use tfl::config::Config;

#[test]
fn mean_core_clock() {
    assert_eq!(average_frequency_mhz(&vec![3000, 4000]), 3500);
    assert_eq!(average_frequency_mhz(&vec![3000, 4001, 4000]), 3667);
    assert_eq!(average_frequency_mhz(&vec![]), 0);
    assert_eq!(average_frequency_mhz(&vec![u64::MAX, 10]), u64::MAX / 2);
}

#[test]
fn cpu_model_name() {
    assert_eq!(cpu_brand(Some("  AMD Ryzen 5 5500X3D \n".to_string())), Some("AMD Ryzen 5 5500X3D".to_string()));
    assert_eq!(cpu_brand(Some("   ".to_string())), None);
    assert_eq!(cpu_brand(None), None);
}

#[test]
fn cpu_temperature_sensors() {
    assert!(is_cpu_temp_sensor("k10temp\n"));
    assert!(is_cpu_temp_sensor("coretemp"));
    assert!(is_cpu_temp_sensor("cpu_thermal"));
    assert!(!is_cpu_temp_sensor("amdgpu"));
}

#[test]
fn default_settings() {
    let c = Config::default();
    assert_eq!(c.endpoint_url, "http://127.0.0.1:8080");
    assert_eq!(c.interval_ms, 1000);
    assert_eq!(c.log_path, "/tmp/tfl.log");
}
