use it_management::error::SSHError;
use it_management::inventory::{normalize_architecture, probe_gate, resolve_from_outputs, ComputerInfo};

#[test]
fn architecture_normalization() {
    assert_eq!(normalize_architecture("Apple M2"), "aarch64");
    assert_eq!(normalize_architecture("Intel Core i7"), "x86_64");
    assert_eq!(normalize_architecture("RISC-V board"), "RISC-V board");
    assert_eq!(normalize_architecture(""), "");
}

#[test]
fn hardware_summary_fills_its_fields() {
    let mut info = ComputerInfo::default();
    let output = "Hardware:\n\n    Hardware Overview:\n\n      Model Name: MacBook Pro\n      Serial Number (system): C02XXXXXX\n      Processor Name: Quad-Core Intel Core i7\n      Memory: 16 GB\n      Chip: Apple M2\n";
    info.parse_hardware_info(output);
    assert_eq!(info.product_name, "MacBook Pro");
    assert_eq!(info.serial, "C02XXXXXX");
    assert_eq!(info.processor, "Quad-Core Intel Core i7");
    assert_eq!(info.memory, "16 GB");
    assert_eq!(info.architecture, "aarch64");
}

#[test]
fn intel_chip_yields_x86_token() {
    let mut info = ComputerInfo::default();
    info.parse_hardware_info("Chip: Intel Core i7\n");
    assert_eq!(info.architecture, "x86_64");
    let mut other = ComputerInfo::default();
    other.parse_hardware_info("Chip: Snapdragon X\n");
    assert_eq!(other.architecture, "Snapdragon X");
}

#[test]
fn system_summary_fills_its_fields() {
    let mut info = ComputerInfo::default();
    let output = "Software:\n\n    System Software Overview:\n\n      System Version: macOS 14.1 (23B74)\n      Computer Name: Studio Mac\n      User Name: Jane Doe (jdoe)\n";
    info.parse_system_info(output);
    assert_eq!(info.version, "macOS 14.1 (23B74)");
    assert_eq!(info.title, "Studio Mac");
    assert_eq!(info.user, "Jane Doe (jdoe)");
}

#[test]
fn network_output_splits_on_the_marker() {
    let mut info = ComputerInfo::default();
    let output = "=== Network Interfaces ===\ninet 127.0.0.1 netmask 0xff000000\ninet 192.168.10.5 netmask 0xffffff00\ninet 10.0.0.7 netmask 0xffffff00\n=== Wifi Status ===\n     SSID: OfficeNet\n";
    info.parse_network_info(output);
    assert_eq!(info.lan_ip, "192.168.10.5");
    assert_eq!(info.wifi_ip, "10.0.0.7");
    assert_eq!(info.wifi_name, "OfficeNet");
}

#[test]
fn loopback_is_never_an_address() {
    let mut info = ComputerInfo::default();
    info.parse_network_info("inet 127.0.0.1 netmask 0xff000000\n");
    assert_eq!(info.lan_ip, "");
    assert_eq!(info.wifi_ip, "");
}

#[test]
fn storage_takes_second_field_of_second_line() {
    let mut info = ComputerInfo::default();
    let output = "Filesystem      Size   Used  Avail Capacity\n/dev/disk3s1   494Gi  210Gi 260Gi     45%\n";
    info.parse_storage_info(output);
    assert_eq!(info.storage, "494Gi");

    let mut short = ComputerInfo::default();
    short.parse_storage_info("only a header line\n");
    assert_eq!(short.storage, "");
}

#[test]
fn users_are_nonempty_trimmed_lines() {
    let mut info = ComputerInfo::default();
    info.parse_users_info("  alice  \n\nbob\n   \nroot\n");
    assert_eq!(info.home_users, vec!["alice", "bob", "root"]);
}

#[test]
fn graphics_takes_first_chipset_line() {
    let mut info = ComputerInfo::default();
    let output = "Graphics/Displays:\n\n    Chipset Model: Apple M2\n    Chipset Model: Secondary GPU\n";
    info.parse_graphics_info(output);
    assert_eq!(info.graphics, "Apple M2");

    let mut missing = ComputerInfo::default();
    missing.parse_graphics_info("no displays found\n");
    assert_eq!(missing.graphics, "");
}

#[test]
fn value_after_first_colon_trims_and_rejects_empty() {
    assert_eq!(
        ComputerInfo::get_value_after_first_colon("Memory:  16 GB "),
        Some("16 GB".to_string())
    );
    assert_eq!(
        ComputerInfo::get_value_after_first_colon("Serial: a:b:c"),
        Some("a:b:c".to_string())
    );
    assert_eq!(ComputerInfo::get_value_after_first_colon("Memory:   "), None);
    assert_eq!(ComputerInfo::get_value_after_first_colon("no colon"), None);
}

#[test]
fn probe_gate_blocks_failed_probes() {
    // A connection failure aborts resolution before any battery command.
    let failed: Result<String, SSHError> =
        Err(SSHError::Connection("Connection refused".to_string()));
    let gate = probe_gate(&failed);
    assert_eq!(
        gate.unwrap_err(),
        "SSH connection failed: Connection Error: Connection refused"
    );

    let odd: Result<String, SSHError> = Ok("something else".to_string());
    assert_eq!(probe_gate(&odd).unwrap_err(), "SSH test returned unexpected response");

    let good: Result<String, SSHError> = Ok("CONN_TEST_OK\n".to_string());
    assert!(probe_gate(&good).is_ok());
}

#[test]
fn battery_outputs_fold_into_one_record() {
    let outputs: Vec<Result<String, SSHError>> = vec![
        Ok("Model Name: MacBook Air\nChip: Apple M2\nMemory: 8 GB\n".to_string()),
        Ok("System Version: macOS 14.0\nComputer Name: Spare Air\nUser Name: Ops\n".to_string()),
        Ok("inet 127.0.0.1\ninet 192.168.1.20\n=== Wifi Status ===\nSSID: Lab\n".to_string()),
        Ok("Filesystem Size\n/dev/disk3s1 245Gi\n".to_string()),
        Ok("alice\nbob\n".to_string()),
        Ok("Chipset Model: Apple M2\n".to_string()),
    ];
    let info = resolve_from_outputs("spare-air.local", &outputs).expect("all commands succeeded");
    assert_eq!(info.product_name, "MacBook Air");
    assert_eq!(info.architecture, "aarch64");
    assert_eq!(info.memory, "8 GB");
    assert_eq!(info.version, "macOS 14.0");
    assert_eq!(info.title, "Spare Air");
    assert_eq!(info.user, "Ops");
    assert_eq!(info.lan_ip, "192.168.1.20");
    assert_eq!(info.wifi_name, "Lab");
    assert_eq!(info.storage, "245Gi");
    assert_eq!(info.home_users, vec!["alice", "bob"]);
    assert_eq!(info.graphics, "Apple M2");
    assert_eq!(info.network_name, "spare-air.local");
}

#[test]
fn one_failed_battery_command_fails_resolution() {
    let outputs: Vec<Result<String, SSHError>> = vec![
        Ok("Model Name: MacBook Air\n".to_string()),
        Err(SSHError::IO("stream ended".to_string())),
        Ok("".to_string()),
        Ok("".to_string()),
        Ok("".to_string()),
        Ok("".to_string()),
    ];
    let r = resolve_from_outputs("host.local", &outputs);
    assert_eq!(r.unwrap_err(), "I/O Error: stream ended");
}

#[test]
fn battery_commands_are_fixed() {
    assert_eq!(ComputerInfo::get_hardware_command(), "system_profiler SPHardwareDataType");
    assert_eq!(ComputerInfo::get_system_command(), "system_profiler SPSoftwareDataType");
    assert_eq!(ComputerInfo::get_storage_command(), "df -h /");
    assert!(ComputerInfo::get_network_command().contains("=== Wifi Status ==="));
    assert!(ComputerInfo::get_users_command().starts_with("dscl . list /Users"));
    assert_eq!(ComputerInfo::get_graphics_command(), "system_profiler SPDisplaysDataType");
}
