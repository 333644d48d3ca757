use embargo::hardware_mon::{
    HardwareModule, HardwareMonitor, InterfaceCounters, Probe, CPU_PERIOD, MEMORY_PERIOD,
    NETWORK_LIST_PERIOD, NETWORK_PERIOD,
};

fn counters(name: &str, received: u64, transmitted: u64) -> InterfaceCounters {
    InterfaceCounters { name: name.to_string(), received, transmitted }
}

#[test]
fn periods_are_as_documented() {
    assert_eq!(CPU_PERIOD, 500_000_000);
    assert_eq!(MEMORY_PERIOD, 1_000_000_000);
    assert_eq!(NETWORK_PERIOD, 2_000_000_000);
    assert_eq!(NETWORK_LIST_PERIOD, 10_000_000_000);
}

#[test]
fn module_is_due_once_time_has_passed() {
    let mut module = HardwareModule::new(500, Probe::Cpu, 1000);
    assert!(!module.update(1000));
    assert_eq!(module.due_after, 1000);
    assert!(module.update(1001));
    assert_eq!(module.due_after, 1501);
    assert!(!module.update(1501));
    assert!(module.update(1502));
    assert_eq!(module.due_after, 2002);
}

#[test]
fn module_at_the_end_of_time_is_never_due_again() {
    let mut module = HardwareModule::new(10, Probe::Memory, u64::MAX - 5);
    assert!(module.update(u64::MAX - 4));
    assert_eq!(module.due_after, u64::MAX);
    assert!(!module.update(u64::MAX));
}

#[test]
fn monitor_reads_each_gauge_in_its_rhythm() {
    let mut monitor = HardwareMonitor::new("enp6s0".to_string(), 0);
    assert_eq!(monitor.update(0), vec![]);
    assert_eq!(
        monitor.update(1),
        vec![Probe::Cpu, Probe::Memory, Probe::Networks, Probe::NetworkList]
    );
    assert_eq!(monitor.update(500_000_001), vec![]);
    assert_eq!(monitor.update(500_000_002), vec![Probe::Cpu]);
    assert_eq!(monitor.update(1_000_000_002), vec![Probe::Memory]);
    assert_eq!(monitor.update(1_000_000_003), vec![Probe::Cpu]);
    // Memory was read at 1_000_000_002 and stays good for a full second.
    assert_eq!(monitor.update(2_000_000_002), vec![Probe::Cpu, Probe::Networks]);
    assert_eq!(monitor.update(2_000_000_003), vec![Probe::Memory]);
    assert_eq!(
        monitor.update(10_000_000_002),
        vec![Probe::Cpu, Probe::Memory, Probe::Networks, Probe::NetworkList]
    );
}

#[test]
fn rate_is_traffic_by_two_seconds() {
    let monitor = HardwareMonitor::new("enp6s0".to_string(), 0);
    let interfaces = vec![counters("lo", 7, 9), counters("enp6s0", 1000, 3001)];
    assert_eq!(monitor.uploaded_bytes(&interfaces), 1500);
    assert_eq!(monitor.downloaded_bytes(&interfaces), 500);
    assert!(monitor.knows_interface(&interfaces));
}

#[test]
fn rate_of_unknown_interface_is_zero() {
    let monitor = HardwareMonitor::new("wlan0".to_string(), 0);
    let interfaces = vec![counters("lo", 7, 9), counters("enp6s0", 1000, 3001)];
    assert_eq!(monitor.uploaded_bytes(&interfaces), 0);
    assert_eq!(monitor.downloaded_bytes(&interfaces), 0);
    assert!(!monitor.knows_interface(&interfaces));
    assert_eq!(monitor.uploaded_bytes(&vec![]), 0);
}

#[test]
fn first_interface_of_a_name_counts() {
    let monitor = HardwareMonitor::new("eth0".to_string(), 0);
    let interfaces = vec![counters("eth0", 10, 20), counters("eth0", 1000, 2000)];
    assert_eq!(monitor.uploaded_bytes(&interfaces), 10);
    assert_eq!(monitor.downloaded_bytes(&interfaces), 5);
}
