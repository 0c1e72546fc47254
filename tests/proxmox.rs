use pulse::config::ProxmoxConfig;
use pulse::models::{ContainerStatus, ContainerType, NodeStatus};
use pulse::proxmox::{
    auth_header, container_from_record, guests_url, host_containers, is_online, is_running,
    node_from_record, node_status_url, nodes_url, GuestRecord, HostRecord, HostStatusRecord,
    MemoryRecord,
};

fn guest(vmid: u32, name: Option<&str>, status: &str) -> GuestRecord {
    GuestRecord {
        vmid,
        name: name.map(|n| n.to_string()),
        status: status.to_string(),
        cpu: Some(1250),
        mem: Some(512),
        maxmem: None,
        uptime: Some(60),
    }
}

#[test]
fn request_urls() {
    assert_eq!(nodes_url("https://h:8006"), "https://h:8006/api2/json/nodes");
    assert_eq!(node_status_url("https://h:8006", "pve1"), "https://h:8006/api2/json/nodes/pve1/status");
    assert_eq!(guests_url("https://h", "pve1", ContainerType::VM), "https://h/api2/json/nodes/pve1/qemu");
    assert_eq!(guests_url("https://h", "pve1", ContainerType::LXC), "https://h/api2/json/nodes/pve1/lxc");
}

#[test]
fn token_header() {
    assert_eq!(auth_header("root@pam!t", "s3"), "PVEAPIToken=root@pam!t=s3");
    let cfg = ProxmoxConfig {
        name: "Test Server".to_string(),
        host: "https://192.168.1.100:8006".to_string(),
        user: "root@pam".to_string(),
        token_id: "root@pam!test-token".to_string(),
        token_secret: "12345678-1234-1234-1234-123456789012".to_string(),
    };
    assert_eq!(cfg.auth_header(), "PVEAPIToken=root@pam!test-token=12345678-1234-1234-1234-123456789012");
}

#[test]
fn status_words_match_exactly() {
    assert!(is_online("online"));
    assert!(!is_online("Online"));
    assert!(!is_online("offline"));
    assert!(is_running("running"));
    assert!(!is_running("stopped"));
}

#[test]
fn online_host_takes_its_status() {
    let host = HostRecord { node: "pve1".to_string(), status: "online".to_string() };
    let status = HostStatusRecord {
        cpu: Some(4200),
        memory: Some(MemoryRecord { total: 2048, used: 1024 }),
        uptime: None,
    };
    let n = node_from_record(host, Some(status));
    assert_eq!(n.name, "pve1");
    assert_eq!(n.status, NodeStatus::Online);
    assert_eq!(n.cpu_usage, 4200);
    assert_eq!((n.memory_used, n.memory_total), (1024, 2048));
    assert_eq!(n.uptime, 0);
    assert_eq!(n.memory_percent(), 5000);
}

#[test]
fn offline_or_unanswered_host_has_zero_figures() {
    let host = HostRecord { node: "pve2".to_string(), status: "unknown".to_string() };
    let status = HostStatusRecord { cpu: Some(4200), memory: None, uptime: Some(5) };
    let n = node_from_record(host, Some(status));
    assert_eq!(n.status, NodeStatus::Offline);
    assert_eq!((n.cpu_usage, n.memory_total, n.uptime), (0, 0, 0));
    let host = HostRecord { node: "pve3".to_string(), status: "online".to_string() };
    let n = node_from_record(host, None);
    assert_eq!(n.status, NodeStatus::Online);
    assert_eq!((n.cpu_usage, n.memory_used, n.uptime), (0, 0, 0));
}

#[test]
fn guests_get_default_names() {
    let c = container_from_record(guest(100, None, "running"), "pve1", ContainerType::VM);
    assert_eq!(c.name, "VM 100");
    assert_eq!(c.status, ContainerStatus::Running);
    assert_eq!((c.cpu_usage, c.memory_used, c.memory_max, c.uptime), (1250, 512, 0, 60));
    assert_eq!(c.node, "pve1");
    let c = container_from_record(guest(101, None, "paused"), "pve1", ContainerType::LXC);
    assert_eq!(c.name, "CT 101");
    assert_eq!(c.status, ContainerStatus::Stopped);
    assert_eq!(c.type_label(), "LXC");
    let c = container_from_record(guest(7, Some("db"), "running"), "pve2", ContainerType::LXC);
    assert_eq!(c.name, "db");
}

#[test]
fn failed_host_listing_contributes_nothing() {
    let vms = Some(vec![guest(1, Some("a"), "running"), guest(2, Some("b"), "stopped")]);
    let cts = Some(vec![guest(3, Some("c"), "running")]);
    let all = host_containers("pve1", vms, cts);
    let ids: Vec<u32> = all.iter().map(|c| c.vmid).collect();
    assert_eq!(ids, vec![1, 2, 3]);
    assert_eq!(all[2].container_type, ContainerType::LXC);
    let only_cts = host_containers("pve1", None, Some(vec![guest(3, None, "running")]));
    assert_eq!(only_cts.len(), 1);
    assert_eq!(only_cts[0].name, "CT 3");
    assert!(host_containers("pve1", None, None).is_empty());
}
