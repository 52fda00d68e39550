use harvester_dns_controller::dns::memory::MemoryDnsClient;
use harvester_dns_controller::dns::{run_command, DnsClient, DnsCommand};
use harvester_dns_controller::registry::manager::HostnameRegistry;
use harvester_dns_controller::registry::types::{ClaimSource, DnsAction, HostnameClaim};

fn vm(name: &str) -> ClaimSource {
    ClaimSource::VirtualMachine { name: name.to_string(), namespace: "default".to_string() }
}

fn lb(name: &str) -> ClaimSource {
    ClaimSource::LoadBalancer { name: name.to_string(), namespace: "default".to_string() }
}

fn claim(ip: &str, source: ClaimSource) -> HostnameClaim {
    HostnameClaim { ip: ip.to_string(), source }
}

#[test]
fn test_upsert_single_claim() {
    let mut dns = MemoryDnsClient::new();
    let mut registry = HostnameRegistry::new("example.com".to_string(), "15m".to_string());

    let (_, cmd) = registry.upsert("myvm", claim("10.0.0.1", vm("myvm")));
    dns.apply(&cmd);

    assert!(dns.has_record("myvm.example.com"));
    assert_eq!(dns.get_ip("myvm.example.com"), Some("10.0.0.1".to_string()));
}

#[test]
fn test_loadbalancer_wins_over_vm() {
    let mut dns = MemoryDnsClient::new();
    let mut registry = HostnameRegistry::new("example.com".to_string(), "15m".to_string());

    let (_, cmd) = registry.upsert("cluster", claim("10.0.0.1", vm("cluster-pool1-abc")));
    dns.apply(&cmd);
    assert_eq!(dns.get_ip("cluster.example.com"), Some("10.0.0.1".to_string()));

    let (_, cmd) = registry.upsert("cluster", claim("10.0.0.100", lb("cluster-traefik")));
    dns.apply(&cmd);
    assert_eq!(dns.get_ip("cluster.example.com"), Some("10.0.0.100".to_string()));
}

#[test]
fn test_remove_lb_falls_back_to_vm() {
    let mut dns = MemoryDnsClient::new();
    let mut registry = HostnameRegistry::new("example.com".to_string(), "15m".to_string());
    let vm_source = vm("cluster-pool1-abc");
    let lb_source = lb("cluster-traefik");

    let (_, cmd) = registry.upsert("cluster", claim("10.0.0.1", vm_source.clone()));
    dns.apply(&cmd);
    let (_, cmd) = registry.upsert("cluster", claim("10.0.0.100", lb_source.clone()));
    dns.apply(&cmd);
    assert_eq!(dns.get_ip("cluster.example.com"), Some("10.0.0.100".to_string()));

    let (_, cmd) = registry.remove("cluster", &lb_source);
    dns.apply(&cmd);
    assert_eq!(dns.get_ip("cluster.example.com"), Some("10.0.0.1".to_string()));
}

#[test]
fn test_remove_last_claim_deletes_record() {
    let mut dns = MemoryDnsClient::new();
    let mut registry = HostnameRegistry::new("example.com".to_string(), "15m".to_string());
    let source = vm("myvm");

    let (_, cmd) = registry.upsert("myvm", claim("10.0.0.1", source.clone()));
    dns.apply(&cmd);
    assert!(dns.has_record("myvm.example.com"));

    let (_, cmd) = registry.remove("myvm", &source);
    dns.apply(&cmd);
    assert!(!dns.has_record("myvm.example.com"));
}

#[test]
fn test_registry_results_report_actions() {
    let mut registry = HostnameRegistry::new("example.com".to_string(), "15m".to_string());
    let (r, cmd) = registry.upsert("Cluster", claim("10.0.0.1", vm("a")));
    assert_eq!(r.action, DnsAction::Created);
    assert_eq!(r.fqdn, "cluster.example.com");
    assert_eq!(r.ip, Some("10.0.0.1".to_string()));
    match cmd {
        DnsCommand::EnsureRecord { fqdn, ip, ttl } => {
            assert_eq!(fqdn, "cluster.example.com");
            assert_eq!(ip, "10.0.0.1");
            assert_eq!(ttl, "15m");
        }
        other => panic!("unexpected command {:?}", other),
    }

    // The same claim again: unchanged, but the record is still ensured.
    let (r, cmd) = registry.upsert("cluster", claim("10.0.0.1", vm("a")));
    assert_eq!(r.action, DnsAction::Unchanged);
    assert!(matches!(cmd, DnsCommand::EnsureRecord { .. }));

    // A load balancer takes over: updated.
    let (r, _) = registry.upsert("cluster", claim("10.0.0.100", lb("t")));
    assert_eq!(r.action, DnsAction::Updated);
    assert_eq!(r.ip, Some("10.0.0.100".to_string()));

    // A second VM claim does not beat the load balancer.
    let (r, _) = registry.upsert("cluster", claim("10.0.0.2", vm("b")));
    assert_eq!(r.action, DnsAction::Unchanged);
    assert_eq!(r.ip, Some("10.0.0.100".to_string()));

    // Removing a VM that is not winning changes nothing in DNS.
    let (r, cmd) = registry.remove("cluster", &vm("a"));
    assert_eq!(r.action, DnsAction::Unchanged);
    assert!(matches!(cmd, DnsCommand::Nothing));

    // Removing the load balancer falls back to the remaining VM.
    let (r, cmd) = registry.remove("cluster", &lb("t"));
    assert_eq!(r.action, DnsAction::Updated);
    assert_eq!(r.ip, Some("10.0.0.2".to_string()));
    assert!(matches!(cmd, DnsCommand::EnsureRecord { .. }));

    // Removing the last claim deletes the record.
    let (r, cmd) = registry.remove("cluster", &vm("b"));
    assert_eq!(r.action, DnsAction::Deleted);
    assert_eq!(r.ip, Some("10.0.0.2".to_string()));
    match cmd {
        DnsCommand::DeleteRecord { fqdn } => assert_eq!(fqdn, "cluster.example.com"),
        other => panic!("unexpected command {:?}", other),
    }

    // Removing from a hostname without claims does nothing.
    let (r, cmd) = registry.remove("cluster", &vm("b"));
    assert_eq!(r.action, DnsAction::NoOp);
    assert_eq!(r.ip, None);
    assert!(matches!(cmd, DnsCommand::Nothing));
}

#[test]
fn test_equal_priority_later_claim_wins() {
    let mut registry = HostnameRegistry::new("example.com".to_string(), "15m".to_string());
    registry.upsert("h", claim("10.0.0.1", vm("a")));
    let (r, _) = registry.upsert("h", claim("10.0.0.2", vm("b")));
    assert_eq!(r.ip, Some("10.0.0.2".to_string()));
    assert_eq!(r.action, DnsAction::Updated);
    // Re-upserting the first source moves it last, so it wins again.
    let (r, _) = registry.upsert("h", claim("10.0.0.3", vm("a")));
    assert_eq!(r.ip, Some("10.0.0.3".to_string()));
}

#[test]
fn test_upsert_then_remove_restores_registry() {
    let mut dns = MemoryDnsClient::new();
    let mut registry = HostnameRegistry::new("example.com".to_string(), "15m".to_string());
    let (_, cmd) = registry.upsert("web", claim("10.0.0.1", vm("web")));
    dns.apply(&cmd);
    let (_, cmd) = registry.upsert("web", claim("10.0.0.9", lb("front")));
    dns.apply(&cmd);
    let (_, cmd) = registry.remove("web", &lb("front"));
    dns.apply(&cmd);
    assert_eq!(dns.get_ip("web.example.com"), Some("10.0.0.1".to_string()));
    assert_eq!(registry.active_fqdns(), vec!["web.example.com".to_string()]);
}

#[test]
fn test_active_fqdns_and_garbage_collect() {
    let mut dns = MemoryDnsClient::new();
    let mut registry = HostnameRegistry::new("example.com".to_string(), "15m".to_string());
    let (_, cmd) = registry.upsert("a", claim("10.0.0.1", vm("a")));
    dns.apply(&cmd);
    let (_, cmd) = registry.upsert("B", claim("10.0.0.2", vm("b")));
    dns.apply(&cmd);
    dns.ensure_record("stale.example.com", "10.9.9.9", "15m").unwrap();

    let mut active = registry.active_fqdns();
    active.sort();
    assert_eq!(active, vec!["a.example.com".to_string(), "b.example.com".to_string()]);

    let cmd = registry.garbage_collect();
    dns.apply(&cmd);
    assert!(dns.has_record("a.example.com"));
    assert!(dns.has_record("b.example.com"));
    assert!(!dns.has_record("stale.example.com"));
}

#[test]
fn test_dns_action_is_change() {
    assert!(DnsAction::Created.is_change());
    assert!(DnsAction::Updated.is_change());
    assert!(DnsAction::Deleted.is_change());
    assert!(!DnsAction::Unchanged.is_change());
    assert!(!DnsAction::NoOp.is_change());
}

#[test]
fn test_claim_source_priority_and_kind() {
    assert_eq!(vm("x").priority(), 5);
    assert_eq!(lb("x").priority(), 10);
    assert_eq!(vm("x").kind(), "VirtualMachine");
    assert_eq!(lb("x").kind(), "LoadBalancer");
    assert!(vm("x").same_as(&vm("x")));
    assert!(!vm("x").same_as(&lb("x")));
    assert!(!vm("x").same_as(&vm("y")));
    let other_ns = ClaimSource::VirtualMachine { name: "x".to_string(), namespace: "other".to_string() };
    assert!(!vm("x").same_as(&other_ns));
}

#[test]
fn test_mock_ensure_record() {
    let mut client = MemoryDnsClient::new();
    client.ensure_record("vm1.example.com", "192.168.1.100", "15m").unwrap();

    assert!(client.has_record("vm1.example.com"));
    assert_eq!(client.get_ip("vm1.example.com"), Some("192.168.1.100".to_string()));
}

#[test]
fn test_mock_update_record() {
    let mut client = MemoryDnsClient::new();
    client.ensure_record("vm1.example.com", "192.168.1.100", "15m").unwrap();
    client.ensure_record("vm1.example.com", "192.168.1.200", "15m").unwrap();

    assert_eq!(client.get_ip("vm1.example.com"), Some("192.168.1.200".to_string()));
}

#[test]
fn test_mock_delete_record() {
    let mut client = MemoryDnsClient::new();
    client.ensure_record("vm1.example.com", "192.168.1.100", "15m").unwrap();
    client.delete_record_for_fqdn("vm1.example.com").unwrap();

    assert!(!client.has_record("vm1.example.com"));
}

#[test]
fn test_mock_garbage_collect() {
    let mut client = MemoryDnsClient::new();
    client.ensure_record("vm1.example.com", "192.168.1.100", "15m").unwrap();
    client.ensure_record("vm2.example.com", "192.168.1.101", "15m").unwrap();
    client.ensure_record("vm3.example.com", "192.168.1.102", "15m").unwrap();

    client.garbage_collect(&["vm1.example.com".to_string(), "vm3.example.com".to_string()]).unwrap();

    assert!(client.has_record("vm1.example.com"));
    assert!(!client.has_record("vm2.example.com"));
    assert!(client.has_record("vm3.example.com"));
}

#[test]
fn test_run_command_applies_effects() {
    let mut dns = MemoryDnsClient::new();
    let ensure = DnsCommand::EnsureRecord {
        fqdn: "a.example.com".to_string(),
        ip: "10.0.0.1".to_string(),
        ttl: "15m".to_string(),
    };
    run_command(&mut dns, &ensure).unwrap();
    assert_eq!(dns.get_ip("a.example.com"), Some("10.0.0.1".to_string()));
    run_command(&mut dns, &DnsCommand::Nothing).unwrap();
    assert!(dns.has_record("a.example.com"));
    run_command(&mut dns, &DnsCommand::GarbageCollect { active_fqdns: vec![] }).unwrap();
    assert!(!dns.has_record("a.example.com"));
    run_command(&mut dns, &ensure).unwrap();
    run_command(&mut dns, &DnsCommand::DeleteRecord { fqdn: "a.example.com".to_string() }).unwrap();
    assert_eq!(dns.get_ip("a.example.com"), None);
}

#[test]
fn test_active_fqdns_one_per_hostname() {
    let mut registry = HostnameRegistry::new("example.com".to_string(), "15m".to_string());
    assert!(registry.active_fqdns().is_empty());
    registry.upsert("web", claim("10.0.0.1", vm("a")));
    registry.upsert("WEB", claim("10.0.0.2", lb("b")));
    assert_eq!(registry.active_fqdns(), vec!["web.example.com".to_string()]);
    match registry.garbage_collect() {
        DnsCommand::GarbageCollect { active_fqdns } => {
            assert_eq!(active_fqdns, registry.active_fqdns())
        }
        other => panic!("unexpected command {:?}", other),
    }
}
