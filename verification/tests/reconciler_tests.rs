use harvester_dns_controller::config::{Config, DnsBackend};
use harvester_dns_controller::controller::finalizer::FINALIZER;
use harvester_dns_controller::controller::reconciler::{
    first_allocated_ip, plan_vmnc_reconcile, VmncPlan,
};
use harvester_dns_controller::controller::{error_policy_action, ControllerAction};
use harvester_dns_controller::kubernetes::{
    NetworkConfigEntry, NetworkConfigStatus, ObjectMeta, VmNetworkConfig, VmNetworkConfigSpec_,
    VmNetworkConfigStatus,
};

fn make_vmnetcfg(status: Option<VmNetworkConfigStatus>) -> VmNetworkConfig {
    VmNetworkConfig {
        metadata: ObjectMeta {
            name: Some("test-vm".to_string()),
            namespace: Some("default".to_string()),
            ..Default::default()
        },
        spec: VmNetworkConfigSpec_ {
            vm_name: "test-vm".to_string(),
            network_configs: vec![NetworkConfigEntry {
                mac_address: "00:11:22:33:44:55".to_string(),
                network_name: "default/vlan1".to_string(),
            }],
        },
        status,
    }
}

#[test]
fn test_first_allocated_ip_none_when_no_status() {
    let vmnetcfg = make_vmnetcfg(None);
    assert_eq!(first_allocated_ip(&vmnetcfg), None);
}

#[test]
fn test_first_allocated_ip_none_when_empty_network_config() {
    let vmnetcfg = make_vmnetcfg(Some(VmNetworkConfigStatus {
        network_configs: vec![],
    }));
    assert_eq!(first_allocated_ip(&vmnetcfg), None);
}

#[test]
fn test_first_allocated_ip_none_when_pending() {
    let vmnetcfg = make_vmnetcfg(Some(VmNetworkConfigStatus {
        network_configs: vec![NetworkConfigStatus {
            mac_address: "00:11:22:33:44:55".to_string(),
            network_name: "default/vlan1".to_string(),
            allocated_ip_address: None,
            state: Some("Pending".to_string()),
        }],
    }));
    assert_eq!(first_allocated_ip(&vmnetcfg), None);
}

#[test]
fn test_first_allocated_ip_returns_allocated() {
    let vmnetcfg = make_vmnetcfg(Some(VmNetworkConfigStatus {
        network_configs: vec![NetworkConfigStatus {
            mac_address: "00:11:22:33:44:55".to_string(),
            network_name: "default/vlan1".to_string(),
            allocated_ip_address: Some("192.168.1.100".to_string()),
            state: Some("Allocated".to_string()),
        }],
    }));
    assert_eq!(
        first_allocated_ip(&vmnetcfg),
        Some("192.168.1.100".to_string())
    );
}

#[test]
fn test_first_allocated_ip_skips_non_allocated() {
    let vmnetcfg = make_vmnetcfg(Some(VmNetworkConfigStatus {
        network_configs: vec![
            NetworkConfigStatus {
                mac_address: "00:11:22:33:44:55".to_string(),
                network_name: "default/vlan1".to_string(),
                allocated_ip_address: Some("10.0.0.1".to_string()),
                state: Some("Pending".to_string()),
            },
            NetworkConfigStatus {
                mac_address: "00:11:22:33:44:66".to_string(),
                network_name: "default/vlan2".to_string(),
                allocated_ip_address: Some("192.168.1.100".to_string()),
                state: Some("Allocated".to_string()),
            },
        ],
    }));
    assert_eq!(
        first_allocated_ip(&vmnetcfg),
        Some("192.168.1.100".to_string())
    );
}

#[test]
fn test_first_allocated_ip_skips_allocated_without_address() {
    let vmnetcfg = make_vmnetcfg(Some(VmNetworkConfigStatus {
        network_configs: vec![
            NetworkConfigStatus {
                mac_address: "a".to_string(),
                network_name: "n".to_string(),
                allocated_ip_address: None,
                state: Some("Allocated".to_string()),
            },
            NetworkConfigStatus {
                mac_address: "b".to_string(),
                network_name: "n".to_string(),
                allocated_ip_address: Some("10.1.1.1".to_string()),
                state: Some("Allocated".to_string()),
            },
        ],
    }));
    assert_eq!(first_allocated_ip(&vmnetcfg), Some("10.1.1.1".to_string()));
}

fn config() -> Config {
    Config {
        dns_backend: DnsBackend::RouterOs,
        dns_host: "192.168.1.1".to_string(),
        dns_username: "admin".to_string(),
        dns_password: "secret".to_string(),
        dns_use_tls: true,
        dns_tls_verify: true,
        dns_domain: "lab.example.com".to_string(),
        dns_ttl: "15m".to_string(),
        dns_comment_tag: "managed-by=test".to_string(),
        watch_namespaces: "".to_string(),
        dns_use_guest_cluster_label: true,
    }
}

fn allocated(ip: &str) -> Option<VmNetworkConfigStatus> {
    Some(VmNetworkConfigStatus {
        network_configs: vec![NetworkConfigStatus {
            mac_address: "00:11:22:33:44:55".to_string(),
            network_name: "default/vlan1".to_string(),
            allocated_ip_address: Some(ip.to_string()),
            state: Some("Allocated".to_string()),
        }],
    })
}

#[test]
fn test_plan_vmnc_reconcile_paths() {
    let cfg = config();

    // New object: attach the finalizer first.
    let mut v = make_vmnetcfg(allocated("10.0.0.5"));
    v.spec.vm_name = "Test-VM".to_string();
    let plan = plan_vmnc_reconcile(&v, &cfg);
    match &plan {
        VmncPlan::AddFinalizer { finalizers } => assert_eq!(finalizers, &vec![FINALIZER.to_string()]),
        other => panic!("unexpected plan {:?}", other),
    }
    assert_eq!(plan.action_after_success(), ControllerAction::RequeueAfter(1));

    // With the finalizer and an IP: ensure the record.
    v.metadata.finalizers = Some(vec![FINALIZER.to_string()]);
    let plan = plan_vmnc_reconcile(&v, &cfg);
    match &plan {
        VmncPlan::EnsureRecord { fqdn, ip, ttl } => {
            assert_eq!(fqdn, "test-vm.lab.example.com");
            assert_eq!(ip, "10.0.0.5");
            assert_eq!(ttl, "15m");
        }
        other => panic!("unexpected plan {:?}", other),
    }
    assert_eq!(plan.action_after_success(), ControllerAction::RequeueAfter(600));

    // With the finalizer but no IP yet: wait.
    let mut w = make_vmnetcfg(None);
    w.metadata.finalizers = Some(vec![FINALIZER.to_string()]);
    let plan = plan_vmnc_reconcile(&w, &cfg);
    assert!(matches!(plan, VmncPlan::WaitForIp));
    assert_eq!(plan.action_after_success(), ControllerAction::RequeueAfter(30));

    // Being deleted with our finalizer: release the record.
    v.metadata.deleting = true;
    let plan = plan_vmnc_reconcile(&v, &cfg);
    match &plan {
        VmncPlan::ReleaseRecord { fqdn } => assert_eq!(fqdn, "test-vm.lab.example.com"),
        other => panic!("unexpected plan {:?}", other),
    }
    assert_eq!(plan.action_after_success(), ControllerAction::AwaitChange);

    // Being deleted without our finalizer: nothing to do.
    v.metadata.finalizers = Some(vec!["other".to_string()]);
    let plan = plan_vmnc_reconcile(&v, &cfg);
    assert!(matches!(plan, VmncPlan::AwaitChange));
    assert_eq!(plan.action_after_success(), ControllerAction::AwaitChange);

    assert_eq!(error_policy_action(), ControllerAction::RequeueAfter(30));
}
