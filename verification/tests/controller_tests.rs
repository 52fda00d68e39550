use harvester_dns_controller::controller::events::{
    emit_for_action, record_failed, DnsEventReason, COMPONENT,
};
use harvester_dns_controller::controller::gc::{startup_lb_claim, startup_vm_claim};
use harvester_dns_controller::controller::helpers::vm_owner;
use harvester_dns_controller::controller::lb::{plan_lb_reconcile, LbPlan};
use harvester_dns_controller::controller::ControllerAction;
use harvester_dns_controller::health::{health_response, RESPONSE_404, RESPONSE_OK};
use harvester_dns_controller::kubernetes::{
    HarvesterLB, HarvesterLoadBalancerStatus, NetworkConfigStatus, ObjectMeta, OwnerReference,
    VmNetworkConfig, VmNetworkConfigSpec_, VmNetworkConfigStatus, GUEST_CLUSTER_LABEL,
    LB_CLUSTER_LABEL,
};
use harvester_dns_controller::registry::types::{ClaimSource, DnsAction};

#[test]
fn test_event_reasons_and_messages() {
    assert_eq!(DnsEventReason::DnsRecordCreated.as_str(), "DnsRecordCreated");
    assert_eq!(DnsEventReason::DnsRecordUpdated.as_str(), "DnsRecordUpdated");
    assert_eq!(DnsEventReason::DnsRecordDeleted.as_str(), "DnsRecordDeleted");
    assert_eq!(DnsEventReason::DnsRecordFailed.as_str(), "DnsRecordFailed");
    assert_eq!(DnsEventReason::DnsRecordFailed.event_type(), "Warning");
    assert_eq!(DnsEventReason::DnsRecordCreated.event_type(), "Normal");
    assert_eq!(COMPONENT, "harvester-dns-controller");

    let e = emit_for_action(DnsAction::Created, "vm.lab", Some("10.0.0.1")).unwrap();
    assert_eq!(e.reason, DnsEventReason::DnsRecordCreated);
    assert_eq!(e.message, "Created DNS record vm.lab -> 10.0.0.1");
    let e = emit_for_action(DnsAction::Updated, "vm.lab", Some("10.0.0.2")).unwrap();
    assert_eq!(e.message, "Updated DNS record vm.lab -> 10.0.0.2");
    let e = emit_for_action(DnsAction::Deleted, "vm.lab", None).unwrap();
    assert_eq!(e.message, "Deleted DNS record vm.lab");
    assert!(emit_for_action(DnsAction::Created, "vm.lab", None).is_none());
    assert!(emit_for_action(DnsAction::Unchanged, "vm.lab", Some("1")).is_none());
    assert!(emit_for_action(DnsAction::NoOp, "vm.lab", Some("1")).is_none());
    let f = record_failed("vm.lab", "timeout");
    assert_eq!(f.reason, DnsEventReason::DnsRecordFailed);
    assert_eq!(f.message, "Failed to manage DNS record vm.lab: timeout");
}

#[test]
fn test_health_responses() {
    assert_eq!(health_response(b"GET /healthz HTTP/1.1\r\n\r\n"), RESPONSE_OK);
    assert_eq!(health_response(b"GET /readyz HTTP/1.1\r\n"), RESPONSE_OK);
    assert_eq!(health_response(b"GET /metrics HTTP/1.1\r\n"), RESPONSE_404);
    assert_eq!(health_response(b"POST /healthz"), RESPONSE_404);
    assert_eq!(health_response(b""), RESPONSE_404);
    assert_eq!(health_response(b"GET /healthz \xff"), RESPONSE_404);
    assert!(RESPONSE_OK.starts_with("HTTP/1.1 200 OK"));
    assert!(RESPONSE_404.starts_with("HTTP/1.1 404 Not Found"));
}

fn lb(labels: Option<Vec<(String, String)>>, address: Option<&str>, deleting: bool) -> HarvesterLB {
    HarvesterLB {
        metadata: ObjectMeta {
            name: Some("cluster-traefik".to_string()),
            namespace: Some("default".to_string()),
            labels,
            deleting,
            ..Default::default()
        },
        status: Some(HarvesterLoadBalancerStatus { address: address.map(|a| a.to_string()) }),
    }
}

fn cluster_label(v: &str) -> Option<Vec<(String, String)>> {
    Some(vec![(LB_CLUSTER_LABEL.to_string(), v.to_string())])
}

#[test]
fn test_plan_lb_reconcile_paths() {
    let plan = plan_lb_reconcile(&lb(None, Some("10.0.0.100"), false));
    assert!(matches!(plan, LbPlan::Skip));
    assert_eq!(plan.action_after_success(), ControllerAction::AwaitChange);

    let plan = plan_lb_reconcile(&lb(cluster_label("Pollux"), None, false));
    assert!(matches!(plan, LbPlan::WaitForAddress));
    assert_eq!(plan.action_after_success(), ControllerAction::RequeueAfter(30));

    let plan = plan_lb_reconcile(&lb(cluster_label("Pollux"), Some("10.0.0.100"), false));
    match &plan {
        LbPlan::UpsertClaim { hostname, claim } => {
            assert_eq!(hostname, "pollux");
            assert_eq!(claim.ip, "10.0.0.100");
            assert_eq!(
                claim.source,
                ClaimSource::LoadBalancer {
                    name: "cluster-traefik".to_string(),
                    namespace: "default".to_string()
                }
            );
        }
        other => panic!("unexpected plan {:?}", other),
    }
    assert_eq!(plan.action_after_success(), ControllerAction::RequeueAfter(600));

    let plan = plan_lb_reconcile(&lb(cluster_label("Pollux"), Some("10.0.0.100"), true));
    match &plan {
        LbPlan::RemoveClaim { hostname, .. } => assert_eq!(hostname, "pollux"),
        other => panic!("unexpected plan {:?}", other),
    }
    assert_eq!(plan.action_after_success(), ControllerAction::AwaitChange);
}

fn vmnc(deleting: bool, ip: Option<&str>) -> VmNetworkConfig {
    VmNetworkConfig {
        metadata: ObjectMeta {
            name: Some("pollux-pool1-abc".to_string()),
            namespace: Some("default".to_string()),
            deleting,
            owner_references: Some(vec![
                OwnerReference {
                    api_version: "v1".to_string(),
                    kind: "Pod".to_string(),
                    name: "p".to_string(),
                },
                OwnerReference {
                    api_version: "kubevirt.io/v1".to_string(),
                    kind: "VirtualMachine".to_string(),
                    name: "pollux-pool1-abc".to_string(),
                },
            ]),
            ..Default::default()
        },
        spec: VmNetworkConfigSpec_ { vm_name: "pollux-pool1-abc".to_string(), network_configs: vec![] },
        status: Some(VmNetworkConfigStatus {
            network_configs: vec![NetworkConfigStatus {
                mac_address: "m".to_string(),
                network_name: "n".to_string(),
                allocated_ip_address: ip.map(|s| s.to_string()),
                state: Some("Allocated".to_string()),
            }],
        }),
    }
}

#[test]
fn test_startup_claims() {
    let labels = vec![(GUEST_CLUSTER_LABEL.to_string(), "Pollux".to_string())];
    let (h, c) = startup_vm_claim(&vmnc(false, Some("10.0.0.1")), Some(&labels), true).unwrap();
    assert_eq!(h, "pollux");
    assert_eq!(c.ip, "10.0.0.1");
    assert_eq!(
        c.source,
        ClaimSource::VirtualMachine {
            name: "pollux-pool1-abc".to_string(),
            namespace: "default".to_string()
        }
    );
    assert!(startup_vm_claim(&vmnc(true, Some("10.0.0.1")), Some(&labels), true).is_none());
    assert!(startup_vm_claim(&vmnc(false, None), Some(&labels), true).is_none());

    let (h, c) = startup_lb_claim(&lb(cluster_label("Pollux"), Some("10.0.0.100"), false)).unwrap();
    assert_eq!(h, "pollux");
    assert_eq!(c.ip, "10.0.0.100");
    assert!(startup_lb_claim(&lb(cluster_label("Pollux"), Some("10.0.0.100"), true)).is_none());
    assert!(startup_lb_claim(&lb(None, Some("10.0.0.100"), false)).is_none());
    assert!(startup_lb_claim(&lb(cluster_label("Pollux"), None, false)).is_none());
}

#[test]
fn test_vm_owner_lookup() {
    let v = vmnc(false, None);
    assert_eq!(
        vm_owner(&v),
        Some(("default".to_string(), "pollux-pool1-abc".to_string()))
    );
    let mut no_ns = vmnc(false, None);
    no_ns.metadata.namespace = None;
    assert_eq!(vm_owner(&no_ns), None);
    let mut wrong_group = vmnc(false, None);
    wrong_group.metadata.owner_references = Some(vec![OwnerReference {
        api_version: "example.io/v1".to_string(),
        kind: "VirtualMachine".to_string(),
        name: "x".to_string(),
    }]);
    assert_eq!(vm_owner(&wrong_group), None);
}
