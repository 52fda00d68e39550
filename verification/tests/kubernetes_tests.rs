use harvester_dns_controller::kubernetes::{
    derive_hostname, lb_address, lb_cluster_name, HarvesterLB, HarvesterLoadBalancerStatus,
    ObjectMeta, VmNetworkConfig, VmNetworkConfigSpec_, VmNetworkConfigStatus,
    GUEST_CLUSTER_LABEL, HOSTNAME_ANNOTATION, LB_CLUSTER_LABEL,
};

fn make_vmnetcfg_for_hostname_test(
    vm_name: &str,
    annotations: Option<Vec<(String, String)>>,
) -> VmNetworkConfig {
    VmNetworkConfig {
        metadata: ObjectMeta {
            name: Some(vm_name.to_string()),
            namespace: Some("default".to_string()),
            annotations,
            ..Default::default()
        },
        spec: VmNetworkConfigSpec_ {
            vm_name: vm_name.to_string(),
            network_configs: vec![],
        },
        status: None,
    }
}

#[test]
fn test_vmnetcfg_status_default() {
    let status = VmNetworkConfigStatus::default();
    assert!(status.network_configs.is_empty());
}

#[test]
fn test_derive_hostname_fallback_to_vm_name() {
    let vmnetcfg = make_vmnetcfg_for_hostname_test("my-test-vm", None);
    let hostname = derive_hostname(&vmnetcfg, None, true);
    assert_eq!(hostname, "my-test-vm");
}

#[test]
fn test_derive_hostname_from_guest_cluster_label() {
    let vmnetcfg = make_vmnetcfg_for_hostname_test("pollux-pool1-abc123", None);
    let labels = vec![(GUEST_CLUSTER_LABEL.to_string(), "pollux".to_string())];
    let hostname = derive_hostname(&vmnetcfg, Some(&labels), true);
    assert_eq!(hostname, "pollux");
}

#[test]
fn test_derive_hostname_guest_cluster_label_disabled() {
    let vmnetcfg = make_vmnetcfg_for_hostname_test("pollux-pool1-abc123", None);
    let labels = vec![(GUEST_CLUSTER_LABEL.to_string(), "pollux".to_string())];
    let hostname = derive_hostname(&vmnetcfg, Some(&labels), false);
    assert_eq!(hostname, "pollux-pool1-abc123");
}

#[test]
fn test_derive_hostname_annotation_override() {
    let annotations = vec![(HOSTNAME_ANNOTATION.to_string(), "custom-host".to_string())];
    let vmnetcfg = make_vmnetcfg_for_hostname_test("pollux-pool1-abc123", Some(annotations));
    let labels = vec![(GUEST_CLUSTER_LABEL.to_string(), "pollux".to_string())];
    let hostname = derive_hostname(&vmnetcfg, Some(&labels), true);
    assert_eq!(hostname, "custom-host");
}

#[test]
fn test_derive_hostname_lowercase() {
    let vmnetcfg = make_vmnetcfg_for_hostname_test("MyTestVM", None);
    let hostname = derive_hostname(&vmnetcfg, None, true);
    assert_eq!(hostname, "mytestvm");
}

#[test]
fn test_derive_hostname_lowercases_annotation_and_label() {
    let annotations = vec![
        ("other".to_string(), "x".to_string()),
        (HOSTNAME_ANNOTATION.to_string(), "Custom-HOST".to_string()),
    ];
    let vmnetcfg = make_vmnetcfg_for_hostname_test("vm", Some(annotations));
    assert_eq!(derive_hostname(&vmnetcfg, None, true), "custom-host");

    let vmnetcfg = make_vmnetcfg_for_hostname_test("vm", None);
    let labels = vec![
        ("app".to_string(), "web".to_string()),
        (GUEST_CLUSTER_LABEL.to_string(), "Pollux".to_string()),
    ];
    assert_eq!(derive_hostname(&vmnetcfg, Some(&labels), true), "pollux");
    let other = vec![("app".to_string(), "web".to_string())];
    assert_eq!(derive_hostname(&vmnetcfg, Some(&other), true), "vm");
}

fn make_lb(labels: Option<Vec<(String, String)>>, address: Option<&str>) -> HarvesterLB {
    HarvesterLB {
        metadata: ObjectMeta {
            name: Some("cluster-traefik".to_string()),
            namespace: Some("default".to_string()),
            labels,
            ..Default::default()
        },
        status: Some(HarvesterLoadBalancerStatus {
            address: address.map(|a| a.to_string()),
        }),
    }
}

#[test]
fn test_lb_cluster_name_and_address() {
    let lb = make_lb(
        Some(vec![(LB_CLUSTER_LABEL.to_string(), "Pollux".to_string())]),
        Some("10.0.0.100"),
    );
    assert_eq!(lb_cluster_name(&lb), Some("Pollux"));
    assert_eq!(lb_address(&lb), Some("10.0.0.100"));

    let bare = make_lb(None, None);
    assert_eq!(lb_cluster_name(&bare), None);
    assert_eq!(lb_address(&bare), None);

    let no_status = HarvesterLB { metadata: ObjectMeta::default(), status: None };
    assert_eq!(lb_address(&no_status), None);
    assert_eq!(HarvesterLoadBalancerStatus::default().address, None);
}

#[test]
fn test_object_meta_name_any_and_namespace() {
    let mut meta = ObjectMeta::default();
    assert_eq!(meta.name_any(), "");
    assert_eq!(meta.namespace_or_default(), "");
    meta.generate_name = Some("gen-".to_string());
    assert_eq!(meta.name_any(), "gen-");
    meta.name = Some("real".to_string());
    meta.namespace = Some("ns".to_string());
    assert_eq!(meta.name_any(), "real");
    assert_eq!(meta.namespace_or_default(), "ns");
}
