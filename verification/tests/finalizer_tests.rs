use harvester_dns_controller::controller::finalizer::{
    has_finalizer, with_finalizer, without_finalizer, FINALIZER,
};
use harvester_dns_controller::kubernetes::{
    NetworkConfigEntry, ObjectMeta, VmNetworkConfig, VmNetworkConfigSpec_,
};

fn make_vmnetcfg(finalizers: Option<Vec<String>>) -> VmNetworkConfig {
    VmNetworkConfig {
        metadata: ObjectMeta {
            name: Some("test-vm".to_string()),
            namespace: Some("default".to_string()),
            finalizers,
            ..Default::default()
        },
        spec: VmNetworkConfigSpec_ {
            vm_name: "test-vm".to_string(),
            network_configs: vec![NetworkConfigEntry {
                mac_address: "00:11:22:33:44:55".to_string(),
                network_name: "default/vlan1".to_string(),
            }],
        },
        status: None,
    }
}

#[test]
fn test_has_finalizer_none() {
    let vmnetcfg = make_vmnetcfg(None);
    assert!(!has_finalizer(&vmnetcfg));
}

#[test]
fn test_has_finalizer_empty() {
    let vmnetcfg = make_vmnetcfg(Some(vec![]));
    assert!(!has_finalizer(&vmnetcfg));
}

#[test]
fn test_has_finalizer_other_finalizer() {
    let vmnetcfg = make_vmnetcfg(Some(vec!["other-finalizer".to_string()]));
    assert!(!has_finalizer(&vmnetcfg));
}

#[test]
fn test_has_finalizer_present() {
    let vmnetcfg = make_vmnetcfg(Some(vec![FINALIZER.to_string()]));
    assert!(has_finalizer(&vmnetcfg));
}

#[test]
fn test_has_finalizer_among_others() {
    let vmnetcfg = make_vmnetcfg(Some(vec![
        "other-finalizer".to_string(),
        FINALIZER.to_string(),
        "another-finalizer".to_string(),
    ]));
    assert!(has_finalizer(&vmnetcfg));
}

#[test]
fn test_finalizer_name() {
    assert_eq!(FINALIZER, "dns.geeko.me/cleanup");
}

#[test]
fn test_with_and_without_finalizer() {
    assert_eq!(with_finalizer(&None), vec![FINALIZER.to_string()]);
    let current = Some(vec!["a".to_string(), "b".to_string()]);
    let added = with_finalizer(&current);
    assert_eq!(added, vec!["a".to_string(), "b".to_string(), FINALIZER.to_string()]);
    assert!(has_finalizer(&make_vmnetcfg(Some(added.clone()))));
    let removed = without_finalizer(&Some(added));
    assert_eq!(removed, vec!["a".to_string(), "b".to_string()]);
    assert!(!has_finalizer(&make_vmnetcfg(Some(removed))));
    assert_eq!(
        without_finalizer(&Some(vec![FINALIZER.to_string(), "x".to_string(), FINALIZER.to_string()])),
        vec!["x".to_string()]
    );
    assert!(without_finalizer(&None).is_empty());
}
