use harvester_dns_controller::config::{Config, DnsBackend};
use harvester_dns_controller::routeros::client::{
    delete_succeeded, first_record, is_success, lookup_response, lookup_status, plan_delete,
    EnsurePlan, LookupStatus, RouterOsClient, RouterOsError,
};
use harvester_dns_controller::routeros::types::{
    routeros_bool_from, routeros_bool_text, RouterOsDnsRecord,
};

fn config() -> Config {
    Config {
        dns_backend: DnsBackend::RouterOs,
        dns_host: "192.168.1.1".to_string(),
        dns_username: "dns-operator".to_string(),
        dns_password: "secret".to_string(),
        dns_use_tls: false,
        dns_tls_verify: false,
        dns_domain: "lab.example.com".to_string(),
        dns_ttl: "15m".to_string(),
        dns_comment_tag: "managed-by=test".to_string(),
        watch_namespaces: "".to_string(),
        dns_use_guest_cluster_label: true,
    }
}

fn record(id: &str, name: &str, address: &str, comment: &str) -> RouterOsDnsRecord {
    RouterOsDnsRecord {
        id: id.to_string(),
        name: name.to_string(),
        address: address.to_string(),
        comment: comment.to_string(),
        ..Default::default()
    }
}

#[test]
fn test_routeros_client_settings_and_urls() {
    let c = RouterOsClient::new(&config());
    assert_eq!(c.base_url, "http://192.168.1.1/rest");
    assert_eq!(c.username, "dns-operator");
    assert_eq!(c.password, "secret");
    assert_eq!(c.comment_tag, "managed-by=test");
    assert!(c.accept_invalid_certs);
    assert_eq!(c.records_url(), "http://192.168.1.1/rest/ip/dns/static");
    assert_eq!(c.record_url("*1A"), "http://192.168.1.1/rest/ip/dns/static/*1A");
    assert_eq!(
        c.any_by_name_url("my vm.lab"),
        "http://192.168.1.1/rest/ip/dns/static?name=my%20vm.lab"
    );
    assert_eq!(
        c.managed_by_name_url("myvm.lab.example.com"),
        "http://192.168.1.1/rest/ip/dns/static?name=myvm.lab.example.com&comment=managed-by%3Dtest"
    );
}

#[test]
fn test_routeros_record_payload() {
    let c = RouterOsClient::new(&config());
    let p = c.record_payload("myvm.lab.example.com", "192.168.1.100", "15m");
    assert_eq!(p.name, "myvm.lab.example.com");
    assert_eq!(p.address, "192.168.1.100");
    assert_eq!(p.ttl, "15m");
    assert_eq!(p.comment, "managed-by=test");
    assert!(p.match_subdomain);
    assert!(p.id.is_empty() && p.disabled.is_empty() && p.record_type.is_empty());
}

#[test]
fn test_routeros_list_managed_records_filters_by_comment() {
    let c = RouterOsClient::new(&config());
    let records = vec![
        record("*1", "a.lab", "10.0.0.1", "managed-by=test"),
        record("*2", "b.lab", "10.0.0.2", "manual"),
        record("*3", "c.lab", "10.0.0.3", "managed-by=test"),
    ];
    let managed = c.managed_records(records);
    let ids: Vec<&str> = managed.iter().map(|r| r.id.as_str()).collect();
    assert_eq!(ids, vec!["*1", "*3"]);
}

#[test]
fn test_routeros_plan_ensure_cases() {
    let c = RouterOsClient::new(&config());
    let ours_same = record("*1", "vm.lab", "10.0.0.1", "managed-by=test");
    assert!(matches!(
        c.plan_ensure(Some(ours_same), "vm.lab", "10.0.0.1", "15m"),
        EnsurePlan::UpToDate
    ));

    let ours_moved = record("*1", "vm.lab", "10.0.0.9", "managed-by=test");
    match c.plan_ensure(Some(ours_moved), "vm.lab", "10.0.0.1", "15m") {
        EnsurePlan::Update { id, payload } => {
            assert_eq!(id, "*1");
            assert_eq!(payload.address, "10.0.0.1");
            assert_eq!(payload.comment, "managed-by=test");
        }
        other => panic!("unexpected plan {:?}", other),
    }

    let foreign = record("*7", "vm.lab", "10.0.0.1", "manual");
    match c.plan_ensure(Some(foreign), "vm.lab", "10.0.0.1", "15m") {
        EnsurePlan::LeaveForeign { id, comment } => {
            assert_eq!(id, "*7");
            assert_eq!(comment, "manual");
        }
        other => panic!("unexpected plan {:?}", other),
    }

    match c.plan_ensure(None, "vm.lab", "10.0.0.1", "15m") {
        EnsurePlan::Create { payload } => {
            assert_eq!(payload.name, "vm.lab");
            assert!(payload.match_subdomain);
        }
        other => panic!("unexpected plan {:?}", other),
    }
}

#[test]
fn test_routeros_stale_records_and_delete_plan() {
    let c = RouterOsClient::new(&config());
    let managed = vec![
        record("*1", "a.lab", "10.0.0.1", "managed-by=test"),
        record("*2", "b.lab", "10.0.0.2", "managed-by=test"),
    ];
    let stale = c.stale_records(&managed, &vec!["a.lab".to_string()]);
    assert_eq!(stale.len(), 1);
    assert_eq!(stale[0].id, "*2");
    assert_eq!(plan_delete(Some(record("*9", "x", "y", "z"))), Some("*9".to_string()));
    assert_eq!(plan_delete(None), None);
    assert_eq!(first_record(managed).map(|r| r.id), Some("*1".to_string()));
    assert!(first_record(vec![]).is_none());
}

#[test]
fn test_routeros_status_handling() {
    assert!(is_success(200) && is_success(299));
    assert!(!is_success(199) && !is_success(300) && !is_success(404));
    assert_eq!(lookup_status(404), LookupStatus::NotFound);
    assert_eq!(lookup_status(200), LookupStatus::Found);
    assert_eq!(lookup_status(500), LookupStatus::Failed);
    assert!(delete_succeeded(204) && delete_succeeded(404));
    assert!(!delete_succeeded(401));
}

#[test]
fn test_routeros_bool_encoding() {
    assert!(routeros_bool_from(Some("true")));
    // "match-subdomain": "true" and "disabled": "true" as RouterOS sends them.
    let match_subdomain = Some("true");
    let disabled = Some("true");
    assert!(routeros_bool_from(match_subdomain) && routeros_bool_from(disabled));
    assert!(!routeros_bool_from(Some("false")));
    assert!(!routeros_bool_from(Some("TRUE")));
    assert!(!routeros_bool_from(None));
    assert_eq!(routeros_bool_text(true), "true");
    assert_eq!(routeros_bool_text(false), "false");
}

#[test]
fn test_routeros_written_record_is_up_to_date() {
    let c = RouterOsClient::new(&config());
    let created = match c.plan_ensure(None, "vm.lab", "10.0.0.1", "15m") {
        EnsurePlan::Create { payload } => payload,
        other => panic!("unexpected plan {:?}", other),
    };
    let mut stored = created.clone();
    stored.id = "*5".to_string();
    assert!(matches!(
        c.plan_ensure(Some(stored), "vm.lab", "10.0.0.1", "15m"),
        EnsurePlan::UpToDate
    ));
}

#[test]
fn test_routeros_list_and_lookup_responses() {
    let c = RouterOsClient::new(&config());
    let records = vec![
        record("*1", "a.lab", "10.0.0.1", "managed-by=test"),
        record("*2", "b.lab", "10.0.0.2", "manual"),
    ];
    let ok = c.list_managed_records(200, "[..]".to_string(), Ok(records.clone())).unwrap();
    assert_eq!(ok.iter().map(|r| r.id.as_str()).collect::<Vec<_>>(), vec!["*1"]);
    match c.list_managed_records(401, "denied".to_string(), Ok(records.clone())) {
        Err(RouterOsError::Status { status, body }) => {
            assert_eq!(status, 401);
            assert_eq!(body, "denied");
        }
        other => panic!("unexpected {:?}", other),
    }
    match c.list_managed_records(200, "{".to_string(), Err("eof".to_string())) {
        Err(RouterOsError::Parse { detail }) => assert_eq!(detail, "eof"),
        other => panic!("unexpected {:?}", other),
    }

    assert!(lookup_response(404, String::new(), Err("x".to_string())).unwrap().is_none());
    let found = lookup_response(200, String::new(), Ok(records)).unwrap();
    assert_eq!(found.map(|r| r.id), Some("*1".to_string()));
    assert!(lookup_response(200, String::new(), Ok(vec![])).unwrap().is_none());
    assert!(matches!(
        lookup_response(500, "boom".to_string(), Ok(vec![])),
        Err(RouterOsError::Status { status: 500, .. })
    ));
    assert!(matches!(
        lookup_response(200, String::new(), Err("bad".to_string())),
        Err(RouterOsError::Parse { .. })
    ));
}
