use harvester_dns_controller::config::{Config, DnsBackend};
use harvester_dns_controller::dns::glinet::client::{
    delete_status, find_host, host_payload, login_token, plan_delete, plan_ensure,
    request_status, GlInetClient, HostPlan, RequestStatus,
};
use harvester_dns_controller::dns::glinet::types::{default_true, GlInetDnsHost, LoginResponse};

fn config() -> Config {
    Config {
        dns_backend: DnsBackend::GlInet,
        dns_host: "192.168.8.1".to_string(),
        dns_username: "admin".to_string(),
        dns_password: "secret".to_string(),
        dns_use_tls: true,
        dns_tls_verify: true,
        dns_domain: "lab.example.com".to_string(),
        dns_ttl: "15m".to_string(),
        dns_comment_tag: "managed-by=test".to_string(),
        watch_namespaces: "".to_string(),
        dns_use_guest_cluster_label: true,
    }
}

fn host(domain: &str, ip: &str) -> GlInetDnsHost {
    GlInetDnsHost { domain: domain.to_string(), ip: ip.to_string(), enabled: true }
}

#[test]
fn test_glinet_client_settings_and_token_cache() {
    let mut c = GlInetClient::new(&config());
    assert_eq!(c.base_url, "https://192.168.8.1");
    assert_eq!(c.password, "secret");
    assert!(!c.accept_invalid_certs);
    assert_eq!(c.login_url(), "https://192.168.8.1/cgi-bin/api/router/login");
    assert_eq!(c.hosts_url(), "https://192.168.8.1/cgi-bin/api/dns/custom_hosts");
    assert_eq!(c.get_token(), None);
    c.store_token("abc123".to_string());
    assert_eq!(c.get_token(), Some("abc123".to_string()));
    c.clear_token();
    assert_eq!(c.get_token(), None);
}

#[test]
fn test_glinet_login_token() {
    let ok = LoginResponse { token: Some("abc123".to_string()), code: 0, msg: String::new() };
    assert_eq!(login_token(ok).ok(), Some("abc123".to_string()));
    let empty = LoginResponse { token: Some(String::new()), code: -1, msg: "bad".to_string() };
    let f = login_token(empty).err().unwrap();
    assert_eq!((f.code, f.msg.as_str()), (-1, "bad"));
    let none = LoginResponse { token: None, code: -2, msg: "denied".to_string() };
    let f = login_token(none).err().unwrap();
    assert_eq!((f.code, f.msg.as_str()), (-2, "denied"));
}

#[test]
fn test_glinet_find_and_plans() {
    let hosts = vec![host("a.lab", "10.0.0.1"), host("b.lab", "10.0.0.2"), host("a.lab", "10.0.0.3")];
    let found = find_host(hosts.clone(), "a.lab");
    assert_eq!(found.as_ref().map(|h| h.ip.as_str()), Some("10.0.0.1"));
    assert!(find_host(hosts.clone(), "c.lab").is_none());
    assert_eq!(plan_ensure(&found, "10.0.0.1"), HostPlan::UpToDate);
    assert_eq!(plan_ensure(&found, "10.0.0.7"), HostPlan::Update);
    assert_eq!(plan_ensure(&None, "10.0.0.7"), HostPlan::Add);
    assert!(plan_delete(&found));
    assert!(!plan_delete(&None));
    let p = host_payload("x.lab", "10.1.1.1");
    assert_eq!((p.domain.as_str(), p.ip.as_str(), p.enabled), ("x.lab", "10.1.1.1", true));
    assert!(default_true());
}

#[test]
fn test_glinet_garbage_collect_reports_only() {
    let c = GlInetClient::new(&config());
    let hosts = vec![host("a.lab", "10.0.0.1"), host("b.lab", "10.0.0.2")];
    let listed = c.list_managed_hosts(hosts.clone());
    assert_eq!(listed.len(), 2);
    let unconfirmed = c.garbage_collect(&hosts, &vec!["a.lab".to_string()]);
    assert_eq!(unconfirmed, vec!["b.lab".to_string()]);
}

#[test]
fn test_glinet_status_handling() {
    assert_eq!(request_status(401), RequestStatus::Unauthorized);
    assert_eq!(request_status(200), RequestStatus::Succeeded);
    assert_eq!(request_status(404), RequestStatus::Failed);
    assert_eq!(delete_status(404), RequestStatus::Succeeded);
    assert_eq!(delete_status(401), RequestStatus::Unauthorized);
    assert_eq!(delete_status(500), RequestStatus::Failed);
}
