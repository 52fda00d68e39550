use harvester_dns_controller::config::{
    default_comment_tag, default_dns_host, default_dns_username, default_tls, default_tls_verify,
    default_ttl, default_use_guest_cluster_label, Config, DnsBackend,
};

fn test_config() -> Config {
    Config {
        dns_backend: DnsBackend::RouterOs,
        dns_host: "192.168.1.1".to_string(),
        dns_username: "admin".to_string(),
        dns_password: "secret".to_string(),
        dns_use_tls: true,
        dns_tls_verify: true,
        dns_domain: "lab.example.com".to_string(),
        dns_ttl: "15m".to_string(),
        dns_comment_tag: "managed-by=test".to_string(),
        watch_namespaces: "".to_string(),
        dns_use_guest_cluster_label: true,
    }
}

#[test]
fn test_dns_backend_from_str() {
    assert_eq!("routeros".parse::<DnsBackend>().unwrap(), DnsBackend::RouterOs);
    assert_eq!("ros".parse::<DnsBackend>().unwrap(), DnsBackend::RouterOs);
    assert_eq!("mikrotik".parse::<DnsBackend>().unwrap(), DnsBackend::RouterOs);
    assert_eq!("glinet".parse::<DnsBackend>().unwrap(), DnsBackend::GlInet);
    assert_eq!("gl-inet".parse::<DnsBackend>().unwrap(), DnsBackend::GlInet);
    assert!("invalid".parse::<DnsBackend>().is_err());
}

#[test]
fn test_fqdn_for_lowercase() {
    let config = test_config();
    assert_eq!(config.fqdn_for("my-vm"), "my-vm.lab.example.com");
}

#[test]
fn test_fqdn_for_uppercase_converted() {
    let config = test_config();
    assert_eq!(config.fqdn_for("MyVM"), "myvm.lab.example.com");
}

#[test]
fn test_dns_base_url_routeros_https() {
    let config = test_config();
    assert_eq!(config.dns_base_url(), "https://192.168.1.1/rest");
}

#[test]
fn test_dns_base_url_routeros_http() {
    let mut config = test_config();
    config.dns_use_tls = false;
    assert_eq!(config.dns_base_url(), "http://192.168.1.1/rest");
}

#[test]
fn test_dns_base_url_glinet_https() {
    let mut config = test_config();
    config.dns_backend = DnsBackend::GlInet;
    config.dns_use_tls = true;
    assert_eq!(config.dns_base_url(), "https://192.168.1.1");
}

#[test]
fn test_dns_base_url_glinet_http() {
    let mut config = test_config();
    config.dns_backend = DnsBackend::GlInet;
    config.dns_use_tls = false;
    assert_eq!(config.dns_base_url(), "http://192.168.1.1");
}

#[test]
fn test_namespaces_empty() {
    let config = test_config();
    assert!(config.namespaces().is_empty());
}

#[test]
fn test_namespaces_single() {
    let mut config = test_config();
    config.watch_namespaces = "default".to_string();
    assert_eq!(config.namespaces(), vec!["default"]);
}

#[test]
fn test_namespaces_multiple() {
    let mut config = test_config();
    config.watch_namespaces = "default, kube-system, harvester".to_string();
    assert_eq!(
        config.namespaces(),
        vec!["default", "kube-system", "harvester"]
    );
}

#[test]
fn test_namespaces_with_empty_entries() {
    let mut config = test_config();
    config.watch_namespaces = "default,,kube-system, ".to_string();
    assert_eq!(config.namespaces(), vec!["default", "kube-system"]);
}

#[test]
fn test_dns_backend_parse_ignores_case_and_reports_unknown() {
    assert_eq!(DnsBackend::parse_name("RouterOS"), Ok(DnsBackend::RouterOs));
    assert_eq!(DnsBackend::parse_name("GL.iNet"), Ok(DnsBackend::GlInet));
    assert_eq!(
        DnsBackend::parse_name("Bind9"),
        Err("Unknown DNS backend: Bind9".to_string())
    );
}

#[test]
fn test_dns_backend_display_names_parse_back() {
    for b in [DnsBackend::RouterOs, DnsBackend::GlInet] {
        assert_eq!(DnsBackend::parse_name(b.display_name()), Ok(b));
    }
    assert_eq!(DnsBackend::RouterOs.display_name(), "routeros");
    assert_eq!(DnsBackend::GlInet.display_name(), "glinet");
    assert_eq!(DnsBackend::default(), DnsBackend::RouterOs);
}

#[test]
fn test_namespaces_trims_tabs_and_keeps_inner_spaces() {
    let mut config = test_config();
    config.watch_namespaces = "\tteam a ,\n, b".to_string();
    assert_eq!(config.namespaces(), vec!["team a", "b"]);
    config.watch_namespaces = " , ,".to_string();
    assert!(config.namespaces().is_empty());
}

#[test]
fn test_fqdn_for_unicode_lowercase() {
    let config = test_config();
    assert_eq!(config.fqdn_for("ÄBC"), "äbc.lab.example.com");
}

#[test]
fn test_config_defaults() {
    assert_eq!(default_dns_host(), "192.168.1.1");
    assert_eq!(default_dns_username(), "admin");
    assert!(default_tls());
    assert!(default_tls_verify());
    assert_eq!(default_ttl(), "15m");
    assert_eq!(default_comment_tag(), "managed-by=harvester-dns-controller");
    assert!(default_use_guest_cluster_label());
}

#[test]
fn test_namespaces_trims_unicode_white_space() {
    let mut config = test_config();
    config.watch_namespaces = "\u{3000}team\u{00A0},\u{2028}".to_string();
    assert_eq!(config.namespaces(), vec!["team"]);
}
