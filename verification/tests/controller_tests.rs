use switchboard_controller::controller::config::ControllerConfig;
use switchboard_controller::controller::resource::tls::file::{discovery_tls_cert_dirs, FileTlsResourceConfig};
use switchboard_controller::controller::resource::tls::k8s::discovery_tls_cert_from_k8s;
use switchboard_controller::controller::link_resolver::{found, link_source, save_target, saved_storage_link, LinkResolveError, LinkSource};
use switchboard_controller::order::{sort_by_text, sorted_unique_texts, text_less};
use switchboard_controller::controller::interface::http::{namespace_cache_fresh, K8sNamespacesResponse};
use switchboard_controller::controller::interface::file_browser::{sort_entries_by_name, visible_children};
use switchboard_controller::controller::config::{KernelConfig, KernelConnectConfig, KernelDiscoveryConfig, KernelDiscoveryUdsConfig};
use switchboard_controller::controller::dir::{config_local_db_path, config_local_db_path_under, data_dir, data_dir_under};
use switchboard_controller::controller::interface::file_browser::{
    build_entry, check_relative_path, directory_has_children, is_hidden, map_entry_type, path_in_allowed_roots,
    EntryMetadata, EntryType, FileBrowserError,
};
use switchboard_controller::controller::interface::http::{BooleanLit, HttpInterfaceConfig, K8sEnvResponse};
use switchboard_controller::controller::interface::{InterfaceConfig, InterfaceManager};
use switchboard_controller::controller::kernel::connection::{TcpTransposeConfig, UdsTransposeConfig};
use switchboard_controller::controller::link_resolver::{Link, LinkParseError, StorageObjectDescriptor};
use switchboard_controller::controller::resolve::{ResolveServiceConfigError, ServiceConfigResolverMeta, ServiceConfigResolverRegistry};
use switchboard_controller::controller::resource::tls::file::{cert_dir_candidate, cert_file_candidate};
use switchboard_controller::controller::resource::tls::k8s::{
    cert_params_from_secret_data, discovered_secret, K8sTlsCertResource, K8sTlsCertResourceError, K8sTlsResourceConfig,
};
use switchboard_controller::controller::resource::tls::unix_local::{system_cert_paths_for, UnixTlsSearchPaths};
use switchboard_controller::controller::run::RunMode;
use switchboard_controller::keyed::KeyedVec;
use switchboard_controller::paths::join_path;
use switchboard_controller::text::{u64_text, i64_text};

fn s(x: &str) -> String {
    x.to_string()
}

#[test]
fn joining_paths() {
    assert_eq!(join_path("/a", "b"), "/a/b");
    assert_eq!(join_path("/a/", "b"), "/a/b");
    assert_eq!(join_path("", "b"), "b");
    assert_eq!(join_path("/a", "/etc"), "/etc");
}

#[test]
fn number_texts() {
    assert_eq!(u64_text(0), "0");
    assert_eq!(u64_text(4194304), "4194304");
    assert_eq!(i64_text(-17), "-17");
}

#[test]
fn kernel_settings() {
    let uds = KernelDiscoveryUdsConfig::in_dir(s("/run/switchboard"));
    assert_eq!(uds.scan_interval_secs, 10);
    assert_eq!(uds.max_frame_size, 1 << 22);
    let connect = KernelConnectConfig::with_heartbeat_interval(5);
    assert_eq!(connect.channel_buffer_size, 32);
    assert_eq!(connect.heartbeat_interval, 5);
    let k = KernelConfig::with_random_key(KernelDiscoveryConfig { uds }, connect);
    assert_eq!(k.psk.len(), 32);
    let k2 = KernelConfig::with_random_key(KernelDiscoveryConfig { uds: KernelDiscoveryUdsConfig::in_dir(s("/r")) },
        KernelConnectConfig::with_heartbeat_interval(5));
    assert_eq!(k2.psk.len(), 32);
    let tcp = TcpTransposeConfig::default();
    assert_eq!(tcp.addr, "[::1]:8056");
    assert_eq!(tcp.max_frame_size, 4194304);
    let u = UdsTransposeConfig::at_path(s("/run/k.sock"));
    assert_eq!(u.max_frame_size, 4194304);
}

#[test]
fn data_directories() {
    assert_eq!(data_dir_under(Some(s("/home/a/.local/share"))), "/home/a/.local/share/switchboard");
    assert_eq!(data_dir_under(None), "/var/lib/switchboard");
    assert_eq!(config_local_db_path_under(None), "/var/lib/switchboard/config.db");
    assert_eq!(config_local_db_path_under(Some(s("/d"))), "/d/switchboard/config.db");
    assert!(data_dir().ends_with("switchboard"));
    assert!(config_local_db_path().ends_with("switchboard/config.db"));
}

#[test]
fn run_modes() {
    assert!(RunMode::K8s.is_k8s());
    assert!(!RunMode::Standalone.is_k8s());
}

#[test]
fn interfaces_start_once() {
    let config = InterfaceConfig { http: Some(HttpInterfaceConfig::default()) };
    let m: InterfaceManager<u8> = InterfaceManager::new();
    assert_eq!(m.http_to_start(&config).unwrap().bind, "0.0.0.0:8056");
    let running = InterfaceManager { http_interface: Some(1u8) };
    assert!(running.http_to_start(&config).is_none());
    assert!(m.http_to_start(&InterfaceConfig { http: None }).is_none());
}

#[test]
fn query_values() {
    assert!(bool::from(BooleanLit::True));
    assert!(!bool::from(BooleanLit::False));
    let env = K8sEnvResponse::from_namespace(Some(s("ns")));
    assert!(env.in_cluster);
    assert!(!K8sEnvResponse::from_namespace(None).in_cluster);
}

#[test]
fn hidden_files() {
    assert!(is_hidden("/a/.git"));
    assert!(!is_hidden("/a/b"));
    assert!(!is_hidden("/"));
    assert!(directory_has_children(&vec![s("/a/.x"), s("/a/y")], false));
    assert!(!directory_has_children(&vec![s("/a/.x")], false));
    assert!(directory_has_children(&vec![s("/a/.x")], true));
    assert!(!directory_has_children(&vec![], true));
}

#[test]
fn entries_from_metadata() {
    assert_eq!(map_entry_type(true, false, false), EntryType::Directory);
    assert_eq!(map_entry_type(false, true, true), EntryType::File);
    assert_eq!(map_entry_type(false, false, true), EntryType::Symlink);
    assert_eq!(map_entry_type(false, false, false), EntryType::Other);
    let meta = EntryMetadata { is_dir: false, is_file: true, is_symlink: false, len: 12, modified_unix_ms: Some(5), readonly: true };
    let e = build_entry("/srv/a.txt", meta, true);
    assert_eq!(e.name, "a.txt");
    assert_eq!(e.size, Some(12));
    assert_eq!(e.has_children, None);
    assert_eq!(e.readonly, Some(true));
    let dir = EntryMetadata { is_dir: true, is_file: false, is_symlink: false, len: 4096, modified_unix_ms: None, readonly: false };
    let d = build_entry("/", dir, false);
    assert_eq!(d.name, "/");
    assert_eq!(d.size, None);
    assert_eq!(d.has_children, Some(false));
}

#[test]
fn browsing_stays_in_allowed_roots() {
    assert!(check_relative_path("/srv", Some("a/b")).is_ok());
    assert!(check_relative_path("/srv", None).is_ok());
    assert!(matches!(check_relative_path("/srv", Some("/etc")), Err(FileBrowserError::PathNotAllowed(p)) if p == "/srv"));
    let roots = vec![s("/data"), s("/srv")];
    assert_eq!(path_in_allowed_roots("/srv", "/srv/a", &roots).unwrap(), "/srv/a");
    assert!(matches!(path_in_allowed_roots("/srv", "/srvx/a", &roots), Err(FileBrowserError::PathNotAllowed(p)) if p == "/srvx/a"));
    assert!(path_in_allowed_roots("/data", "/srv/a", &roots).is_err());
}

#[test]
fn links_read_and_print() {
    match Link::from_str("file:///etc/sb.toml").unwrap() {
        Link::FilePath(p) => assert_eq!(p, "/etc/sb.toml"),
        _ => panic!("expected file"),
    }
    match Link::from_str("storage://cfg#1").unwrap() {
        Link::Storage(d) => assert_eq!(d.descriptor, "cfg#1"),
        _ => panic!("expected storage"),
    }
    assert!(matches!(Link::from_str("http://example.com/a").unwrap(), Link::Http(..)));
    assert!(matches!(Link::from_str("http://exa mple"), Err(LinkParseError::InvalidUri(_))));
    assert_eq!(Link::file_path(s("/x")).to_string(), "file:///x");
    assert_eq!(Link::storage(StorageObjectDescriptor { descriptor: s("d") }).to_string(), "storage://d");
    let round = Link::from_str(&Link::file_path(s("/y")).to_string()).unwrap();
    assert!(matches!(round, Link::FilePath(p) if p == "/y"));
    let uri: http::Uri = "http://example.com/a".parse().unwrap();
    assert_eq!(Link::http(uri).to_string(), "http://example.com/a");
    assert_eq!(Link::from_str("http://example.com/b?q=1").unwrap().to_string(), "http://example.com/b?q=1");
}

#[test]
fn resolver_registry() {
    let reg = ServiceConfigResolverRegistry::prelude(1u8, 2u8);
    assert_eq!(reg.resolve("fs").ok(), Some(&1));
    assert_eq!(reg.resolve("k8s").ok(), Some(&2));
    assert!(matches!(reg.resolve("db"), Err(ResolveServiceConfigError::ResolverNotFound(n)) if n == "db"));
    let metas = reg.list_resolvers();
    assert_eq!(metas.len(), 2);
    assert!(metas.iter().any(|m| m.name == "fs" && m.description.as_deref() == Some("Filesystem-based ServiceConfig resolver")));
    let mut reg2 = ServiceConfigResolverRegistry::new();
    reg2.register_resolver(ServiceConfigResolverMeta { name: s("x"), description: None }, 5u8);
    reg2.register_resolver(ServiceConfigResolverMeta { name: s("x"), description: None }, 6u8);
    assert_eq!(reg2.resolve("x").ok(), Some(&6));
    assert_eq!(reg2.list_resolvers().len(), 1);
}

#[test]
fn tls_secrets() {
    assert_eq!(K8sTlsResourceConfig::default().discovery_from_namespaces, vec![s("switchboard")]);
    let d = K8sTlsCertResource::default();
    assert_eq!((d.secret_name.as_str(), d.namespace.as_str()), ("tls", "default"));
    let (name, res) = discovered_secret("prod", Some(s("site")));
    assert_eq!(name, "k8s://prod/site");
    assert_eq!(res.secret_name, "site");
    let (name, _) = discovered_secret("prod", None);
    assert_eq!(name, "k8s://prod/");
    assert!(matches!(cert_params_from_secret_data(None), Err(K8sTlsCertResourceError::MissingSecretData)));
    let mut data: KeyedVec<String, Vec<u8>> = KeyedVec::new();
    data.insert(s("tls.key"), vec![1, 2]);
    assert!(matches!(cert_params_from_secret_data(Some(&data)), Err(K8sTlsCertResourceError::MissingCert)));
    let mut only_cert: KeyedVec<String, Vec<u8>> = KeyedVec::new();
    only_cert.insert(s("tls.crt"), vec![3]);
    assert!(matches!(cert_params_from_secret_data(Some(&only_cert)), Err(K8sTlsCertResourceError::MissingKey)));
    data.insert(s("tls.crt"), vec![3, 4]);
    let p = cert_params_from_secret_data(Some(&data)).unwrap();
    assert_eq!(p.certs, vec![vec![3, 4]]);
    assert_eq!(p.key, vec![1, 2]);
    assert!(p.ocsp.is_none());
}

#[test]
fn certificate_files() {
    let (name, res) = cert_file_candidate("/etc/tls", "/etc/tls/site.cert.pem").unwrap();
    assert_eq!(name, "site");
    assert_eq!(res.key_path, "/etc/tls/site.key.pem");
    assert!(cert_file_candidate("/etc/tls", "/etc/tls/site.pem").is_none());
    let (name, res) = cert_dir_candidate("/etc/tls/site");
    assert_eq!(name, Some(s("site")));
    assert_eq!(res.cert_path, "/etc/tls/site/cert.pem");
    assert_eq!(res.key_path, "/etc/tls/site/key.pem");
}

#[test]
fn unix_certificate_places() {
    let p = UnixTlsSearchPaths::with_user_dirs(Some(s("/home/a")), Some(s("/home/a/.config")));
    assert_eq!(p.user_cert_paths, vec![s("/home/a/.ssl"), s("/home/a/.certs"), s("/home/a/.config/switchboard/certs")]);
    assert_eq!(p.system_ca_paths.len(), 5);
    assert_eq!(p.app_cert_paths[1], "/etc/letsencrypt/live");
    let none = UnixTlsSearchPaths::with_user_dirs(None, None);
    assert!(none.user_cert_paths.is_empty());
    let (le, local) = p.certificate_candidates("example.com");
    assert_eq!(le.cert_path, "/etc/letsencrypt/live/example.com/fullchain.pem");
    assert_eq!(le.key_path, "/etc/letsencrypt/live/example.com/privkey.pem");
    assert_eq!(local.len(), 4);
    assert_eq!(local[0].cert_path, "/etc/switchboard/certs/example.com.crt");
    assert_eq!(local[0].key_path, "/etc/switchboard/certs/example.com.key");
    assert_eq!(local[0].source, "local");
    assert_eq!(UnixTlsSearchPaths::new().system_ca_paths[0], "/etc/ssl/certs");
    assert_eq!(system_cert_paths_for("NAME=\"CentOS Linux\""), vec![s("/etc/pki/tls/certs"), s("/etc/pki/tls/private")]);
    assert_eq!(system_cert_paths_for("NAME=Ubuntu"), vec![s("/etc/ssl/certs"), s("/etc/ssl/private")]);
    assert_eq!(system_cert_paths_for("NAME=Alpine"), vec![s("/etc/ssl/certs"), s("/etc/ssl/private")]);
    assert_eq!(system_cert_paths_for(""), vec![s("/etc/ssl/certs"), s("/etc/ssl/private")]);
}

#[test]
fn text_order_and_sorting() {
    assert!(text_less("a", "b"));
    assert!(text_less("ab", "abc"));
    assert!(!text_less("abc", "ab"));
    assert!(!text_less("x", "x"));
    assert!(text_less("B", "a"));
    let sorted = sort_by_text(vec![s("pear"), s("apple"), s("fig"), s("apple")]);
    assert_eq!(sorted, vec![s("apple"), s("apple"), s("fig"), s("pear")]);
    let unique = sorted_unique_texts(vec![s("kube-system"), s("default"), s("kube-system"), s("apps")]);
    assert_eq!(unique, vec![s("apps"), s("default"), s("kube-system")]);
    assert!(sorted_unique_texts(vec![]).is_empty());
}

#[test]
fn namespaces_and_cache() {
    let r = K8sNamespacesResponse::from_names(vec![s("b"), s("a"), s("b")]);
    assert_eq!(r.namespaces, vec![s("a"), s("b")]);
    assert!(namespace_cache_fresh(30000));
    assert!(!namespace_cache_fresh(30001));
}

#[test]
fn children_shown_and_sorted() {
    assert_eq!(visible_children(vec![s("/d/.git"), s("/d/b"), s("/d/a")], false), vec![s("/d/b"), s("/d/a")]);
    assert_eq!(visible_children(vec![s("/d/.git"), s("/d/b")], true).len(), 2);
    let meta = EntryMetadata { is_dir: false, is_file: true, is_symlink: false, len: 1, modified_unix_ms: None, readonly: false };
    let sorted = sort_entries_by_name(vec![build_entry("/d/b", meta, false), build_entry("/d/a", meta, false)]);
    assert_eq!(sorted[0].name, "a");
    assert_eq!(sorted[1].name, "b");
}

#[test]
fn link_sources_and_saving() {
    assert!(matches!(link_source(Link::file_path(s("/a"))), Ok(LinkSource::File(p)) if p == "/a"));
    assert!(matches!(link_source(Link::storage(StorageObjectDescriptor { descriptor: s("x#1") })),
        Ok(LinkSource::Storage(d)) if d.descriptor == "x#1"));
    let uri: http::Uri = "http://h/x".parse().unwrap();
    assert!(matches!(link_source(Link::http(uri)), Err(LinkResolveError::NoImplementation { .. })));
    assert_eq!(found(Link::file_path(s("/a")), Some(5)).unwrap(), 5);
    assert!(matches!(found::<u8>(Link::file_path(s("/a")), None), Err(LinkResolveError::NotFound { link: Link::FilePath(p) }) if p == "/a"));
    assert!(matches!(save_target("file:///etc/x.toml"), Ok(LinkSource::File(p)) if p == "/etc/x.toml"));
    assert!(matches!(save_target("storage://cfg"), Ok(LinkSource::Storage(d)) if d.descriptor == "cfg"));
    assert!(matches!(save_target("http://h/x"), Err(LinkResolveError::NoImplementation { .. })));
    assert!(matches!(save_target("http://bad uri"), Err(LinkResolveError::LinkParseError(_))));
    assert_eq!(saved_storage_link("cfg", "3"), "storage://cfg#3");
}

#[test]
fn config_defaults_and_tls_discovery_guards() {
    let kernel = KernelConfig::with_random_key(
        KernelDiscoveryConfig { uds: KernelDiscoveryUdsConfig::in_dir(s("/run/sb")) },
        KernelConnectConfig::with_heartbeat_interval(5),
    );
    let c = ControllerConfig::with_kernel(kernel);
    assert!(c.info.name.is_none());
    assert!(c.interface.http.is_none());
    assert!(c.resource_config.gateway.k8s.is_none());
    assert_eq!(c.kernel.psk.len(), 32);
    assert!(discovery_tls_cert_dirs(None).is_empty());
    let fc = FileTlsResourceConfig { discovery_from_dirs: vec![s("/a"), s("/b")] };
    assert_eq!(discovery_tls_cert_dirs(Some(&fc)), vec![s("/a"), s("/b")]);
    let kc = K8sTlsResourceConfig::default();
    assert_eq!(discovery_tls_cert_from_k8s(None, None).unwrap().len(), 0);
    assert!(matches!(discovery_tls_cert_from_k8s(Some(&kc), None), Err(K8sTlsCertResourceError::NoK8sClient)));
    let found = discovery_tls_cert_from_k8s(
        Some(&kc),
        Some(vec![(s("ns"), Some(s("a"))), (s("ns"), None), (s("ns"), Some(s("a")))]),
    ).unwrap();
    assert_eq!(found.len(), 2);
    assert_eq!(found.get(&s("k8s://ns/a")).unwrap().secret_name, "a");
    assert_eq!(found.get(&s("k8s://ns/")).unwrap().namespace, "ns");
}
