use switchboard_controller::controller::kernel::{kernel_states, KernelConnectionAndState};
use switchboard_controller::controller::kernel::connection::{update_config_outcome, KernelGrpcConnectionError};
use switchboard_controller::controller::kernel::discovery::k8s::{
    build_service_endpoint, candidate_endpoint, kernels_by_id, sbk_label_selector, selected_service_port, K8sServicePort,
};
use switchboard_controller::controller::kernel::discovery::local::is_kernel_run_file;
use switchboard_controller::controller::kernel::discovery::{
    any_failed, record_kernel_socket, refresh_kernels, succeeded_kernels, update_config, KernelDiscoveryError,
    RolloutAction, RolloutPhase, RolloutStatus,
};
use switchboard_controller::controller::kernel::{
    dedup_kernel_addrs, KernelAddr, KernelAddrParseError, KernelHandle, KernelManager,
};
use switchboard_controller::keyed::KeyedVec;

fn grpc(s: &str) -> KernelAddr {
    KernelAddr::Grpc(s.to_string())
}

fn texts(addrs: &[KernelAddr]) -> Vec<String> {
    addrs.iter().map(|a| a.to_string()).collect()
}

#[test]
fn kernel_addr_reads_unix_socket() {
    let a = KernelAddr::from_str("unix:///run/sbk.sock").unwrap();
    assert!(matches!(&a, KernelAddr::Uds(p) if p == "/run/sbk.sock"));
    assert_eq!(a.to_string(), "unix:///run/sbk.sock");
    let b = KernelAddr::from_str("uds:///tmp/k.sock").unwrap();
    assert!(matches!(&b, KernelAddr::Uds(p) if p == "/tmp/k.sock"));
}

#[test]
fn kernel_addr_reads_grpc_endpoints() {
    for text in ["grpc://10.0.0.1:9000", "http://10.0.0.1:9000", "https://10.0.0.1:9000"] {
        let a = KernelAddr::from_str(text).unwrap();
        assert!(matches!(&a, KernelAddr::Grpc(e) if e == "10.0.0.1:9000"));
        assert_eq!(a.to_string(), "10.0.0.1:9000");
    }
}

#[test]
fn kernel_addr_refuses_unknown_scheme() {
    match KernelAddr::from_str("ftp://host") {
        Err(KernelAddrParseError::UnknownFormat { format }) => assert_eq!(format, "ftp"),
        other => panic!("unexpected {:?}", other),
    }
}

#[test]
fn kernel_addr_needs_a_scheme() {
    assert!(matches!(KernelAddr::from_str("localhost:9000"), Err(KernelAddrParseError::NoScheme)));
}

#[test]
fn unix_address_text_reads_back() {
    let a = KernelAddr::Uds("/var/run/switchboard/a.sock".to_string());
    let back = KernelAddr::from_str(&a.to_string()).unwrap();
    assert!(a.same_as(&back));
}

#[test]
fn manager_tracks_inserts_and_removals() {
    let mut m: KernelManager<u32> = KernelManager::new();
    m.insert(KernelHandle::new_connected(grpc("a:1"), 7));
    m.insert(KernelHandle::new_disconnected(grpc("b:1")));
    assert!(m.contains_key(&grpc("a:1")));
    assert!(m.is_connected(&grpc("a:1")));
    assert!(!m.is_connected(&grpc("b:1")));
    assert_eq!(m.addrs().len(), 2);
    m.disconnect_kernel(&grpc("a:1"));
    assert!(m.contains_key(&grpc("a:1")));
    assert!(!m.is_connected(&grpc("a:1")));
    m.remove_kernel(&grpc("a:1"));
    assert!(!m.contains_key(&grpc("a:1")));
    assert!(m.contains_key(&grpc("b:1")));
}

#[test]
fn manager_insert_replaces_same_address() {
    let mut m: KernelManager<u32> = KernelManager::new();
    m.insert(KernelHandle::new_disconnected(grpc("a:1")));
    m.insert(KernelHandle::new_connected(grpc("a:1"), 1));
    assert_eq!(m.addrs().len(), 1);
    assert!(m.is_connected(&grpc("a:1")));
}

#[test]
fn handle_gives_its_connection() {
    let h = KernelHandle::new_connected(grpc("a:1"), 42u32);
    assert!(h.is_connected());
    assert_eq!(h.get_connected_handle(), Some(&42));
    let d: KernelHandle<u32> = KernelHandle::new_disconnected(grpc("a:1"));
    assert!(!d.is_connected());
    assert_eq!(d.get_connected_handle(), None);
}

#[test]
fn dispatch_reports_kernels_without_connection() {
    let mut m: KernelManager<u32> = KernelManager::new();
    m.insert(KernelHandle::new_connected(grpc("a:1"), 1));
    m.insert(KernelHandle::new_disconnected(grpc("b:1")));
    let d = m.prepare_config_for(&[grpc("a:1"), grpc("b:1"), grpc("c:1")]);
    assert_eq!(texts(&d.calls), vec!["a:1"]);
    assert_eq!(d.results.len(), 2);
    for (_, r) in &d.results {
        assert!(matches!(r, Err(KernelGrpcConnectionError::KernelNotConnected)));
    }
}

#[test]
fn commit_dispatch_dedups_addresses() {
    let mut m: KernelManager<u32> = KernelManager::new();
    m.insert(KernelHandle::new_connected(grpc("a:1"), 1));
    let d = m.commit_config_for(&[grpc("a:1"), grpc("a:1")]);
    assert_eq!(texts(&d.calls), vec!["a:1"]);
    assert!(d.results.is_empty());
}

#[test]
fn abort_dispatch_keeps_duplicates() {
    let mut m: KernelManager<u32> = KernelManager::new();
    m.insert(KernelHandle::new_connected(grpc("a:1"), 1));
    let d = m.abort_config_for(&[grpc("a:1"), grpc("a:1")]);
    assert_eq!(texts(&d.calls), vec!["a:1", "a:1"]);
}

#[test]
fn dedup_keeps_first_occurrences() {
    let r = dedup_kernel_addrs(&[grpc("b:1"), grpc("a:1"), grpc("b:1"), grpc("c:1"), grpc("a:1")]);
    assert_eq!(texts(&r), vec!["b:1", "a:1", "c:1"]);
}

#[test]
fn refresh_adds_new_and_drops_lost_kernels() {
    let mut m: KernelManager<u32> = KernelManager::new();
    m.insert(KernelHandle::new_connected(grpc("a:1"), 1));
    m.insert(KernelHandle::new_connected(grpc("b:1"), 2));
    let plan = refresh_kernels(&m, &[grpc("b:1"), grpc("c:1"), grpc("c:1")]);
    assert_eq!(texts(&plan.to_add), vec!["c:1"]);
    assert_eq!(texts(&plan.to_remove), vec!["a:1"]);
    m.apply_refresh(&plan.to_remove, vec![KernelHandle::new_disconnected(grpc("c:1"))]);
    let mut now = texts(&m.addrs());
    now.sort();
    assert_eq!(now, vec!["b:1", "c:1"]);
    let kept = m.get(&grpc("b:1")).unwrap();
    assert_eq!(kept.get_connected_handle(), Some(&2));
    assert!(!m.get(&grpc("c:1")).unwrap().is_connected());
}

fn failed() -> Result<(), KernelGrpcConnectionError> {
    Err(KernelGrpcConnectionError::GrpcRequestError("boom".to_string()))
}

#[test]
fn results_helpers() {
    let rs = vec![(grpc("a:1"), Ok(())), (grpc("b:1"), failed()), (grpc("c:1"), Ok(()))];
    assert!(any_failed(&rs));
    assert_eq!(texts(&succeeded_kernels(&rs)), vec!["a:1", "c:1"]);
    assert!(!any_failed(&vec![(grpc("a:1"), Ok(()))]));
}

#[test]
fn rollout_succeeds_when_every_kernel_prepares_and_commits() {
    let (r, a) = update_config("v2".to_string(), Some("v1".to_string()));
    let txn = match a {
        RolloutAction::PrepareAll { transaction_id } => transaction_id,
        _ => panic!("expected prepare"),
    };
    assert_eq!(txn, r.transaction_id);
    let (r, a) = r.step(vec![(grpc("a:1"), Ok(())), (grpc("b:1"), Ok(()))]);
    match a {
        RolloutAction::CommitAll { transaction_id, version } => {
            assert_eq!(transaction_id, txn);
            assert_eq!(version, "v2");
        },
        _ => panic!("expected commit"),
    }
    let (_, a) = r.step(vec![(grpc("a:1"), Ok(())), (grpc("b:1"), Ok(()))]);
    match a {
        RolloutAction::Finish { report, adopt_new_config } => {
            assert!(adopt_new_config);
            assert!(report.all_or_nothing);
            assert!(matches!(report.status, RolloutStatus::Succeeded));
            assert_eq!(report.prepare_results.len(), 2);
            assert_eq!(report.commit_results.len(), 2);
            assert!(report.rollback_transaction_id.is_none());
        },
        _ => panic!("expected finish"),
    }
}

#[test]
fn rollout_aborts_prepared_kernels_when_a_prepare_fails() {
    let (r, _) = update_config("v2".to_string(), None);
    let (r, a) = r.step(vec![(grpc("a:1"), Ok(())), (grpc("b:1"), failed())]);
    match a {
        RolloutAction::AbortFor { kernel_addrs, .. } => assert_eq!(texts(&kernel_addrs), vec!["a:1"]),
        _ => panic!("expected abort"),
    }
    let (_, a) = r.step(vec![(grpc("a:1"), Ok(()))]);
    match a {
        RolloutAction::Finish { report, adopt_new_config } => {
            assert!(!adopt_new_config);
            assert!(matches!(report.status, RolloutStatus::Failed { phase: RolloutPhase::Prepare }));
            assert!(report.commit_results.is_empty());
            assert_eq!(report.abort_results.len(), 1);
        },
        _ => panic!("expected finish"),
    }
}

#[test]
fn rollout_rolls_back_committed_kernels_when_a_commit_fails() {
    let (r, _) = update_config("v2".to_string(), Some("v1".to_string()));
    let (r, _) = r.step(vec![(grpc("a:1"), Ok(())), (grpc("b:1"), Ok(()))]);
    let (r, a) = r.step(vec![(grpc("a:1"), Ok(())), (grpc("b:1"), failed())]);
    match a {
        RolloutAction::AbortFor { kernel_addrs, .. } => assert_eq!(texts(&kernel_addrs), vec!["a:1", "b:1"]),
        _ => panic!("expected abort"),
    }
    let (r, a) = r.step(vec![(grpc("a:1"), Ok(())), (grpc("b:1"), Ok(()))]);
    let rollback_txn = match a {
        RolloutAction::PrepareFor { transaction_id, kernel_addrs } => {
            assert!(transaction_id.ends_with("-rollback"));
            assert_eq!(texts(&kernel_addrs), vec!["a:1"]);
            transaction_id
        },
        _ => panic!("expected rollback prepare"),
    };
    let (r, a) = r.step(vec![(grpc("a:1"), Ok(()))]);
    match a {
        RolloutAction::CommitFor { transaction_id, version, kernel_addrs } => {
            assert_eq!(transaction_id, rollback_txn);
            assert_eq!(version, "v1");
            assert_eq!(texts(&kernel_addrs), vec!["a:1"]);
        },
        _ => panic!("expected rollback commit"),
    }
    let (_, a) = r.step(vec![(grpc("a:1"), Ok(()))]);
    match a {
        RolloutAction::Finish { report, adopt_new_config } => {
            assert!(!adopt_new_config);
            assert!(matches!(report.status, RolloutStatus::Failed { phase: RolloutPhase::Commit }));
            assert_eq!(report.rollback_transaction_id, Some(rollback_txn));
        },
        _ => panic!("expected finish"),
    }
}

#[test]
fn rollout_without_previous_config_ends_after_commit_abort() {
    let (r, _) = update_config("v2".to_string(), None);
    let (r, _) = r.step(vec![(grpc("a:1"), Ok(()))]);
    let (r, _) = r.step(vec![(grpc("a:1"), failed())]);
    let (_, a) = r.step(vec![(grpc("a:1"), Ok(()))]);
    match a {
        RolloutAction::Finish { report, adopt_new_config } => {
            assert!(!adopt_new_config);
            assert!(matches!(report.status, RolloutStatus::Failed { phase: RolloutPhase::Commit }));
            assert!(report.rollback_transaction_id.is_none());
        },
        _ => panic!("expected finish"),
    }
}

#[test]
fn rollout_reports_failed_rollback_prepare() {
    let (r, _) = update_config("v2".to_string(), Some("v1".to_string()));
    let (r, _) = r.step(vec![(grpc("a:1"), Ok(()))]);
    let (r, _) = r.step(vec![(grpc("a:1"), failed())]);
    let (r, _) = r.step(vec![(grpc("a:1"), Ok(()))]);
    let (r, a) = r.step(vec![(grpc("a:1"), failed())]);
    assert!(matches!(a, RolloutAction::AbortFor { .. }));
    let (_, a) = r.step(vec![]);
    match a {
        RolloutAction::Finish { report, .. } => {
            assert!(matches!(report.status, RolloutStatus::Failed { phase: RolloutPhase::RollbackPrepare }));
        },
        _ => panic!("expected finish"),
    }
}

#[test]
fn phase_names() {
    assert_eq!(RolloutPhase::Prepare.name(), "prepare");
    assert_eq!(RolloutPhase::Commit.name(), "commit");
    assert_eq!(RolloutPhase::RollbackPrepare.name(), "rollback_prepare");
    assert_eq!(RolloutPhase::RollbackCommit.name(), "rollback_commit");
}

#[test]
fn kernel_sockets_are_named_by_stem() {
    let mut m: KeyedVec<String, KernelAddr> = KeyedVec::new();
    record_kernel_socket(&mut m, "/var/run/switchboard/k1.sock".to_string()).unwrap();
    assert!(matches!(m.get(&"k1".to_string()), Some(KernelAddr::Uds(p)) if p == "/var/run/switchboard/k1.sock"));
    let r = record_kernel_socket(&mut m, "/".to_string());
    assert!(matches!(r, Err(KernelDiscoveryError::SocketWithoutFileStem(p)) if p == "/"));
    assert_eq!(m.len(), 1);
    record_kernel_socket(&mut m, "/run/a.b.sock".to_string()).unwrap();
    record_kernel_socket(&mut m, "/run/.hidden".to_string()).unwrap();
    assert!(m.get(&"a.b".to_string()).is_some());
    assert!(m.get(&".hidden".to_string()).is_some());
    assert_eq!(m.len(), 3);
}

#[test]
fn local_kernels_announce_with_run_files() {
    assert!(is_kernel_run_file("/var/run/switchboard/k1.run"));
    assert!(!is_kernel_run_file("/var/run/switchboard/k1.json"));
    assert!(!is_kernel_run_file("/var/run/switchboard/run"));
    assert!(!is_kernel_run_file("/var/run/switchboard/.run"));
    assert!(is_kernel_run_file("/var/run/switchboard/.k1.run"));
    assert!(is_kernel_run_file("/var/run/switchboard/a.b.run"));
    assert!(!is_kernel_run_file("/var/run/switchboard/k1.run."));
}

#[test]
fn k8s_discovery_texts() {
    assert_eq!(sbk_label_selector(), "app.kubernetes.io/name=sbk,switchboard.rs/discovery=enabled");
    assert_eq!(build_service_endpoint("sbk", "edge", 8080), "grpc://sbk.edge.svc:8080");
}

fn port(name: Option<&str>, p: i32) -> K8sServicePort {
    K8sServicePort { name: name.map(|s| s.to_string()), port: p }
}

#[test]
fn service_port_prefers_grpc_port() {
    let ports = vec![port(Some("http"), 80), port(Some("grpc"), 9000), port(Some("grpc"), 9001)];
    assert_eq!(selected_service_port(Some(&ports), 1), 9000);
    let ports = vec![port(None, 81), port(Some("http"), 80)];
    assert_eq!(selected_service_port(Some(&ports), 1), 81);
    assert_eq!(selected_service_port(Some(&vec![]), 1), 1);
    assert_eq!(selected_service_port(None, 1), 1);
    let ports = vec![port(Some("grpc"), 70000), port(None, 80)];
    assert_eq!(selected_service_port(Some(&ports), 1), 1);
}

#[test]
fn candidate_needs_a_namespace() {
    assert_eq!(candidate_endpoint("sbk", None, None, 1), None);
    assert_eq!(candidate_endpoint("sbk", Some("ns"), None, 7), Some("grpc://sbk.ns.svc:7".to_string()));
    let ports = vec![port(Some("http"), 80), port(Some("grpc"), 9000)];
    assert_eq!(candidate_endpoint("sbk", Some("ns"), Some(&ports), 7), Some("grpc://sbk.ns.svc:9000".to_string()));
}

#[test]
fn update_replies() {
    assert!(update_config_outcome(Some(Ok(()))).is_ok());
    assert!(matches!(update_config_outcome(Some(Err("bad".to_string()))),
        Err(KernelGrpcConnectionError::UpdateConfigError(m)) if m == "bad"));
    assert!(matches!(update_config_outcome(None),
        Err(KernelGrpcConnectionError::GrpcRequestError(m)) if m == "Kernel returned empty result on config update"));
}

#[test]
fn kernel_states_by_address() {
    let mut m: KernelManager<u32> = KernelManager::new();
    m.insert(KernelHandle::new_connected(grpc("a:1"), 1));
    m.insert(KernelHandle::new_disconnected(grpc("b:1")));
    m.insert(KernelHandle::new_connected(grpc("c:1"), 3));
    let d = m.get_kernel_states();
    let mut calls = texts(&d.calls);
    calls.sort();
    assert_eq!(calls, vec!["a:1", "c:1"]);
    assert_eq!(d.results.len(), 1);
    let disconnected: Vec<KernelAddr> = d.results.into_iter().map(|(a, _)| a).collect();
    let states = kernel_states(disconnected, vec![(grpc("a:1"), Ok(7u8)), (grpc("c:1"), Err("timeout".to_string()))]);
    assert_eq!(states.len(), 3);
    assert!(matches!(states.get(&grpc("b:1")), Some(KernelConnectionAndState::Disconnected)));
    assert!(matches!(states.get(&grpc("a:1")), Some(KernelConnectionAndState::Connected(7))));
    assert!(matches!(states.get(&grpc("c:1")), Some(KernelConnectionAndState::FetchError(e)) if e == "timeout"));
}

#[test]
fn k8s_kernels_keyed_by_reported_id() {
    let answers = vec![
        ("grpc://a.ns.svc:1".to_string(), Some("k1".to_string())),
        ("grpc://b.ns.svc:1".to_string(), None),
        ("grpc://c.ns.svc:1".to_string(), Some("k1".to_string())),
        ("grpc://d.ns.svc:1".to_string(), Some("k2".to_string())),
    ];
    let m = kernels_by_id(answers);
    assert_eq!(m.len(), 2);
    assert!(matches!(m.get(&"k1".to_string()), Some(KernelAddr::Grpc(e)) if e == "grpc://c.ns.svc:1"));
    assert!(matches!(m.get(&"k2".to_string()), Some(KernelAddr::Grpc(e)) if e == "grpc://d.ns.svc:1"));
}
