use switchboard_controller::cli::sb::{CommandStep, Commands, Context, Error, Workspace};
use switchboard_controller::cli::sbc::{
    is_in_k8s, record_socket, CliArgs, CliSubCommand, CliSubCommandConfig, SbkDiscoveryError, SbkInstance,
};
use switchboard_controller::cli::sbk::{is_plugin_library, plugin_dir};
use switchboard_controller::keyed::KeyedVec;

fn s(x: &str) -> String {
    x.to_string()
}

#[test]
fn workspace_files() {
    let w = Workspace::new(s("/srv/sb"));
    assert_eq!(w.kernel_config_path(), "/srv/sb/kernel.toml");
    assert_eq!(w.service_config_path(), "/srv/sb/config.toml");
    assert_eq!(w.run_file(), "/srv/sb/.run");
    assert_eq!(w.pid_file(), "/srv/sb/.pid");
    let w = Workspace::new(s("/srv/sb/"));
    assert_eq!(w.pid_file(), "/srv/sb/.pid");
    let w = Workspace::new(s(""));
    assert_eq!(w.pid_file(), ".pid");
}

fn context() -> Context {
    Context::new(s("/usr/bin/sbk"), Workspace::new(s("/srv/sb")))
}

#[test]
fn config_command_points_kernel_at_file() {
    let steps = context().exec(Commands::Config { config: s("/etc/sb/config.toml") }).unwrap();
    assert_eq!(steps.len(), 1);
    match &steps[0] {
        CommandStep::ResetServiceConfig { kernel_config, link } => {
            assert_eq!(kernel_config, "/srv/sb/kernel.toml");
            assert_eq!(link, &Some(s("file:///etc/sb/config.toml")));
        },
        _ => panic!("expected reset"),
    }
}

#[test]
fn reload_and_shutdown_signal_the_kernel() {
    let steps = context().exec(Commands::Reload { config: None }).unwrap();
    assert_eq!(steps.len(), 1);
    assert!(matches!(&steps[0], CommandStep::Signal { pid_file, signal } if pid_file == "/srv/sb/.pid" && signal == "-1"));
    let steps = context().exec(Commands::Reload { config: Some(s("c.toml")) }).unwrap();
    assert_eq!(steps.len(), 2);
    assert!(matches!(&steps[0], CommandStep::ResetServiceConfig { link: Some(l), .. } if l == "file://c.toml"));
    assert!(matches!(&steps[1], CommandStep::Signal { signal, .. } if signal == "-1"));
    let steps = context().exec(Commands::Shutdown).unwrap();
    assert!(matches!(&steps[0], CommandStep::Signal { signal, .. } if signal == "-9"));
}

#[test]
fn start_spawns_and_status_is_unimplemented() {
    let steps = context().exec(Commands::Start).unwrap();
    assert!(matches!(&steps[0], CommandStep::Spawn { program } if program == "/usr/bin/sbk"));
    assert!(matches!(context().exec(Commands::Status), Err(Error::Unimplemented)));
}

#[test]
fn k8s_flag() {
    let args = CliArgs { command: CliSubCommand::Start(CliSubCommandConfig { config: s("c.toml"), no_web_root: false, k8s: true }) };
    assert!(is_in_k8s(&args));
    let args = CliArgs { command: CliSubCommand::Start(CliSubCommandConfig { config: s("c.toml"), no_web_root: true, k8s: false }) };
    assert!(!is_in_k8s(&args));
}

#[test]
fn sockets_named_by_stem() {
    let mut m: KeyedVec<String, SbkInstance> = KeyedVec::new();
    record_socket(&mut m, s("/var/run/switchboard/sbk-1.sock")).unwrap();
    assert!(matches!(m.get(&s("sbk-1")), Some(SbkInstance::Uds(p)) if p == "/var/run/switchboard/sbk-1.sock"));
    assert!(matches!(record_socket(&mut m, s("")), Err(SbkDiscoveryError::SocketWithoutFileStem(p)) if p.is_empty()));
}

#[test]
fn plugin_entries() {
    assert_eq!(plugin_dir("/opt/plugins/*"), Some(s("/opt/plugins")));
    assert_eq!(plugin_dir("/opt/plugins/a.so"), None);
    assert!(is_plugin_library("/opt/plugins/a.so"));
    assert!(!is_plugin_library("/opt/plugins/a.dll"));
    assert!(!is_plugin_library("/opt/plugins/so"));
}
