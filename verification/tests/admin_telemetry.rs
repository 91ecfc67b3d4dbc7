use qat_offload::admin::AdminRoute;
use qat_offload::admin::CliCmds;
use qat_offload::admin::Ready;
use qat_offload::admin::route;
use qat_offload::telemetry::LogLevel;
use qat_offload::telemetry::get_log_level_from_str;

#[test]
fn command_list_is_complete_and_ordered() {
    let cmds = CliCmds::new();
    let expected = [
        ("/healthz/ready", "print server state"),
        ("/debug/pprof/profile", "print the pprof data"),
        ("/debug/gprof/profile", "print the gprof data"),
        ("/debug/gprof/heap", "print the heap data"),
        ("/quitquitquit", "exit the server"),
        ("/config_dump", "print the workload information"),
        ("/", "list all the commands"),
        ("/metrics", "list all the metrics"),
    ];
    assert_eq!(cmds.0.len(), expected.len());
    for (cmd, (uri, exp)) in cmds.0.iter().zip(expected.iter()) {
        assert_eq!(cmd.uri, *uri);
        assert_eq!(cmd.exp, *exp);
    }
}

#[test]
fn default_command_list_matches_new() {
    let a = CliCmds::default();
    let b = CliCmds::new();
    assert_eq!(a.0.len(), b.0.len());
    for (x, y) in a.0.iter().zip(b.0.iter()) {
        assert_eq!(x.uri, y.uri);
        assert_eq!(x.exp, y.exp);
    }
}

#[test]
fn readiness_tracks_pending_tasks() {
    let mut ready = Ready::new();
    assert!(ready.is_ready());

    let proxy = ready.register_task("proxy");
    assert!(!ready.is_ready());
    let dns = ready.register_task("dns");
    assert!(!ready.is_ready());

    ready.complete_task(proxy);
    assert!(!ready.is_ready());
    ready.complete_task(dns);
    assert!(ready.is_ready());
}

#[test]
fn registering_a_name_twice_keeps_one_entry() {
    let mut ready = Ready::new();
    let first = ready.register_task("proxy");
    let _second = ready.register_task("proxy");
    assert_eq!(ready.0.len(), 1);
    ready.complete_task(first);
    assert!(ready.is_ready());
}

#[test]
fn subtask_blocks_readiness_under_the_same_tracker() {
    let mut ready = Ready::new();
    let parent = ready.register_task("proxy");
    let child = parent.subtask(&mut ready, "proxy/listener");
    assert!(!ready.is_ready());
    ready.complete_task(parent);
    assert!(!ready.is_ready());
    ready.complete_task(child);
    assert!(ready.is_ready());
}

#[test]
fn routes_match_the_command_list() {
    let cases = [
        ("/healthz/ready", AdminRoute::Ready),
        ("/debug/pprof/profile", AdminRoute::Pprof),
        ("/debug/gprof/profile", AdminRoute::Gprof),
        ("/debug/gprof/heap", AdminRoute::GprofHeap),
        ("/quitquitquit", AdminRoute::Quit),
        ("/config_dump", AdminRoute::ConfigDump),
        ("/", AdminRoute::CommandList),
        ("/metrics", AdminRoute::Metrics),
    ];
    for (path, expected) in cases {
        assert_eq!(route(path.to_string()), Some(expected));
    }
    assert_eq!(route("/unknown".to_string()), None);
    assert_eq!(route("".to_string()), None);
    assert_eq!(route("/metrics/".to_string()), None);
}

#[test]
fn log_level_names_parse_exactly() {
    let cases = [
        ("debug", LogLevel::Debug),
        ("error", LogLevel::Error),
        ("info", LogLevel::Info),
        ("warn", LogLevel::Warn),
        ("trace", LogLevel::Trace),
        ("off", LogLevel::Off),
    ];
    for (name, level) in cases {
        assert_eq!(get_log_level_from_str(name.to_string()), Some(level));
    }
    assert_eq!(get_log_level_from_str("verbose".to_string()), None);
    assert_eq!(get_log_level_from_str("Debug".to_string()), None);
    assert_eq!(get_log_level_from_str("".to_string()), None);
}
