use deepseek_harness_runtime::host_runner::{
    extract_url, spawn_web_host, HostEvent, HostOp, HostRun, POLL_INTERVAL,
};
use deepseek_harness_runtime::node_manager::NodePaths;
use deepseek_harness_runtime::path::PathStyle;
use deepseek_harness_runtime::watcher::{
    debounce_loop, follow_sources, source_path, spawn_watcher, SourceEvent, SourceOp, WatchEvent,
    WatchOp, WatchSetup, DEBOUNCE,
};

#[test]
fn test_extract_url() {
    assert_eq!(
        extract_url("dsh web: http://127.0.0.1:34567"),
        Some("http://127.0.0.1:34567".to_string())
    );
    assert_eq!(
        extract_url("dsh web: http://127.0.0.1:80 (LAN: http://192.168.1.2:80)"),
        Some("http://127.0.0.1:80".to_string())
    );
    assert_eq!(extract_url("some other line"), None);
    assert_eq!(extract_url("dsh web: "), None);
    assert_eq!(extract_url("dsh web: ftp://x"), None);
}

#[test]
fn a_ready_line_may_be_spaced_out_but_must_start_right() {
    assert_eq!(extract_url("dsh web:   \t http://h:1"), Some("http://h:1".to_string()));
    assert_eq!(extract_url(" dsh web: http://h:1"), None);
    assert_eq!(extract_url("dsh web: x http://h:1"), None);
    assert_eq!(extract_url("dsh web: https://h:1"), None);
}

fn host(port: u16, timeout: u64) -> HostRun {
    let node = NodePaths {
        node: "/ws/n/bin/node".to_string(),
        npm: "/ws/n/bin/npm".to_string(),
        bin_dir: "/ws/n/bin".to_string(),
    };
    spawn_web_host(PathStyle::Unix, &node, "/ws/repo", "/ws", "/usr/bin", port, timeout)
}

fn started(timeout: u64) -> HostRun {
    let mut run = host(0, timeout);
    run.advance(HostEvent::Present { file: true });
    run.advance(HostEvent::Done);
    run.advance(HostEvent::Done);
    run
}

#[test]
fn the_host_is_started_inside_the_working_directory() {
    let mut run = host(0, 180);
    assert_eq!(run.action(), HostOp::Look { path: "/ws/repo/apps/cli/lib/bin.js".to_string() });
    run.advance(HostEvent::Present { file: true });
    assert_eq!(run.action(), HostOp::MakeDir { dir: "/ws/dsh-home".to_string() });
    run.advance(HostEvent::Done);
    match run.action() {
        HostOp::Spawn { log, command } => {
            assert_eq!(
                log,
                "$ node apps/cli/lib/bin.js web --port 0 --no-open  (DSH_HOME=/ws/dsh-home)"
            );
            assert_eq!(command.program, "/ws/n/bin/node");
            assert_eq!(
                command.args,
                vec!["/ws/repo/apps/cli/lib/bin.js", "web", "--port", "0", "--no-open"]
            );
            assert_eq!(command.dir, "/ws/repo");
            let keys: Vec<&str> = command.env.iter().map(|(k, _)| k.as_str()).collect();
            assert_eq!(
                keys,
                vec![
                    "DSH_HOME",
                    "PATH",
                    "NPM_CONFIG_USERCONFIG",
                    "npm_config_cache",
                    "COREPACK_HOME"
                ]
            );
            assert_eq!(command.env[0].1, "/ws/dsh-home");
            assert_eq!(command.env[1].1, "/ws/n/bin:/usr/bin");
        }
        other => panic!("{other:?}"),
    }
}

#[test]
fn a_port_can_be_asked_for() {
    let mut run = host(8080, 180);
    run.advance(HostEvent::Present { file: true });
    run.advance(HostEvent::Done);
    match run.action() {
        HostOp::Spawn { command, .. } => assert_eq!(command.args[3], "8080"),
        other => panic!("{other:?}"),
    }
}

#[test]
fn the_host_is_waited_for() {
    let mut run = started(180);
    assert_eq!(run.action(), HostOp::Poll);
    run.advance(HostEvent::Running { elapsed: 0 });
    assert_eq!(run.action(), HostOp::Receive { wait: POLL_INTERVAL });
    run.advance(HostEvent::Line("starting".to_string()));
    run.advance(HostEvent::Running { elapsed: 179_900_000_000 });
    assert_eq!(run.action(), HostOp::Receive { wait: 100_000_000 });
    run.advance(HostEvent::Silence);
    run.advance(HostEvent::Running { elapsed: 179_999_999_999 });
    assert_eq!(run.action(), HostOp::Receive { wait: 1 });
    run.advance(HostEvent::Line("dsh web: http://127.0.0.1:34567".to_string()));
    assert_eq!(run.action(), HostOp::Finish { url: "http://127.0.0.1:34567".to_string() });
}

#[test]
fn a_host_that_takes_too_long_is_killed() {
    let mut run = started(180);
    run.advance(HostEvent::Running { elapsed: 180_000_000_000 });
    assert_eq!(run.action(), HostOp::Kill);
    run.advance(HostEvent::Done);
    assert_eq!(
        run.action(),
        HostOp::Fail { error: "等待 dsh web 就绪超时（180s），已终止宿主进程".to_string() }
    );
}

#[test]
fn every_way_to_fail_is_reported() {
    let fail = |run: HostRun| match run.action() {
        HostOp::Fail { error } => error,
        other => panic!("{other:?}"),
    };
    let mut run = host(0, 1);
    run.advance(HostEvent::Present { file: false });
    assert_eq!(
        fail(run),
        "dsh CLI 入口不存在: /ws/repo/apps/cli/lib/bin.js（请确认构建流程已完成）"
    );
    let mut run = host(0, 1);
    run.advance(HostEvent::Present { file: true });
    run.advance(HostEvent::Failed("x".to_string()));
    assert_eq!(fail(run), "创建 dsh-home 失败: x");
    let mut run = host(0, 1);
    run.advance(HostEvent::Present { file: true });
    run.advance(HostEvent::Done);
    run.advance(HostEvent::Failed("x".to_string()));
    assert_eq!(fail(run), "启动 dsh web 宿主失败: x");
    let mut run = started(1);
    run.advance(HostEvent::Exited { code: Some(1) });
    assert_eq!(fail(run), "dsh web 宿主启动即退出（exit=Some(1)），详见日志");
    let mut run = started(1);
    run.advance(HostEvent::Exited { code: None });
    assert_eq!(fail(run), "dsh web 宿主启动即退出（exit=None），详见日志");
    let mut run = started(1);
    run.advance(HostEvent::Failed("x".to_string()));
    assert_eq!(fail(run), "检查宿主进程状态失败: x");
    let mut run = started(1);
    run.advance(HostEvent::Running { elapsed: 0 });
    run.advance(HostEvent::Closed);
    assert_eq!(fail(run), "dsh web 宿主输出流提前关闭（未输出就绪行），详见日志");
}

#[test]
fn a_burst_of_changes_leads_to_one_reload() {
    let mut run = debounce_loop();
    let mut reloads: u32 = 0;
    for e in [
        WatchEvent::Signal,
        WatchEvent::Signal,
        WatchEvent::Signal,
        WatchEvent::Silence,
        WatchEvent::Done,
        WatchEvent::Signal,
        WatchEvent::Silence,
        WatchEvent::Done,
    ] {
        run = run.advance(e);
        if run.action() == WatchOp::Reload {
            reloads += 1;
        }
    }
    assert_eq!(reloads, 2);
    assert_eq!(run.action(), WatchOp::Receive);
    assert_eq!(
        run.advance(WatchEvent::Signal).action(),
        WatchOp::ReceiveWithin { wait: DEBOUNCE }
    );
    assert_eq!(DEBOUNCE, 300_000_000);
}

#[test]
fn a_watch_ends_with_its_source_or_its_window() {
    assert_eq!(debounce_loop().advance(WatchEvent::Closed).action(), WatchOp::Stop);
    let settling = debounce_loop().advance(WatchEvent::Signal);
    assert_eq!(settling.advance(WatchEvent::Closed).action(), WatchOp::Stop);
    let settled = settling.advance(WatchEvent::Silence);
    assert_eq!(settled.action(), WatchOp::Reload);
    assert_eq!(settled.advance(WatchEvent::Failed).action(), WatchOp::Stop);
}

fn changed(paths: &[&str]) -> SourceEvent {
    SourceEvent::Changed { paths: paths.iter().map(|p| p.to_string()).collect() }
}

#[test]
fn built_pages_and_packages_are_no_sources() {
    let source = |p: &str| source_path(PathStyle::Unix, "/ws/repo", p);
    assert!(source("/ws/repo/package.json"));
    assert!(source("/ws/repo/apps/web/src/main.ts"));
    assert!(source("/ws/repo/apps/distance.ts"));
    assert!(!source("/ws/repo"));
    assert!(!source("/ws/repo-other/a.ts"));
    assert!(!source("/ws/state.json"));
    assert!(!source("/ws/repo/dist"));
    assert!(!source("/ws/repo/dist/index.html"));
    assert!(!source("/ws/repo/apps/web/dist/assets/a.js"));
    assert!(!source("/ws/repo/node_modules/a/index.js"));
    assert!(!source("/ws/repo/apps/web/node_modules/a/index.js"));
    assert!(source_path(PathStyle::Windows, r"C:\ws\repo", r"C:\ws\repo\apps\a.ts"));
    assert!(!source_path(PathStyle::Windows, r"C:\ws\repo", r"C:\ws\repo\dist\a.js"));
}

#[test]
fn a_burst_of_source_changes_leads_to_one_build_and_one_reload() {
    let mut run = follow_sources(PathStyle::Unix, "/ws/repo");
    assert_eq!(run.action(), SourceOp::Receive);
    run.advance(changed(&["/ws/repo/dist/index.html"]));
    assert_eq!(run.action(), SourceOp::Receive);
    let mut builds: u32 = 0;
    let mut reloads: u32 = 0;
    for e in [
        changed(&["/ws/repo/dist/a.js", "/ws/repo/src/a.ts"]),
        changed(&["/ws/repo/src/b.ts"]),
        changed(&["/ws/repo/dist/b.js"]),
        SourceEvent::Silence,
        SourceEvent::Built,
        SourceEvent::Done,
        SourceEvent::Done,
    ] {
        run.advance(e);
        match run.action() {
            SourceOp::Build => builds += 1,
            SourceOp::Reload => reloads += 1,
            _ => {}
        }
    }
    assert_eq!((builds, reloads), (1, 1));
    assert_eq!(run.action(), SourceOp::Receive);
}

#[test]
fn a_build_that_fails_is_logged_and_nothing_is_loaded() {
    let mut run = follow_sources(PathStyle::Unix, "/ws/repo");
    run.advance(SourceEvent::Missed);
    assert_eq!(run.action(), SourceOp::ReceiveWithin { wait: DEBOUNCE });
    run.advance(changed(&["/ws/repo/a.ts"]));
    assert_eq!(run.action(), SourceOp::ReceiveWithin { wait: DEBOUNCE });
    run.advance(SourceEvent::Silence);
    assert_eq!(run.action(), SourceOp::Build);
    run.advance(changed(&["/ws/repo/b.ts"]));
    assert_eq!(run.action(), SourceOp::Build);
    run.advance(SourceEvent::NotBuilt { error: "x".to_string() });
    assert_eq!(
        run.action(),
        SourceOp::Log { line: "[错误] 源码变更后重新构建失败: x".to_string() }
    );
    run.advance(SourceEvent::Done);
    assert_eq!(run.action(), SourceOp::Forget);
    run.advance(SourceEvent::Done);
    assert_eq!(run.action(), SourceOp::Receive);
    run.advance(SourceEvent::Closed);
    assert_eq!(run.action(), SourceOp::Stop);
}

#[test]
fn setting_up_a_watch_is_reported_on() {
    assert_eq!(spawn_watcher("/d", WatchSetup::Watching), Ok(()));
    assert_eq!(
        spawn_watcher("/d", WatchSetup::NoWatcher { error: "x".to_string() }),
        Err("创建文件监听器失败: x".to_string())
    );
    assert_eq!(
        spawn_watcher("/d", WatchSetup::NotWatched { error: "x".to_string() }),
        Err("注册监听目录 /d 失败: x".to_string())
    );
    assert_eq!(
        spawn_watcher("/d", WatchSetup::NoThread { error: "x".to_string() }),
        Err("启动监听线程失败: x".to_string())
    );
}
