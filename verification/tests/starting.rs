use deepseek_harness_runtime::bootstrap::{run_bootstrap, BootEvent, BootOp, BootPhase, BootRun};
use deepseek_harness_runtime::builder::{AppEntry, BuildPhase, BuildStage};
use deepseek_harness_runtime::config::Config;
use deepseek_harness_runtime::i18n::Lang;
use deepseek_harness_runtime::node_manager::NodePaths;
use deepseek_harness_runtime::path::PathStyle;
use deepseek_harness_runtime::repo_manager::SyncResult;
use deepseek_harness_runtime::ui::{
    activity_event, build_stage, build_step_news, build_version_label, can_be_counted, can_be_shown, can_be_titled,
    download_event, download_progress_detail, handle_user_event, mb_text, read_dsh_version,
    sync_result_detail, version_label, Fraction, Stage, StageState, UiCommand, UserEvent,
};
use deepseek_harness_runtime::watcher::follow_sources;

const SHA: &str = "0fc1de2a3b4c5d6e7f8a9b0c1d2e3f4a5b6c7d8e";

#[test]
fn test_read_dsh_version_ok() {
    assert_eq!(
        read_dsh_version(Some(r#"{"name": "deepseek-harness", "version": "0.1.1-rc.2"}"#)),
        Some("0.1.1-rc.2".to_string())
    );
}

#[test]
fn test_read_dsh_version_missing() {
    assert_eq!(read_dsh_version(None), None);
    assert_eq!(read_dsh_version(Some(r#"{"name": "x"}"#)), None);
    assert_eq!(read_dsh_version(Some("not json")), None);
    assert_eq!(read_dsh_version(Some(r#"{"version": 1}"#)), None);
}

#[test]
fn test_build_version_label() {
    let json = r#"{"version": "0.1.1-rc.2"}"#;
    let sync_with_sha = SyncResult {
        updated: true,
        repo_dir: "/r".to_string(),
        commit: Some("0fc1de2a3b4c5d6e7f8a9b0c1d2e3f4a5b6c7d8e".to_string()),
    };
    let label = build_version_label(&sync_with_sha, Some(json));
    assert_eq!(label, "0fc1de(0.1.1-rc.2)");

    let sync_no_sha =
        SyncResult { updated: false, repo_dir: "/r".to_string(), commit: None };
    let label = build_version_label(&sync_no_sha, Some(json));
    assert_eq!(label, "unknown(0.1.1-rc.2)");
    assert_eq!(build_version_label(&sync_no_sha, None), "unknown(?)");
    assert_eq!(version_label(Some("abc"), Some("1")), "unknown(1)");
    assert_eq!(version_label(Some("abcdef"), Some("1")), "abcdef(1)");
}

#[test]
fn a_commit_must_be_cut_between_characters() {
    let sync = |updated: bool, commit: &str| SyncResult {
        updated,
        commit: Some(commit.to_string()),
        repo_dir: "/r".to_string(),
    };
    assert!(can_be_shown(&sync(true, SHA)));
    assert!(can_be_shown(&sync(true, "")));
    assert!(can_be_shown(&sync(true, "文")));
    assert!(!can_be_shown(&sync(true, "文文文")));
    assert!(can_be_shown(&sync(false, "文文文")));
    assert!(can_be_shown(&sync(true, "abcd文")));
    assert!(can_be_titled(Some(SHA)));
    assert!(can_be_titled(Some("文文文")));
    assert!(can_be_titled(Some("文")));
    assert!(can_be_titled(None));
    assert!(!can_be_titled(Some("abcd文")));
    assert_eq!(
        sync_result_detail(&sync(false, "文文文"), Lang::Zh),
        Lang::Zh.detail_sync_cached()
    );
    assert_eq!(sync_result_detail(&sync(true, "abcd文"), Lang::Zh), "已更新至 abcd文");
    assert_eq!(version_label(Some("文文文"), Some("1")), "文文(1)");
}

#[test]
fn what_is_shown_of_a_sync() {
    let sync = |updated: bool, commit: Option<&str>| SyncResult {
        updated,
        commit: commit.map(|s| s.to_string()),
        repo_dir: "/r".to_string(),
    };
    assert_eq!(
        sync_result_detail(&sync(false, Some(SHA)), Lang::En),
        "Version matches, reusing local to start host"
    );
    assert_eq!(sync_result_detail(&sync(true, Some(SHA)), Lang::En), "Updated to 0fc1de2");
    assert_eq!(sync_result_detail(&sync(true, Some("abc")), Lang::Zh), "已更新至 abc");
    assert_eq!(sync_result_detail(&sync(true, None), Lang::Zh), "已重新同步（API 回退）");
}

fn value(f: Option<Fraction>) -> Option<f64> {
    f.map(|f| f.done as f64 / f.total as f64)
}

#[test]
fn test_download_progress_detail_with_total() {
    let (progress, detail) = download_progress_detail(Lang::Zh, 50, Some(200));
    assert_eq!(value(progress), Some(0.25));
    assert!(detail.contains("25%"), "{detail}");

    let (progress, _) = download_progress_detail(Lang::Zh, 200, Some(200));
    assert_eq!(value(progress), Some(1.0));
    let (progress, detail) = download_progress_detail(Lang::En, 300, Some(200));
    assert_eq!(value(progress), Some(1.0));
    assert!(detail.contains("150%"));
}

#[test]
fn test_download_progress_detail_without_total() {
    let (progress, detail) = download_progress_detail(Lang::Zh, 1_048_576, None);
    assert!(progress.is_none());
    assert!(detail.contains("1.0 MB"), "{detail}");
}

#[test]
fn a_percentage_is_worked_out_only_of_a_known_size() {
    assert!(can_be_counted(u64::MAX, None));
    assert!(can_be_counted(u64::MAX, Some(0)));
    assert!(can_be_counted(u64::MAX / 100, Some(1)));
    assert!(!can_be_counted(u64::MAX / 100 + 1, Some(1)));
    let (progress, _) = download_progress_detail(Lang::En, u64::MAX, None);
    assert!(progress.is_none());
}

#[test]
fn test_download_progress_detail_zero_total() {
    let (progress, _) = download_progress_detail(Lang::Zh, 100, Some(0));
    assert!(progress.is_none());
}

#[test]
fn megabytes_are_rounded_as_the_standard_library_does() {
    let mut n: u64 = 0;
    while n < 40_000_000 {
        assert_eq!(mb_text(n), format!("{:.1}", n as f64 / 1_048_576.0), "{n}");
        n += 4099;
    }
    let mut n: u64 = 262_144;
    while n < 40_000_000 {
        assert_eq!(mb_text(n), format!("{:.1}", n as f64 / 1_048_576.0), "{n}");
        n += 524_288;
    }
    for n in [52_428, 52_429, 996_147, 996_148, 1u64 << 40, (1u64 << 53) - 1] {
        assert_eq!(mb_text(n), format!("{:.1}", n as f64 / 1_048_576.0), "{n}");
    }
}

#[test]
fn a_download_is_told_to_the_window() {
    assert_eq!(
        download_event(Lang::En, Stage::Repo, 1_048_576, Some(2_097_152)),
        UserEvent::Progress {
            stage: Stage::Repo,
            progress: Some(Fraction { done: 1_048_576, total: 2_097_152 }),
            detail: Some("Downloading 50% (1.0 MB / 2.0 MB)".to_string())
        }
    );
    assert_eq!(
        activity_event(build_stage(BuildStage::Install), "x".to_string()),
        UserEvent::Progress {
            stage: Stage::Install,
            progress: None,
            detail: Some("x".to_string())
        }
    );
}

fn status(stage: Stage, state: StageState, detail: &str) -> UserEvent {
    UserEvent::Status { stage, state, detail: detail.to_string() }
}

#[test]
fn the_window_hears_of_the_steps_of_a_build() {
    assert_eq!(
        build_step_news(Lang::En, BuildPhase::Install, BuildPhase::Build),
        vec![
            UserEvent::Progress {
                stage: Stage::Install,
                progress: Some(Fraction { done: 1, total: 1 }),
                detail: Some("Dependencies installed".to_string())
            },
            status(Stage::Install, StageState::Done, "Dependencies installed"),
            status(Stage::Build, StageState::Running, "Running build script"),
        ]
    );
    assert_eq!(
        build_step_news(Lang::En, BuildPhase::Build, BuildPhase::Locate),
        vec![UserEvent::Progress {
            stage: Stage::Build,
            progress: Some(Fraction { done: 1, total: 1 }),
            detail: Some("Build complete".to_string())
        }]
    );
    assert!(build_step_news(Lang::En, BuildPhase::Install, BuildPhase::Failed).is_empty());
}

#[test]
fn the_window_reacts_to_what_it_is_told() {
    let t = |s: &str| s.to_string();
    assert_eq!(
        handle_user_event(status(Stage::Node, StageState::Running, "d")),
        vec![
            UiCommand::Print(t("[node] running: d")),
            UiCommand::Eval(t(
                "window.dshSetStage && dshSetStage(\"node\", \"running\", \"d\");"
            ))
        ]
    );
    assert_eq!(
        handle_user_event(UserEvent::Log(t("l"))),
        vec![UiCommand::Print(t("l")), UiCommand::Eval(t("window.dshLog && dshLog(\"l\");"))]
    );
    assert_eq!(
        handle_user_event(UserEvent::Ready(t("/d"))),
        vec![
            UiCommand::Print(t("构建就绪: /d")),
            UiCommand::Serve(t("/d")),
            UiCommand::Watch(t("/d"))
        ]
    );
    assert_eq!(
        handle_user_event(UserEvent::HostReady { url: t("http://h"), version_label: t("v") }),
        vec![
            UiCommand::Print(t("dsh web 宿主就绪: http://h")),
            UiCommand::SetTitle(t("DeepSeek Harness Runtime - v")),
            UiCommand::LoadUrl(t("http://h"))
        ]
    );
    assert_eq!(
        handle_user_event(UserEvent::Reload),
        vec![UiCommand::Print(t("检测到产物更新，刷新 webview")), UiCommand::Reload]
    );
    assert_eq!(
        handle_user_event(UserEvent::Progress {
            stage: Stage::Host,
            progress: None,
            detail: Some(t("x"))
        }),
        vec![UiCommand::ShowProgress { stage: t("host"), progress: None, detail: Some(t("x")) }]
    );
}

fn boot() -> BootRun {
    run_bootstrap(
        PathStyle::Unix,
        Lang::En,
        "linux",
        "x86_64",
        "/usr/bin",
        "/ws",
        Config::default(),
    )
}

fn failed(error: &str) -> BootEvent {
    BootEvent::Failed { error: error.to_string() }
}

fn paths() -> NodePaths {
    NodePaths {
        node: "/ws/n/node".to_string(),
        npm: "/ws/n/npm".to_string(),
        bin_dir: "/ws/n".to_string(),
    }
}

fn synced(updated: bool) -> BootEvent {
    BootEvent::Synced {
        sync: SyncResult {
            updated,
            commit: Some(SHA.to_string()),
            repo_dir: "/ws/repo".to_string(),
        },
    }
}

fn until_sync() -> BootRun {
    let mut run = boot();
    run.advance(BootEvent::Done);
    run.advance(BootEvent::NodeReady { paths: paths() });
    run.advance(BootEvent::PnpmReady { entry: None });
    run
}

#[test]
fn a_first_start_goes_through_every_stage() {
    let mut run = boot();
    assert_eq!(run.action(), BootOp::MakeDir { dir: "/ws".to_string() });
    assert_eq!(
        run.advance(BootEvent::Done),
        vec![status(Stage::Node, StageState::Running, "Preparing Node v24.19.0")]
    );
    match run.action() {
        BootOp::Node { run } => {
            assert_eq!(run.url, "https://nodejs.org/dist/v24.19.0/node-v24.19.0-linux-x64.zip")
        }
        other => panic!("{other:?}"),
    }
    assert_eq!(
        run.advance(BootEvent::NodeReady { paths: paths() }),
        vec![status(Stage::Node, StageState::Done, "Node v24.19.0 ready")]
    );
    assert!(matches!(run.action(), BootOp::Pnpm { .. }));
    assert_eq!(
        run.advance(BootEvent::PnpmReady { entry: Some("/ws/pnpm.cjs".to_string()) }),
        vec![status(Stage::Repo, StageState::Running, "Checking remote updates")]
    );
    match run.action() {
        BootOp::Sync { run } => {
            assert_eq!(run.owner, "deepseek-ai");
            assert_eq!(run.branch, "master");
        }
        other => panic!("{other:?}"),
    }
    assert_eq!(
        run.advance(synced(true)),
        vec![
            status(Stage::Repo, StageState::Done, "Updated to 0fc1de2"),
            status(Stage::Install, StageState::Running, "Installing dependencies"),
        ]
    );
    match run.action() {
        BootOp::Build { run } => {
            assert_eq!(run.commit.as_deref(), Some(SHA));
            assert_eq!(run.pnpm_cmd.as_deref(), Some("/ws/pnpm.cjs"));
            assert_eq!(run.repo_dir, "/ws/repo");
            assert_eq!(run.script, "build");
        }
        other => panic!("{other:?}"),
    }
    assert_eq!(
        run.advance(BootEvent::Built { dist: "/ws/repo/dist".to_string() }),
        vec![
            status(Stage::Build, StageState::Done, "Build complete"),
            UserEvent::Ready("/ws/repo/dist".to_string()),
            status(Stage::Host, StageState::Running, "Starting dsh web host"),
        ]
    );
    match run.action() {
        BootOp::Host { run } => {
            assert_eq!(run.timeout, 180);
            assert_eq!(run.port, 0);
        }
        other => panic!("{other:?}"),
    }
    assert_eq!(
        run.advance(BootEvent::HostReady { url: "http://127.0.0.1:1".to_string() }),
        vec![status(Stage::Host, StageState::Done, "Host ready http://127.0.0.1:1")]
    );
    assert_eq!(run.action(), BootOp::Mark);
    assert_eq!(run.advance(failed("cannot write")), vec![]);
    assert_eq!(
        run.action(),
        BootOp::ReadPackage { path: "/ws/repo/package.json".to_string() }
    );
    assert_eq!(
        run.advance(BootEvent::Package { json: Some(r#"{"version": "1.2.3"}"#.to_string()) }),
        vec![UserEvent::HostReady {
            url: "http://127.0.0.1:1".to_string(),
            version_label: "0fc1de(1.2.3)".to_string()
        }]
    );
    match run.action() {
        BootOp::Finish { sources, build } => {
            assert_eq!(sources, follow_sources(PathStyle::Unix, "/ws/repo"));
            assert_eq!(build.repo_dir, "/ws/repo");
            assert_eq!(build.phase, BuildPhase::LookNpmrc);
        }
        other => panic!("{other:?}"),
    }
}

#[test]
fn a_second_start_uses_what_is_built() {
    let mut run = until_sync();
    assert_eq!(
        run.advance(synced(false)),
        vec![status(
            Stage::Repo,
            StageState::Done,
            "Version matches, reusing local to start host"
        )]
    );
    assert_eq!(
        run.action(),
        BootOp::LookPages {
            root_index: "/ws/repo/dist/index.html".to_string(),
            apps: "/ws/repo/apps".to_string()
        }
    );
    let apps = vec![AppEntry { name: "web".to_string(), has_index: true }];
    assert_eq!(
        run.advance(BootEvent::Pages { root_has_index: false, apps }),
        vec![
            status(Stage::Install, StageState::Done, "Dependencies installed"),
            status(
                Stage::Build,
                StageState::Done,
                "Version matches, reusing existing build, skipping build"
            ),
            UserEvent::Ready("/ws/repo/apps/web/dist".to_string()),
            status(Stage::Host, StageState::Running, "Starting dsh web host"),
        ]
    );
    assert!(matches!(run.action(), BootOp::Host { .. }));
}

#[test]
fn a_second_start_without_pages_builds() {
    let mut run = until_sync();
    run.advance(synced(false));
    assert_eq!(
        run.advance(BootEvent::Pages { root_has_index: false, apps: Vec::new() }),
        vec![status(Stage::Install, StageState::Running, "Installing dependencies")]
    );
    assert!(matches!(run.action(), BootOp::Build { .. }));
}

#[test]
fn the_failing_stage_is_marked() {
    let log = |s: &str| UserEvent::Log(format!("[错误] {s}"));
    let mut run = boot();
    assert_eq!(run.advance(failed("ro")), vec![log("创建工作目录 /ws 失败: ro")]);
    assert_eq!(
        run.action(),
        BootOp::Fail { error: "创建工作目录 /ws 失败: ro".to_string() }
    );

    let mut run = boot();
    run.advance(BootEvent::Done);
    assert_eq!(
        run.advance(failed("e")),
        vec![status(Stage::Node, StageState::Failed, "e"), log("e")]
    );
    let mut run = boot();
    run.advance(BootEvent::Done);
    run.advance(BootEvent::NodeReady { paths: paths() });
    assert_eq!(
        run.advance(failed("e")),
        vec![status(Stage::Node, StageState::Failed, "e"), log("e")]
    );
    let mut run = until_sync();
    assert_eq!(
        run.advance(failed("e")),
        vec![status(Stage::Repo, StageState::Failed, "e"), log("e")]
    );
    for (stage, seen) in [(BuildStage::Install, Stage::Install), (BuildStage::Build, Stage::Build)] {
        let mut run = until_sync();
        run.advance(synced(true));
        assert_eq!(
            run.advance(BootEvent::NotBuilt { stage, error: "e".to_string() }),
            vec![status(seen, StageState::Failed, "e"), log("e")]
        );
        assert_eq!(run.phase, BootPhase::Failed);
    }
    let mut run = until_sync();
    run.advance(synced(true));
    run.advance(BootEvent::Built { dist: "/d".to_string() });
    assert_eq!(
        run.advance(failed("e")),
        vec![status(Stage::Host, StageState::Failed, "e"), log("e")]
    );
}

#[test]
fn a_download_never_shows_less_progress() {
    let mut last = 0.0;
    let mut written: u64 = 0;
    while written <= 1200 {
        let (progress, _) = download_progress_detail(Lang::En, written, Some(1000));
        let now = value(progress).unwrap();
        assert!(now >= last && (0.0..=1.0).contains(&now));
        last = now;
        written += 37;
    }
    assert_eq!(last, 1.0);
}
