use deepseek_harness_runtime::builder::{
    app_index_path, build_args_for, detect_package_manager, ensure_isolated_npmrc,
    install_args_for, locate_dist_dir, manager_for, root_index_path, run_build, tool_for, AppEntry,
    BuildEvent, BuildOp, BuildRun, BuildStage, PackageManager,
};
use deepseek_harness_runtime::command::{
    build_command, call_log_line, run_tool_command, runtime_env_vars, LineMeter, ToolEnd,
};
use deepseek_harness_runtime::i18n::Lang;
use deepseek_harness_runtime::node_manager::NodePaths;
use deepseek_harness_runtime::path::PathStyle;
use std::path::Path;

fn node_paths() -> NodePaths {
    NodePaths {
        node: "/ws/node".to_string(),
        npm: "/ws/npm".to_string(),
        bin_dir: "/ws/bin".to_string(),
    }
}

fn app(name: &str, has_index: bool) -> AppEntry {
    AppEntry { name: name.to_string(), has_index }
}

fn texts(list: &[&str]) -> Vec<String> {
    list.iter().map(|s| s.to_string()).collect()
}

#[test]
fn test_detect_pnpm_by_lockfile() {
    assert_eq!(detect_package_manager(true, false, None), PackageManager::Pnpm);
    assert_eq!(detect_package_manager(false, true, None), PackageManager::Pnpm);
}

#[test]
fn test_detect_by_package_manager_field() {
    assert_eq!(
        detect_package_manager(false, false, Some(r#"{"packageManager": "pnpm@11.7.0"}"#)),
        PackageManager::Pnpm
    );
    assert_eq!(
        detect_package_manager(false, false, Some(r#"{"packageManager": "npm@10.0.0"}"#)),
        PackageManager::Npm
    );
    assert_eq!(detect_package_manager(false, false, None), PackageManager::Npm);
}

#[test]
fn a_package_file_that_says_nothing_means_npm() {
    for json in ["", "not json", "[]", "{}", r#"{"packageManager": 3}"#, r#"{"packageManager": null}"#] {
        assert_eq!(detect_package_manager(false, false, Some(json)), PackageManager::Npm, "{json}");
    }
    assert_eq!(manager_for(false, false, Some("corepack:pnpm")), PackageManager::Pnpm);
    assert_eq!(manager_for(false, false, Some("yarn@4")), PackageManager::Npm);
}

#[test]
fn test_runtime_env_isolation() {
    let ws = Path::new("/ws");
    let vars = runtime_env_vars(PathStyle::Unix, &node_paths(), "/ws", "/usr/bin");
    let get = |k: &str| vars.iter().find(|(key, _)| key == k).map(|(_, v)| v.clone()).unwrap();

    assert_eq!(get("NPM_CONFIG_USERCONFIG"), ws.join("npmrc").display().to_string());
    assert_eq!(get("npm_config_cache"), ws.join("npm-cache").display().to_string());
    assert_eq!(get("COREPACK_HOME"), ws.join("corepack").display().to_string());
    assert!(get("PATH").as_str().starts_with(&ws.join("bin").display().to_string()));
    assert_eq!(get("PATH"), "/ws/bin:/usr/bin");
    let vars = runtime_env_vars(PathStyle::Windows, &node_paths(), "C:\\ws", "x");
    assert_eq!(vars[0], ("PATH".to_string(), "/ws/bin;x".to_string()));
    assert_eq!(vars[1].1, "C:\\ws\\npmrc");
}

#[test]
fn test_ensure_isolated_npmrc() {
    let (path, content) = ensure_isolated_npmrc(PathStyle::Unix, "/ws", false);
    assert_eq!(path, "/ws/npmrc");
    assert_eq!(
        content.unwrap(),
        "# rustc-deepseek-harness 运行时隔离配置：屏蔽系统全局 ~/.npmrc\n"
    );
    let (path, content) = ensure_isolated_npmrc(PathStyle::Unix, "/ws", true);
    assert_eq!(path, "/ws/npmrc");
    assert_eq!(content, None);
}

#[test]
fn test_locate_dist_dir() {
    let u = PathStyle::Unix;
    assert!(locate_dist_dir(u, "/r", false, &[app("web", false)]).is_err());
    assert_eq!(
        locate_dist_dir(u, "/r", false, &[app("web", true)]).unwrap(),
        "/r/apps/web/dist"
    );
    assert_eq!(locate_dist_dir(u, "/r", true, &[app("web", true)]).unwrap(), "/r/dist");
    assert_eq!(
        locate_dist_dir(u, "/r", false, &[app("web", true), app("admin", true)]).unwrap(),
        "/r/apps/admin/dist"
    );
}

#[test]
fn only_entries_with_pages_count() {
    let u = PathStyle::Unix;
    let apps = [app("a", false), app("node_modules", true), app("web", true), app("b", false)];
    assert_eq!(locate_dist_dir(u, "/r", false, &apps).unwrap(), "/r/apps/web/dist");
    assert_eq!(
        locate_dist_dir(u, "/r", false, &[app("node_modules", true)]).unwrap_err(),
        "构建命令执行成功但未找到含 index.html 的产物目录（已检查 /r/dist 与 apps/*/dist）"
    );
    assert_eq!(root_index_path(u, "/r"), "/r/dist/index.html");
    assert_eq!(app_index_path(u, "/r", "web"), "/r/apps/web/dist/index.html");
}

#[test]
fn test_args_generation() {
    let extra = vec!["--registry=https://example.com".to_string()];
    let ws = Path::new("/ws");
    let pnpm = "/ws/pnpm/pnpm-10.9.1/bin/pnpm.cjs";
    let u = PathStyle::Unix;

    let npm_install = install_args_for(u, PackageManager::Npm, None, &extra, "/ws");
    assert_eq!(npm_install, vec!["install", "--registry=https://example.com"]);

    let pnpm_corepack = install_args_for(u, PackageManager::Pnpm, None, &extra, "/ws");
    assert_eq!(
        pnpm_corepack,
        vec![
            "pnpm",
            "install",
            &format!("--config.store-dir={}", ws.join("pnpm-store").display()),
            "--registry=https://example.com"
        ]
    );

    let pnpm_managed = install_args_for(u, PackageManager::Pnpm, Some(pnpm), &extra, "/ws");
    assert_eq!(
        pnpm_managed,
        vec![
            pnpm.to_string(),
            "install".to_string(),
            format!("--config.store-dir={}", ws.join("pnpm-store").display()),
            "--registry=https://example.com".to_string()
        ]
    );

    assert_eq!(build_args_for(PackageManager::Npm, None, "build"), vec!["run", "build"]);
    assert_eq!(build_args_for(PackageManager::Pnpm, None, "build"), vec!["pnpm", "run", "build"]);
    assert_eq!(
        build_args_for(PackageManager::Pnpm, Some(pnpm), "build"),
        vec![pnpm.to_string(), "run".to_string(), "build".to_string()]
    );
}

#[test]
fn the_tool_follows_the_package_manager() {
    let u = PathStyle::Unix;
    let n = node_paths();
    assert_eq!(tool_for(u, PackageManager::Npm, Some("p"), &n), "/ws/npm");
    assert_eq!(tool_for(u, PackageManager::Pnpm, Some("p"), &n), "/ws/node");
    assert_eq!(tool_for(u, PackageManager::Pnpm, None, &n), "/ws/bin/corepack");
    let w = NodePaths {
        node: "C:\\n\\node.exe".to_string(),
        npm: "C:\\n\\npm.cmd".to_string(),
        bin_dir: "C:\\n".to_string(),
    };
    assert_eq!(
        tool_for(PathStyle::Windows, PackageManager::Pnpm, None, &w),
        "C:\\n\\corepack.cmd"
    );
}

#[test]
fn windows_starts_tools_through_its_interpreter() {
    let args = texts(&["run", "build"]);
    assert_eq!(
        build_command(PathStyle::Windows, "C:\\n\\npm.cmd", &args),
        ("cmd".to_string(), texts(&["/c", "C:\\n\\npm.cmd", "run", "build"]))
    );
    assert_eq!(build_command(PathStyle::Unix, "/n/npm", &args), ("/n/npm".to_string(), args));
}

#[test]
fn a_call_is_logged_by_its_name() {
    assert_eq!(
        call_log_line(PathStyle::Unix, "/n/bin/npm", &texts(&["run", "build"])),
        "$ npm run build"
    );
    assert_eq!(call_log_line(PathStyle::Windows, "C:\\n\\npm.cmd", &[]), "$ npm.cmd ");
    assert_eq!(call_log_line(PathStyle::Unix, "/", &texts(&["x"])), "$  x");
}

#[test]
fn a_tool_that_ends_badly_shows_its_last_lines() {
    let args = texts(&["run", "build"]);
    let out: Vec<String> = (0..8).map(|i| format!("out {i}")).collect();
    let err: Vec<String> = (0..4).map(|i| format!("err {i}")).collect();
    let e = run_tool_command("/n/npm", &args, ToolEnd::Exited { code: Some(2), out, err })
        .unwrap_err();
    assert_eq!(
        e,
        "run build 退出码 Some(2)：\nout 2\nout 3\nout 4\nout 5\nout 6\nout 7\nerr 0\nerr 1\nerr 2\nerr 3"
    );
    let e = run_tool_command(
        "/n/npm",
        &args,
        ToolEnd::Exited { code: None, out: texts(&["x"]), err: Vec::new() },
    )
    .unwrap_err();
    assert_eq!(e, "run build 退出码 None：\nx");
    let e = run_tool_command(
        "/n/npm",
        &args,
        ToolEnd::Exited { code: Some(-1), out: Vec::new(), err: Vec::new() },
    )
    .unwrap_err();
    assert_eq!(e, "run build 退出码 Some(-1)：\n");
}

#[test]
fn a_tool_succeeds_with_code_zero_only() {
    let args = texts(&["x"]);
    let end = ToolEnd::Exited { code: Some(0), out: texts(&["noise"]), err: texts(&["more"]) };
    assert_eq!(run_tool_command("/n/npm", &args, end), Ok(()));
    assert_eq!(
        run_tool_command("/n/npm", &args, ToolEnd::NotStarted { error: "e".to_string() }),
        Err("启动 /n/npm 失败: e".to_string())
    );
    assert_eq!(
        run_tool_command("/n/npm", &args, ToolEnd::NotAwaited { error: "e".to_string() }),
        Err("等待命令退出失败: e".to_string())
    );
}

#[test]
fn lines_are_counted() {
    let mut meter = LineMeter::new(Lang::En);
    assert_eq!(meter.line_meter_log(), "(1 lines output)");
    assert_eq!(meter.line_meter_log(), "(2 lines output)");
    let mut meter = LineMeter::new(Lang::Zh);
    assert_eq!(meter.line_meter_log(), "（已输出 1 行）");
}

fn building(commit: Option<&str>) -> BuildRun {
    run_build(
        PathStyle::Unix,
        &node_paths(),
        "/ws/repo",
        "build",
        &texts(&["--x"]),
        "/ws",
        None,
        commit.map(|s| s.to_string()),
        "/usr/bin",
    )
}

fn went_well() -> BuildEvent {
    BuildEvent::Ended { end: ToolEnd::Exited { code: Some(0), out: Vec::new(), err: Vec::new() } }
}

#[test]
fn a_build_installs_builds_and_finds_its_pages() {
    let mut run = building(Some("abc"));
    assert_eq!(run.action(), BuildOp::Look { path: "/ws/npmrc".to_string() });
    run.advance(BuildEvent::Present { file: false });
    match run.action() {
        BuildOp::Write { path, content } => {
            assert_eq!(path, "/ws/npmrc");
            assert!(content.starts_with('#'));
        }
        other => panic!("{other:?}"),
    }
    run.advance(BuildEvent::Done);
    assert_eq!(
        run.action(),
        BuildOp::LookRepo {
            lock: "/ws/repo/pnpm-lock.yaml".to_string(),
            workspace: "/ws/repo/pnpm-workspace.yaml".to_string(),
            package_json: "/ws/repo/package.json".to_string()
        }
    );
    run.advance(BuildEvent::Repo {
        has_lock: false,
        has_workspace: false,
        package_json: Some(r#"{"packageManager": "pnpm@11.7.0"}"#.to_string()),
    });
    match run.action() {
        BuildOp::Run { log, command } => {
            assert_eq!(log, "$ corepack pnpm install --config.store-dir=/ws/pnpm-store --x");
            assert_eq!(command.program, "/ws/bin/corepack");
            assert_eq!(
                command.args,
                vec!["pnpm", "install", "--config.store-dir=/ws/pnpm-store", "--x"]
            );
            assert_eq!(command.dir, "/ws/repo");
            assert_eq!(command.env.len(), 4);
        }
        other => panic!("{other:?}"),
    }
    assert_eq!(run.stage, BuildStage::Install);
    run.advance(went_well());
    assert_eq!(run.stage, BuildStage::Build);
    match run.action() {
        BuildOp::Run { log, command } => {
            assert_eq!(log, "$ corepack pnpm run build");
            assert_eq!(
                command.env.last().unwrap(),
                &("DSH_CLIENT_COMMIT_HASH".to_string(), "abc".to_string())
            );
            assert_eq!(command.env.len(), 5);
        }
        other => panic!("{other:?}"),
    }
    run.advance(went_well());
    assert_eq!(
        run.action(),
        BuildOp::LookPages {
            root_index: "/ws/repo/dist/index.html".to_string(),
            apps: "/ws/repo/apps".to_string()
        }
    );
    run.advance(BuildEvent::Pages { root_has_index: false, apps: vec![app("web", true)] });
    assert_eq!(run.action(), BuildOp::Finish { dist: "/ws/repo/apps/web/dist".to_string() });
}

#[test]
fn a_build_without_a_commit_says_nothing_of_it() {
    let mut run = building(None);
    run.advance(BuildEvent::Present { file: true });
    run.advance(BuildEvent::Repo { has_lock: false, has_workspace: false, package_json: None });
    run.advance(went_well());
    match run.action() {
        BuildOp::Run { log, command } => {
            assert_eq!(log, "$ npm run build");
            assert_eq!(command.env.len(), 4);
        }
        other => panic!("{other:?}"),
    }
}

#[test]
fn a_build_fails_in_the_stage_of_its_failure() {
    let failed = |code: i32| BuildEvent::Ended {
        end: ToolEnd::Exited { code: Some(code), out: texts(&["oops"]), err: Vec::new() },
    };
    let mut run = building(None);
    run.advance(BuildEvent::Present { file: true });
    run.advance(BuildEvent::Repo { has_lock: false, has_workspace: false, package_json: None });
    run.advance(failed(1));
    assert_eq!(run.stage, BuildStage::Install);
    assert_eq!(
        run.action(),
        BuildOp::Fail { error: "install --x 退出码 Some(1)：\noops".to_string() }
    );

    let mut run = building(None);
    run.advance(BuildEvent::Present { file: true });
    run.advance(BuildEvent::Repo { has_lock: false, has_workspace: false, package_json: None });
    run.advance(went_well());
    run.advance(failed(2));
    assert_eq!(run.stage, BuildStage::Build);
    assert_eq!(
        run.action(),
        BuildOp::Fail { error: "run build 退出码 Some(2)：\noops".to_string() }
    );

    let mut run = building(None);
    run.advance(BuildEvent::Present { file: false });
    run.advance(BuildEvent::Failed("denied".to_string()));
    assert_eq!(
        run.action(),
        BuildOp::Fail { error: "创建隔离 npmrc 失败: denied".to_string() }
    );

    let mut run = building(None);
    run.advance(BuildEvent::Present { file: true });
    run.advance(BuildEvent::Repo { has_lock: false, has_workspace: false, package_json: None });
    run.advance(went_well());
    run.advance(went_well());
    run.advance(BuildEvent::Pages { root_has_index: false, apps: Vec::new() });
    assert!(matches!(run.action(), BuildOp::Fail { .. }));
}
