use deepseek_harness_runtime::node_manager::{
    detect_arch, detect_platform, dist_dir_name, dist_download_url, ensure_node, ensure_pnpm,
    executable_paths, pnpm_entry_path, pnpm_tgz_url, NodeEvent, NodeOp, PnpmEvent, PnpmOp,
};
use deepseek_harness_runtime::path::PathStyle;

const MIRROR: &str = "https://nodejs.org/dist";

#[test]
fn test_dist_dir_name_format() {
    for os in ["windows", "macos", "linux"] {
        for arch in ["x86_64", "aarch64"] {
            let name = dist_dir_name("24.19.0", os, arch).unwrap();
            assert!(name.starts_with("node-v24.19.0-"), "{name}");
            assert!(name.ends_with(detect_arch(arch).unwrap()));
            assert!(name.contains(detect_platform(os).unwrap()));
        }
    }
    assert_eq!(dist_dir_name("24.19.0", "windows", "x86_64").unwrap(), "node-v24.19.0-win-x64");
    assert_eq!(dist_dir_name("1.2.3", "macos", "aarch64").unwrap(), "node-v1.2.3-darwin-arm64");
}

#[test]
fn other_machines_are_refused() {
    assert_eq!(
        dist_dir_name("1", "freebsd", "mips").unwrap_err(),
        "不支持的操作系统: freebsd"
    );
    assert_eq!(dist_dir_name("1", "linux", "mips").unwrap_err(), "不支持的 CPU 架构: mips");
}

#[test]
fn test_dist_download_url_format() {
    let url = dist_download_url(MIRROR, "24.19.0", "linux", "x86_64").unwrap();
    assert!(url.starts_with("https://nodejs.org/dist/v24.19.0/node-v24.19.0-"));
    assert!(url.ends_with(".zip"));
    assert_eq!(
        dist_download_url("https://m", "1.0.0", "windows", "aarch64").unwrap(),
        "https://m/v1.0.0/node-v1.0.0-win-arm64.zip"
    );
    assert!(dist_download_url(MIRROR, "1", "plan9", "x86_64").is_err());
}

#[test]
fn test_pnpm_tgz_url() {
    let url = pnpm_tgz_url("10.9.1");
    assert_eq!(url, "https://registry.npmjs.org/pnpm/-/pnpm-10.9.1.tgz");
}

#[test]
fn test_pnpm_entry_path() {
    let p = pnpm_entry_path(PathStyle::Unix, "/ws", "10.9.1");
    assert_eq!(p, "/ws/pnpm/pnpm-10.9.1/bin/pnpm.cjs");
}

#[test]
fn programs_lie_where_the_system_has_them() {
    let p = executable_paths(PathStyle::Unix, "/ws/node/d");
    assert_eq!(p.node, "/ws/node/d/bin/node");
    assert_eq!(p.npm, "/ws/node/d/bin/npm");
    assert_eq!(p.bin_dir, "/ws/node/d/bin");
    let p = executable_paths(PathStyle::Windows, "C:\\ws\\node\\d");
    assert_eq!(p.node, "C:\\ws\\node\\d\\node.exe");
    assert_eq!(p.npm, "C:\\ws\\node\\d\\npm.cmd");
    assert_eq!(p.bin_dir, "C:\\ws\\node\\d");
}

#[test]
fn test_ensure_pnpm_none_when_no_version() {
    let run = ensure_pnpm(PathStyle::Unix, "/ws", None);
    assert_eq!(run.action(), PnpmOp::Finish { entry: None });
    let run = ensure_pnpm(PathStyle::Unix, "/ws", Some(""));
    assert_eq!(run.action(), PnpmOp::Finish { entry: None });
    let run = ensure_pnpm(PathStyle::Unix, "/ws", Some(" \t"));
    assert_eq!(run.action(), PnpmOp::Finish { entry: None });
}

#[test]
fn a_node_that_is_there_is_used() {
    let mut run = ensure_node(PathStyle::Unix, "/ws", MIRROR, "24.19.0", "linux", "x86_64");
    assert_eq!(
        run.action(),
        NodeOp::Look {
            node: "/ws/node/node-v24.19.0-linux-x64/bin/node".to_string(),
            npm: "/ws/node/node-v24.19.0-linux-x64/bin/npm".to_string()
        }
    );
    run.advance(NodeEvent::Present { node: true, npm: true });
    assert_eq!(run.status().unwrap(), "Node v24.19.0 已就绪，跳过下载");
    match run.action() {
        NodeOp::Finish { paths } => {
            assert_eq!(paths.bin_dir, "/ws/node/node-v24.19.0-linux-x64/bin")
        }
        other => panic!("{other:?}"),
    }
}

#[test]
fn a_missing_node_is_fetched() {
    let mut run = ensure_node(PathStyle::Unix, "/ws", MIRROR, "24.19.0", "linux", "x86_64");
    run.advance(NodeEvent::Present { node: true, npm: false });
    assert_eq!(run.action(), NodeOp::MakeDir { dir: "/ws/node".to_string() });
    run.advance(NodeEvent::Done);
    let url = "https://nodejs.org/dist/v24.19.0/node-v24.19.0-linux-x64.zip";
    assert_eq!(run.status().unwrap(), format!("正在下载 Node v24.19.0（{url}）..."));
    assert_eq!(
        run.action(),
        NodeOp::Download {
            url: url.to_string(),
            dest: "/ws/node/node-v24.19.0-linux-x64.zip".to_string()
        }
    );
    run.advance(NodeEvent::Done);
    assert_eq!(run.status().unwrap(), "正在解压 Node ...");
    let zip = "/ws/node/node-v24.19.0-linux-x64.zip".to_string();
    assert_eq!(
        run.action(),
        NodeOp::Extract { zip: zip.clone(), dir: "/ws/node".to_string() }
    );
    run.advance(NodeEvent::Done);
    assert_eq!(run.action(), NodeOp::RemoveFile { path: zip });
    run.advance(NodeEvent::Failed("busy".to_string()));
    run.advance(NodeEvent::Present { node: true, npm: true });
    assert_eq!(run.status().unwrap(), "Node v24.19.0 就绪");
    assert!(matches!(run.action(), NodeOp::Finish { .. }));
}

#[test]
fn providing_node_fails_with_a_reason() {
    let run = ensure_node(PathStyle::Unix, "/ws", MIRROR, "1", "plan9", "x86_64");
    assert_eq!(run.action(), NodeOp::Fail { error: "不支持的操作系统: plan9".to_string() });
    let missing = |node: bool, npm: bool| {
        let mut run = ensure_node(PathStyle::Unix, "/ws", MIRROR, "1", "linux", "x86_64");
        run.advance(NodeEvent::Present { node: false, npm: false });
        run.advance(NodeEvent::Done);
        run.advance(NodeEvent::Done);
        run.advance(NodeEvent::Done);
        run.advance(NodeEvent::Done);
        run.advance(NodeEvent::Present { node, npm });
        run.action()
    };
    assert_eq!(
        missing(false, true),
        NodeOp::Fail {
            error: "Node 解压完成但未找到 node 可执行文件: /ws/node/node-v1-linux-x64/bin/node"
                .to_string()
        }
    );
    assert_eq!(
        missing(true, false),
        NodeOp::Fail {
            error: "Node 解压完成但未找到 npm 入口: /ws/node/node-v1-linux-x64/bin/npm".to_string()
        }
    );
    let mut run = ensure_node(PathStyle::Unix, "/ws", MIRROR, "1", "linux", "x86_64");
    run.advance(NodeEvent::Present { node: false, npm: false });
    run.advance(NodeEvent::Failed("denied".to_string()));
    assert_eq!(
        run.action(),
        NodeOp::Fail { error: "创建目录 /ws/node 失败: denied".to_string() }
    );
}

#[test]
fn pnpm_is_fetched_unpacked_and_installed() {
    let mut run = ensure_pnpm(PathStyle::Unix, "/ws", Some("10.9.1"));
    assert_eq!(
        run.action(),
        PnpmOp::Look { path: "/ws/pnpm/pnpm-10.9.1/bin/pnpm.cjs".to_string() }
    );
    run.advance(PnpmEvent::Present { file: false });
    assert_eq!(run.action(), PnpmOp::MakeDir { dir: "/ws/pnpm".to_string() });
    run.advance(PnpmEvent::Done);
    assert_eq!(
        run.status().unwrap(),
        "正在下载 pnpm v10.9.1（https://registry.npmjs.org/pnpm/-/pnpm-10.9.1.tgz）..."
    );
    assert_eq!(
        run.action(),
        PnpmOp::Download {
            url: "https://registry.npmjs.org/pnpm/-/pnpm-10.9.1.tgz".to_string(),
            dest: "/ws/pnpm/.pnpm-10.9.1.tgz".to_string()
        }
    );
    run.advance(PnpmEvent::Done);
    assert_eq!(run.status().unwrap(), "正在解压 pnpm v10.9.1 ...");
    assert_eq!(
        run.action(),
        PnpmOp::PrepareStaging { dir: "/ws/pnpm/.pnpm-10.9.1.tmp".to_string() }
    );
    run.advance(PnpmEvent::Done);
    assert_eq!(
        run.action(),
        PnpmOp::Unpack {
            tgz: "/ws/pnpm/.pnpm-10.9.1.tgz".to_string(),
            dir: "/ws/pnpm/.pnpm-10.9.1.tmp".to_string()
        }
    );
    run.advance(PnpmEvent::Done);
    assert_eq!(
        run.action(),
        PnpmOp::Look {
            path: "/ws/pnpm/.pnpm-10.9.1.tmp/package/bin/pnpm.cjs".to_string()
        }
    );
    run.advance(PnpmEvent::Present { file: true });
    assert_eq!(
        run.action(),
        PnpmOp::RemoveTree { dir: "/ws/pnpm/pnpm-10.9.1".to_string() }
    );
    run.advance(PnpmEvent::Failed("not there".to_string()));
    assert_eq!(
        run.action(),
        PnpmOp::Rename {
            from: "/ws/pnpm/.pnpm-10.9.1.tmp/package".to_string(),
            to: "/ws/pnpm/pnpm-10.9.1".to_string()
        }
    );
    run.advance(PnpmEvent::Done);
    assert_eq!(
        run.action(),
        PnpmOp::CleanUp {
            tgz: "/ws/pnpm/.pnpm-10.9.1.tgz".to_string(),
            dir: "/ws/pnpm/.pnpm-10.9.1.tmp".to_string()
        }
    );
    run.advance(PnpmEvent::Done);
    assert_eq!(run.status().unwrap(), "pnpm v10.9.1 就绪");
    assert_eq!(
        run.action(),
        PnpmOp::Finish { entry: Some("/ws/pnpm/pnpm-10.9.1/bin/pnpm.cjs".to_string()) }
    );
}

#[test]
fn a_pnpm_that_is_there_is_used_and_a_broken_one_refused() {
    let mut run = ensure_pnpm(PathStyle::Unix, "/ws", Some("1"));
    run.advance(PnpmEvent::Present { file: true });
    assert_eq!(run.status().unwrap(), "pnpm v1 已就绪，跳过下载");
    assert_eq!(
        run.action(),
        PnpmOp::Finish { entry: Some("/ws/pnpm/pnpm-1/bin/pnpm.cjs".to_string()) }
    );

    let broken = |events: Vec<PnpmEvent>| {
        let mut run = ensure_pnpm(PathStyle::Unix, "/ws", Some("1"));
        run.advance(PnpmEvent::Present { file: false });
        for e in events {
            run.advance(e);
        }
        match run.action() {
            PnpmOp::Fail { error } => error,
            other => panic!("{other:?}"),
        }
    };
    let x = || PnpmEvent::Failed("x".to_string());
    assert_eq!(broken(vec![x()]), "创建目录 /ws/pnpm 失败: x");
    assert_eq!(broken(vec![PnpmEvent::Done, x()]), "x");
    assert_eq!(
        broken(vec![PnpmEvent::Done, PnpmEvent::Done, x()]),
        "创建临时目录 /ws/pnpm/.pnpm-1.tmp 失败: x"
    );
    assert_eq!(
        broken(vec![
            PnpmEvent::Done,
            PnpmEvent::Done,
            PnpmEvent::Done,
            PnpmEvent::Done,
            PnpmEvent::Present { file: false }
        ]),
        "pnpm v1 解压完成但未找到 bin/pnpm.cjs: /ws/pnpm/.pnpm-1.tmp/package/bin/pnpm.cjs"
    );
    assert_eq!(
        broken(vec![
            PnpmEvent::Done,
            PnpmEvent::Done,
            PnpmEvent::Done,
            PnpmEvent::Done,
            PnpmEvent::Present { file: true },
            PnpmEvent::Done,
            x()
        ]),
        "安装 pnpm v1 失败: x"
    );
}
