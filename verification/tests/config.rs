use deepseek_harness_runtime::config::{
    exe_base_dir, resolve_workspace, Config, ConfigRead, ConfigSource, RawApp, RawBuild, RawConfig,
    RawHost, RawNode, RawRepo, RawWorkspace,
};
use deepseek_harness_runtime::path::PathStyle;

fn text(doc: &toml::Table, section: &str, key: &str) -> Option<String> {
    doc.get(section)?.get(key)?.as_str().map(|s| s.to_string())
}

fn number(doc: &toml::Table, section: &str, key: &str) -> Option<i64> {
    doc.get(section)?.get(key)?.as_integer()
}

/// Loads a file with this content.
fn load(content: &str) -> Result<Config, String> {
    let read = match content.parse::<toml::Table>() {
        Ok(doc) => ConfigRead::Parsed(RawConfig {
            app: RawApp {
                repo_url: text(&doc, "app", "repo_url"),
                branch: text(&doc, "app", "branch"),
            },
            repo: RawRepo { url: text(&doc, "repo", "url"), branch: text(&doc, "repo", "branch") },
            node: RawNode {
                version: text(&doc, "node", "version"),
                mirror: text(&doc, "node", "mirror"),
                pnpm_version: text(&doc, "node", "pnpm_version"),
            },
            workspace: RawWorkspace { root: text(&doc, "workspace", "root") },
            build: RawBuild {
                script: text(&doc, "build", "script"),
                install_args: doc
                    .get("build")
                    .and_then(|b| b.get("install_args"))
                    .and_then(|a| a.as_array())
                    .map(|a| {
                        a.iter().filter_map(|v| v.as_str()).map(|s| s.to_string()).collect()
                    }),
            },
            host: RawHost {
                port: number(&doc, "host", "port").map(|n| n as u16),
                read_timeout: number(&doc, "host", "read_timeout").map(|n| n as u64),
            },
        }),
        Err(e) => {
            ConfigRead::Malformed { path: "config.toml".to_string(), error: e.to_string() }
        }
    };
    Config::load(read)
}

#[test]
fn test_default_config_when_no_file() {
    let cfg = Config::load(ConfigRead::Absent).expect("defaults");
    assert_eq!(cfg, Config::default());
    assert_eq!(cfg.repo_url, "https://github.com/deepseek-ai/deepseek-harness.git");
    assert_eq!(cfg.branch, "master");
    assert_eq!(cfg.node_version, "24.19.0");
    assert_eq!(cfg.workspace_root, ".runtime");
    assert_eq!(cfg.build_script, "build");
    assert!(cfg.install_args.is_empty());
    assert_eq!(cfg.pnpm_version, None);
    assert_eq!(cfg.node_mirror, "https://nodejs.org/dist");
    assert_eq!(cfg.host_port, 0);
    assert_eq!(cfg.read_timeout, 180);
}

#[test]
fn test_partial_override() {
    let cfg = load(
        r#"
[node]
version = "22.11.0"
"#,
    )
    .unwrap();
    assert_eq!(cfg.node_version, "22.11.0");
    assert_eq!(cfg.branch, "master");
}

#[test]
fn test_full_override() {
    let cfg = load(
        r#"
[app]
repo_url = "https://github.com/octocat/Hello-World.git"
branch = "master"

[node]
version = "22.11.0"

[workspace]
root = ".rt2"

[build]
script = "dist"
install_args = ["--registry=https://registry.npmmirror.com"]
"#,
    )
    .unwrap();
    assert_eq!(cfg.repo_url, "https://github.com/octocat/Hello-World.git");
    assert_eq!(cfg.branch, "master");
    assert_eq!(cfg.node_version, "22.11.0");
    assert_eq!(cfg.workspace_root, ".rt2");
    assert_eq!(cfg.build_script, "dist");
    assert_eq!(cfg.install_args, vec!["--registry=https://registry.npmmirror.com".to_string()]);
}

#[test]
fn short_keys_are_understood_and_the_long_ones_go_first() {
    let cfg = load(
        r#"
[workspace]
root = ".runtime"

[repo]
url = "https://github.com/deepseek-ai/deepseek-harness"
branch = "main"

[node]
version = "24.19.0"
mirror = "https://npmmirror.com/mirrors/node"

[host]
port = 8080
read_timeout = 60
"#,
    )
    .unwrap();
    assert_eq!(cfg.repo_url, "https://github.com/deepseek-ai/deepseek-harness");
    assert_eq!(cfg.branch, "main");
    assert_eq!(cfg.node_mirror, "https://npmmirror.com/mirrors/node");
    assert_eq!(cfg.host_port, 8080);
    assert_eq!(cfg.read_timeout, 60);

    let cfg = load("[app]\nbranch = \"a\"\n[repo]\nbranch = \"b\"\nurl = \"u\"\n").unwrap();
    assert_eq!(cfg.branch, "a");
    assert_eq!(cfg.repo_url, "u");
}

#[test]
fn a_version_of_pnpm_can_be_asked_for() {
    let cfg = load("[node]\npnpm_version = \"10.9.1\"\n").unwrap();
    assert_eq!(cfg.pnpm_version.as_deref(), Some("10.9.1"));
}

#[test]
fn an_empty_file_gives_the_defaults() {
    assert_eq!(load("").unwrap(), Config::default());
}

#[test]
fn test_invalid_toml_is_error() {
    assert!(load("not a = valid [[ toml").is_err());
}

#[test]
fn an_unusable_file_is_named() {
    let e = Config::load(ConfigRead::Unreadable {
        path: "/x/config.toml".to_string(),
        error: "denied".to_string(),
    })
    .unwrap_err();
    assert_eq!(e, "读取配置文件 /x/config.toml 失败: denied");
    let e = Config::load(ConfigRead::Malformed {
        path: "/x/config.toml".to_string(),
        error: "line 1".to_string(),
    })
    .unwrap_err();
    assert_eq!(e, "解析配置文件 /x/config.toml 失败: line 1");
}

#[test]
fn test_exe_base_dir_not_empty() {
    let dir = exe_base_dir(Some("/opt/dsh".to_string()), Some("/home/me".to_string()));
    assert_eq!(dir, "/opt/dsh");
    assert_eq!(exe_base_dir(None, Some("/home/me".to_string())), "/home/me");
    assert_eq!(exe_base_dir(None, None), ".");
    assert!(!exe_base_dir(None, None).is_empty());
}

#[test]
fn test_load_prefers_exe_dir_config() {
    let cfg = load("[workspace]\nroot = \"exe_prio\"\n").expect("loads");
    assert_eq!(cfg.workspace_root, "exe_prio");
    assert_eq!(Config::choose_source(None, true, true), ConfigSource::BesideExecutable);
    assert_eq!(Config::choose_source(None, false, true), ConfigSource::CurrentDirectory);
    assert_eq!(Config::choose_source(None, false, false), ConfigSource::Defaults);
}

#[test]
fn a_named_file_is_the_only_one_that_counts() {
    assert_eq!(Config::choose_source(Some(true), true, true), ConfigSource::Named);
    assert_eq!(Config::choose_source(Some(false), true, true), ConfigSource::Defaults);
}

#[test]
fn the_working_directory_is_taken_from_the_base() {
    assert_eq!(resolve_workspace(PathStyle::Unix, "/opt/dsh", ".runtime"), "/opt/dsh/.runtime");
    assert_eq!(resolve_workspace(PathStyle::Unix, "/opt/dsh", "/var/rt"), "/var/rt");
    assert_eq!(resolve_workspace(PathStyle::Windows, "C:\\dsh", ".runtime"), "C:\\dsh\\.runtime");
    assert_eq!(resolve_workspace(PathStyle::Windows, "C:\\dsh", "D:\\rt"), "D:\\rt");
    assert_eq!(
        resolve_workspace(PathStyle::Windows, r"\\srv\share\app", r"\data"),
        r"\\srv\share\data"
    );
    assert_eq!(
        resolve_workspace(PathStyle::Windows, r"\\srv\share\app", ".runtime"),
        r"\\srv\share\app\.runtime"
    );
    assert_eq!(
        resolve_workspace(PathStyle::Windows, r"\\?\C:\dsh", "./.runtime"),
        r"\\?\C:\dsh\.runtime"
    );
}
