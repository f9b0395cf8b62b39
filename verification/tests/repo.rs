use deepseek_harness_runtime::path::PathStyle;
use deepseek_harness_runtime::repo_manager::{
    codeload_zip_url, commits_api_url, fetch_default_branch, fetch_remote_commit, load_state,
    mark_host_started, parse_repo_url, repo_detail_url, save_state, state_path, sync_repo,
    RepoInfo, RepoUrlError, StateRead, StateWrite, SyncEvent, SyncOp, SyncRun, SyncState,
};
use deepseek_harness_runtime::repo_rebuild::{
    rebuild_repo_from_zip, remove_dir_all_with_retry, rename_dir_with_retry, RebuildEvent,
    RebuildOp, RetryEvent, RetryOp, FS_RETRIES,
};

const SHA: &str = "0fc1de2a3b4c5d6e7f8a9b0c1d2e3f4a5b6c7d8e";

#[test]
fn test_parse_repo_url_git_suffix() {
    let info = parse_repo_url("https://github.com/deepseek-ai/deepseek-harness.git").unwrap();
    assert_eq!(info.owner, "deepseek-ai");
    assert_eq!(info.repo, "deepseek-harness");
}

#[test]
fn test_parse_repo_url_variants() {
    let info = parse_repo_url("https://github.com/octocat/Hello-World").unwrap();
    assert_eq!(info.repo, "Hello-World");

    let info = parse_repo_url("github.com/a/b.git").unwrap();
    assert_eq!(info.owner, "a");
    assert_eq!(info.repo, "b");
}

#[test]
fn test_parse_repo_url_invalid() {
    assert!(parse_repo_url("https://gitlab.com/a/b").is_err());
    assert!(parse_repo_url("https://github.com/onlyowner").is_err());
    assert!(parse_repo_url("https://github.com/a/b/extra").is_err());
    assert!(parse_repo_url("").is_err());
}

#[test]
fn addresses_are_read_leniently() {
    let info = parse_repo_url("  http://github.com//a///b.git.git/  ").unwrap();
    assert_eq!(info, RepoInfo { owner: "a".to_string(), repo: "b".to_string() });
}

#[test]
fn each_bad_address_has_its_message() {
    let url = "https://gitlab.com/a/b";
    let e = parse_repo_url(url).unwrap_err();
    assert_eq!(e, RepoUrlError::NotARepository);
    assert_eq!(
        e.message(url),
        "无法解析 GitHub 仓库地址: https://gitlab.com/a/b（期望 https://github.com/{owner}/{repo}.git）"
    );
    let url = "https://github.com/a/b/extra";
    let e = parse_repo_url(url).unwrap_err();
    assert_eq!(e, RepoUrlError::ExtraSegments);
    assert_eq!(e.message(url), "仓库地址包含多余路径段: https://github.com/a/b/extra");
    let url = "github.com/a/.git";
    let e = parse_repo_url(url).unwrap_err();
    assert_eq!(e, RepoUrlError::EmptyName);
    assert_eq!(e.message(url), "仓库名为空: github.com/a/.git");
}

#[test]
fn test_endpoint_urls() {
    let info = RepoInfo { owner: "foo".into(), repo: "bar".into() };
    assert_eq!(
        commits_api_url(&info, "main"),
        "https://api.github.com/repos/foo/bar/commits/main"
    );
    assert_eq!(
        codeload_zip_url(&info, "dev"),
        "https://codeload.github.com/foo/bar/zip/refs/heads/dev"
    );
    assert_eq!(repo_detail_url(&info), "https://api.github.com/repos/foo/bar");
}

#[test]
fn test_state_roundtrip() {
    assert_eq!(load_state(StateRead::Missing).last_commit, "");
    let state = SyncState {
        last_commit: "a".repeat(40),
        node_version: "24.19.0".into(),
        host_started: false,
    };
    assert_eq!(load_state(StateRead::Read(state.clone())), state);
    assert_eq!(load_state(StateRead::Damaged).last_commit, "");
    assert_eq!(load_state(StateRead::Damaged), SyncState::default());
    let unreadable = StateRead::Unreadable { error: "x".to_string() };
    assert_eq!(load_state(unreadable), SyncState::default());
}

#[test]
fn test_mark_host_started() {
    let state = SyncState {
        last_commit: "b".repeat(40),
        node_version: "24.19.0".into(),
        host_started: false,
    };
    let path = state_path(PathStyle::Unix, "/ws");
    let marked = mark_host_started(&path, StateRead::Read(state)).unwrap().unwrap();
    assert!(marked.host_started);
    assert_eq!(marked.last_commit, "b".repeat(40));
    assert_eq!(marked.node_version, "24.19.0");
    assert_eq!(mark_host_started(&path, StateRead::Read(marked)), Ok(None));
}

#[test]
fn test_mark_host_started_from_missing() {
    let marked = mark_host_started("/ws/state.json", StateRead::Missing).unwrap().unwrap();
    assert!(marked.host_started);
    assert_eq!(marked.last_commit, "");
}

#[test]
fn a_mark_starts_anew_from_a_damaged_file_and_fails_on_an_unreadable_one() {
    let anew = SyncState {
        last_commit: String::new(),
        node_version: String::new(),
        host_started: true,
    };
    assert_eq!(mark_host_started("/ws/state.json", StateRead::Damaged), Ok(Some(anew)));
    let unreadable = StateRead::Unreadable { error: "permission denied".to_string() };
    assert_eq!(
        mark_host_started("/ws/state.json", unreadable),
        Err("读取 /ws/state.json 失败: permission denied".to_string())
    );
}

#[test]
fn writing_the_state_is_reported_on() {
    let path = state_path(PathStyle::Unix, "/ws");
    assert_eq!(path, "/ws/state.json");
    assert_eq!(save_state(&path, StateWrite::Written), Ok(()));
    assert_eq!(
        save_state(&path, StateWrite::NotSerialized { error: "x".to_string() }),
        Err("序列化 state.json 失败: x".to_string())
    );
    assert_eq!(
        save_state(&path, StateWrite::NotWritten { error: "x".to_string() }),
        Err("写入 /ws/state.json 失败: x".to_string())
    );
}

fn start() -> SyncRun {
    sync_repo(PathStyle::Unix, "/ws", "https://github.com/o/r.git", "main", "24.19.0")
}

fn local(commit: &str, host_started: bool, repo_exists: bool) -> SyncEvent {
    SyncEvent::Local { last_commit: commit.to_string(), host_started, repo_exists }
}

#[test]
fn an_unchanged_repository_is_used_as_it_is() {
    let mut run = start();
    assert_eq!(
        run.action(),
        SyncOp::AskCommit { url: "https://api.github.com/repos/o/r/commits/main".to_string() }
    );
    run.advance(SyncEvent::Commit(SHA.to_string()));
    assert_eq!(run.action(), SyncOp::ReadLocal { repo_dir: "/ws/repo".to_string() });
    run.advance(local(SHA, true, true));
    assert_eq!(
        run.status().unwrap(),
        format!("版本一致（commit {SHA}），复用本地仓库直接启动宿主")
    );
    assert_eq!(
        run.action(),
        SyncOp::Finish {
            updated: false,
            commit: Some(SHA.to_string()),
            repo_dir: "/ws/repo".to_string()
        }
    );
}

#[test]
fn a_changed_repository_is_rebuilt() {
    for found in [local("other", true, true), local(SHA, false, true), local(SHA, true, false)] {
        let mut run = start();
        run.advance(SyncEvent::Commit(SHA.to_string()));
        run.advance(found);
        assert_eq!(run.status().unwrap(), "正在同步仓库 o/r（分支 main）...");
        assert_eq!(
            run.action(),
            SyncOp::Rebuild {
                url: "https://codeload.github.com/o/r/zip/refs/heads/main".to_string(),
                repo_dir: "/ws/repo".to_string()
            }
        );
        run.advance(SyncEvent::Done);
        assert_eq!(run.status().unwrap(), "仓库同步完成");
        assert_eq!(
            run.action(),
            SyncOp::Save {
                last_commit: SHA.to_string(),
                node_version: "24.19.0".to_string(),
                host_started: false
            }
        );
        run.advance(SyncEvent::Done);
        assert_eq!(
            run.action(),
            SyncOp::Finish {
                updated: true,
                commit: Some(SHA.to_string()),
                repo_dir: "/ws/repo".to_string()
            }
        );
    }
}

#[test]
fn the_default_branch_stands_in_for_an_unknown_one() {
    let mut run = start();
    run.advance(SyncEvent::Failed("HTTP 状态码异常: 404".to_string()));
    assert_eq!(
        run.action(),
        SyncOp::AskDefaultBranch { url: "https://api.github.com/repos/o/r".to_string() }
    );
    run.advance(SyncEvent::DefaultBranch("master".to_string()));
    assert_eq!(run.status().unwrap(), "分支 main 查询失败，回退仓库默认分支 master");
    assert_eq!(
        run.action(),
        SyncOp::AskCommit { url: "https://api.github.com/repos/o/r/commits/master".to_string() }
    );
    run.advance(SyncEvent::Commit(SHA.to_string()));
    run.advance(local("", false, false));
    assert_eq!(
        run.action(),
        SyncOp::Rebuild {
            url: "https://codeload.github.com/o/r/zip/refs/heads/master".to_string(),
            repo_dir: "/ws/repo".to_string()
        }
    );
}

#[test]
fn without_an_answer_the_repository_is_fetched_again() {
    let mut run = start();
    run.advance(SyncEvent::Commit("short".to_string()));
    run.advance(SyncEvent::DefaultBranch("main".to_string()));
    assert_eq!(
        run.status().unwrap(),
        "GitHub API 查询失败（API 返回的 SHA 长度异常: short），回退为直接重新下载"
    );
    run.advance(local(SHA, true, true));
    run.advance(SyncEvent::Done);
    assert_eq!(
        run.action(),
        SyncOp::Save {
            last_commit: String::new(),
            node_version: "24.19.0".to_string(),
            host_started: false
        }
    );
    run.advance(SyncEvent::Done);
    assert_eq!(
        run.action(),
        SyncOp::Finish { updated: true, commit: None, repo_dir: "/ws/repo".to_string() }
    );

    let mut run = start();
    run.advance(SyncEvent::Failed("a".to_string()));
    run.advance(SyncEvent::DefaultBranch(String::new()));
    assert_eq!(
        run.status().unwrap(),
        "GitHub API 查询失败（API 返回的 default_branch 为空），回退为直接重新下载"
    );

    let mut run = start();
    run.advance(SyncEvent::Failed("a".to_string()));
    run.advance(SyncEvent::Failed("b".to_string()));
    assert_eq!(run.status().unwrap(), "GitHub API 查询失败（b），回退为直接重新下载");
}

#[test]
fn a_sync_fails_with_its_address_its_rebuild_or_its_state() {
    let run = sync_repo(PathStyle::Unix, "/ws", "x", "main", "24.19.0");
    assert_eq!(
        run.action(),
        SyncOp::Fail {
            error: "无法解析 GitHub 仓库地址: x（期望 https://github.com/{owner}/{repo}.git）"
                .to_string()
        }
    );
    let mut run = start();
    run.advance(SyncEvent::Commit(SHA.to_string()));
    run.advance(local("", false, false));
    run.advance(SyncEvent::Failed("disk full".to_string()));
    assert_eq!(run.action(), SyncOp::Fail { error: "disk full".to_string() });
}

#[test]
fn a_directory_operation_is_attempted_six_times() {
    let mut run = rename_dir_with_retry("/a", "/b");
    let mut pauses: Vec<u64> = Vec::new();
    let mut attempts: u32 = 0;
    let error = loop {
        match run.action() {
            RetryOp::Attempt => {
                attempts += 1;
                run.advance(RetryEvent::Failed(format!("busy {attempts}")));
            }
            RetryOp::Sleep { millis } => {
                pauses.push(millis);
                run.advance(RetryEvent::Slept);
            }
            RetryOp::Finish => panic!("cannot succeed"),
            RetryOp::Fail { error } => break error,
        }
    };
    assert_eq!(attempts, FS_RETRIES);
    assert_eq!(pauses, vec![500, 1000, 2000, 4000, 8000]);
    assert_eq!(error, "移动 /a -> /b 失败: busy 6");
}

#[test]
fn an_attempt_that_succeeds_ends_it() {
    let mut run = remove_dir_all_with_retry("/a", true);
    run.advance(RetryEvent::Failed("busy".to_string()));
    run.advance(RetryEvent::Slept);
    assert_eq!(run.action(), RetryOp::Attempt);
    run.advance(RetryEvent::Done);
    assert_eq!(run.action(), RetryOp::Finish);

    assert_eq!(remove_dir_all_with_retry("/a", false).action(), RetryOp::Finish);
}

#[test]
fn a_rebuild_goes_step_by_step() {
    let mut run = rebuild_repo_from_zip(PathStyle::Unix, "/ws", "https://u");
    assert_eq!(
        run.action(),
        RebuildOp::Download {
            url: "https://u".to_string(),
            dest: "/ws/repo.zip.tmp".to_string()
        }
    );
    run.advance(RebuildEvent::Done);
    assert_eq!(
        run.action(),
        RebuildOp::PrepareStaging { dir: "/ws/repo.extract.tmp".to_string() }
    );
    run.advance(RebuildEvent::Done);
    assert_eq!(
        run.action(),
        RebuildOp::Extract {
            zip: "/ws/repo.zip.tmp".to_string(),
            dir: "/ws/repo.extract.tmp".to_string()
        }
    );
    run.advance(RebuildEvent::Done);
    run.advance(RebuildEvent::Listed { entries: 1, first_is_dir: true });
    assert_eq!(run.action(), RebuildOp::RemoveTree { dir: "/ws/repo".to_string() });
    run.advance(RebuildEvent::Done);
    assert_eq!(
        run.action(),
        RebuildOp::MoveOnlyEntry {
            from: "/ws/repo.extract.tmp".to_string(),
            to: "/ws/repo".to_string()
        }
    );
    run.advance(RebuildEvent::Done);
    assert_eq!(
        run.action(),
        RebuildOp::CleanUp {
            zip: "/ws/repo.zip.tmp".to_string(),
            dir: "/ws/repo.extract.tmp".to_string()
        }
    );
    run.advance(RebuildEvent::Done);
    assert_eq!(run.action(), RebuildOp::Finish);
}

#[test]
fn a_strange_archive_leaves_the_old_copy_alone() {
    let mut run = rebuild_repo_from_zip(PathStyle::Unix, "/ws", "https://u");
    run.advance(RebuildEvent::Done);
    run.advance(RebuildEvent::Done);
    run.advance(RebuildEvent::Done);
    run.advance(RebuildEvent::Listed { entries: 2, first_is_dir: true });
    assert!(matches!(run.action(), RebuildOp::CleanUp { .. }));
    run.advance(RebuildEvent::Done);
    assert_eq!(
        run.action(),
        RebuildOp::Fail {
            error: "zip 结构异常：期望单一顶层目录，实际 2 个条目".to_string()
        }
    );

    let mut run = rebuild_repo_from_zip(PathStyle::Unix, "/ws", "https://u");
    run.advance(RebuildEvent::Done);
    run.advance(RebuildEvent::Failed("denied".to_string()));
    assert_eq!(
        run.action(),
        RebuildOp::Fail {
            error: "创建临时目录 /ws/repo.extract.tmp 失败: denied".to_string()
        }
    );
}

#[test]
fn the_short_way_opens_once_the_host_was_ready() {
    let mut run = start();
    run.advance(SyncEvent::Commit(SHA.to_string()));
    run.advance(local("", false, false));
    run.advance(SyncEvent::Done);
    let saved = match run.action() {
        SyncOp::Save { last_commit, node_version, host_started } => {
            SyncState { last_commit, node_version, host_started }
        }
        other => panic!("{other:?}"),
    };
    let next = |state: &SyncState| {
        let mut run = start();
        run.advance(SyncEvent::Commit(SHA.to_string()));
        run.advance(local(&state.last_commit, state.host_started, true));
        run.action()
    };
    assert!(matches!(next(&saved), SyncOp::Rebuild { .. }));
    let marked = mark_host_started("/ws/state.json", StateRead::Read(saved)).unwrap().unwrap();
    assert!(matches!(next(&marked), SyncOp::Finish { updated: false, .. }));
}

#[test]
fn answers_of_github_are_checked() {
    assert_eq!(fetch_remote_commit(SHA.to_string()), Ok(SHA.to_string()));
    assert_eq!(
        fetch_remote_commit("abc".to_string()),
        Err("API 返回的 SHA 长度异常: abc".to_string())
    );
    assert_eq!(fetch_default_branch("master".to_string()), Ok("master".to_string()));
    assert_eq!(
        fetch_default_branch(String::new()),
        Err("API 返回的 default_branch 为空".to_string())
    );
}

#[test]
fn test_repo_detail_response_parses_default_branch() {
    let json = r#"{"full_name":"deepseek-ai/deepseek-harness","default_branch":"master"}"#;
    let value: serde_json::Value = serde_json::from_str(json).unwrap();
    let answer = value.get("default_branch").and_then(|b| b.as_str()).unwrap().to_string();
    assert_eq!(fetch_default_branch(answer).unwrap(), "master");
}
