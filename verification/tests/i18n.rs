use deepseek_harness_runtime::i18n::Lang;

#[test]
fn test_from_locale() {
    assert_eq!(Lang::from_locale("zh-CN"), Lang::Zh);
    assert_eq!(Lang::from_locale("zh_TW"), Lang::Zh);
    assert_eq!(Lang::from_locale("zhCN"), Lang::Zh);
    assert_eq!(Lang::from_locale("en-US"), Lang::En);
    assert_eq!(Lang::from_locale("en"), Lang::En);
    assert_eq!(Lang::from_locale(""), Lang::En);
    assert_eq!(Lang::from_locale("fr-FR"), Lang::En);
}

#[test]
fn capitals_in_a_locale_do_not_matter() {
    assert_eq!(Lang::from_locale("ZH-cn"), Lang::Zh);
    assert_eq!(Lang::from_locale("Zh"), Lang::Zh);
    assert_eq!(Lang::from_locale("z"), Lang::En);
    assert_eq!(Lang::from_locale("中文"), Lang::En);
}

#[test]
fn no_locale_means_english() {
    assert_eq!(Lang::from_answer(None), Lang::En);
    assert_eq!(Lang::from_answer(Some("zh-Hans")), Lang::Zh);
}

#[test]
fn detection_goes_by_the_system_locale() {
    let answer = sys_locale::get_locale();
    assert_eq!(Lang::detect(), Lang::from_answer(answer.as_deref()));
}

#[test]
fn test_lang_attr() {
    assert_eq!(Lang::Zh.lang_attr(), "zh-CN");
    assert_eq!(Lang::En.lang_attr(), "en");
}

#[test]
fn test_zh_texts() {
    assert_eq!(Lang::Zh.pending_detail(), "等待开始");
    assert_eq!(Lang::Zh.stage_node(), "Node 运行时");
    assert_eq!(Lang::Zh.stage_repo(), "同步仓库");
    assert_eq!(Lang::Zh.stage_install(), "安装依赖");
    assert_eq!(Lang::Zh.stage_build(), "构建产物");
    assert_eq!(Lang::Zh.stage_host(), "启动宿主");
    assert_eq!(Lang::Zh.title(), "DeepSeek Harness Runtime - 启动中");
    assert_eq!(Lang::Zh.heading(), "DeepSeek Harness Runtime · 正在准备应用…");
}

#[test]
fn test_en_texts() {
    assert_eq!(Lang::En.pending_detail(), "Pending");
    assert_eq!(Lang::En.stage_node(), "Node Runtime");
    assert_eq!(Lang::En.stage_repo(), "Sync Repo");
    assert_eq!(Lang::En.stage_install(), "Install Dependencies");
    assert_eq!(Lang::En.stage_build(), "Build Artifacts");
    assert_eq!(Lang::En.stage_host(), "Start Host");
    assert_eq!(Lang::En.title(), "DeepSeek Harness Runtime - Starting");
    assert_eq!(Lang::En.heading(), "DeepSeek Harness Runtime · Preparing application…");
}

#[test]
fn test_detail_texts() {
    assert!(Lang::Zh.detail_prepare_node().contains("准备 Node"));
    assert!(Lang::En.detail_prepare_node().contains("Preparing Node"));
    assert!(Lang::Zh.detail_sync_cached().contains("版本一致"));
    assert!(Lang::En.detail_sync_cached().contains("Version matches"));
    assert!(Lang::Zh.detail_build_cached().contains("版本一致"));
    assert!(Lang::En.detail_build_cached().contains("Version matches"));
}

#[test]
fn test_progress_texts() {
    assert_eq!(Lang::Zh.progress_sync_start(), "开始同步...");
    assert_eq!(Lang::En.progress_sync_start(), "Starting sync...");
    assert_eq!(Lang::Zh.progress_extracting(), "正在解压仓库...");
    assert_eq!(Lang::En.progress_extracting(), "Extracting repository...");

    let done = format!("{:.1}", 1.2);
    let total = format!("{:.1}", 3.4);
    let zh_pct = Lang::Zh.progress_download_pct(35, &done, &total);
    assert!(zh_pct.contains("35%"));
    let en_pct = Lang::En.progress_download_pct(35, &done, &total);
    assert!(en_pct.contains("35%"));
    assert_ne!(zh_pct, en_pct);

    assert!(Lang::Zh.progress_lines(3).contains("3"));
    assert!(Lang::En.progress_lines(3).contains("3"));
    assert_ne!(Lang::Zh.progress_lines(3), Lang::En.progress_lines(3));
}

#[test]
fn progress_texts_in_full() {
    assert_eq!(
        Lang::Zh.progress_download_pct(35, "1.2", "3.4"),
        "下载中 35% （1.2 MB / 3.4 MB）"
    );
    assert_eq!(Lang::En.progress_download_pct(35, "1.2", "3.4"), "Downloading 35% (1.2 MB / 3.4 MB)");
    assert_eq!(Lang::Zh.progress_download_mb("7.0"), "下载中 7.0 MB ...");
    assert_eq!(Lang::En.progress_download_mb("7.0"), "Downloading 7.0 MB ...");
    assert_eq!(Lang::Zh.progress_lines(120), "（已输出 120 行）");
    assert_eq!(Lang::En.progress_lines(120), "(120 lines output)");
}

#[test]
fn test_zh_vs_en_distinct() {
    assert_ne!(Lang::Zh.pending_detail(), Lang::En.pending_detail());
    assert_ne!(Lang::Zh.stage_node(), Lang::En.stage_node());
    assert_ne!(Lang::Zh.stage_repo(), Lang::En.stage_repo());
    assert_ne!(Lang::Zh.stage_install(), Lang::En.stage_install());
    assert_ne!(Lang::Zh.stage_build(), Lang::En.stage_build());
    assert_ne!(Lang::Zh.stage_host(), Lang::En.stage_host());
}

#[test]
fn every_phrase_has_its_text() {
    let zh = Lang::Zh;
    let en = Lang::En;
    let both = [
        (zh.detail_node_ready(), "Node v{} 就绪", en.detail_node_ready(), "Node v{} ready"),
        (
            zh.detail_check_remote(),
            "检查远端更新",
            en.detail_check_remote(),
            "Checking remote updates",
        ),
        (zh.detail_installing(), "安装依赖", en.detail_installing(), "Installing dependencies"),
        (
            zh.detail_install_done(),
            "依赖安装完成",
            en.detail_install_done(),
            "Dependencies installed",
        ),
        (zh.detail_building(), "执行构建脚本", en.detail_building(), "Running build script"),
        (zh.detail_build_done(), "构建完成", en.detail_build_done(), "Build complete"),
        (
            zh.detail_starting_host(),
            "启动 dsh web 宿主",
            en.detail_starting_host(),
            "Starting dsh web host",
        ),
        (zh.detail_host_ready(), "宿主就绪 {}", en.detail_host_ready(), "Host ready {}"),
        (
            zh.detail_sync_updated_sha(),
            "已更新至 {}",
            en.detail_sync_updated_sha(),
            "Updated to {}",
        ),
        (
            zh.detail_sync_updated_fallback(),
            "已重新同步（API 回退）",
            en.detail_sync_updated_fallback(),
            "Re-synced (API fallback)",
        ),
        (zh.progress_sync_done(), "仓库同步完成", en.progress_sync_done(), "Repository synced"),
        (
            zh.progress_install_done(),
            "依赖安装完成",
            en.progress_install_done(),
            "Dependencies installed",
        ),
        (zh.progress_build_done(), "构建完成", en.progress_build_done(), "Build complete"),
    ];
    for (a, x, b, y) in both {
        assert_eq!(a, x);
        assert_eq!(b, y);
    }
}
