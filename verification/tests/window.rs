use deepseek_harness_runtime::i18n::Lang;
use deepseek_harness_runtime::path::PathStyle;
use deepseek_harness_runtime::webview_app::{
    eval_log, eval_progress, eval_set_stage, mime_for, resolve_request, runtime_entry_url,
    serve_dist_file, status_page_html, ServeEvent, ServeOp, DIST_ENTRY_URL,
};

const U: PathStyle = PathStyle::Unix;

#[test]
fn test_mime_for() {
    assert_eq!(mime_for(U, "a/index.html"), "text/html; charset=utf-8");
    assert_eq!(mime_for(U, "a/app.JS"), "text/javascript; charset=utf-8");
    assert_eq!(mime_for(U, "a/app.css"), "text/css; charset=utf-8");
    assert_eq!(mime_for(U, "a/logo.svg"), "image/svg+xml");
    assert_eq!(mime_for(U, "a/f.woff2"), "font/woff2");
    assert_eq!(mime_for(U, "a/data.json"), "application/json; charset=utf-8");
    assert_eq!(mime_for(U, "a/unknown.xyz"), "application/octet-stream");
    assert_eq!(mime_for(U, "a/img.webp"), "image/webp");
    assert_eq!(mime_for(U, "a/img.avif"), "image/avif");
}

#[test]
fn every_known_extension_has_its_type() {
    for (ext, mime) in [
        ("htm", "text/html; charset=utf-8"),
        ("mjs", "text/javascript; charset=utf-8"),
        ("map", "application/json; charset=utf-8"),
        ("png", "image/png"),
        ("jpg", "image/jpeg"),
        ("jpeg", "image/jpeg"),
        ("gif", "image/gif"),
        ("ico", "image/x-icon"),
        ("woff", "font/woff"),
        ("ttf", "font/ttf"),
        ("otf", "font/otf"),
        ("txt", "text/plain; charset=utf-8"),
        ("wasm", "application/wasm"),
        ("mp4", "video/mp4"),
        ("webm", "video/webm"),
        ("mp3", "audio/mpeg"),
    ] {
        assert_eq!(mime_for(U, &format!("x.{ext}")), mime);
        assert_eq!(mime_for(PathStyle::Windows, &format!("C:\\d.d\\X.{}", ext.to_uppercase())), mime);
    }
    for odd in ["", "/", "x", ".html", "x.", "a.html/.."] {
        assert_eq!(mime_for(U, odd), "application/octet-stream", "{odd:?}");
    }
    assert_eq!(mime_for(U, "a.html/."), "text/html; charset=utf-8");
}

/// Answers a request from a directory that holds `index.html` and `assets/app.js`.
fn answer(uri_path: &str) -> (u16, String, String) {
    let mut run = serve_dist_file(U, Some("/dist"), uri_path);
    loop {
        let event = match run.action() {
            Some(ServeOp::Look { path }) => ServeEvent::Dir {
                is_dir: matches!(path.trim_end_matches('/'), "/dist" | "/dist/assets"),
            },
            Some(ServeOp::Read { path }) => match path.as_str() {
                "/dist/index.html" => ServeEvent::Content { bytes: b"<h1>hi</h1>".to_vec() },
                "/dist/assets/app.js" => ServeEvent::Content { bytes: b"console.log(1)".to_vec() },
                _ => ServeEvent::Unreadable,
            },
            Some(ServeOp::Message { status, content_type, text }) => {
                return (status, content_type, text)
            }
            Some(ServeOp::Bytes { .. }) => panic!("bytes come at the end"),
            None => match run.into_answer() {
                ServeOp::Bytes { status, content_type, body } => {
                    return (status, content_type, String::from_utf8(body).unwrap())
                }
                other => panic!("{other:?}"),
            },
        };
        run.advance(event);
    }
}

#[test]
fn test_serve_dist_file() {
    let (status, content_type, _) = answer("/index.html");
    assert_eq!(status, 200);
    assert_eq!(content_type, "text/html; charset=utf-8");

    let (status, _, body) = answer("/");
    assert_eq!(status, 200);
    assert_eq!(body, "<h1>hi</h1>");

    let (status, content_type, body) = answer("/assets/app.js");
    assert_eq!(status, 200);
    assert_eq!(content_type, "text/javascript; charset=utf-8");
    assert_eq!(body, "console.log(1)");

    let (status, content_type, body) = answer("/nope.js");
    assert_eq!(status, 404);
    assert_eq!(content_type, "text/plain; charset=utf-8");
    assert_eq!(body, "404 Not Found");

    let (status, _, _) = answer("/../state.json");
    assert_eq!(status, 404);
}

#[test]
fn odd_requests_are_answered_too() {
    assert_eq!(answer("").0, 200);
    assert_eq!(answer("///").0, 200);
    assert_eq!(answer("/./index.html").0, 200);
    assert_eq!(answer("/.").0, 200);
    assert_eq!(answer("/assets").0, 404);
    assert_eq!(answer("/assets/../index.html").0, 404);
}

#[test]
fn requests_lead_nowhere_but_inside() {
    assert_eq!(resolve_request(U, "/dist", "/a//b/./c").as_deref(), Some("/dist/a/b/c"));
    assert_eq!(resolve_request(U, "/dist", "..").as_deref(), None);
    assert_eq!(resolve_request(U, "/dist", "/a/../../b").as_deref(), None);
    assert_eq!(resolve_request(U, "/dist", "/..a/b..").as_deref(), Some("/dist/..a/b.."));
    let w = PathStyle::Windows;
    assert_eq!(resolve_request(w, "C:\\dist", "/a/b").as_deref(), Some("C:\\dist\\a\\b"));
    assert_eq!(resolve_request(w, "C:\\dist", "/a\\..\\b").as_deref(), None);
    assert_eq!(resolve_request(w, "C:\\dist", "/C:/windows").as_deref(), None);
    assert_eq!(resolve_request(w, "C:\\dist", "/\\windows").as_deref(), None);
    assert_eq!(resolve_request(w, "C:\\dist", "/a/D:x").as_deref(), None);
}

#[test]
fn without_pages_there_is_a_message() {
    let run = serve_dist_file(U, None, "/index.html");
    assert_eq!(
        run.action(),
        Some(ServeOp::Message {
            status: 503,
            content_type: "text/plain; charset=utf-8".to_string(),
            text: "构建尚未就绪，请等待同步与构建完成。".to_string()
        })
    );
}

#[test]
fn the_entry_address_suits_the_system() {
    assert_eq!(runtime_entry_url("windows"), "http://dist.localhost/index.html");
    assert_eq!(runtime_entry_url("android"), "http://dist.localhost/index.html");
    assert_eq!(runtime_entry_url("linux"), DIST_ENTRY_URL);
    assert_eq!(runtime_entry_url("macos"), "dist://localhost/index.html");
}

#[test]
fn test_eval_snippets() {
    let s = eval_set_stage("build", "running", "正在构建 \"vite\"");
    assert!(s.contains("dshSetStage"));
    assert!(s.contains("\\\"vite\\\""));

    let l = eval_log("line'with\\quotes");
    assert!(l.contains("dshLog"));

    let half = serde_json::to_string(&0.5f64).unwrap();
    let p = eval_progress("repo", Some(&half), Some("下载中 50%"));
    assert!(p.contains("dshSetProgress"));
    assert!(p.contains("0.5"));
    assert!(p.contains("下载中 50%"));

    let indet = eval_progress("install", None, None);
    assert!(indet.contains("-1"));

    let whole = serde_json::to_string(&1.0f64).unwrap();
    let no_detail = eval_progress("build", Some(&whole), None);
    assert!(no_detail.contains("null"));
}

#[test]
fn scripts_in_full() {
    assert_eq!(
        eval_set_stage("node", "done", "Node v24.19.0 ready"),
        "window.dshSetStage && dshSetStage(\"node\", \"done\", \"Node v24.19.0 ready\");"
    );
    assert_eq!(
        eval_log("a\"b\\c\nd\te\u{1}f\u{1f}g\u{7f}h\u{2028}"),
        "window.dshLog && dshLog(\"a\\\"b\\\\c\\nd\\te\\u0001f\\u001fg\u{7f}h\u{2028}\");"
    );
    assert_eq!(
        eval_progress("repo", Some("0.25"), Some("x")),
        "window.dshSetProgress && dshSetProgress(\"repo\", 0.25, \"x\");"
    );
    assert_eq!(
        eval_progress("install", None, None),
        "window.dshSetProgress && dshSetProgress(\"install\", -1.0, null);"
    );
    assert_eq!(serde_json::to_string(&-1.0f64).unwrap(), "-1.0");
}

#[test]
fn a_quoted_line_reads_back() {
    let mut line = String::new();
    let mut u: u32 = 0;
    while u < 0x300 {
        if let Some(c) = char::from_u32(u) {
            line.push(c);
        }
        u += 1;
    }
    line.push('文');
    line.push('\u{1f600}');
    let script = eval_log(&line);
    let quoted = script
        .strip_prefix("window.dshLog && dshLog(")
        .and_then(|s| s.strip_suffix(");"))
        .unwrap();
    let read: String = serde_json::from_str(quoted).unwrap();
    assert_eq!(read, line);
    assert!(quoted.chars().all(|c| c >= ' '));
}

#[test]
fn test_status_page_has_progress_bars() {
    let html = status_page_html(Lang::Zh);
    assert!(html.contains("id=\"bar-node\""));
    assert!(html.contains("id=\"bar-repo\""));
    assert!(html.contains("id=\"bar-install\""));
    assert!(html.contains("id=\"bar-build\""));
    assert!(html.contains("dshSetProgress"));
}

#[test]
fn test_status_page_html_zh() {
    let html = status_page_html(Lang::Zh);
    assert!(html.contains("等待开始"));
    assert!(!html.contains("Pending"));
    assert!(html.contains(r#"<html lang="zh-CN">"#));
}

#[test]
fn test_status_page_html_en() {
    let html = status_page_html(Lang::En);
    assert!(html.contains("Pending"));
    assert!(!html.contains("等待开始"));
    assert!(html.contains(r#"<html lang="en">"#));
}

#[test]
fn test_status_page_html_distinct() {
    assert_ne!(status_page_html(Lang::Zh), status_page_html(Lang::En));
}

#[test]
fn every_stage_of_the_page_is_pending_in_its_own_language() {
    for (lang, other) in [(Lang::Zh, Lang::En), (Lang::En, Lang::Zh)] {
        let html = status_page_html(lang);
        assert_eq!(html.matches(lang.pending_detail()).count(), 5);
        assert_eq!(html.matches(other.pending_detail()).count(), 0);
        let mut at = 0;
        for part in [
            &format!("<html lang=\"{}\">", lang.lang_attr()),
            lang.title(),
            lang.heading(),
            "id=\"stage-node\"",
            lang.stage_node(),
            "id=\"bar-node\"",
            "id=\"stage-repo\"",
            lang.stage_repo(),
            "id=\"bar-repo\"",
            "id=\"stage-install\"",
            lang.stage_install(),
            "id=\"bar-install\"",
            "id=\"stage-build\"",
            lang.stage_build(),
            "id=\"bar-build\"",
            "id=\"stage-host\"",
            lang.stage_host(),
            "id=\"bar-host\"",
            "window.dshSetStage",
            "window.dshSetProgress",
            "window.dshLog",
        ] {
            let found = html[at..].find(part).unwrap_or_else(|| panic!("{part}"));
            at += found + part.len();
        }
    }
}

#[test]
fn the_page_has_its_parts_in_order() {
    let html = status_page_html(Lang::En);
    let parts = [
        "<!DOCTYPE html>\n<html lang=\"en\">\n<head>\n<meta charset=\"utf-8\">\n<title>DeepSeek Harness Runtime - Starting</title>\n<style>\n  :root { color-scheme: dark; }\n",
        "</style>\n</head>\n<body>\n<h1>DeepSeek Harness Runtime · Preparing application…</h1>\n<div class=\"stages\">\n",
        "  <div class=\"stage pending\" id=\"stage-node\"><span class=\"dot\"></span><span class=\"name\">Node Runtime</span><span class=\"detail\">Pending</span><div class=\"progress\" id=\"wrap-node\"><i id=\"bar-node\"></i></div></div>\n",
        "  <div class=\"stage pending\" id=\"stage-repo\">",
        "  <div class=\"stage pending\" id=\"stage-install\">",
        "  <div class=\"stage pending\" id=\"stage-build\">",
        "<span class=\"name\">Start Host</span>",
        "</div>\n<pre id=\"log\"></pre>\n<script>\n",
        "window.dshSetStage = function (stage, state, detail) {\n",
        "window.dshSetProgress = function (stage, value, detail) {\n",
        "window.dshLog = function (line) {\n",
        "log.textContent += line + \"\\n\";\n",
        "</script>\n</body>\n</html>",
    ];
    let mut rest: &str = &html;
    for p in parts {
        let at = rest.find(p).unwrap_or_else(|| panic!("missing {p:?}"));
        rest = &rest[at + p.len()..];
    }
    assert!(rest.is_empty());
    assert!(!html.contains("{{"));
}
