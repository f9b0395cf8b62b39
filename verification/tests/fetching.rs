use deepseek_harness_runtime::extract::{
    extract_tgz, extract_zip, ExtractEvent, ExtractOp, TgzUnpack,
};
use deepseek_harness_runtime::http_util::{
    download_file, get_json_with_timeout, success, DownloadEvent, DownloadOp, Exchange, HttpError,
    USER_AGENT,
};
use deepseek_harness_runtime::path::PathStyle;
use std::io::Cursor;
use std::io::Read;
use std::io::Write;

#[test]
fn test_user_agent_defined() {
    assert!(USER_AGENT.starts_with("rustc-deepseek-harness/"));
}

#[test]
fn successful_statuses_are_those_of_the_protocol() {
    let mut s: u16 = 100;
    while s < 1000 {
        assert_eq!(success(s), reqwest::StatusCode::from_u16(s).unwrap().is_success());
        s += 1;
    }
}

#[test]
fn every_failure_of_a_request_is_classified() {
    let url = "https://x";
    let slow = Exchange::NotSent { timeout: true, connect: false, error: "t".to_string() };
    assert_eq!(
        get_json_with_timeout(url, slow),
        Some(HttpError::Unreachable("t".to_string()))
    );
    let cut = Exchange::NotSent { timeout: false, connect: true, error: "c".to_string() };
    let e = get_json_with_timeout(url, cut).unwrap();
    assert_eq!(e.message(), "网络不可达/超时: c");
    let odd = Exchange::NotSent { timeout: false, connect: false, error: "o".to_string() };
    assert_eq!(
        get_json_with_timeout(url, odd).unwrap().message(),
        "GET https://x 请求失败: o"
    );
    let none = Exchange::NoClient { error: "n".to_string() };
    assert_eq!(
        get_json_with_timeout(url, none).unwrap().message(),
        "构建 HTTP 客户端失败: n"
    );
    let refused = Exchange::Answered { status: 403, body_error: None };
    let e = get_json_with_timeout(url, refused).unwrap();
    assert_eq!(e, HttpError::HttpStatus(403));
    assert_eq!(e.message(), "HTTP 状态码异常: 403");
    let broken = Exchange::Answered { status: 200, body_error: Some("b".to_string()) };
    assert_eq!(
        get_json_with_timeout(url, broken).unwrap().message(),
        "GET https://x 响应 JSON 解析失败: b"
    );
    let fine = Exchange::Answered { status: 204, body_error: None };
    assert_eq!(get_json_with_timeout(url, fine), None);
}

fn downloading() -> deepseek_harness_runtime::http_util::DownloadRun {
    let mut run = download_file(PathStyle::Unix, "https://u", "/ws/node/node-v1.zip");
    assert_eq!(run.action(), DownloadOp::Request { url: "https://u".to_string() });
    run.advance(DownloadEvent::Answered {
        success: true,
        status: "200 OK".to_string(),
        total: Some(300),
    });
    assert_eq!(
        run.action(),
        DownloadOp::Create { path: "/ws/node/node-v1.part".to_string() }
    );
    run.advance(DownloadEvent::Done);
    run
}

#[test]
fn a_download_writes_reports_and_is_renamed() {
    let mut run = downloading();
    let mut seen: Vec<u64> = Vec::new();
    for len in [100u64, 150, 50, 0] {
        assert_eq!(run.action(), DownloadOp::Read);
        run.advance(DownloadEvent::Chunk { len });
        if len > 0 {
            assert_eq!(run.action(), DownloadOp::Write);
            run.advance(DownloadEvent::Done);
            match run.action() {
                DownloadOp::Report { written, total } => {
                    assert_eq!(total, Some(300));
                    seen.push(written);
                }
                other => panic!("{other:?}"),
            }
            run.advance(DownloadEvent::Done);
        }
    }
    assert_eq!(seen, vec![100, 250, 300]);
    assert_eq!(run.action(), DownloadOp::Flush);
    run.advance(DownloadEvent::Done);
    assert_eq!(
        run.action(),
        DownloadOp::Rename {
            from: "/ws/node/node-v1.part".to_string(),
            to: "/ws/node/node-v1.zip".to_string()
        }
    );
    run.advance(DownloadEvent::Done);
    assert_eq!(run.action(), DownloadOp::Finish);
    assert_eq!(run.room(), u64::MAX - 300);
}

#[test]
fn a_failed_download_removes_what_it_wrote() {
    let discard = DownloadOp::Discard { path: "/ws/node/node-v1.part".to_string() };
    let mut run = downloading();
    run.advance(DownloadEvent::Failed("reset".to_string()));
    assert_eq!(run.action(), discard);
    run.advance(DownloadEvent::Done);
    assert_eq!(run.action(), DownloadOp::Fail { error: "读取响应体失败: reset".to_string() });

    let mut run = downloading();
    run.advance(DownloadEvent::Chunk { len: 5 });
    run.advance(DownloadEvent::Failed("full".to_string()));
    assert_eq!(run.action(), discard);
    run.advance(DownloadEvent::Failed("gone".to_string()));
    assert_eq!(
        run.action(),
        DownloadOp::Fail { error: "写入文件 /ws/node/node-v1.part 失败: full".to_string() }
    );

    let mut run = downloading();
    run.advance(DownloadEvent::Chunk { len: 0 });
    run.advance(DownloadEvent::Failed("io".to_string()));
    run.advance(DownloadEvent::Done);
    assert_eq!(
        run.action(),
        DownloadOp::Fail { error: "刷新文件 /ws/node/node-v1.part 失败: io".to_string() }
    );

    let mut run = downloading();
    run.advance(DownloadEvent::Chunk { len: 0 });
    run.advance(DownloadEvent::Done);
    run.advance(DownloadEvent::Failed("denied".to_string()));
    assert_eq!(run.action(), discard);
    run.advance(DownloadEvent::Done);
    assert_eq!(
        run.action(),
        DownloadOp::Fail {
            error: "重命名 /ws/node/node-v1.part -> /ws/node/node-v1.zip 失败: denied".to_string()
        }
    );
}

#[test]
fn a_download_that_never_starts_is_reported() {
    let mut run = download_file(PathStyle::Unix, "https://u", "/d/f");
    run.advance(DownloadEvent::Answered {
        success: false,
        status: "404 Not Found".to_string(),
        total: None,
    });
    run.advance(DownloadEvent::Done);
    assert_eq!(
        run.action(),
        DownloadOp::Fail { error: "下载 https://u 返回非成功状态: 404 Not Found".to_string() }
    );
    let mut run = download_file(PathStyle::Unix, "https://u", "/d/f");
    run.advance(DownloadEvent::Failed("dns".to_string()));
    run.advance(DownloadEvent::Done);
    assert_eq!(
        run.action(),
        DownloadOp::Fail { error: "下载 https://u 请求失败: dns".to_string() }
    );
    let mut run = download_file(PathStyle::Unix, "https://u", "/d/f");
    run.advance(DownloadEvent::NoClient("tls".to_string()));
    run.advance(DownloadEvent::Done);
    assert_eq!(
        run.action(),
        DownloadOp::Fail { error: "构建 HTTP 客户端失败: tls".to_string() }
    );
    let mut run = download_file(PathStyle::Unix, "https://u", "/d/f");
    run.advance(DownloadEvent::Answered {
        success: true,
        status: "200 OK".to_string(),
        total: None,
    });
    run.advance(DownloadEvent::Failed("denied".to_string()));
    run.advance(DownloadEvent::Done);
    assert_eq!(
        run.action(),
        DownloadOp::Fail { error: "创建文件 /d/f.part 失败: denied".to_string() }
    );
}

/// Unpacks an archive in memory, and lists the directories made and the files written.
fn unpack(bytes: Vec<u8>, dest: &str) -> (Vec<String>, Vec<(String, String)>) {
    let mut archive = zip::ZipArchive::new(Cursor::new(bytes)).unwrap();
    let mut run = extract_zip(PathStyle::Unix, "a.zip", dest);
    let mut dirs: Vec<String> = Vec::new();
    let mut files: Vec<(String, String)> = Vec::new();
    let mut at: usize = 0;
    loop {
        match run.action() {
            ExtractOp::Open { zip } => {
                assert_eq!(zip, "a.zip");
                run.advance(ExtractEvent::Done);
            }
            ExtractOp::Count => {
                run.advance(ExtractEvent::Counted { entries: archive.len() as u64 });
            }
            ExtractOp::Lookup { index } => {
                at = index as usize;
                let entry = archive.by_index(at).unwrap();
                let event = match entry.enclosed_name() {
                    Some(name) => ExtractEvent::Named {
                        name: name.to_str().unwrap().to_string(),
                        is_dir: entry.is_dir(),
                    },
                    None => ExtractEvent::Unnamed,
                };
                run.advance(event);
            }
            ExtractOp::MakeDir { dir } => {
                dirs.push(dir);
                run.advance(ExtractEvent::Done);
            }
            ExtractOp::Create { .. } => run.advance(ExtractEvent::Done),
            ExtractOp::Copy { path } => {
                let mut content = String::new();
                archive.by_index(at).unwrap().read_to_string(&mut content).unwrap();
                files.push((path, content));
                run.advance(ExtractEvent::Done);
            }
            ExtractOp::Finish => return (dirs, files),
            ExtractOp::Fail { error } => panic!("{error}"),
        }
    }
}

#[test]
fn test_extract_zip_roundtrip() {
    let mut writer = zip::ZipWriter::new(Cursor::new(Vec::new()));
    let options: zip::write::FileOptions<'_, ()> = zip::write::FileOptions::default();
    writer.add_directory("topdir/", options).unwrap();
    writer.start_file("topdir/hello.txt", options).unwrap();
    writer.write_all(b"hello node").unwrap();
    let bytes = writer.finish().unwrap().into_inner();

    let (dirs, files) = unpack(bytes, "/out");
    assert_eq!(dirs, vec!["/out/topdir/".to_string(), "/out/topdir".to_string()]);
    assert_eq!(files, vec![("/out/topdir/hello.txt".to_string(), "hello node".to_string())]);
}

#[test]
fn entries_that_lead_out_are_passed_over() {
    let mut writer = zip::ZipWriter::new(Cursor::new(Vec::new()));
    let options: zip::write::FileOptions<'_, ()> = zip::write::FileOptions::default();
    writer.start_file("../evil.txt", options).unwrap();
    writer.write_all(b"no").unwrap();
    writer.start_file("good.txt", options).unwrap();
    writer.write_all(b"yes").unwrap();
    let bytes = writer.finish().unwrap().into_inner();

    let (_, files) = unpack(bytes, "/out");
    assert_eq!(files, vec![("/out/good.txt".to_string(), "yes".to_string())]);
}

#[test]
fn an_empty_archive_is_done_at_once() {
    let mut run = extract_zip(PathStyle::Unix, "a.zip", "/out");
    run.advance(ExtractEvent::Done);
    run.advance(ExtractEvent::Counted { entries: 0 });
    assert_eq!(run.action(), ExtractOp::Finish);
}

#[test]
fn every_failure_of_an_extraction_is_reported() {
    let fail = |events: Vec<ExtractEvent>| -> String {
        let mut run = extract_zip(PathStyle::Unix, "a.zip", "/out");
        for e in events {
            run.advance(e);
        }
        match run.action() {
            ExtractOp::Fail { error } => error,
            other => panic!("{other:?}"),
        }
    };
    let x = || ExtractEvent::Failed("x".to_string());
    let counted = || ExtractEvent::Counted { entries: 2 };
    let file = || ExtractEvent::Named { name: "d/f".to_string(), is_dir: false };
    let dir = || ExtractEvent::Named { name: "d/".to_string(), is_dir: true };
    assert_eq!(fail(vec![x()]), "打开 zip a.zip 失败: x");
    assert_eq!(fail(vec![ExtractEvent::Done, x()]), "读取 zip a.zip 失败: x");
    assert_eq!(
        fail(vec![ExtractEvent::Done, counted(), ExtractEvent::Unnamed, x()]),
        "读取 zip 条目 #1 失败: x"
    );
    assert_eq!(
        fail(vec![ExtractEvent::Done, counted(), dir(), x()]),
        "创建目录 /out/d/ 失败: x"
    );
    assert_eq!(
        fail(vec![ExtractEvent::Done, counted(), file(), x()]),
        "创建目录 /out/d 失败: x"
    );
    assert_eq!(
        fail(vec![ExtractEvent::Done, counted(), file(), ExtractEvent::Done, x()]),
        "创建文件 /out/d/f 失败: x"
    );
    assert_eq!(
        fail(vec![
            ExtractEvent::Done,
            counted(),
            file(),
            ExtractEvent::Done,
            ExtractEvent::Done,
            x()
        ]),
        "解压写入 /out/d/f 失败: x"
    );
}

#[test]
fn a_compressed_tar_archive_is_reported_on() {
    assert_eq!(extract_tgz("p.tgz", TgzUnpack::Unpacked), Ok(()));
    assert_eq!(
        extract_tgz("p.tgz", TgzUnpack::NotOpened { error: "x".to_string() }),
        Err("打开 tgz p.tgz 失败: x".to_string())
    );
    assert_eq!(
        extract_tgz("p.tgz", TgzUnpack::NotUnpacked { error: "y".to_string() }),
        Err("解压 tgz p.tgz 失败: y".to_string())
    );
}
