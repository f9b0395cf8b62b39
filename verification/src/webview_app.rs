//! What the window shows: the page on which the start is followed, the scripts that keep it up
//! to date, and the built pages that it can be served from disk.

use vstd::prelude::*;
use vstd::string::*;

use crate::i18n;
use crate::i18n::{Lang, Phrase};
use crate::json;
use crate::json::quote;
use crate::path;
use crate::path::{extension_of, join_path, last_name, path_names, relative_path, PathStyle};
use crate::text;
use crate::text::{cat3, cat4, copy_text, lower_is, same, strip_leading};

verus! {

broadcast use vstd::string::group_string_axioms;

/// The scheme under which the built pages are served.
pub const DIST_SCHEME: &'static str = "dist";

/// The address of the built pages.
pub const DIST_ENTRY_URL: &'static str = "dist://localhost/index.html";

/// Whether the web view of an operating system can only be sent to `http` addresses.
pub open spec fn needs_http(os: Seq<char>) -> bool {
    os == "windows"@ || os == "android"@
}

/// The address of the built pages, as the web view of the operating system `os` takes it.
pub fn runtime_entry_url(os: &str) -> (r: String)
    ensures
        r@ == (if needs_http(os@) {
            "http://"@ + DIST_SCHEME@ + ".localhost/index.html"@
        } else {
            DIST_ENTRY_URL@
        }),
{
    if same(os, "windows") || same(os, "android") {
        cat3("http://", DIST_SCHEME, ".localhost/index.html")
    } else {
        copy_text(DIST_ENTRY_URL)
    }
}

// ---------------------------------------------------------------------------
// Serving the built pages
// ---------------------------------------------------------------------------

/// The media type for an extension in small letters.
pub open spec fn mime_of(ext: Seq<char>) -> Seq<char> {
    if ext == "html"@ || ext == "htm"@ {
        "text/html; charset=utf-8"@
    } else if ext == "js"@ || ext == "mjs"@ {
        "text/javascript; charset=utf-8"@
    } else if ext == "css"@ {
        "text/css; charset=utf-8"@
    } else if ext == "json"@ || ext == "map"@ {
        "application/json; charset=utf-8"@
    } else if ext == "png"@ {
        "image/png"@
    } else if ext == "jpg"@ || ext == "jpeg"@ {
        "image/jpeg"@
    } else if ext == "gif"@ {
        "image/gif"@
    } else if ext == "svg"@ {
        "image/svg+xml"@
    } else if ext == "webp"@ {
        "image/webp"@
    } else if ext == "avif"@ {
        "image/avif"@
    } else if ext == "ico"@ {
        "image/x-icon"@
    } else if ext == "woff"@ {
        "font/woff"@
    } else if ext == "woff2"@ {
        "font/woff2"@
    } else if ext == "ttf"@ {
        "font/ttf"@
    } else if ext == "otf"@ {
        "font/otf"@
    } else if ext == "txt"@ {
        "text/plain; charset=utf-8"@
    } else if ext == "wasm"@ {
        "application/wasm"@
    } else if ext == "mp4"@ {
        "video/mp4"@
    } else if ext == "webm"@ {
        "video/webm"@
    } else if ext == "mp3"@ {
        "audio/mpeg"@
    } else {
        "application/octet-stream"@
    }
}

/// The media type for a path: that of its extension, whose capitals count as small letters.
pub open spec fn mime_of_path(style: PathStyle, p: Seq<char>) -> Seq<char> {
    match path::file_name(style, p) {
        Some(name) => match path::extension(name) {
            Some(ext) => mime_of(text::lower(ext)),
            None => mime_of(Seq::empty()),
        },
        None => mime_of(Seq::empty()),
    }
}

/// The media type for an extension, whose capitals count as small letters.
fn mime_for_extension(ext: &str) -> (r: &'static str)
    ensures
        r@ == mime_of(text::lower(ext@)),
{
    if lower_is(ext, "html") || lower_is(ext, "htm") {
        "text/html; charset=utf-8"
    } else if lower_is(ext, "js") || lower_is(ext, "mjs") {
        "text/javascript; charset=utf-8"
    } else if lower_is(ext, "css") {
        "text/css; charset=utf-8"
    } else if lower_is(ext, "json") || lower_is(ext, "map") {
        "application/json; charset=utf-8"
    } else if lower_is(ext, "png") {
        "image/png"
    } else if lower_is(ext, "jpg") || lower_is(ext, "jpeg") {
        "image/jpeg"
    } else if lower_is(ext, "gif") {
        "image/gif"
    } else if lower_is(ext, "svg") {
        "image/svg+xml"
    } else if lower_is(ext, "webp") {
        "image/webp"
    } else if lower_is(ext, "avif") {
        "image/avif"
    } else if lower_is(ext, "ico") {
        "image/x-icon"
    } else if lower_is(ext, "woff") {
        "font/woff"
    } else if lower_is(ext, "woff2") {
        "font/woff2"
    } else if lower_is(ext, "ttf") {
        "font/ttf"
    } else if lower_is(ext, "otf") {
        "font/otf"
    } else if lower_is(ext, "txt") {
        "text/plain; charset=utf-8"
    } else if lower_is(ext, "wasm") {
        "application/wasm"
    } else if lower_is(ext, "mp4") {
        "video/mp4"
    } else if lower_is(ext, "webm") {
        "video/webm"
    } else if lower_is(ext, "mp3") {
        "audio/mpeg"
    } else {
        "application/octet-stream"
    }
}

/// The media type for a path.
pub fn mime_for(style: PathStyle, p: &str) -> (r: &'static str)
    ensures
        r@ == mime_of_path(style, p@),
{
    proof {
        assert(text::lower(Seq::<char>::empty()) =~= Seq::<char>::empty());
        reveal_strlit("");
        assert(""@ =~= Seq::<char>::empty());
    }
    match last_name(style, p) {
        Some(name) => match extension_of(name.as_str()) {
            Some(ext) => mime_for_extension(ext),
            None => mime_for_extension(""),
        },
        None => mime_for_extension(""),
    }
}

/// The path that a request asks for, without the slashes at its start; the entry page for
/// an empty one.
pub open spec fn asked_path(uri_path: Seq<char>) -> Seq<char> {
    if uri_path.len() == 0 || uri_path == "/"@ {
        "index.html"@
    } else {
        text::strip_prefixes(uri_path, "/"@)
    }
}

/// Whether a name may stand in the path of a request: it does not lead up, and it does not
/// start with a drive.
pub open spec fn is_allowed(style: PathStyle, name: Seq<char>) -> bool {
    name != ".."@ && !path::has_drive(style, name)
}

/// Whether a request asks for something that may be below the built pages: its path is not
/// anchored anywhere, and none of its names leads out.
pub open spec fn is_inside(style: PathStyle, rel: Seq<char>) -> bool {
    &&& !path::has_drive(style, rel)
    &&& !path::starts_with_separator(style, rel)
    &&& forall|i: int|
        0 <= i < path::names(style, rel).len() ==> is_allowed(
            style,
            #[trigger] path::names(style, rel)[i],
        )
}

/// What stands behind the directory of the built pages in the path of the file that is
/// asked for.
pub open spec fn safe_path(style: PathStyle, rel: Seq<char>) -> Seq<char> {
    if path::names(style, rel).len() == 0 {
        "index.html"@
    } else {
        text::joined(path::names(style, rel), style.mark())
    }
}

/// The path that a request leads to; none if it leads out of the built pages.
pub open spec fn resolved(
    style: PathStyle,
    root: Seq<char>,
    uri_path: Seq<char>,
) -> Option<Seq<char>> {
    let rel = asked_path(uri_path);
    if is_inside(style, rel) {
        Some(path::join(style, root, safe_path(style, rel)))
    } else {
        None
    }
}

/// Finds the path that a request leads to.
pub fn resolve_request(style: PathStyle, root: &str, uri_path: &str) -> (r: Option<String>)
    ensures
        text::opt_text(r) == resolved(style, root@, uri_path@),
{
    proof {
        reveal_strlit("/");
    }
    let rel: &str = if uri_path.is_empty() || same(uri_path, "/") {
        "index.html"
    } else {
        strip_leading(uri_path, "/")
    };
    if path::anchored(style, rel) {
        return None;
    }
    let names = path_names(style, rel);
    let ghost ns = text::texts(names@);
    let mut i: usize = 0;
    while i < names.len()
        invariant
            i <= names@.len(),
            ns == text::texts(names@),
            ns == path::names(style, rel@),
            rel@ == asked_path(uri_path@),
            forall|j: int| 0 <= j < i ==> is_allowed(style, #[trigger] ns[j]),
        decreases names@.len() - i,
    {
        let name = names[i].as_str();
        assert(ns[i as int] == name@);
        if same(name, "..") || path::test_drive(style, name) {
            assert(!is_allowed(style, path::names(style, rel@)[i as int]));
            return None;
        }
        i += 1;
    }
    if names.len() == 0 {
        Some(join_path(style, root, "index.html"))
    } else {
        Some(join_path(style, root, relative_path(style, names.as_slice()).as_str()))
    }
}

/// Where serving a request stands.
#[derive(Clone, Copy, PartialEq, Eq, Structural, Debug)]
pub enum ServePhase {
    /// What the request leads to is looked at.
    Look,
    /// The file is read.
    Read,
    /// Over: the file is there.
    Found,
    /// Over: it is not.
    NotFound,
    /// Over: there are no built pages yet.
    NotReady,
}

/// Serving a request; `T` and `B` are `String` and `Vec<u8>` in the program, and `Seq<char>`
/// and `Seq<u8>` in contracts.
#[derive(Debug, PartialEq)]
pub struct ServeRunOf<T, B> {
    /// The notation of paths.
    pub style: PathStyle,
    /// What the request leads to.
    pub target: T,
    /// The content of the file.
    pub body: B,
    /// Where it stands.
    pub phase: ServePhase,
}

/// Serving a request.
pub type ServeRun = ServeRunOf<String, Vec<u8>>;

/// What an operation came to.
#[derive(Debug, PartialEq)]
pub enum ServeEventOf<B> {
    /// Whether the path is a directory.
    Dir { is_dir: bool },
    /// The content of the file.
    Content { bytes: B },
    /// The file cannot be read.
    Unreadable,
}

/// What an operation came to.
pub type ServeEvent = ServeEventOf<Vec<u8>>;

/// What is wanted next.
#[derive(Debug, PartialEq)]
pub enum ServeOpOf<T, B> {
    /// Look whether `path` is a directory.
    Look { path: T },
    /// Read the file `path`.
    Read { path: T },
    /// Nothing more: answer with these bytes.
    Bytes { status: u16, content_type: T, body: B },
    /// Nothing more: answer with this text.
    Message { status: u16, content_type: T, text: T },
}

/// What is wanted next.
pub type ServeOp = ServeOpOf<String, Vec<u8>>;

impl View for ServeRunOf<String, Vec<u8>> {
    type V = ServeRunOf<Seq<char>, Seq<u8>>;

    open spec fn view(&self) -> ServeRunOf<Seq<char>, Seq<u8>> {
        ServeRunOf {
            style: self.style,
            target: self.target@,
            body: self.body@,
            phase: self.phase,
        }
    }
}

impl View for ServeEventOf<Vec<u8>> {
    type V = ServeEventOf<Seq<u8>>;

    open spec fn view(&self) -> ServeEventOf<Seq<u8>> {
        match *self {
            ServeEventOf::Dir { is_dir } => ServeEventOf::Dir { is_dir },
            ServeEventOf::Content { bytes } => ServeEventOf::Content { bytes: bytes@ },
            ServeEventOf::Unreadable => ServeEventOf::Unreadable,
        }
    }
}

impl View for ServeOpOf<String, Vec<u8>> {
    type V = ServeOpOf<Seq<char>, Seq<u8>>;

    open spec fn view(&self) -> ServeOpOf<Seq<char>, Seq<u8>> {
        match *self {
            ServeOpOf::Look { path } => ServeOpOf::Look { path: path@ },
            ServeOpOf::Read { path } => ServeOpOf::Read { path: path@ },
            ServeOpOf::Bytes { status, content_type, body } => ServeOpOf::Bytes {
                status,
                content_type: content_type@,
                body: body@,
            },
            ServeOpOf::Message { status, content_type, text } => ServeOpOf::Message {
                status,
                content_type: content_type@,
                text: text@,
            },
        }
    }
}

/// An answer in plain text.
pub open spec fn text_answer(status: u16, message: Seq<char>) -> ServeOpOf<Seq<char>, Seq<u8>> {
    ServeOpOf::Message { status, content_type: "text/plain; charset=utf-8"@, text: message }
}

/// The answer for what is not there.
pub open spec fn not_found() -> ServeOpOf<Seq<char>, Seq<u8>> {
    text_answer(404, "404 Not Found"@)
}

/// Answers in plain text.
pub fn text_response(status: u16, message: &str) -> (r: ServeOp)
    ensures
        r@ == text_answer(status, message@),
{
    ServeOpOf::Message {
        status,
        content_type: copy_text("text/plain; charset=utf-8"),
        text: copy_text(message),
    }
}

/// Answers for what is not there.
pub fn not_found_response() -> (r: ServeOp)
    ensures
        r@ == not_found(),
{
    text_response(404, "404 Not Found")
}

impl ServeRunOf<Seq<char>, Seq<u8>> {
    /// What follows an event. An event that does not answer what was wanted changes
    /// nothing.
    pub open spec fn after(self, e: ServeEventOf<Seq<u8>>) -> Self {
        match (self.phase, e) {
            (ServePhase::Look, ServeEventOf::Dir { is_dir }) => ServeRunOf {
                target: if is_dir {
                    path::join(self.style, self.target, "index.html"@)
                } else {
                    self.target
                },
                phase: ServePhase::Read,
                ..self
            },
            (ServePhase::Read, ServeEventOf::Content { bytes }) => ServeRunOf {
                body: bytes,
                phase: ServePhase::Found,
                ..self
            },
            (ServePhase::Read, ServeEventOf::Unreadable) => ServeRunOf {
                phase: ServePhase::NotFound,
                ..self
            },
            _ => self,
        }
    }

    /// What is wanted next.
    pub open spec fn wanted(self) -> ServeOpOf<Seq<char>, Seq<u8>> {
        match self.phase {
            ServePhase::Look => ServeOpOf::Look { path: self.target },
            ServePhase::Read => ServeOpOf::Read { path: self.target },
            ServePhase::Found => ServeOpOf::Bytes {
                status: 200,
                content_type: mime_of_path(self.style, self.target),
                body: self.body,
            },
            ServePhase::NotFound => not_found(),
            ServePhase::NotReady => text_answer(
                503,
                "构建尚未就绪，请等待同步与构建完成。"@,
            ),
        }
    }
}

/// How serving a request starts: with a look at what it leads to, or with its answer where
/// there are no built pages yet or where it leads out of them.
pub open spec fn serve_start(
    style: PathStyle,
    dist_root: Option<Seq<char>>,
    uri_path: Seq<char>,
) -> ServeRunOf<Seq<char>, Seq<u8>> {
    match dist_root {
        None => ServeRunOf {
            style,
            target: Seq::empty(),
            body: Seq::empty(),
            phase: ServePhase::NotReady,
        },
        Some(root) => match resolved(style, root, uri_path) {
            None => ServeRunOf {
                style,
                target: Seq::empty(),
                body: Seq::empty(),
                phase: ServePhase::NotFound,
            },
            Some(p) => ServeRunOf {
                style,
                target: p,
                body: Seq::empty(),
                phase: ServePhase::Look,
            },
        },
    }
}

/// Starts to serve a request from the built pages in `dist_root`, if there are some.
pub fn serve_dist_file(style: PathStyle, dist_root: Option<&str>, uri_path: &str) -> (r: ServeRun)
    ensures
        r@ == serve_start(style, text::opt_str(dist_root), uri_path@),
{
    let (target, phase): (String, ServePhase) = match dist_root {
        None => (String::new(), ServePhase::NotReady),
        Some(root) => match resolve_request(style, root, uri_path) {
            None => (String::new(), ServePhase::NotFound),
            Some(p) => (p, ServePhase::Look),
        },
    };
    ServeRunOf { style, target, body: Vec::new(), phase }
}

impl ServeRunOf<String, Vec<u8>> {
    /// What is wanted next, while the answer is not known.
    pub fn action(&self) -> (r: Option<ServeOp>)
        ensures
            match r {
                Some(op) => op@ == self@.wanted(),
                None => self@.phase == ServePhase::Found,
            },
    {
        match self.phase {
            ServePhase::Look => Some(ServeOpOf::Look { path: copy_text(self.target.as_str()) }),
            ServePhase::Read => Some(ServeOpOf::Read { path: copy_text(self.target.as_str()) }),
            ServePhase::Found => None,
            ServePhase::NotFound => Some(not_found_response()),
            ServePhase::NotReady => Some(
                text_response(503, "构建尚未就绪，请等待同步与构建完成。"),
            ),
        }
    }

    /// The answer, once the file is there.
    pub fn into_answer(self) -> (r: ServeOp)
        requires
            self@.phase == ServePhase::Found,
        ensures
            r@ == self@.wanted(),
    {
        ServeOpOf::Bytes {
            status: 200,
            content_type: copy_text(mime_for(self.style, self.target.as_str())),
            body: self.body,
        }
    }

    /// Takes note of what the wanted operation came to.
    pub fn advance(&mut self, e: ServeEvent)
        ensures
            final(self)@ == old(self)@.after(e@),
    {
        match (self.phase, e) {
            (ServePhase::Look, ServeEventOf::Dir { is_dir }) => {
                if is_dir {
                    self.target = join_path(self.style, self.target.as_str(), "index.html");
                }
                self.phase = ServePhase::Read;
            },
            (ServePhase::Read, ServeEventOf::Content { bytes }) => {
                self.body = bytes;
                self.phase = ServePhase::Found;
            },
            (ServePhase::Read, ServeEventOf::Unreadable) => {
                self.phase = ServePhase::NotFound;
            },
            _ => {},
        }
    }
}

// ---------------------------------------------------------------------------
// The page on which the start is followed
// ---------------------------------------------------------------------------

/// The page before its language.
pub const PAGE_OPEN: &'static str = "<!DOCTYPE html>\n<html lang=\"";

/// The page between its language and its title.
pub const PAGE_HEAD: &'static str = "\">\n<head>\n<meta charset=\"utf-8\">\n<title>";

/// The page between its heading and its stages.
pub const PAGE_STAGES: &'static str = "</h1>\n<div class=\"stages\">\n";

/// The row of a stage before its name in scripts.
pub const ROW_OPEN: &'static str = "  <div class=\"stage pending\" id=\"stage-";

/// The row of a stage before its name.
pub const ROW_NAME: &'static str = "\"><span class=\"dot\"></span><span class=\"name\">";

/// The row of a stage before what it does.
pub const ROW_DETAIL: &'static str = "</span><span class=\"detail\">";

/// The row of a stage before its progress.
pub const ROW_WRAP: &'static str = "</span><div class=\"progress\" id=\"wrap-";

/// The row of a stage before the bar of its progress.
pub const ROW_BAR: &'static str = "\"><i id=\"bar-";

/// The end of the row of a stage.
pub const ROW_CLOSE: &'static str = "\"></i></div></div>\n";

/// The page between its title and its heading.
pub const PAGE_STYLE: &'static str = r#"</title>
<style>
  :root { color-scheme: dark; }
  * { box-sizing: border-box; }
  body {
    margin: 0; padding: 32px;
    background: #0f1117; color: #e6e6e6;
    font-family: "Segoe UI", "Microsoft YaHei", sans-serif;
  }
  h1 { font-size: 20px; margin: 0 0 24px; }
  .stages { display: flex; flex-direction: column; gap: 10px; max-width: 640px; }
  .stage {
    display: flex; align-items: center; gap: 12px;
    padding: 10px 14px; border-radius: 8px;
    background: #1a1d27; border: 1px solid #262a36;
  }
  .dot {
    width: 10px; height: 10px; border-radius: 50%;
    background: #3a3f4f; flex: none;
  }
  .stage.pending .dot { background: #3a3f4f; }
  .stage.running .dot { background: #f0b429; animation: pulse 1s infinite alternate; }
  .stage.done    .dot { background: #2ecc71; }
  .stage.failed  .dot { background: #e74c3c; }
  .stage .name { font-weight: 600; min-width: 140px; }
  .stage .detail { color: #9aa0b0; font-size: 13px; flex: 1; }
  .progress {
    width: 160px; height: 4px; border-radius: 2px;
    background: #262a36; overflow: hidden; flex: none;
    visibility: hidden; margin-left: 12px;
  }
  .progress.show { visibility: visible; }
  .progress i {
    display: block; height: 100%; border-radius: 2px;
    background: #4f8cff; width: 0%; transition: width .2s ease;
  }
  .progress.indet i {
    width: 40%; animation: slide 1.1s ease-in-out infinite;
  }
  @keyframes slide {
    0%   { margin-left: -40%; }
    100% { margin-left: 100%; }
  }
  @keyframes pulse { from { opacity: .4; } to { opacity: 1; } }
  pre#log {
    margin-top: 24px; padding: 14px; max-height: 320px; overflow: auto;
    background: #05060a; color: #9fe3a1; border-radius: 8px;
    font-size: 12px; line-height: 1.6; white-space: pre-wrap; word-break: break-all;
  }
</style>
</head>
<body>
<h1>"#;

/// The page behind its stages.
pub const PAGE_SCRIPT: &'static str = r#"</div>
<pre id="log"></pre>
<script>
  window.dshSetStage = function (stage, state, detail) {
    var el = document.getElementById('stage-' + stage);
    if (!el) return;
    el.className = 'stage ' + state;
    el.querySelector('.detail').textContent = detail;
  };
  // value: -1 不确定（滑动动画）| 0..1 精确百分比 | null/undefined 隐藏
  window.dshSetProgress = function (stage, value, detail) {
    var bar = document.getElementById('bar-' + stage);
    if (!bar) return;
    var wrap = bar.parentNode;
    var detailEl = bar.closest('.stage').querySelector('.detail');
    if (detail) detailEl.textContent = detail;
    if (value === null || value === undefined) {
      wrap.classList.remove('show');
      return;
    }
    wrap.classList.add('show');
    if (value < 0) {
      wrap.classList.add('indet');
      return;
    }
    wrap.classList.remove('indet');
    bar.style.width = (value * 100) + '%';
  };
  window.dshLog = function (line) {
    var log = document.getElementById('log');
    log.textContent += line + "\n";
    log.scrollTop = log.scrollHeight;
  };
</script>
</body>
</html>"#;

/// The row of a stage, which has not started yet.
pub open spec fn stage_row(id: Seq<char>, name: Seq<char>, detail: Seq<char>) -> Seq<char> {
    ROW_OPEN@ + id
        + ROW_NAME@ + name
        + ROW_DETAIL@ + detail
        + ROW_WRAP@ + id + ROW_BAR@ + id
        + ROW_CLOSE@
}

/// The rows of all stages.
pub open spec fn stage_rows(lang: Lang) -> Seq<char> {
    let pending = i18n::phrase(lang, Phrase::PendingDetail);
    stage_row("node"@, i18n::phrase(lang, Phrase::StageNode), pending)
        + stage_row("repo"@, i18n::phrase(lang, Phrase::StageRepo), pending)
        + stage_row("install"@, i18n::phrase(lang, Phrase::StageInstall), pending)
        + stage_row("build"@, i18n::phrase(lang, Phrase::StageBuild), pending)
        + stage_row("host"@, i18n::phrase(lang, Phrase::StageHost), pending)
}

/// The page in a language.
pub open spec fn status_page(lang: Lang) -> Seq<char> {
    PAGE_OPEN@ + i18n::phrase(lang, Phrase::LangAttr)
        + PAGE_HEAD@
        + i18n::phrase(lang, Phrase::Title) + PAGE_STYLE@ + i18n::phrase(lang, Phrase::Heading)
        + PAGE_STAGES@ + stage_rows(lang) + PAGE_SCRIPT@
}

/// The row of a stage, which has not started yet.
fn stage_row_text(id: &str, name: &str, detail: &str) -> (r: String)
    ensures
        r@ == stage_row(id@, name@, detail@),
{
    let mut out = cat4(
        ROW_OPEN,
        id,
        ROW_NAME,
        name,
    );
    out.append(ROW_DETAIL);
    out.append(detail);
    out.append(ROW_WRAP);
    out.append(id);
    out.append(ROW_BAR);
    out.append(id);
    out.append(ROW_CLOSE);
    out
}

/// The rows of all stages.
fn stage_rows_text(lang: Lang) -> (r: String)
    ensures
        r@ == stage_rows(lang),
{
    let pending = lang.pending_detail();
    let mut out = stage_row_text("node", lang.stage_node(), pending);
    out.append(stage_row_text("repo", lang.stage_repo(), pending).as_str());
    out.append(stage_row_text("install", lang.stage_install(), pending).as_str());
    out.append(stage_row_text("build", lang.stage_build(), pending).as_str());
    out.append(stage_row_text("host", lang.stage_host(), pending).as_str());
    out
}

/// The page in a language.
pub fn status_page_html(lang: Lang) -> (r: String)
    ensures
        r@ == status_page(lang),
{
    let mut out = cat4(
        PAGE_OPEN,
        lang.lang_attr(),
        PAGE_HEAD,
        lang.title(),
    );
    out.append(PAGE_STYLE);
    out.append(lang.heading());
    out.append(PAGE_STAGES);
    out.append(stage_rows_text(lang).as_str());
    out.append(PAGE_SCRIPT);
    out
}

// ---------------------------------------------------------------------------
// Scripts
// ---------------------------------------------------------------------------

/// The script that shows the state of a stage.
pub open spec fn set_stage_script(
    stage: Seq<char>,
    state: Seq<char>,
    detail: Seq<char>,
) -> Seq<char> {
    "window.dshSetStage && dshSetStage("@ + json::json_string(stage) + ", "@ + json::json_string(
        state,
    ) + ", "@ + json::json_string(detail) + ");"@
}

/// The script that shows a line of the log.
pub open spec fn log_script(line: Seq<char>) -> Seq<char> {
    "window.dshLog && dshLog("@ + json::json_string(line) + ");"@
}

/// The script that shows the progress of a stage: `progress` is a number between 0 and 1 as
/// JSON writes it, and none stands for a progress that is not known.
pub open spec fn progress_script(
    stage: Seq<char>,
    progress: Option<Seq<char>>,
    detail: Option<Seq<char>>,
) -> Seq<char> {
    "window.dshSetProgress && dshSetProgress("@ + json::json_string(stage) + ", "@ + (
    match progress {
        Some(p) => p,
        None => "-1.0"@,
    }) + ", "@ + (match detail {
        Some(d) => json::json_string(d),
        None => "null"@,
    }) + ");"@
}

/// The script that shows the state of a stage.
pub fn eval_set_stage(stage: &str, state: &str, detail: &str) -> (r: String)
    ensures
        r@ == set_stage_script(stage@, state@, detail@),
{
    let mut out = cat4(
        "window.dshSetStage && dshSetStage(",
        quote(stage).as_str(),
        ", ",
        quote(state).as_str(),
    );
    out.append(", ");
    out.append(quote(detail).as_str());
    out.append(");");
    out
}

/// The script that shows a line of the log.
pub fn eval_log(line: &str) -> (r: String)
    ensures
        r@ == log_script(line@),
{
    cat3("window.dshLog && dshLog(", quote(line).as_str(), ");")
}

/// The script that shows the progress of a stage.
pub fn eval_progress(stage: &str, progress: Option<&str>, detail: Option<&str>) -> (r: String)
    ensures
        r@ == progress_script(stage@, text::opt_str(progress), text::opt_str(detail)),
{
    let mut out = cat3(
        "window.dshSetProgress && dshSetProgress(",
        quote(stage).as_str(),
        ", ",
    );
    match progress {
        Some(p) => out.append(p),
        None => out.append("-1.0"),
    }
    out.append(", ");
    match detail {
        Some(d) => out.append(quote(d).as_str()),
        None => out.append("null"),
    }
    out.append(");");
    out
}

// ---------------------------------------------------------------------------
// Laws
// ---------------------------------------------------------------------------

/// Whether every text of a list is a plain name without a drive.
pub open spec fn all_plain(style: PathStyle, names: Seq<Seq<char>>) -> bool {
    forall|i: int|
        0 <= i < names.len() ==> path::is_plain_name(style, #[trigger] names[i])
            && !path::has_drive(style, names[i])
}

/// A path made of plain names is not anchored anywhere.
proof fn lemma_plain_path(style: PathStyle, names: Seq<Seq<char>>)
    requires
        names.len() > 0,
        all_plain(style, names),
    ensures
        text::joined(names, style.mark()).len() >= names[0].len(),
        names[0] == text::joined(names, style.mark()).take(names[0].len() as int),
        names.len() > 1 ==> text::joined(names, style.mark()).len() > names[0].len()
            && text::joined(names, style.mark())[names[0].len() as int] == style.mark()[0],
        !path::starts_with_separator(style, text::joined(names, style.mark())),
        !path::has_drive(style, text::joined(names, style.mark())),
    decreases names.len(),
{
    reveal_strlit("/");
    reveal_strlit("\\");
    let j = text::joined(names, style.mark());
    let first = names[0];
    if names.len() > 1 {
        let front = names.drop_last();
        assert forall|i: int| 0 <= i < front.len() implies path::is_plain_name(
            style,
            #[trigger] front[i],
        ) && !path::has_drive(style, front[i]) by {
            assert(front[i] == names[i]);
        }
        lemma_plain_path(style, front);
        let before = text::joined(front, style.mark());
        assert(j == before + style.mark() + names.last());
        assert(front[0] == first);
        assert(first =~= j.take(first.len() as int));
        if front.len() == 1 {
            assert(before == first);
        }
    } else {
        assert(j == first);
        assert(first =~= j.take(first.len() as int));
    }
    assert(!style.separator().has(first[0]));
    assert(j[0] == first[0]);
    if path::has_drive(style, j) {
        if first.len() == 1 {
            assert(names.len() > 1);
            assert(j[1] == style.mark()[0]);
        } else {
            assert(j[1] == first[1]);
        }
        assert(false);
    }
}

/// No request leads out of the built pages: what it leads to, if anything, lies below the
/// directory of the built pages, by the names that are asked for or, if there are none, as
/// the entry page in it.
pub proof fn lemma_requests_stay_inside(
    style: PathStyle,
    root: Seq<char>,
    uri_path: Seq<char>,
)
    requires
        path::is_settled(style, root),
    ensures
        resolved(style, root, uri_path) matches Some(p) ==> path::is_below(
            style,
            root,
            if path::names(style, asked_path(uri_path)).len() == 0 {
                seq!["index.html"@]
            } else {
                path::names(style, asked_path(uri_path))
            },
            p,
        ),
{
    let rel = asked_path(uri_path);
    let names = path::names(style, rel);
    reveal_strlit("index.html");
    if is_inside(style, rel) {
        if names.len() == 0 {
            reveal_strlit(".");
            reveal_strlit("..");
            path::lemma_join_plain(style, root, "index.html"@);
        } else {
            path::lemma_no_prefix(style, rel);
            path::lemma_names(style, rel);
            assert forall|i: int| 0 <= i < names.len() implies path::is_plain_name(
                style,
                #[trigger] names[i],
            ) && !path::has_drive(style, names[i]) by {
                assert(is_allowed(style, names[i]));
            }
            lemma_plain_path(style, names);
            path::lemma_names_of_joined(style, names);
            path::lemma_join_names(style, root, safe_path(style, rel));
        }
    }
}

/// A request that leads up is answered as one for what is not there, without a look at the
/// disk.
pub proof fn lemma_leading_up_is_not_found(
    style: PathStyle,
    root: Seq<char>,
    uri_path: Seq<char>,
    i: int,
)
    requires
        0 <= i < path::names(style, asked_path(uri_path)).len(),
        path::names(style, asked_path(uri_path))[i] == ".."@,
    ensures
        serve_start(style, Some(root), uri_path).wanted() == not_found(),
{
    assert(!is_allowed(style, path::names(style, asked_path(uri_path))[i]));
}

/// What serving a request comes to: a file that can be read is answered with its bytes and
/// the media type of its name, one that cannot with a message that it is not there; a
/// directory stands for the entry page in it.
pub proof fn lemma_served(
    run: ServeRunOf<Seq<char>, Seq<u8>>,
    is_dir: bool,
    content: Option<Seq<u8>>,
)
    requires
        run.phase == ServePhase::Look,
    ensures
        ({
            let looked = run.after(ServeEventOf::Dir { is_dir });
            let target = if is_dir {
                path::join(run.style, run.target, "index.html"@)
            } else {
                run.target
            };
            &&& looked.wanted() == (ServeOpOf::<Seq<char>, Seq<u8>>::Read { path: target })
            &&& content matches Some(bytes) ==> looked.after(
                ServeEventOf::Content { bytes },
            ).wanted() == (ServeOpOf::Bytes {
                status: 200,
                content_type: mime_of_path(run.style, target),
                body: bytes,
            })
            &&& looked.after(ServeEventOf::Unreadable).wanted() == not_found()
        }),
{
}

/// The media type goes by the extension alone, and capitals do not matter in it.
pub proof fn lemma_mime_by_extension(style: PathStyle, a: Seq<char>, b: Seq<char>)
    requires
        path::is_plain_name(style, a),
        path::is_plain_name(style, b),
        !path::has_drive(style, a),
        !path::has_drive(style, b),
        path::extension(a) matches Some(x) && path::extension(b) matches Some(y)
            && text::lower(x) == text::lower(y),
    ensures
        mime_of_path(style, a) == mime_of_path(style, b),
{
    path::lemma_plain_name_is_a_path(style, a);
    path::lemma_plain_name_is_a_path(style, b);
}

/// The text that a stage shows before it has started.
pub open spec fn pending(lang: Lang) -> Seq<char> {
    i18n::phrase(lang, Phrase::PendingDetail)
}

/// The other language.
pub open spec fn other(lang: Lang) -> Lang {
    match lang {
        Lang::Zh => Lang::En,
        Lang::En => Lang::Zh,
    }
}

/// What the row of a stage holds: the element that shows the stage, its name, what it does,
/// and the bar that shows its progress.
pub open spec fn row_parts(id: Seq<char>, name: Seq<char>, detail: Seq<char>) -> Seq<Seq<char>> {
    seq!["id=\"stage-"@ + id + "\""@, name, detail, "id=\"bar-"@ + id + "\""@]
}

/// What the rows of all stages hold.
pub open spec fn rows_parts(lang: Lang) -> Seq<Seq<char>> {
    let p = pending(lang);
    row_parts("node"@, i18n::phrase(lang, Phrase::StageNode), p)
        + row_parts("repo"@, i18n::phrase(lang, Phrase::StageRepo), p)
        + row_parts("install"@, i18n::phrase(lang, Phrase::StageInstall), p)
        + row_parts("build"@, i18n::phrase(lang, Phrase::StageBuild), p)
        + row_parts("host"@, i18n::phrase(lang, Phrase::StageHost), p)
}

/// What the page offers to scripts.
pub open spec fn script_parts() -> Seq<Seq<char>> {
    seq!["window.dshSetStage"@, "window.dshSetProgress"@, "window.dshLog"@]
}

/// Whether no occurrence of `part` starts in what is fixed in the row of a stage.
spec fn row_starts_none(part: Seq<char>) -> bool {
    &&& text::starts_none(ROW_OPEN@, part)
    &&& text::starts_none(ROW_NAME@, part)
    &&& text::starts_none(ROW_DETAIL@, part)
    &&& text::starts_none(ROW_WRAP@, part)
    &&& text::starts_none(ROW_BAR@, part)
    &&& text::starts_none(ROW_CLOSE@, part)
}

/// Whether no occurrence of `part` starts in what is fixed in the page around the rows.
spec fn frame_starts_none(part: Seq<char>) -> bool {
    &&& text::starts_none(PAGE_OPEN@, part)
    &&& text::starts_none(PAGE_HEAD@, part)
    &&& text::starts_none(PAGE_STAGES@, part)
    &&& text::starts_none(PAGE_STYLE@, part)
    &&& text::starts_none(PAGE_SCRIPT@, part)
}

/// Whether no occurrence of `part` starts in the texts of a language that the page shows,
/// other than that of a stage that has not started.
spec fn phrases_start_none(lang: Lang, part: Seq<char>) -> bool {
    &&& text::starts_none(i18n::phrase(lang, Phrase::LangAttr), part)
    &&& text::starts_none(i18n::phrase(lang, Phrase::Title), part)
    &&& text::starts_none(i18n::phrase(lang, Phrase::Heading), part)
    &&& text::starts_none(i18n::phrase(lang, Phrase::StageNode), part)
    &&& text::starts_none(i18n::phrase(lang, Phrase::StageRepo), part)
    &&& text::starts_none(i18n::phrase(lang, Phrase::StageInstall), part)
    &&& text::starts_none(i18n::phrase(lang, Phrase::StageBuild), part)
    &&& text::starts_none(i18n::phrase(lang, Phrase::StageHost), part)
}

/// Whether no occurrence of `part` starts in the names of the stages' elements.
spec fn ids_start_none(part: Seq<char>) -> bool {
    &&& text::starts_none("node"@, part)
    &&& text::starts_none("repo"@, part)
    &&& text::starts_none("install"@, part)
    &&& text::starts_none("build"@, part)
    &&& text::starts_none("host"@, part)
}

/// The texts of stages that have not started are found at their start only.
proof fn lemma_pending_texts(lang: Lang)
    ensures
        pending(lang).len() >= 2,
        text::starts_none(pending(lang).skip(1), pending(lang)),
        text::starts_none(pending(lang), pending(other(lang))),
{
    reveal_strlit("等待开始");
    reveal_strlit("Pending");
}

/// The style of the page holds no text of a stage, and says how the states look.
#[verifier::rlimit(60)]
proof fn lemma_style_starts_none(lang: Lang)
    ensures
        text::starts_none(PAGE_STYLE@, pending(lang)),
        text::occurs_at(PAGE_STYLE@, ".stage."@ + "running"@, 663),
        text::occurs_at(PAGE_STYLE@, ".stage."@ + "done"@, 750),
        text::occurs_at(PAGE_STYLE@, ".stage."@ + "failed"@, 797),
{
    reveal_strlit(".stage.");
    reveal_strlit("running");
    reveal_strlit("done");
    reveal_strlit("failed");
    reveal_strlit("等待开始");
    reveal_strlit("Pending");
    reveal_strlit(r#"</title>
<style>
  :root { color-scheme: dark; }
  * { box-sizing: border-box; }
  body {
    margin: 0; padding: 32px;
    background: #0f1117; color: #e6e6e6;
    font-family: "Segoe UI", "Microsoft YaHei", sans-serif;
  }
  h1 { font-size: 20px; margin: 0 0 24px; }
  .stages { display: flex; flex-direction: column; gap: 10px; max-width: 640px; }
  .stage {
    display: flex; align-items: center; gap: 12px;
    padding: 10px 14px; border-radius: 8px;
    background: #1a1d27; border: 1px solid #262a36;
  }
  .dot {
    width: 10px; height: 10px; border-radius: 50%;
    background: #3a3f4f; flex: none;
  }
  .stage.pending .dot { background: #3a3f4f; }
  .stage.running .dot { background: #f0b429; animation: pulse 1s infinite alternate; }
  .stage.done    .dot { background: #2ecc71; }
  .stage.failed  .dot { background: #e74c3c; }
  .stage .name { font-weight: 600; min-width: 140px; }
  .stage .detail { color: #9aa0b0; font-size: 13px; flex: 1; }
  .progress {
    width: 160px; height: 4px; border-radius: 2px;
    background: #262a36; overflow: hidden; flex: none;
    visibility: hidden; margin-left: 12px;
  }
  .progress.show { visibility: visible; }
  .progress i {
    display: block; height: 100%; border-radius: 2px;
    background: #4f8cff; width: 0%; transition: width .2s ease;
  }
  .progress.indet i {
    width: 40%; animation: slide 1.1s ease-in-out infinite;
  }
  @keyframes slide {
    0%   { margin-left: -40%; }
    100% { margin-left: 100%; }
  }
  @keyframes pulse { from { opacity: .4; } to { opacity: 1; } }
  pre#log {
    margin-top: 24px; padding: 14px; max-height: 320px; overflow: auto;
    background: #05060a; color: #9fe3a1; border-radius: 8px;
    font-size: 12px; line-height: 1.6; white-space: pre-wrap; word-break: break-all;
  }
</style>
</head>
<body>
<h1>"#);
    assert(PAGE_STYLE@.subrange(663, 677) =~= ".stage."@ + "running"@);
    assert(PAGE_STYLE@.subrange(750, 761) =~= ".stage."@ + "done"@);
    assert(PAGE_STYLE@.subrange(797, 810) =~= ".stage."@ + "failed"@);
}

/// Where the scripts of the page define what the window calls; they hold no text of a stage.
#[verifier::rlimit(90)]
proof fn lemma_script_text(lang: Lang)
    ensures
        text::starts_none(PAGE_SCRIPT@, pending(lang)),
        text::occurs_at(PAGE_SCRIPT@, "window.dshSetStage"@, 39),
        text::occurs_at(PAGE_SCRIPT@, "window.dshSetProgress"@, 326),
        text::occurs_at(PAGE_SCRIPT@, "window.dshLog"@, 906),
        text::occurs_at(PAGE_SCRIPT@, "document.getElementById('stage-' + stage)"@, 107),
        text::occurs_at(PAGE_SCRIPT@, "el.className = 'stage ' + state;"@, 175),
        text::occurs_at(PAGE_SCRIPT@, "querySelector('.detail').textContent = detail;"@, 215),
        text::occurs_at(PAGE_SCRIPT@, "document.getElementById('bar-' + stage)"@, 398),
        text::occurs_at(PAGE_SCRIPT@, "if (detail) detailEl.textContent = detail;"@, 563),
        text::occurs_at(PAGE_SCRIPT@, "wrap.classList.add('show');"@, 716),
        text::occurs_at(PAGE_SCRIPT@, "bar.style.width = (value * 100) + '%';"@, 860),
        text::occurs_at(PAGE_SCRIPT@, "document.getElementById('log')"@, 954),
        text::occurs_at(PAGE_SCRIPT@, "log.textContent += line + "@, 990),
        "window.dshSetStage"@.len() == 18,
        "window.dshSetProgress"@.len() == 21,
        "window.dshLog"@.len() == 13,
{
    reveal_strlit("等待开始");
    reveal_strlit("Pending");
    reveal_strlit("window.dshSetStage");
    reveal_strlit("window.dshSetProgress");
    reveal_strlit("window.dshLog");
    reveal_strlit("document.getElementById('stage-' + stage)");
    reveal_strlit("el.className = 'stage ' + state;");
    reveal_strlit("querySelector('.detail').textContent = detail;");
    reveal_strlit("document.getElementById('bar-' + stage)");
    reveal_strlit("if (detail) detailEl.textContent = detail;");
    reveal_strlit("wrap.classList.add('show');");
    reveal_strlit("bar.style.width = (value * 100) + '%';");
    reveal_strlit("document.getElementById('log')");
    reveal_strlit("log.textContent += line + ");
    reveal_strlit(r#"</div>
<pre id="log"></pre>
<script>
  window.dshSetStage = function (stage, state, detail) {
    var el = document.getElementById('stage-' + stage);
    if (!el) return;
    el.className = 'stage ' + state;
    el.querySelector('.detail').textContent = detail;
  };
  // value: -1 不确定（滑动动画）| 0..1 精确百分比 | null/undefined 隐藏
  window.dshSetProgress = function (stage, value, detail) {
    var bar = document.getElementById('bar-' + stage);
    if (!bar) return;
    var wrap = bar.parentNode;
    var detailEl = bar.closest('.stage').querySelector('.detail');
    if (detail) detailEl.textContent = detail;
    if (value === null || value === undefined) {
      wrap.classList.remove('show');
      return;
    }
    wrap.classList.add('show');
    if (value < 0) {
      wrap.classList.add('indet');
      return;
    }
    wrap.classList.remove('indet');
    bar.style.width = (value * 100) + '%';
  };
  window.dshLog = function (line) {
    var log = document.getElementById('log');
    log.textContent += line + "\n";
    log.scrollTop = log.scrollHeight;
  };
</script>
</body>
</html>"#);
    let s = PAGE_SCRIPT@;
    assert(s.subrange(39, 57) =~= "window.dshSetStage"@);
    assert(s.subrange(326, 347) =~= "window.dshSetProgress"@);
    assert(s.subrange(906, 919) =~= "window.dshLog"@);
    assert(s.subrange(107, 148) =~= "document.getElementById('stage-' + stage)"@);
    assert(s.subrange(175, 207) =~= "el.className = 'stage ' + state;"@);
    assert(s.subrange(215, 261) =~= "querySelector('.detail').textContent = detail;"@);
    assert(s.subrange(398, 437) =~= "document.getElementById('bar-' + stage)"@);
    assert(s.subrange(563, 605) =~= "if (detail) detailEl.textContent = detail;"@);
    assert(s.subrange(716, 743) =~= "wrap.classList.add('show');"@);
    assert(s.subrange(860, 898) =~= "bar.style.width = (value * 100) + '%';"@);
    assert(s.subrange(954, 984) =~= "document.getElementById('log')"@);
    assert(s.subrange(990, 1016) =~= "log.textContent += line + "@);
}

/// The scripts of the page define what the window calls, in this order.
proof fn lemma_script_order()
    ensures
        text::in_order(PAGE_SCRIPT@, script_parts()),
{
    lemma_script_text(Lang::En);
    let s = PAGE_SCRIPT@;
    let a = "window.dshSetStage"@;
    let b = "window.dshSetProgress"@;
    let c = "window.dshLog"@;
    let after_c = s.skip(919);
    let after_b = s.skip(347);
    let after_a = s.skip(57);
    let none = Seq::<Seq<char>>::empty();
    text::lemma_in_order(s.subrange(347, 906), c, after_c, none);
    assert(after_b =~= s.subrange(347, 906) + (c + after_c));
    text::lemma_in_order(s.subrange(57, 326), b, after_b, seq![c] + none);
    assert(after_a =~= s.subrange(57, 326) + (b + after_b));
    text::lemma_in_order(s.take(39), a, after_a, seq![b] + (seq![c] + none));
    assert(s =~= s.take(39) + (a + after_a));
    assert(seq![a] + (seq![b] + (seq![c] + none)) =~= script_parts());
}

/// The fixed text of the page holds no text of a stage.
proof fn lemma_frame_starts_none(lang: Lang)
    ensures
        frame_starts_none(pending(lang)),
        row_starts_none(pending(lang)),
        ids_start_none(pending(lang)),
{
    let part = pending(lang);
    lemma_style_starts_none(lang);
    lemma_script_text(lang);
    assert(text::starts_none(PAGE_OPEN@, part)) by {
        reveal_strlit("等待开始");
        reveal_strlit("Pending");
        reveal_strlit("<!DOCTYPE html>\n<html lang=\"");
    }
    assert(text::starts_none(PAGE_HEAD@, part)) by {
        reveal_strlit("等待开始");
        reveal_strlit("Pending");
        reveal_strlit("\">\n<head>\n<meta charset=\"utf-8\">\n<title>");
    }
    assert(text::starts_none(PAGE_STAGES@, part)) by {
        reveal_strlit("等待开始");
        reveal_strlit("Pending");
        reveal_strlit("</h1>\n<div class=\"stages\">\n");
    }
    assert(text::starts_none(ROW_OPEN@, part)) by {
        reveal_strlit("等待开始");
        reveal_strlit("Pending");
        reveal_strlit("  <div class=\"stage pending\" id=\"stage-");
    }
    assert(text::starts_none(ROW_NAME@, part)) by {
        reveal_strlit("等待开始");
        reveal_strlit("Pending");
        reveal_strlit("\"><span class=\"dot\"></span><span class=\"name\">");
    }
    assert(text::starts_none(ROW_DETAIL@, part)) by {
        reveal_strlit("等待开始");
        reveal_strlit("Pending");
        reveal_strlit("</span><span class=\"detail\">");
    }
    assert(text::starts_none(ROW_WRAP@, part)) by {
        reveal_strlit("等待开始");
        reveal_strlit("Pending");
        reveal_strlit("</span><div class=\"progress\" id=\"wrap-");
    }
    assert(text::starts_none(ROW_BAR@, part)) by {
        reveal_strlit("等待开始");
        reveal_strlit("Pending");
        reveal_strlit("\"><i id=\"bar-");
    }
    assert(text::starts_none(ROW_CLOSE@, part)) by {
        reveal_strlit("等待开始");
        reveal_strlit("Pending");
        reveal_strlit("\"></i></div></div>\n");
    }
    assert(text::starts_none("node"@, part)) by {
        reveal_strlit("等待开始");
        reveal_strlit("Pending");
        reveal_strlit("node");
    }
    assert(text::starts_none("repo"@, part)) by {
        reveal_strlit("等待开始");
        reveal_strlit("Pending");
        reveal_strlit("repo");
    }
    assert(text::starts_none("install"@, part)) by {
        reveal_strlit("等待开始");
        reveal_strlit("Pending");
        reveal_strlit("install");
    }
    assert(text::starts_none("build"@, part)) by {
        reveal_strlit("等待开始");
        reveal_strlit("Pending");
        reveal_strlit("build");
    }
    assert(text::starts_none("host"@, part)) by {
        reveal_strlit("等待开始");
        reveal_strlit("Pending");
        reveal_strlit("host");
    }
}

/// Nor do the names of the stages and the headings of the page, in either language.
proof fn lemma_phrases_start_none(lang: Lang, shown: Lang)
    ensures
        phrases_start_none(shown, pending(lang)),
{
    let part = pending(lang);
    assert(text::starts_none(i18n::phrase(shown, Phrase::LangAttr), part)) by {
        reveal_strlit("等待开始");
        reveal_strlit("Pending");
        reveal_strlit("zh-CN");
        reveal_strlit("en");
    }
    assert(text::starts_none(i18n::phrase(shown, Phrase::Title), part)) by {
        reveal_strlit("等待开始");
        reveal_strlit("Pending");
        reveal_strlit("DeepSeek Harness Runtime - 启动中");
        reveal_strlit("DeepSeek Harness Runtime - Starting");
    }
    assert(text::starts_none(i18n::phrase(shown, Phrase::Heading), part)) by {
        reveal_strlit("等待开始");
        reveal_strlit("Pending");
        reveal_strlit("DeepSeek Harness Runtime · 正在准备应用…");
        reveal_strlit("DeepSeek Harness Runtime · Preparing application…");
    }
    assert(text::starts_none(i18n::phrase(shown, Phrase::StageNode), part)) by {
        reveal_strlit("等待开始");
        reveal_strlit("Pending");
        reveal_strlit("Node 运行时");
        reveal_strlit("Node Runtime");
    }
    assert(text::starts_none(i18n::phrase(shown, Phrase::StageRepo), part)) by {
        reveal_strlit("等待开始");
        reveal_strlit("Pending");
        reveal_strlit("同步仓库");
        reveal_strlit("Sync Repo");
    }
    assert(text::starts_none(i18n::phrase(shown, Phrase::StageInstall), part)) by {
        reveal_strlit("等待开始");
        reveal_strlit("Pending");
        reveal_strlit("安装依赖");
        reveal_strlit("Install Dependencies");
    }
    assert(text::starts_none(i18n::phrase(shown, Phrase::StageBuild), part)) by {
        reveal_strlit("等待开始");
        reveal_strlit("Pending");
        reveal_strlit("构建产物");
        reveal_strlit("Build Artifacts");
    }
    assert(text::starts_none(i18n::phrase(shown, Phrase::StageHost), part)) by {
        reveal_strlit("等待开始");
        reveal_strlit("Pending");
        reveal_strlit("启动宿主");
        reveal_strlit("Start Host");
    }
}

/// The row of a stage, before what follows it, piece by piece.
proof fn lemma_row_pieces(id: Seq<char>, name: Seq<char>, detail: Seq<char>, rest: Seq<char>)
    ensures
        stage_row(id, name, detail) + rest == ROW_OPEN@ + (id + (ROW_NAME@ + (name + (
        ROW_DETAIL@ + (detail + (ROW_WRAP@ + (id + (ROW_BAR@ + (id + (
        ROW_CLOSE@ + rest)))))))))),
{
}

/// How often a text is counted in the row of a stage and what follows it.
proof fn lemma_count_row(
    part: Seq<char>,
    id: Seq<char>,
    name: Seq<char>,
    detail: Seq<char>,
    rest: Seq<char>,
)
    requires
        part.len() >= 2,
        row_starts_none(part),
        text::starts_none(id, part),
        text::starts_none(name, part),
        text::starts_none(part.skip(1), part),
        detail == part || text::starts_none(detail, part),
    ensures
        text::count(stage_row(id, name, detail) + rest, part) == text::count(rest, part) + if detail
            == part {
            1nat
        } else {
            0nat
        },
{
    lemma_row_pieces(id, name, detail, rest);
    let t6 = ROW_CLOSE@ + rest;
    let t5 = ROW_BAR@ + (id + t6);
    let t4 = ROW_WRAP@ + (id + t5);
    let t3 = ROW_DETAIL@ + (detail + t4);
    let t2 = ROW_NAME@ + (name + t3);
    text::lemma_count_past(ROW_CLOSE@, rest, part);
    text::lemma_count_past(id, t6, part);
    text::lemma_count_past(ROW_BAR@, id + t6, part);
    text::lemma_count_past(id, t5, part);
    text::lemma_count_past(ROW_WRAP@, id + t5, part);
    if detail == part {
        text::lemma_count_one(part, t4);
    } else {
        text::lemma_count_past(detail, t4, part);
    }
    text::lemma_count_past(ROW_DETAIL@, detail + t4, part);
    text::lemma_count_past(name, t3, part);
    text::lemma_count_past(ROW_NAME@, name + t3, part);
    text::lemma_count_past(id, t2, part);
    text::lemma_count_past(ROW_OPEN@, id + t2, part);
}

/// What the row of a stage holds comes before what the text behind it holds.
proof fn lemma_order_row(
    id: Seq<char>,
    name: Seq<char>,
    detail: Seq<char>,
    rest: Seq<char>,
    parts: Seq<Seq<char>>,
)
    requires
        text::in_order(rest, parts),
    ensures
        text::in_order(
            stage_row(id, name, detail) + rest,
            row_parts(id, name, detail) + parts,
        ),
{
    lemma_row_pieces(id, name, detail, rest);
    let shown = "id=\"stage-"@ + id + "\""@;
    let bar = "id=\"bar-"@ + id + "\""@;
    let open = "  <div class=\"stage pending\" "@;
    let to_name = "><span class=\"dot\"></span><span class=\"name\">"@;
    let to_bar = ROW_WRAP@ + (id + "\"><i "@);
    let close = "></i></div></div>\n"@;
    assert(ROW_OPEN@ =~= open + "id=\"stage-"@) by {
        reveal_strlit("  <div class=\"stage pending\" id=\"stage-");
        reveal_strlit("  <div class=\"stage pending\" ");
        reveal_strlit("id=\"stage-");
    }
    assert(ROW_NAME@ =~= "\""@ + to_name) by {
        reveal_strlit("\"><span class=\"dot\"></span><span class=\"name\">");
        reveal_strlit("\"");
        reveal_strlit("><span class=\"dot\"></span><span class=\"name\">");
    }
    assert(ROW_BAR@ =~= "\"><i "@ + "id=\"bar-"@) by {
        reveal_strlit("\"><i id=\"bar-");
        reveal_strlit("\"><i ");
        reveal_strlit("id=\"bar-");
    }
    assert(ROW_CLOSE@ =~= "\""@ + close) by {
        reveal_strlit("\"></i></div></div>\n");
        reveal_strlit("\"");
        reveal_strlit("></i></div></div>\n");
    }
    let r4 = close + rest;
    lemma_order_front(close, rest, parts);
    let r3 = to_bar + (bar + r4);
    text::lemma_in_order(to_bar, bar, r4, parts);
    let p3 = seq![bar] + parts;
    let r2 = ROW_DETAIL@ + (detail + r3);
    text::lemma_in_order(ROW_DETAIL@, detail, r3, p3);
    let p2 = seq![detail] + p3;
    let r1 = to_name + (name + r2);
    text::lemma_in_order(to_name, name, r2, p2);
    let p1 = seq![name] + p2;
    text::lemma_in_order(open, shown, r1, p1);
    assert(seq![shown] + p1 =~= row_parts(id, name, detail) + parts);
    assert(r3 =~= ROW_WRAP@ + (id + (ROW_BAR@ + (id + (ROW_CLOSE@ + rest)))));
    assert(open + (shown + r1) =~= ROW_OPEN@ + (id + (ROW_NAME@ + (name + r2))));
}

/// What occurs in order still does with more text in front.
proof fn lemma_order_front(front: Seq<char>, rest: Seq<char>, parts: Seq<Seq<char>>)
    requires
        text::in_order(rest, parts),
    ensures
        text::in_order(front + rest, parts),
{
    let s = front + rest;
    if parts.len() > 0 {
        let i = choose|i: int| #[trigger]
            text::occurs_at(rest, parts[0], i) && text::in_order(
                rest.skip(i + parts[0].len()),
                parts.skip(1),
            );
        let n = front.len() + i;
        assert(s.subrange(n, n + parts[0].len()) =~= rest.subrange(i, i + parts[0].len()));
        assert(s.skip(n + parts[0].len()) =~= rest.skip(i + parts[0].len()));
        assert(text::occurs_at(s, parts[0], n));
    }
}

/// The page, piece by piece.
#[verifier::rlimit(40)]
proof fn lemma_page_pieces(lang: Lang)
    ensures
        stage_rows(lang) + PAGE_SCRIPT@ == stage_row(
            "node"@,
            i18n::phrase(lang, Phrase::StageNode),
            pending(lang),
        ) + (stage_row(
            "repo"@,
            i18n::phrase(lang, Phrase::StageRepo),
            pending(lang),
        ) + (stage_row(
            "install"@,
            i18n::phrase(lang, Phrase::StageInstall),
            pending(lang),
        ) + (stage_row(
            "build"@,
            i18n::phrase(lang, Phrase::StageBuild),
            pending(lang),
        ) + (stage_row(
            "host"@,
            i18n::phrase(lang, Phrase::StageHost),
            pending(lang),
        ) + PAGE_SCRIPT@)))),
        status_page(lang) == PAGE_OPEN@ + (i18n::phrase(lang, Phrase::LangAttr) + (PAGE_HEAD@ + (
        i18n::phrase(lang, Phrase::Title) + (PAGE_STYLE@ + (i18n::phrase(lang, Phrase::Heading) + (
        PAGE_STAGES@ + (stage_rows(lang) + PAGE_SCRIPT@))))))),
{
    let p = pending(lang);
    lemma_in_a_row(
        stage_row("node"@, i18n::phrase(lang, Phrase::StageNode), p),
        stage_row("repo"@, i18n::phrase(lang, Phrase::StageRepo), p),
        stage_row("install"@, i18n::phrase(lang, Phrase::StageInstall), p),
        stage_row("build"@, i18n::phrase(lang, Phrase::StageBuild), p),
        stage_row("host"@, i18n::phrase(lang, Phrase::StageHost), p),
        PAGE_SCRIPT@,
    );
    let attr = i18n::phrase(lang, Phrase::LangAttr);
    let title = i18n::phrase(lang, Phrase::Title);
    let heading = i18n::phrase(lang, Phrase::Heading);
    let rows = stage_rows(lang);
    let head = PAGE_OPEN@ + attr + PAGE_HEAD@ + title;
    lemma_in_a_row(head, PAGE_STYLE@, heading, PAGE_STAGES@, rows, PAGE_SCRIPT@);
    let tail = PAGE_STYLE@ + (heading + (PAGE_STAGES@ + (rows + PAGE_SCRIPT@)));
    lemma_in_a_row(PAGE_OPEN@, attr, PAGE_HEAD@, title, Seq::<char>::empty(), tail);
    assert(title + (Seq::<char>::empty() + tail) =~= title + tail);
    assert(head + Seq::<char>::empty() =~= head);
}

/// Five pieces and what follows them can be put together from either end.
proof fn lemma_in_a_row<A>(a: Seq<A>, b: Seq<A>, c: Seq<A>, d: Seq<A>, e: Seq<A>, f: Seq<A>)
    ensures
        a + b + c + d + e + f == a + (b + (c + (d + (e + f)))),
{
    assert(a + b + c + d + e + f =~= a + (b + (c + (d + (e + f)))));
}

/// How often the text of a stage that has not started is counted in a page.
#[verifier::rlimit(40)]
proof fn lemma_count_pending(lang: Lang, shown: Lang)
    ensures
        text::count(status_page(shown), pending(lang)) == if lang == shown {
            5nat
        } else {
            0nat
        },
{
    let part = pending(lang);
    let detail = pending(shown);
    lemma_pending_texts(lang);
    lemma_pending_texts(shown);
    lemma_frame_starts_none(lang);
    lemma_phrases_start_none(lang, shown);
    lemma_page_pieces(shown);
    assert(lang != shown ==> detail != part) by {
        reveal_strlit("等待开始");
        reveal_strlit("Pending");
    }
    let none = Seq::<char>::empty();
    text::lemma_count_past(PAGE_SCRIPT@, none, part);
    assert(PAGE_SCRIPT@ + none =~= PAGE_SCRIPT@);
    let r0 = PAGE_SCRIPT@;
    lemma_count_row(part, "host"@, i18n::phrase(shown, Phrase::StageHost), detail, r0);
    let r1 = stage_row("host"@, i18n::phrase(shown, Phrase::StageHost), detail) + r0;
    lemma_count_row(part, "build"@, i18n::phrase(shown, Phrase::StageBuild), detail, r1);
    let r2 = stage_row("build"@, i18n::phrase(shown, Phrase::StageBuild), detail) + r1;
    lemma_count_row(part, "install"@, i18n::phrase(shown, Phrase::StageInstall), detail, r2);
    let r3 = stage_row("install"@, i18n::phrase(shown, Phrase::StageInstall), detail) + r2;
    lemma_count_row(part, "repo"@, i18n::phrase(shown, Phrase::StageRepo), detail, r3);
    let r4 = stage_row("repo"@, i18n::phrase(shown, Phrase::StageRepo), detail) + r3;
    lemma_count_row(part, "node"@, i18n::phrase(shown, Phrase::StageNode), detail, r4);
    let r5 = stage_row("node"@, i18n::phrase(shown, Phrase::StageNode), detail) + r4;
    text::lemma_count_past(PAGE_STAGES@, r5, part);
    let p5 = PAGE_STAGES@ + r5;
    text::lemma_count_past(i18n::phrase(shown, Phrase::Heading), p5, part);
    let p4 = i18n::phrase(shown, Phrase::Heading) + p5;
    text::lemma_count_past(PAGE_STYLE@, p4, part);
    let p3 = PAGE_STYLE@ + p4;
    text::lemma_count_past(i18n::phrase(shown, Phrase::Title), p3, part);
    let p2 = i18n::phrase(shown, Phrase::Title) + p3;
    text::lemma_count_past(PAGE_HEAD@, p2, part);
    let p1 = PAGE_HEAD@ + p2;
    text::lemma_count_past(i18n::phrase(shown, Phrase::LangAttr), p1, part);
    let p0 = i18n::phrase(shown, Phrase::LangAttr) + p1;
    text::lemma_count_past(PAGE_OPEN@, p0, part);
}

/// The page says in which language it is, shows the title, the heading and the five stages in
/// the order in which they are gone through, each with its name, its element and its bar, and
/// offers scripts the three functions that keep it up to date. All five stages, and nothing
/// else, say that they have not started; the page never does so in the other language.
pub proof fn lemma_status_page(lang: Lang)
    ensures
        text::in_order(
            status_page(lang),
            seq![
                "<html lang=\""@ + i18n::phrase(lang, Phrase::LangAttr) + "\">"@,
                i18n::phrase(lang, Phrase::Title),
                i18n::phrase(lang, Phrase::Heading),
            ] + (rows_parts(lang) + script_parts()),
        ),
        text::count(status_page(lang), pending(lang)) == 5,
        text::count(status_page(lang), pending(other(lang))) == 0,
        !text::contains(status_page(lang), pending(other(lang))),
        status_page(lang) != status_page(other(lang)),
{
    lemma_pages_differ();
    lemma_count_pending(lang, lang);
    lemma_count_pending(other(lang), lang);
    lemma_pending_texts(other(lang));
    assert forall|i: int| !text::occurs_at(status_page(lang), pending(other(lang)), i) by {
        if text::occurs_at(status_page(lang), pending(other(lang)), i) {
            text::lemma_count_none(status_page(lang), pending(other(lang)), i);
        }
    }
    lemma_page_order(lang);
}

/// What the rows of the stages and the scripts behind them hold, in order.
#[verifier::rlimit(40)]
proof fn lemma_rows_order(lang: Lang)
    ensures
        text::in_order(stage_rows(lang) + PAGE_SCRIPT@, rows_parts(lang) + script_parts()),
{
    let p = pending(lang);
    lemma_page_pieces(lang);
    lemma_script_order();
    let r0 = PAGE_SCRIPT@;
    let s0 = script_parts();
    lemma_order_row("host"@, i18n::phrase(lang, Phrase::StageHost), p, r0, s0);
    let r1 = stage_row("host"@, i18n::phrase(lang, Phrase::StageHost), p) + r0;
    let s1 = row_parts("host"@, i18n::phrase(lang, Phrase::StageHost), p) + s0;
    lemma_order_row("build"@, i18n::phrase(lang, Phrase::StageBuild), p, r1, s1);
    let r2 = stage_row("build"@, i18n::phrase(lang, Phrase::StageBuild), p) + r1;
    let s2 = row_parts("build"@, i18n::phrase(lang, Phrase::StageBuild), p) + s1;
    lemma_order_row("install"@, i18n::phrase(lang, Phrase::StageInstall), p, r2, s2);
    let r3 = stage_row("install"@, i18n::phrase(lang, Phrase::StageInstall), p) + r2;
    let s3 = row_parts("install"@, i18n::phrase(lang, Phrase::StageInstall), p) + s2;
    lemma_order_row("repo"@, i18n::phrase(lang, Phrase::StageRepo), p, r3, s3);
    let r4 = stage_row("repo"@, i18n::phrase(lang, Phrase::StageRepo), p) + r3;
    let s4 = row_parts("repo"@, i18n::phrase(lang, Phrase::StageRepo), p) + s3;
    lemma_order_row("node"@, i18n::phrase(lang, Phrase::StageNode), p, r4, s4);
    let r5 = stage_row("node"@, i18n::phrase(lang, Phrase::StageNode), p) + r4;
    let s5 = row_parts("node"@, i18n::phrase(lang, Phrase::StageNode), p) + s4;
    lemma_in_a_row(
        row_parts("node"@, i18n::phrase(lang, Phrase::StageNode), p),
        row_parts("repo"@, i18n::phrase(lang, Phrase::StageRepo), p),
        row_parts("install"@, i18n::phrase(lang, Phrase::StageInstall), p),
        row_parts("build"@, i18n::phrase(lang, Phrase::StageBuild), p),
        row_parts("host"@, i18n::phrase(lang, Phrase::StageHost), p),
        script_parts(),
    );
    assert(s5 == rows_parts(lang) + script_parts());
    assert(r5 == stage_rows(lang) + PAGE_SCRIPT@);
}

/// What the page holds, in order.
#[verifier::rlimit(40)]
proof fn lemma_page_order(lang: Lang)
    ensures
        text::in_order(
            status_page(lang),
            seq![
                "<html lang=\""@ + i18n::phrase(lang, Phrase::LangAttr) + "\">"@,
                i18n::phrase(lang, Phrase::Title),
                i18n::phrase(lang, Phrase::Heading),
            ] + (rows_parts(lang) + script_parts()),
        ),
{
    lemma_page_pieces(lang);
    lemma_rows_order(lang);
    let rest = stage_rows(lang) + PAGE_SCRIPT@;
    let parts = rows_parts(lang) + script_parts();
    let attr = i18n::phrase(lang, Phrase::LangAttr);
    let title = i18n::phrase(lang, Phrase::Title);
    let heading = i18n::phrase(lang, Phrase::Heading);
    let tag = "<html lang=\""@ + attr + "\">"@;
    let close = "\n<head>\n<meta charset=\"utf-8\">\n<title>"@;
    let open = "<!DOCTYPE html>\n"@;
    assert(PAGE_OPEN@ =~= open + "<html lang=\""@) by {
        reveal_strlit("<!DOCTYPE html>\n<html lang=\"");
        reveal_strlit("<!DOCTYPE html>\n");
        reveal_strlit("<html lang=\"");
    }
    assert(PAGE_HEAD@ =~= "\">"@ + close) by {
        reveal_strlit("\">\n<head>\n<meta charset=\"utf-8\">\n<title>");
        reveal_strlit("\">");
        reveal_strlit("\n<head>\n<meta charset=\"utf-8\">\n<title>");
    }
    let p5 = PAGE_STAGES@ + rest;
    lemma_order_front(PAGE_STAGES@, rest, parts);
    let p4 = PAGE_STYLE@ + (heading + p5);
    text::lemma_in_order(PAGE_STYLE@, heading, p5, parts);
    let q4 = seq![heading] + parts;
    let p3 = close + (title + p4);
    text::lemma_in_order(close, title, p4, q4);
    let q3 = seq![title] + q4;
    text::lemma_in_order(open, tag, p3, q3);
    lemma_three_first(tag, title, heading, parts);
    lemma_tag(open, "<html lang=\""@, attr, "\">"@, close, title + p4);
}

/// Three parts in front of others.
proof fn lemma_three_first(
    a: Seq<char>,
    b: Seq<char>,
    c: Seq<char>,
    parts: Seq<Seq<char>>,
)
    ensures
        seq![a] + (seq![b] + (seq![c] + parts)) == seq![a, b, c] + parts,
{
    assert(seq![a] + (seq![b] + (seq![c] + parts)) =~= seq![a, b, c] + parts);
}

/// A tag with an attribute can be taken together or apart.
proof fn lemma_tag(
    open: Seq<char>,
    before: Seq<char>,
    attr: Seq<char>,
    after: Seq<char>,
    close: Seq<char>,
    rest: Seq<char>,
)
    ensures
        open + ((before + attr + after) + (close + rest)) == (open + before) + (attr + ((after
            + close) + rest)),
{
    assert(open + ((before + attr + after) + (close + rest)) =~= (open + before) + (attr + ((after
        + close) + rest)));
}

/// The page has a look for a stage that runs, one for a stage that is done, and one for a
/// stage that failed.
pub proof fn lemma_states_are_styled()
    ensures
        text::contains(PAGE_STYLE@, ".stage."@ + "running"@),
        text::contains(PAGE_STYLE@, ".stage."@ + "done"@),
        text::contains(PAGE_STYLE@, ".stage."@ + "failed"@),
{
    lemma_style_starts_none(Lang::En);
}

/// The pages of the two languages differ.
pub proof fn lemma_pages_differ()
    ensures
        status_page(Lang::Zh) != status_page(Lang::En),
{
    reveal_strlit("zh-CN");
    reveal_strlit("en");
    let start = PAGE_OPEN@;
    let n = start.len() as int;
    assert(status_page(Lang::Zh)[n] == 'z');
    assert(status_page(Lang::En)[n] == 'e');
}

/// What a script is told stays a text, whatever it holds: a reader of the script finds the
/// stage, the state and the detail unchanged, and behind them the end of the call.
pub proof fn lemma_stage_script_is_safe(stage: Seq<char>, state: Seq<char>, detail: Seq<char>)
    ensures
        ({
            let call = "window.dshSetStage && dshSetStage("@;
            let (s, r1) = json::read_string(
                set_stage_script(stage, state, detail).skip(call.len() as int + 1),
            );
            let (t, r2) = json::read_string(r1.skip(3));
            let (d, r3) = json::read_string(r2.skip(3));
            s == stage && t == state && d == detail && r3 == ");"@
        }),
{
    reveal_strlit(", ");
    let call = "window.dshSetStage && dshSetStage("@;
    let script = set_stage_script(stage, state, detail);
    let r3 = ");"@;
    let r2 = ", "@ + json::json_string(detail) + r3;
    let r1 = ", "@ + json::json_string(state) + r2;
    assert(script.skip(call.len() as int + 1) =~= (json::json_string(stage) + r1).skip(1));
    assert(r1.skip(3) =~= (json::json_string(state) + r2).skip(1));
    assert(r2.skip(3) =~= (json::json_string(detail) + r3).skip(1));
    json::lemma_quoted_text_reads_back(stage, r1);
    json::lemma_quoted_text_reads_back(state, r2);
    json::lemma_quoted_text_reads_back(detail, r3);
}

/// A line of the log stays a text, whatever it holds.
pub proof fn lemma_log_script_is_safe(line: Seq<char>)
    ensures
        json::read_string(
            log_script(line).skip("window.dshLog && dshLog("@.len() as int + 1),
        ) == (line, ");"@),
{
    let call = "window.dshLog && dshLog("@;
    assert(log_script(line).skip(call.len() as int + 1) =~= (json::json_string(line)
        + ");"@).skip(1));
    json::lemma_quoted_text_reads_back(line, ");"@);
}

/// What is shown with a progress stays a text, whatever it holds, and a progress that is not
/// known is told as one.
pub proof fn lemma_progress_script_is_safe(
    stage: Seq<char>,
    progress: Option<Seq<char>>,
    detail: Option<Seq<char>>,
)
    ensures
        ({
            let call = "window.dshSetProgress && dshSetProgress("@;
            let value = match progress {
                Some(p) => p,
                None => "-1.0"@,
            };
            let (s, r1) = json::read_string(
                progress_script(stage, progress, detail).skip(call.len() as int + 1),
            );
            let r2 = r1.skip(4 + value.len() as int);
            &&& s == stage
            &&& r1.take(4 + value.len() as int) == ", "@ + value + ", "@
            &&& match detail {
                Some(d) => r2[0] == '"' && json::read_string(r2.skip(1)) == (d, ");"@),
                None => r2 == "null"@ + ");"@,
            }
        }),
{
    reveal_strlit(", ");
    let call = "window.dshSetProgress && dshSetProgress("@;
    let value = match progress {
        Some(p) => p,
        None => "-1.0"@,
    };
    let shown = match detail {
        Some(d) => json::json_string(d),
        None => "null"@,
    };
    let script = progress_script(stage, progress, detail);
    let r1 = ", "@ + value + ", "@ + shown + ");"@;
    assert(script.skip(call.len() as int + 1) =~= (json::json_string(stage) + r1).skip(1));
    json::lemma_quoted_text_reads_back(stage, r1);
    let n = 4 + value.len() as int;
    assert(r1.take(n) =~= ", "@ + value + ", "@);
    assert(r1.skip(n) =~= shown + ");"@);
    if let Some(d) = detail {
        json::lemma_quoted_text_reads_back(d, ");"@);
    }
}

/// What a request asks for: what stands behind its slashes, or the entry page where nothing
/// does.
pub proof fn lemma_asked_path(rel: Seq<char>)
    ensures
        asked_path(Seq::empty()) == "index.html"@,
        asked_path("/"@) == "index.html"@,
        rel.len() > 0 && rel[0] != '/' ==> asked_path("/"@ + rel) == rel,
        rel.len() > 0 && rel[0] != '/' ==> asked_path("//"@ + rel) == rel,
        rel.len() > 0 && rel[0] != '/' ==> asked_path(rel) == rel,
{
    reveal_strlit("/");
    reveal_strlit("//");
    if rel.len() > 0 && rel[0] != '/' {
        let one = "/"@ + rel;
        let two = "//"@ + rel;
        assert(one.len() > 1 && two.len() > 1);
        assert(one.skip(1) =~= rel);
        assert(two.skip(1) =~= one);
        assert("/"@ =~= one.subrange(0, 1));
        assert("/"@ =~= two.subrange(0, 1));
        assert("/"@[0] == '/');
        assert(!"/"@.is_prefix_of(rel)) by {
            if "/"@.is_prefix_of(rel) {
                assert(rel.subrange(0, 1)[0] == rel[0]);
            }
        }
        assert(text::strip_prefixes(rel, "/"@) == rel);
        assert(text::strip_prefixes(one, "/"@) == rel);
        assert(text::strip_prefixes(two, "/"@) == rel);
        assert(rel != "/"@);
        assert(one != "/"@);
        assert(two != "/"@);
    }
}

/// How a request is served, step by step. Without built pages there is a message that they are
/// not ready. A request that leads out of them is answered as one for what is not there. For
/// any other it is looked whether what it leads to is a directory, whose entry page is then
/// meant; the file is read; and its bytes are the answer, or that it is not there.
pub proof fn lemma_serving_steps(
    style: PathStyle,
    root: Seq<char>,
    uri_path: Seq<char>,
    bytes: Seq<u8>,
)
    ensures
        ({
            let plain = "text/plain; charset=utf-8"@;
            let missing = ServeOpOf::<Seq<char>, Seq<u8>>::Message {
                status: 404,
                content_type: plain,
                text: "404 Not Found"@,
            };
            let run = serve_start(style, Some(root), uri_path);
            &&& serve_start(style, None, uri_path).wanted() == (ServeOpOf::<
                Seq<char>,
                Seq<u8>,
            >::Message {
                status: 503,
                content_type: plain,
                text: "构建尚未就绪，请等待同步与构建完成。"@,
            })
            &&& resolved(style, root, uri_path) is None ==> run.wanted() == missing
            &&& resolved(style, root, uri_path) matches Some(p) ==> {
                let page = path::join(style, p, "index.html"@);
                let file = run.after(ServeEventOf::Dir { is_dir: false });
                let dir = run.after(ServeEventOf::Dir { is_dir: true });
                &&& run.wanted() == (ServeOpOf::<Seq<char>, Seq<u8>>::Look { path: p })
                &&& file.wanted() == (ServeOpOf::<Seq<char>, Seq<u8>>::Read { path: p })
                &&& dir.wanted() == (ServeOpOf::<Seq<char>, Seq<u8>>::Read { path: page })
                &&& file.after(ServeEventOf::Content { bytes }).wanted() == (ServeOpOf::<
                    Seq<char>,
                    Seq<u8>,
                >::Bytes { status: 200, content_type: mime_of_path(style, p), body: bytes })
                &&& dir.after(ServeEventOf::Content { bytes }).wanted() == (ServeOpOf::<
                    Seq<char>,
                    Seq<u8>,
                >::Bytes { status: 200, content_type: mime_of_path(style, page), body: bytes })
                &&& file.after(ServeEventOf::Unreadable).wanted() == missing
                &&& dir.after(ServeEventOf::Unreadable).wanted() == missing
            }
        }),
{
}

/// A request is refused exactly if it is anchored somewhere, leads up, or names a drive.
pub proof fn lemma_refused_requests(style: PathStyle, root: Seq<char>, uri_path: Seq<char>)
    ensures
        ({
            let rel = asked_path(uri_path);
            let names = path::names(style, rel);
            resolved(style, root, uri_path) is None <==> path::has_drive(style, rel)
                || path::starts_with_separator(style, rel) || exists|i: int|
                0 <= i < names.len() && ((#[trigger] names[i]) == ".."@ || path::has_drive(
                    style,
                    names[i],
                ))
        }),
{
    let rel = asked_path(uri_path);
    let names = path::names(style, rel);
    if is_inside(style, rel) {
        assert forall|i: int| 0 <= i < names.len() implies !((#[trigger] names[i]) == ".."@
            || path::has_drive(style, names[i])) by {
            assert(is_allowed(style, names[i]));
        }
    } else if !path::has_drive(style, rel) && !path::starts_with_separator(style, rel) {
        let i = choose|i: int|
            0 <= i < names.len() && !is_allowed(style, #[trigger] path::names(style, rel)[i]);
        assert(names[i] == ".."@ || path::has_drive(style, names[i]));
    }
}

/// The media type goes by what stands behind the last dot of the last name, and is that of
/// plain bytes where nothing is known of it.
pub proof fn lemma_media_types(style: PathStyle, p: Seq<char>)
    ensures
        path::file_name(style, p) is None ==> mime_of_path(style, p) == mime_of(Seq::empty()),
        path::file_name(style, p) matches Some(n) ==> (path::extension(n) is None ==> mime_of_path(
            style,
            p,
        ) == mime_of(Seq::empty())),
        path::file_name(style, p) matches Some(n) ==> (path::extension(n) matches Some(x)
            ==> mime_of_path(style, p) == mime_of(text::lower(x))),
        mime_of(Seq::empty()) == "application/octet-stream"@,
{
    let none = Seq::<char>::empty();
    assert(none.len() == 0);
    assert(none != "html"@) by {
        reveal_strlit("html");
        assert("html"@.len() == 4);
    }
    assert(none != "htm"@) by {
        reveal_strlit("htm");
        assert("htm"@.len() == 3);
    }
    assert(none != "js"@) by {
        reveal_strlit("js");
        assert("js"@.len() == 2);
    }
    assert(none != "mjs"@) by {
        reveal_strlit("mjs");
        assert("mjs"@.len() == 3);
    }
    assert(none != "css"@) by {
        reveal_strlit("css");
        assert("css"@.len() == 3);
    }
    assert(none != "json"@) by {
        reveal_strlit("json");
        assert("json"@.len() == 4);
    }
    assert(none != "map"@) by {
        reveal_strlit("map");
        assert("map"@.len() == 3);
    }
    assert(none != "png"@) by {
        reveal_strlit("png");
        assert("png"@.len() == 3);
    }
    assert(none != "jpg"@) by {
        reveal_strlit("jpg");
        assert("jpg"@.len() == 3);
    }
    assert(none != "jpeg"@) by {
        reveal_strlit("jpeg");
        assert("jpeg"@.len() == 4);
    }
    assert(none != "gif"@) by {
        reveal_strlit("gif");
        assert("gif"@.len() == 3);
    }
    assert(none != "svg"@) by {
        reveal_strlit("svg");
        assert("svg"@.len() == 3);
    }
    assert(none != "webp"@) by {
        reveal_strlit("webp");
        assert("webp"@.len() == 4);
    }
    assert(none != "avif"@) by {
        reveal_strlit("avif");
        assert("avif"@.len() == 4);
    }
    assert(none != "ico"@) by {
        reveal_strlit("ico");
        assert("ico"@.len() == 3);
    }
    assert(none != "woff"@) by {
        reveal_strlit("woff");
        assert("woff"@.len() == 4);
    }
    assert(none != "woff2"@) by {
        reveal_strlit("woff2");
        assert("woff2"@.len() == 5);
    }
    assert(none != "ttf"@) by {
        reveal_strlit("ttf");
        assert("ttf"@.len() == 3);
    }
    assert(none != "otf"@) by {
        reveal_strlit("otf");
        assert("otf"@.len() == 3);
    }
    assert(none != "txt"@) by {
        reveal_strlit("txt");
        assert("txt"@.len() == 3);
    }
    assert(none != "wasm"@) by {
        reveal_strlit("wasm");
        assert("wasm"@.len() == 4);
    }
    assert(none != "mp4"@) by {
        reveal_strlit("mp4");
        assert("mp4"@.len() == 3);
    }
    assert(none != "webm"@) by {
        reveal_strlit("webm");
        assert("webm"@.len() == 4);
    }
    assert(none != "mp3"@) by {
        reveal_strlit("mp3");
        assert("mp3"@.len() == 3);
    }
}

/// Whatever is not a page, a script, a style sheet, data, a picture, a font, a text, a module, a
/// film or a sound that is known by its extension goes out as plain bytes.
pub proof fn lemma_unknown_types(x: Seq<char>)
    ensures
        x != "html"@
            && x != "htm"@
            && x != "js"@
            && x != "mjs"@
            && x != "css"@
            && x != "json"@
            && x != "map"@
            && x != "png"@
            && x != "jpg"@
            && x != "jpeg"@
            && x != "gif"@
            && x != "svg"@
            && x != "webp"@
            && x != "avif"@
            && x != "ico"@
            && x != "woff"@
            && x != "woff2"@
            && x != "ttf"@
            && x != "otf"@
            && x != "txt"@
            && x != "wasm"@
            && x != "mp4"@
            && x != "webm"@
            && x != "mp3"@ ==> mime_of(x)
            == "application/octet-stream"@,
        x == "html"@ || x == "htm"@ ==> mime_of(x) == "text/html; charset=utf-8"@,
{
}

/// Which web views can be sent to `http` addresses alone, and how the scripts call the page.
pub proof fn lemma_scripts_and_addresses(
    os: Seq<char>,
    stage: Seq<char>,
    progress: Option<Seq<char>>,
    detail: Option<Seq<char>>,
    line: Seq<char>,
)
    ensures
        needs_http(os) <==> os == "windows"@ || os == "android"@,
        log_script(line) == "window.dshLog && dshLog("@ + json::json_string(line) + ");"@,
        progress_script(stage, progress, detail) == "window.dshSetProgress && dshSetProgress("@
            + json::json_string(stage) + ", "@ + (if progress is Some {
            progress->0
        } else {
            "-1.0"@
        }) + ", "@ + (if detail is Some {
            json::json_string(detail->0)
        } else {
            "null"@
        }) + ");"@,
{
}

/// What the scripts of the page do: a stage is found by its name and takes its state for its
/// look and its detail for its text; a progress is found by the name of its stage, is shown,
/// and takes its share of the width; a line goes to the end of the log.
pub proof fn lemma_page_scripts()
    ensures
        text::contains(PAGE_SCRIPT@, "document.getElementById('stage-' + stage)"@),
        text::contains(PAGE_SCRIPT@, "el.className = 'stage ' + state;"@),
        text::contains(PAGE_SCRIPT@, "querySelector('.detail').textContent = detail;"@),
        text::contains(PAGE_SCRIPT@, "document.getElementById('bar-' + stage)"@),
        text::contains(PAGE_SCRIPT@, "if (detail) detailEl.textContent = detail;"@),
        text::contains(PAGE_SCRIPT@, "wrap.classList.add('show');"@),
        text::contains(PAGE_SCRIPT@, "bar.style.width = (value * 100) + '%';"@),
        text::contains(PAGE_SCRIPT@, "document.getElementById('log')"@),
        text::contains(PAGE_SCRIPT@, "log.textContent += line + "@),
{
    lemma_script_text(Lang::En);
}

} // verus!
