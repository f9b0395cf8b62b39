//! What the runtime makes of HTTP: how a request that asks for JSON can fail, and how a
//! download gets to its place on the disk.

use vstd::prelude::*;
use vstd::string::*;

use crate::path;
use crate::path::{set_path_extension, PathStyle};
use crate::text;
use crate::text::{cat2, cat4, cat6, copy_text, decimal_text};

verus! {

broadcast use vstd::string::group_string_axioms;

/// How the runtime introduces itself to servers; GitHub insists on it.
pub const USER_AGENT: &'static str = "rustc-deepseek-harness/0.1.0";

/// How many seconds a request may take.
pub const HTTP_TIMEOUT: u64 = 30;

/// How many bytes of a download are read at a time.
pub const DOWNLOAD_CHUNK_SIZE: usize = 65536;

/// Whether a status says that the request succeeded.
pub open spec fn is_success(status: u16) -> bool {
    200 <= status < 300
}

// ---------------------------------------------------------------------------
// Asking for JSON
// ---------------------------------------------------------------------------

/// Why a request failed: the server was not reached, it refused, or something else.
#[derive(Debug, PartialEq)]
pub enum HttpError {
    /// The network or the server cannot be reached, or took too long.
    Unreachable(String),
    /// The server answered with this status, which is not a success.
    HttpStatus(u16),
    /// Anything else.
    Other(String),
}

/// A failure as plain text.
pub ghost enum HttpErrorView {
    Unreachable(Seq<char>),
    HttpStatus(u16),
    Other(Seq<char>),
}

impl View for HttpError {
    type V = HttpErrorView;

    open spec fn view(&self) -> HttpErrorView {
        match *self {
            HttpError::Unreachable(e) => HttpErrorView::Unreachable(e@),
            HttpError::HttpStatus(s) => HttpErrorView::HttpStatus(s),
            HttpError::Other(e) => HttpErrorView::Other(e@),
        }
    }
}

impl HttpErrorView {
    /// What a failure looks like to the user.
    pub open spec fn shown(self) -> Seq<char> {
        match self {
            HttpErrorView::Unreachable(e) => "网络不可达/超时: "@ + e,
            HttpErrorView::HttpStatus(s) => "HTTP 状态码异常: "@ + text::decimal(s as nat),
            HttpErrorView::Other(e) => e,
        }
    }
}

impl HttpError {
    /// What the failure looks like to the user.
    pub fn message(&self) -> (r: String)
        ensures
            r@ == self@.shown(),
    {
        match self {
            HttpError::Unreachable(e) => cat2("网络不可达/超时: ", e.as_str()),
            HttpError::HttpStatus(s) => cat2(
                "HTTP 状态码异常: ",
                decimal_text(*s as u64).as_str(),
            ),
            HttpError::Other(e) => copy_text(e.as_str()),
        }
    }
}

/// What came of a request for JSON.
#[derive(Debug, PartialEq)]
pub enum Exchange {
    /// There was no client to send it with.
    NoClient { error: String },
    /// It could not be sent; whether that was for want of time or of a connection.
    NotSent { timeout: bool, connect: bool, error: String },
    /// The server answered; what was wrong with the JSON, if something was.
    Answered { status: u16, body_error: Option<String> },
}

/// The failure that a request for JSON amounts to; none if it succeeded.
pub open spec fn failure_of(url: Seq<char>, x: Exchange) -> Option<HttpErrorView> {
    match x {
        Exchange::NoClient { error } => Some(
            HttpErrorView::Other("构建 HTTP 客户端失败: "@ + error@),
        ),
        Exchange::NotSent { timeout, connect, error } => if timeout || connect {
            Some(HttpErrorView::Unreachable(error@))
        } else {
            Some(HttpErrorView::Other("GET "@ + url + " 请求失败: "@ + error@))
        },
        Exchange::Answered { status, body_error } => if !is_success(status) {
            Some(HttpErrorView::HttpStatus(status))
        } else {
            match body_error {
                Some(error) => Some(
                    HttpErrorView::Other("GET "@ + url + " 响应 JSON 解析失败: "@ + error@),
                ),
                None => None,
            }
        },
    }
}

/// Tests whether a status says that the request succeeded.
pub fn success(status: u16) -> (r: bool)
    ensures
        r == is_success(status),
{
    200 <= status && status < 300
}

/// Classifies what came of a request for JSON.
pub fn get_json_with_timeout(url: &str, x: Exchange) -> (r: Option<HttpError>)
    ensures
        match r {
            Some(e) => failure_of(url@, x) == Some(e@),
            None => failure_of(url@, x) is None,
        },
{
    match x {
        Exchange::NoClient { error } => Some(
            HttpError::Other(cat2("构建 HTTP 客户端失败: ", error.as_str())),
        ),
        Exchange::NotSent { timeout, connect, error } => if timeout || connect {
            Some(HttpError::Unreachable(error))
        } else {
            Some(HttpError::Other(cat4("GET ", url, " 请求失败: ", error.as_str())))
        },
        Exchange::Answered { status, body_error } => if !success(status) {
            Some(HttpError::HttpStatus(status))
        } else {
            match body_error {
                Some(error) => Some(
                    HttpError::Other(
                        cat4("GET ", url, " 响应 JSON 解析失败: ", error.as_str()),
                    ),
                ),
                None => None,
            }
        },
    }
}

/// A server that answered counts as reached, whatever it said.
pub proof fn lemma_answered_is_reached(url: Seq<char>, x: Exchange)
    ensures
        x is Answered ==> !(failure_of(url, x) matches Some(e) && e is Unreachable),
        failure_of(url, x) is None ==> (x matches Exchange::Answered { status, .. }
            && is_success(status)),
{
}

// ---------------------------------------------------------------------------
// Downloading
// ---------------------------------------------------------------------------

/// Where a download stands.
#[derive(Clone, Copy, PartialEq, Eq, Structural, Debug)]
pub enum DownloadPhase {
    /// The server is asked.
    Request,
    /// The temporary file is created.
    Create,
    /// The next bytes are read.
    Read,
    /// They are written to the temporary file.
    Write,
    /// The progress is reported.
    Report,
    /// The temporary file is flushed.
    Flush,
    /// It is renamed to its final name.
    Rename,
    /// Something went wrong: it is removed.
    Discard,
    /// Over: the file is in its place.
    Done,
    /// Over, with an error.
    Failed,
}

/// A download on its way; `T` is `String` in the program and `Seq<char>` in contracts.
#[derive(Debug, PartialEq)]
pub struct DownloadRunOf<T> {
    /// What is downloaded.
    pub url: T,
    /// The temporary file.
    pub tmp: T,
    /// The final file.
    pub dest: T,
    /// How many bytes the server announced.
    pub total: Option<u64>,
    /// How many bytes are written.
    pub written: u64,
    /// How many bytes were read and are not yet written.
    pub pending: u64,
    /// What went wrong.
    pub error: T,
    /// Where the download stands.
    pub phase: DownloadPhase,
}

/// A download on its way.
pub type DownloadRun = DownloadRunOf<String>;

/// What an operation of a download came to.
#[derive(Debug, PartialEq)]
pub enum DownloadEventOf<T> {
    /// There is no client to ask with.
    NoClient(T),
    /// The server answered: with a success or not, with this status, and with this length.
    Answered { success: bool, status: T, total: Option<u64> },
    /// So many bytes were read; none at the end.
    Chunk { len: u64 },
    /// The operation succeeded.
    Done,
    /// The operation failed.
    Failed(T),
}

/// What an operation of a download came to.
pub type DownloadEvent = DownloadEventOf<String>;

/// What a download wants done next.
#[derive(Debug, PartialEq)]
pub enum DownloadOpOf<T> {
    /// Ask for `url`.
    Request { url: T },
    /// Create the file `path`, empty.
    Create { path: T },
    /// Read the next bytes.
    Read,
    /// Write all bytes that were read.
    Write,
    /// Report the progress.
    Report { written: u64, total: Option<u64> },
    /// Flush the file.
    Flush,
    /// Rename a file.
    Rename { from: T, to: T },
    /// Remove the file `path`, whether or not that succeeds.
    Discard { path: T },
    /// Nothing more: the file is in its place.
    Finish,
    /// Nothing more: the download failed.
    Fail { error: T },
}

/// What a download wants done next.
pub type DownloadOp = DownloadOpOf<String>;

impl View for DownloadRunOf<String> {
    type V = DownloadRunOf<Seq<char>>;

    open spec fn view(&self) -> DownloadRunOf<Seq<char>> {
        DownloadRunOf {
            url: self.url@,
            tmp: self.tmp@,
            dest: self.dest@,
            total: self.total,
            written: self.written,
            pending: self.pending,
            error: self.error@,
            phase: self.phase,
        }
    }
}

impl View for DownloadEventOf<String> {
    type V = DownloadEventOf<Seq<char>>;

    open spec fn view(&self) -> DownloadEventOf<Seq<char>> {
        match *self {
            DownloadEventOf::NoClient(e) => DownloadEventOf::NoClient(e@),
            DownloadEventOf::Answered { success, status, total } => DownloadEventOf::Answered {
                success,
                status: status@,
                total,
            },
            DownloadEventOf::Chunk { len } => DownloadEventOf::Chunk { len },
            DownloadEventOf::Done => DownloadEventOf::Done,
            DownloadEventOf::Failed(e) => DownloadEventOf::Failed(e@),
        }
    }
}

impl View for DownloadOpOf<String> {
    type V = DownloadOpOf<Seq<char>>;

    open spec fn view(&self) -> DownloadOpOf<Seq<char>> {
        match *self {
            DownloadOpOf::Request { url } => DownloadOpOf::Request { url: url@ },
            DownloadOpOf::Create { path } => DownloadOpOf::Create { path: path@ },
            DownloadOpOf::Read => DownloadOpOf::Read,
            DownloadOpOf::Write => DownloadOpOf::Write,
            DownloadOpOf::Report { written, total } => DownloadOpOf::Report { written, total },
            DownloadOpOf::Flush => DownloadOpOf::Flush,
            DownloadOpOf::Rename { from, to } => DownloadOpOf::Rename { from: from@, to: to@ },
            DownloadOpOf::Discard { path } => DownloadOpOf::Discard { path: path@ },
            DownloadOpOf::Finish => DownloadOpOf::Finish,
            DownloadOpOf::Fail { error } => DownloadOpOf::Fail { error: error@ },
        }
    }
}

impl DownloadRunOf<Seq<char>> {
    /// On to another phase.
    pub open spec fn to(self, phase: DownloadPhase) -> Self {
        DownloadRunOf { phase, ..self }
    }

    /// Something went wrong: the temporary file goes first.
    pub open spec fn abandon(self, error: Seq<char>) -> Self {
        DownloadRunOf { error, phase: DownloadPhase::Discard, ..self }
    }

    /// Whether the bytes that were read can still be counted once they are written.
    pub open spec fn has_room(self, e: DownloadEventOf<Seq<char>>) -> bool {
        self.phase == DownloadPhase::Write && e is Done ==> self.written + self.pending
            <= u64::MAX
    }

    /// The download after an event. An event that does not answer what was wanted changes
    /// nothing.
    pub open spec fn after(self, e: DownloadEventOf<Seq<char>>) -> Self {
        match (self.phase, e) {
            (DownloadPhase::Request, DownloadEventOf::NoClient(x)) => self.abandon(
                "构建 HTTP 客户端失败: "@ + x,
            ),
            (DownloadPhase::Request, DownloadEventOf::Failed(x)) => self.abandon(
                "下载 "@ + self.url + " 请求失败: "@ + x,
            ),
            (
                DownloadPhase::Request,
                DownloadEventOf::Answered { success, status, total },
            ) => if success {
                DownloadRunOf { total, phase: DownloadPhase::Create, ..self }
            } else {
                self.abandon("下载 "@ + self.url + " 返回非成功状态: "@ + status)
            },
            (DownloadPhase::Create, DownloadEventOf::Done) => self.to(DownloadPhase::Read),
            (DownloadPhase::Create, DownloadEventOf::Failed(x)) => self.abandon(
                "创建文件 "@ + self.tmp + " 失败: "@ + x,
            ),
            (DownloadPhase::Read, DownloadEventOf::Chunk { len }) => if len == 0 {
                self.to(DownloadPhase::Flush)
            } else {
                DownloadRunOf { pending: len, phase: DownloadPhase::Write, ..self }
            },
            (DownloadPhase::Read, DownloadEventOf::Failed(x)) => self.abandon(
                "读取响应体失败: "@ + x,
            ),
            (DownloadPhase::Write, DownloadEventOf::Done) => DownloadRunOf {
                written: (self.written + self.pending) as u64,
                pending: 0,
                phase: DownloadPhase::Report,
                ..self
            },
            (DownloadPhase::Write, DownloadEventOf::Failed(x)) => self.abandon(
                "写入文件 "@ + self.tmp + " 失败: "@ + x,
            ),
            (DownloadPhase::Report, DownloadEventOf::Done) => self.to(DownloadPhase::Read),
            (DownloadPhase::Flush, DownloadEventOf::Done) => self.to(DownloadPhase::Rename),
            (DownloadPhase::Flush, DownloadEventOf::Failed(x)) => self.abandon(
                "刷新文件 "@ + self.tmp + " 失败: "@ + x,
            ),
            (DownloadPhase::Rename, DownloadEventOf::Done) => self.to(DownloadPhase::Done),
            (DownloadPhase::Rename, DownloadEventOf::Failed(x)) => self.abandon(
                "重命名 "@ + self.tmp + " -> "@ + self.dest + " 失败: "@ + x,
            ),
            (DownloadPhase::Discard, _) => self.to(DownloadPhase::Failed),
            _ => self,
        }
    }

    /// What is wanted next.
    pub open spec fn wanted(self) -> DownloadOpOf<Seq<char>> {
        match self.phase {
            DownloadPhase::Request => DownloadOpOf::Request { url: self.url },
            DownloadPhase::Create => DownloadOpOf::Create { path: self.tmp },
            DownloadPhase::Read => DownloadOpOf::Read,
            DownloadPhase::Write => DownloadOpOf::Write,
            DownloadPhase::Report => DownloadOpOf::Report {
                written: self.written,
                total: self.total,
            },
            DownloadPhase::Flush => DownloadOpOf::Flush,
            DownloadPhase::Rename => DownloadOpOf::Rename { from: self.tmp, to: self.dest },
            DownloadPhase::Discard => DownloadOpOf::Discard { path: self.tmp },
            DownloadPhase::Done => DownloadOpOf::Finish,
            DownloadPhase::Failed => DownloadOpOf::Fail { error: self.error },
        }
    }
}

/// A download at its start: the bytes go to a file beside the final one, with the
/// extension `part`.
pub open spec fn download_start(
    style: PathStyle,
    url: Seq<char>,
    dest: Seq<char>,
) -> DownloadRunOf<Seq<char>> {
    DownloadRunOf {
        url,
        tmp: path::path_with_extension(style, dest, "part"@),
        dest,
        total: None,
        written: 0,
        pending: 0,
        error: Seq::empty(),
        phase: DownloadPhase::Request,
    }
}

/// Starts to download `url` to the file `dest`.
pub fn download_file(style: PathStyle, url: &str, dest: &str) -> (r: DownloadRun)
    ensures
        r@ == download_start(style, url@, dest@),
{
    DownloadRunOf {
        url: copy_text(url),
        tmp: set_path_extension(style, dest, "part"),
        dest: copy_text(dest),
        total: None,
        written: 0,
        pending: 0,
        error: String::new(),
        phase: DownloadPhase::Request,
    }
}

impl DownloadRunOf<String> {
    /// What is wanted next.
    pub fn action(&self) -> (r: DownloadOp)
        ensures
            r@ == self@.wanted(),
    {
        match self.phase {
            DownloadPhase::Request => DownloadOpOf::Request { url: copy_text(self.url.as_str()) },
            DownloadPhase::Create => DownloadOpOf::Create { path: copy_text(self.tmp.as_str()) },
            DownloadPhase::Read => DownloadOpOf::Read,
            DownloadPhase::Write => DownloadOpOf::Write,
            DownloadPhase::Report => DownloadOpOf::Report {
                written: self.written,
                total: self.total,
            },
            DownloadPhase::Flush => DownloadOpOf::Flush,
            DownloadPhase::Rename => DownloadOpOf::Rename {
                from: copy_text(self.tmp.as_str()),
                to: copy_text(self.dest.as_str()),
            },
            DownloadPhase::Discard => DownloadOpOf::Discard { path: copy_text(self.tmp.as_str()) },
            DownloadPhase::Done => DownloadOpOf::Finish,
            DownloadPhase::Failed => DownloadOpOf::Fail { error: copy_text(self.error.as_str()) },
        }
    }

    /// How many more bytes can be counted.
    pub fn room(&self) -> (r: u64)
        ensures
            r == u64::MAX - self.written,
    {
        u64::MAX - self.written
    }

    fn set_abandoned(&mut self, error: String)
        ensures
            final(self)@ == old(self)@.abandon(error@),
    {
        self.error = error;
        self.phase = DownloadPhase::Discard;
    }

    /// Takes note of what the wanted operation came to.
    pub fn advance(&mut self, e: DownloadEvent)
        requires
            old(self)@.has_room(e@),
        ensures
            final(self)@ == old(self)@.after(e@),
    {
        match (self.phase, e) {
            (DownloadPhase::Request, DownloadEventOf::NoClient(x)) => {
                self.set_abandoned(cat2("构建 HTTP 客户端失败: ", x.as_str()));
            },
            (DownloadPhase::Request, DownloadEventOf::Failed(x)) => {
                let m = cat4("下载 ", self.url.as_str(), " 请求失败: ", x.as_str());
                self.set_abandoned(m);
            },
            (DownloadPhase::Request, DownloadEventOf::Answered { success, status, total }) => {
                if success {
                    self.total = total;
                    self.phase = DownloadPhase::Create;
                } else {
                    let m = cat4(
                        "下载 ",
                        self.url.as_str(),
                        " 返回非成功状态: ",
                        status.as_str(),
                    );
                    self.set_abandoned(m);
                }
            },
            (DownloadPhase::Create, DownloadEventOf::Done) => {
                self.phase = DownloadPhase::Read;
            },
            (DownloadPhase::Create, DownloadEventOf::Failed(x)) => {
                let m = cat4("创建文件 ", self.tmp.as_str(), " 失败: ", x.as_str());
                self.set_abandoned(m);
            },
            (DownloadPhase::Read, DownloadEventOf::Chunk { len }) => {
                if len == 0 {
                    self.phase = DownloadPhase::Flush;
                } else {
                    self.pending = len;
                    self.phase = DownloadPhase::Write;
                }
            },
            (DownloadPhase::Read, DownloadEventOf::Failed(x)) => {
                self.set_abandoned(cat2("读取响应体失败: ", x.as_str()));
            },
            (DownloadPhase::Write, DownloadEventOf::Done) => {
                self.written = self.written + self.pending;
                self.pending = 0;
                self.phase = DownloadPhase::Report;
            },
            (DownloadPhase::Write, DownloadEventOf::Failed(x)) => {
                let m = cat4("写入文件 ", self.tmp.as_str(), " 失败: ", x.as_str());
                self.set_abandoned(m);
            },
            (DownloadPhase::Report, DownloadEventOf::Done) => {
                self.phase = DownloadPhase::Read;
            },
            (DownloadPhase::Flush, DownloadEventOf::Done) => {
                self.phase = DownloadPhase::Rename;
            },
            (DownloadPhase::Flush, DownloadEventOf::Failed(x)) => {
                let m = cat4("刷新文件 ", self.tmp.as_str(), " 失败: ", x.as_str());
                self.set_abandoned(m);
            },
            (DownloadPhase::Rename, DownloadEventOf::Done) => {
                self.phase = DownloadPhase::Done;
            },
            (DownloadPhase::Rename, DownloadEventOf::Failed(x)) => {
                let m = cat6(
                    "重命名 ",
                    self.tmp.as_str(),
                    " -> ",
                    self.dest.as_str(),
                    " 失败: ",
                    x.as_str(),
                );
                self.set_abandoned(m);
            },
            (DownloadPhase::Discard, _) => {
                self.phase = DownloadPhase::Failed;
            },
            _ => {},
        }
    }
}

// ---------------------------------------------------------------------------
// Laws of the download
// ---------------------------------------------------------------------------

/// A download never leaves a half-written file behind: whatever operation fails, the
/// temporary file is removed before the download is over, and the failure is reported.
pub proof fn lemma_failed_download_leaves_nothing(
    run: DownloadRunOf<Seq<char>>,
    x: Seq<char>,
    f: DownloadEventOf<Seq<char>>,
)
    requires
        run.phase != DownloadPhase::Report,
        run.phase != DownloadPhase::Discard,
        run.phase != DownloadPhase::Done,
        run.phase != DownloadPhase::Failed,
    ensures
        ({
            let failed = run.after(DownloadEventOf::Failed(x));
            &&& failed.wanted() == (DownloadOpOf::Discard { path: run.tmp })
            &&& x.is_suffix_of(failed.error)
            &&& failed.after(f).wanted() == (DownloadOpOf::Fail { error: failed.error })
        }),
{
    let failed = run.after(DownloadEventOf::Failed(x));
    let n = failed.error.len() - x.len();
    assert(failed.error.subrange(n, failed.error.len() as int) =~= x);
}

/// The final file is touched by a rename alone, once everything was read, written and
/// flushed: no other operation names it, and the rename follows the flush, which follows
/// the end of the data.
pub proof fn lemma_final_file_is_complete(
    run: DownloadRunOf<Seq<char>>,
    e: DownloadEventOf<Seq<char>>,
)
    requires
        run.tmp != run.dest,
    ensures
        run.wanted() matches DownloadOpOf::Create { path } ==> path != run.dest,
        run.wanted() matches DownloadOpOf::Discard { path } ==> path != run.dest,
        run.wanted() matches DownloadOpOf::Rename { from, to } ==> run.phase
            == DownloadPhase::Rename && from == run.tmp && to == run.dest,
        run.phase != DownloadPhase::Rename && run.after(e).phase == DownloadPhase::Rename
            ==> run.phase == DownloadPhase::Flush && e is Done,
        run.phase != DownloadPhase::Flush && run.after(e).phase == DownloadPhase::Flush
            ==> run.phase == DownloadPhase::Read && e == (DownloadEventOf::<
            Seq<char>,
        >::Chunk { len: 0 }),
        run.phase != DownloadPhase::Done && run.after(e).phase == DownloadPhase::Done
            ==> run.phase == DownloadPhase::Rename && e is Done,
        run.after(e).tmp == run.tmp,
        run.after(e).dest == run.dest,
{
}

/// How many bytes there are in all.
pub open spec fn total_len(chunks: Seq<u64>) -> nat
    decreases chunks.len(),
{
    if chunks.len() == 0 {
        0
    } else {
        total_len(chunks.drop_last()) + chunks.last() as nat
    }
}

/// A download that waits for bytes, once it has read, written and reported these.
pub open spec fn fed(run: DownloadRunOf<Seq<char>>, chunks: Seq<u64>) -> DownloadRunOf<Seq<char>>
    decreases chunks.len(),
{
    if chunks.len() == 0 {
        run
    } else {
        reported(fed(run, chunks.drop_last()), chunks.last()).after(DownloadEventOf::Done)
    }
}

/// A download about to report, once it has read and written `len` more bytes.
pub open spec fn reported(run: DownloadRunOf<Seq<char>>, len: u64) -> DownloadRunOf<Seq<char>> {
    run.after(DownloadEventOf::Chunk { len }).after(DownloadEventOf::Done)
}

/// What a download reports is the number of bytes that it has written so far, so it never
/// goes down.
pub proof fn lemma_progress_counts_bytes(
    run: DownloadRunOf<Seq<char>>,
    chunks: Seq<u64>,
    len: u64,
)
    requires
        run.phase == DownloadPhase::Read,
        run.written == 0,
        forall|i: int| 0 <= i < chunks.len() ==> #[trigger] chunks[i] > 0,
        len > 0,
        total_len(chunks) + len <= u64::MAX,
    ensures
        fed(run, chunks).phase == DownloadPhase::Read,
        fed(run, chunks).written == total_len(chunks),
        reported(fed(run, chunks), len).wanted() == (DownloadOpOf::<Seq<char>>::Report {
            written: (total_len(chunks) + len) as u64,
            total: run.total,
        }),
        fed(run, chunks).total == run.total,
    decreases chunks.len(),
{
    if chunks.len() > 0 {
        let front = chunks.drop_last();
        assert forall|i: int| 0 <= i < front.len() implies #[trigger] front[i] > 0 by {
            assert(front[i] == chunks[i]);
        }
        assert(chunks.last() == chunks[chunks.len() - 1]);
        lemma_progress_counts_bytes(run, front, chunks.last());
    }
}

/// The temporary file stands beside the final one: of the path only the last name changes,
/// by its extension. They are two files unless the final one is called like a temporary one.
pub proof fn lemma_temporary_file_is_beside(style: PathStyle, url: Seq<char>, dest: Seq<char>)
    requires
        path::ends_with_name(style, dest),
    ensures
        ({
            let run = download_start(style, url, dest);
            let n = path::name_start(style, dest);
            &&& run.dest == dest
            &&& run.tmp.take(n as int) == dest.take(n as int)
            &&& run.tmp.skip(n as int) == path::with_extension(
                path::last_piece(style, dest),
                "part"@,
            )
            &&& path::extension(path::last_piece(style, dest)) != Some("part"@) ==> run.tmp
                != dest
        }),
{
    let n = path::name_start(style, dest) as int;
    let tmp = download_start(style, url, dest).tmp;
    let name = path::last_piece(style, dest);
    path::lemma_name_bounds(style, dest);
    assert(tmp.take(n) =~= dest.take(n));
    assert(tmp.skip(n) =~= path::with_extension(name, "part"@));
    if tmp == dest {
        reveal_strlit("part");
        assert(tmp.last() == 't');
        assert(path::trimmed_len(style, dest, dest.len()) == dest.len());
        assert(dest.skip(n) =~= name);
        lemma_part_is_an_extension(name);
    }
}

/// A name that does not change when it gets the extension `part` has it already.
proof fn lemma_part_is_an_extension(name: Seq<char>)
    requires
        name == path::with_extension(name, "part"@),
    ensures
        path::extension(name) == Some("part"@),
{
    reveal_strlit(".");
    reveal_strlit("part");
    path::lemma_last_dot(name);
    let dot = path::last_dot(name);
    if dot > 0 {
        let all = path::with_extension(name, "part"@);
        assert forall|i: int| 0 <= i < 4 implies name.skip(dot + 1)[i] == "part"@[i] by {
            assert(all[dot + 1 + i] == "part"@[i]);
        }
        assert(name.skip(dot + 1) =~= "part"@);
    }
}

/// What is downloaded to a plain name in a directory is written, while it is not complete, to
/// another name in the same directory.
pub proof fn lemma_temporary_file_in_directory(
    style: PathStyle,
    url: Seq<char>,
    dir: Seq<char>,
    name: Seq<char>,
)
    requires
        path::is_settled(style, dir),
        path::is_plain_name(style, name),
        !path::has_drive(style, name),
        !path::has_drive(style, path::with_extension(name, "part"@)),
    ensures
        ({
            let run = download_start(style, url, path::join(style, dir, name));
            let part = path::with_extension(name, "part"@);
            &&& run.tmp == path::join(style, dir, part)
            &&& path::is_below(style, dir, seq![part], run.tmp)
            &&& path::is_below(style, dir, seq![name], run.dest)
        }),
{
    let part = path::with_extension(name, "part"@);
    assert(path::is_plain_name(style, part)) by {
        reveal_strlit(".");
        reveal_strlit("part");
        path::lemma_last_dot(name);
        assert forall|j: int| 0 <= j < part.len() implies !style.separator().has(
            #[trigger] part[j],
        ) by {
            if j < path::stem(name).len() {
                assert(part[j] == name[j]);
            }
        }
        path::lemma_long_name(style, part);
    }
    path::lemma_beside(style, dir, name, part);
    path::lemma_join_plain(style, dir, part);
    path::lemma_join_plain(style, dir, name);
}

/// What came of a request is told apart: a server that was not reached in time or at all; one
/// that answered with anything but a status from 200 to 299; an answer that is no JSON; and the
/// rest, which is told with the address.
pub proof fn lemma_requests_are_told_apart(
    url: Seq<char>,
    timeout: bool,
    connect: bool,
    status: u16,
    error: String,
    body_error: Option<String>,
)
    ensures
        failure_of(url, Exchange::NoClient { error }) == Some(
            HttpErrorView::Other("构建 HTTP 客户端失败: "@ + error@),
        ),
        failure_of(url, Exchange::NotSent { timeout, connect, error }) == Some(
            if timeout || connect {
                HttpErrorView::Unreachable(error@)
            } else {
                HttpErrorView::Other("GET "@ + url + " 请求失败: "@ + error@)
            },
        ),
        status < 200 || status >= 300 ==> failure_of(
            url,
            Exchange::Answered { status, body_error },
        ) == Some(HttpErrorView::HttpStatus(status)),
        200 <= status < 300 ==> failure_of(url, Exchange::Answered { status, body_error }) == (
        match body_error {
            Some(e) => Some(
                HttpErrorView::Other("GET "@ + url + " 响应 JSON 解析失败: "@ + e@),
            ),
            None => None,
        }),
        HttpErrorView::Unreachable(error@).shown() == "网络不可达/超时: "@ + error@,
        HttpErrorView::HttpStatus(status).shown() == "HTTP 状态码异常: "@ + text::decimal(
            status as nat,
        ),
        HttpErrorView::Other(error@).shown() == error@,
{
}

/// How a download goes, step by step: the server is asked; the temporary file is made; bytes
/// are read, written and reported in turn until there are no more; then the file is flushed and
/// renamed. Whatever fails is told with what it was about, once the temporary file is removed.
pub proof fn lemma_download_steps(
    style: PathStyle,
    url: Seq<char>,
    dest: Seq<char>,
    status: Seq<char>,
    total: Option<u64>,
    x: Seq<char>,
)
    ensures
        ({
            let run = download_start(style, url, dest);
            let tmp = path::path_with_extension(style, dest, "part"@);
            let asked = run.after(DownloadEventOf::Answered { success: true, status, total });
            let created = asked.after(DownloadEventOf::Done);
            let ended = created.after(DownloadEventOf::Chunk { len: 0 });
            let flushed = ended.after(DownloadEventOf::Done);
            let renamed = flushed.after(DownloadEventOf::Done);
            let refused = run.after(DownloadEventOf::Answered { success: false, status, total });
            &&& run.wanted() == (DownloadOpOf::Request { url })
            &&& asked.wanted() == (DownloadOpOf::Create { path: tmp })
            &&& asked.total == total
            &&& asked.written == 0
            &&& created.wanted() == DownloadOpOf::<Seq<char>>::Read
            &&& ended.wanted() == DownloadOpOf::<Seq<char>>::Flush
            &&& flushed.wanted() == (DownloadOpOf::Rename { from: tmp, to: dest })
            &&& renamed.wanted() == DownloadOpOf::<Seq<char>>::Finish
            &&& refused.wanted() == (DownloadOpOf::Discard { path: tmp })
            &&& refused.error == "下载 "@ + url + " 返回非成功状态: "@ + status
            &&& run.after(DownloadEventOf::NoClient(x)).error == "构建 HTTP 客户端失败: "@ + x
            &&& run.after(DownloadEventOf::NoClient(x)).wanted() == (DownloadOpOf::Discard {
                path: tmp,
            })
            &&& run.after(DownloadEventOf::Failed(x)).error == "下载 "@ + url + " 请求失败: "@ + x
            &&& asked.after(DownloadEventOf::Failed(x)).error == "创建文件 "@ + tmp + " 失败: "@
                + x
            &&& created.after(DownloadEventOf::Failed(x)).error == "读取响应体失败: "@ + x
            &&& ended.after(DownloadEventOf::Failed(x)).error == "刷新文件 "@ + tmp + " 失败: "@
                + x
            &&& flushed.after(DownloadEventOf::Failed(x)).error == "重命名 "@ + tmp + " -> "@
                + dest + " 失败: "@ + x
        }),
{
}

/// Bytes that were read are written, and then told; there is no end of a download while bytes
/// still come.
pub proof fn lemma_bytes_are_written(run: DownloadRunOf<Seq<char>>, len: u64, x: Seq<char>)
    requires
        run.phase == DownloadPhase::Read,
        len > 0,
        run.written + len <= u64::MAX,
    ensures
        ({
            let read = run.after(DownloadEventOf::Chunk { len });
            let written = read.after(DownloadEventOf::Done);
            &&& read.wanted() == DownloadOpOf::<Seq<char>>::Write
            &&& written.wanted() == (DownloadOpOf::<Seq<char>>::Report {
                written: (run.written + len) as u64,
                total: run.total,
            })
            &&& written.after(DownloadEventOf::Done).wanted() == DownloadOpOf::<Seq<char>>::Read
            &&& written.after(DownloadEventOf::Done).written == run.written + len
            &&& read.after(DownloadEventOf::Failed(x)).error == "写入文件 "@ + run.tmp
                + " 失败: "@ + x
            &&& read.after(DownloadEventOf::Failed(x)).wanted() == (DownloadOpOf::Discard {
                path: run.tmp,
            })
        }),
{
}

} // verus!
