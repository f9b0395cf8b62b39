//! Rebuilding the local copy of the repository from an archive, and the patience that moving
//! and removing whole directories takes where another program may hold them for a moment.

use vstd::prelude::*;
use vstd::string::*;

use crate::path;
use crate::path::{join_path, PathStyle};
use crate::text;
use crate::text::{cat2, cat3, cat4, cat5, copy_opt, copy_text, decimal_text};

verus! {

broadcast use vstd::string::group_string_axioms;

// ---------------------------------------------------------------------------
// Retrying
// ---------------------------------------------------------------------------

/// How many times a directory operation is attempted.
pub const FS_RETRIES: u32 = 6;

/// How long the first pause is, in milliseconds; each further one is twice as long.
pub const FS_RETRY_DELAY: u64 = 500;

/// Where a directory operation stands.
#[derive(Clone, Copy, PartialEq, Eq, Structural, Debug)]
pub enum RetryPhase {
    /// It is attempted.
    Trying,
    /// It failed and is attempted again after a pause.
    Waiting,
    /// Over: it succeeded.
    Succeeded,
    /// Over: it failed too often.
    GaveUp,
}

/// A directory operation on its way; `T` is `String` in the program and `Seq<char>` in
/// contracts.
#[derive(Debug, PartialEq)]
pub struct FsRetryOf<T> {
    /// How the message of a failure starts.
    pub task: T,
    /// How often it has failed.
    pub failures: u32,
    /// The last failure.
    pub error: T,
    /// Where it stands.
    pub phase: RetryPhase,
}

/// A directory operation on its way.
pub type FsRetry = FsRetryOf<String>;

/// What a step of a directory operation came to.
#[derive(Debug, PartialEq)]
pub enum RetryEventOf<T> {
    /// The attempt succeeded.
    Done,
    /// The attempt failed.
    Failed(T),
    /// The pause is over.
    Slept,
}

/// What a step of a directory operation came to.
pub type RetryEvent = RetryEventOf<String>;

/// What a directory operation wants done next.
#[derive(Debug, PartialEq)]
pub enum RetryOpOf<T> {
    /// Attempt it.
    Attempt,
    /// Pause for so many milliseconds.
    Sleep { millis: u64 },
    /// Nothing more: it succeeded.
    Finish,
    /// Nothing more: it failed.
    Fail { error: T },
}

/// What a directory operation wants done next.
pub type RetryOp = RetryOpOf<String>;

impl View for FsRetryOf<String> {
    type V = FsRetryOf<Seq<char>>;

    open spec fn view(&self) -> FsRetryOf<Seq<char>> {
        FsRetryOf {
            task: self.task@,
            failures: self.failures,
            error: self.error@,
            phase: self.phase,
        }
    }
}

impl View for RetryEventOf<String> {
    type V = RetryEventOf<Seq<char>>;

    open spec fn view(&self) -> RetryEventOf<Seq<char>> {
        match *self {
            RetryEventOf::Done => RetryEventOf::Done,
            RetryEventOf::Failed(e) => RetryEventOf::Failed(e@),
            RetryEventOf::Slept => RetryEventOf::Slept,
        }
    }
}

impl View for RetryOpOf<String> {
    type V = RetryOpOf<Seq<char>>;

    open spec fn view(&self) -> RetryOpOf<Seq<char>> {
        match *self {
            RetryOpOf::Attempt => RetryOpOf::Attempt,
            RetryOpOf::Sleep { millis } => RetryOpOf::Sleep { millis },
            RetryOpOf::Finish => RetryOpOf::Finish,
            RetryOpOf::Fail { error } => RetryOpOf::Fail { error: error@ },
        }
    }
}

/// The pause after the `n`th failure.
pub open spec fn backoff(n: nat) -> nat
    decreases n,
{
    if n <= 1 {
        FS_RETRY_DELAY as nat
    } else {
        2 * backoff((n - 1) as nat)
    }
}

/// No pause between two attempts is longer than eight seconds.
pub proof fn lemma_backoff_bound(n: nat)
    requires
        n < FS_RETRIES,
    ensures
        FS_RETRY_DELAY <= backoff(n) <= 8000,
{
    reveal_with_fuel(backoff, 6);
}

impl FsRetryOf<Seq<char>> {
    /// What every directory operation keeps: it goes on only while attempts are left.
    pub open spec fn well_formed(self) -> bool {
        match self.phase {
            RetryPhase::Trying => self.failures < FS_RETRIES,
            RetryPhase::Waiting => 0 < self.failures < FS_RETRIES,
            RetryPhase::Succeeded => self.failures < FS_RETRIES,
            RetryPhase::GaveUp => self.failures == FS_RETRIES,
        }
    }

    /// The operation after an event. An event that does not answer what was wanted changes
    /// nothing.
    pub open spec fn after(self, e: RetryEventOf<Seq<char>>) -> Self {
        match (self.phase, e) {
            (RetryPhase::Trying, RetryEventOf::Done) => FsRetryOf {
                phase: RetryPhase::Succeeded,
                ..self
            },
            (RetryPhase::Trying, RetryEventOf::Failed(x)) => FsRetryOf {
                failures: (self.failures + 1) as u32,
                error: x,
                phase: if self.failures + 1 == FS_RETRIES {
                    RetryPhase::GaveUp
                } else {
                    RetryPhase::Waiting
                },
                ..self
            },
            (RetryPhase::Waiting, RetryEventOf::Slept) => FsRetryOf {
                phase: RetryPhase::Trying,
                ..self
            },
            _ => self,
        }
    }

    /// What is wanted next.
    pub open spec fn wanted(self) -> RetryOpOf<Seq<char>> {
        match self.phase {
            RetryPhase::Trying => RetryOpOf::Attempt,
            RetryPhase::Waiting => RetryOpOf::Sleep { millis: backoff(self.failures as nat) as u64 },
            RetryPhase::Succeeded => RetryOpOf::Finish,
            RetryPhase::GaveUp => RetryOpOf::Fail { error: self.task + self.error },
        }
    }
}

/// A move of `src` to `dst` before it is tried.
pub open spec fn rename_start(src: Seq<char>, dst: Seq<char>) -> FsRetryOf<Seq<char>> {
    FsRetryOf {
        task: "移动 "@ + src + " -> "@ + dst + " 失败: "@,
        failures: 0,
        error: Seq::empty(),
        phase: RetryPhase::Trying,
    }
}

/// The removal of `dir` before it is tried; over at once where there is nothing to remove.
pub open spec fn remove_start(dir: Seq<char>, exists: bool) -> FsRetryOf<Seq<char>> {
    FsRetryOf {
        task: "删除 "@ + dir + " 失败: "@,
        failures: 0,
        error: Seq::empty(),
        phase: if exists {
            RetryPhase::Trying
        } else {
            RetryPhase::Succeeded
        },
    }
}

/// Starts to move the directory `src` to `dst`.
pub fn rename_dir_with_retry(src: &str, dst: &str) -> (r: FsRetry)
    ensures
        r@ == rename_start(src@, dst@),
        r@ == (FsRetryOf {
            task: "移动 "@ + src@ + " -> "@ + dst@ + " 失败: "@,
            failures: 0,
            error: Seq::<char>::empty(),
            phase: RetryPhase::Trying,
        }),
        r@.well_formed(),
{
    FsRetryOf {
        task: cat5("移动 ", src, " -> ", dst, " 失败: "),
        failures: 0,
        error: String::new(),
        phase: RetryPhase::Trying,
    }
}

/// Starts to remove the directory `dir`; one that does not exist is removed already.
pub fn remove_dir_all_with_retry(dir: &str, exists: bool) -> (r: FsRetry)
    ensures
        r@ == remove_start(dir@, exists),
        r@ == (FsRetryOf {
            task: "删除 "@ + dir@ + " 失败: "@,
            failures: 0,
            error: Seq::<char>::empty(),
            phase: if exists {
                RetryPhase::Trying
            } else {
                RetryPhase::Succeeded
            },
        }),
        r@.well_formed(),
{
    FsRetryOf {
        task: cat3("删除 ", dir, " 失败: "),
        failures: 0,
        error: String::new(),
        phase: if exists {
            RetryPhase::Trying
        } else {
            RetryPhase::Succeeded
        },
    }
}

impl FsRetryOf<String> {
    /// What is wanted next.
    pub fn action(&self) -> (r: RetryOp)
        requires
            self@.well_formed(),
        ensures
            r@ == self@.wanted(),
    {
        match self.phase {
            RetryPhase::Trying => RetryOpOf::Attempt,
            RetryPhase::Waiting => {
                let mut millis: u64 = FS_RETRY_DELAY;
                let mut n: u32 = 1;
                while n < self.failures
                    invariant
                        1 <= n <= self.failures < FS_RETRIES,
                        millis == backoff(n as nat),
                    decreases self.failures - n,
                {
                    proof {
                        lemma_backoff_bound(n as nat);
                    }
                    millis = 2 * millis;
                    n += 1;
                }
                RetryOpOf::Sleep { millis }
            },
            RetryPhase::Succeeded => RetryOpOf::Finish,
            RetryPhase::GaveUp => RetryOpOf::Fail {
                error: cat2(self.task.as_str(), self.error.as_str()),
            },
        }
    }

    /// Takes note of what the wanted step came to.
    pub fn advance(&mut self, e: RetryEvent)
        requires
            old(self)@.well_formed(),
        ensures
            final(self)@ == old(self)@.after(e@),
            final(self)@.well_formed(),
    {
        match (self.phase, e) {
            (RetryPhase::Trying, RetryEventOf::Done) => {
                self.phase = RetryPhase::Succeeded;
            },
            (RetryPhase::Trying, RetryEventOf::Failed(x)) => {
                self.failures += 1;
                self.error = x;
                self.phase = if self.failures == FS_RETRIES {
                    RetryPhase::GaveUp
                } else {
                    RetryPhase::Waiting
                };
            },
            (RetryPhase::Waiting, RetryEventOf::Slept) => {
                self.phase = RetryPhase::Trying;
            },
            _ => {},
        }
    }
}

/// A directory operation after `n` steps, where the attempt number `k`, counted from zero,
/// comes to `attempts(k)`.
pub open spec fn retry_after(
    start: FsRetryOf<Seq<char>>,
    attempts: spec_fn(nat) -> Result<(), Seq<char>>,
    n: nat,
) -> FsRetryOf<Seq<char>>
    decreases n,
{
    if n == 0 {
        start
    } else {
        let before = retry_after(start, attempts, (n - 1) as nat);
        before.after(
            if before.phase == RetryPhase::Waiting {
                RetryEventOf::Slept
            } else {
                match attempts(before.failures as nat) {
                    Ok(_) => RetryEventOf::Done,
                    Err(e) => RetryEventOf::Failed(e),
                }
            },
        )
    }
}

/// As long as every attempt fails, attempts and pauses alternate.
proof fn lemma_retry_goes_on(
    start: FsRetryOf<Seq<char>>,
    attempts: spec_fn(nat) -> Result<(), Seq<char>>,
    k: nat,
)
    requires
        start.phase == RetryPhase::Trying,
        start.failures == 0,
        k < FS_RETRIES,
        forall|i: nat| i < k ==> (#[trigger] attempts(i)) is Err,
    ensures
        ({
            let s = retry_after(start, attempts, 2 * k);
            &&& s.phase == RetryPhase::Trying
            &&& s.failures == k
            &&& s.task == start.task
        }),
    decreases k,
{
    if k > 0 {
        let p = (k - 1) as nat;
        lemma_retry_goes_on(start, attempts, p);
        assert(attempts(p) is Err);
        let s0 = retry_after(start, attempts, 2 * p);
        let s1 = retry_after(start, attempts, 2 * p + 1);
        assert(s1.phase == RetryPhase::Waiting && s1.failures == k);
        assert(retry_after(start, attempts, 2 * k) == s1.after(RetryEventOf::Slept));
    }
}

/// A directory operation succeeds with its first attempt that does, if that is among the
/// six; it gives up after the sixth failure, with the message of that failure. Between
/// attempts it pauses, each time twice as long as before.
pub proof fn lemma_retry_outcome(
    start: FsRetryOf<Seq<char>>,
    attempts: spec_fn(nat) -> Result<(), Seq<char>>,
    k: nat,
)
    requires
        start.phase == RetryPhase::Trying,
        start.failures == 0,
        k < FS_RETRIES,
        forall|i: nat| i < k ==> (#[trigger] attempts(i)) is Err,
    ensures
        attempts(k) is Ok ==> retry_after(start, attempts, 2 * k + 1).wanted()
            == RetryOpOf::<Seq<char>>::Finish,
        attempts(k) is Err && k + 1 == FS_RETRIES ==> retry_after(
            start,
            attempts,
            2 * k + 1,
        ).wanted() == (RetryOpOf::Fail { error: start.task + attempts(k)->Err_0 }),
        attempts(k) is Err && k + 1 < FS_RETRIES ==> retry_after(
            start,
            attempts,
            2 * k + 1,
        ).wanted() == (RetryOpOf::<Seq<char>>::Sleep { millis: backoff(k + 1) as u64 }),
{
    lemma_retry_goes_on(start, attempts, k);
    let s = retry_after(start, attempts, 2 * k);
    let t = retry_after(start, attempts, 2 * k + 1);
    assert(t == s.after(
        match attempts(k) {
            Ok(_) => RetryEventOf::Done,
            Err(e) => RetryEventOf::Failed(e),
        },
    ));
}

// ---------------------------------------------------------------------------
// Rebuilding
// ---------------------------------------------------------------------------

/// Where a rebuild stands.
#[derive(Clone, Copy, PartialEq, Eq, Structural, Debug)]
pub enum RebuildPhase {
    /// The archive is downloaded.
    Download,
    /// An empty directory for the extracted files is made.
    PrepareStaging,
    /// The archive is extracted.
    Extract,
    /// The extracted files are looked at.
    List,
    /// The old local copy is removed.
    RemoveOld,
    /// The extracted files take its place.
    MoveIn,
    /// The archive and the directory for the extracted files are removed.
    CleanUp,
    /// Over: the local copy is rebuilt.
    Done,
    /// Over, with an error.
    Failed,
}

/// A rebuild on its way; `T` is `String` in the program and `Seq<char>` in contracts.
#[derive(Debug, PartialEq)]
pub struct RebuildRunOf<T> {
    /// Address of the archive.
    pub url: T,
    /// Directory that holds the local copy.
    pub root: T,
    /// Path of the archive.
    pub zip_path: T,
    /// Directory for the extracted files.
    pub staging: T,
    /// Directory of the local copy.
    pub repo_dir: T,
    /// What went wrong, if something did.
    pub error: Option<T>,
    /// Where the rebuild stands.
    pub phase: RebuildPhase,
}

/// A rebuild on its way.
pub type RebuildRun = RebuildRunOf<String>;

/// What an operation of a rebuild came to.
#[derive(Debug, PartialEq)]
pub enum RebuildEventOf<T> {
    /// It succeeded.
    Done,
    /// It failed.
    Failed(T),
    /// So many entries were found, and whether the first is a directory.
    Listed { entries: u64, first_is_dir: bool },
}

/// What an operation of a rebuild came to.
pub type RebuildEvent = RebuildEventOf<String>;

/// What a rebuild wants done next.
#[derive(Debug, PartialEq)]
pub enum RebuildOpOf<T> {
    /// Download `url` to the file `dest`.
    Download { url: T, dest: T },
    /// Remove `dir`, whether or not that succeeds, and make it anew.
    PrepareStaging { dir: T },
    /// Extract the archive `zip` into `dir`.
    Extract { zip: T, dir: T },
    /// List the entries of `dir`.
    List { dir: T },
    /// Remove the directory `dir`, with patience.
    RemoveTree { dir: T },
    /// Move the only entry of `from` to `to`, with patience.
    MoveOnlyEntry { from: T, to: T },
    /// Remove the file `zip` and the directory `dir`, whether or not that succeeds.
    CleanUp { zip: T, dir: T },
    /// Nothing more: the local copy is rebuilt.
    Finish,
    /// Nothing more: the rebuild failed.
    Fail { error: T },
}

/// What a rebuild wants done next.
pub type RebuildOp = RebuildOpOf<String>;

impl View for RebuildRunOf<String> {
    type V = RebuildRunOf<Seq<char>>;

    open spec fn view(&self) -> RebuildRunOf<Seq<char>> {
        RebuildRunOf {
            url: self.url@,
            root: self.root@,
            zip_path: self.zip_path@,
            staging: self.staging@,
            repo_dir: self.repo_dir@,
            error: text::opt_text(self.error),
            phase: self.phase,
        }
    }
}

impl View for RebuildEventOf<String> {
    type V = RebuildEventOf<Seq<char>>;

    open spec fn view(&self) -> RebuildEventOf<Seq<char>> {
        match *self {
            RebuildEventOf::Done => RebuildEventOf::Done,
            RebuildEventOf::Failed(e) => RebuildEventOf::Failed(e@),
            RebuildEventOf::Listed { entries, first_is_dir } => RebuildEventOf::Listed {
                entries,
                first_is_dir,
            },
        }
    }
}

impl View for RebuildOpOf<String> {
    type V = RebuildOpOf<Seq<char>>;

    open spec fn view(&self) -> RebuildOpOf<Seq<char>> {
        match *self {
            RebuildOpOf::Download { url, dest } => RebuildOpOf::Download {
                url: url@,
                dest: dest@,
            },
            RebuildOpOf::PrepareStaging { dir } => RebuildOpOf::PrepareStaging { dir: dir@ },
            RebuildOpOf::Extract { zip, dir } => RebuildOpOf::Extract { zip: zip@, dir: dir@ },
            RebuildOpOf::List { dir } => RebuildOpOf::List { dir: dir@ },
            RebuildOpOf::RemoveTree { dir } => RebuildOpOf::RemoveTree { dir: dir@ },
            RebuildOpOf::MoveOnlyEntry { from, to } => RebuildOpOf::MoveOnlyEntry {
                from: from@,
                to: to@,
            },
            RebuildOpOf::CleanUp { zip, dir } => RebuildOpOf::CleanUp { zip: zip@, dir: dir@ },
            RebuildOpOf::Finish => RebuildOpOf::Finish,
            RebuildOpOf::Fail { error } => RebuildOpOf::Fail { error: error@ },
        }
    }
}

/// The error for an archive that does not hold a single directory.
pub open spec fn structure_error(entries: nat) -> Seq<char> {
    "zip 结构异常：期望单一顶层目录，实际 "@ + text::decimal(entries) + " 个条目"@
}

impl RebuildRunOf<Seq<char>> {
    /// On to another phase.
    pub open spec fn to(self, phase: RebuildPhase) -> Self {
        RebuildRunOf { phase, ..self }
    }

    /// An error with nothing to clean up.
    pub open spec fn fail(self, e: Seq<char>) -> Self {
        RebuildRunOf { error: Some(e), phase: RebuildPhase::Failed, ..self }
    }

    /// An error with something to clean up first.
    pub open spec fn abandon(self, e: Seq<char>) -> Self {
        RebuildRunOf { error: Some(e), phase: RebuildPhase::CleanUp, ..self }
    }

    /// The rebuild after an event. An event that does not answer what was wanted changes
    /// nothing.
    pub open spec fn after(self, e: RebuildEventOf<Seq<char>>) -> Self {
        match (self.phase, e) {
            (RebuildPhase::Download, RebuildEventOf::Done) => self.to(
                RebuildPhase::PrepareStaging,
            ),
            (RebuildPhase::Download, RebuildEventOf::Failed(x)) => self.fail(x),
            (RebuildPhase::PrepareStaging, RebuildEventOf::Done) => self.to(RebuildPhase::Extract),
            (RebuildPhase::PrepareStaging, RebuildEventOf::Failed(x)) => self.fail(
                "创建临时目录 "@ + self.staging + " 失败: "@ + x,
            ),
            (RebuildPhase::Extract, RebuildEventOf::Done) => self.to(RebuildPhase::List),
            (RebuildPhase::Extract, RebuildEventOf::Failed(x)) => self.abandon(x),
            (RebuildPhase::List, RebuildEventOf::Listed { entries, first_is_dir }) => if entries
                == 1 && first_is_dir {
                self.to(RebuildPhase::RemoveOld)
            } else {
                self.abandon(structure_error(entries as nat))
            },
            (RebuildPhase::List, RebuildEventOf::Failed(x)) => self.abandon(x),
            (RebuildPhase::RemoveOld, RebuildEventOf::Done) => self.to(RebuildPhase::MoveIn),
            (RebuildPhase::RemoveOld, RebuildEventOf::Failed(x)) => self.abandon(x),
            (RebuildPhase::MoveIn, RebuildEventOf::Done) => self.to(RebuildPhase::CleanUp),
            (RebuildPhase::MoveIn, RebuildEventOf::Failed(x)) => self.abandon(x),
            (RebuildPhase::CleanUp, _) => self.to(
                if self.error is None {
                    RebuildPhase::Done
                } else {
                    RebuildPhase::Failed
                },
            ),
            _ => self,
        }
    }

    /// What is wanted next.
    pub open spec fn wanted(self) -> RebuildOpOf<Seq<char>> {
        match self.phase {
            RebuildPhase::Download => RebuildOpOf::Download {
                url: self.url,
                dest: self.zip_path,
            },
            RebuildPhase::PrepareStaging => RebuildOpOf::PrepareStaging { dir: self.staging },
            RebuildPhase::Extract => RebuildOpOf::Extract {
                zip: self.zip_path,
                dir: self.staging,
            },
            RebuildPhase::List => RebuildOpOf::List { dir: self.staging },
            RebuildPhase::RemoveOld => RebuildOpOf::RemoveTree { dir: self.repo_dir },
            RebuildPhase::MoveIn => RebuildOpOf::MoveOnlyEntry {
                from: self.staging,
                to: self.repo_dir,
            },
            RebuildPhase::CleanUp => RebuildOpOf::CleanUp {
                zip: self.zip_path,
                dir: self.staging,
            },
            RebuildPhase::Done => RebuildOpOf::Finish,
            RebuildPhase::Failed => RebuildOpOf::Fail {
                error: match self.error {
                    Some(e) => e,
                    None => Seq::empty(),
                },
            },
        }
    }
}

/// A rebuild at its start.
pub open spec fn rebuild_start(
    style: PathStyle,
    workspace_root: Seq<char>,
    url: Seq<char>,
) -> RebuildRunOf<Seq<char>> {
    RebuildRunOf {
        url,
        root: workspace_root,
        zip_path: path::join(style, workspace_root, "repo.zip.tmp"@),
        staging: path::join(style, workspace_root, "repo.extract.tmp"@),
        repo_dir: path::join(style, workspace_root, "repo"@),
        error: None,
        phase: RebuildPhase::Download,
    }
}

/// Starts to rebuild the local copy in `workspace_root` from the archive at `url`.
pub fn rebuild_repo_from_zip(style: PathStyle, workspace_root: &str, url: &str) -> (r: RebuildRun)
    ensures
        r@ == rebuild_start(style, workspace_root@, url@),
{
    RebuildRunOf {
        url: copy_text(url),
        root: copy_text(workspace_root),
        zip_path: join_path(style, workspace_root, "repo.zip.tmp"),
        staging: join_path(style, workspace_root, "repo.extract.tmp"),
        repo_dir: join_path(style, workspace_root, "repo"),
        error: None,
        phase: RebuildPhase::Download,
    }
}

impl RebuildRunOf<String> {
    /// What is wanted next.
    pub fn action(&self) -> (r: RebuildOp)
        ensures
            r@ == self@.wanted(),
    {
        match self.phase {
            RebuildPhase::Download => RebuildOpOf::Download {
                url: copy_text(self.url.as_str()),
                dest: copy_text(self.zip_path.as_str()),
            },
            RebuildPhase::PrepareStaging => RebuildOpOf::PrepareStaging {
                dir: copy_text(self.staging.as_str()),
            },
            RebuildPhase::Extract => RebuildOpOf::Extract {
                zip: copy_text(self.zip_path.as_str()),
                dir: copy_text(self.staging.as_str()),
            },
            RebuildPhase::List => RebuildOpOf::List { dir: copy_text(self.staging.as_str()) },
            RebuildPhase::RemoveOld => RebuildOpOf::RemoveTree {
                dir: copy_text(self.repo_dir.as_str()),
            },
            RebuildPhase::MoveIn => RebuildOpOf::MoveOnlyEntry {
                from: copy_text(self.staging.as_str()),
                to: copy_text(self.repo_dir.as_str()),
            },
            RebuildPhase::CleanUp => RebuildOpOf::CleanUp {
                zip: copy_text(self.zip_path.as_str()),
                dir: copy_text(self.staging.as_str()),
            },
            RebuildPhase::Done => RebuildOpOf::Finish,
            RebuildPhase::Failed => RebuildOpOf::Fail {
                error: match copy_opt(&self.error) {
                    Some(e) => e,
                    None => String::new(),
                },
            },
        }
    }

    fn set_failed(&mut self, e: String)
        ensures
            final(self)@ == old(self)@.fail(e@),
    {
        self.error = Some(e);
        self.phase = RebuildPhase::Failed;
    }

    fn set_abandoned(&mut self, e: String)
        ensures
            final(self)@ == old(self)@.abandon(e@),
    {
        self.error = Some(e);
        self.phase = RebuildPhase::CleanUp;
    }

    /// Takes note of what the wanted operation came to.
    pub fn advance(&mut self, e: RebuildEvent)
        ensures
            final(self)@ == old(self)@.after(e@),
    {
        match (self.phase, e) {
            (RebuildPhase::Download, RebuildEventOf::Done) => {
                self.phase = RebuildPhase::PrepareStaging;
            },
            (RebuildPhase::Download, RebuildEventOf::Failed(x)) => self.set_failed(x),
            (RebuildPhase::PrepareStaging, RebuildEventOf::Done) => {
                self.phase = RebuildPhase::Extract;
            },
            (RebuildPhase::PrepareStaging, RebuildEventOf::Failed(x)) => {
                let e = cat4("创建临时目录 ", self.staging.as_str(), " 失败: ", x.as_str());
                self.set_failed(e);
            },
            (RebuildPhase::Extract, RebuildEventOf::Done) => {
                self.phase = RebuildPhase::List;
            },
            (RebuildPhase::Extract, RebuildEventOf::Failed(x)) => self.set_abandoned(x),
            (RebuildPhase::List, RebuildEventOf::Listed { entries, first_is_dir }) => {
                if entries == 1 && first_is_dir {
                    self.phase = RebuildPhase::RemoveOld;
                } else {
                    self.set_abandoned(
                        cat3(
                            "zip 结构异常：期望单一顶层目录，实际 ",
                            decimal_text(entries).as_str(),
                            " 个条目",
                        ),
                    );
                }
            },
            (RebuildPhase::List, RebuildEventOf::Failed(x)) => self.set_abandoned(x),
            (RebuildPhase::RemoveOld, RebuildEventOf::Done) => {
                self.phase = RebuildPhase::MoveIn;
            },
            (RebuildPhase::RemoveOld, RebuildEventOf::Failed(x)) => self.set_abandoned(x),
            (RebuildPhase::MoveIn, RebuildEventOf::Done) => {
                self.phase = RebuildPhase::CleanUp;
            },
            (RebuildPhase::MoveIn, RebuildEventOf::Failed(x)) => self.set_abandoned(x),
            (RebuildPhase::CleanUp, _) => {
                self.phase = if self.error.is_none() {
                    RebuildPhase::Done
                } else {
                    RebuildPhase::Failed
                };
            },
            _ => {},
        }
    }
}

// ---------------------------------------------------------------------------
// Laws of the rebuild
// ---------------------------------------------------------------------------

/// A rebuild after a row of events.
pub open spec fn rebuild_after(
    run: RebuildRunOf<Seq<char>>,
    events: Seq<RebuildEventOf<Seq<char>>>,
) -> RebuildRunOf<Seq<char>>
    decreases events.len(),
{
    if events.len() == 0 {
        run
    } else {
        rebuild_after(run, events.drop_last()).after(events.last())
    }
}

/// The old local copy is touched only once the new files are there: a rebuild that is
/// about to remove it was told, in this order, that the archive was downloaded, that the
/// directory for its files was made, that the archive was extracted, and that it holds a
/// single directory.
pub proof fn lemma_old_copy_is_safe(
    style: PathStyle,
    root: Seq<char>,
    url: Seq<char>,
    events: Seq<RebuildEventOf<Seq<char>>>,
)
    ensures
        ({
            let run = rebuild_after(rebuild_start(style, root, url), events);
            run.phase == RebuildPhase::RemoveOld ==> exists|i: int, j: int, k: int, l: int|
                #![trigger events[i], events[j], events[k], events[l]]
                0 <= i < j < k < l < events.len() && events[i] is Done && events[j] is Done
                    && events[k] is Done && events[l] == (RebuildEventOf::<Seq<char>>::Listed {
                    entries: 1,
                    first_is_dir: true,
                })
        }),
{
    lemma_rebuild_history(style, root, url, events);
}

/// How a rebuild that has got to a phase was told so.
pub open spec fn told(
    phase: RebuildPhase,
    events: Seq<RebuildEventOf<Seq<char>>>,
) -> bool {
    match phase {
        RebuildPhase::PrepareStaging => exists|i: int|
            0 <= i < events.len() && (#[trigger] events[i]) is Done,
        RebuildPhase::Extract => exists|i: int, j: int| #![trigger events[i], events[j]]
            0 <= i < j < events.len() && events[i] is Done && events[j] is Done,
        RebuildPhase::List => exists|i: int, j: int, k: int|
            #![trigger events[i], events[j], events[k]]
            0 <= i < j < k < events.len() && events[i] is Done && events[j] is Done
                && events[k] is Done,
        RebuildPhase::RemoveOld => exists|i: int, j: int, k: int, l: int|
            #![trigger events[i], events[j], events[k], events[l]]
            0 <= i < j < k < l < events.len() && events[i] is Done && events[j] is Done
                && events[k] is Done && events[l] == (RebuildEventOf::<Seq<char>>::Listed {
                entries: 1,
                first_is_dir: true,
            }),
        _ => true,
    }
}

proof fn lemma_rebuild_history(
    style: PathStyle,
    root: Seq<char>,
    url: Seq<char>,
    events: Seq<RebuildEventOf<Seq<char>>>,
)
    ensures
        told(rebuild_after(rebuild_start(style, root, url), events).phase, events),
    decreases events.len(),
{
    if events.len() > 0 {
        let front = events.drop_last();
        let n = events.len() - 1;
        lemma_rebuild_history(style, root, url, front);
        let before = rebuild_after(rebuild_start(style, root, url), front);
        let now = before.after(events.last());
        assert(events[n] == events.last());
        assert(forall|i: int| 0 <= i < n ==> events[i] == #[trigger] front[i]);
        match before.phase {
            RebuildPhase::PrepareStaging => {
                let i = choose|i: int| 0 <= i < front.len() && (#[trigger] front[i]) is Done;
                assert(events[i] is Done);
            },
            RebuildPhase::Extract => {
                let (i, j) = choose|i: int, j: int| #![trigger front[i], front[j]]
                    0 <= i < j < front.len() && front[i] is Done && front[j] is Done;
                assert(events[i] is Done && events[j] is Done);
            },
            RebuildPhase::List => {
                let (i, j, k) = choose|i: int, j: int, k: int|
                    #![trigger front[i], front[j], front[k]]
                    0 <= i < j < k < front.len() && front[i] is Done && front[j] is Done
                        && front[k] is Done;
                assert(events[i] is Done && events[j] is Done && events[k] is Done);
            },
            RebuildPhase::RemoveOld => {
                let (i, j, k, l) = choose|i: int, j: int, k: int, l: int|
                    #![trigger front[i], front[j], front[k], front[l]]
                    0 <= i < j < k < l < front.len() && front[i] is Done && front[j] is Done
                        && front[k] is Done && front[l] == (RebuildEventOf::<Seq<char>>::Listed {
                        entries: 1,
                        first_is_dir: true,
                    });
                assert(events[i] is Done && events[j] is Done && events[k] is Done);
                assert(events[l] == front[l]);
            },
            _ => {},
        }
    }
}

/// Whether it succeeds or fails, a rebuild that has begun to extract cleans up before it is
/// over, and what it then reports is the first thing that went wrong.
pub proof fn lemma_rebuild_cleans_up(
    run: RebuildRunOf<Seq<char>>,
    e: RebuildEventOf<Seq<char>>,
)
    requires
        run.phase == RebuildPhase::Extract || run.phase == RebuildPhase::List || run.phase
            == RebuildPhase::RemoveOld || run.phase == RebuildPhase::MoveIn,
    ensures
        run.after(e).phase != RebuildPhase::Done,
        run.after(e).phase != RebuildPhase::Failed,
        e matches RebuildEventOf::Failed(x) ==> run.after(e).phase == RebuildPhase::CleanUp
            && run.after(e).error == Some(x) && (forall|f: RebuildEventOf<Seq<char>>|
            (#[trigger] run.after(e).after(f)).wanted() == (RebuildOpOf::Fail { error: x })),
{
}

/// A rebuild stays inside the working directory: the archive, the extracted files and the
/// local copy lie right in it.
pub proof fn lemma_rebuild_in_workspace(
    style: PathStyle,
    workspace_root: Seq<char>,
    url: Seq<char>,
)
    requires
        path::is_settled(style, workspace_root),
    ensures
        ({
            let run = rebuild_start(style, workspace_root, url);
            &&& path::is_below(style, workspace_root, seq!["repo.zip.tmp"@], run.zip_path)
            &&& path::is_below(style, workspace_root, seq!["repo.extract.tmp"@], run.staging)
            &&& path::is_below(style, workspace_root, seq!["repo"@], run.repo_dir)
        }),
{
    reveal_strlit("repo.zip.tmp");
    reveal_strlit("repo.extract.tmp");
    reveal_strlit("repo");
    reveal_strlit(".");
    reveal_strlit("..");
    path::lemma_join_plain(style, workspace_root, "repo.zip.tmp"@);
    path::lemma_join_plain(style, workspace_root, "repo.extract.tmp"@);
    path::lemma_join_plain(style, workspace_root, "repo"@);
}

/// How a rebuild goes, step by step: the archive is downloaded into the working directory and
/// extracted beside; the single directory in it takes the place of the local copy, once that is
/// removed; and what is left over is removed. An archive that does not hold a single directory
/// is refused with the number of what it holds. What fails before the extraction is the end at
/// once; what fails later is told once what is left over is removed.
pub proof fn lemma_rebuild_steps(
    style: PathStyle,
    root: Seq<char>,
    url: Seq<char>,
    entries: u64,
    x: Seq<char>,
)
    ensures
        ({
            let run = rebuild_start(style, root, url);
            let zip = path::join(style, root, "repo.zip.tmp"@);
            let staging = path::join(style, root, "repo.extract.tmp"@);
            let repo = path::join(style, root, "repo"@);
            let loaded = run.after(RebuildEventOf::Done);
            let prepared = loaded.after(RebuildEventOf::Done);
            let extracted = prepared.after(RebuildEventOf::Done);
            let listed = extracted.after(
                RebuildEventOf::Listed { entries: 1, first_is_dir: true },
            );
            let removed = listed.after(RebuildEventOf::Done);
            let moved = removed.after(RebuildEventOf::Done);
            let clean = RebuildOpOf::CleanUp { zip, dir: staging };
            let failed = RebuildOpOf::Fail { error: x };
            let odd = extracted.after(RebuildEventOf::Listed { entries, first_is_dir: true });
            let file = extracted.after(RebuildEventOf::Listed { entries: 1, first_is_dir: false });
            &&& run.wanted() == (RebuildOpOf::Download { url, dest: zip })
            &&& run.after(RebuildEventOf::Failed(x)).wanted() == failed
            &&& loaded.wanted() == (RebuildOpOf::PrepareStaging { dir: staging })
            &&& loaded.after(RebuildEventOf::Failed(x)).wanted() == (RebuildOpOf::Fail {
                error: "创建临时目录 "@ + staging + " 失败: "@ + x,
            })
            &&& prepared.wanted() == (RebuildOpOf::Extract { zip, dir: staging })
            &&& extracted.wanted() == (RebuildOpOf::List { dir: staging })
            &&& listed.wanted() == (RebuildOpOf::RemoveTree { dir: repo })
            &&& removed.wanted() == (RebuildOpOf::MoveOnlyEntry { from: staging, to: repo })
            &&& moved.wanted() == clean
            &&& moved.after(RebuildEventOf::Done).wanted() == RebuildOpOf::<Seq<char>>::Finish
            &&& moved.after(RebuildEventOf::Failed(x)).wanted() == RebuildOpOf::<
                Seq<char>,
            >::Finish
            &&& prepared.after(RebuildEventOf::Failed(x)).wanted() == clean
            &&& extracted.after(RebuildEventOf::Failed(x)).wanted() == clean
            &&& listed.after(RebuildEventOf::Failed(x)).wanted() == clean
            &&& removed.after(RebuildEventOf::Failed(x)).wanted() == clean
            &&& removed.after(RebuildEventOf::Failed(x)).after(RebuildEventOf::Done).wanted()
                == failed
            &&& entries != 1 ==> odd.wanted() == clean && odd.after(RebuildEventOf::Done).wanted()
                == (RebuildOpOf::Fail {
                error: "zip 结构异常：期望单一顶层目录，实际 "@ + text::decimal(entries as nat)
                    + " 个条目"@,
            })
            &&& file.wanted() == clean && file.after(RebuildEventOf::Done).wanted() is Fail
        }),
{
}

/// How something is tried again: six times at most, with a pause of half a second after the
/// first failure and of twice the one before after every other, and what is told in the end is
/// the last failure.
pub proof fn lemma_retries(run: FsRetryOf<Seq<char>>, x: Seq<char>)
    requires
        run.well_formed(),
    ensures
        run.phase == RetryPhase::Trying ==> {
            let failed = run.after(RetryEventOf::Failed(x));
            &&& run.wanted() == RetryOpOf::<Seq<char>>::Attempt
            &&& run.after(RetryEventOf::Done).wanted() == RetryOpOf::<Seq<char>>::Finish
            &&& run.failures < 5 ==> failed.failures == run.failures + 1
            &&& run.failures == 0 ==> failed.wanted() == (RetryOpOf::<Seq<char>>::Sleep {
                millis: 500,
            })
            &&& run.failures == 1 ==> failed.wanted() == (RetryOpOf::<Seq<char>>::Sleep {
                millis: 1000,
            })
            &&& run.failures == 2 ==> failed.wanted() == (RetryOpOf::<Seq<char>>::Sleep {
                millis: 2000,
            })
            &&& run.failures == 3 ==> failed.wanted() == (RetryOpOf::<Seq<char>>::Sleep {
                millis: 4000,
            })
            &&& run.failures == 4 ==> failed.wanted() == (RetryOpOf::<Seq<char>>::Sleep {
                millis: 8000,
            })
            &&& run.failures == 5 ==> failed.wanted() == (RetryOpOf::Fail {
                error: run.task + x,
            })
        },
        run.phase == RetryPhase::Waiting ==> run.after(RetryEventOf::Slept).wanted()
            == RetryOpOf::<Seq<char>>::Attempt,
{
    reveal_with_fuel(backoff, 6);
}

/// What is tried again, once it has failed `n` times, for the reason `x` at last.
pub open spec fn tried(
    run: FsRetryOf<Seq<char>>,
    x: Seq<char>,
    n: nat,
) -> FsRetryOf<Seq<char>>
    decreases n,
{
    if n == 0 {
        run
    } else {
        tried(run, x, (n - 1) as nat).after(RetryEventOf::Slept).after(RetryEventOf::Failed(x))
    }
}

/// A move or a removal that keeps failing is given up after the sixth time and not before, and
/// is then told with what was to be moved or removed. What is not there needs no removal.
pub proof fn lemma_given_up(src: Seq<char>, dst: Seq<char>, x: Seq<char>)
    ensures
        rename_start(src, dst).wanted() == RetryOpOf::<Seq<char>>::Attempt,
        remove_start(src, true).wanted() == RetryOpOf::<Seq<char>>::Attempt,
        remove_start(src, false).wanted() == RetryOpOf::<Seq<char>>::Finish,
        tried(rename_start(src, dst), x, 5).wanted() is Sleep,
        tried(rename_start(src, dst), x, 6).wanted() == (RetryOpOf::Fail {
            error: "移动 "@ + src + " -> "@ + dst + " 失败: "@ + x,
        }),
        tried(remove_start(src, true), x, 5).wanted() is Sleep,
        tried(remove_start(src, true), x, 6).wanted() == (RetryOpOf::Fail {
            error: "删除 "@ + src + " 失败: "@ + x,
        }),
{
    reveal_with_fuel(tried, 7);
}

} // verus!
