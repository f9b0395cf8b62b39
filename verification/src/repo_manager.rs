//! The repository that the runtime serves: its address, the state that is remembered from
//! one start to the next, and the sync that brings the local copy up to date over HTTP.

use vstd::prelude::*;
use vstd::string::*;

use crate::path;
use crate::path::{join_path, PathStyle};
use crate::text;
use crate::text::{
    bytes_in, cat2, cat3, cat4, cat5, cat7, copy_opt, copy_text, same, split_words, strip_leading,
    strip_trailing, trim_text, Separator,
};

verus! {

broadcast use vstd::string::group_string_axioms;

// ---------------------------------------------------------------------------
// Addresses
// ---------------------------------------------------------------------------

/// A repository on GitHub.
#[derive(Debug, Clone, PartialEq, Eq)]
pub struct RepoInfo {
    /// User or organisation that owns the repository.
    pub owner: String,
    /// Name of the repository, without the suffix `.git`.
    pub repo: String,
}

/// A repository on GitHub as plain texts.
pub ghost struct RepoView {
    pub owner: Seq<char>,
    pub repo: Seq<char>,
}

impl View for RepoInfo {
    type V = RepoView;

    open spec fn view(&self) -> RepoView {
        RepoView { owner: self.owner@, repo: self.repo@ }
    }
}

/// Why an address is not that of a repository on GitHub.
#[derive(Clone, Copy, PartialEq, Eq, Structural, Debug)]
pub enum RepoUrlError {
    /// The host is not `github.com`, or the owner or the repository is missing.
    NotARepository,
    /// The path goes on behind the repository.
    ExtraSegments,
    /// Nothing is left of the repository's name without the suffix `.git`.
    EmptyName,
}

/// An address without surrounding white space and without the scheme.
pub open spec fn without_scheme(url: Seq<char>) -> Seq<char> {
    text::strip_prefixes(text::strip_prefixes(text::trim(url), "https://"@), "http://"@)
}

/// The repository that an address names: `github.com`, an owner and a name, in this order
/// and nothing else, separated by slashes.
pub open spec fn repo_of(url: Seq<char>) -> Result<RepoView, RepoUrlError> {
    let parts = text::words(without_scheme(url), Separator::Slash);
    if parts.len() < 3 || parts[0] != "github.com"@ {
        Err(RepoUrlError::NotARepository)
    } else if parts.len() > 3 {
        Err(RepoUrlError::ExtraSegments)
    } else {
        let name = text::strip_suffixes(parts[2], ".git"@);
        if name.len() == 0 {
            Err(RepoUrlError::EmptyName)
        } else {
            Ok(RepoView { owner: parts[1], repo: name })
        }
    }
}

/// Reads the address of a repository on GitHub.
pub fn parse_repo_url(url: &str) -> (r: Result<RepoInfo, RepoUrlError>)
    ensures
        match r {
            Ok(info) => repo_of(url@) == Ok::<RepoView, RepoUrlError>(info@),
            Err(e) => repo_of(url@) == Err::<RepoView, RepoUrlError>(e),
        },
{
    proof {
        reveal_strlit("https://");
        reveal_strlit("http://");
        reveal_strlit(".git");
    }
    let rest = strip_leading(strip_leading(trim_text(url), "https://"), "http://");
    let parts = split_words(rest, Separator::Slash);
    let ghost ws = text::texts(parts@);
    assert(ws.len() == parts@.len());
    if parts.len() < 3 {
        return Err(RepoUrlError::NotARepository);
    }
    assert(ws[0] == parts@[0]@ && ws[1] == parts@[1]@ && ws[2] == parts@[2]@);
    if !same(parts[0].as_str(), "github.com") {
        return Err(RepoUrlError::NotARepository);
    }
    if parts.len() > 3 {
        return Err(RepoUrlError::ExtraSegments);
    }
    let name = strip_trailing(parts[2].as_str(), ".git");
    if name.unicode_len() == 0 {
        return Err(RepoUrlError::EmptyName);
    }
    Ok(RepoInfo { owner: copy_text(parts[1].as_str()), repo: copy_text(name) })
}

impl RepoUrlError {
    /// The message for an address that could not be read.
    pub open spec fn message_for(self, url: Seq<char>) -> Seq<char> {
        match self {
            RepoUrlError::NotARepository => "无法解析 GitHub 仓库地址: "@ + url
                + "（期望 https://github.com/{owner}/{repo}.git）"@,
            RepoUrlError::ExtraSegments => "仓库地址包含多余路径段: "@ + url,
            RepoUrlError::EmptyName => "仓库名为空: "@ + url,
        }
    }

    /// Writes the message for an address that could not be read.
    pub fn message(self, url: &str) -> (r: String)
        ensures
            r@ == self.message_for(url@),
    {
        match self {
            RepoUrlError::NotARepository => cat3(
                "无法解析 GitHub 仓库地址: ",
                url,
                "（期望 https://github.com/{owner}/{repo}.git）",
            ),
            RepoUrlError::ExtraSegments => cat2("仓库地址包含多余路径段: ", url),
            RepoUrlError::EmptyName => cat2("仓库名为空: ", url),
        }
    }
}

/// Where GitHub tells the latest commit of a branch.
pub open spec fn commits_url(info: RepoView, branch: Seq<char>) -> Seq<char> {
    "https://api.github.com/repos/"@ + info.owner + "/"@ + info.repo + "/commits/"@ + branch
}

/// Where GitHub offers a branch as an archive.
pub open spec fn zip_url(info: RepoView, branch: Seq<char>) -> Seq<char> {
    "https://codeload.github.com/"@ + info.owner + "/"@ + info.repo + "/zip/refs/heads/"@ + branch
}

/// Where GitHub describes a repository.
pub open spec fn detail_url(info: RepoView) -> Seq<char> {
    "https://api.github.com/repos/"@ + info.owner + "/"@ + info.repo
}

/// The address under which GitHub tells the latest commit of a branch.
pub fn commits_api_url(info: &RepoInfo, branch: &str) -> (r: String)
    ensures
        r@ == commits_url(info@, branch@),
{
    let mut out = cat5(
        "https://api.github.com/repos/",
        info.owner.as_str(),
        "/",
        info.repo.as_str(),
        "/commits/",
    );
    out.append(branch);
    out
}

/// The address under which GitHub offers a branch as an archive.
pub fn codeload_zip_url(info: &RepoInfo, branch: &str) -> (r: String)
    ensures
        r@ == zip_url(info@, branch@),
{
    let mut out = cat5(
        "https://codeload.github.com/",
        info.owner.as_str(),
        "/",
        info.repo.as_str(),
        "/zip/refs/heads/",
    );
    out.append(branch);
    out
}

/// The address under which GitHub describes a repository.
pub fn repo_detail_url(info: &RepoInfo) -> (r: String)
    ensures
        r@ == detail_url(info@),
{
    cat4("https://api.github.com/repos/", info.owner.as_str(), "/", info.repo.as_str())
}

// ---------------------------------------------------------------------------
// Laws of addresses
// ---------------------------------------------------------------------------

/// What an address yields is usable: neither part is empty or holds a slash, and the name
/// does not end in `.git`.
pub proof fn lemma_repo_is_usable(url: Seq<char>)
    ensures
        repo_of(url) matches Ok(info) ==> {
            &&& info.owner.len() > 0
            &&& info.repo.len() > 0
            &&& !info.owner.contains('/')
            &&& !info.repo.contains('/')
            &&& !".git"@.is_suffix_of(info.repo)
        },
{
    reveal_strlit(".git");
    let parts = text::words(without_scheme(url), Separator::Slash);
    text::lemma_words_are_words(without_scheme(url), Separator::Slash);
    if let Ok(info) = repo_of(url) {
        assert(parts[1].len() > 0);
        text::lemma_strip_suffixes(parts[2], ".git"@);
        assert forall|i: int| 0 <= i < info.repo.len() implies info.repo[i] != '/' by {
            assert(info.repo[i] == parts[2][i]);
        }
    }
}

/// The scheme of an address goes, whichever it is.
proof fn lemma_scheme_goes(scheme: Seq<char>, bare: Seq<char>)
    requires
        scheme == "https://"@ || scheme == "http://"@ || scheme == ""@,
        bare.len() > 0,
        bare[0] == 'g',
        !text::is_space(bare.last()),
    ensures
        without_scheme(scheme + bare) == bare,
{
    reveal_strlit("https://");
    reveal_strlit("http://");
    reveal_strlit("");
    let url = scheme + bare;
    assert(url.last() == bare.last());
    assert(url[0] == (if scheme.len() == 0 {
        'g'
    } else {
        'h'
    }));
    text::lemma_trim_keeps(url);
    assert("https://"@[0] == 'h' && "http://"@[0] == 'h');
    assert(text::strip_prefixes(bare, "https://"@) == bare);
    assert(text::strip_prefixes(bare, "http://"@) == bare);
    if scheme == "https://"@ {
        assert(url.skip(8) =~= bare);
        assert("https://"@.is_prefix_of(url));
    } else if scheme == "http://"@ {
        assert(url.skip(7) =~= bare);
        assert("http://"@.is_prefix_of(url));
        assert(url[4] == ':');
        assert("https://"@[4] == 's');
    } else {
        assert(url =~= bare);
    }
}

/// The words of an address without a scheme.
proof fn lemma_address_words(owner: Seq<char>, name: Seq<char>)
    requires
        owner.len() > 0,
        name.len() > 0,
        !owner.contains('/'),
        !name.contains('/'),
    ensures
        text::words("github.com"@ + ("/"@ + (owner + ("/"@ + name))), Separator::Slash) == seq![
            "github.com"@,
            owner,
            name,
        ],
{
    reveal_strlit("github.com");
    reveal_strlit("/");
    assert("/"@ =~= seq!['/']);
    let site = "github.com"@;
    let tail1 = "/"@ + name;
    let tail0 = "/"@ + (owner + tail1);
    let none = Seq::<char>::empty();
    let slash = Separator::Slash;
    assert forall|i: int| 0 <= i < name.len() implies !slash.has(#[trigger] name[i]) by {
        assert(name.contains(name[i]));
    }
    assert forall|i: int| 0 <= i < owner.len() implies !slash.has(#[trigger] owner[i]) by {
        assert(owner.contains(owner[i]));
    }
    assert(name + none =~= name);
    assert(text::words(none, slash) =~= Seq::<Seq<char>>::empty());
    text::lemma_first_word(name, none, slash);
    text::lemma_leading_separator('/', name, slash);
    text::lemma_first_word(owner, tail1, slash);
    text::lemma_leading_separator('/', owner + tail1, slash);
    text::lemma_first_word(site, tail0, slash);
    assert(text::words(site + tail0, slash) =~= seq![site, owner, name]);
}

/// The suffix of a name goes, if it is there.
proof fn lemma_suffix_goes(repo: Seq<char>, suffix: Seq<char>)
    requires
        suffix == ".git"@ || suffix == ""@,
        !".git"@.is_suffix_of(repo),
    ensures
        text::strip_suffixes(repo + suffix, ".git"@) == repo,
{
    reveal_strlit("");
    reveal_strlit(".git");
    let name = repo + suffix;
    assert(text::strip_suffixes(repo, ".git"@) == repo);
    if suffix == ".git"@ {
        assert(name.take(name.len() - 4) =~= repo);
        assert(".git"@.is_suffix_of(name));
    } else {
        assert(name =~= repo);
    }
}

/// Every supported form of an address is read: with the scheme `https://`, with `http://`
/// or without one, and with or without the suffix `.git`.
pub proof fn lemma_supported_addresses(
    scheme: Seq<char>,
    owner: Seq<char>,
    repo: Seq<char>,
    suffix: Seq<char>,
)
    requires
        scheme == "https://"@ || scheme == "http://"@ || scheme == ""@,
        suffix == ".git"@ || suffix == ""@,
        owner.len() > 0,
        repo.len() > 0,
        !owner.contains('/'),
        !repo.contains('/'),
        !text::is_space(repo.last()),
        !".git"@.is_suffix_of(repo),
    ensures
        repo_of(scheme + "github.com/"@ + owner + "/"@ + repo + suffix) == Ok::<
            RepoView,
            RepoUrlError,
        >(RepoView { owner, repo }),
{
    reveal_strlit("");
    reveal_strlit(".git");
    reveal_strlit("github.com/");
    reveal_strlit("github.com");
    reveal_strlit("/");
    let name = repo + suffix;
    let bare = "github.com"@ + ("/"@ + (owner + ("/"@ + name)));
    let url = scheme + "github.com/"@ + owner + "/"@ + repo + suffix;
    assert("github.com/"@ =~= "github.com"@ + "/"@);
    assert(url =~= scheme + bare);
    assert(name.last() == (if suffix.len() == 0 {
        repo.last()
    } else {
        suffix.last()
    }));
    assert(bare.last() == name.last());
    assert forall|i: int| 0 <= i < name.len() implies name[i] != '/' by {
        if i < repo.len() {
            assert(repo.contains(repo[i]));
        }
    }
    lemma_scheme_goes(scheme, bare);
    lemma_address_words(owner, name);
    lemma_suffix_goes(repo, suffix);
}

// ---------------------------------------------------------------------------
// State
// ---------------------------------------------------------------------------

/// What is remembered from one start to the next, in `state.json`.
#[derive(Debug, Clone, PartialEq)]
pub struct SyncState {
    /// Commit of the last successful sync; empty if it is not known.
    pub last_commit: String,
    /// Version of Node.js at the last sync.
    pub node_version: String,
    /// Whether the host has become ready since the last sync.
    pub host_started: bool,
}

/// The remembered state as plain texts.
pub ghost struct StateView {
    pub last_commit: Seq<char>,
    pub node_version: Seq<char>,
    pub host_started: bool,
}

impl View for SyncState {
    type V = StateView;

    open spec fn view(&self) -> StateView {
        StateView {
            last_commit: self.last_commit@,
            node_version: self.node_version@,
            host_started: self.host_started,
        }
    }
}

/// The state before the first sync.
pub open spec fn first_state() -> StateView {
    StateView {
        last_commit: Seq::empty(),
        node_version: Seq::empty(),
        host_started: false,
    }
}

impl Default for SyncState {
    fn default() -> (r: Self)
        ensures
            r@ == first_state(),
    {
        SyncState { last_commit: String::new(), node_version: String::new(), host_started: false }
    }
}

/// What came of reading the file that holds the state.
#[derive(Debug, PartialEq)]
pub enum StateRead {
    /// There is no such file.
    Missing,
    /// The file is there and could not be read.
    Unreadable { error: String },
    /// The file was read and does not hold a state.
    Damaged,
    /// The state that it holds.
    Read(SyncState),
}

/// The remembered state; the first one if there is none that can be read.
pub open spec fn state_found(read: StateRead) -> StateView {
    match read {
        StateRead::Read(s) => s@,
        StateRead::Missing | StateRead::Unreadable { .. } | StateRead::Damaged => first_state(),
    }
}

/// The remembered state; the first one if there is none that can be read.
pub fn load_state(read: StateRead) -> (r: SyncState)
    ensures
        r@ == state_found(read),
{
    match read {
        StateRead::Read(s) => s,
        StateRead::Missing | StateRead::Unreadable { .. } | StateRead::Damaged => {
            SyncState::default()
        },
    }
}

/// The path of the file that holds the state.
pub open spec fn state_file(style: PathStyle, workspace_root: Seq<char>) -> Seq<char> {
    path::join(style, workspace_root, "state.json"@)
}

/// The path of the file that holds the state.
pub fn state_path(style: PathStyle, workspace_root: &str) -> (r: String)
    ensures
        r@ == state_file(style, workspace_root@),
        r@ == path::join(style, workspace_root@, "state.json"@),
{
    join_path(style, workspace_root, "state.json")
}

/// What came of writing the state.
#[derive(Debug, PartialEq)]
pub enum StateWrite {
    /// There is no JSON for it.
    NotSerialized { error: String },
    /// The file could not be written.
    NotWritten { error: String },
    /// It is written.
    Written,
}

/// The error that writing the state to `path` amounts to; none if it succeeded.
pub open spec fn state_failure(path: Seq<char>, write: StateWrite) -> Option<Seq<char>> {
    match write {
        StateWrite::NotSerialized { error } => Some("序列化 state.json 失败: "@ + error@),
        StateWrite::NotWritten { error } => Some("写入 "@ + path + " 失败: "@ + error@),
        StateWrite::Written => None,
    }
}

/// Reports what came of writing the state to `path`.
pub fn save_state(path: &str, write: StateWrite) -> (r: Result<(), String>)
    ensures
        match r {
            Ok(_) => state_failure(path@, write) is None,
            Err(e) => state_failure(path@, write) == Some(e@),
        },
{
    match write {
        StateWrite::NotSerialized { error } => Err(
            cat2("序列化 state.json 失败: ", error.as_str()),
        ),
        StateWrite::NotWritten { error } => Err(
            cat4("写入 ", path, " 失败: ", error.as_str()),
        ),
        StateWrite::Written => Ok(()),
    }
}

/// The state once the host has become ready; the rest of it stays.
pub open spec fn host_marked(s: StateView) -> StateView {
    StateView { host_started: true, ..s }
}

/// The state to be written once the host has become ready: none if the file at `path` says
/// so already. A file that could not be read is an error; one that is missing or damaged
/// starts anew.
pub open spec fn marking(path: Seq<char>, read: StateRead) -> Result<
    Option<StateView>,
    Seq<char>,
> {
    match read {
        StateRead::Unreadable { error } => Err("读取 "@ + path + " 失败: "@ + error@),
        StateRead::Missing | StateRead::Damaged | StateRead::Read(_) => {
            if state_found(read).host_started {
                Ok(None)
            } else {
                Ok(Some(host_marked(state_found(read))))
            }
        },
    }
}

/// Notes in the state, which was read from the file at `path`, that the host has become
/// ready. Gives the state to be written, or none if it says so already.
pub fn mark_host_started(path: &str, read: StateRead) -> (r: Result<Option<SyncState>, String>)
    ensures
        match r {
            Ok(Some(s)) => marking(path@, read) == Ok::<Option<StateView>, Seq<char>>(Some(s@)),
            Ok(None) => marking(path@, read) == Ok::<Option<StateView>, Seq<char>>(None),
            Err(e) => marking(path@, read) == Err::<Option<StateView>, Seq<char>>(e@),
        },
{
    if let StateRead::Unreadable { error } = &read {
        return Err(cat4("读取 ", path, " 失败: ", error.as_str()));
    }
    let state = load_state(read);
    if state.host_started {
        Ok(None)
    } else {
        Ok(
            Some(
                SyncState {
                    last_commit: state.last_commit,
                    node_version: state.node_version,
                    host_started: true,
                },
            ),
        )
    }
}

/// The state after a rebuild, to be written: the commit if it is known, and no host yet.
pub open spec fn rebuilt_state(commit: Option<Seq<char>>, node_version: Seq<char>) -> StateView {
    StateView {
        last_commit: match commit {
            Some(sha) => sha,
            None => Seq::empty(),
        },
        node_version,
        host_started: false,
    }
}

/// A file that is there and cannot be read is never written over by a mark: marking fails
/// exactly then.
pub proof fn lemma_marking_needs_a_readable_file(path: Seq<char>, read: StateRead)
    ensures
        marking(path, read) is Err <==> read is Unreadable,
        read matches StateRead::Unreadable { error } ==> marking(path, read) == Err::<
            Option<StateView>,
            Seq<char>,
        >("读取 "@ + path + " 失败: "@ + error@),
        read is Missing || read is Damaged ==> marking(path, read) == Ok::<
            Option<StateView>,
            Seq<char>,
        >(Some(host_marked(first_state()))),
{
}

/// Marking twice is marking once: what was marked is found marked, and is not written again.
pub proof fn lemma_marking_is_idempotent(path: Seq<char>, s: SyncState)
    ensures
        host_marked(host_marked(s@)) == host_marked(s@),
        host_marked(s@).host_started,
        host_marked(s@).last_commit == s@.last_commit,
        host_marked(s@).node_version == s@.node_version,
        s@.host_started <==> marking(path, StateRead::Read(s)) == Ok::<
            Option<StateView>,
            Seq<char>,
        >(None),
{
}

// ---------------------------------------------------------------------------
// Sync
// ---------------------------------------------------------------------------

/// What a sync amounted to.
#[derive(Debug, Clone, PartialEq)]
pub struct SyncResult {
    /// Whether the local copy was rebuilt.
    pub updated: bool,
    /// The remote commit, if it is known.
    pub commit: Option<String>,
    /// Directory of the local copy.
    pub repo_dir: String,
}

/// What a sync amounted to, as plain texts.
pub ghost struct SyncResultView {
    pub updated: bool,
    pub commit: Option<Seq<char>>,
    pub repo_dir: Seq<char>,
}

impl View for SyncResult {
    type V = SyncResultView;

    open spec fn view(&self) -> SyncResultView {
        SyncResultView {
            updated: self.updated,
            commit: text::opt_text(self.commit),
            repo_dir: self.repo_dir@,
        }
    }
}

/// Where a sync stands.
#[derive(Clone, Copy, PartialEq, Eq, Structural, Debug)]
pub enum SyncPhase {
    /// The latest commit of the configured branch is being asked for.
    AskCommit,
    /// That failed; the default branch of the repository is being asked for.
    AskDefaultBranch,
    /// The latest commit of the default branch is being asked for.
    AskCommitAgain,
    /// The remembered state and the local copy are being looked at.
    ReadLocal,
    /// The local copy is rebuilt.
    Rebuild,
    /// The new state is written.
    Save,
    /// Over: the local copy was up to date.
    Reused,
    /// Over: the local copy was rebuilt.
    Updated,
    /// Over, with an error.
    Failed,
}

/// A sync on its way; `T` is `String` in the program and `Seq<char>` in contracts.
#[derive(Debug, PartialEq)]
pub struct SyncRunOf<T> {
    /// Owner of the repository.
    pub owner: T,
    /// Name of the repository.
    pub repo: T,
    /// The branch that is synced.
    pub branch: T,
    /// Version of Node.js, to be remembered.
    pub node_version: T,
    /// Directory of the local copy.
    pub repo_dir: T,
    /// The remote commit, once it is known.
    pub commit: Option<T>,
    /// What to tell the user about the operation that comes next.
    pub note: Option<T>,
    /// Why the last question to GitHub, or the whole sync, failed.
    pub error: T,
    /// Where the sync stands.
    pub phase: SyncPhase,
}

/// A sync on its way.
pub type SyncRun = SyncRunOf<String>;

/// What an operation of a sync came to.
#[derive(Debug, PartialEq)]
pub enum SyncEventOf<T> {
    /// GitHub named this commit.
    Commit(T),
    /// GitHub named this default branch.
    DefaultBranch(T),
    /// The remembered commit and mark, and whether there is a local copy.
    Local { last_commit: T, host_started: bool, repo_exists: bool },
    /// The operation succeeded.
    Done,
    /// The operation failed.
    Failed(T),
}

/// What an operation of a sync came to.
pub type SyncEvent = SyncEventOf<String>;

/// What a sync wants done next.
#[derive(Debug, PartialEq)]
pub enum SyncOpOf<T> {
    /// Ask `url` for the latest commit of a branch.
    AskCommit { url: T },
    /// Ask `url` for the default branch.
    AskDefaultBranch { url: T },
    /// Read the remembered state and look whether `repo_dir` exists.
    ReadLocal { repo_dir: T },
    /// Rebuild `repo_dir` from the archive at `url`.
    Rebuild { url: T, repo_dir: T },
    /// Write the state with these fields.
    Save { last_commit: T, node_version: T, host_started: bool },
    /// Nothing more: the sync succeeded.
    Finish { updated: bool, commit: Option<T>, repo_dir: T },
    /// Nothing more: the sync failed.
    Fail { error: T },
}

/// What a sync wants done next.
pub type SyncOp = SyncOpOf<String>;

impl View for SyncRunOf<String> {
    type V = SyncRunOf<Seq<char>>;

    open spec fn view(&self) -> SyncRunOf<Seq<char>> {
        SyncRunOf {
            owner: self.owner@,
            repo: self.repo@,
            branch: self.branch@,
            node_version: self.node_version@,
            repo_dir: self.repo_dir@,
            commit: text::opt_text(self.commit),
            note: text::opt_text(self.note),
            error: self.error@,
            phase: self.phase,
        }
    }
}

impl View for SyncEventOf<String> {
    type V = SyncEventOf<Seq<char>>;

    open spec fn view(&self) -> SyncEventOf<Seq<char>> {
        match *self {
            SyncEventOf::Commit(t) => SyncEventOf::Commit(t@),
            SyncEventOf::DefaultBranch(t) => SyncEventOf::DefaultBranch(t@),
            SyncEventOf::Local { last_commit, host_started, repo_exists } => SyncEventOf::Local {
                last_commit: last_commit@,
                host_started,
                repo_exists,
            },
            SyncEventOf::Done => SyncEventOf::Done,
            SyncEventOf::Failed(t) => SyncEventOf::Failed(t@),
        }
    }
}

impl View for SyncOpOf<String> {
    type V = SyncOpOf<Seq<char>>;

    open spec fn view(&self) -> SyncOpOf<Seq<char>> {
        match *self {
            SyncOpOf::AskCommit { url } => SyncOpOf::AskCommit { url: url@ },
            SyncOpOf::AskDefaultBranch { url } => SyncOpOf::AskDefaultBranch { url: url@ },
            SyncOpOf::ReadLocal { repo_dir } => SyncOpOf::ReadLocal { repo_dir: repo_dir@ },
            SyncOpOf::Rebuild { url, repo_dir } => SyncOpOf::Rebuild {
                url: url@,
                repo_dir: repo_dir@,
            },
            SyncOpOf::Save { last_commit, node_version, host_started } => SyncOpOf::Save {
                last_commit: last_commit@,
                node_version: node_version@,
                host_started,
            },
            SyncOpOf::Finish { updated, commit, repo_dir } => SyncOpOf::Finish {
                updated,
                commit: text::opt_text(commit),
                repo_dir: repo_dir@,
            },
            SyncOpOf::Fail { error } => SyncOpOf::Fail { error: error@ },
        }
    }
}

/// Whether GitHub's answer is a commit: it has the length of one.
pub open spec fn is_commit(sha: Seq<char>) -> bool {
    text::byte_len(sha) == 40
}

/// The error for an answer that is not a commit.
pub open spec fn bad_commit_error(sha: Seq<char>) -> Seq<char> {
    "API 返回的 SHA 长度异常: "@ + sha
}

/// Takes GitHub's answer to the question for the latest commit: it must have the length of
/// one.
pub fn fetch_remote_commit(sha: String) -> (r: Result<String, String>)
    ensures
        match r {
            Ok(c) => is_commit(sha@) && c@ == sha@,
            Err(e) => !is_commit(sha@) && e@ == bad_commit_error(sha@),
        },
{
    if bytes_in(sha.as_str()) == 40 {
        Ok(sha)
    } else {
        Err(cat2("API 返回的 SHA 长度异常: ", sha.as_str()))
    }
}

/// Takes GitHub's answer to the question for the default branch: it must not be empty.
pub fn fetch_default_branch(branch: String) -> (r: Result<String, String>)
    ensures
        match r {
            Ok(b) => branch@.len() > 0 && b@ == branch@,
            Err(e) => branch@.len() == 0 && e@ == "API 返回的 default_branch 为空"@,
        },
{
    if branch.as_str().is_empty() {
        Err(copy_text("API 返回的 default_branch 为空"))
    } else {
        Ok(branch)
    }
}

impl SyncRunOf<Seq<char>> {
    /// The repository.
    pub open spec fn info(self) -> RepoView {
        RepoView { owner: self.owner, repo: self.repo }
    }

    /// GitHub named the commit `sha`.
    pub open spec fn with_commit(self, sha: Seq<char>) -> Self {
        SyncRunOf { commit: Some(sha), note: None, phase: SyncPhase::ReadLocal, ..self }
    }

    /// GitHub could not be asked, for the reason `e`: the sync goes on without a commit.
    pub open spec fn without_commit(self, e: Seq<char>) -> Self {
        SyncRunOf {
            commit: None,
            note: Some("GitHub API 查询失败（"@ + e + "），回退为直接重新下载"@),
            error: e,
            phase: SyncPhase::ReadLocal,
            ..self
        }
    }

    /// The first question failed for the reason `e`: the default branch is next.
    pub open spec fn ask_default(self, e: Seq<char>) -> Self {
        SyncRunOf { note: None, error: e, phase: SyncPhase::AskDefaultBranch, ..self }
    }

    /// The repository has another default branch, which is tried in place of the
    /// configured one.
    pub open spec fn on_branch(self, b: Seq<char>) -> Self {
        SyncRunOf {
            branch: b,
            note: Some(
                "分支 "@ + self.branch + " 查询失败，回退仓库默认分支 "@ + b,
            ),
            phase: SyncPhase::AskCommitAgain,
            ..self
        }
    }

    /// Whether the local copy can be used as it is: it belongs to the remote commit, the
    /// host once became ready on it, and it is there.
    pub open spec fn up_to_date(
        self,
        last_commit: Seq<char>,
        host_started: bool,
        repo_exists: bool,
    ) -> bool {
        self.commit == Some(last_commit) && host_started && repo_exists
    }

    /// The local copy is used as it is.
    pub open spec fn reuse(self) -> Self {
        SyncRunOf {
            note: Some(
                "版本一致（commit "@ + self.commit->0 + "），复用本地仓库直接启动宿主"@,
            ),
            phase: SyncPhase::Reused,
            ..self
        }
    }

    /// The local copy has to be rebuilt.
    pub open spec fn rebuild(self) -> Self {
        SyncRunOf {
            note: Some(
                "正在同步仓库 "@ + self.owner + "/"@ + self.repo + "（分支 "@ + self.branch
                    + "）..."@,
            ),
            phase: SyncPhase::Rebuild,
            ..self
        }
    }

    /// The sync failed for the reason `e`.
    pub open spec fn fail(self, e: Seq<char>) -> Self {
        SyncRunOf { note: None, error: e, phase: SyncPhase::Failed, ..self }
    }

    /// The sync after an event. An event that does not answer the operation that was
    /// wanted changes nothing.
    pub open spec fn after(self, e: SyncEventOf<Seq<char>>) -> Self {
        match (self.phase, e) {
            (SyncPhase::AskCommit, SyncEventOf::Commit(sha)) => if is_commit(sha) {
                self.with_commit(sha)
            } else {
                self.ask_default(bad_commit_error(sha))
            },
            (SyncPhase::AskCommit, SyncEventOf::Failed(x)) => self.ask_default(x),
            (SyncPhase::AskDefaultBranch, SyncEventOf::DefaultBranch(b)) => if b.len() == 0 {
                self.without_commit("API 返回的 default_branch 为空"@)
            } else if b == self.branch {
                self.without_commit(self.error)
            } else {
                self.on_branch(b)
            },
            (SyncPhase::AskDefaultBranch, SyncEventOf::Failed(x)) => self.without_commit(x),
            (SyncPhase::AskCommitAgain, SyncEventOf::Commit(sha)) => if is_commit(sha) {
                self.with_commit(sha)
            } else {
                self.without_commit(bad_commit_error(sha))
            },
            (SyncPhase::AskCommitAgain, SyncEventOf::Failed(x)) => self.without_commit(x),
            (
                SyncPhase::ReadLocal,
                SyncEventOf::Local { last_commit, host_started, repo_exists },
            ) => if self.up_to_date(last_commit, host_started, repo_exists) {
                self.reuse()
            } else {
                self.rebuild()
            },
            (SyncPhase::Rebuild, SyncEventOf::Done) => SyncRunOf {
                note: Some("仓库同步完成"@),
                phase: SyncPhase::Save,
                ..self
            },
            (SyncPhase::Rebuild, SyncEventOf::Failed(x)) => self.fail(x),
            (SyncPhase::Save, SyncEventOf::Done) => SyncRunOf {
                note: None,
                phase: SyncPhase::Updated,
                ..self
            },
            (SyncPhase::Save, SyncEventOf::Failed(x)) => self.fail(x),
            _ => self,
        }
    }

    /// The operation that is wanted next.
    pub open spec fn wanted(self) -> SyncOpOf<Seq<char>> {
        match self.phase {
            SyncPhase::AskCommit => SyncOpOf::AskCommit {
                url: commits_url(self.info(), self.branch),
            },
            SyncPhase::AskDefaultBranch => SyncOpOf::AskDefaultBranch {
                url: detail_url(self.info()),
            },
            SyncPhase::AskCommitAgain => SyncOpOf::AskCommit {
                url: commits_url(self.info(), self.branch),
            },
            SyncPhase::ReadLocal => SyncOpOf::ReadLocal { repo_dir: self.repo_dir },
            SyncPhase::Rebuild => SyncOpOf::Rebuild {
                url: zip_url(self.info(), self.branch),
                repo_dir: self.repo_dir,
            },
            SyncPhase::Save => {
                let s = rebuilt_state(self.commit, self.node_version);
                SyncOpOf::Save {
                    last_commit: s.last_commit,
                    node_version: s.node_version,
                    host_started: s.host_started,
                }
            },
            SyncPhase::Reused => SyncOpOf::Finish {
                updated: false,
                commit: self.commit,
                repo_dir: self.repo_dir,
            },
            SyncPhase::Updated => SyncOpOf::Finish {
                updated: true,
                commit: self.commit,
                repo_dir: self.repo_dir,
            },
            SyncPhase::Failed => SyncOpOf::Fail { error: self.error },
        }
    }
}

/// A sync at its start: the first question to GitHub, or a failure if the address cannot
/// be read.
pub open spec fn sync_start(
    style: PathStyle,
    workspace_root: Seq<char>,
    repo_url: Seq<char>,
    branch: Seq<char>,
    node_version: Seq<char>,
) -> SyncRunOf<Seq<char>> {
    let info = match repo_of(repo_url) {
        Ok(info) => info,
        Err(_) => RepoView { owner: Seq::empty(), repo: Seq::empty() },
    };
    SyncRunOf {
        owner: info.owner,
        repo: info.repo,
        branch,
        node_version,
        repo_dir: path::join(style, workspace_root, "repo"@),
        commit: None,
        note: None,
        error: match repo_of(repo_url) {
            Ok(_) => Seq::empty(),
            Err(e) => e.message_for(repo_url),
        },
        phase: match repo_of(repo_url) {
            Ok(_) => SyncPhase::AskCommit,
            Err(_) => SyncPhase::Failed,
        },
    }
}

/// Starts a sync.
pub fn sync_repo(
    style: PathStyle,
    workspace_root: &str,
    repo_url: &str,
    branch: &str,
    node_version: &str,
) -> (r: SyncRun)
    ensures
        r@ == sync_start(style, workspace_root@, repo_url@, branch@, node_version@),
{
    let repo_dir = join_path(style, workspace_root, "repo");
    match parse_repo_url(repo_url) {
        Ok(info) => SyncRunOf {
            owner: info.owner,
            repo: info.repo,
            branch: copy_text(branch),
            node_version: copy_text(node_version),
            repo_dir,
            commit: None,
            note: None,
            error: String::new(),
            phase: SyncPhase::AskCommit,
        },
        Err(e) => SyncRunOf {
            owner: String::new(),
            repo: String::new(),
            branch: copy_text(branch),
            node_version: copy_text(node_version),
            repo_dir,
            commit: None,
            note: None,
            error: e.message(repo_url),
            phase: SyncPhase::Failed,
        },
    }
}

impl SyncRunOf<String> {
    fn info_of(&self) -> (r: RepoInfo)
        ensures
            r@ == self@.info(),
    {
        RepoInfo { owner: copy_text(self.owner.as_str()), repo: copy_text(self.repo.as_str()) }
    }

    /// What to tell the user about the operation that comes next.
    pub fn status(&self) -> (r: Option<String>)
        ensures
            text::opt_text(r) == self@.note,
    {
        copy_opt(&self.note)
    }

    /// The operation that is wanted next.
    pub fn action(&self) -> (r: SyncOp)
        ensures
            r@ == self@.wanted(),
    {
        match self.phase {
            SyncPhase::AskCommit => SyncOpOf::AskCommit {
                url: commits_api_url(&self.info_of(), self.branch.as_str()),
            },
            SyncPhase::AskDefaultBranch => SyncOpOf::AskDefaultBranch {
                url: repo_detail_url(&self.info_of()),
            },
            SyncPhase::AskCommitAgain => SyncOpOf::AskCommit {
                url: commits_api_url(&self.info_of(), self.branch.as_str()),
            },
            SyncPhase::ReadLocal => SyncOpOf::ReadLocal {
                repo_dir: copy_text(self.repo_dir.as_str()),
            },
            SyncPhase::Rebuild => SyncOpOf::Rebuild {
                url: codeload_zip_url(&self.info_of(), self.branch.as_str()),
                repo_dir: copy_text(self.repo_dir.as_str()),
            },
            SyncPhase::Save => SyncOpOf::Save {
                last_commit: match &self.commit {
                    Some(sha) => copy_text(sha.as_str()),
                    None => String::new(),
                },
                node_version: copy_text(self.node_version.as_str()),
                host_started: false,
            },
            SyncPhase::Reused => SyncOpOf::Finish {
                updated: false,
                commit: copy_opt(&self.commit),
                repo_dir: copy_text(self.repo_dir.as_str()),
            },
            SyncPhase::Updated => SyncOpOf::Finish {
                updated: true,
                commit: copy_opt(&self.commit),
                repo_dir: copy_text(self.repo_dir.as_str()),
            },
            SyncPhase::Failed => SyncOpOf::Fail { error: copy_text(self.error.as_str()) },
        }
    }

    fn set_commit(&mut self, sha: String)
        ensures
            final(self)@ == old(self)@.with_commit(sha@),
    {
        self.commit = Some(sha);
        self.note = None;
        self.phase = SyncPhase::ReadLocal;
    }

    fn set_no_commit(&mut self, e: String)
        ensures
            final(self)@ == old(self)@.without_commit(e@),
    {
        self.commit = None;
        self.note = Some(
            cat3("GitHub API 查询失败（", e.as_str(), "），回退为直接重新下载"),
        );
        self.error = e;
        self.phase = SyncPhase::ReadLocal;
    }

    fn set_ask_default(&mut self, e: String)
        ensures
            final(self)@ == old(self)@.ask_default(e@),
    {
        self.note = None;
        self.error = e;
        self.phase = SyncPhase::AskDefaultBranch;
    }

    fn set_failed(&mut self, e: String)
        ensures
            final(self)@ == old(self)@.fail(e@),
    {
        self.note = None;
        self.error = e;
        self.phase = SyncPhase::Failed;
    }

    /// Takes note of what the wanted operation came to.
    pub fn advance(&mut self, e: SyncEvent)
        ensures
            final(self)@ == old(self)@.after(e@),
    {
        match (self.phase, e) {
            (SyncPhase::AskCommit, SyncEventOf::Commit(sha)) => {
                match fetch_remote_commit(sha) {
                    Ok(sha) => self.set_commit(sha),
                    Err(e) => self.set_ask_default(e),
                }
            },
            (SyncPhase::AskCommit, SyncEventOf::Failed(x)) => {
                self.set_ask_default(x);
            },
            (SyncPhase::AskDefaultBranch, SyncEventOf::DefaultBranch(b)) => {
                match fetch_default_branch(b) {
                    Err(e) => self.set_no_commit(e),
                    Ok(b) => {
                        if same(b.as_str(), self.branch.as_str()) {
                            let e = copy_text(self.error.as_str());
                            self.set_no_commit(e);
                        } else {
                            self.note = Some(
                                cat4(
                                    "分支 ",
                                    self.branch.as_str(),
                                    " 查询失败，回退仓库默认分支 ",
                                    b.as_str(),
                                ),
                            );
                            self.branch = b;
                            self.phase = SyncPhase::AskCommitAgain;
                        }
                    },
                }
            },
            (SyncPhase::AskDefaultBranch, SyncEventOf::Failed(x)) => {
                self.set_no_commit(x);
            },
            (SyncPhase::AskCommitAgain, SyncEventOf::Commit(sha)) => {
                match fetch_remote_commit(sha) {
                    Ok(sha) => self.set_commit(sha),
                    Err(e) => self.set_no_commit(e),
                }
            },
            (SyncPhase::AskCommitAgain, SyncEventOf::Failed(x)) => {
                self.set_no_commit(x);
            },
            (
                SyncPhase::ReadLocal,
                SyncEventOf::Local { last_commit, host_started, repo_exists },
            ) => {
                let current = match &self.commit {
                    Some(sha) => same(sha.as_str(), last_commit.as_str()),
                    None => false,
                };
                if current && host_started && repo_exists {
                    self.note = Some(
                        cat3(
                            "版本一致（commit ",
                            last_commit.as_str(),
                            "），复用本地仓库直接启动宿主",
                        ),
                    );
                    self.phase = SyncPhase::Reused;
                } else {
                    self.note = Some(
                        cat7(
                            "正在同步仓库 ",
                            self.owner.as_str(),
                            "/",
                            self.repo.as_str(),
                            "（分支 ",
                            self.branch.as_str(),
                            "）...",
                        ),
                    );
                    self.phase = SyncPhase::Rebuild;
                }
            },
            (SyncPhase::Rebuild, SyncEventOf::Done) => {
                self.note = Some(copy_text("仓库同步完成"));
                self.phase = SyncPhase::Save;
            },
            (SyncPhase::Rebuild, SyncEventOf::Failed(x)) => {
                self.set_failed(x);
            },
            (SyncPhase::Save, SyncEventOf::Done) => {
                self.note = None;
                self.phase = SyncPhase::Updated;
            },
            (SyncPhase::Save, SyncEventOf::Failed(x)) => {
                self.set_failed(x);
            },
            _ => {},
        }
    }
}

// ---------------------------------------------------------------------------
// Laws of the sync
// ---------------------------------------------------------------------------

/// Everything that a sync can learn from outside: what GitHub answers, what is there
/// locally, and what the operations come to.
pub ghost struct SyncWorld {
    pub commit_on_branch: Result<Seq<char>, Seq<char>>,
    pub default_branch: Result<Seq<char>, Seq<char>>,
    pub commit_on_default: Result<Seq<char>, Seq<char>>,
    pub last_commit: Seq<char>,
    pub host_started: bool,
    pub repo_exists: bool,
    pub rebuild: Result<(), Seq<char>>,
    pub save: Result<(), Seq<char>>,
}

impl SyncWorld {
    /// The event that answers the operation of a phase.
    pub open spec fn answer(self, phase: SyncPhase) -> SyncEventOf<Seq<char>> {
        match phase {
            SyncPhase::AskCommit => match self.commit_on_branch {
                Ok(sha) => SyncEventOf::Commit(sha),
                Err(e) => SyncEventOf::Failed(e),
            },
            SyncPhase::AskDefaultBranch => match self.default_branch {
                Ok(b) => SyncEventOf::DefaultBranch(b),
                Err(e) => SyncEventOf::Failed(e),
            },
            SyncPhase::AskCommitAgain => match self.commit_on_default {
                Ok(sha) => SyncEventOf::Commit(sha),
                Err(e) => SyncEventOf::Failed(e),
            },
            SyncPhase::ReadLocal => SyncEventOf::Local {
                last_commit: self.last_commit,
                host_started: self.host_started,
                repo_exists: self.repo_exists,
            },
            SyncPhase::Rebuild => match self.rebuild {
                Ok(_) => SyncEventOf::Done,
                Err(e) => SyncEventOf::Failed(e),
            },
            SyncPhase::Save => match self.save {
                Ok(_) => SyncEventOf::Done,
                Err(e) => SyncEventOf::Failed(e),
            },
            _ => SyncEventOf::Done,
        }
    }

    /// Whether GitHub names a commit for the configured branch.
    pub open spec fn branch_answered(self) -> bool {
        self.commit_on_branch matches Ok(sha) && is_commit(sha)
    }

    /// Whether another default branch takes the place of the branch `configured`.
    pub open spec fn falls_back(self, configured: Seq<char>) -> bool {
        !self.branch_answered() && (self.default_branch matches Ok(b) && b.len() > 0 && b
            != configured)
    }

    /// The branch that is synced.
    pub open spec fn branch(self, configured: Seq<char>) -> Seq<char> {
        if self.falls_back(configured) {
            self.default_branch->Ok_0
        } else {
            configured
        }
    }

    /// The remote commit, if it can be learnt.
    pub open spec fn commit(self, configured: Seq<char>) -> Option<Seq<char>> {
        if self.branch_answered() {
            Some(self.commit_on_branch->Ok_0)
        } else if self.falls_back(configured) {
            match self.commit_on_default {
                Ok(sha) => if is_commit(sha) {
                    Some(sha)
                } else {
                    None
                },
                Err(_) => None,
            }
        } else {
            None
        }
    }

    /// Whether the local copy is up to date.
    pub open spec fn up_to_date(self, configured: Seq<char>) -> bool {
        self.commit(configured) == Some(self.last_commit) && self.host_started && self.repo_exists
    }
}

/// A sync after `n` operations.
pub open spec fn sync_after(
    run: SyncRunOf<Seq<char>>,
    w: SyncWorld,
    n: nat,
) -> SyncRunOf<Seq<char>>
    decreases n,
{
    if n == 0 {
        run
    } else {
        let before = sync_after(run, w, (n - 1) as nat);
        before.after(w.answer(before.phase))
    }
}

/// How many questions GitHub is asked.
pub open spec fn questions(w: SyncWorld, configured: Seq<char>) -> nat {
    if w.branch_answered() {
        1
    } else if w.falls_back(configured) {
        3
    } else {
        2
    }
}

/// What the questions come to.
proof fn lemma_sync_questions(run: SyncRunOf<Seq<char>>, w: SyncWorld)
    requires
        run.phase == SyncPhase::AskCommit,
    ensures
        ({
            let s = sync_after(run, w, questions(w, run.branch));
            &&& s.phase == SyncPhase::ReadLocal
            &&& s.commit == w.commit(run.branch)
            &&& s.branch == w.branch(run.branch)
            &&& s.info() == run.info()
            &&& s.repo_dir == run.repo_dir
        }),
{
    let s1 = sync_after(run, w, 1);
    let s2 = sync_after(run, w, 2);
    let s3 = sync_after(run, w, 3);
    assert(sync_after(run, w, 0) == run);
    assert(s1 == run.after(w.answer(SyncPhase::AskCommit)));
    if !w.branch_answered() {
        assert(s1.phase == SyncPhase::AskDefaultBranch);
        assert(s2 == s1.after(w.answer(SyncPhase::AskDefaultBranch)));
        if w.falls_back(run.branch) {
            assert(s2.phase == SyncPhase::AskCommitAgain);
            assert(s3 == s2.after(w.answer(SyncPhase::AskCommitAgain)));
        }
    }
}

/// One more operation, of a sync that is over, changes nothing.
proof fn lemma_sync_stays(run: SyncRunOf<Seq<char>>, w: SyncWorld, n: nat, m: nat)
    requires
        n <= m,
        sync_after(run, w, n).phase == SyncPhase::Reused || sync_after(run, w, n).phase
            == SyncPhase::Updated || sync_after(run, w, n).phase == SyncPhase::Failed,
    ensures
        sync_after(run, w, m) == sync_after(run, w, n),
    decreases m,
{
    if n < m {
        lemma_sync_stays(run, w, n, (m - 1) as nat);
    }
}

/// What follows the questions.
proof fn lemma_sync_answers(run: SyncRunOf<Seq<char>>, w: SyncWorld, n: nat, m: nat)
    requires
        sync_after(run, w, n).phase == SyncPhase::ReadLocal,
        n + 3 <= m,
    ensures
        ({
            let s = sync_after(run, w, n);
            let end = sync_after(run, w, m);
            let current = s.up_to_date(w.last_commit, w.host_started, w.repo_exists);
            &&& end.commit == s.commit
            &&& end.branch == s.branch
            &&& end.info() == s.info()
            &&& end.repo_dir == s.repo_dir
            &&& end.phase == (if current {
                SyncPhase::Reused
            } else if w.rebuild is Err || w.save is Err {
                SyncPhase::Failed
            } else {
                SyncPhase::Updated
            })
            &&& end.phase == SyncPhase::Failed ==> end.error == (match w.rebuild {
                Err(e) => e,
                Ok(_) => w.save->Err_0,
            })
        }),
{
    let s0 = sync_after(run, w, n);
    let s1 = sync_after(run, w, n + 1);
    let s2 = sync_after(run, w, n + 2);
    let s3 = sync_after(run, w, n + 3);
    assert(s1 == s0.after(w.answer(SyncPhase::ReadLocal)));
    if s1.phase == SyncPhase::Reused {
        lemma_sync_stays(run, w, n + 1, m);
    } else {
        assert(s1.phase == SyncPhase::Rebuild);
        assert(s2 == s1.after(w.answer(SyncPhase::Rebuild)));
        if w.rebuild is Err {
            lemma_sync_stays(run, w, n + 2, m);
        } else {
            assert(s3 == s2.after(w.answer(SyncPhase::Save)));
            lemma_sync_stays(run, w, n + 3, m);
        }
    }
}

/// What a sync comes to, whatever the outside answers: it is over after at most six
/// operations; it uses the local copy as it is exactly if that is up to date; else it
/// rebuilds it, from the branch that GitHub knows, and fails only if rebuilding it or
/// writing the state does. That GitHub cannot be asked is no failure.
pub proof fn lemma_sync_outcome(run: SyncRunOf<Seq<char>>, w: SyncWorld)
    requires
        run.phase == SyncPhase::AskCommit,
    ensures
        ({
            let end = sync_after(run, w, 6);
            &&& end.commit == w.commit(run.branch)
            &&& end.branch == w.branch(run.branch)
            &&& end.info() == run.info()
            &&& end.repo_dir == run.repo_dir
            &&& end.phase == (if w.up_to_date(run.branch) {
                SyncPhase::Reused
            } else if w.rebuild is Err || w.save is Err {
                SyncPhase::Failed
            } else {
                SyncPhase::Updated
            })
            &&& end.phase == SyncPhase::Failed ==> end.error == (match w.rebuild {
                Err(e) => e,
                Ok(_) => w.save->Err_0,
            })
        }),
{
    lemma_sync_questions(run, w);
    lemma_sync_answers(run, w, questions(w, run.branch), 6);
}

/// A sync that is over stays as it is.
pub proof fn lemma_sync_is_over(run: SyncRunOf<Seq<char>>, e: SyncEventOf<Seq<char>>)
    requires
        run.phase == SyncPhase::Reused || run.phase == SyncPhase::Updated || run.phase
            == SyncPhase::Failed,
    ensures
        run.after(e) == run,
{
}

/// A sync that rebuilt the local copy forgets that the host was ready, so that the next
/// start does not take the short way unless the host becomes ready in between; once it
/// does, and GitHub still names the same commit, the next start does.
pub proof fn lemma_next_start(
    done: SyncRunOf<Seq<char>>,
    next: SyncRunOf<Seq<char>>,
    marked: bool,
    repo_exists: bool,
)
    requires
        done.phase == SyncPhase::Save,
        next.phase == SyncPhase::ReadLocal,
        next.commit == done.commit,
        done.commit is Some,
        repo_exists,
    ensures
        ({
            let saved = rebuilt_state(done.commit, done.node_version);
            let found = if marked {
                host_marked(saved)
            } else {
                saved
            };
            &&& done.wanted() == (SyncOpOf::Save {
                last_commit: saved.last_commit,
                node_version: saved.node_version,
                host_started: saved.host_started,
            })
            &&& (next.after(
                SyncEventOf::Local {
                    last_commit: found.last_commit,
                    host_started: found.host_started,
                    repo_exists,
                },
            ).phase == SyncPhase::Reused) == marked
        }),
{
}

/// Whether these parts make up the address of a repository: a scheme that may be missing, an
/// owner and a name without slashes, and a suffix that may be missing.
pub open spec fn are_address_parts(
    scheme: Seq<char>,
    owner: Seq<char>,
    repo: Seq<char>,
    suffix: Seq<char>,
) -> bool {
    &&& scheme == "https://"@ || scheme == "http://"@ || scheme == ""@
    &&& suffix == ".git"@ || suffix == ""@
    &&& owner.len() > 0
    &&& repo.len() > 0
    &&& !owner.contains('/')
    &&& !repo.contains('/')
    &&& !text::is_space(repo.last())
    &&& !".git"@.is_suffix_of(repo)
}

/// How a sync that came from its start can stand, whatever the outside answered: which
/// branch and commit it has got to, and what is behind it.
spec fn sync_stands(
    s: SyncRunOf<Seq<char>>,
    w: SyncWorld,
    owner: Seq<char>,
    repo: Seq<char>,
    configured: Seq<char>,
    node_version: Seq<char>,
    repo_dir: Seq<char>,
) -> bool {
    &&& s.owner == owner
    &&& s.repo == repo
    &&& s.node_version == node_version
    &&& s.repo_dir == repo_dir
    &&& match s.phase {
        SyncPhase::AskCommit => s.branch == configured,
        SyncPhase::AskDefaultBranch => s.branch == configured && !w.branch_answered(),
        SyncPhase::AskCommitAgain => s.branch == w.branch(configured) && w.falls_back(configured),
        _ => s.branch == w.branch(configured) && s.commit == w.commit(configured),
    }
    &&& match s.phase {
        SyncPhase::Rebuild | SyncPhase::Save | SyncPhase::Updated => !w.up_to_date(configured),
        SyncPhase::Reused => w.up_to_date(configured),
        SyncPhase::Failed => !w.up_to_date(configured) && (w.rebuild == Err::<(), Seq<char>>(
            s.error,
        ) || w.save == Err::<(), Seq<char>>(s.error)),
        _ => true,
    }
}

proof fn lemma_sync_stands(
    style: PathStyle,
    root: Seq<char>,
    scheme: Seq<char>,
    owner: Seq<char>,
    repo: Seq<char>,
    suffix: Seq<char>,
    configured: Seq<char>,
    node_version: Seq<char>,
    w: SyncWorld,
    n: nat,
)
    requires
        are_address_parts(scheme, owner, repo, suffix),
    ensures
        ({
            let url = scheme + "github.com/"@ + owner + "/"@ + repo + suffix;
            let run = sync_start(style, root, url, configured, node_version);
            sync_stands(
                sync_after(run, w, n),
                w,
                owner,
                repo,
                configured,
                node_version,
                path::join(style, root, "repo"@),
            )
        }),
    decreases n,
{
    lemma_supported_addresses(scheme, owner, repo, suffix);
    if n > 0 {
        lemma_sync_stands(
            style,
            root,
            scheme,
            owner,
            repo,
            suffix,
            configured,
            node_version,
            w,
            (n - 1) as nat,
        );
    }
}

/// What a sync asks for is what it was started for, however far it has got and whatever the
/// outside answers. GitHub is asked about the repository that the address names, first about
/// the configured branch and then, where that has no commit, about the default one. What is
/// downloaded is the branch that was settled on, also where no commit could be learnt. What is
/// remembered is the commit, if it is known, the version of Node.js, and that the host has not
/// been ready yet. The local copy is the directory `repo` of the working directory.
pub proof fn lemma_sync_wants(
    style: PathStyle,
    root: Seq<char>,
    scheme: Seq<char>,
    owner: Seq<char>,
    repo: Seq<char>,
    suffix: Seq<char>,
    configured: Seq<char>,
    node_version: Seq<char>,
    w: SyncWorld,
    n: nat,
)
    requires
        are_address_parts(scheme, owner, repo, suffix),
    ensures
        ({
            let url = scheme + "github.com/"@ + owner + "/"@ + repo + suffix;
            let run = sync_start(style, root, url, configured, node_version);
            let s = sync_after(run, w, n);
            let api = "https://api.github.com/repos/"@ + owner + "/"@ + repo;
            let dir = path::join(style, root, "repo"@);
            let branch = w.branch(configured);
            match s.wanted() {
                SyncOpOf::AskCommit { url } => url == api + "/commits/"@ + (if n == 0 {
                    configured
                } else {
                    s.branch
                }) && (s.branch == configured || (w.falls_back(configured) && s.branch == branch)),
                SyncOpOf::AskDefaultBranch { url } => url == api && !w.branch_answered(),
                SyncOpOf::ReadLocal { repo_dir } => repo_dir == dir,
                SyncOpOf::Rebuild { url, repo_dir } => {
                    &&& url == "https://codeload.github.com/"@ + owner + "/"@ + repo
                        + "/zip/refs/heads/"@ + branch
                    &&& repo_dir == dir
                    &&& !w.up_to_date(configured)
                },
                SyncOpOf::Save { last_commit, node_version: v, host_started } => {
                    &&& last_commit == (match w.commit(configured) {
                        Some(sha) => sha,
                        None => Seq::empty(),
                    })
                    &&& v == node_version
                    &&& !host_started
                    &&& !w.up_to_date(configured)
                },
                SyncOpOf::Finish { updated, commit, repo_dir } => {
                    &&& updated == !w.up_to_date(configured)
                    &&& commit == w.commit(configured)
                    &&& repo_dir == dir
                },
                SyncOpOf::Fail { error } => w.rebuild == Err::<(), Seq<char>>(error) || w.save
                    == Err::<(), Seq<char>>(error),
            }
        }),
{
    lemma_sync_stands(
        style,
        root,
        scheme,
        owner,
        repo,
        suffix,
        configured,
        node_version,
        w,
        n,
    );
    lemma_supported_addresses(scheme, owner, repo, suffix);
    let url = scheme + "github.com/"@ + owner + "/"@ + repo + suffix;
    let run = sync_start(style, root, url, configured, node_version);
    assert(sync_after(run, w, 0) == run);
}

/// The order in which a sync goes: the question for the commit; where that fails, the one for
/// the default branch; where that is another one, the question for its commit; then the look
/// at the local copy; and, unless that is up to date, the download, the note of it, and the
/// end. A download or a note that fails is the end.
pub proof fn lemma_sync_order(run: SyncRunOf<Seq<char>>, w: SyncWorld)
    requires
        run.phase == SyncPhase::AskCommit,
    ensures
        ({
            let q = questions(w, run.branch);
            &&& sync_after(run, w, 0).wanted() is AskCommit
            &&& !w.branch_answered() ==> sync_after(run, w, 1).wanted() is AskDefaultBranch
            &&& w.falls_back(run.branch) ==> sync_after(run, w, 2).wanted() is AskCommit
            &&& sync_after(run, w, q).wanted() is ReadLocal
            &&& w.up_to_date(run.branch) ==> sync_after(run, w, q + 1).wanted() is Finish
            &&& !w.up_to_date(run.branch) ==> {
                &&& sync_after(run, w, q + 1).wanted() is Rebuild
                &&& w.rebuild matches Err(e) ==> sync_after(run, w, q + 2).wanted() == (
                SyncOpOf::Fail { error: e })
                &&& w.rebuild is Ok ==> sync_after(run, w, q + 2).wanted() is Save
                &&& w.rebuild is Ok ==> (w.save matches Err(e) ==> sync_after(
                    run,
                    w,
                    q + 3,
                ).wanted() == (SyncOpOf::Fail { error: e }))
                &&& w.rebuild is Ok && w.save is Ok ==> sync_after(run, w, q + 3).wanted() is Finish
            }
        }),
{
    let q = questions(w, run.branch);
    let s0 = sync_after(run, w, 0);
    let s1 = sync_after(run, w, 1);
    let s2 = sync_after(run, w, 2);
    assert(s0 == run);
    assert(s1 == run.after(w.answer(SyncPhase::AskCommit)));
    if !w.branch_answered() {
        assert(s2 == s1.after(w.answer(SyncPhase::AskDefaultBranch)));
    }
    lemma_sync_questions(run, w);
    let r0 = sync_after(run, w, q);
    let r1 = sync_after(run, w, q + 1);
    let r2 = sync_after(run, w, q + 2);
    let r3 = sync_after(run, w, q + 3);
    assert(r1 == r0.after(w.answer(SyncPhase::ReadLocal)));
    if !w.up_to_date(run.branch) {
        assert(r2 == r1.after(w.answer(SyncPhase::Rebuild)));
        if w.rebuild is Ok {
            assert(r3 == r2.after(w.answer(SyncPhase::Save)));
        }
    }
}

/// GitHub's answer counts as a commit exactly if it is forty bytes long. One that does not is
/// taken for a failure that names it.
pub proof fn lemma_only_whole_commits_count(run: SyncRunOf<Seq<char>>, sha: Seq<char>)
    requires
        run.phase == SyncPhase::AskCommit || run.phase == SyncPhase::AskCommitAgain,
    ensures
        ({
            let next = run.after(SyncEventOf::Commit(sha));
            let whole = text::byte_len(sha) == 40;
            &&& whole ==> next.commit == Some(sha) && next.wanted() is ReadLocal
            &&& !whole ==> next == run.after(
                SyncEventOf::Failed("API 返回的 SHA 长度异常: "@ + sha),
            )
            &&& !whole ==> next.commit != Some(sha) || run.commit == Some(sha)
        }),
{
}

/// A default branch without a name is taken for a failure, and one that is the branch asked
/// about before is not asked about again: the failure of that question then counts.
pub proof fn lemma_default_branch_must_be_another(run: SyncRunOf<Seq<char>>)
    requires
        run.phase == SyncPhase::AskDefaultBranch,
    ensures
        run.after(SyncEventOf::DefaultBranch(Seq::empty())) == run.after(
            SyncEventOf::Failed("API 返回的 default_branch 为空"@),
        ),
        run.branch.len() > 0 ==> run.after(SyncEventOf::DefaultBranch(run.branch)) == run.after(
            SyncEventOf::Failed(run.error),
        ),
        forall|b: Seq<char>|
            b.len() > 0 && b != run.branch ==> (#[trigger] run.after(
                SyncEventOf::DefaultBranch(b),
            )).branch == b,
{
}

/// What the user is told on the way: that GitHub could not be asked and why; that the default
/// branch takes the place of the configured one; which commit is used as it is; which
/// repository and branch are fetched; and that this is done.
pub proof fn lemma_sync_tells(run: SyncRunOf<Seq<char>>, x: Seq<char>, b: Seq<char>)
    ensures
        run.phase == SyncPhase::AskDefaultBranch || run.phase == SyncPhase::AskCommitAgain
            ==> run.after(SyncEventOf::Failed(x)).note == Some(
            "GitHub API 查询失败（"@ + x + "），回退为直接重新下载"@,
        ),
        run.phase == SyncPhase::AskDefaultBranch && b.len() > 0 && b != run.branch ==> run.after(
            SyncEventOf::DefaultBranch(b),
        ).note == Some("分支 "@ + run.branch + " 查询失败，回退仓库默认分支 "@ + b),
        run.phase == SyncPhase::ReadLocal && run.commit == Some(x) ==> run.after(
            SyncEventOf::Local { last_commit: x, host_started: true, repo_exists: true },
        ).note == Some("版本一致（commit "@ + x + "），复用本地仓库直接启动宿主"@),
        run.phase == SyncPhase::ReadLocal && run.commit is None ==> run.after(
            SyncEventOf::Local { last_commit: x, host_started: true, repo_exists: true },
        ).note == Some(
            "正在同步仓库 "@ + run.owner + "/"@ + run.repo + "（分支 "@ + run.branch + "）..."@,
        ),
        run.phase == SyncPhase::Rebuild ==> run.after(SyncEventOf::Done).note == Some(
            "仓库同步完成"@,
        ),
{
}

/// An address that names no repository is not synced: the failure quotes it, and says whether
/// it is no address of a repository at all, goes on behind the repository, or leaves the name
/// empty.
pub proof fn lemma_unreadable_address_is_quoted(
    style: PathStyle,
    root: Seq<char>,
    url: Seq<char>,
    branch: Seq<char>,
    node_version: Seq<char>,
)
    ensures
        repo_of(url) matches Err(e) ==> sync_start(
            style,
            root,
            url,
            branch,
            node_version,
        ).wanted() == (SyncOpOf::Fail {
            error: match e {
                RepoUrlError::NotARepository => "无法解析 GitHub 仓库地址: "@ + url
                    + "（期望 https://github.com/{owner}/{repo}.git）"@,
                RepoUrlError::ExtraSegments => "仓库地址包含多余路径段: "@ + url,
                RepoUrlError::EmptyName => "仓库名为空: "@ + url,
            },
        }),
{
}

/// What goes wrong with the file that holds the state is told with its path.
pub proof fn lemma_state_file(path: Seq<char>, write: StateWrite)
    ensures
        write is Written <==> state_failure(path, write) is None,
        write matches StateWrite::NotWritten { error } ==> state_failure(path, write) == Some(
            "写入 "@ + path + " 失败: "@ + error@,
        ),
        write matches StateWrite::NotSerialized { error } ==> state_failure(path, write) == Some(
            "序列化 state.json 失败: "@ + error@,
        ),
{
}

/// Which addresses are refused, and how: those of another site, or without an owner or a name;
/// those that go on behind the name; those whose name is nothing but suffixes. What is left of
/// an address that is read is its site, its owner, and a name that may have lost its suffixes.
pub proof fn lemma_refused_addresses(url: Seq<char>)
    ensures
        ({
            let bare = text::strip_prefixes(
                text::strip_prefixes(text::trim(url), "https://"@),
                "http://"@,
            );
            let parts = text::words(bare, Separator::Slash);
            let here = parts.len() >= 3 && parts[0] == "github.com"@;
            match repo_of(url) {
                Ok(info) => {
                    &&& here
                    &&& parts.len() == 3
                    &&& parts[1] == info.owner
                    &&& info.repo.is_prefix_of(parts[2])
                    &&& info.repo.len() > 0
                    &&& !".git"@.is_suffix_of(info.repo)
                },
                Err(RepoUrlError::NotARepository) => !here,
                Err(RepoUrlError::ExtraSegments) => here && parts.len() > 3,
                Err(RepoUrlError::EmptyName) => here && parts.len() == 3 && text::strip_suffixes(
                    parts[2],
                    ".git"@,
                ).len() == 0,
            }
        }),
{
    reveal_strlit(".git");
    let parts = text::words(without_scheme(url), Separator::Slash);
    if parts.len() == 3 {
        text::lemma_strip_suffixes(parts[2], ".git"@);
    }
}

/// The three addresses at GitHub go by the owner, the repository and the branch.
pub proof fn lemma_addresses_at_github(info: RepoView, branch: Seq<char>)
    ensures
        commits_url(info, branch) == "https://api.github.com/repos/"@ + info.owner + "/"@
            + info.repo + "/commits/"@ + branch,
        zip_url(info, branch) == "https://codeload.github.com/"@ + info.owner + "/"@ + info.repo
            + "/zip/refs/heads/"@ + branch,
        detail_url(info) == "https://api.github.com/repos/"@ + info.owner + "/"@ + info.repo,
        detail_url(info).is_prefix_of(commits_url(info, branch)),
{
    let d = detail_url(info);
    let c = commits_url(info, branch);
    assert(d =~= c.subrange(0, d.len() as int));
}

/// What is remembered is what was read; where nothing could be read, it is as if nothing had
/// been synced yet: no commit, no version, no host.
pub proof fn lemma_remembered_state(read: StateRead)
    ensures
        read matches StateRead::Read(s) ==> state_found(read) == s@,
        !(read is Read) ==> {
            let s = state_found(read);
            s.last_commit.len() == 0 && s.node_version.len() == 0 && !s.host_started
        },
{
}

/// The state is kept in the file `state.json` right in the working directory.
pub proof fn lemma_state_in_workspace(style: PathStyle, workspace_root: Seq<char>)
    requires
        path::is_settled(style, workspace_root),
    ensures
        path::is_below(
            style,
            workspace_root,
            seq!["state.json"@],
            state_file(style, workspace_root),
        ),
{
    assert(path::is_one_piece(style, "state.json"@) && "state.json"@.len() > 2
        && "state.json"@[1] != ':') by {
        reveal_strlit("state.json");
    }
    path::lemma_long_name(style, "state.json"@);
    path::lemma_join_plain(style, workspace_root, "state.json"@);
}

} // verus!
