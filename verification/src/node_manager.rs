//! Providing Node.js, and pnpm where a version of it is asked for: which distribution fits the
//! machine, where its programs lie, and how either is fetched when it is missing.

use vstd::prelude::*;
use vstd::string::*;

use crate::path;
use crate::path::{join_path, join_path2, PathStyle};
use crate::text;
use crate::text::{cat2, cat3, cat4, cat5, cat6, copy_opt, copy_text, same, trim_text};

verus! {

broadcast use vstd::string::group_string_axioms;

// ---------------------------------------------------------------------------
// Distributions
// ---------------------------------------------------------------------------

/// What nodejs.org calls an operating system; none for one that it does not serve.
pub open spec fn platform_of(os: Seq<char>) -> Option<Seq<char>> {
    if os == "windows"@ {
        Some("win"@)
    } else if os == "macos"@ {
        Some("darwin"@)
    } else if os == "linux"@ {
        Some("linux"@)
    } else {
        None
    }
}

/// What nodejs.org calls a processor architecture; none for one that it does not serve.
pub open spec fn arch_of(arch: Seq<char>) -> Option<Seq<char>> {
    if arch == "x86_64"@ {
        Some("x64"@)
    } else if arch == "aarch64"@ {
        Some("arm64"@)
    } else {
        None
    }
}

/// The name of a distribution and of the directory that it unpacks to, or why there is
/// none; an operating system that is not served is noticed first.
pub open spec fn dist_name(
    version: Seq<char>,
    os: Seq<char>,
    arch: Seq<char>,
) -> Result<Seq<char>, Seq<char>> {
    match platform_of(os) {
        None => Err("不支持的操作系统: "@ + os),
        Some(p) => match arch_of(arch) {
            None => Err("不支持的 CPU 架构: "@ + arch),
            Some(a) => Ok("node-v"@ + version + "-"@ + p + "-"@ + a),
        },
    }
}

/// The address of a distribution named `name`.
pub open spec fn dist_url(mirror: Seq<char>, version: Seq<char>, name: Seq<char>) -> Seq<char> {
    mirror + "/v"@ + version + "/"@ + name + ".zip"@
}

/// What nodejs.org calls the operating system `os`.
pub fn detect_platform(os: &str) -> (r: Result<&'static str, String>)
    ensures
        match r {
            Ok(p) => platform_of(os@) == Some(p@),
            Err(e) => platform_of(os@) is None && e@ == "不支持的操作系统: "@ + os@,
        },
{
    if same(os, "windows") {
        Ok("win")
    } else if same(os, "macos") {
        Ok("darwin")
    } else if same(os, "linux") {
        Ok("linux")
    } else {
        Err(cat2("不支持的操作系统: ", os))
    }
}

/// What nodejs.org calls the processor architecture `arch`.
pub fn detect_arch(arch: &str) -> (r: Result<&'static str, String>)
    ensures
        match r {
            Ok(a) => arch_of(arch@) == Some(a@),
            Err(e) => arch_of(arch@) is None && e@ == "不支持的 CPU 架构: "@ + arch@,
        },
{
    if same(arch, "x86_64") {
        Ok("x64")
    } else if same(arch, "aarch64") {
        Ok("arm64")
    } else {
        Err(cat2("不支持的 CPU 架构: ", arch))
    }
}

/// The name of the distribution of a version for a machine.
pub fn dist_dir_name(version: &str, os: &str, arch: &str) -> (r: Result<String, String>)
    ensures
        match r {
            Ok(n) => dist_name(version@, os@, arch@) == Ok::<Seq<char>, Seq<char>>(n@),
            Err(e) => dist_name(version@, os@, arch@) == Err::<Seq<char>, Seq<char>>(e@),
        },
{
    match detect_platform(os) {
        Err(e) => Err(e),
        Ok(p) => match detect_arch(arch) {
            Err(e) => Err(e),
            Ok(a) => Ok(cat6("node-v", version, "-", p, "-", a)),
        },
    }
}

/// The address of the distribution of a version for a machine, where `mirror` offers the
/// distributions.
pub fn dist_download_url(mirror: &str, version: &str, os: &str, arch: &str) -> (r: Result<
    String,
    String,
>)
    ensures
        match (r, dist_name(version@, os@, arch@)) {
            (Ok(u), Ok(n)) => u@ == dist_url(mirror@, version@, n),
            (Err(e), Err(x)) => e@ == x,
            _ => false,
        },
{
    match dist_dir_name(version, os, arch) {
        Ok(n) => Ok(cat6(mirror, "/v", version, "/", n.as_str(), ".zip")),
        Err(e) => Err(e),
    }
}

/// The paths of the programs of a distribution; `T` is `String` in the program and
/// `Seq<char>` in contracts.
#[derive(Debug, Clone, PartialEq)]
pub struct NodePathsOf<T> {
    /// The program `node`.
    pub node: T,
    /// The program `npm`.
    pub npm: T,
    /// The directory that they lie in.
    pub bin_dir: T,
}

/// The paths of the programs of a distribution.
pub type NodePaths = NodePathsOf<String>;

impl View for NodePathsOf<String> {
    type V = NodePathsOf<Seq<char>>;

    open spec fn view(&self) -> NodePathsOf<Seq<char>> {
        NodePathsOf {
            node: self.node@,
            npm: self.npm@,
            bin_dir: self.bin_dir@,
        }
    }
}

/// Where the programs of the distribution in `dir` lie: in the directory itself on Windows,
/// in `bin` elsewhere.
pub open spec fn programs(style: PathStyle, dir: Seq<char>) -> NodePathsOf<Seq<char>> {
    match style {
        PathStyle::Windows => NodePathsOf {
            node: path::join(style, dir, "node.exe"@),
            npm: path::join(style, dir, "npm.cmd"@),
            bin_dir: dir,
        },
        PathStyle::Unix => NodePathsOf {
            node: path::join(style, dir, "bin/node"@),
            npm: path::join(style, dir, "bin/npm"@),
            bin_dir: path::join(style, dir, "bin"@),
        },
    }
}

/// Where the programs of the distribution in `dir` lie.
pub fn executable_paths(style: PathStyle, dir: &str) -> (r: NodePaths)
    ensures
        r@ == programs(style, dir@),
{
    match style {
        PathStyle::Windows => NodePathsOf {
            node: join_path(style, dir, "node.exe"),
            npm: join_path(style, dir, "npm.cmd"),
            bin_dir: copy_text(dir),
        },
        PathStyle::Unix => NodePathsOf {
            node: join_path(style, dir, "bin/node"),
            npm: join_path(style, dir, "bin/npm"),
            bin_dir: join_path(style, dir, "bin"),
        },
    }
}

/// Copies the paths of the programs.
pub fn copy_paths(p: &NodePaths) -> (r: NodePaths)
    ensures
        r@ == p@,
{
    NodePathsOf {
        node: copy_text(p.node.as_str()),
        npm: copy_text(p.npm.as_str()),
        bin_dir: copy_text(p.bin_dir.as_str()),
    }
}

// ---------------------------------------------------------------------------
// Node.js
// ---------------------------------------------------------------------------

/// Where providing Node.js stands.
#[derive(Clone, Copy, PartialEq, Eq, Structural, Debug)]
pub enum NodePhase {
    /// The programs are looked for.
    Look,
    /// They are missing; the directory for distributions is made.
    MakeRoot,
    /// The distribution is downloaded.
    Download,
    /// It is extracted.
    Extract,
    /// The archive is removed.
    RemoveZip,
    /// The programs are looked for again.
    LookAgain,
    /// Over: the programs are there.
    Ready,
    /// Over, with an error.
    Failed,
}

/// Providing Node.js; `T` is `String` in the program and `Seq<char>` in contracts.
#[derive(Debug, PartialEq)]
pub struct NodeRunOf<T> {
    /// The version that is asked for.
    pub version: T,
    /// Address of the distribution.
    pub url: T,
    /// The directory for distributions.
    pub root: T,
    /// Path of the archive.
    pub zip_path: T,
    /// The programs.
    pub paths: NodePathsOf<T>,
    /// What to tell the user about the operation that comes next.
    pub note: Option<T>,
    /// What went wrong.
    pub error: T,
    /// Where it stands.
    pub phase: NodePhase,
}

/// Providing Node.js.
pub type NodeRun = NodeRunOf<String>;

/// What an operation came to.
#[derive(Debug, PartialEq)]
pub enum NodeEventOf<T> {
    /// Whether `node` and `npm` are there.
    Present { node: bool, npm: bool },
    /// The operation succeeded.
    Done,
    /// The operation failed.
    Failed(T),
}

/// What an operation came to.
pub type NodeEvent = NodeEventOf<String>;

/// What is wanted next.
#[derive(Debug, PartialEq)]
pub enum NodeOpOf<T> {
    /// Look whether the two programs exist.
    Look { node: T, npm: T },
    /// Make the directory `dir` and those that it lies in, as far as they are missing.
    MakeDir { dir: T },
    /// Download `url` to the file `dest`.
    Download { url: T, dest: T },
    /// Extract the archive `zip` into `dir`.
    Extract { zip: T, dir: T },
    /// Remove the file `path`, whether or not that succeeds.
    RemoveFile { path: T },
    /// Nothing more: these are the programs.
    Finish { paths: NodePathsOf<T> },
    /// Nothing more: it failed.
    Fail { error: T },
}

/// What is wanted next.
pub type NodeOp = NodeOpOf<String>;

impl View for NodeRunOf<String> {
    type V = NodeRunOf<Seq<char>>;

    open spec fn view(&self) -> NodeRunOf<Seq<char>> {
        NodeRunOf {
            version: self.version@,
            url: self.url@,
            root: self.root@,
            zip_path: self.zip_path@,
            paths: self.paths@,
            note: text::opt_text(self.note),
            error: self.error@,
            phase: self.phase,
        }
    }
}

impl View for NodeEventOf<String> {
    type V = NodeEventOf<Seq<char>>;

    open spec fn view(&self) -> NodeEventOf<Seq<char>> {
        match *self {
            NodeEventOf::Present { node, npm } => NodeEventOf::Present { node, npm },
            NodeEventOf::Done => NodeEventOf::Done,
            NodeEventOf::Failed(x) => NodeEventOf::Failed(x@),
        }
    }
}

impl View for NodeOpOf<String> {
    type V = NodeOpOf<Seq<char>>;

    open spec fn view(&self) -> NodeOpOf<Seq<char>> {
        match *self {
            NodeOpOf::Look { node, npm } => NodeOpOf::Look { node: node@, npm: npm@ },
            NodeOpOf::MakeDir { dir } => NodeOpOf::MakeDir { dir: dir@ },
            NodeOpOf::Download { url, dest } => NodeOpOf::Download {
                url: url@,
                dest: dest@,
            },
            NodeOpOf::Extract { zip, dir } => NodeOpOf::Extract { zip: zip@, dir: dir@ },
            NodeOpOf::RemoveFile { path } => NodeOpOf::RemoveFile { path: path@ },
            NodeOpOf::Finish { paths } => NodeOpOf::Finish { paths: paths@ },
            NodeOpOf::Fail { error } => NodeOpOf::Fail { error: error@ },
        }
    }
}

impl NodeRunOf<Seq<char>> {
    /// On to another phase, with nothing to tell.
    pub open spec fn to(self, phase: NodePhase) -> Self {
        NodeRunOf { note: None, phase, ..self }
    }

    /// On to another phase, with something to tell.
    pub open spec fn tell(self, note: Seq<char>, phase: NodePhase) -> Self {
        NodeRunOf { note: Some(note), phase, ..self }
    }

    /// It failed.
    pub open spec fn fail(self, error: Seq<char>) -> Self {
        NodeRunOf { note: None, error, phase: NodePhase::Failed, ..self }
    }

    /// What follows an event. An event that does not answer what was wanted changes
    /// nothing.
    pub open spec fn after(self, e: NodeEventOf<Seq<char>>) -> Self {
        match (self.phase, e) {
            (NodePhase::Look, NodeEventOf::Present { node, npm }) => if node && npm {
                self.tell("Node v"@ + self.version + " 已就绪，跳过下载"@, NodePhase::Ready)
            } else {
                self.to(NodePhase::MakeRoot)
            },
            (NodePhase::MakeRoot, NodeEventOf::Done) => self.tell(
                "正在下载 Node v"@ + self.version + "（"@ + self.url + "）..."@,
                NodePhase::Download,
            ),
            (NodePhase::MakeRoot, NodeEventOf::Failed(x)) => self.fail(
                "创建目录 "@ + self.root + " 失败: "@ + x,
            ),
            (NodePhase::Download, NodeEventOf::Done) => self.tell(
                "正在解压 Node ..."@,
                NodePhase::Extract,
            ),
            (NodePhase::Download, NodeEventOf::Failed(x)) => self.fail(x),
            (NodePhase::Extract, NodeEventOf::Done) => self.to(NodePhase::RemoveZip),
            (NodePhase::Extract, NodeEventOf::Failed(x)) => self.fail(x),
            (NodePhase::RemoveZip, NodeEventOf::Done) => self.to(NodePhase::LookAgain),
            (NodePhase::RemoveZip, NodeEventOf::Failed(_)) => self.to(NodePhase::LookAgain),
            (NodePhase::LookAgain, NodeEventOf::Present { node, npm }) => if !node {
                self.fail("Node 解压完成但未找到 node 可执行文件: "@ + self.paths.node)
            } else if !npm {
                self.fail("Node 解压完成但未找到 npm 入口: "@ + self.paths.npm)
            } else {
                self.tell("Node v"@ + self.version + " 就绪"@, NodePhase::Ready)
            },
            _ => self,
        }
    }

    /// What is wanted next.
    pub open spec fn wanted(self) -> NodeOpOf<Seq<char>> {
        match self.phase {
            NodePhase::Look => NodeOpOf::Look { node: self.paths.node, npm: self.paths.npm },
            NodePhase::MakeRoot => NodeOpOf::MakeDir { dir: self.root },
            NodePhase::Download => NodeOpOf::Download {
                url: self.url,
                dest: self.zip_path,
            },
            NodePhase::Extract => NodeOpOf::Extract { zip: self.zip_path, dir: self.root },
            NodePhase::RemoveZip => NodeOpOf::RemoveFile { path: self.zip_path },
            NodePhase::LookAgain => NodeOpOf::Look { node: self.paths.node, npm: self.paths.npm },
            NodePhase::Ready => NodeOpOf::Finish { paths: self.paths },
            NodePhase::Failed => NodeOpOf::Fail { error: self.error },
        }
    }
}

/// How providing Node.js starts: with a look for the programs, or with a failure where
/// there is no distribution for the machine.
pub open spec fn node_start(
    style: PathStyle,
    workspace_root: Seq<char>,
    mirror: Seq<char>,
    version: Seq<char>,
    os: Seq<char>,
    arch: Seq<char>,
) -> NodeRunOf<Seq<char>> {
    let root = path::join(style, workspace_root, "node"@);
    match dist_name(version, os, arch) {
        Ok(name) => NodeRunOf {
            version,
            url: dist_url(mirror, version, name),
            root,
            zip_path: path::join(style, root, name + ".zip"@),
            paths: programs(style, path::join(style, root, name)),
            note: None,
            error: Seq::empty(),
            phase: NodePhase::Look,
        },
        Err(e) => NodeRunOf {
            version,
            url: Seq::empty(),
            root,
            zip_path: Seq::empty(),
            paths: NodePathsOf {
                node: Seq::empty(),
                npm: Seq::empty(),
                bin_dir: Seq::empty(),
            },
            note: None,
            error: e,
            phase: NodePhase::Failed,
        },
    }
}

/// Starts to provide a version of Node.js in `workspace_root`.
pub fn ensure_node(
    style: PathStyle,
    workspace_root: &str,
    mirror: &str,
    version: &str,
    os: &str,
    arch: &str,
) -> (r: NodeRun)
    ensures
        r@ == node_start(style, workspace_root@, mirror@, version@, os@, arch@),
{
    let root = join_path(style, workspace_root, "node");
    match dist_dir_name(version, os, arch) {
        Ok(name) => {
            let url = cat6(mirror, "/v", version, "/", name.as_str(), ".zip");
            let zip_name = cat2(name.as_str(), ".zip");
            let zip_path = join_path(style, root.as_str(), zip_name.as_str());
            let dir = join_path(style, root.as_str(), name.as_str());
            NodeRunOf {
                version: copy_text(version),
                url,
                root,
                zip_path,
                paths: executable_paths(style, dir.as_str()),
                note: None,
                error: String::new(),
                phase: NodePhase::Look,
            }
        },
        Err(e) => NodeRunOf {
            version: copy_text(version),
            url: String::new(),
            root,
            zip_path: String::new(),
            paths: NodePathsOf {
                node: String::new(),
                npm: String::new(),
                bin_dir: String::new(),
            },
            note: None,
            error: e,
            phase: NodePhase::Failed,
        },
    }
}

impl NodeRunOf<String> {
    /// What to tell the user about the operation that comes next.
    pub fn status(&self) -> (r: Option<String>)
        ensures
            text::opt_text(r) == self@.note,
    {
        copy_opt(&self.note)
    }

    /// What is wanted next.
    pub fn action(&self) -> (r: NodeOp)
        ensures
            r@ == self@.wanted(),
    {
        match self.phase {
            NodePhase::Look | NodePhase::LookAgain => NodeOpOf::Look {
                node: copy_text(self.paths.node.as_str()),
                npm: copy_text(self.paths.npm.as_str()),
            },
            NodePhase::MakeRoot => NodeOpOf::MakeDir { dir: copy_text(self.root.as_str()) },
            NodePhase::Download => NodeOpOf::Download {
                url: copy_text(self.url.as_str()),
                dest: copy_text(self.zip_path.as_str()),
            },
            NodePhase::Extract => NodeOpOf::Extract {
                zip: copy_text(self.zip_path.as_str()),
                dir: copy_text(self.root.as_str()),
            },
            NodePhase::RemoveZip => NodeOpOf::RemoveFile {
                path: copy_text(self.zip_path.as_str()),
            },
            NodePhase::Ready => NodeOpOf::Finish { paths: copy_paths(&self.paths) },
            NodePhase::Failed => NodeOpOf::Fail { error: copy_text(self.error.as_str()) },
        }
    }

    fn set_phase(&mut self, note: Option<String>, phase: NodePhase)
        ensures
            final(self)@ == (NodeRunOf { note: text::opt_text(note), phase, ..old(self)@ }),
    {
        self.note = note;
        self.phase = phase;
    }

    fn set_failed(&mut self, error: String)
        ensures
            final(self)@ == old(self)@.fail(error@),
    {
        self.note = None;
        self.error = error;
        self.phase = NodePhase::Failed;
    }

    /// Takes note of what the wanted operation came to.
    pub fn advance(&mut self, e: NodeEvent)
        ensures
            final(self)@ == old(self)@.after(e@),
    {
        match (self.phase, e) {
            (NodePhase::Look, NodeEventOf::Present { node, npm }) => {
                if node && npm {
                    let m = cat3("Node v", self.version.as_str(), " 已就绪，跳过下载");
                    self.set_phase(Some(m), NodePhase::Ready);
                } else {
                    self.set_phase(None, NodePhase::MakeRoot);
                }
            },
            (NodePhase::MakeRoot, NodeEventOf::Done) => {
                let m = cat5(
                    "正在下载 Node v",
                    self.version.as_str(),
                    "（",
                    self.url.as_str(),
                    "）...",
                );
                self.set_phase(Some(m), NodePhase::Download);
            },
            (NodePhase::MakeRoot, NodeEventOf::Failed(x)) => {
                let m = cat4("创建目录 ", self.root.as_str(), " 失败: ", x.as_str());
                self.set_failed(m);
            },
            (NodePhase::Download, NodeEventOf::Done) => {
                self.set_phase(Some(copy_text("正在解压 Node ...")), NodePhase::Extract);
            },
            (NodePhase::Download, NodeEventOf::Failed(x)) => self.set_failed(x),
            (NodePhase::Extract, NodeEventOf::Done) => {
                self.set_phase(None, NodePhase::RemoveZip);
            },
            (NodePhase::Extract, NodeEventOf::Failed(x)) => self.set_failed(x),
            (NodePhase::RemoveZip, NodeEventOf::Done) => {
                self.set_phase(None, NodePhase::LookAgain);
            },
            (NodePhase::RemoveZip, NodeEventOf::Failed(_)) => {
                self.set_phase(None, NodePhase::LookAgain);
            },
            (NodePhase::LookAgain, NodeEventOf::Present { node, npm }) => {
                if !node {
                    let m = cat2(
                        "Node 解压完成但未找到 node 可执行文件: ",
                        self.paths.node.as_str(),
                    );
                    self.set_failed(m);
                } else if !npm {
                    let m = cat2("Node 解压完成但未找到 npm 入口: ", self.paths.npm.as_str());
                    self.set_failed(m);
                } else {
                    let m = cat3("Node v", self.version.as_str(), " 就绪");
                    self.set_phase(Some(m), NodePhase::Ready);
                }
            },
            _ => {},
        }
    }
}

// ---------------------------------------------------------------------------
// pnpm
// ---------------------------------------------------------------------------

/// The address of a version of pnpm.
pub open spec fn pnpm_url(version: Seq<char>) -> Seq<char> {
    "https://registry.npmjs.org/pnpm/-/pnpm-"@ + version + ".tgz"@
}

/// The entry script of a version of pnpm in the working directory.
pub open spec fn pnpm_entry(
    style: PathStyle,
    workspace_root: Seq<char>,
    version: Seq<char>,
) -> Seq<char> {
    path::join2(
        style,
        path::join2(style, workspace_root, "pnpm"@, "pnpm-"@ + version),
        "bin"@,
        "pnpm.cjs"@,
    )
}

/// The address of a version of pnpm.
pub fn pnpm_tgz_url(version: &str) -> (r: String)
    ensures
        r@ == pnpm_url(version@),
{
    cat3("https://registry.npmjs.org/pnpm/-/pnpm-", version, ".tgz")
}

/// The entry script of a version of pnpm in `workspace_root`.
pub fn pnpm_entry_path(style: PathStyle, workspace_root: &str, version: &str) -> (r: String)
    ensures
        r@ == pnpm_entry(style, workspace_root@, version@),
{
    let dir = join_path2(style, workspace_root, "pnpm", cat2("pnpm-", version).as_str());
    join_path2(style, dir.as_str(), "bin", "pnpm.cjs")
}

/// Where providing pnpm stands.
#[derive(Clone, Copy, PartialEq, Eq, Structural, Debug)]
pub enum PnpmPhase {
    /// The entry script is looked for.
    Look,
    /// It is missing; the directory for versions of pnpm is made.
    MakeRoot,
    /// The package is downloaded.
    Download,
    /// An empty directory for the unpacked files is made.
    PrepareStaging,
    /// The package is unpacked.
    Unpack,
    /// The entry script is looked for among the unpacked files.
    LookInPackage,
    /// What stands in the way of the unpacked files is removed.
    RemoveOld,
    /// The unpacked files take its place.
    Install,
    /// The package and the directory for the unpacked files are removed.
    CleanUp,
    /// Over: pnpm is there.
    Ready,
    /// Over: no version was asked for.
    NotAsked,
    /// Over, with an error.
    Failed,
}

/// Providing pnpm; `T` is `String` in the program and `Seq<char>` in contracts.
#[derive(Debug, PartialEq)]
pub struct PnpmRunOf<T> {
    /// The version that is asked for.
    pub version: T,
    /// Address of the package.
    pub url: T,
    /// The directory for versions of pnpm.
    pub root: T,
    /// Path of the package.
    pub tgz_path: T,
    /// The directory for the unpacked files.
    pub staging: T,
    /// The package among the unpacked files.
    pub package: T,
    /// The entry script among the unpacked files.
    pub entry_in_package: T,
    /// The directory of this version.
    pub target: T,
    /// The entry script of this version.
    pub entry: T,
    /// What to tell the user about the operation that comes next.
    pub note: Option<T>,
    /// What went wrong.
    pub error: T,
    /// Where it stands.
    pub phase: PnpmPhase,
}

/// Providing pnpm.
pub type PnpmRun = PnpmRunOf<String>;

/// What an operation came to.
#[derive(Debug, PartialEq)]
pub enum PnpmEventOf<T> {
    /// Whether the file is there.
    Present { file: bool },
    /// The operation succeeded.
    Done,
    /// The operation failed.
    Failed(T),
}

/// What an operation came to.
pub type PnpmEvent = PnpmEventOf<String>;

/// What is wanted next.
#[derive(Debug, PartialEq)]
pub enum PnpmOpOf<T> {
    /// Look whether `path` is a file.
    Look { path: T },
    /// Make the directory `dir` and those that it lies in, as far as they are missing.
    MakeDir { dir: T },
    /// Download `url` to the file `dest`.
    Download { url: T, dest: T },
    /// Remove `dir`, whether or not that succeeds, and make it anew.
    PrepareStaging { dir: T },
    /// Unpack `tgz` into `dir`.
    Unpack { tgz: T, dir: T },
    /// Remove the directory `dir`, whether or not that succeeds.
    RemoveTree { dir: T },
    /// Rename a directory.
    Rename { from: T, to: T },
    /// Remove the file `tgz` and the directory `dir`, whether or not that succeeds.
    CleanUp { tgz: T, dir: T },
    /// Nothing more: this is the entry script, if a version was asked for.
    Finish { entry: Option<T> },
    /// Nothing more: it failed.
    Fail { error: T },
}

/// What is wanted next.
pub type PnpmOp = PnpmOpOf<String>;

impl View for PnpmRunOf<String> {
    type V = PnpmRunOf<Seq<char>>;

    open spec fn view(&self) -> PnpmRunOf<Seq<char>> {
        PnpmRunOf {
            version: self.version@,
            url: self.url@,
            root: self.root@,
            tgz_path: self.tgz_path@,
            staging: self.staging@,
            package: self.package@,
            entry_in_package: self.entry_in_package@,
            target: self.target@,
            entry: self.entry@,
            note: text::opt_text(self.note),
            error: self.error@,
            phase: self.phase,
        }
    }
}

impl View for PnpmEventOf<String> {
    type V = PnpmEventOf<Seq<char>>;

    open spec fn view(&self) -> PnpmEventOf<Seq<char>> {
        match *self {
            PnpmEventOf::Present { file } => PnpmEventOf::Present { file },
            PnpmEventOf::Done => PnpmEventOf::Done,
            PnpmEventOf::Failed(x) => PnpmEventOf::Failed(x@),
        }
    }
}

impl View for PnpmOpOf<String> {
    type V = PnpmOpOf<Seq<char>>;

    open spec fn view(&self) -> PnpmOpOf<Seq<char>> {
        match *self {
            PnpmOpOf::Look { path } => PnpmOpOf::Look { path: path@ },
            PnpmOpOf::MakeDir { dir } => PnpmOpOf::MakeDir { dir: dir@ },
            PnpmOpOf::Download { url, dest } => PnpmOpOf::Download {
                url: url@,
                dest: dest@,
            },
            PnpmOpOf::PrepareStaging { dir } => PnpmOpOf::PrepareStaging { dir: dir@ },
            PnpmOpOf::Unpack { tgz, dir } => PnpmOpOf::Unpack { tgz: tgz@, dir: dir@ },
            PnpmOpOf::RemoveTree { dir } => PnpmOpOf::RemoveTree { dir: dir@ },
            PnpmOpOf::Rename { from, to } => PnpmOpOf::Rename { from: from@, to: to@ },
            PnpmOpOf::CleanUp { tgz, dir } => PnpmOpOf::CleanUp { tgz: tgz@, dir: dir@ },
            PnpmOpOf::Finish { entry } => PnpmOpOf::Finish { entry: text::opt_text(entry) },
            PnpmOpOf::Fail { error } => PnpmOpOf::Fail { error: error@ },
        }
    }
}

impl PnpmRunOf<Seq<char>> {
    /// On to another phase, with nothing to tell.
    pub open spec fn to(self, phase: PnpmPhase) -> Self {
        PnpmRunOf { note: None, phase, ..self }
    }

    /// On to another phase, with something to tell.
    pub open spec fn tell(self, note: Seq<char>, phase: PnpmPhase) -> Self {
        PnpmRunOf { note: Some(note), phase, ..self }
    }

    /// It failed.
    pub open spec fn fail(self, error: Seq<char>) -> Self {
        PnpmRunOf { note: None, error, phase: PnpmPhase::Failed, ..self }
    }

    /// What follows an event. An event that does not answer what was wanted changes
    /// nothing.
    pub open spec fn after(self, e: PnpmEventOf<Seq<char>>) -> Self {
        match (self.phase, e) {
            (PnpmPhase::Look, PnpmEventOf::Present { file }) => if file {
                self.tell("pnpm v"@ + self.version + " 已就绪，跳过下载"@, PnpmPhase::Ready)
            } else {
                self.to(PnpmPhase::MakeRoot)
            },
            (PnpmPhase::MakeRoot, PnpmEventOf::Done) => self.tell(
                "正在下载 pnpm v"@ + self.version + "（"@ + self.url + "）..."@,
                PnpmPhase::Download,
            ),
            (PnpmPhase::MakeRoot, PnpmEventOf::Failed(x)) => self.fail(
                "创建目录 "@ + self.root + " 失败: "@ + x,
            ),
            (PnpmPhase::Download, PnpmEventOf::Done) => self.tell(
                "正在解压 pnpm v"@ + self.version + " ..."@,
                PnpmPhase::PrepareStaging,
            ),
            (PnpmPhase::Download, PnpmEventOf::Failed(x)) => self.fail(x),
            (PnpmPhase::PrepareStaging, PnpmEventOf::Done) => self.to(PnpmPhase::Unpack),
            (PnpmPhase::PrepareStaging, PnpmEventOf::Failed(x)) => self.fail(
                "创建临时目录 "@ + self.staging + " 失败: "@ + x,
            ),
            (PnpmPhase::Unpack, PnpmEventOf::Done) => self.to(PnpmPhase::LookInPackage),
            (PnpmPhase::Unpack, PnpmEventOf::Failed(x)) => self.fail(x),
            (PnpmPhase::LookInPackage, PnpmEventOf::Present { file }) => if file {
                self.to(PnpmPhase::RemoveOld)
            } else {
                self.fail(
                    "pnpm v"@ + self.version + " 解压完成但未找到 bin/pnpm.cjs: "@
                        + self.entry_in_package,
                )
            },
            (PnpmPhase::RemoveOld, PnpmEventOf::Done) => self.to(PnpmPhase::Install),
            (PnpmPhase::RemoveOld, PnpmEventOf::Failed(_)) => self.to(PnpmPhase::Install),
            (PnpmPhase::Install, PnpmEventOf::Done) => self.to(PnpmPhase::CleanUp),
            (PnpmPhase::Install, PnpmEventOf::Failed(x)) => self.fail(
                "安装 pnpm v"@ + self.version + " 失败: "@ + x,
            ),
            (PnpmPhase::CleanUp, PnpmEventOf::Done) => self.tell(
                "pnpm v"@ + self.version + " 就绪"@,
                PnpmPhase::Ready,
            ),
            (PnpmPhase::CleanUp, PnpmEventOf::Failed(_)) => self.tell(
                "pnpm v"@ + self.version + " 就绪"@,
                PnpmPhase::Ready,
            ),
            _ => self,
        }
    }

    /// What is wanted next.
    pub open spec fn wanted(self) -> PnpmOpOf<Seq<char>> {
        match self.phase {
            PnpmPhase::Look => PnpmOpOf::Look { path: self.entry },
            PnpmPhase::MakeRoot => PnpmOpOf::MakeDir { dir: self.root },
            PnpmPhase::Download => PnpmOpOf::Download {
                url: self.url,
                dest: self.tgz_path,
            },
            PnpmPhase::PrepareStaging => PnpmOpOf::PrepareStaging { dir: self.staging },
            PnpmPhase::Unpack => PnpmOpOf::Unpack { tgz: self.tgz_path, dir: self.staging },
            PnpmPhase::LookInPackage => PnpmOpOf::Look { path: self.entry_in_package },
            PnpmPhase::RemoveOld => PnpmOpOf::RemoveTree { dir: self.target },
            PnpmPhase::Install => PnpmOpOf::Rename { from: self.package, to: self.target },
            PnpmPhase::CleanUp => PnpmOpOf::CleanUp { tgz: self.tgz_path, dir: self.staging },
            PnpmPhase::Ready => PnpmOpOf::Finish { entry: Some(self.entry) },
            PnpmPhase::NotAsked => PnpmOpOf::Finish { entry: None },
            PnpmPhase::Failed => PnpmOpOf::Fail { error: self.error },
        }
    }
}

/// Whether a version of pnpm is asked for: one is named, and its name is not blank.
pub open spec fn pnpm_asked(version: Option<Seq<char>>) -> bool {
    version matches Some(v) && text::trim(v).len() > 0
}

/// How providing pnpm starts: with a look for its entry script, or at its end where no
/// version is asked for.
pub open spec fn pnpm_start(
    style: PathStyle,
    workspace_root: Seq<char>,
    version: Option<Seq<char>>,
) -> PnpmRunOf<Seq<char>> {
    let v = match version {
        Some(v) => v,
        None => Seq::empty(),
    };
    let root = path::join(style, workspace_root, "pnpm"@);
    let staging = path::join(style, root, ".pnpm-"@ + v + ".tmp"@);
    let package = path::join(style, staging, "package"@);
    PnpmRunOf {
        version: v,
        url: pnpm_url(v),
        root,
        tgz_path: path::join(style, root, ".pnpm-"@ + v + ".tgz"@),
        staging,
        package,
        entry_in_package: path::join2(style, package, "bin"@, "pnpm.cjs"@),
        target: path::join(style, root, "pnpm-"@ + v),
        entry: pnpm_entry(style, workspace_root, v),
        note: None,
        error: Seq::empty(),
        phase: if pnpm_asked(version) {
            PnpmPhase::Look
        } else {
            PnpmPhase::NotAsked
        },
    }
}

/// Starts to provide a version of pnpm in `workspace_root`, if one is asked for.
pub fn ensure_pnpm(style: PathStyle, workspace_root: &str, version: Option<&str>) -> (r: PnpmRun)
    ensures
        r@ == pnpm_start(style, workspace_root@, text::opt_str(version)),
{
    let (v, phase): (&str, PnpmPhase) = match version {
        Some(v) => {
            if trim_text(v).is_empty() {
                (v, PnpmPhase::NotAsked)
            } else {
                (v, PnpmPhase::Look)
            }
        },
        None => ("", PnpmPhase::NotAsked),
    };
    proof {
        reveal_strlit("");
        assert(version is None ==> v@ =~= Seq::<char>::empty());
    }
    let root = join_path(style, workspace_root, "pnpm");
    let staging = join_path(style, root.as_str(), cat3(".pnpm-", v, ".tmp").as_str());
    let package = join_path(style, staging.as_str(), "package");
    let tgz_name = cat3(".pnpm-", v, ".tgz");
    PnpmRunOf {
        version: copy_text(v),
        url: pnpm_tgz_url(v),
        tgz_path: join_path(style, root.as_str(), tgz_name.as_str()),
        entry_in_package: join_path2(style, package.as_str(), "bin", "pnpm.cjs"),
        staging,
        package,
        target: join_path(style, root.as_str(), cat2("pnpm-", v).as_str()),
        entry: pnpm_entry_path(style, workspace_root, v),
        root,
        note: None,
        error: String::new(),
        phase,
    }
}

impl PnpmRunOf<String> {
    /// What to tell the user about the operation that comes next.
    pub fn status(&self) -> (r: Option<String>)
        ensures
            text::opt_text(r) == self@.note,
    {
        copy_opt(&self.note)
    }

    /// What is wanted next.
    pub fn action(&self) -> (r: PnpmOp)
        ensures
            r@ == self@.wanted(),
    {
        match self.phase {
            PnpmPhase::Look => PnpmOpOf::Look { path: copy_text(self.entry.as_str()) },
            PnpmPhase::MakeRoot => PnpmOpOf::MakeDir { dir: copy_text(self.root.as_str()) },
            PnpmPhase::Download => PnpmOpOf::Download {
                url: copy_text(self.url.as_str()),
                dest: copy_text(self.tgz_path.as_str()),
            },
            PnpmPhase::PrepareStaging => PnpmOpOf::PrepareStaging {
                dir: copy_text(self.staging.as_str()),
            },
            PnpmPhase::Unpack => PnpmOpOf::Unpack {
                tgz: copy_text(self.tgz_path.as_str()),
                dir: copy_text(self.staging.as_str()),
            },
            PnpmPhase::LookInPackage => PnpmOpOf::Look {
                path: copy_text(self.entry_in_package.as_str()),
            },
            PnpmPhase::RemoveOld => PnpmOpOf::RemoveTree { dir: copy_text(self.target.as_str()) },
            PnpmPhase::Install => PnpmOpOf::Rename {
                from: copy_text(self.package.as_str()),
                to: copy_text(self.target.as_str()),
            },
            PnpmPhase::CleanUp => PnpmOpOf::CleanUp {
                tgz: copy_text(self.tgz_path.as_str()),
                dir: copy_text(self.staging.as_str()),
            },
            PnpmPhase::Ready => PnpmOpOf::Finish { entry: Some(copy_text(self.entry.as_str())) },
            PnpmPhase::NotAsked => PnpmOpOf::Finish { entry: None },
            PnpmPhase::Failed => PnpmOpOf::Fail { error: copy_text(self.error.as_str()) },
        }
    }

    fn set_phase(&mut self, note: Option<String>, phase: PnpmPhase)
        ensures
            final(self)@ == (PnpmRunOf { note: text::opt_text(note), phase, ..old(self)@ }),
    {
        self.note = note;
        self.phase = phase;
    }

    fn set_failed(&mut self, error: String)
        ensures
            final(self)@ == old(self)@.fail(error@),
    {
        self.note = None;
        self.error = error;
        self.phase = PnpmPhase::Failed;
    }

    fn set_ready(&mut self)
        ensures
            final(self)@ == old(self)@.tell(
                "pnpm v"@ + old(self)@.version + " 就绪"@,
                PnpmPhase::Ready,
            ),
    {
        let m = cat3("pnpm v", self.version.as_str(), " 就绪");
        self.set_phase(Some(m), PnpmPhase::Ready);
    }

    /// Takes note of what the wanted operation came to.
    pub fn advance(&mut self, e: PnpmEvent)
        ensures
            final(self)@ == old(self)@.after(e@),
    {
        match (self.phase, e) {
            (PnpmPhase::Look, PnpmEventOf::Present { file }) => {
                if file {
                    let m = cat3("pnpm v", self.version.as_str(), " 已就绪，跳过下载");
                    self.set_phase(Some(m), PnpmPhase::Ready);
                } else {
                    self.set_phase(None, PnpmPhase::MakeRoot);
                }
            },
            (PnpmPhase::MakeRoot, PnpmEventOf::Done) => {
                let m = cat5(
                    "正在下载 pnpm v",
                    self.version.as_str(),
                    "（",
                    self.url.as_str(),
                    "）...",
                );
                self.set_phase(Some(m), PnpmPhase::Download);
            },
            (PnpmPhase::MakeRoot, PnpmEventOf::Failed(x)) => {
                let m = cat4("创建目录 ", self.root.as_str(), " 失败: ", x.as_str());
                self.set_failed(m);
            },
            (PnpmPhase::Download, PnpmEventOf::Done) => {
                let m = cat3("正在解压 pnpm v", self.version.as_str(), " ...");
                self.set_phase(Some(m), PnpmPhase::PrepareStaging);
            },
            (PnpmPhase::Download, PnpmEventOf::Failed(x)) => self.set_failed(x),
            (PnpmPhase::PrepareStaging, PnpmEventOf::Done) => {
                self.set_phase(None, PnpmPhase::Unpack);
            },
            (PnpmPhase::PrepareStaging, PnpmEventOf::Failed(x)) => {
                let m = cat4("创建临时目录 ", self.staging.as_str(), " 失败: ", x.as_str());
                self.set_failed(m);
            },
            (PnpmPhase::Unpack, PnpmEventOf::Done) => {
                self.set_phase(None, PnpmPhase::LookInPackage);
            },
            (PnpmPhase::Unpack, PnpmEventOf::Failed(x)) => self.set_failed(x),
            (PnpmPhase::LookInPackage, PnpmEventOf::Present { file }) => {
                if file {
                    self.set_phase(None, PnpmPhase::RemoveOld);
                } else {
                    let m = cat4(
                        "pnpm v",
                        self.version.as_str(),
                        " 解压完成但未找到 bin/pnpm.cjs: ",
                        self.entry_in_package.as_str(),
                    );
                    self.set_failed(m);
                }
            },
            (PnpmPhase::RemoveOld, PnpmEventOf::Done) => {
                self.set_phase(None, PnpmPhase::Install);
            },
            (PnpmPhase::RemoveOld, PnpmEventOf::Failed(_)) => {
                self.set_phase(None, PnpmPhase::Install);
            },
            (PnpmPhase::Install, PnpmEventOf::Done) => {
                self.set_phase(None, PnpmPhase::CleanUp);
            },
            (PnpmPhase::Install, PnpmEventOf::Failed(x)) => {
                let m = cat4("安装 pnpm v", self.version.as_str(), " 失败: ", x.as_str());
                self.set_failed(m);
            },
            (PnpmPhase::CleanUp, PnpmEventOf::Done) => self.set_ready(),
            (PnpmPhase::CleanUp, PnpmEventOf::Failed(_)) => self.set_ready(),
            _ => {},
        }
    }
}

// ---------------------------------------------------------------------------
// Laws
// ---------------------------------------------------------------------------

/// Everything that providing Node.js can learn from outside.
pub ghost struct NodeWorld {
    pub node_before: bool,
    pub npm_before: bool,
    pub make_root: Result<(), Seq<char>>,
    pub download: Result<(), Seq<char>>,
    pub extract: Result<(), Seq<char>>,
    pub remove_zip: Result<(), Seq<char>>,
    pub node_after: bool,
    pub npm_after: bool,
}

/// The event that an operation with nothing but success or failure comes to.
pub open spec fn node_event(r: Result<(), Seq<char>>) -> NodeEventOf<Seq<char>> {
    match r {
        Ok(_) => NodeEventOf::Done,
        Err(e) => NodeEventOf::Failed(e),
    }
}

impl NodeWorld {
    /// The event that answers the operation of a phase.
    pub open spec fn answer(self, phase: NodePhase) -> NodeEventOf<Seq<char>> {
        match phase {
            NodePhase::Look => NodeEventOf::Present {
                node: self.node_before,
                npm: self.npm_before,
            },
            NodePhase::MakeRoot => node_event(self.make_root),
            NodePhase::Download => node_event(self.download),
            NodePhase::Extract => node_event(self.extract),
            NodePhase::RemoveZip => node_event(self.remove_zip),
            NodePhase::LookAgain => NodeEventOf::Present {
                node: self.node_after,
                npm: self.npm_after,
            },
            _ => NodeEventOf::Done,
        }
    }
}

/// Providing Node.js, after `n` operations.
pub open spec fn node_after(
    run: NodeRunOf<Seq<char>>,
    w: NodeWorld,
    n: nat,
) -> NodeRunOf<Seq<char>>
    decreases n,
{
    if n == 0 {
        run
    } else {
        let before = node_after(run, w, (n - 1) as nat);
        before.after(w.answer(before.phase))
    }
}

/// What providing Node.js comes to: where both programs are there, they are used after that
/// one look and nothing is downloaded; else the distribution is fetched, and it succeeds
/// exactly if everything but removing the archive does and both programs are there then.
/// Whatever happens, the programs are those that were asked for.
#[verifier::rlimit(40)]
pub proof fn lemma_node_outcome(run: NodeRunOf<Seq<char>>, w: NodeWorld)
    requires
        run.phase == NodePhase::Look,
    ensures
        w.node_before && w.npm_before ==> node_after(run, w, 1).wanted() == (NodeOpOf::Finish {
            paths: run.paths,
        }),
        ({
            let end = node_after(run, w, 6);
            &&& end.paths == run.paths
            &&& end.phase == (if w.node_before && w.npm_before {
                NodePhase::Ready
            } else if w.make_root is Ok && w.download is Ok && w.extract is Ok && w.node_after
                && w.npm_after {
                NodePhase::Ready
            } else {
                NodePhase::Failed
            })
        }),
{
    reveal_with_fuel(node_after, 7);
}

/// Once the distribution is extracted, its archive is removed, whatever else happens.
pub proof fn lemma_archive_is_removed(run: NodeRunOf<Seq<char>>, e: NodeEventOf<Seq<char>>)
    ensures
        run.phase == NodePhase::Extract && e is Done ==> run.after(e).wanted() == (
        NodeOpOf::RemoveFile { path: run.zip_path }),
        run.phase != NodePhase::LookAgain && run.after(e).phase == NodePhase::LookAgain
            ==> run.phase == NodePhase::RemoveZip,
{
}

/// Everything that providing pnpm can learn from outside.
pub ghost struct PnpmWorld {
    pub entry_before: bool,
    pub make_root: Result<(), Seq<char>>,
    pub download: Result<(), Seq<char>>,
    pub prepare: Result<(), Seq<char>>,
    pub unpack: Result<(), Seq<char>>,
    pub entry_in_package: bool,
    pub remove_old: Result<(), Seq<char>>,
    pub install: Result<(), Seq<char>>,
    pub clean_up: Result<(), Seq<char>>,
}

/// The event that an operation with nothing but success or failure comes to.
pub open spec fn pnpm_event(r: Result<(), Seq<char>>) -> PnpmEventOf<Seq<char>> {
    match r {
        Ok(_) => PnpmEventOf::Done,
        Err(e) => PnpmEventOf::Failed(e),
    }
}

impl PnpmWorld {
    /// The event that answers the operation of a phase.
    pub open spec fn answer(self, phase: PnpmPhase) -> PnpmEventOf<Seq<char>> {
        match phase {
            PnpmPhase::Look => PnpmEventOf::Present { file: self.entry_before },
            PnpmPhase::MakeRoot => pnpm_event(self.make_root),
            PnpmPhase::Download => pnpm_event(self.download),
            PnpmPhase::PrepareStaging => pnpm_event(self.prepare),
            PnpmPhase::Unpack => pnpm_event(self.unpack),
            PnpmPhase::LookInPackage => PnpmEventOf::Present { file: self.entry_in_package },
            PnpmPhase::RemoveOld => pnpm_event(self.remove_old),
            PnpmPhase::Install => pnpm_event(self.install),
            PnpmPhase::CleanUp => pnpm_event(self.clean_up),
            _ => PnpmEventOf::Done,
        }
    }
}

/// Providing pnpm, after `n` operations.
pub open spec fn pnpm_after(
    run: PnpmRunOf<Seq<char>>,
    w: PnpmWorld,
    n: nat,
) -> PnpmRunOf<Seq<char>>
    decreases n,
{
    if n == 0 {
        run
    } else {
        let before = pnpm_after(run, w, (n - 1) as nat);
        before.after(w.answer(before.phase))
    }
}

/// What providing pnpm comes to: where no version is asked for, nothing is done; where the
/// entry script is there, it is used after that one look and nothing is downloaded; else
/// the package is fetched, and it succeeds exactly if everything but the removals does.
#[verifier::rlimit(40)]
pub proof fn lemma_pnpm_outcome(
    style: PathStyle,
    workspace_root: Seq<char>,
    version: Option<Seq<char>>,
    w: PnpmWorld,
)
    ensures
        ({
            let run = pnpm_start(style, workspace_root, version);
            let end = pnpm_after(run, w, 9);
            let fetched = w.make_root is Ok && w.download is Ok && w.prepare is Ok && w.unpack is Ok
                && w.entry_in_package && w.install is Ok;
            &&& !pnpm_asked(version) ==> run.wanted() == (PnpmOpOf::<Seq<char>>::Finish {
                entry: None,
            })
            &&& pnpm_asked(version) && w.entry_before ==> pnpm_after(run, w, 1).wanted() == (
            PnpmOpOf::Finish { entry: Some(run.entry) })
            &&& end.entry == run.entry
            &&& end.phase == (if !pnpm_asked(version) {
                PnpmPhase::NotAsked
            } else if w.entry_before || fetched {
                PnpmPhase::Ready
            } else {
                PnpmPhase::Failed
            })
        }),
{
    reveal_with_fuel(pnpm_after, 10);
}

/// The version that was there before is given up only once the new files are known to hold
/// the entry script.
pub proof fn lemma_pnpm_replaced_late(run: PnpmRunOf<Seq<char>>, e: PnpmEventOf<Seq<char>>)
    requires
        run.phase != PnpmPhase::RemoveOld,
        run.after(e).phase == PnpmPhase::RemoveOld,
    ensures
        run.phase == PnpmPhase::LookInPackage,
        e == (PnpmEventOf::<Seq<char>>::Present { file: true }),
{
}

/// Everything that is fetched lies in the working directory: the programs of Node.js and its
/// archive in `node`; pnpm's entry script, its package and its unpacked files in `pnpm`.
pub proof fn lemma_programs_in_workspace(
    style: PathStyle,
    workspace_root: Seq<char>,
    mirror: Seq<char>,
    version: Seq<char>,
    os: Seq<char>,
    arch: Seq<char>,
    pnpm_version: Option<Seq<char>>,
)
    requires
        path::is_settled(style, workspace_root),
        path::is_one_piece(style, version),
        pnpm_version matches Some(v) ==> path::is_one_piece(style, v),
    ensures
        ({
            let run = node_start(style, workspace_root, mirror, version, os, arch);
            &&& path::is_below(style, workspace_root, seq!["node"@], run.root)
            &&& dist_name(version, os, arch) matches Ok(name) ==> {
                let dir = seq!["node"@, name];
                &&& path::is_below(
                    style,
                    workspace_root,
                    seq!["node"@, name + ".zip"@],
                    run.zip_path,
                )
                &&& style == PathStyle::Windows ==> {
                    &&& path::is_below(style, workspace_root, dir, run.paths.bin_dir)
                    &&& path::is_below(style, workspace_root, dir.push("node.exe"@), run.paths.node)
                    &&& path::is_below(style, workspace_root, dir.push("npm.cmd"@), run.paths.npm)
                }
                &&& style == PathStyle::Unix ==> {
                    let bin = dir.push("bin"@);
                    &&& path::is_below(style, workspace_root, bin, run.paths.bin_dir)
                    &&& path::is_below(style, workspace_root, bin.push("node"@), run.paths.node)
                    &&& path::is_below(style, workspace_root, bin.push("npm"@), run.paths.npm)
                }
            }
        }),
        ({
            let run = pnpm_start(style, workspace_root, pnpm_version);
            let v = match pnpm_version {
                Some(v) => v,
                None => Seq::empty(),
            };
            let staging = seq!["pnpm"@, ".pnpm-"@ + v + ".tmp"@];
            let target = seq!["pnpm"@, "pnpm-"@ + v];
            &&& path::is_below(
                style,
                workspace_root,
                seq!["pnpm"@, ".pnpm-"@ + v + ".tgz"@],
                run.tgz_path,
            )
            &&& path::is_below(style, workspace_root, staging, run.staging)
            &&& path::is_below(style, workspace_root, staging.push("package"@), run.package)
            &&& path::is_below(style, workspace_root, target, run.target)
            &&& path::is_below(
                style,
                workspace_root,
                target.push("bin"@).push("pnpm.cjs"@),
                run.entry,
            )
        }),
{
    lemma_node_in_workspace(style, workspace_root, mirror, version, os, arch);
    lemma_pnpm_in_workspace(style, workspace_root, pnpm_version);
}

/// The names that the runtime gives to what it fetches are plain.
proof fn lemma_fixed_names(style: PathStyle)
    ensures
        path::is_plain_name(style, "node"@) && !path::has_drive(style, "node"@),
        path::is_plain_name(style, "npm"@) && !path::has_drive(style, "npm"@),
        path::is_plain_name(style, "node.exe"@) && !path::has_drive(style, "node.exe"@),
        path::is_plain_name(style, "npm.cmd"@) && !path::has_drive(style, "npm.cmd"@),
        path::is_plain_name(style, "bin"@) && !path::has_drive(style, "bin"@),
        path::is_plain_name(style, "pnpm"@) && !path::has_drive(style, "pnpm"@),
        path::is_plain_name(style, "package"@) && !path::has_drive(style, "package"@),
        path::is_plain_name(style, "pnpm.cjs"@) && !path::has_drive(style, "pnpm.cjs"@),
{
    assert(path::is_one_piece(style, "node"@) && "node"@.len() > 2 && "node"@[1] != ':') by {
        reveal_strlit("node");
    }
    path::lemma_long_name(style, "node"@);
    assert(path::is_one_piece(style, "npm"@) && "npm"@.len() > 2 && "npm"@[1] != ':') by {
        reveal_strlit("npm");
    }
    path::lemma_long_name(style, "npm"@);
    assert(path::is_one_piece(style, "node.exe"@) && "node.exe"@.len() > 2 && "node.exe"@[1] != ':') by {
        reveal_strlit("node.exe");
    }
    path::lemma_long_name(style, "node.exe"@);
    assert(path::is_one_piece(style, "npm.cmd"@) && "npm.cmd"@.len() > 2 && "npm.cmd"@[1] != ':') by {
        reveal_strlit("npm.cmd");
    }
    path::lemma_long_name(style, "npm.cmd"@);
    assert(path::is_one_piece(style, "bin"@) && "bin"@.len() > 2 && "bin"@[1] != ':') by {
        reveal_strlit("bin");
    }
    path::lemma_long_name(style, "bin"@);
    assert(path::is_one_piece(style, "pnpm"@) && "pnpm"@.len() > 2 && "pnpm"@[1] != ':') by {
        reveal_strlit("pnpm");
    }
    path::lemma_long_name(style, "pnpm"@);
    assert(path::is_one_piece(style, "package"@) && "package"@.len() > 2 && "package"@[1] != ':') by {
        reveal_strlit("package");
    }
    path::lemma_long_name(style, "package"@);
    assert(path::is_one_piece(style, "pnpm.cjs"@) && "pnpm.cjs"@.len() > 2 && "pnpm.cjs"@[1] != ':') by {
        reveal_strlit("pnpm.cjs");
    }
    path::lemma_long_name(style, "pnpm.cjs"@);
}

/// One more name below a path that lies below another.
proof fn lemma_one_below(
    style: PathStyle,
    top: Seq<char>,
    rest: Seq<Seq<char>>,
    base: Seq<char>,
    name: Seq<char>,
)
    requires
        path::is_settled(style, base),
        path::is_below(style, top, rest, base),
        path::is_plain_name(style, name),
        !path::has_drive(style, name),
    ensures
        path::is_settled(style, path::join(style, base, name)),
        path::is_below(style, top, rest.push(name), path::join(style, base, name)),
{
    path::lemma_join_plain(style, base, name);
    path::lemma_below(style, top, rest, base, seq![name], path::join(style, base, name));
    assert(rest + seq![name] =~= rest.push(name));
}

/// A file in `bin`, written with its directory as one name, lies two names below.
proof fn lemma_in_bin(style: PathStyle, base: Seq<char>, name: Seq<char>, both: Seq<char>)
    requires
        style == PathStyle::Unix,
        path::is_plain_name(style, name),
        both == "bin"@ + style.mark() + name,
    ensures
        path::is_below(style, base, seq!["bin"@, name], path::join(style, base, both)),
{
    reveal_strlit("bin");
    reveal_strlit("/");
    reveal_strlit(".");
    reveal_strlit("..");
    let parts = seq!["bin"@, name];
    assert(path::is_plain_name(style, "bin"@));
    assert(parts.drop_last() =~= seq!["bin"@]);
    assert(text::joined(parts, style.mark()) =~= both) by {
        reveal_with_fuel(text::joined, 2);
    }
    assert(both[0] == 'b');
    path::lemma_names_of_joined(style, parts);
    path::lemma_settled(style, base);
    path::lemma_join_names(style, base, both);
}

/// Where Node.js lies in the working directory.
proof fn lemma_node_in_workspace(
    style: PathStyle,
    workspace_root: Seq<char>,
    mirror: Seq<char>,
    version: Seq<char>,
    os: Seq<char>,
    arch: Seq<char>,
)
    requires
        path::is_settled(style, workspace_root),
        path::is_one_piece(style, version),
    ensures
        ({
            let run = node_start(style, workspace_root, mirror, version, os, arch);
            &&& path::is_below(style, workspace_root, seq!["node"@], run.root)
            &&& dist_name(version, os, arch) matches Ok(name) ==> {
                let dir = seq!["node"@, name];
                &&& path::is_below(
                    style,
                    workspace_root,
                    seq!["node"@, name + ".zip"@],
                    run.zip_path,
                )
                &&& style == PathStyle::Windows ==> {
                    &&& path::is_below(style, workspace_root, dir, run.paths.bin_dir)
                    &&& path::is_below(style, workspace_root, dir.push("node.exe"@), run.paths.node)
                    &&& path::is_below(style, workspace_root, dir.push("npm.cmd"@), run.paths.npm)
                }
                &&& style == PathStyle::Unix ==> {
                    let bin = dir.push("bin"@);
                    &&& path::is_below(style, workspace_root, bin, run.paths.bin_dir)
                    &&& path::is_below(style, workspace_root, bin.push("node"@), run.paths.node)
                    &&& path::is_below(style, workspace_root, bin.push("npm"@), run.paths.npm)
                }
            }
        }),
{
    lemma_fixed_names(style);
    let w = workspace_root;
    path::lemma_join_plain(style, w, "node"@);
    let root = path::join(style, w, "node"@);
    if let Ok(name) = dist_name(version, os, arch) {
        lemma_dist_name_is_plain(style, version, os, arch);
        lemma_one_below(style, w, seq!["node"@], root, name + ".zip"@);
        assert(seq!["node"@].push(name + ".zip"@) =~= seq!["node"@, name + ".zip"@]);
        lemma_one_below(style, w, seq!["node"@], root, name);
        let dir = path::join(style, root, name);
        let at = seq!["node"@, name];
        assert(seq!["node"@].push(name) =~= at);
        if style == PathStyle::Windows {
            lemma_one_below(style, w, at, dir, "node.exe"@);
            lemma_one_below(style, w, at, dir, "npm.cmd"@);
        } else {
            lemma_one_below(style, w, at, dir, "bin"@);
            assert("bin"@ + style.mark() + "node"@ =~= "bin/node"@) by {
                reveal_strlit("bin");
                reveal_strlit("/");
                reveal_strlit("node");
                reveal_strlit("bin/node");
            }
            assert("bin"@ + style.mark() + "npm"@ =~= "bin/npm"@) by {
                reveal_strlit("bin");
                reveal_strlit("/");
                reveal_strlit("npm");
                reveal_strlit("bin/npm");
            }
            lemma_in_bin(style, dir, "node"@, "bin/node"@);
            lemma_in_bin(style, dir, "npm"@, "bin/npm"@);
            let node = path::join(style, dir, "bin/node"@);
            let npm = path::join(style, dir, "bin/npm"@);
            path::lemma_below(style, w, at, dir, seq!["bin"@, "node"@], node);
            path::lemma_below(style, w, at, dir, seq!["bin"@, "npm"@], npm);
            assert(at + seq!["bin"@, "node"@] =~= at.push("bin"@).push("node"@));
            assert(at + seq!["bin"@, "npm"@] =~= at.push("bin"@).push("npm"@));
        }
    }
}

/// The name of a distribution is one plain name.
proof fn lemma_dist_name_is_plain(
    style: PathStyle,
    version: Seq<char>,
    os: Seq<char>,
    arch: Seq<char>,
)
    requires
        path::is_one_piece(style, version),
    ensures
        dist_name(version, os, arch) matches Ok(name) ==> path::is_plain_name(style, name)
            && !path::has_drive(style, name) && path::is_plain_name(style, name + ".zip"@)
            && !path::has_drive(style, name + ".zip"@),
{
    reveal_strlit("node-v");
    reveal_strlit("-");
    reveal_strlit(".zip");
    if let Ok(name) = dist_name(version, os, arch) {
        let p = platform_of(os).unwrap();
        let a = arch_of(arch).unwrap();
        assert(path::is_one_piece(style, p)) by {
            reveal_strlit("win");
            reveal_strlit("darwin");
            reveal_strlit("linux");
        }
        assert(path::is_one_piece(style, a)) by {
            reveal_strlit("x64");
            reveal_strlit("arm64");
        }
        path::lemma_one_piece(style, "node-v"@, version);
        path::lemma_one_piece(style, "node-v"@ + version, "-"@);
        path::lemma_one_piece(style, "node-v"@ + version + "-"@, p);
        path::lemma_one_piece(style, "node-v"@ + version + "-"@ + p, "-"@);
        path::lemma_one_piece(style, "node-v"@ + version + "-"@ + p + "-"@, a);
        path::lemma_one_piece(style, name, ".zip"@);
        assert(name[0] == 'n' && name[1] == 'o');
        assert((name + ".zip"@)[1] == 'o');
        path::lemma_long_name(style, name);
        path::lemma_long_name(style, name + ".zip"@);
    }
}

/// The names that are made of a version of pnpm are plain.
proof fn lemma_pnpm_names(style: PathStyle, v: Seq<char>)
    requires
        path::is_one_piece(style, v),
    ensures
        path::is_plain_name(style, ".pnpm-"@ + v + ".tgz"@),
        !path::has_drive(style, ".pnpm-"@ + v + ".tgz"@),
        path::is_plain_name(style, ".pnpm-"@ + v + ".tmp"@),
        !path::has_drive(style, ".pnpm-"@ + v + ".tmp"@),
        path::is_plain_name(style, "pnpm-"@ + v),
        !path::has_drive(style, "pnpm-"@ + v),
{
    reveal_strlit("pnpm-");
    reveal_strlit(".pnpm-");
    reveal_strlit(".tgz");
    reveal_strlit(".tmp");
    path::lemma_one_piece(style, ".pnpm-"@, v);
    path::lemma_one_piece(style, ".pnpm-"@ + v, ".tgz"@);
    path::lemma_one_piece(style, ".pnpm-"@ + v, ".tmp"@);
    path::lemma_one_piece(style, "pnpm-"@, v);
    assert((".pnpm-"@ + v + ".tgz"@)[1] == 'p');
    assert((".pnpm-"@ + v + ".tmp"@)[1] == 'p');
    assert(("pnpm-"@ + v)[1] == 'n');
    path::lemma_long_name(style, ".pnpm-"@ + v + ".tgz"@);
    path::lemma_long_name(style, ".pnpm-"@ + v + ".tmp"@);
    path::lemma_long_name(style, "pnpm-"@ + v);
}

/// Where pnpm lies in the working directory.
proof fn lemma_pnpm_in_workspace(
    style: PathStyle,
    workspace_root: Seq<char>,
    pnpm_version: Option<Seq<char>>,
)
    requires
        path::is_settled(style, workspace_root),
        pnpm_version matches Some(v) ==> path::is_one_piece(style, v),
    ensures
        ({
            let run = pnpm_start(style, workspace_root, pnpm_version);
            let v = match pnpm_version {
                Some(v) => v,
                None => Seq::empty(),
            };
            let staging = seq!["pnpm"@, ".pnpm-"@ + v + ".tmp"@];
            let target = seq!["pnpm"@, "pnpm-"@ + v];
            &&& path::is_below(
                style,
                workspace_root,
                seq!["pnpm"@, ".pnpm-"@ + v + ".tgz"@],
                run.tgz_path,
            )
            &&& path::is_below(style, workspace_root, staging, run.staging)
            &&& path::is_below(style, workspace_root, staging.push("package"@), run.package)
            &&& path::is_below(style, workspace_root, target, run.target)
            &&& path::is_below(
                style,
                workspace_root,
                target.push("bin"@).push("pnpm.cjs"@),
                run.entry,
            )
        }),
{
    lemma_fixed_names(style);
    let w = workspace_root;
    let v = match pnpm_version {
        Some(v) => v,
        None => Seq::empty(),
    };
    let pnpm = path::join(style, w, "pnpm"@);
    let tgz = ".pnpm-"@ + v + ".tgz"@;
    let tmp = ".pnpm-"@ + v + ".tmp"@;
    let dir = "pnpm-"@ + v;
    let top = seq!["pnpm"@];
    lemma_pnpm_names(style, v);
    path::lemma_join_plain(style, w, "pnpm"@);
    lemma_one_below(style, w, top, pnpm, tgz);
    lemma_one_below(style, w, top, pnpm, tmp);
    lemma_one_below(style, w, top, pnpm, dir);
    assert(top.push(tgz) =~= seq!["pnpm"@, tgz]);
    assert(top.push(tmp) =~= seq!["pnpm"@, tmp]);
    assert(top.push(dir) =~= seq!["pnpm"@, dir]);
    let target = path::join(style, pnpm, dir);
    lemma_one_below(style, w, seq!["pnpm"@, tmp], path::join(style, pnpm, tmp), "package"@);
    lemma_one_below(style, w, seq!["pnpm"@, dir], target, "bin"@);
    lemma_one_below(
        style,
        w,
        seq!["pnpm"@, dir].push("bin"@),
        path::join(style, target, "bin"@),
        "pnpm.cjs"@,
    );
}

/// Whether nodejs.org serves the operating system `os` under the name `p`.
pub open spec fn is_served_system(os: Seq<char>, p: Seq<char>) -> bool {
    ||| os == "windows"@ && p == "win"@
    ||| os == "macos"@ && p == "darwin"@
    ||| os == "linux"@ && p == "linux"@
}

/// Whether nodejs.org serves the architecture `arch` under the name `a`.
pub open spec fn is_served_arch(arch: Seq<char>, a: Seq<char>) -> bool {
    ||| arch == "x86_64"@ && a == "x64"@
    ||| arch == "aarch64"@ && a == "arm64"@
}

/// The systems that are told apart are different ones.
proof fn lemma_systems_differ()
    ensures
        "windows"@ != "macos"@,
        "windows"@ != "linux"@,
        "macos"@ != "linux"@,
        "x86_64"@ != "aarch64"@,
{
    reveal_strlit("windows");
    reveal_strlit("macos");
    reveal_strlit("linux");
    reveal_strlit("x86_64");
    reveal_strlit("aarch64");
    assert("windows"@.len() == 7 && "macos"@.len() == 5 && "linux"@.len() == 5);
    assert("macos"@[0] == 'm' && "linux"@[0] == 'l');
    assert("x86_64"@.len() == 6 && "aarch64"@.len() == 7);
}

/// What a distribution is called and where it is found goes by the mirror, the version and the
/// machine alone; a machine that is not served has none, and the message names what is not.
pub proof fn lemma_distribution(
    mirror: Seq<char>,
    version: Seq<char>,
    os: Seq<char>,
    arch: Seq<char>,
    p: Seq<char>,
    a: Seq<char>,
)
    ensures
        is_served_system(os, p) && is_served_arch(arch, a) ==> {
            let name = "node-v"@ + version + "-"@ + p + "-"@ + a;
            &&& dist_name(version, os, arch) == Ok::<Seq<char>, Seq<char>>(name)
            &&& dist_url(mirror, version, name) == mirror + "/v"@ + version + "/"@ + name + ".zip"@
        },
        os != "windows"@ && os != "macos"@ && os != "linux"@ ==> dist_name(version, os, arch)
            == Err::<Seq<char>, Seq<char>>("不支持的操作系统: "@ + os),
        is_served_system(os, p) && arch != "x86_64"@ && arch != "aarch64"@ ==> dist_name(
            version,
            os,
            arch,
        ) == Err::<Seq<char>, Seq<char>>("不支持的 CPU 架构: "@ + arch),
{
    lemma_systems_differ();
}

/// How providing Node.js goes, step by step, on a machine that is served. The programs are
/// looked for where the distribution of the version unpacks to; if both are there, they are
/// used. Else the directory for distributions is made, the archive of this version for this
/// machine is downloaded into it from the mirror, extracted there and removed, and the programs
/// are looked for again. Whatever fails is the end, and says so.
#[verifier::rlimit(60)]
pub proof fn lemma_node_steps(
    style: PathStyle,
    workspace_root: Seq<char>,
    mirror: Seq<char>,
    version: Seq<char>,
    os: Seq<char>,
    arch: Seq<char>,
    p: Seq<char>,
    a: Seq<char>,
    w: NodeWorld,
)
    requires
        is_served_system(os, p),
        is_served_arch(arch, a),
    ensures
        ({
            let run = node_start(style, workspace_root, mirror, version, os, arch);
            let name = "node-v"@ + version + "-"@ + p + "-"@ + a;
            let url = mirror + "/v"@ + version + "/"@ + name + ".zip"@;
            let root = path::join(style, workspace_root, "node"@);
            let zip = path::join(style, root, name + ".zip"@);
            let dir = path::join(style, root, name);
            let paths = match style {
                PathStyle::Windows => NodePathsOf {
                    node: path::join(style, dir, "node.exe"@),
                    npm: path::join(style, dir, "npm.cmd"@),
                    bin_dir: dir,
                },
                PathStyle::Unix => NodePathsOf {
                    node: path::join(style, dir, "bin/node"@),
                    npm: path::join(style, dir, "bin/npm"@),
                    bin_dir: path::join(style, dir, "bin"@),
                },
            };
            let look = NodeOpOf::Look { node: paths.node, npm: paths.npm };
            let s1 = node_after(run, w, 1);
            let s2 = node_after(run, w, 2);
            let s3 = node_after(run, w, 3);
            let s4 = node_after(run, w, 4);
            let s5 = node_after(run, w, 5);
            let s6 = node_after(run, w, 6);
            &&& run.wanted() == look
            &&& w.node_before && w.npm_before ==> s1.wanted() == (NodeOpOf::Finish { paths })
                && s1.note == Some("Node v"@ + version + " 已就绪，跳过下载"@)
            &&& !(w.node_before && w.npm_before) ==> {
                &&& s1.wanted() == (NodeOpOf::MakeDir { dir: root })
                &&& match w.make_root {
                    Err(e) => s2.wanted() == (NodeOpOf::Fail {
                        error: "创建目录 "@ + root + " 失败: "@ + e,
                    }),
                    Ok(_) => {
                        &&& s2.wanted() == (NodeOpOf::Download { url, dest: zip })
                        &&& s2.note == Some(
                            "正在下载 Node v"@ + version + "（"@ + url + "）..."@,
                        )
                        &&& match w.download {
                            Err(e) => s3.wanted() == (NodeOpOf::Fail { error: e }),
                            Ok(_) => {
                                &&& s3.wanted() == (NodeOpOf::Extract { zip, dir: root })
                                &&& s3.note == Some("正在解压 Node ..."@)
                                &&& match w.extract {
                                    Err(e) => s4.wanted() == (NodeOpOf::Fail { error: e }),
                                    Ok(_) => {
                                        &&& s4.wanted() == (NodeOpOf::RemoveFile { path: zip })
                                        &&& s5.wanted() == look
                                        &&& s6.wanted() == (if !w.node_after {
                                            NodeOpOf::Fail {
                                                error: "Node 解压完成但未找到 node 可执行文件: "@
                                                    + paths.node,
                                            }
                                        } else if !w.npm_after {
                                            NodeOpOf::Fail {
                                                error: "Node 解压完成但未找到 npm 入口: "@
                                                    + paths.npm,
                                            }
                                        } else {
                                            NodeOpOf::Finish { paths }
                                        })
                                        &&& w.node_after && w.npm_after ==> s6.note == Some(
                                            "Node v"@ + version + " 就绪"@,
                                        )
                                    },
                                }
                            },
                        }
                    },
                }
            }
        }),
{
    lemma_distribution(mirror, version, os, arch, p, a);
    let run = node_start(style, workspace_root, mirror, version, os, arch);
    let s0 = node_after(run, w, 0);
    let s1 = node_after(run, w, 1);
    let s2 = node_after(run, w, 2);
    let s3 = node_after(run, w, 3);
    let s4 = node_after(run, w, 4);
    let s5 = node_after(run, w, 5);
    let s6 = node_after(run, w, 6);
    assert(s0 == run);
    assert(s1 == s0.after(w.answer(s0.phase)));
    assert(s2 == s1.after(w.answer(s1.phase)));
    assert(s3 == s2.after(w.answer(s2.phase)));
    assert(s4 == s3.after(w.answer(s3.phase)));
    assert(s5 == s4.after(w.answer(s4.phase)));
    assert(s6 == s5.after(w.answer(s5.phase)));
}

/// A machine that is not served gets no Node.js: nothing is looked for or downloaded, and the
/// failure names the system, or else the architecture.
pub proof fn lemma_no_node_for_other_machines(
    style: PathStyle,
    workspace_root: Seq<char>,
    mirror: Seq<char>,
    version: Seq<char>,
    os: Seq<char>,
    arch: Seq<char>,
    p: Seq<char>,
)
    ensures
        os != "windows"@ && os != "macos"@ && os != "linux"@ ==> node_start(
            style,
            workspace_root,
            mirror,
            version,
            os,
            arch,
        ).wanted() == (NodeOpOf::Fail { error: "不支持的操作系统: "@ + os }),
        is_served_system(os, p) && arch != "x86_64"@ && arch != "aarch64"@ ==> node_start(
            style,
            workspace_root,
            mirror,
            version,
            os,
            arch,
        ).wanted() == (NodeOpOf::Fail { error: "不支持的 CPU 架构: "@ + arch }),
{
    lemma_distribution(mirror, version, os, arch, p, Seq::empty());
}

/// How providing pnpm goes, step by step, where a version is asked for. Its entry script is
/// looked for where the version is put; if it is there, it is used. Else the package of this
/// version is downloaded from the registry, unpacked beside, and put in its place once its
/// entry script was found in it. Whatever fails but a removal is the end, and says so.
#[verifier::rlimit(80)]
pub proof fn lemma_pnpm_steps(
    style: PathStyle,
    workspace_root: Seq<char>,
    v: Seq<char>,
    w: PnpmWorld,
)
    requires
        text::trim(v).len() > 0,
    ensures
        ({
            let run = pnpm_start(style, workspace_root, Some(v));
            let url = "https://registry.npmjs.org/pnpm/-/pnpm-"@ + v + ".tgz"@;
            let root = path::join(style, workspace_root, "pnpm"@);
            let tgz = path::join(style, root, ".pnpm-"@ + v + ".tgz"@);
            let staging = path::join(style, root, ".pnpm-"@ + v + ".tmp"@);
            let package = path::join(style, staging, "package"@);
            let found = path::join(style, path::join(style, package, "bin"@), "pnpm.cjs"@);
            let target = path::join(style, root, "pnpm-"@ + v);
            let entry = path::join(style, path::join(style, target, "bin"@), "pnpm.cjs"@);
            let s1 = pnpm_after(run, w, 1);
            let s2 = pnpm_after(run, w, 2);
            let s3 = pnpm_after(run, w, 3);
            let s4 = pnpm_after(run, w, 4);
            let s5 = pnpm_after(run, w, 5);
            let s6 = pnpm_after(run, w, 6);
            let s7 = pnpm_after(run, w, 7);
            let s8 = pnpm_after(run, w, 8);
            let s9 = pnpm_after(run, w, 9);
            let ready = PnpmOpOf::Finish { entry: Some(entry) };
            &&& run.wanted() == (PnpmOpOf::Look { path: entry })
            &&& w.entry_before ==> s1.wanted() == ready && s1.note == Some(
                "pnpm v"@ + v + " 已就绪，跳过下载"@,
            )
            &&& !w.entry_before ==> {
                &&& s1.wanted() == (PnpmOpOf::MakeDir { dir: root })
                &&& w.make_root matches Err(e) ==> s2.wanted() == (PnpmOpOf::Fail {
                    error: "创建目录 "@ + root + " 失败: "@ + e,
                })
                &&& w.make_root is Ok ==> {
                    &&& s2.wanted() == (PnpmOpOf::Download { url, dest: tgz })
                    &&& s2.note == Some("正在下载 pnpm v"@ + v + "（"@ + url + "）..."@)
                    &&& w.download matches Err(e) ==> s3.wanted() == (PnpmOpOf::Fail { error: e })
                    &&& w.download is Ok ==> {
                        &&& s3.wanted() == (PnpmOpOf::PrepareStaging { dir: staging })
                        &&& s3.note == Some("正在解压 pnpm v"@ + v + " ..."@)
                        &&& w.prepare matches Err(e) ==> s4.wanted() == (PnpmOpOf::Fail {
                            error: "创建临时目录 "@ + staging + " 失败: "@ + e,
                        })
                        &&& w.prepare is Ok ==> {
                            &&& s4.wanted() == (PnpmOpOf::Unpack { tgz, dir: staging })
                            &&& w.unpack matches Err(e) ==> s5.wanted() == (PnpmOpOf::Fail {
                                error: e,
                            })
                            &&& w.unpack is Ok ==> {
                                &&& s5.wanted() == (PnpmOpOf::Look { path: found })
                                &&& !w.entry_in_package ==> s6.wanted() == (PnpmOpOf::Fail {
                                    error: "pnpm v"@ + v + " 解压完成但未找到 bin/pnpm.cjs: "@
                                        + found,
                                })
                                &&& w.entry_in_package ==> {
                                    &&& s6.wanted() == (PnpmOpOf::RemoveTree { dir: target })
                                    &&& s7.wanted() == (PnpmOpOf::Rename {
                                        from: package,
                                        to: target,
                                    })
                                    &&& w.install matches Err(e) ==> s8.wanted() == (
                                    PnpmOpOf::Fail {
                                        error: "安装 pnpm v"@ + v + " 失败: "@ + e,
                                    })
                                    &&& w.install is Ok ==> {
                                        &&& s8.wanted() == (PnpmOpOf::CleanUp { tgz, dir: staging })
                                        &&& s9.wanted() == ready
                                        &&& s9.note == Some("pnpm v"@ + v + " 就绪"@)
                                    }
                                }
                            }
                        }
                    }
                }
            }
        }),
{
    let run = pnpm_start(style, workspace_root, Some(v));
    let s0 = pnpm_after(run, w, 0);
    let s1 = pnpm_after(run, w, 1);
    let s2 = pnpm_after(run, w, 2);
    let s3 = pnpm_after(run, w, 3);
    let s4 = pnpm_after(run, w, 4);
    let s5 = pnpm_after(run, w, 5);
    let s6 = pnpm_after(run, w, 6);
    let s7 = pnpm_after(run, w, 7);
    let s8 = pnpm_after(run, w, 8);
    let s9 = pnpm_after(run, w, 9);
    assert(s0 == run);
    assert(s1 == s0.after(w.answer(s0.phase)));
    assert(s2 == s1.after(w.answer(s1.phase)));
    assert(s3 == s2.after(w.answer(s2.phase)));
    assert(s4 == s3.after(w.answer(s3.phase)));
    assert(s5 == s4.after(w.answer(s4.phase)));
    assert(s6 == s5.after(w.answer(s5.phase)));
    assert(s7 == s6.after(w.answer(s6.phase)));
    assert(s8 == s7.after(w.answer(s7.phase)));
    assert(s9 == s8.after(w.answer(s8.phase)));
}

/// No version of pnpm, or one that is nothing but white space, means that none is provided.
pub proof fn lemma_no_pnpm_unless_asked(
    style: PathStyle,
    workspace_root: Seq<char>,
    version: Option<Seq<char>>,
)
    ensures
        pnpm_start(style, workspace_root, version).wanted() == (PnpmOpOf::Finish::<Seq<char>> {
            entry: None,
        }) <==> (version matches Some(v) ==> text::trim(v).len() == 0),
{
}

} // verus!
