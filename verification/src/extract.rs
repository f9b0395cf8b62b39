//! Unpacking archives: which entry goes where, in which order directories and files come
//! to be, and how an extraction fails.

use vstd::prelude::*;
use vstd::string::*;

use crate::path;
use crate::path::{join_path, parent_of, PathStyle};
use crate::text;
use crate::text::{cat4, copy_text, decimal_text};

verus! {

broadcast use vstd::string::group_string_axioms;

/// Where an extraction stands.
#[derive(Clone, Copy, PartialEq, Eq, Structural, Debug)]
pub enum ExtractPhase {
    /// The archive is opened.
    Open,
    /// Its table of contents is read.
    Count,
    /// The next entry is looked up.
    Entry,
    /// The entry is a directory, which is made.
    MakeDir,
    /// The entry is a file; the directory that it lies in is made.
    MakeParent,
    /// The file is created.
    Create,
    /// Its content is written.
    Copy,
    /// Over: every entry was dealt with.
    Done,
    /// Over, with an error.
    Failed,
}

/// An extraction on its way; `T` is `String` in the program and `Seq<char>` in contracts.
#[derive(Debug, PartialEq)]
pub struct ExtractRunOf<T> {
    /// The notation of paths.
    pub style: PathStyle,
    /// The archive.
    pub zip: T,
    /// The directory that it is extracted into.
    pub dest: T,
    /// How many entries the archive has.
    pub count: u64,
    /// The entry that is dealt with.
    pub index: u64,
    /// The path that the entry goes to.
    pub target: T,
    /// The directory that this path lies in.
    pub parent: T,
    /// What went wrong.
    pub error: T,
    /// Where the extraction stands.
    pub phase: ExtractPhase,
}

/// An extraction on its way.
pub type ExtractRun = ExtractRunOf<String>;

/// What an operation of an extraction came to.
#[derive(Debug, PartialEq)]
pub enum ExtractEventOf<T> {
    /// The archive has so many entries.
    Counted { entries: u64 },
    /// The entry has a name that may be used, and is a directory or not.
    Named { name: T, is_dir: bool },
    /// The entry has no name that may be used.
    Unnamed,
    /// The operation succeeded.
    Done,
    /// The operation failed.
    Failed(T),
}

/// What an operation of an extraction came to.
pub type ExtractEvent = ExtractEventOf<String>;

/// What an extraction wants done next.
#[derive(Debug, PartialEq)]
pub enum ExtractOpOf<T> {
    /// Open the archive `zip`.
    Open { zip: T },
    /// Read how many entries it has.
    Count,
    /// Look up the entry number `index`, counted from zero.
    Lookup { index: u64 },
    /// Make the directory `dir` and those that it lies in, as far as they are missing.
    MakeDir { dir: T },
    /// Create the file `path`, empty.
    Create { path: T },
    /// Write the content of the entry to the file `path`.
    Copy { path: T },
    /// Nothing more: the archive is extracted.
    Finish,
    /// Nothing more: the extraction failed.
    Fail { error: T },
}

/// What an extraction wants done next.
pub type ExtractOp = ExtractOpOf<String>;

impl View for ExtractRunOf<String> {
    type V = ExtractRunOf<Seq<char>>;

    open spec fn view(&self) -> ExtractRunOf<Seq<char>> {
        ExtractRunOf {
            style: self.style,
            zip: self.zip@,
            dest: self.dest@,
            count: self.count,
            index: self.index,
            target: self.target@,
            parent: self.parent@,
            error: self.error@,
            phase: self.phase,
        }
    }
}

impl View for ExtractEventOf<String> {
    type V = ExtractEventOf<Seq<char>>;

    open spec fn view(&self) -> ExtractEventOf<Seq<char>> {
        match *self {
            ExtractEventOf::Counted { entries } => ExtractEventOf::Counted { entries },
            ExtractEventOf::Named { name, is_dir } => ExtractEventOf::Named {
                name: name@,
                is_dir,
            },
            ExtractEventOf::Unnamed => ExtractEventOf::Unnamed,
            ExtractEventOf::Done => ExtractEventOf::Done,
            ExtractEventOf::Failed(x) => ExtractEventOf::Failed(x@),
        }
    }
}

impl View for ExtractOpOf<String> {
    type V = ExtractOpOf<Seq<char>>;

    open spec fn view(&self) -> ExtractOpOf<Seq<char>> {
        match *self {
            ExtractOpOf::Open { zip } => ExtractOpOf::Open { zip: zip@ },
            ExtractOpOf::Count => ExtractOpOf::Count,
            ExtractOpOf::Lookup { index } => ExtractOpOf::Lookup { index },
            ExtractOpOf::MakeDir { dir } => ExtractOpOf::MakeDir { dir: dir@ },
            ExtractOpOf::Create { path } => ExtractOpOf::Create { path: path@ },
            ExtractOpOf::Copy { path } => ExtractOpOf::Copy { path: path@ },
            ExtractOpOf::Finish => ExtractOpOf::Finish,
            ExtractOpOf::Fail { error } => ExtractOpOf::Fail { error: error@ },
        }
    }
}

impl ExtractRunOf<Seq<char>> {
    /// Whether the extraction is at an entry that the archive has.
    pub open spec fn well_formed(self) -> bool {
        match self.phase {
            ExtractPhase::Entry | ExtractPhase::MakeDir | ExtractPhase::MakeParent
            | ExtractPhase::Create | ExtractPhase::Copy => self.index < self.count,
            _ => self.index <= self.count,
        }
    }

    /// The entries from number `index` on are left.
    pub open spec fn go_to(self, index: u64) -> Self {
        ExtractRunOf {
            index,
            phase: if index < self.count {
                ExtractPhase::Entry
            } else {
                ExtractPhase::Done
            },
            ..self
        }
    }

    /// The entry is dealt with.
    pub open spec fn next(self) -> Self {
        self.go_to((self.index + 1) as u64)
    }

    /// The entry goes to the path that its name gives, taken from the directory that the
    /// archive is extracted into.
    pub open spec fn place(self, name: Seq<char>, is_dir: bool) -> Self {
        let target = path::join(self.style, self.dest, name);
        if is_dir {
            ExtractRunOf { target, phase: ExtractPhase::MakeDir, ..self }
        } else {
            match path::parent(self.style, target) {
                Some(parent) => ExtractRunOf {
                    target,
                    parent,
                    phase: ExtractPhase::MakeParent,
                    ..self
                },
                None => ExtractRunOf { target, phase: ExtractPhase::Create, ..self },
            }
        }
    }

    /// The extraction failed: `what` was done to `thing`, and `why` it failed.
    pub open spec fn fail(self, what: Seq<char>, thing: Seq<char>, why: Seq<char>) -> Self {
        ExtractRunOf {
            error: what + thing + " 失败: "@ + why,
            phase: ExtractPhase::Failed,
            ..self
        }
    }

    /// The extraction after an event. An event that does not answer what was wanted
    /// changes nothing.
    pub open spec fn after(self, e: ExtractEventOf<Seq<char>>) -> Self {
        match (self.phase, e) {
            (ExtractPhase::Open, ExtractEventOf::Done) => ExtractRunOf {
                phase: ExtractPhase::Count,
                ..self
            },
            (ExtractPhase::Open, ExtractEventOf::Failed(x)) => self.fail(
                "打开 zip "@,
                self.zip,
                x,
            ),
            (ExtractPhase::Count, ExtractEventOf::Counted { entries }) => ExtractRunOf {
                count: entries,
                ..self
            }.go_to(0),
            (ExtractPhase::Count, ExtractEventOf::Failed(x)) => self.fail(
                "读取 zip "@,
                self.zip,
                x,
            ),
            (ExtractPhase::Entry, ExtractEventOf::Named { name, is_dir }) => self.place(
                name,
                is_dir,
            ),
            (ExtractPhase::Entry, ExtractEventOf::Unnamed) => self.next(),
            (ExtractPhase::Entry, ExtractEventOf::Failed(x)) => self.fail(
                "读取 zip 条目 #"@,
                text::decimal(self.index as nat),
                x,
            ),
            (ExtractPhase::MakeDir, ExtractEventOf::Done) => self.next(),
            (ExtractPhase::MakeDir, ExtractEventOf::Failed(x)) => self.fail(
                "创建目录 "@,
                self.target,
                x,
            ),
            (ExtractPhase::MakeParent, ExtractEventOf::Done) => ExtractRunOf {
                phase: ExtractPhase::Create,
                ..self
            },
            (ExtractPhase::MakeParent, ExtractEventOf::Failed(x)) => self.fail(
                "创建目录 "@,
                self.parent,
                x,
            ),
            (ExtractPhase::Create, ExtractEventOf::Done) => ExtractRunOf {
                phase: ExtractPhase::Copy,
                ..self
            },
            (ExtractPhase::Create, ExtractEventOf::Failed(x)) => self.fail(
                "创建文件 "@,
                self.target,
                x,
            ),
            (ExtractPhase::Copy, ExtractEventOf::Done) => self.next(),
            (ExtractPhase::Copy, ExtractEventOf::Failed(x)) => self.fail(
                "解压写入 "@,
                self.target,
                x,
            ),
            _ => self,
        }
    }

    /// What is wanted next.
    pub open spec fn wanted(self) -> ExtractOpOf<Seq<char>> {
        match self.phase {
            ExtractPhase::Open => ExtractOpOf::Open { zip: self.zip },
            ExtractPhase::Count => ExtractOpOf::Count,
            ExtractPhase::Entry => ExtractOpOf::Lookup { index: self.index },
            ExtractPhase::MakeDir => ExtractOpOf::MakeDir { dir: self.target },
            ExtractPhase::MakeParent => ExtractOpOf::MakeDir { dir: self.parent },
            ExtractPhase::Create => ExtractOpOf::Create { path: self.target },
            ExtractPhase::Copy => ExtractOpOf::Copy { path: self.target },
            ExtractPhase::Done => ExtractOpOf::Finish,
            ExtractPhase::Failed => ExtractOpOf::Fail { error: self.error },
        }
    }
}

/// An extraction at its start.
pub open spec fn extract_start(
    style: PathStyle,
    zip: Seq<char>,
    dest: Seq<char>,
) -> ExtractRunOf<Seq<char>> {
    ExtractRunOf {
        style,
        zip,
        dest,
        count: 0,
        index: 0,
        target: Seq::empty(),
        parent: Seq::empty(),
        error: Seq::empty(),
        phase: ExtractPhase::Open,
    }
}

/// Starts to extract the archive `zip` into the directory `dest`.
pub fn extract_zip(style: PathStyle, zip: &str, dest: &str) -> (r: ExtractRun)
    ensures
        r@ == extract_start(style, zip@, dest@),
        r@.well_formed(),
{
    ExtractRunOf {
        style,
        zip: copy_text(zip),
        dest: copy_text(dest),
        count: 0,
        index: 0,
        target: String::new(),
        parent: String::new(),
        error: String::new(),
        phase: ExtractPhase::Open,
    }
}

impl ExtractRunOf<String> {
    /// What is wanted next.
    pub fn action(&self) -> (r: ExtractOp)
        ensures
            r@ == self@.wanted(),
    {
        match self.phase {
            ExtractPhase::Open => ExtractOpOf::Open { zip: copy_text(self.zip.as_str()) },
            ExtractPhase::Count => ExtractOpOf::Count,
            ExtractPhase::Entry => ExtractOpOf::Lookup { index: self.index },
            ExtractPhase::MakeDir => ExtractOpOf::MakeDir { dir: copy_text(self.target.as_str()) },
            ExtractPhase::MakeParent => ExtractOpOf::MakeDir {
                dir: copy_text(self.parent.as_str()),
            },
            ExtractPhase::Create => ExtractOpOf::Create { path: copy_text(self.target.as_str()) },
            ExtractPhase::Copy => ExtractOpOf::Copy { path: copy_text(self.target.as_str()) },
            ExtractPhase::Done => ExtractOpOf::Finish,
            ExtractPhase::Failed => ExtractOpOf::Fail { error: copy_text(self.error.as_str()) },
        }
    }

    fn set_index(&mut self, index: u64)
        ensures
            final(self)@ == old(self)@.go_to(index),
    {
        self.index = index;
        self.phase = if index < self.count {
            ExtractPhase::Entry
        } else {
            ExtractPhase::Done
        };
    }

    fn set_place(&mut self, name: String, is_dir: bool)
        ensures
            final(self)@ == old(self)@.place(name@, is_dir),
    {
        let target = join_path(self.style, self.dest.as_str(), name.as_str());
        if is_dir {
            self.phase = ExtractPhase::MakeDir;
        } else {
            match parent_of(self.style, target.as_str()) {
                Some(parent) => {
                    self.parent = parent;
                    self.phase = ExtractPhase::MakeParent;
                },
                None => {
                    self.phase = ExtractPhase::Create;
                },
            }
        }
        self.target = target;
    }

    fn set_failed(&mut self, error: String)
        ensures
            final(self)@ == (ExtractRunOf {
                error: error@,
                phase: ExtractPhase::Failed,
                ..old(self)@
            }),
    {
        self.error = error;
        self.phase = ExtractPhase::Failed;
    }

    /// Takes note of what the wanted operation came to.
    pub fn advance(&mut self, e: ExtractEvent)
        requires
            old(self)@.well_formed(),
        ensures
            final(self)@ == old(self)@.after(e@),
            final(self)@.well_formed(),
    {
        match (self.phase, e) {
            (ExtractPhase::Open, ExtractEventOf::Done) => {
                self.phase = ExtractPhase::Count;
            },
            (ExtractPhase::Open, ExtractEventOf::Failed(x)) => {
                let m = cat4("打开 zip ", self.zip.as_str(), " 失败: ", x.as_str());
                self.set_failed(m);
            },
            (ExtractPhase::Count, ExtractEventOf::Counted { entries }) => {
                self.count = entries;
                self.set_index(0);
            },
            (ExtractPhase::Count, ExtractEventOf::Failed(x)) => {
                let m = cat4("读取 zip ", self.zip.as_str(), " 失败: ", x.as_str());
                self.set_failed(m);
            },
            (ExtractPhase::Entry, ExtractEventOf::Named { name, is_dir }) => {
                self.set_place(name, is_dir);
            },
            (ExtractPhase::Entry, ExtractEventOf::Unnamed) => {
                let n: u64 = self.index + 1;
                self.set_index(n);
            },
            (ExtractPhase::Entry, ExtractEventOf::Failed(x)) => {
                let m = cat4(
                    "读取 zip 条目 #",
                    decimal_text(self.index).as_str(),
                    " 失败: ",
                    x.as_str(),
                );
                self.set_failed(m);
            },
            (ExtractPhase::MakeDir, ExtractEventOf::Done) => {
                let n: u64 = self.index + 1;
                self.set_index(n);
            },
            (ExtractPhase::MakeDir, ExtractEventOf::Failed(x)) => {
                let m = cat4("创建目录 ", self.target.as_str(), " 失败: ", x.as_str());
                self.set_failed(m);
            },
            (ExtractPhase::MakeParent, ExtractEventOf::Done) => {
                self.phase = ExtractPhase::Create;
            },
            (ExtractPhase::MakeParent, ExtractEventOf::Failed(x)) => {
                let m = cat4("创建目录 ", self.parent.as_str(), " 失败: ", x.as_str());
                self.set_failed(m);
            },
            (ExtractPhase::Create, ExtractEventOf::Done) => {
                self.phase = ExtractPhase::Copy;
            },
            (ExtractPhase::Create, ExtractEventOf::Failed(x)) => {
                let m = cat4("创建文件 ", self.target.as_str(), " 失败: ", x.as_str());
                self.set_failed(m);
            },
            (ExtractPhase::Copy, ExtractEventOf::Done) => {
                let n: u64 = self.index + 1;
                self.set_index(n);
            },
            (ExtractPhase::Copy, ExtractEventOf::Failed(x)) => {
                let m = cat4("解压写入 ", self.target.as_str(), " 失败: ", x.as_str());
                self.set_failed(m);
            },
            _ => {},
        }
    }
}

// ---------------------------------------------------------------------------
// Compressed tar archives
// ---------------------------------------------------------------------------

/// What came of unpacking a compressed tar archive.
#[derive(Debug, PartialEq)]
pub enum TgzUnpack {
    /// It could not be opened.
    NotOpened { error: String },
    /// It could not be unpacked.
    NotUnpacked { error: String },
    /// It is unpacked.
    Unpacked,
}

/// The error that unpacking a compressed tar archive amounts to; none if it succeeded.
pub open spec fn tgz_failure(tgz: Seq<char>, unpack: TgzUnpack) -> Option<Seq<char>> {
    match unpack {
        TgzUnpack::NotOpened { error } => Some("打开 tgz "@ + tgz + " 失败: "@ + error@),
        TgzUnpack::NotUnpacked { error } => Some("解压 tgz "@ + tgz + " 失败: "@ + error@),
        TgzUnpack::Unpacked => None,
    }
}

/// Reports what came of unpacking the compressed tar archive `tgz`.
pub fn extract_tgz(tgz: &str, unpack: TgzUnpack) -> (r: Result<(), String>)
    ensures
        match r {
            Ok(_) => tgz_failure(tgz@, unpack) is None,
            Err(e) => tgz_failure(tgz@, unpack) == Some(e@),
        },
{
    match unpack {
        TgzUnpack::NotOpened { error } => Err(
            cat4("打开 tgz ", tgz, " 失败: ", error.as_str()),
        ),
        TgzUnpack::NotUnpacked { error } => Err(
            cat4("解压 tgz ", tgz, " 失败: ", error.as_str()),
        ),
        TgzUnpack::Unpacked => Ok(()),
    }
}

// ---------------------------------------------------------------------------
// Laws
// ---------------------------------------------------------------------------

/// An entry of an archive: its name, if that may be used, and whether it is a directory.
pub ghost struct EntryView {
    pub name: Option<Seq<char>>,
    pub is_dir: bool,
}

impl EntryView {
    /// The event that answers the look-up of this entry.
    pub open spec fn answer(self) -> ExtractEventOf<Seq<char>> {
        match self.name {
            Some(name) => ExtractEventOf::Named { name, is_dir: self.is_dir },
            None => ExtractEventOf::Unnamed,
        }
    }
}

/// An extraction past an entry, where every operation that the entry asks for succeeds.
pub open spec fn past(
    run: ExtractRunOf<Seq<char>>,
    entry: EntryView,
) -> ExtractRunOf<Seq<char>> {
    let looked_up = run.after(entry.answer());
    if entry.name is None {
        looked_up
    } else if entry.is_dir {
        looked_up.after(ExtractEventOf::Done)
    } else if looked_up.phase == ExtractPhase::MakeParent {
        looked_up.after(ExtractEventOf::Done).after(ExtractEventOf::Done).after(
            ExtractEventOf::Done,
        )
    } else {
        looked_up.after(ExtractEventOf::Done).after(ExtractEventOf::Done)
    }
}

/// An extraction past a row of entries.
pub open spec fn past_all(
    run: ExtractRunOf<Seq<char>>,
    entries: Seq<EntryView>,
) -> ExtractRunOf<Seq<char>>
    decreases entries.len(),
{
    if entries.len() == 0 {
        run
    } else {
        past(past_all(run, entries.drop_last()), entries.last())
    }
}

/// An extraction deals with every entry of the archive, one after the other, and is over
/// once it has: past the first `k` entries it looks up the entry number `k`, and past all
/// of them it is finished.
pub proof fn lemma_every_entry_in_order(
    run: ExtractRunOf<Seq<char>>,
    entries: Seq<EntryView>,
)
    requires
        run.phase == (if run.count > 0 {
            ExtractPhase::Entry
        } else {
            ExtractPhase::Done
        }),
        run.index == 0,
        entries.len() <= run.count,
    ensures
        past_all(run, entries).index == entries.len(),
        past_all(run, entries).count == run.count,
        past_all(run, entries).dest == run.dest,
        past_all(run, entries).style == run.style,
        past_all(run, entries).wanted() == (if entries.len() < run.count {
            ExtractOpOf::<Seq<char>>::Lookup { index: entries.len() as u64 }
        } else {
            ExtractOpOf::<Seq<char>>::Finish
        }),
    decreases entries.len(),
{
    if entries.len() > 0 {
        lemma_every_entry_in_order(run, entries.drop_last());
    }
}

/// Nothing is written outside the directory that an archive is extracted into: an entry
/// without a name that may be used is passed over, and any other, whose name never leads
/// above its start, is placed below that directory once what `..` means is worked out.
pub proof fn lemma_extracted_inside(
    run: ExtractRunOf<Seq<char>>,
    name: Seq<char>,
    is_dir: bool,
)
    requires
        run.phase == ExtractPhase::Entry,
        path::is_settled(run.style, run.dest),
        path::is_verbatim(run.style, run.dest) ==> name.len() > 0,
        !path::starts_with_separator(run.style, name),
        !path::has_drive(run.style, name),
        path::stays_below(path::names(run.style, name)),
    ensures
        run.after(ExtractEventOf::Unnamed) == run.next(),
        ({
            let placed = run.after(ExtractEventOf::Named { name, is_dir });
            &&& path::prefix(run.style, placed.target) == path::prefix(run.style, run.dest)
            &&& path::is_absolute(run.style, placed.target) == path::is_absolute(
                run.style,
                run.dest,
            )
            &&& path::reached(run.style, placed.target) == path::reached(run.style, run.dest)
                + path::reached(run.style, name)
            &&& path::goes_down(path::reached(run.style, name))
            &&& path::goes_down(path::names(run.style, name)) ==> path::is_below(
                run.style,
                run.dest,
                path::names(run.style, name),
                placed.target,
            )
            &&& is_dir ==> placed.wanted() == (ExtractOpOf::MakeDir { dir: placed.target })
        }),
{
    path::lemma_join_names(run.style, run.dest, name);
    path::lemma_join_stays_below(run.style, run.dest, name);
}

/// How an extraction goes, step by step. The archive is opened and its entries are counted; a
/// directory is made where its name leads; a file is created there, once the directory that it
/// lies in is made, and written. An entry whose name may not be used is passed over. Whatever
/// fails is told with what it was about.
pub proof fn lemma_extract_steps(
    style: PathStyle,
    zip: Seq<char>,
    dest: Seq<char>,
    entries: u64,
    name: Seq<char>,
    x: Seq<char>,
)
    ensures
        ({
            let run = extract_start(style, zip, dest);
            let opened = run.after(ExtractEventOf::Done);
            let counted = opened.after(ExtractEventOf::Counted { entries });
            let target = path::join(style, dest, name);
            let dir = counted.after(ExtractEventOf::Named { name, is_dir: true });
            let file = counted.after(ExtractEventOf::Named { name, is_dir: false });
            &&& run.wanted() == (ExtractOpOf::Open { zip })
            &&& run.after(ExtractEventOf::Failed(x)).wanted() == (ExtractOpOf::Fail {
                error: "打开 zip "@ + zip + " 失败: "@ + x,
            })
            &&& opened.wanted() == ExtractOpOf::<Seq<char>>::Count
            &&& opened.after(ExtractEventOf::Failed(x)).wanted() == (ExtractOpOf::Fail {
                error: "读取 zip "@ + zip + " 失败: "@ + x,
            })
            &&& entries == 0 ==> counted.wanted() == ExtractOpOf::<Seq<char>>::Finish
            &&& entries > 0 ==> {
                &&& counted.wanted() == (ExtractOpOf::<Seq<char>>::Lookup { index: 0 })
                &&& dir.wanted() == (ExtractOpOf::MakeDir { dir: target })
                &&& path::parent(style, target) matches Some(p) ==> {
                    &&& file.wanted() == (ExtractOpOf::MakeDir { dir: p })
                    &&& file.after(ExtractEventOf::Done).wanted() == (ExtractOpOf::Create {
                        path: target,
                    })
                    &&& file.after(ExtractEventOf::Done).after(ExtractEventOf::Done).wanted() == (
                    ExtractOpOf::Copy { path: target })
                    &&& file.after(ExtractEventOf::Failed(x)).wanted() == (ExtractOpOf::Fail {
                        error: "创建目录 "@ + p + " 失败: "@ + x,
                    })
                }
                &&& path::parent(style, target) is None ==> file.wanted() == (ExtractOpOf::Create {
                    path: target,
                })
            }
        }),
{
}

/// The entry behind one that is done with, or that may not be used, is the next one; behind the
/// last one there is nothing more to do. What goes wrong with an entry is told with its number
/// or with its path.
pub proof fn lemma_next_entry(run: ExtractRunOf<Seq<char>>, x: Seq<char>)
    requires
        run.well_formed(),
        run.index < run.count,
    ensures
        ({
            let next = if run.index + 1 < run.count {
                ExtractOpOf::<Seq<char>>::Lookup { index: (run.index + 1) as u64 }
            } else {
                ExtractOpOf::<Seq<char>>::Finish
            };
            &&& run.phase == ExtractPhase::Entry ==> run.after(ExtractEventOf::Unnamed).wanted()
                == next
            &&& run.phase == ExtractPhase::MakeDir || run.phase == ExtractPhase::Copy ==> run.after(
                ExtractEventOf::Done,
            ).wanted() == next
            &&& run.phase == ExtractPhase::Entry ==> run.after(
                ExtractEventOf::Failed(x),
            ).wanted() == (ExtractOpOf::Fail {
                error: "读取 zip 条目 #"@ + text::decimal(run.index as nat) + " 失败: "@ + x,
            })
            &&& run.phase == ExtractPhase::MakeDir ==> run.after(
                ExtractEventOf::Failed(x),
            ).wanted() == (ExtractOpOf::Fail {
                error: "创建目录 "@ + run.target + " 失败: "@ + x,
            })
            &&& run.phase == ExtractPhase::Create ==> run.after(
                ExtractEventOf::Failed(x),
            ).wanted() == (ExtractOpOf::Fail {
                error: "创建文件 "@ + run.target + " 失败: "@ + x,
            })
            &&& run.phase == ExtractPhase::Copy ==> run.after(ExtractEventOf::Failed(x)).wanted()
                == (ExtractOpOf::Fail { error: "解压写入 "@ + run.target + " 失败: "@ + x })
        }),
{
}

/// What went wrong with a compressed archive is told with its path.
pub proof fn lemma_tgz_is_told(tgz: Seq<char>, unpack: TgzUnpack)
    ensures
        unpack is Unpacked <==> tgz_failure(tgz, unpack) is None,
        unpack matches TgzUnpack::NotOpened { error } ==> tgz_failure(tgz, unpack) == Some(
            "打开 tgz "@ + tgz + " 失败: "@ + error@,
        ),
        unpack matches TgzUnpack::NotUnpacked { error } ==> tgz_failure(tgz, unpack) == Some(
            "解压 tgz "@ + tgz + " 失败: "@ + error@,
        ),
{
}

} // verus!
