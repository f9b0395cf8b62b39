//! Running programs: how a tool is started on either system, the environment that keeps it
//! inside the working directory, and what is made of the way it ended.

use vstd::prelude::*;
use vstd::string::*;

use crate::i18n;
use crate::i18n::Lang;
use crate::node_manager::NodePaths;
use crate::path;
use crate::path::{join_path, last_name, PathStyle};
use crate::text;
use crate::text::{
    cat2, cat3, cat4, cat5, copy_text, extend_texts, join_texts, signed_text,
};

verus! {

broadcast use vstd::string::group_string_axioms;

// ---------------------------------------------------------------------------
// Commands
// ---------------------------------------------------------------------------

/// A program to start.
#[derive(Debug, Clone, PartialEq)]
pub struct Command {
    /// The program.
    pub program: String,
    /// Its arguments.
    pub args: Vec<String>,
    /// The directory that it works in.
    pub dir: String,
    /// Variables that are added to its environment, in this order.
    pub env: Vec<(String, String)>,
}

/// A program to start, as plain texts.
pub ghost struct CommandView {
    pub program: Seq<char>,
    pub args: Seq<Seq<char>>,
    pub dir: Seq<char>,
    pub env: Seq<(Seq<char>, Seq<char>)>,
}

/// The texts of a list of variables.
pub open spec fn pairs(list: Seq<(String, String)>) -> Seq<(Seq<char>, Seq<char>)> {
    list.map_values(|p: (String, String)| (p.0@, p.1@))
}

impl View for Command {
    type V = CommandView;

    open spec fn view(&self) -> CommandView {
        CommandView {
            program: self.program@,
            args: text::texts(self.args@),
            dir: self.dir@,
            env: pairs(self.env@),
        }
    }
}

/// The program that starts a tool: the tool itself, or on Windows the command interpreter,
/// which alone can start scripts.
pub open spec fn program_for(style: PathStyle, tool: Seq<char>) -> Seq<char> {
    match style {
        PathStyle::Unix => tool,
        PathStyle::Windows => "cmd"@,
    }
}

/// The arguments of that program.
pub open spec fn arguments_for(
    style: PathStyle,
    tool: Seq<char>,
    args: Seq<Seq<char>>,
) -> Seq<Seq<char>> {
    match style {
        PathStyle::Unix => args,
        PathStyle::Windows => seq!["/c"@, tool] + args,
    }
}

/// The program that starts a tool, and its arguments.
pub fn build_command(style: PathStyle, tool: &str, args: &[String]) -> (r: (String, Vec<String>))
    ensures
        r.0@ == program_for(style, tool@),
        text::texts(r.1@) == arguments_for(style, tool@, text::texts(args@)),
{
    let mut argv: Vec<String> = Vec::new();
    match style {
        PathStyle::Unix => {
            extend_texts(&mut argv, args);
            assert(text::texts(argv@) =~= text::texts(args@));
            (copy_text(tool), argv)
        },
        PathStyle::Windows => {
            argv.push(copy_text("/c"));
            argv.push(copy_text(tool));
            assert(text::texts(argv@) =~= seq!["/c"@, tool@]);
            extend_texts(&mut argv, args);
            (copy_text("cmd"), argv)
        },
    }
}

/// The variables that keep a tool inside the working directory: its programs are found in
/// the distribution first, its user configuration, its cache and what corepack fetches lie
/// in the working directory.
pub open spec fn runtime_env(
    style: PathStyle,
    bin_dir: Seq<char>,
    workspace_root: Seq<char>,
    inherited_path: Seq<char>,
) -> Seq<(Seq<char>, Seq<char>)> {
    seq![
        ("PATH"@, bin_dir + (match style {
            PathStyle::Unix => ":"@,
            PathStyle::Windows => ";"@,
        }) + inherited_path),
        ("NPM_CONFIG_USERCONFIG"@, path::join(style, workspace_root, "npmrc"@)),
        ("npm_config_cache"@, path::join(style, workspace_root, "npm-cache"@)),
        ("COREPACK_HOME"@, path::join(style, workspace_root, "corepack"@)),
    ]
}

/// The variables that keep a tool inside the working directory.
pub fn runtime_env_vars(
    style: PathStyle,
    node_paths: &NodePaths,
    workspace_root: &str,
    inherited_path: &str,
) -> (r: Vec<(String, String)>)
    ensures
        pairs(r@) == runtime_env(
            style,
            node_paths@.bin_dir,
            workspace_root@,
            inherited_path@,
        ),
{
    let sep: &str = match style {
        PathStyle::Unix => ":",
        PathStyle::Windows => ";",
    };
    let mut out: Vec<(String, String)> = Vec::new();
    out.push((copy_text("PATH"), cat3(node_paths.bin_dir.as_str(), sep, inherited_path)));
    out.push((copy_text("NPM_CONFIG_USERCONFIG"), join_path(style, workspace_root, "npmrc")));
    out.push((copy_text("npm_config_cache"), join_path(style, workspace_root, "npm-cache")));
    out.push((copy_text("COREPACK_HOME"), join_path(style, workspace_root, "corepack")));
    assert(pairs(out@) =~= runtime_env(
        style,
        node_paths@.bin_dir,
        workspace_root@,
        inherited_path@,
    ));
    out
}

/// A tool as it is started: in the directory `dir`, inside the working directory, and with
/// one more variable, if there is one.
pub open spec fn tool_call(
    style: PathStyle,
    tool: Seq<char>,
    args: Seq<Seq<char>>,
    dir: Seq<char>,
    env: Seq<(Seq<char>, Seq<char>)>,
    extra: Option<(Seq<char>, Seq<char>)>,
) -> CommandView {
    CommandView {
        program: program_for(style, tool),
        args: arguments_for(style, tool, args),
        dir,
        env: match extra {
            Some(p) => env.push(p),
            None => env,
        },
    }
}

/// A tool as it is started.
pub fn tool_command(
    style: PathStyle,
    tool: &str,
    args: &[String],
    dir: &str,
    env: Vec<(String, String)>,
    extra: Option<(String, String)>,
) -> (r: Command)
    ensures
        r@ == tool_call(
            style,
            tool@,
            text::texts(args@),
            dir@,
            pairs(env@),
            match extra {
                Some(p) => Some((p.0@, p.1@)),
                None => None,
            },
        ),
{
    let (program, argv) = build_command(style, tool, args);
    let mut env = env;
    let ghost before = env@;
    if let Some(p) = extra {
        env.push(p);
        assert(pairs(env@) =~= pairs(before).push((p.0@, p.1@)));
    }
    Command { program, args: argv, dir: copy_text(dir), env }
}

/// What is logged about a tool that is started: its name and its arguments.
pub open spec fn call_line(
    style: PathStyle,
    tool: Seq<char>,
    args: Seq<Seq<char>>,
) -> Seq<char> {
    "$ "@ + (match path::file_name(style, tool) {
        Some(n) => n,
        None => Seq::empty(),
    }) + " "@ + text::joined(args, " "@)
}

/// What is logged about a tool that is started.
pub fn call_log_line(style: PathStyle, tool: &str, args: &[String]) -> (r: String)
    ensures
        r@ == call_line(style, tool@, text::texts(args@)),
{
    let name = match last_name(style, tool) {
        Some(n) => n,
        None => String::new(),
    };
    cat4("$ ", name.as_str(), " ", join_texts(args, " ").as_str())
}

// ---------------------------------------------------------------------------
// How a tool ended
// ---------------------------------------------------------------------------

/// How a tool ended; `T` and `L` are `String` and `Vec<String>` in the program, and
/// `Seq<char>` and `Seq<Seq<char>>` in contracts.
#[derive(Debug, PartialEq)]
pub enum ToolEndOf<T, L> {
    /// It could not be started.
    NotStarted { error: T },
    /// It could not be waited for.
    NotAwaited { error: T },
    /// It ended, with this code unless it was killed, and wrote these lines to its standard
    /// output and to its standard error.
    Exited { code: Option<i32>, out: L, err: L },
}

/// How a tool ended.
pub type ToolEnd = ToolEndOf<String, Vec<String>>;

/// How a tool ended, as plain texts.
pub type ToolEndView = ToolEndOf<Seq<char>, Seq<Seq<char>>>;

impl View for ToolEndOf<String, Vec<String>> {
    type V = ToolEndOf<Seq<char>, Seq<Seq<char>>>;

    open spec fn view(&self) -> ToolEndOf<Seq<char>, Seq<Seq<char>>> {
        match *self {
            ToolEndOf::NotStarted { error } => ToolEndOf::NotStarted { error: error@ },
            ToolEndOf::NotAwaited { error } => ToolEndOf::NotAwaited { error: error@ },
            ToolEndOf::Exited { code, out, err } => ToolEndOf::Exited {
                code,
                out: text::texts(out@),
                err: text::texts(err@),
            },
        }
    }
}

/// How an exit code is shown.
pub open spec fn shown_code(code: Option<i32>) -> Seq<char> {
    match code {
        Some(n) => "Some("@ + text::signed_decimal(n as int) + ")"@,
        None => "None"@,
    }
}

/// Shows an exit code.
pub fn code_text(code: Option<i32>) -> (r: String)
    ensures
        r@ == shown_code(code),
{
    match code {
        Some(n) => cat3("Some(", signed_text(n).as_str(), ")"),
        None => copy_text("None"),
    }
}

/// The last `n` lines.
pub open spec fn last_lines(lines: Seq<Seq<char>>, n: nat) -> Seq<Seq<char>> {
    if lines.len() > n {
        lines.skip(lines.len() - n)
    } else {
        lines
    }
}

/// How many lines of what a tool wrote its failure shows.
pub const SHOWN_LINES: usize = 10;

/// The error that the end of a tool amounts to; none if it ended with code 0.
pub open spec fn tool_failure(
    tool: Seq<char>,
    args: Seq<Seq<char>>,
    end: ToolEndOf<Seq<char>, Seq<Seq<char>>>,
) -> Option<Seq<char>> {
    match end {
        ToolEndOf::NotStarted { error } => Some("启动 "@ + tool + " 失败: "@ + error),
        ToolEndOf::NotAwaited { error } => Some("等待命令退出失败: "@ + error),
        ToolEndOf::Exited { code, out, err } => if code == Some(0i32) {
            None
        } else {
            Some(
                text::joined(args, " "@) + " 退出码 "@ + shown_code(code) + "：\n"@
                    + text::joined(last_lines(out + err, SHOWN_LINES as nat), "\n"@),
            )
        },
    }
}

/// The last lines of what a tool wrote.
fn shown_lines(out: Vec<String>, err: Vec<String>) -> (r: String)
    ensures
        r@ == text::joined(
            last_lines(text::texts(out@) + text::texts(err@), SHOWN_LINES as nat),
            "\n"@,
        ),
{
    let mut all = out;
    extend_texts(&mut all, err.as_slice());
    let n: usize = all.len();
    let ghost whole = text::texts(all@);
    let mut shown: Vec<String> = Vec::new();
    let start: usize = if n > SHOWN_LINES {
        n - SHOWN_LINES
    } else {
        0
    };
    let mut i: usize = start;
    assert(text::texts(shown@) =~= whole.subrange(start as int, start as int));
    while i < n
        invariant
            n == all@.len(),
            start <= i <= n,
            whole == text::texts(all@),
            text::texts(shown@) == whole.subrange(start as int, i as int),
        decreases n - i,
    {
        let ghost before = shown@;
        shown.push(copy_text(all[i].as_str()));
        assert(text::texts(shown@) =~= text::texts(before).push(whole[i as int]));
        assert(text::texts(shown@) =~= whole.subrange(start as int, i + 1));
        i += 1;
    }
    assert(whole.subrange(start as int, n as int) =~= last_lines(whole, SHOWN_LINES as nat));
    join_texts(shown.as_slice(), "\n")
}

/// Reports how a tool ended.
pub fn run_tool_command(tool: &str, args: &[String], end: ToolEnd) -> (r: Result<(), String>)
    ensures
        match r {
            Ok(_) => tool_failure(tool@, text::texts(args@), end@) is None,
            Err(e) => tool_failure(tool@, text::texts(args@), end@) == Some(e@),
        },
{
    match end {
        ToolEndOf::NotStarted { error } => Err(
            cat4("启动 ", tool, " 失败: ", error.as_str()),
        ),
        ToolEndOf::NotAwaited { error } => Err(cat2("等待命令退出失败: ", error.as_str())),
        ToolEndOf::Exited { code, out, err } => {
            let fine = match code {
                Some(n) => n == 0,
                None => false,
            };
            if fine {
                Ok(())
            } else {
                Err(
                    cat5(
                        join_texts(args, " ").as_str(),
                        " 退出码 ",
                        code_text(code).as_str(),
                        "：\n",
                        shown_lines(out, err).as_str(),
                    ),
                )
            }
        },
    }
}

/// Counts the lines that a tool writes, so that the user sees that it is alive.
#[derive(Debug, PartialEq)]
pub struct LineMeter {
    /// The language of the user.
    pub lang: Lang,
    /// How many lines there were.
    pub lines: u64,
}

impl LineMeter {
    /// A meter that has seen no line.
    pub fn new(lang: Lang) -> (r: LineMeter)
        ensures
            r.lang == lang,
            r.lines == 0,
    {
        LineMeter { lang, lines: 0 }
    }

    /// Counts one more line and says how many there are.
    pub fn line_meter_log(&mut self) -> (r: String)
        requires
            old(self).lines < u64::MAX,
        ensures
            final(self).lines == old(self).lines + 1,
            final(self).lang == old(self).lang,
            r@ == i18n::lines_text(old(self).lang, (old(self).lines + 1) as nat),
    {
        self.lines = self.lines + 1;
        self.lang.progress_lines(self.lines)
    }
}

// ---------------------------------------------------------------------------
// Laws
// ---------------------------------------------------------------------------

/// A tool stays inside the working directory: its user configuration, its cache and what
/// corepack fetches lie right in it, and programs are looked for in the distribution first.
pub proof fn lemma_environment_is_isolated(
    style: PathStyle,
    bin_dir: Seq<char>,
    workspace_root: Seq<char>,
    inherited_path: Seq<char>,
)
    requires
        path::is_settled(style, workspace_root),
    ensures
        ({
            let env = runtime_env(style, bin_dir, workspace_root, inherited_path);
            &&& env[0].0 == "PATH"@
            &&& bin_dir.is_prefix_of(env[0].1)
            &&& inherited_path.is_suffix_of(env[0].1)
            &&& env.len() == 4
            &&& path::is_below(style, workspace_root, seq!["npmrc"@], env[1].1)
            &&& path::is_below(style, workspace_root, seq!["npm-cache"@], env[2].1)
            &&& path::is_below(style, workspace_root, seq!["corepack"@], env[3].1)
        }),
{
    assert(path::is_plain_name(style, "npmrc"@) && !path::has_drive(style, "npmrc"@)) by {
        reveal_strlit("npmrc");
        reveal_strlit(".");
        reveal_strlit("..");
    }
    assert(path::is_plain_name(style, "npm-cache"@) && !path::has_drive(style, "npm-cache"@)) by {
        reveal_strlit("npm-cache");
        reveal_strlit(".");
        reveal_strlit("..");
    }
    assert(path::is_plain_name(style, "corepack"@) && !path::has_drive(style, "corepack"@)) by {
        reveal_strlit("corepack");
        reveal_strlit(".");
        reveal_strlit("..");
    }
    path::lemma_join_plain(style, workspace_root, "npmrc"@);
    path::lemma_join_plain(style, workspace_root, "npm-cache"@);
    path::lemma_join_plain(style, workspace_root, "corepack"@);
    let env = runtime_env(style, bin_dir, workspace_root, inherited_path);
    let p = env[0].1;
    assert(bin_dir =~= p.subrange(0, bin_dir.len() as int));
    assert(inherited_path =~= p.subrange(p.len() - inherited_path.len(), p.len() as int));
}

/// A tool succeeded exactly if it was started, awaited and ended with code 0.
pub proof fn lemma_tool_succeeds(
    tool: Seq<char>,
    args: Seq<Seq<char>>,
    end: ToolEndOf<Seq<char>, Seq<Seq<char>>>,
)
    ensures
        tool_failure(tool, args, end) is None <==> (end matches ToolEndOf::Exited { code, .. }
            && code == Some(0i32)),
{
}

/// What a failure shows of a tool's lines is their end: at most ten of them, and all of
/// them if there are no more.
pub proof fn lemma_last_lines(lines: Seq<Seq<char>>, n: nat)
    ensures
        last_lines(lines, n).len() == if lines.len() <= n {
            lines.len()
        } else {
            n
        },
        last_lines(lines, n).is_suffix_of(lines),
{
    assert(last_lines(lines, n) =~= lines.subrange(
        lines.len() - last_lines(lines, n).len(),
        lines.len() as int,
    ));
}

/// How a tool is started: with its own arguments, in the directory that it is to work in, and
/// with every variable that it is given, one more among them if there is one. On Windows the
/// command interpreter starts it.
pub proof fn lemma_tool_is_started(
    style: PathStyle,
    tool: Seq<char>,
    args: Seq<Seq<char>>,
    dir: Seq<char>,
    env: Seq<(Seq<char>, Seq<char>)>,
    extra: Option<(Seq<char>, Seq<char>)>,
)
    ensures
        ({
            let c = tool_call(style, tool, args, dir, env, extra);
            &&& c.dir == dir
            &&& style == PathStyle::Unix ==> c.program == tool && c.args == args
            &&& style == PathStyle::Windows ==> c.program == "cmd"@ && c.args == seq!["/c"@, tool]
                + args
            &&& extra is None ==> c.env == env
            &&& extra matches Some(p) ==> c.env == env.push(p)
        }),
{
}

/// Which variables keep a tool inside the working directory, and what they say: where programs
/// are looked for, with the distribution before everything else; npm's user configuration; its
/// cache; and where corepack puts what it fetches.
pub proof fn lemma_environment(
    style: PathStyle,
    bin_dir: Seq<char>,
    workspace_root: Seq<char>,
    inherited_path: Seq<char>,
)
    ensures
        ({
            let env = runtime_env(style, bin_dir, workspace_root, inherited_path);
            &&& env.len() == 4
            &&& env[0].0 == "PATH"@
            &&& style == PathStyle::Unix ==> env[0].1 == bin_dir + ":"@ + inherited_path
            &&& style == PathStyle::Windows ==> env[0].1 == bin_dir + ";"@ + inherited_path
            &&& env[1] == ("NPM_CONFIG_USERCONFIG"@, path::join(style, workspace_root, "npmrc"@))
            &&& env[2] == ("npm_config_cache"@, path::join(style, workspace_root, "npm-cache"@))
            &&& env[3] == ("COREPACK_HOME"@, path::join(style, workspace_root, "corepack"@))
        }),
{
}

/// How a tool that did not end well is told: one that could not be started by its path; one
/// that could not be awaited; one that ended otherwise by its arguments, its code, and the last
/// ten of its lines, those of its output before those of its errors.
pub proof fn lemma_failure_is_told(
    tool: Seq<char>,
    args: Seq<Seq<char>>,
    error: Seq<char>,
    code: Option<i32>,
    out: Seq<Seq<char>>,
    err: Seq<Seq<char>>,
)
    ensures
        tool_failure(tool, args, ToolEndOf::NotStarted { error }) == Some(
            "启动 "@ + tool + " 失败: "@ + error,
        ),
        tool_failure(tool, args, ToolEndOf::NotAwaited { error }) == Some(
            "等待命令退出失败: "@ + error,
        ),
        code != Some(0i32) ==> {
            let all = out + err;
            let shown = if all.len() > 10 {
                all.skip(all.len() - 10)
            } else {
                all
            };
            let number = match code {
                Some(n) => if n < 0 {
                    "Some("@ + ("-"@ + text::decimal((-n) as nat)) + ")"@
                } else {
                    "Some("@ + text::decimal(n as nat) + ")"@
                },
                None => "None"@,
            };
            tool_failure(tool, args, ToolEndOf::Exited { code, out, err }) == Some(
                text::joined(args, " "@) + " 退出码 "@ + number + "：\n"@ + text::joined(
                    shown,
                    "\n"@,
                ),
            )
        },
{
}

/// The line that announces a tool shows the last name of its path, and its arguments.
pub proof fn lemma_announcement(style: PathStyle, tool: Seq<char>, args: Seq<Seq<char>>)
    ensures
        path::file_name(style, tool) matches Some(n) ==> call_line(style, tool, args) == "$ "@ + n
            + " "@ + text::joined(args, " "@),
        path::file_name(style, tool) is None ==> call_line(style, tool, args) == "$ "@
            + Seq::<char>::empty() + " "@ + text::joined(args, " "@),
{
}

} // verus!
