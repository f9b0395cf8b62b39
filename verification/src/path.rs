//! Paths as texts, in the notation of the system that the runtime works on.

use vstd::prelude::*;
use vstd::string::*;

use crate::text;
use crate::text::{chars_of, copy_text, join_texts, run_end, same, split_words, tail, Separator};

verus! {

broadcast use vstd::string::group_string_axioms;

/// The notation in which a system writes paths.
#[derive(Clone, Copy, PartialEq, Eq, Structural, Debug)]
pub enum PathStyle {
    /// Names are separated by `/`.
    Unix,
    /// Names are separated by `\` or `/`; a drive letter may come first.
    Windows,
}

impl PathStyle {
    /// The characters that separate names.
    pub open spec fn separator(self) -> Separator {
        match self {
            PathStyle::Unix => Separator::Slash,
            PathStyle::Windows => Separator::AnySlash,
        }
    }

    /// The character that is written between two names.
    pub open spec fn mark(self) -> Seq<char> {
        match self {
            PathStyle::Unix => "/"@,
            PathStyle::Windows => "\\"@,
        }
    }

    /// The characters that separate names, for executable code.
    fn separator_of(self) -> (r: Separator)
        ensures
            r == self.separator(),
    {
        match self {
            PathStyle::Unix => Separator::Slash,
            PathStyle::Windows => Separator::AnySlash,
        }
    }

    /// The text that is written between two names.
    pub fn mark_text(self) -> (r: &'static str)
        ensures
            r@ == self.mark(),
    {
        match self {
            PathStyle::Unix => "/",
            PathStyle::Windows => "\\",
        }
    }
}

// ---------------------------------------------------------------------------
// Anchors
// ---------------------------------------------------------------------------

/// Whether a character is an ASCII letter.
pub open spec fn is_letter(c: char) -> bool {
    'a' <= c <= 'z' || 'A' <= c <= 'Z'
}

/// Whether a path starts with a drive, such as `C:`.
pub open spec fn has_drive(style: PathStyle, p: Seq<char>) -> bool {
    style == PathStyle::Windows && p.len() >= 2 && is_letter(p[0]) && p[1] == ':'
}

/// Whether the first character of a text separates names.
pub open spec fn starts_with_separator(style: PathStyle, p: Seq<char>) -> bool {
    p.len() > 0 && style.separator().has(p[0])
}

/// Whether a path starts with two separators, as one to a network share does.
pub open spec fn has_two_separators(style: PathStyle, p: Seq<char>) -> bool {
    style == PathStyle::Windows && p.len() >= 2 && Separator::AnySlash.has(p[0])
        && Separator::AnySlash.has(p[1])
}

/// Whether a path starts with `\\?\`: such a path is taken as it stands, and `/` is a
/// character like any other in it.
pub open spec fn is_verbatim(style: PathStyle, p: Seq<char>) -> bool {
    style == PathStyle::Windows && p.len() >= 4 && p[0] == '\\' && p[1] == '\\' && p[2] == '?'
        && p[3] == '\\'
}

/// Whether a path starts with `\\.\`, as one to a device does.
pub open spec fn is_device(style: PathStyle, p: Seq<char>) -> bool {
    has_two_separators(style, p) && p.len() >= 4 && p[2] == '.' && Separator::AnySlash.has(p[3])
}

/// Where the name that starts at `i` ends.
pub open spec fn name_end(p: Seq<char>, sep: Separator, i: int) -> int {
    i + text::run_len(p.skip(i), sep, false)
}

/// Where a server at `i` and the share behind it end; where the server ends, if no share
/// is named.
pub open spec fn share_end(p: Seq<char>, sep: Separator, i: int) -> int {
    let server = name_end(p, sep, i);
    if server < p.len() && name_end(p, sep, server + 1) > server + 1 {
        name_end(p, sep, server + 1)
    } else {
        server
    }
}

/// Whether a path starts with a server and a share, as `\\server\share` does.
pub open spec fn has_share(style: PathStyle, p: Seq<char>) -> bool {
    &&& has_two_separators(style, p)
    &&& !is_verbatim(style, p)
    &&& !is_device(style, p)
    &&& 2 < name_end(p, Separator::AnySlash, 2) < share_end(p, Separator::AnySlash, 2)
}

/// Whether `UNC\` follows the `\\?\` of a path, so that a server and a share come next.
pub open spec fn has_verbatim_share(p: Seq<char>) -> bool {
    p.len() >= 8 && p[4] == 'U' && p[5] == 'N' && p[6] == 'C' && Separator::AnySlash.has(p[7])
}

/// Whether a drive alone follows the `\\?\` of a path.
pub open spec fn has_verbatim_drive(p: Seq<char>) -> bool {
    p.len() >= 6 && is_letter(p[4]) && p[5] == ':' && (p.len() == 6 || Separator::AnySlash.has(p[6]))
}

/// How many characters at the start of a path say on which drive, share or device it lies;
/// 0 if nothing says so.
pub open spec fn prefix_len(style: PathStyle, p: Seq<char>) -> int {
    if has_drive(style, p) {
        2
    } else if is_verbatim(style, p) {
        if has_verbatim_share(p) {
            share_end(p, Separator::Backslash, 8)
        } else if has_verbatim_drive(p) {
            6
        } else {
            name_end(p, Separator::Backslash, 4)
        }
    } else if is_device(style, p) {
        name_end(p, Separator::AnySlash, 4)
    } else if has_share(style, p) {
        share_end(p, Separator::AnySlash, 2)
    } else {
        0
    }
}

/// The drive, share or device that a path starts with.
pub open spec fn prefix(style: PathStyle, p: Seq<char>) -> Seq<char> {
    p.take(prefix_len(style, p))
}

/// Whether a separator stands behind the prefix of a path, so that the path starts at the
/// root of what the prefix says.
pub open spec fn has_root(style: PathStyle, p: Seq<char>) -> bool {
    starts_with_separator(style, p.skip(prefix_len(style, p)))
}

/// The characters that separate the names of this path.
pub open spec fn name_separator(style: PathStyle, p: Seq<char>) -> Separator {
    if is_verbatim(style, p) {
        Separator::Backslash
    } else {
        style.separator()
    }
}

/// Whether a path names a place by itself: from the root on Unix; from the root of a
/// drive, or on a share or a device, on Windows.
pub open spec fn is_absolute(style: PathStyle, p: Seq<char>) -> bool {
    match style {
        PathStyle::Unix => has_root(style, p),
        PathStyle::Windows => prefix_len(style, p) > 0 && (has_drive(style, p) ==> has_root(
            style,
            p,
        )),
    }
}

/// How many characters at the start of a path say where it starts, rather than name
/// something: its prefix, and the separator behind that.
pub open spec fn anchor_len(style: PathStyle, p: Seq<char>) -> int {
    prefix_len(style, p) + if has_root(style, p) {
        1int
    } else {
        0
    }
}

// ---------------------------------------------------------------------------
// Names
// ---------------------------------------------------------------------------

/// The names of a path in order, without those that mean the directory itself. In a verbatim
/// path every name counts.
pub open spec fn names(style: PathStyle, p: Seq<char>) -> Seq<Seq<char>> {
    let all = text::words(p.skip(anchor_len(style, p)), name_separator(style, p));
    if is_verbatim(style, p) {
        all
    } else {
        all.filter(|w: Seq<char>| w != "."@)
    }
}

/// Where one gets from the names `start` by taking `steps` one after the other: `..` takes
/// back a name, if one that can be taken back comes last.
pub open spec fn walked(start: Seq<Seq<char>>, steps: Seq<Seq<char>>) -> Seq<Seq<char>>
    decreases steps.len(),
{
    if steps.len() == 0 {
        start
    } else {
        let at = walked(start, steps.drop_last());
        if steps.last() != ".."@ {
            at.push(steps.last())
        } else if at.len() > 0 && at.last() != ".."@ && at.last() != "."@ {
            at.drop_last()
        } else {
            at
        }
    }
}

/// How many names `steps` go down, less how many they go up.
pub open spec fn depth(steps: Seq<Seq<char>>) -> int
    decreases steps.len(),
{
    if steps.len() == 0 {
        0
    } else {
        depth(steps.drop_last()) + if steps.last() == ".."@ {
            -1int
        } else {
            1int
        }
    }
}

/// Whether `steps` never lead above the place that they are taken from.
pub open spec fn stays_below(steps: Seq<Seq<char>>) -> bool {
    forall|k: int| 0 <= k <= steps.len() ==> depth(#[trigger] steps.take(k)) >= 0
}

/// Whether nothing is written between `base` and a name that follows it.
pub open spec fn needs_no_mark(style: PathStyle, base: Seq<char>) -> bool {
    ||| base.len() == 0
    ||| style.separator().has(base.last())
    ||| has_drive(style, base) && base.len() == 2
}

/// `name` taken from a verbatim `base`: what `.` and `..` mean is worked out, and all names
/// are written anew.
pub open spec fn join_verbatim(style: PathStyle, base: Seq<char>, name: Seq<char>) -> Seq<char> {
    let at_root = starts_with_separator(style, name);
    let start = if at_root {
        Seq::empty()
    } else {
        names(style, base)
    };
    let all = walked(start, names(style, name));
    if all.len() > 0 {
        prefix(style, base) + (style.mark() + text::joined(all, style.mark()))
    } else if at_root || has_root(style, base) {
        prefix(style, base) + style.mark()
    } else {
        prefix(style, base)
    }
}

/// `name` taken from `base`: an absolute name, or one with a prefix, stands for itself;
/// one that starts at the root keeps the prefix of `base`; any other is written behind
/// `base`.
pub open spec fn join(style: PathStyle, base: Seq<char>, name: Seq<char>) -> Seq<char> {
    if is_absolute(style, name) || prefix_len(style, name) > 0 {
        name
    } else if is_verbatim(style, base) && name.len() > 0 {
        join_verbatim(style, base, name)
    } else if starts_with_separator(style, name) {
        prefix(style, base) + name
    } else if needs_no_mark(style, base) {
        base + name
    } else {
        base + style.mark() + name
    }
}

/// `join` with two names, one after the other.
pub open spec fn join2(style: PathStyle, base: Seq<char>, a: Seq<char>, b: Seq<char>) -> Seq<char> {
    join(style, join(style, base, a), b)
}

/// The last name of a path; none if the path has no name or goes up at its end.
pub open spec fn file_name(style: PathStyle, p: Seq<char>) -> Option<Seq<char>> {
    let all = names(style, p);
    if all.len() == 0 || all.last() == ".."@ || all.last() == "."@ {
        None
    } else {
        Some(all.last())
    }
}

/// The position of the last dot of a name; -1 if it has none.
pub open spec fn last_dot(name: Seq<char>) -> int
    decreases name.len(),
{
    if name.len() == 0 {
        -1
    } else if name.last() == '.' {
        name.len() - 1
    } else {
        last_dot(name.drop_last())
    }
}

/// What stands behind the last dot of a name, unless that dot comes first.
pub open spec fn extension(name: Seq<char>) -> Option<Seq<char>> {
    if last_dot(name) > 0 {
        Some(name.skip(last_dot(name) + 1))
    } else {
        None
    }
}

/// A name without its extension and the dot before it.
pub open spec fn stem(name: Seq<char>) -> Seq<char> {
    if last_dot(name) > 0 {
        name.take(last_dot(name))
    } else {
        name
    }
}

/// A name whose extension, if it has one, gave way to `ext`.
pub open spec fn with_extension(name: Seq<char>, ext: Seq<char>) -> Seq<char> {
    stem(name) + "."@ + ext
}

/// How much of the first `n` characters of a path is left, once separators and names that
/// mean the directory itself are gone from the end.
pub open spec fn trimmed_len(style: PathStyle, p: Seq<char>, n: nat) -> nat
    decreases n,
{
    if n <= anchor_len(style, p) || n > p.len() {
        n
    } else if name_separator(style, p).has(p[n - 1]) {
        trimmed_len(style, p, (n - 1) as nat)
    } else if p[n - 1] == '.' && n >= 2 && style.separator().has(p[n - 2]) && !is_verbatim(
        style,
        p,
    ) {
        trimmed_len(style, p, (n - 1) as nat)
    } else {
        n
    }
}

/// How much of the first `n` characters of a path is left, once the last name is gone.
pub open spec fn unnamed_len(style: PathStyle, p: Seq<char>, n: nat) -> nat
    decreases n,
{
    if n <= anchor_len(style, p) || n > p.len() || name_separator(style, p).has(p[n - 1]) {
        n
    } else {
        unnamed_len(style, p, (n - 1) as nat)
    }
}

/// The path of the directory that a path lies in; none if the path has no name.
pub open spec fn parent(style: PathStyle, p: Seq<char>) -> Option<Seq<char>> {
    let n = trimmed_len(style, p, p.len());
    if n <= anchor_len(style, p) {
        None
    } else {
        Some(p.take(trimmed_len(style, p, unnamed_len(style, p, n)) as int))
    }
}

/// Where the last name of a path starts.
pub open spec fn name_start(style: PathStyle, p: Seq<char>) -> nat {
    unnamed_len(style, p, trimmed_len(style, p, p.len()))
}

/// The last name of a path as it stands there, `..` and `.` too.
pub open spec fn last_piece(style: PathStyle, p: Seq<char>) -> Seq<char> {
    p.subrange(name_start(style, p) as int, trimmed_len(style, p, p.len()) as int)
}

/// Whether a path ends with the name of something, which may be a file.
pub open spec fn ends_with_name(style: PathStyle, p: Seq<char>) -> bool {
    &&& anchor_len(style, p) < trimmed_len(style, p, p.len())
    &&& last_piece(style, p) != ".."@
    &&& last_piece(style, p) != "."@
}

/// A path with another extension in its last name; the path itself if it does not end with
/// a name.
pub open spec fn path_with_extension(
    style: PathStyle,
    p: Seq<char>,
    ext: Seq<char>,
) -> Seq<char> {
    if ends_with_name(style, p) {
        p.take(name_start(style, p) as int) + with_extension(last_piece(style, p), ext)
    } else {
        p
    }
}

/// Whether a text holds no character that separates names.
pub open spec fn is_one_piece(style: PathStyle, s: Seq<char>) -> bool {
    forall|j: int| 0 <= j < s.len() ==> !style.separator().has(#[trigger] s[j])
}

/// Whether a text is one plain name: not empty, without a separator, and neither `.`
/// nor `..`.
pub open spec fn is_plain_name(style: PathStyle, name: Seq<char>) -> bool {
    &&& name.len() > 0
    &&& name != "."@
    &&& name != ".."@
    &&& is_one_piece(style, name)
}

/// Whether two paths have prefixes of one length, and are both verbatim or both not.
pub open spec fn same_prefix(style: PathStyle, a: Seq<char>, b: Seq<char>) -> bool {
    prefix_len(style, a) == prefix_len(style, b) && is_verbatim(style, a) == is_verbatim(style, b)
}

/// Whether the text `t` can follow the path `b` as more names do: set off by exactly one
/// separator where one is needed.
pub open spec fn can_follow(style: PathStyle, b: Seq<char>, t: Seq<char>) -> bool {
    ||| t.len() == 0
    ||| b.len() == 0 && !starts_with_separator(style, t) && !has_drive(style, t)
    ||| b.len() > 0 && style.separator().has(b.last()) && !starts_with_separator(style, t)
    ||| b.len() == 2 && has_drive(style, b)
    ||| b.len() > 0 && !style.separator().has(b.last()) && starts_with_separator(style, t)
}

/// Whether the prefix of a path stays what it is when names are written behind it. That of
/// `\\server` does not: with a name behind it, it becomes `\\server\share`.
pub open spec fn is_settled(style: PathStyle, b: Seq<char>) -> bool {
    if is_verbatim(style, b) {
        forall|t: Seq<char>|
            t.len() == 0 || t[0] == '\\' ==> #[trigger] same_prefix(style, b, prefix(style, b) + t)
    } else {
        forall|t: Seq<char>|
            can_follow(style, b, t) ==> #[trigger] same_prefix(style, b, b + t)
    }
}

/// Whether no name is `..`.
pub open spec fn goes_down(steps: Seq<Seq<char>>) -> bool {
    forall|i: int| 0 <= i < steps.len() ==> #[trigger] steps[i] != ".."@
}

/// Whether `p` is where one gets from `top` by the names `rest`, one below the other: it
/// lies on the same drive or share, is absolute exactly if `top` is, and its names are those
/// of `top` and then `rest`, none of which leads up.
pub open spec fn is_below(
    style: PathStyle,
    top: Seq<char>,
    rest: Seq<Seq<char>>,
    p: Seq<char>,
) -> bool {
    &&& prefix(style, p) == prefix(style, top)
    &&& is_absolute(style, p) == is_absolute(style, top)
    &&& names(style, p) == names(style, top) + rest
    &&& goes_down(rest)
}

/// The names that are left of a path once what `..` means in it is worked out.
pub open spec fn reached(style: PathStyle, p: Seq<char>) -> Seq<Seq<char>> {
    walked(Seq::empty(), names(style, p))
}

// ---------------------------------------------------------------------------
// Laws
// ---------------------------------------------------------------------------

/// A prefix lies inside its path.
pub proof fn lemma_prefix_len(style: PathStyle, p: Seq<char>)
    ensures
        0 <= prefix_len(style, p) <= anchor_len(style, p) <= p.len(),
        style == PathStyle::Unix ==> prefix_len(style, p) == 0,
        is_verbatim(style, p) ==> prefix_len(style, p) >= 4,
{
    let b = Separator::Backslash;
    let any = Separator::AnySlash;
    if is_verbatim(style, p) {
        text::lemma_run_len(p.skip(4), b, false);
        if p.len() >= 8 {
            text::lemma_run_len(p.skip(8), b, false);
            let server = name_end(p, b, 8);
            if server < p.len() {
                text::lemma_run_len(p.skip(server + 1), b, false);
            }
        }
    } else if has_two_separators(style, p) {
        if p.len() >= 4 {
            text::lemma_run_len(p.skip(4), any, false);
        }
        text::lemma_run_len(p.skip(2), any, false);
        let server = name_end(p, any, 2);
        if server < p.len() {
            text::lemma_run_len(p.skip(server + 1), any, false);
        }
    }
}

/// A path that starts neither at a separator nor with a drive has no prefix.
pub proof fn lemma_no_prefix(style: PathStyle, p: Seq<char>)
    requires
        !starts_with_separator(style, p),
        !has_drive(style, p),
    ensures
        prefix_len(style, p) == 0,
        anchor_len(style, p) == 0,
        !is_verbatim(style, p),
        !is_absolute(style, p),
{
    assert(p.skip(0) =~= p);
}

/// The names of a path are those behind its prefix.
proof fn lemma_names_behind_prefix(style: PathStyle, p: Seq<char>)
    requires
        !is_verbatim(style, p),
    ensures
        names(style, p) == text::words(p.skip(prefix_len(style, p)), style.separator()).filter(
            |w: Seq<char>| w != "."@,
        ),
{
    let n = prefix_len(style, p);
    lemma_prefix_len(style, p);
    if has_root(style, p) {
        let rest = p.skip(n + 1);
        assert(p.skip(n) =~= seq![p[n]] + rest);
        assert(p.skip(n)[0] == p[n]);
        text::lemma_leading_separator(p[n], rest, style.separator());
    }
}

/// Steps that only go down are taken as they stand.
pub proof fn lemma_walk_down(start: Seq<Seq<char>>, steps: Seq<Seq<char>>)
    requires
        goes_down(steps),
    ensures
        walked(start, steps) == start + steps,
        stays_below(steps),
    decreases steps.len(),
{
    if steps.len() > 0 {
        let front = steps.drop_last();
        assert forall|i: int| 0 <= i < front.len() implies #[trigger] front[i] != ".."@ by {
            assert(front[i] == steps[i]);
        }
        lemma_walk_down(start, front);
        assert(steps.last() == steps[steps.len() - 1]);
        assert(start + steps =~= (start + front).push(steps.last()));
    }
    lemma_depth_of_descent(steps);
}

/// Steps that only go down lead as deep as there are steps.
proof fn lemma_depth_of_descent(steps: Seq<Seq<char>>)
    requires
        goes_down(steps),
    ensures
        stays_below(steps),
{
    assert forall|k: int| 0 <= k <= steps.len() implies depth(#[trigger] steps.take(k)) >= 0 by {
        lemma_depth_of_take(steps, k);
    }
}

/// The depth after the first `k` of steps that only go down.
proof fn lemma_depth_of_take(steps: Seq<Seq<char>>, k: int)
    requires
        goes_down(steps),
        0 <= k <= steps.len(),
    ensures
        depth(steps.take(k)) == k,
    decreases k,
{
    if k > 0 {
        lemma_depth_of_take(steps, k - 1);
        assert(steps.take(k).drop_last() =~= steps.take(k - 1));
        assert(steps.take(k).last() == steps[k - 1]);
    }
}

/// Steps that never lead above their start end below it: the names that one starts from
/// stay in front, whatever they are, and those that are reached stand behind them.
pub proof fn lemma_walk_stays_below(start: Seq<Seq<char>>, steps: Seq<Seq<char>>)
    requires
        stays_below(steps),
        forall|i: int| 0 <= i < steps.len() ==> #[trigger] steps[i] != "."@,
    ensures
        walked(start, steps) == start + walked(Seq::empty(), steps),
        walked(Seq::empty(), steps).len() == depth(steps),
        goes_down(walked(Seq::empty(), steps)),
        forall|i: int|
            0 <= i < walked(Seq::empty(), steps).len() ==> #[trigger] walked(
                Seq::empty(),
                steps,
            )[i] != "."@,
    decreases steps.len(),
{
    let none = Seq::<Seq<char>>::empty();
    if steps.len() == 0 {
        assert(start + none =~= start);
    } else {
        let front = steps.drop_last();
        assert forall|k: int| 0 <= k <= front.len() implies depth(#[trigger] front.take(k)) >= 0 by {
            assert(front.take(k) =~= steps.take(k));
        }
        assert forall|i: int| 0 <= i < front.len() implies #[trigger] front[i] != "."@ by {
            assert(front[i] == steps[i]);
        }
        lemma_walk_stays_below(start, front);
        let below = walked(none, front);
        let reached = walked(none, steps);
        assert(steps.last() == steps[steps.len() - 1]);
        assert(steps.take(steps.len() as int) =~= steps);
        if steps.last() == ".."@ {
            assert(below.len() > 0);
            assert(below.last() == below[below.len() - 1]);
            assert((start + below).last() == below.last());
            assert((start + below).drop_last() =~= start + below.drop_last());
            assert forall|i: int| 0 <= i < reached.len() implies #[trigger] reached[i] != ".."@
                && reached[i] != "."@ by {
                assert(reached[i] == below[i]);
            }
        } else {
            assert((start + below).push(steps.last()) =~= start + below.push(steps.last()));
            assert forall|i: int| 0 <= i < reached.len() implies #[trigger] reached[i] != ".."@
                && reached[i] != "."@ by {
                if i < below.len() {
                    assert(reached[i] == below[i]);
                }
            }
        }
    }
}

/// Every name that is reached is one of those that one started from or one of the steps.
proof fn lemma_walked_names(start: Seq<Seq<char>>, steps: Seq<Seq<char>>, i: int)
    requires
        0 <= i < walked(start, steps).len(),
    ensures
        start.contains(walked(start, steps)[i]) || steps.contains(walked(start, steps)[i]),
    decreases steps.len(),
{
    if steps.len() > 0 {
        let front = steps.drop_last();
        let at = walked(start, front);
        if i < at.len() {
            lemma_walked_names(start, front, i);
            assert(walked(start, steps)[i] == at[i]);
            if front.contains(at[i]) {
                let k = choose|k: int| 0 <= k < front.len() && front[k] == at[i];
                assert(steps[k] == at[i]);
            }
        } else {
            assert(steps[steps.len() - 1] == walked(start, steps)[i]);
        }
    } else {
        assert(start[i] == walked(start, steps)[i]);
    }
}

/// The prefix and the names of what is joined to a verbatim path.
proof fn lemma_join_verbatim(style: PathStyle, base: Seq<char>, name: Seq<char>)
    requires
        is_verbatim(style, base),
        is_settled(style, base),
        !starts_with_separator(style, name),
        !has_drive(style, name),
    ensures
        prefix(style, join_verbatim(style, base, name)) == prefix(style, base),
        same_prefix(style, base, join_verbatim(style, base, name)),
        names(style, join_verbatim(style, base, name)) == walked(
            names(style, base),
            names(style, name),
        ),
{
    reveal_strlit("\\");
    let p = join_verbatim(style, base, name);
    let n = prefix_len(style, base);
    let front = prefix(style, base);
    let all = walked(names(style, base), names(style, name));
    let sep = Separator::Backslash;
    lemma_prefix_len(style, base);
    lemma_no_prefix(style, name);
    assert(style.mark() =~= seq!['\\']);
    let t = p.skip(n);
    assert(front.len() == n);
    assert(p.take(n) =~= front);
    assert(p =~= front + t);
    if all.len() > 0 {
        let rest = text::joined(all, style.mark());
        assert(t =~= style.mark() + rest);
        assert(same_prefix(style, base, front + t));
        assert(p.skip(n + 1) =~= rest);
        lemma_names(style, base);
        lemma_names(style, name);
        assert forall|i: int| #![trigger all[i]] 0 <= i < all.len() implies all[i].len() > 0
            && forall|j: int| 0 <= j < all[i].len() ==> !sep.has(#[trigger] all[i][j]) by {
            lemma_walked_names(names(style, base), names(style, name), i);
            let w = all[i];
            if names(style, base).contains(w) {
                let k = choose|k: int| 0 <= k < names(style, base).len() && names(style, base)[k] == w;
                assert(names(style, base)[k].len() > 0);
            } else {
                let k = choose|k: int| 0 <= k < names(style, name).len() && names(style, name)[k] == w;
                assert(names(style, name)[k].len() > 0);
                assert forall|j: int| 0 <= j < w.len() implies !sep.has(#[trigger] w[j]) by {
                    assert(!style.separator().has(names(style, name)[k][j]));
                }
            }
        }
        text::lemma_words_of_joined(all, '\\', sep);
    } else {
        assert(same_prefix(style, base, front + t));
        assert(text::words(Seq::<char>::empty(), sep) =~= Seq::<Seq<char>>::empty());
        assert(p.skip(anchor_len(style, p)) =~= Seq::<char>::empty());
        assert(all =~= Seq::<Seq<char>>::empty());
    }
}

/// A joined path has the prefix of its base, and its names are those of the base and then
/// those of the name that was joined. From a verbatim base, what `..` means is worked out.
pub proof fn lemma_join_names(style: PathStyle, base: Seq<char>, name: Seq<char>)
    requires
        is_settled(style, base),
        !starts_with_separator(style, name),
        !has_drive(style, name),
        is_verbatim(style, base) ==> name.len() > 0,
    ensures
        is_settled(style, join(style, base, name)),
        same_prefix(style, base, join(style, base, name)),
        prefix(style, join(style, base, name)) == prefix(style, base),
        is_absolute(style, join(style, base, name)) == is_absolute(style, base),
        names(style, join(style, base, name)) == if is_verbatim(style, base) {
            walked(names(style, base), names(style, name))
        } else {
            names(style, base) + names(style, name)
        },
        goes_down(names(style, name)) ==> is_below(
            style,
            base,
            names(style, name),
            join(style, base, name),
        ),
{
    reveal_strlit("/");
    reveal_strlit("\\");
    let p = join(style, base, name);
    let n = prefix_len(style, base);
    lemma_no_prefix(style, name);
    lemma_prefix_len(style, base);
    if is_verbatim(style, base) {
        lemma_join_verbatim(style, base, name);
        if goes_down(names(style, name)) {
            lemma_walk_down(names(style, base), names(style, name));
        }
        let front = prefix(style, base);
        assert forall|t: Seq<char>| t.len() == 0 || t[0] == '\\' implies #[trigger] same_prefix(
            style,
            p,
            prefix(style, p) + t,
        ) by {
            assert(same_prefix(style, base, front + t));
        }
    } else {
        let sep = style.separator();
        let pred = |w: Seq<char>| w != "."@;
        let t = if needs_no_mark(style, base) {
            name
        } else {
            style.mark() + name
        };
        assert(p =~= base + t);
        assert(can_follow(style, base, t));
        assert(same_prefix(style, base, base + t));
        assert(prefix(style, p) =~= prefix(style, base));
        if n < base.len() {
            assert(p.skip(n)[0] == base.skip(n)[0]);
        } else if t.len() > 0 {
            assert(p.skip(n)[0] == t[0]);
        }
        lemma_names_behind_prefix(style, base);
        lemma_names_behind_prefix(style, name);
        lemma_names_behind_prefix(style, p);
        let rest = base.skip(n);
        assert(name.skip(0) =~= name);
        assert(p.skip(n) =~= rest + t);
        if rest.len() > 0 {
            assert(rest.last() == base.last());
        }
        text::lemma_words_in_a_row(rest, t, sep);
        if !needs_no_mark(style, base) {
            text::lemma_leading_separator(style.mark()[0], name, sep);
            assert(style.mark() =~= seq![style.mark()[0]]);
        }
        Seq::filter_distributes_over_add(text::words(rest, sep), text::words(name, sep), pred);
        assert forall|u: Seq<char>| can_follow(style, p, u) implies #[trigger] same_prefix(
            style,
            p,
            p + u,
        ) by {
            assert(p + u =~= base + (t + u));
            lemma_follow_on(style, base, name, u);
            assert(same_prefix(style, base, base + (t + u)));
        }
    }
}

/// What can follow a joined path can follow its base together with the name.
proof fn lemma_follow_on(style: PathStyle, base: Seq<char>, name: Seq<char>, u: Seq<char>)
    requires
        !is_verbatim(style, base),
        !starts_with_separator(style, name),
        !has_drive(style, name),
        can_follow(style, join(style, base, name), u),
    ensures
        needs_no_mark(style, base) ==> can_follow(style, base, name + u),
        !needs_no_mark(style, base) ==> can_follow(style, base, style.mark() + name + u),
{
    reveal_strlit("/");
    reveal_strlit("\\");
    lemma_no_prefix(style, name);
    let p = join(style, base, name);
    if needs_no_mark(style, base) {
        assert(p =~= base + name);
        let t = name + u;
        if name.len() == 0 {
            assert(p =~= base);
            assert(t =~= u);
        } else {
            assert(t[0] == name[0]);
            assert(p.last() == name.last());
            if base.len() == 0 {
                assert(p =~= name);
                if name.len() >= 2 {
                    assert(t[1] == name[1]);
                } else if u.len() > 0 {
                    assert(t[1] == u[0]);
                }
            }
        }
    } else {
        assert(p =~= base + style.mark() + name);
        assert((style.mark() + name + u)[0] == style.mark()[0]);
    }
}

/// Which paths are settled: all on Unix; on Windows those that do not start with two
/// separators, those that lie on a share, and those that lie on a drive and are verbatim.
pub proof fn lemma_settled(style: PathStyle, b: Seq<char>)
    requires
        ({
            ||| !has_two_separators(style, b)
            ||| has_share(style, b)
            ||| is_verbatim(style, b) && has_verbatim_drive(b)
        }),
    ensures
        is_settled(style, b),
{
    if is_verbatim(style, b) {
        assert forall|t: Seq<char>| t.len() == 0 || t[0] == '\\' implies #[trigger] same_prefix(
            style,
            b,
            prefix(style, b) + t,
        ) by {
            let p = prefix(style, b) + t;
            assert forall|i: int| 0 <= i < 6 implies #[trigger] p[i] == b[i] by {}
            if t.len() > 0 {
                assert(p[6] == t[0]);
            }
        }
    } else {
        assert forall|t: Seq<char>| can_follow(style, b, t) implies #[trigger] same_prefix(
            style,
            b,
            b + t,
        ) by {
            let p = b + t;
            if !has_two_separators(style, b) {
                if b.len() == 0 {
                    assert(p =~= t);
                } else {
                    assert(p[0] == b[0]);
                    if b.len() >= 2 {
                        assert(p[1] == b[1]);
                    } else if t.len() > 0 {
                        assert(p[1] == t[0]);
                    }
                }
            } else {
                lemma_share_stays(style, b, t);
            }
        }
    }
}

/// A share stays what it is when names follow it.
proof fn lemma_share_stays(style: PathStyle, b: Seq<char>, t: Seq<char>)
    requires
        has_share(style, b),
        can_follow(style, b, t),
    ensures
        same_prefix(style, b, b + t),
{
    let p = b + t;
    let any = Separator::AnySlash;
    let server = name_end(b, any, 2);
    text::lemma_run_len(b.skip(2), any, false);
    assert(b.skip(2)[server - 2] == b[server]);
    text::lemma_run_len(b.skip(server + 1), any, false);
    let share = name_end(b, any, server + 1);
    assert(b.skip(2)[0] == b[2]);
    assert forall|i: int| 0 <= i < b.len() implies #[trigger] p[i] == b[i] by {}
    assert forall|i: int| 0 <= i < server - 2 implies any.has(#[trigger] p.skip(2)[i]) == false by {
        assert(p.skip(2)[i] == b.skip(2)[i]);
    }
    assert(p.skip(2)[server - 2] == b[server]);
    text::lemma_run_is(p.skip(2), any, false, server - 2);
    let rest = p.skip(server + 1);
    assert forall|i: int| 0 <= i < share - server - 1 implies any.has(#[trigger] rest[i])
        == false by {
        assert(rest[i] == b.skip(server + 1)[i]);
    }
    if share < b.len() {
        assert(rest[share - server - 1] == b.skip(server + 1)[share - server - 1]);
    } else {
        assert(b.last() == b.skip(server + 1)[share - server - 2]);
        if t.len() > 0 {
            assert(rest[share - server - 1] == t[0]);
        }
    }
    text::lemma_run_is(rest, any, false, share - server - 1);
}

/// Where the last name of a path starts.
proof fn lemma_unnamed(style: PathStyle, p: Seq<char>, n: nat, m: nat)
    requires
        anchor_len(style, p) <= m <= n <= p.len(),
        m == anchor_len(style, p) || name_separator(style, p).has(p[m - 1]),
        forall|j: int| m <= j < n ==> !name_separator(style, p).has(#[trigger] p[j]),
    ensures
        unnamed_len(style, p, n) == m,
    decreases n,
{
    if n > m {
        assert(!name_separator(style, p).has(p[n - 1]));
        lemma_unnamed(style, p, (n - 1) as nat, m);
    }
}

/// What lies under a directory has that directory for a parent: a plain name joined to a
/// path that ends with a name leads back to that path. A verbatim path has to be one to
/// which the name is added without another change.
pub proof fn lemma_parent_of_join(style: PathStyle, base: Seq<char>, name: Seq<char>)
    requires
        is_settled(style, base),
        trimmed_len(style, base, base.len()) == base.len(),
        anchor_len(style, base) < base.len(),
        is_plain_name(style, name),
        !has_drive(style, name),
        is_verbatim(style, base) ==> join(style, base, name) == base + style.mark() + name,
    ensures
        parent(style, join(style, base, name)) == Some(base),
{
    reveal_strlit("/");
    reveal_strlit("\\");
    reveal_strlit(".");
    let b = base.len();
    let p = join(style, base, name);
    let n = prefix_len(style, base);
    let sep = name_separator(style, base);
    assert(!style.separator().has(name[0]));
    lemma_no_prefix(style, name);
    lemma_prefix_len(style, base);
    lemma_join_names(style, base, name);
    lemma_trimmed_shrinks(style, base, (b - 1) as nat);
    assert(!sep.has(base.last()));
    assert(p =~= base + style.mark() + name);
    assert(n < b);
    assert(p.skip(n)[0] == base.skip(n)[0]);
    assert(anchor_len(style, p) == anchor_len(style, base));
    assert(p.len() == b + 1 + name.len());
    assert(sep.has(p[b as int]));
    assert(p[p.len() - 1] == name[name.len() - 1]);
    assert(!style.separator().has(name[name.len() - 1]));
    if p[p.len() - 1] == '.' && style.separator().has(p[p.len() - 2]) {
        if name.len() == 1 {
            assert(name =~= "."@);
        } else {
            assert(p[p.len() - 2] == name[name.len() - 2]);
            assert(!style.separator().has(name[name.len() - 2]));
        }
        assert(false);
    }
    assert(trimmed_len(style, p, p.len()) == p.len());
    assert forall|j: int| b + 1 <= j < p.len() implies !sep.has(#[trigger] p[j]) by {
        assert(p[j] == name[j - b - 1]);
        assert(!style.separator().has(name[j - b - 1]));
    }
    lemma_unnamed(style, p, p.len(), b + 1);
    assert(trimmed_len(style, p, b + 1) == trimmed_len(style, p, b));
    assert(p[b - 1] == base[b - 1]);
    assert(b >= 2 ==> p[b - 2] == base[b - 2]);
    assert(trimmed_len(style, base, b) == b);
    assert(trimmed_len(style, p, b) == b);
    assert(p.take(b as int) =~= base);
}

/// The last name of a path lies inside the path, and behind what says where it starts.
pub proof fn lemma_name_bounds(style: PathStyle, p: Seq<char>)
    ensures
        name_start(style, p) <= trimmed_len(style, p, p.len()) <= p.len(),
        ends_with_name(style, p) ==> anchor_len(style, p) <= name_start(style, p),
{
    lemma_trimmed_shrinks(style, p, p.len());
    lemma_unnamed_shrinks(style, p, trimmed_len(style, p, p.len()));
}

/// Dropping a name never adds anything, and stops before what says where the path starts.
proof fn lemma_unnamed_shrinks(style: PathStyle, p: Seq<char>, n: nat)
    ensures
        unnamed_len(style, p, n) <= n,
        n >= anchor_len(style, p) ==> unnamed_len(style, p, n) >= anchor_len(style, p),
    decreases n,
{
    if n > anchor_len(style, p) && n <= p.len() {
        lemma_unnamed_shrinks(style, p, (n - 1) as nat);
    }
}

/// The last name of a path, where a plain name stands at its end.
proof fn lemma_last_piece(style: PathStyle, front: Seq<char>, name: Seq<char>)
    requires
        is_plain_name(style, name),
        anchor_len(style, front + name) <= front.len(),
        anchor_len(style, front + name) == front.len() || name_separator(
            style,
            front + name,
        ).has(front.last()),
    ensures
        ends_with_name(style, front + name),
        name_start(style, front + name) == front.len(),
        last_piece(style, front + name) == name,
{
    reveal_strlit(".");
    let p = front + name;
    let sep = name_separator(style, p);
    lemma_prefix_len(style, p);
    let last = name[name.len() - 1];
    assert(p[p.len() - 1] == last);
    assert(!style.separator().has(last));
    if last == '.' && p.len() >= 2 && style.separator().has(p[p.len() - 2]) {
        if name.len() == 1 {
            assert(name =~= "."@);
        } else {
            assert(p[p.len() - 2] == name[name.len() - 2]);
            assert(!style.separator().has(name[name.len() - 2]));
        }
        assert(false);
    }
    assert(trimmed_len(style, p, p.len()) == p.len());
    assert forall|j: int| front.len() <= j < p.len() implies !sep.has(#[trigger] p[j]) by {
        assert(p[j] == name[j - front.len()]);
        assert(!style.separator().has(name[j - front.len()]));
    }
    if front.len() > 0 {
        assert(p[front.len() - 1] == front.last());
    }
    lemma_unnamed(style, p, p.len(), front.len());
    assert(last_piece(style, p) =~= name);
}

/// What stands beside a file: where two plain names are joined to one path, only the last
/// names of what comes out differ.
pub proof fn lemma_beside(style: PathStyle, base: Seq<char>, name: Seq<char>, other: Seq<char>)
    requires
        is_settled(style, base),
        is_plain_name(style, name),
        !has_drive(style, name),
        is_plain_name(style, other),
        !has_drive(style, other),
    ensures
        ends_with_name(style, join(style, base, name)),
        last_piece(style, join(style, base, name)) == name,
        join(style, base, name).take(name_start(style, join(style, base, name)) as int) + other
            == join(style, base, other),
{
    reveal_strlit("/");
    reveal_strlit("\\");
    let p = join(style, base, name);
    let n = prefix_len(style, base);
    lemma_plain_name_is_a_path(style, name);
    lemma_plain_name_is_a_path(style, other);
    lemma_no_prefix(style, name);
    lemma_no_prefix(style, other);
    lemma_join_names(style, base, name);
    lemma_prefix_len(style, base);
    lemma_prefix_len(style, p);
    let front = if is_verbatim(style, base) {
        lemma_walk_down(names(style, base), seq![name]);
        lemma_walk_down(names(style, base), seq![other]);
        let all = names(style, base);
        assert(all + seq![name] =~= all.push(name));
        assert(all + seq![other] =~= all.push(other));
        assert(all.push(name).drop_last() =~= all);
        assert(all.push(other).drop_last() =~= all);
        if all.len() == 0 {
            prefix(style, base) + style.mark()
        } else {
            prefix(style, base) + style.mark() + text::joined(all, style.mark()) + style.mark()
        }
    } else if needs_no_mark(style, base) {
        base
    } else {
        base + style.mark()
    };
    assert(p =~= front + name);
    assert(join(style, base, other) =~= front + other);
    if is_verbatim(style, base) {
        assert(p[n] == '\\');
        assert(p.skip(n)[0] == '\\');
    } else if n < base.len() {
        assert(p.skip(n)[0] == p[n]);
    } else {
        assert(p.skip(n)[0] == p[n]);
        if needs_no_mark(style, base) {
            assert(p[n] == name[0]);
        } else {
            assert(p[n] == style.mark()[0]);
        }
    }
    lemma_last_piece(style, front, name);
    assert(p.take(front.len() as int) =~= front);
}

/// Trimming never adds anything.
proof fn lemma_trimmed_shrinks(style: PathStyle, p: Seq<char>, n: nat)
    ensures
        trimmed_len(style, p, n) <= n,
    decreases n,
{
    if n > anchor_len(style, p) && n <= p.len() {
        lemma_trimmed_shrinks(style, p, (n - 1) as nat);
    }
}

/// The names of a path are not empty, hold no separator and, unless the path is verbatim,
/// are not `.`.
pub proof fn lemma_names(style: PathStyle, p: Seq<char>)
    ensures
        forall|i: int| #![trigger names(style, p)[i]]
            0 <= i < names(style, p).len() ==> {
                &&& names(style, p)[i].len() > 0
                &&& !is_verbatim(style, p) ==> names(style, p)[i] != "."@
                &&& forall|j: int|
                    0 <= j < names(style, p)[i].len() ==> !name_separator(style, p).has(
                        #[trigger] names(style, p)[i][j],
                    )
            },
{
    let sep = name_separator(style, p);
    let body = p.skip(anchor_len(style, p));
    let all = text::words(body, sep);
    let pred = |w: Seq<char>| w != "."@;
    text::lemma_words_are_words(body, sep);
    assert forall|i: int| #![trigger names(style, p)[i]]
        0 <= i < names(style, p).len() implies {
            &&& names(style, p)[i].len() > 0
            &&& !is_verbatim(style, p) ==> names(style, p)[i] != "."@
            &&& forall|j: int|
                0 <= j < names(style, p)[i].len() ==> !sep.has(#[trigger] names(style, p)[i][j])
        } by {
        if is_verbatim(style, p) {
            assert(all[i].len() > 0);
        } else {
            let w = all.filter(pred)[i];
            all.lemma_filter_pred(pred, i);
            assert(all.filter(pred).contains(w));
            all.lemma_filter_contains_rev(pred, w);
            let k = choose|k: int| 0 <= k < all.len() && all[k] == w;
            assert(all[k].len() > 0);
        }
    }
}

/// A plain name is a path of one name.
pub proof fn lemma_plain_name_is_a_path(style: PathStyle, name: Seq<char>)
    requires
        is_plain_name(style, name),
        !has_drive(style, name),
    ensures
        names(style, name) == seq![name],
        goes_down(names(style, name)),
        file_name(style, name) == Some(name),
        !starts_with_separator(style, name),
{
    let none = Seq::<char>::empty();
    let sep = style.separator();
    let pred = |w: Seq<char>| w != "."@;
    assert(!sep.has(name[0]));
    lemma_no_prefix(style, name);
    text::lemma_first_word(name, none, sep);
    assert(name + none =~= name);
    assert(name.skip(0) =~= name);
    assert(text::words(none, sep) =~= Seq::<Seq<char>>::empty());
    let all = seq![name];
    assert(text::words(name, sep) =~= all);
    assert(all.drop_last() =~= Seq::<Seq<char>>::empty());
    assert(all.filter(pred) =~= all) by {
        reveal_with_fuel(Seq::filter, 2);
    }
}

/// Two texts without separators make up one.
pub proof fn lemma_one_piece(style: PathStyle, a: Seq<char>, b: Seq<char>)
    requires
        is_one_piece(style, a),
        is_one_piece(style, b),
    ensures
        is_one_piece(style, a + b),
{
    assert forall|j: int| 0 <= j < (a + b).len() implies !style.separator().has(
        #[trigger] (a + b)[j],
    ) by {
        if j < a.len() {
            assert((a + b)[j] == a[j]);
        } else {
            assert((a + b)[j] == b[j - a.len()]);
        }
    }
}

/// A text of more than two characters without a separator is a plain name.
pub proof fn lemma_long_name(style: PathStyle, name: Seq<char>)
    requires
        is_one_piece(style, name),
        name.len() > 2,
    ensures
        is_plain_name(style, name),
        name[1] != ':' ==> !has_drive(style, name),
{
    reveal_strlit(".");
    reveal_strlit("..");
}

/// A plain name that is joined to a path lies in the directory of that path.
pub proof fn lemma_join_plain(style: PathStyle, base: Seq<char>, name: Seq<char>)
    requires
        is_settled(style, base),
        is_plain_name(style, name),
        !has_drive(style, name),
    ensures
        is_settled(style, join(style, base, name)),
        is_below(style, base, seq![name], join(style, base, name)),
{
    lemma_plain_name_is_a_path(style, name);
    lemma_join_names(style, base, name);
}

/// What lies below something below `top` lies below `top`.
pub proof fn lemma_below(
    style: PathStyle,
    top: Seq<char>,
    a: Seq<Seq<char>>,
    base: Seq<char>,
    b: Seq<Seq<char>>,
    p: Seq<char>,
)
    requires
        is_below(style, top, a, base),
        is_below(style, base, b, p),
    ensures
        is_below(style, top, a + b, p),
{
    assert(names(style, p) =~= names(style, top) + (a + b));
    assert forall|i: int| 0 <= i < (a + b).len() implies #[trigger] (a + b)[i] != ".."@ by {
        if i < a.len() {
            assert((a + b)[i] == a[i]);
        } else {
            assert((a + b)[i] == b[i - a.len()]);
        }
    }
}

/// Names that are written in a row are the names of what they make up.
pub proof fn lemma_names_of_joined(style: PathStyle, parts: Seq<Seq<char>>)
    requires
        forall|i: int| 0 <= i < parts.len() ==> is_plain_name(style, #[trigger] parts[i]),
        !has_drive(style, text::joined(parts, style.mark())),
        !starts_with_separator(style, text::joined(parts, style.mark())),
    ensures
        names(style, text::joined(parts, style.mark())) == parts,
        goes_down(parts),
{
    reveal_strlit("/");
    reveal_strlit("\\");
    let p = text::joined(parts, style.mark());
    let sep = style.separator();
    let pred = |w: Seq<char>| w != "."@;
    lemma_no_prefix(style, p);
    assert(p.skip(0) =~= p);
    assert(style.mark() =~= seq![style.mark()[0]]);
    assert forall|i: int| #![trigger parts[i]] 0 <= i < parts.len() implies parts[i].len() > 0
        && forall|j: int| 0 <= j < parts[i].len() ==> !sep.has(#[trigger] parts[i][j]) by {
        assert(is_plain_name(style, parts[i]));
    }
    text::lemma_words_of_joined(parts, style.mark()[0], sep);
    lemma_filter_keeps_all(parts, pred);
}

/// A filter that every element passes changes nothing.
proof fn lemma_filter_keeps_all(all: Seq<Seq<char>>, pred: spec_fn(Seq<char>) -> bool)
    requires
        forall|i: int| 0 <= i < all.len() ==> pred(#[trigger] all[i]),
    ensures
        all.filter(pred) == all,
    decreases all.len(),
{
    reveal(Seq::filter);
    if all.len() > 0 {
        let front = all.drop_last();
        assert forall|i: int| 0 <= i < front.len() implies pred(#[trigger] front[i]) by {
            assert(front[i] == all[i]);
        }
        lemma_filter_keeps_all(front, pred);
        assert(all.last() == all[all.len() - 1]);
        assert(front.push(all.last()) =~= all);
    }
}

/// Steps can be taken in two goes.
pub proof fn lemma_walk_on(start: Seq<Seq<char>>, a: Seq<Seq<char>>, b: Seq<Seq<char>>)
    ensures
        walked(start, a + b) == walked(walked(start, a), b),
    decreases b.len(),
{
    if b.len() == 0 {
        assert(a + b =~= a);
    } else {
        lemma_walk_on(start, a, b.drop_last());
        assert((a + b).drop_last() =~= a + b.drop_last());
        assert((a + b).last() == b.last());
    }
}

/// A name that never leads above its start leads to a place below the path that it is joined
/// to, whatever `..` it holds.
pub proof fn lemma_join_stays_below(style: PathStyle, base: Seq<char>, name: Seq<char>)
    requires
        is_settled(style, base),
        !starts_with_separator(style, name),
        !has_drive(style, name),
        is_verbatim(style, base) ==> name.len() > 0,
        stays_below(names(style, name)),
    ensures
        prefix(style, join(style, base, name)) == prefix(style, base),
        is_absolute(style, join(style, base, name)) == is_absolute(style, base),
        reached(style, join(style, base, name)) == reached(style, base) + reached(style, name),
        goes_down(reached(style, name)),
{
    let none = Seq::<Seq<char>>::empty();
    let b = names(style, base);
    let n = names(style, name);
    lemma_no_prefix(style, name);
    lemma_names(style, name);
    assert forall|i: int| 0 <= i < n.len() implies #[trigger] n[i] != "."@ by {
        assert(names(style, name)[i] != "."@);
    }
    lemma_join_names(style, base, name);
    lemma_walk_stays_below(walked(none, b), n);
    if is_verbatim(style, base) {
        lemma_walk_stays_below(b, n);
        let below = walked(none, n);
        lemma_walk_on(none, b, below);
        lemma_walk_down(walked(none, b), below);
    } else {
        lemma_walk_on(none, b, n);
    }
}

/// Where the last dot stands, and that none follows it.
pub proof fn lemma_last_dot(name: Seq<char>)
    ensures
        -1 <= last_dot(name) < name.len(),
        last_dot(name) >= 0 ==> name[last_dot(name)] == '.',
        forall|i: int| last_dot(name) < i < name.len() ==> #[trigger] name[i] != '.',
    decreases name.len(),
{
    if name.len() > 0 && name.last() != '.' {
        let front = name.drop_last();
        lemma_last_dot(front);
        assert forall|i: int| last_dot(name) < i < name.len() implies #[trigger] name[i]
            != '.' by {
            if i < name.len() - 1 {
                assert(front[i] == name[i]);
            }
        }
    }
}

/// A name's extension is found again behind its stem, and holds no dot.
pub proof fn lemma_extension(name: Seq<char>)
    ensures
        extension(name) matches Some(ext) ==> stem(name) + "."@ + ext == name,
        extension(name) matches Some(ext) ==> !ext.contains('.'),
{
    reveal_strlit(".");
    lemma_last_dot(name);
    if last_dot(name) > 0 {
        let ext = name.skip(last_dot(name) + 1);
        assert(stem(name) + "."@ + ext =~= name);
        assert forall|i: int| 0 <= i < ext.len() implies ext[i] != '.' by {
            assert(ext[i] == name[last_dot(name) + 1 + i]);
        }
    }
}

// ---------------------------------------------------------------------------
// Executable functions
// ---------------------------------------------------------------------------

/// Tests whether a path starts with a drive.
pub fn test_drive(style: PathStyle, p: &str) -> (r: bool)
    ensures
        r == has_drive(style, p@),
{
    match style {
        PathStyle::Unix => false,
        PathStyle::Windows => {
            if p.unicode_len() < 2 {
                false
            } else {
                let c = p.get_char(0);
                (('a' <= c && c <= 'z') || ('A' <= c && c <= 'Z')) && p.get_char(1) == ':'
            }
        },
    }
}

/// Tests whether the character at `i` exists and separates names.
fn test_separator_at(style: PathStyle, p: &str, i: usize) -> (r: bool)
    requires
        i <= p@.len(),
    ensures
        r == starts_with_separator(style, p@.skip(i as int)),
{
    let ghost rest = p@.skip(i as int);
    if i < p.unicode_len() {
        assert(rest[0] == p@[i as int]);
        style.separator_of().test(p.get_char(i))
    } else {
        assert(rest.len() == 0);
        false
    }
}

/// Tests whether a path starts at a drive or at the root.
pub fn anchored(style: PathStyle, p: &str) -> (r: bool)
    ensures
        r == (has_drive(style, p@) || starts_with_separator(style, p@)),
{
    assert(p@.skip(0) =~= p@);
    test_drive(style, p) || test_separator_at(style, p, 0)
}

/// Where a server at `from` and the share behind it end.
fn find_share_end(cs: &Vec<char>, sep: Separator, from: usize) -> (r: usize)
    requires
        from <= cs@.len(),
    ensures
        r == share_end(cs@, sep, from as int),
        r <= cs@.len(),
{
    let server = run_end(cs, from, sep, false);
    if server < cs.len() {
        let share = run_end(cs, server + 1, sep, false);
        if share > server + 1 {
            return share;
        }
    }
    server
}

/// Tests whether a path starts with `\\?\`.
fn test_verbatim(style: PathStyle, cs: &Vec<char>) -> (r: bool)
    ensures
        r == is_verbatim(style, cs@),
{
    match style {
        PathStyle::Unix => false,
        PathStyle::Windows => cs.len() >= 4 && cs[0] == '\\' && cs[1] == '\\' && cs[2] == '?'
            && cs[3] == '\\',
    }
}

/// Tests whether a character is an ASCII letter.
fn test_letter(c: char) -> (r: bool)
    ensures
        r == is_letter(c),
{
    ('a' <= c && c <= 'z') || ('A' <= c && c <= 'Z')
}

/// The length of the prefix of a path.
fn find_prefix(style: PathStyle, cs: &Vec<char>) -> (r: usize)
    ensures
        r == prefix_len(style, cs@),
        r <= cs@.len(),
{
    proof {
        lemma_prefix_len(style, cs@);
    }
    let any = Separator::AnySlash;
    let n: usize = cs.len();
    match style {
        PathStyle::Unix => {
            return 0;
        },
        PathStyle::Windows => {},
    }
    if n < 2 {
        return 0;
    }
    if test_letter(cs[0]) && cs[1] == ':' {
        return 2;
    }
    if !(any.test(cs[0]) && any.test(cs[1])) {
        return 0;
    }
    if test_verbatim(style, cs) {
        if n >= 8 && cs[4] == 'U' && cs[5] == 'N' && cs[6] == 'C' && any.test(cs[7]) {
            return find_share_end(cs, Separator::Backslash, 8);
        }
        if n >= 6 && test_letter(cs[4]) && cs[5] == ':' && (n == 6 || any.test(cs[6])) {
            return 6;
        }
        return run_end(cs, 4, Separator::Backslash, false);
    }
    if n >= 4 && cs[2] == '.' && any.test(cs[3]) {
        return run_end(cs, 4, any, false);
    }
    let server = run_end(cs, 2, any, false);
    let share = find_share_end(cs, any, 2);
    if 2 < server && server < share {
        share
    } else {
        0
    }
}

/// Tests whether a path names a place by itself.
pub fn absolute(style: PathStyle, p: &str) -> (r: bool)
    ensures
        r == is_absolute(style, p@),
{
    let cs = chars_of(p);
    let n = find_prefix(style, &cs);
    match style {
        PathStyle::Unix => test_separator_at(style, p, n),
        PathStyle::Windows => n > 0 && (!test_drive(style, p) || test_separator_at(style, p, n)),
    }
}

/// Takes steps from a place, one after the other.
fn walk(start: Vec<String>, steps: &Vec<String>) -> (r: Vec<String>)
    ensures
        text::texts(r@) == walked(text::texts(start@), text::texts(steps@)),
{
    let ghost from = text::texts(start@);
    let ghost all = text::texts(steps@);
    let mut at = start;
    let mut i: usize = 0;
    assert(all.take(0) =~= Seq::<Seq<char>>::empty());
    while i < steps.len()
        invariant
            i <= steps@.len(),
            all == text::texts(steps@),
            text::texts(at@) == walked(from, all.take(i as int)),
        decreases steps@.len() - i,
    {
        let ghost before = text::texts(at@);
        proof {
            assert(all.take(i + 1).drop_last() =~= all.take(i as int));
            assert(all.take(i + 1).last() == steps@[i as int]@);
        }
        if !same(steps[i].as_str(), "..") {
            at.push(copy_text(steps[i].as_str()));
            assert(text::texts(at@) =~= before.push(all[i as int]));
        } else {
            let n: usize = at.len();
            if n > 0 {
                assert(before.last() == at@[n - 1]@);
                if !same(at[n - 1].as_str(), "..") && !same(at[n - 1].as_str(), ".") {
                    let _ = at.pop();
                    assert(text::texts(at@) =~= before.drop_last());
                }
            }
        }
        i += 1;
    }
    assert(all.take(all.len() as int) =~= all);
    at
}

/// Takes `name` from a verbatim `base`.
fn join_path_verbatim(style: PathStyle, base: &str, name: &str) -> (r: String)
    ensures
        r@ == join_verbatim(style, base@, name@),
{
    assert(name@.skip(0) =~= name@);
    let at_root = test_separator_at(style, name, 0);
    let start: Vec<String> = if at_root {
        Vec::new()
    } else {
        path_names(style, base)
    };
    assert(at_root ==> text::texts(start@) =~= Seq::<Seq<char>>::empty());
    let all = walk(start, &path_names(style, name));
    assert(text::texts(all@).len() == all@.len());
    let cs = chars_of(base);
    let n = find_prefix(style, &cs);
    let mut out = copy_text(base.substring_char(0, n));
    assert(out@ =~= prefix(style, base@));
    if all.len() > 0 {
        let mut rest = copy_text(style.mark_text());
        rest.append(join_texts(&all, style.mark_text()).as_str());
        out.append(rest.as_str());
    } else if at_root || test_separator_at(style, base, n) {
        out.append(style.mark_text());
    }
    out
}

/// Takes `name` from `base`.
pub fn join_path(style: PathStyle, base: &str, name: &str) -> (r: String)
    ensures
        r@ == join(style, base@, name@),
{
    assert(name@.skip(0) =~= name@);
    if absolute(style, name) || find_prefix(style, &chars_of(name)) > 0 {
        return copy_text(name);
    }
    let cs = chars_of(base);
    if test_verbatim(style, &cs) && name.unicode_len() > 0 {
        return join_path_verbatim(style, base, name);
    }
    if test_separator_at(style, name, 0) {
        let n = find_prefix(style, &cs);
        let mut out = copy_text(base.substring_char(0, n));
        assert(out@ =~= prefix(style, base@));
        out.append(name);
        return out;
    }
    let n: usize = base.unicode_len();
    let mut out = copy_text(base);
    if !(n == 0 || style.separator_of().test(base.get_char(n - 1)) || (n == 2 && test_drive(
        style,
        base,
    ))) {
        out.append(style.mark_text());
    }
    out.append(name);
    out
}

/// Takes two names from `base`, one after the other.
pub fn join_path2(style: PathStyle, base: &str, a: &str, b: &str) -> (r: String)
    ensures
        r@ == join2(style, base@, a@, b@),
{
    join_path(style, join_path(style, base, a).as_str(), b)
}

/// The length of what says where a path starts.
fn find_anchor(style: PathStyle, p: &str) -> (r: usize)
    ensures
        r == anchor_len(style, p@),
        r <= p@.len(),
{
    let cs = chars_of(p);
    let n = find_prefix(style, &cs);
    proof {
        lemma_prefix_len(style, p@);
    }
    if test_separator_at(style, p, n) {
        n + 1
    } else {
        n
    }
}

/// The characters that separate the names of a path, for executable code.
fn separator_in(style: PathStyle, cs: &Vec<char>) -> (r: Separator)
    ensures
        r == name_separator(style, cs@),
{
    if test_verbatim(style, cs) {
        Separator::Backslash
    } else {
        style.separator_of()
    }
}

/// Drops separators, and names that mean the directory itself, from the end.
fn find_trimmed(style: PathStyle, p: &str, anchor: usize, end: usize) -> (r: usize)
    requires
        anchor == anchor_len(style, p@),
        end <= p@.len(),
    ensures
        r == trimmed_len(style, p@, end as nat),
        r <= p@.len(),
{
    let cs = chars_of(p);
    let sep = separator_in(style, &cs);
    let marks = style.separator_of();
    let verbatim = test_verbatim(style, &cs);
    let mut n: usize = end;
    while n > anchor && (sep.test(cs[n - 1]) || (cs[n - 1] == '.' && n >= 2 && marks.test(
        cs[n - 2],
    ) && !verbatim))
        invariant
            cs@ == p@,
            sep == name_separator(style, p@),
            marks == style.separator(),
            verbatim == is_verbatim(style, p@),
            anchor == anchor_len(style, p@),
            n <= p@.len(),
            trimmed_len(style, p@, n as nat) == trimmed_len(style, p@, end as nat),
        decreases n,
    {
        n -= 1;
    }
    n
}

/// Drops the last name from the end.
fn find_unnamed(style: PathStyle, p: &str, anchor: usize, end: usize) -> (r: usize)
    requires
        anchor == anchor_len(style, p@),
        end <= p@.len(),
    ensures
        r == unnamed_len(style, p@, end as nat),
        r <= p@.len(),
{
    let cs = chars_of(p);
    let sep = separator_in(style, &cs);
    let mut n: usize = end;
    while n > anchor && !sep.test(cs[n - 1])
        invariant
            cs@ == p@,
            sep == name_separator(style, p@),
            anchor == anchor_len(style, p@),
            n <= p@.len(),
            unnamed_len(style, p@, n as nat) == unnamed_len(style, p@, end as nat),
        decreases n,
    {
        n -= 1;
    }
    n
}

/// The path of the directory that a path lies in.
pub fn parent_of(style: PathStyle, p: &str) -> (r: Option<String>)
    ensures
        text::opt_text(r) == parent(style, p@),
{
    let anchor = find_anchor(style, p);
    let n = find_trimmed(style, p, anchor, p.unicode_len());
    if n <= anchor {
        None
    } else {
        let m = find_trimmed(style, p, anchor, find_unnamed(style, p, anchor, n));
        Some(copy_text(p.substring_char(0, m)))
    }
}

/// Lists the names of a path.
pub fn path_names(style: PathStyle, p: &str) -> (r: Vec<String>)
    ensures
        text::texts(r@) == names(style, p@),
{
    let cs = chars_of(p);
    let all = split_words(tail(p, find_anchor(style, p)), separator_in(style, &cs));
    if test_verbatim(style, &cs) {
        return all;
    }
    let mut out: Vec<String> = Vec::new();
    let mut i: usize = 0;
    let ghost ws = text::texts(all@);
    let ghost pred = |w: Seq<char>| w != "."@;
    assert(ws.take(0).filter(pred) =~= Seq::<Seq<char>>::empty()) by {
        reveal(Seq::filter);
    }
    assert(text::texts(out@) =~= Seq::<Seq<char>>::empty());
    while i < all.len()
        invariant
            i <= all@.len(),
            ws == text::texts(all@),
            pred == (|w: Seq<char>| w != "."@),
            text::texts(out@) == ws.take(i as int).filter(pred),
        decreases all@.len() - i,
    {
        let ghost before = out@;
        let keep = !same(all[i].as_str(), ".");
        if keep {
            out.push(copy_text(all[i].as_str()));
        }
        proof {
            let w = ws[i as int];
            assert(ws.take(i + 1) =~= ws.take(i as int).push(w));
            assert(ws.take(i + 1).drop_last() =~= ws.take(i as int));
            reveal(Seq::filter);
            if keep {
                assert(text::texts(out@) =~= text::texts(before).push(w));
            }
        }
        i += 1;
    }
    assert(ws.take(ws.len() as int) =~= ws);
    out
}

/// The last name of a path.
pub fn last_name(style: PathStyle, p: &str) -> (r: Option<String>)
    ensures
        text::opt_text(r) == file_name(style, p@),
{
    let mut all = path_names(style, p);
    let ghost ns = text::texts(all@);
    assert(all@.len() > 0 ==> ns.last() == all@.last()@);
    match all.pop() {
        Some(name) => {
            if same(name.as_str(), "..") || same(name.as_str(), ".") {
                None
            } else {
                Some(name)
            }
        },
        None => None,
    }
}

/// One more than the position of a name's last dot; 0 if it has none.
fn find_last_dot(name: &str) -> (r: usize)
    ensures
        r == last_dot(name@) + 1,
{
    let cs = chars_of(name);
    let mut n: usize = cs.len();
    assert(name@.take(n as int) =~= name@);
    while n > 0 && cs[n - 1] != '.'
        invariant
            cs@ == name@,
            n <= name@.len(),
            last_dot(name@) == last_dot(name@.take(n as int)),
        decreases n,
    {
        assert(name@.take(n as int).drop_last() =~= name@.take(n - 1));
        n -= 1;
    }
    n
}

/// The extension of a name.
pub fn extension_of(name: &str) -> (r: Option<&str>)
    ensures
        text::opt_str(r) == extension(name@),
{
    proof {
        lemma_last_dot(name@);
    }
    let n = find_last_dot(name);
    if n > 1 {
        Some(tail(name, n))
    } else {
        None
    }
}

/// Gives a name another extension.
pub fn set_extension(name: &str, ext: &str) -> (r: String)
    ensures
        r@ == with_extension(name@, ext@),
{
    proof {
        lemma_last_dot(name@);
    }
    let n = find_last_dot(name);
    let mut out = if n > 1 {
        copy_text(name.substring_char(0, n - 1))
    } else {
        copy_text(name)
    };
    assert(out@ =~= stem(name@));
    out.append(".");
    out.append(ext);
    out
}

/// Gives the last name of a path another extension.
pub fn set_path_extension(style: PathStyle, p: &str, ext: &str) -> (r: String)
    ensures
        r@ == path_with_extension(style, p@, ext@),
{
    proof {
        lemma_name_bounds(style, p@);
    }
    let anchor = find_anchor(style, p);
    let end = find_trimmed(style, p, anchor, p.unicode_len());
    let start = find_unnamed(style, p, anchor, end);
    let name: &str = p.substring_char(start, end);
    if anchor < end && !same(name, "..") && !same(name, ".") {
        let mut out = copy_text(p.substring_char(0, start));
        assert(out@ =~= p@.take(start as int));
        out.append(set_extension(name, ext).as_str());
        out
    } else {
        copy_text(p)
    }
}

/// Puts names in a row to a relative path.
pub fn relative_path(style: PathStyle, parts: &[String]) -> (r: String)
    ensures
        r@ == text::joined(text::texts(parts@), style.mark()),
{
    join_texts(parts, style.mark_text())
}

} // verus!
