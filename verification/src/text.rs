//! Text as sequences of characters: the vocabulary in which the contracts of the
//! other modules are written, and the executable functions that go with it.

use vstd::prelude::*;
use vstd::string::*;
use vstd::utf8::*;

verus! {

broadcast use vstd::string::group_string_axioms;

// ---------------------------------------------------------------------------
// Views
// ---------------------------------------------------------------------------

/// The texts held by a list of strings.
pub open spec fn texts(list: Seq<String>) -> Seq<Seq<char>> {
    list.map_values(|t: String| t@)
}

/// The text held by an optional string, if there is one.
pub open spec fn opt_text(o: Option<String>) -> Option<Seq<char>> {
    match o {
        Some(t) => Some(t@),
        None => None,
    }
}

/// The text behind an optional string slice, if there is one.
pub open spec fn opt_str(o: Option<&str>) -> Option<Seq<char>> {
    match o {
        Some(t) => Some(t@),
        None => None,
    }
}

/// Number of bytes of a text in UTF-8.
pub open spec fn byte_len(s: Seq<char>) -> nat {
    encode_utf8(s).len()
}

/// The first `n` bytes of a text, read as text again.
pub open spec fn byte_prefix(s: Seq<char>, n: int) -> Seq<char> {
    decode_utf8(encode_utf8(s).subrange(0, n))
}

/// Whether a text may be cut after `n` bytes without splitting a character.
pub open spec fn can_cut(s: Seq<char>, n: int) -> bool {
    is_char_boundary(encode_utf8(s), n)
}

// ---------------------------------------------------------------------------
// Separators and words
// ---------------------------------------------------------------------------

/// What keeps words of a text apart.
#[derive(Clone, Copy, PartialEq, Eq, Structural, Debug)]
pub enum Separator {
    /// Unicode white space.
    Space,
    /// The character `/`.
    Slash,
    /// One of the characters `/` and `\`.
    AnySlash,
    /// The character `\`.
    Backslash,
}

/// Whether a character has the Unicode property `White_Space`.
pub open spec fn is_space(c: char) -> bool {
    let u = c as u32;
    ||| 0x9 <= u <= 0xd
    ||| u == 0x20
    ||| u == 0x85
    ||| u == 0xa0
    ||| u == 0x1680
    ||| 0x2000 <= u <= 0x200a
    ||| u == 0x2028
    ||| u == 0x2029
    ||| u == 0x202f
    ||| u == 0x205f
    ||| u == 0x3000
}

impl Separator {
    /// Whether `c` is one of the separating characters.
    pub open spec fn has(self, c: char) -> bool {
        match self {
            Separator::Space => is_space(c),
            Separator::Slash => c == '/',
            Separator::AnySlash => c == '/' || c == '\\',
            Separator::Backslash => c == '\\',
        }
    }

    /// Tests whether `c` is one of the separating characters.
    pub fn test(self, c: char) -> (r: bool)
        ensures
            r == self.has(c),
    {
        match self {
            Separator::Space => {
                let u: u32 = c as u32;
                (0x9 <= u && u <= 0xd) || u == 0x20 || u == 0x85 || u == 0xa0 || u == 0x1680 || (
                0x2000 <= u && u <= 0x200a) || u == 0x2028 || u == 0x2029 || u == 0x202f || u
                    == 0x205f || u == 0x3000
            },
            Separator::Slash => c == '/',
            Separator::AnySlash => c == '/' || c == '\\',
            Separator::Backslash => c == '\\',
        }
    }
}

/// Length of the longest prefix of `s` whose characters all are (`inside`), or all
/// are not (`!inside`), separators.
pub open spec fn run_len(s: Seq<char>, sep: Separator, inside: bool) -> nat
    decreases s.len(),
{
    if s.len() > 0 && sep.has(s[0]) == inside {
        1 + run_len(s.skip(1), sep, inside)
    } else {
        0
    }
}

/// The words of a text: its maximal stretches without a separator, in order.
pub open spec fn words(s: Seq<char>, sep: Separator) -> Seq<Seq<char>>
    decreases s.len(),
{
    let t = s.skip(run_len(s, sep, true) as int);
    if t.len() == 0 {
        Seq::empty()
    } else {
        let n = run_len(t, sep, false) as int;
        proof {
            lemma_run_len(s, sep, true);
            lemma_run_len(t, sep, false);
        }
        seq![t.take(n)] + words(t.skip(n), sep)
    }
}

/// A run ends inside the text, and right behind it stands a character that does not
/// belong to it, unless the text is over.
pub proof fn lemma_run_len(s: Seq<char>, sep: Separator, inside: bool)
    ensures
        run_len(s, sep, inside) <= s.len(),
        forall|i: int|
            0 <= i < run_len(s, sep, inside) ==> sep.has(#[trigger] s[i]) == inside,
        run_len(s, sep, inside) < s.len() ==> sep.has(s[run_len(s, sep, inside) as int])
            != inside,
    decreases s.len(),
{
    if s.len() > 0 && sep.has(s[0]) == inside {
        let t = s.skip(1);
        lemma_run_len(t, sep, inside);
        assert forall|i: int| 0 <= i < run_len(s, sep, inside) implies sep.has(#[trigger] s[i])
            == inside by {
            if i > 0 {
                assert(t[i - 1] == s[i]);
            }
        }
    }
}

/// No word of a text is empty, and none holds a separator.
pub proof fn lemma_words_are_words(s: Seq<char>, sep: Separator)
    ensures
        forall|i: int| #![trigger words(s, sep)[i]]
            0 <= i < words(s, sep).len() ==> words(s, sep)[i].len() > 0 && forall|j: int|
                0 <= j < words(s, sep)[i].len() ==> !sep.has(#[trigger] words(s, sep)[i][j]),
    decreases s.len(),
{
    let t = s.skip(run_len(s, sep, true) as int);
    lemma_run_len(s, sep, true);
    lemma_run_len(t, sep, false);
    if t.len() > 0 {
        let n = run_len(t, sep, false) as int;
        let rest = words(t.skip(n), sep);
        lemma_words_are_words(t.skip(n), sep);
        assert forall|i: int| #![trigger words(s, sep)[i]]
            0 <= i < words(s, sep).len() implies words(s, sep)[i].len() > 0 && forall|j: int|
                0 <= j < words(s, sep)[i].len() ==> !sep.has(
            #[trigger] words(s, sep)[i][j],
        ) by {
            if i > 0 {
                assert(words(s, sep)[i] == rest[i - 1]);
            } else {
                assert(words(s, sep)[0] == t.take(n));
            }
        }
    }
}

// ---------------------------------------------------------------------------
// Trimming
// ---------------------------------------------------------------------------

/// A text without the white space at its end.
pub open spec fn trim_end(s: Seq<char>) -> Seq<char>
    decreases s.len(),
{
    if s.len() > 0 && is_space(s.last()) {
        trim_end(s.drop_last())
    } else {
        s
    }
}

/// A text without the white space at its two ends.
pub open spec fn trim(s: Seq<char>) -> Seq<char> {
    trim_end(s.skip(run_len(s, Separator::Space, true) as int))
}

/// A text without any of the leading copies of `p`.
pub open spec fn strip_prefixes(s: Seq<char>, p: Seq<char>) -> Seq<char>
    decreases s.len(),
{
    if p.len() > 0 && p.is_prefix_of(s) {
        strip_prefixes(s.skip(p.len() as int), p)
    } else {
        s
    }
}

/// A text without any of the trailing copies of `p`.
pub open spec fn strip_suffixes(s: Seq<char>, p: Seq<char>) -> Seq<char>
    decreases s.len(),
{
    if p.len() > 0 && p.is_suffix_of(s) {
        strip_suffixes(s.take(s.len() - p.len()), p)
    } else {
        s
    }
}

/// What is left once the leading copies are gone does not start with one.
pub proof fn lemma_strip_prefixes(s: Seq<char>, p: Seq<char>)
    requires
        p.len() > 0,
    ensures
        !p.is_prefix_of(strip_prefixes(s, p)),
        strip_prefixes(s, p).is_suffix_of(s),
    decreases s.len(),
{
    if p.is_prefix_of(s) {
        lemma_strip_prefixes(s.skip(p.len() as int), p);
    }
}

/// What is left once the trailing copies are gone does not end with one.
pub proof fn lemma_strip_suffixes(s: Seq<char>, p: Seq<char>)
    requires
        p.len() > 0,
    ensures
        !p.is_suffix_of(strip_suffixes(s, p)),
        strip_suffixes(s, p).is_prefix_of(s),
    decreases s.len(),
{
    if p.is_suffix_of(s) {
        lemma_strip_suffixes(s.take(s.len() - p.len()), p);
    }
}

// ---------------------------------------------------------------------------
// Replacing, joining, ordering
// ---------------------------------------------------------------------------

/// A text in which every occurrence of `hole`, from left to right and without
/// overlaps, gave way to `with`.
pub open spec fn replaced(s: Seq<char>, hole: Seq<char>, with: Seq<char>) -> Seq<char>
    recommends
        hole.len() > 0,
    decreases s.len(),
{
    if hole.len() == 0 || s.len() == 0 {
        s
    } else if hole.is_prefix_of(s) {
        with + replaced(s.skip(hole.len() as int), hole, with)
    } else {
        seq![s[0]] + replaced(s.skip(1), hole, with)
    }
}

/// Several texts in a row, with `sep` between neighbours.
pub open spec fn joined(parts: Seq<Seq<char>>, sep: Seq<char>) -> Seq<char>
    decreases parts.len(),
{
    if parts.len() == 0 {
        Seq::empty()
    } else if parts.len() == 1 {
        parts[0]
    } else {
        joined(parts.drop_last(), sep) + sep + parts.last()
    }
}

/// An ASCII capital becomes the small letter; every other character stays.
pub open spec fn lower_char(c: char) -> char {
    if 'A' <= c <= 'Z' {
        ((c as u32 + 32) as u32) as char
    } else {
        c
    }
}

/// A text with its ASCII capitals made small.
pub open spec fn lower(s: Seq<char>) -> Seq<char> {
    s.map_values(|c: char| lower_char(c))
}

/// Whether `part` occurs in `s` at position `i`.
pub open spec fn occurs_at(s: Seq<char>, part: Seq<char>, i: int) -> bool {
    0 <= i && i + part.len() <= s.len() && s.subrange(i, i + part.len()) == part
}

/// Whether `part` occurs anywhere in `s`.
pub open spec fn contains(s: Seq<char>, part: Seq<char>) -> bool {
    exists|i: int| occurs_at(s, part, i)
}

/// At how many positions of `s` the text `part`, which is not empty, occurs.
pub open spec fn count(s: Seq<char>, part: Seq<char>) -> nat
    decreases s.len(),
{
    if s.len() == 0 {
        0
    } else if part.is_prefix_of(s) {
        1 + count(s.skip(1), part)
    } else {
        count(s.skip(1), part)
    }
}

/// Whether `parts` occur in `s` one behind the other.
pub open spec fn in_order(s: Seq<char>, parts: Seq<Seq<char>>) -> bool
    decreases parts.len(),
{
    parts.len() > 0 ==> exists|i: int| #[trigger]
        occurs_at(s, parts[0], i) && in_order(s.skip(i + parts[0].len()), parts.skip(1))
}

/// Whether no occurrence of `part` can start in `piece`, whatever follows: its first
/// character never stands there but before one that is not its second.
pub open spec fn starts_none(piece: Seq<char>, part: Seq<char>) -> bool {
    forall|i: int|
        0 <= i < piece.len() && #[trigger] piece[i] == part[0] ==> i + 1 < piece.len() && piece[i
            + 1] != part[1]
}

/// The order of texts by their characters' code points, the first difference
/// deciding; a proper prefix comes first.
pub open spec fn not_after(a: Seq<char>, b: Seq<char>) -> bool
    decreases a.len(),
{
    if a.len() == 0 {
        true
    } else if b.len() == 0 {
        false
    } else if a[0] != b[0] {
        a[0] < b[0]
    } else {
        not_after(a.skip(1), b.skip(1))
    }
}

/// Of two texts one does not come after the other.
pub proof fn lemma_order_total(a: Seq<char>, b: Seq<char>)
    ensures
        not_after(a, b) || not_after(b, a),
    decreases a.len(),
{
    if a.len() > 0 && b.len() > 0 && a[0] == b[0] {
        lemma_order_total(a.skip(1), b.skip(1));
    }
}

/// The order is transitive.
pub proof fn lemma_order_transitive(a: Seq<char>, b: Seq<char>, c: Seq<char>)
    requires
        not_after(a, b),
        not_after(b, c),
    ensures
        not_after(a, c),
    decreases a.len(),
{
    if a.len() > 0 && b.len() > 0 && c.len() > 0 && a[0] == b[0] && b[0] == c[0] {
        lemma_order_transitive(a.skip(1), b.skip(1), c.skip(1));
    }
}

/// Two texts neither of which comes after the other are the same.
pub proof fn lemma_order_antisymmetric(a: Seq<char>, b: Seq<char>)
    requires
        not_after(a, b),
        not_after(b, a),
    ensures
        a == b,
    decreases a.len(),
{
    if a.len() > 0 && b.len() > 0 {
        lemma_order_antisymmetric(a.skip(1), b.skip(1));
        assert(a == seq![a[0]] + a.skip(1));
        assert(b == seq![b[0]] + b.skip(1));
    } else {
        assert(a =~= b);
    }
}

// ---------------------------------------------------------------------------
// Numbers
// ---------------------------------------------------------------------------

/// The character of a decimal digit.
pub open spec fn digit(d: nat) -> char
    recommends
        d < 10,
{
    (0x30 + d) as char
}

/// A number in decimal notation, without leading zeros.
pub open spec fn decimal(n: nat) -> Seq<char>
    decreases n,
{
    if n < 10 {
        seq![digit(n)]
    } else {
        decimal(n / 10).push(digit(n % 10))
    }
}

/// A signed number in decimal notation.
pub open spec fn signed_decimal(n: int) -> Seq<char> {
    if n < 0 {
        "-"@ + decimal((-n) as nat)
    } else {
        decimal(n as nat)
    }
}

// ---------------------------------------------------------------------------
// Executable functions
// ---------------------------------------------------------------------------

/// Tests whether two texts are the same.
pub fn same(a: &str, b: &str) -> (r: bool)
    ensures
        r == (a@ == b@),
{
    a.to_owned() == b.to_owned()
}

/// Tests whether `s` starts with `p`.
pub fn starts_with(s: &str, p: &str) -> (r: bool)
    ensures
        r == p@.is_prefix_of(s@),
{
    let n: usize = p.unicode_len();
    if s.unicode_len() < n {
        false
    } else {
        same(s.substring_char(0, n), p)
    }
}

/// Tests whether `s` ends with `p`.
pub fn ends_with(s: &str, p: &str) -> (r: bool)
    ensures
        r == p@.is_suffix_of(s@),
{
    let n: usize = p.unicode_len();
    let len: usize = s.unicode_len();
    if len < n {
        false
    } else {
        same(s.substring_char(len - n, len), p)
    }
}

/// The text from character `from` on.
pub fn tail(s: &str, from: usize) -> (r: &str)
    requires
        from <= s@.len(),
    ensures
        r@ == s@.skip(from as int),
{
    s.substring_char(from, s.unicode_len())
}

/// The characters of a text.
pub fn chars_of(s: &str) -> (r: Vec<char>)
    ensures
        r@ == s@,
{
    let mut out: Vec<char> = Vec::new();
    let n: usize = s.unicode_len();
    let mut i: usize = 0;
    while i < n
        invariant
            i <= n == s@.len(),
            out@ == s@.take(i as int),
        decreases n - i,
    {
        out.push(s.get_char(i));
        i += 1;
        assert(out@ =~= s@.take(i as int));
    }
    out
}

/// The position at which a run that starts at `from` ends.
pub fn run_end(cs: &Vec<char>, from: usize, sep: Separator, inside: bool) -> (r: usize)
    requires
        from <= cs@.len(),
    ensures
        r == from + run_len(cs@.skip(from as int), sep, inside),
        r <= cs@.len(),
{
    let mut i: usize = from;
    while i < cs.len() && sep.test(cs[i]) == inside
        invariant
            from <= i <= cs@.len(),
            from + run_len(cs@.skip(from as int), sep, inside) == i + run_len(
                cs@.skip(i as int),
                sep,
                inside,
            ),
        decreases cs@.len() - i,
    {
        assert(cs@.skip(i as int).skip(1) =~= cs@.skip(i + 1));
        assert(cs@.skip(i as int)[0] == cs@[i as int]);
        i += 1;
    }
    proof {
        if i < cs@.len() {
            assert(cs@.skip(i as int)[0] == cs@[i as int]);
        }
    }
    i
}

/// Splits a text into its words.
pub fn split_words(s: &str, sep: Separator) -> (r: Vec<String>)
    ensures
        texts(r@) == words(s@, sep),
{
    let cs = chars_of(s);
    let mut out: Vec<String> = Vec::new();
    let mut pos: usize = 0;
    assert(s@.skip(0) =~= s@);
    assert(texts(out@) =~= Seq::<Seq<char>>::empty());
    assert(words(s@, sep) =~= texts(out@) + words(s@.skip(0), sep));
    loop
        invariant
            cs@ == s@,
            pos <= s@.len(),
            words(s@, sep) == texts(out@) + words(s@.skip(pos as int), sep),
        ensures
            texts(out@) == words(s@, sep),
        decreases s@.len() - pos,
    {
        let ghost from = s@.skip(pos as int);
        let start = run_end(&cs, pos, sep, true);
        assert(from.skip(run_len(from, sep, true) as int) =~= s@.skip(start as int));
        if start == cs.len() {
            assert(words(from, sep) =~= Seq::<Seq<char>>::empty());
            assert(words(s@, sep) =~= texts(out@));
            break;
        }
        let end = run_end(&cs, start, sep, false);
        let word = s.substring_char(start, end).to_owned();
        proof {
            let t = s@.skip(start as int);
            let n = run_len(t, sep, false) as int;
            lemma_run_len(from, sep, true);
            lemma_run_len(t, sep, false);
            assert(t.take(n) =~= s@.subrange(start as int, end as int));
            assert(t.skip(n) =~= s@.skip(end as int));
            assert(words(from, sep) == seq![word@] + words(s@.skip(end as int), sep));
            assert(texts(out@) + (seq![word@] + words(s@.skip(end as int), sep)) =~= texts(
                out@.push(word),
            ) + words(s@.skip(end as int), sep));
        }
        out.push(word);
        pos = end;
    }
    out
}

/// Removes white space from the two ends of a text.
pub fn trim_text(s: &str) -> (r: &str)
    ensures
        r@ == trim(s@),
{
    let cs = chars_of(s);
    let start = run_end(&cs, 0, Separator::Space, true);
    assert(s@.skip(0) =~= s@);
    let mut end: usize = cs.len();
    let ghost t = s@.skip(start as int);
    assert(t.take(t.len() as int) =~= t);
    while end > start && Separator::Space.test(cs[end - 1])
        invariant
            cs@ == s@,
            t == s@.skip(start as int),
            start <= end <= s@.len(),
            trim_end(t) == trim_end(t.take(end - start)),
        decreases end,
    {
        assert(t.take(end - start).drop_last() =~= t.take(end - start - 1));
        assert(t.take(end - start).last() == s@[end - 1]);
        end -= 1;
    }
    proof {
        if end > start {
            assert(t.take(end - start).last() == s@[end - 1]);
        }
        assert(t.take(end - start) =~= s@.subrange(start as int, end as int));
    }
    s.substring_char(start, end)
}

/// Removes the leading copies of `p`.
pub fn strip_leading<'a>(s: &'a str, p: &str) -> (r: &'a str)
    requires
        p@.len() > 0,
    ensures
        r@ == strip_prefixes(s@, p@),
{
    let n: usize = p.unicode_len();
    let mut rest: &'a str = s;
    while starts_with(rest, p)
        invariant
            n == p@.len() > 0,
            strip_prefixes(s@, p@) == strip_prefixes(rest@, p@),
        decreases rest@.len(),
    {
        rest = tail(rest, n);
    }
    rest
}

/// Removes the trailing copies of `p`.
pub fn strip_trailing<'a>(s: &'a str, p: &str) -> (r: &'a str)
    requires
        p@.len() > 0,
    ensures
        r@ == strip_suffixes(s@, p@),
{
    let n: usize = p.unicode_len();
    let mut rest: &'a str = s;
    while ends_with(rest, p)
        invariant
            n == p@.len() > 0,
            strip_suffixes(s@, p@) == strip_suffixes(rest@, p@),
        decreases rest@.len(),
    {
        let len: usize = rest.unicode_len();
        rest = rest.substring_char(0, len - n);
    }
    rest
}

/// Replaces every occurrence of `hole` by `with`.
pub fn replace(s: &str, hole: &str, with: &str) -> (r: String)
    requires
        hole@.len() > 0,
    ensures
        r@ == replaced(s@, hole@, with@),
{
    let n: usize = hole.unicode_len();
    let mut out = String::new();
    let mut rest: &str = s;
    assert(out@ + replaced(rest@, hole@, with@) =~= replaced(s@, hole@, with@));
    while rest.unicode_len() > 0
        invariant
            n == hole@.len() > 0,
            replaced(s@, hole@, with@) == out@ + replaced(rest@, hole@, with@),
        decreases rest@.len(),
    {
        let ghost before = out@;
        let ghost was = rest@;
        if starts_with(rest, hole) {
            out.append(with);
            rest = tail(rest, n);
            assert(before + (with@ + replaced(rest@, hole@, with@)) =~= out@ + replaced(
                rest@,
                hole@,
                with@,
            ));
        } else {
            out.append(rest.substring_char(0, 1));
            rest = tail(rest, 1);
            assert(was.subrange(0, 1) =~= seq![was[0]]);
            assert(before + (seq![was[0]] + replaced(rest@, hole@, with@)) =~= out@ + replaced(
                rest@,
                hole@,
                with@,
            ));
        }
    }
    assert(out@ + replaced(rest@, hole@, with@) =~= out@);
    out
}

/// Puts texts in a row, with `sep` between neighbours.
pub fn join_texts(parts: &[String], sep: &str) -> (r: String)
    ensures
        r@ == joined(texts(parts@), sep@),
{
    let mut out = String::new();
    let mut i: usize = 0;
    assert(texts(parts@).take(0) =~= Seq::<Seq<char>>::empty());
    while i < parts.len()
        invariant
            i <= parts@.len(),
            out@ == joined(texts(parts@).take(i as int), sep@),
        decreases parts@.len() - i,
    {
        let ghost before = out@;
        if i > 0 {
            out.append(sep);
        }
        out.append(parts[i].as_str());
        proof {
            let next = texts(parts@).take(i + 1);
            assert(next.drop_last() =~= texts(parts@).take(i as int));
            assert(next.last() == parts@[i as int]@);
            if i == 0 {
                assert(next =~= seq![parts@[0]@]);
                assert(before + parts@[0]@ =~= parts@[0]@);
            } else {
                assert(before + sep@ + parts@[i as int]@ == joined(next, sep@));
            }
        }
        i += 1;
    }
    assert(texts(parts@).take(parts@.len() as int) =~= texts(parts@));
    out
}

/// Tests whether a text, its ASCII capitals made small, is `word`.
pub fn lower_is(s: &str, word: &str) -> (r: bool)
    ensures
        r == (lower(s@) == word@),
{
    let n: usize = s.unicode_len();
    if n != word.unicode_len() {
        return false;
    }
    let mut i: usize = 0;
    while i < n
        invariant
            i <= n == s@.len() == word@.len(),
            forall|j: int| 0 <= j < i ==> lower_char(#[trigger] s@[j]) == word@[j],
        decreases n - i,
    {
        let c = s.get_char(i);
        if lower_of(c) != word.get_char(i) {
            assert(lower(s@)[i as int] != word@[i as int]);
            return false;
        }
        i += 1;
    }
    assert(lower(s@) =~= word@);
    true
}

/// Makes an ASCII capital small.
pub fn lower_of(c: char) -> (r: char)
    ensures
        r == lower_char(c),
{
    if 'A' <= c && c <= 'Z' {
        ((c as u8) + 32) as char
    } else {
        c
    }
}

/// Tests whether `part` occurs in `s`.
pub fn has_part(s: &str, part: &str) -> (r: bool)
    ensures
        r == contains(s@, part@),
{
    let n: usize = part.unicode_len();
    let len: usize = s.unicode_len();
    if len < n {
        return false;
    }
    let mut i: usize = 0;
    while i <= len - n
        invariant
            n == part@.len(),
            len == s@.len(),
            i <= len - n + 1,
            n <= len,
            forall|j: int| 0 <= j < i ==> !#[trigger] occurs_at(s@, part@, j),
        decreases len - n + 1 - i,
    {
        if same(s.substring_char(i, i + n), part) {
            assert(occurs_at(s@, part@, i as int));
            return true;
        }
        if i == len - n {
            assert forall|j: int| !#[trigger] occurs_at(s@, part@, j) by {}
            return false;
        }
        i += 1;
    }
    false
}

/// Tests whether `a` does not come after `b`.
pub fn comes_first(a: &str, b: &str) -> (r: bool)
    ensures
        r == not_after(a@, b@),
{
    let n: usize = a.unicode_len();
    let m: usize = b.unicode_len();
    let mut i: usize = 0;
    assert(a@.skip(0) =~= a@);
    assert(b@.skip(0) =~= b@);
    while i < n && i < m
        invariant
            n == a@.len(),
            m == b@.len(),
            i <= n,
            i <= m,
            not_after(a@, b@) == not_after(a@.skip(i as int), b@.skip(i as int)),
        decreases n - i,
    {
        let x = a.get_char(i);
        let y = b.get_char(i);
        assert(a@.skip(i as int)[0] == x);
        assert(b@.skip(i as int)[0] == y);
        if x != y {
            return x < y;
        }
        assert(a@.skip(i as int).skip(1) =~= a@.skip(i + 1));
        assert(b@.skip(i as int).skip(1) =~= b@.skip(i + 1));
        i += 1;
    }
    i == n
}

/// The text of one decimal digit.
fn digit_text(d: u64) -> (r: &'static str)
    requires
        d < 10,
    ensures
        r@ == seq![digit(d as nat)],
{
    proof {
        reveal_strlit("0");
        reveal_strlit("1");
        reveal_strlit("2");
        reveal_strlit("3");
        reveal_strlit("4");
        reveal_strlit("5");
        reveal_strlit("6");
        reveal_strlit("7");
        reveal_strlit("8");
        reveal_strlit("9");
    }
    if d == 0 {
        "0"
    } else if d == 1 {
        "1"
    } else if d == 2 {
        "2"
    } else if d == 3 {
        "3"
    } else if d == 4 {
        "4"
    } else if d == 5 {
        "5"
    } else if d == 6 {
        "6"
    } else if d == 7 {
        "7"
    } else if d == 8 {
        "8"
    } else {
        "9"
    }
}

/// Writes a number in decimal notation.
pub fn decimal_text(n: u64) -> (r: String)
    ensures
        r@ == decimal(n as nat),
    decreases n,
{
    let mut out = if n < 10 {
        String::new()
    } else {
        decimal_text(n / 10)
    };
    let ghost before = out@;
    out.append(digit_text(n % 10));
    assert(before + seq![digit((n % 10) as nat)] =~= before.push(digit((n % 10) as nat)));
    out
}

/// Writes a signed number in decimal notation.
pub fn signed_text(n: i32) -> (r: String)
    ensures
        r@ == signed_decimal(n as int),
{
    let wide: i64 = n as i64;
    if wide < 0 {
        let mut out = "-".to_owned();
        out.append(decimal_text((-wide) as u64).as_str());
        out
    } else {
        decimal_text(wide as u64)
    }
}

/// Cuts a text after `n` bytes.
pub fn cut_bytes(s: &str, n: usize) -> (r: &str)
    requires
        can_cut(s@, n as int),
    ensures
        r@ == byte_prefix(s@, n as int),
{
    let head = s.split_at(n).0;
    proof {
        encode_utf8_decode_utf8(head@);
    }
    head
}

/// A cut of an ASCII text after `n` bytes is a cut after `n` characters.
pub proof fn lemma_ascii_cut(s: Seq<char>, n: int)
    requires
        is_ascii_chars(s),
        0 <= n <= s.len(),
    ensures
        byte_len(s) == s.len(),
        can_cut(s, n),
        byte_prefix(s, n) == s.take(n),
{
    is_ascii_chars_encode_utf8(s);
    assert(is_ascii_chars(s.take(n)));
    is_ascii_chars_encode_utf8(s.take(n));
    assert(encode_utf8(s).subrange(0, n) =~= encode_utf8(s.take(n)));
    encode_utf8_decode_utf8(s.take(n));
    encode_utf8_valid_utf8(s);
    is_char_boundary_start_end_of_seq(encode_utf8(s));
    if 0 < n < s.len() {
        is_char_boundary_iff_is_leading_byte(encode_utf8(s), n);
    }
}

/// The same text as a string of its own.
pub fn copy_text(s: &str) -> (r: String)
    ensures
        r@ == s@,
{
    s.to_owned()
}

/// Copies an optional string.
pub fn copy_opt(o: &Option<String>) -> (r: Option<String>)
    ensures
        opt_text(r) == opt_text(*o),
{
    match o {
        Some(t) => Some(t.as_str().to_owned()),
        None => None,
    }
}

/// Borrows an optional string.
pub fn borrow_opt(o: &Option<String>) -> (r: Option<&str>)
    ensures
        opt_str(r) == opt_text(*o),
{
    match o {
        Some(t) => Some(t.as_str()),
        None => None,
    }
}

/// Appends copies of all strings of a list.
pub fn extend_texts(out: &mut Vec<String>, more: &[String])
    ensures
        texts(final(out)@) == texts(old(out)@) + texts(more@),
{
    let mut i: usize = 0;
    let ghost base = texts(out@);
    assert(base + texts(more@).take(0) =~= base);
    while i < more.len()
        invariant
            i <= more@.len(),
            base == texts(old(out)@),
            texts(out@) == base + texts(more@).take(i as int),
        decreases more@.len() - i,
    {
        let ghost before = out@;
        out.push(more[i].as_str().to_owned());
        proof {
            assert(texts(out@) =~= texts(before).push(more@[i as int]@));
            assert(texts(more@).take(i + 1) =~= texts(more@).take(i as int).push(more@[i as int]@));
            assert(texts(before).push(more@[i as int]@) =~= base + texts(more@).take(i + 1));
        }
        i += 1;
    }
    assert(texts(more@).take(more@.len() as int) =~= texts(more@));
}

/// Two texts in a row.
pub fn cat2(a: &str, b: &str) -> (r: String)
    ensures
        r@ == a@ + b@,
{
    let mut out = copy_text(a);
    out.append(b);
    out
}

/// Three texts in a row.
pub fn cat3(a: &str, b: &str, c: &str) -> (r: String)
    ensures
        r@ == a@ + b@ + c@,
{
    let mut out = copy_text(a);
    out.append(b);
    out.append(c);
    out
}

/// Four texts in a row.
pub fn cat4(a: &str, b: &str, c: &str, d: &str) -> (r: String)
    ensures
        r@ == a@ + b@ + c@ + d@,
{
    let mut out = copy_text(a);
    out.append(b);
    out.append(c);
    out.append(d);
    out
}

/// Five texts in a row.
pub fn cat5(a: &str, b: &str, c: &str, d: &str, e: &str) -> (r: String)
    ensures
        r@ == a@ + b@ + c@ + d@ + e@,
{
    let mut out = copy_text(a);
    out.append(b);
    out.append(c);
    out.append(d);
    out.append(e);
    out
}

/// Six texts in a row.
pub fn cat6(a: &str, b: &str, c: &str, d: &str, e: &str, f: &str) -> (r: String)
    ensures
        r@ == a@ + b@ + c@ + d@ + e@ + f@,
{
    let mut out = copy_text(a);
    out.append(b);
    out.append(c);
    out.append(d);
    out.append(e);
    out.append(f);
    out
}

/// Seven texts in a row.
pub fn cat7(a: &str, b: &str, c: &str, d: &str, e: &str, f: &str, g: &str) -> (r: String)
    ensures
        r@ == a@ + b@ + c@ + d@ + e@ + f@ + g@,
{
    let mut out = copy_text(a);
    out.append(b);
    out.append(c);
    out.append(d);
    out.append(e);
    out.append(f);
    out.append(g);
    out
}

/// The byte length of a text.
pub fn bytes_in(s: &str) -> (r: usize)
    ensures
        r == byte_len(s@),
{
    s.as_bytes().len()
}

/// A text that neither starts nor ends with white space is not changed by trimming.
pub proof fn lemma_trim_keeps(s: Seq<char>)
    requires
        s.len() > 0 ==> !is_space(s[0]) && !is_space(s.last()),
    ensures
        trim(s) == s,
{
    assert(s.skip(0) =~= s);
}

/// The words of a text that starts with a word and goes on behind a separator.
pub proof fn lemma_first_word(w: Seq<char>, rest: Seq<char>, sep: Separator)
    requires
        w.len() > 0,
        forall|i: int| 0 <= i < w.len() ==> !sep.has(#[trigger] w[i]),
        rest.len() > 0 ==> sep.has(rest[0]),
    ensures
        words(w + rest, sep) == seq![w] + words(rest, sep),
{
    let s = w + rest;
    assert(s[0] == w[0]);
    assert(s.skip(0) =~= s);
    lemma_run_is(s, sep, false, w.len() as int);
    assert(s.take(w.len() as int) =~= w);
    assert(s.skip(w.len() as int) =~= rest);
}

/// A separator in front adds no word.
pub proof fn lemma_leading_separator(c: char, rest: Seq<char>, sep: Separator)
    requires
        sep.has(c),
    ensures
        words(seq![c] + rest, sep) == words(rest, sep),
{
    let s = seq![c] + rest;
    assert(s.skip(1) =~= rest);
    lemma_run_len(rest, sep, true);
    let n = run_len(rest, sep, true) as int;
    assert(s.skip(n + 1) =~= rest.skip(n));
}

/// A run is as long as the characters say.
pub proof fn lemma_run_is(s: Seq<char>, sep: Separator, inside: bool, n: int)
    requires
        0 <= n <= s.len(),
        forall|i: int| 0 <= i < n ==> sep.has(#[trigger] s[i]) == inside,
        n < s.len() ==> sep.has(s[n]) != inside,
    ensures
        run_len(s, sep, inside) == n,
    decreases n,
{
    if n > 0 {
        assert(s[0] == s[0]);
        let t = s.skip(1);
        assert forall|i: int| 0 <= i < n - 1 implies sep.has(#[trigger] t[i]) == inside by {
            assert(t[i] == s[i + 1]);
        }
        lemma_run_is(t, sep, inside, n - 1);
    }
}

/// The words of two texts in a row are those of the one and then those of the other, as
/// long as no word goes across the seam.
pub proof fn lemma_words_in_a_row(a: Seq<char>, b: Seq<char>, sep: Separator)
    requires
        a.len() > 0 && b.len() > 0 ==> sep.has(a.last()) || sep.has(b[0]),
    ensures
        words(a + b, sep) == words(a, sep) + words(b, sep),
    decreases a.len(),
{
    if a.len() == 0 {
        assert(a + b =~= b);
        assert(words(a, sep) =~= Seq::<Seq<char>>::empty());
    } else if sep.has(a[0]) {
        let rest = a.skip(1);
        lemma_words_in_a_row(rest, b, sep);
        lemma_leading_separator(a[0], rest, sep);
        lemma_leading_separator(a[0], rest + b, sep);
        assert(a =~= seq![a[0]] + rest);
        assert(a + b =~= seq![a[0]] + (rest + b));
    } else {
        let n = run_len(a, sep, false) as int;
        lemma_run_len(a, sep, false);
        let w = a.take(n);
        let rest = a.skip(n);
        assert(n > 0);
        lemma_words_in_a_row(rest, b, sep);
        assert(a =~= w + rest);
        lemma_first_word(w, rest, sep);
        if rest.len() > 0 {
            assert((rest + b)[0] == rest[0]);
        }
        lemma_first_word(w, rest + b, sep);
        assert(a + b =~= w + (rest + b));
        assert(words(a + b, sep) =~= words(a, sep) + words(b, sep));
    }
}

/// Words that are written in a row, with a separator between neighbours, are found again.
pub proof fn lemma_words_of_joined(parts: Seq<Seq<char>>, c: char, sep: Separator)
    requires
        sep.has(c),
        forall|i: int| #![trigger parts[i]]
            0 <= i < parts.len() ==> parts[i].len() > 0 && forall|j: int|
                0 <= j < parts[i].len() ==> !sep.has(#[trigger] parts[i][j]),
    ensures
        words(joined(parts, seq![c]), sep) == parts,
    decreases parts.len(),
{
    let none = Seq::<char>::empty();
    assert(words(none, sep) =~= Seq::<Seq<char>>::empty());
    if parts.len() > 0 {
        let last = parts.last();
        assert(last == parts[parts.len() - 1]);
        lemma_first_word(last, none, sep);
        assert(last + none =~= last);
        assert(words(last, sep) =~= seq![last]);
        if parts.len() == 1 {
            assert(parts =~= seq![last]);
        } else {
            let front = parts.drop_last();
            assert forall|i: int| #![trigger front[i]]
                0 <= i < front.len() implies front[i].len() > 0 && forall|j: int|
                    0 <= j < front[i].len() ==> !sep.has(#[trigger] front[i][j]) by {
                assert(front[i] == parts[i]);
            }
            lemma_words_of_joined(front, c, sep);
            let head = joined(front, seq![c]);
            lemma_words_in_a_row(head, seq![c] + last, sep);
            lemma_leading_separator(c, last, sep);
            assert(joined(parts, seq![c]) =~= head + (seq![c] + last));
            assert(parts =~= front + seq![last]);
        }
    }
}

/// A piece in which no occurrence starts adds none to what follows.
pub proof fn lemma_count_past(piece: Seq<char>, rest: Seq<char>, part: Seq<char>)
    requires
        part.len() >= 2,
        starts_none(piece, part),
    ensures
        count(piece + rest, part) == count(rest, part),
    decreases piece.len(),
{
    let s = piece + rest;
    if piece.len() == 0 {
        assert(s =~= rest);
    } else {
        let after = piece.skip(1);
        assert(s[0] == piece[0]);
        if part.is_prefix_of(s) {
            assert(part[0] == s[0]);
            assert(part[1] == s[1]);
            assert(s[1] == piece[1]);
        }
        assert forall|i: int| 0 <= i < after.len() && #[trigger] after[i] == part[0] implies i + 1
            < after.len() && after[i + 1] != part[1] by {
            assert(piece[i + 1] == part[0]);
            assert(piece[i + 2] == after[i + 1]);
        }
        lemma_count_past(after, rest, part);
        assert(s.skip(1) =~= after + rest);
    }
}

/// An occurrence in front counts once.
pub proof fn lemma_count_one(part: Seq<char>, rest: Seq<char>)
    requires
        part.len() >= 2,
        starts_none(part.skip(1), part),
    ensures
        count(part + rest, part) == 1 + count(rest, part),
{
    let s = part + rest;
    assert(part =~= s.subrange(0, part.len() as int));
    assert(s.skip(1) =~= part.skip(1) + rest);
    lemma_count_past(part.skip(1), rest, part);
}

/// A text in which there are no occurrences to count does not contain the part.
pub proof fn lemma_count_none(s: Seq<char>, part: Seq<char>, i: int)
    requires
        part.len() > 0,
        occurs_at(s, part, i),
    ensures
        count(s, part) > 0,
    decreases s.len(),
{
    if i == 0 {
        assert(part =~= s.subrange(0, part.len() as int));
    } else {
        assert(s.skip(1).subrange(i - 1, i - 1 + part.len()) =~= s.subrange(i, i + part.len()));
        lemma_count_none(s.skip(1), part, i - 1);
    }
}

/// A part that is written before others comes before them.
pub proof fn lemma_in_order(
    front: Seq<char>,
    part: Seq<char>,
    rest: Seq<char>,
    parts: Seq<Seq<char>>,
)
    requires
        in_order(rest, parts),
    ensures
        in_order(front + (part + rest), seq![part] + parts),
{
    let s = front + (part + rest);
    let n = front.len() as int;
    let all = seq![part] + parts;
    assert(s.subrange(n, n + part.len()) =~= part);
    assert(s.skip(n + part.len()) =~= rest);
    assert(all.skip(1) =~= parts);
    assert(all[0] == part);
    assert(occurs_at(s, all[0], n));
}

/// The number that a row of decimal digits stands for.
pub open spec fn number(s: Seq<char>) -> nat
    decreases s.len(),
{
    if s.len() == 0 {
        0
    } else {
        (number(s.drop_last()) * 10 + (s.last() as u32 - 48)) as nat
    }
}

/// A number in decimal notation is a row of digits that stands for it, and does not start with
/// a zero unless it is zero.
pub proof fn lemma_decimal(n: nat)
    ensures
        number(decimal(n)) == n,
        decimal(n).len() > 0,
        n > 0 ==> decimal(n)[0] != '0',
        forall|i: int| 0 <= i < decimal(n).len() ==> '0' <= #[trigger] decimal(n)[i] <= '9',
    decreases n,
{
    let s = decimal(n);
    let none = Seq::<char>::empty();
    if n < 10 {
        assert(s.drop_last() =~= none);
        assert(number(none) == 0);
        assert(s.last() as u32 == 48 + n);
    } else {
        lemma_decimal(n / 10);
        let front = decimal(n / 10);
        assert(s.drop_last() =~= front);
        assert(s.last() as u32 == 48 + n % 10);
        assert(s[0] == front[0]);
        assert forall|i: int| 0 <= i < s.len() implies '0' <= #[trigger] s[i] <= '9' by {
            if i < front.len() {
                assert(s[i] == front[i]);
            }
        }
    }
}

/// A mark that stands once in a text gives way to what is put there, and nothing else changes.
pub proof fn lemma_replaced_once(a: Seq<char>, hole: Seq<char>, b: Seq<char>, with: Seq<char>)
    requires
        hole.len() > 0,
        !a.contains(hole[0]),
        !b.contains(hole[0]),
    ensures
        replaced(a + hole + b, hole, with) == a + with + b,
    decreases a.len(),
{
    let s = a + hole + b;
    if a.len() == 0 {
        assert(hole =~= s.subrange(0, hole.len() as int));
        assert(s.skip(hole.len() as int) =~= b);
        lemma_replaced_none(b, hole, with);
        assert(with + b =~= a + with + b);
    } else {
        let rest = a.skip(1);
        assert(a.contains(a[0]));
        assert(s[0] == a[0]);
        assert forall|i: int| 0 <= i < rest.len() implies rest[i] != hole[0] by {
            assert(a.contains(a[i + 1]));
        }
        lemma_replaced_once(rest, hole, b, with);
        assert(s.skip(1) =~= rest + hole + b);
        assert(seq![a[0]] + (rest + with + b) =~= a + with + b);
    }
}

/// A text without the mark stays as it is.
proof fn lemma_replaced_none(s: Seq<char>, hole: Seq<char>, with: Seq<char>)
    requires
        hole.len() > 0,
        !s.contains(hole[0]),
    ensures
        replaced(s, hole, with) == s,
    decreases s.len(),
{
    if s.len() > 0 {
        let rest = s.skip(1);
        assert(s.contains(s[0]));
        assert forall|i: int| 0 <= i < rest.len() implies rest[i] != hole[0] by {
            assert(s.contains(s[i + 1]));
        }
        lemma_replaced_none(rest, hole, with);
        assert(seq![s[0]] + rest =~= s);
    }
}

/// What trimming takes away is white space at the two ends, all of it and nothing else.
pub proof fn lemma_trim(s: Seq<char>) -> (r: (int, int))
    ensures
        0 <= r.0 <= r.1 <= s.len(),
        trim(s) == s.subrange(r.0, r.1),
        forall|i: int| 0 <= i < r.0 || r.1 <= i < s.len() ==> is_space(#[trigger] s[i]),
        r.0 < r.1 ==> !is_space(s[r.0]) && !is_space(s[r.1 - 1]),
{
    let a = run_len(s, Separator::Space, true) as int;
    lemma_run_len(s, Separator::Space, true);
    let rest = s.skip(a);
    let n = lemma_trim_end(rest);
    assert forall|i: int| 0 <= i < a implies is_space(#[trigger] s[i]) by {
        assert(Separator::Space.has(s[i]));
    }
    assert forall|i: int| a + n <= i < s.len() implies is_space(#[trigger] s[i]) by {
        assert(rest[i - a] == s[i]);
    }
    assert(rest.take(n) =~= s.subrange(a, a + n));
    if n > 0 {
        assert(rest[n - 1] == s[a + n - 1]);
    }
    (a, a + n)
}

proof fn lemma_trim_end(s: Seq<char>) -> (n: int)
    ensures
        0 <= n <= s.len(),
        trim_end(s) == s.take(n),
        forall|i: int| n <= i < s.len() ==> is_space(#[trigger] s[i]),
        n > 0 ==> !is_space(s[n - 1]),
    decreases s.len(),
{
    if s.len() > 0 && is_space(s.last()) {
        let front = s.drop_last();
        let n = lemma_trim_end(front);
        assert(front.take(n) =~= s.take(n));
        assert forall|i: int| n <= i < s.len() implies is_space(#[trigger] s[i]) by {
            if i < front.len() {
                assert(front[i] == s[i]);
            }
        }
        if n > 0 {
            assert(front[n - 1] == s[n - 1]);
        }
        n
    } else {
        assert(s.take(s.len() as int) =~= s);
        s.len() as int
    }
}

} // verus!
