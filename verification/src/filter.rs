//! Gitignore-style path filters, compiled once from a list of pattern lines.
//!
//! Compiling and matching are done by the `ignore` crate. What a builder
//! and a matcher hold, and what the crate decides about a line, a set of
//! lines and a path, is named here by uninterpreted functions; everything
//! this module proves is stated over them.

use vstd::prelude::*;
use ignore::gitignore::Gitignore;
use ignore::gitignore::GitignoreBuilder;
use crate::text::chars_of;
use crate::text::starts_with;
use crate::text::tail;
use crate::text::views;

verus! {

/// `ignore::gitignore::GitignoreBuilder`, carried as an opaque value.
#[verifier::external_type_specification]
#[verifier::external_body]
pub struct ExGitignoreBuilder(ignore::gitignore::GitignoreBuilder);

/// `ignore::gitignore::Gitignore`, carried as an opaque value.
#[verifier::external_type_specification]
#[verifier::external_body]
pub struct ExGitignore(ignore::gitignore::Gitignore);

/// The root directory that a builder holds.
pub uninterp spec fn builder_root(b: GitignoreBuilder) -> Seq<char>;

/// The text of the patterns that a builder holds, in order.
pub uninterp spec fn builder_lines(b: GitignoreBuilder) -> Seq<Seq<char>>;

/// The root directory that a compiled matcher holds.
pub uninterp spec fn matcher_root(m: Gitignore) -> Seq<char>;

/// The text of the patterns that a compiled matcher holds, in order.
pub uninterp spec fn matcher_lines(m: Gitignore) -> Seq<Seq<char>>;

/// Whether `GitignoreBuilder::add_line` accepts this line.
pub uninterp spec fn line_compiles(line: Seq<char>) -> bool;

/// Whether `GitignoreBuilder::build` succeeds for a builder that holds
/// these patterns.
pub uninterp spec fn set_assembles(lines: Seq<Seq<char>>) -> bool;

/// Whether a matcher that holds `root` and the patterns `lines` reports
/// `path` (a file, not a directory) or one of its parent directories as
/// ignored.
pub uninterp spec fn pattern_verdict(
    root: Seq<char>,
    lines: Seq<Seq<char>>,
    path: Seq<char>,
) -> bool;

/// Whether a matcher ignores `path`: one without patterns ignores
/// nothing.
pub open spec fn verdict(root: Seq<char>, lines: Seq<Seq<char>>, path: Seq<char>) -> bool {
    lines.len() > 0 && pattern_verdict(root, lines, path)
}

/// Whether a character is white space, as `char::is_whitespace` has it.
pub open spec fn is_space(c: char) -> bool {
    let n = c as u32;
    ||| 0x09 <= n <= 0x0D
    ||| n == 0x20
    ||| n == 0x85
    ||| n == 0xA0
    ||| n == 0x1680
    ||| 0x2000 <= n <= 0x200A
    ||| n == 0x2028
    ||| n == 0x2029
    ||| n == 0x202F
    ||| n == 0x205F
    ||| n == 0x3000
}

/// A text without the white space at its end.
pub open spec fn trimmed(text: Seq<char>) -> Seq<char>
    decreases text.len(),
{
    if text.len() > 0 && is_space(text.last()) {
        trimmed(text.drop_last())
    } else {
        text
    }
}

/// The pattern that a builder keeps of a line: none of a comment or of
/// a line that is blank; else the line without the white space at its
/// end, unless that is an escaped space.
pub open spec fn kept(line: Seq<char>) -> Option<Seq<char>> {
    if line.len() > 0 && line[0] == '#' {
        None
    } else {
        let body = if line.len() >= 2 && line[line.len() - 2] == '\\' && line[line.len() - 1]
            == ' ' {
            line
        } else {
            trimmed(line)
        };
        if body.len() == 0 {
            None
        } else {
            Some(body)
        }
    }
}

/// The patterns that a builder keeps of a list of lines, in order.
pub open spec fn kept_lines(lines: Seq<Seq<char>>) -> Seq<Seq<char>>
    decreases lines.len(),
{
    if lines.len() == 0 {
        lines
    } else {
        match kept(lines.last()) {
            Some(pattern) => kept_lines(lines.drop_last()).push(pattern),
            None => kept_lines(lines.drop_last()),
        }
    }
}

/// The root that a builder keeps: the given one without a leading `./`.
pub open spec fn stored_root(root: Seq<char>) -> Seq<char> {
    without_dot_slash(root)
}

/// A text without a leading `./`.
pub open spec fn without_dot_slash(text: Seq<char>) -> Seq<char> {
    if text.len() >= 2 && text[0] == '.' && text[1] == '/' {
        text.subrange(2, text.len() as int)
    } else {
        text
    }
}

/// The path that a matcher holding `root` looks at: the given one
/// without a leading `./`, and, where it has a directory part and starts
/// with the root, without the root and one separator behind it. A
/// matcher whose root is `.` strips no root.
pub open spec fn stripped(root: Seq<char>, path: Seq<char>) -> Seq<char> {
    let shown = without_dot_slash(path);
    if root != seq!['.'] && shown.contains('/') && root.is_prefix_of(shown) {
        let rest = shown.subrange(root.len() as int, shown.len() as int);
        if rest.len() > 0 && rest[0] == '/' {
            rest.subrange(1, rest.len() as int)
        } else {
            rest
        }
    } else {
        shown
    }
}

/// Whether a matcher holding `root` can be asked about `path`: what it
/// looks at must not be rooted.
pub open spec fn askable(root: Seq<char>, path: Seq<char>) -> bool {
    stripped(root, path).len() == 0 || stripped(root, path)[0] != '/'
}

/// Every line is accepted by the pattern compiler.
pub open spec fn all_compile(lines: Seq<Seq<char>>) -> bool {
    forall|i: int| 0 <= i < lines.len() ==> line_compiles(#[trigger] lines[i])
}

/// `at` is the position of the first line that the pattern compiler
/// refuses.
pub open spec fn first_bad(lines: Seq<Seq<char>>, at: int) -> bool {
    &&& 0 <= at < lines.len()
    &&& !line_compiles(lines[at])
    &&& forall|i: int| 0 <= i < at ==> line_compiles(#[trigger] lines[i])
}

/// Why a filter could not be compiled.
#[derive(Clone, Copy, Debug, PartialEq, Eq, Structural)]
pub enum PatternError {
    /// The pattern at this position is malformed.
    BadPattern(usize),
    /// Every pattern was accepted, but the set could not be assembled.
    Build,
}

/// Calls `GitignoreBuilder::new`: a builder without patterns, whose root
/// is the given one without a leading `./`.
#[verifier::external_body]
fn builder_new(root: &str) -> (b: GitignoreBuilder)
    ensures
        builder_root(b) == stored_root(root@),
        builder_lines(b) == Seq::<Seq<char>>::empty(),
{
    GitignoreBuilder::new(root)
}

/// Calls `GitignoreBuilder::add_line` with no source file. A comment or
/// a blank line is accepted and adds nothing. Any other line is parsed as
/// a glob: when that succeeds, its text without trailing white space is
/// appended; when it fails, the builder is left as it was. Whether a line
/// is accepted depends on the line alone, since the builder's options are
/// never changed from their defaults.
#[verifier::external_body]
fn builder_add_line(b: &mut GitignoreBuilder, line: &str) -> (ok: bool)
    ensures
        ok == line_compiles(line@),
        builder_root(*final(b)) == builder_root(*old(b)),
        builder_lines(*final(b)) == match kept(line@) {
            Some(pattern) if ok => builder_lines(*old(b)).push(pattern),
            _ => builder_lines(*old(b)),
        },
{
    b.add_line(None, line).is_ok()
}

/// Calls `GitignoreBuilder::build`. Whether it succeeds depends on the
/// patterns that the builder holds; when it does, the matcher holds the
/// builder's root and patterns.
#[verifier::external_body]
fn builder_build(b: &GitignoreBuilder) -> (m: Option<Gitignore>)
    ensures
        m is Some <==> set_assembles(builder_lines(*b)),
        m matches Some(g) ==> matcher_root(g) == builder_root(*b) && matcher_lines(g)
            == builder_lines(*b),
{
    b.build().ok()
}

/// Calls `Gitignore::is_empty`: whether the matcher holds no pattern.
#[verifier::external_body]
fn matcher_is_empty(m: &Gitignore) -> (r: bool)
    ensures
        r == (matcher_lines(*m).len() == 0),
{
    m.is_empty()
}

/// Calls `Gitignore::matched_path_or_any_parents` for a file path and
/// reports whether the match is an ignore. A matcher without patterns
/// matches nothing, whatever the path. Any other matcher strips the path
/// as `stripped` says (paths with `/` as separator) and panics where the
/// outcome is rooted, so such a path is left out. A root that names the
/// current directory in another spelling than `.` is not stripped by the
/// method; the path is then rooted only where `stripped` is rooted too.
#[verifier::external_body]
fn matcher_ignores(m: &Gitignore, path: &str) -> (r: bool)
    requires
        matcher_lines(*m).len() == 0 || askable(matcher_root(*m), path@),
    ensures
        r == pattern_verdict(matcher_root(*m), matcher_lines(*m), path@),
        matcher_lines(*m).len() == 0 ==> !r,
{
    m.matched_path_or_any_parents(path, false).is_ignore()
}

/// Whether `c` occurs in `s`.
pub fn has_char(s: &Vec<char>, c: char) -> (r: bool)
    ensures
        r == s@.contains(c),
{
    let mut i: usize = 0;
    while i < s.len()
        invariant
            i <= s.len(),
            forall|k: int| 0 <= k < i ==> s@[k] != c,
        decreases s.len() - i,
    {
        if s[i] == c {
            return true;
        }
        i += 1;
    }
    false
}

/// A text without a leading `./`.
pub fn strip_dot_slash(text: &Vec<char>) -> (res: Vec<char>)
    ensures
        res@ == without_dot_slash(text@),
{
    if text.len() >= 2 && text[0] == '.' && text[1] == '/' {
        tail(text, 2)
    } else {
        let all = tail(text, 0);
        assert(text@.subrange(0, text@.len() as int) =~= text@);
        all
    }
}

/// Whether a matcher holding `root` can be asked about `path`.
pub fn is_askable(root: &Vec<char>, path: &Vec<char>) -> (r: bool)
    ensures
        r == askable(root@, path@),
{
    let shown = strip_dot_slash(path);
    let root_is_dot = root.len() == 1 && root[0] == '.';
    proof {
        if root_is_dot {
            assert(root@ =~= seq!['.']);
        } else if root@ == seq!['.'] {
            assert(seq!['.'].len() == 1 && seq!['.'][0] == '.');
        }
    }
    if !root_is_dot && has_char(&shown, '/') && starts_with(&shown, root) {
        let at: usize = root.len();
        if at < shown.len() && shown[at] == '/' {
            !(at + 1 < shown.len() && shown[at + 1] == '/')
        } else {
            !(at < shown.len() && shown[at] == '/')
        }
    } else {
        !(shown.len() > 0 && shown[0] == '/')
    }
}

/// The compiled form of one pattern list.
pub struct FilterMatcher {
    root: Vec<char>,
    compiled: Gitignore,
}

impl FilterMatcher {
    #[verifier::type_invariant]
    spec fn root_is_the_matchers(self) -> bool {
        matcher_root(self.compiled) == self.root@
    }

    /// The directory that the matcher holds.
    pub closed spec fn root(&self) -> Seq<char> {
        matcher_root(self.compiled)
    }

    /// The patterns that the matcher holds, in order.
    pub closed spec fn lines(&self) -> Seq<Seq<char>> {
        matcher_lines(self.compiled)
    }

    /// Whether the filter matches `path`.
    pub open spec fn matches(&self, path: Seq<char>) -> bool {
        verdict(self.root(), self.lines(), path)
    }

    /// Compiles `patterns` for `root`. A malformed pattern is reported by
    /// the position of the first one; it is never skipped. The matcher
    /// holds the patterns that are kept of the lines.
    pub fn new(root: &str, patterns: &Vec<String>) -> (res: Result<FilterMatcher, PatternError>)
        ensures
            res is Ok <==> all_compile(views(patterns@)) && set_assembles(
                kept_lines(views(patterns@)),
            ),
            match res {
                Ok(m) => m.root() == stored_root(root@) && m.lines() == kept_lines(
                    views(patterns@),
                ),
                Err(PatternError::BadPattern(at)) => first_bad(views(patterns@), at as int),
                Err(PatternError::Build) => all_compile(views(patterns@)),
            },
    {
        let mut builder = builder_new(root);
        let mut i: usize = 0;
        while i < patterns.len()
            invariant
                i <= patterns.len(),
                builder_root(builder) == stored_root(root@),
                builder_lines(builder) == kept_lines(views(patterns@).subrange(0, i as int)),
                forall|k: int| 0 <= k < i ==> line_compiles(#[trigger] views(patterns@)[k]),
            decreases patterns.len() - i,
        {
            let ok = builder_add_line(&mut builder, patterns[i].as_str());
            if !ok {
                assert(!line_compiles(views(patterns@)[i as int]));
                return Err(PatternError::BadPattern(i));
            }
            proof {
                let upto = views(patterns@).subrange(0, i + 1);
                assert(upto.drop_last() =~= views(patterns@).subrange(0, i as int));
                assert(upto.last() == patterns@[i as int]@);
            }
            i += 1;
        }
        assert(views(patterns@).subrange(0, i as int) =~= views(patterns@));
        match builder_build(&builder) {
            Some(compiled) => Ok(
                FilterMatcher { root: strip_dot_slash(&chars_of(root)), compiled },
            ),
            None => Err(PatternError::Build),
        }
    }

    /// Whether the filter can be asked about `path`: it holds no pattern,
    /// or what it looks at of the path is not rooted.
    pub open spec fn can_match(&self, path: Seq<char>) -> bool {
        self.lines().len() == 0 || askable(self.root(), path)
    }

    /// Whether the filter can be asked about `path`.
    pub fn accepts(&self, path: &str) -> (r: bool)
        ensures
            r == self.can_match(path@),
    {
        proof {
            use_type_invariant(self);
        }
        matcher_is_empty(&self.compiled) || is_askable(&self.root, &chars_of(path))
    }

    /// Whether the filter matches the file at `path` or one of its parent
    /// directories.
    pub fn ignores(&self, path: &str) -> (r: bool)
        requires
            self.can_match(path@),
        ensures
            r == self.matches(path@),
    {
        matcher_ignores(&self.compiled, path)
    }
}

} // verus!
