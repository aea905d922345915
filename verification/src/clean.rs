//! The working-tree cleanliness check.
//!
//! The caller locates the repository, reads the manifest and queries the
//! repository status; this module decides which of the reported entries
//! count as violations.

use vstd::prelude::*;
use std::path::Path;
use crate::filter::all_compile;
use crate::filter::first_bad;
use crate::filter::askable;
use crate::filter::kept_lines;
use crate::filter::set_assembles;
use crate::filter::stored_root;
use crate::filter::verdict;
use crate::filter::FilterMatcher;
use crate::filter::PatternError;
use crate::text::chars_of;
use crate::text::same_chars;
use crate::text::starts_with;
use crate::text::string_of;
use crate::text::tail;
use crate::text::views;

verus! {

/// What a status entry reports about its path.
#[derive(Clone, Copy, Debug, PartialEq, Eq, Structural)]
pub enum ChangeKind {
    Modified,
    Added,
    SubmoduleModified,
    Untracked,
    Other,
}

/// One entry of the repository status: a path relative to the repository
/// root, and what changed there.
#[derive(Clone, Debug)]
pub struct StatusEntry {
    pub path: String,
    pub kind: ChangeKind,
}

/// A change that stands in the way of publishing: a path relative to the
/// package root, and what changed there.
#[derive(Clone, Debug)]
pub struct Violation {
    pub path: String,
    pub kind: ChangeKind,
}

/// The package under verification. `None` for a pattern list means that
/// the manifest does not have the field; `Some` of an empty list means
/// that it has it, empty.
#[derive(Clone, Debug)]
pub struct PackageDescriptor {
    pub name: String,
    pub version: String,
    pub root: String,
    pub include_patterns: Option<Vec<String>>,
    pub exclude_patterns: Option<Vec<String>>,
}

/// Why the cleanliness check could not give a verdict.
#[derive(Clone, Copy, Debug, PartialEq, Eq, Structural)]
pub enum CheckError {
    /// The authoritative pattern at this position is malformed.
    BadPattern(usize),
    /// The authoritative patterns could not be assembled into a filter.
    MatcherBuild,
    /// The package root is neither the repository root nor below it.
    RootOutsideRepository,
    /// The status entry at this position lies outside the package.
    OutsideScope(usize),
    /// The status entry at this position has a path that the filter
    /// cannot be asked about: it is rooted, and not below the package
    /// root.
    UnusablePath(usize),
}

/// The verdict of the cleanliness check.
#[derive(Clone, Debug)]
pub struct CleanReport {
    /// The violations, in the order of the status query.
    pub violations: Vec<Violation>,
    /// Whether the manifest sets both pattern lists, so that the exclude
    /// list was ignored. The caller warns once when this is set.
    pub exclude_ignored: bool,
}

/// Which filter decides whether a path belongs to the package.
pub enum FilterRule {
    Everything,
    Only(Seq<Seq<char>>),
    Except(Seq<Seq<char>>),
}

/// A status entry or violation as a plain value.
pub type Change = (Seq<char>, ChangeKind);

/// What becomes of one status entry.
pub enum Verdict {
    Keep(Seq<char>),
    Dropped,
    OutsideScope,
    UnusablePath,
}

/// A pattern list as a plain value.
pub open spec fn list_view(list: Option<Vec<String>>) -> Option<Seq<Seq<char>>> {
    match list {
        Some(v) => Some(views(v@)),
        None => None,
    }
}

/// An optional text as a plain value.
pub open spec fn text_view(text: Option<String>) -> Option<Seq<char>> {
    match text {
        Some(s) => Some(s@),
        None => None,
    }
}

/// Status entries as plain values, in order.
pub open spec fn entry_views(entries: Seq<StatusEntry>) -> Seq<Change> {
    Seq::new(entries.len(), |i: int| (entries[i].path@, entries[i].kind))
}

/// Violations as plain values, in order.
pub open spec fn violation_views(violations: Seq<Violation>) -> Seq<Change> {
    Seq::new(violations.len(), |i: int| (violations[i].path@, violations[i].kind))
}

/// The include list decides where the manifest has one; else the exclude
/// list where it has one; else every path belongs.
pub open spec fn authoritative(
    include_list: Option<Seq<Seq<char>>>,
    exclude_list: Option<Seq<Seq<char>>>,
) -> FilterRule {
    match include_list {
        Some(lines) => FilterRule::Only(lines),
        None => match exclude_list {
            Some(lines) => FilterRule::Except(lines),
            None => FilterRule::Everything,
        },
    }
}

/// The pattern lines that a rule compiles.
pub open spec fn rule_lines(rule: FilterRule) -> Seq<Seq<char>> {
    match rule {
        FilterRule::Everything => Seq::empty(),
        FilterRule::Only(lines) => lines,
        FilterRule::Except(lines) => lines,
    }
}

/// Whether `path`, relative to the package root, is in scope.
pub open spec fn admits(root: Seq<char>, rule: FilterRule, path: Seq<char>) -> bool {
    match rule {
        FilterRule::Everything => true,
        FilterRule::Only(lines) => verdict(stored_root(root), kept_lines(lines), path),
        FilterRule::Except(lines) => !verdict(stored_root(root), kept_lines(lines), path),
    }
}

/// A directory path with one separator at its end.
pub open spec fn sep_terminated(dir: Seq<char>) -> Seq<char> {
    if dir.len() > 0 && dir.last() == '/' {
        dir
    } else {
        dir.push('/')
    }
}

/// The package's path inside the repository: `Some(None)` where the two
/// roots are the same, `Some(Some(p))` where the package lies at `p` below
/// the repository root, `None` where it lies elsewhere.
pub open spec fn sub_path(package_root: Seq<char>, git_root: Seq<char>) -> Option<
    Option<Seq<char>>,
> {
    let prefix = sep_terminated(git_root);
    if package_root == git_root {
        Some(None)
    } else if prefix.is_prefix_of(package_root) && prefix.len() < package_root.len() {
        Some(Some(package_root.subrange(prefix.len() as int, package_root.len() as int)))
    } else {
        None
    }
}

/// A repository path seen from the package root: unchanged where the
/// package is the repository, else without the package's sub-path and
/// the separator behind it. `None` where the path is not below the
/// sub-path.
pub open spec fn relativized(path: Seq<char>, sub: Option<Seq<char>>) -> Option<Seq<char>> {
    match sub {
        None => Some(path),
        Some(dir) => if dir.push('/').is_prefix_of(path) {
            Some(path.subrange(dir.len() as int + 1, path.len() as int))
        } else {
            None
        },
    }
}

/// Whether the filter of a rule can be asked about `path`: a filter
/// without patterns about any path, another one about a path that is
/// not rooted once the filter has stripped it.
pub open spec fn can_judge(root: Seq<char>, rule: FilterRule, path: Seq<char>) -> bool {
    rule == FilterRule::Everything || kept_lines(rule_lines(rule)).len() == 0 || askable(
        stored_root(root),
        path,
    )
}

/// What becomes of one status entry: a submodule modification is always
/// kept; any other entry is kept where its path is in scope.
pub open spec fn entry_verdict(
    root: Seq<char>,
    rule: FilterRule,
    sub: Option<Seq<char>>,
    entry: Change,
) -> Verdict {
    match relativized(entry.0, sub) {
        None => Verdict::OutsideScope,
        Some(path) => if entry.1 == ChangeKind::SubmoduleModified || rule
            == FilterRule::Everything {
            Verdict::Keep(path)
        } else if !can_judge(root, rule, path) {
            Verdict::UnusablePath
        } else if admits(root, rule, path) {
            Verdict::Keep(path)
        } else {
            Verdict::Dropped
        },
    }
}

/// The violations among `entries`, in their order; or the first entry
/// that cannot be judged.
pub open spec fn judge(
    root: Seq<char>,
    rule: FilterRule,
    sub: Option<Seq<char>>,
    entries: Seq<Change>,
) -> Result<Seq<Change>, CheckError>
    decreases entries.len(),
{
    if entries.len() == 0 {
        Ok(Seq::empty())
    } else {
        match judge(root, rule, sub, entries.drop_last()) {
            Err(e) => Err(e),
            Ok(kept) => match entry_verdict(root, rule, sub, entries.last()) {
                Verdict::Keep(path) => Ok(kept.push((path, entries.last().1))),
                Verdict::Dropped => Ok(kept),
                Verdict::OutsideScope => Err(
                    CheckError::OutsideScope((entries.len() - 1) as usize),
                ),
                Verdict::UnusablePath => Err(
                    CheckError::UnusablePath((entries.len() - 1) as usize),
                ),
            },
        }
    }
}

/// Whether the patterns of a rule, all of them well-formed, can be
/// assembled into a filter. Without a filter nothing is assembled.
pub open spec fn filter_assembles(rule: FilterRule) -> bool {
    rule == FilterRule::Everything || set_assembles(kept_lines(rule_lines(rule)))
}

/// What the check returns for a package inside a repository: the first
/// malformed pattern of the authoritative list; else that the filter
/// cannot be assembled; else that the package lies outside the
/// repository; else the verdict on the entries.
pub open spec fn expected_clean(
    root: Seq<char>,
    include_list: Option<Seq<Seq<char>>>,
    exclude_list: Option<Seq<Seq<char>>>,
    git_root: Seq<char>,
    entries: Seq<Change>,
) -> Result<Seq<Change>, CheckError> {
    let rule = authoritative(include_list, exclude_list);
    if exists|at: int| first_bad(rule_lines(rule), at) {
        Err(CheckError::BadPattern((choose|at: int| first_bad(rule_lines(rule), at)) as usize))
    } else if !filter_assembles(rule) {
        Err(CheckError::MatcherBuild)
    } else {
        match sub_path(root, git_root) {
            None => Err(CheckError::RootOutsideRepository),
            Some(sub) => judge(root, rule, sub, entries),
        }
    }
}

/// Whether the caller owes the warning that the exclude list is ignored.
pub open spec fn warns(
    include_list: Option<Seq<Seq<char>>>,
    exclude_list: Option<Seq<Seq<char>>>,
) -> bool {
    include_list is Some && exclude_list is Some
}

/// The parent directory of a path, as `Path::parent` gives it.
pub uninterp spec fn path_parent(path: Seq<char>) -> Option<Seq<char>>;

/// The directory `steps` levels above `path`, where there is one.
pub open spec fn ancestor(path: Seq<char>, steps: nat) -> Option<Seq<char>>
    decreases steps,
{
    if steps == 0 {
        Some(path)
    } else {
        match ancestor(path, (steps - 1) as nat) {
            Some(dir) => path_parent(dir),
            None => None,
        }
    }
}

/// `at` is the first position that is marked.
pub open spec fn first_marked(marked: Seq<bool>, at: int) -> bool {
    &&& 0 <= at < marked.len()
    &&& marked[at]
    &&& forall|i: int| 0 <= i < at ==> !marked[i]
}

/// Calls `Path::parent` on a path given as text: the path without its
/// final component, or nothing where the path ends in a root or is empty.
#[verifier::external_body]
fn parent_of(path: &str) -> (res: Option<String>)
    ensures
        text_view(res) == path_parent(path@),
{
    Path::new(path).parent().and_then(|p| p.to_str()).map(|p| p.to_owned())
}

/// The repository root for a package: the nearest directory, from the
/// package root upwards, that holds a version-control marker.
/// `marked[i]` says whether the directory `i` levels above the package
/// root holds one; directories beyond the end of `marked` count as
/// unmarked.
pub fn get_git_root(package_root: &str, marked: &Vec<bool>) -> (res: Option<String>)
    ensures
        forall|at: int| first_marked(marked@, at) ==> text_view(res) == ancestor(package_root@, at as nat),
        (forall|at: int| !first_marked(marked@, at)) ==> res is None,
{
    let mut dir: String = package_root.to_owned();
    let mut i: usize = 0;
    while i < marked.len()
        invariant
            i <= marked.len(),
            forall|k: int| 0 <= k < i ==> !marked@[k],
            ancestor(package_root@, i as nat) == Some(dir@),
        decreases marked.len() - i,
    {
        if marked[i] {
            assert(first_marked(marked@, i as int));
            assert forall|at: int| first_marked(marked@, at) implies at == i by {}
            return Some(dir);
        }
        match parent_of(dir.as_str()) {
            Some(up) => {
                dir = up;
            },
            None => {
                assert(ancestor(package_root@, (i + 1) as nat) is None);
                assert forall|at: int| first_marked(marked@, at) implies ancestor(
                    package_root@,
                    at as nat,
                ) is None by {
                    lemma_no_ancestor_beyond(package_root@, (i + 1) as nat, at as nat);
                }
                return None;
            },
        }
        i += 1;
    }
    None
}

/// Above a level that has no directory there is none either.
pub proof fn lemma_no_ancestor_beyond(path: Seq<char>, low: nat, high: nat)
    requires
        low <= high,
        ancestor(path, low) is None,
    ensures
        ancestor(path, high) is None,
    decreases high,
{
    if low < high {
        lemma_no_ancestor_beyond(path, low, (high - 1) as nat);
    }
}

/// The package's path inside the repository, by which the status query
/// is restricted: nothing where the package is the repository.
pub fn status_scope(package_root: &str, git_root: &str) -> (res: Result<
    Option<String>,
    CheckError,
>)
    ensures
        match res {
            Ok(sub) => sub_path(package_root@, git_root@) == Some(text_view(sub)),
            Err(e) => sub_path(package_root@, git_root@) is None && e
                == CheckError::RootOutsideRepository,
        },
{
    let root = chars_of(package_root);
    let git = chars_of(git_root);
    if same_chars(&root, &git) {
        return Ok(None);
    }
    let mut prefix = git;
    if !(prefix.len() > 0 && prefix[prefix.len() - 1] == '/') {
        prefix.push('/');
    }
    if starts_with(&root, &prefix) && prefix.len() < root.len() {
        let rest = tail(&root, prefix.len());
        Ok(Some(string_of(&rest)))
    } else {
        Err(CheckError::RootOutsideRepository)
    }
}

/// A repository path seen from the package root.
pub fn relativize(path: &str, sub: &Option<String>) -> (res: Option<String>)
    ensures
        text_view(res) == relativized(path@, text_view(*sub)),
{
    match sub {
        None => Some(path.to_owned()),
        Some(dir) => {
            let p = chars_of(path);
            let mut prefix = chars_of(dir.as_str());
            prefix.push('/');
            if starts_with(&p, &prefix) {
                let rest = tail(&p, prefix.len());
                Some(string_of(&rest))
            } else {
                None
            }
        },
    }
}

enum ScopeFilter {
    Everything,
    Only(FilterMatcher),
    Except(FilterMatcher),
}

/// The compiled scope of a package: its root and the filter that is
/// authoritative for it.
pub struct Scope {
    root: String,
    given: Ghost<Seq<Seq<char>>>,
    filter: ScopeFilter,
}

impl Scope {
    #[verifier::type_invariant]
    spec fn matcher_is_for_package(self) -> bool {
        match self.filter {
            ScopeFilter::Everything => true,
            ScopeFilter::Only(m) => m.root() == stored_root(self.root@) && m.lines() == kept_lines(
                self.given@,
            ),
            ScopeFilter::Except(m) => m.root() == stored_root(self.root@) && m.lines()
                == kept_lines(self.given@),
        }
    }

    /// The package root that the scope was compiled for.
    pub closed spec fn root(&self) -> Seq<char> {
        self.root@
    }

    /// The rule that this scope applies.
    pub closed spec fn rule(&self) -> FilterRule {
        match self.filter {
            ScopeFilter::Everything => FilterRule::Everything,
            ScopeFilter::Only(_) => FilterRule::Only(self.given@),
            ScopeFilter::Except(_) => FilterRule::Except(self.given@),
        }
    }

    /// Compiles the authoritative pattern list of a package. Where the
    /// manifest sets both lists, only the include list is compiled.
    pub fn build(descriptor: &PackageDescriptor) -> (res: Result<Scope, PatternError>)
        ensures
            ({
                let rule = authoritative(
                    list_view(descriptor.include_patterns),
                    list_view(descriptor.exclude_patterns),
                );
                &&& res is Ok <==> all_compile(rule_lines(rule)) && filter_assembles(rule)
                &&& match res {
                    Ok(scope) => scope.rule() == rule && scope.root() == descriptor.root@,
                    Err(PatternError::BadPattern(at)) => first_bad(rule_lines(rule), at as int),
                    Err(PatternError::Build) => all_compile(rule_lines(rule)),
                }
            }),
    {
        match &descriptor.include_patterns {
            Some(lines) => {
                match FilterMatcher::new(descriptor.root.as_str(), lines) {
                    Ok(m) => Ok(
                        Scope {
                            root: descriptor.root.clone(),
                            given: Ghost(views(lines@)),
                            filter: ScopeFilter::Only(m),
                        },
                    ),
                    Err(e) => Err(e),
                }
            },
            None => match &descriptor.exclude_patterns {
                Some(lines) => {
                    match FilterMatcher::new(descriptor.root.as_str(), lines) {
                        Ok(m) => Ok(
                            Scope {
                                root: descriptor.root.clone(),
                                given: Ghost(views(lines@)),
                                filter: ScopeFilter::Except(m),
                            },
                        ),
                        Err(e) => Err(e),
                    }
                },
                None => Ok(
                    Scope {
                        root: descriptor.root.clone(),
                        given: Ghost(Seq::empty()),
                        filter: ScopeFilter::Everything,
                    },
                ),
            },
        }
    }

    /// Whether the scope filters at all.
    pub fn is_unfiltered(&self) -> (r: bool)
        ensures
            r == (self.rule() == FilterRule::Everything),
    {
        match &self.filter {
            ScopeFilter::Everything => true,
            _ => false,
        }
    }

    /// Whether the scope's filter can be asked about `path`.
    pub fn can_ask(&self, path: &str) -> (r: bool)
        ensures
            r == can_judge(self.root(), self.rule(), path@),
    {
        proof {
            use_type_invariant(self);
        }
        match &self.filter {
            ScopeFilter::Everything => true,
            ScopeFilter::Only(m) => m.accepts(path),
            ScopeFilter::Except(m) => m.accepts(path),
        }
    }

    /// Whether `path`, relative to the package root and taken as a file,
    /// is in scope.
    pub fn admits(&self, path: &str) -> (r: bool)
        requires
            can_judge(self.root(), self.rule(), path@),
        ensures
            r == admits(self.root(), self.rule(), path@),
    {
        proof {
            use_type_invariant(self);
        }
        match &self.filter {
            ScopeFilter::Everything => true,
            ScopeFilter::Only(m) => m.ignores(path),
            ScopeFilter::Except(m) => !m.ignores(path),
        }
    }
}

/// Keeps the status entries that are violations, in their order: every
/// submodule modification, and every other entry whose path is in scope.
/// Fails at the first entry that does not lie below `sub`, or whose path
/// a filter cannot be asked about.
pub fn scan_entries(scope: &Scope, sub: &Option<String>, entries: &Vec<StatusEntry>) -> (res:
    Result<Vec<Violation>, CheckError>)
    ensures
        match res {
            Ok(kept) => judge(scope.root(), scope.rule(), text_view(*sub), entry_views(entries@))
                == Ok::<Seq<Change>, CheckError>(violation_views(kept@)),
            Err(e) => judge(scope.root(), scope.rule(), text_view(*sub), entry_views(entries@))
                == Err::<Seq<Change>, CheckError>(e),
        },
{
    let ghost root = scope.root();
    let ghost all = entry_views(entries@);
    let ghost sub_view = text_view(*sub);
    let mut kept: Vec<Violation> = Vec::new();
    let mut i: usize = 0;
    assert(violation_views(kept@) =~= Seq::<Change>::empty());
    while i < entries.len()
        invariant
            i <= entries.len(),
            root == scope.root(),
            all == entry_views(entries@),
            sub_view == text_view(*sub),
            judge(root, scope.rule(), sub_view, all.subrange(0, i as int)) == Ok::<
                Seq<Change>,
                CheckError,
            >(violation_views(kept@)),
        decreases entries.len() - i,
    {
        let ghost upto = all.subrange(0, i + 1);
        let ghost before = violation_views(kept@);
        proof {
            assert(upto.drop_last() =~= all.subrange(0, i as int));
            assert(upto.last() == (entries@[i as int].path@, entries@[i as int].kind));
            if i + 1 == entries.len() {
                assert(upto =~= all);
            }
        }
        let entry = &entries[i];
        match relativize(entry.path.as_str(), sub) {
            None => {
                proof {
                    lemma_judge_fails_on(root, scope.rule(), sub_view, all, i as int);
                }
                return Err(CheckError::OutsideScope(i));
            },
            Some(path) => {
                let keep = if entry.kind == ChangeKind::SubmoduleModified
                    || scope.is_unfiltered() {
                    true
                } else if !scope.can_ask(path.as_str()) {
                    proof {
                        lemma_judge_fails_on(root, scope.rule(), sub_view, all, i as int);
                    }
                    return Err(CheckError::UnusablePath(i));
                } else {
                    scope.admits(path.as_str())
                };
                if keep {
                    kept.push(Violation { path, kind: entry.kind });
                    assert(violation_views(kept@) =~= before.push((path@, entry.kind)));
                }
            },
        }
        i += 1;
    }
    assert(all.subrange(0, i as int) =~= all);
    Ok(kept)
}

/// Once a prefix of the entries cannot be judged, no longer one can.
pub proof fn lemma_judge_fails_on(
    root: Seq<char>,
    rule: FilterRule,
    sub: Option<Seq<char>>,
    entries: Seq<Change>,
    at: int,
)
    requires
        0 <= at < entries.len(),
        judge(root, rule, sub, entries.subrange(0, at + 1)) is Err,
    ensures
        judge(root, rule, sub, entries) == judge(root, rule, sub, entries.subrange(0, at + 1)),
    decreases entries.len(),
{
    if at + 1 == entries.len() {
        assert(entries.subrange(0, at + 1) =~= entries);
    } else {
        assert(entries.drop_last().subrange(0, at + 1) =~= entries.subrange(0, at + 1));
        lemma_judge_fails_on(root, rule, sub, entries.drop_last(), at);
    }
}

/// The cleanliness check. `git_root` is the repository root that was
/// found for the package, if any; `entries` is the repository status,
/// queried for the package's sub-path, untracked files included.
///
/// Without a repository the package is clean. With one, the violations
/// are the submodule modifications and the entries in scope of the
/// authoritative filter, in the order of the status query.
pub fn check_clean(
    descriptor: &PackageDescriptor,
    git_root: &Option<String>,
    entries: &Vec<StatusEntry>,
) -> (res: Result<CleanReport, CheckError>)
    ensures
        git_root is None ==> (res matches Ok(report) && report.violations@.len() == 0
            && !report.exclude_ignored),
        git_root matches Some(git) ==> ({
            let include_list = list_view(descriptor.include_patterns);
            let exclude_list = list_view(descriptor.exclude_patterns);
            let expected = expected_clean(
                descriptor.root@,
                include_list,
                exclude_list,
                git@,
                entry_views(entries@),
            );
            match res {
                Ok(report) => expected == Ok::<Seq<Change>, CheckError>(
                    violation_views(report.violations@),
                ) && report.violations@.len() == violation_views(report.violations@).len()
                    && report.exclude_ignored == warns(include_list, exclude_list),
                Err(e) => expected == Err::<Seq<Change>, CheckError>(e),
            }
        }),
{
    let git = match git_root {
        None => {
            return Ok(CleanReport { violations: Vec::new(), exclude_ignored: false });
        },
        Some(git) => git,
    };
    let ghost rule = authoritative(
        list_view(descriptor.include_patterns),
        list_view(descriptor.exclude_patterns),
    );
    let exclude_ignored = exclude_is_ignored(descriptor);
    let scope = match Scope::build(descriptor) {
        Ok(scope) => scope,
        Err(PatternError::BadPattern(at)) => {
            proof {
                let found = choose|k: int| first_bad(rule_lines(rule), k);
                assert(first_bad(rule_lines(rule), at as int));
                assert(found == at) by {
                    if found < at {
                    } else if at < found {
                    }
                }
            }
            return Err(CheckError::BadPattern(at));
        },
        Err(PatternError::Build) => {
            return Err(CheckError::MatcherBuild);
        },
    };
    assert(!exists|k: int| first_bad(rule_lines(rule), k));
    let sub = match status_scope(descriptor.root.as_str(), git.as_str()) {
        Ok(sub) => sub,
        Err(e) => {
            return Err(e);
        },
    };
    match scan_entries(&scope, &sub, entries) {
        Ok(violations) => Ok(CleanReport { violations, exclude_ignored }),
        Err(e) => Err(e),
    }
}

/// Whether the manifest sets both pattern lists, so that the exclude
/// list is ignored and the caller owes a warning. It can be asked before
/// the check, and does not depend on how the check ends.
pub fn exclude_is_ignored(descriptor: &PackageDescriptor) -> (r: bool)
    ensures
        r == warns(
            list_view(descriptor.include_patterns),
            list_view(descriptor.exclude_patterns),
        ),
{
    descriptor.include_patterns.is_some() && descriptor.exclude_patterns.is_some()
}

impl CleanReport {
    /// Whether nothing stands in the way of publishing.
    pub fn is_clean(&self) -> (r: bool)
        ensures
            r == (self.violations@.len() == 0),
    {
        self.violations.len() == 0
    }
}

} // verus!
