//! What holds of the two checks for every input, proved from their
//! specifications.

use vstd::prelude::*;
use crate::clean::authoritative;
use crate::clean::entry_verdict;
use crate::clean::expected_clean;
use crate::clean::judge;
use crate::clean::relativized;
use crate::clean::warns;
use crate::clean::Change;
use crate::clean::ChangeKind;
use crate::clean::CheckError;
use crate::clean::FilterRule;
use crate::clean::Verdict;
use crate::content::below_top;
use crate::content::finding_for;
use crate::content::findings;
use crate::content::plan_for;
use crate::content::remap_source;
use crate::content::remap_target;
use crate::content::ArchiveError;
use crate::content::Finding;
use crate::content::LocalFile;
use crate::content::MismatchKind;
use crate::content::Packed;
use crate::content::Plan;
use crate::clean::admits;
use crate::clean::can_judge;
use crate::text::after_last;
use crate::text::lemma_after_last;
use crate::text::through_last;

verus! {

/// Where the manifest sets both pattern lists, the check gives what it
/// gives with the include list alone: the same filter is authoritative,
/// so the same patterns are compiled and the same verdict follows. Only
/// the warning tells the two apart.
pub proof fn law_exclude_is_ignored(
    root: Seq<char>,
    include_list: Seq<Seq<char>>,
    exclude_list: Seq<Seq<char>>,
    git_root: Seq<char>,
    entries: Seq<Change>,
)
    ensures
        authoritative(Some(include_list), Some(exclude_list)) == authoritative(
            Some(include_list),
            None,
        ),
        expected_clean(root, Some(include_list), Some(exclude_list), git_root, entries)
            == expected_clean(root, Some(include_list), None, git_root, entries),
        warns(Some(include_list), Some(exclude_list)),
        !warns(Some(include_list), None),
{
}

/// Under an include list, an entry whose path matches no include pattern
/// adds no violation.
pub proof fn law_unmatched_entry_is_dropped(
    root: Seq<char>,
    include_list: Seq<Seq<char>>,
    sub: Option<Seq<char>>,
    entries: Seq<Change>,
    entry: Change,
    kept: Seq<Change>,
)
    requires
        judge(root, FilterRule::Only(include_list), sub, entries) == Ok::<Seq<Change>, CheckError>(
            kept,
        ),
        entry.1 != ChangeKind::SubmoduleModified,
        relativized(entry.0, sub) matches Some(path) && can_judge(
            root,
            FilterRule::Only(include_list),
            path,
        ) && !admits(
            root,
            FilterRule::Only(include_list),
            path,
        ),
    ensures
        entry_verdict(root, FilterRule::Only(include_list), sub, entry) == Verdict::Dropped,
        judge(root, FilterRule::Only(include_list), sub, entries.push(entry)) == Ok::<
            Seq<Change>,
            CheckError,
        >(kept),
{
    assert(entries.push(entry).drop_last() =~= entries);
}

/// A submodule modification below the package is a violation whatever
/// the filter says of its path.
pub proof fn law_submodule_entry_is_kept(
    root: Seq<char>,
    rule: FilterRule,
    sub: Option<Seq<char>>,
    entries: Seq<Change>,
    entry: Change,
    kept: Seq<Change>,
)
    requires
        judge(root, rule, sub, entries) == Ok::<Seq<Change>, CheckError>(kept),
        entry.1 == ChangeKind::SubmoduleModified,
        relativized(entry.0, sub) is Some,
    ensures
        entry_verdict(root, rule, sub, entry) == Verdict::Keep(relativized(entry.0, sub).unwrap()),
        judge(root, rule, sub, entries.push(entry)) == Ok::<Seq<Change>, CheckError>(
            kept.push((relativized(entry.0, sub).unwrap(), ChangeKind::SubmoduleModified)),
        ),
{
    assert(entries.push(entry).drop_last() =~= entries);
}

/// An archive whose every compared entry holds the bytes of its local
/// file gives no mismatch.
pub proof fn law_identical_archive_matches(
    name: Seq<char>,
    version: Seq<char>,
    entries: Seq<Packed>,
    locals: Seq<LocalFile>,
)
    requires
        entries.len() == locals.len(),
        forall|i: int|
            0 <= i < entries.len() ==> match plan_for((#[trigger] entries[i]).0, name, version) {
                None => false,
                Some(Plan::Skip) => true,
                Some(Plan::Compare(_)) => locals[i] matches LocalFile::Present(bytes) && bytes@
                    == entries[i].1,
            },
    ensures
        findings(name, version, entries, locals) == Ok::<Seq<Finding>, ArchiveError>(Seq::empty()),
    decreases entries.len(),
{
    if entries.len() > 0 {
        let front = entries.drop_last();
        assert forall|i: int| 0 <= i < front.len() implies match plan_for(
            (#[trigger] front[i]).0,
            name,
            version,
        ) {
            None => false,
            Some(Plan::Skip) => true,
            Some(Plan::Compare(_)) => locals.drop_last()[i] matches LocalFile::Present(bytes)
                && bytes@ == front[i].1,
        } by {
            assert(front[i] == entries[i]);
        }
        law_identical_archive_matches(name, version, front, locals.drop_last());
        assert(entries.last() == entries[entries.len() - 1]);
    }
}

/// An entry whose file name is the remap source is compared with the
/// remap target in the same directory, not with a local file of its own
/// name.
pub proof fn law_remapped_entry_targets_destination(
    path: Seq<char>,
    name: Seq<char>,
    version: Seq<char>,
)
    requires
        below_top(path, name, version) matches Some(rest) && after_last(rest, '/')
            == remap_source(),
    ensures
        plan_for(path, name, version) == Some(
            Plan::Compare(
                through_last(below_top(path, name, version).unwrap(), '/') + remap_target(),
            ),
        ),
        plan_for(path, name, version) != Some(
            Plan::Compare(below_top(path, name, version).unwrap()),
        ),
{
    let rest = below_top(path, name, version).unwrap();
    let dir = through_last(rest, '/');
    reveal_strlit("Cargo.toml.orig");
    reveal_strlit("Cargo.toml");
    lemma_after_last(rest, '/');
    assert((dir + remap_target()).len() == dir.len() + 10);
    assert(rest.len() == dir.len() + 15);
}

/// An entry that is compared and whose local file is missing adds
/// exactly one mismatch, of the kind "missing locally" and for its local
/// path, behind those of the entries before it; so the report is not
/// empty, and the entries after it are judged as before.
pub proof fn law_missing_file_is_reported_once(
    name: Seq<char>,
    version: Seq<char>,
    entries: Seq<Packed>,
    locals: Seq<LocalFile>,
    entry: Packed,
    found: Seq<Finding>,
)
    requires
        entries.len() == locals.len(),
        findings(name, version, entries, locals) == Ok::<Seq<Finding>, ArchiveError>(found),
        plan_for(entry.0, name, version) matches Some(Plan::Compare(_)),
    ensures
        plan_for(entry.0, name, version) matches Some(Plan::Compare(local_path)) && findings(
            name,
            version,
            entries.push(entry),
            locals.push(LocalFile::Missing),
        ) == Ok::<Seq<Finding>, ArchiveError>(
            found.push((local_path, MismatchKind::MissingLocally)),
        ),
{
    assert(entries.push(entry).drop_last() =~= entries);
    assert(locals.push(LocalFile::Missing).drop_last() =~= locals);
}

/// The content check gives a report exactly when every entry's path is
/// as the archive format says: no mismatch ends it.
pub proof fn law_report_is_owed(
    name: Seq<char>,
    version: Seq<char>,
    entries: Seq<Packed>,
    locals: Seq<LocalFile>,
)
    requires
        entries.len() == locals.len(),
    ensures
        findings(name, version, entries, locals) is Ok <==> forall|i: int|
            0 <= i < entries.len() ==> plan_for((#[trigger] entries[i]).0, name, version) is Some,
    decreases entries.len(),
{
    if entries.len() > 0 {
        let front = entries.drop_last();
        law_report_is_owed(name, version, front, locals.drop_last());
        if findings(name, version, entries, locals) is Ok {
            assert forall|i: int| 0 <= i < entries.len() implies plan_for(
                (#[trigger] entries[i]).0,
                name,
                version,
            ) is Some by {
                if i < front.len() {
                    assert(front[i] == entries[i]);
                }
            }
        } else if findings(name, version, front, locals.drop_last()) is Ok {
            assert(plan_for(entries[entries.len() - 1].0, name, version) is None);
        } else {
            let at = choose|i: int|
                0 <= i < front.len() && !(plan_for((#[trigger] front[i]).0, name, version) is Some);
            assert(entries[at] == front[at]);
        }
    }
}

/// The report of an archive is the report of its first entries followed
/// by the report of the others: each entry adds its own mismatch, if it
/// has one, at its own place.
pub proof fn law_findings_split(
    name: Seq<char>,
    version: Seq<char>,
    entries: Seq<Packed>,
    locals: Seq<LocalFile>,
    at: int,
)
    requires
        entries.len() == locals.len(),
        0 <= at <= entries.len(),
        findings(name, version, entries, locals) is Ok,
    ensures
        findings(name, version, entries.subrange(0, at), locals.subrange(0, at)) is Ok,
        findings(
            name,
            version,
            entries.subrange(at, entries.len() as int),
            locals.subrange(at, locals.len() as int),
        ) is Ok,
        findings(name, version, entries, locals).unwrap() == findings(
            name,
            version,
            entries.subrange(0, at),
            locals.subrange(0, at),
        ).unwrap() + findings(
            name,
            version,
            entries.subrange(at, entries.len() as int),
            locals.subrange(at, locals.len() as int),
        ).unwrap(),
    decreases entries.len(),
{
    let n = entries.len() as int;
    if at == n {
        assert(entries.subrange(0, at) =~= entries);
        assert(locals.subrange(0, at) =~= locals);
        assert(findings(name, version, entries, locals).unwrap() + Seq::<Finding>::empty()
            =~= findings(name, version, entries, locals).unwrap());
    } else {
        let front = entries.drop_last();
        let states = locals.drop_last();
        law_findings_split(name, version, front, states, at);
        let tail = entries.subrange(at, n);
        let tail_states = locals.subrange(at, n);
        assert(front.subrange(0, at) =~= entries.subrange(0, at));
        assert(states.subrange(0, at) =~= locals.subrange(0, at));
        assert(tail.drop_last() =~= front.subrange(at, n - 1));
        assert(tail_states.drop_last() =~= states.subrange(at, n - 1));
        assert(tail.last() == entries.last());
        assert(tail_states.last() == locals.last());
        let head_found = findings(name, version, entries.subrange(0, at), locals.subrange(0, at)).unwrap();
        let mid = findings(name, version, tail.drop_last(), tail_states.drop_last()).unwrap();
        let plan = plan_for(entries.last().0, name, version).unwrap();
        match finding_for(plan, entries.last().1, locals.last()) {
            Some(finding) => {
                assert((head_found + mid).push(finding) =~= head_found + mid.push(finding));
            },
            None => {},
        }
    }
}

/// Wherever it stands in the archive, an entry that is compared and
/// whose local file is missing gives exactly one mismatch, of the kind
/// "missing locally" and for its local path: the report is that of the
/// entries before it, then this mismatch, then that of the entries
/// after it.
pub proof fn law_missing_file_is_reported_in_place(
    name: Seq<char>,
    version: Seq<char>,
    entries: Seq<Packed>,
    locals: Seq<LocalFile>,
    at: int,
)
    requires
        entries.len() == locals.len(),
        0 <= at < entries.len(),
        findings(name, version, entries, locals) is Ok,
        plan_for(entries[at].0, name, version) matches Some(Plan::Compare(_)),
        locals[at] is Missing,
    ensures
        plan_for(entries[at].0, name, version) matches Some(Plan::Compare(local_path)) && findings(
            name,
            version,
            entries,
            locals,
        ).unwrap() == findings(
            name,
            version,
            entries.subrange(0, at),
            locals.subrange(0, at),
        ).unwrap().push((local_path, MismatchKind::MissingLocally)) + findings(
            name,
            version,
            entries.subrange(at + 1, entries.len() as int),
            locals.subrange(at + 1, locals.len() as int),
        ).unwrap(),
{
    law_findings_split(name, version, entries, locals, at + 1);
    let upto = entries.subrange(0, at + 1);
    let states = locals.subrange(0, at + 1);
    assert(upto.drop_last() =~= entries.subrange(0, at));
    assert(states.drop_last() =~= locals.subrange(0, at));
    assert(upto.last() == entries[at]);
    assert(states.last() == locals[at]);
}

/// What the entries before it gave stays in the report when an entry is
/// added: no later entry removes or reorders a mismatch.
pub proof fn law_findings_accumulate(
    name: Seq<char>,
    version: Seq<char>,
    entries: Seq<Packed>,
    locals: Seq<LocalFile>,
    found: Seq<Finding>,
)
    requires
        entries.len() == locals.len(),
        entries.len() > 0,
        findings(name, version, entries, locals) == Ok::<Seq<Finding>, ArchiveError>(found),
    ensures
        findings(name, version, entries.drop_last(), locals.drop_last()) matches Ok(before)
            && before.is_prefix_of(found),
{
}

} // verus!
