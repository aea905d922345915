//! The content check: every entry of the published archive against the
//! local file it was built from.
//!
//! The caller fetches the archive and reads the local files; this module
//! unpacks the archive, says which local file each entry is compared
//! with, and judges the comparison.

use vstd::prelude::*;
use std::io::Read;
use flate2::read::GzDecoder;
use crate::clean::PackageDescriptor;
use crate::text::after_last;
use crate::text::after_last_len;
use crate::text::chars_of;
use crate::text::contains;
use crate::text::ends_with;
use crate::text::found_at_end;
use crate::text::found_in;
use crate::text::head;
use crate::text::joined;
use crate::text::lemma_after_last;
use crate::text::same_bytes;
use crate::text::same_chars;
use crate::text::starts_with;
use crate::text::string_of;
use crate::text::tail;
use crate::text::through_last;

verus! {

/// One file of the published archive.
#[derive(Clone, Debug)]
pub struct ArchiveEntry {
    pub path: String,
    pub content: Vec<u8>,
}

/// What the caller found at the local path of an archive entry.
#[derive(Clone, Debug)]
pub enum LocalFile {
    Missing,
    Unreadable,
    Present(Vec<u8>),
}

/// How an archive entry differs from the local tree.
#[derive(Clone, Copy, Debug, PartialEq, Eq, Structural)]
pub enum MismatchKind {
    MissingLocally,
    Unreadable,
    Differs,
}

/// One discrepancy: the local path, relative to the package root, and
/// what is wrong there. Where the contents differ, `detail` holds a
/// line-by-line rendering of the difference for the operator; for the
/// other kinds it is empty.
#[derive(Clone, Debug)]
pub struct Mismatch {
    pub path: String,
    pub kind: MismatchKind,
    pub detail: String,
}

/// Why the content check could not give a verdict.
#[derive(Clone, Copy, Debug, PartialEq, Eq, Structural)]
pub enum ArchiveError {
    /// The bytes are not a gzip-compressed tar archive with readable
    /// entries and paths.
    Unreadable,
    /// The entry at this position does not name a file below the
    /// archive's top-level directory, or its path leaves that directory.
    UnexpectedPath(usize),
    /// The caller did not supply one local state for each entry.
    LocalStateMissing,
}

/// The verdict of the content check.
#[derive(Clone, Debug)]
pub struct ContentReport {
    /// Every mismatch, in the order of the archive.
    pub mismatches: Vec<Mismatch>,
}

/// What is done with one archive entry.
#[derive(Clone, Debug)]
pub enum EntryPlan {
    /// The entry is produced by publishing and has no local counterpart.
    Skip,
    /// The entry is compared with the local file at this path, relative
    /// to the package root.
    Compare(String),
}

/// An entry plan as a plain value.
pub enum Plan {
    Skip,
    Compare(Seq<char>),
}

/// A mismatch as a plain value.
pub type Finding = (Seq<char>, MismatchKind);

/// An archive entry as a plain value.
pub type Packed = (Seq<char>, Seq<u8>);

/// An entry plan as a plain value.
pub open spec fn plan_view(plan: EntryPlan) -> Plan {
    match plan {
        EntryPlan::Skip => Plan::Skip,
        EntryPlan::Compare(path) => Plan::Compare(path@),
    }
}

/// Archive entries as plain values, in order.
pub open spec fn packed_views(entries: Seq<ArchiveEntry>) -> Seq<Packed> {
    Seq::new(entries.len(), |i: int| (entries[i].path@, entries[i].content@))
}

/// The path and kind of each mismatch, in order. The renderings are not
/// part of it: `details_in_place` speaks of them.
pub open spec fn paths_and_kinds(mismatches: Seq<Mismatch>) -> Seq<Finding> {
    Seq::new(mismatches.len(), |i: int| (mismatches[i].path@, mismatches[i].kind))
}

/// The archive-side file name that is compared with another local name.
pub open spec fn remap_source() -> Seq<char> {
    "Cargo.toml.orig"@
}

/// The local file name that `remap_source` is compared with.
pub open spec fn remap_target() -> Seq<char> {
    "Cargo.toml"@
}

/// Whether a file name is one that publishing itself writes into the
/// archive.
pub open spec fn is_generated(file_name: Seq<char>) -> bool {
    file_name == ".cargo_vcs_info.json"@ || file_name == "Cargo.toml"@
}

/// The directory that the registry puts above every entry.
pub open spec fn top_dir(name: Seq<char>, version: Seq<char>) -> Seq<char> {
    (name.push('-') + version).push('/')
}

/// Whether a path, joined to a directory, can lead out of it: it is
/// rooted, or has `..` as one of its components.
pub open spec fn steps_up(path: Seq<char>) -> bool {
    ||| (path.len() > 0 && path[0] == '/')
    ||| path == ".."@
    ||| "../"@.is_prefix_of(path)
    ||| ends_with(path, "/.."@)
    ||| contains(path, "/../"@)
}

/// The entry's path below the top-level directory; `None` where the path
/// is not below it, names no file, or steps out of it.
pub open spec fn below_top(path: Seq<char>, name: Seq<char>, version: Seq<char>) -> Option<
    Seq<char>,
> {
    let top = top_dir(name, version);
    if top.is_prefix_of(path) {
        let rest = path.subrange(top.len() as int, path.len() as int);
        if after_last(rest, '/').len() == 0 || steps_up(rest) {
            None
        } else {
            Some(rest)
        }
    } else {
        None
    }
}

/// What is done with the entry at `path`. The file name decides: the
/// remap source is compared with the remap target in the same directory,
/// a generated file is skipped, any other file is compared with the
/// local file of the same path.
pub open spec fn plan_for(path: Seq<char>, name: Seq<char>, version: Seq<char>) -> Option<Plan> {
    match below_top(path, name, version) {
        None => None,
        Some(rest) => {
            let file_name = after_last(rest, '/');
            if file_name == remap_source() {
                Some(Plan::Compare(through_last(rest, '/') + remap_target()))
            } else if is_generated(file_name) {
                Some(Plan::Skip)
            } else {
                Some(Plan::Compare(rest))
            }
        },
    }
}

/// The mismatch, if any, that one entry gives.
pub open spec fn finding_for(plan: Plan, content: Seq<u8>, local: LocalFile) -> Option<Finding> {
    match plan {
        Plan::Skip => None,
        Plan::Compare(path) => match local {
            LocalFile::Missing => Some((path, MismatchKind::MissingLocally)),
            LocalFile::Unreadable => Some((path, MismatchKind::Unreadable)),
            LocalFile::Present(bytes) => if bytes@ == content {
                None
            } else {
                Some((path, MismatchKind::Differs))
            },
        },
    }
}

/// Every mismatch among the entries, in their order; or the first entry
/// whose path is not as the archive format says. `locals` has one state
/// for each entry.
pub open spec fn findings(
    name: Seq<char>,
    version: Seq<char>,
    entries: Seq<Packed>,
    locals: Seq<LocalFile>,
) -> Result<Seq<Finding>, ArchiveError>
    decreases entries.len(),
{
    if entries.len() == 0 || entries.len() != locals.len() {
        Ok(Seq::empty())
    } else {
        match findings(name, version, entries.drop_last(), locals.drop_last()) {
            Err(e) => Err(e),
            Ok(found) => match plan_for(entries.last().0, name, version) {
                None => Err(ArchiveError::UnexpectedPath((entries.len() - 1) as usize)),
                Some(plan) => match finding_for(plan, entries.last().1, locals.last()) {
                    Some(finding) => Ok(found.push(finding)),
                    None => Ok(found),
                },
            },
        }
    }
}

/// The entries of a gzip-compressed tar archive, in the archive's order,
/// as the `tar` crate lists them from a `flate2` decoder; `None` where
/// the bytes cannot be read as such an archive.
pub uninterp spec fn unpacked(body: Seq<u8>) -> Option<Seq<Packed>>;

/// The outcome of unpacking as a plain value.
pub open spec fn unpacked_view(entries: Option<Vec<ArchiveEntry>>) -> Option<Seq<Packed>> {
    match entries {
        Some(v) => Some(packed_views(v@)),
        None => None,
    }
}

/// Reads `body` through `GzDecoder::new` and `tar::Archive::entries`,
/// taking from each entry its path (`Entry::path`) and all of its bytes.
/// Any failure of the decoder, of the archive reader or of a path that is
/// not text gives `None`.
#[verifier::external_body]
fn unpack(body: &Vec<u8>) -> (res: Option<Vec<ArchiveEntry>>)
    ensures
        unpacked_view(res) == unpacked(body@),
{
    let mut archive = tar::Archive::new(GzDecoder::new(body.as_slice()));
    let entries = archive.entries().ok()?;
    entries.map(|entry| {
        let mut entry = entry.ok()?;
        let path = entry.path().ok()?.to_str()?.to_owned();
        let mut content = Vec::new();
        entry.read_to_end(&mut content).ok()?;
        Some(ArchiveEntry { path, content })
    }).collect()
}

/// Reads bytes as text with `String::from_utf8_lossy`. Nothing is claimed
/// of the text: it is only shown to the operator.
#[verifier::external_body]
fn lossy_text(bytes: &Vec<u8>) -> (text: String) {
    String::from_utf8_lossy(bytes).into_owned()
}

/// Renders the difference between two texts with
/// `similar_asserts::SimpleDiff::from_str` and its `Display`. The outcome
/// depends on the terminal and on a time limit inside the diff, so it
/// has no name; it always starts with a header line, so it is not empty.
#[verifier::external_body]
fn render_diff(local: &str, uploaded: &str) -> (text: String)
    ensures
        text@.len() > 0,
{
    format!(
        "{}",
        similar_asserts::SimpleDiff::from_str(local, uploaded, "Local version", "Uploaded version")
    )
}

/// Unpacks a downloaded archive in memory.
pub fn unpack_archive(body: &Vec<u8>) -> (res: Result<Vec<ArchiveEntry>, ArchiveError>)
    ensures
        match res {
            Ok(entries) => unpacked(body@) == Some(packed_views(entries@)),
            Err(e) => unpacked(body@) is None && e == ArchiveError::Unreadable,
        },
{
    match unpack(body) {
        Some(entries) => Ok(entries),
        None => Err(ArchiveError::Unreadable),
    }
}

/// Whether a path, joined to a directory, can lead out of it.
pub fn has_step_up(path: &Vec<char>) -> (r: bool)
    ensures
        r == steps_up(path@),
{
    if path.len() > 0 && path[0] == '/' {
        return true;
    }
    let whole = chars_of("..");
    let front = chars_of("../");
    let back = chars_of("/..");
    let inner = chars_of("/../");
    same_chars(path, &whole) || starts_with(path, &front) || found_at_end(path, &back) || found_in(
        path,
        &inner,
    )
}

/// What is done with the archive entry at `path`, for the package `name`
/// at `version`; `None` where the path is not as the archive format says.
pub fn plan_entry(path: &str, name: &str, version: &str) -> (res: Option<EntryPlan>)
    ensures
        match res {
            Some(plan) => plan_for(path@, name@, version@) == Some(plan_view(plan)),
            None => plan_for(path@, name@, version@) is None,
        },
{
    let p = chars_of(path);
    let mut top = chars_of(name);
    top.push('-');
    let top = joined(&top, &chars_of(version));
    let mut top = top;
    top.push('/');
    assert(top@ =~= top_dir(name@, version@));
    if !starts_with(&p, &top) {
        return None;
    }
    let rest = tail(&p, top.len());
    let name_len = after_last_len(&rest, '/');
    if name_len == 0 || has_step_up(&rest) {
        return None;
    }
    proof {
        lemma_after_last(rest@, '/');
    }
    let file_name = tail(&rest, rest.len() - name_len);
    if same_chars(&file_name, &chars_of("Cargo.toml.orig")) {
        let dir = head(&rest, rest.len() - name_len);
        let local = joined(&dir, &chars_of("Cargo.toml"));
        Some(EntryPlan::Compare(string_of(&local)))
    } else if same_chars(&file_name, &chars_of(".cargo_vcs_info.json")) || same_chars(
        &file_name,
        &chars_of("Cargo.toml"),
    ) {
        Some(EntryPlan::Skip)
    } else {
        Some(EntryPlan::Compare(string_of(&rest)))
    }
}

/// The local paths, relative to the package root, that the caller reads:
/// one plan for each entry, in the archive's order. Fails at the first
/// entry whose path is not as the archive format says.
pub fn comparison_targets(descriptor: &PackageDescriptor, entries: &Vec<ArchiveEntry>) -> (res:
    Result<Vec<EntryPlan>, ArchiveError>)
    ensures
        match res {
            Ok(plans) => plans@.len() == entries@.len() && forall|i: int|
                0 <= i < entries@.len() ==> plan_for(
                    entries@[i].path@,
                    descriptor.name@,
                    descriptor.version@,
                ) == Some(plan_view(#[trigger] plans@[i])),
            Err(e) => e matches ArchiveError::UnexpectedPath(at) && at < entries@.len()
                && plan_for(
                entries@[at as int].path@,
                descriptor.name@,
                descriptor.version@,
            ) is None && forall|i: int|
                0 <= i < at ==> plan_for(
                    #[trigger] entries@[i].path@,
                    descriptor.name@,
                    descriptor.version@,
                ) is Some,
        },
{
    let mut plans: Vec<EntryPlan> = Vec::new();
    let mut i: usize = 0;
    while i < entries.len()
        invariant
            i <= entries.len(),
            plans@.len() == i,
            forall|k: int|
                0 <= k < i ==> plan_for(
                    entries@[k].path@,
                    descriptor.name@,
                    descriptor.version@,
                ) == Some(plan_view(#[trigger] plans@[k])),
        decreases entries.len() - i,
    {
        match plan_entry(
            entries[i].path.as_str(),
            descriptor.name.as_str(),
            descriptor.version.as_str(),
        ) {
            Some(plan) => {
                plans.push(plan);
            },
            None => {
                assert forall|k: int| 0 <= k < i implies plan_for(
                    #[trigger] entries@[k].path@,
                    descriptor.name@,
                    descriptor.version@,
                ) is Some by {
                    assert(plan_for(entries@[k].path@, descriptor.name@, descriptor.version@)
                        == Some(plan_view(plans@[k])));
                }
                return Err(ArchiveError::UnexpectedPath(i));
            },
        }
        i += 1;
    }
    Ok(plans)
}

/// The mismatch, if any, between one archive entry and what was found
/// at its local path.
pub fn compare_entry(plan: EntryPlan, content: &Vec<u8>, local: &LocalFile) -> (res: Option<
    Mismatch,
>)
    ensures
        match res {
            Some(m) => finding_for(plan_view(plan), content@, *local) == Some((m.path@, m.kind))
                && (m.kind == MismatchKind::Differs <==> m.detail@.len() > 0),
            None => finding_for(plan_view(plan), content@, *local) is None,
        },
{
    match plan {
        EntryPlan::Skip => None,
        EntryPlan::Compare(path) => match local {
            LocalFile::Missing => Some(
                Mismatch { path, kind: MismatchKind::MissingLocally, detail: String::new() },
            ),
            LocalFile::Unreadable => Some(
                Mismatch { path, kind: MismatchKind::Unreadable, detail: String::new() },
            ),
            LocalFile::Present(bytes) => if same_bytes(bytes, content) {
                None
            } else {
                let local_text = lossy_text(bytes);
                let uploaded_text = lossy_text(content);
                let detail = render_diff(local_text.as_str(), uploaded_text.as_str());
                Some(Mismatch { path, kind: MismatchKind::Differs, detail })
            },
        },
    }
}

/// A difference in content carries a rendering, and only that does.
pub open spec fn details_in_place(mismatches: Seq<Mismatch>) -> bool {
    forall|i: int|
        0 <= i < mismatches.len() ==> ((#[trigger] mismatches[i]).kind == MismatchKind::Differs
            <==> mismatches[i].detail@.len() > 0)
}

/// The content check. `entries` are the archive's entries in order and
/// `locals[i]` is what the caller found at the local path of entry `i`
/// (for a skipped entry its value is not read).
///
/// Every mismatch is reported, in the archive's order; an entry whose
/// path is not as the archive format says ends the check.
pub fn verify_published_content(
    descriptor: &PackageDescriptor,
    entries: &Vec<ArchiveEntry>,
    locals: &Vec<LocalFile>,
) -> (res: Result<ContentReport, ArchiveError>)
    ensures
        entries@.len() != locals@.len() ==> res == Err::<ContentReport, ArchiveError>(
            ArchiveError::LocalStateMissing,
        ),
        entries@.len() == locals@.len() ==> match res {
            Ok(report) => findings(
                descriptor.name@,
                descriptor.version@,
                packed_views(entries@),
                locals@,
            ) == Ok::<Seq<Finding>, ArchiveError>(paths_and_kinds(report.mismatches@))
                && report.mismatches@.len() == paths_and_kinds(report.mismatches@).len()
                && details_in_place(report.mismatches@),
            Err(e) => findings(
                descriptor.name@,
                descriptor.version@,
                packed_views(entries@),
                locals@,
            ) == Err::<Seq<Finding>, ArchiveError>(e),
        },
{
    if entries.len() != locals.len() {
        return Err(ArchiveError::LocalStateMissing);
    }
    let ghost all = packed_views(entries@);
    let ghost name = descriptor.name@;
    let ghost version = descriptor.version@;
    let mut mismatches: Vec<Mismatch> = Vec::new();
    let mut i: usize = 0;
    assert(paths_and_kinds(mismatches@) =~= Seq::<Finding>::empty());
    while i < entries.len()
        invariant
            i <= entries.len(),
            entries.len() == locals.len(),
            all == packed_views(entries@),
            name == descriptor.name@,
            version == descriptor.version@,
            findings(name, version, all.subrange(0, i as int), locals@.subrange(0, i as int))
                == Ok::<Seq<Finding>, ArchiveError>(paths_and_kinds(mismatches@)),
            details_in_place(mismatches@),
        decreases entries.len() - i,
    {
        let ghost before = paths_and_kinds(mismatches@);
        proof {
            let upto = all.subrange(0, i + 1);
            let states = locals@.subrange(0, i + 1);
            assert(upto.drop_last() =~= all.subrange(0, i as int));
            assert(states.drop_last() =~= locals@.subrange(0, i as int));
            assert(upto.last() == (entries@[i as int].path@, entries@[i as int].content@));
            assert(states.last() == locals@[i as int]);
        }
        let entry = &entries[i];
        match plan_entry(entry.path.as_str(), descriptor.name.as_str(), descriptor.version.as_str()) {
            None => {
                proof {
                    lemma_findings_fail_on(name, version, all, locals@, i as int);
                }
                return Err(ArchiveError::UnexpectedPath(i));
            },
            Some(plan) => {
                match compare_entry(plan, &entry.content, &locals[i]) {
                    Some(m) => {
                        mismatches.push(m);
                        assert(paths_and_kinds(mismatches@) =~= before.push((m.path@, m.kind)));
                    },
                    None => {},
                }
            },
        }
        i += 1;
    }
    assert(all.subrange(0, i as int) =~= all);
    assert(locals@.subrange(0, i as int) =~= locals@);
    Ok(ContentReport { mismatches })
}

/// Once a prefix of the archive holds an unexpected path, the whole
/// archive fails on it.
pub proof fn lemma_findings_fail_on(
    name: Seq<char>,
    version: Seq<char>,
    entries: Seq<Packed>,
    locals: Seq<LocalFile>,
    at: int,
)
    requires
        0 <= at < entries.len(),
        entries.len() == locals.len(),
        findings(name, version, entries.subrange(0, at + 1), locals.subrange(0, at + 1)) is Err,
    ensures
        findings(name, version, entries, locals) == findings(
            name,
            version,
            entries.subrange(0, at + 1),
            locals.subrange(0, at + 1),
        ),
    decreases entries.len(),
{
    if at + 1 == entries.len() {
        assert(entries.subrange(0, at + 1) =~= entries);
        assert(locals.subrange(0, at + 1) =~= locals);
    } else {
        assert(entries.drop_last().subrange(0, at + 1) =~= entries.subrange(0, at + 1));
        assert(locals.drop_last().subrange(0, at + 1) =~= locals.subrange(0, at + 1));
        lemma_findings_fail_on(name, version, entries.drop_last(), locals.drop_last(), at);
    }
}

impl ContentReport {
    /// Whether every compared entry matched its local file.
    pub fn all_matched(&self) -> (r: bool)
        ensures
            r == (self.mismatches@.len() == 0),
    {
        self.mismatches.len() == 0
    }
}

/// The address from which the registry serves the published archive.
pub open spec fn download_address(name: Seq<char>, version: Seq<char>) -> Seq<char> {
    "https://crates.io/api/v1/crates/"@ + name + "/"@ + version + "/download"@
}

/// The address from which the registry serves the published archive.
pub fn download_url(name: &str, version: &str) -> (url: String)
    ensures
        url@ == download_address(name@, version@),
{
    let a = joined(&chars_of("https://crates.io/api/v1/crates/"), &chars_of(name));
    let b = joined(&a, &chars_of("/"));
    let c = joined(&b, &chars_of(version));
    let d = joined(&c, &chars_of("/download"));
    string_of(&d)
}

/// The name under which this tool, at `tool_version`, asks the registry.
pub fn user_agent(tool_version: &str) -> (agent: String)
    ensures
        agent@ == "cargo-safe-publish/"@ + tool_version@,
{
    string_of(&joined(&chars_of("cargo-safe-publish/"), &chars_of(tool_version)))
}

} // verus!
