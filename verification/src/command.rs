//! What the command line asks for: which package, which steps, and the
//! arguments handed on to the packaging tool.

use vstd::prelude::*;
use crate::clean::text_view;
use crate::text::chars_of;
use crate::text::joined;
use crate::text::same_chars;
use crate::text::starts_with;
use crate::text::string_of;
use crate::text::tail;
use crate::text::views;

verus! {

/// Whether an argument opens the option `long` (or its short form).
pub open spec fn opens_option(arg: Seq<char>, long: Seq<char>, short: Option<Seq<char>>) -> bool {
    long.is_prefix_of(arg) || (short matches Some(s) && s.is_prefix_of(arg))
}

/// The value of an option, searched from position `from`: the first
/// argument that opens the option decides. Written as `long=value` it
/// carries the value itself; otherwise the value is the argument behind
/// it, if there is one.
pub open spec fn option_value(
    args: Seq<Seq<char>>,
    long: Seq<char>,
    short: Option<Seq<char>>,
    from: int,
) -> Option<Seq<char>>
    decreases args.len() - from,
{
    if from < 0 || from >= args.len() {
        None
    } else if opens_option(args[from], long, short) {
        if long.push('=').is_prefix_of(args[from]) {
            Some(args[from].subrange(long.len() as int + 1, args[from].len() as int))
        } else if from + 1 < args.len() {
            Some(args[from + 1])
        } else {
            None
        }
    } else {
        option_value(args, long, short, from + 1)
    }
}

/// The arguments that differ from `flag`, in their order.
pub open spec fn without(args: Seq<Seq<char>>, flag: Seq<char>) -> Seq<Seq<char>>
    decreases args.len(),
{
    if args.len() == 0 {
        args
    } else if args.last() == flag {
        without(args.drop_last(), flag)
    } else {
        without(args.drop_last(), flag).push(args.last())
    }
}

/// The arguments of a run of the packaging tool: `publish`, the flag that
/// selects the mode, and every argument of this run behind the program's
/// name, except repetitions of that flag.
pub open spec fn forwarded(args: Seq<Seq<char>>, flag: Seq<char>) -> Seq<Seq<char>> {
    seq!["publish"@, flag] + without(behind_program(args), flag)
}

/// The arguments behind the program's name.
pub open spec fn behind_program(args: Seq<Seq<char>>) -> Seq<Seq<char>> {
    if args.len() == 0 {
        args
    } else {
        args.subrange(1, args.len() as int)
    }
}

/// Whether two texts are the same.
pub fn same_text(a: &str, b: &str) -> (r: bool)
    ensures
        r == (a@ == b@),
{
    same_chars(&chars_of(a), &chars_of(b))
}

/// Whether `flag` is among the arguments.
pub fn has_flag(args: &Vec<String>, flag: &str) -> (r: bool)
    ensures
        r == views(args@).contains(flag@),
{
    let mut i: usize = 0;
    while i < args.len()
        invariant
            i <= args.len(),
            forall|k: int| 0 <= k < i ==> views(args@)[k] != flag@,
        decreases args.len() - i,
    {
        if same_text(args[i].as_str(), flag) {
            assert(views(args@)[i as int] == flag@);
            return true;
        }
        i += 1;
    }
    false
}

fn find_option(args: &Vec<String>, long: &str, short: Option<&str>) -> (res: Option<String>)
    ensures
        text_view(res) == option_value(
            views(args@),
            long@,
            match short {
                Some(s) => Some(s@),
                None => None,
            },
            0,
        ),
{
    let ghost short_view: Option<Seq<char>> = match short {
        Some(s) => Some(s@),
        None => None,
    };
    let long_chars = chars_of(long);
    let mut with_value = chars_of(long);
    with_value.push('=');
    let mut i: usize = 0;
    while i < args.len()
        invariant
            i <= args.len(),
            long_chars@ == long@,
            with_value@ == long@.push('='),
            short_view == match short {
                Some(s) => Some(s@),
                None => None,
            },
            option_value(views(args@), long@, short_view, 0) == option_value(
                views(args@),
                long@,
                short_view,
                i as int,
            ),
        decreases args.len() - i,
    {
        let arg = chars_of(args[i].as_str());
        let short_opens = match short {
            Some(s) => starts_with(&arg, &chars_of(s)),
            None => false,
        };
        if starts_with(&arg, &long_chars) || short_opens {
            if starts_with(&arg, &with_value) {
                let value = tail(&arg, with_value.len());
                return Some(string_of(&value));
            } else if i + 1 < args.len() {
                return Some(args[i + 1].clone());
            } else {
                return None;
            }
        }
        i += 1;
    }
    None
}

/// The manifest path given on the command line, if any.
pub fn manifest_path(args: &Vec<String>) -> (res: Option<String>)
    ensures
        text_view(res) == option_value(views(args@), "--manifest-path"@, None, 0),
{
    find_option(args, "--manifest-path", None)
}

/// The package named on the command line, if any.
pub fn package_flag(args: &Vec<String>) -> (res: Option<String>)
    ensures
        text_view(res) == option_value(views(args@), "--package"@, Some("-p"@), 0),
{
    find_option(args, "--package", Some("-p"))
}

/// The arguments for the packaging tool in the mode that `flag` selects.
pub fn forwarded_args(args: &Vec<String>, flag: &str) -> (res: Vec<String>)
    ensures
        views(res@) == forwarded(views(args@), flag@),
{
    let mut out: Vec<String> = Vec::new();
    out.push("publish".to_owned());
    out.push(flag.to_owned());
    assert(views(out@) =~= seq!["publish"@, flag@]);
    if args.len() == 0 {
        assert(views(args@) =~= Seq::<Seq<char>>::empty());
        return out;
    }
    let ghost rest = behind_program(views(args@));
    let mut i: usize = 1;
    assert(rest.subrange(0, 0) =~= Seq::<Seq<char>>::empty());
    while i < args.len()
        invariant
            1 <= i <= args.len(),
            rest == behind_program(views(args@)),
            views(out@) == seq!["publish"@, flag@] + without(rest.subrange(0, i - 1), flag@),
        decreases args.len() - i,
    {
        let ghost before = views(out@);
        proof {
            let upto = rest.subrange(0, i as int);
            assert(upto.drop_last() =~= rest.subrange(0, i - 1));
            assert(upto.last() == args@[i as int]@);
        }
        if !same_text(args[i].as_str(), flag) {
            out.push(args[i].clone());
            assert(views(out@) =~= before.push(args@[i as int]@));
        }
        i += 1;
    }
    assert(rest.subrange(0, i - 1) =~= rest);
    out
}

/// The arguments of the verification build.
pub fn verification_build_args(args: &Vec<String>) -> (res: Vec<String>)
    ensures
        views(res@) == forwarded(views(args@), "--dry-run"@),
{
    forwarded_args(args, "--dry-run")
}

/// The arguments of the publishing run.
pub fn publish_args(args: &Vec<String>) -> (res: Vec<String>)
    ensures
        views(res@) == forwarded(views(args@), "--no-verify"@),
{
    forwarded_args(args, "--no-verify")
}

/// Which steps a run takes.
#[derive(Clone, Copy, Debug, PartialEq, Eq, Structural)]
pub struct RunPlan {
    pub check_clean: bool,
    pub verification_build: bool,
    pub publish_and_verify: bool,
}

/// The steps that the command line asks for: the cleanliness check
/// unless a dirty tree is allowed, the verification build unless it is
/// switched off, and publishing with the content check unless this is a
/// dry run or a call for help.
pub fn plan_run(args: &Vec<String>) -> (plan: RunPlan)
    ensures
        plan.check_clean == !views(args@).contains("--allow-dirty"@),
        plan.verification_build == !views(args@).contains("--no-verify"@),
        plan.publish_and_verify == (!views(args@).contains("--dry-run"@) && !views(
            args@,
        ).contains("--help"@) && !views(args@).contains("-h"@)),
{
    let dry_run = has_flag(args, "--dry-run");
    let skip_build = has_flag(args, "--no-verify");
    let help = has_flag(args, "--help") || has_flag(args, "-h");
    let allow_dirty = has_flag(args, "--allow-dirty");
    RunPlan {
        check_clean: !allow_dirty,
        verification_build: !skip_build,
        publish_and_verify: !dry_run && !help,
    }
}

/// The name of the directory that the verification build unpacks into,
/// below the target directory's `package` directory.
pub fn unpacked_package_name(name: &str, version: &str) -> (res: String)
    ensures
        res@ == name@.push('-') + version@,
{
    let mut n = chars_of(name);
    n.push('-');
    string_of(&joined(&n, &chars_of(version)))
}

/// The name of the packed archive that the verification build leaves
/// beside that directory.
pub fn packed_crate_name(name: &str, version: &str) -> (res: String)
    ensures
        res@ == name@.push('-') + version@ + ".crate"@,
{
    let mut n = chars_of(name);
    n.push('-');
    let stem = joined(&n, &chars_of(version));
    string_of(&joined(&stem, &chars_of(".crate")))
}

/// The exit code of this run after the packaging tool has failed: the
/// tool's own code, or 1 where it has none.
pub fn failure_exit_code(code: Option<i32>) -> (res: i32)
    ensures
        res == match code {
            Some(c) => c,
            None => 1,
        },
{
    match code {
        Some(c) => c,
        None => 1,
    }
}

/// `at` is the first position whose value is `wanted`.
pub open spec fn first_equal(items: Seq<Seq<char>>, wanted: Seq<char>, at: int) -> bool {
    &&& 0 <= at < items.len()
    &&& items[at] == wanted
    &&& forall|i: int| 0 <= i < at ==> items[i] != wanted
}

/// The first position whose value is `wanted`.
pub fn position_of(items: &Vec<String>, wanted: &str) -> (res: Option<usize>)
    ensures
        match res {
            Some(at) => first_equal(views(items@), wanted@, at as int),
            None => !views(items@).contains(wanted@),
        },
{
    let mut i: usize = 0;
    while i < items.len()
        invariant
            i <= items.len(),
            forall|k: int| 0 <= k < i ==> views(items@)[k] != wanted@,
        decreases items.len() - i,
    {
        if same_text(items[i].as_str(), wanted) {
            return Some(i);
        }
        i += 1;
    }
    None
}

/// The package to publish, by its position in the workspace. `names[i]`
/// and `manifest_dirs[i]` describe package `i`. A package named on the
/// command line is looked up by name; else a workspace of one package
/// gives that package; else the package whose manifest lies in
/// `current_dir` is taken. `None` where the lookup finds nothing.
pub fn select_package(
    names: &Vec<String>,
    manifest_dirs: &Vec<String>,
    package: &Option<String>,
    current_dir: &str,
) -> (res: Option<usize>)
    ensures
        match *package {
            Some(wanted) => match res {
                Some(at) => first_equal(views(names@), wanted@, at as int),
                None => !views(names@).contains(wanted@),
            },
            None => if names@.len() == 1 {
                res == Some(0usize)
            } else {
                match res {
                    Some(at) => first_equal(views(manifest_dirs@), current_dir@, at as int),
                    None => !views(manifest_dirs@).contains(current_dir@),
                }
            },
        },
{
    match package {
        Some(wanted) => position_of(names, wanted.as_str()),
        None => if names.len() == 1 {
            Some(0)
        } else {
            position_of(manifest_dirs, current_dir)
        },
    }
}

} // verus!
