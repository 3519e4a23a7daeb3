//! The decision logic of the builtin commands.
//!
//! The builtins act on the real filesystem, so a driver performs the
//! operations; everything decidable from the arguments and from plain
//! facts about the paths involved is decided here: argument validation,
//! error texts, which files are copied, renamed or removed and to which
//! destination paths. The driver gathers the facts (whether a path is a
//! directory, a stat failure), asks for the plan, and executes it in
//! order, stopping at the first failure, as the operations themselves do.

use vstd::prelude::*;

use crate::expand::{spec_home, Env};
use crate::text::{join_space, spec_join_space, str_eq, str_to_chars};

verus! {

/// The line `echo` prints: its arguments joined by single spaces.
pub fn echo_line(args: &Vec<String>) -> (r: String)
    ensures
        r@ == spec_join_space(args.deep_view()),
{
    join_space(args)
}

/// The directory a change-directory command targets: `~` and a missing
/// argument mean the home directory (the root when unset); anything else
/// passes through, `..` included.
pub open spec fn spec_cd_target(args: Seq<Seq<char>>, env: Seq<(Seq<char>, Seq<char>)>) -> Seq<
    char,
> {
    if args.len() == 0 || args[0] == "~"@ {
        spec_home(env)
    } else {
        args[0]
    }
}

/// Select the directory `cd` will change to.
pub fn cd_target(args: &Vec<String>, env: &Env) -> (r: String)
    ensures
        r@ == spec_cd_target(args.deep_view(), env.vars.deep_view()),
{
    let ghost adv = args.deep_view();
    proof {
        assert(adv.len() == args@.len()) by {
            assert(adv == Seq::new(args@.len(), |k: int| args@[k]@));
        }
        if args@.len() > 0 {
            assert(adv[0] == args@[0]@);
        }
    }
    if args.len() == 0 || str_eq(args[0].as_str(), "~") {
        match env.lookup("HOME") {
            Some(h) => h,
            None => String::from_str("/"),
        }
    } else {
        args[0].clone()
    }
}

/// Decide a directory change once the filesystem facts about the target
/// are known: the target must exist and be a directory, else the change is
/// refused with its error text.
pub fn cd_check(exists: bool, is_dir: bool) -> (r: Result<(), String>)
    ensures
        (exists && is_dir) ==> r is Ok,
        !(exists && is_dir) ==> (r matches Err(m) && m@ == "No such directory"@),
{
    if exists && is_dir {
        Ok(())
    } else {
        Err("No such directory".to_owned())
    }
}

/// The single operand `cat` reads, or its usage failure.
pub fn cat(args: &Vec<String>) -> (r: Result<String, String>)
    ensures
        args.deep_view().len() == 1 ==> (r matches Ok(p) && p@ == args.deep_view()[0]),
        args.deep_view().len() != 1 ==> (r matches Err(m) && m@
            == "cat: too many arguments (expect 1 argument)"@),
{
    let ghost adv = args.deep_view();
    proof {
        assert(adv.len() == args@.len()) by {
            assert(adv == Seq::new(args@.len(), |k: int| args@[k]@));
        }
        if args@.len() > 0 {
            assert(adv[0] == args@[0]@);
        }
    }
    if args.len() == 1 {
        Ok(args[0].clone())
    } else {
        Err("cat: too many arguments (expect 1 argument)".to_owned())
    }
}

/// The directory `mkdir` creates, or its usage failure.
pub fn mkdir(args: &Vec<String>) -> (r: Result<String, String>)
    ensures
        args.deep_view().len() == 0 ==> (r matches Err(m) && m@ == "mkdir: missing operand"@),
        args.deep_view().len() > 0 ==> (r matches Ok(d) && d@ == args.deep_view()[0]),
{
    let ghost adv = args.deep_view();
    proof {
        assert(adv.len() == args@.len()) by {
            assert(adv == Seq::new(args@.len(), |k: int| args@[k]@));
        }
        if args@.len() > 0 {
            assert(adv[0] == args@[0]@);
        }
    }
    if args.len() == 0 {
        Err("mkdir: missing operand".to_owned())
    } else {
        Ok(args[0].clone())
    }
}

/// The index of the last `/` in a path, or -1 when there is none.
pub open spec fn last_slash(p: Seq<char>) -> int
    decreases p.len(),
{
    if p.len() == 0 {
        -1
    } else if p.last() == '/' {
        p.len() - 1
    } else {
        last_slash(p.drop_last())
    }
}

proof fn lemma_last_slash_bounds(p: Seq<char>)
    ensures
        -1 <= last_slash(p) < p.len(),
    decreases p.len(),
{
    if p.len() > 0 && p.last() != '/' {
        lemma_last_slash_bounds(p.drop_last());
    }
}

/// The base name of a path: what follows the last `/`. There is none when
/// that part is empty or is one of the relative components `.` and `..`.
pub open spec fn spec_base_name(p: Seq<char>) -> Option<Seq<char>> {
    let tail = p.skip(last_slash(p) + 1);
    if tail.len() == 0 || tail == "."@ || tail == ".."@ {
        None
    } else {
        Some(tail)
    }
}

/// Extract the base name of a path, if it has one.
pub fn base_name(path: &str) -> (r: Option<String>)
    ensures
        match r {
            None => spec_base_name(path@) is None,
            Some(b) => spec_base_name(path@) == Some(b@),
        },
{
    let ghost p = path@;
    let chars = str_to_chars(path);
    let n = chars.len();
    let mut j: usize = n;
    proof {
        assert(p.take(n as int) =~= p);
    }
    while j > 0 && chars[j - 1] != '/'
        invariant
            j <= n,
            n == p.len(),
            chars@ == p,
            last_slash(p) == last_slash(p.take(j as int)),
        decreases j,
    {
        proof {
            assert(p.take(j as int).last() == p[j - 1]);
            assert(p.take(j as int).drop_last() =~= p.take(j - 1));
        }
        j = j - 1;
    }
    proof {
        if j == 0 {
            assert(p.take(0).len() == 0);
            assert(last_slash(p) == -1);
        } else {
            assert(p.take(j as int).last() == p[j - 1]);
            assert(last_slash(p) == j - 1);
        }
        lemma_last_slash_bounds(p);
        assert(p.subrange(j as int, n as int) =~= p.skip(last_slash(p) + 1));
    }
    let tail = path.substring_char(j, n);
    if tail.unicode_len() == 0 || str_eq(tail, ".") || str_eq(tail, "..") {
        None
    } else {
        Some(tail.to_owned())
    }
}

/// A directory and a base name joined with a single separator.
pub open spec fn spec_join_path(dir: Seq<char>, name: Seq<char>) -> Seq<char> {
    if dir.len() > 0 && dir.last() == '/' {
        dir + name
    } else {
        dir + seq!['/'] + name
    }
}

/// Join a directory and a base name with a single separator.
pub fn join_path(dir: &str, name: &str) -> (r: String)
    ensures
        r@ == spec_join_path(dir@, name@),
{
    let n = dir.unicode_len();
    let mut r = dir.to_owned();
    if n == 0 || dir.get_char(n - 1) != '/' {
        r.append("/");
        proof {
            reveal_strlit("/");
            assert("/"@ =~= seq!['/']);
        }
    }
    r.append(name);
    proof {
        assert(r@ =~= spec_join_path(dir@, name@));
    }
    r
}

/// The copy operations of a `cp` invocation, source by source: a directory
/// source fails (recursion is not implemented), a source without a base
/// name cannot be copied, and everything else is copied to the destination
/// directory under its base name, or onto the destination path itself.
pub open spec fn spec_cp_ops(
    srcs: Seq<Seq<char>>,
    dirs: Seq<bool>,
    dest: Seq<char>,
    dest_is_dir: bool,
) -> Result<Seq<(Seq<char>, Seq<char>)>, Seq<char>>
    decreases srcs.len(),
{
    if srcs.len() == 0 || dirs.len() == 0 {
        Ok(Seq::empty())
    } else if dirs[0] {
        Err("cp: -r not implemented: "@ + srcs[0])
    } else {
        match spec_base_name(srcs[0]) {
            None => Err("cp: invalid source"@),
            Some(b) => {
                let dst = if dest_is_dir {
                    spec_join_path(dest, b)
                } else {
                    dest
                };
                match spec_cp_ops(srcs.drop_first(), dirs.drop_first(), dest, dest_is_dir) {
                    Ok(rest) => Ok(seq![(srcs[0], dst)] + rest),
                    Err(e) => Err(e),
                }
            },
        }
    }
}

/// The outcome of validating and planning a `cp` invocation.
pub open spec fn spec_cp(args: Seq<Seq<char>>, dirs: Seq<bool>, dest_is_dir: bool) -> Result<
    Seq<(Seq<char>, Seq<char>)>,
    Seq<char>,
> {
    if args.len() < 2 {
        Err("cp: missing operand"@)
    } else if args.len() > 2 && !dest_is_dir {
        Err("cp: target is not a directory"@)
    } else {
        spec_cp_ops(args.drop_last(), dirs, args.last(), dest_is_dir)
    }
}

/// Plan a `cp` invocation: the last argument is the destination, every
/// earlier one a source. `dest_is_dir` and `src_is_dir` carry what the
/// filesystem says of the destination and of each source in turn. The
/// result is the ordered list of (source, destination) file copies, or the
/// first failure.
pub fn cp(args: &Vec<String>, dest_is_dir: bool, src_is_dir: &Vec<bool>) -> (r: Result<
    Vec<(String, String)>,
    String,
>)
    requires
        args@.len() >= 2 ==> src_is_dir@.len() == args@.len() - 1,
    ensures
        ({
            let plan = spec_cp(args.deep_view(), src_is_dir@, dest_is_dir);
            match r {
                Ok(ops) => plan matches Ok(sops) && ops.deep_view() == sops,
                Err(m) => plan matches Err(sm) && m@ == sm,
            }
        }),
{
    let ghost adv = args.deep_view();
    proof {
        assert(adv.len() == args@.len()) by {
            assert(adv == Seq::new(args@.len(), |k: int| args@[k]@));
        }
    }
    if args.len() < 2 {
        return Err("cp: missing operand".to_owned());
    }
    if args.len() > 2 && !dest_is_dir {
        return Err("cp: target is not a directory".to_owned());
    }
    let n = args.len() - 1;
    let dest = &args[n];
    let ghost srcs = adv.drop_last();
    let ghost dv = adv.last();
    proof {
        assert(srcs.len() == n);
        assert(dv == args@[n as int]@);
    }
    let mut ops: Vec<(String, String)> = Vec::new();
    let mut i: usize = 0;
    proof {
        assert(srcs.skip(0) =~= srcs);
        assert(src_is_dir@.skip(0) =~= src_is_dir@);
        assert(ops.deep_view() =~= Seq::<(Seq<char>, Seq<char>)>::empty());
        match spec_cp_ops(srcs, src_is_dir@, dv, dest_is_dir) {
            Ok(all) => {
                assert(ops.deep_view() + all =~= all);
            },
            Err(_) => {},
        }
    }
    while i < n
        invariant
            i <= n,
            n + 1 == args@.len(),
            adv == args.deep_view(),
            adv.len() == n + 1,
            srcs == adv.drop_last(),
            srcs.len() == n,
            dv == adv.last(),
            src_is_dir@.len() == n,
            dest@ == dv,
            n + 1 > 2 ==> dest_is_dir,
            spec_cp_ops(srcs, src_is_dir@, dv, dest_is_dir) == (match spec_cp_ops(
                srcs.skip(i as int),
                src_is_dir@.skip(i as int),
                dv,
                dest_is_dir,
            ) {
                Ok(rest) => Ok::<Seq<(Seq<char>, Seq<char>)>, Seq<char>>(ops.deep_view() + rest),
                Err(e) => Err::<Seq<(Seq<char>, Seq<char>)>, Seq<char>>(e),
            }),
        decreases n - i,
    {
        proof {
            assert(srcs.skip(i as int)[0] == srcs[i as int]);
            assert(srcs[i as int] == adv[i as int]);
            assert(adv[i as int] == args@[i as int]@);
            assert(adv[n as int] == args@[n as int]@);
            assert(srcs.skip(i as int).drop_first() =~= srcs.skip(i + 1));
            assert(src_is_dir@.skip(i as int)[0] == src_is_dir@[i as int]);
            assert(src_is_dir@.skip(i as int).drop_first() =~= src_is_dir@.skip(i + 1));
        }
        if src_is_dir[i] {
            let mut m = String::from_str("cp: -r not implemented: ");
            m.append(args[i].as_str());
            return Err(m);
        }
        match base_name(args[i].as_str()) {
            None => {
                return Err("cp: invalid source".to_owned());
            },
            Some(b) => {
                let dst = if dest_is_dir {
                    join_path(dest.as_str(), b.as_str())
                } else {
                    dest.clone()
                };
                let ghost opre = ops.deep_view();
                let ghost dstv = dst@;
                proof {
                    assert(spec_base_name(srcs.skip(i as int)[0]) == Some(b@));
                    assert(dstv == (if dest_is_dir {
                        spec_join_path(dv, b@)
                    } else {
                        dv
                    }));
                }
                ops.push((args[i].clone(), dst));
                proof {
                    assert(ops.deep_view() =~= opre.push((adv[i as int], dstv)));
                    match spec_cp_ops(srcs.skip(i + 1), src_is_dir@.skip(i + 1), dv, dest_is_dir) {
                        Ok(rest) => {
                            assert(opre.push((adv[i as int], dstv)) + rest =~= opre + (seq![
                                (adv[i as int], dstv),
                            ] + rest));
                        },
                        Err(_) => {},
                    }
                }
            },
        }
        i = i + 1;
    }
    proof {
        assert(srcs.skip(n as int).len() == 0);
        assert(src_is_dir@.skip(n as int).len() == 0);
        match spec_cp_ops(srcs, src_is_dir@, dv, dest_is_dir) {
            Ok(all) => {
                assert(ops.deep_view() + Seq::<(Seq<char>, Seq<char>)>::empty()
                    =~= ops.deep_view());
            },
            Err(_) => {},
        }
    }
    Ok(ops)
}

/// The rename operations of a `mv` invocation, source by source: into the
/// destination directory under the source's base name, or onto the
/// destination path itself.
pub open spec fn spec_mv_ops(srcs: Seq<Seq<char>>, dest: Seq<char>, dest_is_dir: bool) -> Result<
    Seq<(Seq<char>, Seq<char>)>,
    Seq<char>,
>
    decreases srcs.len(),
{
    if srcs.len() == 0 {
        Ok(Seq::empty())
    } else if dest_is_dir {
        match spec_base_name(srcs[0]) {
            None => Err("mv: invalid source"@),
            Some(b) => match spec_mv_ops(srcs.drop_first(), dest, dest_is_dir) {
                Ok(rest) => Ok(seq![(srcs[0], spec_join_path(dest, b))] + rest),
                Err(e) => Err(e),
            },
        }
    } else {
        match spec_mv_ops(srcs.drop_first(), dest, dest_is_dir) {
            Ok(rest) => Ok(seq![(srcs[0], dest)] + rest),
            Err(e) => Err(e),
        }
    }
}

/// The outcome of validating and planning a `mv` invocation.
pub open spec fn spec_mv(args: Seq<Seq<char>>, dest_is_dir: bool) -> Result<
    Seq<(Seq<char>, Seq<char>)>,
    Seq<char>,
> {
    if args.len() < 2 {
        Err("mv: missing operand"@)
    } else if args.len() > 2 && !dest_is_dir {
        Err("mv: target is not a directory"@)
    } else {
        spec_mv_ops(args.drop_last(), args.last(), dest_is_dir)
    }
}

/// Plan a `mv` invocation: the ordered list of (source, target) renames,
/// or the first failure.
pub fn mv(args: &Vec<String>, dest_is_dir: bool) -> (r: Result<Vec<(String, String)>, String>)
    ensures
        ({
            let plan = spec_mv(args.deep_view(), dest_is_dir);
            match r {
                Ok(ops) => plan matches Ok(sops) && ops.deep_view() == sops,
                Err(m) => plan matches Err(sm) && m@ == sm,
            }
        }),
{
    let ghost adv = args.deep_view();
    proof {
        assert(adv.len() == args@.len()) by {
            assert(adv == Seq::new(args@.len(), |k: int| args@[k]@));
        }
    }
    if args.len() < 2 {
        return Err("mv: missing operand".to_owned());
    }
    if args.len() > 2 && !dest_is_dir {
        return Err("mv: target is not a directory".to_owned());
    }
    let n = args.len() - 1;
    let dest = &args[n];
    let ghost srcs = adv.drop_last();
    let ghost dv = adv.last();
    proof {
        assert(srcs.len() == n);
        assert(dv == args@[n as int]@);
    }
    let mut ops: Vec<(String, String)> = Vec::new();
    let mut i: usize = 0;
    proof {
        assert(srcs.skip(0) =~= srcs);
        assert(ops.deep_view() =~= Seq::<(Seq<char>, Seq<char>)>::empty());
        match spec_mv_ops(srcs, dv, dest_is_dir) {
            Ok(all) => {
                assert(ops.deep_view() + all =~= all);
            },
            Err(_) => {},
        }
    }
    while i < n
        invariant
            i <= n,
            n + 1 == args@.len(),
            adv == args.deep_view(),
            adv.len() == n + 1,
            srcs == adv.drop_last(),
            srcs.len() == n,
            dv == adv.last(),
            dest@ == dv,
            n + 1 > 2 ==> dest_is_dir,
            spec_mv_ops(srcs, dv, dest_is_dir) == (match spec_mv_ops(
                srcs.skip(i as int),
                dv,
                dest_is_dir,
            ) {
                Ok(rest) => Ok::<Seq<(Seq<char>, Seq<char>)>, Seq<char>>(ops.deep_view() + rest),
                Err(e) => Err::<Seq<(Seq<char>, Seq<char>)>, Seq<char>>(e),
            }),
        decreases n - i,
    {
        proof {
            assert(srcs.skip(i as int)[0] == srcs[i as int]);
            assert(srcs[i as int] == adv[i as int]);
            assert(adv[i as int] == args@[i as int]@);
            assert(adv[n as int] == args@[n as int]@);
            assert(srcs.skip(i as int).drop_first() =~= srcs.skip(i + 1));
        }
        let dst = if dest_is_dir {
            match base_name(args[i].as_str()) {
                None => {
                    return Err("mv: invalid source".to_owned());
                },
                Some(b) => join_path(dest.as_str(), b.as_str()),
            }
        } else {
            dest.clone()
        };
        let ghost opre = ops.deep_view();
        let ghost dstv = dst@;
        ops.push((args[i].clone(), dst));
        proof {
            assert(ops.deep_view() =~= opre.push((adv[i as int], dstv)));
            match spec_mv_ops(srcs.skip(i + 1), dv, dest_is_dir) {
                Ok(rest) => {
                    assert(opre.push((adv[i as int], dstv)) + rest =~= opre + (seq![
                        (adv[i as int], dstv),
                    ] + rest));
                },
                Err(_) => {},
            }
        }
        i = i + 1;
    }
    proof {
        assert(srcs.skip(n as int).len() == 0);
        match spec_mv_ops(srcs, dv, dest_is_dir) {
            Ok(all) => {
                assert(ops.deep_view() + Seq::<(Seq<char>, Seq<char>)>::empty()
                    =~= ops.deep_view());
            },
            Err(_) => {},
        }
    }
    Ok(ops)
}

/// What the filesystem says of a path `rm` is to remove.
pub enum PathInfo {
    /// The path could not be examined; the payload is the rendered error.
    Absent(String),
    Directory,
    File,
}

/// The removal operations of a `rm` invocation, path by path: a path that
/// could not be examined fails with its error, a directory fails unless
/// removal is recursive, and each operation records whether it removes a
/// whole directory tree.
pub open spec fn spec_rm_ops(args: Seq<Seq<char>>, infos: Seq<PathInfo>, recursive: bool) -> Result<
    Seq<(Seq<char>, bool)>,
    Seq<char>,
>
    decreases args.len(),
{
    if args.len() == 0 || infos.len() == 0 {
        Ok(Seq::empty())
    } else {
        match infos[0] {
            PathInfo::Absent(e) => Err("rm: "@ + args[0] + ": "@ + e@),
            PathInfo::Directory => {
                if !recursive {
                    Err("rm: cannot remove directory (use -r)"@)
                } else {
                    match spec_rm_ops(args.drop_first(), infos.drop_first(), recursive) {
                        Ok(rest) => Ok(seq![(args[0], true)] + rest),
                        Err(e) => Err(e),
                    }
                }
            },
            PathInfo::File => match spec_rm_ops(args.drop_first(), infos.drop_first(), recursive) {
                Ok(rest) => Ok(seq![(args[0], false)] + rest),
                Err(e) => Err(e),
            },
        }
    }
}

/// The outcome of validating and planning a `rm` invocation; removal is
/// recursive when the flags hold `r`.
pub open spec fn spec_rm(args: Seq<Seq<char>>, infos: Seq<PathInfo>, flags: Seq<char>) -> Result<
    Seq<(Seq<char>, bool)>,
    Seq<char>,
> {
    if args.len() == 0 {
        Err("rm: missing operand"@)
    } else {
        spec_rm_ops(args, infos, flags.contains('r'))
    }
}

/// Plan a `rm` invocation: each operation is a path and whether to remove
/// it as a directory tree, or the first failure.
pub fn rm(args: &Vec<String>, flags: &Vec<char>, infos: &Vec<PathInfo>) -> (r: Result<
    Vec<(String, bool)>,
    String,
>)
    requires
        args@.len() > 0 ==> infos@.len() == args@.len(),
    ensures
        ({
            let plan = spec_rm(args.deep_view(), infos@, flags@);
            match r {
                Ok(ops) => plan matches Ok(sops) && ops.deep_view() == sops,
                Err(m) => plan matches Err(sm) && m@ == sm,
            }
        }),
{
    let ghost adv = args.deep_view();
    proof {
        assert(adv.len() == args@.len()) by {
            assert(adv == Seq::new(args@.len(), |k: int| args@[k]@));
        }
    }
    if args.len() == 0 {
        return Err("rm: missing operand".to_owned());
    }
    let recursive = crate::text::contains_char(flags, 'r');
    let n = args.len();
    let mut ops: Vec<(String, bool)> = Vec::new();
    let mut i: usize = 0;
    proof {
        assert(adv.skip(0) =~= adv);
        assert(infos@.skip(0) =~= infos@);
        assert(ops.deep_view() =~= Seq::<(Seq<char>, bool)>::empty());
        match spec_rm_ops(adv, infos@, recursive) {
            Ok(all) => {
                assert(ops.deep_view() + all =~= all);
            },
            Err(_) => {},
        }
    }
    while i < n
        invariant
            i <= n,
            n == args@.len(),
            adv == args.deep_view(),
            adv.len() == n,
            infos@.len() == n,
            recursive == flags@.contains('r'),
            spec_rm_ops(adv, infos@, recursive) == (match spec_rm_ops(
                adv.skip(i as int),
                infos@.skip(i as int),
                recursive,
            ) {
                Ok(rest) => Ok::<Seq<(Seq<char>, bool)>, Seq<char>>(ops.deep_view() + rest),
                Err(e) => Err::<Seq<(Seq<char>, bool)>, Seq<char>>(e),
            }),
        decreases n - i,
    {
        proof {
            assert(adv.skip(i as int)[0] == adv[i as int]);
            assert(adv[i as int] == args@[i as int]@);
            assert(adv.skip(i as int).drop_first() =~= adv.skip(i + 1));
            assert(infos@.skip(i as int)[0] == infos@[i as int]);
            assert(infos@.skip(i as int).drop_first() =~= infos@.skip(i + 1));
        }
        let is_dir: bool;
        match &infos[i] {
            PathInfo::Absent(e) => {
                let mut m = String::from_str("rm: ");
                m.append(args[i].as_str());
                m.append(": ");
                m.append(e.as_str());
                proof {
                    assert(m@ =~= "rm: "@ + adv[i as int] + ": "@ + e@);
                }
                return Err(m);
            },
            PathInfo::Directory => {
                if !recursive {
                    return Err("rm: cannot remove directory (use -r)".to_owned());
                }
                is_dir = true;
            },
            PathInfo::File => {
                is_dir = false;
            },
        }
        let ghost opre = ops.deep_view();
        ops.push((args[i].clone(), is_dir));
        proof {
            assert(ops.deep_view() =~= opre.push((adv[i as int], is_dir)));
            match spec_rm_ops(adv.skip(i + 1), infos@.skip(i + 1), recursive) {
                Ok(rest) => {
                    assert(opre.push((adv[i as int], is_dir)) + rest =~= opre + (seq![
                        (adv[i as int], is_dir),
                    ] + rest));
                },
                Err(_) => {},
            }
        }
        i = i + 1;
    }
    proof {
        assert(adv.skip(n as int).len() == 0);
        assert(infos@.skip(n as int).len() == 0);
        match spec_rm_ops(adv, infos@, recursive) {
            Ok(all) => {
                assert(ops.deep_view() + Seq::<(Seq<char>, bool)>::empty() =~= ops.deep_view());
            },
            Err(_) => {},
        }
    }
    Ok(ops)
}

} // verus!
