use zero_shell::builtins::{
    base_name, cat, cd_check, cd_target, cp, echo_line, join_path, mkdir, mv, rm, PathInfo,
};
use zero_shell::expand::Env;

fn strings(items: &[&str]) -> Vec<String> {
    items.iter().map(|s| s.to_string()).collect()
}

fn env_home(home: Option<&str>) -> Env {
    let mut env = Env::new();
    if let Some(h) = home {
        env.push("HOME".to_string(), h.to_string());
    }
    env
}

#[test]
fn echo_joins_with_single_spaces() {
    assert_eq!(echo_line(&strings(&["a", "b c", "", "d"])), "a b c  d");
    assert_eq!(echo_line(&strings(&[])), "");
}

#[test]
fn cd_targets_home_for_no_argument_and_tilde() {
    let env = env_home(Some("/home/u"));
    assert_eq!(cd_target(&strings(&[]), &env), "/home/u");
    assert_eq!(cd_target(&strings(&["~"]), &env), "/home/u");
    assert_eq!(cd_target(&strings(&[".."]), &env), "..");
    assert_eq!(cd_target(&strings(&["/tmp"]), &env), "/tmp");
    let bare = env_home(None);
    assert_eq!(cd_target(&strings(&[]), &bare), "/");
}

#[test]
fn cd_is_refused_unless_the_target_is_an_existing_directory() {
    assert_eq!(cd_check(true, true), Ok(()));
    assert_eq!(cd_check(false, false), Err("No such directory".to_string()));
    assert_eq!(cd_check(true, false), Err("No such directory".to_string()));
    assert_eq!(cd_check(false, true), Err("No such directory".to_string()));
}

#[test]
fn cat_wants_exactly_one_operand() {
    assert_eq!(cat(&strings(&["f"])), Ok("f".to_string()));
    assert_eq!(
        cat(&strings(&[])),
        Err("cat: too many arguments (expect 1 argument)".to_string())
    );
    assert_eq!(
        cat(&strings(&["a", "b"])),
        Err("cat: too many arguments (expect 1 argument)".to_string())
    );
}

#[test]
fn mkdir_wants_an_operand() {
    assert_eq!(mkdir(&strings(&["d"])), Ok("d".to_string()));
    assert_eq!(mkdir(&strings(&["d", "e"])), Ok("d".to_string()));
    assert_eq!(mkdir(&strings(&[])), Err("mkdir: missing operand".to_string()));
}

#[test]
fn base_name_cases() {
    assert_eq!(base_name("a/b"), Some("b".to_string()));
    assert_eq!(base_name("b"), Some("b".to_string()));
    assert_eq!(base_name("/x/y/z.txt"), Some("z.txt".to_string()));
    assert_eq!(base_name("a/"), None);
    assert_eq!(base_name("/"), None);
    assert_eq!(base_name(""), None);
    assert_eq!(base_name(".."), None);
    assert_eq!(base_name("a/.."), None);
    assert_eq!(base_name("."), None);
}

#[test]
fn join_path_uses_one_separator() {
    assert_eq!(join_path("a", "b"), "a/b");
    assert_eq!(join_path("a/", "b"), "a/b");
    assert_eq!(join_path("", "b"), "/b");
}

#[test]
fn cp_needs_two_operands() {
    assert_eq!(
        cp(&strings(&[]), false, &vec![]),
        Err("cp: missing operand".to_string())
    );
    assert_eq!(
        cp(&strings(&["only"]), false, &vec![]),
        Err("cp: missing operand".to_string())
    );
}

#[test]
fn cp_many_sources_need_a_directory_target() {
    assert_eq!(
        cp(&strings(&["a", "b", "dest"]), false, &vec![false, false]),
        Err("cp: target is not a directory".to_string())
    );
}

#[test]
fn cp_refuses_directory_sources() {
    assert_eq!(
        cp(&strings(&["adir", "dest"]), false, &vec![true]),
        Err("cp: -r not implemented: adir".to_string())
    );
}

#[test]
fn cp_plans_copies_into_a_directory() {
    let r = cp(&strings(&["x/a", "b", "d"]), true, &vec![false, false]).unwrap();
    assert_eq!(
        r,
        vec![
            ("x/a".to_string(), "d/a".to_string()),
            ("b".to_string(), "d/b".to_string())
        ]
    );
}

#[test]
fn cp_plans_a_plain_file_copy() {
    let r = cp(&strings(&["src", "dst"]), false, &vec![false]).unwrap();
    assert_eq!(r, vec![("src".to_string(), "dst".to_string())]);
}

#[test]
fn cp_rejects_a_source_without_base_name() {
    assert_eq!(
        cp(&strings(&["a/..", "d"]), true, &vec![false]),
        Err("cp: invalid source".to_string())
    );
}

#[test]
fn mv_needs_two_operands() {
    assert_eq!(mv(&strings(&["x"]), false), Err("mv: missing operand".to_string()));
}

#[test]
fn mv_many_sources_need_a_directory_target() {
    assert_eq!(
        mv(&strings(&["a", "b", "t"]), false),
        Err("mv: target is not a directory".to_string())
    );
}

#[test]
fn mv_plans_renames() {
    let into_dir = mv(&strings(&["p/a", "b", "d"]), true).unwrap();
    assert_eq!(
        into_dir,
        vec![
            ("p/a".to_string(), "d/a".to_string()),
            ("b".to_string(), "d/b".to_string())
        ]
    );
    let onto_path = mv(&strings(&["a", "t"]), false).unwrap();
    assert_eq!(onto_path, vec![("a".to_string(), "t".to_string())]);
}

#[test]
fn mv_rejects_a_source_without_base_name_only_into_directories() {
    assert_eq!(
        mv(&strings(&["a/..", "d"]), true),
        Err("mv: invalid source".to_string())
    );
    // onto a plain path the base name is never needed
    let r = mv(&strings(&["a/..", "t"]), false).unwrap();
    assert_eq!(r, vec![("a/..".to_string(), "t".to_string())]);
}

#[test]
fn rm_needs_an_operand() {
    assert_eq!(
        rm(&strings(&[]), &vec![], &vec![]),
        Err("rm: missing operand".to_string())
    );
}

#[test]
fn rm_reports_a_path_it_cannot_examine() {
    let infos = vec![PathInfo::Absent("No such file or directory".to_string())];
    assert_eq!(
        rm(&strings(&["ghost"]), &vec![], &infos),
        Err("rm: ghost: No such file or directory".to_string())
    );
}

#[test]
fn rm_refuses_directories_without_the_recursive_flag() {
    let infos = vec![PathInfo::Directory];
    assert_eq!(
        rm(&strings(&["d"]), &vec![], &infos),
        Err("rm: cannot remove directory (use -r)".to_string())
    );
}

#[test]
fn rm_plans_files_and_recursive_directories() {
    let infos = vec![PathInfo::File, PathInfo::Directory];
    let r = rm(&strings(&["f", "d"]), &vec!['r'], &infos).unwrap();
    assert_eq!(r, vec![("f".to_string(), false), ("d".to_string(), true)]);
}

#[test]
fn rm_stops_at_the_first_failure() {
    let infos = vec![
        PathInfo::File,
        PathInfo::Absent("denied".to_string()),
        PathInfo::File,
    ];
    assert_eq!(
        rm(&strings(&["a", "b", "c"]), &vec![], &infos),
        Err("rm: b: denied".to_string())
    );
}
