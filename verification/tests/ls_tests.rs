use zero_shell::ls::{format_entry, ls_targets, target_frame, visible_sorted, EntryInfo};
use zero_shell::perms::{is_executable, perms_9};
use zero_shell::timefmt::{format_mtime, format_time};

fn entry(name: &str) -> EntryInfo {
    EntryInfo { name: name.to_string(), is_dir: false, mode: 0o644, size: 0, mtime: 0 }
}

fn names(v: &[EntryInfo]) -> Vec<String> {
    v.iter().map(|e| e.name.clone()).collect()
}

#[test]
fn listing_hides_dot_files_and_sorts_by_name() {
    let entries = vec![entry("zeta"), entry(".hidden"), entry("alpha"), entry("mid")];
    let v = visible_sorted(entries, false);
    assert_eq!(names(&v), vec!["alpha", "mid", "zeta"]);
}

#[test]
fn listing_shows_dot_files_when_asked() {
    let entries = vec![entry("b"), entry(".a"), entry("a")];
    let v = visible_sorted(entries, true);
    assert_eq!(names(&v), vec![".a", "a", "b"]);
}

#[test]
fn listing_keeps_duplicate_names() {
    let entries = vec![entry("x"), entry("x")];
    let v = visible_sorted(entries, false);
    assert_eq!(names(&v), vec!["x", "x"]);
}

#[test]
fn listing_defaults_to_the_current_directory() {
    assert_eq!(ls_targets(&vec![]), vec!["."]);
    let args = vec!["a".to_string(), "b".to_string()];
    assert_eq!(ls_targets(&args), vec!["a", "b"]);
}

#[test]
fn several_targets_get_headers_and_separators() {
    let (header, separate) = target_frame("dir1", 0, 2);
    assert_eq!(header, Some("dir1:".to_string()));
    assert!(separate);
    let (header, separate) = target_frame("dir2", 1, 2);
    assert_eq!(header, Some("dir2:".to_string()));
    assert!(!separate);
    let (header, separate) = target_frame(".", 0, 1);
    assert_eq!(header, None);
    assert!(!separate);
}

#[test]
fn short_line_is_just_the_name() {
    let e = entry("notes.txt");
    assert_eq!(format_entry(&e, false, false), "notes.txt");
}

#[test]
fn classify_marks_directories_and_executables() {
    let mut d = entry("bin");
    d.is_dir = true;
    assert_eq!(format_entry(&d, false, true), "bin/");
    let mut x = entry("run.sh");
    x.mode = 0o755;
    assert_eq!(format_entry(&x, false, true), "run.sh*");
    let plain = entry("data");
    assert_eq!(format_entry(&plain, false, true), "data");
}

#[test]
fn long_line_has_type_permissions_size_and_time() {
    let e = EntryInfo {
        name: "notes".to_string(),
        is_dir: true,
        mode: 0o755,
        size: 42,
        mtime: 7,
    };
    assert_eq!(format_entry(&e, true, false), "drwxr-xr-x       42 7 notes");
    let f = EntryInfo {
        name: "big".to_string(),
        is_dir: false,
        mode: 0o600,
        size: 123456789,
        mtime: 0,
    };
    assert_eq!(format_entry(&f, true, false), "-rw------- 123456789 0 big");
}

#[test]
fn permission_strings_follow_the_mode_bits() {
    assert_eq!(perms_9(0o644), "rw-r--r--");
    assert_eq!(perms_9(0o755), "rwxr-xr-x");
    assert_eq!(perms_9(0o000), "---------");
    assert_eq!(perms_9(0o777), "rwxrwxrwx");
    assert_eq!(perms_9(0o421), "r---w---x");
}

#[test]
fn executability_means_any_execute_bit() {
    assert!(is_executable(0o100));
    assert!(is_executable(0o010));
    assert!(is_executable(0o001));
    assert!(!is_executable(0o644));
}

#[test]
fn epoch_seconds_render_in_decimal() {
    assert_eq!(format_time(0), "0");
    assert_eq!(format_time(9), "9");
    assert_eq!(format_time(10), "10");
    assert_eq!(format_time(1234567890), "1234567890");
    assert_eq!(format_time(u64::MAX), "18446744073709551615");
}

#[test]
fn missing_mtime_renders_as_a_dash() {
    assert_eq!(format_mtime(None), "-");
    // with a timestamp the text is the local rendering or the epoch
    // seconds, never empty
    assert!(!format_mtime(Some(0)).is_empty());
}
