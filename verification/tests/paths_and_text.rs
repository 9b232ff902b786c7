use telemetry_parser::filesystem::{get_extension, get_filename, get_folder, listed_path, listed_paths, replace_extension};
use telemetry_parser::text::{chars_ends_with, chars_starts_with, concat_chars, latin1_string, remove_all_chars, replace_all_chars, str_eq, trim_chars};
use telemetry_parser::util::find_between;

fn chars(s: &str) -> Vec<char> {
    s.chars().collect()
}

fn listing() -> Vec<(String, String)> {
    vec![
        ("a.csv".to_string(), "/x/a.csv".to_string()),
        ("b.csv".to_string(), "/x/b.csv".to_string()),
        ("a.csv".to_string(), "/y/a.csv".to_string()),
    ]
}

#[test]
fn filename_after_last_slash() {
    assert_eq!(get_filename("/media/clips/GX010123.MP4"), "GX010123.MP4");
    assert_eq!(get_filename("C:\\clips\\A001.mov"), "A001.mov");
    assert_eq!(get_filename("plain.bin"), "plain.bin");
    assert_eq!(get_filename("/dir/"), "");
}

#[test]
fn forward_slash_wins_over_backslash() {
    assert_eq!(get_filename("C:\\a\\b/c.txt"), "c.txt");
    assert_eq!(get_folder("C:\\a/b\\c.txt"), "C:\\a");
}

#[test]
fn folder_of_paths() {
    assert_eq!(get_folder("/media/clips/GX010123.MP4"), "/media/clips");
    assert_eq!(get_folder("/media/clips/"), "/media/clips/");
    assert_eq!(get_folder("C:\\clips\\A001.mov"), "C:\\clips");
    assert_eq!(get_folder("nofolder.mp4"), "nofolder.mp4");
}

#[test]
fn folder_separator_and_name_rebuild_the_path() {
    let p = "/media/clips/GX010123.MP4";
    assert_eq!(format!("{}/{}", get_folder(p), get_filename(p)), p);
}

#[test]
fn extension_is_lower_case() {
    assert_eq!(get_extension("/a/b/VIDEO.MP4"), "mp4");
    assert_eq!(get_extension("/a.dir/noext"), "");
    assert_eq!(get_extension("archive.tar.GZ"), "gz");
}

#[test]
fn extension_replacement() {
    assert_eq!(replace_extension("/a/b.mp4", "gcsv"), Some("/a/b.gcsv".to_string()));
    assert_eq!(replace_extension("/a/b.mp4", ""), Some("/a/b".to_string()));
    assert_eq!(replace_extension("/a/b", "gcsv"), None);
}

#[test]
fn first_listed_entry_by_name() {
    let files = listing();
    assert_eq!(listed_path(&files, "a.csv"), Some("/x/a.csv".to_string()));
    assert_eq!(listed_path(&files, "c.csv"), None);
}

#[test]
fn all_listed_entries_by_names() {
    let files = listing();
    let expected = vec!["a.csv".to_string(), "z.csv".to_string()];
    assert_eq!(listed_paths(&files, &expected), vec!["/x/a.csv".to_string(), "/y/a.csv".to_string()]);
}

#[test]
fn trimming_unicode_white_space() {
    let t: String = trim_chars(&chars("\t  x y \u{3000}\n")).into_iter().collect();
    assert_eq!(t, "x y");
    let e: String = trim_chars(&chars("   ")).into_iter().collect();
    assert_eq!(e, "");
}

#[test]
fn replacing_and_removing_substrings() {
    let r: String = replace_all_chars(&chars("a.mp4.mp4"), ".mp4", ".csv").into_iter().collect();
    assert_eq!(r, "a.csv.csv");
    let r: String = remove_all_chars(&chars("DJDJI I x"), "DJI ").into_iter().collect();
    assert_eq!(r, "DJI x");
    let r: String = remove_all_chars(&chars("abc"), "").into_iter().collect();
    assert_eq!(r, "abc");
}

#[test]
fn prefix_suffix_and_equality() {
    assert!(chars_starts_with(&chars("RC_0001.MP4"), "RC_"));
    assert!(!chars_starts_with(&chars("R"), "RC_"));
    assert!(chars_ends_with(&chars("x_gyro.csv"), "gyro.csv"));
    assert!(!chars_ends_with(&chars("csv"), "gyro.csv"));
    assert!(str_eq("abc", "abc"));
    assert!(!str_eq("abc", "abd"));
    assert_eq!(concat_chars(&chars("ab"), "cd"), "abcd");
}

#[test]
fn latin1_text() {
    assert_eq!(latin1_string(&[0x41, 0xe9, 0x42]), "AéB");
}

#[test]
fn text_between_markers() {
    let buf = b"H Product:Blackbox\nH Firmware revision:Betaflight 4.4.0\nH x";
    assert_eq!(find_between(buf, b"H Firmware revision:", b'\n'), Some("Betaflight 4.4.0".to_string()));
    assert_eq!(find_between(buf, b"missing", b'\n'), None);
    assert_eq!(find_between(b"key=value", b"key=", b'\n'), None);
    assert_eq!(find_between(b"k:\xff\xfe;", b"k:", b';'), Some("\u{fffd}\u{fffd}".to_string()));
}
