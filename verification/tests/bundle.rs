use apphatch::bundle::{
    entry_qualifies, find, find_desktop_file, find_executable, find_icon, DirEntry, Wanted,
};
use apphatch::ids::{fresh_id, short_id};

fn file(name: &str, mode: u32) -> DirEntry {
    DirEntry { name: name.to_string(), is_file: true, mode }
}

fn dir(name: &str) -> DirEntry {
    DirEntry { name: name.to_string(), is_file: false, mode: 0o755 }
}

fn sample_listing() -> Vec<DirEntry> {
    vec![
        dir("usr"),
        dir("fake.desktop"),
        file("README.md", 0o644),
        file("second.png", 0o644),
        file("app.desktop", 0o644),
        file("other.desktop", 0o644),
        file("data", 0o644),
        file("AppRun", 0o755),
        file("runner", 0o100),
        file("icon.svg", 0o644),
    ]
}

#[test]
fn find_desktop_file_takes_the_first_regular_file() {
    assert_eq!(find_desktop_file(&sample_listing()), Some(4));
}

#[test]
fn find_executable_wants_no_extension_and_an_execute_bit() {
    assert_eq!(find_executable(&sample_listing()), Some(7));
    assert_eq!(find_executable(&vec![file("a", 0o001)]), Some(0));
    assert_eq!(find_executable(&vec![file("a", 0o010)]), Some(0));
    assert_eq!(find_executable(&vec![file("a", 0o100)]), Some(0));
    assert_eq!(find_executable(&vec![file("a", 0o666)]), None);
    assert_eq!(find_executable(&vec![file("a.sh", 0o755)]), None);
    assert_eq!(find_executable(&vec![file(".hidden", 0o755)]), Some(0));
    assert_eq!(find_executable(&vec![dir("bin")]), None);
}

#[test]
fn find_icon_takes_the_first_image() {
    assert_eq!(find_icon(&sample_listing()), Some(3));
    assert_eq!(find_icon(&vec![file("a.jpg", 0o644)]), Some(0));
    assert_eq!(find_icon(&vec![file("a.svg", 0o644)]), Some(0));
    assert_eq!(find_icon(&vec![file("a.jpeg", 0o644), file("a.PNG", 0o644)]), None);
    assert_eq!(find_icon(&vec![dir("a.png")]), None);
}

#[test]
fn nothing_is_found_in_an_empty_listing() {
    let empty: Vec<DirEntry> = Vec::new();
    assert_eq!(find_desktop_file(&empty), None);
    assert_eq!(find_executable(&empty), None);
    assert_eq!(find_icon(&empty), None);
    assert_eq!(find(&empty, Wanted::Icon), None);
}

#[test]
fn entry_qualifies_by_kind() {
    assert!(entry_qualifies(&file("x.desktop", 0), Wanted::Descriptor));
    assert!(!entry_qualifies(&file("x.desktop", 0o755), Wanted::Executable));
    assert!(!entry_qualifies(&file("desktop", 0o644), Wanted::Descriptor));
    assert!(entry_qualifies(&file("x.png", 0), Wanted::Icon));
}

#[test]
fn short_id_takes_six_characters() {
    assert_eq!(short_id("0123456789abcdef0123456789abcdef"), "012345");
    assert_eq!(short_id("abcdef"), "abcdef");
}

#[test]
fn fresh_id_is_six_hex_digits() {
    let a = fresh_id();
    assert_eq!(a.len(), 6);
    assert!(a.chars().all(|c| c.is_ascii_digit() || ('a'..='f').contains(&c)));
    let mut differs = false;
    for _ in 0..8 {
        if fresh_id() != a {
            differs = true;
        }
    }
    assert!(differs);
}
