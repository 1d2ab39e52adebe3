use apphatch::desktop::{
    canonicalize_key, get_name, non_empty, ranks, render, sorted_entries, upsert, DescriptorError,
    Desktop,
};
use apphatch::sections::{brackets_ordered, find_entry, find_section, parse_sections, Entry, Section};

fn entry_of(key: &str, value: Option<&str>) -> Entry {
    Entry { key: key.to_string(), value: value.map(|v| v.to_string()) }
}

fn desktop_of(text: &str) -> Desktop {
    match Desktop::new(text) {
        Ok(d) => d,
        Err(e) => panic!("descriptor was refused: {:?}", e),
    }
}

#[test]
fn canonicalize_capitalizes_each_segment() {
    assert_eq!(canonicalize_key("x-foo-bar"), "X-Foo-Bar");
    assert_eq!(canonicalize_key("name"), "Name");
    assert_eq!(canonicalize_key("startupwmclass"), "Startupwmclass");
}

#[test]
fn canonicalize_of_the_empty_key_is_empty() {
    assert_eq!(canonicalize_key(""), "");
}

#[test]
fn canonicalize_leaves_a_canonical_key() {
    for key in ["X-Foo-Bar", "Name", "A--B", "-", "Été", "X-1-a"] {
        let once = canonicalize_key(key);
        assert_eq!(canonicalize_key(once.as_str()), once);
    }
    assert_eq!(canonicalize_key("X-Foo-Bar"), "X-Foo-Bar");
}

#[test]
fn canonicalize_handles_empty_segments_and_other_letters() {
    assert_eq!(canonicalize_key("a--b"), "A--B");
    assert_eq!(canonicalize_key("-a-"), "-A-");
    assert_eq!(canonicalize_key("é-ü"), "é-ü");
    assert_eq!(canonicalize_key("a b-c d"), "A b-C d");
}

#[test]
fn non_empty_trims() {
    assert_eq!(non_empty(Some("  My App ")), Some("My App".to_string()));
    assert_eq!(non_empty(Some("x")), Some("x".to_string()));
}

#[test]
fn non_empty_refuses_blank_and_missing() {
    assert_eq!(non_empty(Some("   ")), None);
    assert_eq!(non_empty(Some("")), None);
    assert_eq!(non_empty(None), None);
}

#[test]
fn get_name_reads_the_recognized_section() {
    let map = vec![
        Section { name: "other".to_string(), entries: vec![entry_of("name", Some("No"))] },
        Section {
            name: "desktop entry".to_string(),
            entries: vec![entry_of("exec", Some("x")), entry_of("name", Some("Yes"))],
        },
    ];
    assert_eq!(get_name(&map), Some("Yes"));
}

#[test]
fn get_name_without_section_key_or_value() {
    let none: Vec<Section> = Vec::new();
    assert_eq!(get_name(&none), None);
    let no_key = vec![Section {
        name: "desktop entry".to_string(),
        entries: vec![entry_of("exec", Some("x"))],
    }];
    assert_eq!(get_name(&no_key), None);
    let no_value =
        vec![Section { name: "desktop entry".to_string(), entries: vec![entry_of("name", None)] }];
    assert_eq!(get_name(&no_value), None);
    let wrong_case =
        vec![Section { name: "Desktop Entry".to_string(), entries: vec![entry_of("name", Some("x"))] }];
    assert_eq!(get_name(&wrong_case), None);
}

#[test]
fn get_name_takes_the_later_of_two() {
    let map = vec![Section {
        name: "desktop entry".to_string(),
        entries: vec![entry_of("name", Some("First")), entry_of("name", Some("Second"))],
    }];
    assert_eq!(get_name(&map), Some("Second"));
    assert_eq!(find_entry(&map[0].entries, "name"), Some(1));
    assert_eq!(find_section(&map, "desktop entry"), Some(0));
    assert_eq!(find_section(&map, "nothing"), None);
}

#[test]
fn descriptor_gives_the_trimmed_name() {
    let d = desktop_of("[Desktop Entry]\nName =  My App  \nExec=app\n");
    assert_eq!(d.name, "My App");
    assert_eq!(d.slug(), "my-app");
    assert_eq!(d.destination("/apps"), "/apps/my-app.desktop");
}

#[test]
fn descriptor_sections_are_matched_without_case() {
    let d = desktop_of("[DESKTOP ENTRY]\nNAME=Shouty\n");
    assert_eq!(d.name, "Shouty");
}

#[test]
fn descriptor_without_name_is_refused() {
    assert_eq!(Desktop::new("[Desktop Entry]\nExec=app\n").err(), Some(DescriptorError::MissingName));
    assert_eq!(Desktop::new("").err(), Some(DescriptorError::MissingName));
    assert_eq!(Desktop::new("[Other]\nName=x\n").err(), Some(DescriptorError::MissingName));
    assert_eq!(Desktop::new("[Desktop Entry]\nName\n").err(), Some(DescriptorError::MissingName));
}

#[test]
fn descriptor_with_blank_name_is_refused() {
    assert_eq!(Desktop::new("[Desktop Entry]\nName=\n").err(), Some(DescriptorError::MissingName));
    assert_eq!(
        Desktop::new("[Desktop Entry]\nName=   \t\n").err(),
        Some(DescriptorError::MissingName)
    );
}

#[test]
fn descriptor_that_cannot_be_read_is_malformed() {
    assert_eq!(Desktop::new("[Desktop Entry\nName=x\n").err(), Some(DescriptorError::Malformed));
    assert_eq!(Desktop::new("[Desktop Entry]\n=x\n").err(), Some(DescriptorError::Malformed));
}

#[test]
fn descriptor_with_brackets_out_of_order_is_malformed() {
    assert_eq!(Desktop::new("][\nName=x\n").err(), Some(DescriptorError::Malformed));
    assert_eq!(Desktop::new("[Desktop Entry]\nName=x\na ] b [\n").err(), Some(DescriptorError::Malformed));
}

#[test]
fn descriptor_error_messages() {
    assert_eq!(DescriptorError::MissingName.message(), "Required field missing: Name");
    assert_eq!(DescriptorError::Malformed.message(), "Descriptor cannot be read");
}

#[test]
fn brackets_are_judged_line_by_line() {
    assert!(brackets_ordered(""));
    assert!(brackets_ordered("[a]\n[b]\n"));
    assert!(brackets_ordered("a]b[c]"));
    assert!(brackets_ordered("only ] closing"));
    assert!(brackets_ordered("[ only opening"));
    assert!(brackets_ordered("x ; ] ["));
    assert!(brackets_ordered("x # ] ["));
    assert!(!brackets_ordered("] ["));
    assert!(!brackets_ordered("[a]\n] [\n[b]"));
    assert!(!brackets_ordered("] [ ; ]"));
    assert!(brackets_ordered("]\n["));
}

#[test]
fn parse_sections_reads_keys_and_values() {
    let sections = parse_sections("[Desktop Entry]\nName=My App\nTerminal\n").unwrap();
    let i = find_section(&sections, "desktop entry").unwrap();
    let entries = &sections[i].entries;
    let name = find_entry(entries, "name").unwrap();
    assert_eq!(entries[name].value, Some("My App".to_string()));
    let terminal = find_entry(entries, "terminal").unwrap();
    assert_eq!(entries[terminal].value, None);
    assert_eq!(find_entry(entries, "exec"), None);
    assert_eq!(parse_sections("] ["), None);
    assert_eq!(parse_sections("[broken"), None);
}

#[test]
fn entry_text_sets_exec_and_icon() {
    let d = desktop_of(
        "[Desktop Entry]\nName=My App\nExec=AppRun %U\nIcon=myicon\nComment=Hello there\nX-AppImage-Version=1.0\nTerminal\n",
    );
    assert_eq!(
        d.entry_text("/opt/my-app/AppRun", "/opt/my-app/icon.png"),
        "[Desktop Entry]\nComment=Hello there\nExec=/opt/my-app/AppRun\nIcon=/opt/my-app/icon.png\nName=My App\nX-Appimage-Version=1.0\n"
    );
}

#[test]
fn entry_text_without_recognized_section() {
    let d = Desktop { name: "x".to_string(), content: Vec::new() };
    assert_eq!(d.entry_text("/e", "/i"), "[Desktop Entry]\nExec=/e\nIcon=/i\n");
}

#[test]
fn entry_text_goes_by_the_written_key() {
    let d = Desktop {
        name: "x".to_string(),
        content: vec![Section {
            name: "desktop entry".to_string(),
            entries: vec![entry_of("b", Some("2")), entry_of("_a", Some("1"))],
        }],
    };
    assert_eq!(d.entry_text("/e", "/i"), "[Desktop Entry]\nB=2\nExec=/e\nIcon=/i\n_a=1\n");
}

#[test]
fn ranks_orders_by_written_key_then_by_key() {
    assert!(ranks("a", "b"));
    assert!(!ranks("b", "a"));
    assert!(!ranks("a", "a"));
    assert!(ranks("b", "_a"));
    assert!(ranks("Name", "name"));
    assert!(!ranks("name", "Name"));
    assert!(ranks("a-b", "ab"));
}

#[test]
fn upsert_keeps_the_list_ascending() {
    let mut es: Vec<Entry> = Vec::new();
    upsert(&mut es, "name".to_string(), Some("n".to_string()));
    upsert(&mut es, "exec".to_string(), Some("e".to_string()));
    upsert(&mut es, "zeta".to_string(), None);
    upsert(&mut es, "icon".to_string(), Some("i".to_string()));
    upsert(&mut es, "exec".to_string(), Some("other".to_string()));
    assert_eq!(
        es,
        vec![
            entry_of("exec", Some("other")),
            entry_of("icon", Some("i")),
            entry_of("name", Some("n")),
            entry_of("zeta", None),
        ]
    );
    assert_eq!(render(&es), "[Desktop Entry]\nExec=other\nIcon=i\nName=n\n");
}

#[test]
fn sorted_entries_lets_the_later_entry_win() {
    let es = vec![entry_of("b", Some("1")), entry_of("a", Some("2")), entry_of("b", Some("3"))];
    assert_eq!(sorted_entries(&es), vec![entry_of("a", Some("2")), entry_of("b", Some("3"))]);
}

#[test]
fn entry_text_has_one_exec_and_one_icon() {
    let d = Desktop {
        name: "x".to_string(),
        content: vec![Section {
            name: "desktop entry".to_string(),
            entries: vec![
                entry_of("Exec", Some("old upper")),
                entry_of("exec", Some("old lower")),
                entry_of("Icon", Some("old icon")),
                entry_of("name", Some("x")),
            ],
        }],
    };
    assert_eq!(d.entry_text("/e", "/i"), "[Desktop Entry]\nExec=/e\nIcon=/i\nName=x\n");
}

#[test]
fn descriptor_keys_are_lower_cased() {
    let d = desktop_of("[Desktop Entry]\nNAME=Shouty\nEXEC=run\nX-Foo=1\n");
    let i = find_section(&d.content, "desktop entry").unwrap();
    let mut keys: Vec<&str> = d.content[i].entries.iter().map(|e| e.key.as_str()).collect();
    keys.sort();
    assert_eq!(keys, vec!["exec", "name", "x-foo"]);
    assert_eq!(d.entry_text("/e", "/i"), "[Desktop Entry]\nExec=/e\nIcon=/i\nName=Shouty\nX-Foo=1\n");
}

#[test]
fn descriptor_from_sections_takes_the_name() {
    let sections = vec![Section {
        name: "desktop entry".to_string(),
        entries: vec![entry_of("name", Some("  Given  "))],
    }];
    let d = Desktop::from_sections(sections.clone()).unwrap();
    assert_eq!(d.name, "Given");
    assert_eq!(d.content, sections);
    assert_eq!(Desktop::from_sections(Vec::new()).err(), Some(DescriptorError::MissingName));
    let spaces = vec![Section {
        name: "desktop entry".to_string(),
        entries: vec![entry_of("name", Some("   "))],
    }];
    assert_eq!(Desktop::from_sections(spaces).err(), Some(DescriptorError::MissingName));
}
