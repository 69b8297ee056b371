use findex::entries::{
    app_from_attrs, descriptor_outcome, get_entries, is_descriptor_file_name, strip_field_codes,
    DescriptorFile, EntryIssue,
};

fn file(name: &str, text: &str) -> DescriptorFile {
    DescriptorFile {
        file_name: name.to_string(),
        is_dir: false,
        contents: Some(text.as_bytes().to_vec()),
    }
}

#[test]
fn strips_every_field_code() {
    assert_eq!(strip_field_codes("app %f %U"), "app  ");
    assert_eq!(strip_field_codes("xterm %U"), "xterm ");
    assert_eq!(strip_field_codes("%%%a"), "");
    assert_eq!(strip_field_codes("a%"), "a%");
    assert_eq!(strip_field_codes("plain"), "plain");
}

#[test]
fn field_code_needs_a_character_other_than_line_feed() {
    assert_eq!(strip_field_codes("a%\nb%c"), "a%\nb");
}

#[test]
fn descriptor_extension() {
    assert!(is_descriptor_file_name("firefox.desktop"));
    assert!(is_descriptor_file_name("a.desktop"));
    assert!(is_descriptor_file_name("..desktop"));
    assert!(!is_descriptor_file_name(".desktop"));
    assert!(!is_descriptor_file_name("desktop"));
    assert!(!is_descriptor_file_name("firefox.desktop.bak"));
    assert!(!is_descriptor_file_name("firefox.Desktop"));
    assert!(!is_descriptor_file_name(""));
}

#[test]
fn attrs_give_record_with_default_icon() {
    let r = app_from_attrs(Some("Terminal".to_string()), Some("xterm %U".to_string()), None).unwrap();
    assert_eq!(r.name, "Terminal");
    assert_eq!(r.command, "xterm ");
    assert_eq!(r.icon, "applications-other");
}

#[test]
fn attrs_keep_given_icon() {
    let r = app_from_attrs(
        Some("Files".to_string()),
        Some("nautilus %U".to_string()),
        Some("org.gnome.Nautilus".to_string()),
    )
    .unwrap();
    assert_eq!(r.icon, "org.gnome.Nautilus");
    assert_eq!(r.command, "nautilus ");
}

#[test]
fn attrs_missing_or_empty() {
    assert_eq!(app_from_attrs(None, Some("x".to_string()), None).unwrap_err(), EntryIssue::MissingName);
    assert_eq!(
        app_from_attrs(Some(String::new()), Some("x".to_string()), None).unwrap_err(),
        EntryIssue::MissingName
    );
    assert_eq!(app_from_attrs(Some("A".to_string()), None, None).unwrap_err(), EntryIssue::MissingExec);
    assert_eq!(
        app_from_attrs(Some("A".to_string()), Some("%U".to_string()), None).unwrap_err(),
        EntryIssue::MissingExec
    );
}

#[test]
fn scan_terminal_without_icon() {
    let files = vec![file("term.desktop", "[Desktop Entry]\nName=Terminal\nExec=xterm %U\n")];
    let report = get_entries(&files);
    assert_eq!(report.apps.len(), 1);
    assert_eq!(report.apps[0].name, "Terminal");
    assert_eq!(report.apps[0].command, "xterm ");
    assert_eq!(report.apps[0].icon, "applications-other");
    assert!(report.issues.is_empty());
}

#[test]
fn scan_missing_name_is_reported() {
    let files = vec![file("noname.desktop", "[Desktop Entry]\nExec=xterm\n")];
    let report = get_entries(&files);
    assert!(report.apps.is_empty());
    assert_eq!(report.issues.len(), 1);
    assert_eq!(report.issues[0].0, "noname.desktop");
    assert_eq!(report.issues[0].1, EntryIssue::MissingName);
}

#[test]
fn scan_missing_exec_is_reported() {
    let files = vec![file("noexec.desktop", "[Desktop Entry]\nName=Thing\n")];
    let report = get_entries(&files);
    assert!(report.apps.is_empty());
    assert_eq!(report.issues, vec![("noexec.desktop".to_string(), EntryIssue::MissingExec)]);
}

#[test]
fn scan_skips_directories_and_other_files() {
    let mut dir = file("dir.desktop", "[Desktop Entry]\nName=A\nExec=a\n");
    dir.is_dir = true;
    let files = vec![
        dir,
        file("readme.txt", "[Desktop Entry]\nName=B\nExec=b\n"),
        file("c.desktop", "[Desktop Entry]\nName=C\nExec=c %f\nIcon=c-icon\n"),
    ];
    let report = get_entries(&files);
    assert_eq!(report.apps.len(), 1);
    assert_eq!(report.apps[0].name, "C");
    assert_eq!(report.apps[0].command, "c ");
    assert_eq!(report.apps[0].icon, "c-icon");
    assert!(report.issues.is_empty());
}

#[test]
fn scan_reports_unreadable_and_unparsable() {
    let unreadable = DescriptorFile { file_name: "gone.desktop".to_string(), is_dir: false, contents: None };
    let bad_utf8 = DescriptorFile {
        file_name: "bad.desktop".to_string(),
        is_dir: false,
        contents: Some(b"[Desktop Entry]\nName=\xff\nExec=x\n".to_vec()),
    };
    let no_eq = file("noeq.desktop", "[Desktop Entry]\nhello\n");
    let good = file("ok.desktop", "[Desktop Entry]\nName=Ok\nExec=ok\n");
    let report = get_entries(&vec![unreadable, bad_utf8, no_eq, good]);
    assert_eq!(report.apps.len(), 1);
    assert_eq!(report.apps[0].name, "Ok");
    assert_eq!(
        report.issues,
        vec![
            ("gone.desktop".to_string(), EntryIssue::Unreadable),
            ("bad.desktop".to_string(), EntryIssue::Unparsable),
            ("noeq.desktop".to_string(), EntryIssue::Unparsable),
        ]
    );
}

#[test]
fn scan_keeps_listing_order_and_other_sections_apart() {
    let files = vec![
        file("b.desktop", "[Desktop Entry]\nName=Beta\nExec=beta\n[Desktop Action new]\nName=New\nExec=beta --new\n"),
        file("a.desktop", "# comment\n[Desktop Entry]\nName=Alpha\nExec=alpha %u\n"),
    ];
    let report = get_entries(&files);
    assert_eq!(report.apps.len(), 2);
    assert_eq!(report.apps[0].name, "Beta");
    assert_eq!(report.apps[0].command, "beta");
    assert_eq!(report.apps[1].name, "Alpha");
    assert_eq!(report.apps[1].command, "alpha ");
}

#[test]
fn empty_listing_gives_nothing() {
    let report = get_entries(&vec![]);
    assert!(report.apps.is_empty());
    assert!(report.issues.is_empty());
}

#[test]
fn single_file_outcome() {
    assert!(descriptor_outcome(&file("x.png", "")).is_none());
    let r = descriptor_outcome(&file("t.desktop", "[Desktop Entry]\nName=T\nExec=t\n")).unwrap().unwrap();
    assert_eq!(r.name, "T");
}
