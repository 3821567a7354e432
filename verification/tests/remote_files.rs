use remcmd_app::browser::{
    sftp_browser_placement_for_request, Modifiers, SftpBrowserPlacement, SftpBrowserState,
    SIDEBAR_SFTP_REQUEST_ID_START,
};
use remcmd_app::number::format_remote_size;
use remcmd_app::plans::{build_remote_download_plan, LocalKind, UploadPlanner};
use remcmd_app::remote_files::{
    RemoteDirectory, RemoteDirectoryTree, RemoteFileEntry, RemoteFileKind,
};
use remcmd_app::remote_path::{
    collapse_nested_remote_entries, remote_breadcrumbs, remote_file_name, remote_join_path,
    remote_parent_path, remote_path_depth, remote_path_is_descendant, remote_relative_path,
};
use remcmd_app::text_format::{RemoteLineEnding, RemoteTextFormat};
use std::path::PathBuf;

fn remote_entry(path: &str, kind: RemoteFileKind) -> RemoteFileEntry {
    RemoteFileEntry {
        name: remote_file_name(path).into(),
        path: path.into(),
        kind,
        size: if kind == RemoteFileKind::File { Some(12) } else { None },
        modified: None,
    }
}

#[test]
fn center_and_sidebar_sftp_requests_are_isolated() {
    let mut center = SftpBrowserState::default();
    let mut sidebar = SftpBrowserState::with_request_id_start(SIDEBAR_SFTP_REQUEST_ID_START);
    let center_request = center.begin_request("/center".into());
    let sidebar_request = sidebar.begin_request("/sidebar".into());

    assert_eq!(
        sftp_browser_placement_for_request(center_request),
        SftpBrowserPlacement::Center
    );
    assert_eq!(
        sftp_browser_placement_for_request(sidebar_request),
        SftpBrowserPlacement::Sidebar
    );
    assert!(!center.fail_request(sidebar_request, "wrong browser".into()));
    assert!(center.loading);
    assert!(sidebar.fail_request(sidebar_request, "expected".into()));
    assert!(!sidebar.loading);
}

#[test]
fn remote_parent_path_handles_root_and_nested_directories() {
    assert_eq!(remote_parent_path("/"), None);
    assert_eq!(remote_parent_path("/home"), Some("/".into()));
    assert_eq!(remote_parent_path("/home/test/"), Some("/home".into()));
    assert_eq!(remote_parent_path("relative"), Some(".".into()));
}

#[test]
fn remote_file_sizes_use_compact_binary_units() {
    assert_eq!(format_remote_size(42), "42 B");
    assert_eq!(format_remote_size(1536), "1.5 KB");
    assert_eq!(format_remote_size(2 * 1024 * 1024), "2.0 MB");
}

#[test]
fn remote_transfer_paths_join_root_relative_and_nested_directories() {
    assert_eq!(remote_join_path("/", "notes.txt"), "/notes.txt");
    assert_eq!(remote_join_path(".", "notes.txt"), "notes.txt");
    assert_eq!(
        remote_join_path("/home/test/", "notes.txt"),
        "/home/test/notes.txt"
    );
    assert_eq!(remote_file_name("/home/test/notes.txt"), "notes.txt");
}

#[test]
fn sftp_tree_flattens_only_expanded_directories() {
    let mut browser = SftpBrowserState {
        entries: vec![
            remote_entry("/home/test/projects", RemoteFileKind::Directory),
            remote_entry("/home/test/notes.txt", RemoteFileKind::File),
        ],
        ..SftpBrowserState::default()
    };
    browser.tree_entries.insert(
        "/home/test/projects".into(),
        vec![
            remote_entry("/home/test/projects/src", RemoteFileKind::Directory),
            remote_entry("/home/test/projects/todo.txt", RemoteFileKind::File),
        ],
    );
    browser.expanded_paths.insert("/home/test/projects".into());

    assert!(browser.has_settled_tree());
    let rows = browser.visible_rows(true);
    assert_eq!(
        rows.iter()
            .map(|row| (row.entry.path.as_str(), row.depth))
            .collect::<Vec<_>>(),
        vec![
            ("/home/test/projects", 0),
            ("/home/test/projects/src", 1),
            ("/home/test/projects/todo.txt", 1),
            ("/home/test/notes.txt", 0),
        ]
    );
}

#[test]
fn sftp_tree_selection_supports_ranges_and_secondary_toggle() {
    let mut browser = SftpBrowserState {
        entries: vec![
            remote_entry("/home/test/first", RemoteFileKind::File),
            remote_entry("/home/test/second", RemoteFileKind::File),
            remote_entry("/home/test/third", RemoteFileKind::File),
        ],
        ..SftpBrowserState::default()
    };

    browser.select_path("/home/test/first", Modifiers::default(), true);
    browser.select_path(
        "/home/test/third",
        Modifiers {
            shift: true,
            ..Modifiers::default()
        },
        true,
    );
    assert_eq!(
        browser.selected_paths,
        vec!["/home/test/first", "/home/test/second", "/home/test/third"]
    );

    browser.select_path(
        "/home/test/second",
        Modifiers {
            secondary: true,
            ..Modifiers::default()
        },
        true,
    );
    assert_eq!(
        browser.selected_paths,
        vec!["/home/test/first", "/home/test/third"]
    );
}

#[test]
fn recursive_operations_drop_children_of_selected_directories() {
    let entries = collapse_nested_remote_entries(vec![
        remote_entry("/home/test/projects/src/main.rs", RemoteFileKind::File),
        remote_entry("/home/test/notes.txt", RemoteFileKind::File),
        remote_entry("/home/test/projects", RemoteFileKind::Directory),
        remote_entry("/home/test/projects/src", RemoteFileKind::Directory),
    ]);

    assert_eq!(
        entries
            .iter()
            .map(|entry| entry.path.as_str())
            .collect::<Vec<_>>(),
        vec!["/home/test/notes.txt", "/home/test/projects"]
    );
}

#[test]
fn remote_breadcrumbs_link_every_ancestor() {
    assert_eq!(
        remote_breadcrumbs("/home/test/projects"),
        vec![
            ("/".into(), "/".into()),
            ("home".into(), "/home".into()),
            ("test".into(), "/home/test".into()),
            ("projects".into(), "/home/test/projects".into()),
        ]
    );
}

#[test]
fn recursive_upload_plan_preserves_empty_directories_and_files() {
    let project = PathBuf::from("/tmp/upload/project");
    let mut planner = UploadPlanner::new();
    let root = UploadPlanner::remote_path_for("/home/test", &project).unwrap();
    planner.add(project.clone(), root, LocalKind::Directory);
    while let Some((local, remote)) = planner.next_directory() {
        let children = if local == project {
            vec![("src", LocalKind::Directory), ("empty", LocalKind::Directory)]
        } else if local == project.join("src") {
            vec![("main.rs", LocalKind::File)]
        } else {
            vec![]
        };
        for (name, kind) in children {
            let child = local.join(name);
            let target = UploadPlanner::remote_path_for(&remote, &child).unwrap();
            planner.add(child, target, kind);
        }
    }
    let plan = planner.finish();

    assert_eq!(
        plan.directories,
        vec![
            "/home/test/project",
            "/home/test/project/empty",
            "/home/test/project/src",
        ]
    );
    assert_eq!(
        plan.files,
        vec![(
            project.join("src/main.rs"),
            "/home/test/project/src/main.rs".to_string(),
        )]
    );
}

#[test]
fn recursive_download_plan_creates_empty_directories_and_file_targets() {
    let destination = PathBuf::from("/tmp/download/project");
    let plan = build_remote_download_plan(
        RemoteDirectoryTree {
            root: "/home/test/project".into(),
            directories: vec![
                "/home/test/project".into(),
                "/home/test/project/empty".into(),
                "/home/test/project/src".into(),
            ],
            files: vec![remote_entry(
                "/home/test/project/src/main.rs",
                RemoteFileKind::File,
            )],
        },
        destination.clone(),
    );

    assert_eq!(plan.error, None);
    assert!(plan.directories.contains(&destination.join("empty")));
    assert!(plan.directories.contains(&destination.join("src")));
    assert_eq!(
        plan.files,
        vec![(
            destination.join("src/main.rs"),
            "/home/test/project/src/main.rs".to_string(),
            Some(12),
        )]
    );
}

#[test]
fn stale_sftp_error_timer_cannot_clear_a_newer_hint() {
    let mut browser = SftpBrowserState::default();
    let stale_generation = browser.set_error("first".into());
    let current_generation = browser.set_error("second".into());

    assert!(!browser.clear_error_if_current(stale_generation));
    assert_eq!(browser.error.as_deref(), Some("second"));
    assert!(browser.clear_error_if_current(current_generation));
    assert!(browser.error.is_none());
}

#[test]
fn stale_sftp_response_does_not_replace_the_latest_directory() {
    let mut browser = SftpBrowserState::default();
    let stale_request = browser.begin_request("/stale".into());
    let current_request = browser.begin_request("/current".into());

    assert!(!browser.complete_request(
        stale_request,
        RemoteDirectory {
            path: "/stale".into(),
            entries: Vec::new(),
        },
    ));
    assert!(browser.complete_request(
        current_request,
        RemoteDirectory {
            path: "/current".into(),
            entries: Vec::new(),
        },
    ));
    assert_eq!(browser.path, "/current");
    assert_eq!(browser.resolved_source_path.as_deref(), Some("/current"));
    assert!(!browser.loading);
}

#[test]
fn canonical_sftp_result_remains_linked_to_its_shell_cwd_request() {
    let mut browser = SftpBrowserState::default();
    assert!(browser.needs_request("."));

    let request = browser.begin_request(".".into());
    assert!(!browser.needs_request("."));
    assert!(browser.complete_request(
        request,
        RemoteDirectory {
            path: "/home/test".into(),
            entries: Vec::new(),
        }
    ));

    assert!(!browser.needs_request("."));
    assert!(browser.needs_request("/var/log"));
}

#[test]
fn remote_text_format_preserves_utf8_bom_and_crlf() {
    let contents = b"\xef\xbb\xbffirst\r\nsecond\r\n";
    let (format, text) = RemoteTextFormat::decode(contents).expect("UTF-8 text");

    assert_eq!(text, "first\nsecond\n");
    assert_eq!(format.line_ending, RemoteLineEnding::CrLf);
    assert!(format.utf8_bom);
    assert_eq!(format.encode(&text), contents);
}

#[test]
fn remote_text_format_rejects_binary_and_invalid_utf8() {
    assert!(RemoteTextFormat::decode(b"text\0data").is_none());
    assert!(RemoteTextFormat::decode(&[0xff, 0xfe]).is_none());
}

#[test]
fn plain_text_survives_decoding_and_encoding() {
    let contents = "größe\nzweite\n".as_bytes();
    let (format, text) = RemoteTextFormat::decode(contents).unwrap();
    assert_eq!(format.line_ending, RemoteLineEnding::Lf);
    assert!(!format.utf8_bom);
    assert_eq!(text, "größe\nzweite\n");
    assert_eq!(format.encode(&text), contents);
}

#[test]
fn joined_names_come_apart_again() {
    for directory in ["/", "/home/test", "relative"] {
        let path = remote_join_path(directory, "notes.txt");
        assert_eq!(remote_file_name(&path), "notes.txt");
        assert!(remote_path_is_descendant(directory, &path));
    }
    assert_eq!(
        remote_parent_path(&remote_join_path("/home/test", "notes.txt")),
        Some("/home/test".into())
    );
}

#[test]
fn descent_is_by_whole_components() {
    assert!(remote_path_is_descendant("/home", "/home/test"));
    assert!(!remote_path_is_descendant("/home", "/homestead"));
    assert!(!remote_path_is_descendant("/home", "/home"));
    assert_eq!(remote_path_depth("/home/test/a"), 3);
    assert_eq!(remote_relative_path("/home", "/home/a/b"), Some("a/b"));
    assert_eq!(remote_relative_path("/home", "/var"), None);
}

#[test]
fn collapsing_twice_changes_nothing() {
    let once = collapse_nested_remote_entries(vec![
        remote_entry("/b", RemoteFileKind::File),
        remote_entry("/a", RemoteFileKind::Directory),
        remote_entry("/a/x", RemoteFileKind::File),
        remote_entry("/b", RemoteFileKind::File),
    ]);
    let paths: Vec<String> = once.iter().map(|entry| entry.path.clone()).collect();
    assert_eq!(paths, vec!["/a", "/b"]);
    let twice = collapse_nested_remote_entries(once);
    let again: Vec<String> = twice.iter().map(|entry| entry.path.clone()).collect();
    assert_eq!(again, paths);
}

#[test]
fn sizes_agree_with_double_precision() {
    for bytes in [
        0u64,
        1,
        1023,
        1024,
        1025,
        1075,
        1126,
        1048575,
        1048576,
        1048577,
        1073741823,
        1099511627775,
        1099511627776,
        123456789012345,
        9007199254740993,
        u64::MAX - 1,
        u64::MAX,
    ] {
        let value = bytes as f64;
        let expected = if bytes < 1024 {
            format!("{bytes} B")
        } else if value < 1048576.0 {
            format!("{:.1} KB", value / 1024.0)
        } else if value < 1073741824.0 {
            format!("{:.1} MB", value / 1048576.0)
        } else {
            format!("{:.1} GB", value / 1073741824.0)
        };
        assert_eq!(format_remote_size(bytes), expected);
    }
}

#[test]
fn directories_outside_the_tree_are_refused() {
    let plan = build_remote_download_plan(
        RemoteDirectoryTree {
            root: "/srv/data".into(),
            directories: vec!["/srv/data".into(), "/etc".into()],
            files: vec![],
        },
        PathBuf::from("/tmp/data"),
    );
    assert_eq!(
        plan.error.map(|error| error.message()),
        Some("remote directory escaped its requested root")
    );
    let plan = build_remote_download_plan(
        RemoteDirectoryTree {
            root: "/srv/data".into(),
            directories: vec!["/srv/data".into()],
            files: vec![remote_entry("/etc/passwd", RemoteFileKind::File)],
        },
        PathBuf::from("/tmp/data"),
    );
    assert_eq!(
        plan.error.map(|error| error.message()),
        Some("remote file escaped its requested root")
    );
}

#[test]
fn a_cycle_of_expanded_directories_does_not_settle() {
    let mut browser = SftpBrowserState {
        entries: vec![remote_entry("/a", RemoteFileKind::Directory)],
        ..SftpBrowserState::default()
    };
    browser.tree_entries.insert(
        "/a".into(),
        vec![remote_entry("/a", RemoteFileKind::Directory)],
    );
    assert!(browser.has_settled_tree());
    browser.expanded_paths.insert("/a".into());
    assert!(!browser.has_settled_tree());
}

#[test]
fn removed_directories_take_what_lies_below_along() {
    let mut browser = SftpBrowserState {
        entries: vec![
            remote_entry("/a", RemoteFileKind::Directory),
            remote_entry("/b", RemoteFileKind::File),
        ],
        ..SftpBrowserState::default()
    };
    browser
        .tree_entries
        .insert("/a".into(), vec![remote_entry("/a/x", RemoteFileKind::File)]);
    browser.expanded_paths.insert("/a".into());
    browser.select_path("/a/x", Modifiers::default(), true);
    assert_eq!(browser.selected_entries().len(), 1);
    browser.remove_paths(&vec!["/a".to_string()]);
    assert_eq!(browser.visible_rows(false).len(), 1);
    assert!(browser.entry("/a/x").is_none());
    assert!(browser.selected_entries().is_empty());
}
