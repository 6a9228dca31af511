use app_service::apps::collect::{collect_desktop_files, names_descriptor, Listed, Listing};
use app_service::apps::dirs::{find_application_dir, join_path, split_paths, user_data_dir};

fn item(name: &str, is_file: bool) -> Listed {
    Listed { name: name.to_string(), is_file }
}

#[test]
fn split_cuts_at_each_colon() {
    assert_eq!(split_paths("/usr/local/share:/usr/share"), vec!["/usr/local/share", "/usr/share"]);
    assert_eq!(split_paths("/a:/b:/c"), vec!["/a", "/b", "/c"]);
}

#[test]
fn split_of_one_path_is_that_path() {
    assert_eq!(split_paths("/opt/share"), vec!["/opt/share"]);
}

#[test]
fn split_keeps_empty_pieces() {
    assert_eq!(split_paths(""), vec![""]);
    assert_eq!(split_paths(":"), vec!["", ""]);
    assert_eq!(split_paths("/a::/b"), vec!["/a", "", "/b"]);
    assert_eq!(split_paths(":/a:"), vec!["", "/a", ""]);
}

#[test]
fn split_counts_characters_not_bytes() {
    assert_eq!(split_paths("/données:/データ:/x"), vec!["/données", "/データ", "/x"]);
}

#[test]
fn split_agrees_with_std() {
    for list in ["", ":", "a", "a:b", "::", "/usr/share:/x/y:", "é:ü"] {
        let expected: Vec<String> = list.split(':').map(|piece| piece.to_string()).collect();
        assert_eq!(split_paths(list), expected);
    }
}

#[test]
fn join_puts_one_slash_between() {
    assert_eq!(join_path("/usr/share", "applications"), "/usr/share/applications");
}

#[test]
fn join_adds_no_second_slash() {
    assert_eq!(join_path("/usr/share/", "applications"), "/usr/share/applications");
    assert_eq!(join_path("/", "applications"), "/applications");
}

#[test]
fn join_to_nothing_is_the_name() {
    assert_eq!(join_path("", "applications"), "applications");
}

#[test]
fn join_agrees_with_std_paths() {
    for dir in ["", "/", "/usr/share", "/usr/share/", "rel", "rel/", "/a//"] {
        for name in ["applications", "x.desktop", "a/b"] {
            let expected = std::path::Path::new(dir).join(name);
            assert_eq!(join_path(dir, name), expected.to_str().unwrap());
        }
    }
}

#[test]
fn user_dir_prefers_data_home() {
    assert_eq!(user_data_dir(Some("/data"), Some("/home/u")), Some("/data".to_string()));
    assert_eq!(user_data_dir(Some("/data"), None), Some("/data".to_string()));
}

#[test]
fn user_dir_falls_back_to_home() {
    assert_eq!(user_data_dir(None, Some("/home/u")), Some("/home/u/.local/share".to_string()));
}

#[test]
fn user_dir_may_be_unknown() {
    assert_eq!(user_data_dir(None, None), None);
}

#[test]
fn nothing_set_leaves_the_two_system_dirs() {
    assert_eq!(
        find_application_dir(None, None, None),
        vec!["/usr/local/share/applications", "/usr/share/applications"]
    );
}

#[test]
fn home_adds_the_user_dir_last() {
    assert_eq!(
        find_application_dir(None, None, Some("/home/u")),
        vec![
            "/usr/local/share/applications",
            "/usr/share/applications",
            "/home/u/.local/share/applications"
        ]
    );
}

#[test]
fn data_home_wins_over_home() {
    assert_eq!(
        find_application_dir(Some("/a:/b"), Some("/data"), Some("/home/u")),
        vec!["/a/applications", "/b/applications", "/data/applications"]
    );
}

#[test]
fn data_dirs_are_not_deduplicated() {
    assert_eq!(
        find_application_dir(Some("/a:/a"), Some("/a"), None),
        vec!["/a/applications", "/a/applications", "/a/applications"]
    );
}

#[test]
fn empty_list_is_one_empty_dir() {
    assert_eq!(find_application_dir(Some(""), None, None), vec!["applications"]);
}

#[test]
fn descriptor_names_end_in_desktop() {
    assert!(names_descriptor("firefox.desktop"));
    assert!(names_descriptor("a.desktop"));
    assert!(names_descriptor("org.gnome.Files.desktop"));
    assert!(names_descriptor("..desktop"));
    assert!(names_descriptor("é.desktop"));
}

#[test]
fn other_names_are_no_descriptors() {
    assert!(!names_descriptor(".desktop"));
    assert!(!names_descriptor("desktop"));
    assert!(!names_descriptor("firefox.desktop.bak"));
    assert!(!names_descriptor("firefox.Desktop"));
    assert!(!names_descriptor("firefoxdesktop"));
    assert!(!names_descriptor("firefox.desktop "));
    assert!(!names_descriptor(""));
    assert!(!names_descriptor("mimeinfo.cache"));
}

#[test]
fn descriptor_names_agree_with_std_extension() {
    for name in ["a.desktop", ".desktop", "..desktop", "x", "x.", "x.desktop.in", "a.b.desktop", "desktop.desktop"] {
        let expected = std::path::Path::new(name).extension().map_or(false, |e| e == "desktop");
        assert_eq!(names_descriptor(name), expected);
    }
}

#[test]
fn collect_keeps_regular_descriptor_files_in_order() {
    let listings = vec![Listing {
        dir: "/usr/share/applications".to_string(),
        items: vec![
            item("b.desktop", true),
            item("mimeinfo.cache", true),
            item("sub.desktop", false),
            item("a.desktop", true),
        ],
    }];
    assert_eq!(
        collect_desktop_files(&listings),
        vec!["/usr/share/applications/b.desktop", "/usr/share/applications/a.desktop"]
    );
}

#[test]
fn collect_puts_later_directories_after_earlier_ones() {
    let listings = vec![
        Listing { dir: "/one".to_string(), items: vec![item("z.desktop", true)] },
        Listing { dir: "/two".to_string(), items: vec![] },
        Listing { dir: "/three/".to_string(), items: vec![item("a.desktop", true), item("b.txt", true)] },
    ];
    assert_eq!(collect_desktop_files(&listings), vec!["/one/z.desktop", "/three/a.desktop"]);
}

#[test]
fn collect_keeps_a_name_that_occurs_twice() {
    let listings = vec![
        Listing { dir: "/one".to_string(), items: vec![item("same.desktop", true)] },
        Listing { dir: "/two".to_string(), items: vec![item("same.desktop", true)] },
    ];
    assert_eq!(collect_desktop_files(&listings), vec!["/one/same.desktop", "/two/same.desktop"]);
}

#[test]
fn collect_of_nothing_is_nothing() {
    assert_eq!(collect_desktop_files(&Vec::new()), Vec::<String>::new());
}
