use app_service::apps::entry::Entry;
use app_service::apps::page::{catalogue, paginate, render_entry, render_page, render_pages, PAGE_SIZE};

fn numbered(count: usize) -> Vec<Entry> {
    let mut entries = Vec::new();
    for i in 0..count {
        entries.push(Entry::new(
            format!("cls{}", i),
            format!("name{}", i),
            format!("/icons/{}.svg", i),
            format!("run {}", i),
        ));
    }
    entries
}

fn sizes(count: usize) -> Vec<usize> {
    let entries = numbered(count);
    paginate(&entries).iter().map(|page| page.len()).collect()
}

#[test]
fn page_size_is_eight() {
    assert_eq!(PAGE_SIZE, 8);
}

#[test]
fn no_entries_fill_no_page() {
    assert_eq!(sizes(0), Vec::<usize>::new());
}

#[test]
fn seven_entries_fill_one_short_page() {
    assert_eq!(sizes(7), vec![7]);
}

#[test]
fn eight_entries_fill_one_page() {
    assert_eq!(sizes(8), vec![8]);
}

#[test]
fn nine_entries_fill_two_pages() {
    assert_eq!(sizes(9), vec![8, 1]);
}

#[test]
fn sixteen_entries_fill_two_pages() {
    assert_eq!(sizes(16), vec![8, 8]);
}

#[test]
fn seventeen_entries_fill_three_pages() {
    assert_eq!(sizes(17), vec![8, 8, 1]);
}

#[test]
fn one_entry_fills_one_page() {
    assert_eq!(sizes(1), vec![1]);
}

#[test]
fn pages_keep_every_entry_in_order() {
    for count in 0..40 {
        let entries = numbered(count);
        let pages = paginate(&entries);
        let flat: Vec<&Entry> = pages.iter().flat_map(|page| page.iter().copied()).collect();
        assert_eq!(flat.len(), count);
        for (i, entry) in flat.iter().enumerate() {
            assert_eq!(**entry, entries[i]);
        }
        assert_eq!(pages.len(), (count + 7) / 8);
        for (k, page) in pages.iter().enumerate() {
            assert!(page.len() >= 1 && page.len() <= 8);
            if k + 1 < pages.len() {
                assert_eq!(page.len(), 8);
            }
            for (j, entry) in page.iter().enumerate() {
                assert_eq!(**entry, entries[8 * k + j]);
            }
        }
    }
}

#[test]
fn entry_is_an_object_of_four_members_in_order() {
    let entry = Entry::new("Foo".to_string(), "Foo App".to_string(), "/i/foo.png".to_string(), "foo --run".to_string());
    assert_eq!(
        render_entry(&entry),
        "{\"cls\":\"Foo\",\"name\":\"Foo App\",\"icon\":\"/i/foo.png\",\"cmd\":\"foo --run\"}"
    );
}

#[test]
fn entry_texts_are_escaped_as_json() {
    let entry = Entry::new(
        String::new(),
        "Say \"hi\"".to_string(),
        "C:\\icons\\a.png".to_string(),
        "sh -c 'a\tb\nc'".to_string(),
    );
    assert_eq!(
        render_entry(&entry),
        "{\"cls\":\"\",\"name\":\"Say \\\"hi\\\"\",\"icon\":\"C:\\\\icons\\\\a.png\",\"cmd\":\"sh -c 'a\\tb\\nc'\"}"
    );
}

#[test]
fn entry_texts_keep_what_is_not_ascii() {
    let entry = Entry::new(String::new(), "Überblick 日本".to_string(), "a.svg".to_string(), "x".to_string());
    assert_eq!(
        render_entry(&entry),
        "{\"cls\":\"\",\"name\":\"Überblick 日本\",\"icon\":\"a.svg\",\"cmd\":\"x\"}"
    );
}

#[test]
fn rendered_entry_parses_back() {
    let entry = Entry::new("a\u{1}b".to_string(), "n\"\\/".to_string(), "i\u{7f}".to_string(), "c\r\n".to_string());
    let value: serde_json::Value = serde_json::from_str(&render_entry(&entry)).unwrap();
    let object = value.as_object().unwrap();
    assert_eq!(object.len(), 4);
    assert_eq!(object["cls"].as_str(), Some("a\u{1}b"));
    assert_eq!(object["name"].as_str(), Some("n\"\\/"));
    assert_eq!(object["icon"].as_str(), Some("i\u{7f}"));
    assert_eq!(object["cmd"].as_str(), Some("c\r\n"));
}

#[test]
fn empty_page_is_an_empty_array() {
    let page: Vec<&Entry> = Vec::new();
    assert_eq!(render_page(&page), "[]");
}

#[test]
fn page_separates_entries_by_commas() {
    let entries = numbered(2);
    let page: Vec<&Entry> = entries.iter().collect();
    assert_eq!(
        render_page(&page),
        "[{\"cls\":\"cls0\",\"name\":\"name0\",\"icon\":\"/icons/0.svg\",\"cmd\":\"run 0\"},\
         {\"cls\":\"cls1\",\"name\":\"name1\",\"icon\":\"/icons/1.svg\",\"cmd\":\"run 1\"}]"
    );
}

#[test]
fn no_pages_are_an_empty_array() {
    let pages: Vec<Vec<&Entry>> = Vec::new();
    assert_eq!(render_pages(&pages), "[]");
}

#[test]
fn catalogue_of_nothing_is_an_empty_array() {
    assert_eq!(catalogue(&Vec::new()), "[]");
}

#[test]
fn catalogue_of_one_entry() {
    let entries = vec![Entry::new(String::new(), "Foo".to_string(), "foo.svg".to_string(), "/bin/foo".to_string())];
    assert_eq!(
        catalogue(&entries),
        "[[{\"cls\":\"\",\"name\":\"Foo\",\"icon\":\"foo.svg\",\"cmd\":\"/bin/foo\"}]]"
    );
}

#[test]
fn catalogue_of_nine_entries_has_two_arrays() {
    let entries = numbered(9);
    let text = catalogue(&entries);
    let value: serde_json::Value = serde_json::from_str(&text).unwrap();
    let pages = value.as_array().unwrap();
    assert_eq!(pages.len(), 2);
    assert_eq!(pages[0].as_array().unwrap().len(), 8);
    assert_eq!(pages[1].as_array().unwrap().len(), 1);
    assert_eq!(pages[1][0]["name"].as_str(), Some("name8"));
    assert!(!text.contains(' ') || text.contains("run 0"));
    assert!(!text.contains('\n'));
}

#[test]
fn catalogue_is_the_rendering_of_its_pages() {
    for count in [0usize, 1, 8, 9, 17] {
        let entries = numbered(count);
        assert_eq!(catalogue(&entries), render_pages(&paginate(&entries)));
    }
}

#[test]
fn catalogue_is_the_same_each_time() {
    let entries = numbered(11);
    assert_eq!(catalogue(&entries), catalogue(&entries));
}
