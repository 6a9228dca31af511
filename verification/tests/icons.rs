use app_service::apps::icon::{choose_path, find_answer, names_image, needs_search, resolve, Answer, IconError};
use app_service::apps::text::{has_suffix, same_text};
use freedesktop_icon_lookup::Cache;

fn answer(name: &str, path: &str) -> Answer {
    Answer { name: name.to_string(), path: path.to_string() }
}

#[test]
fn same_text_compares_every_character() {
    assert!(same_text("", ""));
    assert!(same_text("true", "true"));
    assert!(same_text("é日本", "é日本"));
    assert!(!same_text("true", "True"));
    assert!(!same_text("true", "tru"));
    assert!(!same_text("tru", "true"));
    assert!(!same_text("e\u{301}", "é"));
}

#[test]
fn suffix_is_found_at_the_end_only() {
    assert!(has_suffix("foo.png", ".png"));
    assert!(has_suffix(".png", ".png"));
    assert!(has_suffix("anything", ""));
    assert!(has_suffix("", ""));
    assert!(!has_suffix("png", ".png"));
    assert!(!has_suffix("foo.png.bak", ".png"));
    assert!(!has_suffix("foo.PNG", ".png"));
    assert!(!has_suffix("", ".png"));
    assert!(has_suffix("日本.png", ".png"));
}

#[test]
fn png_and_svg_name_images() {
    assert!(names_image("foo.png"));
    assert!(names_image("/usr/share/pixmaps/foo.svg"));
    assert!(names_image(".svg"));
    assert!(!names_image("foo"));
    assert!(!names_image("foo.xpm"));
    assert!(!names_image("foo.svgz"));
    assert!(!names_image("foo.PNG"));
    assert!(!names_image(""));
}

#[test]
fn image_paths_resolve_to_themselves() {
    let cache = Cache::new().unwrap();
    let answers = vec![answer("foo.png", "/elsewhere/foo.png"), answer("rel/bar.svg", "/elsewhere/bar.svg")];
    for theme in ["Adwaita", "hicolor", "", "No-Such-Theme-7f3a"] {
        for icon in ["foo.png", "rel/bar.svg", "/abs/baz.png", ".svg", "with space.png"] {
            assert_eq!(resolve(icon, theme, &cache, &answers, Some("/home/u")), Ok(icon.to_string()));
            assert_eq!(resolve(icon, theme, &cache, &Vec::new(), None), Ok(icon.to_string()));
            assert!(!needs_search(icon, theme, &cache));
        }
    }
}

#[test]
fn unknown_icon_needs_the_search() {
    let cache = Cache::new().unwrap();
    assert!(needs_search("zz-no-such-icon-41c9", "No-Such-Theme-7f3a", &cache));
}

#[test]
fn unknown_icon_takes_the_answer_of_the_search() {
    let cache = Cache::new().unwrap();
    let answers = vec![answer("other", "/o.png"), answer("zz-no-such-icon-41c9", "/found/here.xpm")];
    assert_eq!(
        resolve("zz-no-such-icon-41c9", "No-Such-Theme-7f3a", &cache, &answers, Some("/home/u")),
        Ok("/found/here.xpm".to_string())
    );
}

#[test]
fn unanswered_icon_gets_the_custom_path() {
    let cache = Cache::new().unwrap();
    let answers = vec![answer("other", "/o.png")];
    assert_eq!(
        resolve("zz-no-such-icon-41c9", "No-Such-Theme-7f3a", &cache, &answers, Some("/home/u")),
        Ok("/home/u/.local/share/icons/custom/zz-no-such-icon-41c9.svg".to_string())
    );
}

#[test]
fn unanswered_icon_without_home_has_no_path() {
    let cache = Cache::new().unwrap();
    assert_eq!(
        resolve("zz-no-such-icon-41c9", "No-Such-Theme-7f3a", &cache, &Vec::new(), None),
        Err(IconError::HomeUnset)
    );
}

#[test]
fn first_answer_for_a_name_wins() {
    let answers = vec![answer("a", "/1"), answer("b", "/2"), answer("a", "/3")];
    assert_eq!(find_answer(&answers, "a"), Some("/1"));
    assert_eq!(find_answer(&answers, "b"), Some("/2"));
    assert_eq!(find_answer(&answers, "c"), None);
    assert_eq!(find_answer(&Vec::new(), "a"), None);
}

#[test]
fn choice_goes_by_the_order_of_the_sources() {
    assert_eq!(choose_path("x.png", Some("/t"), Some("/s"), Some("/h")), Ok("x.png".to_string()));
    assert_eq!(choose_path("x", Some("/t"), Some("/s"), Some("/h")), Ok("/t".to_string()));
    assert_eq!(choose_path("x", None, Some("/s"), Some("/h")), Ok("/s".to_string()));
    assert_eq!(choose_path("x", None, None, Some("/h")), Ok("/h/.local/share/icons/custom/x.svg".to_string()));
    assert_eq!(choose_path("x", Some("/t"), None, None), Ok("/t".to_string()));
    assert_eq!(choose_path("x.svg", None, None, None), Ok("x.svg".to_string()));
}

#[test]
fn choice_fails_only_where_nothing_is_left() {
    assert_eq!(choose_path("x", None, None, None), Err(IconError::HomeUnset));
    assert_eq!(choose_path("", None, None, None), Err(IconError::HomeUnset));
}

#[test]
fn custom_path_is_put_together_letter_for_letter() {
    assert_eq!(choose_path("a b", None, None, Some("/home/ü")), Ok("/home/ü/.local/share/icons/custom/a b.svg".to_string()));
    assert_eq!(choose_path("x", None, None, Some("")), Ok("/.local/share/icons/custom/x.svg".to_string()));
    assert_eq!(choose_path("", None, None, Some("/h")), Ok("/h/.local/share/icons/custom/.svg".to_string()));
}

#[test]
fn theme_index_answers_before_the_search() {
    let mut cache = Cache::new().unwrap();
    let _ = cache.load("hicolor");
    let _ = cache.load("Adwaita");
    let answers = vec![
        answer("debian-logo", "/search/debian-logo.png"),
        answer("folder", "/search/folder.png"),
        answer("zz-no-such-icon-41c9", "/search/none.png"),
    ];
    for theme in ["hicolor", "Adwaita", "No-Such-Theme-7f3a"] {
        for icon in ["debian-logo", "folder", "zz-no-such-icon-41c9"] {
            let indexed = cache.lookup(icon, theme).map(|path| path.to_string_lossy().into_owned());
            assert_eq!(needs_search(icon, theme, &cache), indexed.is_none());
            let expected = indexed.unwrap_or(format!("/search/{}.png", if icon == "zz-no-such-icon-41c9" { "none" } else { icon }));
            assert_eq!(resolve(icon, theme, &cache, &answers, None), Ok(expected));
        }
    }
}
