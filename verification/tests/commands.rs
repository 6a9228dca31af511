use app_service::apps::command::{empty_reply, Subcommand};

#[test]
fn app_asks_for_the_catalogue() {
    assert_eq!(Subcommand::parse(Some("app")), Subcommand::Catalogue);
}

#[test]
fn application_asks_for_the_icon_probe() {
    assert_eq!(Subcommand::parse(Some("application")), Subcommand::IconProbe);
}

#[test]
fn unknown_subcommand_prints_empty_array() {
    assert_eq!(Subcommand::parse(Some("foo")), Subcommand::Unknown);
    assert_eq!(empty_reply(), "[]");
}

#[test]
fn near_misses_are_unknown() {
    for word in ["", "App", "app ", " app", "apps", "applicatio", "applications", "APPLICATION"] {
        assert_eq!(Subcommand::parse(Some(word)), Subcommand::Unknown);
    }
}

#[test]
fn no_argument_is_unknown() {
    assert_eq!(Subcommand::parse(None), Subcommand::Unknown);
}
