//! What the program is asked to do.

use crate::apps::entry::EntryView;
use crate::apps::page::{catalogue_json, comma_joined, page_json, paged};
use crate::apps::text::{same_text, str_text};
use vstd::prelude::*;

verus! {

/// The tasks that the first argument of the command line chooses between.
#[derive(Debug, Clone, Copy, PartialEq, Eq, Structural)]
pub enum Subcommand {
    /// `app`: print the catalogue.
    Catalogue,
    /// `application`: look one fixed icon up and print where it is.
    IconProbe,
    /// Anything else, or no argument: print an empty catalogue.
    Unknown,
}

/// The task that an argument names.
pub open spec fn subcommand_of(arg: Option<Seq<char>>) -> Subcommand {
    if arg == Some("app"@) {
        Subcommand::Catalogue
    } else if arg == Some("application"@) {
        Subcommand::IconProbe
    } else {
        Subcommand::Unknown
    }
}

impl Subcommand {
    /// Reads the first argument of the command line.
    pub fn parse(arg: Option<&str>) -> (task: Subcommand)
        ensures
            task == subcommand_of(str_text(arg)),
    {
        match arg {
            Some(word) => {
                if same_text(word, "app") {
                    Subcommand::Catalogue
                } else if same_text(word, "application") {
                    Subcommand::IconProbe
                } else {
                    Subcommand::Unknown
                }
            },
            None => Subcommand::Unknown,
        }
    }
}

/// The reply to an unknown subcommand: the text `[]`, which is the catalogue
/// of no entries.
pub fn empty_reply() -> (text: String)
    ensures
        text@ == "[]"@,
        text@ == catalogue_json(Seq::empty()),
{
    proof {
        reveal_strlit("[]");
        reveal_strlit("[");
        reveal_strlit("]");
        let pages = paged(Seq::<EntryView>::empty());
        assert(pages =~= Seq::empty());
        let items = pages.map_values(|page: Seq<EntryView>| page_json(page));
        assert(items =~= Seq::empty());
        assert("["@ + comma_joined(items) + "]"@ =~= "[]"@);
    }
    String::from_str("[]")
}

} // verus!
