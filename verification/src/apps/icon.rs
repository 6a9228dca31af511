//! Resolving an icon reference to the path of an image file.
//!
//! Four sources are tried in a fixed order, and the first that answers wins:
//! the reference itself where it already is the path of an image, the index
//! of the desktop theme, the answers of the generic icon search, and last a
//! path below the user's own icon directory.

use crate::apps::text::{ends_with, has_suffix, same_text, str_text};
use freedesktop_icon_lookup::Cache;
use vstd::prelude::*;

verus! {

/// The loaded theme index of `freedesktop_icon_lookup`. Its answers are
/// reached through [`themed_icons`] only.
#[verifier::external_type_specification]
#[verifier::external_body]
pub struct ExThemeCache(Cache);

/// What a theme index answers: for a theme name and an icon name, the path of
/// the image that a lookup finds, as text (what is no valid Unicode in it
/// replaced by U+FFFD). A pair that is no key is an icon that the lookup does
/// not find.
pub uninterp spec fn themed_icons(cache: Cache) -> Map<(Seq<char>, Seq<char>), Seq<char>>;

/// Calls `Cache::lookup` of `freedesktop_icon_lookup` for the icon `name` under
/// the theme `theme`, and turns the path that it finds into text. The lookup
/// reads the index in memory only, so it is the answer that [`themed_icons`]
/// names for this index.
#[verifier::external_body]
fn theme_lookup(cache: &Cache, name: &str, theme: &str) -> (found: Option<String>)
    ensures
        found is Some <==> themed_icons(*cache).contains_key((theme@, name@)),
        found matches Some(path) ==> path@ == themed_icons(*cache)[(theme@, name@)],
{
    cache.lookup(name, theme).map(|path| path.to_string_lossy().into_owned())
}

/// The image size that the generic icon search is asked for.
pub const SEARCH_SIZE: i32 = 256;

/// The scale factor that the generic icon search is asked for.
pub const SEARCH_SCALE: i32 = 1;

/// Why no icon path could be made.
#[derive(Debug, Clone, Copy, PartialEq, Eq, Structural)]
pub enum IconError {
    /// No source knows the icon, and without a home directory there is no
    /// place left to point to.
    HomeUnset,
}

/// One answer of the generic icon search: an icon name and the path found
/// for it.
#[derive(Debug, Clone, PartialEq, Eq)]
pub struct Answer {
    pub name: String,
    pub path: String,
}

impl View for Answer {
    type V = (Seq<char>, Seq<char>);

    open spec fn view(&self) -> (Seq<char>, Seq<char>) {
        (self.name@, self.path@)
    }
}

/// The views of a list of answers, in order.
pub open spec fn answers_view(answers: Seq<Answer>) -> Seq<(Seq<char>, Seq<char>)> {
    answers.map_values(|a: Answer| a@)
}

/// Whether an icon reference is taken as the path of an image as it stands.
pub open spec fn is_image_path(icon: Seq<char>) -> bool {
    ends_with(icon, ".png"@) || ends_with(icon, ".svg"@)
}

/// The path of the first answer for `icon`, if there is one.
pub open spec fn answered_path(
    answers: Seq<(Seq<char>, Seq<char>)>,
    icon: Seq<char>,
) -> Option<Seq<char>>
    decreases answers.len(),
{
    if answers.len() == 0 {
        None
    } else if answers[0].0 == icon {
        Some(answers[0].1)
    } else {
        answered_path(answers.drop_first(), icon)
    }
}

/// The last resort: a file named after the icon in the user's own icon
/// directory.
pub open spec fn custom_path(home: Seq<char>, icon: Seq<char>) -> Seq<char> {
    home + "/.local/share/icons/custom/"@ + icon + ".svg"@
}

/// The path for `icon`, given what the theme index and the generic search
/// answered for it: the reference itself where it is the path of an image,
/// else the theme's answer, else the search's, else the custom path below
/// `home`. Only where none of the first three applies and there is no home
/// directory is there no path.
pub open spec fn chosen_path(
    icon: Seq<char>,
    themed: Option<Seq<char>>,
    searched: Option<Seq<char>>,
    home: Option<Seq<char>>,
) -> Result<Seq<char>, IconError> {
    if is_image_path(icon) {
        Ok(icon)
    } else if let Some(path) = themed {
        Ok(path)
    } else if let Some(path) = searched {
        Ok(path)
    } else if let Some(dir) = home {
        Ok(custom_path(dir, icon))
    } else {
        Err(IconError::HomeUnset)
    }
}

/// What a theme index answers for `icon` under `theme`.
pub open spec fn themed_path(
    icons: Map<(Seq<char>, Seq<char>), Seq<char>>,
    theme: Seq<char>,
    icon: Seq<char>,
) -> Option<Seq<char>> {
    if icons.contains_key((theme, icon)) {
        Some(icons[(theme, icon)])
    } else {
        None
    }
}

/// Whether the first two sources leave `icon` open, so that the generic
/// search has to be asked for it.
pub open spec fn wants_search(
    icon: Seq<char>,
    theme: Seq<char>,
    icons: Map<(Seq<char>, Seq<char>), Seq<char>>,
) -> bool {
    !is_image_path(icon) && themed_path(icons, theme, icon) is None
}

/// The path that `icon` resolves to under `theme`, with the theme index
/// `icons` and the answers of the generic search.
pub open spec fn resolved_path(
    icon: Seq<char>,
    theme: Seq<char>,
    icons: Map<(Seq<char>, Seq<char>), Seq<char>>,
    answers: Seq<(Seq<char>, Seq<char>)>,
    home: Option<Seq<char>>,
) -> Result<Seq<char>, IconError> {
    chosen_path(icon, themed_path(icons, theme, icon), answered_path(answers, icon), home)
}

/// An icon reference that ends in `.png` or `.svg` resolves to itself, under
/// every theme and whatever the other sources hold.
pub proof fn lemma_image_path_stands(
    icon: Seq<char>,
    theme: Seq<char>,
    icons: Map<(Seq<char>, Seq<char>), Seq<char>>,
    answers: Seq<(Seq<char>, Seq<char>)>,
    home: Option<Seq<char>>,
)
    requires
        ends_with(icon, ".png"@) || ends_with(icon, ".svg"@),
    ensures
        resolved_path(icon, theme, icons, answers, home) == Ok::<Seq<char>, IconError>(icon),
{
}

/// Resolution fails only where no source answers and there is no home
/// directory; with one, there is always a path.
pub proof fn lemma_resolution_fails_only_without_home(
    icon: Seq<char>,
    theme: Seq<char>,
    icons: Map<(Seq<char>, Seq<char>), Seq<char>>,
    answers: Seq<(Seq<char>, Seq<char>)>,
    home: Option<Seq<char>>,
)
    ensures
        resolved_path(icon, theme, icons, answers, home) is Err <==> home is None
            && !is_image_path(icon) && themed_path(icons, theme, icon) is None
            && answered_path(answers, icon) is None,
{
}

/// The text of a resolution's outcome.
pub open spec fn path_text(outcome: Result<String, IconError>) -> Result<Seq<char>, IconError> {
    match outcome {
        Ok(path) => Ok(path@),
        Err(e) => Err(e),
    }
}

/// Tells whether an icon reference is taken as the path of an image.
pub fn names_image(icon: &str) -> (literal: bool)
    ensures
        literal == is_image_path(icon@),
{
    has_suffix(icon, ".png") || has_suffix(icon, ".svg")
}

/// Finds the first answer for `icon`.
pub fn find_answer<'a>(answers: &'a Vec<Answer>, icon: &str) -> (found: Option<&'a str>)
    ensures
        str_text(found) == answered_path(answers_view(answers@), icon@),
{
    let mut i: usize = 0;
    assert(answers_view(answers@).skip(0) =~= answers_view(answers@));
    while i < answers.len()
        invariant
            i <= answers.len(),
            answered_path(answers_view(answers@), icon@) == answered_path(
                answers_view(answers@).skip(i as int),
                icon@,
            ),
        decreases answers.len() - i,
    {
        let ghost rest = answers_view(answers@).skip(i as int);
        assert(rest[0] == answers@[i as int]@);
        assert(rest.drop_first() =~= answers_view(answers@).skip(i + 1));
        if same_text(answers[i].name.as_str(), icon) {
            return Some(answers[i].path.as_str());
        }
        i = i + 1;
    }
    None
}

/// Picks the path for `icon` from what the sources answered: `themed` is the
/// theme index's answer, `searched` the generic search's, `home` the user's
/// home directory where it is known.
pub fn choose_path(
    icon: &str,
    themed: Option<&str>,
    searched: Option<&str>,
    home: Option<&str>,
) -> (chosen: Result<String, IconError>)
    ensures
        path_text(chosen) == chosen_path(icon@, str_text(themed), str_text(searched), str_text(home)),
        is_image_path(icon@) ==> (chosen matches Ok(path) && path@ == icon@),
        chosen is Err <==> !is_image_path(icon@) && themed is None && searched is None && home is None,
{
    if names_image(icon) {
        return Ok(String::from_str(icon));
    }
    if let Some(path) = themed {
        return Ok(String::from_str(path));
    }
    if let Some(path) = searched {
        return Ok(String::from_str(path));
    }
    match home {
        Some(dir) => {
            let mut path = String::from_str(dir);
            path.append("/.local/share/icons/custom/");
            path.append(icon);
            path.append(".svg");
            Ok(path)
        },
        None => Err(IconError::HomeUnset),
    }
}

/// Tells whether the generic search has to be asked for `icon`: it is neither
/// the path of an image nor known to the theme index.
pub fn needs_search(icon: &str, theme: &str, cache: &Cache) -> (wanted: bool)
    ensures
        wanted == wants_search(icon@, theme@, themed_icons(*cache)),
{
    if names_image(icon) {
        false
    } else {
        theme_lookup(cache, icon, theme).is_none()
    }
}

/// Resolves `icon` under `theme`. The theme index is asked only where the
/// reference is not the path of an image already.
pub fn resolve(
    icon: &str,
    theme: &str,
    cache: &Cache,
    answers: &Vec<Answer>,
    home: Option<&str>,
) -> (resolved: Result<String, IconError>)
    ensures
        path_text(resolved) == resolved_path(
            icon@,
            theme@,
            themed_icons(*cache),
            answers_view(answers@),
            str_text(home),
        ),
        is_image_path(icon@) ==> (resolved matches Ok(path) && path@ == icon@),
{
    if names_image(icon) {
        return Ok(String::from_str(icon));
    }
    let themed = theme_lookup(cache, icon, theme);
    let searched = find_answer(answers, icon);
    match themed {
        Some(path) => choose_path(icon, Some(path.as_str()), searched, home),
        None => choose_path(icon, None, searched, home),
    }
}

} // verus!
