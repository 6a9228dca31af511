//! The display entry of one application.

use crate::apps::descriptor::{descriptor_views, Descriptor, DescriptorView};
use crate::apps::icon::{
    answered_path, answers_view, needs_search, resolve, resolved_path, themed_icons, wants_search,
    Answer, IconError,
};
use crate::apps::text::{same_text, str_text, texts};
use freedesktop_icon_lookup::Cache;
use vstd::prelude::*;

verus! {

/// One launchable application as the launcher grid shows it.
#[derive(Debug, Clone, PartialEq, Eq)]
pub struct Entry {
    /// Window-class hint; empty where the descriptor gives none.
    pub cls: String,
    /// Human-readable name.
    pub name: String,
    /// Path of the icon image.
    pub icon: String,
    /// Shell command that starts the application.
    pub cmd: String,
}

/// The four texts of an entry.
pub struct EntryView {
    pub cls: Seq<char>,
    pub name: Seq<char>,
    pub icon: Seq<char>,
    pub cmd: Seq<char>,
}

impl View for Entry {
    type V = EntryView;

    open spec fn view(&self) -> EntryView {
        EntryView { cls: self.cls@, name: self.name@, icon: self.icon@, cmd: self.cmd@ }
    }
}

impl Entry {
    /// Builds an entry from its four texts, each kept as given.
    pub fn new(cls: String, name: String, icon: String, cmd: String) -> (entry: Self)
        ensures
            entry.cls == cls,
            entry.name == name,
            entry.icon == icon,
            entry.cmd == cmd,
            entry@ == (EntryView { cls: cls@, name: name@, icon: icon@, cmd: cmd@ }),
    {
        Self { cls, name, icon, cmd }
    }
}

/// Whether a descriptor asks not to be shown.
pub open spec fn is_hidden(d: DescriptorView) -> bool {
    d.no_display == Some("true"@)
}

/// Whether a descriptor names all that an entry needs: a name, an icon and a
/// command.
pub open spec fn is_complete(d: DescriptorView) -> bool {
    d.name is Some && d.icon is Some && d.command is Some
}

/// Whether a descriptor gives an entry at all.
pub open spec fn contributes(d: DescriptorView) -> bool {
    !is_hidden(d) && is_complete(d)
}

/// The command of an entry: the descriptor's own, behind the terminal
/// emulator where the descriptor asks for a terminal.
pub open spec fn command_line(command: Seq<char>, terminal: Option<Seq<char>>) -> Seq<char> {
    if terminal == Some("true"@) {
        "kitty "@ + command
    } else {
        command
    }
}

/// The window-class hint of an entry: the descriptor's, or the empty text.
pub open spec fn class_hint(class: Option<Seq<char>>) -> Seq<char> {
    match class {
        Some(c) => c,
        None => Seq::empty(),
    }
}

/// The entry that a contributing descriptor gives once its icon has the path
/// `icon_path`.
pub open spec fn assembled(d: DescriptorView, icon_path: Seq<char>) -> EntryView
    recommends
        contributes(d),
{
    EntryView {
        cls: class_hint(d.startup_wm_class),
        name: d.name.unwrap(),
        icon: icon_path,
        cmd: command_line(d.command.unwrap(), d.terminal),
    }
}

/// What one descriptor gives: no entry where it does not contribute, else its
/// entry with the icon resolved, or the resolver's error.
pub open spec fn entry_of(
    d: DescriptorView,
    theme: Seq<char>,
    icons: Map<(Seq<char>, Seq<char>), Seq<char>>,
    answers: Seq<(Seq<char>, Seq<char>)>,
    home: Option<Seq<char>>,
) -> Result<Option<EntryView>, IconError> {
    if !contributes(d) {
        Ok(None)
    } else {
        match resolved_path(d.icon.unwrap(), theme, icons, answers, home) {
            Ok(path) => Ok(Some(assembled(d, path))),
            Err(e) => Err(e),
        }
    }
}

/// A descriptor whose `NoDisplay` is `true` gives no entry, whatever its
/// other attributes hold and whatever the icon sources answer.
pub proof fn lemma_hidden_gives_no_entry(
    d: DescriptorView,
    theme: Seq<char>,
    icons: Map<(Seq<char>, Seq<char>), Seq<char>>,
    answers: Seq<(Seq<char>, Seq<char>)>,
    home: Option<Seq<char>>,
)
    requires
        d.no_display == Some("true"@),
    ensures
        entry_of(d, theme, icons, answers, home) == Ok::<Option<EntryView>, IconError>(None),
{
}

/// A descriptor that lacks its name, its icon or its command gives no entry.
pub proof fn lemma_incomplete_gives_no_entry(
    d: DescriptorView,
    theme: Seq<char>,
    icons: Map<(Seq<char>, Seq<char>), Seq<char>>,
    answers: Seq<(Seq<char>, Seq<char>)>,
    home: Option<Seq<char>>,
)
    requires
        d.name is None || d.icon is None || d.command is None,
    ensures
        entry_of(d, theme, icons, answers, home) == Ok::<Option<EntryView>, IconError>(None),
{
}

/// Where a descriptor asks for a terminal, the command of its entry is the
/// terminal emulator's name, a space, and the descriptor's own command.
pub proof fn lemma_terminal_goes_first(
    d: DescriptorView,
    theme: Seq<char>,
    icons: Map<(Seq<char>, Seq<char>), Seq<char>>,
    answers: Seq<(Seq<char>, Seq<char>)>,
    home: Option<Seq<char>>,
)
    requires
        d.terminal == Some("true"@),
        entry_of(d, theme, icons, answers, home) matches Ok(Some(_)),
    ensures
        d.command is Some,
        entry_of(d, theme, icons, answers, home).unwrap().unwrap().cmd == "kitty "@
            + d.command.unwrap(),
        entry_of(d, theme, icons, answers, home).unwrap().unwrap().cmd.take(6) == "kitty "@,
        entry_of(d, theme, icons, answers, home).unwrap().unwrap().cmd.skip(6)
            == d.command.unwrap(),
{
    reveal_strlit("kitty ");
    let cmd = "kitty "@ + d.command.unwrap();
    assert(cmd.take(6) =~= "kitty "@);
    assert(cmd.skip(6) =~= d.command.unwrap());
}

/// Without the request for a terminal the command is the descriptor's own,
/// letter for letter.
pub proof fn lemma_command_kept(
    d: DescriptorView,
    theme: Seq<char>,
    icons: Map<(Seq<char>, Seq<char>), Seq<char>>,
    answers: Seq<(Seq<char>, Seq<char>)>,
    home: Option<Seq<char>>,
)
    requires
        d.terminal != Some("true"@),
        entry_of(d, theme, icons, answers, home) matches Ok(Some(_)),
    ensures
        d.command is Some,
        entry_of(d, theme, icons, answers, home).unwrap().unwrap().cmd == d.command.unwrap(),
{
}

/// The view of an optional entry.
pub open spec fn entry_text(entry: Option<Entry>) -> Option<EntryView> {
    match entry {
        Some(e) => Some(e@),
        None => None,
    }
}

/// The view of what one descriptor gave.
pub open spec fn outcome_text(
    outcome: Result<Option<Entry>, IconError>,
) -> Result<Option<EntryView>, IconError> {
    match outcome {
        Ok(entry) => Ok(entry_text(entry)),
        Err(e) => Err(e),
    }
}

impl Descriptor {
    /// Tells whether the descriptor asks not to be shown: its `NoDisplay` is
    /// the text `true`.
    pub fn hidden(&self) -> (hidden: bool)
        ensures
            hidden == is_hidden(self@),
    {
        match &self.no_display {
            Some(flag) => same_text(flag.as_str(), "true"),
            None => false,
        }
    }

    /// The icon reference that has to be resolved: the descriptor's `Icon`
    /// where the descriptor gives an entry, nothing where it gives none.
    pub fn icon_reference(&self) -> (icon: Option<&str>)
        ensures
            contributes(self@) ==> str_text(icon) == self@.icon,
            !contributes(self@) ==> icon is None,
    {
        if self.hidden() || self.name.is_none() || self.command.is_none() {
            return None;
        }
        match &self.icon {
            Some(icon) => Some(icon.as_str()),
            None => None,
        }
    }
}

impl Entry {
    /// Assembles the entry of a descriptor whose icon has been resolved to
    /// `icon_path`. A descriptor that is hidden, or lacks a name, an icon or a
    /// command, gives none.
    pub fn assemble(descriptor: &Descriptor, icon_path: String) -> (entry: Option<Entry>)
        ensures
            entry is Some <==> contributes(descriptor@),
            entry matches Some(e) ==> e@ == assembled(descriptor@, icon_path@),
    {
        if descriptor.hidden() || descriptor.icon.is_none() {
            return None;
        }
        match (&descriptor.name, &descriptor.command) {
            (Some(name), Some(command)) => {
                let cls = match &descriptor.startup_wm_class {
                    Some(class) => class.clone(),
                    None => String::new(),
                };
                let wants_terminal = match &descriptor.terminal {
                    Some(flag) => same_text(flag.as_str(), "true"),
                    None => false,
                };
                let cmd = if wants_terminal {
                    String::from_str("kitty ").concat(command.as_str())
                } else {
                    command.clone()
                };
                Some(Entry::new(cls, name.clone(), icon_path, cmd))
            },
            _ => None,
        }
    }

    /// Turns one descriptor into its entry: resolves the icon where the
    /// descriptor contributes, and assembles the entry around it.
    pub fn from_descriptor(
        descriptor: &Descriptor,
        theme: &str,
        cache: &Cache,
        answers: &Vec<Answer>,
        home: Option<&str>,
    ) -> (outcome: Result<Option<Entry>, IconError>)
        ensures
            outcome_text(outcome) == entry_of(
                descriptor@,
                theme@,
                themed_icons(*cache),
                answers_view(answers@),
                str_text(home),
            ),
            !contributes(descriptor@) ==> outcome == Ok::<Option<Entry>, IconError>(None),
    {
        match descriptor.icon_reference() {
            None => Ok(None),
            Some(icon) => match resolve(icon, theme, cache, answers, home) {
                Ok(path) => Ok(Entry::assemble(descriptor, path)),
                Err(e) => Err(e),
            },
        }
    }
}

/// The views of a list of entries, in order.
pub open spec fn entry_views(entries: Seq<Entry>) -> Seq<EntryView> {
    entries.map_values(|e: Entry| e@)
}

/// The entries that a list of descriptors gives, in the descriptors' order:
/// one for each descriptor that contributes. The first icon that cannot be
/// resolved fails the whole list.
pub open spec fn transformed(
    descriptors: Seq<DescriptorView>,
    theme: Seq<char>,
    icons: Map<(Seq<char>, Seq<char>), Seq<char>>,
    answers: Seq<(Seq<char>, Seq<char>)>,
    home: Option<Seq<char>>,
) -> Result<Seq<EntryView>, IconError>
    decreases descriptors.len(),
{
    if descriptors.len() == 0 {
        Ok(Seq::empty())
    } else {
        match transformed(descriptors.drop_last(), theme, icons, answers, home) {
            Err(e) => Err(e),
            Ok(entries) => match entry_of(descriptors.last(), theme, icons, answers, home) {
                Err(e) => Err(e),
                Ok(None) => Ok(entries),
                Ok(Some(entry)) => Ok(entries.push(entry)),
            },
        }
    }
}

/// The view of a transformation's outcome.
pub open spec fn entries_text(
    outcome: Result<Vec<Entry>, IconError>,
) -> Result<Seq<EntryView>, IconError> {
    match outcome {
        Ok(entries) => Ok(entry_views(entries@)),
        Err(e) => Err(e),
    }
}

/// A descriptor that gives no entry leaves the list's entries as they are.
pub proof fn lemma_silent_descriptor_adds_nothing(
    descriptors: Seq<DescriptorView>,
    d: DescriptorView,
    theme: Seq<char>,
    icons: Map<(Seq<char>, Seq<char>), Seq<char>>,
    answers: Seq<(Seq<char>, Seq<char>)>,
    home: Option<Seq<char>>,
)
    requires
        !contributes(d),
    ensures
        transformed(descriptors.push(d), theme, icons, answers, home) == transformed(
            descriptors,
            theme,
            icons,
            answers,
            home,
        ),
{
    assert(descriptors.push(d).drop_last() =~= descriptors);
}

/// With a home directory every icon has a path, so the list has its entries:
/// at most one for each descriptor.
pub proof fn lemma_home_suffices(
    descriptors: Seq<DescriptorView>,
    theme: Seq<char>,
    icons: Map<(Seq<char>, Seq<char>), Seq<char>>,
    answers: Seq<(Seq<char>, Seq<char>)>,
    home: Option<Seq<char>>,
)
    requires
        home is Some,
    ensures
        transformed(descriptors, theme, icons, answers, home) is Ok,
        transformed(descriptors, theme, icons, answers, home).unwrap().len() <= descriptors.len(),
    decreases descriptors.len(),
{
    if descriptors.len() > 0 {
        lemma_home_suffices(descriptors.drop_last(), theme, icons, answers, home);
    }
}

/// A failure among the first descriptors is the failure of the whole list.
proof fn lemma_failure_stays(
    descriptors: Seq<DescriptorView>,
    count: int,
    theme: Seq<char>,
    icons: Map<(Seq<char>, Seq<char>), Seq<char>>,
    answers: Seq<(Seq<char>, Seq<char>)>,
    home: Option<Seq<char>>,
)
    requires
        0 <= count <= descriptors.len(),
        transformed(descriptors.take(count), theme, icons, answers, home) is Err,
    ensures
        transformed(descriptors, theme, icons, answers, home) == transformed(
            descriptors.take(count),
            theme,
            icons,
            answers,
            home,
        ),
    decreases descriptors.len() - count,
{
    if count == descriptors.len() {
        assert(descriptors.take(count) =~= descriptors);
    } else {
        assert(descriptors.take(count + 1).drop_last() =~= descriptors.take(count));
        lemma_failure_stays(descriptors, count + 1, theme, icons, answers, home);
    }
}

/// Turns the descriptors into the catalogue's entries, in the descriptors'
/// order. `answers` holds what the generic icon search found for the icons
/// that [`search_queries`] names; an icon without an answer counts as not
/// found there.
pub fn transform_entry(
    descriptors: &Vec<Descriptor>,
    theme: &str,
    cache: &Cache,
    answers: &Vec<Answer>,
    home: Option<&str>,
) -> (outcome: Result<Vec<Entry>, IconError>)
    ensures
        entries_text(outcome) == transformed(
            descriptor_views(descriptors@),
            theme@,
            themed_icons(*cache),
            answers_view(answers@),
            str_text(home),
        ),
{
    let ghost all = descriptor_views(descriptors@);
    let ghost icons = themed_icons(*cache);
    let ghost found = answers_view(answers@);
    let mut entries: Vec<Entry> = Vec::new();
    let mut i: usize = 0;
    assert(entry_views(entries@) =~= Seq::empty());
    while i < descriptors.len()
        invariant
            i <= descriptors.len(),
            all == descriptor_views(descriptors@),
            icons == themed_icons(*cache),
            found == answers_view(answers@),
            transformed(all.take(i as int), theme@, icons, found, str_text(home)) == Ok::<
                Seq<EntryView>,
                IconError,
            >(entry_views(entries@)),
        decreases descriptors.len() - i,
    {
        proof {
            assert(all.take(i + 1).drop_last() =~= all.take(i as int));
            assert(all.take(i + 1).last() == descriptors@[i as int]@);
        }
        match Entry::from_descriptor(&descriptors[i], theme, cache, answers, home) {
            Err(e) => {
                proof {
                    lemma_failure_stays(all, i + 1, theme@, icons, found, str_text(home));
                }
                return Err(e);
            },
            Ok(None) => {},
            Ok(Some(entry)) => {
                let ghost before = entries@;
                entries.push(entry);
                assert(entry_views(entries@) =~= entry_views(before).push(entry@));
            },
        }
        i = i + 1;
    }
    assert(all.take(i as int) =~= all);
    Ok(entries)
}

/// The icon names that the generic search has to be asked for, in the
/// descriptors' order: the icon of each contributing descriptor that is
/// neither the path of an image nor known to the theme index. A name stands
/// once for each descriptor that asks for it.
pub open spec fn queries(
    descriptors: Seq<DescriptorView>,
    theme: Seq<char>,
    icons: Map<(Seq<char>, Seq<char>), Seq<char>>,
) -> Seq<Seq<char>>
    decreases descriptors.len(),
{
    if descriptors.len() == 0 {
        Seq::empty()
    } else {
        let earlier = queries(descriptors.drop_last(), theme, icons);
        let d = descriptors.last();
        if contributes(d) && wants_search(d.icon.unwrap(), theme, icons) {
            earlier.push(d.icon.unwrap())
        } else {
            earlier
        }
    }
}

/// The answers count only for the icons that are asked about: two lists of
/// answers that say the same of every queried name give the same entries.
pub proof fn lemma_answers_count_for_queries_only(
    descriptors: Seq<DescriptorView>,
    theme: Seq<char>,
    icons: Map<(Seq<char>, Seq<char>), Seq<char>>,
    first: Seq<(Seq<char>, Seq<char>)>,
    second: Seq<(Seq<char>, Seq<char>)>,
    home: Option<Seq<char>>,
)
    requires
        forall|k: int|
            0 <= k < queries(descriptors, theme, icons).len() ==> answered_path(
                first,
                #[trigger] queries(descriptors, theme, icons)[k],
            ) == answered_path(second, queries(descriptors, theme, icons)[k]),
    ensures
        transformed(descriptors, theme, icons, first, home) == transformed(
            descriptors,
            theme,
            icons,
            second,
            home,
        ),
    decreases descriptors.len(),
{
    if descriptors.len() > 0 {
        let asked = queries(descriptors, theme, icons);
        let earlier = queries(descriptors.drop_last(), theme, icons);
        let d = descriptors.last();
        assert forall|k: int| 0 <= k < earlier.len() implies answered_path(
            first,
            #[trigger] earlier[k],
        ) == answered_path(second, earlier[k]) by {
            assert(earlier[k] == asked[k]);
        }
        lemma_answers_count_for_queries_only(
            descriptors.drop_last(),
            theme,
            icons,
            first,
            second,
            home,
        );
        if contributes(d) && wants_search(d.icon.unwrap(), theme, icons) {
            assert(asked[asked.len() - 1] == d.icon.unwrap());
        }
    }
}

/// Lists the icon names that the generic search has to be asked for before
/// [`transform_entry`] can place every icon.
pub fn search_queries(
    descriptors: &Vec<Descriptor>,
    theme: &str,
    cache: &Cache,
) -> (names: Vec<String>)
    ensures
        texts(names@) == queries(descriptor_views(descriptors@), theme@, themed_icons(*cache)),
{
    let ghost all = descriptor_views(descriptors@);
    let mut names: Vec<String> = Vec::new();
    let mut i: usize = 0;
    assert(texts(names@) =~= Seq::empty());
    while i < descriptors.len()
        invariant
            i <= descriptors.len(),
            all == descriptor_views(descriptors@),
            texts(names@) == queries(all.take(i as int), theme@, themed_icons(*cache)),
        decreases descriptors.len() - i,
    {
        proof {
            assert(all.take(i + 1).drop_last() =~= all.take(i as int));
            assert(all.take(i + 1).last() == descriptors@[i as int]@);
        }
        if let Some(icon) = descriptors[i].icon_reference() {
            if needs_search(icon, theme, cache) {
                let ghost before = names@;
                names.push(String::from_str(icon));
                assert(texts(names@) =~= texts(before).push(icon@));
            }
        }
        i = i + 1;
    }
    assert(all.take(i as int) =~= all);
    names
}

} // verus!
