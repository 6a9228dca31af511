//! Where application descriptors live: the `applications` directory below
//! each data directory of the desktop.

use crate::apps::text::{str_text, text_of, texts};
use vstd::prelude::*;

verus! {

/// The number of characters of `s` before its first `sep`: all of them where
/// it holds none.
pub open spec fn run_length(s: Seq<char>, sep: char) -> nat
    decreases s.len(),
{
    if s.len() == 0 || s[0] == sep {
        0
    } else {
        1 + run_length(s.drop_first(), sep)
    }
}

/// The pieces of `s` between its separators, in order. There is one piece
/// more than there are separators, so the empty text has one empty piece,
/// and two separators side by side have an empty piece between them.
pub open spec fn split_at(s: Seq<char>, sep: char) -> Seq<Seq<char>>
    decreases s.len(),
{
    let run = run_length(s, sep);
    if run >= s.len() {
        seq![s]
    } else {
        seq![s.take(run as int)] + split_at(s.skip(run as int + 1), sep)
    }
}

/// A run ends at the text's end or at a separator, and holds none.
pub proof fn lemma_run_length(s: Seq<char>, sep: char)
    ensures
        run_length(s, sep) <= s.len(),
        run_length(s, sep) < s.len() ==> s[run_length(s, sep) as int] == sep,
        forall|i: int| 0 <= i < run_length(s, sep) ==> s[i] != sep,
    decreases s.len(),
{
    if s.len() != 0 && s[0] != sep {
        let rest = s.drop_first();
        lemma_run_length(rest, sep);
        assert forall|i: int| 0 <= i < run_length(s, sep) implies s[i] != sep by {
            if i > 0 {
                assert(s[i] == rest[i - 1]);
            }
        }
    }
}

/// A stretch without a separator that ends at one, or at the text's end, is
/// the run.
proof fn lemma_run_found(s: Seq<char>, sep: char, end: int)
    requires
        0 <= end <= s.len(),
        forall|i: int| 0 <= i < end ==> s[i] != sep,
        end < s.len() ==> s[end] == sep,
    ensures
        run_length(s, sep) == end,
    decreases s.len(),
{
    if end > 0 {
        let rest = s.drop_first();
        assert forall|i: int| 0 <= i < end - 1 implies rest[i] != sep by {
            assert(rest[i] == s[i + 1]);
        }
        lemma_run_found(rest, sep, end - 1);
    }
}

/// A text has at least one piece, however many separators it holds.
pub proof fn lemma_split_has_a_piece(s: Seq<char>, sep: char)
    ensures
        split_at(s, sep).len() >= 1,
{
}

/// The pieces with a separator between each two.
pub open spec fn rejoined(pieces: Seq<Seq<char>>, sep: char) -> Seq<char>
    decreases pieces.len(),
{
    if pieces.len() == 0 {
        Seq::empty()
    } else if pieces.len() == 1 {
        pieces[0]
    } else {
        pieces[0].push(sep) + rejoined(pieces.drop_first(), sep)
    }
}

/// Cutting loses nothing: no piece holds a separator, and the pieces with
/// the separator put back between them are the text that was cut.
pub proof fn lemma_split_rejoins(s: Seq<char>, sep: char)
    ensures
        rejoined(split_at(s, sep), sep) == s,
        forall|k: int, i: int|
            0 <= k < split_at(s, sep).len() && 0 <= i < split_at(s, sep)[k].len() ==> split_at(
                s,
                sep,
            )[k][i] != sep,
    decreases s.len(),
{
    let run = run_length(s, sep) as int;
    lemma_run_length(s, sep);
    if run < s.len() {
        let rest = s.skip(run + 1);
        let pieces = split_at(s, sep);
        lemma_split_rejoins(rest, sep);
        lemma_split_has_a_piece(rest, sep);
        assert(pieces.drop_first() =~= split_at(rest, sep));
        assert(s.take(run).push(sep) + rest =~= s);
        assert forall|k: int, i: int|
            0 <= k < pieces.len() && 0 <= i < pieces[k].len() implies pieces[k][i] != sep by {
            if k > 0 {
                assert(pieces[k] == split_at(rest, sep)[k - 1]);
            }
        }
    }
}

/// Cuts a list of paths at its colons.
pub fn split_paths(list: &str) -> (pieces: Vec<String>)
    ensures
        texts(pieces@) == split_at(list@, ':'),
{
    let n: usize = list.unicode_len();
    let mut pieces: Vec<String> = Vec::new();
    let mut start: usize = 0;
    let mut i: usize = 0;
    assert(list@.skip(0) =~= list@);
    assert(texts(pieces@) =~= Seq::empty());
    while i < n
        invariant
            n == list@.len(),
            start <= i <= n,
            forall|k: int| start <= k < i ==> list@[k] != ':',
            split_at(list@, ':') == texts(pieces@) + split_at(list@.skip(start as int), ':'),
        decreases n - i,
    {
        if list.get_char(i) == ':' {
            let ghost rest = list@.skip(start as int);
            let ghost before = pieces@;
            proof {
                assert forall|k: int| 0 <= k < i - start implies rest[k] != ':' by {
                    assert(rest[k] == list@[start + k]);
                }
                lemma_run_found(rest, ':', i - start);
                assert(rest.take(i - start) =~= list@.subrange(start as int, i as int));
                assert(rest.skip(i - start + 1) =~= list@.skip(i + 1));
            }
            pieces.push(String::from_str(list.substring_char(start, i)));
            assert(texts(pieces@) =~= texts(before).push(list@.subrange(start as int, i as int)));
            start = i + 1;
        }
        i = i + 1;
    }
    let ghost rest = list@.skip(start as int);
    let ghost before = pieces@;
    proof {
        assert forall|k: int| 0 <= k < n - start implies rest[k] != ':' by {
            assert(rest[k] == list@[start + k]);
        }
        lemma_run_found(rest, ':', n - start);
        assert(rest =~= list@.subrange(start as int, n as int));
    }
    pieces.push(String::from_str(list.substring_char(start, n)));
    assert(texts(pieces@) =~= texts(before).push(list@.subrange(start as int, n as int)));
    pieces
}

/// A directory's path with the relative path `name` appended: a slash goes
/// between the two unless the directory's path is empty or ends in one.
pub open spec fn joined_path(dir: Seq<char>, name: Seq<char>) -> Seq<char> {
    if dir.len() == 0 || dir.last() == '/' {
        dir + name
    } else {
        dir.push('/') + name
    }
}

/// The data directories of the system: those that the list names, or the two
/// usual ones where there is no list.
pub open spec fn system_dirs(list: Option<Seq<char>>) -> Seq<Seq<char>> {
    match list {
        Some(paths) => split_at(paths, ':'),
        None => seq!["/usr/local/share"@, "/usr/share"@],
    }
}

/// The user's own data directory: the one that is set, else `.local/share`
/// below the home directory, else none.
pub open spec fn user_dir(
    data_home: Option<Seq<char>>,
    home: Option<Seq<char>>,
) -> Option<Seq<char>> {
    match data_home {
        Some(dir) => Some(dir),
        None => match home {
            Some(dir) => Some(dir + "/.local/share"@),
            None => None,
        },
    }
}

/// All data directories in the order in which they are searched: the system's
/// first, the user's own last.
pub open spec fn data_dirs(
    list: Option<Seq<char>>,
    data_home: Option<Seq<char>>,
    home: Option<Seq<char>>,
) -> Seq<Seq<char>> {
    match user_dir(data_home, home) {
        Some(dir) => system_dirs(list).push(dir),
        None => system_dirs(list),
    }
}

/// The directories that may hold application descriptors: `applications`
/// below each data directory.
pub open spec fn application_dirs(
    list: Option<Seq<char>>,
    data_home: Option<Seq<char>>,
    home: Option<Seq<char>>,
) -> Seq<Seq<char>> {
    data_dirs(list, data_home, home).map_values(|dir: Seq<char>| joined_path(dir, "applications"@))
}

/// Appends the relative path `name` to a directory's path.
pub fn join_path(dir: &str, name: &str) -> (path: String)
    ensures
        path@ == joined_path(dir@, name@),
{
    let n: usize = dir.unicode_len();
    let mut path = String::from_str(dir);
    if n > 0 && dir.get_char(n - 1) != '/' {
        proof {
            reveal_strlit("/");
            assert("/"@ =~= seq!['/']);
            assert(dir@ + "/"@ =~= dir@.push('/'));
        }
        path.append("/");
    }
    path.append(name);
    path
}

/// The user's own data directory, where the environment names one:
/// `data_home` is the value of `XDG_DATA_HOME`, `home` that of `HOME`.
pub fn user_data_dir(data_home: Option<&str>, home: Option<&str>) -> (dir: Option<String>)
    ensures
        text_of(dir) == user_dir(str_text(data_home), str_text(home)),
{
    match data_home {
        Some(dir) => Some(String::from_str(dir)),
        None => match home {
            Some(dir) => Some(String::from_str(dir).concat("/.local/share")),
            None => None,
        },
    }
}

/// Lists the directories to search for application descriptors, in order.
/// `list` is the value of `XDG_DATA_DIRS`, `data_home` that of
/// `XDG_DATA_HOME` and `home` that of `HOME`, each `None` where the variable
/// is not set. The list is never empty: with nothing set it holds the two
/// usual system directories.
pub fn find_application_dir(
    list: Option<&str>,
    data_home: Option<&str>,
    home: Option<&str>,
) -> (dirs: Vec<String>)
    ensures
        texts(dirs@) == application_dirs(str_text(list), str_text(data_home), str_text(home)),
        dirs@.len() >= 1,
{
    let mut bases: Vec<String> = match list {
        Some(paths) => {
            proof {
                lemma_split_has_a_piece(paths@, ':');
            }
            split_paths(paths)
        },
        None => {
            let mut usual: Vec<String> = Vec::new();
            usual.push(String::from_str("/usr/local/share"));
            usual.push(String::from_str("/usr/share"));
            assert(texts(usual@) =~= seq!["/usr/local/share"@, "/usr/share"@]);
            usual
        },
    };
    if let Some(dir) = user_data_dir(data_home, home) {
        let ghost before = bases@;
        bases.push(dir);
        assert(texts(bases@) =~= texts(before).push(dir@));
    }
    let ghost all = data_dirs(str_text(list), str_text(data_home), str_text(home));
    assert(texts(bases@) == all);
    let mut dirs: Vec<String> = Vec::new();
    let mut i: usize = 0;
    while i < bases.len()
        invariant
            i <= bases.len(),
            texts(bases@) == all,
            dirs@.len() == i,
            forall|k: int|
                0 <= k < i ==> (#[trigger] dirs@[k])@ == joined_path(all[k], "applications"@),
        decreases bases.len() - i,
    {
        assert(texts(bases@)[i as int] == bases@[i as int]@);
        dirs.push(join_path(bases[i].as_str(), "applications"));
        i = i + 1;
    }
    assert(texts(dirs@) =~= application_dirs(
        str_text(list),
        str_text(data_home),
        str_text(home),
    ));
    dirs
}

} // verus!
