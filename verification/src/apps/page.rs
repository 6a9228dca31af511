//! Laying the entries out: pages of at most eight, printed as JSON text.

use crate::apps::descriptor::DescriptorView;
use crate::apps::entry::{entries_text, entry_views, transformed, Entry, EntryView};
use crate::apps::icon::IconError;
use vstd::prelude::*;

verus! {

/// The number of entries on a full page.
pub const PAGE_SIZE: usize = 8;

/// The number of pages that `count` entries fill: the last one may be short,
/// and no entries fill no page.
pub open spec fn page_count(count: nat) -> nat {
    (count + 7) / 8
}

/// The page with the number `k`, counted from 0: the entries from `8 * k` up
/// to `8 * k + 8`, or up to the last one where there are fewer.
pub open spec fn page_of<T>(items: Seq<T>, k: int) -> Seq<T> {
    items.subrange(8 * k, if 8 * k + 8 <= items.len() { 8 * k + 8 } else { items.len() as int })
}

/// The pages of a list of items, in order.
pub open spec fn paged<T>(items: Seq<T>) -> Seq<Seq<T>> {
    Seq::new(page_count(items.len()), |k: int| page_of(items, k))
}

/// Every page holds at least one item and at most eight, and every page but
/// the last holds eight.
pub proof fn lemma_page_sizes<T>(items: Seq<T>)
    ensures
        paged(items).len() == page_count(items.len()),
        items.len() == 0 <==> paged(items).len() == 0,
        forall|k: int|
            0 <= k < paged(items).len() ==> 1 <= (#[trigger] paged(items)[k]).len() <= 8,
        forall|k: int|
            0 <= k < paged(items).len() - 1 ==> (#[trigger] paged(items)[k]).len() == 8,
{
}

/// Paging keeps every item and the order: the item with the number `i` is
/// the one at place `i % 8` of page `i / 8`.
pub proof fn lemma_pages_keep_order<T>(items: Seq<T>, i: int)
    requires
        0 <= i < items.len(),
    ensures
        0 <= i / 8 < paged(items).len(),
        0 <= i % 8 < paged(items)[i / 8].len(),
        paged(items)[i / 8][i % 8] == items[i],
{
}

/// The pages laid end to end are the items again.
pub proof fn lemma_pages_flatten<T>(items: Seq<T>)
    ensures
        paged(items).flatten() =~= items,
    decreases items.len(),
{
    let pages = paged(items);
    if items.len() == 0 {
        assert(pages =~= Seq::<Seq<T>>::empty());
    } else {
        let last = (pages.len() - 1) as int;
        let head = items.take(8 * last);
        assert(paged(head) =~~= pages.drop_last());
        lemma_pages_flatten(head);
        assert(pages =~= pages.drop_last().push(pages.last()));
        pages.drop_last().lemma_flatten_push(pages.last());
        assert(head + pages.last() =~= items);
    }
}

/// The entries that a page refers to, in order.
pub open spec fn page_entries(page: Vec<&Entry>) -> Seq<Entry> {
    page@.map_values(|e: &Entry| *e)
}

/// The entries that each of the pages refers to.
pub open spec fn pages_entries(pages: Seq<Vec<&Entry>>) -> Seq<Seq<Entry>> {
    pages.map_values(|page: Vec<&Entry>| page_entries(page))
}

/// Groups the entries into consecutive pages of eight, in order. The last
/// page holds what is left and is never empty.
pub fn paginate(entries: &Vec<Entry>) -> (pages: Vec<Vec<&Entry>>)
    ensures
        pages_entries(pages@) == paged(entries@),
        pages@.len() == page_count(entries@.len()),
        forall|k: int|
            0 <= k < pages@.len() ==> 1 <= (#[trigger] pages@[k])@.len() <= 8,
        forall|k: int| 0 <= k < pages@.len() - 1 ==> (#[trigger] pages@[k])@.len() == 8,
        forall|k: int|
            0 <= k < pages@.len() ==> (#[trigger] pages@[k])@.len() == page_of(entries@, k).len(),
        forall|k: int, j: int|
            0 <= k < pages@.len() && 0 <= j < pages@[k]@.len() ==> 8 * k + j < entries@.len()
                && *(#[trigger] pages@[k]@[j]) == entries@[8 * k + j],
{
    let mut pages: Vec<Vec<&Entry>> = Vec::new();
    let mut page: Vec<&Entry> = Vec::new();
    let mut i: usize = 0;
    while i < entries.len()
        invariant
            i <= entries.len(),
            pages@.len() == i / 8,
            page@.len() == i % 8,
            page_entries(page) =~= entries@.subrange(8 * (i / 8), i as int),
            forall|k: int|
                0 <= k < pages@.len() ==> page_entries(#[trigger] pages@[k]) =~= entries@.subrange(
                    8 * k,
                    8 * k + 8,
                ),
        decreases entries.len() - i,
    {
        page.push(&entries[i]);
        if (i + 1) % PAGE_SIZE == 0 {
            pages.push(page);
            page = Vec::new();
        }
        i = i + 1;
    }
    if page.len() > 0 {
        pages.push(page);
    }
    assert forall|k: int| 0 <= k < pages@.len() implies page_entries(pages@[k]) =~= page_of(
        entries@,
        k,
    ) by {}
    assert(pages_entries(pages@) =~= paged(entries@));
    assert forall|k: int| 0 <= k < pages@.len() implies (#[trigger] pages@[k])@.len() == page_of(
        entries@,
        k,
    ).len() by {
        assert(page_entries(pages@[k]).len() == pages@[k]@.len());
    }
    assert forall|k: int, j: int|
        0 <= k < pages@.len() && 0 <= j < pages@[k]@.len() implies 8 * k + j < entries@.len()
        && *(#[trigger] pages@[k]@[j]) == entries@[8 * k + j] by {
        assert(page_entries(pages@[k]).len() == pages@[k]@.len());
        assert(page_entries(pages@[k])[j] == *pages@[k]@[j]);
    }
    pages
}

/// The error type of `serde_json`.
#[verifier::external_type_specification]
#[verifier::external_body]
pub struct ExJsonError(serde_json::Error);

/// The JSON string literal that `serde_json` writes for a text: the text
/// between double quotes, with what JSON does not take as it stands escaped.
pub uninterp spec fn json_string(text: Seq<char>) -> Seq<char>;

/// Calls `serde_json::to_string` on a string slice. It writes the literal
/// that [`json_string`] names into memory, which cannot fail: the only error
/// that serialising a string can meet is one of the writer, and a buffer in
/// memory has none.
#[verifier::external_body]
fn quote(text: &str) -> (quoted: Result<String, serde_json::Error>)
    ensures
        quoted is Ok,
        quoted matches Ok(literal) ==> literal@ == json_string(text@),
{
    serde_json::to_string(text)
}

/// The JSON object of an entry: its four texts as string members, in the
/// order `cls`, `name`, `icon`, `cmd`.
pub open spec fn entry_json(entry: EntryView) -> Seq<char> {
    "{\"cls\":"@ + json_string(entry.cls) + ",\"name\":"@ + json_string(entry.name)
        + ",\"icon\":"@ + json_string(entry.icon) + ",\"cmd\":"@ + json_string(entry.cmd) + "}"@
}

/// The items with a comma between each two.
pub open spec fn comma_joined(items: Seq<Seq<char>>) -> Seq<char>
    decreases items.len(),
{
    if items.len() == 0 {
        Seq::empty()
    } else if items.len() == 1 {
        items[0]
    } else {
        comma_joined(items.drop_last()) + ","@ + items.last()
    }
}

/// The JSON array of items that are JSON texts already.
pub open spec fn array_json(items: Seq<Seq<char>>) -> Seq<char> {
    "["@ + comma_joined(items) + "]"@
}

/// The JSON array of a page's entries.
pub open spec fn page_json(page: Seq<EntryView>) -> Seq<char> {
    array_json(page.map_values(|entry: EntryView| entry_json(entry)))
}

/// The JSON array of the pages, each an array of its own.
pub open spec fn pages_json(pages: Seq<Seq<EntryView>>) -> Seq<char> {
    array_json(pages.map_values(|page: Seq<EntryView>| page_json(page)))
}

/// The views of the entries on each page.
pub open spec fn pages_views(pages: Seq<Seq<Entry>>) -> Seq<Seq<EntryView>> {
    pages.map_values(|page: Seq<Entry>| entry_views(page))
}

/// The printed catalogue of a list of entries: the JSON text of its pages.
pub open spec fn catalogue_json(entries: Seq<EntryView>) -> Seq<char> {
    pages_json(paged(entries))
}

/// Writes an entry as a JSON object.
pub fn render_entry(entry: &Entry) -> (text: String)
    ensures
        text@ == entry_json(entry@),
{
    let mut text = String::from_str("{\"cls\":");
    text.append(quote(entry.cls.as_str()).unwrap().as_str());
    text.append(",\"name\":");
    text.append(quote(entry.name.as_str()).unwrap().as_str());
    text.append(",\"icon\":");
    text.append(quote(entry.icon.as_str()).unwrap().as_str());
    text.append(",\"cmd\":");
    text.append(quote(entry.cmd.as_str()).unwrap().as_str());
    text.append("}");
    text
}

/// Writes a page as a JSON array of its entries.
pub fn render_page(page: &Vec<&Entry>) -> (text: String)
    ensures
        text@ == page_json(entry_views(page_entries(*page))),
{
    let ghost items = entry_views(page_entries(*page)).map_values(
        |entry: EntryView| entry_json(entry),
    );
    let mut text = String::from_str("[");
    let mut i: usize = 0;
    assert(items.take(0) =~= Seq::empty());
    while i < page.len()
        invariant
            i <= page.len(),
            items == entry_views(page_entries(*page)).map_values(
                |entry: EntryView| entry_json(entry),
            ),
            text@ == "["@ + comma_joined(items.take(i as int)),
        decreases page.len() - i,
    {
        proof {
            assert(items.take(i + 1).drop_last() =~= items.take(i as int));
            assert(items.take(i + 1).last() == entry_json(page@[i as int]@));
        }
        if i > 0 {
            text.append(",");
        }
        let item = render_entry(page[i]);
        text.append(item.as_str());
        assert(text@ =~= "["@ + comma_joined(items.take(i + 1)));
        i = i + 1;
    }
    assert(items.take(i as int) =~= items);
    text.append("]");
    text
}

/// Writes the pages as a JSON array of arrays.
pub fn render_pages(pages: &Vec<Vec<&Entry>>) -> (text: String)
    ensures
        text@ == pages_json(pages_views(pages_entries(pages@))),
{
    let ghost items = pages_views(pages_entries(pages@)).map_values(
        |page: Seq<EntryView>| page_json(page),
    );
    let mut text = String::from_str("[");
    let mut i: usize = 0;
    assert(items.take(0) =~= Seq::empty());
    while i < pages.len()
        invariant
            i <= pages.len(),
            items == pages_views(pages_entries(pages@)).map_values(
                |page: Seq<EntryView>| page_json(page),
            ),
            text@ == "["@ + comma_joined(items.take(i as int)),
        decreases pages.len() - i,
    {
        proof {
            assert(items.take(i + 1).drop_last() =~= items.take(i as int));
            assert(items.take(i + 1).last() == page_json(
                entry_views(page_entries(pages@[i as int])),
            ));
        }
        if i > 0 {
            text.append(",");
        }
        let item = render_page(&pages[i]);
        text.append(item.as_str());
        assert(text@ =~= "["@ + comma_joined(items.take(i + 1)));
        i = i + 1;
    }
    assert(items.take(i as int) =~= items);
    text.append("]");
    text
}

/// Prints the catalogue: the entries in pages of eight, as one JSON array of
/// arrays of objects, with nothing before or after it.
pub fn catalogue(entries: &Vec<Entry>) -> (text: String)
    ensures
        text@ == catalogue_json(entry_views(entries@)),
{
    let pages = paginate(entries);
    assert(pages_views(paged(entries@)) =~~= paged(entry_views(entries@)));
    render_pages(&pages)
}

/// The printed text is settled by what goes in: two runs that see the same
/// descriptors, the same theme index, the same answers and the same home
/// directory either both fail or print the same catalogue, byte for byte.
pub proof fn lemma_same_inputs_same_catalogue(
    first: Result<Vec<Entry>, IconError>,
    second: Result<Vec<Entry>, IconError>,
    descriptors: Seq<DescriptorView>,
    theme: Seq<char>,
    icons: Map<(Seq<char>, Seq<char>), Seq<char>>,
    answers: Seq<(Seq<char>, Seq<char>)>,
    home: Option<Seq<char>>,
)
    requires
        entries_text(first) == transformed(descriptors, theme, icons, answers, home),
        entries_text(second) == transformed(descriptors, theme, icons, answers, home),
    ensures
        first is Ok <==> second is Ok,
        first is Err ==> first.unwrap_err() == second.unwrap_err(),
        first is Ok ==> catalogue_json(entry_views(first.unwrap()@)) == catalogue_json(
            entry_views(second.unwrap()@),
        ),
{
}

} // verus!
