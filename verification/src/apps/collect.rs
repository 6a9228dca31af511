//! Picking the descriptor files out of what the application directories hold.

use crate::apps::dirs::{join_path, joined_path};
use crate::apps::text::{ends_with, has_suffix, texts};
use vstd::prelude::*;

verus! {

/// One item of a directory: its file name, and whether it is a regular file.
#[derive(Debug, Clone, PartialEq, Eq)]
pub struct Listed {
    pub name: String,
    pub is_file: bool,
}

impl View for Listed {
    type V = (Seq<char>, bool);

    open spec fn view(&self) -> (Seq<char>, bool) {
        (self.name@, self.is_file)
    }
}

/// The items of a list as texts and flags, in order.
pub open spec fn listed_views(items: Seq<Listed>) -> Seq<(Seq<char>, bool)> {
    items.map_values(|item: Listed| item@)
}

/// What one directory holds: its path and its items, in the order in which
/// the file system hands them out.
#[derive(Debug, Clone, PartialEq, Eq)]
pub struct Listing {
    pub dir: String,
    pub items: Vec<Listed>,
}

impl View for Listing {
    type V = (Seq<char>, Seq<(Seq<char>, bool)>);

    open spec fn view(&self) -> (Seq<char>, Seq<(Seq<char>, bool)>) {
        (self.dir@, listed_views(self.items@))
    }
}

/// The listings of several directories as texts and flags, in order.
pub open spec fn listing_views(
    listings: Seq<Listing>,
) -> Seq<(Seq<char>, Seq<(Seq<char>, bool)>)> {
    listings.map_values(|listing: Listing| listing@)
}

/// Whether a file name has the extension `desktop`: it ends in `.desktop`,
/// and something stands before that dot.
pub open spec fn is_descriptor_name(name: Seq<char>) -> bool {
    name.len() > 8 && ends_with(name, ".desktop"@)
}

/// The paths of the descriptor files among a directory's items, in the
/// items' order: each regular file with the extension `desktop`.
pub open spec fn descriptors_in(dir: Seq<char>, items: Seq<(Seq<char>, bool)>) -> Seq<Seq<char>>
    decreases items.len(),
{
    if items.len() == 0 {
        Seq::empty()
    } else {
        let earlier = descriptors_in(dir, items.drop_last());
        let (name, is_file) = items.last();
        if is_file && is_descriptor_name(name) {
            earlier.push(joined_path(dir, name))
        } else {
            earlier
        }
    }
}

/// The paths of the descriptor files of several directories: those of an
/// earlier directory before those of a later one. A file name that occurs
/// in two directories occurs twice.
pub open spec fn descriptors_among(
    listings: Seq<(Seq<char>, Seq<(Seq<char>, bool)>)>,
) -> Seq<Seq<char>>
    decreases listings.len(),
{
    if listings.len() == 0 {
        Seq::empty()
    } else {
        descriptors_among(listings.drop_last()) + descriptors_in(
            listings.last().0,
            listings.last().1,
        )
    }
}

/// Tells whether a file name has the extension `desktop`.
pub fn names_descriptor(name: &str) -> (named: bool)
    ensures
        named == is_descriptor_name(name@),
{
    name.unicode_len() > 8 && has_suffix(name, ".desktop")
}

/// Lists the paths of the descriptor files that the directories hold.
/// `listings` gives, for each application directory that could be read, what
/// stands directly in it.
pub fn collect_desktop_files(listings: &Vec<Listing>) -> (paths: Vec<String>)
    ensures
        texts(paths@) == descriptors_among(listing_views(listings@)),
{
    let ghost all = listing_views(listings@);
    let mut paths: Vec<String> = Vec::new();
    let mut i: usize = 0;
    assert(texts(paths@) =~= Seq::empty());
    while i < listings.len()
        invariant
            i <= listings.len(),
            all == listing_views(listings@),
            texts(paths@) == descriptors_among(all.take(i as int)),
        decreases listings.len() - i,
    {
        let listing = &listings[i];
        let ghost dir = listing.dir@;
        let ghost items = listed_views(listing.items@);
        let ghost earlier = texts(paths@);
        proof {
            assert(all.take(i + 1).drop_last() =~= all.take(i as int));
            assert(all.take(i + 1).last() == listings@[i as int]@);
            assert(items.take(0) =~= Seq::empty());
        }
        let mut j: usize = 0;
        while j < listing.items.len()
            invariant
                j <= listing.items.len(),
                dir == listing.dir@,
                items == listed_views(listing.items@),
                texts(paths@) == earlier + descriptors_in(dir, items.take(j as int)),
            decreases listing.items.len() - j,
        {
            let item = &listing.items[j];
            proof {
                assert(items.take(j + 1).drop_last() =~= items.take(j as int));
                assert(items.take(j + 1).last() == listing.items@[j as int]@);
            }
            if item.is_file && names_descriptor(item.name.as_str()) {
                let ghost before = paths@;
                paths.push(join_path(listing.dir.as_str(), item.name.as_str()));
                assert(texts(paths@) =~= texts(before).push(joined_path(dir, item.name@)));
            }
            j = j + 1;
        }
        assert(items.take(j as int) =~= items);
        i = i + 1;
    }
    assert(all.take(i as int) =~= all);
    paths
}

} // verus!
