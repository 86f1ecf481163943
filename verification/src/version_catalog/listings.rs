//! Gathering what several listing pages gave: the entries of the pages that
//! were read, and a note for each page that gave nothing.

use vstd::prelude::*;
use crate::text::{chars_of, concat2, concat3, join_chars, join_with, views, string_from_chars};
use crate::types::{VersionOption, OptionView, option_views};
use crate::version_catalog::pattern::string_views;

verus! {

/// What reading one listing gave: the name of its source, and its entries or the error.
pub type Listing = (String, Result<Vec<VersionOption>, String>);

/// The entries of the listings that were read, in order.
pub open spec fn fetched_entries(fetched: Seq<Listing>) -> Seq<OptionView>
    decreases fetched.len(),
{
    if fetched.len() == 0 {
        Seq::<OptionView>::empty()
    } else {
        fetched_entries(fetched.drop_last()) + match fetched.last().1 {
            Ok(v) => option_views(v@),
            Err(_) => Seq::<OptionView>::empty(),
        }
    }
}

/// The notes on the listings that gave nothing, in order: `<source>: <empty_note>`
/// for a listing that was read but held no version, `<source>: <error>` for one
/// that could not be read.
pub open spec fn listing_notes(fetched: Seq<Listing>, empty_note: Seq<char>) -> Seq<Seq<char>>
    decreases fetched.len(),
{
    if fetched.len() == 0 {
        Seq::<Seq<char>>::empty()
    } else {
        let prev = listing_notes(fetched.drop_last(), empty_note);
        let (source, outcome) = fetched.last();
        match outcome {
            Ok(v) => if v@.len() > 0 {
                prev
            } else {
                prev.push(source@ + ": "@ + empty_note)
            },
            Err(e) => prev.push(source@ + ": "@ + e@),
        }
    }
}

/// The entries and the notes of the listings `fetched`.
pub fn gather(fetched: &Vec<Listing>, empty_note: &str) -> (r: (Vec<VersionOption>, Vec<String>))
    ensures
        option_views(r.0@) == fetched_entries(fetched@),
        string_views(r.1@) == listing_notes(fetched@, empty_note@),
{
    let mut all: Vec<VersionOption> = Vec::new();
    let mut notes: Vec<String> = Vec::new();
    let mut i: usize = 0;
    while i < fetched.len()
        invariant
            0 <= i <= fetched@.len(),
            option_views(all@) == fetched_entries(fetched@.take(i as int)),
            string_views(notes@) == listing_notes(fetched@.take(i as int), empty_note@),
        decreases fetched@.len() - i,
    {
        proof {
            assert(fetched@.take(i + 1).drop_last() =~= fetched@.take(i as int));
            assert(fetched@.take(i + 1).last() == fetched@[i as int]);
        }
        let (source, outcome) = &fetched[i];
        match outcome {
            Ok(items) => {
                let mut j: usize = 0;
                let ghost start = option_views(all@);
                while j < items.len()
                    invariant
                        0 <= j <= items@.len(),
                        option_views(all@) == start + option_views(items@).take(j as int),
                    decreases items@.len() - j,
                {
                    let ghost before = all@;
                    all.push(items[j].duplicate());
                    proof {
                        assert(option_views(all@) =~= option_views(before).push(items@[j as int]@));
                        assert(option_views(items@).take(j + 1) =~= option_views(items@).take(
                            j as int,
                        ).push(items@[j as int]@));
                    }
                    j += 1;
                }
                proof {
                    assert(option_views(items@).take(items@.len() as int) =~= option_views(items@));
                }
                if items.len() == 0 {
                    let ghost nb = notes@;
                    notes.push(concat3(source.as_str(), ": ", empty_note));
                    proof {
                        assert(string_views(notes@) =~= string_views(nb).push(
                            source@ + ": "@ + empty_note@,
                        ));
                    }
                }
            },
            Err(e) => {
                let ghost nb = notes@;
                notes.push(concat3(source.as_str(), ": ", e.as_str()));
                proof {
                    assert(option_views(all@) =~= fetched_entries(fetched@.take(i as int))
                        + Seq::<OptionView>::empty());
                    assert(string_views(notes@) =~= string_views(nb).push(source@ + ": "@ + e@));
                }
            },
        }
        i += 1;
    }
    proof {
        assert(fetched@.take(fetched@.len() as int) =~= fetched@);
    }
    (all, notes)
}

/// `head` followed by the notes joined with "; ".
pub fn failure_message(head: &str, notes: &Vec<String>) -> (r: String)
    ensures
        r@ == head@ + join_with(string_views(notes@), "; "@),
{
    let mut pieces: Vec<Vec<char>> = Vec::new();
    let mut i: usize = 0;
    while i < notes.len()
        invariant
            0 <= i <= notes@.len(),
            views(pieces@) == string_views(notes@).take(i as int),
        decreases notes@.len() - i,
    {
        let ghost before = pieces@;
        pieces.push(chars_of(notes[i].as_str()));
        proof {
            assert(views(pieces@) =~= views(before).push(notes@[i as int]@));
            assert(string_views(notes@).take(i + 1) =~= string_views(notes@).take(i as int).push(
                notes@[i as int]@,
            ));
        }
        i += 1;
    }
    proof {
        assert(string_views(notes@).take(notes@.len() as int) =~= string_views(notes@));
    }
    let sep = chars_of("; ");
    let joined = join_chars(&pieces, sep.as_slice());
    let body = string_from_chars(joined.as_slice());
    concat2(head, body.as_str())
}

} // verus!
