//! What holds of what a folder's index says, name by name.

use vstd::prelude::*;

use crate::finding::{first, the_first_is_the_first};
use crate::notes::{held_under, mark_text, notes_in, under, written_under, Search};

verus! {

/// What an index says under a name is the first value it holds under it, and nothing
/// where it holds none.
pub proof fn the_first_value_under_a_name_is_the_one(
    held: Seq<(Seq<char>, Seq<char>)>,
    key: Seq<char>,
    at: int,
)
    ensures
        0 <= at < held.len() && held[at].0 == key && (forall|before: int|
            0 <= before < at ==> (#[trigger] held[before]).0 != key) ==> held_under(held, key)
            == Some(held[at].1),
        (forall|place: int| 0 <= place < held.len() ==> (#[trigger] held[place]).0 != key)
            ==> held_under(held, key) is None,
{
    the_first_is_the_first(held, 0, under(key));
    let found = first(held, under(key));
    if found is Some {
        assert(under(key)(held[found->0]));
    }
    if 0 <= at < held.len() && held[at].0 == key && (forall|before: int|
        0 <= before < at ==> (#[trigger] held[before]).0 != key) {
        assert(under(key)(held[at]));
    }
}

/// Each thing a folder says stands under its own name: a yes is written `1` and
/// anything else is a no, and where there is nothing under the name nothing was said.
pub proof fn each_thing_is_said_under_its_own_name(
    held: Seq<(Seq<char>, Seq<char>)>,
    sensitivity: Option<u64>,
)
    ensures
        ({
            let notes = notes_in(held, sensitivity);
            &&& notes.sensitivity == sensitivity
            &&& notes.disposal == held_under(held, "disposal"@)
            &&& notes.move_dir == held_under(held, "move_dir"@)
            &&& says(held, "recurse"@, notes.recurse)
            &&& says(held, "auto_mark"@, notes.auto_mark)
            &&& says(held, "auto_rescan"@, notes.auto_rescan)
            &&& says(held, "match_whole_frame"@, notes.match_whole_frame)
            &&& says(held, "match_corners"@, notes.match_corners)
            &&& says(held, "within_a_folder"@, notes.within_a_folder)
            &&& says(held, "ignore_colour"@, notes.ignore_colour)
        }),
{
}

/// Whether an index says a yes, a no or nothing under a name.
pub open spec fn says(
    held: Seq<(Seq<char>, Seq<char>)>,
    key: Seq<char>,
    said: Option<bool>,
) -> bool {
    &&& said is Some <==> held_under(held, key) is Some
    &&& said == Some(true) <==> held_under(held, key) == Some("1"@)
}

/// What a search ran under is written under the names it is read back by, the
/// sensitivity as the text it was given as and each yes as `1` and each no as `0`.
pub proof fn a_search_is_written_under_its_names(search: Search, text: Seq<char>)
    ensures
        ({
            let written = written_under(search, text);
            &&& written.len() == 5
            &&& written[0] == ("sensitivity"@, text)
            &&& written[1].0 == "match_whole_frame"@ && (written[1].1 == "1"@
                <==> search.whole_frame)
            &&& written[2].0 == "match_corners"@ && (written[2].1 == "1"@ <==> search.corners)
            &&& written[3].0 == "ignore_colour"@ && (written[3].1 == "1"@ <==> search.ignore_colour)
            &&& written[4].0 == "within_a_folder"@ && (written[4].1 == "1"@
                <==> search.within_a_folder)
            &&& mark_text(true) == "1"@ && mark_text(false) == "0"@
        }),
{
    reveal_strlit("0");
    reveal_strlit("1");
    assert("0"@[0] != "1"@[0]);
}

} // verus!
