//! The program from its command line.

use vstd::prelude::*;
use vstd::string::*;

use crate::text::same_text;

verus! {

/// What is said where there is no index to open.
pub open spec fn no_index_text(db_path: Seq<char>) -> Seq<char> {
    "no index at "@ + db_path + ". Scan the folder first."@
}

/// Whether an index can be opened: it can where it is there, and where it is not,
/// what to say about it comes back instead.
pub fn open_index(there: bool, db_path: &str) -> (opened: Result<(), String>)
    ensures
        opened is Ok <==> there,
        opened is Err ==> opened->Err_0@ == no_index_text(db_path@),
{
    if there {
        Ok(())
    } else {
        Err(String::from_str("no index at ").concat(db_path).concat(". Scan the folder first."))
    }
}

/// Whether the log is asked for, by one of the words behind the program's own name.
pub fn wants_log(words: &Vec<String>) -> (wanted: bool)
    ensures
        wanted <==> exists|at: int|
            1 <= at < words@.len() && #[trigger] words.deep_view()[at] == "--log"@,
{
    let mut at: usize = 1;
    while at < words.len()
        invariant
            1 <= at,
            forall|before: int|
                1 <= before < at && before < words@.len()
                    ==> #[trigger] words.deep_view()[before] != "--log"@,
        decreases words.len() - at,
    {
        assert(words.deep_view()[at as int] == words@[at as int]@);
        if same_text(words[at].as_str(), "--log") {
            return true;
        }
        at = at + 1;
    }
    false
}

} // verus!
