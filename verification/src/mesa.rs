//! Keeping Mesa's driver-probe chatter off the console.

use vstd::prelude::*;
use vstd::string::*;

use crate::text::{letters, stands_at, starts_at};

verus! {

/// Names and what they are set to.
pub type Variables = Vec<(&'static str, &'static str)>;

/// Whether one of some names begins like that of a render node.
pub open spec fn names_a_node(names: Seq<Seq<char>>) -> bool {
    exists|at: int| 0 <= at < names.len() && stands_at(#[trigger] names[at], "renderD"@, 0)
}

/// Whether there is a render node among the devices, by their names, where they can
/// be listed. A node like that is what a client needs to reach the graphics card.
/// Without one the only path is software, and asking for it directly skips the probe
/// that fails.
pub fn has_render_node(names: &Option<Vec<String>>) -> (has: bool)
    ensures
        has == match names.deep_view() {
            Some(names) => names_a_node(names),
            None => false,
        },
{
    let Some(listed) = names else {
        return false;
    };
    let node = letters("renderD");
    for at in 0..listed.len()
        invariant
            node@ == "renderD"@,
            names.deep_view() == Some(listed.deep_view()),
            forall|before: int|
                0 <= before < at ==> !stands_at(
                    #[trigger] listed.deep_view()[before],
                    "renderD"@,
                    0,
                ),
    {
        assert(listed.deep_view()[at as int] == listed@[at as int]@);
        if starts_at(&letters(listed[at].as_str()), &node, 0) {
            assert(stands_at(listed.deep_view()[at as int], "renderD"@, 0));
            return true;
        }
    }
    false
}

/// The variables to set before the window is created.
pub open spec fn quietening(logging_chosen: bool, software_chosen: bool, render_node: bool) -> Seq<
    (Seq<char>, Seq<char>),
> {
    (if logging_chosen {
        Seq::empty()
    } else {
        seq![("EGL_LOG_LEVEL"@, "fatal"@)]
    }) + (if software_chosen || render_node {
        Seq::empty()
    } else {
        seq![("LIBGL_ALWAYS_SOFTWARE"@, "1"@)]
    })
}

/// The variables to set before the window is created, of those that are not set
/// already: anything chosen on the command line still wins.
pub fn quieten(logging_chosen: bool, software_chosen: bool, render_node: bool) -> (set: Variables)
    ensures
        set.deep_view() == quietening(logging_chosen, software_chosen, render_node),
{
    let mut set: Variables = Vec::new();
    if !logging_chosen {
        set.push(("EGL_LOG_LEVEL", "fatal"));
    }
    if !software_chosen && !render_node {
        set.push(("LIBGL_ALWAYS_SOFTWARE", "1"));
    }
    set
}

} // verus!
