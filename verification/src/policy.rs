//! The single table of banned phrases: literal markers of incomplete
//! implementation that a clean artifact must not contain.  Both the
//! constraint policy handed to the generation collaborator and the
//! static validator consume this one table, so the instruction given at
//! generation time and the check applied at validation time cannot drift.

use vstd::prelude::*;

verus! {

/// How many phrases the table holds.
pub open spec fn banned_count() -> int {
    10
}

/// The banned phrase at position `i` of the table.
pub open spec fn spec_banned_phrase(i: int) -> Seq<char> {
    if i == 0 {
        "TODO"@
    } else if i == 1 {
        "FIXME"@
    } else if i == 2 {
        "XXX"@
    } else if i == 3 {
        "HACK"@
    } else if i == 4 {
        "NotImplementedError"@
    } else if i == 5 {
        "NotImplemented"@
    } else if i == 6 {
        "omitted for brevity"@
    } else if i == 7 {
        "rest of code"@
    } else if i == 8 {
        "left as an exercise"@
    } else if i == 9 {
        "implementation omitted"@
    } else {
        Seq::<char>::empty()
    }
}

/// The one process-wide table of phrases whose presence marks an
/// artifact as incomplete.
pub fn banned_phrases() -> (r: Vec<&'static str>)
    ensures
        r@.len() == banned_count(),
        forall|i: int| 0 <= i < banned_count() ==> r@[i]@ == spec_banned_phrase(i),
{
    let r: Vec<&'static str> = vec![
        "TODO",
        "FIXME",
        "XXX",
        "HACK",
        "NotImplementedError",
        "NotImplemented",
        "omitted for brevity",
        "rest of code",
        "left as an exercise",
        "implementation omitted",
    ];
    r
}

} // verus!
