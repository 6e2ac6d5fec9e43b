//! `clove assign <id> [who] [--clear]`.

use vstd::prelude::*;

use crate::error::{invalid, invalid_field, CloveError, ErrorView};
use crate::text;

verus! {

/// The assignee that is asked for: none with `--clear`, and otherwise one that is not
/// blank.
pub open spec fn asked_for(
    assignee: Option<Seq<char>>,
    clear: bool,
) -> Result<Option<Seq<char>>, ErrorView> {
    if clear {
        Ok(None)
    } else {
        match assignee {
            Some(a) => if text::trimmed(a).len() > 0 {
                Ok(Some(a))
            } else {
                Err(invalid_field("assignee"@, "provide an assignee or use --clear"@))
            },
            None => Err(invalid_field("assignee"@, "provide an assignee or use --clear"@)),
        }
    }
}

/// Reads the arguments of an assignment. With neither a name nor `--clear` there is
/// nothing to do.
pub fn assignee_of(assignee: Option<String>, clear: bool) -> (r: Result<Option<String>, CloveError>)
    ensures
        crate::error::outcome(r) == asked_for(assignee.deep_view(), clear),
{
    if clear {
        return Ok(None);
    }
    if let Some(a) = assignee {
        if !text::trim(a.as_str()).is_empty() {
            return Ok(Some(a));
        }
    }
    Err(invalid("assignee", "provide an assignee or use --clear".to_owned()))
}

/// Clearing leaves no assignee, whoever is named; otherwise the named one is assigned as
/// given, and a blank or missing name is refused.
pub proof fn law_the_named_one_is_assigned(assignee: Option<Seq<char>>, clear: bool)
    ensures
        clear <==> asked_for(assignee, clear) == Ok::<Option<Seq<char>>, ErrorView>(None),
        !clear && asked_for(assignee, clear) is Ok ==> asked_for(assignee, clear)->Ok_0 == assignee
            && assignee is Some && text::trimmed(assignee->0).len() > 0,
        asked_for(assignee, clear) is Err <==> !clear && (assignee is None || text::trimmed(
            assignee->0,
        ).len() == 0),
{
}

} // verus!
