//! Deleting calendar events: what a delete request does, by the event it names and
//! the scope asked for.
use vstd::prelude::*;

use crate::datetime::{datetime_to_rfc3339, in_rfc3339_years, instant_in_range, to_rfc3339};
use crate::db::crud::calendar::event::read::flexible_date;
use crate::text::{trim, trim_back, trim_front};

verus! {

/// Which occurrences of a series a delete request covers.
pub enum DeleteScope {
    ThisOnly,
    ThisAndFuture,
}

/// What a delete request does.
pub enum DeleteAction {
    /// Add `exdate` to the EXDATE list of the series, hiding one occurrence.
    ExcludeOccurrence { exdate: String },
    /// Delete the exceptions from `occurrence` on and end the series before it.
    EndSeriesAt { occurrence: i64 },
    /// Delete the event itself (and, for a master, its series).
    DeleteEvent,
}

/// The action of a delete request on the event named by an id that carries the
/// `occurrence` of a series (a virtual instance) or none (a stored event): one
/// occurrence is excluded by its RFC 3339 text, a series is ended at it, a stored event
/// is deleted. For the years 0000 to 9999 the excluding text is a stored date that
/// denotes the occurrence again, so a read of the series no longer shows it (see
/// `lemma_excluded_occurrence_hidden`) and still shows everything else it showed (see
/// `lemma_exclusion_keeps_other_instances`).
pub fn delete_action(occurrence: Option<i64>, scope: &DeleteScope) -> (r: DeleteAction)
    requires
        occurrence matches Some(t) ==> instant_in_range(t as int),
    ensures
        match occurrence {
            None => r is DeleteEvent,
            Some(t) => match scope {
                DeleteScope::ThisOnly => r matches DeleteAction::ExcludeOccurrence { exdate }
                    && exdate@ == datetime_to_rfc3339(t as int)
                    && (in_rfc3339_years(t as int) ==> {
                        &&& trim(exdate@) == exdate@
                        &&& exdate@.len() > 0
                        &&& flexible_date(exdate@) == Some(t)
                    }),
                DeleteScope::ThisAndFuture => r matches DeleteAction::EndSeriesAt { occurrence }
                    && occurrence == t,
            },
        },
{
    match occurrence {
        None => DeleteAction::DeleteEvent,
        Some(t) => match scope {
            DeleteScope::ThisOnly => {
                let exdate = to_rfc3339(t);
                proof {
                    if in_rfc3339_years(t as int) {
                        let s = exdate@;
                        assert(trim_front(s) == s);
                        assert(trim_back(s) == s);
                    }
                }
                DeleteAction::ExcludeOccurrence { exdate }
            },
            DeleteScope::ThisAndFuture => DeleteAction::EndSeriesAt { occurrence: t },
        },
    }
}

} // verus!
