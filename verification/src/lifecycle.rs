//! The lifecycle check: the state of the cached work item of an ADR, the
//! status that state calls for, and the report of the comparison.

use vstd::prelude::*;
use crate::text::{lines_of, split_lines, str_eq, views_of};

verus! {

/// The string value of field `key` of the JSON object on `line`, as
/// `serde_json` reads it; `None` when the line is not JSON, is not an
/// object, lacks the field, or the field is not a string.
pub uninterp spec fn json_string_field(line: Seq<char>, key: Seq<char>) -> Option<Seq<char>>;

/// Reads a string field of a JSON object.
/// Calls `serde_json::from_str::<serde_json::Value>`, then picks field `key`
/// and its string value. The contract says the result is the named reading
/// of the line, a function of `line` and `key` alone.
#[verifier::external_body]
fn json_field(line: &str, key: &str) -> (r: Option<String>)
    ensures
        match r {
            Some(v) => json_string_field(line@, key@) == Some(v@),
            None => json_string_field(line@, key@) is None,
        },
{
    match serde_json::from_str::<serde_json::Value>(line) {
        Ok(v) => v.get(key).and_then(|f| f.as_str()).map(|f| f.to_string()),
        Err(_) => None,
    }
}

/// The line records work item `id` of `remote`.
pub open spec fn records_item(line: Seq<char>, remote: Seq<char>, id: Seq<char>) -> bool {
    json_string_field(line, "remote"@) == Some(remote) && json_string_field(line, "id"@) == Some(id)
}

/// The state of work item `id` of `remote` in the cache lines: that of the
/// last line recording the item (absent when that line has no state), or
/// none when no line records it.
pub open spec fn cached_state_of(lines: Seq<Seq<char>>, remote: Seq<char>, id: Seq<char>) -> Option<
    Seq<char>,
>
    decreases lines.len(),
{
    if lines.len() == 0 {
        None
    } else if records_item(lines.last(), remote, id) {
        json_string_field(lines.last(), "state"@)
    } else {
        cached_state_of(lines.drop_last(), remote, id)
    }
}

/// Looks up the cached state of work item `id` of `remote` in the
/// JSON-lines work-item cache `cache`.
pub fn cached_state(cache: &str, remote: &str, id: &str) -> (r: Option<String>)
    ensures
        match r {
            Some(s) => cached_state_of(lines_of(cache@), remote@, id@) == Some(s@),
            None => cached_state_of(lines_of(cache@), remote@, id@) is None,
        },
{
    let lines = split_lines(cache);
    let ghost ls = views_of(lines@);
    let mut state: Option<String> = None;
    for i in 0..lines.len()
        invariant
            ls == views_of(lines@),
            ls == lines_of(cache@),
            match state {
                Some(s) => cached_state_of(ls.take(i as int), remote@, id@) == Some(s@),
                None => cached_state_of(ls.take(i as int), remote@, id@) is None,
            },
    {
        assert(ls.take(i + 1).drop_last() =~= ls.take(i as int));
        assert(ls.take(i + 1).last() == lines@[i as int]@);
        let line = lines[i].as_str();
        let rf = json_field(line, "remote");
        let idf = json_field(line, "id");
        let matches = match (&rf, &idf) {
            (Some(a), Some(b)) => str_eq(a.as_str(), remote) && str_eq(b.as_str(), id),
            _ => false,
        };
        if matches {
            state = json_field(line, "state");
        }
    }
    assert(ls.take(lines@.len() as int) =~= ls);
    state
}

/// The ADR status a work-item state calls for.
pub open spec fn expected_status_of(state: Seq<char>) -> Seq<char> {
    if state == "open"@ {
        "Prototype"@
    } else if state == "active"@ {
        "Proposed"@
    } else if state == "resolved"@ {
        "Accepted"@
    } else if state == "closed"@ {
        "Delivered"@
    } else {
        "unknown"@
    }
}

/// The ADR status a work-item state calls for: open → Prototype,
/// active → Proposed, resolved → Accepted, closed → Delivered.
pub fn expected_status(state: &str) -> (r: &'static str)
    ensures
        r@ == expected_status_of(state@),
{
    if str_eq(state, "open") {
        "Prototype"
    } else if str_eq(state, "active") {
        "Proposed"
    } else if str_eq(state, "resolved") {
        "Accepted"
    } else if str_eq(state, "closed") {
        "Delivered"
    } else {
        "unknown"
    }
}

/// The lifecycle report: without a cached state, the current status; with
/// one, the status, the state, the expected status, and either that they
/// agree or the recommended transition.
pub open spec fn lifecycle_report_of(
    file_name: Seq<char>,
    remote: Seq<char>,
    id: Seq<char>,
    status: Seq<char>,
    state: Option<Seq<char>>,
    auto: bool,
) -> Seq<char> {
    match state {
        None => "No cached work item for "@ + remote + "-"@ + id + ".\n"@ + "Current ADR status: "@
            + status + "\n"@,
        Some(s) => {
            let expected = expected_status_of(s);
            "ADR: "@ + file_name + "\n"@ + "  ADR status:       "@ + status + "\n"@
                + "  Work item state:  "@ + s + "\n"@ + "  Expected status:  "@ + expected + "\n"@
                + if status == expected {
                "  → In sync. No action needed.\n"@
            } else {
                "  → Recommended: Transition to "@ + expected + "\n"@ + if auto {
                    "  → --auto not yet implemented. Transition manually.\n"@
                } else {
                    "  Run with --auto to execute this transition.\n"@
                }
            }
        },
    }
}

/// Writes the lifecycle report of the ADR in `file_name` with status
/// `status`, for work item `id` of `remote` in cached state `state`.
pub fn lifecycle_report(
    file_name: &str,
    remote: &str,
    id: &str,
    status: &str,
    state: Option<&str>,
    auto: bool,
) -> (r: String)
    ensures
        r@ == lifecycle_report_of(
            file_name@,
            remote@,
            id@,
            status@,
            match state {
                Some(s) => Some(s@),
                None => None,
            },
            auto,
        ),
{
    match state {
        None => {
            let mut out = String::from_str("No cached work item for ");
            out.append(remote);
            out.append("-");
            out.append(id);
            out.append(".\n");
            out.append("Current ADR status: ");
            out.append(status);
            out.append("\n");
            out
        },
        Some(s) => {
            let expected = expected_status(s);
            let mut out = String::from_str("ADR: ");
            out.append(file_name);
            out.append("\n");
            out.append("  ADR status:       ");
            out.append(status);
            out.append("\n");
            out.append("  Work item state:  ");
            out.append(s);
            out.append("\n");
            out.append("  Expected status:  ");
            out.append(expected);
            out.append("\n");
            if str_eq(status, expected) {
                out.append("  → In sync. No action needed.\n");
            } else {
                out.append("  → Recommended: Transition to ");
                out.append(expected);
                out.append("\n");
                if auto {
                    out.append("  → --auto not yet implemented. Transition manually.\n");
                } else {
                    out.append("  Run with --auto to execute this transition.\n");
                }
            }
            out
        },
    }
}

} // verus!
