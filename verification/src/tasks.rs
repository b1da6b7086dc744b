//! Task summaries: the records read from implementation-plan summaries, the
//! rows stored for them, and their tabular display.

use vstd::prelude::*;
use vstd::string::StringSliceAdditionalSpecFns;
use vstd::utf8::encode_utf8;
use crate::remote::first_chars;

verus! {

/// One task record of a plan summary, as read from a JSON line.
#[derive(Debug)]
pub struct JsonlTaskRecord {
    pub task_id: String,
    pub status: String,
    pub cost: String,
    pub commit: String,
    pub description: String,
    pub source_plan: String,
}

/// A task summary to be stored.
#[derive(Debug)]
pub struct NewTaskSummary {
    pub task_id: String,
    pub status: String,
    pub cost: String,
    pub commit_sha: String,
    pub description: String,
    pub source_plan: String,
}

/// A stored task summary.
#[derive(Debug)]
pub struct TaskSummary {
    pub id: i32,
    pub task_id: String,
    pub status: String,
    pub cost: String,
    pub commit_sha: String,
    pub description: String,
    pub ingested_at: String,
    pub source_plan: String,
}

impl From<JsonlTaskRecord> for NewTaskSummary {
    /// The summary of a record: every field carried over, the commit as the
    /// commit SHA.
    fn from(record: JsonlTaskRecord) -> (r: NewTaskSummary)
        ensures
            r.task_id == record.task_id,
            r.status == record.status,
            r.cost == record.cost,
            r.commit_sha == record.commit,
            r.description == record.description,
            r.source_plan == record.source_plan,
    {
        NewTaskSummary {
            task_id: record.task_id,
            status: record.status,
            cost: record.cost,
            commit_sha: record.commit,
            description: record.description,
            source_plan: record.source_plan,
        }
    }
}

impl vstd::std_specs::convert::FromSpecImpl<JsonlTaskRecord> for NewTaskSummary {
    open spec fn obeys_from_spec() -> bool {
        true
    }

    open spec fn from_spec(record: JsonlTaskRecord) -> NewTaskSummary {
        NewTaskSummary {
            task_id: record.task_id,
            status: record.status,
            cost: record.cost,
            commit_sha: record.commit,
            description: record.description,
            source_plan: record.source_plan,
        }
    }
}

/// Converting a task record keeps each field under its own name: the id,
/// status, cost, description and source plan, and the commit as the SHA.
pub proof fn lemma_summary_of_record(record: JsonlTaskRecord)
    ensures
        <NewTaskSummary as vstd::std_specs::convert::FromSpec<JsonlTaskRecord>>::from_spec(record).task_id
            == record.task_id,
        <NewTaskSummary as vstd::std_specs::convert::FromSpec<JsonlTaskRecord>>::from_spec(record).status
            == record.status,
        <NewTaskSummary as vstd::std_specs::convert::FromSpec<JsonlTaskRecord>>::from_spec(record).cost
            == record.cost,
        <NewTaskSummary as vstd::std_specs::convert::FromSpec<JsonlTaskRecord>>::from_spec(record).commit_sha
            == record.commit,
        <NewTaskSummary as vstd::std_specs::convert::FromSpec<JsonlTaskRecord>>::from_spec(record).description
            == record.description,
        <NewTaskSummary as vstd::std_specs::convert::FromSpec<JsonlTaskRecord>>::from_spec(record).source_plan
            == record.source_plan,
{
}

/// A description as the table shows it: whole when its UTF-8 encoding has
/// at most `max_len` bytes, otherwise its first `max_len` characters and an
/// ellipsis.
pub open spec fn shortened(desc: Seq<char>, max_len: nat) -> Seq<char> {
    if encode_utf8(desc).len() <= max_len {
        desc
    } else {
        first_chars(desc, max_len) + "…"@
    }
}

/// Shortens a description for the table.
pub fn truncate_description(desc: &str, max_len: usize) -> (r: String)
    requires
        desc.spec_bytes().len() <= usize::MAX,
    ensures
        r@ == shortened(desc@, max_len as nat),
{
    if desc.len() <= max_len {
        String::from_str(desc)
    } else {
        let n = desc.unicode_len();
        let keep = if n <= max_len {
            n
        } else {
            max_len
        };
        let mut r = String::from_str(desc.substring_char(0, keep));
        r.append("…");
        assert(r@ =~= shortened(desc@, max_len as nat));
        r
    }
}

/// The header of the task table.
pub fn tsv_header() -> (r: &'static str)
    ensures
        r@ == "task_id\tstatus\tcost\tcommit_sha\tdescription"@,
{
    "task_id\tstatus\tcost\tcommit_sha\tdescription"
}

/// One row of the task table: id, status, cost, commit and the description
/// shortened to 60 bytes, separated by tabs.
pub fn tsv_row(t: &TaskSummary) -> (r: String)
    requires
        encode_utf8(t.description@).len() <= usize::MAX,
    ensures
        r@ == t.task_id@ + "\t"@ + t.status@ + "\t"@ + t.cost@ + "\t"@ + t.commit_sha@ + "\t"@
            + shortened(t.description@, 60),
{
    let mut r = String::from_str(t.task_id.as_str());
    r.append("\t");
    r.append(t.status.as_str());
    r.append("\t");
    r.append(t.cost.as_str());
    r.append("\t");
    r.append(t.commit_sha.as_str());
    r.append("\t");
    let d = truncate_description(t.description.as_str(), 60);
    r.append(d.as_str());
    r
}

} // verus!
