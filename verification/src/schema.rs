//! The ADR document model and its schema validation.

use vstd::prelude::*;
use crate::text::{
    chars_of, decimal, find_char_from, index_of_char, is_blank, is_blank_seq, push_decimal, str_eq,
};

verus! {

/// Top-level ADR document.
#[derive(Debug, Clone, PartialEq)]
pub struct Adr {
    pub meta: Meta,
    pub context: Section,
    pub options: Vec<AdrOption>,
    pub evaluation_checkpoint: Checkpoint,
    pub decision: Decision,
    pub consequences: Vec<Consequence>,
    /// Kept for documents in the older format; plan data now lives in separate files.
    pub deliverables: Option<Deliverables>,
    pub quality_strategy: QualityStrategy,
    pub conclusion_checkpoint: Checkpoint,
    /// Kept for documents in the older format; plan data now lives in separate files.
    pub plan: Option<Plan>,
    pub comments: Option<Comments>,
}

/// ADR metadata: title, date, status, work-item reference, links.
#[derive(Debug, Clone, PartialEq)]
pub struct Meta {
    pub title: String,
    pub date: String,
    pub status: String,
    pub last_updated: String,
    pub identifier: String,
    pub work_item: String,
    pub links: Vec<String>,
}

/// A prose section with a body.
#[derive(Debug, Clone, PartialEq)]
pub struct Section {
    pub body: String,
}

/// A named option with a prose body.
#[derive(Debug, Clone, PartialEq)]
pub struct AdrOption {
    pub name: String,
    pub body: String,
}

/// One checklist item of a checkpoint.
#[derive(Debug, Clone, PartialEq)]
pub struct CheckpointItem {
    pub label: String,
    pub checked: bool,
}

/// A checkpoint: a mandatory assessment and its checklist items.
/// The named boolean fields are those of the older format.
#[derive(Debug, Clone, PartialEq)]
pub struct Checkpoint {
    pub assessment: String,
    pub items: Vec<CheckpointItem>,
    pub all_options_evaluated: Option<bool>,
    pub decision_drivers_referenced: Option<bool>,
    pub no_experimentation_gaps: Option<bool>,
    pub decision_justified: Option<bool>,
    pub consequences_complete: Option<bool>,
    pub quality_strategy_reviewed: Option<bool>,
    pub links_populated: Option<bool>,
    pub validation_needs: String,
    pub pre_review_notes: String,
}

/// The decision: the index of the chosen option and its justification,
/// or, in the older format, a prose body.
#[derive(Debug, Clone, PartialEq)]
pub struct Decision {
    pub chosen_option: Option<usize>,
    pub justification: Option<String>,
    pub body: Option<String>,
}

/// A consequence tagged positive, negative or neutral.
#[derive(Debug, Clone, PartialEq)]
pub struct Consequence {
    pub kind: String,
    pub body: String,
}

/// Deliverables checklist.
#[derive(Debug, Clone, PartialEq)]
pub struct Deliverables {
    pub items: Vec<DeliverableItem>,
}

/// One deliverable.
#[derive(Debug, Clone, PartialEq)]
pub struct DeliverableItem {
    pub description: String,
    pub done: bool,
    pub artifact: String,
}

/// Quality strategy flags.
#[derive(Debug, Clone, PartialEq)]
pub struct QualityStrategy {
    pub major_semantic_changes: bool,
    pub minor_semantic_changes: bool,
    pub fuzz_testing: bool,
    pub unit_testing: bool,
    pub load_testing: bool,
    pub performance_testing: bool,
    pub backwards_compatible: bool,
    pub integration_tests: bool,
    pub tooling: bool,
    pub user_documentation: bool,
    pub additional_concerns: String,
}

/// Implementation plan embedded in older documents.
#[derive(Debug, Clone, PartialEq)]
pub struct Plan {
    pub stages: Vec<PlanStage>,
}

/// A stage of a plan.
#[derive(Debug, Clone, PartialEq)]
pub struct PlanStage {
    pub name: String,
    pub status: String,
    pub tasks: Vec<PlanTask>,
}

/// A task of a plan stage.
#[derive(Debug, Clone, PartialEq)]
pub struct PlanTask {
    pub description: String,
    pub done: bool,
}

/// Comments: the draft worksheet and the revision entries.
#[derive(Debug, Clone, PartialEq)]
pub struct Comments {
    pub draft_worksheet: String,
    pub revision_entries: Vec<RevisionEntry>,
}

/// One revision entry.
#[derive(Debug, Clone, PartialEq)]
pub struct RevisionEntry {
    pub id: String,
    pub date: String,
    pub body: String,
}

/// Validation errors for ADR documents.
#[derive(Debug)]
pub enum ValidationError {
    InvalidStatus(String),
    EmptyAssessment(&'static str),
    MutualExclusivity(String),
    InvalidWorkItem(String),
    InvalidOptionIndex { chosen: usize, count: usize },
    DeserializationError { path: String, detail: String },
}

/// A validation error as a mathematical value.
pub enum ValidationErrorView {
    InvalidStatus(Seq<char>),
    EmptyAssessment(Seq<char>),
    MutualExclusivity(Seq<char>),
    InvalidWorkItem(Seq<char>),
    InvalidOptionIndex { chosen: nat, count: nat },
    DeserializationError { path: Seq<char>, detail: Seq<char> },
}

impl View for ValidationError {
    type V = ValidationErrorView;

    open spec fn view(&self) -> ValidationErrorView {
        match self {
            ValidationError::InvalidStatus(s) => ValidationErrorView::InvalidStatus(s@),
            ValidationError::EmptyAssessment(w) => ValidationErrorView::EmptyAssessment(w@),
            ValidationError::MutualExclusivity(m) => ValidationErrorView::MutualExclusivity(m@),
            ValidationError::InvalidWorkItem(s) => ValidationErrorView::InvalidWorkItem(s@),
            ValidationError::InvalidOptionIndex { chosen, count } => {
                ValidationErrorView::InvalidOptionIndex { chosen: *chosen as nat, count: *count as nat }
            },
            ValidationError::DeserializationError { path, detail } => {
                ValidationErrorView::DeserializationError { path: path@, detail: detail@ }
            },
        }
    }
}

/// The views of a list of errors.
pub open spec fn error_views(es: Seq<ValidationError>) -> Seq<ValidationErrorView> {
    es.map_values(|e: ValidationError| e@)
}

/// The statuses an ADR may have.
pub open spec fn is_valid_status(s: Seq<char>) -> bool {
    ||| s == "Prototype"@
    ||| s == "Proposed"@
    ||| s == "Ready"@
    ||| s == "Planned"@
    ||| s == "Accepted"@
    ||| s == "Delivered"@
    ||| s == "Deprecated"@
    ||| s == "Superseded"@
}

/// A work-item reference `{remote}#{id}`: a non-empty remote before the
/// first `#` and a non-empty rest after it. The empty reference is allowed.
pub open spec fn is_valid_work_item(w: Seq<char>) -> bool {
    let k = index_of_char(w, '#');
    w.len() == 0 || (0 < k && k + 1 < w.len())
}

/// The message of the mutual-exclusivity rule.
pub open spec fn mutual_exclusivity_message() -> Seq<char> {
    "major_semantic_changes and minor_semantic_changes cannot both be true"@
}

/// One error when `cond` holds, none otherwise.
pub open spec fn issue_if(cond: bool, e: ValidationErrorView) -> Seq<ValidationErrorView> {
    if cond {
        seq![e]
    } else {
        Seq::empty()
    }
}

/// The errors the schema rules find in `adr`, in the order they are checked:
/// status, evaluation assessment, conclusion assessment, semantic-change
/// flags, work-item reference, chosen option.
pub open spec fn validation_issues(adr: Adr) -> Seq<ValidationErrorView> {
    issue_if(!is_valid_status(adr.meta.status@),
        ValidationErrorView::InvalidStatus(adr.meta.status@))
    + issue_if(is_blank_seq(adr.evaluation_checkpoint.assessment@),
        ValidationErrorView::EmptyAssessment("Evaluation"@))
    + issue_if(is_blank_seq(adr.conclusion_checkpoint.assessment@),
        ValidationErrorView::EmptyAssessment("Conclusion"@))
    + issue_if(adr.quality_strategy.major_semantic_changes
        && adr.quality_strategy.minor_semantic_changes,
        ValidationErrorView::MutualExclusivity(mutual_exclusivity_message()))
    + issue_if(!is_valid_work_item(adr.meta.work_item@),
        ValidationErrorView::InvalidWorkItem(adr.meta.work_item@))
    + issue_if(adr.decision.chosen_option is Some
        && adr.decision.chosen_option->0 >= adr.options@.len(),
        ValidationErrorView::InvalidOptionIndex {
            chosen: adr.decision.chosen_option->0 as nat,
            count: adr.options@.len(),
        })
}

/// The ADR satisfies every schema rule.
pub open spec fn is_valid_adr(adr: Adr) -> bool {
    validation_issues(adr).len() == 0
}

/// The status rule of validation: the first error reported is about the
/// status exactly when the status is none of Prototype, Proposed, Ready,
/// Planned, Accepted, Delivered, Deprecated and Superseded.
pub proof fn lemma_status_rule(adr: Adr)
    ensures
        (validation_issues(adr).len() > 0 && validation_issues(adr)[0] is InvalidStatus) <==> !(
        adr.meta.status@ == "Prototype"@ || adr.meta.status@ == "Proposed"@ || adr.meta.status@
            == "Ready"@ || adr.meta.status@ == "Planned"@ || adr.meta.status@ == "Accepted"@
            || adr.meta.status@ == "Delivered"@ || adr.meta.status@ == "Deprecated"@
            || adr.meta.status@ == "Superseded"@),
        (validation_issues(adr).len() > 0 && validation_issues(adr)[0] is InvalidStatus)
            ==> validation_issues(adr)[0] == ValidationErrorView::InvalidStatus(adr.meta.status@),
{
    let st = issue_if(!is_valid_status(adr.meta.status@),
        ValidationErrorView::InvalidStatus(adr.meta.status@));
    let rest = validation_issues(adr).skip(st.len() as int);
    assert(validation_issues(adr) =~= st + rest);
    if st.len() == 0 && rest.len() > 0 {
        assert(!(rest[0] is InvalidStatus));
    }
}

/// Whether `s` is one of the known statuses.
pub fn is_known_status(s: &str) -> (r: bool)
    ensures
        r == is_valid_status(s@),
{
    str_eq(s, "Prototype") || str_eq(s, "Proposed") || str_eq(s, "Ready") || str_eq(s, "Planned")
        || str_eq(s, "Accepted") || str_eq(s, "Delivered") || str_eq(s, "Deprecated")
        || str_eq(s, "Superseded")
}

/// Whether `w` is empty or of the form `{remote}#{id}` with both parts non-empty.
pub fn is_work_item_reference(w: &str) -> (r: bool)
    ensures
        r == is_valid_work_item(w@),
{
    let cs = chars_of(w);
    if cs.len() == 0 {
        return true;
    }
    let k = find_char_from(cs.as_slice(), '#', 0);
    0 < k && k < cs.len() - 1
}

fn push_issue(errors: &mut Vec<ValidationError>, e: ValidationError)
    ensures
        error_views(final(errors)@) == error_views(old(errors)@).push(e@),
{
    errors.push(e);
    assert(error_views(final(errors)@) =~= error_views(old(errors)@).push(e@));
}

impl Adr {
    /// Validates the ADR against the schema rules. Succeeds exactly when no
    /// rule is broken; otherwise returns every broken rule, in order.
    pub fn validate(&self) -> (r: Result<(), Vec<ValidationError>>)
        ensures
            r is Ok <==> is_valid_adr(*self),
            r matches Err(es) ==> error_views(es@) == validation_issues(*self),
    {
        let mut errors: Vec<ValidationError> = Vec::new();
        let ghost adr = *self;
        let ghost s1 = issue_if(!is_valid_status(adr.meta.status@),
            ValidationErrorView::InvalidStatus(adr.meta.status@));
        let ghost s2 = issue_if(is_blank_seq(adr.evaluation_checkpoint.assessment@),
            ValidationErrorView::EmptyAssessment("Evaluation"@));
        let ghost s3 = issue_if(is_blank_seq(adr.conclusion_checkpoint.assessment@),
            ValidationErrorView::EmptyAssessment("Conclusion"@));
        let ghost s4 = issue_if(adr.quality_strategy.major_semantic_changes
            && adr.quality_strategy.minor_semantic_changes,
            ValidationErrorView::MutualExclusivity(mutual_exclusivity_message()));
        let ghost s5 = issue_if(!is_valid_work_item(adr.meta.work_item@),
            ValidationErrorView::InvalidWorkItem(adr.meta.work_item@));
        let ghost s6 = issue_if(adr.decision.chosen_option is Some
            && adr.decision.chosen_option->0 >= adr.options@.len(),
            ValidationErrorView::InvalidOptionIndex {
                chosen: adr.decision.chosen_option->0 as nat,
                count: adr.options@.len(),
            });
        assert(error_views(errors@) =~= Seq::<ValidationErrorView>::empty());

        if !is_known_status(self.meta.status.as_str()) {
            push_issue(&mut errors, ValidationError::InvalidStatus(self.meta.status.clone()));
        }
        assert(error_views(errors@) =~= s1);
        if is_blank(self.evaluation_checkpoint.assessment.as_str()) {
            push_issue(&mut errors, ValidationError::EmptyAssessment("Evaluation"));
        }
        assert(error_views(errors@) =~= s1 + s2);
        if is_blank(self.conclusion_checkpoint.assessment.as_str()) {
            push_issue(&mut errors, ValidationError::EmptyAssessment("Conclusion"));
        }
        assert(error_views(errors@) =~= s1 + s2 + s3);
        if self.quality_strategy.major_semantic_changes
            && self.quality_strategy.minor_semantic_changes {
            let msg = String::from_str(
                "major_semantic_changes and minor_semantic_changes cannot both be true",
            );
            push_issue(&mut errors, ValidationError::MutualExclusivity(msg));
        }
        assert(error_views(errors@) =~= s1 + s2 + s3 + s4);
        if !is_work_item_reference(self.meta.work_item.as_str()) {
            push_issue(&mut errors, ValidationError::InvalidWorkItem(self.meta.work_item.clone()));
        }
        assert(error_views(errors@) =~= s1 + s2 + s3 + s4 + s5);
        if let Some(idx) = self.decision.chosen_option {
            if idx >= self.options.len() {
                push_issue(
                    &mut errors,
                    ValidationError::InvalidOptionIndex { chosen: idx, count: self.options.len() },
                );
            }
        }
        assert(error_views(errors@) =~= validation_issues(adr));
        if errors.len() == 0 {
            Ok(())
        } else {
            Err(errors)
        }
    }
}

/// The statuses as the status message lists them.
pub open spec fn status_list_text() -> Seq<char> {
    "[\"Prototype\", \"Proposed\", \"Ready\", \"Planned\", \"Accepted\", \"Delivered\", \"Deprecated\", \"Superseded\"]"@
}

/// The human-readable message of an error.
pub open spec fn message_of(e: ValidationErrorView) -> Seq<char> {
    match e {
        ValidationErrorView::InvalidStatus(s) => "invalid status '"@ + s + "': expected one of "@
            + status_list_text(),
        ValidationErrorView::EmptyAssessment(w) => w
            + " checkpoint assessment is empty — checkpoints are mandatory"@,
        ValidationErrorView::MutualExclusivity(m) => m,
        ValidationErrorView::InvalidWorkItem(s) => "invalid work_item '"@ + s
            + "': expected '{remote}#{id}' format"@,
        ValidationErrorView::InvalidOptionIndex { chosen, count } => "decision.chosen_option "@
            + decimal(chosen) + " is out of bounds — "@ + decimal(count) + " option(s) defined"@,
        ValidationErrorView::DeserializationError { path, detail } => "failed to parse '"@ + path
            + "': "@ + detail,
    }
}

/// The messages of `es` joined by `"; "`.
pub open spec fn joined_messages(es: Seq<ValidationErrorView>) -> Seq<char>
    decreases es.len(),
{
    if es.len() == 0 {
        Seq::empty()
    } else if es.len() == 1 {
        message_of(es[0])
    } else {
        joined_messages(es.drop_last()) + "; "@ + message_of(es.last())
    }
}

impl ValidationError {
    /// The human-readable message of this error.
    pub fn message(&self) -> (r: String)
        ensures
            r@ == message_of(self@),
    {
        match self {
            ValidationError::InvalidStatus(s) => {
                let mut r = String::from_str("invalid status '");
                r.append(s.as_str());
                r.append("': expected one of ");
                r.append(
                    "[\"Prototype\", \"Proposed\", \"Ready\", \"Planned\", \"Accepted\", \"Delivered\", \"Deprecated\", \"Superseded\"]",
                );
                r
            },
            ValidationError::EmptyAssessment(w) => {
                let mut r = String::from_str(w);
                r.append(" checkpoint assessment is empty — checkpoints are mandatory");
                r
            },
            ValidationError::MutualExclusivity(m) => m.clone(),
            ValidationError::InvalidWorkItem(s) => {
                let mut r = String::from_str("invalid work_item '");
                r.append(s.as_str());
                r.append("': expected '{remote}#{id}' format");
                r
            },
            ValidationError::InvalidOptionIndex { chosen, count } => {
                let mut r = String::from_str("decision.chosen_option ");
                push_decimal(&mut r, *chosen as u64);
                r.append(" is out of bounds — ");
                push_decimal(&mut r, *count as u64);
                r.append(" option(s) defined");
                r
            },
            ValidationError::DeserializationError { path, detail } => {
                let mut r = String::from_str("failed to parse '");
                r.append(path.as_str());
                r.append("': ");
                r.append(detail.as_str());
                r
            },
        }
    }
}

/// The messages of `errors` joined by `"; "`.
pub fn join_messages(errors: &Vec<ValidationError>) -> (r: String)
    ensures
        r@ == joined_messages(error_views(errors@)),
{
    let mut r = String::new();
    for i in 0..errors.len()
        invariant
            r@ == joined_messages(error_views(errors@.take(i as int))),
    {
        let ghost prev = error_views(errors@.take(i as int));
        let m = errors[i].message();
        if i > 0 {
            r.append("; ");
        }
        r.append(m.as_str());
        assert(error_views(errors@.take(i + 1)).drop_last() =~= prev);
        assert(error_views(errors@.take(i + 1)).last() == errors@[i as int]@);
        if i == 0 {
            assert(r@ =~= message_of(errors@[0]@));
        }
    }
    assert(errors@.take(errors@.len() as int) =~= errors@);
    r
}

/// `b` is `a` with only the status changed.
pub open spec fn same_but_status(a: Adr, b: Adr) -> bool {
    &&& a.meta.title == b.meta.title
    &&& a.meta.date == b.meta.date
    &&& a.meta.last_updated == b.meta.last_updated
    &&& a.meta.identifier == b.meta.identifier
    &&& a.meta.work_item == b.meta.work_item
    &&& a.meta.links == b.meta.links
    &&& a.context == b.context
    &&& a.options == b.options
    &&& a.evaluation_checkpoint == b.evaluation_checkpoint
    &&& a.decision == b.decision
    &&& a.consequences == b.consequences
    &&& a.deliverables == b.deliverables
    &&& a.quality_strategy == b.quality_strategy
    &&& a.conclusion_checkpoint == b.conclusion_checkpoint
    &&& a.plan == b.plan
    &&& a.comments == b.comments
}

/// Sets the status and checks the result against the schema. On failure the
/// error is the messages of all broken rules joined by `"; "`.
pub fn apply_status(adr: &mut Adr, status: &str) -> (r: Result<(), String>)
    ensures
        final(adr).meta.status@ == status@,
        same_but_status(*old(adr), *final(adr)),
        r is Ok <==> is_valid_adr(*final(adr)),
        r matches Err(m) ==> m@ == joined_messages(validation_issues(*final(adr))),
{
    adr.meta.status = String::from_str(status);
    match adr.validate() {
        Ok(()) => Ok(()),
        Err(errors) => Err(join_messages(&errors)),
    }
}

/// Changing only the status of a valid ADR keeps it valid exactly when the
/// new status is a known one.
pub proof fn lemma_status_change(a: Adr, b: Adr)
    requires
        same_but_status(a, b),
        is_valid_adr(a),
    ensures
        is_valid_adr(b) <==> is_valid_status(b.meta.status@),
{
    if is_valid_status(b.meta.status@) {
        assert(validation_issues(a) =~= Seq::empty());
        assert(validation_issues(b) =~= Seq::empty());
    } else {
        assert(validation_issues(b).len() > 0);
    }
}

/// `after` is `before` with the title of work item `id` of `remote` set to
/// `new_title` and the last update set to `date`; nothing else differs.
pub open spec fn is_retitled(
    before: Adr,
    after: Adr,
    remote: Seq<char>,
    id: Seq<char>,
    new_title: Seq<char>,
    date: Seq<char>,
) -> bool {
    &&& after.meta.title@ == remote + "-"@ + id + ". "@ + new_title
    &&& after.meta.last_updated@ == date
    &&& after.meta.date == before.meta.date
    &&& after.meta.status == before.meta.status
    &&& after.meta.identifier == before.meta.identifier
    &&& after.meta.work_item == before.meta.work_item
    &&& after.meta.links == before.meta.links
    &&& after.context == before.context
    &&& after.options == before.options
    &&& after.evaluation_checkpoint == before.evaluation_checkpoint
    &&& after.decision == before.decision
    &&& after.consequences == before.consequences
    &&& after.deliverables == before.deliverables
    &&& after.quality_strategy == before.quality_strategy
    &&& after.conclusion_checkpoint == before.conclusion_checkpoint
    &&& after.plan == before.plan
    &&& after.comments == before.comments
}

/// Gives the ADR a new title for work item `id` of `remote`, updated on `date`.
pub fn retitle(adr: &mut Adr, remote: &str, id: &str, new_title: &str, date: &str)
    ensures
        is_retitled(*old(adr), *final(adr), remote@, id@, new_title@, date@),
{
    let mut t = String::from_str(remote);
    t.append("-");
    t.append(id);
    t.append(". ");
    t.append(new_title);
    adr.meta.title = t;
    adr.meta.last_updated = String::from_str(date);
}

} // verus!
