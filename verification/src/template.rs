//! The ADR template and the initial record of a fresh ADR directory.

use vstd::prelude::*;
use crate::text::{index_of_char, is_blank_seq, is_whitespace_char, lemma_index_of_char};
use crate::schema::{
    is_valid_adr, is_valid_status, is_valid_work_item, validation_issues, Adr, AdrOption, Checkpoint, CheckpointItem, Comments, Consequence, Decision, Meta,
    QualityStrategy, Section,
};

verus! {

/// Labels of the evaluation checklist.
pub open spec fn evaluation_labels() -> Seq<Seq<char>> {
    seq![
        "All options evaluated at comparable depth"@,
        "Decision drivers are defined and referenced in option analysis"@,
        "No unacknowledged experimentation gaps"@,
    ]
}

/// Labels of the conclusion checklist.
pub open spec fn conclusion_labels() -> Seq<Seq<char>> {
    seq![
        "Decision justified (Y-statement or equivalent)"@,
        "Consequences include positive, negative, and neutral outcomes"@,
        "Quality Strategy reviewed"@,
        "Links to related ADRs populated"@,
    ]
}

/// Placeholder assessment of the evaluation checkpoint.
pub open spec fn evaluation_placeholder() -> Seq<char> {
    "[Proceed | Pause for validation | Skipped — <rationale>]"@
}

/// Placeholder assessment of the conclusion checkpoint.
pub open spec fn conclusion_placeholder() -> Seq<char> {
    "[Ready for review | Needs work | Skipped — <rationale>]"@
}

/// `items` carries exactly `labels`, each checked as `checked` says.
pub open spec fn checklist_is(items: Seq<CheckpointItem>, labels: Seq<Seq<char>>, checked: bool) -> bool {
    &&& items.len() == labels.len()
    &&& forall|i: int| 0 <= i < items.len() ==> (#[trigger] items[i]).label@ == labels[i]
        && items[i].checked == checked
}

/// A checkpoint in the current format: the assessment and checklist given,
/// no legacy flags, empty notes.
pub open spec fn checkpoint_is(
    c: Checkpoint,
    assessment: Seq<char>,
    labels: Seq<Seq<char>>,
    checked: bool,
) -> bool {
    &&& c.assessment@ == assessment
    &&& checklist_is(c.items@, labels, checked)
    &&& c.all_options_evaluated is None
    &&& c.decision_drivers_referenced is None
    &&& c.no_experimentation_gaps is None
    &&& c.decision_justified is None
    &&& c.consequences_complete is None
    &&& c.quality_strategy_reviewed is None
    &&& c.links_populated is None
    &&& c.validation_needs@.len() == 0
    &&& c.pre_review_notes@.len() == 0
}

/// Every quality flag is off except `backwards_compatible`, which is `bc`,
/// and there are no additional concerns.
pub open spec fn quality_flags_are(q: QualityStrategy, bc: bool) -> bool {
    &&& !q.major_semantic_changes
    &&& !q.minor_semantic_changes
    &&& !q.fuzz_testing
    &&& !q.unit_testing
    &&& !q.load_testing
    &&& !q.performance_testing
    &&& q.backwards_compatible == bc
    &&& !q.integration_tests
    &&& !q.tooling
    &&& !q.user_documentation
    &&& q.additional_concerns@.len() == 0
}

/// `adr` is the template for work item `id` of `remote`, titled `title`,
/// dated `date`.
pub open spec fn is_template(
    adr: Adr,
    remote: Seq<char>,
    id: Seq<char>,
    title: Seq<char>,
    date: Seq<char>,
) -> bool {
    &&& adr.meta.title@ == remote + "-"@ + id + ". "@ + title
    &&& adr.meta.date@ == date
    &&& adr.meta.status@ == "Prototype"@
    &&& adr.meta.last_updated@ == date
    &&& adr.meta.identifier@ == remote + "-"@ + id
    &&& adr.meta.work_item@ == remote + "#"@ + id
    &&& adr.meta.links@.len() == 0
    &&& adr.context.body@.len() == 0
    &&& adr.options@.len() == 0
    &&& checkpoint_is(adr.evaluation_checkpoint, evaluation_placeholder(), evaluation_labels(), false)
    &&& adr.decision.chosen_option is None
    &&& adr.decision.justification is None
    &&& adr.decision.body is None
    &&& adr.consequences@.len() == 0
    &&& adr.deliverables is None
    &&& quality_flags_are(adr.quality_strategy, false)
    &&& checkpoint_is(adr.conclusion_checkpoint, conclusion_placeholder(), conclusion_labels(), false)
    &&& adr.plan is None
    &&& adr.comments matches Some(c) && c.draft_worksheet@.len() == 0
        && c.revision_entries@.len() == 0
}

fn item(label: &str, checked: bool) -> (r: CheckpointItem)
    ensures
        r.label@ == label@,
        r.checked == checked,
{
    CheckpointItem { label: String::from_str(label), checked }
}

fn evaluation_items(checked: bool) -> (r: Vec<CheckpointItem>)
    ensures
        checklist_is(r@, evaluation_labels(), checked),
{
    let r = vec![
        item("All options evaluated at comparable depth", checked),
        item("Decision drivers are defined and referenced in option analysis", checked),
        item("No unacknowledged experimentation gaps", checked),
    ];
    assert(checklist_is(r@, evaluation_labels(), checked)) by {
        assert(r@.len() == 3);
    }
    r
}

fn conclusion_items(checked: bool) -> (r: Vec<CheckpointItem>)
    ensures
        checklist_is(r@, conclusion_labels(), checked),
{
    let r = vec![
        item("Decision justified (Y-statement or equivalent)", checked),
        item("Consequences include positive, negative, and neutral outcomes", checked),
        item("Quality Strategy reviewed", checked),
        item("Links to related ADRs populated", checked),
    ];
    assert(checklist_is(r@, conclusion_labels(), checked)) by {
        assert(r@.len() == 4);
    }
    r
}

fn fresh_checkpoint(assessment: &str, items: Vec<CheckpointItem>) -> (c: Checkpoint)
    ensures
        c.assessment@ == assessment@,
        c.items == items,
        c.all_options_evaluated is None,
        c.decision_drivers_referenced is None,
        c.no_experimentation_gaps is None,
        c.decision_justified is None,
        c.consequences_complete is None,
        c.quality_strategy_reviewed is None,
        c.links_populated is None,
        c.validation_needs@.len() == 0,
        c.pre_review_notes@.len() == 0,
{
    Checkpoint {
        assessment: String::from_str(assessment),
        items,
        all_options_evaluated: None,
        decision_drivers_referenced: None,
        no_experimentation_gaps: None,
        decision_justified: None,
        consequences_complete: None,
        quality_strategy_reviewed: None,
        links_populated: None,
        validation_needs: String::new(),
        pre_review_notes: String::new(),
    }
}

/// Generates the default ADR for work item `id` of `remote`, titled `title`
/// and dated `date`: status Prototype, placeholder assessments, unchecked
/// checklists, no options, no decision.
pub fn generate_template(remote: &str, id: &str, title: &str, date: &str) -> (adr: Adr)
    ensures
        is_template(adr, remote@, id@, title@, date@),
{
    let mut work_item = String::from_str(remote);
    work_item.append("#");
    work_item.append(id);
    let mut identifier = String::from_str(remote);
    identifier.append("-");
    identifier.append(id);
    let mut display_title = String::from_str(remote);
    display_title.append("-");
    display_title.append(id);
    display_title.append(". ");
    display_title.append(title);

    let adr = Adr {
        meta: Meta {
            title: display_title,
            date: String::from_str(date),
            status: String::from_str("Prototype"),
            last_updated: String::from_str(date),
            identifier,
            work_item,
            links: Vec::new(),
        },
        context: Section { body: String::new() },
        options: Vec::new(),
        evaluation_checkpoint: fresh_checkpoint(
            "[Proceed | Pause for validation | Skipped — <rationale>]",
            evaluation_items(false),
        ),
        decision: Decision { chosen_option: None, justification: None, body: None },
        consequences: Vec::new(),
        deliverables: None,
        quality_strategy: QualityStrategy {
            major_semantic_changes: false,
            minor_semantic_changes: false,
            fuzz_testing: false,
            unit_testing: false,
            load_testing: false,
            performance_testing: false,
            backwards_compatible: false,
            integration_tests: false,
            tooling: false,
            user_documentation: false,
            additional_concerns: String::new(),
        },
        conclusion_checkpoint: fresh_checkpoint(
            "[Ready for review | Needs work | Skipped — <rationale>]",
            conclusion_items(false),
        ),
        plan: None,
        comments: Some(Comments { draft_worksheet: String::new(), revision_entries: Vec::new() }),
    };
    assert(adr.meta.title@ =~= remote@ + "-"@ + id@ + ". "@ + title@);
    adr
}

/// `adr` is the first record of a fresh ADR directory, dated `date`: the
/// decision to record architecture decisions, accepted.
pub open spec fn is_initial_record(adr: Adr, date: Seq<char>) -> bool {
    &&& adr.meta.title@ == "1. Record architecture decisions"@
    &&& adr.meta.date@ == date
    &&& adr.meta.status@ == "Accepted"@
    &&& adr.meta.last_updated@ == date
    &&& adr.meta.identifier@ == "local"@ + "-"@ + "0001"@
    &&& adr.meta.work_item@.len() == 0
    &&& adr.meta.links@.len() == 0
    &&& adr.context.body@ == "We need to record the architectural decisions made on this project."@
    &&& adr.options@.len() == 2
    &&& adr.options@[0].name@ == "No documentation"@
    &&& adr.options@[0].body@ == "Keep decisions informal, undocumented."@
    &&& adr.options@[1].name@ == "Use ADRs"@
    &&& adr.options@[1].body@ == "Record decisions as Architecture Decision Records."@
    &&& checkpoint_is(adr.evaluation_checkpoint, "Proceed"@, evaluation_labels(), true)
    &&& adr.decision.chosen_option == Some(1usize)
    &&& adr.decision.justification matches Some(j) && j@
        == "We will use Architecture Decision Records, as described by Michael Nygard."@
    &&& adr.decision.body is None
    &&& adr.consequences@.len() == 1
    &&& adr.consequences@[0].kind@ == "positive"@
    &&& adr.consequences@[0].body@ == "Decisions are documented and discoverable."@
    &&& adr.deliverables is None
    &&& quality_flags_are(adr.quality_strategy, true)
    &&& checkpoint_is(adr.conclusion_checkpoint, "Ready for review"@, conclusion_labels(), true)
    &&& adr.plan is None
    &&& adr.comments matches Some(c) && c.draft_worksheet@.len() == 0
        && c.revision_entries@.len() == 0
}

/// Builds the first record of a fresh ADR directory, dated `date`.
pub fn initial_record(date: &str) -> (adr: Adr)
    ensures
        is_initial_record(adr, date@),
{
    let mut adr = generate_template("local", "0001", "Record architecture decisions", date);
    adr.meta.title = String::from_str("1. Record architecture decisions");
    adr.meta.status = String::from_str("Accepted");
    adr.meta.work_item = String::new();
    adr.context.body = String::from_str(
        "We need to record the architectural decisions made on this project.",
    );
    adr.options = vec![
        AdrOption {
            name: String::from_str("No documentation"),
            body: String::from_str("Keep decisions informal, undocumented."),
        },
        AdrOption {
            name: String::from_str("Use ADRs"),
            body: String::from_str("Record decisions as Architecture Decision Records."),
        },
    ];
    adr.evaluation_checkpoint.assessment = String::from_str("Proceed");
    adr.evaluation_checkpoint.items = evaluation_items(true);
    adr.decision = Decision {
        chosen_option: Some(1),
        justification: Some(
            String::from_str(
                "We will use Architecture Decision Records, as described by Michael Nygard.",
            ),
        ),
        body: None,
    };
    adr.consequences = vec![
        Consequence {
            kind: String::from_str("positive"),
            body: String::from_str("Decisions are documented and discoverable."),
        },
    ];
    adr.quality_strategy.backwards_compatible = true;
    adr.conclusion_checkpoint.assessment = String::from_str("Ready for review");
    adr.conclusion_checkpoint.items = conclusion_items(true);
    adr.deliverables = None;
    adr
}

proof fn lemma_first_not_blank(s: Seq<char>)
    requires
        s.len() > 0,
        !is_whitespace_char(s[0]),
    ensures
        !is_blank_seq(s),
{
}

proof fn lemma_reference_first_hash(remote: Seq<char>, id: Seq<char>)
    requires
        remote.len() > 0,
        id.len() > 0,
        !remote.contains('#'),
    ensures
        is_valid_work_item(remote + "#"@ + id),
{
    reveal_strlit("#");
    let w = remote + "#"@ + id;
    lemma_index_of_char(w, '#', 0);
    let k = index_of_char(w, '#');
    assert(w[remote.len() as int] == '#');
    if k < remote.len() {
        assert(w[k] == remote[k]);
        assert(remote.contains('#'));
    }
}

/// A template validates whenever its remote is non-empty and free of `#`
/// and its id is non-empty.
pub proof fn lemma_template_is_valid(
    adr: Adr,
    remote: Seq<char>,
    id: Seq<char>,
    title: Seq<char>,
    date: Seq<char>,
)
    requires
        is_template(adr, remote, id, title, date),
        remote.len() > 0,
        id.len() > 0,
        !remote.contains('#'),
    ensures
        is_valid_adr(adr),
{
    reveal_strlit("[Proceed | Pause for validation | Skipped — <rationale>]");
    reveal_strlit("[Ready for review | Needs work | Skipped — <rationale>]");
    lemma_first_not_blank(adr.evaluation_checkpoint.assessment@);
    lemma_first_not_blank(adr.conclusion_checkpoint.assessment@);
    lemma_reference_first_hash(remote, id);
    assert(is_valid_status(adr.meta.status@));
    assert(validation_issues(adr) =~= Seq::empty());
}

/// The first record of a fresh ADR directory validates.
pub proof fn lemma_initial_record_is_valid(adr: Adr, date: Seq<char>)
    requires
        is_initial_record(adr, date),
    ensures
        is_valid_adr(adr),
{
    reveal_strlit("Proceed");
    reveal_strlit("Ready for review");
    lemma_first_not_blank(adr.evaluation_checkpoint.assessment@);
    lemma_first_not_blank(adr.conclusion_checkpoint.assessment@);
    assert(is_valid_status(adr.meta.status@));
    assert(validation_issues(adr) =~= Seq::empty());
}

} // verus!
