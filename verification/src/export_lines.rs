//! The Markdown export seen line by line: each line is a fixed label
//! followed by a text of the ADR, and what the export shows follows from
//! which lines it has.

use vstd::prelude::*;
use crate::export::{
    adr_markdown, bullets, consequences_md, context_md, decision_md, group_md, has_decision,
    has_kind, header_md, join_with, line, option_md, options_list_md, options_md,
};
use crate::schema::{Adr, AdrOption, Consequence};
use crate::text::{contains_seq, decimal, lemma_contains_concat, lemma_lacks_char, views_of};

verus! {

/// A line of the export: its fixed label and the text of the ADR after it.
pub type Labelled = (Seq<char>, Seq<char>);

/// The lines `ls`, each followed by a newline.
pub open spec fn labelled_md(ls: Seq<Labelled>) -> Seq<char>
    decreases ls.len(),
{
    if ls.len() == 0 {
        Seq::empty()
    } else {
        labelled_md(ls.drop_last()) + line(ls.last().0 + ls.last().1)
    }
}

/// A line that is a fixed label alone.
pub open spec fn fixed(label: Seq<char>) -> Labelled {
    (label, Seq::empty())
}

/// The lines of the title block.
pub open spec fn header_lines(adr: Adr) -> Seq<Labelled> {
    seq![
        ("# "@, adr.meta.title@),
        fixed(""@),
        ("Date: "@, adr.meta.date@),
        ("Status: "@, adr.meta.status@),
        ("Last Updated: "@, adr.meta.last_updated@),
    ] + (if adr.meta.work_item@.len() > 0 {
        seq![("Work-Item: "@, adr.meta.work_item@)]
    } else {
        Seq::empty()
    }) + (if adr.meta.links@.len() > 0 {
        seq![("Links: "@, join_with(views_of(adr.meta.links@), ", "@))]
    } else {
        Seq::empty()
    })
}

/// The lines of the context section.
pub open spec fn context_lines(adr: Adr) -> Seq<Labelled> {
    if adr.context.body@.len() > 0 {
        seq![fixed(""@), fixed("## Context"@), fixed(""@), (""@, adr.context.body@)]
    } else {
        Seq::empty()
    }
}

/// The lines of one option.
pub open spec fn option_lines(o: AdrOption) -> Seq<Labelled> {
    seq![fixed(""@), ("### "@, o.name@)] + if o.body@.len() > 0 {
        seq![fixed(""@), (""@, o.body@)]
    } else {
        Seq::empty()
    }
}

/// The lines of the options, one after the other.
pub open spec fn options_list_lines(os: Seq<AdrOption>) -> Seq<Labelled>
    decreases os.len(),
{
    if os.len() == 0 {
        Seq::empty()
    } else {
        options_list_lines(os.drop_last()) + option_lines(os.last())
    }
}

/// The lines of the options section.
pub open spec fn options_lines(adr: Adr) -> Seq<Labelled> {
    if adr.options@.len() > 0 {
        seq![fixed(""@), fixed("## Options"@)] + options_list_lines(adr.options@)
    } else {
        Seq::empty()
    }
}

/// The line naming the chosen option `idx`.
pub open spec fn chose_line(adr: Adr, idx: usize) -> Seq<char> {
    "Chose **"@ + adr.options@[idx as int].name@ + "** (Option "@ + decimal((idx + 1) as nat)
        + ")"@
}

/// The lines of the decision section.
pub open spec fn decision_lines(adr: Adr) -> Seq<Labelled> {
    if has_decision(adr) {
        seq![fixed(""@), fixed("## Decision"@), fixed(""@)] + match adr.decision.chosen_option {
            Some(idx) => (if idx < adr.options@.len() {
                seq![(""@, chose_line(adr, idx))]
            } else {
                Seq::empty()
            }) + match adr.decision.justification {
                Some(j) => if j@.len() > 0 {
                    seq![fixed(""@), (""@, j@)]
                } else {
                    Seq::empty()
                },
                None => Seq::empty(),
            },
            None => match adr.decision.body {
                Some(b) => seq![(""@, b@)],
                None => Seq::empty(),
            },
        }
    } else {
        Seq::empty()
    }
}

/// A bullet line for each consequence of kind `kind`, in order.
pub open spec fn bullet_lines(cs: Seq<Consequence>, kind: Seq<char>) -> Seq<Labelled>
    decreases cs.len(),
{
    if cs.len() == 0 {
        Seq::empty()
    } else {
        bullet_lines(cs.drop_last(), kind) + if cs.last().kind@ == kind {
            seq![("- "@, cs.last().body@)]
        } else {
            Seq::empty()
        }
    }
}

/// The lines of the group of consequences of kind `kind`.
pub open spec fn group_lines(cs: Seq<Consequence>, kind: Seq<char>, heading: Seq<char>) -> Seq<
    Labelled,
> {
    if has_kind(cs, kind) {
        seq![fixed(""@), fixed(heading)] + bullet_lines(cs, kind)
    } else {
        Seq::empty()
    }
}

/// Some consequence is positive, negative or neutral.
pub open spec fn has_consequences(cs: Seq<Consequence>) -> bool {
    has_kind(cs, "positive"@) || has_kind(cs, "negative"@) || has_kind(cs, "neutral"@)
}

/// The lines of the consequences section.
pub open spec fn consequences_lines(adr: Adr) -> Seq<Labelled> {
    let cs = adr.consequences@;
    (if has_consequences(cs) {
        seq![fixed(""@), fixed("## Consequences"@)]
    } else {
        Seq::empty()
    }) + group_lines(cs, "positive"@, "**Positive:**"@) + group_lines(
        cs,
        "negative"@,
        "**Negative:**"@,
    ) + group_lines(cs, "neutral"@, "**Neutral:**"@)
}

/// All lines of the export, in order.
pub open spec fn md_lines(adr: Adr) -> Seq<Labelled> {
    header_lines(adr) + context_lines(adr) + options_lines(adr) + decision_lines(adr)
        + consequences_lines(adr)
}

proof fn lemma_labelled_concat(a: Seq<Labelled>, b: Seq<Labelled>)
    ensures
        labelled_md(a + b) == labelled_md(a) + labelled_md(b),
    decreases b.len(),
{
    if b.len() == 0 {
        assert(a + b =~= a);
        assert(labelled_md(a) + labelled_md(b) =~= labelled_md(a));
    } else {
        lemma_labelled_concat(a, b.drop_last());
        assert((a + b).drop_last() =~= a + b.drop_last());
        assert((a + b).last() == b.last());
        assert(labelled_md(a + b) =~= labelled_md(a) + labelled_md(b));
    }
}

proof fn lemma_labelled_one(x: Labelled)
    ensures
        labelled_md(seq![x]) == line(x.0 + x.1),
{
    assert(seq![x].drop_last() =~= Seq::<Labelled>::empty());
    assert(labelled_md(Seq::<Labelled>::empty()) == Seq::<char>::empty());
    assert(labelled_md(seq![x]) == labelled_md(Seq::<Labelled>::empty()) + line(x.0 + x.1));
    assert(labelled_md(seq![x]) =~= line(x.0 + x.1));
}

proof fn lemma_labelled_two(x: Labelled, y: Labelled)
    ensures
        labelled_md(seq![x, y]) == line(x.0 + x.1) + line(y.0 + y.1),
{
    assert(seq![x, y] =~= seq![x] + seq![y]);
    lemma_labelled_concat(seq![x], seq![y]);
    lemma_labelled_one(x);
    lemma_labelled_one(y);
}

proof fn lemma_labelled_prepend(x: Labelled, rest: Seq<Labelled>)
    ensures
        labelled_md(seq![x] + rest) == line(x.0 + x.1) + labelled_md(rest),
{
    lemma_labelled_concat(seq![x], rest);
    lemma_labelled_one(x);
}

proof fn lemma_labelled_empty()
    ensures
        labelled_md(Seq::<Labelled>::empty()) == Seq::<char>::empty(),
{
}

proof fn lemma_header_lines(adr: Adr)
    ensures
        header_md(adr) == labelled_md(header_lines(adr)),
{
    reveal_strlit("");
    let x1 = ("# "@, adr.meta.title@);
    let x2 = fixed(""@);
    let x3 = ("Date: "@, adr.meta.date@);
    let x4 = ("Status: "@, adr.meta.status@);
    let x5 = ("Last Updated: "@, adr.meta.last_updated@);
    let a = seq![x1, x2, x3, x4, x5];
    let w = if adr.meta.work_item@.len() > 0 {
        seq![("Work-Item: "@, adr.meta.work_item@)]
    } else {
        Seq::<Labelled>::empty()
    };
    let l = if adr.meta.links@.len() > 0 {
        seq![("Links: "@, join_with(views_of(adr.meta.links@), ", "@))]
    } else {
        Seq::<Labelled>::empty()
    };
    assert(header_lines(adr) == a + w + l);
    lemma_labelled_concat(a + w, l);
    lemma_labelled_concat(a, w);
    assert(a =~= seq![x1] + (seq![x2] + (seq![x3] + (seq![x4] + seq![x5]))));
    lemma_labelled_prepend(x1, seq![x2] + (seq![x3] + (seq![x4] + seq![x5])));
    lemma_labelled_prepend(x2, seq![x3] + (seq![x4] + seq![x5]));
    lemma_labelled_prepend(x3, seq![x4] + seq![x5]);
    lemma_labelled_prepend(x4, seq![x5]);
    lemma_labelled_one(x5);
    assert(x2.0 + x2.1 =~= ""@);
    lemma_labelled_empty();
    if adr.meta.work_item@.len() > 0 {
        lemma_labelled_one(w[0]);
    }
    if adr.meta.links@.len() > 0 {
        lemma_labelled_one(l[0]);
    }
    assert(header_md(adr) =~= labelled_md(header_lines(adr)));
}

proof fn lemma_context_lines(adr: Adr)
    ensures
        context_md(adr) == labelled_md(context_lines(adr)),
{
    reveal_strlit("");
    lemma_labelled_empty();
    if adr.context.body@.len() > 0 {
        let x1 = fixed(""@);
        let x2 = fixed("## Context"@);
        let x4 = (""@, adr.context.body@);
        assert(context_lines(adr) =~= seq![x1] + (seq![x2] + (seq![x1] + seq![x4])));
        lemma_labelled_prepend(x1, seq![x2] + (seq![x1] + seq![x4]));
        lemma_labelled_prepend(x2, seq![x1] + seq![x4]);
        lemma_labelled_prepend(x1, seq![x4]);
        lemma_labelled_one(x4);
        assert(x1.0 + x1.1 =~= ""@);
        assert(x2.0 + x2.1 =~= "## Context"@);
        assert(x4.0 + x4.1 =~= adr.context.body@);
        assert(context_md(adr) =~= labelled_md(context_lines(adr)));
    }
}

proof fn lemma_option_lines(o: AdrOption)
    ensures
        option_md(o) == labelled_md(option_lines(o)),
{
    reveal_strlit("");
    lemma_labelled_empty();
    let x1 = fixed(""@);
    let x2 = ("### "@, o.name@);
    assert(x1.0 + x1.1 =~= ""@);
    let tail = if o.body@.len() > 0 {
        seq![x1, (""@, o.body@)]
    } else {
        Seq::<Labelled>::empty()
    };
    assert(option_lines(o) == seq![x1, x2] + tail);
    lemma_labelled_concat(seq![x1, x2], tail);
    lemma_labelled_two(x1, x2);
    if o.body@.len() > 0 {
        lemma_labelled_two(x1, (""@, o.body@));
        assert(""@ + o.body@ =~= o.body@);
    }
    assert(option_md(o) =~= labelled_md(option_lines(o)));
}

proof fn lemma_options_list_lines(os: Seq<AdrOption>)
    ensures
        options_list_md(os) == labelled_md(options_list_lines(os)),
    decreases os.len(),
{
    lemma_labelled_empty();
    if os.len() > 0 {
        lemma_options_list_lines(os.drop_last());
        lemma_option_lines(os.last());
        lemma_labelled_concat(options_list_lines(os.drop_last()), option_lines(os.last()));
    }
}

proof fn lemma_options_lines(adr: Adr)
    ensures
        options_md(adr) == labelled_md(options_lines(adr)),
{
    reveal_strlit("");
    lemma_labelled_empty();
    if adr.options@.len() > 0 {
        let x1 = fixed(""@);
        let x2 = fixed("## Options"@);
        assert(x1.0 + x1.1 =~= ""@);
        assert(x2.0 + x2.1 =~= "## Options"@);
        lemma_labelled_two(x1, x2);
        lemma_options_list_lines(adr.options@);
        lemma_labelled_concat(seq![x1, x2], options_list_lines(adr.options@));
        assert(options_md(adr) =~= labelled_md(options_lines(adr)));
    }
}

proof fn lemma_decision_lines(adr: Adr)
    ensures
        decision_md(adr) == labelled_md(decision_lines(adr)),
{
    reveal_strlit("");
    lemma_labelled_empty();
    if has_decision(adr) {
        let x1 = fixed(""@);
        let x2 = fixed("## Decision"@);
        assert(x1.0 + x1.1 =~= ""@);
        assert(x2.0 + x2.1 =~= "## Decision"@);
        let head = seq![x1, x2, x1];
        assert(head =~= seq![x1] + seq![x2, x1]);
        lemma_labelled_prepend(x1, seq![x2, x1]);
        lemma_labelled_two(x2, x1);
        let rest = decision_lines(adr).subrange(3, decision_lines(adr).len() as int);
        assert(decision_lines(adr) =~= head + rest);
        lemma_labelled_concat(head, rest);
        match adr.decision.chosen_option {
            Some(idx) => {
                let c = if idx < adr.options@.len() {
                    seq![(""@, chose_line(adr, idx))]
                } else {
                    Seq::<Labelled>::empty()
                };
                let j = match adr.decision.justification {
                    Some(j) => if j@.len() > 0 {
                        seq![x1, (""@, j@)]
                    } else {
                        Seq::<Labelled>::empty()
                    },
                    None => Seq::<Labelled>::empty(),
                };
                assert(rest =~= c + j);
                lemma_labelled_concat(c, j);
                if idx < adr.options@.len() {
                    lemma_labelled_one(c[0]);
                    assert(""@ + chose_line(adr, idx) =~= chose_line(adr, idx));
                }
                match adr.decision.justification {
                    Some(jj) => if jj@.len() > 0 {
                        lemma_labelled_two(x1, (""@, jj@));
                        assert(""@ + jj@ =~= jj@);
                    },
                    None => {},
                }
            },
            None => match adr.decision.body {
                Some(b) => {
                    assert(rest =~= seq![(""@, b@)]);
                    lemma_labelled_one((""@, b@));
                    assert(""@ + b@ =~= b@);
                },
                None => {
                    assert(rest =~= Seq::<Labelled>::empty());
                },
            },
        }
        assert(decision_md(adr) =~= labelled_md(decision_lines(adr)));
    }
}

proof fn lemma_bullet_lines(cs: Seq<Consequence>, kind: Seq<char>)
    ensures
        bullets(cs, kind) == labelled_md(bullet_lines(cs, kind)),
    decreases cs.len(),
{
    lemma_labelled_empty();
    if cs.len() > 0 {
        lemma_bullet_lines(cs.drop_last(), kind);
        let t = if cs.last().kind@ == kind {
            seq![("- "@, cs.last().body@)]
        } else {
            Seq::<Labelled>::empty()
        };
        lemma_labelled_concat(bullet_lines(cs.drop_last(), kind), t);
        if cs.last().kind@ == kind {
            lemma_labelled_one(t[0]);
        }
        assert(bullets(cs, kind) =~= labelled_md(bullet_lines(cs, kind)));
    }
}

proof fn lemma_group_lines(cs: Seq<Consequence>, kind: Seq<char>, heading: Seq<char>)
    ensures
        group_md(cs, kind, heading) == labelled_md(group_lines(cs, kind, heading)),
{
    reveal_strlit("");
    lemma_labelled_empty();
    if has_kind(cs, kind) {
        let x1 = fixed(""@);
        let x2 = fixed(heading);
        assert(x1.0 + x1.1 =~= ""@);
        assert(x2.0 + x2.1 =~= heading);
        lemma_labelled_two(x1, x2);
        lemma_bullet_lines(cs, kind);
        lemma_labelled_concat(seq![x1, x2], bullet_lines(cs, kind));
        assert(group_md(cs, kind, heading) =~= labelled_md(group_lines(cs, kind, heading)));
    }
}

proof fn lemma_consequences_lines(adr: Adr)
    ensures
        consequences_md(adr) == labelled_md(consequences_lines(adr)),
{
    reveal_strlit("");
    lemma_labelled_empty();
    let cs = adr.consequences@;
    let h = if has_consequences(cs) {
        seq![fixed(""@), fixed("## Consequences"@)]
    } else {
        Seq::<Labelled>::empty()
    };
    if has_consequences(cs) {
        lemma_labelled_two(fixed(""@), fixed("## Consequences"@));
        assert(fixed(""@).0 + fixed(""@).1 =~= ""@);
        assert(fixed("## Consequences"@).0 + fixed("## Consequences"@).1 =~= "## Consequences"@);
    }
    let p = group_lines(cs, "positive"@, "**Positive:**"@);
    let n = group_lines(cs, "negative"@, "**Negative:**"@);
    let u = group_lines(cs, "neutral"@, "**Neutral:**"@);
    lemma_group_lines(cs, "positive"@, "**Positive:**"@);
    lemma_group_lines(cs, "negative"@, "**Negative:**"@);
    lemma_group_lines(cs, "neutral"@, "**Neutral:**"@);
    lemma_labelled_concat(h + p + n, u);
    lemma_labelled_concat(h + p, n);
    lemma_labelled_concat(h, p);
    assert(consequences_md(adr) =~= labelled_md(consequences_lines(adr)));
}

/// The export is its lines, each followed by a newline.
pub proof fn lemma_export_is_lines(adr: Adr)
    ensures
        adr_markdown(adr) == labelled_md(md_lines(adr)),
{
    lemma_header_lines(adr);
    lemma_context_lines(adr);
    lemma_options_lines(adr);
    lemma_decision_lines(adr);
    lemma_consequences_lines(adr);
    let a = header_lines(adr);
    let b = context_lines(adr);
    let c = options_lines(adr);
    let d = decision_lines(adr);
    let e = consequences_lines(adr);
    lemma_labelled_concat(a + b + c + d, e);
    lemma_labelled_concat(a + b + c, d);
    lemma_labelled_concat(a + b, c);
    lemma_labelled_concat(a, b);
    assert(adr_markdown(adr) =~= labelled_md(md_lines(adr)));
}

/// The fixed labels that lines of the export begin with.
pub open spec fn known_label(l: Seq<char>) -> bool {
    ||| l == ""@
    ||| l == "# "@
    ||| l == "Date: "@
    ||| l == "Status: "@
    ||| l == "Last Updated: "@
    ||| l == "Work-Item: "@
    ||| l == "Links: "@
    ||| l == "## Context"@
    ||| l == "## Options"@
    ||| l == "### "@
    ||| l == "## Decision"@
    ||| l == "## Consequences"@
    ||| l == "**Positive:**"@
    ||| l == "**Negative:**"@
    ||| l == "**Neutral:**"@
    ||| l == "- "@
}

/// What holds of every line of the export of `adr`: its label is a known
/// one; the label is empty, or the text is, or the label ends with a space;
/// and the work-item and group labels appear only where their content exists.
pub open spec fn line_facts(adr: Adr, p: Labelled) -> bool {
    let cs = adr.consequences@;
    &&& known_label(p.0)
    &&& (p.0.len() == 0 || p.1.len() == 0 || p.0.last() == ' ')
    &&& (p.0 == "Work-Item: "@ ==> adr.meta.work_item@.len() > 0)
    &&& (p.0 == "**Positive:**"@ ==> has_kind(cs, "positive"@))
    &&& (p.0 == "**Negative:**"@ ==> has_kind(cs, "negative"@))
    &&& (p.0 == "**Neutral:**"@ ==> has_kind(cs, "neutral"@))
}

/// Every line of `ls` has the facts of a line of the export of `adr`.
pub open spec fn lines_hold(adr: Adr, ls: Seq<Labelled>) -> bool {
    forall|i: int| 0 <= i < ls.len() ==> line_facts(adr, #[trigger] ls[i])
}

proof fn lemma_hold_concat(adr: Adr, a: Seq<Labelled>, b: Seq<Labelled>)
    requires
        lines_hold(adr, a),
        lines_hold(adr, b),
    ensures
        lines_hold(adr, a + b),
{
    assert forall|i: int| 0 <= i < (a + b).len() implies line_facts(adr, #[trigger] (a + b)[i]) by {
        if i < a.len() {
            assert((a + b)[i] == a[i]);
        } else {
            assert((a + b)[i] == b[i - a.len()]);
        }
    }
}

proof fn lemma_hold_one(adr: Adr, p: Labelled)
    requires
        line_facts(adr, p),
    ensures
        lines_hold(adr, seq![p]),
{
}

proof fn lemma_hold_empty(adr: Adr)
    ensures
        lines_hold(adr, Seq::<Labelled>::empty()),
{
}

proof fn lemma_hold_two(adr: Adr, p: Labelled, q: Labelled)
    requires
        line_facts(adr, p),
        line_facts(adr, q),
    ensures
        lines_hold(adr, seq![p, q]),
{
    lemma_hold_one(adr, p);
    lemma_hold_one(adr, q);
    lemma_hold_concat(adr, seq![p], seq![q]);
    assert(seq![p] + seq![q] =~= seq![p, q]);
}

proof fn lemma_blank_line_facts(adr: Adr)
    ensures
        line_facts(adr, fixed(""@)),
        forall|t: Seq<char>| #[trigger] line_facts(adr, (""@, t)),
{
    reveal_labels();
    assert forall|t: Seq<char>| #[trigger] line_facts(adr, (""@, t)) by {
        let p: Labelled = (""@, t);
        assert(p.0 == ""@);
        assert(known_label(p.0));
        assert(p.0.len() == 0);
    }
}

/// The characters of the labels.
proof fn reveal_labels()
    ensures
        ""@ == Seq::<char>::empty(),
        "# "@ == seq!['#', ' '],
        "Date: "@ == seq!['D', 'a', 't', 'e', ':', ' '],
        "Status: "@ == seq!['S', 't', 'a', 't', 'u', 's', ':', ' '],
        "Last Updated: "@ == seq!['L', 'a', 's', 't', ' ', 'U', 'p', 'd', 'a', 't', 'e', 'd', ':', ' '],
        "Work-Item: "@ == seq!['W', 'o', 'r', 'k', '-', 'I', 't', 'e', 'm', ':', ' '],
        "Links: "@ == seq!['L', 'i', 'n', 'k', 's', ':', ' '],
        "## Context"@ == seq!['#', '#', ' ', 'C', 'o', 'n', 't', 'e', 'x', 't'],
        "## Options"@ == seq!['#', '#', ' ', 'O', 'p', 't', 'i', 'o', 'n', 's'],
        "### "@ == seq!['#', '#', '#', ' '],
        "## Decision"@ == seq!['#', '#', ' ', 'D', 'e', 'c', 'i', 's', 'i', 'o', 'n'],
        "## Consequences"@ == seq!['#', '#', ' ', 'C', 'o', 'n', 's', 'e', 'q', 'u', 'e', 'n', 'c', 'e', 's'],
        "**Positive:**"@ == seq!['*', '*', 'P', 'o', 's', 'i', 't', 'i', 'v', 'e', ':', '*', '*'],
        "**Negative:**"@ == seq!['*', '*', 'N', 'e', 'g', 'a', 't', 'i', 'v', 'e', ':', '*', '*'],
        "**Neutral:**"@ == seq!['*', '*', 'N', 'e', 'u', 't', 'r', 'a', 'l', ':', '*', '*'],
        "- "@ == seq!['-', ' '],
{
    reveal_strlit("");
    assert(""@ =~= Seq::<char>::empty());
    reveal_strlit("# ");
    assert("# "@ =~= seq!['#', ' ']);
    reveal_strlit("Date: ");
    assert("Date: "@ =~= seq!['D', 'a', 't', 'e', ':', ' ']);
    reveal_strlit("Status: ");
    assert("Status: "@ =~= seq!['S', 't', 'a', 't', 'u', 's', ':', ' ']);
    reveal_strlit("Last Updated: ");
    assert("Last Updated: "@ =~= seq!['L', 'a', 's', 't', ' ', 'U', 'p', 'd', 'a', 't', 'e', 'd', ':', ' ']);
    reveal_strlit("Work-Item: ");
    assert("Work-Item: "@ =~= seq!['W', 'o', 'r', 'k', '-', 'I', 't', 'e', 'm', ':', ' ']);
    reveal_strlit("Links: ");
    assert("Links: "@ =~= seq!['L', 'i', 'n', 'k', 's', ':', ' ']);
    reveal_strlit("## Context");
    assert("## Context"@ =~= seq!['#', '#', ' ', 'C', 'o', 'n', 't', 'e', 'x', 't']);
    reveal_strlit("## Options");
    assert("## Options"@ =~= seq!['#', '#', ' ', 'O', 'p', 't', 'i', 'o', 'n', 's']);
    reveal_strlit("### ");
    assert("### "@ =~= seq!['#', '#', '#', ' ']);
    reveal_strlit("## Decision");
    assert("## Decision"@ =~= seq!['#', '#', ' ', 'D', 'e', 'c', 'i', 's', 'i', 'o', 'n']);
    reveal_strlit("## Consequences");
    assert("## Consequences"@ =~= seq!['#', '#', ' ', 'C', 'o', 'n', 's', 'e', 'q', 'u', 'e', 'n', 'c', 'e', 's']);
    reveal_strlit("**Positive:**");
    assert("**Positive:**"@ =~= seq!['*', '*', 'P', 'o', 's', 'i', 't', 'i', 'v', 'e', ':', '*', '*']);
    reveal_strlit("**Negative:**");
    assert("**Negative:**"@ =~= seq!['*', '*', 'N', 'e', 'g', 'a', 't', 'i', 'v', 'e', ':', '*', '*']);
    reveal_strlit("**Neutral:**");
    assert("**Neutral:**"@ =~= seq!['*', '*', 'N', 'e', 'u', 't', 'r', 'a', 'l', ':', '*', '*']);
    reveal_strlit("- ");
    assert("- "@ =~= seq!['-', ' ']);
}

#[verifier::spinoff_prover]
proof fn lemma_option_lines_hold(adr: Adr, os: Seq<AdrOption>)
    ensures
        lines_hold(adr, options_list_lines(os)),
    decreases os.len(),
{
    reveal_labels();
    if os.len() > 0 {
        lemma_option_lines_hold(adr, os.drop_last());
        let o = os.last();
        lemma_blank_line_facts(adr);
        assert(line_facts(adr, ("### "@, o.name@)));
        lemma_hold_two(adr, fixed(""@), ("### "@, o.name@));
        if o.body@.len() > 0 {
            lemma_hold_two(adr, fixed(""@), (""@, o.body@));
            lemma_hold_concat(adr, seq![fixed(""@), ("### "@, o.name@)], seq![fixed(""@), (""@, o.body@)]);
        } else {
            lemma_hold_empty(adr);
            lemma_hold_concat(adr, seq![fixed(""@), ("### "@, o.name@)], Seq::<Labelled>::empty());
        }
        assert(lines_hold(adr, option_lines(o)));
        lemma_hold_concat(adr, options_list_lines(os.drop_last()), option_lines(o));
    }
}

proof fn lemma_bullet_lines_hold(adr: Adr, cs: Seq<Consequence>, kind: Seq<char>)
    ensures
        lines_hold(adr, bullet_lines(cs, kind)),
    decreases cs.len(),
{
    reveal_labels();
    if cs.len() > 0 {
        lemma_bullet_lines_hold(adr, cs.drop_last(), kind);
        let t = if cs.last().kind@ == kind {
            seq![("- "@, cs.last().body@)]
        } else {
            Seq::<Labelled>::empty()
        };
        if cs.last().kind@ == kind {
            lemma_hold_one(adr, ("- "@, cs.last().body@));
        } else {
            lemma_hold_empty(adr);
        }
        lemma_hold_concat(adr, bullet_lines(cs.drop_last(), kind), t);
    }
}

proof fn lemma_group_lines_hold(adr: Adr, kind: Seq<char>, heading: Seq<char>)
    requires
        (kind == "positive"@ && heading == "**Positive:**"@) || (kind == "negative"@ && heading
            == "**Negative:**"@) || (kind == "neutral"@ && heading == "**Neutral:**"@),
    ensures
        lines_hold(adr, group_lines(adr.consequences@, kind, heading)),
{
    reveal_labels();
    reveal_strlit("positive");
    reveal_strlit("negative");
    reveal_strlit("neutral");
    let cs = adr.consequences@;
    if has_kind(cs, kind) {
        lemma_bullet_lines_hold(adr, cs, kind);
        assert(line_facts(adr, fixed(heading)));
        lemma_hold_two(adr, fixed(""@), fixed(heading));
        lemma_hold_concat(adr, seq![fixed(""@), fixed(heading)], bullet_lines(cs, kind));
    }
}

/// Every line of the export has the facts of a line of the export.
#[verifier::spinoff_prover]
proof fn lemma_md_lines_hold(adr: Adr)
    ensures
        lines_hold(adr, md_lines(adr)),
{
    reveal_labels();
    let cs = adr.consequences@;
    lemma_header_hold(adr);
    lemma_context_hold(adr);
    lemma_hold_empty(adr);
    lemma_hold_two(adr, fixed(""@), fixed("## Options"@));
    if adr.options@.len() > 0 {
        lemma_option_lines_hold(adr, adr.options@);
        lemma_hold_concat(adr, seq![fixed(""@), fixed("## Options"@)], options_list_lines(adr.options@));
    }
    assert(lines_hold(adr, options_lines(adr)));
    lemma_decision_hold(adr);
    let h = if has_consequences(cs) {
        seq![fixed(""@), fixed("## Consequences"@)]
    } else {
        Seq::<Labelled>::empty()
    };
    lemma_hold_two(adr, fixed(""@), fixed("## Consequences"@));
    assert(lines_hold(adr, h));
    lemma_group_lines_hold(adr, "positive"@, "**Positive:**"@);
    lemma_group_lines_hold(adr, "negative"@, "**Negative:**"@);
    lemma_group_lines_hold(adr, "neutral"@, "**Neutral:**"@);
    let p = group_lines(cs, "positive"@, "**Positive:**"@);
    let n = group_lines(cs, "negative"@, "**Negative:**"@);
    let u = group_lines(cs, "neutral"@, "**Neutral:**"@);
    lemma_hold_concat(adr, h, p);
    lemma_hold_concat(adr, h + p, n);
    lemma_hold_concat(adr, h + p + n, u);
    let a = header_lines(adr);
    let b = context_lines(adr);
    let c = options_lines(adr);
    let d = decision_lines(adr);
    let e = consequences_lines(adr);
    lemma_hold_concat(adr, a, b);
    lemma_hold_concat(adr, a + b, c);
    lemma_hold_concat(adr, a + b + c, d);
    lemma_hold_concat(adr, a + b + c + d, e);
}

#[verifier::spinoff_prover]
proof fn lemma_header_hold(adr: Adr)
    ensures
        lines_hold(adr, header_lines(adr)),
{
    reveal_labels();
    let x1 = ("# "@, adr.meta.title@);
    let x2 = fixed(""@);
    let x3 = ("Date: "@, adr.meta.date@);
    let x4 = ("Status: "@, adr.meta.status@);
    let x5 = ("Last Updated: "@, adr.meta.last_updated@);
    assert(line_facts(adr, x1));
    assert(line_facts(adr, x2));
    lemma_hold_two(adr, x1, x2);
    lemma_hold_two(adr, x3, x4);
    lemma_hold_one(adr, x5);
    lemma_hold_concat(adr, seq![x1, x2], seq![x3, x4]);
    lemma_hold_concat(adr, seq![x1, x2] + seq![x3, x4], seq![x5]);
    let a = seq![x1, x2, x3, x4, x5];
    assert(seq![x1, x2] + seq![x3, x4] + seq![x5] =~= a);
    let w = if adr.meta.work_item@.len() > 0 {
        seq![("Work-Item: "@, adr.meta.work_item@)]
    } else {
        Seq::<Labelled>::empty()
    };
    let l = if adr.meta.links@.len() > 0 {
        seq![("Links: "@, join_with(views_of(adr.meta.links@), ", "@))]
    } else {
        Seq::<Labelled>::empty()
    };
    lemma_hold_empty(adr);
    if adr.meta.work_item@.len() > 0 {
        lemma_hold_one(adr, w[0]);
    }
    if adr.meta.links@.len() > 0 {
        lemma_hold_one(adr, l[0]);
    }
    lemma_hold_concat(adr, a, w);
    lemma_hold_concat(adr, a + w, l);
}

#[verifier::spinoff_prover]
proof fn lemma_context_hold(adr: Adr)
    ensures
        lines_hold(adr, context_lines(adr)),
{
    reveal_labels();
    lemma_blank_line_facts(adr);
    lemma_hold_empty(adr);
    if adr.context.body@.len() > 0 {
        assert(line_facts(adr, fixed("## Context"@)));
        assert(line_facts(adr, (""@, adr.context.body@)));
        lemma_hold_two(adr, fixed(""@), fixed("## Context"@));
        lemma_hold_two(adr, fixed(""@), (""@, adr.context.body@));
        lemma_hold_concat(adr, seq![fixed(""@), fixed("## Context"@)], seq![fixed(""@), (""@, adr.context.body@)]);
        assert(seq![fixed(""@), fixed("## Context"@)] + seq![fixed(""@), (""@, adr.context.body@)]
            =~= context_lines(adr));
    }
}

#[verifier::spinoff_prover]
proof fn lemma_decision_hold(adr: Adr)
    ensures
        lines_hold(adr, decision_lines(adr)),
{
    reveal_labels();
    lemma_hold_empty(adr);
    if has_decision(adr) {
        let head = seq![fixed(""@), fixed("## Decision"@), fixed(""@)];
        lemma_hold_two(adr, fixed(""@), fixed("## Decision"@));
        lemma_hold_one(adr, fixed(""@));
        lemma_hold_concat(adr, seq![fixed(""@), fixed("## Decision"@)], seq![fixed(""@)]);
        assert(seq![fixed(""@), fixed("## Decision"@)] + seq![fixed(""@)] =~= head);
        let rest = decision_lines(adr).subrange(3, decision_lines(adr).len() as int);
        assert(decision_lines(adr) =~= head + rest);
        match adr.decision.chosen_option {
            Some(idx) => {
                let c = if idx < adr.options@.len() {
                    seq![(""@, chose_line(adr, idx))]
                } else {
                    Seq::<Labelled>::empty()
                };
                let j = match adr.decision.justification {
                    Some(j) => if j@.len() > 0 {
                        seq![fixed(""@), (""@, j@)]
                    } else {
                        Seq::<Labelled>::empty()
                    },
                    None => Seq::<Labelled>::empty(),
                };
                assert(rest =~= c + j);
                if idx < adr.options@.len() {
                    lemma_hold_one(adr, c[0]);
                }
                match adr.decision.justification {
                    Some(jj) => if jj@.len() > 0 {
                        lemma_hold_two(adr, fixed(""@), (""@, jj@));
                    },
                    None => {},
                }
                lemma_hold_concat(adr, c, j);
            },
            None => match adr.decision.body {
                Some(b) => {
                    lemma_hold_one(adr, (""@, b@));
                    assert(rest =~= seq![(""@, b@)]);
                },
                None => {
                    assert(rest =~= Seq::<Labelled>::empty());
                },
            },
        }
        lemma_hold_concat(adr, head, rest);
    }
}

/// The line `p`, label and text, holds `m`.
pub open spec fn line_has(p: Labelled, m: Seq<char>) -> bool {
    contains_seq(p.0 + p.1, m)
}

/// Some text of the ADR that the export shows holds `m`: the title, a date,
/// the status, the work item, the links, the context, an option's name or
/// body, the line naming the chosen option, the justification, the body of
/// the decision, or a listed consequence.
pub open spec fn shows_text(adr: Adr, m: Seq<char>) -> bool {
    exists|i: int| 0 <= i < md_lines(adr).len() && contains_seq(#[trigger] md_lines(adr)[i].1, m)
}

proof fn lemma_labelled_ends(ls: Seq<Labelled>)
    ensures
        ls.len() > 0 ==> labelled_md(ls).len() > 0 && labelled_md(ls).last() == '\n',
{
    reveal_strlit("\n");
    if ls.len() > 0 {
        let x = ls.last().0 + ls.last().1;
        assert(line(x) =~= x.push('\n'));
        assert(labelled_md(ls) =~= labelled_md(ls.drop_last()) + x.push('\n'));
    }
}

/// A text without newlines occurs in lines exactly when it occurs in one of them.
pub proof fn lemma_labelled_contains(ls: Seq<Labelled>, m: Seq<char>)
    requires
        m.len() > 0,
        !m.contains('\n'),
    ensures
        contains_seq(labelled_md(ls), m) == exists|i: int| 0 <= i < ls.len() && #[trigger] line_has(
            ls[i],
            m,
        ),
    decreases ls.len(),
{
    reveal_strlit("\n");
    if ls.len() == 0 {
        assert(!contains_seq(Seq::<char>::empty(), m));
    } else {
        let prev = ls.drop_last();
        lemma_labelled_contains(prev, m);
        lemma_labelled_ends(prev);
        let x = ls.last().0 + ls.last().1;
        let pm = labelled_md(prev);
        lemma_contains_concat(pm, line(x), m);
        lemma_contains_concat(x, "\n"@, m);
        assert(m.contains(m[0]));
        if m[0] == '\n' {
            assert(m.contains('\n'));
        }
        assert(!"\n"@.contains(m[0]));
        lemma_lacks_char("\n"@, m, m[0]);
        if exists|i: int| 0 <= i < ls.len() && #[trigger] line_has(ls[i], m) {
            let i = choose|i: int| 0 <= i < ls.len() && #[trigger] line_has(ls[i], m);
            if i < prev.len() {
                assert(prev[i] == ls[i]);
                assert(line_has(prev[i], m));
            }
        }
        if exists|i: int| 0 <= i < prev.len() && #[trigger] line_has(prev[i], m) {
            let i = choose|i: int| 0 <= i < prev.len() && #[trigger] line_has(prev[i], m);
            assert(prev[i] == ls[i]);
            assert(line_has(ls[i], m));
        }
        if line_has(ls.last(), m) {
            assert(line_has(ls[ls.len() - 1], m));
        }
    }
}

/// A text without newlines or spaces, holding a character that of all the
/// labels only `own` has, occurs in the export exactly when a line labelled
/// `own` is there or a text that the export shows holds it.
proof fn lemma_marker(adr: Adr, m: Seq<char>, own: Seq<char>, c: char)
    requires
        m.len() > 0,
        !m.contains('\n'),
        !m.contains(' '),
        m.contains(c),
        contains_seq(own, m),
        forall|l: Seq<char>| known_label(l) && l != own ==> !l.contains(c),
    ensures
        contains_seq(adr_markdown(adr), m) == ((exists|i: int|
            0 <= i < md_lines(adr).len() && (#[trigger] md_lines(adr)[i]).0 == own) || shows_text(
            adr,
            m,
        )),
{
    let ls = md_lines(adr);
    lemma_export_is_lines(adr);
    lemma_labelled_contains(ls, m);
    lemma_md_lines_hold(adr);
    assert forall|i: int| 0 <= i < ls.len() implies #[trigger] line_has(ls[i], m) == (ls[i].0 == own
        || contains_seq(ls[i].1, m)) by {
        let l = ls[i].0;
        let t = ls[i].1;
        assert(line_facts(adr, ls[i]));
        if l.len() > 0 && t.len() > 0 {
            assert(l.last() == ' ');
        }
        lemma_contains_concat(l, t, m);
        if l != own {
            lemma_lacks_char(l, m, c);
        }
    }
    if contains_seq(adr_markdown(adr), m) {
        let i = choose|i: int| 0 <= i < ls.len() && #[trigger] line_has(ls[i], m);
        if ls[i].0 != own {
            assert(contains_seq(ls[i].1, m));
        }
    }
    if exists|i: int| 0 <= i < ls.len() && (#[trigger] ls[i]).0 == own {
        let i = choose|i: int| 0 <= i < ls.len() && (#[trigger] ls[i]).0 == own;
        assert(line_has(ls[i], m));
    }
    if shows_text(adr, m) {
        let i = choose|i: int| 0 <= i < ls.len() && contains_seq(#[trigger] ls[i].1, m);
        assert(line_has(ls[i], m));
    }
}

/// The export holds `Work-Item:` exactly when the ADR has a work item or a
/// text that the export shows holds it.
pub proof fn lemma_export_work_item(adr: Adr)
    ensures
        contains_seq(adr_markdown(adr), "Work-Item:"@) == (adr.meta.work_item@.len() > 0
            || shows_text(adr, "Work-Item:"@)),
{
    let m = "Work-Item:"@;
    let own = "Work-Item: "@;
    reveal_labels();
    reveal_strlit("Work-Item:");
    assert(m =~= seq!['W', 'o', 'r', 'k', '-', 'I', 't', 'e', 'm', ':']);
    assert(m[0] == 'W');
    assert(own.subrange(0, 10) =~= m);
    assert(crate::text::occurs_at(own, m, 0));
    lemma_marker(adr, m, own, 'W');
    lemma_md_lines_hold(adr);
    let ls = md_lines(adr);
    if exists|i: int| 0 <= i < ls.len() && (#[trigger] ls[i]).0 == own {
        let i = choose|i: int| 0 <= i < ls.len() && (#[trigger] ls[i]).0 == own;
        assert(line_facts(adr, ls[i]));
    }
    if adr.meta.work_item@.len() > 0 {
        let h = header_lines(adr);
        assert(h[5] == (own, adr.meta.work_item@));
        assert(ls[5] == h[5]);
        assert(ls[5].0 == own);
    }
}

/// The index of the heading line of the group of `kind` when there is one.
proof fn lemma_group_heading_at(adr: Adr, kind: Seq<char>, heading: Seq<char>)
    requires
        (kind == "positive"@ && heading == "**Positive:**"@) || (kind == "negative"@ && heading
            == "**Negative:**"@) || (kind == "neutral"@ && heading == "**Neutral:**"@),
        has_kind(adr.consequences@, kind),
    ensures
        exists|i: int| 0 <= i < md_lines(adr).len() && (#[trigger] md_lines(adr)[i]).0 == heading,
{
    let cs = adr.consequences@;
    let pre = header_lines(adr) + context_lines(adr) + options_lines(adr) + decision_lines(adr);
    let h = if has_consequences(cs) {
        seq![fixed(""@), fixed("## Consequences"@)]
    } else {
        Seq::<Labelled>::empty()
    };
    let p = group_lines(cs, "positive"@, "**Positive:**"@);
    let n = group_lines(cs, "negative"@, "**Negative:**"@);
    let u = group_lines(cs, "neutral"@, "**Neutral:**"@);
    let e = consequences_lines(adr);
    assert(md_lines(adr) == pre + e);
    assert(e == h + p + n + u);
    let g = group_lines(cs, kind, heading);
    assert(g[1] == fixed(heading));
    let k: int = if kind == "positive"@ && heading == "**Positive:**"@ {
        assert(g == p);
        h.len() + 1int
    } else if kind == "negative"@ && heading == "**Negative:**"@ {
        assert(g == n);
        h.len() + p.len() + 1int
    } else {
        assert(g == u);
        h.len() + p.len() + n.len() + 1int
    };
    assert(e[k] == g[1]);
    let i: int = pre.len() + k;
    assert(md_lines(adr)[i] == e[k]);
    assert(md_lines(adr)[i].0 == heading);
}

proof fn lemma_group_marker(adr: Adr, kind: Seq<char>, heading: Seq<char>, c: char)
    requires
        (kind == "positive"@ && heading == "**Positive:**"@ && c == 'P') || (kind == "negative"@
            && heading == "**Negative:**"@ && c == 'g') || (kind == "neutral"@ && heading
            == "**Neutral:**"@ && c == 'l'),
    ensures
        contains_seq(adr_markdown(adr), heading) == (has_kind(adr.consequences@, kind)
            || shows_text(adr, heading)),
{
    reveal_labels();
    assert(heading.subrange(0, heading.len() as int) =~= heading);
    assert(crate::text::occurs_at(heading, heading, 0));
    if c == 'P' {
        assert(heading[2] == 'P');
    } else if c == 'g' {
        assert(heading[4] == 'g');
    } else {
        assert(heading[8] == 'l');
    }
    assert(heading.contains(c));
    lemma_marker(adr, heading, heading, c);
    lemma_md_lines_hold(adr);
    let ls = md_lines(adr);
    if exists|i: int| 0 <= i < ls.len() && (#[trigger] ls[i]).0 == heading {
        let i = choose|i: int| 0 <= i < ls.len() && (#[trigger] ls[i]).0 == heading;
        assert(line_facts(adr, ls[i]));
    }
    if has_kind(adr.consequences@, kind) {
        lemma_group_heading_at(adr, kind, heading);
    }
}

/// Each group heading of the consequences, `**Positive:**`, `**Negative:**`
/// and `**Neutral:**`, occurs in the export exactly when a consequence of its
/// kind exists or a text that the export shows holds it.
pub proof fn lemma_export_consequence_groups(adr: Adr)
    ensures
        contains_seq(adr_markdown(adr), "**Positive:**"@) == (has_kind(
            adr.consequences@,
            "positive"@,
        ) || shows_text(adr, "**Positive:**"@)),
        contains_seq(adr_markdown(adr), "**Negative:**"@) == (has_kind(
            adr.consequences@,
            "negative"@,
        ) || shows_text(adr, "**Negative:**"@)),
        contains_seq(adr_markdown(adr), "**Neutral:**"@) == (has_kind(
            adr.consequences@,
            "neutral"@,
        ) || shows_text(adr, "**Neutral:**"@)),
{
    lemma_group_marker(adr, "positive"@, "**Positive:**"@, 'P');
    lemma_group_marker(adr, "negative"@, "**Negative:**"@, 'g');
    lemma_group_marker(adr, "neutral"@, "**Neutral:**"@, 'l');
}

/// The export has its consequences heading line exactly when some
/// consequence is positive, negative or neutral.
pub proof fn lemma_export_consequences_heading(adr: Adr)
    ensures
        adr_markdown(adr) == labelled_md(md_lines(adr)),
        consequences_lines(adr).contains(fixed("## Consequences"@)) == has_consequences(
            adr.consequences@,
        ),
{
    lemma_export_is_lines(adr);
    reveal_labels();
    let cs = adr.consequences@;
    lemma_md_lines_hold(adr);
    let e = consequences_lines(adr);
    if has_consequences(cs) {
        assert(e[1] == fixed("## Consequences"@));
    } else {
        assert(!has_kind(cs, "positive"@) && !has_kind(cs, "negative"@) && !has_kind(cs, "neutral"@));
        assert(e =~= Seq::<Labelled>::empty());
    }
}

} // verus!
