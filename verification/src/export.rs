//! Markdown export of an ADR.

use vstd::prelude::*;
use crate::schema::{Adr, AdrOption, Consequence};
use crate::text::{contains_seq, decimal, occurs_at, push_decimal, str_eq, views_of};

verus! {

/// A line of output: the text and a newline.
pub open spec fn line(s: Seq<char>) -> Seq<char> {
    s + "\n"@
}

/// `ss` joined by `sep`.
pub open spec fn join_with(ss: Seq<Seq<char>>, sep: Seq<char>) -> Seq<char>
    decreases ss.len(),
{
    if ss.len() == 0 {
        Seq::empty()
    } else if ss.len() == 1 {
        ss[0]
    } else {
        join_with(ss.drop_last(), sep) + sep + ss.last()
    }
}

/// Title block: title heading, date, status, last update, and the work item
/// and links when there are any.
pub open spec fn header_md(adr: Adr) -> Seq<char> {
    line("# "@ + adr.meta.title@) + line(""@) + line("Date: "@ + adr.meta.date@) + line(
        "Status: "@ + adr.meta.status@,
    ) + line("Last Updated: "@ + adr.meta.last_updated@) + (if adr.meta.work_item@.len() > 0 {
        line("Work-Item: "@ + adr.meta.work_item@)
    } else {
        Seq::empty()
    }) + (if adr.meta.links@.len() > 0 {
        line("Links: "@ + join_with(views_of(adr.meta.links@), ", "@))
    } else {
        Seq::empty()
    })
}

/// The context section, when the context has a body.
pub open spec fn context_md(adr: Adr) -> Seq<char> {
    if adr.context.body@.len() > 0 {
        line(""@) + line("## Context"@) + line(""@) + line(adr.context.body@)
    } else {
        Seq::empty()
    }
}

/// One option: its name as a heading, then its body when it has one.
pub open spec fn option_md(o: AdrOption) -> Seq<char> {
    line(""@) + line("### "@ + o.name@) + if o.body@.len() > 0 {
        line(""@) + line(o.body@)
    } else {
        Seq::empty()
    }
}

/// The options, one after the other.
pub open spec fn options_list_md(os: Seq<AdrOption>) -> Seq<char>
    decreases os.len(),
{
    if os.len() == 0 {
        Seq::empty()
    } else {
        options_list_md(os.drop_last()) + option_md(os.last())
    }
}

/// The options section, when there are options.
pub open spec fn options_md(adr: Adr) -> Seq<char> {
    if adr.options@.len() > 0 {
        line(""@) + line("## Options"@) + options_list_md(adr.options@)
    } else {
        Seq::empty()
    }
}

/// Whether the decision says anything: a chosen option or a non-empty body.
pub open spec fn has_decision(adr: Adr) -> bool {
    adr.decision.chosen_option is Some || (adr.decision.body matches Some(b) && b@.len() > 0)
}

/// The decision section: the chosen option (numbered from 1) when it
/// exists and the justification when it is non-empty; or else the body.
pub open spec fn decision_md(adr: Adr) -> Seq<char> {
    if has_decision(adr) {
        line(""@) + line("## Decision"@) + line(""@) + match adr.decision.chosen_option {
            Some(idx) => (if idx < adr.options@.len() {
                line(
                    "Chose **"@ + adr.options@[idx as int].name@ + "** (Option "@ + decimal(
                        (idx + 1) as nat,
                    ) + ")"@,
                )
            } else {
                Seq::empty()
            }) + match adr.decision.justification {
                Some(j) => if j@.len() > 0 {
                    line(""@) + line(j@)
                } else {
                    Seq::empty()
                },
                None => Seq::empty(),
            },
            None => match adr.decision.body {
                Some(b) => line(b@),
                None => Seq::empty(),
            },
        }
    } else {
        Seq::empty()
    }
}

/// Some consequence is of kind `kind`.
pub open spec fn has_kind(cs: Seq<Consequence>, kind: Seq<char>) -> bool {
    exists|i: int| 0 <= i < cs.len() && (#[trigger] cs[i]).kind@ == kind
}

/// A bullet for each consequence of kind `kind`, in order.
pub open spec fn bullets(cs: Seq<Consequence>, kind: Seq<char>) -> Seq<char>
    decreases cs.len(),
{
    if cs.len() == 0 {
        Seq::empty()
    } else {
        bullets(cs.drop_last(), kind) + if cs.last().kind@ == kind {
            line("- "@ + cs.last().body@)
        } else {
            Seq::empty()
        }
    }
}

/// The group of consequences of kind `kind` under `heading`, when there are any.
pub open spec fn group_md(cs: Seq<Consequence>, kind: Seq<char>, heading: Seq<char>) -> Seq<char> {
    if has_kind(cs, kind) {
        line(""@) + line(heading) + bullets(cs, kind)
    } else {
        Seq::empty()
    }
}

/// The consequences section: positive, negative and neutral groups, each
/// only when it has members, under a heading when any group has.
pub open spec fn consequences_md(adr: Adr) -> Seq<char> {
    let cs = adr.consequences@;
    (if has_kind(cs, "positive"@) || has_kind(cs, "negative"@) || has_kind(cs, "neutral"@) {
        line(""@) + line("## Consequences"@)
    } else {
        Seq::empty()
    }) + group_md(cs, "positive"@, "**Positive:**"@) + group_md(cs, "negative"@, "**Negative:**"@)
        + group_md(cs, "neutral"@, "**Neutral:**"@)
}

/// The Markdown rendering of an ADR.
pub open spec fn adr_markdown(adr: Adr) -> Seq<char> {
    header_md(adr) + context_md(adr) + options_md(adr) + decision_md(adr) + consequences_md(adr)
}

/// When option `i` is the chosen one, the export has a line of its own that
/// names it by name and by its position counted from 1.
pub proof fn lemma_export_names_chosen_option(adr: Adr, i: usize)
    requires
        adr.decision.chosen_option == Some(i),
        i < adr.options@.len(),
    ensures
        contains_seq(
            adr_markdown(adr),
            "\n"@ + "Chose **"@ + adr.options@[i as int].name@ + "** (Option "@ + decimal(
                (i + 1) as nat,
            ) + ")"@ + "\n"@,
        ),
{
    reveal_strlit("\n");
    reveal_strlit("");
    let chose = "Chose **"@ + adr.options@[i as int].name@ + "** (Option "@ + decimal(
        (i + 1) as nat,
    ) + ")"@;
    let x = "\n"@ + chose + "\n"@;
    let j = match adr.decision.justification {
        Some(j) => if j@.len() > 0 {
            line(""@) + line(j@)
        } else {
            Seq::empty()
        },
        None => Seq::empty(),
    };
    assert(has_decision(adr));
    assert(decision_md(adr) == line(""@) + line("## Decision"@) + line(""@) + line(chose) + j);
    let p = header_md(adr) + context_md(adr) + options_md(adr) + line(""@) + ("## Decision"@
        + "\n"@);
    let q = j + consequences_md(adr);
    assert(adr_markdown(adr) =~= p + x + q);
    assert((p + x + q).subrange(p.len() as int, p.len() + x.len() as int) =~= x);
    assert(occurs_at(adr_markdown(adr), x, p.len() as int));
    assert(x =~= "\n"@ + "Chose **"@ + adr.options@[i as int].name@ + "** (Option "@ + decimal(
        (i + 1) as nat,
    ) + ")"@ + "\n"@);
}

fn push_line(out: &mut String, s: &str)
    ensures
        final(out)@ == old(out)@ + line(s@),
{
    out.append(s);
    out.append("\n");
}

fn push_prefixed_line(out: &mut String, prefix: &str, s: &str)
    ensures
        final(out)@ == old(out)@ + line(prefix@ + s@),
{
    out.append(prefix);
    out.append(s);
    out.append("\n");
    assert(final(out)@ =~= old(out)@ + line(prefix@ + s@));
}

fn push_joined(out: &mut String, items: &Vec<String>)
    ensures
        final(out)@ == old(out)@ + join_with(views_of(items@), ", "@),
{
    let ghost before = out@;
    for i in 0..items.len()
        invariant
            out@ == before + join_with(views_of(items@.take(i as int)), ", "@),
    {
        let ghost prev = views_of(items@.take(i as int));
        if i > 0 {
            out.append(", ");
        }
        out.append(items[i].as_str());
        assert(views_of(items@.take(i + 1)).drop_last() =~= prev);
        assert(views_of(items@.take(i + 1)).last() == items@[i as int]@);
        if i == 0 {
            assert(views_of(items@.take(1)).len() == 1);
        }
    }
    assert(items@.take(items@.len() as int) =~= items@);
}

#[verifier::spinoff_prover]
fn push_header(out: &mut String, adr: &Adr)
    ensures
        final(out)@ == old(out)@ + header_md(*adr),
{
    let ghost start = out@;
    push_prefixed_line(out, "# ", adr.meta.title.as_str());
    push_line(out, "");
    push_prefixed_line(out, "Date: ", adr.meta.date.as_str());
    push_prefixed_line(out, "Status: ", adr.meta.status.as_str());
    push_prefixed_line(out, "Last Updated: ", adr.meta.last_updated.as_str());
    let ghost mid = out@;
    if adr.meta.work_item.as_str().unicode_len() > 0 {
        push_prefixed_line(out, "Work-Item: ", adr.meta.work_item.as_str());
    }
    let ghost mid2 = out@;
    if adr.meta.links.len() > 0 {
        let mut links = String::from_str("Links: ");
        push_joined(&mut links, &adr.meta.links);
        push_line(out, links.as_str());
    }
    assert(out@ =~= start + header_md(*adr));
}

fn push_context(out: &mut String, adr: &Adr)
    ensures
        final(out)@ == old(out)@ + context_md(*adr),
{
    if adr.context.body.as_str().unicode_len() > 0 {
        push_line(out, "");
        push_line(out, "## Context");
        push_line(out, "");
        push_line(out, adr.context.body.as_str());
    }
    assert(final(out)@ =~= old(out)@ + context_md(*adr));
}

fn push_options(out: &mut String, adr: &Adr)
    ensures
        final(out)@ == old(out)@ + options_md(*adr),
{
    let ghost start = out@;
    let os = &adr.options;
    if os.len() > 0 {
        push_line(out, "");
        push_line(out, "## Options");
        let ghost before = out@;
        for i in 0..os.len()
            invariant
                out@ == before + options_list_md(os@.take(i as int)),
        {
            let ghost prev = out@;
            push_line(out, "");
            push_prefixed_line(out, "### ", os[i].name.as_str());
            if os[i].body.as_str().unicode_len() > 0 {
                push_line(out, "");
                push_line(out, os[i].body.as_str());
            }
            assert(os@.take(i + 1).drop_last() =~= os@.take(i as int));
            assert(out@ =~= prev + option_md(os@[i as int]));
        }
        assert(os@.take(os@.len() as int) =~= os@);
    }
    assert(out@ =~= start + options_md(*adr));
}

fn push_decision(out: &mut String, adr: &Adr)
    ensures
        final(out)@ == old(out)@ + decision_md(*adr),
{
    let ghost start = out@;
    let has = adr.decision.chosen_option.is_some() || match &adr.decision.body {
        Some(b) => b.as_str().unicode_len() > 0,
        None => false,
    };
    if has {
        push_line(out, "");
        push_line(out, "## Decision");
        push_line(out, "");
        let ghost mid = out@;
        match adr.decision.chosen_option {
            Some(idx) => {
                if idx < adr.options.len() {
                    let mut chose = String::from_str("Chose **");
                    chose.append(adr.options[idx].name.as_str());
                    chose.append("** (Option ");
                    push_decimal(&mut chose, (idx + 1) as u64);
                    chose.append(")");
                    push_line(out, chose.as_str());
                    assert(out@ =~= mid + line(
                        "Chose **"@ + adr.options@[idx as int].name@ + "** (Option "@ + decimal(
                            (idx + 1) as nat,
                        ) + ")"@,
                    ));
                }
                let ghost mid2 = out@;
                match &adr.decision.justification {
                    Some(j) => {
                        if j.as_str().unicode_len() > 0 {
                            push_line(out, "");
                            push_line(out, j.as_str());
                        }
                    },
                    None => {},
                }
                assert(out@ =~= mid2 + match adr.decision.justification {
                    Some(j) => if j@.len() > 0 {
                        line(""@) + line(j@)
                    } else {
                        Seq::empty()
                    },
                    None => Seq::empty(),
                });
            },
            None => {
                match &adr.decision.body {
                    Some(b) => push_line(out, b.as_str()),
                    None => {},
                }
            },
        }
    }
    assert(out@ =~= start + decision_md(*adr));
}

/// Appends the bullets of kind `kind` and tells whether there were any.
fn push_bullets(out: &mut String, cs: &Vec<Consequence>, kind: &str) -> (found: bool)
    ensures
        final(out)@ == old(out)@ + bullets(cs@, kind@),
        found == has_kind(cs@, kind@),
{
    let ghost start = out@;
    let mut found = false;
    for i in 0..cs.len()
        invariant
            out@ == start + bullets(cs@.take(i as int), kind@),
            found == has_kind(cs@.take(i as int), kind@),
    {
        let ghost prev = out@;
        assert(cs@.take(i + 1).drop_last() =~= cs@.take(i as int));
        assert(cs@.take(i + 1).last() == cs@[i as int]);
        if str_eq(cs[i].kind.as_str(), kind) {
            push_prefixed_line(out, "- ", cs[i].body.as_str());
            found = true;
            assert(cs@.take(i + 1)[i as int] == cs@[i as int]);
        } else {
            assert forall|k: int| 0 <= k < i + 1 && (#[trigger] cs@.take(i + 1)[k]).kind@
                == kind@ implies k < i by {}
            assert(has_kind(cs@.take(i + 1), kind@) ==> has_kind(cs@.take(i as int), kind@)) by {
                if has_kind(cs@.take(i + 1), kind@) {
                    let k = choose|k: int| 0 <= k < i + 1 && (#[trigger] cs@.take(i + 1)[k]).kind@
                        == kind@;
                    assert(cs@.take(i as int)[k] == cs@.take(i + 1)[k]);
                }
            }
        }
        assert(has_kind(cs@.take(i as int), kind@) ==> has_kind(cs@.take(i + 1), kind@)) by {
            if has_kind(cs@.take(i as int), kind@) {
                let k = choose|k: int| 0 <= k < i && (#[trigger] cs@.take(i as int)[k]).kind@
                    == kind@;
                assert(cs@.take(i as int)[k] == cs@.take(i + 1)[k]);
            }
        }
    }
    assert(cs@.take(cs@.len() as int) =~= cs@);
    found
}

fn push_consequences(out: &mut String, adr: &Adr)
    ensures
        final(out)@ == old(out)@ + consequences_md(*adr),
{
    let ghost start = out@;
    let cs = &adr.consequences;
    let mut pos = String::new();
    let mut neg = String::new();
    let mut neu = String::new();
    let has_pos = push_bullets(&mut pos, cs, "positive");
    let has_neg = push_bullets(&mut neg, cs, "negative");
    let has_neu = push_bullets(&mut neu, cs, "neutral");
    if has_pos || has_neg || has_neu {
        push_line(out, "");
        push_line(out, "## Consequences");
    }
    if has_pos {
        push_line(out, "");
        push_line(out, "**Positive:**");
        out.append(pos.as_str());
    }
    if has_neg {
        push_line(out, "");
        push_line(out, "**Negative:**");
        out.append(neg.as_str());
    }
    if has_neu {
        push_line(out, "");
        push_line(out, "**Neutral:**");
        out.append(neu.as_str());
    }
    assert(out@ =~= start + consequences_md(*adr));
}

/// Renders an ADR as Markdown: title block, then the context, options,
/// decision and consequences sections that have content.
pub fn export_markdown(adr: &Adr) -> (r: String)
    ensures
        r@ == adr_markdown(*adr),
{
    let mut out = String::new();
    push_header(&mut out, adr);
    push_context(&mut out, adr);
    push_options(&mut out, adr);
    push_decision(&mut out, adr);
    push_consequences(&mut out, adr);
    assert(out@ =~= adr_markdown(*adr));
    out
}

} // verus!
