//! Problem intake: the sections of a problem statement, the builder that
//! collects them, its Markdown rendering, and the decisions of the intake form.

use vstd::prelude::*;
use vstd::string::StringSliceAdditionalSpecFns;
use vstd::utf8::{decode_utf8, encode_utf8, encode_utf8_decode_utf8, is_char_boundary};
use crate::export::join_with;
use crate::text::{
    char_is_alphanumeric, chars_of, decimal, is_alphanumeric_char, is_blank,
    is_blank_seq, lines_of, lowercase_of, push_decimal, split_lines, string_of,
    to_lowercase, trim, trim_char, trim_char_seq, trim_seq, views_of, index_of_char,
    lemma_index_of_char, strip_cr, is_whitespace_char, contains_seq, occurs_at, lemma_contains_within, lemma_trim_empty_iff_blank,
};

verus! {

/// The sections a problem statement has.
#[derive(Clone, Copy, Debug, PartialEq, Eq, Structural)]
pub enum Section {
    Details,
    Goals,
    Constraints,
    Stakeholders,
    Decisions,
}

/// The sections in form order.
pub open spec fn all_sections() -> Seq<Section> {
    seq![
        Section::Details,
        Section::Goals,
        Section::Constraints,
        Section::Stakeholders,
        Section::Decisions,
    ]
}

/// The position of a section in form order.
pub open spec fn section_index(s: Section) -> int {
    match s {
        Section::Details => 0,
        Section::Goals => 1,
        Section::Constraints => 2,
        Section::Stakeholders => 3,
        Section::Decisions => 4,
    }
}

/// The key that selects a section.
pub open spec fn key_of(s: Section) -> char {
    match s {
        Section::Details => 'd',
        Section::Goals => 'g',
        Section::Constraints => 'c',
        Section::Stakeholders => 's',
        Section::Decisions => 'n',
    }
}

/// The section a key selects.
pub open spec fn section_for_key(c: char) -> Option<Section> {
    if c == 'd' {
        Some(Section::Details)
    } else if c == 'g' {
        Some(Section::Goals)
    } else if c == 'c' {
        Some(Section::Constraints)
    } else if c == 's' {
        Some(Section::Stakeholders)
    } else if c == 'n' {
        Some(Section::Decisions)
    } else {
        None
    }
}

/// The form label of a section.
pub open spec fn label_of(s: Section) -> Seq<char> {
    match s {
        Section::Details => "details"@,
        Section::Goals => "goals"@,
        Section::Constraints => "constraints"@,
        Section::Stakeholders => "stakeholders"@,
        Section::Decisions => "decisions needed"@,
    }
}

/// The Markdown heading of a section.
pub open spec fn heading_of(s: Section) -> Seq<char> {
    match s {
        Section::Details => "Problem Statement"@,
        Section::Goals => "Goals"@,
        Section::Constraints => "Constraints"@,
        Section::Stakeholders => "Stakeholders"@,
        Section::Decisions => "Decisions Needed"@,
    }
}

/// The prompt shown for an empty section.
pub open spec fn placeholder_of(s: Section) -> Seq<char> {
    match s {
        Section::Details => "Describe the problem. What system is affected? What triggered this?"@,
        Section::Goals => "What does success look like? One goal per line."@,
        Section::Constraints => "Known constraints, requirements, or boundaries. One per line."@,
        Section::Stakeholders => "Who cares about this decision? One per line."@,
        Section::Decisions => "What distinct decisions does this problem require? One per line.\nEach decision becomes one ADR."@,
    }
}

impl Section {
    /// All sections, in form order.
    pub fn all() -> (r: &'static [Section])
        ensures
            r@ == all_sections(),
    {
        let r: &'static [Section] = &[
            Section::Details,
            Section::Goals,
            Section::Constraints,
            Section::Stakeholders,
            Section::Decisions,
        ];
        assert(r@ =~= all_sections());
        r
    }

    /// The position of this section in form order.
    pub fn index(&self) -> (r: usize)
        ensures
            r == section_index(*self),
    {
        match self {
            Section::Details => 0,
            Section::Goals => 1,
            Section::Constraints => 2,
            Section::Stakeholders => 3,
            Section::Decisions => 4,
        }
    }

    /// The key that selects this section.
    pub fn key(&self) -> (r: char)
        ensures
            r == key_of(*self),
    {
        match self {
            Section::Details => 'd',
            Section::Goals => 'g',
            Section::Constraints => 'c',
            Section::Stakeholders => 's',
            Section::Decisions => 'n',
        }
    }

    /// The form label of this section.
    pub fn label(&self) -> (r: &'static str)
        ensures
            r@ == label_of(*self),
    {
        match self {
            Section::Details => "details",
            Section::Goals => "goals",
            Section::Constraints => "constraints",
            Section::Stakeholders => "stakeholders",
            Section::Decisions => "decisions needed",
        }
    }

    /// The Markdown heading of this section.
    pub fn heading(&self) -> (r: &'static str)
        ensures
            r@ == heading_of(*self),
    {
        match self {
            Section::Details => "Problem Statement",
            Section::Goals => "Goals",
            Section::Constraints => "Constraints",
            Section::Stakeholders => "Stakeholders",
            Section::Decisions => "Decisions Needed",
        }
    }

    /// The prompt for this section.
    pub fn placeholder(&self) -> (r: &'static str)
        ensures
            r@ == placeholder_of(*self),
    {
        match self {
            Section::Details => "Describe the problem. What system is affected? What triggered this?",
            Section::Goals => "What does success look like? One goal per line.",
            Section::Constraints => "Known constraints, requirements, or boundaries. One per line.",
            Section::Stakeholders => "Who cares about this decision? One per line.",
            Section::Decisions => "What distinct decisions does this problem require? One per line.\nEach decision becomes one ADR.",
        }
    }

    /// The first section, in form order, whose key is `c`.
    pub fn from_key(c: char) -> (r: Option<Section>)
        ensures
            r == section_for_key(c),
    {
        let all = Section::all();
        for i in 0..all.len()
            invariant
                all@ == all_sections(),
                forall|k: int| 0 <= k < i ==> key_of(#[trigger] all@[k]) != c,
        {
            if all[i].key() == c {
                return Some(all[i]);
            }
        }
        None
    }
}

/// A key selects the section it belongs to, and only that one.
pub proof fn lemma_key_round_trip(s: Section, c: char)
    ensures
        section_for_key(key_of(s)) == Some(s),
        section_for_key(c) == Some(s) ==> key_of(s) == c,
{
}

/// The position of each section is that of its place in form order.
pub proof fn lemma_section_positions(s: Section)
    ensures
        0 <= section_index(s) < 5,
        all_sections()[section_index(s)] == s,
{
}

/// The number of non-blank texts in `ts`.
pub open spec fn nonblank_count(ts: Seq<Seq<char>>) -> nat
    decreases ts.len(),
{
    if ts.len() == 0 {
        0
    } else {
        nonblank_count(ts.drop_last()) + if is_blank_seq(ts.last()) {
            0nat
        } else {
            1nat
        }
    }
}

/// Counts the texts of `ts` that are not blank.
pub fn count_nonblank(ts: &Vec<String>) -> (r: usize)
    ensures
        r == nonblank_count(views_of(ts@)),
{
    let mut n: usize = 0;
    for i in 0..ts.len()
        invariant
            n == nonblank_count(views_of(ts@).take(i as int)),
            n <= i,
    {
        assert(views_of(ts@).take(i + 1).drop_last() =~= views_of(ts@).take(i as int));
        assert(views_of(ts@).take(i + 1).last() == ts@[i as int]@);
        if !is_blank(ts[i].as_str()) {
            n = n + 1;
        }
    }
    assert(views_of(ts@).take(ts@.len() as int) =~= views_of(ts@));
    n
}

/// The characters of `s` with every non-alphanumeric one replaced by `-`.
pub open spec fn dashed(s: Seq<char>) -> Seq<char> {
    s.map_values(|c: char| if is_alphanumeric_char(c) { c } else { '-' })
}

/// The file slug of a problem title: lowercased, non-alphanumeric characters
/// replaced by hyphens, hyphens trimmed from both ends, at most 50 characters.
pub open spec fn problem_slug(title: Seq<char>) -> Seq<char> {
    let t = trim_char_seq(dashed(lowercase_of(title)), '-');
    if t.len() <= 50 {
        t
    } else {
        t.take(50)
    }
}

/// A problem statement being filled in, one text per section.
pub struct ProblemBuilder {
    title: String,
    sections: Vec<(Section, String)>,
}

impl ProblemBuilder {
    /// One entry per section, in form order.
    pub closed spec fn wf(&self) -> bool {
        &&& self.sections@.len() == 5
        &&& forall|i: int| 0 <= i < 5 ==> (#[trigger] self.sections@[i]).0 == all_sections()[i]
    }

    /// The title of the problem.
    pub closed spec fn title_text(&self) -> Seq<char> {
        self.title@
    }

    /// The texts of the sections, in form order.
    pub closed spec fn contents(&self) -> Seq<Seq<char>> {
        Seq::new(5, |i: int| self.sections@[i].1@)
    }

    /// The text of one section.
    pub open spec fn content(&self, s: Section) -> Seq<char> {
        self.contents()[section_index(s)]
    }

    /// A problem titled `title` with every section empty.
    pub fn new(title: String) -> (r: Self)
        ensures
            r.wf(),
            r.title_text() == title@,
            forall|i: int| 0 <= i < 5 ==> (#[trigger] r.contents()[i]).len() == 0,
    {
        let all = Section::all();
        let mut sections: Vec<(Section, String)> = Vec::new();
        for i in 0..all.len()
            invariant
                all@ == all_sections(),
                sections@.len() == i,
                forall|k: int| 0 <= k < i ==> (#[trigger] sections@[k]).0 == all_sections()[k]
                    && sections@[k].1@.len() == 0,
        {
            sections.push((all[i], String::new()));
        }
        ProblemBuilder { title, sections }
    }

    /// The title of the problem.
    pub fn title(&self) -> (r: &str)
        ensures
            r@ == self.title_text(),
    {
        self.title.as_str()
    }

    /// The text of `section`.
    pub fn get(&self, section: Section) -> (r: &str)
        requires
            self.wf(),
        ensures
            r@ == self.content(section),
    {
        self.sections[section.index()].1.as_str()
    }

    /// Replaces the text of `section`; every other section and the title
    /// stay as they were.
    pub fn set(&mut self, section: Section, value: String)
        requires
            old(self).wf(),
        ensures
            final(self).wf(),
            final(self).title_text() == old(self).title_text(),
            final(self).contents() == old(self).contents().update(section_index(section), value@),
    {
        let i = section.index();
        let ghost before = self.contents();
        self.sections.set(i, (section, value));
        assert(self.contents() =~= before.update(section_index(section), value@));
    }

    /// Whether `section` has non-blank text.
    pub fn is_filled(&self, section: Section) -> (r: bool)
        requires
            self.wf(),
        ensures
            r == !is_blank_seq(self.content(section)),
    {
        !is_blank(self.get(section))
    }

    /// The number of sections with non-blank text.
    pub fn filled_count(&self) -> (r: usize)
        requires
            self.wf(),
        ensures
            r == nonblank_count(self.contents()),
    {
        let mut n: usize = 0;
        for i in 0..self.sections.len()
            invariant
                self.wf(),
                n == nonblank_count(self.contents().take(i as int)),
                n <= i,
        {
            assert(self.contents().take(i + 1).drop_last() =~= self.contents().take(i as int));
            if !is_blank(self.sections[i].1.as_str()) {
                n = n + 1;
            }
        }
        assert(self.contents().take(5) =~= self.contents());
        n
    }

    /// The file slug of the title.
    pub fn slug(&self) -> (r: String)
        ensures
            r@ == problem_slug(self.title_text()),
    {
        let lower = to_lowercase(self.title.as_str());
        let cs = chars_of(lower.as_str());
        let mut mapped: Vec<char> = Vec::new();
        for i in 0..cs.len()
            invariant
                cs@ == lowercase_of(self.title@),
                mapped@ == dashed(cs@).take(i as int),
        {
            let c = cs[i];
            if char_is_alphanumeric(c) {
                mapped.push(c);
            } else {
                mapped.push('-');
            }
            assert(dashed(cs@).take(i + 1) =~= dashed(cs@).take(i as int).push(dashed(cs@)[i as int]));
        }
        assert(dashed(cs@).take(cs@.len() as int) =~= dashed(cs@));
        let t = trim_char(mapped.as_slice(), '-');
        if t.len() <= 50 {
            string_of(t.as_slice())
        } else {
            let s = string_of(t.as_slice());
            let r = String::from_str(s.as_str().substring_char(0, 50));
            assert(r@ =~= t@.take(50));
            r
        }
    }
}

/// Reading a section after setting it gives the value set; every other
/// section reads as before.
pub proof fn lemma_get_after_set(contents: Seq<Seq<char>>, s: Section, t: Section, v: Seq<char>)
    requires
        contents.len() == 5,
    ensures
        contents.update(section_index(s), v)[section_index(t)] == if s == t {
            v
        } else {
            contents[section_index(t)]
        },
{
}

/// The first line of `s`, or nothing when `s` has no line.
pub open spec fn first_line_of(s: Seq<char>) -> Seq<char> {
    if lines_of(s).len() > 0 {
        lines_of(s)[0]
    } else {
        Seq::empty()
    }
}

/// The first line of `s` (empty when there is none).
pub fn first_line(s: &str) -> (r: String)
    ensures
        r@ == first_line_of(s@),
{
    let mut ls = split_lines(s);
    if ls.len() > 0 {
        assert(views_of(ls@)[0] == ls@[0]@);
        ls.swap_remove(0)
    } else {
        String::new()
    }
}

/// A trimmed line that already reads as a list item: it starts with `- `,
/// `* ` or an ASCII digit.
pub open spec fn is_list_item(t: Seq<char>) -> bool {
    (t.len() >= 2 && t[0] == '-' && t[1] == ' ') || (t.len() >= 2 && t[0] == '*' && t[1] == ' ')
        || (t.len() > 0 && '0' <= t[0] && t[0] <= '9')
}

/// The Markdown list of the non-blank lines, trimmed, each made a list item
/// when it is not one already.
pub open spec fn list_md(ls: Seq<Seq<char>>) -> Seq<char>
    decreases ls.len(),
{
    if ls.len() == 0 {
        Seq::empty()
    } else {
        let t = trim_seq(ls.last());
        list_md(ls.drop_last()) + if t.len() == 0 {
            Seq::empty()
        } else if is_list_item(t) {
            t + "\n"@
        } else {
            "- "@ + t + "\n"@
        }
    }
}

/// The Markdown of one section: its heading, then the placeholder's first
/// line as a comment when the section is blank, the trimmed text for the
/// details, or the list of its lines for any other section.
pub open spec fn section_md(s: Section, content: Seq<char>) -> Seq<char> {
    "\n## "@ + heading_of(s) + "\n\n"@ + if is_blank_seq(content) {
        "<!-- "@ + first_line_of(placeholder_of(s)) + " -->\n"@
    } else if s == Section::Details {
        trim_seq(content) + "\n"@
    } else {
        list_md(lines_of(content))
    }
}

/// The sections' Markdown, in form order.
pub open spec fn sections_md(contents: Seq<Seq<char>>, n: int) -> Seq<char>
    decreases n,
{
    if n <= 0 {
        Seq::empty()
    } else {
        sections_md(contents, n - 1) + section_md(all_sections()[n - 1], contents[n - 1])
    }
}

proof fn lemma_list_md_concat(a: Seq<Seq<char>>, b: Seq<Seq<char>>)
    ensures
        list_md(a + b) == list_md(a) + list_md(b),
    decreases b.len(),
{
    if b.len() == 0 {
        assert(a + b =~= a);
        assert(list_md(a) + list_md(b) =~= list_md(a));
    } else {
        lemma_list_md_concat(a, b.drop_last());
        assert((a + b).drop_last() =~= a + b.drop_last());
        assert((a + b).last() == b.last());
        assert(list_md(a + b) =~= list_md(a) + list_md(b));
    }
}

proof fn lemma_list_md_ends(ls: Seq<Seq<char>>)
    ensures
        list_md(ls).len() > 0 ==> list_md(ls).last() == '\n',
    decreases ls.len(),
{
    reveal_strlit("\n");
    reveal_strlit("- ");
    if ls.len() > 0 {
        lemma_list_md_ends(ls.drop_last());
        let t = trim_seq(ls.last());
        if t.len() > 0 {
            if is_list_item(t) {
                assert((t + "\n"@).last() == '\n');
            } else {
                assert(("- "@ + t + "\n"@).last() == '\n');
            }
        }
    }
}

/// Blank lines add nothing to a section's list: the list of the lines is the
/// list of their non-blank lines.
pub proof fn lemma_list_skips_blank_lines(ls: Seq<Seq<char>>)
    ensures
        list_md(ls) == list_md(ls.filter(|l: Seq<char>| !is_blank_seq(l))),
    decreases ls.len(),
{
    reveal(Seq::filter);
    if ls.len() > 0 {
        lemma_list_skips_blank_lines(ls.drop_last());
        let f = ls.drop_last().filter(|l: Seq<char>| !is_blank_seq(l));
        lemma_trim_empty_iff_blank(ls.last());
        if !is_blank_seq(ls.last()) {
            assert(f.push(ls.last()).drop_last() =~= f);
        }
    }
}

/// In the Markdown of a non-blank section other than the details, every
/// non-blank line, trimmed, is a line of its own: as it is when it starts
/// with `- `, `* ` or an ASCII digit, and after `- ` otherwise.
pub proof fn lemma_section_list_line(s: Section, content: Seq<char>, j: int)
    requires
        s != Section::Details,
        !is_blank_seq(content),
        0 <= j < lines_of(content).len(),
        trim_seq(lines_of(content)[j]).len() > 0,
    ensures
        ({
            let t = trim_seq(lines_of(content)[j]);
            ((t.len() >= 2 && t[0] == '-' && t[1] == ' ') || (t.len() >= 2 && t[0] == '*' && t[1]
                == ' ') || ('0' <= t[0] && t[0] <= '9')) ==> contains_seq(
                section_md(s, content),
                "\n"@ + t + "\n"@,
            )
        }),
        ({
            let t = trim_seq(lines_of(content)[j]);
            !((t.len() >= 2 && t[0] == '-' && t[1] == ' ') || (t.len() >= 2 && t[0] == '*' && t[1]
                == ' ') || ('0' <= t[0] && t[0] <= '9')) ==> contains_seq(
                section_md(s, content),
                "\n- "@ + t + "\n"@,
            )
        }),
{
    reveal_strlit("\n");
    reveal_strlit("- ");
    reveal_strlit("\n- ");
    reveal_strlit("\n\n");
    let ls = lines_of(content);
    let t = trim_seq(ls[j]);
    let one = seq![ls[j]];
    assert(ls =~= ls.take(j) + one + ls.skip(j + 1));
    lemma_list_md_concat(ls.take(j) + one, ls.skip(j + 1));
    lemma_list_md_concat(ls.take(j), one);
    assert(one.drop_last() =~= Seq::<Seq<char>>::empty());
    let piece = list_md(one);
    assert(list_md(Seq::<Seq<char>>::empty()) == Seq::<char>::empty());
    assert(one.last() == ls[j]);
    if is_list_item(t) {
        assert(piece =~= t + "\n"@);
    } else {
        assert(piece =~= "- "@ + t + "\n"@);
    }
    lemma_list_md_ends(ls.take(j));
    let h = "\n## "@ + heading_of(s) + "\n\n"@;
    assert(h.last() == '\n');
    let a = h + list_md(ls.take(j));
    assert(a.last() == '\n');
    let rest = list_md(ls.skip(j + 1));
    assert(section_md(s, content) == h + list_md(ls));
    assert(section_md(s, content) =~= a + piece + rest);
    let x = seq!['\n'] + piece;
    let p = a.drop_last();
    assert(section_md(s, content) =~= p + x + rest);
    assert((p + x + rest).subrange(p.len() as int, p.len() + x.len() as int) =~= x);
    assert(occurs_at(section_md(s, content), x, p.len() as int));
    if is_list_item(t) {
        assert(x =~= "\n"@ + t + "\n"@);
    } else {
        assert(x =~= "\n- "@ + t + "\n"@);
    }
}

proof fn lemma_sections_md_has(contents: Seq<Seq<char>>, n: int, k: int, m: Seq<char>)
    requires
        0 <= k < n,
        contains_seq(section_md(all_sections()[k], contents[k]), m),
    ensures
        contains_seq(sections_md(contents, n), m),
    decreases n,
{
    lemma_contains_within(sections_md(contents, n - 1), section_md(all_sections()[n - 1], contents[n - 1]), m);
    if k < n - 1 {
        lemma_sections_md_has(contents, n - 1, k, m);
    }
}

/// In the Markdown of a problem statement, every non-blank line of a
/// non-blank section other than the details is, trimmed, a line of its own:
/// as it is when it starts with `- `, `* ` or an ASCII digit, and after `- `
/// otherwise.
pub proof fn lemma_problem_list_line(
    title: Seq<char>,
    contents: Seq<Seq<char>>,
    date: Seq<char>,
    k: int,
    j: int,
)
    requires
        0 <= k < 5,
        all_sections()[k] != Section::Details,
        !is_blank_seq(contents[k]),
        0 <= j < lines_of(contents[k]).len(),
        trim_seq(lines_of(contents[k])[j]).len() > 0,
    ensures
        ({
            let t = trim_seq(lines_of(contents[k])[j]);
            ((t.len() >= 2 && t[0] == '-' && t[1] == ' ') || (t.len() >= 2 && t[0] == '*' && t[1]
                == ' ') || ('0' <= t[0] && t[0] <= '9')) ==> contains_seq(
                problem_markdown(title, contents, date),
                "\n"@ + t + "\n"@,
            )
        }),
        ({
            let t = trim_seq(lines_of(contents[k])[j]);
            !((t.len() >= 2 && t[0] == '-' && t[1] == ' ') || (t.len() >= 2 && t[0] == '*' && t[1]
                == ' ') || ('0' <= t[0] && t[0] <= '9')) ==> contains_seq(
                problem_markdown(title, contents, date),
                "\n- "@ + t + "\n"@,
            )
        }),
{
    let s = all_sections()[k];
    let t = trim_seq(lines_of(contents[k])[j]);
    lemma_section_list_line(s, contents[k], j);
    let m = if is_list_item(t) {
        "\n"@ + t + "\n"@
    } else {
        "\n- "@ + t + "\n"@
    };
    lemma_sections_md_has(contents, 5, k, m);
    lemma_contains_within(front_matter(title, date, decision_count(contents[4])), sections_md(contents, 5), m);
}

/// The number of decisions a problem asks for: the non-blank lines of its
/// decisions section.
pub open spec fn decision_count(decisions: Seq<char>) -> nat {
    if !is_blank_seq(decisions) {
        nonblank_count(lines_of(decisions))
    } else {
        0
    }
}

proof fn lemma_nonblank_count_filter(ts: Seq<Seq<char>>)
    ensures
        nonblank_count(ts) == ts.filter(|l: Seq<char>| !is_blank_seq(l)).len(),
    decreases ts.len(),
{
    reveal(Seq::filter);
    if ts.len() > 0 {
        lemma_nonblank_count_filter(ts.drop_last());
    }
}

proof fn lemma_lines_of_blank(s: Seq<char>)
    requires
        is_blank_seq(s),
    ensures
        forall|j: int| 0 <= j < lines_of(s).len() ==> is_blank_seq(#[trigger] lines_of(s)[j]),
    decreases s.len(),
{
    if s.len() > 0 {
        let k = index_of_char(s, '\n');
        lemma_index_of_char(s, '\n', 0);
        if k < s.len() {
            let rest = s.skip(k + 1);
            assert(is_blank_seq(rest)) by {
                assert forall|i: int| 0 <= i < rest.len() implies is_whitespace_char(#[trigger] rest[i]) by {
                    assert(rest[i] == s[k + 1 + i]);
                }
            }
            lemma_lines_of_blank(rest);
            let first = strip_cr(s.take(k));
            assert(is_blank_seq(first)) by {
                assert forall|i: int| 0 <= i < first.len() implies is_whitespace_char(#[trigger] first[i]) by {
                    assert(first[i] == s[i]);
                }
            }
            assert forall|j: int| 0 <= j < lines_of(s).len() implies is_blank_seq(#[trigger] lines_of(s)[j]) by {
                if j > 0 {
                    assert(lines_of(s)[j] == lines_of(rest)[j - 1]);
                }
            }
        }
    }
}

/// The decision count is the number of lines of the decisions section that
/// are not blank.
pub proof fn lemma_decision_count(d: Seq<char>)
    ensures
        decision_count(d) == lines_of(d).filter(|l: Seq<char>| !is_blank_seq(l)).len(),
{
    lemma_nonblank_count_filter(lines_of(d));
    if is_blank_seq(d) {
        lemma_lines_of_blank(d);
        lemma_all_blank_filter(lines_of(d));
    }
}

proof fn lemma_all_blank_filter(ts: Seq<Seq<char>>)
    requires
        forall|j: int| 0 <= j < ts.len() ==> is_blank_seq(#[trigger] ts[j]),
    ensures
        ts.filter(|l: Seq<char>| !is_blank_seq(l)).len() == 0,
    decreases ts.len(),
{
    reveal(Seq::filter);
    if ts.len() > 0 {
        assert(is_blank_seq(ts[ts.len() - 1]));
        lemma_all_blank_filter(ts.drop_last());
    }
}

/// The front matter: title, date, status `intake`, slug and decision count,
/// then the title heading.
pub open spec fn front_matter(title: Seq<char>, date: Seq<char>, count: nat) -> Seq<char> {
    "---\ntitle: "@ + title + "\ndate: "@ + date + "\nstatus: intake\nslug: "@ + problem_slug(title)
        + "\ndecisions: "@ + decimal(count) + "\n---\n\n# "@ + title + "\n"@
}

/// The Markdown of a problem statement dated `date`.
pub open spec fn problem_markdown(title: Seq<char>, contents: Seq<Seq<char>>, date: Seq<char>) -> Seq<
    char,
> {
    front_matter(title, date, decision_count(contents[4])) + sections_md(contents, 5)
}

fn push_list(out: &mut String, content: &str)
    ensures
        final(out)@ == old(out)@ + list_md(lines_of(content@)),
{
    let ls = split_lines(content);
    let ghost start = out@;
    let ghost v = views_of(ls@);
    for i in 0..ls.len()
        invariant
            v == views_of(ls@),
            v == lines_of(content@),
            out@ == start + list_md(v.take(i as int)),
    {
        assert(v.take(i + 1).drop_last() =~= v.take(i as int));
        assert(v.take(i + 1).last() == ls@[i as int]@);
        let ghost prev = out@;
        let t = trim(ls[i].as_str());
        let tc = chars_of(t.as_str());
        if tc.len() > 0 {
            let item = (tc.len() >= 2 && tc[0] == '-' && tc[1] == ' ') || (tc.len() >= 2 && tc[0]
                == '*' && tc[1] == ' ') || ('0' <= tc[0] && tc[0] <= '9');
            if item {
                out.append(t.as_str());
                out.append("\n");
            } else {
                out.append("- ");
                out.append(t.as_str());
                out.append("\n");
            }
        }
        assert(out@ =~= start + list_md(v.take(i + 1)));
    }
    assert(v.take(v.len() as int) =~= v);
}

fn push_section(out: &mut String, s: Section, content: &str)
    ensures
        final(out)@ == old(out)@ + section_md(s, content@),
{
    let ghost start = out@;
    out.append("\n## ");
    out.append(s.heading());
    out.append("\n\n");
    let ghost mid = out@;
    if is_blank(content) {
        let first = first_line(s.placeholder());
        out.append("<!-- ");
        out.append(first.as_str());
        out.append(" -->\n");
    } else if s == Section::Details {
        let t = trim(content);
        out.append(t.as_str());
        out.append("\n");
    } else {
        push_list(out, content);
    }
    assert(out@ =~= start + section_md(s, content@));
}

impl ProblemBuilder {
    /// The number of decisions the problem asks for.
    pub fn decisions_count(&self) -> (r: usize)
        requires
            self.wf(),
        ensures
            r == decision_count(self.contents()[4]),
    {
        if self.is_filled(Section::Decisions) {
            let ls = split_lines(self.get(Section::Decisions));
            count_nonblank(&ls)
        } else {
            0
        }
    }

    /// Renders the problem statement as Markdown, dated `date`.
    pub fn to_markdown(&self, date: &str) -> (r: String)
        requires
            self.wf(),
        ensures
            r@ == problem_markdown(self.title_text(), self.contents(), date@),
    {
        let slug = self.slug();
        let count = self.decisions_count();
        let mut md = String::from_str("---\ntitle: ");
        md.append(self.title.as_str());
        md.append("\ndate: ");
        md.append(date);
        md.append("\nstatus: intake\nslug: ");
        md.append(slug.as_str());
        md.append("\ndecisions: ");
        push_decimal(&mut md, count as u64);
        md.append("\n---\n\n# ");
        md.append(self.title.as_str());
        md.append("\n");
        assert(md@ =~= front_matter(self.title_text(), date@, decision_count(self.contents()[4])));
        let ghost front = md@;
        for i in 0..self.sections.len()
            invariant
                self.wf(),
                md@ == front + sections_md(self.contents(), i as int),
        {
            let ghost prev = md@;
            push_section(&mut md, self.sections[i].0, self.sections[i].1.as_str());
            assert(md@ =~= front + sections_md(self.contents(), i + 1));
        }
        md
    }
}

/// The longest prefix of `s` whose UTF-8 encoding has at most `max` bytes,
/// provided `max` falls on a character boundary.
pub open spec fn byte_prefix(s: Seq<char>, max: nat) -> Seq<char> {
    if encode_utf8(s).len() <= max {
        s
    } else {
        decode_utf8(encode_utf8(s).take(max as int))
    }
}

/// `max` is within the text or on a character boundary of it (and the
/// text's byte length fits in a `usize`, as that of any string does).
pub open spec fn can_cut_at(s: Seq<char>, max: nat) -> bool {
    &&& encode_utf8(s).len() <= usize::MAX
    &&& encode_utf8(s).len() <= max || is_char_boundary(encode_utf8(s), max as int)
}

/// The first `max` bytes of `s`, or all of `s` when it is shorter.
/// Cutting inside a character is left out (the byte slice would panic).
pub fn truncate(s: &str, max: usize) -> (r: &str)
    requires
        can_cut_at(s@, max as nat),
    ensures
        r@ == byte_prefix(s@, max as nat),
        encode_utf8(s@).len() > max ==> r.spec_bytes() == encode_utf8(s@).take(max as int),
{
    if s.len() <= max {
        s
    } else {
        let (head, _) = s.split_at(max);
        proof {
            encode_utf8_decode_utf8(head@);
            assert(head.spec_bytes() =~= encode_utf8(s@).take(max as int));
            assert(encode_utf8(head@) == encode_utf8(s@).take(max as int));
        }
        head
    }
}

/// The one-line preview of a filled section: its first line, cut to 50 bytes
/// with a count of the further non-blank lines, or cut to 60 bytes when
/// there is no other.
pub open spec fn preview_of(content: Seq<char>) -> Seq<char> {
    let first = first_line_of(content);
    let n = nonblank_count(lines_of(content));
    if n > 1 {
        byte_prefix(first, 50) + " (+"@ + decimal((n - 1) as nat) + " more)"@
    } else {
        byte_prefix(first, 60)
    }
}

/// The preview of a filled section can be cut where it is cut.
pub open spec fn preview_fits(content: Seq<char>) -> bool {
    let first = first_line_of(content);
    if nonblank_count(lines_of(content)) > 1 {
        can_cut_at(first, 50)
    } else {
        can_cut_at(first, 60)
    }
}

/// The preview shown for a section: that of its text when filled, a dash otherwise.
pub open spec fn section_preview_of(content: Seq<char>) -> Seq<char> {
    if !is_blank_seq(content) {
        preview_of(content)
    } else {
        "—"@
    }
}

impl ProblemBuilder {
    /// The preview shown for `section` in the form.
    pub fn section_preview(&self, section: Section) -> (r: String)
        requires
            self.wf(),
            !is_blank_seq(self.content(section)) ==> preview_fits(self.content(section)),
        ensures
            r@ == section_preview_of(self.content(section)),
    {
        if self.is_filled(section) {
            let content = self.get(section);
            let first = first_line(content);
            let ls = split_lines(content);
            let n = count_nonblank(&ls);
            if n > 1 {
                let mut p = String::from_str(truncate(first.as_str(), 50));
                p.append(" (+");
                push_decimal(&mut p, (n - 1) as u64);
                p.append(" more)");
                p
            } else {
                String::from_str(truncate(first.as_str(), 60))
            }
        } else {
            String::from_str("—")
        }
    }
}

/// `# ` before each line, one line each.
pub open spec fn commented(ls: Seq<Seq<char>>) -> Seq<char>
    decreases ls.len(),
{
    if ls.len() == 0 {
        Seq::empty()
    } else {
        commented(ls.drop_last()) + "# "@ + ls.last() + "\n"@
    }
}

/// What the editor opens with: the text when it is not blank; otherwise the
/// prompt as comment lines, a note that comment lines are removed, and an
/// empty line.
pub open spec fn editor_seed_of(initial: Seq<char>, placeholder: Seq<char>) -> Seq<char> {
    if is_blank_seq(initial) {
        commented(lines_of(placeholder)) + "# Lines starting with # are removed.\n"@ + "\n"@
    } else {
        initial
    }
}

/// The text the editor opens with.
pub fn editor_seed(initial: &str, placeholder: &str) -> (r: String)
    ensures
        r@ == editor_seed_of(initial@, placeholder@),
{
    if is_blank(initial) {
        let ls = split_lines(placeholder);
        let ghost v = views_of(ls@);
        let mut out = String::new();
        for i in 0..ls.len()
            invariant
                v == views_of(ls@),
                out@ == commented(v.take(i as int)),
        {
            assert(v.take(i + 1).drop_last() =~= v.take(i as int));
            assert(v.take(i + 1).last() == ls@[i as int]@);
            out.append("# ");
            out.append(ls[i].as_str());
            out.append("\n");
        }
        assert(v.take(v.len() as int) =~= v);
        out.append("# Lines starting with # are removed.\n");
        out.append("\n");
        out
    } else {
        String::from_str(initial)
    }
}

/// A line the editor treats as a comment: one starting with `#`.
pub open spec fn is_comment_line(l: Seq<char>) -> bool {
    l.len() > 0 && l[0] == '#'
}

/// The lines that are not comments, in order.
pub open spec fn uncommented(ls: Seq<Seq<char>>) -> Seq<Seq<char>>
    decreases ls.len(),
{
    if ls.len() == 0 {
        Seq::empty()
    } else if is_comment_line(ls.last()) {
        uncommented(ls.drop_last())
    } else {
        uncommented(ls.drop_last()).push(ls.last())
    }
}

/// What is kept of the edited text: its non-comment lines joined by
/// newlines, trimmed.
pub open spec fn edited_text_of(content: Seq<char>) -> Seq<char> {
    trim_seq(join_with(uncommented(lines_of(content)), "\n"@))
}

/// Removes the comment lines from the edited text and trims it.
pub fn clean_edited_text(content: &str) -> (r: String)
    ensures
        r@ == edited_text_of(content@),
{
    let ls = split_lines(content);
    let ghost v = views_of(ls@);
    let mut joined = String::new();
    let mut kept: usize = 0;
    for i in 0..ls.len()
        invariant
            v == views_of(ls@),
            joined@ == join_with(uncommented(v.take(i as int)), "\n"@),
            kept == uncommented(v.take(i as int)).len(),
            kept <= i,
    {
        assert(v.take(i + 1).drop_last() =~= v.take(i as int));
        assert(v.take(i + 1).last() == ls@[i as int]@);
        let lc = chars_of(ls[i].as_str());
        let comment = lc.len() > 0 && lc[0] == '#';
        if !comment {
            let ghost prev = uncommented(v.take(i as int));
            if kept > 0 {
                joined.append("\n");
            }
            joined.append(ls[i].as_str());
            kept = kept + 1;
            assert(uncommented(v.take(i + 1)) == prev.push(ls@[i as int]@));
            assert(uncommented(v.take(i + 1)).drop_last() =~= prev);
            proof {
                if prev.len() == 0 {
                    assert(joined@ =~= join_with(uncommented(v.take(i + 1)), "\n"@));
                }
            }
        }
    }
    assert(v.take(v.len() as int) =~= v);
    trim(joined.as_str())
}

/// How a line of the preview is shown.
#[derive(Clone, Copy, Debug, PartialEq, Eq, Structural)]
pub enum LineStyle {
    Heading,
    Rule,
    Comment,
    Bullet,
    Plain,
}

/// The style of a preview line, by how it starts: `#`, `---`, `<!--`, `- `.
pub open spec fn line_style_of(l: Seq<char>) -> LineStyle {
    if l.len() >= 1 && l[0] == '#' {
        LineStyle::Heading
    } else if l.len() >= 3 && l[0] == '-' && l[1] == '-' && l[2] == '-' {
        LineStyle::Rule
    } else if l.len() >= 4 && l[0] == '<' && l[1] == '!' && l[2] == '-' && l[3] == '-' {
        LineStyle::Comment
    } else if l.len() >= 2 && l[0] == '-' && l[1] == ' ' {
        LineStyle::Bullet
    } else {
        LineStyle::Plain
    }
}

/// The style of a preview line.
pub fn line_style(l: &str) -> (r: LineStyle)
    ensures
        r == line_style_of(l@),
{
    let c = chars_of(l);
    let n = c.len();
    if n >= 1 && c[0] == '#' {
        LineStyle::Heading
    } else if n >= 3 && c[0] == '-' && c[1] == '-' && c[2] == '-' {
        LineStyle::Rule
    } else if n >= 4 && c[0] == '<' && c[1] == '!' && c[2] == '-' && c[3] == '-' {
        LineStyle::Comment
    } else if n >= 2 && c[0] == '-' && c[1] == ' ' {
        LineStyle::Bullet
    } else {
        LineStyle::Plain
    }
}

/// The screens of the intake form.
#[derive(Clone, Copy, Debug, PartialEq, Eq, Structural)]
pub enum Screen {
    Form,
    Preview,
}

/// The key of a key press.
#[derive(Clone, Copy, Debug, PartialEq, Eq, Structural)]
pub enum Key {
    Char(char),
    Enter,
    Esc,
    Other,
}

/// A key press and whether Control was held.
#[derive(Clone, Copy, Debug, PartialEq, Eq, Structural)]
pub struct KeyPress {
    pub key: Key,
    pub ctrl: bool,
}

/// What the form does with a key press.
#[derive(Clone, Copy, Debug, PartialEq, Eq, Structural)]
pub enum Action {
    /// Leave without saving.
    Quit,
    /// Open the editor on a section.
    Edit(Section),
    /// Show the preview.
    ShowPreview,
    /// Save the problem.
    Save,
    /// Go back from the preview to the form.
    BackToForm,
    /// Nothing.
    Ignore,
}

/// The action for a key press on a screen. On the form: Ctrl-C, `q` and Esc
/// quit, a section key edits that section, Enter previews. On the preview:
/// Ctrl-C and `q` quit without saving, Enter saves, Esc goes back.
pub open spec fn action_for(screen: Screen, press: KeyPress) -> Action {
    match screen {
        Screen::Form => match press.key {
            Key::Char(c) => if c == 'c' && press.ctrl {
                Action::Quit
            } else if c == 'q' {
                Action::Quit
            } else {
                match section_for_key(c) {
                    Some(s) => Action::Edit(s),
                    None => Action::Ignore,
                }
            },
            Key::Enter => Action::ShowPreview,
            Key::Esc => Action::Quit,
            Key::Other => Action::Ignore,
        },
        Screen::Preview => match press.key {
            Key::Char(c) => if c == 'c' && press.ctrl {
                Action::Quit
            } else if c == 'q' {
                Action::Quit
            } else {
                Action::Ignore
            },
            Key::Enter => Action::Save,
            Key::Esc => Action::BackToForm,
            Key::Other => Action::Ignore,
        },
    }
}

/// Decides what the form does with a key press.
pub fn next_action(screen: Screen, press: KeyPress) -> (r: Action)
    ensures
        r == action_for(screen, press),
{
    match screen {
        Screen::Form => match press.key {
            Key::Char(c) => {
                if c == 'c' && press.ctrl {
                    Action::Quit
                } else if c == 'q' {
                    Action::Quit
                } else {
                    match Section::from_key(c) {
                        Some(s) => Action::Edit(s),
                        None => Action::Ignore,
                    }
                }
            },
            Key::Enter => Action::ShowPreview,
            Key::Esc => Action::Quit,
            Key::Other => Action::Ignore,
        },
        Screen::Preview => match press.key {
            Key::Char(c) => {
                if c == 'c' && press.ctrl {
                    Action::Quit
                } else if c == 'q' {
                    Action::Quit
                } else {
                    Action::Ignore
                }
            },
            Key::Enter => Action::Save,
            Key::Esc => Action::BackToForm,
            Key::Other => Action::Ignore,
        },
    }
}

impl ProblemBuilder {
    /// Takes the outcome of editing `section`: the edited text replaces the
    /// section's text and the message says it was updated; an editor error
    /// leaves the problem as it was and the message carries the error.
    pub fn apply_edit(&mut self, section: Section, outcome: Result<String, String>) -> (msg: String)
        requires
            old(self).wf(),
        ensures
            final(self).wf(),
            final(self).title_text() == old(self).title_text(),
            match outcome {
                Ok(text) => final(self).contents() == old(self).contents().update(
                    section_index(section),
                    text@,
                ) && msg@ == "Updated "@ + label_of(section),
                Err(e) => final(self).contents() == old(self).contents() && msg@ == "Editor error: "@
                    + e@,
            },
    {
        match outcome {
            Ok(text) => {
                self.set(section, text);
                let mut m = String::from_str("Updated ");
                m.append(section.label());
                m
            },
            Err(e) => {
                let mut m = String::from_str("Editor error: ");
                m.append(e.as_str());
                m
            },
        }
    }
}

} // verus!
