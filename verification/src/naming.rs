//! Naming rules of ADR files: identifiers, directories, remotes, slugs, and
//! the detection of the work-item adapter from a git remote URL.

use vstd::prelude::*;
use crate::schema::{is_retitled, retitle, Adr};
use crate::text::{
    chars_have_prefix, chars_have_suffix, chars_of, char_is_alphanumeric, contains_seq,
    find_char_from, find_chars_from, has_prefix, has_suffix, index_of_char, index_of_seq,
    is_alphanumeric_char, lowercase_of, push_char, str_contains, str_eq, string_of, sub_chars,
    to_lowercase, trim, trim_seq,
};

verus! {

/// Every character of `s` is alphanumeric.
pub open spec fn all_alphanumeric(s: Seq<char>) -> bool {
    forall|i: int| 0 <= i < s.len() ==> is_alphanumeric_char(#[trigger] s[i])
}

/// Checks that a work-item id is present and alphanumeric.
pub fn validate_id(id: &str) -> (r: Result<(), String>)
    ensures
        id@.len() == 0 ==> (r matches Err(m) && m@ == "id is required"@),
        id@.len() > 0 ==> (r is Ok <==> all_alphanumeric(id@)),
        id@.len() > 0 && !all_alphanumeric(id@) ==> (r matches Err(m) && m@
            == "id must be alphanumeric, got '"@ + id@ + "'"@),
{
    let cs = chars_of(id);
    if cs.len() == 0 {
        return Err(String::from_str("id is required"));
    }
    for i in 0..cs.len()
        invariant
            cs@ == id@,
            forall|k: int| 0 <= k < i ==> is_alphanumeric_char(#[trigger] cs@[k]),
    {
        if !char_is_alphanumeric(cs[i]) {
            let mut m = String::from_str("id must be alphanumeric, got '");
            m.append(id);
            m.append("'");
            return Err(m);
        }
    }
    Ok(())
}

/// Checks that a directory does not climb out with `..`.
pub fn validate_dir(dir: &str) -> (r: Result<(), String>)
    ensures
        r is Ok <==> !contains_seq(dir@, ".."@),
        r matches Err(m) ==> m@ == "directory '"@ + dir@
            + "' contains '..' — path traversal not allowed"@,
{
    if str_contains(dir, "..") {
        let mut m = String::from_str("directory '");
        m.append(dir);
        m.append("' contains '..' — path traversal not allowed");
        Err(m)
    } else {
        Ok(())
    }
}

/// The remotes a work item may reference.
pub open spec fn is_known_remote(r: Seq<char>) -> bool {
    r == "gh"@ || r == "ado"@ || r == "gitea"@ || r == "local"@
}

/// Checks that `remote` is one of `gh`, `ado`, `gitea`, `local`.
pub fn validate_remote(remote: &str) -> (r: Result<(), String>)
    ensures
        r is Ok <==> is_known_remote(remote@),
        r matches Err(m) ==> m@ == "unknown remote '"@ + remote@
            + "'. Allowed: gh, ado, gitea, local"@,
{
    if str_eq(remote, "gh") || str_eq(remote, "ado") || str_eq(remote, "gitea") || str_eq(
        remote,
        "local",
    ) {
        Ok(())
    } else {
        let mut m = String::from_str("unknown remote '");
        m.append(remote);
        m.append("'. Allowed: gh, ado, gitea, local");
        Err(m)
    }
}

/// One character of slugging: alphanumeric characters are kept, any other
/// character separates words, and words are joined by one hyphen.
/// The state is the text so far and whether a separator is pending.
pub open spec fn slug_step(acc: (Seq<char>, bool), c: char) -> (Seq<char>, bool) {
    if !is_alphanumeric_char(c) {
        (acc.0, true)
    } else if acc.1 && acc.0.len() > 0 {
        (acc.0.push('-').push(c), false)
    } else {
        (acc.0.push(c), false)
    }
}

/// The slugging state after all of `s`.
pub open spec fn slug_state(s: Seq<char>) -> (Seq<char>, bool)
    decreases s.len(),
{
    if s.len() == 0 {
        (Seq::empty(), false)
    } else {
        slug_step(slug_state(s.drop_last()), s.last())
    }
}

/// The runs of alphanumeric characters of `s`, joined by single hyphens.
pub open spec fn slug_of(s: Seq<char>) -> Seq<char> {
    slug_state(s).0
}

/// Lowercases `s` and keeps its alphanumeric runs, joined by single hyphens.
pub fn slugify(s: &str) -> (r: String)
    ensures
        r@ == slug_of(lowercase_of(s@)),
{
    let lower = to_lowercase(s);
    let cs = chars_of(lower.as_str());
    let mut out = String::new();
    let mut pending = false;
    for i in 0..cs.len()
        invariant
            cs@ == lowercase_of(s@),
            (out@, pending) == slug_state(cs@.take(i as int)),
    {
        let c = cs[i];
        assert(cs@.take(i + 1).drop_last() == cs@.take(i as int));
        if !char_is_alphanumeric(c) {
            pending = true;
        } else {
            if pending && out.as_str().unicode_len() > 0 {
                push_char(&mut out, '-');
            }
            push_char(&mut out, c);
            pending = false;
        }
    }
    assert(cs@.take(cs@.len() as int) == cs@);
    out
}

/// A well-formed slug: alphanumeric characters and hyphens, no hyphen at
/// either end, no two hyphens in a row.
pub open spec fn is_slug(s: Seq<char>) -> bool {
    &&& forall|i: int| 0 <= i < s.len() ==> #[trigger] s[i] == '-' || is_alphanumeric_char(s[i])
    &&& s.len() > 0 ==> s[0] != '-' && s.last() != '-'
    &&& forall|i: int| 0 <= i < s.len() - 1 ==> !(#[trigger] s[i] == '-' && s[i + 1] == '-')
}

/// Every slug is well formed, whatever text it comes from.
pub proof fn lemma_slug_well_formed(s: Seq<char>)
    ensures
        is_slug(slug_of(s)),
    decreases s.len(),
{
    if s.len() > 0 {
        lemma_slug_well_formed(s.drop_last());
        let prev = slug_state(s.drop_last());
        let c = s.last();
        if is_alphanumeric_char(c) {
            assert(c != '-');
            let o = slug_state(s).0;
            if prev.1 && prev.0.len() > 0 {
                assert(o == prev.0.push('-').push(c));
                assert forall|i: int| 0 <= i < o.len() - 1 implies !(#[trigger] o[i] == '-' && o[i
                    + 1] == '-') by {
                    if i < prev.0.len() - 1 {
                        assert(o[i] == prev.0[i] && o[i + 1] == prev.0[i + 1]);
                    }
                }
                assert forall|i: int| 0 <= i < o.len() implies #[trigger] o[i] == '-'
                    || is_alphanumeric_char(o[i]) by {
                    if i < prev.0.len() {
                        assert(o[i] == prev.0[i]);
                    }
                }
            } else {
                assert(o == prev.0.push(c));
                assert forall|i: int| 0 <= i < o.len() - 1 implies !(#[trigger] o[i] == '-' && o[i
                    + 1] == '-') by {
                    if i < prev.0.len() - 1 {
                        assert(o[i] == prev.0[i] && o[i + 1] == prev.0[i + 1]);
                    }
                }
                assert forall|i: int| 0 <= i < o.len() implies #[trigger] o[i] == '-'
                    || is_alphanumeric_char(o[i]) by {
                    if i < prev.0.len() {
                        assert(o[i] == prev.0[i]);
                    }
                }
            }
        }
    }
}

/// Slugging keeps any property of characters that its input and the hyphen have.
pub proof fn lemma_slug_keeps(x: Seq<char>, p: spec_fn(char) -> bool)
    requires
        forall|i: int| 0 <= i < x.len() ==> p(#[trigger] x[i]),
        p('-'),
    ensures
        forall|i: int| 0 <= i < slug_of(x).len() ==> p(#[trigger] slug_of(x)[i]),
    decreases x.len(),
{
    if x.len() > 0 {
        assert forall|i: int| 0 <= i < x.drop_last().len() implies p(#[trigger] x.drop_last()[i]) by {
            assert(x.drop_last()[i] == x[i]);
        }
        lemma_slug_keeps(x.drop_last(), p);
        let st = slug_state(x.drop_last());
        let prev = st.0;
        let c = x.last();
        let o = slug_of(x);
        assert(p(c));
        assert forall|i: int| 0 <= i < prev.len() implies p(#[trigger] prev[i]) by {
            assert(prev[i] == slug_of(x.drop_last())[i]);
        }
        if !is_alphanumeric_char(c) {
            assert(o == prev);
        } else if st.1 && prev.len() > 0 {
            assert(o == prev.push('-').push(c));
            assert forall|i: int| 0 <= i < o.len() implies p(#[trigger] o[i]) by {
                if i < prev.len() {
                    assert(o[i] == prev[i]);
                } else if i == prev.len() {
                    assert(o[i] == '-');
                } else {
                    assert(o[i] == c);
                }
            }
        } else {
            assert(o == prev.push(c));
            assert forall|i: int| 0 <= i < o.len() implies p(#[trigger] o[i]) by {
                if i < prev.len() {
                    assert(o[i] == prev[i]);
                } else {
                    assert(o[i] == c);
                }
            }
        }
    }
}

proof fn lemma_slug_prefix(t: Seq<char>, k: int)
    requires
        is_slug(t),
        0 <= k <= t.len(),
    ensures
        slug_state(t.take(k)) == if k > 0 && t[k - 1] == '-' {
            (t.take(k - 1), true)
        } else {
            (t.take(k), false)
        },
    decreases k,
{
    if k > 0 {
        lemma_slug_prefix(t, k - 1);
        assert(t.take(k).drop_last() =~= t.take(k - 1));
        let c = t[k - 1];
        if c == '-' {
            assert(k - 1 > 0);
            assert(t[k - 2] != '-');
        } else {
            assert(is_alphanumeric_char(c));
            if k - 1 > 0 && t[k - 2] == '-' {
                assert(k - 2 > 0);
                assert(t.take(k - 2).push('-').push(c) =~= t.take(k));
            } else {
                assert(t.take(k - 1).push(c) =~= t.take(k));
            }
        }
    } else {
        assert(t.take(0) =~= Seq::<char>::empty());
    }
}

/// A well-formed slug is its own slug.
pub proof fn lemma_slug_of_slug(t: Seq<char>)
    requires
        is_slug(t),
    ensures
        slug_of(t) == t,
{
    lemma_slug_prefix(t, t.len() as int);
    assert(t.take(t.len() as int) =~= t);
}

/// Slugging a slug gives it back, whatever text the slug came from.
pub proof fn lemma_slug_idempotent(x: Seq<char>)
    ensures
        slug_of(slug_of(x)) == slug_of(x),
{
    lemma_slug_well_formed(x);
    lemma_slug_of_slug(slug_of(x));
}

/// A character that stays as it is under ASCII lowercasing.
pub open spec fn is_lower_ascii(c: char) -> bool {
    (c as u32) < 128 && !('A' <= c && c <= 'Z')
}

/// Slugging an ASCII text twice gives what slugging it once gives.
pub proof fn lemma_slugify_idempotent(s: Seq<char>)
    requires
        crate::text::is_ascii_text(s),
    ensures
        slug_of(lowercase_of(slug_of(lowercase_of(s)))) == slug_of(lowercase_of(s)),
{
    let l = lowercase_of(s);
    assert forall|i: int| 0 <= i < l.len() implies is_lower_ascii(#[trigger] l[i]) by {
        let c = s[i];
        assert((c as u32) < 128);
        if 'A' <= c && c <= 'Z' {
            assert(l[i] == ((c as u32) + 32) as char);
        }
    }
    let p = |c: char| is_lower_ascii(c);
    lemma_slug_keeps(l, p);
    let t = slug_of(l);
    assert forall|i: int| 0 <= i < t.len() implies (#[trigger] t[i] as u32) < 128 by {
        assert(p(t[i]));
    }
    assert(lowercase_of(t) =~= t) by {
        assert forall|i: int| 0 <= i < t.len() implies #[trigger] crate::text::ascii_lower_char(t[i])
            == t[i] by {
            assert(p(t[i]));
        }
    }
    lemma_slug_idempotent(l);
}

/// The host named by a git remote URL, lowercased: the part between `git@`
/// and the first `:` for the SSH shorthand; for a URL with a scheme, the
/// authority after the scheme's `://` (up to the first `/`), without any
/// user info before an `@` and without a port; otherwise the whole URL.
pub open spec fn host_of(url: Seq<char>) -> Seq<char> {
    if has_prefix(url, "git@"@) {
        let rest = url.skip(4);
        lowercase_of(rest.take(index_of_char(rest, ':')))
    } else if index_of_seq(url, "://"@) < url.len() {
        let rest0 = url.skip(index_of_seq(url, "://"@) + 3);
        let rest = rest0.take(index_of_seq(rest0, "://"@));
        let authority = rest.take(index_of_char(rest, '/'));
        let host = if index_of_char(authority, '@') < authority.len() {
            authority.skip(index_of_char(authority, '@') + 1)
        } else {
            authority
        };
        lowercase_of(host.take(index_of_char(host, ':')))
    } else {
        lowercase_of(url)
    }
}

/// The characters of `s` before the first `c`.
fn before_char(s: &[char], c: char) -> (v: Vec<char>)
    ensures
        v@ == s@.take(index_of_char(s@, c)),
{
    let k = find_char_from(s, c, 0);
    let v = sub_chars(s, 0, k);
    assert(v@ =~= s@.take(k as int));
    v
}

/// Extracts the lowercased host of a git remote URL (SSH shorthand,
/// `ssh://` or `https://`).
pub fn extract_host(url: &str) -> (r: String)
    ensures
        r@ == host_of(url@),
{
    proof {
        reveal_strlit("git@");
        reveal_strlit("://");
    }
    let cs = chars_of(url);
    let git_at = chars_of("git@");
    if chars_have_prefix(cs.as_slice(), git_at.as_slice()) {
        let rest = sub_chars(cs.as_slice(), 4, cs.len());
        assert(rest@ =~= url@.skip(4));
        let host = before_char(rest.as_slice(), ':');
        let h = string_of(host.as_slice());
        return to_lowercase(h.as_str());
    }
    let sep = chars_of("://");
    let k = find_chars_from(cs.as_slice(), sep.as_slice(), 0);
    if k < cs.len() {
        proof {
            crate::text::lemma_index_of_seq(url@, "://"@, 0);
        }
        let rest0 = sub_chars(cs.as_slice(), k + 3, cs.len());
        assert(rest0@ =~= url@.skip(k + 3));
        let k2 = find_chars_from(rest0.as_slice(), sep.as_slice(), 0);
        let rest = sub_chars(rest0.as_slice(), 0, k2);
        assert(rest@ =~= rest0@.take(k2 as int));
        let authority = before_char(rest.as_slice(), '/');
        let at = find_char_from(authority.as_slice(), '@', 0);
        let host = if at < authority.len() {
            let a = sub_chars(authority.as_slice(), at + 1, authority.len());
            assert(a@ =~= authority@.skip(at + 1));
            a
        } else {
            authority
        };
        let hostname = before_char(host.as_slice(), ':');
        let h = string_of(hostname.as_slice());
        return to_lowercase(h.as_str());
    }
    to_lowercase(url)
}

/// The message for a URL whose host no adapter knows.
pub open spec fn unknown_host_message(url: Seq<char>) -> Seq<char> {
    "Could not detect adapter type for URL '"@ + url
        + "'. Supported hosts: github.com, dev.azure.com. For other forges, a future configuration mechanism will allow explicit adapter mapping."@
}

/// The adapter for a host: `gh` for GitHub, `ado` for Azure DevOps.
pub open spec fn adapter_for_host(host: Seq<char>) -> Option<Seq<char>> {
    if contains_seq(host, "github.com"@) {
        Some("gh"@)
    } else if contains_seq(host, "dev.azure.com"@) || contains_seq(host, "visualstudio.com"@) {
        Some("ado"@)
    } else {
        None
    }
}

/// Detects the adapter type from a git remote URL.
pub fn detect_adapter_from_url(url: &str) -> (r: Result<String, String>)
    ensures
        r is Ok <==> adapter_for_host(host_of(url@)) is Some,
        r matches Ok(a) ==> Some(a@) == adapter_for_host(host_of(url@)),
        r matches Err(m) ==> m@ == unknown_host_message(url@),
{
    let host = extract_host(url);
    if str_contains(host.as_str(), "github.com") {
        Ok(String::from_str("gh"))
    } else if str_contains(host.as_str(), "dev.azure.com") || str_contains(
        host.as_str(),
        "visualstudio.com",
    ) {
        Ok(String::from_str("ado"))
    } else {
        let mut m = String::from_str("Could not detect adapter type for URL '");
        m.append(url);
        m.append(
            "'. Supported hosts: github.com, dev.azure.com. For other forges, a future configuration mechanism will allow explicit adapter mapping.",
        );
        Err(m)
    }
}

/// What detecting the adapter of a remote needs next.
pub enum AdapterLookup {
    /// The adapter is known without asking git.
    Known(String),
    /// The URL of the remote must be asked of git.
    AskGit,
}

/// First step of detecting the adapter of a git remote name: `local` needs
/// no lookup; any other remote's URL must be asked of git.
pub fn detect_adapter(remote: &str) -> (r: AdapterLookup)
    ensures
        remote@ == "local"@ ==> (r matches AdapterLookup::Known(a) && a@ == "local"@),
        remote@ != "local"@ ==> r is AskGit,
{
    if str_eq(remote, "local") {
        AdapterLookup::Known(String::from_str("local"))
    } else {
        AdapterLookup::AskGit
    }
}

/// Second step: the adapter from what `git remote get-url` answered.
pub fn adapter_from_git(remote: &str, succeeded: bool, stdout: &str) -> (r: Result<String, String>)
    ensures
        !succeeded ==> (r matches Err(m) && m@ == "git remote '"@ + remote@
            + "' not found. Run 'git remote -v' to list available remotes."@),
        succeeded ==> (r is Ok <==> adapter_for_host(host_of(trim_seq(stdout@))) is Some),
        succeeded ==> (r matches Ok(a) ==> Some(a@) == adapter_for_host(host_of(trim_seq(stdout@))))
            && (r matches Err(m) ==> m@ == unknown_host_message(trim_seq(stdout@))),
{
    if !succeeded {
        let mut m = String::from_str("git remote '");
        m.append(remote);
        m.append("' not found. Run 'git remote -v' to list available remotes.");
        return Err(m);
    }
    let url = trim(stdout);
    detect_adapter_from_url(url.as_str())
}

/// The path of an ADR file: `{dir}/{remote}-{id}-{slug}.toml`.
pub open spec fn adr_path(dir: Seq<char>, remote: Seq<char>, id: Seq<char>, slug: Seq<char>) -> Seq<char> {
    dir + "/"@ + remote + "-"@ + id + "-"@ + slug + ".toml"@
}

/// Builds `{dir}/{remote}-{id}-{slug}.toml`.
pub fn make_adr_path(dir: &str, remote: &str, id: &str, slug: &str) -> (r: String)
    ensures
        r@ == adr_path(dir@, remote@, id@, slug@),
{
    let mut p = String::from_str(dir);
    p.append("/");
    p.append(remote);
    p.append("-");
    p.append(id);
    p.append("-");
    p.append(slug);
    p.append(".toml");
    p
}

/// A file name belongs to the ADR of work item `id` of `remote`.
pub open spec fn names_adr(name: Seq<char>, remote: Seq<char>, id: Seq<char>) -> bool {
    has_prefix(name, remote + "-"@ + id + "-"@) && has_suffix(name, ".toml"@)
}

/// Whether the file `name` belongs to the ADR of work item `id` of `remote`.
pub fn is_adr_file_for(name: &str, remote: &str, id: &str) -> (r: bool)
    ensures
        r == names_adr(name@, remote@, id@),
{
    let mut prefix = String::from_str(remote);
    prefix.append("-");
    prefix.append(id);
    prefix.append("-");
    let n = chars_of(name);
    let p = chars_of(prefix.as_str());
    let t = chars_of(".toml");
    chars_have_prefix(n.as_slice(), p.as_slice()) && chars_have_suffix(n.as_slice(), t.as_slice())
}

/// Index of the first of `names` that belongs to the ADR of work item `id`
/// of `remote`.
pub fn find_adr_name(names: &Vec<String>, remote: &str, id: &str) -> (r: Option<usize>)
    ensures
        r matches Some(i) ==> i < names@.len() && names_adr(names@[i as int]@, remote@, id@)
            && forall|k: int| 0 <= k < i ==> !names_adr(#[trigger] names@[k]@, remote@, id@),
        r is None ==> forall|k: int| 0 <= k < names@.len() ==> !names_adr(
            #[trigger] names@[k]@,
            remote@,
            id@,
        ),
{
    for i in 0..names.len()
        invariant
            forall|k: int| 0 <= k < i ==> !names_adr(#[trigger] names@[k]@, remote@, id@),
    {
        if is_adr_file_for(names[i].as_str(), remote, id) {
            return Some(i);
        }
    }
    None
}

/// Checks the arguments of a new ADR and gives the path of its file:
/// the id must be alphanumeric, the directory free of `..`, the title present.
pub fn new_adr_path(remote: &str, id: &str, title: &str, dir: &str) -> (r: Result<String, String>)
    ensures
        r is Ok <==> id@.len() > 0 && all_alphanumeric(id@) && !contains_seq(dir@, ".."@)
            && title@.len() > 0,
        r matches Ok(p) ==> p@ == adr_path(dir@, remote@, id@, slug_of(lowercase_of(title@))),
        id@.len() == 0 ==> (r matches Err(m) && m@ == "id is required"@),
        id@.len() > 0 && !all_alphanumeric(id@) ==> (r matches Err(m) && m@
            == "id must be alphanumeric, got '"@ + id@ + "'"@),
        id@.len() > 0 && all_alphanumeric(id@) && contains_seq(dir@, ".."@) ==> (r matches Err(m)
            && m@ == "directory '"@ + dir@ + "' contains '..' — path traversal not allowed"@),
        id@.len() > 0 && all_alphanumeric(id@) && !contains_seq(dir@, ".."@) && title@.len() == 0
            ==> (r matches Err(m) && m@ == "title is required"@),
{
    validate_id(id)?;
    validate_dir(dir)?;
    if title.unicode_len() == 0 {
        return Err(String::from_str("title is required"));
    }
    let slug = slugify(title);
    Ok(make_adr_path(dir, remote, id, slug.as_str()))
}

/// Where a renamed ADR is written: the path for its new title, and whether
/// that path differs from the one it was read from.
pub struct RenameTarget {
    pub path: String,
    pub moves: bool,
}

/// Renames the ADR of work item `id` of `remote`, read from `old_path` in
/// `dir`: its heading always takes the new title and the date of the
/// update; the file goes to the path of the new title's slug, which is a
/// move only where that path is not `old_path`.
pub fn rename_adr(
    adr: &mut Adr,
    old_path: &str,
    dir: &str,
    remote: &str,
    id: &str,
    new_title: &str,
    date: &str,
) -> (r: RenameTarget)
    ensures
        is_retitled(*old(adr), *final(adr), remote@, id@, new_title@, date@),
        r.path@ == adr_path(dir@, remote@, id@, slug_of(lowercase_of(new_title@))),
        r.moves == (r.path@ != old_path@),
{
    let slug = slugify(new_title);
    let path = make_adr_path(dir, remote, id, slug.as_str());
    let moves = !str_eq(path.as_str(), old_path);
    retitle(adr, remote, id, new_title, date);
    RenameTarget { path, moves }
}

/// The path of the first record of an ADR directory.
pub fn initial_record_path(dir: &str) -> (r: String)
    ensures
        r@ == dir@ + "/0001-record-architecture-decisions.toml"@,
{
    let mut p = String::from_str(dir);
    p.append("/0001-record-architecture-decisions.toml");
    p
}

/// Whether the ADR directory must be recorded in `.adr-dir`: every
/// directory but the default `docs/adr`.
pub fn records_custom_dir(dir: &str) -> (r: bool)
    ensures
        r == (dir@ != "docs/adr"@),
{
    !str_eq(dir, "docs/adr")
}

} // verus!
