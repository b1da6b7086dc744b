//! Remote work items: the normalized work-item record, and the Gitea adapter's
//! request shape and normalization of Gitea issues.

use vstd::prelude::*;
use crate::text::{
    chars_of, decimal, decimal_string, end_without_trailing, str_eq, string_of_range, trim_trailing, views_of,
};

verus! {

/// A work item normalized from any remote.
#[derive(Debug, Clone)]
pub struct NormalizedWorkItem {
    pub remote: String,
    pub id: String,
    pub title: String,
    pub item_type: String,
    pub state: String,
    pub url: String,
    pub description: String,
    pub labels: Vec<String>,
    pub created: String,
    pub updated: String,
    pub cached_at: Option<String>,
}

/// Where a Gitea instance is and how to authenticate to it.
pub struct GiteaAdapter {
    pub base_url: String,
    pub owner: String,
    pub repo: String,
    pub token: Option<String>,
}

/// The fields of a Gitea issue that normalization reads.
#[derive(Debug)]
pub struct GiteaIssue {
    pub number: u64,
    pub title: String,
    pub body: Option<String>,
    pub state: String,
    pub html_url: Option<String>,
    pub labels: Vec<GiteaLabel>,
    pub created_at: Option<String>,
    pub updated_at: Option<String>,
}

/// A label of a Gitea issue.
#[derive(Debug)]
pub struct GiteaLabel {
    pub name: String,
}

/// The value of an optional string, or the empty string.
pub open spec fn or_empty(s: Option<String>) -> Seq<char> {
    match s {
        Some(v) => v@,
        None => Seq::empty(),
    }
}

/// The first `n` characters of `s` (all of them when there are fewer).
pub open spec fn first_chars(s: Seq<char>, n: nat) -> Seq<char> {
    if s.len() <= n {
        s
    } else {
        s.take(n as int)
    }
}

/// The names of labels, in order.
pub open spec fn label_names(ls: Seq<GiteaLabel>) -> Seq<Seq<char>> {
    ls.map_values(|l: GiteaLabel| l.name@)
}

/// `item` is the normalization of `issue`: remote `gitea`, the issue number
/// as id, type `bug` when a label is named `bug` and `issue` otherwise,
/// state `closed` when the issue is closed and `open` otherwise, the first
/// 500 characters of the body as description, the label names, and empty
/// strings for absent fields.
pub open spec fn is_normalization_of(item: NormalizedWorkItem, issue: GiteaIssue) -> bool {
    &&& item.remote@ == "gitea"@
    &&& item.id@ == decimal(issue.number as nat)
    &&& item.title == issue.title
    &&& item.item_type@ == (if label_names(issue.labels@).contains("bug"@) {
        "bug"@
    } else {
        "issue"@
    })
    &&& item.state@ == (if issue.state@ == "closed"@ {
        "closed"@
    } else {
        "open"@
    })
    &&& item.url@ == or_empty(issue.html_url)
    &&& item.description@ == first_chars(or_empty(issue.body), 500)
    &&& views_of(item.labels@) == label_names(issue.labels@)
    &&& item.created@ == or_empty(issue.created_at)
    &&& item.updated@ == or_empty(issue.updated_at)
    &&& item.cached_at is None
}

fn take_or_empty(s: Option<String>) -> (r: String)
    ensures
        r@ == or_empty(s),
{
    match s {
        Some(v) => v,
        None => String::new(),
    }
}

impl GiteaAdapter {
    /// An adapter for `base_url` (trailing slashes dropped), `owner`/`repo`,
    /// with an optional access token.
    pub fn new(base_url: &str, owner: &str, repo: &str, token: Option<String>) -> (r: Self)
        ensures
            r.base_url@ == trim_trailing(base_url@, '/'),
            r.owner@ == owner@,
            r.repo@ == repo@,
            r.token == token,
    {
        let cs = chars_of(base_url);
        let mut j = cs.len();
        while j > 0 && cs[j - 1] == '/'
            invariant
                j <= cs@.len(),
                cs@ == base_url@,
                end_without_trailing(cs@, '/', j as int) == end_without_trailing(
                    cs@,
                    '/',
                    cs@.len() as int,
                ),
            decreases j,
        {
            j = j - 1;
        }
        let base = string_of_range(cs.as_slice(), 0, j);
        assert(base@ =~= trim_trailing(base_url@, '/'));
        GiteaAdapter {
            base_url: base,
            owner: String::from_str(owner),
            repo: String::from_str(repo),
            token,
        }
    }

    /// The API URL of issue `id`.
    pub fn issue_url(&self, id: &str) -> (r: String)
        ensures
            r@ == self.base_url@ + "/api/v1/repos/"@ + self.owner@ + "/"@ + self.repo@
                + "/issues/"@ + id@,
    {
        let mut u = String::from_str(self.base_url.as_str());
        u.append("/api/v1/repos/");
        u.append(self.owner.as_str());
        u.append("/");
        u.append(self.repo.as_str());
        u.append("/issues/");
        u.append(id);
        u
    }

    /// The `Authorization` header value: `token {token}` when a non-empty
    /// token is configured, none otherwise.
    pub fn authorization(&self) -> (r: Option<String>)
        ensures
            match self.token {
                Some(t) => if t@.len() > 0 {
                    r matches Some(h) && h@ == "token "@ + t@
                } else {
                    r is None
                },
                None => r is None,
            },
    {
        match &self.token {
            Some(t) => {
                if t.as_str().unicode_len() > 0 {
                    let mut h = String::from_str("token ");
                    h.append(t.as_str());
                    Some(h)
                } else {
                    None
                }
            },
            None => None,
        }
    }

    /// Normalizes a Gitea issue into a work item.
    pub fn normalize(issue: GiteaIssue) -> (r: NormalizedWorkItem)
        ensures
            is_normalization_of(r, issue),
    {
        let ghost orig = issue;
        let mut names: Vec<String> = Vec::new();
        let mut is_bug = false;
        for i in 0..issue.labels.len()
            invariant
                views_of(names@) == label_names(issue.labels@).take(i as int),
                is_bug == label_names(issue.labels@).take(i as int).contains("bug"@),
        {
            let name = issue.labels[i].name.clone();
            let ghost before = views_of(names@);
            if str_eq(name.as_str(), "bug") {
                is_bug = true;
            }
            names.push(name);
            assert(views_of(names@) =~= before.push(issue.labels@[i as int].name@));
            assert(label_names(issue.labels@).take(i + 1) =~= label_names(issue.labels@).take(
                i as int,
            ).push(issue.labels@[i as int].name@));
            proof {
                let t = label_names(issue.labels@).take(i + 1);
                if !is_bug {
                    assert forall|k: int| 0 <= k < t.len() implies t[k] != "bug"@ by {
                        if k < i {
                            assert(t[k] == label_names(issue.labels@).take(i as int)[k]);
                        }
                    }
                } else if issue.labels@[i as int].name@ == "bug"@ {
                    assert(t[i as int] == "bug"@);
                } else {
                    let k = choose|k: int| 0 <= k < i && label_names(issue.labels@).take(i as int)[k]
                        == "bug"@;
                    assert(t[k] == "bug"@);
                }
            }
        }
        assert(label_names(issue.labels@).take(issue.labels@.len() as int) =~= label_names(
            issue.labels@,
        ));
        let item_type = if is_bug {
            String::from_str("bug")
        } else {
            String::from_str("issue")
        };
        let state = if str_eq(issue.state.as_str(), "closed") {
            String::from_str("closed")
        } else {
            String::from_str("open")
        };
        let body = take_or_empty(issue.body);
        let n = body.as_str().unicode_len();
        let keep = if n <= 500 {
            n
        } else {
            500
        };
        let description = String::from_str(body.as_str().substring_char(0, keep));
        assert(description@ =~= first_chars(or_empty(orig.body), 500));
        NormalizedWorkItem {
            remote: String::from_str("gitea"),
            id: decimal_string(issue.number),
            title: issue.title,
            item_type,
            state,
            url: take_or_empty(issue.html_url),
            description,
            labels: names,
            created: take_or_empty(issue.created_at),
            updated: take_or_empty(issue.updated_at),
            cached_at: None,
        }
    }
}

/// Checks that work items can be fetched from `remote`: only `gitea` is supported.
pub fn check_fetch_remote(remote: &str) -> (r: Result<(), String>)
    ensures
        r is Ok <==> remote@ == "gitea"@,
        r matches Err(m) ==> m@ == "Unknown remote '"@ + remote@ + "'. Supported: gitea"@,
{
    if str_eq(remote, "gitea") {
        Ok(())
    } else {
        let mut m = String::from_str("Unknown remote '");
        m.append(remote);
        m.append("'. Supported: gitea");
        Err(m)
    }
}

/// The message when a Gitea setting is missing.
pub open spec fn missing_setting_message(name: Seq<char>) -> Seq<char> {
    name + " not set. Set it or configure [remote.gitea] in .adr/preferences.toml"@
}

/// Builds the Gitea adapter from its settings: the URL defaults to
/// `http://localhost:3000`; the owner and the repository are required,
/// the owner first.
pub fn gitea_adapter_from_settings(
    url: Option<&str>,
    owner: Option<&str>,
    repo: Option<&str>,
    token: Option<String>,
) -> (r: Result<GiteaAdapter, String>)
    ensures
        owner is None ==> (r matches Err(m) && m@ == missing_setting_message("ADR_GITEA_OWNER"@)),
        owner is Some && repo is None ==> (r matches Err(m) && m@ == missing_setting_message(
            "ADR_GITEA_REPO"@,
        )),
        r is Ok <==> owner is Some && repo is Some,
        r matches Ok(a) ==> a.base_url@ == trim_trailing(
            match url {
                Some(u) => u@,
                None => "http://localhost:3000"@,
            },
            '/',
        ) && a.owner@ == owner->0@ && a.repo@ == repo->0@ && a.token == token,
{
    let base = match url {
        Some(u) => u,
        None => "http://localhost:3000",
    };
    match owner {
        None => {
            let mut m = String::from_str("ADR_GITEA_OWNER");
            m.append(" not set. Set it or configure [remote.gitea] in .adr/preferences.toml");
            Err(m)
        },
        Some(o) => match repo {
            None => {
                let mut m = String::from_str("ADR_GITEA_REPO");
                m.append(" not set. Set it or configure [remote.gitea] in .adr/preferences.toml");
                Err(m)
            },
            Some(r) => Ok(GiteaAdapter::new(base, o, r, token)),
        },
    }
}

} // verus!
