//! Rules of the installer: the checks on an install prefix and the decision
//! whether to install, with the report of a dry run.

use vstd::prelude::*;
use crate::text::{push_decimal, split_at_char, split_on, str_eq, views_of, decimal};

verus! {

/// Why an install prefix is refused.
#[derive(Clone, Copy, Debug, PartialEq, Eq, Structural)]
pub enum PrefixError {
    Empty,
    Root,
    ParentDir,
}

/// The path is the filesystem root: it starts with `/` and has no component
/// other than empty ones and `.`.
pub open spec fn is_root_path(p: Seq<char>) -> bool {
    &&& p.len() > 0
    &&& p[0] == '/'
    &&& forall|i: int| 0 <= i < split_on(p, '/').len() ==> (#[trigger] split_on(p, '/')[i]).len()
        == 0 || split_on(p, '/')[i] == "."@
}

/// The path has a `..` component.
pub open spec fn has_parent_component(p: Seq<char>) -> bool {
    split_on(p, '/').contains(".."@)
}

/// The verdict on an install prefix: refused when empty, when the root, or
/// when it climbs with `..`, in that order of checking.
pub open spec fn prefix_verdict(p: Seq<char>) -> Result<(), PrefixError> {
    if p.len() == 0 {
        Err(PrefixError::Empty)
    } else if is_root_path(p) {
        Err(PrefixError::Root)
    } else if has_parent_component(p) {
        Err(PrefixError::ParentDir)
    } else {
        Ok(())
    }
}

/// Checks an install prefix.
pub fn validate_prefix(prefix: &str) -> (r: Result<(), PrefixError>)
    ensures
        r == prefix_verdict(prefix@),
{
    if prefix.unicode_len() == 0 {
        return Err(PrefixError::Empty);
    }
    let parts = split_at_char(prefix, '/');
    let ghost v = views_of(parts@);
    let first_is_slash = prefix.get_char(0) == '/';
    let mut all_trivial = true;
    let mut has_parent = false;
    for i in 0..parts.len()
        invariant
            v == views_of(parts@),
            v == split_on(prefix@, '/'),
            all_trivial == forall|k: int| 0 <= k < i ==> (#[trigger] v[k]).len() == 0 || v[k] == "."@,
            has_parent == v.take(i as int).contains(".."@),
    {
        let part = parts[i].as_str();
        assert(v[i as int] == part@);
        if !(part.unicode_len() == 0 || str_eq(part, ".")) {
            all_trivial = false;
        }
        if str_eq(part, "..") {
            has_parent = true;
            assert(v.take(i + 1)[i as int] == v[i as int]);
        } else {
            assert(v.take(i + 1).contains(".."@) ==> v.take(i as int).contains(".."@)) by {
                if v.take(i + 1).contains(".."@) {
                    let k = choose|k: int| 0 <= k < i + 1 && #[trigger] v.take(i + 1)[k] == ".."@;
                    assert(v.take(i as int)[k] == v.take(i + 1)[k]);
                }
            }
        }
        assert(v.take(i as int).contains(".."@) ==> v.take(i + 1).contains(".."@)) by {
            if v.take(i as int).contains(".."@) {
                let k = choose|k: int| 0 <= k < i && #[trigger] v.take(i as int)[k] == ".."@;
                assert(v.take(i + 1)[k] == v.take(i as int)[k]);
            }
        }
    }
    assert(v.take(v.len() as int) =~= v);
    if first_is_slash && all_trivial {
        Err(PrefixError::Root)
    } else if has_parent {
        Err(PrefixError::ParentDir)
    } else {
        Ok(())
    }
}

impl PrefixError {
    /// The message printed when the prefix is refused.
    pub fn message(&self) -> (r: &'static str)
        ensures
            r@ == match *self {
                PrefixError::Empty => "Error: --prefix cannot be empty"@,
                PrefixError::Root => "Error: --prefix cannot be the filesystem root"@,
                PrefixError::ParentDir => "Error: --prefix must not contain '..' components"@,
            },
    {
        match self {
            PrefixError::Empty => "Error: --prefix cannot be empty",
            PrefixError::Root => "Error: --prefix cannot be the filesystem root",
            PrefixError::ParentDir => "Error: --prefix must not contain '..' components",
        }
    }
}

/// Whether to install: never on a dry run; always when forced; otherwise
/// unless the installed version marker equals the embedded version.
pub open spec fn install_wanted(dry_run: bool, force: bool, installed: Option<Seq<char>>, version: Seq<char>) -> bool {
    if dry_run {
        false
    } else if force {
        true
    } else {
        installed != Some(version)
    }
}

/// What the installer reports before installing or not: on a dry run, what
/// would be installed and how the versions compare; when the installed
/// version is current and nothing forces, that it is up to date.
pub open spec fn install_report(
    dir: Seq<char>,
    label: Seq<char>,
    count: nat,
    dry_run: bool,
    force: bool,
    installed: Option<Seq<char>>,
    version: Seq<char>,
) -> Seq<char> {
    if dry_run {
        "Dry run: would install "@ + decimal(count) + " "@ + label + " files to "@ + dir + "\n"@
            + match installed {
            Some(v) => "  Installed version: "@ + v + "\n"@ + "  Embedded version:  "@ + version
                + "\n"@ + if v == version {
                "  Status: already up-to-date\n"@
            } else {
                "  Status: version mismatch — would update\n"@
            },
            None => "  No version marker found — would install fresh\n"@,
        }
    } else if force {
        Seq::empty()
    } else if installed == Some(version) {
        "Already up-to-date ("@ + label + ", version: "@ + version + ")\n"@
    } else {
        Seq::empty()
    }
}

/// Decides whether to install `count` `label` files into `dir`, given the
/// installed version marker and the embedded version, and what to report.
pub fn should_install(
    dir: &str,
    label: &str,
    count: usize,
    dry_run: bool,
    force: bool,
    installed: Option<&str>,
    version: &str,
) -> (r: (bool, String))
    ensures
        r.0 == install_wanted(
            dry_run,
            force,
            match installed {
                Some(v) => Some(v@),
                None => None,
            },
            version@,
        ),
        r.1@ == install_report(
            dir@,
            label@,
            count as nat,
            dry_run,
            force,
            match installed {
                Some(v) => Some(v@),
                None => None,
            },
            version@,
        ),
{
    if dry_run {
        let mut out = String::from_str("Dry run: would install ");
        push_decimal(&mut out, count as u64);
        out.append(" ");
        out.append(label);
        out.append(" files to ");
        out.append(dir);
        out.append("\n");
        match installed {
            Some(v) => {
                out.append("  Installed version: ");
                out.append(v);
                out.append("\n");
                out.append("  Embedded version:  ");
                out.append(version);
                out.append("\n");
                if str_eq(v, version) {
                    out.append("  Status: already up-to-date\n");
                } else {
                    out.append("  Status: version mismatch — would update\n");
                }
            },
            None => {
                out.append("  No version marker found — would install fresh\n");
            },
        }
        return (false, out);
    }
    if force {
        return (true, String::new());
    }
    match installed {
        Some(v) => {
            if str_eq(v, version) {
                let mut out = String::from_str("Already up-to-date (");
                out.append(label);
                out.append(", version: ");
                out.append(version);
                out.append(")\n");
                return (false, out);
            }
            (true, String::new())
        },
        None => (true, String::new()),
    }
}

/// A dry run installs nothing, whether forced or not; a forced run that is
/// not a dry run always installs.
pub proof fn lemma_dry_run_precedes_force(
    force: bool,
    installed: Option<Seq<char>>,
    version: Seq<char>,
)
    ensures
        !install_wanted(true, force, installed, version),
        install_wanted(false, true, installed, version),
{
}

} // verus!
