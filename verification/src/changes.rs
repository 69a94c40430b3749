//! The changelog of a package, from the commits that touched it.

use vstd::prelude::*;
use crate::text::{contains, str_contains};

verus! {

/// One entry of a package's changelog: a commit that touched the package.
#[derive(Debug, Clone, PartialEq, Eq)]
pub struct Change {
    pub pkg_name: String,
    pub version: String,
    pub branch: String,
    pub urgency: String,
    pub message: String,
    pub githash: String,
    pub maintainer_name: String,
    pub maintainer_email: String,
    pub timestamp: i64,
}

/// A changelog entry as plain text.
pub struct ChangeRecord {
    pub pkg_name: Seq<char>,
    pub version: Seq<char>,
    pub branch: Seq<char>,
    pub urgency: Seq<char>,
    pub message: Seq<char>,
    pub githash: Seq<char>,
    pub maintainer_name: Seq<char>,
    pub maintainer_email: Seq<char>,
    pub timestamp: i64,
}

impl View for Change {
    type V = ChangeRecord;

    open spec fn view(&self) -> ChangeRecord {
        ChangeRecord {
            pkg_name: self.pkg_name@,
            version: self.version@,
            branch: self.branch@,
            urgency: self.urgency@,
            message: self.message@,
            githash: self.githash@,
            maintainer_name: self.maintainer_name@,
            maintainer_email: self.maintainer_email@,
            timestamp: self.timestamp,
        }
    }
}

/// Changelog entries as plain text, in order.
pub open spec fn change_records(v: Seq<Change>) -> Seq<ChangeRecord> {
    Seq::new(v.len(), |i: int| v[i]@)
}

/// What the repository holds of one commit. A field is `None` where the
/// commit has none that is text.
#[derive(Debug, Clone, PartialEq, Eq)]
pub struct CommitInfo {
    pub message: Option<String>,
    pub committer_name: Option<String>,
    pub committer_email: Option<String>,
    /// Seconds since the epoch.
    pub time: i64,
}

/// One commit that the commit index lists for a package.
#[derive(Debug, Clone, PartialEq, Eq)]
pub struct IndexedCommit {
    /// The commit's hash, in hexadecimal digits.
    pub githash: String,
    /// The version of the package that the commit produced.
    pub version: String,
    /// The commit as the repository resolves it; `None` where it cannot.
    pub commit: Option<CommitInfo>,
}

/// The word that marks a commit as urgent.
pub open spec fn security_keyword() -> Seq<char> {
    seq!['s', 'e', 'c', 'u', 'r', 'i', 't', 'y']
}

/// The urgency of an urgent commit.
pub open spec fn high_urgency() -> Seq<char> {
    seq!['h', 'i', 'g', 'h']
}

/// The urgency of any other commit.
pub open spec fn medium_urgency() -> Seq<char> {
    seq!['m', 'e', 'd', 'i', 'u', 'm']
}

/// The urgency of a commit with the message `message`: high where the
/// message holds the keyword, in exactly that spelling, and medium
/// otherwise.
pub open spec fn urgency_of(message: Seq<char>) -> Seq<char> {
    if contains(message, security_keyword()) {
        high_urgency()
    } else {
        medium_urgency()
    }
}

/// The changelog entry that `commit` gives for the package `pkg_name` on
/// `branch`; none where the commit cannot be resolved or lacks a message, a
/// committer name or a committer address.
pub open spec fn change_of(pkg_name: Seq<char>, branch: Seq<char>, commit: IndexedCommit) -> Option<
    ChangeRecord,
> {
    match commit.commit {
        Some(CommitInfo {
            message: Some(message),
            committer_name: Some(name),
            committer_email: Some(email),
            time,
        }) => Some(
            ChangeRecord {
                pkg_name,
                version: commit.version@,
                branch,
                urgency: urgency_of(message@),
                message: message@,
                githash: commit.githash@,
                maintainer_name: name@,
                maintainer_email: email@,
                timestamp: time,
            },
        ),
        _ => None,
    }
}

/// The changelog that `commits` give, in their order, commits without an
/// entry left out.
pub open spec fn changes_of(
    pkg_name: Seq<char>,
    branch: Seq<char>,
    commits: Seq<IndexedCommit>,
) -> Seq<ChangeRecord>
    decreases commits.len(),
{
    if commits.len() == 0 {
        Seq::empty()
    } else {
        let earlier = changes_of(pkg_name, branch, commits.drop_last());
        match change_of(pkg_name, branch, commits.last()) {
            Some(change) => earlier.push(change),
            None => earlier,
        }
    }
}

/// The urgency of a commit with the message `message`.
pub fn urgency(message: &str) -> (r: String)
    ensures
        r@ == urgency_of(message@),
{
    proof {
        reveal_strlit("security");
        reveal_strlit("high");
        reveal_strlit("medium");
    }
    assert("security"@ == security_keyword());
    assert("high"@ == high_urgency());
    assert("medium"@ == medium_urgency());
    if str_contains(message, "security") {
        "high".to_owned()
    } else {
        "medium".to_owned()
    }
}

/// The changelog entry that one commit gives, if it gives one.
fn change_from(pkg_name: &str, branch: &str, commit: &IndexedCommit) -> (r: Option<Change>)
    ensures
        match r {
            Some(change) => change_of(pkg_name@, branch@, *commit) == Some(change@),
            None => change_of(pkg_name@, branch@, *commit) is None,
        },
{
    let info = match &commit.commit {
        Some(info) => info,
        None => {
            return None;
        },
    };
    let message = match &info.message {
        Some(message) => message,
        None => {
            return None;
        },
    };
    let name = match &info.committer_name {
        Some(name) => name,
        None => {
            return None;
        },
    };
    let email = match &info.committer_email {
        Some(email) => email,
        None => {
            return None;
        },
    };
    Some(
        Change {
            pkg_name: pkg_name.to_owned(),
            version: commit.version.clone(),
            branch: branch.to_owned(),
            urgency: urgency(message.as_str()),
            message: message.clone(),
            githash: commit.githash.clone(),
            maintainer_name: name.clone(),
            maintainer_email: email.clone(),
            timestamp: info.time,
        },
    )
}

/// The changelog of the package `pkg_name` on `branch`, from what the commit
/// index lists for it.
///
/// `commits` is the answer of the commit index: the commits that touched the
/// package, each with what the repository holds of it, or the failure of the
/// query. A failed query fails the call with the same error. A commit that
/// cannot be resolved, or that lacks a message, a committer name or a
/// committer address, is left out; the others come in the order of the
/// index.
pub fn scan_package_changes<E>(
    pkg_name: &str,
    branch: &str,
    commits: Result<Vec<IndexedCommit>, E>,
) -> (r: Result<Vec<Change>, E>)
    ensures
        match commits {
            Ok(list) => r is Ok && change_records(r->Ok_0@) == changes_of(
                pkg_name@,
                branch@,
                list@,
            ),
            Err(e) => r == Err::<Vec<Change>, E>(e),
        },
{
    let list = match commits {
        Ok(list) => list,
        Err(e) => {
            return Err(e);
        },
    };
    let mut out: Vec<Change> = Vec::new();
    let mut i: usize = 0;
    assert(list@.take(0) == Seq::<IndexedCommit>::empty());
    assert(change_records(out@) == Seq::<ChangeRecord>::empty());
    while i < list.len()
        invariant
            i <= list.len(),
            change_records(out@) == changes_of(pkg_name@, branch@, list@.take(i as int)),
        decreases list.len() - i,
    {
        assert(list@.take(i + 1).drop_last() == list@.take(i as int));
        assert(list@.take(i + 1).last() == list@[i as int]);
        match change_from(pkg_name, branch, &list[i]) {
            Some(change) => {
                let ghost before = out@;
                out.push(change);
                assert(change_records(out@) == change_records(before).push(change@));
            },
            None => {},
        }
        i += 1;
    }
    assert(list@.take(list.len() as int) == list@);
    Ok(out)
}

/// A commit is of high urgency if and only if its message holds the
/// keyword, and of medium urgency otherwise.
pub proof fn lemma_urgency(message: Seq<char>)
    ensures
        urgency_of(message) == high_urgency() <==> contains(message, security_keyword()),
        urgency_of(message) == medium_urgency() <==> !contains(message, security_keyword()),
{
    assert(high_urgency().len() != medium_urgency().len());
}

/// A package that no commit touched has an empty changelog.
pub proof fn lemma_no_commits_no_changes(pkg_name: Seq<char>, branch: Seq<char>)
    ensures
        changes_of(pkg_name, branch, Seq::empty()) == Seq::<ChangeRecord>::empty(),
{
}

} // verus!
