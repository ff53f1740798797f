//! Git metadata of a build: what the answers of a few `git` queries say
//! about the checkout (the queries themselves are run by the caller).
use vstd::prelude::*;

use std::path::PathBuf;

use crate::text::opt_text;
use crate::model::GitMetadata;
use crate::text::{chars_of, chars_split_all, chars_trim, copy_string, split_all, str_eq, string_of, trim, views};

verus! {

/// A filesystem path (`std::path::PathBuf`), carried through unread.
#[verifier::external_type_specification]
#[verifier::external_body]
pub struct ExPathBuf(PathBuf);

/// Whether git metadata is collected, and from which directory.
#[derive(Debug, Clone, Default)]
pub struct GitOptions {
    pub enabled: bool,
    pub repo_path: Option<PathBuf>,
}

/// One commit of a repository.
#[derive(Debug, Clone, PartialEq, Eq)]
pub struct GitCommit {
    pub commit: String,
    pub short_commit: String,
    pub commit_time: String,
    pub author_name: String,
    pub subject: String,
}

/// How commits of a range are ordered.
#[derive(Debug, Clone, Copy, PartialEq, Eq, Structural)]
pub enum CommitOrder {
    Timestamp,
    Ancestry,
}

/// The answers of the git queries about a checkout, each already reduced by
/// `query_answer` (`None` when the query failed or printed nothing).
#[derive(Debug, Clone, PartialEq, Eq)]
pub struct GitAnswers {
    pub repo_root: Option<String>,
    pub commit_hash: Option<String>,
    pub short_commit_hash: Option<String>,
    pub branch: Option<String>,
    pub tags: Option<String>,
    pub commit_subject: Option<String>,
    pub author_name: Option<String>,
    pub author_email: Option<String>,
    pub commit_timestamp: Option<String>,
    pub describe: Option<String>,
    pub is_dirty: bool,
}

/// What a query printed, trimmed; nothing when that is empty.
pub open spec fn answer_text(stdout: Seq<char>) -> Option<Seq<char>> {
    if trim(stdout).len() == 0 {
        None
    } else {
        Some(trim(stdout))
    }
}

/// The non-empty trimmed lines of a text.
pub open spec fn nonempty_trimmed(parts: Seq<Seq<char>>) -> Seq<Seq<char>>
    decreases parts.len(),
{
    if parts.len() == 0 {
        Seq::empty()
    } else {
        let rest = nonempty_trimmed(parts.drop_last());
        if trim(parts.last()).len() > 0 {
            rest.push(trim(parts.last()))
        } else {
            rest
        }
    }
}

/// The tag names listed one per line.
pub open spec fn tag_lines(text: Seq<char>) -> Seq<Seq<char>> {
    nonempty_trimmed(split_all(text, seq!['\n']))
}

/// The answer of one query: the printed text trimmed, or nothing when empty.
pub fn query_answer(stdout: &str) -> (r: Option<String>)
    ensures
        opt_text(r) == answer_text(stdout@),
{
    let c = chars_of(stdout);
    let t = chars_trim(&c);
    if t.len() == 0 {
        None
    } else {
        Some(string_of(&t))
    }
}

/// Whether `git status --porcelain` printed anything.
pub fn status_has_changes(stdout: &str) -> (r: bool)
    ensures
        r == (trim(stdout@).len() > 0),
{
    let c = chars_of(stdout);
    let t = chars_trim(&c);
    t.len() > 0
}

/// The tag names listed one per line, trimmed, blank lines dropped.
pub fn parse_tag_lines(text: &str) -> (out: Vec<String>)
    ensures
        out@.len() == tag_lines(text@).len(),
        forall|i: int| 0 <= i < out@.len() ==> #[trigger] out@[i]@ == tag_lines(text@)[i],
{
    let c = chars_of(text);
    let nl: Vec<char> = vec!['\n'];
    assert(nl@ =~= seq!['\n']);
    let parts = chars_split_all(&c, &nl);
    let mut out: Vec<String> = Vec::new();
    let mut i: usize = 0;
    while i < parts.len()
        invariant
            i <= parts.len(),
            views(parts@) == split_all(text@, seq!['\n']),
            out@.len() == nonempty_trimmed(views(parts@).take(i as int)).len(),
            forall|k: int|
                0 <= k < out@.len() ==> #[trigger] out@[k]@ == nonempty_trimmed(views(parts@).take(i as int))[k],
        decreases parts.len() - i,
    {
        assert(views(parts@).take(i + 1).drop_last() =~= views(parts@).take(i as int));
        assert(views(parts@).take(i + 1).last() == parts@[i as int]@);
        let t = chars_trim(&parts[i]);
        if t.len() > 0 {
            out.push(string_of(&t));
        }
        i += 1;
    }
    assert(views(parts@).take(parts.len() as int) =~= views(parts@));
    out
}

/// The metadata of a checkout, from the answers of the git queries: nothing
/// when collection is off or the root, commit or short commit is unknown; a
/// branch named `HEAD` means a detached head.
pub open spec fn metadata_ok(out: Option<GitMetadata>, enabled: bool, a: GitAnswers) -> bool {
    if !enabled || a.repo_root is None || a.commit_hash is None || a.short_commit_hash is None {
        out is None
    } else {
        match out {
            None => false,
            Some(m) => {
                &&& m.repo_root == a.repo_root->0
                &&& m.commit_hash == a.commit_hash->0
                &&& m.short_commit_hash == a.short_commit_hash->0
                &&& opt_text(m.branch_name) == match opt_text(a.branch) {
                    Some(b) => if b == "HEAD"@ {
                        None
                    } else {
                        Some(b)
                    },
                    None => None,
                }
                &&& m.detached_head == (opt_text(a.branch) == Some("HEAD"@))
                &&& m.tag_names@.len() == match opt_text(a.tags) {
                    Some(t) => tag_lines(t).len(),
                    None => 0,
                }
                &&& forall|i: int|
                    0 <= i < m.tag_names@.len() ==> Some(#[trigger] m.tag_names@[i]@) == match opt_text(
                        a.tags,
                    ) {
                        Some(t) => Some(tag_lines(t)[i]),
                        None => None,
                    }
                &&& m.commit_subject == a.commit_subject
                &&& m.author_name == a.author_name
                &&& m.author_email == a.author_email
                &&& m.commit_timestamp == a.commit_timestamp
                &&& m.describe == a.describe
                &&& m.is_dirty == a.is_dirty
            },
        }
    }
}

/// The metadata of a checkout, from the answers of the git queries.
pub fn metadata_from_answers(enabled: bool, answers: GitAnswers) -> (out: Option<GitMetadata>)
    ensures
        metadata_ok(out, enabled, answers),
{
    if !enabled {
        return None;
    }
    let ghost a = answers;
    let GitAnswers {
        repo_root,
        commit_hash,
        short_commit_hash,
        branch,
        tags,
        commit_subject,
        author_name,
        author_email,
        commit_timestamp,
        describe,
        is_dirty,
    } = answers;
    let repo_root = match repo_root {
        Some(v) => v,
        None => return None,
    };
    let commit_hash = match commit_hash {
        Some(v) => v,
        None => return None,
    };
    let short_commit_hash = match short_commit_hash {
        Some(v) => v,
        None => return None,
    };
    let detached_head = match &branch {
        Some(b) => str_eq(b.as_str(), "HEAD"),
        None => false,
    };
    let branch_name = match branch {
        Some(b) => if str_eq(b.as_str(), "HEAD") {
            None
        } else {
            Some(b)
        },
        None => None,
    };
    let tag_names = match &tags {
        Some(t) => parse_tag_lines(t.as_str()),
        None => Vec::new(),
    };
    Some(
        GitMetadata {
            repo_root,
            commit_hash,
            short_commit_hash,
            branch_name,
            detached_head,
            tag_names,
            commit_subject,
            author_name,
            author_email,
            commit_timestamp,
            describe,
            is_dirty,
        },
    )
}


/// The field separator of a commit line (the ASCII unit separator).
pub open spec fn commit_field_separator() -> Seq<char> {
    seq!['\x1f']
}

/// The commit a line of `git log --format=%H%x1f%h%x1f%cI%x1f%an%x1f%s` names:
/// hash, short hash, commit time, author and subject, when the line has
/// exactly those five fields.
pub open spec fn commit_line_fields(line: Seq<char>) -> Option<Seq<Seq<char>>> {
    let parts = split_all(line, commit_field_separator());
    if parts.len() == 5 {
        Some(parts)
    } else {
        None
    }
}

/// Reads one commit line (see `commit_line_fields`).
pub fn parse_commit_line(line: &str) -> (r: Option<GitCommit>)
    ensures
        match commit_line_fields(line@) {
            Some(f) => r matches Some(c) && c.commit@ == f[0] && c.short_commit@ == f[1] && c.commit_time@ == f[2]
                && c.author_name@ == f[3] && c.subject@ == f[4],
            None => r is None,
        },
{
    let chars = chars_of(line);
    let mut sep: Vec<char> = Vec::new();
    sep.push('\x1f');
    assert(sep@ =~= commit_field_separator());
    let parts = chars_split_all(&chars, &sep);
    if parts.len() != 5 {
        return None;
    }
    assert(views(parts@)[0] == parts@[0]@);
    assert(views(parts@)[1] == parts@[1]@);
    assert(views(parts@)[2] == parts@[2]@);
    assert(views(parts@)[3] == parts@[3]@);
    assert(views(parts@)[4] == parts@[4]@);
    Some(
        GitCommit {
            commit: string_of(&parts[0]),
            short_commit: string_of(&parts[1]),
            commit_time: string_of(&parts[2]),
            author_name: string_of(&parts[3]),
            subject: string_of(&parts[4]),
        },
    )
}

} // verus!
