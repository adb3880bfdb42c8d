//! Scan-time enrichment: deciding which directory entries become
//! projects, reducing raw subprocess output and probed file facts to a
//! `Project` record, and ordering the finished collection by recency.

use vstd::prelude::*;
use crate::digits::{dec_digits, parse_u64, parse_u64_spec, u64_to_dec};
use crate::project::Project;
use crate::text::str_eq;

verus! {

/// The sequence of characters that `str::trim` produces for `s`.
pub uninterp spec fn trimmed_of(s: Seq<char>) -> Seq<char>;

/// Relies on `str::trim`: the result is `s` without leading and trailing
/// whitespace, and depends on `s`'s characters alone.
#[verifier::external_body]
fn trim(s: &str) -> (r: String)
    ensures
        r@ == trimmed_of(s@),
{
    s.trim().to_owned()
}

/// The number of entries of the JSON object under `key` in the JSON
/// document `text`, absent when `text` does not parse, lacks `key`, or
/// holds something other than an object there.
pub uninterp spec fn json_object_len_of(text: Seq<char>, key: Seq<char>) -> Option<u64>;

/// Relies on `serde_json::from_str`, `serde_json::Value::get` and
/// `serde_json::Value::as_object`: how many entries the object under
/// `key` has, absent when `text` does not parse as JSON, has no `key`,
/// or holds a non-object there. Depends on `text` and `key` alone.
#[verifier::external_body]
fn json_object_len(text: &str, key: &str) -> (r: Option<u64>)
    ensures
        r == json_object_len_of(text@, key@),
{
    serde_json::from_str::<serde_json::Value>(text).ok().and_then(
        |v| v.get(key).and_then(|m| m.as_object()).map(|o| o.len() as u64),
    )
}

/// A directory entry becomes a project unless it is dot-prefixed or is
/// the dashboard's own directory.
pub open spec fn eligible_project_name_spec(name: Seq<char>) -> bool {
    !(name.len() > 0 && name[0] == '.') && name != "projdash"@
}

/// Decides whether a root's child directory named `name` is scanned as a
/// project.
pub fn eligible_project_name(name: &str) -> (r: bool)
    ensures
        r == eligible_project_name_spec(name@),
{
    let n = name.unicode_len();
    if n > 0 && name.get_char(0) == '.' {
        return false;
    }
    !str_eq(name, "projdash")
}

/// A project's direct child counts toward the modification-time fallback
/// unless it is dot-prefixed or the OS metadata file.
pub open spec fn eligible_child_name_spec(name: Seq<char>) -> bool {
    !(name.len() > 0 && name[0] == '.') && name != ".DS_Store"@
}

/// Decides whether a direct child named `name` counts toward the
/// modification-time fallback of an untracked project.
pub fn eligible_child_name(name: &str) -> (r: bool)
    ensures
        r == eligible_child_name_spec(name@),
{
    let n = name.unicode_len();
    if n > 0 && name.get_char(0) == '.' {
        return false;
    }
    !str_eq(name, ".DS_Store")
}

/// The branch a `git branch --show-current` output stands for: trimmed,
/// with empty output (detached head) and a failed command both absent.
pub open spec fn branch_of_spec(raw: Option<Seq<char>>) -> Option<Seq<char>> {
    match raw {
        Option::None => Option::None,
        Option::Some(o) => if trimmed_of(o).len() == 0 {
            Option::None
        } else {
            Option::Some(trimmed_of(o))
        },
    }
}

/// Reduces raw branch-query output (`None` when the command failed) to
/// the current branch name.
pub fn branch_of_output(raw: &Option<String>) -> (r: Option<String>)
    ensures
        r.deep_view() == branch_of_spec(raw.deep_view()),
{
    match raw {
        Option::None => Option::None,
        Option::Some(o) => {
            let t = trim(o.as_str());
            if t.as_str().unicode_len() == 0 {
                Option::None
            } else {
                Option::Some(t)
            }
        },
    }
}

/// The timestamp a `git log -1 --format=%ct` output stands for: the
/// trimmed output parsed as epoch seconds; absent when the command
/// failed or the output does not parse.
pub open spec fn commit_time_spec(raw: Option<Seq<char>>) -> Option<u64> {
    match raw {
        Option::None => Option::None,
        Option::Some(o) => parse_u64_spec(trimmed_of(o)),
    }
}

/// Reduces raw last-commit-time output (`None` when the command failed)
/// to an epoch-seconds timestamp.
pub fn commit_time_of_output(raw: &Option<String>) -> (r: Option<u64>)
    ensures
        r == commit_time_spec(raw.deep_view()),
{
    match raw {
        Option::None => Option::None,
        Option::Some(o) => {
            let t = trim(o.as_str());
            parse_u64(t.as_str())
        },
    }
}

/// The largest element of `s`, absent when `s` is empty.
pub open spec fn max_of_spec(s: Seq<u64>) -> Option<u64>
    decreases s.len(),
{
    if s.len() == 0 {
        Option::None
    } else {
        match max_of_spec(s.drop_last()) {
            Option::None => Option::Some(s.last()),
            Option::Some(m) => Option::Some(
                if m >= s.last() {
                    m
                } else {
                    s.last()
                },
            ),
        }
    }
}

/// The most recent of the given modification times, absent when there is
/// none.
pub fn max_mtime(mtimes: &Vec<u64>) -> (r: Option<u64>)
    ensures
        r == max_of_spec(mtimes@),
{
    let mut best: Option<u64> = Option::None;
    let mut i: usize = 0;
    while i < mtimes.len()
        invariant
            i <= mtimes@.len(),
            best == max_of_spec(mtimes@.take(i as int)),
        decreases mtimes@.len() - i,
    {
        let t = mtimes[i];
        proof {
            assert(mtimes@.take(i + 1 as int).drop_last() =~= mtimes@.take(i as int));
        }
        best = match best {
            Option::None => Option::Some(t),
            Option::Some(m) => Option::Some(
                if m >= t {
                    m
                } else {
                    t
                },
            ),
        };
        i = i + 1;
    }
    proof {
        assert(mtimes@.take(mtimes@.len() as int) =~= mtimes@);
    }
    best
}

/// The integration-server count a scan reports: the entry count of the
/// recognized mapping in the config file's body, or 1 when the file was
/// unreadable, unparsable, or lacks the mapping — "configured, detail
/// unknown" rather than a silent omission.
pub open spec fn mcp_count_spec(text: Option<Seq<char>>) -> int {
    match text {
        Option::None => 1,
        Option::Some(t) => match json_object_len_of(t, "mcpServers"@) {
            Option::None => 1,
            Option::Some(c) => c as int,
        },
    }
}

/// Counts the configured integration servers in an integration-config
/// file's body (`None` when the file could not be read).
pub fn mcp_count(text: &Option<String>) -> (r: u64)
    ensures
        r as int == mcp_count_spec(text.deep_view()),
{
    match text {
        Option::None => 1,
        Option::Some(t) => match json_object_len(t.as_str(), "mcpServers") {
            Option::None => 1,
            Option::Some(c) => c,
        },
    }
}

/// The configuration tags for a project, in fixed detection order:
/// the documentation marker, then `<n>skills` when the commands
/// directory has entries, then `<n>mcp` when the integration-config
/// file exists.
pub open spec fn config_labels_spec(
    has_doc_marker: bool,
    skill_count: int,
    mcp_file_exists: bool,
    mcp_text: Option<Seq<char>>,
) -> Seq<Seq<char>> {
    (if has_doc_marker {
        seq!["agents.md"@]
    } else {
        Seq::<Seq<char>>::empty()
    }) + (if skill_count > 0 {
        seq![dec_digits(skill_count) + "skills"@]
    } else {
        Seq::<Seq<char>>::empty()
    }) + (if mcp_file_exists {
        seq![dec_digits(mcp_count_spec(mcp_text)) + "mcp"@]
    } else {
        Seq::<Seq<char>>::empty()
    })
}

/// Builds a project's configuration tags from the probed facts.
pub fn config_labels(
    has_doc_marker: bool,
    skill_count: u64,
    mcp_file_exists: bool,
    mcp_text: &Option<String>,
) -> (r: Vec<String>)
    ensures
        r.deep_view() == config_labels_spec(
            has_doc_marker,
            skill_count as int,
            mcp_file_exists,
            mcp_text.deep_view(),
        ),
{
    let mut labels: Vec<String> = Vec::new();
    if has_doc_marker {
        labels.push(String::from_str("agents.md"));
    }
    if skill_count > 0 {
        let mut l = u64_to_dec(skill_count);
        l.append("skills");
        labels.push(l);
    }
    if mcp_file_exists {
        let count = mcp_count(mcp_text);
        let mut l = u64_to_dec(count);
        l.append("mcp");
        labels.push(l);
    }
    proof {
        assert(labels.deep_view() =~~= config_labels_spec(
            has_doc_marker,
            skill_count as int,
            mcp_file_exists,
            mcp_text.deep_view(),
        ));
    }
    labels
}

/// Everything the filesystem and subprocess probes observed about one
/// eligible directory entry; the raw `Option<String>`s hold a command's
/// standard output, `None` when running it failed.
pub struct EntryFacts {
    /// The entry's base name.
    pub name: String,
    /// The entry's absolute path.
    pub path: String,
    /// Final segment of the configured root that holds the entry.
    pub source: String,
    /// A fuzzy-matching note exists in the document store.
    pub has_doc: bool,
    /// The entry has a version-control marker directory.
    pub is_git: bool,
    /// Output of the branch query; meaningful only when `is_git`.
    pub branch_raw: Option<String>,
    /// Output of the status query; meaningful only when `is_git`.
    pub status_raw: Option<String>,
    /// Output of the last-commit-time query; meaningful only when `is_git`.
    pub log_raw: Option<String>,
    /// Modification times of eligible direct children; used only when
    /// not under version control.
    pub child_mtimes: Vec<u64>,
    /// A documentation marker file exists directly under the entry.
    pub has_doc_marker: bool,
    /// Number of entries in the commands/skills subdirectory.
    pub skill_count: u64,
    /// An integration-config file exists directly under the entry.
    pub mcp_file_exists: bool,
    /// The integration-config file's body, `None` when unreadable;
    /// meaningful only when `mcp_file_exists`.
    pub mcp_text: Option<String>,
}

/// What `modified` becomes: the last-commit time for tracked projects,
/// the most recent direct-child modification time otherwise.
pub open spec fn modified_spec(
    is_git: bool,
    log_raw: Option<Seq<char>>,
    child_mtimes: Seq<u64>,
) -> Option<u64> {
    if is_git {
        commit_time_spec(log_raw)
    } else {
        max_of_spec(child_mtimes)
    }
}

/// What `git_dirty` becomes: non-empty status output; false for
/// untracked projects and failed commands.
pub open spec fn dirty_spec(is_git: bool, status_raw: Option<Seq<char>>) -> bool {
    is_git && match status_raw {
        Option::None => false,
        Option::Some(o) => o.len() > 0,
    }
}

/// Assembles one `Project` record from the probed facts. Every
/// degradation path ends in an absent or conservative field value;
/// nothing here can fail.
pub fn build_project(facts: EntryFacts) -> (p: Project)
    ensures
        p.name@ == facts.name@,
        p.path@ == facts.path@,
        p.source@ == facts.source@,
        p.has_doc == facts.has_doc,
        p.git_branch.deep_view() == (if facts.is_git {
            branch_of_spec(facts.branch_raw.deep_view())
        } else {
            Option::<Seq<char>>::None
        }),
        p.git_dirty == dirty_spec(facts.is_git, facts.status_raw.deep_view()),
        p.modified == modified_spec(
            facts.is_git,
            facts.log_raw.deep_view(),
            facts.child_mtimes@,
        ),
        p.config_labels.deep_view() == config_labels_spec(
            facts.has_doc_marker,
            facts.skill_count as int,
            facts.mcp_file_exists,
            facts.mcp_text.deep_view(),
        ),
{
    let git_branch = if facts.is_git {
        branch_of_output(&facts.branch_raw)
    } else {
        Option::None
    };
    let git_dirty = facts.is_git && (match &facts.status_raw {
        Option::Some(o) => o.as_str().unicode_len() > 0,
        Option::None => false,
    });
    let modified = if facts.is_git {
        commit_time_of_output(&facts.log_raw)
    } else {
        max_mtime(&facts.child_mtimes)
    };
    let labels = config_labels(
        facts.has_doc_marker,
        facts.skill_count,
        facts.mcp_file_exists,
        &facts.mcp_text,
    );
    Project {
        name: facts.name,
        path: facts.path,
        source: facts.source,
        modified,
        has_doc: facts.has_doc,
        git_branch,
        git_dirty,
        config_labels: labels,
    }
}

/// Recency order on optional timestamps: an absent time sorts below
/// every present one.
pub open spec fn key_le(a: Option<u64>, b: Option<u64>) -> bool {
    match a {
        Option::None => true,
        Option::Some(x) => match b {
            Option::None => false,
            Option::Some(y) => x <= y,
        },
    }
}

/// The collection is ordered most recently modified first, absent
/// timestamps at the tail.
pub open spec fn sorted_desc(s: Seq<Project>) -> bool {
    forall|i: int, j: int|
        0 <= i < j < s.len() ==> key_le(#[trigger] s[j].modified, #[trigger] s[i].modified)
}

fn key_le_exec(a: &Option<u64>, b: &Option<u64>) -> (r: bool)
    ensures
        r == key_le(*a, *b),
{
    match a {
        Option::None => true,
        Option::Some(x) => match b {
            Option::None => false,
            Option::Some(y) => *x <= *y,
        },
    }
}

/// Orders the scanned collection descending by `modified`, with unknown
/// times last: the result holds exactly the given records, most recently
/// modified first.
pub fn sort_projects(projects: Vec<Project>) -> (r: Vec<Project>)
    ensures
        r@.to_multiset() == projects@.to_multiset(),
        sorted_desc(r@),
{
    broadcast use vstd::seq_lib::group_to_multiset_ensures;

    let mut rest = projects;
    let mut out: Vec<Project> = Vec::new();
    proof {
        assert(out@.to_multiset().add(rest@.to_multiset()) =~= rest@.to_multiset());
    }
    let ghost all = rest@.to_multiset();
    while rest.len() > 0
        invariant
            out@.to_multiset().add(rest@.to_multiset()) == all,
            sorted_desc(out@),
            forall|i: int, j: int|
                0 <= i < out@.len() && 0 <= j < rest@.len() ==> key_le(
                    #[trigger] rest@[j].modified,
                    #[trigger] out@[i].modified,
                ),
        decreases rest.len(),
    {
        let mut m: usize = 0;
        let mut k: usize = 1;
        while k < rest.len()
            invariant
                0 < rest@.len(),
                m < rest@.len(),
                k <= rest@.len(),
                forall|i: int|
                    0 <= i < k ==> key_le(#[trigger] rest@[i].modified, rest@[m as int].modified),
        decreases rest@.len() - k,
        {
            if !key_le_exec(&rest[k].modified, &rest[m].modified) {
                m = k;
            }
            k = k + 1;
        }
        let ghost old_out = out@;
        let ghost old_rest = rest@;
        let p = rest.remove(m);
        out.push(p);
        proof {
            broadcast use vstd::seq_lib::group_to_multiset_ensures;

            assert(out@ == old_out.push(p));
            assert(old_out.push(p).to_multiset() =~= old_out.to_multiset().insert(p));
            assert(rest@ == old_rest.remove(m as int));
            assert(old_rest.remove(m as int).to_multiset() =~= old_rest.to_multiset().remove(
                old_rest[m as int],
            ));
            assert(out@.to_multiset() =~= old_out.to_multiset().insert(p));
            assert(rest@.to_multiset() =~= old_rest.to_multiset().remove(p));
            assert(out@.to_multiset().add(rest@.to_multiset()) =~= old_out.to_multiset().add(
                old_rest.to_multiset(),
            ));
            assert forall|j: int| 0 <= j < rest@.len() implies key_le(
                rest@[j].modified,
                p.modified,
            ) by {
                if j < m {
                    assert(rest@[j] == old_rest[j]);
                } else {
                    assert(rest@[j] == old_rest[j + 1]);
                }
            }
        }
    }
    out
}

} // verus!
