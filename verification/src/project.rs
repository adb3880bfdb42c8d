//! The record a scan produces for one discovered project directory.

use vstd::prelude::*;

verus! {

/// One discovered project directory, with the metadata gathered for it
/// at scan time. Immutable once the scan's collection is built.
pub struct Project {
    /// Display identifier: the directory's base name.
    pub name: String,
    /// Absolute location of the directory.
    pub path: String,
    /// Final segment of the configured root directory that produced it.
    pub source: String,
    /// Most recent meaningful activity, in Unix epoch seconds; `None`
    /// means unknown, never a default.
    pub modified: Option<u64>,
    /// A fuzzy-matching note exists in the document store.
    pub has_doc: bool,
    /// Current version-control branch; `None` when not under version
    /// control, detached, or the lookup failed.
    pub git_branch: Option<String>,
    /// The working tree has uncommitted changes; always false when not
    /// under version control or the status lookup failed.
    pub git_dirty: bool,
    /// Short tags for detected configuration, in detection order:
    /// documentation file, command/skill count, integration-server count.
    pub config_labels: Vec<String>,
}

} // verus!
