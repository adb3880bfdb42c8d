//! Fuzzy document matching: resolves the note in the document store that
//! matches a project name after normalization.

use vstd::prelude::*;
use crate::text::{normalize, normalize_spec, str_eq};

verus! {

/// The stem of a `.md` file name; absent when the name has no `.md`
/// extension.
pub open spec fn md_stem(file: Seq<char>) -> Option<Seq<char>> {
    if file.len() >= 3 && file.subrange(file.len() as int - 3, file.len() as int) == ".md"@ {
        Option::Some(file.take(file.len() as int - 3))
    } else {
        Option::None
    }
}

/// Strips the `.md` extension from a file name; `None` when the name
/// does not end in `.md`.
pub fn md_file_stem(file: &str) -> (r: Option<String>)
    ensures
        r.deep_view() == md_stem(file@),
{
    let n = file.unicode_len();
    if n >= 3 {
        let suffix = file.substring_char(n - 3, n);
        if str_eq(suffix, ".md") {
            let stem = file.substring_char(0, n - 3);
            proof {
                assert(stem@ =~= file@.take(file@.len() as int - 3));
            }
            return Option::Some(stem.to_owned());
        }
    }
    Option::None
}

/// A store entry named `file` matches the project named `project`: it is
/// a `.md` file whose stem normalizes to the same form as the project
/// name — case- and punctuation-insensitive, otherwise exact.
pub open spec fn doc_matches(file: Seq<char>, project: Seq<char>) -> bool {
    match md_stem(file) {
        Option::Some(stem) => normalize_spec(stem) == normalize_spec(project),
        Option::None => false,
    }
}

/// Finds the first document-store entry that fuzzy-matches the project
/// name: the index of the first `.md` entry whose stem normalizes like
/// `project_name`, or `None` when no entry matches.
pub fn find_document(entries: &Vec<String>, project_name: &str) -> (r: Option<usize>)
    ensures
        match r {
            Option::Some(i) => i < entries@.len() && doc_matches(entries@[i as int]@, project_name@)
                && forall|j: int|
                0 <= j < i ==> !doc_matches(#[trigger] entries@[j]@, project_name@),
            Option::None => forall|j: int|
                0 <= j < entries@.len() ==> !doc_matches(#[trigger] entries@[j]@, project_name@),
        },
{
    let np = normalize(project_name);
    let mut k: usize = 0;
    while k < entries.len()
        invariant
            k <= entries@.len(),
            np@ == normalize_spec(project_name@),
            forall|j: int| 0 <= j < k ==> !doc_matches(#[trigger] entries@[j]@, project_name@),
        decreases entries@.len() - k,
    {
        match md_file_stem(entries[k].as_str()) {
            Option::Some(stem) => {
                let ns = normalize(stem.as_str());
                if str_eq(ns.as_str(), np.as_str()) {
                    return Option::Some(k);
                }
            },
            Option::None => {},
        }
        k = k + 1;
    }
    Option::None
}

} // verus!
