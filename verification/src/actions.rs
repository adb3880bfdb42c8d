//! The computed side of dispatched actions: the deep-link URI that opens
//! a matched document in its vault.

use vstd::prelude::*;
use crate::text::push_char;

verus! {

/// `s` with every space replaced by the percent-encoding `%20`.
pub open spec fn percent_encode_spaces(s: Seq<char>) -> Seq<char>
    decreases s.len(),
{
    if s.len() == 0 {
        Seq::empty()
    } else if s.last() == ' ' {
        percent_encode_spaces(s.drop_last()) + "%20"@
    } else {
        percent_encode_spaces(s.drop_last()).push(s.last())
    }
}

/// The deep link that opens the vault document whose file stem is
/// `stem`: the fixed vault and subpath, then the stem with spaces
/// percent-encoded.
pub open spec fn obsidian_uri_spec(stem: Seq<char>) -> Seq<char> {
    "obsidian://open?vault=NV&file=Personal%2FApp%2F"@ + percent_encode_spaces(stem)
}

/// Builds the deep-link URI for the document whose file stem is `stem`.
pub fn obsidian_uri(stem: &str) -> (r: String)
    ensures
        r@ == obsidian_uri_spec(stem@),
{
    let mut out = String::from_str("obsidian://open?vault=NV&file=Personal%2FApp%2F");
    let n = stem.unicode_len();
    let mut i: usize = 0;
    while i < n
        invariant
            i <= n,
            n == stem@.len(),
            out@ == "obsidian://open?vault=NV&file=Personal%2FApp%2F"@ + percent_encode_spaces(
                stem@.take(i as int),
            ),
        decreases n - i,
    {
        let c = stem.get_char(i);
        proof {
            assert(stem@.take(i + 1 as int).drop_last() =~= stem@.take(i as int));
        }
        if c == ' ' {
            out.append("%20");
        } else {
            push_char(&mut out, c);
        }
        i = i + 1;
    }
    proof {
        assert(stem@.take(n as int) =~= stem@);
    }
    out
}

} // verus!
