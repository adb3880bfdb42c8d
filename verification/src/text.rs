//! Text helpers: lowercasing (trusted), punctuation stripping, the
//! `normalize` canonical form used for fuzzy name comparison, and
//! case-exact substring search.

use vstd::prelude::*;

verus! {

/// The sequence of characters that `str::to_lowercase` produces for `s`.
pub uninterp spec fn lower_of(s: Seq<char>) -> Seq<char>;

/// Characters that `normalize` removes: hyphen, underscore and space.
pub open spec fn is_stripped_char(c: char) -> bool {
    c == '-' || c == '_' || c == ' '
}

/// `s` with every hyphen, underscore and space removed.
pub open spec fn strip_punct(s: Seq<char>) -> Seq<char>
    decreases s.len(),
{
    if s.len() == 0 {
        Seq::empty()
    } else if is_stripped_char(s.last()) {
        strip_punct(s.drop_last())
    } else {
        strip_punct(s.drop_last()).push(s.last())
    }
}

/// The canonical form a name takes for fuzzy comparison: lowercased,
/// then stripped of hyphens, underscores and spaces.
pub open spec fn normalize_spec(s: Seq<char>) -> Seq<char> {
    strip_punct(lower_of(s))
}

/// Relies on `str::to_lowercase`: the result is the lowercase equivalent
/// of `s` and depends on its characters alone; it is empty exactly when
/// `s` is empty; and, holding no uppercase letters (removing hyphens,
/// underscores and spaces cannot introduce one), it lowercases to itself.
#[verifier::external_body]
pub fn lowercase(s: &str) -> (r: String)
    ensures
        r@ == lower_of(s@),
        r@.len() == 0 <==> s@.len() == 0,
        lower_of(strip_punct(r@)) == strip_punct(r@),
{
    s.to_lowercase()
}

/// Relies on `String::push`: appends the character to the end of the string.
#[verifier::external_body]
pub fn push_char(s: &mut String, c: char)
    ensures
        final(s)@ == old(s)@.push(c),
{
    s.push(c);
}

/// Canonicalizes `name` for fuzzy comparison: lowercases it and removes
/// hyphens, underscores and spaces, so that "Daily Digest" and
/// "daily-digest" compare equal.
pub fn normalize(name: &str) -> (r: String)
    ensures
        r@ == normalize_spec(name@),
        lower_of(r@) == r@,
{
    let low = lowercase(name);
    let n = low.as_str().unicode_len();
    let mut out = String::new();
    let mut i: usize = 0;
    while i < n
        invariant
            n == low@.len(),
            i <= n,
            out@ == strip_punct(low@.take(i as int)),
        decreases n - i,
    {
        let c = low.as_str().get_char(i);
        proof {
            assert(low@.take(i + 1 as int).drop_last() =~= low@.take(i as int));
            assert(low@.take(i + 1 as int).last() == low@[i as int]);
        }
        if !(c == '-' || c == '_' || c == ' ') {
            push_char(&mut out, c);
        }
        i = i + 1;
    }
    proof {
        assert(low@.take(n as int) =~= low@);
    }
    out
}

/// No character of `strip_punct(s)` is one of the stripped characters.
pub open spec fn punct_free(s: Seq<char>) -> bool {
    forall|i: int| 0 <= i < s.len() ==> !is_stripped_char(#[trigger] s[i])
}

proof fn lemma_strip_punct_free(s: Seq<char>)
    ensures
        punct_free(strip_punct(s)),
    decreases s.len(),
{
    if s.len() > 0 {
        lemma_strip_punct_free(s.drop_last());
    }
}

proof fn lemma_strip_punct_noop(s: Seq<char>)
    requires
        punct_free(s),
    ensures
        strip_punct(s) == s,
    decreases s.len(),
{
    if s.len() > 0 {
        assert(punct_free(s.drop_last()));
        lemma_strip_punct_noop(s.drop_last());
        assert(s.drop_last().push(s.last()) =~= s);
    } else {
        assert(s =~= Seq::<char>::empty());
    }
}

/// Stripping punctuation is idempotent.
pub proof fn lemma_strip_punct_idempotent(s: Seq<char>)
    ensures
        strip_punct(strip_punct(s)) == strip_punct(s),
{
    lemma_strip_punct_free(s);
    lemma_strip_punct_noop(strip_punct(s));
}

/// Law: `normalize` is idempotent. The hypothesis — that the normal form
/// lowercases to itself — holds of every value `normalize` returns, by
/// `normalize`'s own postcondition.
pub proof fn lemma_normalize_idempotent(s: Seq<char>)
    requires
        lower_of(normalize_spec(s)) == normalize_spec(s),
    ensures
        normalize_spec(normalize_spec(s)) == normalize_spec(s),
{
    lemma_strip_punct_idempotent(lower_of(s));
}

/// Normalizes `name` twice over. By idempotence the contract is the same
/// as for a single `normalize`.
pub fn normalize_twice(name: &str) -> (r: String)
    ensures
        r@ == normalize_spec(name@),
{
    let once = normalize(name);
    let twice = normalize(once.as_str());
    proof {
        lemma_normalize_idempotent(name@);
    }
    twice
}

/// Character-for-character string equality.
pub fn str_eq(a: &str, b: &str) -> (r: bool)
    ensures
        r == (a@ == b@),
{
    let n = a.unicode_len();
    let m = b.unicode_len();
    if n != m {
        return false;
    }
    let mut i: usize = 0;
    while i < n
        invariant
            i <= n,
            n == a@.len(),
            n == b@.len(),
            forall|k: int| 0 <= k < i ==> a@[k] == #[trigger] b@[k],
        decreases n - i,
    {
        if a.get_char(i) != b.get_char(i) {
            return false;
        }
        i = i + 1;
    }
    proof {
        assert(a@ =~= b@);
    }
    true
}

/// `needle` occurs in `hay` as a contiguous run of characters.
pub open spec fn contains_spec(hay: Seq<char>, needle: Seq<char>) -> bool {
    exists|i: int|
        0 <= i <= hay.len() - needle.len() && #[trigger] hay.subrange(i, i + needle.len())
            == needle
}

fn match_at(hay: &str, needle: &str, i: usize) -> (r: bool)
    requires
        i + needle@.len() <= hay@.len(),
        hay@.len() <= usize::MAX,
    ensures
        r == (hay@.subrange(i as int, i as int + needle@.len()) == needle@),
{
    let m = needle.unicode_len();
    let mut j: usize = 0;
    while j < m
        invariant
            j <= m,
            m == needle@.len(),
            i + m <= hay@.len() <= usize::MAX,
            forall|t: int| 0 <= t < j ==> hay@[i + t] == #[trigger] needle@[t],
        decreases m - j,
    {
        if hay.get_char(i + j) != needle.get_char(j) {
            proof {
                assert(hay@.subrange(i as int, i as int + m as int)[j as int] == hay@[i as int
                    + j as int]);
            }
            return false;
        }
        j = j + 1;
    }
    proof {
        assert(hay@.subrange(i as int, i as int + m as int) =~= needle@);
    }
    true
}

/// Case-exact substring search: true exactly when `needle`'s characters
/// occur contiguously in `hay` (an empty `needle` always matches).
pub fn contains_substring(hay: &str, needle: &str) -> (r: bool)
    ensures
        r == contains_spec(hay@, needle@),
{
    let n = hay.unicode_len();
    let m = needle.unicode_len();
    if m > n {
        return false;
    }
    if m == 0 {
        proof {
            assert(hay@.subrange(0, 0 + needle@.len() as int) =~= needle@);
            assert(contains_spec(hay@, needle@));
        }
        return true;
    }
    let mut i: usize = 0;
    while i <= n - m
        invariant
            0 < m <= n,
            n == hay@.len(),
            m == needle@.len(),
            i <= n - m + 1,
            forall|k: int| 0 <= k < i ==> #[trigger] hay@.subrange(k, k + m as int) != needle@,
        decreases n - m - i + 1,
    {
        if match_at(hay, needle, i) {
            return true;
        }
        i = i + 1;
    }
    false
}

} // verus!
