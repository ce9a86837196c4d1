//! Character-level text utilities: substring search, whitespace skipping,
//! and bounded truncation, all stated over `Seq<char>` views.

use vstd::prelude::*;

verus! {

/// Whether `pat` occurs in `text` starting at `i`.
pub open spec fn spec_matches_at(text: Seq<char>, pat: Seq<char>, i: int) -> bool {
    0 <= i && i + pat.len() <= text.len() && text.subrange(i, i + pat.len()) == pat
}

/// The first index at or after `from` where `pat` occurs in `text`.
pub open spec fn spec_find_from(text: Seq<char>, pat: Seq<char>, from: int) -> Option<int>
    decreases text.len() - from,
{
    if from < 0 || from + pat.len() > text.len() {
        None
    } else if spec_matches_at(text, pat, from) {
        Some(from)
    } else if pat.len() == 0 {
        // never reached: an empty pattern matches wherever it fits
        None
    } else {
        spec_find_from(text, pat, from + 1)
    }
}

/// The first occurrence of `pat` in `text`.
pub open spec fn spec_find(text: Seq<char>, pat: Seq<char>) -> Option<int> {
    spec_find_from(text, pat, 0)
}

/// The first index at or after `from` holding the character `c`.
pub open spec fn spec_first_at(s: Seq<char>, c: char, from: int) -> Option<int>
    decreases s.len() - from,
{
    if from < 0 || from >= s.len() {
        None
    } else if s[from] == c {
        Some(from)
    } else {
        spec_first_at(s, c, from + 1)
    }
}

/// JSON whitespace.
pub open spec fn spec_is_json_ws(c: char) -> bool {
    c == ' ' || c == '\t' || c == '\n' || c == '\r'
}

/// `s` without its leading JSON whitespace.
pub open spec fn spec_skip_ws(s: Seq<char>) -> Seq<char>
    decreases s.len(),
{
    if s.len() > 0 && spec_is_json_ws(s[0]) {
        spec_skip_ws(s.drop_first())
    } else {
        s
    }
}

/// Skipping whitespace keeps the suffix that starts at the first
/// non-whitespace character.
pub proof fn lemma_skip_ws_index(s: Seq<char>, k: int)
    requires
        0 <= k <= s.len(),
        forall|m: int| 0 <= m < k ==> spec_is_json_ws(#[trigger] s[m]),
        k == s.len() || !spec_is_json_ws(s[k as int]),
    ensures
        spec_skip_ws(s) == s.skip(k),
    decreases k,
{
    if k == 0 {
        assert(s.skip(0) =~= s);
    } else {
        assert(spec_is_json_ws(s[0]));
        lemma_skip_ws_index(s.drop_first(), k - 1);
        assert(s.drop_first().skip(k - 1) =~= s.skip(k));
    }
}

/// `s` cut to at most `max_len` characters, the last three making room
/// for an ellipsis when the cut is wide enough to carry one.
pub open spec fn spec_truncate(s: Seq<char>, max_len: int) -> Seq<char> {
    if s.len() <= max_len {
        s
    } else if max_len > 3 {
        s.take(max_len - 3) + seq!['.', '.', '.']
    } else {
        s.take(max_len)
    }
}

/// Whether two string slices hold the same characters.
pub fn str_eq(a: &str, b: &str) -> (r: bool)
    ensures
        r == (a@ == b@),
{
    let n = a.unicode_len();
    if n != b.unicode_len() {
        return false;
    }
    let mut i: usize = 0;
    while i < n
        invariant
            n == a@.len(),
            n == b@.len(),
            i <= n,
            forall|j: int| 0 <= j < i ==> a@[j] == b@[j],
        decreases n - i,
    {
        if a.get_char(i) != b.get_char(i) {
            return false;
        }
        i = i + 1;
    }
    assert(a@ =~= b@);
    true
}

/// The first occurrence of `pat` in `text`, as a character index.
pub fn find_sub(text: &str, pat: &str) -> (r: Option<usize>)
    ensures
        r matches Some(i) ==> (spec_find(text@, pat@) == Some(i as int) && spec_matches_at(
            text@,
            pat@,
            i as int,
        )),
        r is None ==> spec_find(text@, pat@) is None,
{
    let tlen = text.unicode_len();
    let plen = pat.unicode_len();
    if plen > tlen {
        return None;
    }
    let mut i: usize = 0;
    let mut found = false;
    loop
        invariant_except_break
            !found,
        invariant
            tlen == text@.len(),
            plen == pat@.len(),
            plen <= tlen,
            0 <= i <= tlen - plen + 1,
            spec_find(text@, pat@) == spec_find_from(text@, pat@, i as int),
        ensures
            found ==> i <= tlen - plen && spec_find(text@, pat@) == Some(i as int)
                && spec_matches_at(text@, pat@, i as int),
            !found ==> spec_find(text@, pat@) is None,
        decreases tlen - i,
    {
        if i > tlen - plen {
            assert(spec_find_from(text@, pat@, i as int) is None);
            break ;
        }
        let mut j: usize = 0;
        let mut matched = true;
        while matched && j < plen
            invariant
                tlen == text@.len(),
                plen == pat@.len(),
                i + plen <= tlen,
                j <= plen,
                matched ==> (forall|m: int| 0 <= m < j ==> text@[i + m] == pat@[m]),
                !matched ==> (exists|m: int| 0 <= m < plen && text@[i + m] != pat@[m]),
            decreases plen - j, (if matched { 1int } else { 0int }),
        {
            if text.get_char(i + j) != pat.get_char(j) {
                assert(text@[i + j as int] != pat@[j as int]);
                matched = false;
            } else {
                j = j + 1;
            }
        }
        if matched {
            assert(text@.subrange(i as int, i + plen) =~= pat@);
            assert(spec_matches_at(text@, pat@, i as int));
            found = true;
            break ;
        }
        proof {
            assert(!spec_matches_at(text@, pat@, i as int)) by {
                let m = choose|m: int| 0 <= m < plen && text@[i + m] != pat@[m];
                assert(text@.subrange(i as int, i + plen)[m] == text@[i + m]);
            }
            if plen == 0 {
                // contradiction: an empty pattern cannot fail to match
                assert(spec_matches_at(text@, pat@, i as int)) by {
                    assert(text@.subrange(i as int, i as int) =~= pat@);
                }
            }
        }
        i = i + 1;
    }
    if found {
        Some(i)
    } else {
        None
    }
}

/// The first occurrence of the character `c` in `s` at or after `from`.
pub fn first_at(s: &str, c: char, from: usize) -> (r: Option<usize>)
    requires
        from <= s@.len(),
    ensures
        r matches Some(i) ==> spec_first_at(s@, c, from as int) == Some(i as int),
        r is None ==> spec_first_at(s@, c, from as int) is None,
{
    let n = s.unicode_len();
    let mut i: usize = from;
    loop
        invariant
            n == s@.len(),
            from <= i <= n,
            spec_first_at(s@, c, from as int) == spec_first_at(s@, c, i as int),
        ensures
            (spec_first_at(s@, c, from as int) matches Some(k) && i == k && i < n) || (
            spec_first_at(s@, c, from as int) is None && i == n),
        decreases n - i,
    {
        if i >= n {
            break ;
        }
        if s.get_char(i) == c {
            break ;
        }
        i = i + 1;
    }
    if i < n {
        Some(i)
    } else {
        None
    }
}

/// Where `spec_first_at` points, the character stands, within bounds.
pub proof fn lemma_first_at_bounds(s: Seq<char>, c: char, from: int)
    requires
        spec_first_at(s, c, from) is Some,
    ensures
        from <= spec_first_at(s, c, from)->Some_0 < s.len(),
        s[spec_first_at(s, c, from)->Some_0] == c,
    decreases s.len() - from,
{
    if 0 <= from < s.len() && s[from] != c {
        lemma_first_at_bounds(s, c, from + 1);
    }
}

/// Cut `s` to at most `max_len` characters, ending in `...` when the cut
/// is wide enough to carry the ellipsis.
pub fn truncate(s: &str, max_len: usize) -> (r: String)
    ensures
        r@ == spec_truncate(s@, max_len as int),
{
    let n = s.unicode_len();
    if n <= max_len {
        s.to_owned()
    } else if max_len > 3 {
        let mut r = s.substring_char(0, max_len - 3).to_owned();
        assert(r@ =~= s@.take(max_len - 3 as int));
        r.append("...");
        proof {
            reveal_strlit("...");
        }
        assert(r@ =~= spec_truncate(s@, max_len as int));
        r
    } else {
        let r = s.substring_char(0, max_len).to_owned();
        assert(r@ =~= s@.take(max_len as int));
        r
    }
}

/// Relies on `String::push`: it appends exactly the one character.
#[verifier::external_body]
pub fn push_char(s: &mut String, c: char)
    ensures
        final(s)@ == old(s)@.push(c),
{
    s.push(c);
}

/// Relies on `String::pop`: it removes exactly the last character of a
/// non-empty string.
#[verifier::external_body]
pub fn pop_char(s: &mut String)
    requires
        old(s)@.len() > 0,
    ensures
        final(s)@ == old(s)@.drop_last(),
{
    s.pop();
}

} // verus!
