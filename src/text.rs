//! Small operations on text that the schema's rules need.

use vstd::prelude::*;
use vstd::string::StrSliceExecFns;
use vstd::string::StringExecFns;

verus! {

/// Whether two texts hold the same characters.
pub fn same_text(a: &str, b: &str) -> (r: bool)
    ensures
        r == (a@ == b@),
{
    let n = a.unicode_len();
    if n != b.unicode_len() {
        return false;
    }
    let mut i: usize = 0;
    while i < n
        invariant
            n == a@.len(),
            n == b@.len(),
            i <= n,
            forall|j: int| 0 <= j < i ==> a@[j] == b@[j],
        decreases n - i,
    {
        if a.get_char(i) != b.get_char(i) {
            return false;
        }
        i = i + 1;
    }
    assert(a@ =~= b@);
    true
}

/// The position of the first `c` in `s`, if any.
pub fn first_position(s: &str, c: char) -> (r: Option<usize>)
    ensures
        r is None ==> !s@.contains(c),
        r matches Some(k) ==> k < s@.len() && s@[k as int] == c && !s@.subrange(0, k as int).contains(c),
{
    let n = s.unicode_len();
    let mut i: usize = 0;
    while i < n
        invariant
            n == s@.len(),
            i <= n,
            forall|j: int| 0 <= j < i ==> s@[j] != c,
        decreases n - i,
    {
        if s.get_char(i) == c {
            assert(!s@.subrange(0, i as int).contains(c)) by {
                if s@.subrange(0, i as int).contains(c) {
                    let k = choose|k: int| 0 <= k < i && s@.subrange(0, i as int)[k] == c;
                    assert(s@[k] == c);
                }
            }
            return Some(i);
        }
        i = i + 1;
    }
    None
}

/// `s` with each `-` written as `_`.
pub open spec fn dashes_to_underscores(s: Seq<char>) -> Seq<char> {
    Seq::new(s.len(), |i: int| if s[i] == '-' { '_' } else { s[i] })
}

proof fn lemma_dashes_split(a: Seq<char>, b: Seq<char>)
    ensures
        dashes_to_underscores(a + b) == dashes_to_underscores(a) + dashes_to_underscores(b),
{
    assert(dashes_to_underscores(a + b) =~= dashes_to_underscores(a) + dashes_to_underscores(b));
}

/// Writes each `-` of `s` as `_`.
pub fn replace_dashes(s: &str) -> (r: String)
    ensures
        r@ == dashes_to_underscores(s@),
{
    let underscore = "_";
    proof {
        reveal_strlit("_");
    }
    let n = s.unicode_len();
    let mut r = String::new();
    let mut start: usize = 0;
    let mut i: usize = 0;
    assert(dashes_to_underscores(s@.subrange(0, 0)) =~= r@);
    while i < n
        invariant
            n == s@.len(),
            start <= i <= n,
            underscore@ == seq!['_'],
            r@ == dashes_to_underscores(s@.subrange(0, start as int)),
            forall|j: int| start <= j < i ==> s@[j] != '-',
        decreases n - i,
    {
        if s.get_char(i) == '-' {
            let seg = s.substring_char(start, i);
            proof {
                lemma_dashes_split(s@.subrange(0, start as int), seg@);
                assert(dashes_to_underscores(seg@) =~= seg@);
                assert(s@.subrange(0, start as int) + seg@ =~= s@.subrange(0, i as int));
                lemma_dashes_split(s@.subrange(0, i as int), seq!['-']);
                assert(s@.subrange(0, i as int) + seq!['-'] =~= s@.subrange(0, i + 1));
                assert(dashes_to_underscores(seq!['-']) =~= seq!['_']);
            }
            r.append(seg);
            r.append(underscore);
            start = i + 1;
        }
        i = i + 1;
    }
    let seg = s.substring_char(start, n);
    proof {
        lemma_dashes_split(s@.subrange(0, start as int), seg@);
        assert(dashes_to_underscores(seg@) =~= seg@);
        assert(s@.subrange(0, start as int) + seg@ =~= s@);
    }
    r.append(seg);
    r
}

} // verus!
