//! Small verified string helpers.

use vstd::prelude::*;
use vstd::string::StrSliceExecFns;

verus! {

/// The view of an optional string.
pub open spec fn view_opt(o: Option<String>) -> Option<Seq<char>> {
    match o {
        Some(s) => Some(s@),
        None => None,
    }
}

/// The view of an optional borrowed string.
pub open spec fn view_opt_ref(o: Option<&String>) -> Option<Seq<char>> {
    match o {
        Some(s) => Some(s@),
        None => None,
    }
}

/// Clones an optional string, preserving its view.
pub fn clone_opt_string(o: &Option<String>) -> (r: Option<String>)
    ensures
        r == *o,
{
    match o {
        Some(s) => Some(s.clone()),
        None => None,
    }
}

/// Compares two string slices by their character sequences.
pub fn str_eq(a: &str, b: &str) -> (r: bool)
    ensures
        r == (a@ == b@),
{
    let alen = a.unicode_len();
    let blen = b.unicode_len();
    if alen != blen {
        return false;
    }
    let mut i: usize = 0;
    while i < alen
        invariant
            i <= alen,
            alen == a@.len(),
            alen == b@.len(),
            forall|j: int| 0 <= j < i ==> a@[j] == b@[j],
        decreases alen - i,
    {
        if a.get_char(i) != b.get_char(i) {
            return false;
        }
        i += 1;
    }
    proof {
        assert(a@ =~= b@);
    }
    true
}

/// The prefix of `s` that precedes the first occurrence of `c`; the whole
/// of `s` when `c` does not occur.
pub open spec fn spec_prefix_before(s: Seq<char>, c: char) -> Seq<char>
    decreases s.len(),
{
    if s.len() == 0 {
        s
    } else if s[0] == c {
        Seq::empty()
    } else {
        seq![s[0]] + spec_prefix_before(s.drop_first(), c)
    }
}

/// The split character never occurs in the prefix it delimits.
pub proof fn lemma_prefix_before_free(s: Seq<char>, c: char)
    ensures
        forall|j: int| 0 <= j < spec_prefix_before(s, c).len()
            ==> spec_prefix_before(s, c)[j] != c,
    decreases s.len(),
{
    if s.len() != 0 && s[0] != c {
        lemma_prefix_before_free(s.drop_first(), c);
        assert forall|j: int| 0 <= j < spec_prefix_before(s, c).len()
            implies spec_prefix_before(s, c)[j] != c by {
            if j > 0 {
                assert(spec_prefix_before(s, c)[j]
                    == spec_prefix_before(s.drop_first(), c)[j - 1]);
            }
        }
    }
}

/// A prefix free of `c`, followed by nothing or by a part that starts with
/// `c`, is its own prefix before `c`.
pub proof fn lemma_prefix_before_concat(a: Seq<char>, b: Seq<char>, c: char)
    requires
        forall|j: int| 0 <= j < a.len() ==> a[j] != c,
        b.len() == 0 || b[0] == c,
    ensures
        spec_prefix_before(a + b, c) == a,
    decreases a.len(),
{
    if a.len() == 0 {
        assert(a + b =~= b);
        if b.len() == 0 {
            assert(spec_prefix_before(b, c) =~= a);
        } else {
            assert(spec_prefix_before(b, c) =~= a);
        }
    } else {
        assert((a + b)[0] == a[0]);
        assert((a + b).drop_first() =~= a.drop_first() + b);
        lemma_prefix_before_concat(a.drop_first(), b, c);
        assert(spec_prefix_before(a + b, c)
            == seq![a[0]] + spec_prefix_before(a.drop_first() + b, c));
        assert(seq![a[0]] + a.drop_first() =~= a);
    }
}

/// The index of the first occurrence of `c` in `s`, or the length of `s`
/// when `c` does not occur.
pub fn index_of_char(s: &str, c: char) -> (i: usize)
    ensures
        i <= s@.len(),
        forall|j: int| 0 <= j < i ==> s@[j] != c,
        i < s@.len() ==> s@[i as int] == c,
{
    let len = s.unicode_len();
    let mut i: usize = 0;
    while i < len
        invariant
            i <= len,
            len == s@.len(),
            forall|j: int| 0 <= j < i ==> s@[j] != c,
        decreases len - i,
    {
        if s.get_char(i) == c {
            return i;
        }
        i += 1;
    }
    i
}

/// Extracts the prefix of `s` that precedes the first occurrence of `c`.
pub fn prefix_before(s: &str, c: char) -> (r: String)
    ensures
        r@ == spec_prefix_before(s@, c),
{
    let i = index_of_char(s, c);
    let r = s.substring_char(0, i).to_owned();
    proof {
        lemma_prefix_before_take(s@, c, i as int);
        assert(s@.subrange(0, i as int) =~= s@.take(i as int));
    }
    r
}

/// When the first `i` characters of `s` avoid `c` and either the string
/// ends there or `s[i] == c`, the prefix before `c` is exactly `s.take(i)`.
proof fn lemma_prefix_before_take(s: Seq<char>, c: char, i: int)
    requires
        0 <= i <= s.len(),
        forall|j: int| 0 <= j < i ==> s[j] != c,
        i == s.len() || s[i] == c,
    ensures
        spec_prefix_before(s, c) == s.take(i),
    decreases i,
{
    if i == 0 {
        if s.len() == 0 {
            assert(s.take(0) =~= s);
        } else {
            assert(s.take(0) =~= Seq::<char>::empty());
        }
    } else {
        assert(s.len() != 0 && s[0] != c);
        lemma_prefix_before_take(s.drop_first(), c, i - 1);
        assert(s.drop_first().take(i - 1) =~= s.take(i).drop_first());
        assert(seq![s[0]] + s.take(i).drop_first() =~= s.take(i));
        assert(spec_prefix_before(s, c) == seq![s[0]] + spec_prefix_before(s.drop_first(), c));
    }
}

} // verus!
