use vstd::prelude::*;

use crate::error::MirrorError;

verus! {

/// `p` is a prefix of `s`, character for character.
pub open spec fn is_prefix(p: Seq<char>, s: Seq<char>) -> bool {
    p.len() <= s.len() && s.subrange(0, p.len() as int) =~= p
}

/// `p` is a prefix of every string of `ss`.
pub open spec fn is_common_prefix(p: Seq<char>, ss: Seq<Seq<char>>) -> bool {
    forall|i: int| 0 <= i < ss.len() ==> is_prefix(p, #[trigger] ss[i])
}

/// `p` is a common prefix of `ss` and no common prefix of `ss` is longer.
/// Since all common prefixes are prefixes of `ss[0]`, at most one `p` qualifies
/// when `ss` is not empty.
pub open spec fn is_longest_common_prefix(p: Seq<char>, ss: Seq<Seq<char>>) -> bool {
    &&& is_common_prefix(p, ss)
    &&& forall|q: Seq<char>| #[trigger] is_common_prefix(q, ss) ==> q.len() <= p.len()
}

/// The longest common prefix of `ss` (see `lemma_longest_common_prefix_unique`).
pub open spec fn longest_common_prefix(ss: Seq<Seq<char>>) -> Seq<char> {
    choose|p: Seq<char>| is_longest_common_prefix(p, ss)
}

/// A non-empty sequence of strings has at most one longest common prefix,
/// so any one found is `longest_common_prefix(ss)`.
pub proof fn lemma_longest_common_prefix_unique(p: Seq<char>, ss: Seq<Seq<char>>)
    requires
        ss.len() > 0,
        is_longest_common_prefix(p, ss),
    ensures
        longest_common_prefix(ss) == p,
{
    let q = longest_common_prefix(ss);
    assert(is_longest_common_prefix(q, ss));
    assert(is_prefix(p, ss[0]));
    assert(is_prefix(q, ss[0]));
    assert(q.len() <= p.len());
    assert(p.len() <= q.len());
    assert(p =~= ss[0].subrange(0, p.len() as int));
    assert(q =~= ss[0].subrange(0, q.len() as int));
}

/// A longest common prefix exists: searching upward from a common prefix of
/// length `k` of the first string reaches one.
proof fn lemma_longest_common_prefix_exists_from(ss: Seq<Seq<char>>, k: int)
    requires
        ss.len() > 0,
        0 <= k <= ss[0].len(),
        is_common_prefix(ss[0].subrange(0, k), ss),
    ensures
        is_longest_common_prefix(longest_common_prefix(ss), ss),
    decreases ss[0].len() - k,
{
    let p = ss[0].subrange(0, k);
    if k < ss[0].len() && is_common_prefix(ss[0].subrange(0, k + 1), ss) {
        lemma_longest_common_prefix_exists_from(ss, k + 1);
    } else {
        assert forall|q: Seq<char>| #[trigger] is_common_prefix(q, ss) implies q.len()
            <= p.len() by {
            if q.len() > p.len() {
                assert(is_prefix(q, ss[0]));
                let r = ss[0].subrange(0, k + 1);
                assert(r =~= q.subrange(0, k + 1));
                assert forall|i: int| 0 <= i < ss.len() implies is_prefix(r, #[trigger] ss[i]) by {
                    assert(is_prefix(q, ss[i]));
                    assert(ss[i].subrange(0, k + 1) =~= q.subrange(0, k + 1));
                }
            }
        }
        assert(is_longest_common_prefix(p, ss));
    }
}

/// A non-empty sequence of strings has a longest common prefix.
pub proof fn lemma_longest_common_prefix_exists(ss: Seq<Seq<char>>)
    requires
        ss.len() > 0,
    ensures
        is_longest_common_prefix(longest_common_prefix(ss), ss),
{
    assert forall|i: int| 0 <= i < ss.len() implies is_prefix(
        ss[0].subrange(0, 0),
        #[trigger] ss[i],
    ) by {
        assert(ss[i].subrange(0, 0) =~= ss[0].subrange(0, 0));
    }
    lemma_longest_common_prefix_exists_from(ss, 0);
}

/// The longest common prefix of a single string is that string.
pub proof fn lemma_common_prefix_of_one(s: Seq<char>)
    ensures
        longest_common_prefix(seq![s]) == s,
{
    let ss = seq![s];
    assert(ss[0] == s);
    assert(s.subrange(0, s.len() as int) =~= s);
    assert forall|q: Seq<char>| #[trigger] is_common_prefix(q, ss) implies q.len() <= s.len() by {
        assert(is_prefix(q, ss[0]));
    }
    lemma_longest_common_prefix_unique(s, ss);
}

/// The character sequences of a sequence of strings.
pub open spec fn string_views(v: Seq<String>) -> Seq<Seq<char>> {
    v.map_values(|s: String| s@)
}

proof fn lemma_prefix_trans(a: Seq<char>, b: Seq<char>, c: Seq<char>)
    requires
        is_prefix(a, b),
        is_prefix(b, c),
    ensures
        is_prefix(a, c),
{
    assert(c.subrange(0, a.len() as int) =~= b.subrange(0, a.len() as int));
}

/// Two prefixes of one string: the shorter is a prefix of the longer.
proof fn lemma_prefix_of_prefix(q: Seq<char>, p: Seq<char>, s: Seq<char>)
    requires
        is_prefix(q, s),
        is_prefix(p, s),
        q.len() <= p.len(),
    ensures
        is_prefix(q, p),
{
    assert(p.subrange(0, q.len() as int) =~= s.subrange(0, q.len() as int));
}

/// Folding one more string into a longest common prefix.
proof fn lemma_fold_step(p: Seq<char>, ss: Seq<Seq<char>>, s: Seq<char>, r: Seq<char>)
    requires
        ss.len() > 0,
        is_longest_common_prefix(p, ss),
        is_longest_common_prefix(r, seq![p, s]),
    ensures
        is_longest_common_prefix(r, ss.push(s)),
{
    let t = ss.push(s);
    assert(is_prefix(r, seq![p, s][0]));
    assert(is_prefix(r, seq![p, s][1]));
    assert forall|i: int| 0 <= i < t.len() implies is_prefix(r, #[trigger] t[i]) by {
        if i < ss.len() {
            assert(t[i] == ss[i]);
            lemma_prefix_trans(r, p, ss[i]);
        }
    }
    assert forall|q: Seq<char>| #[trigger] is_common_prefix(q, t) implies q.len() <= r.len() by {
        assert forall|i: int| 0 <= i < ss.len() implies is_prefix(q, #[trigger] ss[i]) by {
            assert(t[i] == ss[i]);
        }
        assert(is_common_prefix(q, ss));
        assert(is_prefix(q, t[0]));
        assert(is_prefix(p, ss[0]));
        lemma_prefix_of_prefix(q, p, ss[0]);
        assert(is_prefix(q, t[ss.len() as int]));
        assert(is_common_prefix(q, seq![p, s]));
    }
}

/// The longest common prefix of two strings. It never ends inside a
/// character: it is a prefix of both, character for character.
pub fn lcp(str1: &String, str2: &String) -> (r: String)
    ensures
        is_longest_common_prefix(r@, seq![str1@, str2@]),
{
    let a = str1.as_str();
    let b = str2.as_str();
    let len1 = a.unicode_len();
    let len2 = b.unicode_len();
    let min_len = if len1 < len2 {
        len1
    } else {
        len2
    };
    let mut i: usize = 0;
    while i < min_len && a.get_char(i) == b.get_char(i)
        invariant
            i <= min_len,
            min_len <= a@.len(),
            min_len <= b@.len(),
            min_len == a@.len() || min_len == b@.len(),
            a@ == str1@,
            b@ == str2@,
            forall|j: int| 0 <= j < i ==> a@[j] == b@[j],
        decreases min_len - i,
    {
        i = i + 1;
    }
    let r = String::from_str(a.substring_char(0, i));
    proof {
        let pair = seq![str1@, str2@];
        assert(is_prefix(r@, pair[0]));
        assert(str2@.subrange(0, i as int) =~= r@);
        assert(is_prefix(r@, pair[1]));
        assert forall|q: Seq<char>| #[trigger] is_common_prefix(q, pair) implies q.len() <= r@.len() by {
            assert(is_prefix(q, pair[0]));
            assert(is_prefix(q, pair[1]));
            if q.len() > i {
                assert(str1@.subrange(0, q.len() as int)[i as int] == q[i as int]);
                assert(str2@.subrange(0, q.len() as int)[i as int] == q[i as int]);
            }
        }
    }
    r
}

/// The longest common prefix of all `strings`, folded left to right.
/// Fails with `InvalidInput` exactly when `strings` is empty.
pub fn common_prefix(strings: &Vec<String>) -> (r: Result<String, MirrorError>)
    ensures
        match r {
            Ok(p) => strings@.len() > 0 && is_longest_common_prefix(p@, string_views(strings@)),
            Err(e) => strings@.len() == 0 && e == MirrorError::InvalidInput,
        },
{
    if strings.len() == 0 {
        return Err(MirrorError::InvalidInput);
    }
    let ghost ss = string_views(strings@);
    let mut prefix = strings[0].clone();
    proof {
        let first = ss.subrange(0, 1);
        assert(first[0] == prefix@);
        assert forall|q: Seq<char>| #[trigger] is_common_prefix(q, first) implies q.len()
            <= prefix@.len() by {
            assert(is_prefix(q, first[0]));
        }
        assert(is_common_prefix(prefix@, first));
    }
    let mut i: usize = 1;
    while i < strings.len()
        invariant
            1 <= i <= strings@.len(),
            ss == string_views(strings@),
            is_longest_common_prefix(prefix@, ss.subrange(0, i as int)),
        decreases strings@.len() - i,
    {
        let next = lcp(&prefix, &strings[i]);
        proof {
            assert(ss.subrange(0, i as int).push(strings@[i as int]@) =~= ss.subrange(
                0,
                i + 1,
            ));
            lemma_fold_step(prefix@, ss.subrange(0, i as int), strings@[i as int]@, next@);
        }
        prefix = next;
        i = i + 1;
    }
    assert(ss.subrange(0, i as int) =~= ss);
    Ok(prefix)
}

} // verus!
