use vstd::prelude::*;

use crate::prefix::string_views;

verus! {

/// Joins `rel` onto `base` as a Unix path push does: an absolute `rel`
/// replaces `base`; otherwise a single `/` separates the two, unless `base`
/// is empty or already ends in one.
pub open spec fn joined(base: Seq<char>, rel: Seq<char>) -> Seq<char> {
    if rel.len() > 0 && rel[0] == '/' {
        rel
    } else {
        dir_of(base) + rel
    }
}

/// What a relative path is appended to when joined onto `base`.
pub open spec fn dir_of(base: Seq<char>) -> Seq<char> {
    if base.len() == 0 || base.last() == '/' {
        base
    } else {
        base + "/"@
    }
}

/// The segments joined with `/` between them.
pub open spec fn joined_segments(segs: Seq<Seq<char>>) -> Seq<char>
    decreases segs.len(),
{
    if segs.len() == 0 {
        Seq::empty()
    } else if segs.len() == 1 {
        segs[0]
    } else {
        joined_segments(segs.drop_last()) + "/"@ + segs.last()
    }
}

/// A `..` segment starts at position `i` of `rel`.
pub open spec fn parent_segment_at(rel: Seq<char>, i: int) -> bool {
    &&& 0 <= i
    &&& i + 2 <= rel.len()
    &&& rel[i] == '.'
    &&& rel[i + 1] == '.'
    &&& (i == 0 || rel[i - 1] == '/')
    &&& (i + 2 == rel.len() || rel[i + 2] == '/')
}

/// A relative path that stays under the directory it is joined onto: not
/// absolute and without a `..` segment. The empty path names that directory.
pub open spec fn stays_inside(rel: Seq<char>) -> bool {
    &&& (rel.len() == 0 || rel[0] != '/')
    &&& forall|i: int| !#[trigger] parent_segment_at(rel, i)
}

/// A relative path that names something strictly under the directory it is
/// joined onto: not empty, not absolute, and without a `..` segment.
pub open spec fn is_safe_relative(rel: Seq<char>) -> bool {
    &&& rel.len() > 0
    &&& stays_inside(rel)
}

/// The decimal digit for `d < 10`.
pub open spec fn digit_char(d: nat) -> char {
    seq!['0', '1', '2', '3', '4', '5', '6', '7', '8', '9'][d as int]
}

/// The decimal notation of `n`, without leading zeros.
pub open spec fn decimal(n: nat) -> Seq<char>
    decreases n,
{
    if n < 10 {
        seq![digit_char(n)]
    } else {
        decimal(n / 10).push(digit_char(n % 10))
    }
}

/// Joins `rel` onto `base` (see `joined`).
pub fn join_path(base: &str, rel: &str) -> (r: String)
    ensures
        r@ == joined(base@, rel@),
{
    let rel_len = rel.unicode_len();
    let base_len = base.unicode_len();
    if rel_len > 0 && rel.get_char(0) == '/' {
        return String::from_str(rel);
    }
    let mut r = String::from_str(base);
    if base_len > 0 && base.get_char(base_len - 1) != '/' {
        r.append("/");
    }
    r.append(rel);
    r
}

/// Joins `segs[from..]` with `/` between them.
pub fn join_segments(segs: &Vec<String>, from: usize) -> (r: String)
    requires
        from <= segs@.len(),
    ensures
        r@ == joined_segments(string_views(segs@).subrange(from as int, segs@.len() as int)),
{
    let ghost ss = string_views(segs@);
    let mut r = String::new();
    let mut i: usize = from;
    while i < segs.len()
        invariant
            from <= i <= segs@.len(),
            ss == string_views(segs@),
            r@ == joined_segments(ss.subrange(from as int, i as int)),
        decreases segs@.len() - i,
    {
        let ghost before = r@;
        if i > from {
            r.append("/");
        }
        r.append(segs[i].as_str());
        proof {
            let next = ss.subrange(from as int, i + 1);
            assert(next.drop_last() =~= ss.subrange(from as int, i as int));
            assert(next.last() == segs@[i as int]@);
            if i == from {
                assert(before =~= Seq::<char>::empty());
                assert(r@ =~= next[0]);
            }
        }
        i = i + 1;
    }
    r
}

/// Whether `rel` stays inside (see `stays_inside`).
pub fn stays_inside_path(rel: &str) -> (r: bool)
    ensures
        r == stays_inside(rel@),
{
    let n = rel.unicode_len();
    if n == 0 {
        return true;
    }
    if rel.get_char(0) == '/' {
        return false;
    }
    let mut i: usize = 0;
    while i + 1 < n
        invariant
            n == rel@.len(),
            i < n,
            forall|j: int| 0 <= j < i ==> !#[trigger] parent_segment_at(rel@, j),
        decreases n - i,
    {
        if rel.get_char(i) == '.' && rel.get_char(i + 1) == '.' && (i == 0 || rel.get_char(i - 1)
            == '/') && (i + 2 == n || rel.get_char(i + 2) == '/') {
            assert(parent_segment_at(rel@, i as int));
            return false;
        }
        i = i + 1;
    }
    true
}

/// Whether `rel` is a safe relative path (see `is_safe_relative`).
pub fn is_safe_relative_path(rel: &str) -> (r: bool)
    ensures
        r == is_safe_relative(rel@),
{
    rel.unicode_len() > 0 && stays_inside_path(rel)
}

/// The single-digit string of `d`.
fn digit_str(d: u32) -> (r: &'static str)
    requires
        d < 10,
    ensures
        r@ == seq![digit_char(d as nat)],
{
    proof {
        reveal_strlit("0");
        reveal_strlit("1");
        reveal_strlit("2");
        reveal_strlit("3");
        reveal_strlit("4");
        reveal_strlit("5");
        reveal_strlit("6");
        reveal_strlit("7");
        reveal_strlit("8");
        reveal_strlit("9");
    }
    let r = match d {
        0 => "0",
        1 => "1",
        2 => "2",
        3 => "3",
        4 => "4",
        5 => "5",
        6 => "6",
        7 => "7",
        8 => "8",
        _ => "9",
    };
    assert(r@ =~= seq![digit_char(d as nat)]);
    r
}

/// The decimal notation of `n`.
pub fn decimal_string(n: u32) -> (r: String)
    ensures
        r@ == decimal(n as nat),
    decreases n,
{
    if n < 10 {
        String::from_str(digit_str(n))
    } else {
        let mut r = decimal_string(n / 10);
        r.append(digit_str(n % 10));
        assert(r@ =~= decimal((n / 10) as nat).push(digit_char((n % 10) as nat)));
        r
    }
}

} // verus!
