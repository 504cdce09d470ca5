//! Character-level text primitives: locating occurrences of one string in
//! another, splitting around them, replacing them, and trimming trailing
//! whitespace.

use vstd::prelude::*;
use vstd::string::StrSliceExecFns;

verus! {

/// `p` occurs in `s` starting at position `i`.
pub open spec fn is_match_at(s: Seq<char>, p: Seq<char>, i: int) -> bool {
    &&& 0 <= i
    &&& i + p.len() <= s.len()
    &&& forall|k: int| 0 <= k < p.len() ==> s[i + k] == p[k]
}

/// `p` occurs somewhere in `s`.
pub open spec fn occurs(s: Seq<char>, p: Seq<char>) -> bool {
    exists|i: int| is_match_at(s, p, i)
}

/// Position of the leftmost occurrence of `p` in `s`, if any.
pub open spec fn find_spec(s: Seq<char>, p: Seq<char>) -> Option<int>
    decreases s.len(),
{
    if is_match_at(s, p, 0) {
        Some(0int)
    } else if s.len() == 0 {
        None::<int>
    } else {
        match find_spec(s.drop_first(), p) {
            Some(i) => Some(i + 1),
            None => None::<int>,
        }
    }
}

/// Occurrences of `p` in `s` shifted by one are occurrences in `s` less its
/// first character.
proof fn lemma_match_shift(s: Seq<char>, p: Seq<char>, i: int)
    requires
        s.len() > 0,
        0 <= i,
    ensures
        is_match_at(s, p, i + 1) <==> is_match_at(s.drop_first(), p, i),
{
    if is_match_at(s, p, i + 1) {
        assert forall|k: int| 0 <= k < p.len() implies s.drop_first()[i + k] == p[k] by {
            assert(s.drop_first()[i + k] == s[i + 1 + k]);
        }
    }
    if is_match_at(s.drop_first(), p, i) {
        assert forall|k: int| 0 <= k < p.len() implies s[i + 1 + k] == p[k] by {
            assert(s.drop_first()[i + k] == s[i + 1 + k]);
        }
    }
}

/// `find_spec` returns the first occurrence: a position that matches and
/// before which nothing matches, or `None` when `p` does not occur at all.
pub proof fn lemma_find_spec_first(s: Seq<char>, p: Seq<char>)
    ensures
        match find_spec(s, p) {
            Some(i) => is_match_at(s, p, i) && (forall|j: int|
                0 <= j < i ==> !is_match_at(s, p, j)),
            None => !occurs(s, p),
        },
    decreases s.len(),
{
    if is_match_at(s, p, 0) {
    } else if s.len() == 0 {
        assert forall|i: int| !is_match_at(s, p, i) by {
            if is_match_at(s, p, i) {
                assert(i == 0);
            }
        }
    } else {
        lemma_find_spec_first(s.drop_first(), p);
        match find_spec(s.drop_first(), p) {
            Some(i) => {
                lemma_match_shift(s, p, i);
                assert(is_match_at(s, p, i + 1));
                assert forall|j: int| 0 <= j < i + 1 implies !is_match_at(s, p, j) by {
                    if 0 < j {
                        lemma_match_shift(s, p, j - 1);
                    }
                }
            },
            None => {
                assert forall|i: int| !is_match_at(s, p, i) by {
                    if is_match_at(s, p, i) && i > 0 {
                        lemma_match_shift(s, p, i - 1);
                    }
                }
            },
        }
    }
}

/// A position that matches, before which nothing matches, is what
/// `find_spec` returns.
pub proof fn lemma_find_spec_of_first(s: Seq<char>, p: Seq<char>, i: int)
    requires
        is_match_at(s, p, i),
        forall|j: int| 0 <= j < i ==> !is_match_at(s, p, j),
    ensures
        find_spec(s, p) == Some(i),
{
    lemma_find_spec_first(s, p);
    match find_spec(s, p) {
        Some(i0) => {
            if i0 < i {
                assert(!is_match_at(s, p, i0));
            } else if i < i0 {
                assert(!is_match_at(s, p, i));
            }
        },
        None => {
            assert(occurs(s, p));
        },
    }
}

/// The characters of `s`, in order.
pub fn str_to_chars(s: &str) -> (v: Vec<char>)
    ensures
        v@ == s@,
{
    let n: usize = s.unicode_len();
    let mut v: Vec<char> = Vec::new();
    let mut i: usize = 0;
    while i < n
        invariant
            n == s@.len(),
            i <= n,
            v@ == s@.take(i as int),
        decreases n - i,
    {
        let c: char = s.get_char(i);
        v.push(c);
        i = i + 1;
        proof {
            assert(v@ =~= s@.take(i as int));
        }
    }
    proof {
        assert(s@.take(n as int) =~= s@);
    }
    v
}

/// Relies on `String: FromIterator<char>`: collecting characters yields the
/// string made of exactly those characters, in order.
#[verifier::external_body]
pub fn chars_to_string(v: &Vec<char>) -> (s: String)
    ensures
        s@ == v@,
{
    v.iter().collect()
}

/// Copy of `v[from..to]`.
pub fn sub_vec(v: &Vec<char>, from: usize, to: usize) -> (r: Vec<char>)
    requires
        from <= to <= v@.len(),
    ensures
        r@ == v@.subrange(from as int, to as int),
{
    let mut r: Vec<char> = Vec::new();
    let mut i: usize = from;
    while i < to
        invariant
            from <= i <= to <= v@.len(),
            r@ == v@.subrange(from as int, i as int),
        decreases to - i,
    {
        r.push(v[i]);
        i = i + 1;
        proof {
            assert(r@ =~= v@.subrange(from as int, i as int));
        }
    }
    r
}

/// Whether `p` occurs in `s` at position `i`.
pub fn match_at(s: &Vec<char>, p: &Vec<char>, i: usize) -> (r: bool)
    requires
        i + p@.len() <= s@.len(),
    ensures
        r == is_match_at(s@, p@, i as int),
{
    let n: usize = s.len();
    let m: usize = p.len();
    let mut k: usize = 0;
    while k < m
        invariant
            n == s@.len(),
            m == p@.len(),
            i + m <= n,
            k <= m,
            forall|j: int| 0 <= j < k ==> s@[i + j] == p@[j],
        decreases m - k,
    {
        if s[i + k] != p[k] {
            return false;
        }
        k = k + 1;
    }
    true
}

/// Position of the leftmost occurrence of `p` in `s`, if any.
pub fn find_first(s: &Vec<char>, p: &Vec<char>) -> (r: Option<usize>)
    ensures
        match r {
            Some(i) => find_spec(s@, p@) == Some(i as int),
            None => find_spec(s@, p@) is None,
        },
{
    let n: usize = s.len();
    let m: usize = p.len();
    if m > n {
        proof {
            lemma_find_spec_first(s@, p@);
        }
        return None;
    }
    let bound: usize = n - m;
    let mut i: usize = 0;
    loop
        invariant
            m <= n,
            n == s@.len(),
            m == p@.len(),
            bound == n - m,
            i <= bound,
            forall|j: int| 0 <= j < i ==> !is_match_at(s@, p@, j),
        decreases bound - i,
    {
        if match_at(s, p, i) {
            proof {
                lemma_find_spec_of_first(s@, p@, i as int);
            }
            return Some(i);
        }
        if i == bound {
            proof {
                assert forall|j: int| !is_match_at(s@, p@, j) by {
                    if is_match_at(s@, p@, j) {
                        assert(j <= bound);
                    }
                }
                lemma_find_spec_first(s@, p@);
            }
            return None;
        }
        i = i + 1;
    }
}

/// The one-character pieces of `s`.
pub open spec fn singletons(s: Seq<char>) -> Seq<Seq<char>> {
    s.map_values(|c: char| seq![c])
}

/// The pieces of `s` around the non-overlapping, leftmost-first occurrences
/// of `p`, in order. An empty `p` matches at every position, so the pieces
/// are then one empty piece, each character on its own, and one empty piece.
pub open spec fn split_spec(s: Seq<char>, p: Seq<char>) -> Seq<Seq<char>>
    decreases s.len(),
        via split_spec_decreases
{
    if p.len() == 0 {
        seq![Seq::<char>::empty()] + singletons(s) + seq![Seq::<char>::empty()]
    } else {
        match find_spec(s, p) {
            None => seq![s],
            Some(i) => seq![s.take(i)] + split_spec(s.skip(i + p.len()), p),
        }
    }
}

#[via_fn]
proof fn split_spec_decreases(s: Seq<char>, p: Seq<char>) {
    if p.len() > 0 {
        lemma_find_spec_first(s, p);
    }
}

/// How many non-overlapping, leftmost-first occurrences of `p` lie in `s`.
/// An empty `p` occurs at every position, the two ends included.
pub open spec fn count_matches(s: Seq<char>, p: Seq<char>) -> nat
    decreases s.len(),
        via count_matches_decreases
{
    if p.len() == 0 {
        s.len() + 1
    } else {
        match find_spec(s, p) {
            None => 0,
            Some(i) => 1 + count_matches(s.skip(i + p.len()), p),
        }
    }
}

#[via_fn]
proof fn count_matches_decreases(s: Seq<char>, p: Seq<char>) {
    if p.len() > 0 {
        lemma_find_spec_first(s, p);
    }
}

/// The pieces of `parts` in order, with `sep` between neighbours.
pub open spec fn join_with(parts: Seq<Seq<char>>, sep: Seq<char>) -> Seq<char>
    decreases parts.len(),
{
    if parts.len() == 0 {
        Seq::<char>::empty()
    } else if parts.len() == 1 {
        parts[0]
    } else {
        parts[0] + sep + join_with(parts.drop_first(), sep)
    }
}

/// Splitting yields one piece more than there are occurrences.
pub proof fn lemma_split_count(s: Seq<char>, p: Seq<char>)
    ensures
        split_spec(s, p).len() == count_matches(s, p) + 1,
    decreases s.len(),
{
    if p.len() == 0 {
    } else {
        lemma_find_spec_first(s, p);
        match find_spec(s, p) {
            None => {},
            Some(i) => {
                lemma_split_count(s.skip(i + p.len()), p);
            },
        }
    }
}

/// Splitting never loses text: the pieces, joined again by the needle,
/// are the split line.
pub proof fn lemma_split_join(s: Seq<char>, p: Seq<char>)
    requires
        p.len() > 0,
    ensures
        join_with(split_spec(s, p), p) == s,
    decreases s.len(),
{
    lemma_find_spec_first(s, p);
    match find_spec(s, p) {
        None => {},
        Some(i) => {
            let rest = s.skip(i + p.len());
            lemma_split_join(rest, p);
            let parts = split_spec(s, p);
            assert(parts.drop_first() =~= split_spec(rest, p));
            lemma_split_count(rest, p);
            assert forall|k: int| 0 <= k < p.len() implies s.subrange(i, i + p.len())[k]
                == p[k] by {
                assert(s[i + k] == p[k]);
            }
            assert(s.subrange(i, i + p.len()) =~= p);
            assert(s.take(i) + p + rest =~= s);
        },
    }
}

/// The deep view of a vector of character vectors reads each element's view.
pub proof fn lemma_deep_view_index(v: Vec<Vec<char>>, k: int)
    requires
        0 <= k < v@.len(),
    ensures
        v.deep_view()[k] == v@[k]@,
{
    assert(v.deep_view()[k] =~= v@[k]@);
}

/// Pushing onto a vector of vectors pushes the view onto the deep view.
pub proof fn lemma_deep_view_push(v1: Vec<Vec<char>>, v2: Vec<Vec<char>>)
    requires
        v2@.len() == v1@.len() + 1,
        forall|i: int| 0 <= i < v1@.len() ==> v2@[i] == v1@[i],
    ensures
        v2.deep_view() == v1.deep_view().push(v2@[v2@.len() - 1]@),
{
    let x = v2@[v2@.len() - 1]@;
    assert forall|k: int| 0 <= k < v2@.len() implies v2.deep_view()[k] == v1.deep_view().push(
        x,
    )[k] by {
        lemma_deep_view_index(v2, k);
        if k < v1@.len() {
            lemma_deep_view_index(v1, k);
        }
    }
    assert(v2.deep_view() =~= v1.deep_view().push(x));
}

/// The pieces of `s` around the occurrences of `p`: what splitting `s` on
/// `p` yields, computed.
pub fn split_literal(s: &Vec<char>, p: &Vec<char>) -> (r: Vec<Vec<char>>)
    ensures
        r.deep_view() == split_spec(s@, p@),
{
    let n: usize = s.len();
    let m: usize = p.len();
    let mut parts: Vec<Vec<char>> = Vec::new();
    if m == 0 {
        let first_piece: Vec<char> = Vec::new();
        parts.push(first_piece);
        proof {
            lemma_deep_view_index(parts, 0);
            assert(parts@[0]@ =~= Seq::<char>::empty());
            assert(parts.deep_view() =~= seq![Seq::<char>::empty()] + singletons(
                s@.take(0int),
            ));
        }
        let mut i: usize = 0;
        while i < n
            invariant
                n == s@.len(),
                i <= n,
                parts.deep_view() == seq![Seq::<char>::empty()] + singletons(s@.take(i as int)),
            decreases n - i,
        {
            let mut piece: Vec<char> = Vec::new();
            piece.push(s[i]);
            let ghost old_parts = parts;
            parts.push(piece);
            i = i + 1;
            proof {
                let j = i as int - 1;
                lemma_deep_view_push(old_parts, parts);
                assert(parts@[parts@.len() - 1]@ =~= seq![s@[j]]);
                assert forall|k: int| 0 <= k < parts.deep_view().len() implies parts.deep_view()[k]
                    == (seq![Seq::<char>::empty()] + singletons(s@.take(i as int)))[k] by {
                    if k >= 1 {
                        assert(singletons(s@.take(i as int))[k - 1] == seq![
                            s@.take(i as int)[k - 1],
                        ]);
                        if k < old_parts@.len() {
                            assert(singletons(s@.take(j))[k - 1] == seq![s@.take(j)[k - 1]]);
                        }
                    }
                }
                assert(parts.deep_view() =~= seq![Seq::<char>::empty()] + singletons(
                    s@.take(i as int),
                ));
            }
        }
        let ghost old_parts = parts;
        let tail_piece: Vec<char> = Vec::new();
        parts.push(tail_piece);
        proof {
            lemma_deep_view_push(old_parts, parts);
            assert(parts@[parts@.len() - 1]@ =~= Seq::<char>::empty());
            assert(s@.take(n as int) =~= s@);
            assert(parts.deep_view() =~= seq![Seq::<char>::empty()] + singletons(s@)
                + seq![Seq::<char>::empty()]);
        }
        return parts;
    }
    let mut rest: Vec<char> = sub_vec(s, 0, n);
    proof {
        assert(rest@ =~= s@);
    }
    loop
        invariant
            m == p@.len(),
            m > 0,
            split_spec(s@, p@) == parts.deep_view() + split_spec(rest@, p@),
        decreases rest@.len(),
    {
        match find_first(&rest, p) {
            Some(i) => {
                let rlen: usize = rest.len();
                proof {
                    lemma_find_spec_first(rest@, p@);
                    assert(is_match_at(rest@, p@, i as int));
                    assert(i + m <= rlen);
                }
                let piece: Vec<char> = sub_vec(&rest, 0, i);
                let ghost old_parts = parts;
                let ghost old_rest = rest@;
                parts.push(piece);
                rest = sub_vec(&rest, i + m, rlen);
                proof {
                    lemma_deep_view_push(old_parts, parts);
                    assert(piece@ =~= old_rest.take(i as int));
                    assert(rest@ =~= old_rest.skip(i + m));
                    assert(split_spec(old_rest, p@) == seq![old_rest.take(i as int)]
                        + split_spec(rest@, p@));
                    assert(parts.deep_view() + split_spec(rest@, p@) =~~= old_parts.deep_view()
                        + split_spec(old_rest, p@));
                }
            },
            None => {
                let ghost old_parts = parts;
                let last: Vec<char> = rest;
                parts.push(last);
                proof {
                    lemma_deep_view_push(old_parts, parts);
                    assert(split_spec(last@, p@) == seq![last@]);
                    assert(parts.deep_view() =~~= old_parts.deep_view() + split_spec(
                        last@,
                        p@,
                    ));
                }
                return parts;
            },
        }
    }
}

/// `s` with every non-overlapping, leftmost-first occurrence of `from`
/// replaced by `to`, in one pass from the left.
pub open spec fn replace_all_spec(s: Seq<char>, from: Seq<char>, to: Seq<char>) -> Seq<char>
    decreases s.len(),
        via replace_all_spec_decreases
{
    if from.len() == 0 {
        s
    } else {
        match find_spec(s, from) {
            None => s,
            Some(i) => s.take(i) + to + replace_all_spec(s.skip(i + from.len()), from, to),
        }
    }
}

#[via_fn]
proof fn replace_all_spec_decreases(s: Seq<char>, from: Seq<char>, to: Seq<char>) {
    if from.len() > 0 {
        lemma_find_spec_first(s, from);
    }
}

/// When `from` does not occur in `s`, replacing it changes nothing.
pub proof fn lemma_replace_all_absent(s: Seq<char>, from: Seq<char>, to: Seq<char>)
    requires
        !occurs(s, from),
    ensures
        replace_all_spec(s, from, to) == s,
{
    if from.len() > 0 {
        lemma_find_spec_first(s, from);
        if find_spec(s, from) is Some {
            assert(occurs(s, from));
        }
    }
}

/// `s` with every occurrence of `from` replaced by `to`, computed.
pub fn replace_all(s: &Vec<char>, from: &Vec<char>, to: &Vec<char>) -> (r: Vec<char>)
    requires
        from@.len() > 0,
    ensures
        r@ == replace_all_spec(s@, from@, to@),
{
    let n: usize = s.len();
    let m: usize = from.len();
    let mut out: Vec<char> = Vec::new();
    let mut rest: Vec<char> = sub_vec(s, 0, n);
    proof {
        assert(rest@ =~= s@);
    }
    loop
        invariant
            m == from@.len(),
            m > 0,
            replace_all_spec(s@, from@, to@) == out@ + replace_all_spec(rest@, from@, to@),
        decreases rest@.len(),
    {
        match find_first(&rest, from) {
            Some(i) => {
                let rlen: usize = rest.len();
                proof {
                    lemma_find_spec_first(rest@, from@);
                    assert(is_match_at(rest@, from@, i as int));
                    assert(i + m <= rlen);
                }
                let ghost old_out = out@;
                let ghost old_rest = rest@;
                let mut piece: Vec<char> = sub_vec(&rest, 0, i);
                out.append(&mut piece);
                let mut ins: Vec<char> = sub_vec(to, 0, to.len());
                proof {
                    assert(ins@ =~= to@);
                }
                out.append(&mut ins);
                rest = sub_vec(&rest, i + m, rlen);
                proof {
                    assert(rest@ =~= old_rest.skip(i + m));
                    assert(replace_all_spec(old_rest, from@, to@) == old_rest.take(i as int)
                        + to@ + replace_all_spec(rest@, from@, to@));
                    assert(out@ + replace_all_spec(rest@, from@, to@) =~= old_out
                        + replace_all_spec(old_rest, from@, to@));
                }
            },
            None => {
                let ghost old_out = out@;
                let mut tail: Vec<char> = rest;
                out.append(&mut tail);
                proof {
                    assert(replace_all_spec(s@, from@, to@) =~= out@);
                }
                return out;
            },
        }
    }
}

/// The characters the stream driver strips from a line's end: Unicode
/// whitespace, the characters with the `White_Space` property.
pub open spec fn is_ws_char(c: char) -> bool {
    ||| c as u32 == 9
    ||| c as u32 == 10
    ||| c as u32 == 11
    ||| c as u32 == 12
    ||| c as u32 == 13
    ||| c as u32 == 32
    ||| c as u32 == 0x85
    ||| c as u32 == 0xA0
    ||| c as u32 == 0x1680
    ||| 0x2000 <= c as u32 <= 0x200A
    ||| c as u32 == 0x2028
    ||| c as u32 == 0x2029
    ||| c as u32 == 0x202F
    ||| c as u32 == 0x205F
    ||| c as u32 == 0x3000
}

/// `s` without its trailing whitespace.
pub open spec fn trim_end_spec(s: Seq<char>) -> Seq<char>
    decreases s.len(),
{
    if s.len() > 0 && is_ws_char(s.last()) {
        trim_end_spec(s.drop_last())
    } else {
        s
    }
}

/// Whether `c` is Unicode whitespace.
pub fn is_ws(c: char) -> (r: bool)
    ensures
        r == is_ws_char(c),
{
    let u: u32 = c as u32;
    u == 9 || u == 10 || u == 11 || u == 12 || u == 13 || u == 32 || u == 0x85 || u == 0xA0
        || u == 0x1680 || (0x2000 <= u && u <= 0x200A) || u == 0x2028 || u == 0x2029
        || u == 0x202F || u == 0x205F || u == 0x3000
}

/// `s` without its trailing whitespace, computed.
pub fn trim_end(s: &Vec<char>) -> (r: Vec<char>)
    ensures
        r@ == trim_end_spec(s@),
{
    let mut end: usize = s.len();
    proof {
        assert(s@.take(s@.len() as int) =~= s@);
    }
    loop
        invariant
            end <= s@.len(),
            trim_end_spec(s@) == trim_end_spec(s@.take(end as int)),
        decreases end,
    {
        if end == 0 {
            let r: Vec<char> = Vec::new();
            proof {
                assert(s@.take(0int) =~= Seq::<char>::empty());
            }
            return r;
        }
        if !is_ws(s[end - 1]) {
            let r: Vec<char> = sub_vec(s, 0, end);
            proof {
                assert(s@.take(end as int).last() == s@[end as int - 1]);
                assert(trim_end_spec(s@.take(end as int)) == s@.take(end as int));
                assert(r@ =~= s@.take(end as int));
            }
            return r;
        }
        let ghost old_end = end as int;
        end = end - 1;
        proof {
            assert(s@.take(old_end).last() == s@[old_end - 1]);
            assert(s@.take(old_end).drop_last() =~= s@.take(end as int));
        }
    }
}

/// Whether the character `c` occurs in `s`.
pub fn contains_char(s: &str, c: char) -> (r: bool)
    ensures
        r == s@.contains(c),
{
    let n: usize = s.unicode_len();
    let mut i: usize = 0;
    while i < n
        invariant
            n == s@.len(),
            i <= n,
            forall|j: int| 0 <= j < i ==> s@[j] != c,
        decreases n - i,
    {
        if s.get_char(i) == c {
            return true;
        }
        i = i + 1;
    }
    proof {
        if s@.contains(c) {
            let j = choose|j: int| 0 <= j < s@.len() && s@[j] == c;
            assert(s@[j] != c);
        }
    }
    false
}

} // verus!
