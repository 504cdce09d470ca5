//! The line transformer: partition a line around its matches and
//! reassemble it, each piece but the last followed by the substitution for
//! the match after it, the last piece trimmed of trailing whitespace.

use vstd::prelude::*;
use crate::interp::{interpolate, interpolate_spec};
use crate::rx::{regex_captures, regex_captures_spec, regex_split, regex_split_spec, pattern_of};
use crate::style::style_text;
use crate::color::Rgb;
use crate::text::{
    chars_to_string, count_matches, find_spec, join_with, lemma_deep_view_index,
    lemma_find_spec_first, lemma_split_count, lemma_split_join, occurs, split_literal, split_spec,
    str_to_chars, sub_vec, trim_end, trim_end_spec,
};

verus! {

/// The reassembled line: `parts[i]` then `subs[i]`, piece by piece, then
/// the last piece with its trailing whitespace removed. Meaningful when
/// `parts` has one piece more than `subs`.
pub open spec fn assemble_spec(parts: Seq<Seq<char>>, subs: Seq<Seq<char>>) -> Seq<char>
    decreases subs.len(),
{
    if subs.len() == 0 {
        trim_end_spec(parts[0])
    } else {
        parts[0] + subs[0] + assemble_spec(parts.drop_first(), subs.drop_first())
    }
}

/// Splitting always yields at least one piece.
pub proof fn lemma_split_nonempty(s: Seq<char>, p: Seq<char>)
    ensures
        split_spec(s, p).len() >= 1,
{
    if p.len() == 0 {
    } else {
        match find_spec(s, p) {
            None => {},
            Some(i) => {},
        }
    }
}

/// The reassembled line, computed.
pub fn assemble(parts: &Vec<Vec<char>>, subs: &Vec<Vec<char>>) -> (r: Vec<char>)
    requires
        parts@.len() == subs@.len() + 1,
    ensures
        r@ == assemble_spec(parts.deep_view(), subs.deep_view()),
{
    let n: usize = subs.len();
    let mut out: Vec<char> = Vec::new();
    proof {
        assert(parts.deep_view().skip(0) =~= parts.deep_view());
        assert(subs.deep_view().skip(0) =~= subs.deep_view());
    }
    let mut i: usize = 0;
    while i < n
        invariant
            n == subs@.len(),
            parts@.len() == n + 1,
            i <= n,
            assemble_spec(parts.deep_view(), subs.deep_view()) == out@ + assemble_spec(
                parts.deep_view().skip(i as int),
                subs.deep_view().skip(i as int),
            ),
        decreases n - i,
    {
        let ghost old_out = out@;
        let mut piece: Vec<char> = sub_vec(&parts[i], 0, parts[i].len());
        proof {
            lemma_deep_view_index(*parts, i as int);
            assert(piece@ =~= parts.deep_view()[i as int]);
        }
        out.append(&mut piece);
        let mut sub: Vec<char> = sub_vec(&subs[i], 0, subs[i].len());
        proof {
            lemma_deep_view_index(*subs, i as int);
            assert(sub@ =~= subs.deep_view()[i as int]);
        }
        out.append(&mut sub);
        i = i + 1;
        proof {
            let pd = parts.deep_view();
            let sd = subs.deep_view();
            let j = i as int - 1;
            assert(pd.skip(j).drop_first() =~= pd.skip(i as int));
            assert(sd.skip(j).drop_first() =~= sd.skip(i as int));
            assert(pd.skip(j)[0] == pd[j]);
            assert(sd.skip(j)[0] == sd[j]);
            assert(assemble_spec(pd.skip(j), sd.skip(j)) == pd[j] + sd[j] + assemble_spec(
                pd.skip(i as int),
                sd.skip(i as int),
            ));
            assert(out@ + assemble_spec(pd.skip(i as int), sd.skip(i as int)) =~= old_out
                + assemble_spec(pd.skip(j), sd.skip(j)));
        }
    }
    let mut lastv: Vec<char> = trim_end(&parts[n]);
    proof {
        lemma_deep_view_index(*parts, n as int);
        let pd = parts.deep_view();
        let sd = subs.deep_view();
        assert(sd.skip(n as int).len() == 0);
        assert(pd.skip(n as int)[0] == pd[n as int]);
        assert(assemble_spec(pd.skip(n as int), sd.skip(n as int)) == trim_end_spec(pd[n as int]));
        assert(lastv@ == trim_end_spec(pd[n as int]));
    }
    out.append(&mut lastv);
    out
}

/// The output line when `parts` partition the line: the trimmed line
/// itself for a single piece (the no-match path), else the pieces
/// interleaved with the substitution texts `subs`.
pub open spec fn spans_line_spec(parts: Seq<Seq<char>>, line: Seq<char>, subs: Seq<Seq<char>>) -> Seq<
    char,
> {
    if parts.len() == 1 {
        trim_end_spec(line)
    } else {
        assemble_spec(parts, subs)
    }
}

/// `k` copies of one and the same substitution text: what the two
/// non-capture modes emit, one copy per match.
pub open spec fn uniform_subs(k: nat, styled: Seq<char>) -> Seq<Seq<char>> {
    Seq::new(k, |i: int| styled)
}

/// The output line for one input line in literal mode: the line unchanged
/// but trimmed when the needle does not occur, else the pieces around the
/// occurrences interleaved with the one styled substitution.
pub open spec fn literal_line_spec(line: Seq<char>, needle: Seq<char>, styled: Seq<char>) -> Seq<
    char,
> {
    let parts = split_spec(line, needle);
    spans_line_spec(parts, line, uniform_subs((parts.len() - 1) as nat, styled))
}

/// The output line for one input line in pattern mode, over the pieces the
/// pattern engine yields.
pub open spec fn pattern_line_spec(pat: Seq<char>, line: Seq<char>, styled: Seq<char>) -> Seq<
    char,
> {
    let parts = regex_split_spec(pat, line);
    spans_line_spec(parts, line, uniform_subs((parts.len() - 1) as nat, styled))
}

/// The text of each captured group, an absent group as empty text.
pub open spec fn group_texts(caps: Seq<Option<Seq<char>>>) -> Seq<Seq<char>> {
    caps.map_values(
        (|c: Option<Seq<char>>|
            match c {
                Some(t) => t,
                None => Seq::<char>::empty(),
            }),
    )
}

/// The per-match substitution texts in capture mode when no styling is
/// layered on: the template interpolated with each match's captures.
pub open spec fn capture_subs_plain(
    template: Seq<char>,
    caps: Seq<Seq<Option<Seq<char>>>>,
    k: nat,
) -> Seq<Seq<char>> {
    Seq::new(k, |i: int| interpolate_spec(template, group_texts(caps[i])))
}

/// A vector of `k` copies of `sub`.
fn repeat_sub(sub: &Vec<char>, k: usize) -> (r: Vec<Vec<char>>)
    ensures
        r@.len() == k,
        r.deep_view() == uniform_subs(k as nat, sub@),
{
    let mut r: Vec<Vec<char>> = Vec::new();
    let mut i: usize = 0;
    while i < k
        invariant
            i <= k,
            r@.len() == i,
            forall|j: int| 0 <= j < i ==> r@[j]@ == sub@,
        decreases k - i,
    {
        let copy: Vec<char> = sub_vec(sub, 0, sub.len());
        proof {
            assert(copy@ =~= sub@);
        }
        r.push(copy);
        i = i + 1;
    }
    proof {
        assert forall|j: int| 0 <= j < k implies r.deep_view()[j] == sub@ by {
            lemma_deep_view_index(r, j);
        }
        assert(r.deep_view() =~= uniform_subs(k as nat, sub@));
    }
    r
}

/// The output line for one input line in literal mode, computed.
pub fn transform_literal(line: &Vec<char>, needle: &Vec<char>, styled: &Vec<char>) -> (out: Vec<
    char,
>)
    ensures
        out@ == literal_line_spec(line@, needle@, styled@),
{
    let parts: Vec<Vec<char>> = split_literal(line, needle);
    proof {
        lemma_split_nonempty(line@, needle@);
        assert(parts@.len() == split_spec(line@, needle@).len());
    }
    if parts.len() == 1 {
        trim_end(line)
    } else {
        let subs: Vec<Vec<char>> = repeat_sub(styled, parts.len() - 1);
        assemble(&parts, &subs)
    }
}

/// No-match identity: a line in which the (non-empty) needle does not
/// occur comes out as the trimmed input line, exactly. An empty needle is
/// left aside: it occurs at every position of any line.
pub proof fn lemma_no_match_identity(line: Seq<char>, needle: Seq<char>, styled: Seq<char>)
    requires
        needle.len() > 0,
        !occurs(line, needle),
    ensures
        literal_line_spec(line, needle, styled) == trim_end_spec(line),
{
    lemma_find_spec_first(line, needle);
    if find_spec(line, needle) is Some {
        assert(occurs(line, needle));
    }
    assert(split_spec(line, needle).len() == 1);
}

/// No-match identity in pattern mode: when the engine reports no match,
/// the pieces are one, and the line comes out trimmed, exactly.
pub proof fn lemma_no_match_identity_pattern(pat: Seq<char>, line: Seq<char>, styled: Seq<char>)
    requires
        regex_split_spec(pat, line).len() == 1,
    ensures
        pattern_line_spec(pat, line, styled) == trim_end_spec(line),
{
}

/// Literal count invariant: a line with `k` occurrences of the needle
/// splits into `k + 1` pieces which, joined again by the needle, give the
/// line back; with at least one occurrence the output is exactly those
/// pieces in their original order with the one styled substitution after
/// each but the last.
pub proof fn lemma_literal_count(line: Seq<char>, needle: Seq<char>, styled: Seq<char>)
    requires
        needle.len() > 0,
    ensures
        split_spec(line, needle).len() == count_matches(line, needle) + 1,
        join_with(split_spec(line, needle), needle) == line,
        count_matches(line, needle) >= 1 ==> literal_line_spec(line, needle, styled)
            == assemble_spec(
            split_spec(line, needle),
            uniform_subs(count_matches(line, needle), styled),
        ),
{
    lemma_split_count(line, needle);
    lemma_split_join(line, needle);
}

/// The characters of each string, in order.
pub fn strs_to_char_vecs(v: &Vec<String>) -> (r: Vec<Vec<char>>)
    ensures
        r@.len() == v@.len(),
        r.deep_view() == v.deep_view(),
{
    let n: usize = v.len();
    let mut r: Vec<Vec<char>> = Vec::new();
    let mut i: usize = 0;
    while i < n
        invariant
            n == v@.len(),
            i <= n,
            r@.len() == i,
            forall|j: int| 0 <= j < i ==> r@[j]@ == v@[j]@,
        decreases n - i,
    {
        let cs: Vec<char> = str_to_chars(v[i].as_str());
        r.push(cs);
        i = i + 1;
    }
    proof {
        assert forall|j: int| 0 <= j < n implies r.deep_view()[j] == v.deep_view()[j] by {
            lemma_deep_view_index(r, j);
            assert(v.deep_view()[j] == v@[j]@);
        }
        assert(r.deep_view() =~= v.deep_view());
    }
    r
}

/// The output line for one input line in pattern mode, computed.
pub fn transform_pattern(re: &regex::Regex, line: &str, styled: &Vec<char>) -> (out: String)
    ensures
        out@ == pattern_line_spec(pattern_of(*re), line@, styled@),
        regex_split_spec(pattern_of(*re), line@).len() >= 1,
{
    let parts: Vec<String> = regex_split(re, line);
    proof {
        assert(parts@.len() == regex_split_spec(pattern_of(*re), line@).len());
    }
    if parts.len() == 1 {
        let lc: Vec<char> = str_to_chars(line);
        let t: Vec<char> = trim_end(&lc);
        chars_to_string(&t)
    } else {
        let partsc: Vec<Vec<char>> = strs_to_char_vecs(&parts);
        let subs: Vec<Vec<char>> = repeat_sub(styled, parts.len() - 1);
        let out: Vec<char> = assemble(&partsc, &subs);
        chars_to_string(&out)
    }
}

/// The captured texts of one match, an absent group as empty text.
fn group_texts_exec(caps: &Vec<Option<String>>) -> (r: Vec<Vec<char>>)
    ensures
        r.deep_view() == group_texts(caps.deep_view()),
{
    let n: usize = caps.len();
    let mut r: Vec<Vec<char>> = Vec::new();
    let mut i: usize = 0;
    while i < n
        invariant
            n == caps@.len(),
            i <= n,
            r@.len() == i,
            forall|j: int| 0 <= j < i ==> r@[j]@ == group_texts(caps.deep_view())[j],
        decreases n - i,
    {
        let cs: Vec<char> = match &caps[i] {
            Some(s) => str_to_chars(s.as_str()),
            None => Vec::new(),
        };
        r.push(cs);
        i = i + 1;
        proof {
            assert(caps.deep_view()[i - 1] == caps@[i - 1].deep_view());
        }
    }
    proof {
        assert forall|j: int| 0 <= j < n implies r.deep_view()[j] == group_texts(
            caps.deep_view(),
        )[j] by {
            lemma_deep_view_index(r, j);
        }
        assert(r.deep_view() =~= group_texts(caps.deep_view()));
    }
    r
}

/// The output line for one input line in capture mode, computed, together
/// with the substitution text emitted for each match: that match's
/// captures interpolated into the template, then styled. Which colour
/// codes styling adds depends on the terminal environment, so the emitted
/// texts are reported in the ghost result rather than predicted; with no
/// colours set they are exactly the interpolated templates.
pub fn transform_capture(
    re: &regex::Regex,
    line: &str,
    template: &Vec<char>,
    fg: Option<Rgb>,
    bg: Option<Rgb>,
) -> (res: (String, Ghost<Seq<Seq<char>>>))
    ensures
        ({
            let pat = pattern_of(*re);
            let parts = regex_split_spec(pat, line@);
            let caps = regex_captures_spec(pat, line@);
            &&& res.1@.len() + 1 == parts.len()
            &&& res.0@ == spans_line_spec(parts, line@, res.1@)
            &&& (fg is None && bg is None ==> res.1@ == capture_subs_plain(
                template@,
                caps,
                (parts.len() - 1) as nat,
            ))
        }),
{
    let ghost pat = pattern_of(*re);
    let parts: Vec<String> = regex_split(re, line);
    proof {
        assert(parts@.len() == regex_split_spec(pat, line@).len());
    }
    if parts.len() == 1 {
        let lc: Vec<char> = str_to_chars(line);
        let t: Vec<char> = trim_end(&lc);
        let out_s: String = chars_to_string(&t);
        proof {
            assert(capture_subs_plain(
                template@,
                regex_captures_spec(pat, line@),
                0,
            ) =~= Seq::<Seq<char>>::empty());
        }
        (out_s, Ghost(Seq::<Seq<char>>::empty()))
    } else {
        let capsv: Vec<Vec<Option<String>>> = regex_captures(re, line);
        let k: usize = parts.len() - 1;
        proof {
            assert(capsv@.len() == regex_captures_spec(pat, line@).len());
        }
        let mut subs: Vec<Vec<char>> = Vec::new();
        let mut i: usize = 0;
        while i < k
            invariant
                k == capsv@.len(),
                i <= k,
                subs@.len() == i,
                capsv.deep_view() == regex_captures_spec(pat, line@),
                fg is None && bg is None ==> forall|j: int|
                    0 <= j < i ==> subs@[j]@ == interpolate_spec(
                        template@,
                        group_texts(regex_captures_spec(pat, line@)[j]),
                    ),
            decreases k - i,
        {
            let texts: Vec<Vec<char>> = group_texts_exec(&capsv[i]);
            proof {
                assert(capsv.deep_view()[i as int] == capsv@[i as int].deep_view());
            }
            let raw: Vec<char> = interpolate(template, &texts);
            let raw_s: String = chars_to_string(&raw);
            let styled: String = style_text(raw_s.as_str(), fg, bg);
            let styled_c: Vec<char> = str_to_chars(styled.as_str());
            subs.push(styled_c);
            i = i + 1;
        }
        let partsc: Vec<Vec<char>> = strs_to_char_vecs(&parts);
        proof {
            if fg is None && bg is None {
                assert forall|j: int| 0 <= j < k implies subs.deep_view()[j]
                    == capture_subs_plain(
                    template@,
                    regex_captures_spec(pat, line@),
                    k as nat,
                )[j] by {
                    lemma_deep_view_index(subs, j);
                }
                assert(subs.deep_view() =~= capture_subs_plain(
                    template@,
                    regex_captures_spec(pat, line@),
                    k as nat,
                ));
            }
        }
        let out: Vec<char> = assemble(&partsc, &subs);
        let out_s: String = chars_to_string(&out);
        proof {
            assert(subs.deep_view().len() == subs@.len());
        }
        (out_s, Ghost(subs.deep_view()))
    }
}

} // verus!
