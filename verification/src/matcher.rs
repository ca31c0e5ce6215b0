//! The per-file line-matching engine: split a file's contents into lines,
//! keep exactly the lines the pattern matches, and number them starting
//! at one in file order.

use vstd::prelude::*;

use crate::pattern::Pattern;
use crate::pattern::regex_matches;
use crate::text::split_lines;
use crate::text::split_lines_spec;

verus! {

/// A file's path paired with its matching lines, each tagged with its
/// 1-based line number.
pub type FileResult = (String, Vec<(usize, String)>);

/// The matches among the first `n` of `lines`, in file order.
pub open spec fn matches_upto(pat: Seq<char>, lines: Seq<Seq<char>>, n: int) -> Seq<
    (int, Seq<char>),
>
    decreases n,
{
    if n <= 0 {
        Seq::empty()
    } else if regex_matches(pat, lines[n - 1]) {
        matches_upto(pat, lines, n - 1).push((n, lines[n - 1]))
    } else {
        matches_upto(pat, lines, n - 1)
    }
}

/// All (1-based line number, line text) pairs of `lines` whose text the
/// pattern matches, in file order.
pub open spec fn matching_of(pat: Seq<char>, lines: Seq<Seq<char>>) -> Seq<(int, Seq<char>)> {
    matches_upto(pat, lines, lines.len() as int)
}

/// The mathematical value of an exec match list.
pub open spec fn match_views(ms: Seq<(usize, String)>) -> Seq<(int, Seq<char>)> {
    ms.map_values(|m: (usize, String)| (m.0 as int, m.1@))
}

/// The mathematical value of an exec result list.
pub open spec fn result_views(rs: Seq<(String, Vec<(usize, String)>)>) -> Seq<
    (Seq<char>, Seq<(int, Seq<char>)>),
> {
    rs.map_values(|r: (String, Vec<(usize, String)>)| (r.0@, match_views(r.1@)))
}

/// Each file of the walk, paired with its matches.
pub open spec fn search_spec(files: Seq<(Seq<char>, Seq<char>)>, pat: Seq<char>) -> Seq<
    (Seq<char>, Seq<(int, Seq<char>)>),
> {
    files.map_values(
        |f: (Seq<char>, Seq<char>)| (f.0, matching_of(pat, split_lines_spec(f.1))),
    )
}

/// The matching lines of one file's contents: exactly the lines the
/// pattern matches, unaltered, numbered from one in file order.
pub fn matching_lines(contents: &str, pattern: &Pattern) -> (r: Vec<(usize, String)>)
    ensures
        match_views(r@) == matching_of(pattern@, split_lines_spec(contents@)),
{
    let lines = split_lines(contents);
    let mut out: Vec<(usize, String)> = Vec::new();
    let mut i: usize = 0;
    while i < lines.len()
        invariant
            i <= lines.len(),
            lines.deep_view() == split_lines_spec(contents@),
            match_views(out@) =~= matches_upto(pattern@, lines.deep_view(), i as int),
        decreases lines.len() - i,
    {
        let line = &lines[i];
        if pattern.is_match(line.as_str()) {
            let num = i + 1;
            out.push((num, line.clone()));
        }
        proof {
            assert(lines.deep_view()[i as int] == lines@[i as int]@);
            assert(match_views(out@) =~= matches_upto(
                pattern@,
                lines.deep_view(),
                i as int + 1,
            ));
        }
        i = i + 1;
    }
    out
}

/// Match every file of `files` in order, keeping each file's path beside
/// its matches; files without matches stay in the list (the renderer
/// drops them).
pub fn search_files(files: &Vec<(String, String)>, pattern: &Pattern) -> (r: Vec<FileResult>)
    ensures
        result_views(r@) == search_spec(files.deep_view(), pattern@),
{
    let mut out: Vec<FileResult> = Vec::new();
    let mut i: usize = 0;
    while i < files.len()
        invariant
            i <= files.len(),
            out@.len() == i,
            result_views(out@) =~= search_spec(files.deep_view(), pattern@).take(i as int),
        decreases files.len() - i,
    {
        let path = files[i].0.clone();
        let ms = matching_lines(files[i].1.as_str(), pattern);
        let ghost gpath = path@;
        let ghost gms = ms@;
        out.push((path, ms));
        proof {
            let s = search_spec(files.deep_view(), pattern@);
            let rv = result_views(out@);
            assert(out@.len() == i + 1);
            assert(files.deep_view()[i as int] == (files@[i as int].0@, files@[i as int].1@));
            assert(s[i as int] == (
                files@[i as int].0@,
                matching_of(pattern@, split_lines_spec(files@[i as int].1@)),
            ));
            assert(out@[i as int].0@ == gpath && out@[i as int].1@ == gms);
            assert(rv[i as int] == (gpath, match_views(gms)));
            assert(rv[i as int] == s[i as int]);
            assert(rv =~= s.take(i as int + 1));
        }
        i = i + 1;
    }
    proof {
        let s = search_spec(files.deep_view(), pattern@);
        assert(s.take(files@.len() as int) =~= s);
    }
    out
}

proof fn lemma_matches_upto_numbers(pat: Seq<char>, lines: Seq<Seq<char>>, n: int)
    ensures
        forall|j: int|
            0 <= j < matches_upto(pat, lines, n).len() ==> 1 <= (#[trigger] matches_upto(
                pat,
                lines,
                n,
            )[j]).0 <= n,
        forall|j: int, k: int|
            0 <= j < k < matches_upto(pat, lines, n).len() ==> matches_upto(pat, lines, n)[j].0
                < matches_upto(pat, lines, n)[k].0,
    decreases n,
{
    if n > 0 {
        lemma_matches_upto_numbers(pat, lines, n - 1);
        let prev = matches_upto(pat, lines, n - 1);
        let cur = matches_upto(pat, lines, n);
        assert forall|j: int| 0 <= j < cur.len() implies 1 <= (#[trigger] cur[j]).0 <= n by {
            if j < prev.len() {
                assert(1 <= prev[j].0 <= n - 1);
            }
        }
        assert forall|j: int, k: int| 0 <= j < k < cur.len() implies cur[j].0 < cur[k].0 by {
            assert(1 <= prev[j].0 <= n - 1);
            if k < prev.len() {
                assert(prev[j].0 < prev[k].0);
            }
        }
    }
}

/// The line numbers in a match list are 1-based, never exceed the number
/// of lines, and are strictly increasing in the order the matches appear.
pub proof fn lemma_line_numbers_increasing(pat: Seq<char>, lines: Seq<Seq<char>>)
    ensures
        forall|j: int|
            0 <= j < matching_of(pat, lines).len() ==> 1 <= (#[trigger] matching_of(
                pat,
                lines,
            )[j]).0 <= lines.len(),
        forall|j: int, k: int|
            0 <= j < k < matching_of(pat, lines).len() ==> matching_of(pat, lines)[j].0
                < matching_of(pat, lines)[k].0,
{
    lemma_matches_upto_numbers(pat, lines, lines.len() as int);
}

} // verus!
