//! The output-formatting stage: turn the aggregated per-file match data
//! into the final sequence of printable lines, according to the active
//! display mode. Files without matches are skipped in every mode.

use vstd::prelude::*;

use crate::matcher::FileResult;
use crate::matcher::match_views;
use crate::matcher::result_views;
use crate::text::dec_str;
use crate::text::usize_to_string;

verus! {

/// The three output renderings: paths only, per-file match counts, or the
/// full listing with numbered lines.
#[derive(Clone, Copy, PartialEq, Eq, Structural, Debug)]
pub enum DisplayMode {
    OnlyFiles,
    CountMatches,
    Regular,
}

/// The mode selected by the two command-line flags; listing files wins
/// over counting, and without either flag the full listing is rendered.
pub open spec fn mode_spec(list_files: bool, count_matches: bool) -> DisplayMode {
    if list_files {
        DisplayMode::OnlyFiles
    } else if count_matches {
        DisplayMode::CountMatches
    } else {
        DisplayMode::Regular
    }
}

/// Pick the display mode from the parsed flags.
pub fn get_display_mode(list_files: bool, count_matches: bool) -> (r: DisplayMode)
    ensures
        r == mode_spec(list_files, count_matches),
{
    if list_files {
        DisplayMode::OnlyFiles
    } else if count_matches {
        DisplayMode::CountMatches
    } else {
        DisplayMode::Regular
    }
}

/// One rendered match line: the 1-based line number, a colon, the line.
pub open spec fn rendered_match_line(m: (int, Seq<char>)) -> Seq<char> {
    dec_str(m.0 as nat) + seq![':'] + m.1
}

/// The rendered match lines of one file, in order.
pub open spec fn rendered_match_lines(ms: Seq<(int, Seq<char>)>) -> Seq<Seq<char>> {
    ms.map_values(|m: (int, Seq<char>)| rendered_match_line(m))
}

/// The lines rendered for one file that has matches: its path alone, its
/// path with the match count, or a header, the match lines, and a blank
/// separator line.
pub open spec fn render_block(path: Seq<char>, ms: Seq<(int, Seq<char>)>, mode: DisplayMode) -> Seq<
    Seq<char>,
> {
    match mode {
        DisplayMode::OnlyFiles => seq![path],
        DisplayMode::CountMatches => seq![path + seq![':'] + dec_str(ms.len())],
        DisplayMode::Regular => seq![path] + rendered_match_lines(ms) + seq![Seq::<char>::empty()],
    }
}

/// The full rendered output: each result's block in order, with results
/// whose match list is empty contributing nothing.
pub open spec fn render_spec(rs: Seq<(Seq<char>, Seq<(int, Seq<char>)>)>, mode: DisplayMode) -> Seq<
    Seq<char>,
>
    decreases rs.len(),
{
    if rs.len() == 0 {
        Seq::empty()
    } else {
        render_spec(rs.drop_last(), mode) + if rs.last().1.len() == 0 {
            Seq::<Seq<char>>::empty()
        } else {
            render_block(rs.last().0, rs.last().1, mode)
        }
    }
}

/// The mathematical value of an exec line list.
pub open spec fn str_views(vs: Seq<String>) -> Seq<Seq<char>> {
    vs.map_values(|s: String| s@)
}

fn numbered_line(num: usize, text: &str) -> (r: String)
    ensures
        r@ == rendered_match_line((num as int, text@)),
{
    let mut line = usize_to_string(num);
    line.append(":");
    line.append(text);
    proof {
        reveal_strlit(":");
        assert(line@ =~= rendered_match_line((num as int, text@)));
    }
    line
}

fn counted_line(path: &str, count: usize) -> (r: String)
    ensures
        r@ == path@ + seq![':'] + dec_str(count as nat),
{
    let mut line = path.to_owned();
    line.append(":");
    let c = usize_to_string(count);
    line.append(c.as_str());
    proof {
        reveal_strlit(":");
        assert(line@ =~= path@ + seq![':'] + dec_str(count as nat));
    }
    line
}

/// Render the results in the given mode, in the order supplied, skipping
/// every file whose match list is empty.
pub fn display_output(results: Vec<FileResult>, mode: DisplayMode) -> (r: Vec<String>)
    ensures
        r.deep_view() == render_spec(result_views(results@), mode),
{
    let mut out: Vec<String> = Vec::new();
    let mut i: usize = 0;
    proof {
        assert(str_views(out@) =~= render_spec(result_views(results@).take(0), mode));
    }
    while i < results.len()
        invariant
            i <= results.len(),
            str_views(out@) =~= render_spec(result_views(results@).take(i as int), mode),
        decreases results.len() - i,
    {
        let ghost rv = result_views(results@);
        let ghost prefix = render_spec(rv.take(i as int), mode);
        let ghost blk = if rv[i as int].1.len() == 0 {
            Seq::<Seq<char>>::empty()
        } else {
            render_block(rv[i as int].0, rv[i as int].1, mode)
        };
        proof {
            assert(rv[i as int] == (results@[i as int].0@, match_views(results@[i as int].1@)));
        }
        let has_matches = results[i].1.len() > 0;
        if has_matches {
            match mode {
                DisplayMode::OnlyFiles => {
                    let ghost old_sv = str_views(out@);
                    let p = results[i].0.clone();
                    let ghost gp = p@;
                    out.push(p);
                    proof {
                        assert(str_views(out@) =~= old_sv + seq![gp]);
                        assert(blk =~= seq![gp]);
                        assert(str_views(out@) =~= prefix + blk);
                    }
                },
                DisplayMode::CountMatches => {
                    let ghost old_sv = str_views(out@);
                    let line = counted_line(results[i].0.as_str(), results[i].1.len());
                    let ghost gl = line@;
                    out.push(line);
                    proof {
                        assert(str_views(out@) =~= old_sv + seq![gl]);
                        assert(rv[i as int].1.len() == results@[i as int].1@.len());
                        assert(blk =~= seq![gl]);
                        assert(str_views(out@) =~= prefix + blk);
                    }
                },
                DisplayMode::Regular => {
                    let ghost old_sv = str_views(out@);
                    let ghost mvs = rv[i as int].1;
                    let p = results[i].0.clone();
                    let ghost gp = p@;
                    out.push(p);
                    proof {
                        assert(str_views(out@) =~= old_sv + seq![gp]);
                    }
                    let ms = &results[i].1;
                    let mut k: usize = 0;
                    proof {
                        assert(rendered_match_lines(mvs.take(0)) =~= Seq::<Seq<char>>::empty());
                        assert(str_views(out@) =~= old_sv + seq![gp] + rendered_match_lines(
                            mvs.take(0),
                        ));
                    }
                    while k < ms.len()
                        invariant
                            k <= ms.len(),
                            mvs == match_views(ms@),
                            str_views(out@) =~= old_sv + seq![gp] + rendered_match_lines(
                                mvs.take(k as int),
                            ),
                        decreases ms.len() - k,
                    {
                        let ghost inner_sv = str_views(out@);
                        let line = numbered_line(ms[k].0, ms[k].1.as_str());
                        let ghost gl = line@;
                        out.push(line);
                        proof {
                            assert(mvs[k as int] == (ms@[k as int].0 as int, ms@[k as int].1@));
                            assert(gl == rendered_match_line(mvs[k as int]));
                            assert(str_views(out@) =~= inner_sv + seq![gl]);
                            let taken = mvs.take(k as int + 1);
                            assert(taken.drop_last() =~= mvs.take(k as int));
                            assert(rendered_match_lines(taken) =~= rendered_match_lines(
                                mvs.take(k as int),
                            ).push(gl));
                            assert(str_views(out@) =~= old_sv + seq![gp] + rendered_match_lines(
                                taken,
                            ));
                        }
                        k = k + 1;
                    }
                    let blank = String::new();
                    let ghost sv_before_blank = str_views(out@);
                    out.push(blank);
                    proof {
                        assert(mvs.take(mvs.len() as int) =~= mvs);
                        assert(str_views(out@) =~= sv_before_blank + seq![Seq::<char>::empty()]);
                        assert(blk =~= seq![gp] + rendered_match_lines(mvs) + seq![
                            Seq::<char>::empty(),
                        ]);
                        assert(str_views(out@) =~= prefix + blk);
                    }
                },
            }
        } else {
            proof {
                assert(rv[i as int].1.len() == results@[i as int].1@.len());
                assert(blk =~= Seq::<Seq<char>>::empty());
                assert(str_views(out@) =~= prefix + blk);
            }
        }
        proof {
            let taken = rv.take(i as int + 1);
            assert(taken.drop_last() =~= rv.take(i as int));
            assert(taken.last() == rv[i as int]);
            assert(render_spec(taken, mode) =~= prefix + blk);
            assert(str_views(out@) =~= render_spec(taken, mode));
        }
        i = i + 1;
    }
    proof {
        let rv = result_views(results@);
        assert(rv.take(rv.len() as int) =~= rv);
        assert(out.deep_view() =~= str_views(out@));
        assert(out.deep_view() =~= render_spec(rv, mode));
    }
    out
}

/// The results whose match list is non-empty, in order.
pub open spec fn nonempty_results(rs: Seq<(Seq<char>, Seq<(int, Seq<char>)>)>) -> Seq<
    (Seq<char>, Seq<(int, Seq<char>)>),
>
    decreases rs.len(),
{
    if rs.len() == 0 {
        Seq::empty()
    } else {
        nonempty_results(rs.drop_last()) + if rs.last().1.len() == 0 {
            Seq::empty()
        } else {
            seq![rs.last()]
        }
    }
}

/// Files with zero matching lines never appear in any rendered output:
/// dropping them before rendering changes nothing, in every display mode.
pub proof fn lemma_zero_match_files_invisible(
    rs: Seq<(Seq<char>, Seq<(int, Seq<char>)>)>,
    mode: DisplayMode,
)
    ensures
        render_spec(nonempty_results(rs), mode) == render_spec(rs, mode),
    decreases rs.len(),
{
    if rs.len() > 0 {
        lemma_zero_match_files_invisible(rs.drop_last(), mode);
        if rs.last().1.len() == 0 {
            assert(nonempty_results(rs) =~= nonempty_results(rs.drop_last()));
            assert(render_spec(rs, mode) =~= render_spec(rs.drop_last(), mode));
        } else {
            let ne = nonempty_results(rs.drop_last()) + seq![rs.last()];
            assert(nonempty_results(rs) =~= ne);
            assert(ne.drop_last() =~= nonempty_results(rs.drop_last()));
            assert(ne.last() == rs.last());
            assert(render_spec(ne, mode) =~= render_spec(rs, mode));
        }
    }
}

/// The one count-mode line of a result: its path, a colon, the length of
/// its match list.
pub open spec fn count_line(r: (Seq<char>, Seq<(int, Seq<char>)>)) -> Seq<char> {
    r.0 + seq![':'] + dec_str(r.1.len())
}

/// The count-mode lines of every result that has matches, in order.
pub open spec fn count_lines(rs: Seq<(Seq<char>, Seq<(int, Seq<char>)>)>) -> Seq<Seq<char>> {
    nonempty_results(rs).map_values(|r: (Seq<char>, Seq<(int, Seq<char>)>)| count_line(r))
}

/// In count mode the rendered output is exactly one line per file with
/// matches, carrying that file's path and the length of the match list
/// the matcher produced for it.
pub proof fn lemma_count_mode_roundtrip(rs: Seq<(Seq<char>, Seq<(int, Seq<char>)>)>)
    ensures
        render_spec(rs, DisplayMode::CountMatches) == count_lines(rs),
    decreases rs.len(),
{
    if rs.len() == 0 {
        assert(render_spec(rs, DisplayMode::CountMatches) =~= count_lines(rs));
    } else {
        lemma_count_mode_roundtrip(rs.drop_last());
        if rs.last().1.len() == 0 {
            assert(nonempty_results(rs) =~= nonempty_results(rs.drop_last()));
            assert(count_lines(rs) =~= count_lines(rs.drop_last()));
            assert(render_spec(rs, DisplayMode::CountMatches) =~= render_spec(
                rs.drop_last(),
                DisplayMode::CountMatches,
            ));
        } else {
            assert(nonempty_results(rs) =~= nonempty_results(rs.drop_last()).push(rs.last()));
            assert(count_lines(rs) =~= count_lines(rs.drop_last()).push(count_line(rs.last())));
            assert(render_block(rs.last().0, rs.last().1, DisplayMode::CountMatches) =~= seq![
                count_line(rs.last()),
            ]);
            assert(render_spec(rs, DisplayMode::CountMatches) =~= render_spec(
                rs.drop_last(),
                DisplayMode::CountMatches,
            ).push(count_line(rs.last())));
        }
    }
}

} // verus!

