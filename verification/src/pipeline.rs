//! The composed search pipeline — walk, match, render — and the decision
//! that turns the parsed command line into a pattern, a start path and a
//! display mode.

use vstd::prelude::*;

use crate::ignore::IgnoreSet;
use crate::matcher::search_files;
use crate::matcher::search_spec;
use crate::pattern::Pattern;
use crate::render::DisplayMode;
use crate::render::display_output;
use crate::render::get_display_mode;
use crate::render::mode_spec;
use crate::render::render_spec;
use crate::walker::FsEntry;
use crate::walker::collect_files;
use crate::walker::walk_entries_spec;

verus! {

/// The whole pipeline as one function of its inputs: the lines rendered
/// for the files reachable from `root` through `tree` that survive the
/// ignore set, matched against the pattern source `pat`, in mode `mode`.
pub open spec fn pipeline_spec(
    root: Seq<char>,
    tree: Seq<FsEntry>,
    ig: Set<Seq<char>>,
    pat: Seq<char>,
    mode: DisplayMode,
) -> Seq<Seq<char>> {
    render_spec(search_spec(walk_entries_spec(root, tree, ig), pat), mode)
}

/// Run the search pipeline over an in-memory file tree: enumerate the
/// files below `root` that the ignore set lets through, match every line
/// of each against the pattern, and render the results in `mode`.
pub fn run_search(
    root: &str,
    tree: &Vec<FsEntry>,
    ignores: &IgnoreSet,
    pattern: &Pattern,
    mode: DisplayMode,
) -> (r: Vec<String>)
    ensures
        r.deep_view() == pipeline_spec(root@, tree@, ignores@, pattern@, mode),
{
    let files = collect_files(root, tree, ignores);
    let results = search_files(&files, pattern);
    display_output(results, mode)
}

/// Idempotence of the pipeline: its output is a function of the tree, the
/// ignore set, the pattern source and the mode alone, so whatever two
/// runs over an unchanged tree produced, the two outputs are identical.
pub proof fn lemma_pipeline_idempotent(
    out1: Seq<Seq<char>>,
    out2: Seq<Seq<char>>,
    root: Seq<char>,
    tree: Seq<FsEntry>,
    ig: Set<Seq<char>>,
    pat: Seq<char>,
    mode: DisplayMode,
)
    requires
        out1 == pipeline_spec(root, tree, ig, pat, mode),
        out2 == pipeline_spec(root, tree, ig, pat, mode),
    ensures
        out1 == out2,
{
}

/// Decide the pattern, the start path and the display mode from the
/// parsed command line: exactly one free argument (the pattern) is
/// required, a second optional one names the start path (the current
/// directory when omitted), and anything else is a usage error.
pub fn get_opts(free: &Vec<String>, list_files: bool, count_matches: bool) -> (r: Result<
    (String, String, DisplayMode),
    String,
>)
    ensures
        free@.len() == 1 ==> (r matches Ok(t) && t.0@ == free.deep_view()[0] && t.1@ == "."@ && t.2
            == mode_spec(list_files, count_matches)),
        free@.len() == 2 ==> (r matches Ok(t) && t.0@ == free.deep_view()[0] && t.1@
            == free.deep_view()[1] && t.2 == mode_spec(list_files, count_matches)),
        free@.len() == 0 ==> (r matches Err(m) && m@ == "not enough args"@),
        free@.len() > 2 ==> (r matches Err(m) && m@ == "too many args"@),
{
    if free.len() == 0 {
        Err("not enough args".to_owned())
    } else if free.len() == 1 {
        let pattern = free[0].clone();
        let path = ".".to_owned();
        Ok((pattern, path, get_display_mode(list_files, count_matches)))
    } else if free.len() == 2 {
        let pattern = free[0].clone();
        let path = free[1].clone();
        Ok((pattern, path, get_display_mode(list_files, count_matches)))
    } else {
        Err("too many args".to_owned())
    }
}

} // verus!
