//! The ignore-aware file walker. The file tree is held in memory as a
//! recursive value; the walk enumerates the files reachable from a base
//! path in tree order, pruning every entry whose joined path is in the
//! ignore set — an ignored directory is never descended into.

use vstd::prelude::*;

use crate::ignore::IgnoreSet;

verus! {

/// One entry of an in-memory file tree: a regular file with its contents,
/// or a directory with its child entries in enumeration order.
pub enum FsEntry {
    File { name: String, contents: String },
    Dir { name: String, children: Vec<FsEntry> },
}

/// A path joined from a base and an entry name.
pub open spec fn joined(base: Seq<char>, name: Seq<char>) -> Seq<char> {
    base + seq!['/'] + name
}

/// The name of a tree entry.
pub open spec fn entry_name(e: FsEntry) -> Seq<char> {
    match e {
        FsEntry::File { name, .. } => name@,
        FsEntry::Dir { name, .. } => name@,
    }
}

/// The (path, contents) pairs contributed by one entry: nothing if its
/// path is ignored, the file itself for a file, and the walk of the
/// children for a directory.
pub open spec fn walk_entry_spec(base: Seq<char>, e: FsEntry, ig: Set<Seq<char>>) -> Seq<
    (Seq<char>, Seq<char>),
>
    decreases e,
{
    let p = joined(base, entry_name(e));
    if ig.contains(p) {
        Seq::empty()
    } else {
        match e {
            FsEntry::File { name, contents } => seq![(p, contents@)],
            FsEntry::Dir { name, children } => walk_entries_spec(p, children@, ig),
        }
    }
}

/// The concatenated walks of a list of sibling entries, in order.
pub open spec fn walk_entries_spec(base: Seq<char>, es: Seq<FsEntry>, ig: Set<Seq<char>>) -> Seq<
    (Seq<char>, Seq<char>),
>
    decreases es,
{
    if es.len() == 0 {
        Seq::empty()
    } else {
        walk_entries_spec(base, es.drop_last(), ig) + walk_entry_spec(base, es.last(), ig)
    }
}

/// The path components of a (path, contents) list.
pub open spec fn paths_of(s: Seq<(Seq<char>, Seq<char>)>) -> Seq<Seq<char>> {
    s.map_values(|f: (Seq<char>, Seq<char>)| f.0)
}

/// The paths of the walked files, in walk order.
pub open spec fn walk_paths_spec(base: Seq<char>, es: Seq<FsEntry>, ig: Set<Seq<char>>) -> Seq<
    Seq<char>,
> {
    paths_of(walk_entries_spec(base, es, ig))
}

fn join_path(base: &str, name: &str) -> (r: String)
    ensures
        r@ == joined(base@, name@),
{
    let mut s = base.to_owned();
    s.append("/");
    s.append(name);
    proof {
        reveal_strlit("/");
        assert(s@ =~= joined(base@, name@));
    }
    s
}

/// Walk the tree below `base` and return each surviving file's path and
/// contents, in walk order.
pub fn collect_files(base: &str, entries: &Vec<FsEntry>, ignores: &IgnoreSet) -> (r: Vec<
    (String, String),
>)
    ensures
        r.deep_view() == walk_entries_spec(base@, entries@, ignores@),
    decreases entries@,
{
    let mut out: Vec<(String, String)> = Vec::new();
    let mut i: usize = 0;
    proof {
        assert(out.deep_view() =~= walk_entries_spec(base@, entries@.take(0), ignores@));
    }
    while i < entries.len()
        invariant
            i <= entries.len(),
            out.deep_view() =~= walk_entries_spec(base@, entries@.take(i as int), ignores@),
        decreases entries.len() - i,
    {
        let ghost prefix = walk_entries_spec(base@, entries@.take(i as int), ignores@);
        let ghost step = walk_entry_spec(base@, entries@[i as int], ignores@);
        match &entries[i] {
            FsEntry::File { name, contents } => {
                let p = join_path(base, name.as_str());
                let included = !ignores.contains(p.as_str());
                if included {
                    let ghost gp = p@;
                    let ghost gc = contents@;
                    let c = contents.clone();
                    out.push((p, c));
                    proof {
                        assert(out.deep_view()[out@.len() - 1] == (gp, gc));
                        assert(step =~= seq![(gp, gc)]);
                        assert(out.deep_view() =~= prefix + step);
                    }
                } else {
                    proof {
                        assert(step =~= Seq::<(Seq<char>, Seq<char>)>::empty());
                        assert(out.deep_view() =~= prefix + step);
                    }
                }
            },
            FsEntry::Dir { name, children } => {
                let p = join_path(base, name.as_str());
                let included = !ignores.contains(p.as_str());
                if included {
                    proof {
                        assert(decreases_to!(entries@ => entries@[i as int]));
                        assert(decreases_to!(entries@[i as int] => children@));
                    }
                    let mut sub = collect_files(p.as_str(), children, ignores);
                    let ghost subv = sub.deep_view();
                    let ghost old_view = out@;
                    let ghost old_dv = out.deep_view();
                    out.append(&mut sub);
                    proof {
                        assert(step =~= subv);
                        assert forall|k: int| 0 <= k < out@.len() implies out.deep_view()[k] == (
                        prefix + step)[k] by {
                            assert(out.deep_view()[k] == out@[k].deep_view());
                            if k < old_view.len() {
                                assert(out@[k] == old_view[k]);
                                assert(old_dv[k] == old_view[k].deep_view());
                            } else {
                                assert(out.deep_view()[k] == subv[k - old_view.len()]);
                            }
                        }
                        assert(out.deep_view().len() == (prefix + step).len());
                        assert(out.deep_view() =~= prefix + step);
                    }
                } else {
                    proof {
                        assert(step =~= Seq::<(Seq<char>, Seq<char>)>::empty());
                        assert(out.deep_view() =~= prefix + step);
                    }
                }
            },
        }
        proof {
            let taken = entries@.take(i as int + 1);
            assert(taken.drop_last() =~= entries@.take(i as int));
            assert(taken.last() == entries@[i as int]);
            assert(walk_entries_spec(base@, taken, ignores@) =~= prefix + step);
        }
        i = i + 1;
    }
    proof {
        assert(entries@.take(entries@.len() as int) =~= entries@);
    }
    out
}

/// Walk downwards from `base` and return the paths of the files that
/// survive the ignore set, in walk order.
pub fn get_files(base: &str, entries: &Vec<FsEntry>, ignores: &IgnoreSet) -> (r: Vec<String>)
    ensures
        r.deep_view() == walk_paths_spec(base@, entries@, ignores@),
{
    let files = collect_files(base, entries, ignores);
    let mut out: Vec<String> = Vec::new();
    let mut i: usize = 0;
    while i < files.len()
        invariant
            i <= files.len(),
            out@.len() == i,
            files.deep_view() == walk_entries_spec(base@, entries@, ignores@),
            out.deep_view() =~= paths_of(files.deep_view().take(i as int)),
        decreases files.len() - i,
    {
        let p = files[i].0.clone();
        let ghost gp = p@;
        let ghost old_view = out@;
        let ghost old_dv = out.deep_view();
        out.push(p);
        proof {
            let fdv = files.deep_view();
            let taken = fdv.take(i as int + 1);
            assert(fdv[i as int] == (files@[i as int].0@, files@[i as int].1@));
            assert(out.deep_view()[i as int] == gp);
            assert forall|k: int| 0 <= k < i + 1 implies out.deep_view()[k] == paths_of(taken)[k]
                by {
                assert(paths_of(taken)[k] == taken[k].0);
                assert(taken[k] == fdv[k]);
                if k < i {
                    assert(out.deep_view()[k] == out@[k].deep_view());
                    assert(out@[k] == old_view[k]);
                    assert(old_dv[k] == old_view[k].deep_view());
                    assert(old_dv[k] == paths_of(fdv.take(i as int))[k]);
                    assert(paths_of(fdv.take(i as int))[k] == fdv.take(i as int)[k].0);
                    assert(fdv.take(i as int)[k] == fdv[k]);
                }
            }
            assert(out.deep_view() =~= paths_of(taken));
        }
        i = i + 1;
    }
    proof {
        assert(files.deep_view().take(files@.len() as int) =~= files.deep_view());
        assert(out.deep_view() =~= walk_paths_spec(base@, entries@, ignores@));
    }
    out
}

} // verus!
