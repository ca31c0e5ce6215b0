//! The set of paths excluded from traversal: literal relative path
//! strings, collected from an ignore-file's lines and from the entries of
//! a fixed metadata directory, each normalized to start with `./`.

use vstd::prelude::*;

use crate::text::split_lines;
use crate::text::split_lines_spec;

verus! {

/// The non-empty entries of a line list: blank lines name no path.
pub open spec fn nonblank_lines(ls: Seq<Seq<char>>) -> Seq<Seq<char>>
    decreases ls.len(),
{
    if ls.len() == 0 {
        Seq::empty()
    } else {
        nonblank_lines(ls.drop_last()) + if ls.last().len() == 0 {
            Seq::<Seq<char>>::empty()
        } else {
            seq![ls.last()]
        }
    }
}

/// An entry made relative to the search root.
pub open spec fn normalized(e: Seq<char>) -> Seq<char> {
    seq!['.', '/'] + e
}

/// Every entry of `es`, normalized.
pub open spec fn normalized_all(es: Seq<Seq<char>>) -> Seq<Seq<char>> {
    es.map_values(|e: Seq<char>| normalized(e))
}

/// The ignore set built from the ignore-file's contents and the metadata
/// directory's entries.
pub open spec fn ignore_set_spec(config: Seq<char>, meta: Seq<Seq<char>>) -> Set<Seq<char>> {
    normalized_all(nonblank_lines(split_lines_spec(config)) + meta).to_set()
}

/// The literal paths to skip during the walk. Membership is exact string
/// equality: no globbing, no prefix matching.
pub struct IgnoreSet {
    entries: Vec<String>,
}

impl View for IgnoreSet {
    type V = Set<Seq<char>>;

    closed spec fn view(&self) -> Set<Seq<char>> {
        self.entries.deep_view().to_set()
    }
}

impl IgnoreSet {
    /// Whether `path` is exactly one of the ignored entries.
    pub fn contains(&self, path: &str) -> (r: bool)
        ensures
            r == self@.contains(path@),
    {
        let p = path.to_owned();
        let mut i: usize = 0;
        while i < self.entries.len()
            invariant
                i <= self.entries.len(),
                p@ == path@,
                forall|k: int| 0 <= k < i ==> self.entries.deep_view()[k] != path@,
            decreases self.entries.len() - i,
        {
            if self.entries[i] == p {
                proof {
                    assert(self.entries.deep_view()[i as int] == path@);
                    assert(self.entries.deep_view().contains(path@));
                }
                return true;
            }
            i = i + 1;
        }
        proof {
            assert(!self.entries.deep_view().contains(path@));
        }
        false
    }
}

fn normalize_entry(e: &str) -> (r: String)
    ensures
        r@ == normalized(e@),
{
    let mut s = "./".to_owned();
    s.append(e);
    proof {
        reveal_strlit("./");
        assert(s@ =~= normalized(e@));
    }
    s
}

/// The raw ignore entries held in the ignore-file's contents: its
/// non-empty lines, in file order.
pub fn get_ignored_files_from_config(config: &str) -> (r: Vec<String>)
    ensures
        r.deep_view() == nonblank_lines(split_lines_spec(config@)),
{
    let lines = split_lines(config);
    let mut out: Vec<String> = Vec::new();
    let mut i: usize = 0;
    while i < lines.len()
        invariant
            i <= lines.len(),
            lines.deep_view() == split_lines_spec(config@),
            out.deep_view() =~= nonblank_lines(lines.deep_view().take(i as int)),
        decreases lines.len() - i,
    {
        let keep = !lines[i].as_str().is_empty();
        if keep {
            let entry = lines[i].clone();
            out.push(entry);
        }
        proof {
            let taken = lines.deep_view().take(i as int + 1);
            assert(taken.drop_last() =~= lines.deep_view().take(i as int));
            assert(taken.last() == lines.deep_view()[i as int]);
            assert(out.deep_view() =~= nonblank_lines(taken));
        }
        i = i + 1;
    }
    proof {
        assert(lines.deep_view().take(lines@.len() as int) =~= lines.deep_view());
    }
    out
}

/// Build the full ignore set: the ignore-file's entries, then the
/// metadata directory's entries, each normalized to `./`-relative form.
pub fn get_things_you_should_ignore(config: &str, metadata_entries: &Vec<String>) -> (r: IgnoreSet)
    ensures
        r@ == ignore_set_spec(config@, metadata_entries.deep_view()),
{
    let from_config = get_ignored_files_from_config(config);
    let ghost raw = nonblank_lines(split_lines_spec(config@)) + metadata_entries.deep_view();
    let mut entries: Vec<String> = Vec::new();
    let mut i: usize = 0;
    proof {
        assert(entries.deep_view() =~= normalized_all(from_config.deep_view().take(0)));
    }
    while i < from_config.len()
        invariant
            i <= from_config.len(),
            entries@.len() == i,
            from_config.deep_view() == nonblank_lines(split_lines_spec(config@)),
            entries.deep_view() =~= normalized_all(from_config.deep_view().take(i as int)),
        decreases from_config.len() - i,
    {
        let n = normalize_entry(from_config[i].as_str());
        let ghost gn = n@;
        let ghost old_dv = entries.deep_view();
        entries.push(n);
        proof {
            let dv = from_config.deep_view();
            let taken = dv.take(i as int + 1);
            assert(entries.deep_view()[i as int] == gn);
            assert forall|k: int| 0 <= k < i implies entries.deep_view()[k] == old_dv[k] by {
                assert(entries@[k] == entries@.push(n)[k]);
            }
            assert forall|k: int| 0 <= k < i + 1 implies entries.deep_view()[k]
                == normalized_all(taken)[k] by {
                assert(normalized_all(taken)[k] == normalized(taken[k]));
                if k < i {
                    assert(old_dv[k] == normalized_all(dv.take(i as int))[k]);
                    assert(normalized_all(dv.take(i as int))[k] == normalized(
                        dv.take(i as int)[k],
                    ));
                }
            }
            assert(entries.deep_view() =~= normalized_all(taken));
        }
        i = i + 1;
    }
    let mut j: usize = 0;
    proof {
        assert(from_config.deep_view().take(from_config@.len() as int) =~= from_config.deep_view());
        assert(from_config.deep_view() + metadata_entries.deep_view().take(0)
            =~= from_config.deep_view());
    }
    while j < metadata_entries.len()
        invariant
            j <= metadata_entries.len(),
            entries@.len() == from_config@.len() + j,
            from_config.deep_view() == nonblank_lines(split_lines_spec(config@)),
            entries.deep_view() =~= normalized_all(
                from_config.deep_view() + metadata_entries.deep_view().take(j as int),
            ),
        decreases metadata_entries.len() - j,
    {
        let n = normalize_entry(metadata_entries[j].as_str());
        let ghost gn = n@;
        let ghost old_dv = entries.deep_view();
        let ghost old_comb = from_config.deep_view() + metadata_entries.deep_view().take(j as int);
        entries.push(n);
        proof {
            let dv = metadata_entries.deep_view();
            let combined = from_config.deep_view() + dv.take(j as int + 1);
            let m = from_config@.len() as int;
            assert(entries.deep_view()[m + j] == gn);
            assert(combined[m + j] == dv[j as int]);
            assert forall|k: int| 0 <= k < m + j implies entries.deep_view()[k] == old_dv[k] by {
                assert(entries.deep_view()[k] == entries@[k].deep_view());
            }
            assert forall|k: int| 0 <= k < m + j + 1 implies entries.deep_view()[k]
                == normalized_all(combined)[k] by {
                assert(normalized_all(combined)[k] == normalized(combined[k]));
                if k < m + j {
                    assert(old_dv[k] == normalized_all(old_comb)[k]);
                    assert(normalized_all(old_comb)[k] == normalized(old_comb[k]));
                    assert(old_comb[k] == combined[k]);
                }
            }
            assert(entries.deep_view() =~= normalized_all(combined));
        }
        j = j + 1;
    }
    proof {
        assert(from_config.deep_view() + metadata_entries.deep_view().take(
            metadata_entries@.len() as int,
        ) =~= raw);
        assert(entries.deep_view().to_set() =~= ignore_set_spec(
            config@,
            metadata_entries.deep_view(),
        ));
    }
    IgnoreSet { entries }
}

} // verus!
