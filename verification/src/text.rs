//! Plain-text helpers: splitting a buffer into lines and rendering
//! numbers in decimal.

use vstd::prelude::*;

verus! {

/// The character for the decimal digit `d`.
pub open spec fn digit_char(d: int) -> char {
    if d == 0 {
        '0'
    } else if d == 1 {
        '1'
    } else if d == 2 {
        '2'
    } else if d == 3 {
        '3'
    } else if d == 4 {
        '4'
    } else if d == 5 {
        '5'
    } else if d == 6 {
        '6'
    } else if d == 7 {
        '7'
    } else if d == 8 {
        '8'
    } else {
        '9'
    }
}

/// The decimal rendering of `n`, most significant digit first, with no
/// leading zeros (zero itself is a single `'0'`).
pub open spec fn dec_str(n: nat) -> Seq<char>
    decreases n,
{
    if n < 10 {
        seq![digit_char(n as int)]
    } else {
        dec_str(n / 10).push(digit_char((n % 10) as int))
    }
}

fn digit_str(d: usize) -> (r: &'static str)
    requires
        d < 10,
    ensures
        r@ == seq![digit_char(d as int)],
{
    if d == 0 {
        proof {
            reveal_strlit("0");
            assert("0"@ =~= seq![digit_char(0)]);
        }
        "0"
    } else if d == 1 {
        proof {
            reveal_strlit("1");
            assert("1"@ =~= seq![digit_char(1)]);
        }
        "1"
    } else if d == 2 {
        proof {
            reveal_strlit("2");
            assert("2"@ =~= seq![digit_char(2)]);
        }
        "2"
    } else if d == 3 {
        proof {
            reveal_strlit("3");
            assert("3"@ =~= seq![digit_char(3)]);
        }
        "3"
    } else if d == 4 {
        proof {
            reveal_strlit("4");
            assert("4"@ =~= seq![digit_char(4)]);
        }
        "4"
    } else if d == 5 {
        proof {
            reveal_strlit("5");
            assert("5"@ =~= seq![digit_char(5)]);
        }
        "5"
    } else if d == 6 {
        proof {
            reveal_strlit("6");
            assert("6"@ =~= seq![digit_char(6)]);
        }
        "6"
    } else if d == 7 {
        proof {
            reveal_strlit("7");
            assert("7"@ =~= seq![digit_char(7)]);
        }
        "7"
    } else if d == 8 {
        proof {
            reveal_strlit("8");
            assert("8"@ =~= seq![digit_char(8)]);
        }
        "8"
    } else {
        proof {
            reveal_strlit("9");
            assert("9"@ =~= seq![digit_char(9)]);
        }
        "9"
    }
}

/// Render `n` in decimal.
pub fn usize_to_string(n: usize) -> (r: String)
    ensures
        r@ == dec_str(n as nat),
    decreases n,
{
    if n < 10 {
        digit_str(n).to_owned()
    } else {
        let mut s = usize_to_string(n / 10);
        s.append(digit_str(n % 10));
        proof {
            assert(s@ =~= dec_str(n as nat));
        }
        s
    }
}

/// Index of the first `'\n'` in `s` at or after `from`, or `s.len()` if
/// there is none.
pub open spec fn line_break_from(s: Seq<char>, from: nat) -> nat
    decreases s.len() - from,
{
    if from >= s.len() {
        s.len()
    } else if s[from as int] == '\n' {
        from
    } else {
        line_break_from(s, from + 1)
    }
}

/// A segment that ended at a newline loses one trailing carriage return.
pub open spec fn strip_cr(l: Seq<char>) -> Seq<char> {
    if l.len() > 0 && l.last() == '\r' {
        l.drop_last()
    } else {
        l
    }
}

/// The lines of `s`: split at `'\n'`, with a `'\r'` directly before a
/// split point dropped; a final segment without a newline is kept as it
/// is, and a trailing newline adds no empty final line.
pub open spec fn split_lines_spec(s: Seq<char>) -> Seq<Seq<char>>
    decreases s.len(),
{
    if s.len() == 0 {
        Seq::empty()
    } else {
        let i = line_break_from(s, 0);
        if i >= s.len() {
            seq![s]
        } else {
            seq![strip_cr(s.subrange(0, i as int))] + split_lines_spec(
                s.subrange(i as int + 1, s.len() as int),
            )
        }
    }
}

proof fn lemma_line_break_from_at(s: Seq<char>, from: nat, j: nat)
    requires
        from <= j <= s.len(),
        forall|k: int| from <= k < j ==> s[k] != '\n',
        j == s.len() || s[j as int] == '\n',
    ensures
        line_break_from(s, from) == j,
    decreases j - from,
{
    if from < j {
        lemma_line_break_from_at(s, from + 1, j);
    }
}

/// Split `contents` into its lines.
pub fn split_lines(contents: &str) -> (r: Vec<String>)
    ensures
        r.deep_view() == split_lines_spec(contents@),
{
    let n = contents.unicode_len();
    let mut out: Vec<String> = Vec::new();
    let mut pos: usize = 0;
    proof {
        assert(out.deep_view() =~= Seq::<Seq<char>>::empty());
        assert(contents@.subrange(0, n as int) =~= contents@);
    }
    while pos < n
        invariant
            pos <= n,
            n == contents@.len(),
            split_lines_spec(contents@) =~= out.deep_view() + split_lines_spec(
                contents@.subrange(pos as int, n as int),
            ),
        decreases n - pos,
    {
        let ghost suffix = contents@.subrange(pos as int, n as int);
        let mut j: usize = pos;
        while j < n && contents.get_char(j) != '\n'
            invariant
                pos <= j <= n,
                n == contents@.len(),
                forall|k: int| pos <= k < j ==> contents@[k] != '\n',
            decreases n - j,
        {
            j = j + 1;
        }
        proof {
            assert(forall|k: int| 0 <= k < j - pos ==> suffix[k] == contents@[pos + k]);
            lemma_line_break_from_at(suffix, 0, (j - pos) as nat);
        }
        if j < n {
            let end = if j > pos && contents.get_char(j - 1) == '\r' {
                j - 1
            } else {
                j
            };
            let line = contents.substring_char(pos, end);
            proof {
                assert(suffix.subrange(0, j - pos) =~= contents@.subrange(pos as int, j as int));
                assert(strip_cr(suffix.subrange(0, j - pos)) =~= line@);
                assert(suffix.subrange(j - pos + 1, suffix.len() as int) =~= contents@.subrange(
                    j as int + 1,
                    n as int,
                ));
            }
            let owned = line.to_owned();
            out.push(owned);
            proof {
                assert(out.deep_view() =~= out.deep_view().drop_last() + seq![line@]);
                assert(split_lines_spec(contents@) =~= out.deep_view() + split_lines_spec(
                    contents@.subrange(j as int + 1, n as int),
                ));
            }
            pos = j + 1;
        } else {
            let line = contents.substring_char(pos, n);
            proof {
                assert(suffix =~= line@);
                assert(split_lines_spec(suffix) =~= seq![line@]);
            }
            let owned = line.to_owned();
            out.push(owned);
            proof {
                assert(out.deep_view() =~= out.deep_view().drop_last() + seq![line@]);
                assert(contents@.subrange(n as int, n as int) =~= Seq::<char>::empty());
                assert(split_lines_spec(contents@) =~= out.deep_view() + split_lines_spec(
                    contents@.subrange(n as int, n as int),
                ));
            }
            pos = n;
        }
    }
    proof {
        assert(contents@.subrange(n as int, n as int) =~= Seq::<char>::empty());
        assert(split_lines_spec(contents@) =~= out.deep_view());
    }
    out
}

} // verus!
