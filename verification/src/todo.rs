//! The to-do file parser and the sliding to-do banner text.
//!
//! A to-do file holds one item per non-blank trimmed line; parsing
//! stops at the literal sentinel line `--- Ferdig ---`.

use vstd::prelude::*;
use vstd::string::*;

use crate::chars::{seq_trim, str_eq_str, strs_view, trim_str};
use crate::parser::{lemma_seek_unique, nl_stop, spec_lines_from};
use crate::shared::{Todo, TodoModel};

verus! {

/// The items of the to-do lines: each line trimmed, blank lines
/// skipped, and everything from the sentinel line on discarded.
pub open spec fn spec_todo_items(lines: Seq<Seq<char>>) -> Seq<Seq<char>>
    decreases lines.len(),
{
    if lines.len() == 0 {
        Seq::empty()
    } else {
        let t = seq_trim(lines[0]);
        if t.len() == 0 {
            spec_todo_items(lines.drop_first())
        } else if t == "--- Ferdig ---"@ {
            Seq::empty()
        } else {
            seq![t] + spec_todo_items(lines.drop_first())
        }
    }
}

/// The items of a whole to-do text.
pub open spec fn spec_parse_todo(text: Seq<char>) -> Seq<Seq<char>> {
    spec_todo_items(spec_lines_from(text, 0))
}

/// Parses a to-do file: one trimmed item per non-blank line, stopping
/// at the sentinel line.
pub fn parse_todo_file(file: &str) -> (r: Vec<String>)
    ensures
        strs_view(r@) == spec_parse_todo(file@),
{
    let n = file.unicode_len();
    let mut out: Vec<String> = Vec::new();
    let mut pos: usize = 0;
    loop
        invariant_except_break
            spec_parse_todo(file@) == strs_view(out@) + spec_todo_items(
                spec_lines_from(file@, pos as int),
            ),
        invariant
            pos <= n,
            n == file@.len(),
        ensures
            spec_parse_todo(file@) == strs_view(out@),
        decreases n - pos,
    {
        let mut e: usize = pos;
        while e < n && !(file.get_char(e) == '\n')
            invariant
                pos <= e <= n,
                n == file@.len(),
                forall|j: int| pos <= j < e ==> !(file@[j] == '\n'),
            decreases n - e,
        {
            e = e + 1;
        }
        proof {
            assert(forall|j: int| pos <= j < e ==> !(nl_stop()(file@[j])));
            assert(e < n ==> nl_stop()(file@[e as int]));
            lemma_seek_unique(file@, pos as int, nl_stop(), e as int);
        }
        let line = file.substring_char(pos, e);
        let ghost lines = spec_lines_from(file@, pos as int);
        proof {
            if e < n {
                assert(lines == seq![line@] + spec_lines_from(file@, e + 1));
                assert(lines.drop_first() =~= spec_lines_from(file@, e + 1));
            } else {
                assert(lines == seq![line@]);
                assert(lines.drop_first() =~= Seq::<Seq<char>>::empty());
            }
            assert(lines[0] == line@);
            assert(spec_todo_items(Seq::<Seq<char>>::empty()) == Seq::<Seq<char>>::empty());
        }
        let t = trim_str(line);
        if t.unicode_len() > 0 {
            if str_eq_str(t, "--- Ferdig ---") {
                proof {
                    assert(spec_todo_items(lines) =~= Seq::<Seq<char>>::empty());
                    assert(strs_view(out@) + Seq::<Seq<char>>::empty() =~= strs_view(out@));
                }
                break ;
            }
            let item = String::from_str(t);
            proof {
                assert(strs_view(out@.push(item)) =~= strs_view(out@).push(t@));
                assert(seq![t@] + spec_todo_items(lines.drop_first()) =~= Seq::<
                    Seq<char>,
                >::empty().push(t@) + spec_todo_items(lines.drop_first()));
                assert(strs_view(out@).push(t@) + spec_todo_items(lines.drop_first())
                    =~= strs_view(out@) + (seq![t@] + spec_todo_items(lines.drop_first())));
            }
            out.push(item);
        }
        if e == n {
            proof {
                assert(strs_view(out@) + Seq::<Seq<char>>::empty() =~= strs_view(out@));
            }
            break ;
        }
        pos = e + 1;
    }
    out
}

/// The banner text of the done items: each done item's text followed
/// by a dashed separator, concatenated in order.
pub open spec fn spec_sliding_text(ts: Seq<TodoModel>) -> Seq<char>
    decreases ts.len(),
{
    if ts.len() == 0 {
        Seq::empty()
    } else {
        (if ts[0].done {
            ts[0].description + " --------- "@
        } else {
            Seq::empty()
        }) + spec_sliding_text(ts.drop_first())
    }
}

/// The models of a vector of to-do items.
pub open spec fn todos_view(s: Seq<Todo>) -> Seq<TodoModel> {
    s.map_values(|t: Todo| t@)
}

proof fn lemma_sliding_push(ts: Seq<TodoModel>, t: TodoModel)
    ensures
        spec_sliding_text(ts.push(t)) == spec_sliding_text(ts) + (if t.done {
            t.description + " --------- "@
        } else {
            Seq::<char>::empty()
        }),
    decreases ts.len(),
{
    let tail = if t.done {
        t.description + " --------- "@
    } else {
        Seq::<char>::empty()
    };
    if ts.len() == 0 {
        assert(ts.push(t)[0] == t);
        assert(ts.push(t).drop_first() =~= Seq::<TodoModel>::empty());
        assert(spec_sliding_text(Seq::<TodoModel>::empty()) == Seq::<char>::empty());
        assert(tail + Seq::<char>::empty() =~= tail);
        assert(spec_sliding_text(ts) + tail =~= tail);
    } else {
        assert(ts.push(t).drop_first() =~= ts.drop_first().push(t));
        lemma_sliding_push(ts.drop_first(), t);
        assert(ts.push(t)[0] == ts[0]);
        let head = if ts[0].done {
            ts[0].description + " --------- "@
        } else {
            Seq::<char>::empty()
        };
        assert(head + (spec_sliding_text(ts.drop_first()) + tail) =~= (head + spec_sliding_text(
            ts.drop_first(),
        )) + tail);
    }
}

/// Builds the sliding banner text from the done to-do items.
pub fn sliding_todo(todo_list: &Vec<Todo>) -> (r: String)
    ensures
        r@ == spec_sliding_text(todos_view(todo_list@)),
{
    let mut r = String::new();
    let mut i: usize = 0;
    proof {
        assert(todos_view(todo_list@).subrange(0, 0) =~= Seq::<TodoModel>::empty());
    }
    while i < todo_list.len()
        invariant
            0 <= i <= todo_list@.len(),
            r@ == spec_sliding_text(todos_view(todo_list@).subrange(0, i as int)),
        decreases todo_list@.len() - i,
    {
        let ghost pre = todos_view(todo_list@).subrange(0, i as int);
        proof {
            assert(todos_view(todo_list@).subrange(0, i + 1) =~= pre.push(
                todos_view(todo_list@)[i as int],
            ));
            lemma_sliding_push(pre, todos_view(todo_list@)[i as int]);
        }
        if todo_list[i].done {
            proof {
                reveal_strlit(" --------- ");
            }
            r.append(todo_list[i].description.as_str());
            r.append(" --------- ");
        }
        i = i + 1;
    }
    proof {
        assert(todos_view(todo_list@).subrange(0, todo_list@.len() as int) =~= todos_view(
            todo_list@,
        ));
    }
    r
}

} // verus!
