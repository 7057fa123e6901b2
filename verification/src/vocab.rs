//! The vocabulary table: which words name arithmetic commands and which name
//! the segments that `push` and `pop` accept.

use vstd::prelude::*;
use vstd::string::*;

use crate::text::seq_views;
use crate::text::str_eq;

verus! {

/// The table of recognised command words, one list per use: the arithmetic
/// operators, the segments a `push` may address, and the segments a `pop`
/// may address (`constant` is absent there, since a constant cannot be
/// assigned to).
pub struct CommandTable {
    pub arithmetic: Vec<String>,
    pub push_segments: Vec<String>,
    pub pop_segments: Vec<String>,
}

/// The mathematical contents of a [`CommandTable`].
pub struct TableView {
    pub arithmetic: Seq<Seq<char>>,
    pub push_segments: Seq<Seq<char>>,
    pub pop_segments: Seq<Seq<char>>,
}

impl View for CommandTable {
    type V = TableView;

    open spec fn view(&self) -> TableView {
        TableView {
            arithmetic: seq_views(self.arithmetic@),
            push_segments: seq_views(self.push_segments@),
            pop_segments: seq_views(self.pop_segments@),
        }
    }
}

/// The standard vocabulary of the VM language.
pub open spec fn spec_standard_table() -> TableView {
    TableView {
        arithmetic: seq![
            "add"@,
            "sub"@,
            "neg"@,
            "eq"@,
            "gt"@,
            "lt"@,
            "and"@,
            "or"@,
            "not"@,
        ],
        push_segments: seq![
            "constant"@,
            "local"@,
            "argument"@,
            "this"@,
            "that"@,
            "static"@,
            "temp"@,
            "pointer"@,
        ],
        pop_segments: seq![
            "local"@,
            "argument"@,
            "this"@,
            "that"@,
            "static"@,
            "temp"@,
            "pointer"@,
        ],
    }
}

pub fn get_command_symbol_table() -> (t: CommandTable)
    ensures
        t@ == spec_standard_table(),
{
    let arithmetic = vec![
        String::from_str("add"),
        String::from_str("sub"),
        String::from_str("neg"),
        String::from_str("eq"),
        String::from_str("gt"),
        String::from_str("lt"),
        String::from_str("and"),
        String::from_str("or"),
        String::from_str("not"),
    ];
    let push_segments = vec![
        String::from_str("constant"),
        String::from_str("local"),
        String::from_str("argument"),
        String::from_str("this"),
        String::from_str("that"),
        String::from_str("static"),
        String::from_str("temp"),
        String::from_str("pointer"),
    ];
    let pop_segments = vec![
        String::from_str("local"),
        String::from_str("argument"),
        String::from_str("this"),
        String::from_str("that"),
        String::from_str("static"),
        String::from_str("temp"),
        String::from_str("pointer"),
    ];
    let t = CommandTable { arithmetic, push_segments, pop_segments };
    proof {
        assert(seq_views(t.arithmetic@) =~= spec_standard_table().arithmetic);
        assert(seq_views(t.push_segments@) =~= spec_standard_table().push_segments);
        assert(seq_views(t.pop_segments@) =~= spec_standard_table().pop_segments);
        assert(t@ =~= spec_standard_table());
    }
    t
}

/// Whether some string of `list` has the same text as `x`.
pub fn contains_str(list: &Vec<String>, x: &str) -> (r: bool)
    ensures
        r == seq_views(list@).contains(x@),
{
    let n = list.len();
    let mut i: usize = 0;
    while i < n
        invariant
            n == list@.len(),
            i <= n,
            forall|k: int| 0 <= k < i ==> #[trigger] list@[k]@ != x@,
        decreases n - i,
    {
        if str_eq(list[i].as_str(), x) {
            proof {
                assert(seq_views(list@)[i as int] == x@);
            }
            return true;
        }
        i += 1;
    }
    proof {
        assert forall|k: int| 0 <= k < seq_views(list@).len() implies #[trigger] seq_views(list@)[k]
            != x@ by {
            assert(seq_views(list@)[k] == list@[k]@);
        }
    }
    false
}

} // verus!
