//! The command classifier: cleaning raw VM text, recognising a command's
//! kind, and extracting its operands.

use vstd::prelude::*;
use vstd::string::*;

use crate::numbers::is_i16_str;
use crate::numbers::parse_i16;
use crate::text::find_comment;
use crate::text::find_comment_in;
use crate::text::get_token;
use crate::text::nth_token;
use crate::text::spec_lines;
use crate::text::spec_starts_with;
use crate::text::spec_trim;
use crate::text::split_lines;
use crate::text::str_eq;
use crate::text::str_starts_with;
use crate::text::trim_str;
use crate::vocab::CommandTable;
use crate::vocab::contains_str;
use crate::vocab::TableView;

verus! {

/// The semantic kind of one VM command.
#[derive(PartialEq, Eq, Hash, Clone, Copy, Debug, Structural)]
pub enum VMCommandType {
    Carithmetic,
    Cpush,
    Cpop,
    Clabel,
    Cgoto,
    Cif,
    Cfunction,
    Creturn,
    Ccall,
}

/// The cleaned form of one raw line: nothing for a blank or comment-only
/// line, otherwise the code before any comment, trimmed, with a newline.
pub open spec fn spec_clean_line(line: Seq<char>) -> Seq<char> {
    let t = spec_trim(line);
    if t.len() == 0 || spec_starts_with(t, "//"@) {
        Seq::empty()
    } else {
        match find_comment_in(t) {
            Some(i) => {
                let b = spec_trim(t.subrange(0, i));
                (if b.len() > 0 {
                    b
                } else {
                    Seq::empty()
                }) + "\n"@
            },
            None => t + "\n"@,
        }
    }
}

pub open spec fn spec_clean_lines(ls: Seq<Seq<char>>) -> Seq<char>
    decreases ls.len(),
{
    if ls.len() == 0 {
        Seq::empty()
    } else {
        spec_clean_line(ls[0]) + spec_clean_lines(ls.drop_first())
    }
}

/// The cleaned text of a whole unit: every line cleaned, concatenated, with
/// the final newline removed.
pub open spec fn spec_clean(s: Seq<char>) -> Seq<char> {
    let o = spec_clean_lines(spec_lines(s));
    if o.len() > 0 {
        o.drop_last()
    } else {
        o
    }
}

/// Which kind, if any, the classifier assigns to a cleaned command line.
pub open spec fn spec_classify(cmd: Seq<char>, t: TableView) -> Option<VMCommandType> {
    if spec_starts_with(cmd, "push"@) {
        if spec_operand1_in(cmd, t.push_segments) {
            Some(VMCommandType::Cpush)
        } else {
            None
        }
    } else if spec_starts_with(cmd, "pop"@) {
        if spec_operand1_in(cmd, t.pop_segments) {
            Some(VMCommandType::Cpop)
        } else {
            None
        }
    } else if spec_starts_with(cmd, "label"@) {
        Some(VMCommandType::Clabel)
    } else if spec_starts_with(cmd, "goto"@) {
        Some(VMCommandType::Cgoto)
    } else if spec_starts_with(cmd, "if-goto"@) {
        Some(VMCommandType::Cif)
    } else if spec_starts_with(cmd, "call"@) {
        Some(VMCommandType::Ccall)
    } else if spec_starts_with(cmd, "function"@) {
        Some(VMCommandType::Cfunction)
    } else if cmd == "return"@ {
        Some(VMCommandType::Creturn)
    } else if t.arithmetic.contains(cmd) {
        Some(VMCommandType::Carithmetic)
    } else {
        None
    }
}

/// The first operand exists and belongs to the given vocabulary.
pub open spec fn spec_operand1_in(cmd: Seq<char>, list: Seq<Seq<char>>) -> bool {
    match nth_token(cmd, 1) {
        Some(x) => list.contains(x),
        None => false,
    }
}

/// The first operand of a command of kind `k`, when that kind takes one.
pub open spec fn spec_arg1(cmd: Seq<char>, k: VMCommandType) -> Option<Seq<char>> {
    match k {
        VMCommandType::Carithmetic => None,
        VMCommandType::Creturn => None,
        _ => nth_token(cmd, 1),
    }
}

/// The second operand of a command of kind `k`: present only for the kinds
/// that take one, and only when it parses as a signed 16-bit integer.
pub open spec fn spec_arg2(cmd: Seq<char>, k: VMCommandType) -> Option<Seq<char>> {
    match k {
        VMCommandType::Cpush | VMCommandType::Cpop | VMCommandType::Ccall
            | VMCommandType::Cfunction => match nth_token(cmd, 2) {
            Some(x) => if is_i16_str(x) {
                Some(x)
            } else {
                None
            },
            None => None,
        },
        _ => None,
    }
}

/// The command classifier.  It holds no state: every method is a pure
/// function of its arguments.
#[derive(PartialEq, Eq, Structural)]
pub struct VmCodeParser;

impl Default for VmCodeParser {
    fn default() -> (r: Self)
        ensures
            r == (VmCodeParser {}),
    {
        Self::new()
    }
}

impl VmCodeParser {
    pub fn new() -> (r: VmCodeParser)
        ensures
            r == (VmCodeParser {}),
    {
        VmCodeParser
    }

    /// Strips comments, blank lines and surrounding whitespace from raw VM
    /// text, leaving one cleaned command per line.
    pub fn clean_vm_code(&self, vm_code: String) -> (r: String)
        ensures
            r@ == spec_clean(vm_code@),
    {
        let lines = split_lines(vm_code.as_str());
        let ghost all = crate::text::seq_views(lines@);
        let mut cleaned: String = String::new();
        let n = lines.len();
        let mut i: usize = 0;
        proof {
            assert(all.subrange(0, n as int) =~= all);
            assert(all.subrange(i as int, n as int) =~= all);
        }
        while i < n
            invariant
                n == lines@.len(),
                i <= n,
                all == crate::text::seq_views(lines@),
                spec_clean_lines(all) == cleaned@ + spec_clean_lines(
                    all.subrange(i as int, n as int),
                ),
            decreases n - i,
        {
            let ghost suffix = all.subrange(i as int, n as int);
            let ghost line = all[i as int];
            let ghost out0 = cleaned@;
            proof {
                assert(suffix[0] == line);
                assert(suffix.drop_first() =~= all.subrange(i + 1, n as int));
                assert(spec_clean_lines(suffix) == spec_clean_line(line) + spec_clean_lines(
                    all.subrange(i + 1, n as int),
                ));
                assert(lines@[i as int]@ == line);
            }
            let t = trim_str(lines[i].as_str());
            if t.is_empty() || str_starts_with(t, "//") {
                proof {
                    assert(spec_clean_line(line) =~= Seq::<char>::empty());
                    assert(out0 + spec_clean_line(line) =~= out0);
                }
            } else {
                match find_comment(t) {
                    Some(j) => {
                        proof {
                            crate::text::lemma_find_comment_in(t@);
                        }
                        let before = trim_str(t.substring_char(0, j));
                        let ghost b = spec_trim(t@.subrange(0, j as int));
                        if !before.is_empty() {
                            cleaned.append(before);
                        }
                        cleaned.append("\n");
                        proof {
                            if b.len() > 0 {
                                assert(spec_clean_line(line) == b + "\n"@);
                                assert(cleaned@ =~= out0 + (b + "\n"@));
                            } else {
                                assert(spec_clean_line(line) =~= Seq::<char>::empty() + "\n"@);
                                assert(cleaned@ =~= out0 + (Seq::<char>::empty() + "\n"@));
                            }
                        }
                    },
                    None => {
                        cleaned.append(t);
                        cleaned.append("\n");
                        proof {
                            assert(spec_clean_line(line) == t@ + "\n"@);
                            assert(cleaned@ =~= out0 + (t@ + "\n"@));
                        }
                    },
                }
            }
            proof {
                assert(cleaned@ == out0 + spec_clean_line(line));
                assert(out0 + (spec_clean_line(line) + spec_clean_lines(
                    all.subrange(i + 1, n as int),
                )) =~= (out0 + spec_clean_line(line)) + spec_clean_lines(
                    all.subrange(i + 1, n as int),
                ));
            }
            i += 1;
        }
        proof {
            assert(spec_clean_lines(all.subrange(n as int, n as int)) =~= Seq::<char>::empty());
            assert(cleaned@ + Seq::<char>::empty() =~= cleaned@);
        }
        let total = cleaned.as_str().unicode_len();
        if total > 0 {
            let r = cleaned.as_str().substring_char(0, total - 1).to_owned();
            proof {
                assert(r@ =~= cleaned@.drop_last());
            }
            r
        } else {
            cleaned
        }
    }

    /// Classifies one cleaned command line against the vocabulary table.
    pub fn command_type(&self, current_command: &str, command_table: &CommandTable) -> (r: Option<
        VMCommandType,
    >)
        ensures
            r == spec_classify(current_command@, command_table@),
    {
        if str_starts_with(current_command, "push") {
            let in_vocab = match self.arg1(current_command, &VMCommandType::Cpush) {
                Some(x) => contains_str(&command_table.push_segments, x),
                None => false,
            };
            if in_vocab {
                Some(VMCommandType::Cpush)
            } else {
                None
            }
        } else if str_starts_with(current_command, "pop") {
            let in_vocab = match self.arg1(current_command, &VMCommandType::Cpop) {
                Some(x) => contains_str(&command_table.pop_segments, x),
                None => false,
            };
            if in_vocab {
                Some(VMCommandType::Cpop)
            } else {
                None
            }
        } else if str_starts_with(current_command, "label") {
            Some(VMCommandType::Clabel)
        } else if str_starts_with(current_command, "goto") {
            Some(VMCommandType::Cgoto)
        } else if str_starts_with(current_command, "if-goto") {
            Some(VMCommandType::Cif)
        } else if str_starts_with(current_command, "call") {
            Some(VMCommandType::Ccall)
        } else if str_starts_with(current_command, "function") {
            Some(VMCommandType::Cfunction)
        } else if str_eq(current_command, "return") {
            Some(VMCommandType::Creturn)
        } else if contains_str(&command_table.arithmetic, current_command) {
            Some(VMCommandType::Carithmetic)
        } else {
            None
        }
    }

    /// The first operand: the second whitespace-delimited token, for the
    /// kinds that take one.
    pub fn arg1<'a>(&self, current_command: &'a str, command_type: &VMCommandType) -> (r: Option<
        &'a str,
    >)
        ensures
            match r {
                Some(x) => spec_arg1(current_command@, *command_type) == Some(x@),
                None => spec_arg1(current_command@, *command_type) == None::<Seq<char>>,
            },
    {
        match command_type {
            VMCommandType::Carithmetic | VMCommandType::Creturn => None,
            _ => get_token(current_command, 1),
        }
    }

    /// The second operand: the third token, accepted only when it parses as
    /// a signed 16-bit integer.
    pub fn arg2<'a>(&self, current_command: &'a str, command_type: &VMCommandType) -> (r: Option<
        &'a str,
    >)
        ensures
            match r {
                Some(x) => spec_arg2(current_command@, *command_type) == Some(x@),
                None => spec_arg2(current_command@, *command_type) == None::<Seq<char>>,
            },
    {
        match command_type {
            VMCommandType::Cpush | VMCommandType::Cpop | VMCommandType::Ccall
                | VMCommandType::Cfunction => {
                match get_token(current_command, 2) {
                    Some(x) => {
                        if parse_i16(x).is_some() {
                            Some(x)
                        } else {
                            None
                        }
                    },
                    None => None,
                }
            },
            _ => None,
        }
    }
}

} // verus!
