//! The code generator: per-command emitters, the run-wide call-site stack,
//! and the fold that translates one unit's cleaned command text.

use vstd::prelude::*;
use vstd::string::*;

use crate::numbers::dec_str;
use crate::numbers::i16_str_val;
use crate::numbers::is_i16_str;
use crate::numbers::lemma_dec_str_injective;
use crate::numbers::parse_i16;
use crate::numbers::usize_to_string;
use crate::parser::spec_arg1;
use crate::parser::spec_arg2;
use crate::parser::spec_classify;
use crate::parser::VMCommandType;
use crate::parser::VmCodeParser;
use crate::text::seq_views;
use crate::text::spec_lines;
use crate::text::spec_to_upper;
use crate::text::split_lines;
use crate::text::str_eq;
use crate::text::to_upper;
use crate::vocab::contains_str;
use crate::vocab::CommandTable;
use crate::vocab::TableView;

verus! {

/// The fragment that pushes the scratch register onto the global stack.
pub open spec fn incr_sp_text() -> Seq<char> {
    "@SP\nA=M\nM=D\n@SP\nM=M+1"@
}

/// The fragment that pops the top of the global stack into the scratch
/// register.
pub open spec fn deref_sp_text() -> Seq<char> {
    "@SP\nAM=M-1\nD=M\n"@
}

/// An internal jump-target name of a comparison expansion: the kind word
/// (already carrying its dot) followed by the decimal line counter.
pub open spec fn cmp_label(kind: Seq<char>, n: nat) -> Seq<char> {
    kind + dec_str(n as int)
}

/// A return-address name scoped under a calling context: the context, the
/// `$ret.` separator, and the decimal occurrence count.
pub open spec fn ret_label(ctx: Seq<char>, n: nat) -> Seq<char> {
    ctx + "$ret."@ + dec_str(n as int)
}

/// How many entries of `s` equal `x`.
pub open spec fn count_eq(s: Seq<Seq<char>>, x: Seq<char>) -> nat
    decreases s.len(),
{
    if s.len() == 0 {
        0
    } else {
        count_eq(s.drop_last(), x) + (if s.last() == x {
            1nat
        } else {
            0nat
        })
    }
}

/// The label-scoping context the call-site stack provides: its top entry, or
/// nothing when it is empty.
pub open spec fn spec_label_context(stack: Seq<Seq<char>>) -> Seq<char> {
    if stack.len() > 0 {
        stack.last()
    } else {
        Seq::empty()
    }
}

/// The return-address name a call emitted under `stack` uses: the top entry
/// tagged with its occurrence count, or a unit-qualified fallback when the
/// stack is empty.
pub open spec fn spec_return_address(stack: Seq<Seq<char>>, file: Seq<char>) -> Seq<char> {
    if stack.len() > 0 {
        ret_label(stack.last(), count_eq(stack, stack.last()))
    } else {
        file + ".$ret"@
    }
}

/// The assembly for a `label` command, or nothing when the label name is
/// missing.
pub open spec fn spec_write_label(cmd: Seq<char>, ctx: Seq<char>) -> Option<Seq<char>> {
    match crate::text::nth_token(cmd, 1) {
        Some(name) => Some(
            if ctx.len() == 0 {
                "("@ + name + ")"@
            } else {
                "("@ + ctx + "$"@ + name + ")"@
            },
        ),
        None => None,
    }
}

/// The assembly for a `goto` command.
pub open spec fn spec_write_goto(cmd: Seq<char>, ctx: Seq<char>) -> Option<Seq<char>> {
    match crate::text::nth_token(cmd, 1) {
        Some(name) => Some(
            if ctx.len() == 0 {
                "@"@ + name + "\n0;JMP"@
            } else {
                "@"@ + ctx + "$"@ + name + "\n0;JMP"@
            },
        ),
        None => None,
    }
}

/// The assembly for an `if-goto` command: pop one cell and jump when it is
/// non-zero.
pub open spec fn spec_write_if(cmd: Seq<char>, ctx: Seq<char>) -> Option<Seq<char>> {
    match crate::text::nth_token(cmd, 1) {
        Some(name) => Some(
            if ctx.len() == 0 {
                "@SP\nAM=M-1\nD=M\n@"@ + name + "\nD;JNE"@
            } else {
                "@SP\nAM=M-1\nD=M\n@"@ + ctx + "$"@ + name + "\nD;JNE"@
            },
        ),
        None => None,
    }
}

/// `n` copies of the block that pushes one zero-valued local cell.
pub open spec fn repeat_push_zero(n: nat) -> Seq<char>
    decreases n,
{
    if n == 0 {
        Seq::empty()
    } else {
        repeat_push_zero((n - 1) as nat) + "@SP\nA=M\nM=D\n@SP\nM=M+1\n"@
    }
}

/// The assembly for a `function` command: its entry label, then one zeroed
/// stack cell per declared local variable.  A negative count is outside the
/// operand's domain.
pub open spec fn spec_write_function(name: Seq<char>, local_vars: int) -> Option<Seq<char>> {
    if local_vars < 0 {
        None
    } else {
        Some(
            ("("@ + name + ")\n"@ + "@0\nD=A\n"@ + repeat_push_zero(local_vars as nat)).drop_last(),
        )
    }
}

/// The fragment that saves one segment-base register on the stack.
pub open spec fn save_segment_text() -> Seq<char> {
    "D=M\n@SP\nA=M\nM=D\n@SP\nM=M+1\n"@
}

/// The assembly for a `call` command: push the return address and the four
/// saved segment bases, reposition the callee's argument and local bases,
/// jump, and declare the return-address label.  A negative argument count is
/// outside the operand's domain.
pub open spec fn spec_write_call(name: Seq<char>, args: int, ret: Seq<char>) -> Option<Seq<char>> {
    if args < 0 {
        None
    } else {
        Some(
            "@"@ + ret + "\nD=A\n@SP\nA=M\nM=D\n@SP\nM=M+1\n"@ + "@LCL\n"@ + save_segment_text()
                + "@ARG\n"@ + save_segment_text() + "@THIS\n"@ + save_segment_text() + "@THAT\n"@
                + save_segment_text() + "@"@ + dec_str(5 + args) + "\nD=A\n@SP\nD=M-D\n@ARG\nM=D\n"@
                + "@SP\nD=M\n@LCL\nM=D\n"@ + "@"@ + name + "\n0;JMP\n"@ + "("@ + ret + ")"@,
        )
    }
}

/// The assembly for a `return` command: recover the return address from the
/// frame, move the return value under the caller's argument base, restore
/// the four saved segment bases, and jump back.
pub open spec fn spec_write_return() -> Seq<char> {
    "@LCL\nD=M\n@R13\nM=D\n"@ + "@5\nA=D-A\nD=M\n@R14\nM=D\n"@ + "@SP\nA=M-1\nD=M\n@ARG\nA=M\nM=D\n"@
        + "@ARG\nD=M+1\n@SP\nM=D\n"@ + "@R13\nAM=M-1\nD=M\n"@ + "@THAT\nM=D\n"@
        + "@R13\nAM=M-1\nD=M\n"@ + "@THIS\nM=D\n"@ + "@R13\nAM=M-1\nD=M\n"@ + "@ARG\nM=D\n"@
        + "@R13\nAM=M-1\nD=M\n"@ + "@LCL\nM=D\n"@ + "@R14\nA=M\n0;JMP"@
}

/// The assembly for a `push` command, or nothing when the segment is not in
/// the vocabulary, the index is not a non-negative 16-bit integer, or a
/// `pointer` index is neither 0 nor 1.
pub open spec fn spec_write_push(
    seg: Seq<char>,
    idx: Seq<char>,
    list: Seq<Seq<char>>,
    file: Seq<char>,
) -> Option<Seq<char>> {
    if !list.contains(seg) {
        None
    } else if !(is_i16_str(idx) && i16_str_val(idx) >= 0) {
        None
    } else {
        let u = spec_to_upper(seg);
        if u == "CONSTANT"@ {
            Some("@"@ + idx + "\nD=A\n"@ + incr_sp_text())
        } else if u == "STATIC"@ {
            Some("@"@ + file + "."@ + idx + "\nD=M\n"@ + incr_sp_text())
        } else if u == "POINTER"@ {
            if idx == "0"@ {
                Some("@THIS\n"@ + "D=M\n"@ + incr_sp_text())
            } else if idx == "1"@ {
                Some("@THAT\n"@ + "D=M\n"@ + incr_sp_text())
            } else {
                None
            }
        } else if u == "TEMP"@ {
            Some("@"@ + idx + "\nD=A\n@5\nA=D+A\nD=M\n"@ + incr_sp_text())
        } else if u == "LOCAL"@ {
            Some("@LCL\nD=M\n@"@ + idx + "\nA=D+A\nD=M\n"@ + incr_sp_text())
        } else if u == "ARGUMENT"@ {
            Some("@ARG\nD=M\n@"@ + idx + "\nA=D+A\nD=M\n"@ + incr_sp_text())
        } else {
            Some("@"@ + u + "\nD=M\n@"@ + idx + "\nA=D+A\nD=M\n"@ + incr_sp_text())
        }
    }
}

/// The assembly for a `pop` command, under the same addressing modes and
/// operand domain as `push`.
pub open spec fn spec_write_pop(
    seg: Seq<char>,
    idx: Seq<char>,
    list: Seq<Seq<char>>,
    file: Seq<char>,
) -> Option<Seq<char>> {
    if !list.contains(seg) {
        None
    } else if !(is_i16_str(idx) && i16_str_val(idx) >= 0) {
        None
    } else {
        let u = spec_to_upper(seg);
        if u == "STATIC"@ {
            Some(deref_sp_text() + "@"@ + file + "."@ + idx + "\nM=D"@)
        } else if u == "POINTER"@ {
            if idx == "0"@ {
                Some(deref_sp_text() + "@THIS\n"@ + "M=D"@)
            } else if idx == "1"@ {
                Some(deref_sp_text() + "@THAT\n"@ + "M=D"@)
            } else {
                None
            }
        } else if u == "TEMP"@ {
            Some(
                "@5\nD=A\n@"@ + idx + "\nD=D+A\n@R13\nM=D\n"@ + deref_sp_text()
                    + "@R13\nA=M\nM=D"@,
            )
        } else if u == "LOCAL"@ {
            Some(
                "@"@ + idx + "\nD=A\n@LCL\nD=D+M\n@R13\nM=D\n"@ + deref_sp_text()
                    + "@R13\nA=M\nM=D"@,
            )
        } else if u == "ARGUMENT"@ {
            Some(
                "@"@ + idx + "\nD=A\n@ARG\nD=D+M\n@R13\nM=D\n"@ + deref_sp_text()
                    + "@R13\nA=M\nM=D"@,
            )
        } else {
            Some(
                "@"@ + idx + "\nD=A\n@"@ + u + "\nD=D+M\n@R13\nM=D\n"@ + deref_sp_text()
                    + "@R13\nA=M\nM=D"@,
            )
        }
    }
}

/// The assembly for an arithmetic command, or nothing when the word is not
/// in the arithmetic vocabulary.  The three comparisons expand with
/// jump-target names tagged by the line counter.
pub open spec fn spec_write_arithmetic(cmd: Seq<char>, list: Seq<Seq<char>>, ln: nat) -> Option<
    Seq<char>,
> {
    if !list.contains(cmd) {
        None
    } else if cmd == "add"@ {
        Some(deref_sp_text() + "A=A-1\nM=D+M"@)
    } else if cmd == "sub"@ {
        Some(deref_sp_text() + "A=A-1\nM=M-D"@)
    } else if cmd == "neg"@ {
        Some("@SP\nA=M-1\nM=-M"@)
    } else if cmd == "eq"@ {
        Some(cmp_expansion("equal."@, "\nD;JEQ\nD=0\n@"@, ln))
    } else if cmd == "gt"@ {
        Some(cmp_expansion("greater."@, "\nD;JGT\nD=0\n@"@, ln))
    } else if cmd == "lt"@ {
        Some(cmp_expansion("lesser."@, "\nD;JLT\nD=0\n@"@, ln))
    } else if cmd == "and"@ {
        Some(deref_sp_text() + "A=A-1\nM=D&M"@)
    } else if cmd == "or"@ {
        Some(deref_sp_text() + "A=A-1\nM=D|M"@)
    } else if cmd == "not"@ {
        Some("@SP\nA=M-1\nM=!M"@)
    } else {
        None
    }
}

/// The shared shape of the three comparison expansions: compute a signed
/// difference, branch to materialise all-ones or zero, and push the result.
pub open spec fn cmp_expansion(kind: Seq<char>, jump: Seq<char>, ln: nat) -> Seq<char> {
    deref_sp_text() + "A=A-1\nD=M-D\n@"@ + cmp_label(kind, ln) + jump + cmp_label("done."@, ln)
        + "\n0;JMP\n("@ + cmp_label(kind, ln) + ")\nD=-1\n("@ + cmp_label("done."@, ln) + ")\n"@
        + "@SP\nA=M-1\nM=D"@
}

/// The code generator.  It owns one unit's cleaned command text; the
/// call-site stack and the emitted output are threaded through
/// [`VmCodeWriter::translate`] by the caller.
pub struct VmCodeWriter {
    code_parser: VmCodeParser,
    cleaned_vm_commands: String,
}

impl View for VmCodeWriter {
    type V = Seq<char>;

    closed spec fn view(&self) -> Seq<char> {
        self.cleaned_vm_commands@
    }
}

impl VmCodeWriter {
    pub fn new(code_parser: VmCodeParser, cleaned_vm_commands: String) -> (r: VmCodeWriter)
        ensures
            r@ == cleaned_vm_commands@,
    {
        VmCodeWriter { code_parser, cleaned_vm_commands }
    }

    /// The one-time bootstrap prefix: point the stack pointer at the base of
    /// the global stack.
    pub fn write_init(&self) -> (r: String)
        ensures
            r@ == "@256\nD=A\n@SP\nM=D\n"@,
    {
        let mut translated_command = String::new();
        translated_command.append("@256\nD=A\n@SP\nM=D\n");
        proof {
            assert(translated_command@ =~= "@256\nD=A\n@SP\nM=D\n"@);
        }
        translated_command
    }

    /// The end-of-program terminator for a run without a designated entry
    /// unit: a label followed by an unconditional jump back to itself, so
    /// execution can never fall through.
    pub fn write_end(&self) -> (r: String)
        ensures
            r@ == "(end_asm_file)\n@end_asm_file\n0;JMP"@,
    {
        let mut translated_command = String::new();
        translated_command.append("(end_asm_file)\n@end_asm_file\n0;JMP");
        proof {
            assert(translated_command@ =~= "(end_asm_file)\n@end_asm_file\n0;JMP"@);
        }
        translated_command
    }

    /// Emits a jump target scoped under the current function context.
    pub fn write_label(&self, label_command: &str, function_context: &str) -> (r: Option<String>)
        ensures
            match r {
                Some(s) => spec_write_label(label_command@, function_context@) == Some(s@),
                None => spec_write_label(label_command@, function_context@) == None::<Seq<char>>,
            },
    {
        match crate::text::get_token(label_command, 1) {
            Some(label_name) => {
                let mut s = String::new();
                if function_context.is_empty() {
                    s.append("(");
                    s.append(label_name);
                    s.append(")");
                    proof {
                        assert(s@ =~= "("@ + label_name@ + ")"@);
                    }
                } else {
                    s.append("(");
                    s.append(function_context);
                    s.append("$");
                    s.append(label_name);
                    s.append(")");
                    proof {
                        assert(s@ =~= "("@ + function_context@ + "$"@ + label_name@ + ")"@);
                    }
                }
                Some(s)
            },
            None => None,
        }
    }

    /// Emits an unconditional jump to a label scoped under the current
    /// function context.
    pub fn write_goto(&self, goto_command: &str, function_context: &str) -> (r: Option<String>)
        ensures
            match r {
                Some(s) => spec_write_goto(goto_command@, function_context@) == Some(s@),
                None => spec_write_goto(goto_command@, function_context@) == None::<Seq<char>>,
            },
    {
        match crate::text::get_token(goto_command, 1) {
            Some(label_name) => {
                let mut s = String::new();
                if function_context.is_empty() {
                    s.append("@");
                    s.append(label_name);
                    s.append("\n0;JMP");
                    proof {
                        assert(s@ =~= "@"@ + label_name@ + "\n0;JMP"@);
                    }
                } else {
                    s.append("@");
                    s.append(function_context);
                    s.append("$");
                    s.append(label_name);
                    s.append("\n0;JMP");
                    proof {
                        assert(s@ =~= "@"@ + function_context@ + "$"@ + label_name@ + "\n0;JMP"@);
                    }
                }
                Some(s)
            },
            None => None,
        }
    }

    /// Emits a conditional jump: pop one cell, jump when it is non-zero.
    pub fn write_if(&self, if_command: &str, function_context: &str) -> (r: Option<String>)
        ensures
            match r {
                Some(s) => spec_write_if(if_command@, function_context@) == Some(s@),
                None => spec_write_if(if_command@, function_context@) == None::<Seq<char>>,
            },
    {
        match crate::text::get_token(if_command, 1) {
            Some(label_name) => {
                let mut s = String::new();
                if function_context.is_empty() {
                    s.append("@SP\nAM=M-1\nD=M\n@");
                    s.append(label_name);
                    s.append("\nD;JNE");
                    proof {
                        assert(s@ =~= "@SP\nAM=M-1\nD=M\n@"@ + label_name@ + "\nD;JNE"@);
                    }
                } else {
                    s.append("@SP\nAM=M-1\nD=M\n@");
                    s.append(function_context);
                    s.append("$");
                    s.append(label_name);
                    s.append("\nD;JNE");
                    proof {
                        assert(s@ =~= "@SP\nAM=M-1\nD=M\n@"@ + function_context@ + "$"@
                            + label_name@ + "\nD;JNE"@);
                    }
                }
                Some(s)
            },
            None => None,
        }
    }

    /// Emits a function entry label and zero-initialises its local segment
    /// on the stack.
    pub fn write_function(&self, function_name: &str, local_vars: i16) -> (r: Option<String>)
        ensures
            match r {
                Some(s) => spec_write_function(function_name@, local_vars as int) == Some(s@),
                None => spec_write_function(function_name@, local_vars as int) == None::<
                    Seq<char>,
                >,
            },
    {
        if local_vars < 0 {
            return None;
        }
        let mut s = String::new();
        s.append("(");
        s.append(function_name);
        s.append(")\n");
        s.append("@0\nD=A\n");
        let ghost base = "("@ + function_name@ + ")\n"@ + "@0\nD=A\n"@;
        proof {
            assert(s@ =~= base + repeat_push_zero(0));
        }
        let count = local_vars as usize;
        let mut k: usize = 0;
        while k < count
            invariant
                s@ == base + repeat_push_zero(k as nat),
                k <= count,
            decreases count - k,
        {
            s.append("@SP\nA=M\nM=D\n@SP\nM=M+1\n");
            proof {
                assert(s@ =~= base + repeat_push_zero((k + 1) as nat));
            }
            k += 1;
        }
        proof {
            reveal_strlit("@0\nD=A\n");
            assert(s@.len() > 0);
        }
        let total = s.as_str().unicode_len();
        let r = s.as_str().substring_char(0, total - 1).to_owned();
        proof {
            assert(r@ =~= s@.drop_last());
        }
        Some(r)
    }

    /// Emits the calling protocol for a `call` command, under an
    /// already-computed return-address name.
    pub fn write_call(&self, function_name: &str, args: i16, return_address: &str) -> (r: Option<
        String,
    >)
        ensures
            match r {
                Some(s) => spec_write_call(function_name@, args as int, return_address@) == Some(
                    s@,
                ),
                None => spec_write_call(function_name@, args as int, return_address@) == None::<
                    Seq<char>,
                >,
            },
    {
        if args < 0 {
            return None;
        }
        let backtrack_count: u32 = 5 + (args as u32);
        let bt = usize_to_string(backtrack_count as usize);
        let mut s = String::new();
        s.append("@");
        s.append(return_address);
        s.append("\nD=A\n@SP\nA=M\nM=D\n@SP\nM=M+1\n");
        s.append("@LCL\n");
        s.append("D=M\n@SP\nA=M\nM=D\n@SP\nM=M+1\n");
        s.append("@ARG\n");
        s.append("D=M\n@SP\nA=M\nM=D\n@SP\nM=M+1\n");
        s.append("@THIS\n");
        s.append("D=M\n@SP\nA=M\nM=D\n@SP\nM=M+1\n");
        s.append("@THAT\n");
        s.append("D=M\n@SP\nA=M\nM=D\n@SP\nM=M+1\n");
        s.append("@");
        s.append(bt.as_str());
        s.append("\nD=A\n@SP\nD=M-D\n@ARG\nM=D\n");
        s.append("@SP\nD=M\n@LCL\nM=D\n");
        s.append("@");
        s.append(function_name);
        s.append("\n0;JMP\n");
        s.append("(");
        s.append(return_address);
        s.append(")");
        proof {
            assert(s@ =~= "@"@ + return_address@ + "\nD=A\n@SP\nA=M\nM=D\n@SP\nM=M+1\n"@
                + "@LCL\n"@ + save_segment_text() + "@ARG\n"@ + save_segment_text() + "@THIS\n"@
                + save_segment_text() + "@THAT\n"@ + save_segment_text() + "@"@ + dec_str(
                5 + args as int,
            ) + "\nD=A\n@SP\nD=M-D\n@ARG\nM=D\n"@ + "@SP\nD=M\n@LCL\nM=D\n"@ + "@"@
                + function_name@ + "\n0;JMP\n"@ + "("@ + return_address@ + ")"@);
        }
        Some(s)
    }

    /// Emits the return protocol: restore the caller's frame and jump to the
    /// saved return address.
    pub fn write_return(&self) -> (r: Option<String>)
        ensures
            match r {
                Some(s) => s@ == spec_write_return(),
                None => false,
            },
    {
        let mut s = String::new();
        s.append("@LCL\nD=M\n@R13\nM=D\n");
        s.append("@5\nA=D-A\nD=M\n@R14\nM=D\n");
        s.append("@SP\nA=M-1\nD=M\n@ARG\nA=M\nM=D\n");
        s.append("@ARG\nD=M+1\n@SP\nM=D\n");
        s.append("@R13\nAM=M-1\nD=M\n");
        s.append("@THAT\nM=D\n");
        s.append("@R13\nAM=M-1\nD=M\n");
        s.append("@THIS\nM=D\n");
        s.append("@R13\nAM=M-1\nD=M\n");
        s.append("@ARG\nM=D\n");
        s.append("@R13\nAM=M-1\nD=M\n");
        s.append("@LCL\nM=D\n");
        s.append("@R14\nA=M\n0;JMP");
        proof {
            assert(s@ =~= spec_write_return());
        }
        Some(s)
    }

    /// Emits the code that reads the addressed value and pushes it onto the
    /// global stack.
    pub fn write_push(
        &self,
        segment_value: &str,
        index_value: &str,
        segment_list: &Vec<String>,
        file_name: &str,
    ) -> (r: Option<String>)
        ensures
            match r {
                Some(s) => spec_write_push(
                    segment_value@,
                    index_value@,
                    seq_views(segment_list@),
                    file_name@,
                ) == Some(s@),
                None => spec_write_push(
                    segment_value@,
                    index_value@,
                    seq_views(segment_list@),
                    file_name@,
                ) == None::<Seq<char>>,
            },
    {
        if !contains_str(segment_list, segment_value) {
            return None;
        }
        match parse_i16(index_value) {
            Some(v) => {
                if v < 0 {
                    return None;
                }
            },
            None => {
                return None;
            },
        }
        let upper = to_upper(segment_value);
        let mut s = String::new();
        if str_eq(upper.as_str(), "CONSTANT") {
            s.append("@");
            s.append(index_value);
            s.append("\nD=A\n");
            proof {
                assert(s@ =~= "@"@ + index_value@ + "\nD=A\n"@);
            }
        } else if str_eq(upper.as_str(), "STATIC") {
            s.append("@");
            s.append(file_name);
            s.append(".");
            s.append(index_value);
            s.append("\nD=M\n");
            proof {
                assert(s@ =~= "@"@ + file_name@ + "."@ + index_value@ + "\nD=M\n"@);
            }
        } else if str_eq(upper.as_str(), "POINTER") {
            if str_eq(index_value, "0") {
                s.append("@THIS\n");
                s.append("D=M\n");
                proof {
                    assert(s@ =~= "@THIS\n"@ + "D=M\n"@);
                }
            } else if str_eq(index_value, "1") {
                s.append("@THAT\n");
                s.append("D=M\n");
                proof {
                    assert(s@ =~= "@THAT\n"@ + "D=M\n"@);
                }
            } else {
                return None;
            }
        } else if str_eq(upper.as_str(), "TEMP") {
            s.append("@");
            s.append(index_value);
            s.append("\nD=A\n@5\nA=D+A\nD=M\n");
            proof {
                assert(s@ =~= "@"@ + index_value@ + "\nD=A\n@5\nA=D+A\nD=M\n"@);
            }
        } else if str_eq(upper.as_str(), "LOCAL") {
            s.append("@LCL\nD=M\n@");
            s.append(index_value);
            s.append("\nA=D+A\nD=M\n");
            proof {
                assert(s@ =~= "@LCL\nD=M\n@"@ + index_value@ + "\nA=D+A\nD=M\n"@);
            }
        } else if str_eq(upper.as_str(), "ARGUMENT") {
            s.append("@ARG\nD=M\n@");
            s.append(index_value);
            s.append("\nA=D+A\nD=M\n");
            proof {
                assert(s@ =~= "@ARG\nD=M\n@"@ + index_value@ + "\nA=D+A\nD=M\n"@);
            }
        } else {
            s.append("@");
            s.append(upper.as_str());
            s.append("\nD=M\n@");
            s.append(index_value);
            s.append("\nA=D+A\nD=M\n");
            proof {
                assert(s@ =~= "@"@ + spec_to_upper(segment_value@) + "\nD=M\n@"@ + index_value@
                    + "\nA=D+A\nD=M\n"@);
            }
        }
        s.append("@SP\nA=M\nM=D\n@SP\nM=M+1");
        Some(s)
    }

    /// Emits the code that pops the top of the global stack into the
    /// addressed location.
    pub fn write_pop(
        &self,
        segment_value: &str,
        index_value: &str,
        segment_list: &Vec<String>,
        file_name: &str,
    ) -> (r: Option<String>)
        ensures
            match r {
                Some(s) => spec_write_pop(
                    segment_value@,
                    index_value@,
                    seq_views(segment_list@),
                    file_name@,
                ) == Some(s@),
                None => spec_write_pop(
                    segment_value@,
                    index_value@,
                    seq_views(segment_list@),
                    file_name@,
                ) == None::<Seq<char>>,
            },
    {
        if !contains_str(segment_list, segment_value) {
            return None;
        }
        match parse_i16(index_value) {
            Some(v) => {
                if v < 0 {
                    return None;
                }
            },
            None => {
                return None;
            },
        }
        let upper = to_upper(segment_value);
        let mut s = String::new();
        if str_eq(upper.as_str(), "STATIC") {
            s.append("@SP\nAM=M-1\nD=M\n");
            s.append("@");
            s.append(file_name);
            s.append(".");
            s.append(index_value);
            s.append("\nM=D");
            proof {
                assert(s@ =~= deref_sp_text() + "@"@ + file_name@ + "."@ + index_value@ + "\nM=D"@);
            }
        } else if str_eq(upper.as_str(), "POINTER") {
            if str_eq(index_value, "0") {
                s.append("@SP\nAM=M-1\nD=M\n");
                s.append("@THIS\n");
                s.append("M=D");
                proof {
                    assert(s@ =~= deref_sp_text() + "@THIS\n"@ + "M=D"@);
                }
            } else if str_eq(index_value, "1") {
                s.append("@SP\nAM=M-1\nD=M\n");
                s.append("@THAT\n");
                s.append("M=D");
                proof {
                    assert(s@ =~= deref_sp_text() + "@THAT\n"@ + "M=D"@);
                }
            } else {
                return None;
            }
        } else if str_eq(upper.as_str(), "TEMP") {
            s.append("@5\nD=A\n@");
            s.append(index_value);
            s.append("\nD=D+A\n@R13\nM=D\n");
            s.append("@SP\nAM=M-1\nD=M\n");
            s.append("@R13\nA=M\nM=D");
            proof {
                assert(s@ =~= "@5\nD=A\n@"@ + index_value@ + "\nD=D+A\n@R13\nM=D\n"@
                    + deref_sp_text() + "@R13\nA=M\nM=D"@);
            }
        } else if str_eq(upper.as_str(), "LOCAL") {
            s.append("@");
            s.append(index_value);
            s.append("\nD=A\n@LCL\nD=D+M\n@R13\nM=D\n");
            s.append("@SP\nAM=M-1\nD=M\n");
            s.append("@R13\nA=M\nM=D");
            proof {
                assert(s@ =~= "@"@ + index_value@ + "\nD=A\n@LCL\nD=D+M\n@R13\nM=D\n"@
                    + deref_sp_text() + "@R13\nA=M\nM=D"@);
            }
        } else if str_eq(upper.as_str(), "ARGUMENT") {
            s.append("@");
            s.append(index_value);
            s.append("\nD=A\n@ARG\nD=D+M\n@R13\nM=D\n");
            s.append("@SP\nAM=M-1\nD=M\n");
            s.append("@R13\nA=M\nM=D");
            proof {
                assert(s@ =~= "@"@ + index_value@ + "\nD=A\n@ARG\nD=D+M\n@R13\nM=D\n"@
                    + deref_sp_text() + "@R13\nA=M\nM=D"@);
            }
        } else {
            s.append("@");
            s.append(index_value);
            s.append("\nD=A\n@");
            s.append(upper.as_str());
            s.append("\nD=D+M\n@R13\nM=D\n");
            s.append("@SP\nAM=M-1\nD=M\n");
            s.append("@R13\nA=M\nM=D");
            proof {
                assert(s@ =~= "@"@ + index_value@ + "\nD=A\n@"@ + spec_to_upper(segment_value@)
                    + "\nD=D+M\n@R13\nM=D\n"@ + deref_sp_text() + "@R13\nA=M\nM=D"@);
            }
        }
        Some(s)
    }

    /// Emits the expansion of one arithmetic command under the given line
    /// counter.
    pub fn write_arithmetic(
        &self,
        current_command: &str,
        segment_list: &Vec<String>,
        line_number: usize,
    ) -> (r: Option<String>)
        ensures
            match r {
                Some(s) => spec_write_arithmetic(
                    current_command@,
                    seq_views(segment_list@),
                    line_number as nat,
                ) == Some(s@),
                None => spec_write_arithmetic(
                    current_command@,
                    seq_views(segment_list@),
                    line_number as nat,
                ) == None::<Seq<char>>,
            },
    {
        if !contains_str(segment_list, current_command) {
            return None;
        }
        let mut s = String::new();
        if str_eq(current_command, "add") {
            s.append("@SP\nAM=M-1\nD=M\n");
            s.append("A=A-1\nM=D+M");
            proof {
                assert(s@ =~= deref_sp_text() + "A=A-1\nM=D+M"@);
            }
            Some(s)
        } else if str_eq(current_command, "sub") {
            s.append("@SP\nAM=M-1\nD=M\n");
            s.append("A=A-1\nM=M-D");
            proof {
                assert(s@ =~= deref_sp_text() + "A=A-1\nM=M-D"@);
            }
            Some(s)
        } else if str_eq(current_command, "neg") {
            s.append("@SP\nA=M-1\nM=-M");
            proof {
                assert(s@ =~= "@SP\nA=M-1\nM=-M"@);
            }
            Some(s)
        } else if str_eq(current_command, "eq") {
            let n = usize_to_string(line_number);
            s.append("@SP\nAM=M-1\nD=M\n");
            s.append("A=A-1\nD=M-D\n@");
            s.append("equal.");
            s.append(n.as_str());
            s.append("\nD;JEQ\nD=0\n@");
            s.append("done.");
            s.append(n.as_str());
            s.append("\n0;JMP\n(");
            s.append("equal.");
            s.append(n.as_str());
            s.append(")\nD=-1\n(");
            s.append("done.");
            s.append(n.as_str());
            s.append(")\n");
            s.append("@SP\nA=M-1\nM=D");
            proof {
                assert(s@ =~= cmp_expansion("equal."@, "\nD;JEQ\nD=0\n@"@, line_number as nat));
            }
            Some(s)
        } else if str_eq(current_command, "gt") {
            let n = usize_to_string(line_number);
            s.append("@SP\nAM=M-1\nD=M\n");
            s.append("A=A-1\nD=M-D\n@");
            s.append("greater.");
            s.append(n.as_str());
            s.append("\nD;JGT\nD=0\n@");
            s.append("done.");
            s.append(n.as_str());
            s.append("\n0;JMP\n(");
            s.append("greater.");
            s.append(n.as_str());
            s.append(")\nD=-1\n(");
            s.append("done.");
            s.append(n.as_str());
            s.append(")\n");
            s.append("@SP\nA=M-1\nM=D");
            proof {
                assert(s@ =~= cmp_expansion("greater."@, "\nD;JGT\nD=0\n@"@, line_number as nat));
            }
            Some(s)
        } else if str_eq(current_command, "lt") {
            let n = usize_to_string(line_number);
            s.append("@SP\nAM=M-1\nD=M\n");
            s.append("A=A-1\nD=M-D\n@");
            s.append("lesser.");
            s.append(n.as_str());
            s.append("\nD;JLT\nD=0\n@");
            s.append("done.");
            s.append(n.as_str());
            s.append("\n0;JMP\n(");
            s.append("lesser.");
            s.append(n.as_str());
            s.append(")\nD=-1\n(");
            s.append("done.");
            s.append(n.as_str());
            s.append(")\n");
            s.append("@SP\nA=M-1\nM=D");
            proof {
                assert(s@ =~= cmp_expansion("lesser."@, "\nD;JLT\nD=0\n@"@, line_number as nat));
            }
            Some(s)
        } else if str_eq(current_command, "and") {
            s.append("@SP\nAM=M-1\nD=M\n");
            s.append("A=A-1\nM=D&M");
            proof {
                assert(s@ =~= deref_sp_text() + "A=A-1\nM=D&M"@);
            }
            Some(s)
        } else if str_eq(current_command, "or") {
            s.append("@SP\nAM=M-1\nD=M\n");
            s.append("A=A-1\nM=D|M");
            proof {
                assert(s@ =~= deref_sp_text() + "A=A-1\nM=D|M"@);
            }
            Some(s)
        } else if str_eq(current_command, "not") {
            s.append("@SP\nA=M-1\nM=!M");
            proof {
                assert(s@ =~= "@SP\nA=M-1\nM=!M"@);
            }
            Some(s)
        } else {
            None
        }
    }
}

/// The fatal diagnostic for a line that matches no command surface form.
pub open spec fn msg_invalid(line: Seq<char>) -> Seq<char> {
    "Command is invalid, please check: "@ + line
}

/// The fatal diagnostic for a recognised command whose operands are absent
/// or malformed.
pub open spec fn msg_bad_args(line: Seq<char>) -> Seq<char> {
    "Command arguments are invalid, please check: "@ + line
}

/// The fatal diagnostic for a command whose operands fall outside an
/// emitter's valid domain.
pub open spec fn msg_failed(line: Seq<char>) -> Seq<char> {
    "Command translation failed for current command: "@ + line
}

/// What emitting one command does: either assembly text plus the call-site
/// stack afterwards, or a diagnostic plus the stack as the failure left it.
pub enum StepOutcome {
    Emitted { piece: Seq<char>, stack: Seq<Seq<char>> },
    Failed { msg: Seq<char>, stack: Seq<Seq<char>> },
}

/// What translating a command sequence does: the concatenated output and
/// final stack, or the first diagnostic and the stack at that point.
pub enum TransOutcome {
    Done { text: Seq<char>, stack: Seq<Seq<char>> },
    Aborted { msg: Seq<char>, stack: Seq<Seq<char>> },
}

/// One step of the translation fold: classify the line, emit its assembly,
/// and update the call-site stack when the line is a call.
pub open spec fn spec_step(
    line: Seq<char>,
    t: TableView,
    file: Seq<char>,
    stack: Seq<Seq<char>>,
    ln: nat,
) -> StepOutcome {
    match spec_classify(line, t) {
        None => StepOutcome::Failed { msg: msg_invalid(line), stack },
        Some(k) => match k {
            VMCommandType::Carithmetic => match spec_write_arithmetic(line, t.arithmetic, ln) {
                Some(p) => StepOutcome::Emitted { piece: p, stack },
                None => StepOutcome::Failed { msg: msg_failed(line), stack },
            },
            VMCommandType::Cpush => match (
                spec_arg1(line, VMCommandType::Cpush),
                spec_arg2(line, VMCommandType::Cpush),
            ) {
                (Some(seg), Some(idx)) => match spec_write_push(seg, idx, t.push_segments, file) {
                    Some(p) => StepOutcome::Emitted { piece: p, stack },
                    None => StepOutcome::Failed { msg: msg_failed(line), stack },
                },
                _ => StepOutcome::Failed { msg: msg_bad_args(line), stack },
            },
            VMCommandType::Cpop => match (
                spec_arg1(line, VMCommandType::Cpop),
                spec_arg2(line, VMCommandType::Cpop),
            ) {
                (Some(seg), Some(idx)) => match spec_write_pop(seg, idx, t.pop_segments, file) {
                    Some(p) => StepOutcome::Emitted { piece: p, stack },
                    None => StepOutcome::Failed { msg: msg_failed(line), stack },
                },
                _ => StepOutcome::Failed { msg: msg_bad_args(line), stack },
            },
            VMCommandType::Clabel => match spec_write_label(line, spec_label_context(stack)) {
                Some(p) => StepOutcome::Emitted { piece: p, stack },
                None => StepOutcome::Failed { msg: msg_failed(line), stack },
            },
            VMCommandType::Cgoto => match spec_write_goto(line, spec_label_context(stack)) {
                Some(p) => StepOutcome::Emitted { piece: p, stack },
                None => StepOutcome::Failed { msg: msg_failed(line), stack },
            },
            VMCommandType::Cif => match spec_write_if(line, spec_label_context(stack)) {
                Some(p) => StepOutcome::Emitted { piece: p, stack },
                None => StepOutcome::Failed { msg: msg_failed(line), stack },
            },
            VMCommandType::Ccall => match (
                spec_arg1(line, VMCommandType::Ccall),
                spec_arg2(line, VMCommandType::Ccall),
            ) {
                (Some(f), Some(a)) => {
                    let ra = spec_return_address(stack, file);
                    let stack2 = stack.push(f);
                    match spec_write_call(f, i16_str_val(a), ra) {
                        Some(p) => StepOutcome::Emitted { piece: p, stack: stack2 },
                        None => StepOutcome::Failed { msg: msg_failed(line), stack: stack2 },
                    }
                },
                _ => StepOutcome::Failed { msg: msg_bad_args(line), stack },
            },
            VMCommandType::Cfunction => match (
                spec_arg1(line, VMCommandType::Cfunction),
                spec_arg2(line, VMCommandType::Cfunction),
            ) {
                (Some(f), Some(a)) => match spec_write_function(f, i16_str_val(a)) {
                    Some(p) => StepOutcome::Emitted { piece: p, stack },
                    None => StepOutcome::Failed { msg: msg_failed(line), stack },
                },
                _ => StepOutcome::Failed { msg: msg_bad_args(line), stack },
            },
            VMCommandType::Creturn => StepOutcome::Emitted { piece: spec_write_return(), stack },
        },
    }
}

/// The translation fold over a sequence of cleaned command lines, with the
/// line counter starting at `ln`: each emitted piece is followed by one
/// newline, and the first failure aborts with the stack it left behind.
pub open spec fn spec_translate_lines(
    lines: Seq<Seq<char>>,
    t: TableView,
    file: Seq<char>,
    stack: Seq<Seq<char>>,
    ln: nat,
) -> TransOutcome
    decreases lines.len(),
{
    if lines.len() == 0 {
        TransOutcome::Done { text: Seq::empty(), stack }
    } else {
        match spec_step(lines[0], t, file, stack, ln) {
            StepOutcome::Failed { msg, stack: st } => TransOutcome::Aborted { msg, stack: st },
            StepOutcome::Emitted { piece, stack: st } => match spec_translate_lines(
                lines.drop_first(),
                t,
                file,
                st,
                ln + 1,
            ) {
                TransOutcome::Done { text, stack: st2 } => TransOutcome::Done {
                    text: piece + "\n"@ + text,
                    stack: st2,
                },
                TransOutcome::Aborted { msg, stack: st2 } => TransOutcome::Aborted {
                    msg,
                    stack: st2,
                },
            },
        }
    }
}

/// What translating one unit's cleaned text does, starting from line
/// counter zero.
pub open spec fn spec_translate(
    text: Seq<char>,
    t: TableView,
    file: Seq<char>,
    stack: Seq<Seq<char>>,
) -> TransOutcome {
    spec_translate_lines(spec_lines(text), t, file, stack, 0)
}

fn err_msg(prefix: &str, current_command: &str) -> (r: String)
    ensures
        r@ == prefix@ + current_command@,
{
    let mut m = String::from_str(prefix);
    m.append(current_command);
    m
}

fn count_occurrences(stack: &Vec<String>, x: &String) -> (r: usize)
    ensures
        r as nat == count_eq(seq_views(stack@), x@),
{
    let n = stack.len();
    let mut i: usize = 0;
    let mut cnt: usize = 0;
    proof {
        assert(seq_views(stack@).subrange(0, 0) =~= Seq::<Seq<char>>::empty());
    }
    while i < n
        invariant
            n == stack@.len(),
            i <= n,
            cnt <= i,
            cnt as nat == count_eq(seq_views(stack@).subrange(0, i as int), x@),
        decreases n - i,
    {
        let ghost pre = seq_views(stack@).subrange(0, i as int);
        let ghost post = seq_views(stack@).subrange(0, i + 1);
        proof {
            assert(post.drop_last() =~= pre);
            assert(post.last() == seq_views(stack@)[i as int]);
            assert(seq_views(stack@)[i as int] == stack@[i as int]@);
        }
        if str_eq(stack[i].as_str(), x.as_str()) {
            cnt += 1;
        }
        i += 1;
    }
    proof {
        assert(seq_views(stack@).subrange(0, n as int) =~= seq_views(stack@));
    }
    cnt
}

impl VmCodeWriter {
    /// Translates one cleaned command: classifies it, emits its assembly,
    /// and records the callee on the call-site stack when it is a call.
    fn translate_command(
        &self,
        current_command: &str,
        command_table: &CommandTable,
        file_name: &str,
        function_call_stack: &mut Vec<String>,
        line_number: usize,
    ) -> (r: Result<String, String>)
        ensures
            match r {
                Result::Ok(p) => spec_step(
                    current_command@,
                    command_table@,
                    file_name@,
                    seq_views(old(function_call_stack)@),
                    line_number as nat,
                ) == (StepOutcome::Emitted {
                    piece: p@,
                    stack: seq_views(final(function_call_stack)@),
                }),
                Result::Err(m) => spec_step(
                    current_command@,
                    command_table@,
                    file_name@,
                    seq_views(old(function_call_stack)@),
                    line_number as nat,
                ) == (StepOutcome::Failed {
                    msg: m@,
                    stack: seq_views(final(function_call_stack)@),
                }),
            },
    {
        match self.code_parser.command_type(current_command, command_table) {
            None => Err(err_msg("Command is invalid, please check: ", current_command)),
            Some(command_type) => match command_type {
                VMCommandType::Carithmetic => {
                    match self.write_arithmetic(
                        current_command,
                        &command_table.arithmetic,
                        line_number,
                    ) {
                        Some(translated_command) => Ok(translated_command),
                        None => Err(
                            err_msg(
                                "Command translation failed for current command: ",
                                current_command,
                            ),
                        ),
                    }
                },
                VMCommandType::Cpush => {
                    let segment = self.code_parser.arg1(current_command, &VMCommandType::Cpush);
                    let index = self.code_parser.arg2(current_command, &VMCommandType::Cpush);
                    match (segment, index) {
                        (Some(segment_value), Some(index_value)) => {
                            match self.write_push(
                                segment_value,
                                index_value,
                                &command_table.push_segments,
                                file_name,
                            ) {
                                Some(translated_command) => Ok(translated_command),
                                None => Err(
                                    err_msg(
                                        "Command translation failed for current command: ",
                                        current_command,
                                    ),
                                ),
                            }
                        },
                        _ => Err(
                            err_msg(
                                "Command arguments are invalid, please check: ",
                                current_command,
                            ),
                        ),
                    }
                },
                VMCommandType::Cpop => {
                    let segment = self.code_parser.arg1(current_command, &VMCommandType::Cpop);
                    let index = self.code_parser.arg2(current_command, &VMCommandType::Cpop);
                    match (segment, index) {
                        (Some(segment_value), Some(index_value)) => {
                            match self.write_pop(
                                segment_value,
                                index_value,
                                &command_table.pop_segments,
                                file_name,
                            ) {
                                Some(translated_command) => Ok(translated_command),
                                None => Err(
                                    err_msg(
                                        "Command translation failed for current command: ",
                                        current_command,
                                    ),
                                ),
                            }
                        },
                        _ => Err(
                            err_msg(
                                "Command arguments are invalid, please check: ",
                                current_command,
                            ),
                        ),
                    }
                },
                VMCommandType::Clabel => {
                    let function_context = self.current_context(function_call_stack);
                    match self.write_label(current_command, function_context.as_str()) {
                        Some(translated_command) => Ok(translated_command),
                        None => Err(
                            err_msg(
                                "Command translation failed for current command: ",
                                current_command,
                            ),
                        ),
                    }
                },
                VMCommandType::Cgoto => {
                    let function_context = self.current_context(function_call_stack);
                    match self.write_goto(current_command, function_context.as_str()) {
                        Some(translated_command) => Ok(translated_command),
                        None => Err(
                            err_msg(
                                "Command translation failed for current command: ",
                                current_command,
                            ),
                        ),
                    }
                },
                VMCommandType::Cif => {
                    let function_context = self.current_context(function_call_stack);
                    match self.write_if(current_command, function_context.as_str()) {
                        Some(translated_command) => Ok(translated_command),
                        None => Err(
                            err_msg(
                                "Command translation failed for current command: ",
                                current_command,
                            ),
                        ),
                    }
                },
                VMCommandType::Ccall => {
                    let fn_name = self.code_parser.arg1(current_command, &VMCommandType::Ccall);
                    let args = self.code_parser.arg2(current_command, &VMCommandType::Ccall);
                    match (fn_name, args) {
                        (Some(function_name), Some(args_text)) => {
                            let ghost stack0 = seq_views(function_call_stack@);
                            let return_address: String;
                            if function_call_stack.len() > 0 {
                                let j = function_call_stack.len() - 1;
                                let previous_function = function_call_stack[j].clone();
                                proof {
                                    assert(previous_function@ == seq_views(
                                        function_call_stack@,
                                    ).last());
                                }
                                let call_count = count_occurrences(
                                    function_call_stack,
                                    &previous_function,
                                );
                                let mut ra = previous_function;
                                ra.append("$ret.");
                                let num = usize_to_string(call_count);
                                ra.append(num.as_str());
                                proof {
                                    assert(ra@ == spec_return_address(stack0, file_name@));
                                }
                                return_address = ra;
                            } else {
                                let mut ra = String::from_str(file_name);
                                ra.append(".$ret");
                                proof {
                                    assert(ra@ == spec_return_address(stack0, file_name@));
                                }
                                return_address = ra;
                            }
                            function_call_stack.push(function_name.to_owned());
                            proof {
                                assert(seq_views(function_call_stack@) =~= stack0.push(
                                    function_name@,
                                ));
                            }
                            let args_value: i16 = match parse_i16(args_text) {
                                Some(v) => v,
                                None => {
                                    proof {
                                        assert(false);
                                    }
                                    vstd::pervasive::unreached()
                                },
                            };
                            match self.write_call(
                                function_name,
                                args_value,
                                return_address.as_str(),
                            ) {
                                Some(translated_command) => Ok(translated_command),
                                None => Err(
                                    err_msg(
                                        "Command translation failed for current command: ",
                                        current_command,
                                    ),
                                ),
                            }
                        },
                        _ => Err(
                            err_msg(
                                "Command arguments are invalid, please check: ",
                                current_command,
                            ),
                        ),
                    }
                },
                VMCommandType::Cfunction => {
                    let fn_name = self.code_parser.arg1(current_command, &VMCommandType::Cfunction);
                    let local_vars = self.code_parser.arg2(
                        current_command,
                        &VMCommandType::Cfunction,
                    );
                    match (fn_name, local_vars) {
                        (Some(function_name), Some(local_vars_text)) => {
                            let local_vars_value: i16 = match parse_i16(local_vars_text) {
                                Some(v) => v,
                                None => {
                                    proof {
                                        assert(false);
                                    }
                                    vstd::pervasive::unreached()
                                },
                            };
                            match self.write_function(function_name, local_vars_value) {
                                Some(translated_command) => Ok(translated_command),
                                None => Err(
                                    err_msg(
                                        "Command translation failed for current command: ",
                                        current_command,
                                    ),
                                ),
                            }
                        },
                        _ => Err(
                            err_msg(
                                "Command arguments are invalid, please check: ",
                                current_command,
                            ),
                        ),
                    }
                },
                VMCommandType::Creturn => {
                    match self.write_return() {
                        Some(translated_command) => Ok(translated_command),
                        None => Err(
                            err_msg(
                                "Command translation failed for current command: ",
                                current_command,
                            ),
                        ),
                    }
                },
            },
        }
    }

    /// The label-scoping context: the top of the call-site stack, or the
    /// empty string when the stack is empty.
    fn current_context(&self, function_call_stack: &Vec<String>) -> (r: String)
        ensures
            r@ == spec_label_context(seq_views(function_call_stack@)),
    {
        if function_call_stack.len() > 0 {
            let j = function_call_stack.len() - 1;
            let r = function_call_stack[j].clone();
            proof {
                assert(r@ == seq_views(function_call_stack@).last());
            }
            r
        } else {
            String::new()
        }
    }

    /// Translates this unit's cleaned command text, one command per line, in
    /// order, threading the run-wide call-site stack through every call
    /// emission.  Returns the concatenated assembly, or the diagnostic for
    /// the first invalid or malformed command, which aborts the run.
    pub fn translate(
        &self,
        command_table: &CommandTable,
        file_name: &str,
        function_call_stack: &mut Vec<String>,
    ) -> (r: Result<String, String>)
        ensures
            match r {
                Result::Ok(out) => spec_translate(
                    self@,
                    command_table@,
                    file_name@,
                    seq_views(old(function_call_stack)@),
                ) == (TransOutcome::Done {
                    text: out@,
                    stack: seq_views(final(function_call_stack)@),
                }),
                Result::Err(m) => spec_translate(
                    self@,
                    command_table@,
                    file_name@,
                    seq_views(old(function_call_stack)@),
                ) == (TransOutcome::Aborted {
                    msg: m@,
                    stack: seq_views(final(function_call_stack)@),
                }),
            },
    {
        let lines = split_lines(self.cleaned_vm_commands.as_str());
        let ghost all = seq_views(lines@);
        let ghost table = command_table@;
        let ghost file = file_name@;
        let ghost stack0 = seq_views(function_call_stack@);
        let mut translated_vm_code = String::new();
        let n = lines.len();
        let mut i: usize = 0;
        proof {
            assert(all.subrange(0, n as int) =~= all);
            assert(translated_vm_code@ + Seq::<char>::empty() =~= Seq::<char>::empty());
        }
        while i < n
            invariant
                n == lines@.len(),
                i <= n,
                all == seq_views(lines@),
                all == spec_lines(self@),
                table == command_table@,
                file == file_name@,
                stack0 == seq_views(old(function_call_stack)@),
                spec_translate_lines(all, table, file, stack0, 0) == (match spec_translate_lines(
                    all.subrange(i as int, n as int),
                    table,
                    file,
                    seq_views(function_call_stack@),
                    i as nat,
                ) {
                    TransOutcome::Done { text, stack } => TransOutcome::Done {
                        text: translated_vm_code@ + text,
                        stack,
                    },
                    TransOutcome::Aborted { msg, stack } => TransOutcome::Aborted { msg, stack },
                }),
            decreases n - i,
        {
            let ghost suffix = all.subrange(i as int, n as int);
            let ghost pre_stack = seq_views(function_call_stack@);
            let ghost out0 = translated_vm_code@;
            proof {
                assert(suffix[0] == all[i as int]);
                assert(suffix.drop_first() =~= all.subrange(i + 1, n as int));
                assert(lines@[i as int]@ == all[i as int]);
            }
            match self.translate_command(
                lines[i].as_str(),
                command_table,
                file_name,
                function_call_stack,
                i,
            ) {
                Ok(piece) => {
                    translated_vm_code.append(piece.as_str());
                    translated_vm_code.append("\n");
                    proof {
                        let rest = spec_translate_lines(
                            all.subrange(i + 1, n as int),
                            table,
                            file,
                            seq_views(function_call_stack@),
                            (i + 1) as nat,
                        );
                        match rest {
                            TransOutcome::Done { text, stack } => {
                                assert(translated_vm_code@ + text =~= out0 + (piece@ + "\n"@
                                    + text));
                            },
                            TransOutcome::Aborted { msg, stack } => {
                            },
                        }
                    }
                    i += 1;
                },
                Err(m) => {
                    proof {
                        assert(spec_translate_lines(suffix, table, file, pre_stack, i as nat)
                            == (TransOutcome::Aborted {
                            msg: m@,
                            stack: seq_views(function_call_stack@),
                        }));
                    }
                    return Err(m);
                },
            }
        }
        proof {
            assert(all.subrange(n as int, n as int) =~= Seq::<Seq<char>>::empty());
            assert(translated_vm_code@ + Seq::<char>::empty() =~= translated_vm_code@);
        }
        Ok(translated_vm_code)
    }
}

/// Sequences that agree on a common prefix and on the whole agree on the
/// remainder.
proof fn lemma_concat_cancel_left(a: Seq<char>, x: Seq<char>, y: Seq<char>)
    requires
        a + x == a + y,
    ensures
        x == y,
{
    assert((a + x).len() == a.len() + x.len());
    assert((a + y).len() == a.len() + y.len());
    assert(x.len() == y.len());
    assert forall|i: int| 0 <= i < x.len() implies x[i] == y[i] by {
        assert(0 <= i < y.len());
        assert((a + x)[a.len() + i] == x[i]);
        assert((a + y)[a.len() + i] == y[i]);
    }
    assert(x =~= y);
}

/// The four kind words that tag the internal jump targets of comparison
/// expansions.
pub open spec fn is_cmp_label_kind(k: Seq<char>) -> bool {
    k == "equal."@ || k == "greater."@ || k == "lesser."@ || k == "done."@
}

/// Uniqueness of comparison helper labels: within one translation unit the
/// generator hands every emitted command a fresh line counter, and any two
/// internal jump-target names tagged with distinct counters differ, whatever
/// their kind words.  So the helper labels of two comparison commands of one
/// unit never collide.
pub proof fn lemma_comparison_labels_distinct(kind1: Seq<char>, n1: nat, kind2: Seq<char>, n2: nat)
    requires
        is_cmp_label_kind(kind1),
        is_cmp_label_kind(kind2),
        n1 != n2,
    ensures
        cmp_label(kind1, n1) != cmp_label(kind2, n2),
{
    reveal_strlit("equal.");
    reveal_strlit("greater.");
    reveal_strlit("lesser.");
    reveal_strlit("done.");
    lemma_dec_str_injective(n1 as int, n2 as int);
    if cmp_label(kind1, n1) == cmp_label(kind2, n2) {
        if kind1 == kind2 {
            lemma_concat_cancel_left(kind1, dec_str(n1 as int), dec_str(n2 as int));
            assert(false);
        } else {
            assert(cmp_label(kind1, n1)[0] == kind1[0]);
            assert(cmp_label(kind2, n2)[0] == kind2[0]);
            assert(false);
        }
    }
}

/// Occurrence counts add up across concatenation.
proof fn lemma_count_eq_concat(a: Seq<Seq<char>>, b: Seq<Seq<char>>, x: Seq<char>)
    ensures
        count_eq(a + b, x) == count_eq(a, x) + count_eq(b, x),
    decreases b.len(),
{
    if b.len() == 0 {
        assert(a + b =~= a);
    } else {
        lemma_count_eq_concat(a, b.drop_last(), x);
        assert((a + b).drop_last() =~= a + b.drop_last());
        assert((a + b).last() == b.last());
    }
}

/// Return-address uniqueness: between two call emissions that see the same
/// top-of-stack context, the call-site stack has only grown, and the later
/// stack ends in that context again, so the context's occurrence count has
/// strictly increased; the two generated return-address names therefore
/// differ.
pub proof fn lemma_return_addresses_distinct(s1: Seq<Seq<char>>, s2: Seq<Seq<char>>, ctx: Seq<char>)
    requires
        0 < s1.len() < s2.len(),
        s1.last() == ctx,
        s2.last() == ctx,
        s2.subrange(0, s1.len() as int) == s1,
    ensures
        count_eq(s1, ctx) < count_eq(s2, ctx),
        ret_label(ctx, count_eq(s1, ctx)) != ret_label(ctx, count_eq(s2, ctx)),
{
    let tail = s2.subrange(s1.len() as int, s2.len() as int);
    assert(s2 =~= s1 + tail);
    assert(tail.last() == s2.last());
    assert(count_eq(tail, ctx) >= 1) by {
        assert(count_eq(tail, ctx) == count_eq(tail.drop_last(), ctx) + 1);
    }
    lemma_count_eq_concat(s1, tail, ctx);
    lemma_dec_str_injective(count_eq(s1, ctx) as int, count_eq(s2, ctx) as int);
    if ret_label(ctx, count_eq(s1, ctx)) == ret_label(ctx, count_eq(s2, ctx)) {
        lemma_concat_cancel_left(
            ctx + "$ret."@,
            dec_str(count_eq(s1, ctx) as int),
            dec_str(count_eq(s2, ctx) as int),
        );
        assert(false);
    }
}

/// Emission is a pure function of the command text and the pre-call state:
/// translating equal cleaned texts with equal vocabulary tables, unit names
/// and incoming call-site stacks gives byte-for-byte equal outcomes.
pub proof fn lemma_translate_reproducible(
    text1: Seq<char>,
    table1: TableView,
    file1: Seq<char>,
    stack1: Seq<Seq<char>>,
    text2: Seq<char>,
    table2: TableView,
    file2: Seq<char>,
    stack2: Seq<Seq<char>>,
)
    requires
        text1 == text2,
        table1 == table2,
        file1 == file2,
        stack1 == stack2,
    ensures
        spec_translate(text1, table1, file1, stack1) == spec_translate(
            text2,
            table2,
            file2,
            stack2,
        ),
{
}

} // verus!
