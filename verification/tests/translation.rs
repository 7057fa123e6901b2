use vm_translator::get_command_symbol_table;
use vm_translator::VmCodeParser;
use vm_translator::VmCodeWriter;

fn translate_unit(source: &str, unit: &str, stack: &mut Vec<String>) -> Result<String, String> {
    let table = get_command_symbol_table();
    let parser = VmCodeParser::new();
    let cleaned = parser.clean_vm_code(String::from(source));
    let writer = VmCodeWriter::new(parser, cleaned);
    writer.translate(&table, unit, stack)
}

#[test]
fn symbol_table_holds_the_standard_vocabulary() {
    let table = get_command_symbol_table();
    assert_eq!(
        table.arithmetic,
        vec!["add", "sub", "neg", "eq", "gt", "lt", "and", "or", "not"]
    );
    assert_eq!(
        table.push_segments,
        vec!["constant", "local", "argument", "this", "that", "static", "temp", "pointer"]
    );
    assert_eq!(
        table.pop_segments,
        vec!["local", "argument", "this", "that", "static", "temp", "pointer"]
    );
    assert!(!table.pop_segments.iter().any(|s| s == "constant"));
}

#[test]
fn write_init_sets_up_the_stack_pointer() {
    let writer = VmCodeWriter::new(VmCodeParser::new(), String::new());
    assert_eq!(writer.write_init(), "@256\nD=A\n@SP\nM=D\n");
}

#[test]
fn end_terminator_jumps_to_itself() {
    let writer = VmCodeWriter::new(VmCodeParser::new(), String::new());
    let end = writer.write_end();
    assert_eq!(end, "(end_asm_file)\n@end_asm_file\n0;JMP");
    // The declared label and the jump target are the same symbol, and the
    // jump is unconditional: execution can never fall through the end.
    let mut lines = end.lines();
    let declared = lines.next().unwrap();
    let target = lines.next().unwrap();
    let jump = lines.next().unwrap();
    assert_eq!(declared, "(end_asm_file)");
    assert_eq!(target, "@end_asm_file");
    assert_eq!(jump, "0;JMP");
    assert!(lines.next().is_none());
}

#[test]
fn add_two_constants_emits_push_push_add() {
    let mut stack: Vec<String> = Vec::new();
    let out = translate_unit("push constant 7\npush constant 8\nadd", "Test", &mut stack).unwrap();
    assert_eq!(
        out,
        "@7\nD=A\n@SP\nA=M\nM=D\n@SP\nM=M+1\n\
         @8\nD=A\n@SP\nA=M\nM=D\n@SP\nM=M+1\n\
         @SP\nAM=M-1\nD=M\nA=A-1\nM=D+M\n"
    );
    assert!(stack.is_empty());
}

#[test]
fn pop_pointer_zero_stores_into_this_base() {
    let mut stack: Vec<String> = Vec::new();
    let out = translate_unit("push constant 10\npop pointer 0", "Test", &mut stack).unwrap();
    assert_eq!(
        out,
        "@10\nD=A\n@SP\nA=M\nM=D\n@SP\nM=M+1\n\
         @SP\nAM=M-1\nD=M\n@THIS\nM=D\n"
    );
}

#[test]
fn segment_addressing_modes() {
    let mut stack: Vec<String> = Vec::new();
    let out = translate_unit(
        "push static 5\npush temp 3\npush local 2\npush argument 1\npush this 4\npush that 6",
        "Unit",
        &mut stack,
    )
    .unwrap();
    assert_eq!(
        out,
        "@Unit.5\nD=M\n@SP\nA=M\nM=D\n@SP\nM=M+1\n\
         @3\nD=A\n@5\nA=D+A\nD=M\n@SP\nA=M\nM=D\n@SP\nM=M+1\n\
         @LCL\nD=M\n@2\nA=D+A\nD=M\n@SP\nA=M\nM=D\n@SP\nM=M+1\n\
         @ARG\nD=M\n@1\nA=D+A\nD=M\n@SP\nA=M\nM=D\n@SP\nM=M+1\n\
         @THIS\nD=M\n@4\nA=D+A\nD=M\n@SP\nA=M\nM=D\n@SP\nM=M+1\n\
         @THAT\nD=M\n@6\nA=D+A\nD=M\n@SP\nA=M\nM=D\n@SP\nM=M+1\n"
    );
    let out2 = translate_unit("pop static 2\npop temp 1\npop local 0", "Unit", &mut stack).unwrap();
    assert_eq!(
        out2,
        "@SP\nAM=M-1\nD=M\n@Unit.2\nM=D\n\
         @5\nD=A\n@1\nD=D+A\n@R13\nM=D\n@SP\nAM=M-1\nD=M\n@R13\nA=M\nM=D\n\
         @0\nD=A\n@LCL\nD=D+M\n@R13\nM=D\n@SP\nAM=M-1\nD=M\n@R13\nA=M\nM=D\n"
    );
}

#[test]
fn comparison_labels_use_the_line_counter() {
    let mut stack: Vec<String> = Vec::new();
    let out = translate_unit("eq\ngt\nlt", "Test", &mut stack).unwrap();
    assert!(out.contains("@equal.0\nD;JEQ"));
    assert!(out.contains("(equal.0)"));
    assert!(out.contains("(done.0)"));
    assert!(out.contains("@greater.1\nD;JGT"));
    assert!(out.contains("(done.1)"));
    assert!(out.contains("@lesser.2\nD;JLT"));
    assert!(out.contains("(done.2)"));
    // the full expansion of one comparison, exactly
    let mut stack2: Vec<String> = Vec::new();
    let one = translate_unit("eq", "Test", &mut stack2).unwrap();
    assert_eq!(
        one,
        "@SP\nAM=M-1\nD=M\nA=A-1\nD=M-D\n@equal.0\nD;JEQ\nD=0\n@done.0\n0;JMP\n\
         (equal.0)\nD=-1\n(done.0)\n@SP\nA=M-1\nM=D\n"
    );
}

#[test]
fn labels_scope_under_the_call_site_stack_top() {
    let mut stack: Vec<String> = Vec::new();
    let bare = translate_unit("label LOOP\ngoto LOOP\nif-goto LOOP", "Test", &mut stack).unwrap();
    assert_eq!(
        bare,
        "(LOOP)\n@LOOP\n0;JMP\n@SP\nAM=M-1\nD=M\n@LOOP\nD;JNE\n"
    );
    let mut stack2: Vec<String> = vec![String::from("Main.main")];
    let scoped =
        translate_unit("label LOOP\ngoto LOOP\nif-goto LOOP", "Test", &mut stack2).unwrap();
    assert_eq!(
        scoped,
        "(Main.main$LOOP)\n@Main.main$LOOP\n0;JMP\n\
         @SP\nAM=M-1\nD=M\n@Main.main$LOOP\nD;JNE\n"
    );
}

#[test]
fn function_declares_label_and_zeroes_locals() {
    let mut stack: Vec<String> = Vec::new();
    let none = translate_unit("function Main.sum 0", "Test", &mut stack).unwrap();
    assert_eq!(none, "(Main.sum)\n@0\nD=A\n");
    let two = translate_unit("function Main.two 2", "Test", &mut stack).unwrap();
    assert_eq!(
        two,
        "(Main.two)\n@0\nD=A\n@SP\nA=M\nM=D\n@SP\nM=M+1\n@SP\nA=M\nM=D\n@SP\nM=M+1\n"
    );
}

#[test]
fn call_saves_frame_and_declares_return_label() {
    let mut stack: Vec<String> = Vec::new();
    let out = translate_unit("call Main.sum 2", "Prog", &mut stack).unwrap();
    assert_eq!(
        out,
        "@Prog.$ret\nD=A\n@SP\nA=M\nM=D\n@SP\nM=M+1\n\
         @LCL\nD=M\n@SP\nA=M\nM=D\n@SP\nM=M+1\n\
         @ARG\nD=M\n@SP\nA=M\nM=D\n@SP\nM=M+1\n\
         @THIS\nD=M\n@SP\nA=M\nM=D\n@SP\nM=M+1\n\
         @THAT\nD=M\n@SP\nA=M\nM=D\n@SP\nM=M+1\n\
         @7\nD=A\n@SP\nD=M-D\n@ARG\nM=D\n\
         @SP\nD=M\n@LCL\nM=D\n\
         @Main.sum\n0;JMP\n\
         (Prog.$ret)\n"
    );
    assert_eq!(stack, vec![String::from("Main.sum")]);
}

#[test]
fn return_restores_the_caller_frame() {
    let mut stack: Vec<String> = Vec::new();
    let out = translate_unit("return", "Test", &mut stack).unwrap();
    assert_eq!(
        out,
        "@LCL\nD=M\n@R13\nM=D\n\
         @5\nA=D-A\nD=M\n@R14\nM=D\n\
         @SP\nA=M-1\nD=M\n@ARG\nA=M\nM=D\n\
         @ARG\nD=M+1\n@SP\nM=D\n\
         @R13\nAM=M-1\nD=M\n@THAT\nM=D\n\
         @R13\nAM=M-1\nD=M\n@THIS\nM=D\n\
         @R13\nAM=M-1\nD=M\n@ARG\nM=D\n\
         @R13\nAM=M-1\nD=M\n@LCL\nM=D\n\
         @R14\nA=M\n0;JMP\n"
    );
    assert!(stack.is_empty());
}

#[test]
fn return_addresses_number_repeated_calls_distinctly() {
    let mut stack: Vec<String> = Vec::new();
    let out = translate_unit("call A 0\ncall A 0\ncall A 0", "Main", &mut stack).unwrap();
    // first call: empty stack, unit-qualified fallback
    assert!(out.contains("(Main.$ret)"));
    // later calls: the top of the call-site stack is A, counted once, twice
    assert!(out.contains("@A$ret.1\n"));
    assert!(out.contains("(A$ret.1)"));
    assert!(out.contains("@A$ret.2\n"));
    assert!(out.contains("(A$ret.2)"));
    assert!(!out.contains("$ret.0"));
    assert!(!out.contains("$ret.3"));
    assert_eq!(stack, vec![String::from("A"); 3]);
}

#[test]
fn run_aborts_on_the_first_bad_command() {
    let mut stack: Vec<String> = Vec::new();
    // a push index must be a non-negative integer
    let e = translate_unit("push argument -1", "Test", &mut stack).unwrap_err();
    assert_eq!(
        e,
        "Command translation failed for current command: push argument -1"
    );
    // `constant` is absent from the pop vocabulary, so classification fails
    let e = translate_unit("pop constant 0", "Test", &mut stack).unwrap_err();
    assert_eq!(e, "Command is invalid, please check: pop constant 0");
    // a pointer index other than 0 or 1 fails emission
    let e = translate_unit("push pointer 2", "Test", &mut stack).unwrap_err();
    assert_eq!(
        e,
        "Command translation failed for current command: push pointer 2"
    );
    let e = translate_unit("pop pointer 2", "Test", &mut stack).unwrap_err();
    assert_eq!(
        e,
        "Command translation failed for current command: pop pointer 2"
    );
    // a recognised command with a missing numeric operand
    let e = translate_unit("push constant", "Test", &mut stack).unwrap_err();
    assert_eq!(
        e,
        "Command arguments are invalid, please check: push constant"
    );
    // an unknown word
    let e = translate_unit("frobnicate", "Test", &mut stack).unwrap_err();
    assert_eq!(e, "Command is invalid, please check: frobnicate");
}

#[test]
fn emitters_reject_operands_outside_their_domain() {
    let table = get_command_symbol_table();
    let writer = VmCodeWriter::new(VmCodeParser::new(), String::new());
    assert!(writer
        .write_push("pointer", "2", &table.push_segments, "F")
        .is_none());
    assert!(writer
        .write_pop("pointer", "2", &table.pop_segments, "F")
        .is_none());
    assert!(writer
        .write_push("argument", "-1", &table.push_segments, "F")
        .is_none());
    assert!(writer
        .write_push("constant", "x", &table.push_segments, "F")
        .is_none());
    assert!(writer
        .write_pop("constant", "0", &table.pop_segments, "F")
        .is_none());
    assert!(writer.write_function("f", -1).is_none());
    assert!(writer.write_call("f", -3, "ra").is_none());
    assert!(writer
        .write_arithmetic("xor", &table.arithmetic, 0)
        .is_none());
    assert!(writer
        .write_push("argument", "3", &table.push_segments, "F")
        .is_some());
}

#[test]
fn bootstrap_prefixes_an_entry_call() {
    let mut stack: Vec<String> = Vec::new();
    let writer = VmCodeWriter::new(VmCodeParser::new(), String::new());
    let init = writer.write_init();
    let call = translate_unit("call Sys.init 0", "Prog", &mut stack).unwrap();
    let together = format!("{init}{call}");
    assert!(together.starts_with("@256\nD=A\n@SP\nM=D\n@Prog.$ret\n"));
    assert!(together.ends_with("@Sys.init\n0;JMP\n(Prog.$ret)\n"));
    assert_eq!(stack, vec![String::from("Sys.init")]);
}

#[test]
fn translation_is_reproducible() {
    let source = "push constant 1\ncall F.g 0\nlabel X\ngoto X\nreturn";
    let mut stack_a: Vec<String> = vec![String::from("Main.main")];
    let mut stack_b: Vec<String> = vec![String::from("Main.main")];
    let a = translate_unit(source, "U", &mut stack_a).unwrap();
    let b = translate_unit(source, "U", &mut stack_b).unwrap();
    assert_eq!(a, b);
    assert_eq!(stack_a, stack_b);
}
