use vm_translator::CommandTable;
use vm_translator::VMCommandType;
use vm_translator::VmCodeParser;

fn manual_table() -> CommandTable {
    CommandTable {
        arithmetic: vec![
            String::from("add"),
            String::from("sub"),
            String::from("neg"),
            String::from("eq"),
            String::from("gt"),
            String::from("lt"),
            String::from("and"),
            String::from("or"),
            String::from("not"),
        ],
        push_segments: vec![
            String::from("constant"),
            String::from("local"),
            String::from("argument"),
            String::from("this"),
            String::from("that"),
            String::from("static"),
            String::from("temp"),
            String::from("pointer"),
        ],
        pop_segments: vec![
            String::from("local"),
            String::from("argument"),
            String::from("this"),
            String::from("that"),
            String::from("static"),
            String::from("temp"),
            String::from("pointer"),
        ],
    }
}

#[test] // test for removing comments and blank lines
fn parse_clean_instructions() {
    let input_1 = String::from("push constant 5 // to be removed\n ");
    let input_2 = String::from("gt  ");
    let input_3 = String::from("\npop local 2 // sad\n push static 5");
    let input_4 = String::from("\npop local 2 // sad\n push static 5\nadd // adding\n    \nsub//23");
    let test_parser = VmCodeParser::new();

    let cleaned_vm_code1 = test_parser.clean_vm_code(input_1);
    let cleaned_vm_code2 = test_parser.clean_vm_code(input_2);
    let cleaned_vm_code3 = test_parser.clean_vm_code(input_3);
    let cleaned_vm_code4 = test_parser.clean_vm_code(input_4);

    assert_eq!("push constant 5".to_string(), cleaned_vm_code1);
    assert_eq!("gt".to_string(), cleaned_vm_code2);
    assert_eq!("pop local 2\npush static 5".to_string(), cleaned_vm_code3);
    assert_eq!(
        "pop local 2\npush static 5\nadd\nsub".to_string(),
        cleaned_vm_code4
    );
}

#[test]
fn parse_command_type() {
    let command_symbol_table = manual_table();
    let test_parser = VmCodeParser::new();
    let push_command = test_parser.command_type("push constant 0", &command_symbol_table);
    let pop_command = test_parser.command_type("pop this 5", &command_symbol_table);
    let arith_command = test_parser.command_type("and", &command_symbol_table);
    let label_command = test_parser.command_type("label END", &command_symbol_table);
    let goto_command = test_parser.command_type("goto MOON", &command_symbol_table);
    let if_goto_command = test_parser.command_type("if-goto test", &command_symbol_table);
    let call_command = test_parser.command_type("call Crazy.frog 9", &command_symbol_table);
    let function_command = test_parser.command_type("function Crazy.frog 3", &command_symbol_table);
    let return_command = test_parser.command_type("return", &command_symbol_table);
    let invalid_command = test_parser.command_type("yo mama", &command_symbol_table);

    assert!(push_command.is_some_and(|value| value == VMCommandType::Cpush));
    assert!(pop_command.is_some_and(|value| value == VMCommandType::Cpop));
    assert!(arith_command.is_some_and(|value| value == VMCommandType::Carithmetic));
    assert!(label_command.is_some_and(|value| value == VMCommandType::Clabel));
    assert!(goto_command.is_some_and(|value| value == VMCommandType::Cgoto));
    assert!(if_goto_command.is_some_and(|value| value == VMCommandType::Cif));
    assert!(call_command.is_some_and(|value| value == VMCommandType::Ccall));
    assert!(function_command.is_some_and(|value| value == VMCommandType::Cfunction));
    assert!(return_command.is_some_and(|value| value == VMCommandType::Creturn));
    assert!(invalid_command.is_none());
}

#[test]
fn parse_args() {
    let test_parser = VmCodeParser::new();
    let push_arg1 = test_parser.arg1("push constant 0", &VMCommandType::Cpush);
    let push_arg2 = test_parser.arg2("push constant 0", &VMCommandType::Cpush);
    let pop_arg1 = test_parser.arg1("pop static 2", &VMCommandType::Cpop);
    let pop_arg2 = test_parser.arg2("pop static 2", &VMCommandType::Cpop);
    let arith_arg1 = test_parser.arg1("add", &VMCommandType::Carithmetic);
    let arith_arg2 = test_parser.arg2("sub", &VMCommandType::Carithmetic);
    let label_arg1 = test_parser.arg1("label OKOKOK", &VMCommandType::Clabel);
    let label_arg2 = test_parser.arg2("label OKOKOK", &VMCommandType::Clabel);
    let goto_arg1 = test_parser.arg1("goto OKOKOK", &VMCommandType::Cgoto);
    let goto_arg2 = test_parser.arg2("goto OKOKOK", &VMCommandType::Cgoto);
    let if_goto_arg1 = test_parser.arg1("if-goto OKOKOK", &VMCommandType::Cif);
    let if_goto_arg2 = test_parser.arg2("if-goto OKOKOK", &VMCommandType::Cif);
    let call_arg1 = test_parser.arg1("call yopapa 4", &VMCommandType::Ccall);
    let call_arg2 = test_parser.arg2("call yopapa 4", &VMCommandType::Ccall);
    let function_arg1 = test_parser.arg1("function yopapa 2", &VMCommandType::Cfunction);
    let function_arg2 = test_parser.arg2("function yopapa 2", &VMCommandType::Cfunction);
    let return_arg1 = test_parser.arg1("return", &VMCommandType::Creturn);
    let return_arg2 = test_parser.arg2("return 4", &VMCommandType::Creturn);
    assert!(push_arg1.is_some_and(|value| value == "constant"));
    assert!(push_arg2.is_some_and(|value| value == "0"));
    assert!(pop_arg1.is_some_and(|value| value == "static"));
    assert!(pop_arg2.is_some_and(|value| value == "2"));
    assert!(arith_arg1.is_none());
    assert!(arith_arg2.is_none());
    assert!(label_arg1.is_some_and(|value| value == "OKOKOK"));
    assert!(label_arg2.is_none());
    assert!(goto_arg1.is_some_and(|value| value == "OKOKOK"));
    assert!(goto_arg2.is_none());
    assert!(if_goto_arg1.is_some_and(|value| value == "OKOKOK"));
    assert!(if_goto_arg2.is_none());
    assert!(call_arg1.is_some_and(|value| value == "yopapa"));
    assert!(call_arg2.is_some_and(|value| value == "4"));
    assert!(function_arg1.is_some_and(|value| value == "yopapa"));
    assert!(function_arg2.is_some_and(|value| value == "2"));
    assert!(return_arg1.is_none());
    assert!(return_arg2.is_none());
}

#[test]
fn arg2_rejects_out_of_range_and_non_numeric() {
    let test_parser = VmCodeParser::new();
    assert!(test_parser
        .arg2("push constant 32767", &VMCommandType::Cpush)
        .is_some_and(|value| value == "32767"));
    assert!(test_parser
        .arg2("push constant -32768", &VMCommandType::Cpush)
        .is_some_and(|value| value == "-32768"));
    assert!(test_parser
        .arg2("push constant 32768", &VMCommandType::Cpush)
        .is_none());
    assert!(test_parser
        .arg2("push constant -32769", &VMCommandType::Cpush)
        .is_none());
    assert!(test_parser
        .arg2("push constant seven", &VMCommandType::Cpush)
        .is_none());
    assert!(test_parser
        .arg2("call f +3", &VMCommandType::Ccall)
        .is_some_and(|value| value == "+3"));
    assert!(test_parser.arg2("call f", &VMCommandType::Ccall).is_none());
}

#[test]
fn clean_keeps_command_order_and_drops_comment_lines() {
    let parser = VmCodeParser::new();
    assert_eq!(parser.clean_vm_code(String::from("// only a comment")), "");
    assert_eq!(parser.clean_vm_code(String::from("")), "");
    assert_eq!(parser.clean_vm_code(String::from("   \n\t\n")), "");
    assert_eq!(
        parser.clean_vm_code(String::from("push constant 1\r\n// x\r\nadd\r\n")),
        "push constant 1\nadd"
    );
}
