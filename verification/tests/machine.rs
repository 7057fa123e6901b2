// Runs the emitted assembly on a miniature model of the target register
// machine, so the examples are checked against execution, not just text.

use std::collections::HashMap;

use vm_translator::get_command_symbol_table;
use vm_translator::VmCodeParser;
use vm_translator::VmCodeWriter;

const SP: usize = 0;
const LCL: usize = 1;
const ARG: usize = 2;
const THIS: usize = 3;
const THAT: usize = 4;

struct Machine {
    ram: Vec<i16>,
    a: i16,
    d: i16,
}

fn symbol_address(symbols: &mut HashMap<String, i16>, next_var: &mut i16, s: &str) -> i16 {
    if let Some(v) = symbols.get(s) {
        return *v;
    }
    let addr = *next_var;
    *next_var += 1;
    symbols.insert(s.to_string(), addr);
    addr
}

fn comp(machine: &Machine, text: &str) -> i16 {
    let m = machine.ram[machine.a as u16 as usize];
    match text {
        "0" => 0,
        "1" => 1,
        "-1" => -1,
        "D" => machine.d,
        "A" => machine.a,
        "M" => m,
        "!D" => !machine.d,
        "!A" => !machine.a,
        "!M" => !m,
        "-D" => machine.d.wrapping_neg(),
        "-A" => machine.a.wrapping_neg(),
        "-M" => m.wrapping_neg(),
        "D+1" => machine.d.wrapping_add(1),
        "A+1" => machine.a.wrapping_add(1),
        "M+1" => m.wrapping_add(1),
        "D-1" => machine.d.wrapping_sub(1),
        "A-1" => machine.a.wrapping_sub(1),
        "M-1" => m.wrapping_sub(1),
        "D+A" => machine.d.wrapping_add(machine.a),
        "D+M" => machine.d.wrapping_add(m),
        "D-A" => machine.d.wrapping_sub(machine.a),
        "D-M" => machine.d.wrapping_sub(m),
        "A-D" => machine.a.wrapping_sub(machine.d),
        "M-D" => m.wrapping_sub(machine.d),
        "D&A" => machine.d & machine.a,
        "D&M" => machine.d & m,
        "D|A" => machine.d | machine.a,
        "D|M" => machine.d | m,
        other => panic!("unknown computation: {other}"),
    }
}

/// Executes Hack assembly text until it reaches a self-jump or runs off the
/// end, and returns the machine.
fn run(program_text: &str, setup: &[(usize, i16)]) -> Machine {
    // first pass: instruction list and label addresses
    let mut instructions: Vec<&str> = Vec::new();
    let mut symbols: HashMap<String, i16> = HashMap::new();
    for (name, addr) in [
        ("SP", 0),
        ("LCL", 1),
        ("ARG", 2),
        ("THIS", 3),
        ("THAT", 4),
        ("R13", 13),
        ("R14", 14),
    ] {
        symbols.insert(name.to_string(), addr);
    }
    for line in program_text.lines() {
        let line = line.trim();
        if line.is_empty() {
            continue;
        }
        if let Some(label) = line.strip_prefix('(').and_then(|l| l.strip_suffix(')')) {
            symbols.insert(label.to_string(), instructions.len() as i16);
        } else {
            instructions.push(line);
        }
    }
    let mut machine = Machine {
        ram: vec![0i16; 1 << 15],
        a: 0,
        d: 0,
    };
    for &(addr, value) in setup {
        machine.ram[addr] = value;
    }
    let mut next_var: i16 = 16;
    let mut pc: usize = 0;
    let mut steps: usize = 0;
    while pc < instructions.len() {
        steps += 1;
        assert!(steps < 100_000, "program did not settle");
        let ins = instructions[pc];
        if let Some(sym) = ins.strip_prefix('@') {
            machine.a = match sym.parse::<i16>() {
                Ok(v) => v,
                Err(_) => symbol_address(&mut symbols, &mut next_var, sym),
            };
            pc += 1;
        } else if let Some((c, jump)) = ins.split_once(';') {
            let value = comp(&machine, c);
            let taken = match jump {
                "JGT" => value > 0,
                "JEQ" => value == 0,
                "JGE" => value >= 0,
                "JLT" => value < 0,
                "JNE" => value != 0,
                "JLE" => value <= 0,
                "JMP" => true,
                other => panic!("unknown jump: {other}"),
            };
            if taken {
                let target = machine.a as usize;
                // a jump back to its own address-load is a tight self-loop:
                // nothing between the two instructions changes the machine,
                // so the program has settled
                if target == pc || target + 1 == pc {
                    break;
                }
                pc = target;
            } else {
                pc += 1;
            }
        } else if let Some((dest, c)) = ins.split_once('=') {
            let value = comp(&machine, c);
            if dest.contains('M') {
                machine.ram[machine.a as u16 as usize] = value;
            }
            if dest.contains('A') {
                machine.a = value;
            }
            if dest.contains('D') {
                machine.d = value;
            }
            pc += 1;
        } else {
            panic!("unknown instruction: {ins}");
        }
    }
    machine
}

fn translate_program(source: &str, unit: &str) -> String {
    let table = get_command_symbol_table();
    let parser = VmCodeParser::new();
    let cleaned = parser.clean_vm_code(String::from(source));
    let writer = VmCodeWriter::new(parser, cleaned);
    let mut stack: Vec<String> = Vec::new();
    let body = writer.translate(&table, unit, &mut stack).unwrap();
    let init = writer.write_init();
    let end = writer.write_end();
    format!("{init}{body}{end}")
}

#[test]
fn adding_two_constants_leaves_their_sum_on_the_stack() {
    let program_text = translate_program("push constant 7\npush constant 8\nadd", "Test");
    let machine = run(&program_text, &[]);
    assert_eq!(machine.ram[SP], 257, "one result cell above the stack base");
    assert_eq!(machine.ram[256], 15);
}

#[test]
fn popping_into_pointer_zero_sets_the_this_base() {
    let program_text = translate_program("push constant 10\npop pointer 0", "Test");
    let machine = run(&program_text, &[]);
    assert_eq!(machine.ram[THIS], 10);
    assert_eq!(machine.ram[SP], 256, "the stack pointer is back at its pre-push level");
}

#[test]
fn called_function_returns_the_sum_and_restores_the_caller_frame() {
    let source = "push constant 3\n\
                  push constant 4\n\
                  call Main.sum 2\n\
                  label HALT\n\
                  goto HALT\n\
                  function Main.sum 0\n\
                  push argument 0\n\
                  push argument 1\n\
                  add\n\
                  return";
    let program_text = translate_program(source, "Test");
    let caller_frame = [(LCL, 300), (ARG, 400), (THIS, 3000), (THAT, 3010)];
    let machine = run(&program_text, &caller_frame);
    // the caller sees one cell: the sum of the two pushed arguments
    assert_eq!(machine.ram[256], 7);
    // stack-neutrality: the pointer stands one above its value at the call
    // site before the arguments were pushed
    assert_eq!(machine.ram[SP], 257);
    // all four caller segment bases were restored
    assert_eq!(machine.ram[LCL], 300);
    assert_eq!(machine.ram[ARG], 400);
    assert_eq!(machine.ram[THIS], 3000);
    assert_eq!(machine.ram[THAT], 3010);
}

#[test]
fn comparison_pushes_all_ones_or_zero() {
    let program_text = translate_program(
        "push constant 5\npush constant 5\neq\npush constant 2\npush constant 9\ngt",
        "Test",
    );
    let machine = run(&program_text, &[]);
    assert_eq!(machine.ram[256], -1, "equal operands compare to all-ones");
    assert_eq!(machine.ram[257], 0, "2 is not greater than 9");
    assert_eq!(machine.ram[SP], 258);
}

#[test]
fn without_an_entry_unit_execution_ends_in_a_self_jump() {
    // the terminator is appended when no entry unit exists; the run settles
    // there instead of falling through
    let program_text = translate_program("push constant 1", "Test");
    let machine = run(&program_text, &[]);
    assert_eq!(machine.ram[256], 1);
    assert_eq!(machine.ram[SP], 257);
}
