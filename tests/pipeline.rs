use std::collections::HashMap;

use ccomp::ast::{Expression, PostfixOperator};
use ccomp::compile::compile;
use ccomp::parser::parse_factor;
use ccomp::error::{Error, SemanticError};
use ccomp::lexer::{lexer, Token};
use ccomp::names::NameGen;
use ccomp::parser::parser;
use ccomp::semantic::semantic_analysis;
use ccomp::tacky::{tacky_gen, Instruction, TacBinary, TacProgram, TacUnary, Value};

fn to_tac(src: &str) -> Result<TacProgram, Error> {
    let toks = lexer(src)?;
    let ast = parser(&toks)?;
    let mut gen = NameGen::new();
    let valid = semantic_analysis(ast, &mut gen)?;
    tacky_gen(valid, &mut gen)
}

fn value(v: &Value, vars: &HashMap<String, i32>) -> i32 {
    match v {
        Value::Constant(c) => *c,
        Value::Var(x) => *vars.get(x).unwrap_or(&0),
    }
}

/// Runs three-address code and returns the process exit status it stands for.
fn run(p: &TacProgram) -> i32 {
    let body = &p.function.body;
    let mut labels = HashMap::new();
    for (i, ins) in body.iter().enumerate() {
        if let Instruction::Label(l) = ins {
            labels.insert(l.clone(), i);
        }
    }
    let mut vars: HashMap<String, i32> = HashMap::new();
    let mut pc = 0;
    let mut steps = 0;
    while pc < body.len() {
        steps += 1;
        assert!(steps < 1_000_000, "program does not stop");
        match &body[pc] {
            Instruction::Return(v) => return value(v, &vars) & 0xff,
            Instruction::Unary { op, src, dst } => {
                let s = value(src, &vars);
                let r = match op {
                    TacUnary::Complement => !s,
                    TacUnary::Negate => s.wrapping_neg(),
                    TacUnary::Not => (s == 0) as i32,
                };
                if let Value::Var(d) = dst {
                    vars.insert(d.clone(), r);
                }
            }
            Instruction::Binary { op, src1, src2, dst } => {
                let (a, b) = (value(src1, &vars), value(src2, &vars));
                let r = match op {
                    TacBinary::Add => a.wrapping_add(b),
                    TacBinary::Subtract => a.wrapping_sub(b),
                    TacBinary::Multiply => a.wrapping_mul(b),
                    TacBinary::Divide => a.wrapping_div(b),
                    TacBinary::Remainder => a.wrapping_rem(b),
                    TacBinary::BitwiseAnd => a & b,
                    TacBinary::BitwiseOr => a | b,
                    TacBinary::BitwiseXor => a ^ b,
                    TacBinary::LeftShift => a.wrapping_shl(b as u32),
                    TacBinary::RightShift => a.wrapping_shr(b as u32),
                    TacBinary::Equal => (a == b) as i32,
                    TacBinary::NotEqual => (a != b) as i32,
                    TacBinary::LessThan => (a < b) as i32,
                    TacBinary::Leq => (a <= b) as i32,
                    TacBinary::GreaterThan => (a > b) as i32,
                    TacBinary::Geq => (a >= b) as i32,
                };
                if let Value::Var(d) = dst {
                    vars.insert(d.clone(), r);
                }
            }
            Instruction::Copy { src, dst } => {
                let s = value(src, &vars);
                if let Value::Var(d) = dst {
                    vars.insert(d.clone(), s);
                }
            }
            Instruction::Jump(l) => {
                pc = labels[l];
                continue;
            }
            Instruction::JumpIfZero { cond, target } => {
                if value(cond, &vars) == 0 {
                    pc = labels[target];
                    continue;
                }
            }
            Instruction::JumpIfNotZero { cond, target } => {
                if value(cond, &vars) != 0 {
                    pc = labels[target];
                    continue;
                }
            }
            Instruction::Label(_) => {}
        }
        pc += 1;
    }
    panic!("fell off the end of the function");
}

fn exit_status(src: &str) -> i32 {
    run(&to_tac(src).expect("program compiles"))
}

fn semantic_error(src: &str) -> SemanticError {
    match compile(src, false) {
        Err(Error::Semantic(e)) => e,
        other => panic!("expected a semantic error, got {:?}", other),
    }
}

#[test]
fn return_constant() {
    assert_eq!(exit_status("int main(void) { return 2; }"), 2);
}

#[test]
fn negate_complement() {
    assert_eq!(exit_status("int main(void) { return -(~1); }"), 2);
}

#[test]
fn precedence_of_multiplication() {
    assert_eq!(exit_status("int main(void) { return 1 + 2 * 3; }"), 7);
}

#[test]
fn relational_and_logical() {
    assert_eq!(exit_status("int main(void) { return (1 < 2) && (3 == 3); }"), 1);
}

#[test]
fn while_loop_sum() {
    let src = "int main(void) { int a = 5; int b = 0; while (a > 0) { b = b + a; a = a - 1; } return b; }";
    assert_eq!(exit_status(src), 15);
}

#[test]
fn if_else_branch() {
    let src = "int main(void) { int x = 10; if (x > 5) x = x - 3; else x = x + 3; return x; }";
    assert_eq!(exit_status(src), 7);
}

#[test]
fn duplicate_declaration_rejected() {
    assert_eq!(semantic_error("int main(void) { int a; int a; return 0; }"), SemanticError::DuplicateDeclaration);
}

#[test]
fn undeclared_variable_rejected() {
    assert_eq!(semantic_error("int main(void) { a = 1; return a; }"), SemanticError::UndeclaredVariable);
}

#[test]
fn invalid_lvalue_rejected() {
    assert_eq!(semantic_error("int main(void) { 1 = 2; return 0; }"), SemanticError::InvalidLvalue);
}

#[test]
fn label_before_declaration_rejected() {
    assert_eq!(semantic_error("int main(void) { lbl: int x = 1; return x; }"), SemanticError::LabelWithoutStatement);
}

#[test]
fn break_outside_loop_rejected() {
    assert_eq!(semantic_error("int main(void) { break; }"), SemanticError::BreakOutsideLoop);
}

#[test]
fn continue_outside_loop_rejected() {
    assert_eq!(semantic_error("int main(void) { continue; }"), SemanticError::ContinueOutsideLoop);
}

#[test]
fn duplicate_label_rejected() {
    assert_eq!(semantic_error("int main(void) { a: ; a: ; return 0; }"), SemanticError::DuplicateLabel);
}

#[test]
fn label_at_end_of_block_rejected() {
    assert_eq!(semantic_error("int main(void) { return 0; end: }"), SemanticError::LabelWithoutStatement);
}

#[test]
fn shadowing_restores_outer_name() {
    let src = "int main(void) { int x = 1; { int x = 2; x = x + 5; } return x; }";
    assert_eq!(exit_status(src), 1);
    let inner = "int main(void) { int x = 1; { int x = 2; return x; } }";
    assert_eq!(exit_status(inner), 2);
}

#[test]
fn and_skips_right_operand() {
    assert_eq!(exit_status("int main(void) { int a = 0; int b = 0 && (a = 1); return a; }"), 0);
    assert_eq!(exit_status("int main(void) { int a = 0; int b = 1 && (a = 1); return a; }"), 1);
}

#[test]
fn or_skips_right_operand() {
    assert_eq!(exit_status("int main(void) { int a = 0; int b = 1 || (a = 1); return a; }"), 0);
    assert_eq!(exit_status("int main(void) { int a = 0; int b = 0 || (a = 1); return a; }"), 1);
}

#[test]
fn postfix_yields_old_value() {
    assert_eq!(exit_status("int main(void) { int a = 1; int b = a++; return a * 10 + b; }"), 21);
}

#[test]
fn prefix_yields_new_value() {
    assert_eq!(exit_status("int main(void) { int a = 1; int b = ++a; return a * 10 + b; }"), 22);
}

#[test]
fn compiling_twice_gives_same_text() {
    let src = "int main(void) { int a = 3; for (int i = 0; i < 4; i = i + 1) a = a * 2; return a; }";
    assert_eq!(compile(src, false).unwrap(), compile(src, false).unwrap());
}

#[test]
fn loops_with_break_and_continue() {
    let src = "int main(void) { int s = 0; for (int i = 0; i < 10; i++) { if (i % 2) continue; if (i > 6) break; s += i; } return s; }";
    assert_eq!(exit_status(src), 12);
    let dw = "int main(void) { int i = 0; do { i = i + 3; } while (i < 10); return i; }";
    assert_eq!(exit_status(dw), 12);
}

#[test]
fn conditional_and_goto() {
    assert_eq!(exit_status("int main(void) { int a = 4; return a > 3 ? 10 : 20; }"), 10);
    assert_eq!(exit_status("int main(void) { int a = 1; goto skip; a = 9; skip: return a; }"), 1);
}

#[test]
fn compound_assignment_and_shifts() {
    assert_eq!(exit_status("int main(void) { int a = 3; a <<= 2; a |= 1; a -= 2; return a >> 1; }"), 5);
}

#[test]
fn emitted_text_for_return() {
    let text = compile("int main(void) { return 2; }", false).unwrap();
    let expected = ".globl main\nmain:\n  pushq %rbp\n  movq %rsp, %rbp\n  subq $0, %rsp\n  movl $2, %eax\n  movq %rbp, %rsp\n  popq %rbp\n  ret\n  movl $0, %eax\n  movq %rbp, %rsp\n  popq %rbp\n  ret\n.section .note.GNU-stack,\"\",@progbits\n";
    assert_eq!(text, expected);
}

#[test]
fn emitted_text_uses_stack_slots_and_legal_moves() {
    let text = compile("int main(void) { int a = 1; int b = a; return b; }", true).unwrap();
    assert!(text.starts_with(".globl _main\n_main:\n"));
    assert!(text.contains("  subq $8, %rsp\n"));
    assert!(text.contains("  movl -4(%rbp), %r10d\n  movl %r10d, -8(%rbp)\n"));
    assert!(!text.contains("GNU-stack"));
}

#[test]
fn relational_uses_setcc_with_byte_register() {
    let text = compile("int main(void) { int a = 1; return a < 2; }", false).unwrap();
    assert!(text.contains("  cmpl $2, -4(%rbp)\n"));
    assert!(text.contains("  setl -8(%rbp)\n"));
    let swapped = compile("int main(void) { int a = 1; return 2 < a; }", false).unwrap();
    assert!(swapped.contains("  movl $2, %r11d\n  cmpl -4(%rbp), %r11d\n"));
}

#[test]
fn lexer_reads_identifiers_and_constants() {
    let toks = lexer("int x1 = 42;").unwrap();
    assert_eq!(toks.len(), 5);
    assert!(matches!(&toks[1], Token::Identifier(s) if s == "x1"));
    assert!(matches!(&toks[3], Token::IntegerConstant(42)));
}

#[test]
fn lexer_rejects_unknown_character() {
    assert!(matches!(lexer("int main(void) { return @; }"), Err(Error::Lexer { ch: '@' })));
    assert!(matches!(lexer("return 123abc;"), Err(Error::Lexer { ch: '1' })));
}

#[test]
fn parser_rejects_missing_semicolon() {
    let toks = lexer("int main(void) { return 2 }").unwrap();
    assert!(matches!(parser(&toks), Err(Error::Parser { .. })));
}

#[test]
fn variables_get_unique_names() {
    let tac = to_tac("int main(void) { int x = 1; { int x = 2; } return x; }").unwrap();
    let names: Vec<String> = tac.function.body.iter().filter_map(|i| match i {
        Instruction::Copy { dst: Value::Var(d), .. } => Some(d.clone()),
        _ => None,
    }).collect();
    assert_eq!(names, vec!["tmp.x.0".to_string(), "tmp.x.1".to_string()]);
}

#[test]
fn assignment_to_increment_rejected() {
    assert_eq!(semantic_error("int main(void) { int x = 0; ++x = 1; return x; }"), SemanticError::InvalidLvalue);
}

#[test]
fn goto_to_missing_label_rejected() {
    assert_eq!(semantic_error("int main(void) { goto missing; return 0; }"), SemanticError::UndefinedLabel);
}

#[test]
fn lexer_takes_longest_operators() {
    let toks = lexer("x<<=2>>y--").unwrap();
    assert_eq!(toks.len(), 6);
    assert!(matches!(&toks[0], Token::Identifier(s) if s == "x"));
    assert!(matches!(&toks[1], Token::LtLtEqual));
    assert!(matches!(&toks[2], Token::IntegerConstant(2)));
    assert!(matches!(&toks[3], Token::RightShift));
    assert!(matches!(&toks[4], Token::Identifier(s) if s == "y"));
    assert!(matches!(&toks[5], Token::DoubleHyphen));
}

#[test]
fn factor_takes_postfix_increment() {
    let toks = lexer("a ++ ;").unwrap();
    let (e, p) = parse_factor(&toks, 0).unwrap();
    assert_eq!(p, 2);
    match e {
        Expression::Postfix { op: PostfixOperator::Increment, expr } => {
            assert!(matches!(*expr, Expression::Var(ref s) if s == "a"));
        }
        other => panic!("unexpected factor {:?}", other),
    }
}
