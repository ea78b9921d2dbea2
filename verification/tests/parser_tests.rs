use opvm2::instruction::Instruction;
use opvm2::lexer::token::{Expression, ExpressionOffset, SideType, Token};
use opvm2::lexer::token::LabelWithLiteral;
use opvm2::opcode::Opcode;
use opvm2::operand::{Offset, Operand};
use opvm2::parser::program::{LabelValue, Labels, Program};
use opvm2::register::Register;

#[test]
fn can_convert_tokens_to_instructions() {
    assert_eq!(
        Program::new(vec![
            vec![Token::Expression(Expression {
                opcode: "mov".to_string(),
                lhs: SideType::Normal("ra".to_string()),
                rhs: SideType::Normal("1".to_string()),
            })],
            vec![Token::Expression(Expression {
                opcode: "add".to_string(),
                lhs: SideType::Normal("ra".to_string()),
                rhs: SideType::Normal("rb".to_string()),
            })],
        ])
        .unwrap(),
        Program {
            instructions: vec![
                Instruction::new(
                    Opcode::Mov,
                    Operand::Register(Register::Ra),
                    Operand::Number(1)
                ),
                Instruction::new(
                    Opcode::Add,
                    Operand::Register(Register::Ra),
                    Operand::Register(Register::Rb)
                ),
            ],
            labels: Labels::new(),
            plugins: vec![],
        }
    )
}

#[test]
fn can_parse_labels() {
    assert_eq!(
        Program::new(vec![
            vec![Token::Label("start".to_string())],
            vec![Token::Expression(Expression {
                opcode: "mov".to_string(),
                lhs: SideType::Normal("ra".to_string()),
                rhs: SideType::Normal("1".to_string()),
            })],
            vec![Token::Expression(Expression {
                opcode: "add".to_string(),
                lhs: SideType::Normal("ra".to_string()),
                rhs: SideType::Normal("rb".to_string()),
            })],
            vec![Token::Label("end".to_string())],
        ])
        .unwrap(),
        Program {
            instructions: vec![
                Instruction::new(
                    Opcode::Mov,
                    Operand::Register(Register::Ra),
                    Operand::Number(1)
                ),
                Instruction::new(
                    Opcode::Add,
                    Operand::Register(Register::Ra),
                    Operand::Register(Register::Rb)
                ),
            ],
            labels: Labels::from(vec![
                ("start".to_string(), LabelValue::Address(0)),
                ("end".to_string(), LabelValue::Address(2)),
            ]),
            plugins: vec![],
        }
    )
}

#[test]
fn can_parse_labels_with_literals() {
    assert_eq!(
        Program::new(vec![
            vec![Token::LabelWithLiteral(LabelWithLiteral {
                name: "custom".to_string(),
                value: "10".to_string(),
            })],
            vec![Token::LabelWithLiteral(LabelWithLiteral {
                name: "custom_str".to_string(),
                value: "this is my custom value".to_string(),
            })],
            vec![Token::Expression(Expression {
                opcode: "mov".to_string(),
                lhs: SideType::Normal("ra".to_string()),
                rhs: SideType::Normal("1".to_string()),
            })],
            vec![Token::Expression(Expression {
                opcode: "add".to_string(),
                lhs: SideType::Normal("ra".to_string()),
                rhs: SideType::Normal("rb".to_string()),
            })],
            vec![Token::Label("end".to_string())],
        ])
        .unwrap(),
        Program {
            instructions: vec![
                Instruction::new(
                    Opcode::Mov,
                    Operand::Register(Register::Ra),
                    Operand::Number(1)
                ),
                Instruction::new(
                    Opcode::Add,
                    Operand::Register(Register::Ra),
                    Operand::Register(Register::Rb)
                ),
            ],
            labels: Labels::from(vec![
                ("custom".to_string(), LabelValue::Address(10)),
                (
                    "custom_str".to_string(),
                    LabelValue::Literal("this is my custom value".to_string())
                ),
                ("end".to_string(), LabelValue::Address(2)),
            ]),
            plugins: vec![],
        }
    )
}

#[test]
fn can_parse_expressions_with_offsets() {
    assert_eq!(
        Program::new(vec![vec![Token::Expression(Expression {
            opcode: "mov".to_string(),
            lhs: SideType::Normal("ra".to_string()),
            rhs: SideType::Offset(ExpressionOffset {
                lhs: "rb".to_string(),
                operator: Some("+".to_string()),
                rhs: Some("1".to_string()),
            }),
        })]])
        .unwrap(),
        Program {
            instructions: vec![Instruction::new(
                Opcode::Mov,
                Operand::Register(Register::Ra),
                Operand::Offset(Offset {
                    lhs_operand: "rb".to_string(),
                    operator: Some("+".to_string()),
                    rhs_operand: Some("1".to_string()),
                }),
            )],
            labels: Labels::new(),
            plugins: vec![],
        }
    );

    assert_eq!(
        Program::new(vec![vec![Token::Expression(Expression {
            opcode: "mov".to_string(),
            lhs: SideType::Normal("ra".to_string()),
            rhs: SideType::Offset(ExpressionOffset {
                lhs: "rb".to_string(),
                operator: None,
                rhs: None,
            }),
        })]])
        .unwrap(),
        Program {
            instructions: vec![Instruction::new(
                Opcode::Mov,
                Operand::Register(Register::Ra),
                Operand::Offset(Offset {
                    lhs_operand: "rb".to_string(),
                    operator: None,
                    rhs_operand: None,
                }),
            )],
            labels: Labels::new(),
            plugins: vec![],
        }
    );
}

#[test]
fn rejects_directives_with_a_clear_error() {
    let r = Program::from("section .data");
    assert_eq!(r.unwrap_err(), "Directives are not supported yet".to_string());
}
