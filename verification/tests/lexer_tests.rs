use opvm2::lexer::token::{Expression, ExpressionOffset, LabelWithLiteral, SideType, Token};
use opvm2::lexer::{comment, directive, expression, label, lex_line, lex_input, literal, side_type_or_none};
use opvm2::text::str_to_chars;

#[test]
fn can_parse_comments() {
    let c = str_to_chars("; this is a comment");
    let r = comment(&c, 0).unwrap();
    assert_eq!(r, (c.len(), "this is a comment".to_string()));
    let c = str_to_chars("      ;this is a comment");
    let r = comment(&c, 0).unwrap();
    assert_eq!(r, (c.len(), "this is a comment".to_string()));
    let c = str_to_chars("      ;           this is a comment");
    let r = comment(&c, 0).unwrap();
    assert_eq!(r, (c.len(), "this is a comment".to_string()));
}

#[test]
fn can_parse_whitespace() {
    assert!(lex_line(&str_to_chars(" ")).is_empty());
    assert!(lex_line(&str_to_chars("  ")).is_empty());
    assert!(lex_line(&str_to_chars("   ")).is_empty());
    assert!(lex_line(&str_to_chars("                      ")).is_empty());
}

#[test]
fn can_parse_label() {
    assert!(label(&str_to_chars("_supercrazy label:"), 0).is_none());
    assert!(label(&str_to_chars("_super,label:"), 0).is_none());
    assert_eq!(label(&str_to_chars("_label:"), 0), Some((7, "_label".to_string())));
    assert_eq!(label(&str_to_chars("_label: "), 0), Some((7, "_label".to_string())));
    assert_eq!(label(&str_to_chars("_label_1: "), 0), Some((9, "_label_1".to_string())));
    assert_eq!(label(&str_to_chars("label_1: "), 0), Some((8, "label_1".to_string())));
    assert_eq!(label(&str_to_chars("label: "), 0), Some((6, "label".to_string())));
}

#[test]
fn can_parse_directive() {
    assert_eq!(directive(&str_to_chars("section .data"), 0), Some((13, "data".to_string())));
    assert_eq!(directive(&str_to_chars("section .data "), 0), Some((13, "data".to_string())));
    assert_eq!(directive(&str_to_chars("section .data  "), 0), Some((13, "data".to_string())));
    assert_eq!(directive(&str_to_chars(" section .data  "), 0), Some((14, "data".to_string())));
    assert_eq!(directive(&str_to_chars("  section .data  "), 0), Some((15, "data".to_string())));
}

#[test]
fn can_parse_expression() {
    let r = expression(&str_to_chars("mov rax, rdx"), 0).unwrap();
    assert_eq!(
        r.1,
        Expression {
            opcode: "mov".to_string(),
            lhs: SideType::Normal("rax".to_string()),
            rhs: SideType::Normal("rdx".to_string()),
        }
    );
    let r = expression(&str_to_chars("mov rax, a"), 0).unwrap();
    assert_eq!(
        r.1,
        Expression {
            opcode: "mov".to_string(),
            lhs: SideType::Normal("rax".to_string()),
            rhs: SideType::Normal("a".to_string()),
        }
    );
    let r = expression(&str_to_chars("print rax"), 0).unwrap();
    assert_eq!(
        r.1,
        Expression {
            opcode: "print".to_string(),
            lhs: SideType::Normal("rax".to_string()),
            rhs: SideType::Empty,
        }
    );
    let r = expression(&str_to_chars("ret  "), 0).unwrap();
    assert_eq!(
        r.1,
        Expression { opcode: "ret".to_string(), lhs: SideType::Empty, rhs: SideType::Empty }
    );
    let r = expression(&str_to_chars("   ret  "), 0).unwrap();
    assert_eq!(
        r.1,
        Expression { opcode: "ret".to_string(), lhs: SideType::Empty, rhs: SideType::Empty }
    );
    let r = expression(&str_to_chars("mov_op rax, rdx"), 0).unwrap();
    assert_eq!(
        r.1,
        Expression {
            opcode: "mov_op".to_string(),
            lhs: SideType::Normal("rax".to_string()),
            rhs: SideType::Normal("rdx".to_string()),
        }
    );
}

#[test]
fn can_parse_label_with_literal() {
    let c = str_to_chars("label: 'this is a literal'");
    let r = literal(&c, 0).unwrap();
    assert_eq!(r.0, c.len());
    assert_eq!(
        r.1,
        LabelWithLiteral { name: "label".to_string(), value: "this is a literal".to_string() }
    );
}

#[test]
fn can_parse_line() {
    let tokens = lex_line(&str_to_chars("_label: mov r0, a ; comment"));
    assert_eq!(
        tokens,
        vec![
            Token::Label("_label".to_string()),
            Token::Expression(Expression {
                opcode: "mov".to_string(),
                lhs: SideType::Normal("r0".to_string()),
                rhs: SideType::Normal("a".to_string()),
            }),
            Token::Comment("comment".to_string()),
        ]
    );
}

#[test]
fn mod_can_parse_input() {
    assert_eq!(
        lex_input(
            r"
                name: 'hello this is my name'
                another: 5
            section .data
                _label: eeeee rax, 0
                        mov rcx, a
                        jmp _label
                        print rcx
        "
        ),
        Ok(vec![
            vec![Token::LabelWithLiteral(LabelWithLiteral {
                name: "name".to_string(),
                value: "hello this is my name".to_string(),
            })],
            vec![Token::LabelWithLiteral(LabelWithLiteral {
                name: "another".to_string(),
                value: "5".to_string(),
            })],
            vec![Token::Directive("data".to_string())],
            vec![
                Token::Label("_label".to_string()),
                Token::Expression(Expression {
                    opcode: "eeeee".to_string(),
                    lhs: SideType::Normal("rax".to_string()),
                    rhs: SideType::Normal("0".to_string()),
                }),
            ],
            vec![Token::Expression(Expression {
                opcode: "mov".to_string(),
                lhs: SideType::Normal("rcx".to_string()),
                rhs: SideType::Normal("a".to_string()),
            })],
            vec![Token::Expression(Expression {
                opcode: "jmp".to_string(),
                lhs: SideType::Normal("_label".to_string()),
                rhs: SideType::Empty,
            })],
            vec![Token::Expression(Expression {
                opcode: "print".to_string(),
                lhs: SideType::Normal("rcx".to_string()),
                rhs: SideType::Empty,
            })],
        ])
    );
}

#[test]
fn can_parse_expression_offset() {
    assert_eq!(
        side_type_or_none(Some("[rdx + 0x10]")),
        SideType::Offset(ExpressionOffset {
            lhs: "rdx".to_string(),
            operator: Some("+".to_string()),
            rhs: Some("0x10".to_string()),
        })
    );
    assert_eq!(
        side_type_or_none(Some(" [rdx + 0x10]")),
        SideType::Offset(ExpressionOffset {
            lhs: "rdx".to_string(),
            operator: Some("+".to_string()),
            rhs: Some("0x10".to_string()),
        })
    );
}

#[test]
fn can_parse_expression_with_offsets() {
    let r = expression(&str_to_chars("mov rax, [rdx + 0x10]"), 0).unwrap();
    assert_eq!(
        r.1,
        Expression {
            opcode: "mov".to_string(),
            lhs: SideType::Normal("rax".to_string()),
            rhs: SideType::Offset(ExpressionOffset {
                lhs: "rdx".to_string(),
                operator: Some("+".to_string()),
                rhs: Some("0x10".to_string()),
            }),
        }
    );
    let r = expression(&str_to_chars("mov rax, [label]"), 0).unwrap();
    assert_eq!(
        r.1,
        Expression {
            opcode: "mov".to_string(),
            lhs: SideType::Normal("rax".to_string()),
            rhs: SideType::Offset(ExpressionOffset {
                lhs: "label".to_string(),
                operator: None,
                rhs: None,
            }),
        }
    );
    let r = expression(&str_to_chars("mov rax, [label -]"), 0).unwrap();
    assert_eq!(
        r.1,
        Expression {
            opcode: "mov".to_string(),
            lhs: SideType::Normal("rax".to_string()),
            rhs: SideType::Offset(ExpressionOffset {
                lhs: "label".to_string(),
                operator: Some("-".to_string()),
                rhs: None,
            }),
        }
    );
}

#[test]
fn lex_input_reports_an_unrecognized_line() {
    let r = lex_input(",,,");
    assert_eq!(r.unwrap_err(), "Line 0: unrecognized input `,,,`".to_string());
}

#[test]
fn lex_input_reports_every_failing_line() {
    let r = lex_input("mov ra, 1\n,,,\nmov rb, 2\n???");
    assert_eq!(
        r.unwrap_err(),
        "Line 1: unrecognized input `,,,`\nLine 3: unrecognized input `???`".to_string()
    );
}

#[test]
fn lex_input_reports_trailing_text_that_fits_no_token() {
    let r = lex_input("mov ra, 1 $$$");
    assert_eq!(r.unwrap_err(), "Line 0: unrecognized input ` $$$`".to_string());
}

#[test]
fn identifiers_must_not_start_with_a_digit() {
    assert!(label(&str_to_chars("9lives:"), 0).is_none());
    assert!(expression(&str_to_chars("9lives ra"), 0).is_none());
    assert!(lex_input("9lives: mov ra, 1").is_err());
}
