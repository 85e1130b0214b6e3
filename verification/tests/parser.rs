use kennedy::ast::{
    AssignOperator, BinaryOperator, Block, Expression, Function, Parameter, Parameters,
    PostfixOperator, PrefixOperator, Program, Statement, Type, UnaryOperator,
};
use kennedy::error::{CompileError, Span};
use kennedy::lexer::lex;
use kennedy::lexer::tokens::{Token, TokenType};
use kennedy::parser::Parser;

fn parse_source(source: &str) -> Result<Program, CompileError> {
    let tokens = lex(source.to_string()).unwrap();
    Parser::new(tokens).parse()
}

/// The statements of the body of the only function of `func f(): int { <body> }`.
fn body_of(body: &str) -> Vec<Statement> {
    let source = format!("func f(): int {{ {} }}", body);
    let mut program = parse_source(&source).unwrap();
    assert_eq!(program.functions.len(), 1);
    program.functions.remove(0).body.statements
}

/// The expression of the statement `<source>;`.
fn expression_of(source: &str) -> Expression {
    let mut statements = body_of(&format!("{};", source));
    assert_eq!(statements.len(), 1);
    match statements.remove(0) {
        Statement::Expression { expression, .. } => expression,
        other => panic!("not an expression statement: {:?}", other),
    }
}

fn syntax_error(source: &str) -> (String, Span) {
    match parse_source(source) {
        Err(CompileError::SyntaxError(message, span)) => (message, span),
        other => panic!("unexpected result: {:?}", other),
    }
}

fn lit(value: i64) -> Expression {
    Expression::IntegerLiteral { value }
}

fn name(ident: &str) -> Expression {
    Expression::Identifier { ident: ident.to_string() }
}

fn binary(left: Expression, operator: BinaryOperator, right: Expression) -> Expression {
    Expression::Binary { left: Box::new(left), operator, right: Box::new(right) }
}

fn group(expression: Expression) -> Expression {
    Expression::Grouping { expression: Box::new(expression) }
}

#[test]
fn test_parse() {
    let source = r#"func main(): int {
    return 1 + 2 * 3;
}
        "#;

    // tokenize
    let lexer = lex(source.to_string());

    let lexer = match lexer {
        Ok(lexer) => Some(lexer),
        Err(e) => {
            println!("Error: {}", e.to_string());
            None
        }
    };

    // parse
    let mut parser = Parser::new(lexer.unwrap());
    let ast = parser.parse();

    match &ast {
        Ok(ast) => println!("AST: {:#?}", ast),
        Err(e) => println!("Error: {}", e.to_string_with_source(source)),
    }

    let expected = Program {
        functions: vec![Function {
            ident: "main".to_string(),
            params: Parameters { params: vec![] },
            return_type: Type::Int,
            body: Block {
                statements: vec![Statement::Return {
                    value: Some(binary(
                        lit(1),
                        BinaryOperator::Plus,
                        binary(lit(2), BinaryOperator::Star, lit(3)),
                    )),
                    span: Span { start: 23, end: 40 },
                }],
            },
            span: Span { start: 0, end: 16 },
        }],
    };
    assert_eq!(ast.unwrap(), expected);
}

#[test]
fn product_binds_tighter_than_sum() {
    assert_eq!(
        expression_of("1 + 2 * 3"),
        binary(lit(1), BinaryOperator::Plus, binary(lit(2), BinaryOperator::Star, lit(3)))
    );
    assert_eq!(
        expression_of("1 * 2 + 3"),
        binary(binary(lit(1), BinaryOperator::Star, lit(2)), BinaryOperator::Plus, lit(3))
    );
}

#[test]
fn binary_operators_group_to_the_left() {
    assert_eq!(
        expression_of("1 - 2 - 3"),
        binary(binary(lit(1), BinaryOperator::Minus, lit(2)), BinaryOperator::Minus, lit(3))
    );
    assert_eq!(
        expression_of("8 / 4 / 2"),
        binary(binary(lit(8), BinaryOperator::Slash, lit(4)), BinaryOperator::Slash, lit(2))
    );
}

#[test]
fn the_whole_table_orders_an_expression() {
    // or < and < equality < comparison < sum < product < exponent
    let parsed = expression_of("a or b and c == d < e + f * g ** h");
    let expected = binary(
        name("a"),
        BinaryOperator::Or,
        binary(
            name("b"),
            BinaryOperator::And,
            binary(
                name("c"),
                BinaryOperator::EqualEqual,
                binary(
                    name("d"),
                    BinaryOperator::Less,
                    binary(
                        name("e"),
                        BinaryOperator::Plus,
                        binary(
                            name("f"),
                            BinaryOperator::Star,
                            binary(name("g"), BinaryOperator::StarStar, name("h")),
                        ),
                    ),
                ),
            ),
        ),
    );
    assert_eq!(parsed, expected);
}

#[test]
fn and_binds_tighter_than_or_on_either_side() {
    assert_eq!(
        expression_of("a and b or c"),
        binary(binary(name("a"), BinaryOperator::And, name("b")), BinaryOperator::Or, name("c"))
    );
    assert_eq!(
        expression_of("a != b >= c"),
        binary(
            name("a"),
            BinaryOperator::BangEqual,
            binary(name("b"), BinaryOperator::GreaterEqual, name("c"))
        )
    );
}

#[test]
fn compound_assignment_groups_to_the_right() {
    let parsed = expression_of("a += b -= c");
    let expected = Expression::Assign {
        left: Box::new(name("a")),
        operator: AssignOperator::PlusEqual,
        right: Box::new(Expression::Assign {
            left: Box::new(name("b")),
            operator: AssignOperator::MinusEqual,
            right: Box::new(name("c")),
        }),
    };
    assert_eq!(parsed, expected);
}

#[test]
fn compound_assignment_is_the_weakest_operator() {
    let parsed = expression_of("a *= b + 1");
    let expected = Expression::Assign {
        left: Box::new(name("a")),
        operator: AssignOperator::StarEqual,
        right: Box::new(binary(name("b"), BinaryOperator::Plus, lit(1))),
    };
    assert_eq!(parsed, expected);
    let parsed = expression_of("a /= 2");
    let expected = Expression::Assign {
        left: Box::new(name("a")),
        operator: AssignOperator::SlashEqual,
        right: Box::new(lit(2)),
    };
    assert_eq!(parsed, expected);
}

#[test]
fn grouping_is_kept_in_the_tree() {
    assert_eq!(
        expression_of("(1 + 2) * 3"),
        binary(
            group(binary(lit(1), BinaryOperator::Plus, lit(2))),
            BinaryOperator::Star,
            lit(3)
        )
    );
}

#[test]
fn unary_binds_tighter_than_binary() {
    assert_eq!(
        expression_of("-a * !b"),
        binary(
            Expression::Unary { operator: UnaryOperator::Minus, right: Box::new(name("a")) },
            BinaryOperator::Star,
            Expression::Unary { operator: UnaryOperator::Bang, right: Box::new(name("b")) },
        )
    );
    assert_eq!(
        expression_of("- -a"),
        Expression::Unary {
            operator: UnaryOperator::Minus,
            right: Box::new(Expression::Unary {
                operator: UnaryOperator::Minus,
                right: Box::new(name("a"))
            }),
        }
    );
}

#[test]
fn prefix_and_postfix_operators() {
    assert_eq!(
        expression_of("++a"),
        Expression::Prefix { operator: PrefixOperator::PlusPlus, right: Box::new(name("a")) }
    );
    assert_eq!(
        expression_of("--a"),
        Expression::Prefix { operator: PrefixOperator::MinusMinus, right: Box::new(name("a")) }
    );
    assert_eq!(
        expression_of("a++"),
        Expression::Postfix { left: Box::new(name("a")), operator: PostfixOperator::PlusPlus }
    );
    // Postfix binds tighter than prefix, and applies left to right.
    assert_eq!(
        expression_of("-a-- ++"),
        Expression::Unary {
            operator: UnaryOperator::Minus,
            right: Box::new(Expression::Postfix {
                left: Box::new(Expression::Postfix {
                    left: Box::new(name("a")),
                    operator: PostfixOperator::MinusMinus
                }),
                operator: PostfixOperator::PlusPlus,
            }),
        }
    );
}

#[test]
fn calls() {
    assert_eq!(
        expression_of("f()"),
        Expression::Call { callee: Box::new(name("f")), arguments: vec![] }
    );
    assert_eq!(
        expression_of("f(1, a + 2)(3)"),
        Expression::Call {
            callee: Box::new(Expression::Call {
                callee: Box::new(name("f")),
                arguments: vec![lit(1), binary(name("a"), BinaryOperator::Plus, lit(2))],
            }),
            arguments: vec![lit(3)],
        }
    );
}

#[test]
fn literals() {
    assert_eq!(expression_of("1.5"), Expression::FloatLiteral { value: "1.5".to_string() });
    assert_eq!(expression_of("\"s\""), Expression::StringLiteral { value: "s".to_string() });
    assert_eq!(expression_of("true"), Expression::BooleanLiteral { value: true });
    assert_eq!(expression_of("false"), Expression::BooleanLiteral { value: false });
    assert_eq!(expression_of("null"), Expression::NullLiteral);
}

#[test]
fn function_literal() {
    let parsed = expression_of("func (x: int): int { return x; }");
    let expected = Expression::Function {
        params: Parameters { params: vec![Parameter { ident: "x".to_string(), param_type: Type::Int }] },
        return_type: Type::Int,
        body: Block {
            statements: vec![Statement::Return {
                value: Some(name("x")),
                span: Span { start: 37, end: 46 },
            }],
        },
    };
    assert_eq!(parsed, expected);
}

#[test]
fn function_with_parameters_and_every_type() {
    let program = parse_source(
        "func f(a: int, b: float, c: bool, d: string, e: null): void { }",
    )
    .unwrap();
    let expected = Program {
        functions: vec![Function {
            ident: "f".to_string(),
            params: Parameters {
                params: vec![
                    Parameter { ident: "a".to_string(), param_type: Type::Int },
                    Parameter { ident: "b".to_string(), param_type: Type::Float },
                    Parameter { ident: "c".to_string(), param_type: Type::Bool },
                    Parameter { ident: "d".to_string(), param_type: Type::String },
                    Parameter { ident: "e".to_string(), param_type: Type::Null },
                ],
            },
            return_type: Type::Void,
            body: Block { statements: vec![] },
            span: Span { start: 0, end: 59 },
        }],
    };
    assert_eq!(program, expected);
}

#[test]
fn several_functions_in_source_order() {
    let program = parse_source("func a(): int { } func b(): int { }").unwrap();
    let names: Vec<&str> = program.functions.iter().map(|f| f.ident.as_str()).collect();
    assert_eq!(names, vec!["a", "b"]);
}

#[test]
fn empty_source_is_an_empty_program() {
    assert_eq!(parse_source("").unwrap(), Program { functions: vec![] });
    assert_eq!(parse_source("  // nothing\n").unwrap(), Program { functions: vec![] });
}

#[test]
fn variable_declarations() {
    let statements = body_of("let a: int = 1; let b = a;");
    assert_eq!(
        statements,
        vec![
            Statement::VariableDeclaration {
                ident: "a".to_string(),
                var_type: Some(Type::Int),
                value: lit(1),
                span: Span { start: 16, end: 31 },
            },
            Statement::VariableDeclaration {
                ident: "b".to_string(),
                var_type: None,
                value: name("a"),
                span: Span { start: 32, end: 42 },
            },
        ]
    );
}

#[test]
fn assignment_and_expression_statements() {
    let statements = body_of("a = 1; a; a + 1;");
    assert_eq!(
        statements,
        vec![
            Statement::Assign { ident: "a".to_string(), value: lit(1), span: Span { start: 16, end: 22 } },
            Statement::Expression { expression: name("a"), span: Span { start: 23, end: 25 } },
            Statement::Expression {
                expression: binary(name("a"), BinaryOperator::Plus, lit(1)),
                span: Span { start: 26, end: 32 },
            },
        ]
    );
}

#[test]
fn return_with_and_without_a_value() {
    let statements = body_of("return; return 1;");
    assert_eq!(
        statements,
        vec![
            Statement::Return { value: None, span: Span { start: 16, end: 23 } },
            Statement::Return { value: Some(lit(1)), span: Span { start: 24, end: 33 } },
        ]
    );
}

#[test]
fn if_else_chain() {
    let statements = body_of("if (a) { } else if (b) { } else { }");
    let expected = Statement::If {
        condition: name("a"),
        then_branch: Box::new(Statement::Block {
            block: Box::new(Block { statements: vec![] }),
            span: Span { start: 23, end: 26 },
        }),
        else_branch: Some(Box::new(Statement::If {
            condition: name("b"),
            then_branch: Box::new(Statement::Block {
                block: Box::new(Block { statements: vec![] }),
                span: Span { start: 39, end: 42 },
            }),
            else_branch: Some(Box::new(Statement::Block {
                block: Box::new(Block { statements: vec![] }),
                span: Span { start: 48, end: 51 },
            })),
            span: Span { start: 32, end: 51 },
        })),
        span: Span { start: 16, end: 51 },
    };
    assert_eq!(statements, vec![expected]);
}

#[test]
fn if_without_else() {
    let statements = body_of("if (a) { }");
    let expected = Statement::If {
        condition: name("a"),
        then_branch: Box::new(Statement::Block {
            block: Box::new(Block { statements: vec![] }),
            span: Span { start: 23, end: 26 },
        }),
        else_branch: None,
        span: Span { start: 16, end: 26 },
    };
    assert_eq!(statements, vec![expected]);
}

#[test]
fn while_statement() {
    let statements = body_of("while (i < 10) { i += 1; }");
    let expected = Statement::While {
        condition: binary(name("i"), BinaryOperator::Less, lit(10)),
        body: Block {
            statements: vec![Statement::Expression {
                expression: Expression::Assign {
                    left: Box::new(name("i")),
                    operator: AssignOperator::PlusEqual,
                    right: Box::new(lit(1)),
                },
                span: Span { start: 33, end: 40 },
            }],
        },
        span: Span { start: 16, end: 42 },
    };
    assert_eq!(statements, vec![expected]);
}

#[test]
fn do_until_statement() {
    let statements = body_of("do { x += 1; } until (x >= 1);");
    let expected = Statement::DoUntil {
        condition: binary(name("x"), BinaryOperator::GreaterEqual, lit(1)),
        body: Box::new(Statement::Block {
            block: Box::new(Block {
                statements: vec![Statement::Expression {
                    expression: Expression::Assign {
                        left: Box::new(name("x")),
                        operator: AssignOperator::PlusEqual,
                        right: Box::new(lit(1)),
                    },
                    span: Span { start: 21, end: 28 },
                }],
            }),
            span: Span { start: 19, end: 30 },
        }),
        span: Span { start: 16, end: 46 },
    };
    assert_eq!(statements, vec![expected]);
}

#[test]
fn for_statement() {
    let statements = body_of("for (let i: int = 0; i < 3; i += 1) { }");
    let expected = Statement::For {
        init: Box::new(Statement::VariableDeclaration {
            ident: "i".to_string(),
            var_type: Some(Type::Int),
            value: lit(0),
            span: Span { start: 21, end: 36 },
        }),
        condition: binary(name("i"), BinaryOperator::Less, lit(3)),
        increment: Box::new(Statement::Expression {
            expression: Expression::Assign {
                left: Box::new(name("i")),
                operator: AssignOperator::PlusEqual,
                right: Box::new(lit(1)),
            },
            span: Span { start: 44, end: 50 },
        }),
        body: Block { statements: vec![] },
        span: Span { start: 16, end: 55 },
    };
    assert_eq!(statements, vec![expected]);
}

#[test]
fn for_statement_with_assignments() {
    let statements = body_of("for (i = 0; i < 3; i = i + 1) { }");
    let expected = Statement::For {
        init: Box::new(Statement::Assign {
            ident: "i".to_string(),
            value: lit(0),
            span: Span { start: 21, end: 27 },
        }),
        condition: binary(name("i"), BinaryOperator::Less, lit(3)),
        increment: Box::new(Statement::Assign {
            ident: "i".to_string(),
            value: binary(name("i"), BinaryOperator::Plus, lit(1)),
            span: Span { start: 35, end: 44 },
        }),
        body: Block { statements: vec![] },
        span: Span { start: 16, end: 49 },
    };
    assert_eq!(statements, vec![expected]);
}

#[test]
fn nested_blocks() {
    let statements = body_of("{ { } }");
    let expected = Statement::Block {
        block: Box::new(Block {
            statements: vec![Statement::Block {
                block: Box::new(Block { statements: vec![] }),
                span: Span { start: 18, end: 21 },
            }],
        }),
        span: Span { start: 16, end: 23 },
    };
    assert_eq!(statements, vec![expected]);
}

#[test]
fn error_missing_type_in_parameter_list_points_at_the_offending_token() {
    let source = "func f(a: ): int { return 1; }";
    let (message, span) = syntax_error(source);
    assert_eq!(message, "Expected type, got )");
    assert_eq!(span, Span { start: 10, end: 11 });
}

#[test]
fn error_trailing_comma_in_parameter_list() {
    let (message, span) = syntax_error("func f(a: int,): int { }");
    assert_eq!(message, "Expected ident, got )");
    assert_eq!(span, Span { start: 14, end: 15 });
}

#[test]
fn error_missing_comma_in_parameter_list() {
    let (message, span) = syntax_error("func f(a: int b: int): int { }");
    assert_eq!(message, "Expected token ,, got b");
    assert_eq!(span, Span { start: 14, end: 15 });
}

#[test]
fn error_trailing_comma_in_arguments() {
    let (message, span) = syntax_error("func f(): int { g(1,); }");
    assert_eq!(message, "Expected primary expression, got )");
    assert_eq!(span, Span { start: 20, end: 21 });
}

#[test]
fn error_missing_semicolon() {
    let (message, span) = syntax_error("func f(): int { return 1 }");
    assert_eq!(message, "Expected token ;, got }");
    assert_eq!(span, Span { start: 25, end: 26 });
}

#[test]
fn error_at_the_end_of_input() {
    let (message, span) = syntax_error("func f(): int { return 1;");
    assert_eq!(message, "Expected primary expression, got EOF");
    assert_eq!(span, Span { start: 25, end: 25 });
}

#[test]
fn error_outside_a_function() {
    let (message, span) = syntax_error("let a = 1;");
    assert_eq!(message, "Expected token func, got let");
    assert_eq!(span, Span { start: 0, end: 3 });
}

#[test]
fn error_missing_function_name() {
    let (message, span) = syntax_error("func (): int { }");
    assert_eq!(message, "Expected ident, got (");
    assert_eq!(span, Span { start: 5, end: 6 });
}

#[test]
fn error_unclosed_grouping() {
    let (message, span) = syntax_error("func f(): int { (1 + 2; }");
    assert_eq!(message, "Expected token ), got ;");
    assert_eq!(span, Span { start: 22, end: 23 });
}

#[test]
fn error_assignment_to_something_that_is_no_name() {
    let (message, span) = syntax_error("func f(): int { 1 = 2; }");
    assert_eq!(message, "Expected token ;, got =");
    assert_eq!(span, Span { start: 18, end: 19 });
}

#[test]
fn error_is_the_first_one() {
    // Both the parameter list and the body are malformed.
    let (message, span) = syntax_error("func f(a int): int { return }");
    assert_eq!(message, "Expected token :, got int");
    assert_eq!(span, Span { start: 9, end: 12 });
}

#[test]
fn error_in_a_later_function_discards_the_earlier_ones() {
    let (message, span) = syntax_error("func a(): int { return 1; } func b(: int { }");
    assert_eq!(message, "Expected ident, got :");
    assert_eq!(span, Span { start: 35, end: 36 });
}

#[test]
fn error_literal_tokens_are_named_by_their_text() {
    let (message, _) = syntax_error("func f(): int { return 1 2; }");
    assert_eq!(message, "Expected token ;, got 2");
    let (message, _) = syntax_error("func f(): int { return 1 \"s\"; }");
    assert_eq!(message, "Expected token ;, got \"s\"");
}

#[test]
fn parse_of_no_tokens_is_an_empty_program() {
    assert_eq!(Parser::new(vec![]).parse().unwrap(), Program { functions: vec![] });
}

#[test]
fn parse_reads_the_last_token_as_the_end_mark() {
    let tokens = vec![Token::new(TokenType::Function, Span { start: 0, end: 4 })];
    assert_eq!(Parser::new(tokens).parse().unwrap(), Program { functions: vec![] });
}

#[test]
fn parse_stops_at_an_end_mark_inside_the_tokens() {
    let tokens = vec![
        Token::new(TokenType::Eof, Span { start: 0, end: 0 }),
        Token::new(TokenType::Let, Span { start: 0, end: 3 }),
        Token::new(TokenType::Eof, Span { start: 3, end: 3 }),
    ];
    assert_eq!(Parser::new(tokens).parse().unwrap(), Program { functions: vec![] });
}

#[test]
fn a_clone_of_a_tree_equals_the_tree() {
    let source = "func f(a: int, b: bool): int {\n    let g = func (x: int): int { return -x; };\n    for (let i = 0; i < 3; i += 1) { if (b and !(i == 1)) { a += g(i); } else { a--; } }\n    do { a = a * 2; } until (a > 100 or false);\n    while (a > 0) { a /= 2; { let s = \"x\"; let n = null; let r = 1.5; } }\n    return a;\n}";
    let program = parse_source(source).unwrap();
    let copy = program.clone();
    assert_eq!(copy, program);
    let function = program.functions[0].clone();
    assert_eq!(function, program.functions[0]);
    let block = function.body.clone();
    assert_eq!(block, program.functions[0].body);
    for statement in &block.statements {
        assert_eq!(&statement.clone(), statement);
    }
}

#[test]
fn a_failed_parse_leaves_the_parser_at_the_offending_token() {
    let tokens = lex("func f(a: ): int { }".to_string()).unwrap();
    let mut parser = Parser::new(tokens);
    match parser.parse() {
        Err(CompileError::SyntaxError(message, span)) => {
            assert_eq!(message, "Expected type, got )");
            assert_eq!(span, Span { start: 10, end: 11 });
        }
        other => panic!("unexpected result: {:?}", other),
    }
    // The parser still stands at the `)`: a further parse fails at once, at the same token.
    match parser.parse() {
        Err(CompileError::SyntaxError(message, span)) => {
            assert_eq!(message, "Expected token func, got )");
            assert_eq!(span, Span { start: 10, end: 11 });
        }
        other => panic!("unexpected result: {:?}", other),
    }
}

#[test]
fn a_parse_that_succeeds_leaves_the_parser_at_the_end_mark() {
    let tokens = lex("func f(): int { return 1; }".to_string()).unwrap();
    let mut parser = Parser::new(tokens);
    assert_eq!(parser.parse().unwrap().functions.len(), 1);
    assert_eq!(parser.parse().unwrap(), Program { functions: vec![] });
}

#[test]
fn operators_group_below_a_prefix_operator_and_inside_parentheses() {
    let sum_of_product = binary(
        name("a"),
        BinaryOperator::Plus,
        binary(name("b"), BinaryOperator::Star, name("c")),
    );
    assert_eq!(
        expression_of("-(a + b * c)"),
        Expression::Unary {
            operator: UnaryOperator::Minus,
            right: Box::new(group(sum_of_product.clone())),
        }
    );
    // The operand of a prefix operator ends before a binary operator.
    assert_eq!(
        expression_of("!a == b"),
        binary(
            Expression::Unary { operator: UnaryOperator::Bang, right: Box::new(name("a")) },
            BinaryOperator::EqualEqual,
            name("b"),
        )
    );
    assert_eq!(expression_of("((a + b * c))"), group(group(sum_of_product)));
}

#[test]
fn operators_group_in_every_argument_of_a_call() {
    assert_eq!(
        expression_of("f(a + b * c, d - e - g)"),
        Expression::Call {
            callee: Box::new(name("f")),
            arguments: vec![
                binary(
                    name("a"),
                    BinaryOperator::Plus,
                    binary(name("b"), BinaryOperator::Star, name("c")),
                ),
                binary(
                    binary(name("d"), BinaryOperator::Minus, name("e")),
                    BinaryOperator::Minus,
                    name("g"),
                ),
            ],
        }
    );
}

#[test]
fn operators_group_inside_a_function_literal() {
    let parsed = expression_of("func(): int { return 1 - 2 - 3 * 4; }");
    let body = match parsed {
        Expression::Function { body, .. } => body,
        other => panic!("not a function literal: {:?}", other),
    };
    assert_eq!(body.statements.len(), 1);
    match &body.statements[0] {
        Statement::Return { value: Some(value), .. } => assert_eq!(
            *value,
            binary(
                binary(lit(1), BinaryOperator::Minus, lit(2)),
                BinaryOperator::Minus,
                binary(lit(3), BinaryOperator::Star, lit(4)),
            )
        ),
        other => panic!("not a return with a value: {:?}", other),
    }
}
