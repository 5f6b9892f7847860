use incarnation::ast::{Arg, Ast, CompilePrimitive, Type};
use incarnation::parser::{parse, ParserError};
use incarnation::typecheck::{type_check, TypeError};
use incarnation::{StringInterner, Symbol, Token, Tokenizer};

fn read(input: &str) -> (Result<Vec<Ast>, ParserError>, StringInterner) {
    let tokens = Tokenizer::tokenize(input).unwrap();
    let mut interner = StringInterner::new();
    let result = parse(tokens, input, &mut interner);
    (result, interner)
}

fn tree(input: &str) -> Vec<Ast> {
    read(input).0.unwrap()
}

fn failure(input: &str) -> ParserError {
    read(input).0.unwrap_err()
}

fn names(interner: &StringInterner) -> Vec<String> {
    (0..interner.len()).map(|i| interner.get_value(Symbol::new(i)).unwrap()).collect()
}

fn s(n: usize) -> Symbol {
    Symbol::new(n)
}

fn whole(v: i32) -> Ast {
    Ast::Primitive(CompilePrimitive::Integer(v))
}

#[test]
fn nothing_to_read() {
    assert_eq!(tree(""), vec![]);
    assert_eq!(tree("; only a comment\n #| and another |#"), vec![]);
}

#[test]
fn files_that_are_taken_in() {
    let (result, interner) = read("(include lib) ; the library\n(include other)(include lib)");
    assert_eq!(
        result,
        Ok(vec![Ast::Include(s(0)), Ast::Include(s(1)), Ast::Include(s(0))])
    );
    assert_eq!(names(&interner), vec!["lib", "other"]);
    assert_eq!(failure("(include)"), ParserError::Token);
    assert_eq!(failure("(include"), ParserError::EOI);
    assert_eq!(failure("(include lib"), ParserError::EOI);
    assert_eq!(failure("(include lib more)"), ParserError::Closer);
    assert_eq!(failure("(include 5)"), ParserError::Token);
}

#[test]
fn definitions_of_values() {
    let (result, interner) = read("(define x 5) (define y x) (define z (f 1 y)) (define b #t)");
    assert_eq!(
        result,
        Ok(vec![
            Ast::Define { name: s(0), ty: Type::I32, value: Box::new(whole(5)) },
            Ast::Define { name: s(1), ty: Type::Hole, value: Box::new(Ast::Identifier(s(0))) },
            Ast::Define {
                name: s(2),
                ty: Type::Hole,
                value: Box::new(Ast::Application(vec![
                    Ast::Identifier(s(3)),
                    whole(1),
                    Ast::Identifier(s(1)),
                ])),
            },
            Ast::Define {
                name: s(4),
                ty: Type::Bool,
                value: Box::new(Ast::Primitive(CompilePrimitive::Bool(true))),
            },
        ])
    );
    assert_eq!(names(&interner), vec!["x", "y", "z", "f", "b"]);
    assert_eq!(
        tree("(define s \"text\") (define n -12) (define f #f)"),
        vec![
            Ast::Define {
                name: s(0),
                ty: Type::String,
                value: Box::new(Ast::Primitive(CompilePrimitive::String("\"text\"".to_string()))),
            },
            Ast::Define { name: s(1), ty: Type::I32, value: Box::new(whole(-12)) },
            Ast::Define {
                name: s(2),
                ty: Type::Bool,
                value: Box::new(Ast::Primitive(CompilePrimitive::Bool(false))),
            },
        ]
    );
}

#[test]
fn definitions_that_are_refused() {
    assert_eq!(failure("(define"), ParserError::EOI);
    assert_eq!(failure("(define x"), ParserError::Closer);
    assert_eq!(failure("(define x)"), ParserError::Closer);
    assert_eq!(failure("(define x 5"), ParserError::EOI);
    assert_eq!(failure("(define x 5 6)"), ParserError::Closer);
    assert_eq!(failure("(define 5 5)"), ParserError::Token);
    assert_eq!(failure("(define x (begin 1))"), ParserError::Value);
    assert_eq!(failure("(define x (if a b c))"), ParserError::Value);
    assert_eq!(failure("(define x (define y 1))"), ParserError::Value);
    assert_eq!(failure("(define x 99999999999)"), ParserError::Integer);
    assert_eq!(failure("(define x 2147483648)"), ParserError::Integer);
    assert_eq!(failure("(define x 1.5)"), ParserError::Token);
    assert_eq!(failure("(define x #q)"), ParserError::Token);
    assert_eq!(failure("(define x #asm)"), ParserError::Token);
    assert_eq!(failure("(define x #"), ParserError::EOI);
    assert_eq!(failure("(define x #5)"), ParserError::Token);
}

#[test]
fn what_stands_at_the_top() {
    assert_eq!(failure("5"), ParserError::Item);
    assert_eq!(failure("x"), ParserError::Item);
    assert_eq!(failure("(f x)"), ParserError::Item);
    assert_eq!(failure("(if a b c)"), ParserError::Item);
    assert_eq!(failure("(begin)"), ParserError::Item);
    assert_eq!(failure("(#intrinsic (write))"), ParserError::Item);
    assert_eq!(failure(")"), ParserError::Closer);
    assert_eq!(failure("(define x 1) )"), ParserError::Closer);
    assert_eq!(failure("("), ParserError::EOI);
    assert_eq!(failure("(5)"), ParserError::Token);
    assert_eq!(failure("(())"), ParserError::Token);
    assert_eq!(failure("(#t)"), ParserError::Token);
    assert_eq!(failure("(# 5)"), ParserError::Token);
    assert_eq!(failure("(#"), ParserError::EOI);
}

#[test]
fn functions() {
    let (result, interner) = read("(defn (main ()) (exit 0))");
    assert_eq!(
        result,
        Ok(vec![Ast::Defn {
            name: s(0),
            ty: Type::Arrow(vec![], Box::new(Type::Empty)),
            args: vec![],
            body: vec![Ast::Application(vec![Ast::Identifier(s(1)), whole(0)])],
        }])
    );
    assert_eq!(names(&interner), vec!["main", "exit"]);
    let (result, interner) = read("(defn (sum ([a i32] [b i32]) i32) (+ a b))");
    assert_eq!(
        result,
        Ok(vec![Ast::Defn {
            name: s(0),
            ty: Type::Arrow(vec![Type::I32, Type::I32], Box::new(Type::I32)),
            args: vec![Arg::new(s(1), Type::I32), Arg::new(s(2), Type::I32)],
            body: vec![Ast::Application(vec![
                Ast::Identifier(s(3)),
                Ast::Identifier(s(1)),
                Ast::Identifier(s(2)),
            ])],
        }])
    );
    assert_eq!(names(&interner), vec!["sum", "a", "b", "+"]);
    assert_eq!(
        tree("(defn (same ([p (ptr (ptr u8))] [n usize]) (ptr bool)) p)"),
        vec![Ast::Defn {
            name: s(0),
            ty: Type::Arrow(
                vec![Type::Ptr(Box::new(Type::Ptr(Box::new(Type::U8)))), Type::Usize],
                Box::new(Type::Ptr(Box::new(Type::Bool)))
            ),
            args: vec![
                Arg::new(s(1), Type::Ptr(Box::new(Type::Ptr(Box::new(Type::U8))))),
                Arg::new(s(2), Type::Usize),
            ],
            body: vec![Ast::Identifier(s(1))],
        }]
    );
    assert_eq!(
        tree("(defn (stop () !) (exit 1))"),
        vec![Ast::Defn {
            name: s(0),
            ty: Type::Arrow(vec![], Box::new(Type::Never)),
            args: vec![],
            body: vec![Ast::Application(vec![Ast::Identifier(s(1)), whole(1)])],
        }]
    );
    assert_eq!(
        tree("(defn (nothing ()))"),
        vec![Ast::Defn {
            name: s(0),
            ty: Type::Arrow(vec![], Box::new(Type::Empty)),
            args: vec![],
            body: vec![],
        }]
    );
}

#[test]
fn functions_that_are_refused() {
    assert_eq!(failure("(defn"), ParserError::EOI);
    assert_eq!(failure("(defn main"), ParserError::Token);
    assert_eq!(failure("(defn (5 ()))"), ParserError::Token);
    assert_eq!(failure("(defn (main"), ParserError::EOI);
    assert_eq!(failure("(defn (main x))"), ParserError::Token);
    assert_eq!(failure("(defn (main ("), ParserError::EOI);
    assert_eq!(failure("(defn (main (a)))"), ParserError::Token);
    assert_eq!(failure("(defn (main ([5 i32]))))"), ParserError::Token);
    assert_eq!(failure("(defn (main ([a nope]))))"), ParserError::Token);
    assert_eq!(failure("(defn (main ([a ptr]))))"), ParserError::Token);
    assert_eq!(failure("(defn (main ([a (nope u8)]))))"), ParserError::Token);
    assert_eq!(failure("(defn (main ([a 5]))))"), ParserError::Token);
    assert_eq!(failure("(defn (main ([a i32 i32]))))"), ParserError::Closer);
    assert_eq!(failure("(defn (main ([a (ptr u8 u8)]))))"), ParserError::Closer);
    assert_eq!(failure("(defn (main ()"), ParserError::EOI);
    assert_eq!(failure("(defn (main () i32 i32))"), ParserError::Closer);
    assert_eq!(failure("(defn (main () i32))"), ParserError::ReturnType);
    assert_eq!(failure("(defn (main () !))"), ParserError::ReturnType);
    assert_eq!(failure("(defn (main () i32) (define x 1))"), ParserError::ReturnType);
    assert_eq!(failure("(defn (main () i32) (include x))"), ParserError::ReturnType);
    assert_eq!(failure("(defn (main ()) 1 2)"), ParserError::NonfinalValue);
    assert_eq!(failure("(defn (main ()) x (f))"), ParserError::NonfinalValue);
    assert_eq!(failure("(defn (main ()) (f) (#asm))"), ParserError::Asm);
    assert_eq!(failure("(defn (main ()) (#asm) (f))"), ParserError::Asm);
    assert_eq!(failure("(defn (main ()) (#asm (mov rax 1)"), ParserError::EOI);
}

#[test]
fn choices_and_blocks() {
    let (result, interner) = read("(defn (f ([a bool]) i32) (if a 1 {begin (g) 2}))");
    assert_eq!(
        result,
        Ok(vec![Ast::Defn {
            name: s(0),
            ty: Type::Arrow(vec![Type::Bool], Box::new(Type::I32)),
            args: vec![Arg::new(s(1), Type::Bool)],
            body: vec![Ast::If {
                predicate: Box::new(Ast::Identifier(s(1))),
                consequent: Box::new(whole(1)),
                alternative: Some(Box::new(Ast::Block(vec![
                    Ast::Application(vec![Ast::Identifier(s(2))]),
                    whole(2),
                ]))),
            }],
        }])
    );
    assert_eq!(names(&interner), vec!["f", "a", "g"]);
    assert_eq!(
        tree("(defn (f ()) (if #t (g)))"),
        vec![Ast::Defn {
            name: s(0),
            ty: Type::Arrow(vec![], Box::new(Type::Empty)),
            args: vec![],
            body: vec![Ast::If {
                predicate: Box::new(Ast::Primitive(CompilePrimitive::Bool(true))),
                consequent: Box::new(Ast::Application(vec![Ast::Identifier(s(1))])),
                alternative: None,
            }],
        }]
    );
    assert_eq!(failure("(defn (f ()) (if))"), ParserError::Closer);
    assert_eq!(failure("(defn (f ()) (if a))"), ParserError::Closer);
    assert_eq!(failure("(defn (f ()) (if a b"), ParserError::EOI);
    assert_eq!(failure("(defn (f ()) (if a b c d))"), ParserError::Closer);
    assert_eq!(failure("(defn (f ()) (if a b ; nothing more\n))"), ParserError::Closer);
    assert_eq!(failure("(defn (f ()) (if (define x 1) b c))"), ParserError::Value);
    assert_eq!(failure("(defn (f ()) (if a (include x) c))"), ParserError::Value);
    assert_eq!(failure("(defn (f ()) (if a b (#asm)))"), ParserError::Value);
    assert_eq!(failure("(defn (f ()) (g (begin)))"), ParserError::Value);
}

#[test]
fn inline_assembly_is_kept_as_tokens() {
    let input = "(defn (f ()) (#asm (mov rax 60) ; leave\n (syscall)))";
    let tokens: Vec<Token> = Tokenizer::tokenize(input).unwrap();
    let program = tree(input);
    assert_eq!(program.len(), 1);
    match &program[0] {
        Ast::Defn { body, .. } => {
            assert_eq!(body.len(), 1);
            match &body[0] {
                Ast::Asm(kept) => {
                    let first = tokens.iter().position(|t| t.as_str(input) == "asm").unwrap() + 1;
                    assert_eq!(kept.as_slice(), &tokens[first..tokens.len() - 2]);
                    assert_eq!(kept.len(), 9);
                    assert!(kept.iter().any(|t| t.commentp()));
                },
                other => panic!("{:?}", other),
            }
        },
        other => panic!("{:?}", other),
    }
}

#[test]
fn a_program_is_read_and_checked() {
    let input = r#"
    (define STDOUT 1)

    (defn (write ([fd i32] [data string] [size i32])))

    (defn (exit ([status i32])))

    (defn (print ([s string]))
        (write STDOUT s 5))

    (defn (main ())
        (print "hello, world!\n")
        (exit 0))
    "#;
    let program = tree(input);
    assert_eq!(program.len(), 5);
    assert_eq!(type_check(&program), Ok(()));
    let program = tree("(defn (f ([a i32]) bool) a)");
    assert_eq!(type_check(&program), Err(TypeError::Incompatible));
    let program = tree("(defn (f ([a i32]) i32) (g a))");
    assert_eq!(type_check(&program), Err(TypeError::UnboundIdentifier));
    let program = tree("(defn (g ([a bool]) i32) 1) (defn (f ([a i32]) i32) (g a))");
    assert_eq!(type_check(&program), Err(TypeError::Incompatible));
    let program = tree("(defn (g ([a i32]) i32) 1) (defn (f ([a i32]) i32) (g a a))");
    assert_eq!(type_check(&program), Err(TypeError::Args));
    let program = tree("(define a b) (define b c) (define c 7) (defn (f () i32) a)");
    assert_eq!(type_check(&program), Ok(()));
}

#[test]
fn parser_error_messages() {
    assert_eq!(ParserError::EOI.to_string(), "Unexpected end of input");
    assert_eq!(ParserError::Closer.to_string(), "Expected closer");
    assert_eq!(ParserError::Token.to_string(), "Unexpected token");
    assert_eq!(ParserError::Item.to_string(), "Expected item");
    assert_eq!(
        ParserError::Asm.to_string(),
        "Inline assembly must be the only item in a procedure"
    );
    assert_eq!(
        ParserError::ReturnType.to_string(),
        "Returned value does not match the expected return type"
    );
    assert_eq!(
        ParserError::NonfinalValue.to_string(),
        "Primitive/identifier can only be the last item in a procedure"
    );
    assert_eq!(ParserError::Value.to_string(), "Expected expression");
    assert_eq!(ParserError::Integer.to_string(), "Integer does not fit 32 bits");
}
