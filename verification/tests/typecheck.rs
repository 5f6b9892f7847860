use incarnation::ast::{Arg, Ast, CompilePrimitive, Type};
use incarnation::environment::Environment;
use incarnation::typecheck::{
    check_application, check_block, check_branch, check_fun, check_if, type_check, TypeError,
};
use incarnation::{Symbol, Token, Tokenizer};
use std::collections::HashMap;

fn sym(n: usize) -> Symbol {
    Symbol::new(n)
}

fn id(n: usize) -> Ast {
    Ast::Identifier(sym(n))
}

fn number(v: i32) -> Ast {
    Ast::Primitive(CompilePrimitive::Integer(v))
}

fn string(v: &str) -> Ast {
    Ast::Primitive(CompilePrimitive::String(v.to_string()))
}

fn truth(v: bool) -> Ast {
    Ast::Primitive(CompilePrimitive::Bool(v))
}

fn define(n: usize, ty: Type, value: Ast) -> Ast {
    Ast::Define { name: sym(n), ty, value: Box::new(value) }
}

fn defn(n: usize, args: Vec<(usize, Type)>, ret: Type, body: Vec<Ast>) -> Ast {
    let ty = Type::Arrow(args.iter().map(|a| a.1.copy()).collect(), Box::new(ret));
    let args = args.into_iter().map(|(n, ty)| Arg::new(sym(n), ty)).collect();
    Ast::Defn { name: sym(n), ty, args, body }
}

fn when(predicate: Ast, consequent: Ast, alternative: Option<Ast>) -> Ast {
    Ast::If {
        predicate: Box::new(predicate),
        consequent: Box::new(consequent),
        alternative: alternative.map(Box::new),
    }
}

fn call(parts: Vec<Ast>) -> Ast {
    Ast::Application(parts)
}

fn empty_env() -> Environment {
    Environment::from_hashmap(HashMap::new())
}

#[test]
fn types_are_compared_and_copied_in_depth() {
    let f = Type::Arrow(vec![Type::I32, Type::Ptr(Box::new(Type::U8))], Box::new(Type::Bool));
    let g = Type::Arrow(vec![Type::I32, Type::Ptr(Box::new(Type::U8))], Box::new(Type::Bool));
    let h = Type::Arrow(vec![Type::I32, Type::Ptr(Box::new(Type::Bool))], Box::new(Type::Bool));
    let short = Type::Arrow(vec![Type::I32], Box::new(Type::Bool));
    let other = Type::Arrow(vec![Type::I32, Type::Ptr(Box::new(Type::U8))], Box::new(Type::Never));
    assert!(f.same(&g));
    assert!(!f.same(&h));
    assert!(!f.same(&short));
    assert!(!f.same(&other));
    assert!(!f.same(&Type::Bool));
    assert!(Type::Empty.same(&Type::Empty));
    assert!(!Type::Empty.same(&Type::Never));
    assert_eq!(f.copy(), g);
    assert_eq!(Type::Ptr(Box::new(Type::String)).copy(), Type::Ptr(Box::new(Type::String)));
    assert!(f.is_arrow());
    assert!(!Type::U8.is_arrow());
    assert!(Type::Hole.is_hole());
    assert!(!Type::Usize.is_hole());
    let (args, ret) = f.arrow_split();
    assert_eq!(args, vec![Type::I32, Type::Ptr(Box::new(Type::U8))]);
    assert_eq!(ret, Type::Bool);
}

#[test]
fn types_by_name() {
    let input = "u8 usize bool string i32 ! ptr U8 other";
    let tokens: Vec<Token> = Tokenizer::tokenize(input).unwrap();
    let expected = [
        Some(Type::U8),
        Some(Type::Usize),
        Some(Type::Bool),
        Some(Type::String),
        Some(Type::I32),
        Some(Type::Never),
        None,
        None,
        None,
    ];
    assert_eq!(tokens.len(), expected.len());
    for (token, ty) in tokens.iter().zip(expected) {
        assert_eq!(Type::try_from_token(*token, input, None), ty);
    }
    assert_eq!(
        Type::try_from_token(tokens[6], input, Some(Type::U8)),
        Some(Type::Ptr(Box::new(Type::U8)))
    );
    assert_eq!(Type::try_from_token(tokens[0], input, Some(Type::I32)), Some(Type::U8));
    assert_eq!(Type::from_token(tokens[4], input, None), Type::I32);
    assert_eq!(
        Type::from_token(tokens[6], input, Some(Type::Bool)),
        Type::Ptr(Box::new(Type::Bool))
    );
}

#[test]
fn types_read_off_the_tree() {
    assert_eq!(number(1).ty(), Type::I32);
    assert_eq!(string("a").ty(), Type::String);
    assert_eq!(truth(true).ty(), Type::Bool);
    assert_eq!(id(3).ty(), Type::Hole);
    assert_eq!(call(vec![id(1), number(2)]).ty(), Type::Hole);
    assert_eq!(call(vec![number(1)]).ty(), Type::I32);
    assert_eq!(when(truth(true), number(1), None).ty(), Type::I32);
    assert_eq!(Ast::Block(vec![]).ty(), Type::Empty);
    assert_eq!(Ast::Block(vec![number(1), string("x")]).ty(), Type::String);
    assert_eq!(CompilePrimitive::Integer(7).ty(), Type::I32);
    assert_eq!(number(1).try_ty(), Some(Type::I32));
    assert_eq!(id(3).try_ty(), Some(Type::Hole));
    assert_eq!(Ast::Block(vec![]).try_ty(), Some(Type::Empty));
    assert_eq!(Ast::Block(vec![number(1), string("x")]).try_ty(), Some(Type::String));
    assert_eq!(when(truth(true), truth(false), None).try_ty(), Some(Type::Bool));
    assert_eq!(call(vec![]).try_ty(), None);
    assert_eq!(call(vec![Ast::Include(sym(1))]).try_ty(), None);
    assert_eq!(Ast::Include(sym(1)).try_ty(), None);
    assert_eq!(Ast::Asm(vec![]).try_ty(), None);
    assert_eq!(Ast::Block(vec![number(1), Ast::Intrinsic(vec![])]).try_ty(), None);
    assert_eq!(define(1, Type::I32, number(1)).try_ty(), None);
    let arg = Arg::new(sym(4), Type::Usize);
    assert_eq!(arg.name, sym(4));
    assert_eq!(arg.ty, Type::Usize);
}

#[test]
fn scopes_within_scopes() {
    let mut map = HashMap::new();
    map.insert(1, Type::I32);
    map.insert(2, Type::Bool);
    let mut env = Environment::from_hashmap(map);
    assert_eq!(env.depth(), 1);
    assert_eq!(env.lookup_variable_type(sym(1)), Some(Type::I32));
    assert_eq!(env.lookup_variable_type(sym(3)), None);
    env.extend();
    assert_eq!(env.depth(), 2);
    assert_eq!(env.lookup_variable_type(sym(1)), Some(Type::I32));
    env.define_variable(sym(1), Type::String);
    env.define_variable(sym(3), Type::U8);
    assert_eq!(env.lookup_variable_type(sym(1)), Some(Type::String));
    assert_eq!(env.lookup_variable_type(sym(2)), Some(Type::Bool));
    assert_eq!(env.lookup_variable_type(sym(3)), Some(Type::U8));
    env.define_variable(sym(3), Type::Usize);
    assert_eq!(env.lookup_variable_type(sym(3)), Some(Type::Usize));
    env.leave();
    assert_eq!(env.depth(), 1);
    assert_eq!(env.lookup_variable_type(sym(1)), Some(Type::I32));
    assert_eq!(env.lookup_variable_type(sym(3)), None);
}

#[test]
fn definitions_with_stated_types() {
    assert_eq!(type_check(&vec![]), Ok(()));
    assert_eq!(type_check(&vec![Ast::Include(sym(0))]), Ok(()));
    assert_eq!(type_check(&vec![define(1, Type::I32, number(5))]), Ok(()));
    assert_eq!(type_check(&vec![define(1, Type::Bool, number(5))]), Ok(()));
}

#[test]
fn unknown_types_are_taken_over_in_passes() {
    // a = b, b = c, c = 5: the order of the definitions does not matter.
    let program = vec![
        define(1, Type::Hole, id(2)),
        define(2, Type::Hole, id(3)),
        define(3, Type::I32, number(5)),
    ];
    assert_eq!(type_check(&program), Ok(()));
    let program = vec![
        define(3, Type::I32, number(5)),
        define(2, Type::Hole, id(3)),
        define(1, Type::Hole, call(vec![id(2)])),
    ];
    assert_eq!(type_check(&program), Ok(()));
    assert_eq!(
        type_check(&vec![define(1, Type::Hole, id(9))]),
        Err(TypeError::UnboundIdentifier)
    );
    assert_eq!(type_check(&vec![define(1, Type::Hole, id(1))]), Err(TypeError::Unresolved));
    assert_eq!(type_check(&vec![define(1, Type::Hole, number(1))]), Err(TypeError::Unresolved));
    let circle = vec![define(1, Type::Hole, id(2)), define(2, Type::Hole, id(1))];
    assert_eq!(type_check(&circle), Err(TypeError::Unresolved));
}

#[test]
fn a_long_chain_needs_more_passes_than_are_made() {
    // Name i takes its type from name i + 1: a pass settles one name of such a chain.
    let chain = |n: usize| -> Vec<Ast> {
        let mut program: Vec<Ast> = (0..n).map(|i| define(i, Type::Hole, id(i + 1))).collect();
        program.push(define(n, Type::I32, number(0)));
        program
    };
    assert_eq!(type_check(&chain(3)), Ok(()));
    assert_eq!(type_check(&chain(6)), Ok(()));
    assert_eq!(type_check(&chain(20)), Ok(()));
    assert_eq!(type_check(&chain(21)), Err(TypeError::Unresolved));
    let mut backwards = chain(40);
    backwards.reverse();
    assert_eq!(type_check(&backwards), Ok(()));
}

#[test]
fn functions_are_checked_against_their_types() {
    let ok = defn(1, vec![(2, Type::I32)], Type::I32, vec![id(2)]);
    assert_eq!(type_check(&vec![ok]), Ok(()));
    let wrong = defn(1, vec![(2, Type::I32)], Type::Bool, vec![id(2)]);
    assert_eq!(type_check(&vec![wrong]), Err(TypeError::Incompatible));
    let empty = defn(1, vec![], Type::Empty, vec![number(1)]);
    assert_eq!(type_check(&vec![empty]), Ok(()));
    let never = defn(1, vec![], Type::Never, vec![]);
    assert_eq!(type_check(&vec![never]), Ok(()));
    let nothing = defn(1, vec![], Type::I32, vec![]);
    assert_eq!(type_check(&vec![nothing]), Err(TypeError::Incompatible));
    let unbound = defn(1, vec![], Type::I32, vec![id(7)]);
    assert_eq!(type_check(&vec![unbound]), Err(TypeError::UnboundIdentifier));
    let later = vec![
        defn(1, vec![], Type::I32, vec![call(vec![id(2), number(1)])]),
        defn(2, vec![(3, Type::I32)], Type::I32, vec![id(3)]),
    ];
    assert_eq!(type_check(&later), Ok(()));
    let not_a_function =
        Ast::Defn { name: sym(1), ty: Type::I32, args: vec![], body: vec![number(1)] };
    assert_eq!(type_check(&vec![not_a_function]), Err(TypeError::Form));
    assert_eq!(type_check(&vec![number(1)]), Err(TypeError::Form));
    assert_eq!(type_check(&vec![Ast::Block(vec![])]), Err(TypeError::Form));
}

#[test]
fn calls_are_checked() {
    let mut map = HashMap::new();
    map.insert(1, Type::Arrow(vec![Type::I32, Type::Bool], Box::new(Type::String)));
    map.insert(2, Type::I32);
    map.insert(3, Type::Arrow(vec![], Box::new(Type::I32)));
    let mut env = Environment::from_hashmap(map);
    assert_eq!(check_application(&vec![id(1), number(1), truth(true)], &mut env), Ok(Type::String));
    assert_eq!(check_application(&vec![id(1), id(2), truth(true)], &mut env), Ok(Type::String));
    assert_eq!(
        check_application(&vec![id(1), call(vec![id(3)]), truth(false)], &mut env),
        Ok(Type::String)
    );
    assert_eq!(
        check_application(&vec![id(1), Ast::Block(vec![number(1)]), truth(false)], &mut env),
        Ok(Type::String)
    );
    assert_eq!(
        check_application(
            &vec![id(1), when(truth(true), number(1), Some(number(2))), truth(false)],
            &mut env
        ),
        Ok(Type::String)
    );
    assert_eq!(
        check_application(&vec![id(1), when(truth(true), number(1), None), truth(false)], &mut env),
        Err(TypeError::Incompatible)
    );
    assert_eq!(check_application(&vec![id(1), number(1)], &mut env), Err(TypeError::Args));
    assert_eq!(
        check_application(&vec![id(1), truth(true), number(1)], &mut env),
        Err(TypeError::Incompatible)
    );
    assert_eq!(
        check_application(&vec![id(1), id(9), truth(true)], &mut env),
        Err(TypeError::UnboundIdentifier)
    );
    assert_eq!(check_application(&vec![id(2)], &mut env), Err(TypeError::Incompatible));
    assert_eq!(check_application(&vec![id(9)], &mut env), Err(TypeError::UnboundIdentifier));
    assert_eq!(check_application(&vec![], &mut env), Err(TypeError::Form));
    assert_eq!(check_application(&vec![number(1)], &mut env), Err(TypeError::Form));
    assert_eq!(
        check_application(&vec![id(1), Ast::Include(sym(0)), truth(true)], &mut env),
        Err(TypeError::Form)
    );
    assert_eq!(env.depth(), 1);
}

#[test]
fn blocks_are_checked() {
    let mut env = empty_env();
    assert_eq!(check_block(&vec![], &mut env), Ok(Type::Empty));
    assert_eq!(check_block(&vec![number(1), string("never read")], &mut env), Ok(Type::I32));
    assert_eq!(
        check_block(&vec![define(1, Type::I32, number(1)), id(1)], &mut env),
        Ok(Type::I32)
    );
    assert_eq!(env.lookup_variable_type(sym(1)), Some(Type::I32));
    let mut env = empty_env();
    assert_eq!(check_block(&vec![define(1, Type::I32, number(1))], &mut env), Ok(Type::Empty));
    assert_eq!(
        check_block(&vec![define(1, Type::Bool, number(1))], &mut env),
        Err(TypeError::Incompatible)
    );
    assert_eq!(
        check_block(&vec![define(1, Type::Bool, id(8))], &mut env),
        Err(TypeError::UnboundIdentifier)
    );
    assert_eq!(
        check_block(&vec![define(2, Type::I32, Ast::Block(vec![]))], &mut env),
        Err(TypeError::Form)
    );
    // What an inner block defines is gone behind it.
    let mut env = empty_env();
    let inner = Ast::Block(vec![define(5, Type::I32, number(1)), id(5)]);
    assert_eq!(check_block(&vec![inner], &mut env), Ok(Type::I32));
    let inner = Ast::Block(vec![define(5, Type::I32, number(1)), id(5)]);
    assert_eq!(check_block(&vec![inner, id(5)], &mut env), Err(TypeError::UnboundIdentifier));
    assert_eq!(env.depth(), 1);
    // A function is known in its own body and behind its definition.
    let mut env = empty_env();
    let f = defn(1, vec![(2, Type::I32)], Type::I32, vec![call(vec![id(1), id(2)])]);
    assert_eq!(check_block(&vec![f, call(vec![id(1), number(3)])], &mut env), Ok(Type::I32));
    assert_eq!(env.lookup_variable_type(sym(2)), None);
    let mut env = empty_env();
    assert_eq!(
        check_block(&vec![Ast::Asm(vec![]), Ast::Include(sym(1)), Ast::Intrinsic(vec![])], &mut env),
        Ok(Type::Empty)
    );
    assert_eq!(
        check_block(&vec![when(truth(true), number(1), Some(string("a")))], &mut env),
        Ok(Type::Empty)
    );
    assert_eq!(
        check_block(&vec![when(truth(true), number(1), Some(number(2)))], &mut env),
        Ok(Type::I32)
    );
    assert_eq!(
        check_block(&vec![when(number(1), number(1), None), number(2)], &mut env),
        Err(TypeError::Incompatible)
    );
}

#[test]
fn choices_are_checked() {
    let mut env = empty_env();
    assert_eq!(check_if(&when(truth(true), number(1), Some(number(2))), &mut env), Ok(Some(Type::I32)));
    assert_eq!(check_if(&when(truth(true), number(1), Some(string("a"))), &mut env), Ok(None));
    assert_eq!(check_if(&when(truth(true), number(1), None), &mut env), Ok(None));
    assert_eq!(
        check_if(&when(number(0), number(1), Some(number(2))), &mut env),
        Err(TypeError::Incompatible)
    );
    assert_eq!(
        check_if(&when(truth(true), id(4), None), &mut env),
        Err(TypeError::UnboundIdentifier)
    );
    assert_eq!(
        check_if(&when(truth(true), Ast::Include(sym(1)), None), &mut env),
        Err(TypeError::Incompatible)
    );
    assert_eq!(check_if(&number(1), &mut env), Err(TypeError::Form));
    let nested = when(when(truth(true), truth(false), Some(truth(true))), number(1), Some(number(2)));
    assert_eq!(check_if(&nested, &mut env), Ok(Some(Type::I32)));
    assert_eq!(check_branch(&when(truth(true), number(1), None), &mut env), Ok(Type::Empty));
    assert_eq!(check_branch(&Ast::Block(vec![string("a")]), &mut env), Ok(Type::String));
    assert_eq!(check_branch(&Ast::Asm(vec![]), &mut env), Err(TypeError::Incompatible));
}

#[test]
fn function_bodies() {
    let mut env = empty_env();
    let f = Type::Arrow(vec![Type::I32], Box::new(Type::I32));
    let args = vec![Arg::new(sym(1), Type::I32)];
    assert_eq!(check_fun(&f, &args, &vec![id(1)], &mut env), Ok(()));
    assert_eq!(check_fun(&f, &args, &vec![truth(true)], &mut env), Err(TypeError::Incompatible));
    assert_eq!(check_fun(&Type::I32, &args, &vec![id(1)], &mut env), Err(TypeError::Form));
    assert_eq!(env.depth(), 1);
    assert_eq!(env.lookup_variable_type(sym(1)), None);
}

#[test]
fn type_error_messages() {
    assert_eq!(TypeError::UnboundIdentifier.to_string(), "Unbound identifier");
    assert_eq!(TypeError::Incompatible.to_string(), "Incompatible types");
    assert_eq!(TypeError::Args.to_string(), "Incorrect number of arguments");
    assert_eq!(TypeError::Unresolved.to_string(), "Type of a definition is not known");
    assert_eq!(TypeError::Form.to_string(), "Unexpected form");
}
