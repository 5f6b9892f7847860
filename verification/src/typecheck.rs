//! The type checker of the surface language: it gives every definition at
//! the top of a program its type, and then checks the body of every
//! function against the type that the function states.

use crate::ast::{Arg, Ast, Shape, Type};
use crate::environment::{bindings, define, extend, lookup, Environment};
use std::collections::HashMap;
use vstd::prelude::*;
use vstd::string::StringExecFns;

verus! {

broadcast use vstd::std_specs::hash::group_hash_axioms;

/// Why a program does not type-check.
#[derive(Copy, Clone, Debug, PartialEq, Eq, Structural)]
pub enum TypeError {
    /// A name is used that nothing binds.
    UnboundIdentifier,
    /// A value is of another type than its place asks for.
    Incompatible,
    /// A call has more or fewer arguments than the function takes.
    Args,
    /// The type of a definition at the top of the program stays unknown.
    Unresolved,
    /// A piece stands where no piece of its kind can stand.
    Form,
}

impl TypeError {
    /// The message of the error.
    pub open spec fn text(self) -> Seq<char> {
        match self {
            TypeError::UnboundIdentifier => "Unbound identifier"@,
            TypeError::Incompatible => "Incompatible types"@,
            TypeError::Args => "Incorrect number of arguments"@,
            TypeError::Unresolved => "Type of a definition is not known"@,
            TypeError::Form => "Unexpected form"@,
        }
    }

    /// The message of the error.
    pub fn to_string(&self) -> (message: String)
        ensures
            message@ == self.text(),
    {
        String::from_str(
            match self {
                TypeError::UnboundIdentifier => "Unbound identifier",
                TypeError::Incompatible => "Incompatible types",
                TypeError::Args => "Incorrect number of arguments",
                TypeError::Unresolved => "Type of a definition is not known",
                TypeError::Form => "Unexpected form",
            },
        )
    }
}

/// The type of a name in scopes, or the error of a name that nothing binds.
pub open spec fn type_of_name(scopes: Seq<Map<usize, Shape>>, name: usize) -> Result<
    Shape,
    TypeError,
> {
    match lookup(scopes, name) {
        Some(shape) => Ok(shape),
        None => Err(TypeError::UnboundIdentifier),
    }
}

/// The scopes after the arguments of a function, from `i` on, are bound in
/// the innermost scope in their order.
pub open spec fn with_args(scopes: Seq<Map<usize, Shape>>, args: Seq<Arg>, i: int) -> Seq<
    Map<usize, Shape>,
>
    decreases args.len() - i,
{
    if 0 <= i < args.len() {
        with_args(define(scopes, args[i].name.0, args[i].ty@), args, i + 1)
    } else {
        scopes
    }
}

/// The type of a block from its piece `i` on: the pieces are taken in their
/// order, each definition binds its name for the pieces behind it, and the
/// first value or name gives the type; else the last piece does; a block
/// that ends in a definition, or in nothing, is of the empty type.
pub open spec fn block(body: Seq<Ast>, i: int, scopes: Seq<Map<usize, Shape>>) -> Result<
    Shape,
    TypeError,
>
    decreases body, body.len() - i,
{
    if !(0 <= i < body.len()) {
        Ok(Shape::Empty)
    } else {
        let last = i == body.len() - 1;
        match body[i] {
            Ast::Include(_) | Ast::Asm(_) | Ast::Intrinsic(_) => block(body, i + 1, scopes),
            Ast::Define { name, ty, value } => {
                let found = match *value {
                    Ast::Primitive(p) => Ok(p.shape()),
                    Ast::Identifier(s) => type_of_name(scopes, s.0),
                    Ast::Application(a) => application(a@, scopes),
                    _ => Err(TypeError::Form),
                };
                match found {
                    Err(e) => Err(e),
                    Ok(shape) => if shape != ty@ {
                        Err(TypeError::Incompatible)
                    } else {
                        block(body, i + 1, define(scopes, name.0, ty@))
                    },
                }
            },
            Ast::Defn { name, ty, args, body: inner } => {
                let outer = define(scopes, name.0, ty@);
                match function(ty@, args@, inner@, outer) {
                    Err(e) => Err(e),
                    Ok(_) => block(body, i + 1, outer),
                }
            },
            Ast::Application(a) => match application(a@, scopes) {
                Err(e) => Err(e),
                Ok(shape) => if last {
                    Ok(shape)
                } else {
                    block(body, i + 1, scopes)
                },
            },
            Ast::Primitive(p) => Ok(p.shape()),
            Ast::Identifier(s) => type_of_name(scopes, s.0),
            Ast::Block(b) => match block(b@, 0, extend(scopes)) {
                Err(e) => Err(e),
                Ok(shape) => if last {
                    Ok(shape)
                } else {
                    block(body, i + 1, scopes)
                },
            },
            Ast::If { .. } => match choice(body[i], scopes) {
                Err(e) => Err(e),
                Ok(shape) => if last {
                    Ok(
                        match shape {
                            Some(shape) => shape,
                            None => Shape::Empty,
                        },
                    )
                } else {
                    block(body, i + 1, scopes)
                },
            },
        }
    }
}

/// The scopes when the check of a block from its piece `i` on ends, with a
/// type or with an error: the innermost scope binds what the block defined
/// up to there, and the scopes around it are as they were.
pub open spec fn scopes_after(body: Seq<Ast>, i: int, scopes: Seq<Map<usize, Shape>>) -> Seq<
    Map<usize, Shape>,
>
    decreases body.len() - i,
{
    if !(0 <= i < body.len()) {
        scopes
    } else {
        let last = i == body.len() - 1;
        match body[i] {
            Ast::Include(_) | Ast::Asm(_) | Ast::Intrinsic(_) => scopes_after(body, i + 1, scopes),
            Ast::Define { name, ty, value } => {
                let found = match *value {
                    Ast::Primitive(p) => Ok(p.shape()),
                    Ast::Identifier(s) => type_of_name(scopes, s.0),
                    Ast::Application(a) => application(a@, scopes),
                    _ => Err(TypeError::Form),
                };
                if found == Ok::<Shape, TypeError>(ty@) {
                    scopes_after(body, i + 1, define(scopes, name.0, ty@))
                } else {
                    scopes
                }
            },
            Ast::Defn { name, ty, args, body: inner } => {
                let outer = define(scopes, name.0, ty@);
                if function(ty@, args@, inner@, outer) is Ok {
                    scopes_after(body, i + 1, outer)
                } else {
                    outer
                }
            },
            Ast::Application(a) => if application(a@, scopes) is Ok && !last {
                scopes_after(body, i + 1, scopes)
            } else {
                scopes
            },
            Ast::Primitive(_) => scopes,
            Ast::Identifier(_) => scopes,
            Ast::Block(b) => if block(b@, 0, extend(scopes)) is Ok && !last {
                scopes_after(body, i + 1, scopes)
            } else {
                scopes
            },
            Ast::If { .. } => if choice(body[i], scopes) is Ok && !last {
                scopes_after(body, i + 1, scopes)
            } else {
                scopes
            },
        }
    }
}

/// Whether the body of a function is of the type that the function states:
/// checked in a scope of its own that binds the arguments. A function that
/// states the empty type, or that it never returns, may end in anything.
pub open spec fn function(
    ty: Shape,
    args: Seq<Arg>,
    body: Seq<Ast>,
    scopes: Seq<Map<usize, Shape>>,
) -> Result<(), TypeError>
    decreases body, body.len() + 1,
{
    match ty {
        Shape::Arrow(_, ret) => match block(body, 0, with_args(extend(scopes), args, 0)) {
            Err(e) => Err(e),
            Ok(shape) => if *ret != Shape::Empty && *ret != Shape::Never && shape != *ret {
                Err(TypeError::Incompatible)
            } else {
                Ok(())
            },
        },
        _ => Err(TypeError::Form),
    }
}

/// The type of a call: the type of the result of the function that is
/// called, once the arguments are as many as it takes and each of its type.
pub open spec fn application(a: Seq<Ast>, scopes: Seq<Map<usize, Shape>>) -> Result<
    Shape,
    TypeError,
>
    decreases a, a.len() + 1,
{
    if a.len() == 0 {
        Err(TypeError::Form)
    } else {
        match a[0] {
            Ast::Identifier(s) => match type_of_name(scopes, s.0) {
                Err(e) => Err(e),
                Ok(Shape::Arrow(takes, ret)) => if takes.len() != a.len() - 1 {
                    Err(TypeError::Args)
                } else {
                    match arguments(a, 0, takes, scopes) {
                        Err(e) => Err(e),
                        Ok(_) => Ok(*ret),
                    }
                },
                Ok(_) => Err(TypeError::Incompatible),
            },
            _ => Err(TypeError::Form),
        }
    }
}

/// Whether the arguments of a call, from argument `j` on, are of the types
/// that the function takes.
pub open spec fn arguments(
    a: Seq<Ast>,
    j: int,
    takes: Seq<Shape>,
    scopes: Seq<Map<usize, Shape>>,
) -> Result<(), TypeError>
    decreases a, a.len() - j,
{
    if !(0 <= j < takes.len() && j + 1 < a.len()) {
        Ok(())
    } else {
        let found = match a[j + 1] {
            Ast::Primitive(p) => Ok(p.shape()),
            Ast::Identifier(s) => type_of_name(scopes, s.0),
            Ast::Application(inner) => application(inner@, scopes),
            Ast::Block(b) => block(b@, 0, extend(scopes)),
            Ast::If { .. } => match choice(a[j + 1], scopes) {
                Err(e) => Err(e),
                Ok(Some(shape)) => Ok(shape),
                Ok(None) => Err(TypeError::Incompatible),
            },
            _ => Err(TypeError::Form),
        };
        match found {
            Err(e) => Err(e),
            Ok(shape) => if shape != takes[j] {
                Err(TypeError::Incompatible)
            } else {
                arguments(a, j + 1, takes, scopes)
            },
        }
    }
}

/// The type of a piece of a choice: a choice, a block, a call, a name or a
/// value. A choice whose branches differ counts as of the empty type.
pub open spec fn branch(m: Ast, scopes: Seq<Map<usize, Shape>>) -> Result<Shape, TypeError>
    decreases m, 1nat,
{
    match m {
        Ast::If { .. } => match choice(m, scopes) {
            Err(e) => Err(e),
            Ok(Some(shape)) => Ok(shape),
            Ok(None) => Ok(Shape::Empty),
        },
        Ast::Block(b) => block(b@, 0, extend(scopes)),
        Ast::Application(a) => application(a@, scopes),
        Ast::Identifier(s) => type_of_name(scopes, s.0),
        Ast::Primitive(p) => Ok(p.shape()),
        _ => Err(TypeError::Incompatible),
    }
}

/// The type of a choice: its test is a truth value; with two branches of
/// one type it is of that type; with one branch, or with two of different
/// types, it has none.
pub open spec fn choice(node: Ast, scopes: Seq<Map<usize, Shape>>) -> Result<
    Option<Shape>,
    TypeError,
>
    decreases node, 0nat,
{
    match node {
        Ast::If { predicate, consequent, alternative } => match branch(*predicate, scopes) {
            Err(e) => Err(e),
            Ok(test) => if test != Shape::Bool {
                Err(TypeError::Incompatible)
            } else {
                match branch(*consequent, scopes) {
                    Err(e) => Err(e),
                    Ok(first) => match alternative {
                        None => Ok(None),
                        Some(other) => match branch(*other, scopes) {
                            Err(e) => Err(e),
                            Ok(second) => if first != second {
                                Ok(None)
                            } else {
                                Ok(Some(first))
                            },
                        },
                    },
                }
            },
        },
        _ => Err(TypeError::Form),
    }
}

/// The outcome of a check as plain values.
pub open spec fn shaped(r: Result<Type, TypeError>) -> Result<Shape, TypeError> {
    match r {
        Ok(ty) => Ok(ty@),
        Err(e) => Err(e),
    }
}

/// The outcome of the check of a choice as plain values.
pub open spec fn shaped_choice(r: Result<Option<Type>, TypeError>) -> Result<
    Option<Shape>,
    TypeError,
> {
    match r {
        Ok(ty) => Ok(Type::shape_of(ty)),
        Err(e) => Err(e),
    }
}

/// The type of a name.
fn name_type(env: &Environment, name: crate::interner::Symbol) -> (r: Result<Type, TypeError>)
    ensures
        shaped(r) == type_of_name(env@, name.0),
{
    match env.lookup_variable_type(name) {
        Some(ty) => Ok(ty),
        None => Err(TypeError::UnboundIdentifier),
    }
}

/// The type of a block, checked in the innermost scope of the environment,
/// in which the definitions of the block stay bound, up to the piece at
/// which the check ends. The scopes around it are as they were.
#[verifier::loop_isolation(false)]
pub fn check_block(body: &Vec<Ast>, env: &mut Environment) -> (r: Result<Type, TypeError>)
    requires
        old(env)@.len() > 0,
    ensures
        shaped(r) == block(body@, 0, old(env)@),
        final(env)@ == scopes_after(body@, 0, old(env)@),
        final(env)@.len() == old(env)@.len(),
        final(env)@.drop_last() == old(env)@.drop_last(),
    decreases body@, 0nat,
{
    let mut i: usize = 0;
    while i < body.len()
        invariant
            i <= body@.len(),
            env@.len() == old(env)@.len(),
            env@.drop_last() == old(env)@.drop_last(),
            block(body@, 0, old(env)@) == block(body@, i as int, env@),
            scopes_after(body@, 0, old(env)@) == scopes_after(body@, i as int, env@),
        decreases body@.len() - i,
    {
        let last = i == body.len() - 1;
        let ghost before = env@;
        match &body[i] {
            Ast::Include(_) | Ast::Asm(_) | Ast::Intrinsic(_) => {},
            Ast::Define { name, ty, value } => {
                let found = match &**value {
                    Ast::Primitive(p) => Ok(p.ty()),
                    Ast::Identifier(s) => name_type(env, *s),
                    Ast::Application(a) => check_application(a, env),
                    _ => Err(TypeError::Form),
                };
                match found {
                    Err(e) => {
                        return Err(e);
                    },
                    Ok(shape) => {
                        if !shape.same(ty) {
                            return Err(TypeError::Incompatible);
                        }
                    },
                }
                env.define_variable(*name, ty.copy());
                assert(env@.drop_last() =~= before.drop_last());
            },
            Ast::Defn { name, ty, args, body: inner } => {
                env.define_variable(*name, ty.copy());
                assert(env@.drop_last() =~= before.drop_last());
                match check_fun(ty, args, inner, env) {
                    Err(e) => {
                        return Err(e);
                    },
                    Ok(()) => {},
                }
            },
            Ast::Application(a) => {
                match check_application(a, env) {
                    Err(e) => {
                        return Err(e);
                    },
                    Ok(ty) => {
                        if last {
                            return Ok(ty);
                        }
                    },
                }
            },
            Ast::Primitive(p) => {
                return Ok(p.ty());
            },
            Ast::Identifier(s) => {
                return name_type(env, *s);
            },
            Ast::Block(b) => {
                env.extend();
                let r = check_block(b, env);
                env.leave();
                assert(env@ =~= before);
                match r {
                    Err(e) => {
                        return Err(e);
                    },
                    Ok(ty) => {
                        if last {
                            return Ok(ty);
                        }
                    },
                }
            },
            Ast::If { .. } => {
                match check_if(&body[i], env) {
                    Err(e) => {
                        return Err(e);
                    },
                    Ok(ty) => {
                        if last {
                            return Ok(
                                match ty {
                                    Some(ty) => ty,
                                    None => Type::Empty,
                                },
                            );
                        }
                    },
                }
            },
        }
        i += 1;
    }
    Ok(Type::Empty)
}

/// Checks the body of a function against the type that the function
/// states, in a scope of its own that binds the arguments. The environment
/// is left as it was.
#[verifier::loop_isolation(false)]
pub fn check_fun(ty: &Type, args: &Vec<Arg>, body: &Vec<Ast>, env: &mut Environment) -> (r: Result<
    (),
    TypeError,
>)
    requires
        old(env)@.len() > 0,
    ensures
        r == function(ty@, args@, body@, old(env)@),
        final(env)@ == old(env)@,
    decreases body@, 1nat,
{
    if !ty.is_arrow() {
        return Err(TypeError::Form);
    }
    let (_, ret) = ty.arrow_split();
    env.extend();
    let mut i: usize = 0;
    while i < args.len()
        invariant
            i <= args@.len(),
            env@.len() == old(env)@.len() + 1,
            env@.drop_last() == old(env)@,
            with_args(extend(old(env)@), args@, 0) == with_args(env@, args@, i as int),
        decreases args@.len() - i,
    {
        let ghost before = env@;
        env.define_variable(args[i].name, args[i].ty.copy());
        assert(env@.drop_last() =~= before.drop_last());
        i += 1;
    }
    let found = check_block(body, env);
    env.leave();
    match found {
        Err(e) => Err(e),
        Ok(shape) => {
            if !ret.same(&Type::Empty) && !ret.same(&Type::Never) && !shape.same(&ret) {
                Err(TypeError::Incompatible)
            } else {
                Ok(())
            }
        },
    }
}

/// The type of a call. The environment is left as it was.
#[verifier::loop_isolation(false)]
pub fn check_application(a: &Vec<Ast>, env: &mut Environment) -> (r: Result<Type, TypeError>)
    requires
        old(env)@.len() > 0,
    ensures
        shaped(r) == application(a@, old(env)@),
        final(env)@ == old(env)@,
    decreases a@, 0nat,
{
    if a.len() == 0 {
        return Err(TypeError::Form);
    }
    let called = match &a[0] {
        Ast::Identifier(s) => match name_type(env, *s) {
            Ok(ty) => ty,
            Err(e) => {
                return Err(e);
            },
        },
        _ => {
            return Err(TypeError::Form);
        },
    };
    if !called.is_arrow() {
        return Err(TypeError::Incompatible);
    }
    let (takes, ret) = called.arrow_split();
    if takes.len() != a.len() - 1 {
        return Err(TypeError::Args);
    }
    let mut j: usize = 0;
    while j < takes.len()
        invariant
            j <= takes@.len(),
            takes@.len() == a@.len() - 1,
            env@ == old(env)@,
            arguments(a@, 0, crate::ast::shapes(takes@), env@) == arguments(
                a@,
                j as int,
                crate::ast::shapes(takes@),
                env@,
            ),
        decreases takes@.len() - j,
    {
        let ghost before = env@;
        let found = match &a[j + 1] {
            Ast::Primitive(p) => Ok(p.ty()),
            Ast::Identifier(s) => name_type(env, *s),
            Ast::Application(inner) => check_application(inner, env),
            Ast::Block(b) => {
                env.extend();
                let r = check_block(b, env);
                env.leave();
                assert(env@ =~= before);
                r
            },
            Ast::If { .. } => match check_if(&a[j + 1], env) {
                Err(e) => Err(e),
                Ok(Some(ty)) => Ok(ty),
                Ok(None) => Err(TypeError::Incompatible),
            },
            _ => Err(TypeError::Form),
        };
        match found {
            Err(e) => {
                return Err(e);
            },
            Ok(shape) => {
                if !shape.same(&takes[j]) {
                    return Err(TypeError::Incompatible);
                }
            },
        }
        j += 1;
    }
    Ok(ret)
}

/// The type of a piece of a choice. The environment is left as it was.
pub fn check_branch(m: &Ast, env: &mut Environment) -> (r: Result<Type, TypeError>)
    requires
        old(env)@.len() > 0,
    ensures
        shaped(r) == branch(*m, old(env)@),
        final(env)@ == old(env)@,
    decreases m, 1nat,
{
    match m {
        Ast::If { .. } => match check_if(m, env) {
            Err(e) => Err(e),
            Ok(Some(ty)) => Ok(ty),
            Ok(None) => Ok(Type::Empty),
        },
        Ast::Block(b) => {
            env.extend();
            let r = check_block(b, env);
            env.leave();
            assert(env@ =~= old(env)@);
            r
        },
        Ast::Application(a) => check_application(a, env),
        Ast::Identifier(s) => name_type(env, *s),
        Ast::Primitive(p) => Ok(p.ty()),
        _ => Err(TypeError::Incompatible),
    }
}

/// The type of a choice, or `None` where it has none. The environment is
/// left as it was.
pub fn check_if(node: &Ast, env: &mut Environment) -> (r: Result<Option<Type>, TypeError>)
    requires
        old(env)@.len() > 0,
    ensures
        shaped_choice(r) == choice(*node, old(env)@),
        final(env)@ == old(env)@,
    decreases node, 0nat,
{
    match node {
        Ast::If { predicate, consequent, alternative } => {
            let test = match check_branch(&**predicate, env) {
                Ok(ty) => ty,
                Err(e) => {
                    return Err(e);
                },
            };
            if !test.same(&Type::Bool) {
                return Err(TypeError::Incompatible);
            }
            let first = match check_branch(&**consequent, env) {
                Ok(ty) => ty,
                Err(e) => {
                    return Err(e);
                },
            };
            match alternative {
                None => Ok(None),
                Some(other) => {
                    let second = match check_branch(&**other, env) {
                        Ok(ty) => ty,
                        Err(e) => {
                            return Err(e);
                        },
                    };
                    if !first.same(&second) {
                        Ok(None)
                    } else {
                        Ok(Some(first))
                    }
                },
            }
        },
        _ => Err(TypeError::Form),
    }
}

/// The number of the name from which a definition without a stated type
/// takes its type: the name that is its value, or the name that its value
/// calls. Another value gives none.
pub open spec fn source(value: Ast) -> Option<usize> {
    match value {
        Ast::Identifier(t) => Some(t.0),
        Ast::Application(v) => if v@.len() > 0 {
            match v@[0] {
                Ast::Identifier(t) => Some(t.0),
                _ => None,
            }
        } else {
            None
        },
        _ => None,
    }
}

/// The types that the first `i` pieces of a program state for the names
/// that they define. Of two definitions of one name the later one counts.
pub open spec fn stated(items: Seq<Ast>, i: int) -> Map<usize, Shape>
    decreases i,
{
    if i <= 0 || i > items.len() {
        Map::empty()
    } else {
        match items[i - 1] {
            Ast::Define { name, ty, .. } => stated(items, i - 1).insert(name.0, ty@),
            Ast::Defn { name, ty, .. } => stated(items, i - 1).insert(name.0, ty@),
            _ => stated(items, i - 1),
        }
    }
}

/// How many of the first `i` pieces of a program define a value without
/// stating its type.
pub open spec fn unknowns(items: Seq<Ast>, i: int) -> int
    decreases i,
{
    if i <= 0 || i > items.len() {
        0
    } else {
        match items[i - 1] {
            Ast::Define { ty, .. } => if ty@ == Shape::Hole {
                unknowns(items, i - 1) + 1
            } else {
                unknowns(items, i - 1)
            },
            _ => unknowns(items, i - 1),
        }
    }
}

/// Whether a type is known of a name.
pub open spec fn settled(known: Map<usize, Shape>, name: usize) -> bool {
    known.contains_key(name) && known[name] != Shape::Hole
}

/// One pass over the program from piece `i` on: each definition without a
/// stated type, of a name whose type is not known yet, takes the type that
/// is known of its source by then, and the count of unknown types goes down
/// by one. A source that is not defined at all is an error; one whose type
/// is not known yet is left for the next pass.
pub open spec fn pass(items: Seq<Ast>, i: int, known: Map<usize, Shape>, holes: int) -> Result<
    (Map<usize, Shape>, int),
    TypeError,
>
    decreases items.len() - i,
{
    if !(0 <= i < items.len()) {
        Ok((known, holes))
    } else {
        match items[i] {
            Ast::Define { name, ty, value } => if ty@ != Shape::Hole || settled(known, name.0) {
                pass(items, i + 1, known, holes)
            } else {
                match source(*value) {
                    None => pass(items, i + 1, known, holes),
                    Some(from) => if !known.contains_key(from) {
                        Err(TypeError::UnboundIdentifier)
                    } else if known[from] == Shape::Hole {
                        pass(items, i + 1, known, holes)
                    } else {
                        pass(items, i + 1, known.insert(name.0, known[from]), holes - 1)
                    },
                }
            },
            _ => pass(items, i + 1, known, holes),
        }
    }
}

/// The most passes that are made over a program.
pub const PASSES: usize = 20;

/// The types that are known after the passes over the program: passes are
/// made while the count of unknown types is above zero, and no more than
/// `PASSES` of them.
pub open spec fn passes(items: Seq<Ast>, known: Map<usize, Shape>, holes: int, done: nat) -> Result<
    Map<usize, Shape>,
    TypeError,
>
    decreases PASSES - done,
{
    if holes > 0 && done < PASSES {
        match pass(items, 0, known, holes) {
            Err(e) => Err(e),
            Ok((known, holes)) => passes(items, known, holes, done + 1),
        }
    } else {
        Ok(known)
    }
}

/// Whether the pieces at the top of a program are in order from piece `i`
/// on: the type of every value that is defined is known, and the body of
/// every function is of the type that the function states. Only files that
/// are taken in and definitions stand at the top of a program.
pub open spec fn top_checked(items: Seq<Ast>, i: int, scopes: Seq<Map<usize, Shape>>) -> Result<
    (),
    TypeError,
>
    decreases items.len() - i,
{
    if !(0 <= i < items.len()) {
        Ok(())
    } else {
        match items[i] {
            Ast::Include(_) => top_checked(items, i + 1, scopes),
            Ast::Define { name, .. } => match lookup(scopes, name.0) {
                Some(shape) => if shape != Shape::Hole {
                    top_checked(items, i + 1, scopes)
                } else {
                    Err(TypeError::Unresolved)
                },
                None => Err(TypeError::Unresolved),
            },
            Ast::Defn { ty, args, body, .. } => match function(ty@, args@, body@, scopes) {
                Err(e) => Err(e),
                Ok(_) => top_checked(items, i + 1, scopes),
            },
            _ => Err(TypeError::Form),
        }
    }
}

/// What the check of a program gives: the definitions at the top are known
/// to every piece, whatever their order; the types that are not stated are
/// taken over in passes; then every piece at the top is checked.
pub open spec fn checked(items: Seq<Ast>) -> Result<(), TypeError> {
    match passes(
        items,
        stated(items, items.len() as int),
        unknowns(items, items.len() as int),
        0,
    ) {
        Err(e) => Err(e),
        Ok(known) => top_checked(items, 0, seq![known]),
    }
}

/// The name from which a definition without a stated type takes its type.
fn source_of(value: &Ast) -> (r: Option<usize>)
    ensures
        r == source(*value),
{
    match value {
        Ast::Identifier(t) => Some(t.index()),
        Ast::Application(v) => if v.len() > 0 {
            match &v[0] {
                Ast::Identifier(t) => Some(t.index()),
                _ => None,
            }
        } else {
            None
        },
        _ => None,
    }
}

/// Checks the types of a program.
#[verifier::loop_isolation(false)]
pub fn type_check(ast: &Vec<Ast>) -> (r: Result<(), TypeError>)
    ensures
        r == checked(ast@),
{
    let mut known: HashMap<usize, Type> = HashMap::new();
    let mut holes: i128 = 0;
    let mut i: usize = 0;
    assert(bindings(known@) =~= stated(ast@, 0));
    while i < ast.len()
        invariant
            i <= ast@.len(),
            bindings(known@) == stated(ast@, i as int),
            holes == unknowns(ast@, i as int),
            0 <= holes <= i,
        decreases ast@.len() - i,
    {
        let ghost before = known@;
        match &ast[i] {
            Ast::Define { name, ty, .. } => {
                if ty.is_hole() {
                    holes += 1;
                }
                known.insert(name.index(), ty.copy());
                assert(bindings(known@) =~= bindings(before).insert(name.0, ty@));
            },
            Ast::Defn { name, ty, .. } => {
                known.insert(name.index(), ty.copy());
                assert(bindings(known@) =~= bindings(before).insert(name.0, ty@));
            },
            _ => {},
        }
        i += 1;
    }
    let mut done: usize = 0;
    while holes > 0 && done < PASSES
        invariant
            done <= PASSES,
            -ast@.len() <= holes <= ast@.len(),
            passes(
                ast@,
                stated(ast@, ast@.len() as int),
                unknowns(ast@, ast@.len() as int),
                0,
            ) == passes(ast@, bindings(known@), holes as int, done as nat),
        decreases PASSES - done,
    {
        let ghost first = bindings(known@);
        let ghost start = holes as int;
        let mut k: usize = 0;
        while k < ast.len()
            invariant
                k <= ast@.len(),
                0 < start <= ast@.len(),
                start - k <= holes <= start,
                pass(ast@, 0, first, start) == pass(ast@, k as int, bindings(known@), holes as int),
            decreases ast@.len() - k,
        {
            let ghost before = known@;
            match &ast[k] {
                Ast::Define { name, ty, value } => {
                    let settled = match known.get(&name.index()) {
                        Some(ty) => !ty.is_hole(),
                        None => false,
                    };
                    if ty.is_hole() && !settled {
                        match source_of(&**value) {
                            None => {},
                            Some(from) => {
                                let found = match known.get(&from) {
                                    Some(ty) => ty.copy(),
                                    None => {
                                        return Err(TypeError::UnboundIdentifier);
                                    },
                                };
                                if !found.is_hole() {
                                    holes -= 1;
                                    known.insert(name.index(), found);
                                    assert(bindings(known@) =~= bindings(before).insert(
                                        name.0,
                                        found@,
                                    ));
                                }
                            },
                        }
                    }
                },
                _ => {},
            }
            k += 1;
        }
        done += 1;
    }
    let mut env = Environment::from_hashmap(known);
    let mut i: usize = 0;
    while i < ast.len()
        invariant
            i <= ast@.len(),
            env@.len() == 1,
            checked(ast@) == top_checked(ast@, i as int, env@),
        decreases ast@.len() - i,
    {
        match &ast[i] {
            Ast::Include(_) => {},
            Ast::Define { name, .. } => {
                match env.lookup_variable_type(*name) {
                    Some(ty) => {
                        if ty.is_hole() {
                            return Err(TypeError::Unresolved);
                        }
                    },
                    None => {
                        return Err(TypeError::Unresolved);
                    },
                }
            },
            Ast::Defn { ty, args, body, .. } => {
                match check_fun(ty, args, body, &mut env) {
                    Err(e) => {
                        return Err(e);
                    },
                    Ok(()) => {},
                }
            },
            _ => {
                return Err(TypeError::Form);
            },
        }
        i += 1;
    }
    Ok(())
}

} // verus!
