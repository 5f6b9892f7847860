//! The syntax tree of the surface language, and the types of its values.

use crate::interner::Symbol;
use crate::text::same_text;
use crate::token::Token;
use vstd::prelude::*;

verus! {

/// A type as a plain value.
pub enum Shape {
    U8,
    Usize,
    I32,
    Bool,
    String,
    /// A pointer to a value of a type.
    Ptr(Box<Shape>),
    /// A function, from the types of its arguments to the type of its
    /// result.
    Arrow(Seq<Shape>, Box<Shape>),
    /// The type without values, `()`.
    Empty,
    /// The type of what never returns, `!`.
    Never,
    /// A type that is not known yet.
    Hole,
}

/// A type of the surface language.
#[derive(Debug, PartialEq)]
pub enum Type {
    U8,
    Usize,
    I32,
    Bool,
    String,
    /// A pointer to a value of a type.
    Ptr(Box<Type>),
    /// A function, from the types of its arguments to the type of its
    /// result.
    Arrow(Vec<Type>, Box<Type>),
    /// The type without values, `()`.
    Empty,
    /// The type of what never returns, `!`.
    Never,
    /// A type that is not known yet.
    Hole,
}

impl View for Type {
    type V = Shape;

    open spec fn view(&self) -> Shape
        decreases self,
    {
        match self {
            Type::U8 => Shape::U8,
            Type::Usize => Shape::Usize,
            Type::I32 => Shape::I32,
            Type::Bool => Shape::Bool,
            Type::String => Shape::String,
            Type::Ptr(inner) => Shape::Ptr(Box::new((**inner).view())),
            Type::Arrow(args, ret) => Shape::Arrow(
                Seq::new(
                    args@.len(),
                    |i: int|
                        if 0 <= i < args@.len() {
                            args@[i].view()
                        } else {
                            Shape::Hole
                        },
                ),
                Box::new((**ret).view()),
            ),
            Type::Empty => Shape::Empty,
            Type::Never => Shape::Never,
            Type::Hole => Shape::Hole,
        }
    }
}

/// The types of a list as plain values.
pub open spec fn shapes(types: Seq<Type>) -> Seq<Shape> {
    Seq::new(types.len(), |i: int| types[i]@)
}

impl Type {
    /// A copy of the type.
    #[verifier::loop_isolation(false)]
    pub fn copy(&self) -> (r: Type)
        ensures
            r@ == self@,
        decreases self,
    {
        match self {
            Type::U8 => Type::U8,
            Type::Usize => Type::Usize,
            Type::I32 => Type::I32,
            Type::Bool => Type::Bool,
            Type::String => Type::String,
            Type::Ptr(inner) => Type::Ptr(Box::new(inner.copy())),
            Type::Arrow(args, ret) => {
                let mut copies: Vec<Type> = Vec::new();
                let mut i: usize = 0;
                while i < args.len()
                    invariant
                        i <= args@.len(),
                        copies@.len() == i,
                        forall|j: int| 0 <= j < i ==> copies@[j]@ == args@[j]@,
                    decreases args@.len() - i,
                {
                    copies.push(args[i].copy());
                    i += 1;
                }
                let r = Type::Arrow(copies, Box::new(ret.copy()));
                assert(r@ =~= self@) by {
                    assert(r@->Arrow_0 =~= self@->Arrow_0);
                }
                r
            },
            Type::Empty => Type::Empty,
            Type::Never => Type::Never,
            Type::Hole => Type::Hole,
        }
    }

    /// The type that a name spells, around `inner` where the name is `ptr`;
    /// `None` where the name spells no type, or is `ptr` without a type to
    /// point to.
    pub open spec fn named(name: Seq<char>, inner: Option<Shape>) -> Option<Shape> {
        if name == "u8"@ {
            Some(Shape::U8)
        } else if name == "usize"@ {
            Some(Shape::Usize)
        } else if name == "bool"@ {
            Some(Shape::Bool)
        } else if name == "string"@ {
            Some(Shape::String)
        } else if name == "i32"@ {
            Some(Shape::I32)
        } else if name == "!"@ {
            Some(Shape::Never)
        } else if name == "ptr"@ && inner is Some {
            Some(Shape::Ptr(Box::new(inner->0)))
        } else {
            None
        }
    }

    /// The plain value of a type that may be there.
    pub open spec fn shape_of(ty: Option<Type>) -> Option<Shape> {
        match ty {
            Some(ty) => Some(ty@),
            None => None,
        }
    }

    /// The type that a token spells, or `None` where it spells none.
    pub fn try_from_token(token: Token, input: &str, inner_ty: Option<Type>) -> (r: Option<Type>)
        requires
            token.place().fits(input@.len()),
        ensures
            Type::shape_of(r) == Type::named(token.text(input@), Type::shape_of(inner_ty)),
    {
        let name = token.as_str(input);
        if same_text(name, "u8") {
            Some(Type::U8)
        } else if same_text(name, "usize") {
            Some(Type::Usize)
        } else if same_text(name, "bool") {
            Some(Type::Bool)
        } else if same_text(name, "string") {
            Some(Type::String)
        } else if same_text(name, "i32") {
            Some(Type::I32)
        } else if same_text(name, "!") {
            Some(Type::Never)
        } else if same_text(name, "ptr") {
            match inner_ty {
                Some(inner) => Some(Type::Ptr(Box::new(inner))),
                None => None,
            }
        } else {
            None
        }
    }

    /// The type that a token spells.
    pub fn from_token(token: Token, input: &str, inner_ty: Option<Type>) -> (r: Type)
        requires
            token.place().fits(input@.len()),
            Type::named(token.text(input@), Type::shape_of(inner_ty)) is Some,
        ensures
            Some(r@) == Type::named(token.text(input@), Type::shape_of(inner_ty)),
    {
        match Type::try_from_token(token, input, inner_ty) {
            Some(ty) => ty,
            None => Type::Hole,
        }
    }

    /// Whether the type is that of a function.
    pub fn is_arrow(&self) -> (r: bool)
        ensures
            r == (self@ is Arrow),
    {
        match self {
            Type::Arrow(_, _) => true,
            _ => false,
        }
    }

    /// Whether the type is not known yet.
    pub fn is_hole(&self) -> (r: bool)
        ensures
            r == (self@ == Shape::Hole),
    {
        match self {
            Type::Hole => true,
            _ => false,
        }
    }

    /// The types of the arguments and the type of the result of a function
    /// type.
    pub fn arrow_split(&self) -> (r: (Vec<Type>, Type))
        requires
            self@ is Arrow,
        ensures
            shapes(r.0@) == self@->Arrow_0,
            r.1@ == *self@->Arrow_1,
    {
        match self.copy() {
            Type::Arrow(args, ret) => {
                assert(shapes(args@) =~= self@->Arrow_0);
                (args, *ret)
            },
            _ => (Vec::new(), Type::Hole),
        }
    }

    /// Whether two types are the same.
    #[verifier::loop_isolation(false)]
    pub fn same(&self, other: &Type) -> (r: bool)
        ensures
            r == (self@ == other@),
        decreases self,
    {
        match (self, other) {
            (Type::U8, Type::U8) => true,
            (Type::Usize, Type::Usize) => true,
            (Type::I32, Type::I32) => true,
            (Type::Bool, Type::Bool) => true,
            (Type::String, Type::String) => true,
            (Type::Empty, Type::Empty) => true,
            (Type::Never, Type::Never) => true,
            (Type::Hole, Type::Hole) => true,
            (Type::Ptr(a), Type::Ptr(b)) => a.same(b),
            (Type::Arrow(args, ret), Type::Arrow(others, other_ret)) => {
                if args.len() != others.len() {
                    assert(self@->Arrow_0.len() != other@->Arrow_0.len());
                    return false;
                }
                let mut i: usize = 0;
                while i < args.len()
                    invariant
                        i <= args@.len(),
                        args@.len() == others@.len(),
                        forall|j: int| 0 <= j < i ==> args@[j]@ == others@[j]@,
                    decreases args@.len() - i,
                {
                    if !args[i].same(&others[i]) {
                        assert(self@->Arrow_0[i as int] != other@->Arrow_0[i as int]);
                        return false;
                    }
                    i += 1;
                }
                assert(self@->Arrow_0 =~= other@->Arrow_0);
                ret.same(other_ret)
            },
            _ => false,
        }
    }
}

/// A value that is written out in the program, as a plain value.
pub enum Value {
    Integer(i32),
    String(Seq<char>),
    Bool(bool),
}

impl Value {
    /// The type of the value.
    pub open spec fn shape(self) -> Shape {
        match self {
            Value::Integer(_) => Shape::I32,
            Value::String(_) => Shape::String,
            Value::Bool(_) => Shape::Bool,
        }
    }
}

/// A piece of a program as a plain value.
pub enum Tree {
    Include(Symbol),
    Define { name: Symbol, ty: Shape, value: Box<Tree> },
    Defn { name: Symbol, ty: Shape, args: Seq<(Symbol, Shape)>, body: Seq<Tree> },
    If { predicate: Box<Tree>, consequent: Box<Tree>, alternative: Option<Box<Tree>> },
    Block(Seq<Tree>),
    Primitive(Value),
    Asm(Seq<Token>),
    Intrinsic(Seq<Tree>),
    Application(Seq<Tree>),
    Identifier(Symbol),
}

/// A value that is written out in the program.
#[derive(Debug, PartialEq)]
pub enum CompilePrimitive {
    Integer(i32),
    String(String),
    Bool(bool),
}

impl View for CompilePrimitive {
    type V = Value;

    open spec fn view(&self) -> Value {
        match self {
            CompilePrimitive::Integer(v) => Value::Integer(*v),
            CompilePrimitive::String(v) => Value::String(v@),
            CompilePrimitive::Bool(v) => Value::Bool(*v),
        }
    }
}

impl CompilePrimitive {
    /// The type of the value.
    pub open spec fn shape(self) -> Shape {
        match self {
            CompilePrimitive::Integer(_) => Shape::I32,
            CompilePrimitive::String(_) => Shape::String,
            CompilePrimitive::Bool(_) => Shape::Bool,
        }
    }

    /// The type of the value.
    pub fn ty(&self) -> (r: Type)
        ensures
            r@ == self.shape(),
    {
        match self {
            CompilePrimitive::Integer(_) => Type::I32,
            CompilePrimitive::String(_) => Type::String,
            CompilePrimitive::Bool(_) => Type::Bool,
        }
    }
}

/// An argument of a function: its name and its type.
#[derive(Debug, PartialEq)]
pub struct Arg {
    pub name: Symbol,
    pub ty: Type,
}

impl View for Arg {
    type V = (Symbol, Shape);

    open spec fn view(&self) -> (Symbol, Shape) {
        (self.name, self.ty@)
    }
}

/// The arguments of a function as plain values.
pub open spec fn pairs(args: Seq<Arg>) -> Seq<(Symbol, Shape)> {
    Seq::new(args.len(), |i: int| args[i]@)
}

/// The pieces of a list as plain values.
pub open spec fn trees(pieces: Seq<Ast>) -> Seq<Tree> {
    Seq::new(pieces.len(), |i: int| pieces[i]@)
}

impl Arg {
    /// The argument with a name and a type.
    pub fn new(name: Symbol, ty: Type) -> (arg: Self)
        ensures
            arg.name == name,
            arg.ty == ty,
    {
        Arg { name, ty }
    }
}

/// A piece of a program.
#[derive(Debug, PartialEq)]
pub enum Ast {
    /// Another file that is taken in.
    Include(Symbol),
    /// The definition of a value.
    Define { name: Symbol, ty: Type, value: Box<Ast> },
    /// The definition of a function.
    Defn { name: Symbol, ty: Type, args: Vec<Arg>, body: Vec<Ast> },
    /// A choice between two pieces, the second of which may be missing.
    If { predicate: Box<Ast>, consequent: Box<Ast>, alternative: Option<Box<Ast>> },
    /// Pieces in a row.
    Block(Vec<Ast>),
    /// A value that is written out.
    Primitive(CompilePrimitive),
    /// Assembly that is taken as it stands, as tokens.
    Asm(Vec<Token>),
    /// A call of something that the compiler provides.
    Intrinsic(Vec<Ast>),
    /// A call: what is called, then the arguments.
    Application(Vec<Ast>),
    /// A name.
    Identifier(Symbol),
}

impl View for Ast {
    type V = Tree;

    open spec fn view(&self) -> Tree {
        self.tree()
    }
}

impl Ast {
    /// The piece as a plain value.
    pub open spec fn tree(self) -> Tree
        decreases self,
    {
        match self {
            Ast::Include(name) => Tree::Include(name),
            Ast::Define { name, ty, value } => Tree::Define {
                name,
                ty: ty@,
                value: Box::new((*value).tree()),
            },
            Ast::Defn { name, ty, args, body } => Tree::Defn {
                name,
                ty: ty@,
                args: pairs(args@),
                body: Seq::new(
                    body@.len(),
                    |i: int|
                        if 0 <= i < body@.len() {
                            body@[i].tree()
                        } else {
                            Tree::Block(Seq::empty())
                        },
                ),
            },
            Ast::If { predicate, consequent, alternative } => Tree::If {
                predicate: Box::new((*predicate).tree()),
                consequent: Box::new((*consequent).tree()),
                alternative: match alternative {
                    Some(other) => Some(Box::new((*other).tree())),
                    None => None,
                },
            },
            Ast::Block(v) => Tree::Block(
                Seq::new(
                    v@.len(),
                    |i: int|
                        if 0 <= i < v@.len() {
                            v@[i].tree()
                        } else {
                            Tree::Block(Seq::empty())
                        },
                ),
            ),
            Ast::Primitive(p) => Tree::Primitive(p@),
            Ast::Asm(tokens) => Tree::Asm(tokens@),
            Ast::Intrinsic(v) => Tree::Intrinsic(
                Seq::new(
                    v@.len(),
                    |i: int|
                        if 0 <= i < v@.len() {
                            v@[i].tree()
                        } else {
                            Tree::Block(Seq::empty())
                        },
                ),
            ),
            Ast::Application(v) => Tree::Application(
                Seq::new(
                    v@.len(),
                    |i: int|
                        if 0 <= i < v@.len() {
                            v@[i].tree()
                        } else {
                            Tree::Block(Seq::empty())
                        },
                ),
            ),
            Ast::Identifier(name) => Tree::Identifier(name),
        }
    }
}

/// The plain value of a block is the block of the plain values of its
/// pieces, and so for a call and for the body of a function.
pub proof fn lemma_view_of_pieces(v: Vec<Ast>)
    ensures
        Ast::Block(v)@ == Tree::Block(trees(v@)),
        Ast::Application(v)@ == Tree::Application(trees(v@)),
        Ast::Intrinsic(v)@ == Tree::Intrinsic(trees(v@)),
{
    reveal_with_fuel(Ast::tree, 2);
    assert(Ast::Block(v)@->Block_0 =~= trees(v@));
    assert(Ast::Application(v)@->Application_0 =~= trees(v@));
    assert(Ast::Intrinsic(v)@->Intrinsic_0 =~= trees(v@));
}

/// The plain value of the definition of a function holds the plain values
/// of the pieces of its body.
pub proof fn lemma_view_of_function(name: Symbol, ty: Type, args: Vec<Arg>, body: Vec<Ast>)
    ensures
        (Ast::Defn { name, ty, args, body })@ == (Tree::Defn {
            name,
            ty: ty@,
            args: pairs(args@),
            body: trees(body@),
        }),
{
    reveal_with_fuel(Ast::tree, 2);
    assert((Ast::Defn { name, ty, args, body })@->Defn_body =~= trees(body@));
}

impl Ast {
    /// Whether the piece has a type that can be read off it: it is a name,
    /// a value, a call of such a piece, a choice whose first branch is such
    /// a piece, or a block that is empty or ends in such a piece.
    pub open spec fn typed(self) -> bool
        decreases self,
    {
        match self {
            Ast::Identifier(_) => true,
            Ast::Primitive(_) => true,
            Ast::Application(v) => v@.len() > 0 && v@[0].typed(),
            Ast::If { consequent, .. } => (*consequent).typed(),
            Ast::Block(v) => v@.len() > 0 ==> v@[v@.len() - 1].typed(),
            _ => false,
        }
    }

    /// The type that is read off a piece: unknown for a name; that of what
    /// is called for a call, of the first branch for a choice, of the last
    /// piece for a block, and the empty type for an empty block.
    pub open spec fn shape(self) -> Shape
        decreases self,
    {
        match self {
            Ast::Primitive(p) => p.shape(),
            Ast::Application(v) => if v@.len() > 0 {
                v@[0].shape()
            } else {
                Shape::Hole
            },
            Ast::If { consequent, .. } => (*consequent).shape(),
            Ast::Block(v) => if v@.len() > 0 {
                v@[v@.len() - 1].shape()
            } else {
                Shape::Empty
            },
            _ => Shape::Hole,
        }
    }

    /// The type that is read off a piece, or `None` for a piece off which
    /// none can be read.
    pub fn try_ty(&self) -> (r: Option<Type>)
        ensures
            self.typed() ==> Type::shape_of(r) == Some(self.shape()),
            !self.typed() ==> r is None,
        decreases self,
    {
        match self {
            Ast::Identifier(_) => Some(Type::Hole),
            Ast::Primitive(p) => Some(p.ty()),
            Ast::Application(v) => if v.len() > 0 {
                v[0].try_ty()
            } else {
                None
            },
            Ast::If { consequent, .. } => consequent.try_ty(),
            Ast::Block(v) => if v.len() > 0 {
                v[v.len() - 1].try_ty()
            } else {
                Some(Type::Empty)
            },
            _ => None,
        }
    }

    /// The type that is read off a piece.
    pub fn ty(&self) -> (r: Type)
        requires
            self.typed(),
        ensures
            r@ == self.shape(),
        decreases self,
    {
        match self {
            Ast::Primitive(p) => p.ty(),
            Ast::Application(v) => v[0].ty(),
            Ast::If { consequent, .. } => consequent.ty(),
            Ast::Block(v) => if v.len() > 0 {
                v[v.len() - 1].ty()
            } else {
                Type::Empty
            },
            _ => Type::Hole,
        }
    }
}

} // verus!
