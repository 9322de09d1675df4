//! User-defined functions: a declaration and the scope it was made in.

use vstd::prelude::*;
use crate::environment::EnvId;
use crate::stmt::{clone_stmts, stmts_view, Stmt, StmtModel};
use crate::token::{clone_tokens, tokens_view, Token, TokenModel};

verus! {

/// What a function declaration says: name, parameters and body.
#[derive(Debug)]
pub struct FunctionDeclaration {
    pub name: Token,
    pub params: Vec<Token>,
    pub body: Vec<Stmt>,
}

/// The mathematical value of a [`FunctionDeclaration`].
pub struct DeclarationModel {
    pub name: TokenModel,
    pub params: Seq<TokenModel>,
    pub body: Seq<StmtModel>,
}

impl View for FunctionDeclaration {
    type V = DeclarationModel;

    open spec fn view(&self) -> DeclarationModel {
        DeclarationModel {
            name: self.name@,
            params: tokens_view(self.params@),
            body: stmts_view(self.body@),
        }
    }
}

impl Clone for FunctionDeclaration {
    fn clone(&self) -> (r: Self)
        ensures
            r@ == self@,
    {
        FunctionDeclaration {
            name: self.name.clone(),
            params: clone_tokens(&self.params),
            body: clone_stmts(&self.body),
        }
    }
}

/// A function value: the declaration together with the environment that
/// was current where it was declared.
#[derive(Debug)]
pub struct LoxFunction {
    declaration: FunctionDeclaration,
    closure: EnvId,
}

/// The mathematical value of a [`LoxFunction`].
pub struct FunctionModel {
    pub declaration: DeclarationModel,
    pub closure: nat,
}

impl View for LoxFunction {
    type V = FunctionModel;

    closed spec fn view(&self) -> FunctionModel {
        FunctionModel { declaration: self.declaration@, closure: self.closure as nat }
    }
}

impl LoxFunction {
    pub fn new(declaration: FunctionDeclaration, closure: EnvId) -> (r: Self)
        ensures
            r@ == (FunctionModel { declaration: declaration@, closure: closure as nat }),
    {
        Self { declaration, closure }
    }

    /// The number of parameters.
    pub fn arity(&self) -> (r: usize)
        ensures
            r == self@.declaration.params.len(),
    {
        self.declaration.params.len()
    }

    /// The name that the function was declared with.
    pub fn name(&self) -> (r: &str)
        ensures
            r@ == self@.declaration.name.lexeme,
    {
        self.declaration.name.lexeme.as_str()
    }

    pub fn declaration(&self) -> (r: &FunctionDeclaration)
        ensures
            r@ == self@.declaration,
    {
        &self.declaration
    }

    /// The environment that the function closes over.
    pub fn closure(&self) -> (r: EnvId)
        ensures
            r == self@.closure,
    {
        self.closure
    }

    /// Whether two functions are the same to the language: whether they
    /// were declared with the same name.
    pub fn same_name(&self, other: &LoxFunction) -> (r: bool)
        ensures
            r == (self@.declaration.name.lexeme == other@.declaration.name.lexeme),
    {
        self.declaration.name.lexeme == other.declaration.name.lexeme
    }
}

impl Clone for LoxFunction {
    fn clone(&self) -> (r: Self)
        ensures
            r@ == self@,
    {
        LoxFunction { declaration: self.declaration.clone(), closure: self.closure }
    }
}

} // verus!
