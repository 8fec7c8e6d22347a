use vstd::prelude::*;

verus! {

/// Binary operators of the source language.
#[derive(Debug, Clone, PartialEq, Eq, Copy, Structural)]
pub enum Operator {
    Add,
    Subtract,
    Multiply,
    Divide,
    GreaterThan,
    LessThan,
    LessThanEqual,
    Equal,
    GreaterThanEqual,
    NotEqual,
}

impl Operator {
    /// The four operators that compute an integer from two integers.
    pub open spec fn is_arithmetic(self) -> bool {
        self is Add || self is Subtract || self is Multiply || self is Divide
    }

    /// The six operators that compare two values.
    pub open spec fn is_comparison(self) -> bool {
        !self.is_arithmetic()
    }
}

/// A node of the syntax tree. Every node owns its children.
#[derive(Debug, PartialEq)]
pub enum Expr {
    Number(i32),
    Variable(String),
    Binary(Box<Expr>, Operator, Box<Expr>),
    Boolean(bool),
    String(String),
    Assign(Box<Expr>, Box<Expr>),
    VarDeclaration(String, String),
    VarDeclarationWithAssignment(String, String, Box<Expr>),
    Semicolon(String),
    FuncCall(String, Vec<Expr>),
    FuncDef(String, String, Vec<(String, String)>, Box<Expr>),
    MainFuncDef(Box<Expr>),
    Statements(Vec<Expr>),
    Return(Box<Expr>),
    If(Box<Expr>, Box<Expr>, Option<Box<Expr>>),
    Print(Box<Expr>),
    PrintStr(String),
    Program(Vec<Expr>),
    While(Box<Expr>, Box<Expr>),
}

/// The mathematical value of a syntax tree: the same tree with every piece of
/// text as a sequence of characters and every list as a sequence.
pub enum ExprView {
    Number(i32),
    Variable(Seq<char>),
    Binary(Box<ExprView>, Operator, Box<ExprView>),
    Boolean(bool),
    String(Seq<char>),
    Assign(Box<ExprView>, Box<ExprView>),
    VarDeclaration(Seq<char>, Seq<char>),
    VarDeclarationWithAssignment(Seq<char>, Seq<char>, Box<ExprView>),
    Semicolon(Seq<char>),
    FuncCall(Seq<char>, Seq<ExprView>),
    FuncDef(Seq<char>, Seq<char>, Seq<(Seq<char>, Seq<char>)>, Box<ExprView>),
    MainFuncDef(Box<ExprView>),
    Statements(Seq<ExprView>),
    Return(Box<ExprView>),
    If(Box<ExprView>, Box<ExprView>, Option<Box<ExprView>>),
    Print(Box<ExprView>),
    PrintStr(Seq<char>),
    Program(Seq<ExprView>),
    While(Box<ExprView>, Box<ExprView>),
}

/// The views of a list of syntax trees, in order.
pub open spec fn view_all(exprs: Seq<Expr>) -> Seq<ExprView>
    decreases exprs, 0int,
{
    Seq::new(
        exprs.len(),
        |i: int|
            if 0 <= i < exprs.len() {
                expr_view(exprs[i])
            } else {
                arbitrary()
            },
    )
}

/// The views of a parameter list: each name with its type name.
pub open spec fn view_params(params: Seq<(String, String)>) -> Seq<(Seq<char>, Seq<char>)> {
    Seq::new(params.len(), |i: int| (params[i].0@, params[i].1@))
}

/// The view of one syntax tree.
pub open spec fn expr_view(e: Expr) -> ExprView
    decreases e, 1int,
{
    match e {
        Expr::Number(n) => ExprView::Number(n),
        Expr::Variable(name) => ExprView::Variable(name@),
        Expr::Binary(l, op, r) => ExprView::Binary(
            Box::new(expr_view(*l)),
            op,
            Box::new(expr_view(*r)),
        ),
        Expr::Boolean(b) => ExprView::Boolean(b),
        Expr::String(s) => ExprView::String(s@),
        Expr::Assign(l, r) => ExprView::Assign(Box::new(expr_view(*l)), Box::new(expr_view(*r))),
        Expr::VarDeclaration(name, typ) => ExprView::VarDeclaration(name@, typ@),
        Expr::VarDeclarationWithAssignment(name, typ, init) => ExprView::VarDeclarationWithAssignment(
            name@,
            typ@,
            Box::new(expr_view(*init)),
        ),
        Expr::Semicolon(s) => ExprView::Semicolon(s@),
        Expr::FuncCall(name, args) => ExprView::FuncCall(name@, view_all(args@)),
        Expr::FuncDef(name, ret, params, body) => ExprView::FuncDef(
            name@,
            ret@,
            view_params(params@),
            Box::new(expr_view(*body)),
        ),
        Expr::MainFuncDef(body) => ExprView::MainFuncDef(Box::new(expr_view(*body))),
        Expr::Statements(stmts) => ExprView::Statements(view_all(stmts@)),
        Expr::Return(value) => ExprView::Return(Box::new(expr_view(*value))),
        Expr::If(cond, then_branch, els) => ExprView::If(
            Box::new(expr_view(*cond)),
            Box::new(expr_view(*then_branch)),
            match els {
                Some(branch) => Some(Box::new(expr_view(*branch))),
                None => None,
            },
        ),
        Expr::Print(value) => ExprView::Print(Box::new(expr_view(*value))),
        Expr::PrintStr(s) => ExprView::PrintStr(s@),
        Expr::Program(stmts) => ExprView::Program(view_all(stmts@)),
        Expr::While(cond, body) => ExprView::While(
            Box::new(expr_view(*cond)),
            Box::new(expr_view(*body)),
        ),
    }
}

impl View for Expr {
    type V = ExprView;

    open spec fn view(&self) -> ExprView {
        expr_view(*self)
    }
}

/// A tree and its view are of the same kind, for the kinds whose shape
/// decides how a parent is handled, and hold the same in their own fields.
pub proof fn lemma_view_kind(e: Expr)
    ensures
        e is Number <==> e@ is Number,
        e is Variable <==> e@ is Variable,
        e is Binary <==> e@ is Binary,
        e is Statements <==> e@ is Statements,
        e is Return <==> e@ is Return,
        e matches Expr::Number(n) ==> e@ == ExprView::Number(n),
        e matches Expr::Variable(name) ==> e@ == ExprView::Variable(name@),
        e matches Expr::Binary(_, op, _) ==> (e@ matches ExprView::Binary(_, view_op, _)
            && view_op == op),
        e matches Expr::Statements(stmts) ==> e@ == ExprView::Statements(view_all(stmts@)),
{
}

/// Copies a list of syntax trees, tree by tree.
fn clone_all(exprs: &Vec<Expr>) -> (out: Vec<Expr>)
    ensures
        view_all(out@) == view_all(exprs@),
    decreases exprs, 0int,
{
    let mut out: Vec<Expr> = Vec::new();
    let mut i: usize = 0;
    while i < exprs.len()
        invariant
            i <= exprs.len(),
            out.len() == i,
            forall|j: int| 0 <= j < i ==> out[j]@ == exprs[j]@,
        decreases exprs.len() - i,
    {
        let copy = exprs[i].clone();
        out.push(copy);
        i += 1;
    }
    assert(view_all(out@) =~= view_all(exprs@));
    out
}

/// Copies a parameter list.
pub fn clone_params(params: &Vec<(String, String)>) -> (out: Vec<(String, String)>)
    ensures
        view_params(out@) == view_params(params@),
{
    let mut out: Vec<(String, String)> = Vec::new();
    let mut i: usize = 0;
    while i < params.len()
        invariant
            i <= params.len(),
            out.len() == i,
            forall|j: int| 0 <= j < i ==> out[j].0@ == params[j].0@ && out[j].1@ == params[j].1@,
        decreases params.len() - i,
    {
        out.push((params[i].0.clone(), params[i].1.clone()));
        i += 1;
    }
    assert(view_params(out@) =~= view_params(params@));
    out
}

impl Clone for Expr {
    /// A copy with the same view.
    fn clone(&self) -> (out: Self)
        ensures
            out@ == self@,
        decreases self, 1int,
    {
        match self {
            Expr::Number(n) => Expr::Number(*n),
            Expr::Variable(name) => Expr::Variable(name.clone()),
            Expr::Binary(l, op, r) => Expr::Binary(
                Box::new((**l).clone()),
                *op,
                Box::new((**r).clone()),
            ),
            Expr::Boolean(b) => Expr::Boolean(*b),
            Expr::String(s) => Expr::String(s.clone()),
            Expr::Assign(l, r) => Expr::Assign(Box::new((**l).clone()), Box::new((**r).clone())),
            Expr::VarDeclaration(name, typ) => Expr::VarDeclaration(name.clone(), typ.clone()),
            Expr::VarDeclarationWithAssignment(name, typ, init) => Expr::VarDeclarationWithAssignment(
                name.clone(),
                typ.clone(),
                Box::new((**init).clone()),
            ),
            Expr::Semicolon(s) => Expr::Semicolon(s.clone()),
            Expr::FuncCall(name, args) => Expr::FuncCall(name.clone(), clone_all(args)),
            Expr::FuncDef(name, ret, params, body) => Expr::FuncDef(
                name.clone(),
                ret.clone(),
                clone_params(params),
                Box::new((**body).clone()),
            ),
            Expr::MainFuncDef(body) => Expr::MainFuncDef(Box::new((**body).clone())),
            Expr::Statements(stmts) => Expr::Statements(clone_all(stmts)),
            Expr::Return(value) => Expr::Return(Box::new((**value).clone())),
            Expr::If(cond, then_branch, els) => {
                let els_copy = match els {
                    Some(branch) => Some(Box::new((**branch).clone())),
                    None => None,
                };
                Expr::If(Box::new((**cond).clone()), Box::new((**then_branch).clone()), els_copy)
            },
            Expr::Print(value) => Expr::Print(Box::new((**value).clone())),
            Expr::PrintStr(s) => Expr::PrintStr(s.clone()),
            Expr::Program(stmts) => Expr::Program(clone_all(stmts)),
            Expr::While(cond, body) => Expr::While(
                Box::new((**cond).clone()),
                Box::new((**body).clone()),
            ),
        }
    }
}

} // verus!
