//! The syntax tree of a program.

use vstd::prelude::*;

verus! {

/// The operator of a binary expression.
#[derive(Debug, Clone, Copy, PartialEq, Eq, Structural)]
pub enum BinaryOp {
    Add,
    Subtract,
    Multiply,
    Divide,
    Modulo,
    Power,
    Equal,
    NotEqual,
    Less,
    Greater,
    LessEqual,
    GreaterEqual,
    And,
    Or,
}

/// The operator of a unary expression.
#[derive(Debug, Clone, Copy, PartialEq, Eq, Structural)]
pub enum UnaryOp {
    Negate,
    Not,
}

/// How a binding holds its value.
#[derive(Debug, Clone, Copy, PartialEq, Eq, Structural)]
pub enum Ownership {
    Own,
    Ref,
    Copy,
}

/// An expression.
#[derive(Debug, PartialEq)]
pub enum Expression {
    Integer(i64),
    /// A literal with a decimal point, kept as it was written.
    Float(String),
    String(String),
    Bool(bool),
    Identifier(String),
    Binary { left: Box<Expression>, op: BinaryOp, right: Box<Expression> },
    Unary { op: UnaryOp, operand: Box<Expression> },
    Call { function: Box<Expression>, args: Vec<Expression> },
    Await(Box<Expression>),
    /// A widget: its type and its properties in the order they were written.
    UiSprite { sprite_type: String, properties: Vec<(String, Expression)> },
    List(Vec<Expression>),
    /// The entries of a dictionary in the order they were written.
    Dict(Vec<(String, Expression)>),
    Index { object: Box<Expression>, index: Box<Expression> },
    Member { object: Box<Expression>, member: String },
}

/// The mathematical value of an [`Expression`].
pub enum ExprView {
    Integer(int),
    Float(Seq<char>),
    String(Seq<char>),
    Bool(bool),
    Identifier(Seq<char>),
    Binary { left: Box<ExprView>, op: BinaryOp, right: Box<ExprView> },
    Unary { op: UnaryOp, operand: Box<ExprView> },
    Call { function: Box<ExprView>, args: Seq<ExprView> },
    Await(Box<ExprView>),
    UiSprite { sprite_type: Seq<char>, properties: Seq<(Seq<char>, ExprView)> },
    List(Seq<ExprView>),
    Dict(Seq<(Seq<char>, ExprView)>),
    Index { object: Box<ExprView>, index: Box<ExprView> },
    Member { object: Box<ExprView>, member: Seq<char> },
}

/// The value of an expression.
pub open spec fn expr_view(expr: Expression) -> ExprView
    decreases expr,
{
    match expr {
        Expression::Integer(n) => ExprView::Integer(n as int),
        Expression::Float(text) => ExprView::Float(text@),
        Expression::String(text) => ExprView::String(text@),
        Expression::Bool(b) => ExprView::Bool(b),
        Expression::Identifier(name) => ExprView::Identifier(name@),
        Expression::Binary { left, op, right } => ExprView::Binary {
            left: Box::new(expr_view(*left)),
            op,
            right: Box::new(expr_view(*right)),
        },
        Expression::Unary { op, operand } => ExprView::Unary {
            op,
            operand: Box::new(expr_view(*operand)),
        },
        Expression::Call { function, args } => ExprView::Call {
            function: Box::new(expr_view(*function)),
            args: Seq::new(
                args@.len(),
                |i: int|
                    if 0 <= i < args@.len() {
                        expr_view(args@[i])
                    } else {
                        ExprView::Bool(false)
                    },
            ),
        },
        Expression::Await(inner) => ExprView::Await(Box::new(expr_view(*inner))),
        Expression::UiSprite { sprite_type, properties } => ExprView::UiSprite {
            sprite_type: sprite_type@,
            properties: Seq::new(
                properties@.len(),
                |i: int|
                    if 0 <= i < properties@.len() {
                        (properties@[i].0@, expr_view(properties@[i].1))
                    } else {
                        (Seq::empty(), ExprView::Bool(false))
                    },
            ),
        },
        Expression::List(items) => ExprView::List(
            Seq::new(
                items@.len(),
                |i: int|
                    if 0 <= i < items@.len() {
                        expr_view(items@[i])
                    } else {
                        ExprView::Bool(false)
                    },
            ),
        ),
        Expression::Dict(entries) => ExprView::Dict(
            Seq::new(
                entries@.len(),
                |i: int|
                    if 0 <= i < entries@.len() {
                        (entries@[i].0@, expr_view(entries@[i].1))
                    } else {
                        (Seq::empty(), ExprView::Bool(false))
                    },
            ),
        ),
        Expression::Index { object, index } => ExprView::Index {
            object: Box::new(expr_view(*object)),
            index: Box::new(expr_view(*index)),
        },
        Expression::Member { object, member } => ExprView::Member {
            object: Box::new(expr_view(*object)),
            member: member@,
        },
    }
}

impl View for Expression {
    type V = ExprView;

    open spec fn view(&self) -> ExprView {
        expr_view(*self)
    }
}

/// The values of a run of expressions, in order.
pub open spec fn expr_views(exprs: Seq<Expression>) -> Seq<ExprView> {
    Seq::new(exprs.len(), |i: int| expr_view(exprs[i]))
}

/// The values of a run of named expressions, in order.
pub open spec fn entry_views(entries: Seq<(String, Expression)>) -> Seq<(Seq<char>, ExprView)> {
    Seq::new(entries.len(), |i: int| (entries[i].0@, expr_view(entries[i].1)))
}

/// The value of a call is the call of the values.
pub proof fn lemma_call_view(function: Expression, args: Vec<Expression>)
    ensures
        (Expression::Call { function: Box::new(function), args })@ == (ExprView::Call {
            function: Box::new(function@),
            args: expr_views(args@),
        }),
{
    let built = (Expression::Call { function: Box::new(function), args })@;
    assert(built matches ExprView::Call { function: f, args: a } && a =~= expr_views(args@));
}

/// The value of a list is the list of the values.
pub proof fn lemma_list_view(items: Vec<Expression>)
    ensures
        Expression::List(items)@ == ExprView::List(expr_views(items@)),
{
    assert(Expression::List(items)@ matches ExprView::List(a) && a =~= expr_views(items@));
}

/// The value of a dictionary is the dictionary of the values.
pub proof fn lemma_dict_view(entries: Vec<(String, Expression)>)
    ensures
        Expression::Dict(entries)@ == ExprView::Dict(entry_views(entries@)),
{
    assert(Expression::Dict(entries)@ matches ExprView::Dict(a) && a =~= entry_views(entries@));
}

/// The value of a sprite is the sprite of the values.
pub proof fn lemma_sprite_view(sprite_type: String, properties: Vec<(String, Expression)>)
    ensures
        (Expression::UiSprite { sprite_type, properties })@ == (ExprView::UiSprite {
            sprite_type: sprite_type@,
            properties: entry_views(properties@),
        }),
{
    let built = (Expression::UiSprite { sprite_type, properties })@;
    assert(built matches ExprView::UiSprite { sprite_type: t, properties: a } && a
        =~= entry_views(properties@));
}

/// A parameter of a function: its name and how it holds its argument.
#[derive(Debug, Clone, PartialEq)]
pub struct Parameter {
    pub name: String,
    pub ownership: Ownership,
}

/// The mathematical value of a [`Parameter`].
pub struct ParameterView {
    pub name: Seq<char>,
    pub ownership: Ownership,
}

impl View for Parameter {
    type V = ParameterView;

    open spec fn view(&self) -> ParameterView {
        ParameterView { name: self.name@, ownership: self.ownership }
    }
}

/// The values of a run of parameters, in order.
pub open spec fn parameter_views(params: Seq<Parameter>) -> Seq<ParameterView> {
    params.map_values(|p: Parameter| p@)
}

/// A statement.
#[derive(Debug, PartialEq)]
pub enum Statement {
    Import(String),
    Definition { name: String, ownership: Ownership, value: Expression },
    Function { name: String, params: Vec<Parameter>, body: Vec<Statement>, is_async: bool },
    /// Code of another language, kept as it was written.
    CustomBlock { language: String, code: String },
    Main { body: Vec<Statement> },
    Expression(Expression),
    Return(Option<Expression>),
    If { condition: Expression, then_body: Vec<Statement>, else_body: Option<Vec<Statement>> },
    Loop { body: Vec<Statement> },
    For { variable: String, iterable: Expression, body: Vec<Statement> },
    While { condition: Expression, body: Vec<Statement> },
    Break,
    Continue,
}

/// The mathematical value of a [`Statement`].
pub enum StmtView {
    Import(Seq<char>),
    Definition { name: Seq<char>, ownership: Ownership, value: ExprView },
    Function { name: Seq<char>, params: Seq<ParameterView>, body: Seq<StmtView>, is_async: bool },
    CustomBlock { language: Seq<char>, code: Seq<char> },
    Main { body: Seq<StmtView> },
    Expression(ExprView),
    Return(Option<ExprView>),
    If { condition: ExprView, then_body: Seq<StmtView>, else_body: Option<Seq<StmtView>> },
    Loop { body: Seq<StmtView> },
    For { variable: Seq<char>, iterable: ExprView, body: Seq<StmtView> },
    While { condition: ExprView, body: Seq<StmtView> },
    Break,
    Continue,
}

/// The value of a statement.
pub open spec fn stmt_view(stmt: Statement) -> StmtView
    decreases stmt,
{
    match stmt {
        Statement::Import(path) => StmtView::Import(path@),
        Statement::Definition { name, ownership, value } => StmtView::Definition {
            name: name@,
            ownership,
            value: expr_view(value),
        },
        Statement::Function { name, params, body, is_async } => StmtView::Function {
            name: name@,
            params: parameter_views(params@),
            body: Seq::new(
                body@.len(),
                |i: int|
                    if 0 <= i < body@.len() {
                        stmt_view(body@[i])
                    } else {
                        StmtView::Break
                    },
            ),
            is_async,
        },
        Statement::CustomBlock { language, code } => StmtView::CustomBlock {
            language: language@,
            code: code@,
        },
        Statement::Main { body } => StmtView::Main {
            body: Seq::new(
                body@.len(),
                |i: int|
                    if 0 <= i < body@.len() {
                        stmt_view(body@[i])
                    } else {
                        StmtView::Break
                    },
            ),
        },
        Statement::Expression(expr) => StmtView::Expression(expr_view(expr)),
        Statement::Return(value) => StmtView::Return(
            match value {
                Some(expr) => Some(expr_view(expr)),
                None => None,
            },
        ),
        Statement::If { condition, then_body, else_body } => StmtView::If {
            condition: expr_view(condition),
            then_body: Seq::new(
                then_body@.len(),
                |i: int|
                    if 0 <= i < then_body@.len() {
                        stmt_view(then_body@[i])
                    } else {
                        StmtView::Break
                    },
            ),
            else_body: match else_body {
                Some(body) => Some(Seq::new(
                body@.len(),
                |i: int|
                    if 0 <= i < body@.len() {
                        stmt_view(body@[i])
                    } else {
                        StmtView::Break
                    },
            )),
                None => None,
            },
        },
        Statement::Loop { body } => StmtView::Loop {
            body: Seq::new(
                body@.len(),
                |i: int|
                    if 0 <= i < body@.len() {
                        stmt_view(body@[i])
                    } else {
                        StmtView::Break
                    },
            ),
        },
        Statement::For { variable, iterable, body } => StmtView::For {
            variable: variable@,
            iterable: expr_view(iterable),
            body: Seq::new(
                body@.len(),
                |i: int|
                    if 0 <= i < body@.len() {
                        stmt_view(body@[i])
                    } else {
                        StmtView::Break
                    },
            ),
        },
        Statement::While { condition, body } => StmtView::While {
            condition: expr_view(condition),
            body: Seq::new(
                body@.len(),
                |i: int|
                    if 0 <= i < body@.len() {
                        stmt_view(body@[i])
                    } else {
                        StmtView::Break
                    },
            ),
        },
        Statement::Break => StmtView::Break,
        Statement::Continue => StmtView::Continue,
    }
}

impl View for Statement {
    type V = StmtView;

    open spec fn view(&self) -> StmtView {
        stmt_view(*self)
    }
}

/// The values of a run of statements, in order.
pub open spec fn stmt_views(stmts: Seq<Statement>) -> Seq<StmtView> {
    Seq::new(stmts.len(), |i: int| stmt_view(stmts[i]))
}

/// The value of a statement with bodies holds the values of the bodies.
pub proof fn lemma_statement_views(statement: Statement)
    ensures
        match statement {
            Statement::Function { name, params, body, is_async } => statement@
                == (StmtView::Function {
                name: name@,
                params: parameter_views(params@),
                body: stmt_views(body@),
                is_async,
            }),
            Statement::Main { body } => statement@ == (StmtView::Main { body: stmt_views(body@) }),
            Statement::If { condition, then_body, else_body } => statement@ == (StmtView::If {
                condition: condition@,
                then_body: stmt_views(then_body@),
                else_body: match else_body {
                    Some(body) => Some(stmt_views(body@)),
                    None => None,
                },
            }),
            Statement::Loop { body } => statement@ == (StmtView::Loop { body: stmt_views(body@) }),
            Statement::For { variable, iterable, body } => statement@ == (StmtView::For {
                variable: variable@,
                iterable: iterable@,
                body: stmt_views(body@),
            }),
            Statement::While { condition, body } => statement@ == (StmtView::While {
                condition: condition@,
                body: stmt_views(body@),
            }),
            _ => true,
        },
{
    match statement {
        Statement::Function { name, params, body, is_async } => {
            assert(statement@ matches StmtView::Function { body: b, .. } && b =~= stmt_views(
                body@,
            ));
        },
        Statement::Main { body } => {
            assert(statement@ matches StmtView::Main { body: b } && b =~= stmt_views(body@));
        },
        Statement::If { condition, then_body, else_body } => {
            assert(statement@ matches StmtView::If { then_body: b, .. } && b =~= stmt_views(
                then_body@,
            ));
            match else_body {
                Some(body) => {
                    assert(statement@ matches StmtView::If { else_body: Some(b), .. } && b
                        =~= stmt_views(body@));
                },
                None => {},
            }
        },
        Statement::Loop { body } => {
            assert(statement@ matches StmtView::Loop { body: b } && b =~= stmt_views(body@));
        },
        Statement::For { variable, iterable, body } => {
            assert(statement@ matches StmtView::For { body: b, .. } && b =~= stmt_views(body@));
        },
        Statement::While { condition, body } => {
            assert(statement@ matches StmtView::While { body: b, .. } && b =~= stmt_views(body@));
        },
        _ => {},
    }
}

/// A program: its statements in the order of the source.
#[derive(Debug, PartialEq)]
pub struct Program {
    pub statements: Vec<Statement>,
}

impl View for Program {
    type V = Seq<StmtView>;

    open spec fn view(&self) -> Seq<StmtView> {
        stmt_views(self.statements@)
    }
}

} // verus!
