//! The node model: immutable data representing expressions and top-level
//! declarations.  An `Expression` tree is built once (by hand or by the
//! parser) and never mutates afterwards.

use vstd::prelude::*;

verus! {

/// The ten binary operators of the language.
#[derive(Clone, Copy, Debug, PartialEq, Eq, Structural)]
pub enum Operator {
    Add,
    Subtract,
    Multiply,
    Divide,
    LessThan,
    LessOrEqual,
    GreaterThan,
    GreaterOrEqual,
    EqualEqual,
    NotEqual,
}

/// An application of a binary operator; both operands are always evaluated,
/// left to right.
pub struct BinaryExpression {
    pub operator: Operator,
    pub lhs: Box<Expression>,
    pub rhs: Box<Expression>,
}

/// A 32-bit signed integer constant.
pub struct IntegerLiteral {
    pub value: i32,
}

/// A write of a value into the current frame, shadowing or creating the
/// binding there; never an ancestor frame.
pub struct Assignment {
    pub name: String,
    pub expression: Box<Expression>,
}

/// A read of the first binding for `name` found on the frame chain.
pub struct Identifier {
    pub name: String,
}

/// An ordered sequence of expressions evaluated in the enclosing frame; its
/// value is the last element's value, or `0` when empty.
pub struct BlockExpression {
    pub elements: Vec<Expression>,
}

/// A loop that repeats its body while the condition is truthy (nonzero) and
/// always evaluates to `1`.
pub struct WhileExpression {
    pub condition: Box<Expression>,
    pub body: Box<Expression>,
}

/// A conditional; a falsy condition without an `else` yields the sentinel `1`.
pub struct IfExpression {
    pub condition: Box<Expression>,
    pub then_clause: Box<Expression>,
    pub else_clause: Option<Box<Expression>>,
}

/// Evaluates its body and emits the value on the print channel, yielding `0`.
pub struct PrintlnExpression {
    pub body: Box<Expression>,
}

/// A call with positional arguments.
pub struct FunctionCall {
    pub name: String,
    pub args: Vec<Expression>,
}

/// One `label = expression` pair of a labelled call.
pub struct LabelledParameter {
    pub label: String,
    pub expression: Expression,
}

/// A call whose arguments are matched to the callee's formal parameters by
/// label instead of by position.
pub struct LabelledCall {
    pub name: String,
    pub args: Vec<LabelledParameter>,
}

/// The closed variant set of expressions.
pub enum Expression {
    Binary(BinaryExpression),
    IntegerLiteral(IntegerLiteral),
    Identifier(Identifier),
    Assignment(Assignment),
    Block(BlockExpression),
    If(IfExpression),
    While(WhileExpression),
    FunctionCall(FunctionCall),
    LabelledCall(LabelledCall),
    Println(PrintlnExpression),
}

/// A function definition: name, formal parameters in declared order, body.
pub struct FunctionDefinition {
    pub name: String,
    pub args: Vec<String>,
    pub body: Expression,
}

/// A global variable definition, whose initializer runs during load against
/// the root frame.
pub struct GlobalVariableDefinition {
    pub name: String,
    pub body: Expression,
}

/// A top-level declaration.
pub enum TopLevel {
    FunctionDefinition(FunctionDefinition),
    GlobalVariableDefinition(GlobalVariableDefinition),
}

/// A whole program: an ordered list of top-level declarations.
pub struct Program {
    pub definitions: Vec<TopLevel>,
}

impl BinaryExpression {
    pub fn new(operator: Operator, lhs: Expression, rhs: Expression) -> (r: Self)
        ensures
            r.operator == operator,
            *r.lhs == lhs,
            *r.rhs == rhs,
    {
        Self { operator, lhs: Box::new(lhs), rhs: Box::new(rhs) }
    }
}

impl IntegerLiteral {
    pub fn new(value: i32) -> (r: Self)
        ensures
            r.value == value,
    {
        Self { value }
    }
}

impl Assignment {
    pub fn new(name: String, expression: Expression) -> (r: Self)
        ensures
            r.name == name,
            *r.expression == expression,
    {
        Self { name, expression: Box::new(expression) }
    }
}

impl Identifier {
    pub fn new(name: String) -> (r: Self)
        ensures
            r.name == name,
    {
        Self { name }
    }
}

impl BlockExpression {
    pub fn new(elements: Vec<Expression>) -> (r: Self)
        ensures
            r.elements == elements,
    {
        Self { elements }
    }
}

impl WhileExpression {
    pub fn new(condition: Expression, body: Expression) -> (r: Self)
        ensures
            *r.condition == condition,
            *r.body == body,
    {
        Self { condition: Box::new(condition), body: Box::new(body) }
    }
}

impl IfExpression {
    pub fn new(condition: Expression, then_clause: Expression, else_clause: Option<Expression>) -> (r: Self)
        ensures
            *r.condition == condition,
            *r.then_clause == then_clause,
            match else_clause {
                Some(e) => r.else_clause matches Some(b) && *b == e,
                None => r.else_clause is None,
            },
    {
        let boxed_else = match else_clause {
            Some(e) => Some(Box::new(e)),
            None => None,
        };
        Self { condition: Box::new(condition), then_clause: Box::new(then_clause), else_clause: boxed_else }
    }
}

impl PrintlnExpression {
    pub fn new(body: Expression) -> (r: Self)
        ensures
            *r.body == body,
    {
        Self { body: Box::new(body) }
    }
}

impl FunctionCall {
    pub fn new(name: String, args: Vec<Expression>) -> (r: Self)
        ensures
            r.name == name,
            r.args == args,
    {
        Self { name, args }
    }
}

impl LabelledParameter {
    pub fn new(label: String, expression: Expression) -> (r: Self)
        ensures
            r.label == label,
            r.expression == expression,
    {
        Self { label, expression }
    }
}

impl LabelledCall {
    pub fn new(name: String, args: Vec<LabelledParameter>) -> (r: Self)
        ensures
            r.name == name,
            r.args == args,
    {
        Self { name, args }
    }
}

impl FunctionDefinition {
    pub fn new(name: String, args: Vec<String>, body: Expression) -> (r: Self)
        ensures
            r.name == name,
            r.args == args,
            r.body == body,
    {
        Self { name, args, body }
    }
}

impl GlobalVariableDefinition {
    pub fn new(name: String, body: Expression) -> (r: Self)
        ensures
            r.name == name,
            r.body == body,
    {
        Self { name, body }
    }
}

/// Convenience constructors mirroring the surface syntax, one per node kind.
pub struct Ast {}

impl Ast {
    pub fn add(lhs: Expression, rhs: Expression) -> (r: Expression)
        ensures
            r matches Expression::Binary(b) && b.operator == Operator::Add && *b.lhs == lhs
                && *b.rhs == rhs,
    {
        Expression::Binary(BinaryExpression::new(Operator::Add, lhs, rhs))
    }

    pub fn subtract(lhs: Expression, rhs: Expression) -> (r: Expression)
        ensures
            r matches Expression::Binary(b) && b.operator == Operator::Subtract && *b.lhs == lhs
                && *b.rhs == rhs,
    {
        Expression::Binary(BinaryExpression::new(Operator::Subtract, lhs, rhs))
    }

    pub fn multiply(lhs: Expression, rhs: Expression) -> (r: Expression)
        ensures
            r matches Expression::Binary(b) && b.operator == Operator::Multiply && *b.lhs == lhs
                && *b.rhs == rhs,
    {
        Expression::Binary(BinaryExpression::new(Operator::Multiply, lhs, rhs))
    }

    pub fn divide(lhs: Expression, rhs: Expression) -> (r: Expression)
        ensures
            r matches Expression::Binary(b) && b.operator == Operator::Divide && *b.lhs == lhs
                && *b.rhs == rhs,
    {
        Expression::Binary(BinaryExpression::new(Operator::Divide, lhs, rhs))
    }

    pub fn less_than(lhs: Expression, rhs: Expression) -> (r: Expression)
        ensures
            r matches Expression::Binary(b) && b.operator == Operator::LessThan && *b.lhs == lhs
                && *b.rhs == rhs,
    {
        Expression::Binary(BinaryExpression::new(Operator::LessThan, lhs, rhs))
    }

    pub fn less_or_equal(lhs: Expression, rhs: Expression) -> (r: Expression)
        ensures
            r matches Expression::Binary(b) && b.operator == Operator::LessOrEqual && *b.lhs == lhs
                && *b.rhs == rhs,
    {
        Expression::Binary(BinaryExpression::new(Operator::LessOrEqual, lhs, rhs))
    }

    pub fn greater_than(lhs: Expression, rhs: Expression) -> (r: Expression)
        ensures
            r matches Expression::Binary(b) && b.operator == Operator::GreaterThan && *b.lhs == lhs
                && *b.rhs == rhs,
    {
        Expression::Binary(BinaryExpression::new(Operator::GreaterThan, lhs, rhs))
    }

    pub fn greater_or_equal(lhs: Expression, rhs: Expression) -> (r: Expression)
        ensures
            r matches Expression::Binary(b) && b.operator == Operator::GreaterOrEqual
                && *b.lhs == lhs && *b.rhs == rhs,
    {
        Expression::Binary(BinaryExpression::new(Operator::GreaterOrEqual, lhs, rhs))
    }

    pub fn equal_equal(lhs: Expression, rhs: Expression) -> (r: Expression)
        ensures
            r matches Expression::Binary(b) && b.operator == Operator::EqualEqual && *b.lhs == lhs
                && *b.rhs == rhs,
    {
        Expression::Binary(BinaryExpression::new(Operator::EqualEqual, lhs, rhs))
    }

    pub fn not_equal(lhs: Expression, rhs: Expression) -> (r: Expression)
        ensures
            r matches Expression::Binary(b) && b.operator == Operator::NotEqual && *b.lhs == lhs
                && *b.rhs == rhs,
    {
        Expression::Binary(BinaryExpression::new(Operator::NotEqual, lhs, rhs))
    }

    pub fn integer(value: i32) -> (r: Expression)
        ensures
            r matches Expression::IntegerLiteral(l) && l.value == value,
    {
        Expression::IntegerLiteral(IntegerLiteral::new(value))
    }

    pub fn symbol(name: String) -> (r: Expression)
        ensures
            r matches Expression::Identifier(i) && i.name == name,
    {
        Expression::Identifier(Identifier::new(name))
    }

    pub fn assignment(name: String, expression: Expression) -> (r: Expression)
        ensures
            r matches Expression::Assignment(a) && a.name == name && *a.expression == expression,
    {
        Expression::Assignment(Assignment::new(name, expression))
    }

    pub fn block(elements: Vec<Expression>) -> (r: Expression)
        ensures
            r matches Expression::Block(b) && b.elements == elements,
    {
        Expression::Block(BlockExpression::new(elements))
    }

    pub fn while_expr(condition: Expression, body: Expression) -> (r: Expression)
        ensures
            r matches Expression::While(w) && *w.condition == condition && *w.body == body,
    {
        Expression::While(WhileExpression::new(condition, body))
    }

    pub fn if_expr(condition: Expression, then_clause: Expression, else_clause: Option<Expression>) -> (r: Expression)
        ensures
            r matches Expression::If(i) && *i.condition == condition
                && *i.then_clause == then_clause,
            r matches Expression::If(i) ==> match else_clause {
                Some(e) => i.else_clause matches Some(b) && *b == e,
                None => i.else_clause is None,
            },
    {
        Expression::If(IfExpression::new(condition, then_clause, else_clause))
    }

    pub fn define_function(name: String, args: Vec<String>, body: Expression) -> (r: TopLevel)
        ensures
            r matches TopLevel::FunctionDefinition(f) && f.name == name && f.args == args
                && f.body == body,
    {
        TopLevel::FunctionDefinition(FunctionDefinition::new(name, args, body))
    }

    pub fn global_variable(name: String, body: Expression) -> (r: TopLevel)
        ensures
            r matches TopLevel::GlobalVariableDefinition(g) && g.name == name && g.body == body,
    {
        TopLevel::GlobalVariableDefinition(GlobalVariableDefinition::new(name, body))
    }

    pub fn call(name: String, args: Vec<Expression>) -> (r: Expression)
        ensures
            r matches Expression::FunctionCall(c) && c.name == name && c.args == args,
    {
        Expression::FunctionCall(FunctionCall::new(name, args))
    }

    pub fn labelled_parameter(label: String, expression: Expression) -> (r: LabelledParameter)
        ensures
            r.label == label,
            r.expression == expression,
    {
        LabelledParameter::new(label, expression)
    }

    pub fn labelled_call(name: String, args: Vec<LabelledParameter>) -> (r: Expression)
        ensures
            r matches Expression::LabelledCall(c) && c.name == name && c.args == args,
    {
        Expression::LabelledCall(LabelledCall::new(name, args))
    }

    pub fn println(body: Expression) -> (r: Expression)
        ensures
            r matches Expression::Println(p) && *p.body == body,
    {
        Expression::Println(PrintlnExpression::new(body))
    }
}

/// The ghost shape of an expression: the same tree with names as character
/// sequences.  The semantics in `semantics` is defined over this type, so a
/// mathematical statement about a program never depends on how its strings
/// are allocated.
#[verifier::ext_equal]
pub ghost enum ExpressionView {
    Binary { operator: Operator, lhs: Box<ExpressionView>, rhs: Box<ExpressionView> },
    IntegerLiteral(i32),
    Identifier(Seq<char>),
    Assignment { name: Seq<char>, expression: Box<ExpressionView> },
    Block(Seq<ExpressionView>),
    If {
        condition: Box<ExpressionView>,
        then_clause: Box<ExpressionView>,
        else_clause: Option<Box<ExpressionView>>,
    },
    While { condition: Box<ExpressionView>, body: Box<ExpressionView> },
    FunctionCall { name: Seq<char>, args: Seq<ExpressionView> },
    LabelledCall { name: Seq<char>, args: Seq<LabelledParameterView> },
    Println(Box<ExpressionView>),
}

/// The ghost shape of one `label = expression` pair.
#[verifier::ext_equal]
pub ghost struct LabelledParameterView {
    pub label: Seq<char>,
    pub expression: ExpressionView,
}

/// The ghost shape of a function definition.
#[verifier::ext_equal]
pub ghost struct FunctionDefinitionView {
    pub name: Seq<char>,
    pub args: Seq<Seq<char>>,
    pub body: ExpressionView,
}

/// The ghost shape of a top-level declaration.
#[verifier::ext_equal]
pub ghost enum TopLevelView {
    FunctionDefinition(FunctionDefinitionView),
    GlobalVariableDefinition { name: Seq<char>, body: ExpressionView },
}

/// The ghost shape of an expression tree.
pub open spec fn expr_view(e: Expression) -> ExpressionView
    decreases e,
{
    match e {
        Expression::Binary(b) => ExpressionView::Binary {
            operator: b.operator,
            lhs: Box::new(expr_view(*b.lhs)),
            rhs: Box::new(expr_view(*b.rhs)),
        },
        Expression::IntegerLiteral(l) => ExpressionView::IntegerLiteral(l.value),
        Expression::Identifier(i) => ExpressionView::Identifier(i.name@),
        Expression::Assignment(a) => ExpressionView::Assignment {
            name: a.name@,
            expression: Box::new(expr_view(*a.expression)),
        },
        Expression::Block(b) => ExpressionView::Block(exprs_view(b.elements@)),
        Expression::If(i) => ExpressionView::If {
            condition: Box::new(expr_view(*i.condition)),
            then_clause: Box::new(expr_view(*i.then_clause)),
            else_clause: match i.else_clause {
                Some(e) => Some(Box::new(expr_view(*e))),
                None => None,
            },
        },
        Expression::While(w) => ExpressionView::While {
            condition: Box::new(expr_view(*w.condition)),
            body: Box::new(expr_view(*w.body)),
        },
        Expression::FunctionCall(c) => ExpressionView::FunctionCall {
            name: c.name@,
            args: exprs_view(c.args@),
        },
        Expression::LabelledCall(c) => ExpressionView::LabelledCall {
            name: c.name@,
            args: labelled_params_view(c.args@),
        },
        Expression::Println(p) => ExpressionView::Println(Box::new(expr_view(*p.body))),
    }
}

/// The ghost shapes of a sequence of expressions, elementwise.
pub open spec fn exprs_view(s: Seq<Expression>) -> Seq<ExpressionView>
    decreases s,
{
    Seq::new(
        s.len(),
        |i: int|
            if 0 <= i < s.len() {
                expr_view(s[i])
            } else {
                arbitrary()
            },
    )
}

/// The ghost shapes of a sequence of labelled parameters, elementwise.
pub open spec fn labelled_params_view(s: Seq<LabelledParameter>) -> Seq<LabelledParameterView>
    decreases s,
{
    Seq::new(
        s.len(),
        |i: int|
            if 0 <= i < s.len() {
                LabelledParameterView { label: s[i].label@, expression: expr_view(s[i].expression) }
            } else {
                arbitrary()
            },
    )
}

/// The views of a sequence of names, elementwise.
pub open spec fn names_view(s: Seq<String>) -> Seq<Seq<char>> {
    Seq::new(s.len(), |i: int| s[i]@)
}

/// The ghost shape of a function definition.
pub open spec fn fn_def_view(f: FunctionDefinition) -> FunctionDefinitionView
    decreases f,
{
    FunctionDefinitionView { name: f.name@, args: names_view(f.args@), body: expr_view(f.body) }
}

/// The ghost shape of a top-level declaration.
pub open spec fn toplevel_view(t: TopLevel) -> TopLevelView
    decreases t,
{
    match t {
        TopLevel::FunctionDefinition(f) => TopLevelView::FunctionDefinition(fn_def_view(f)),
        TopLevel::GlobalVariableDefinition(g) => TopLevelView::GlobalVariableDefinition {
            name: g.name@,
            body: expr_view(g.body),
        },
    }
}

/// The ghost shapes of a program's declarations, elementwise.
pub open spec fn toplevels_view(s: Seq<TopLevel>) -> Seq<TopLevelView>
    decreases s,
{
    Seq::new(
        s.len(),
        |i: int|
            if 0 <= i < s.len() {
                toplevel_view(s[i])
            } else {
                arbitrary()
            },
    )
}

} // verus!
