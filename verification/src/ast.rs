//! Abstract syntax tree for the HILO language, together with its
//! mathematical model.
//!
//! Every executable node type has a model type (prefixed `Spec`) whose text
//! fields are `Seq<char>` and whose lists are `Seq`; the `View`/`DeepView`
//! impls map a tree to its model.  All parser contracts are stated over the
//! model types.

use vstd::prelude::*;

verus! {

broadcast use vstd::std_specs::vec::group_vec_axioms, vstd::seq::group_seq_axioms;

pub type Ident = String;

pub type QualifiedName = Vec<Ident>;

#[derive(Debug, PartialEq, Eq)]
pub struct Module {
    pub name: Option<QualifiedName>,
    pub imports: Vec<Import>,
    pub items: Vec<Item>,
}

#[derive(Debug, PartialEq, Eq)]
pub struct Import {
    pub path: QualifiedName,
    pub members: Option<Vec<Ident>>,
    pub alias: Option<Ident>,
}

#[derive(Debug, PartialEq, Eq)]
pub enum Item {
    Record(RecordDecl),
    Task(TaskDecl),
    Workflow(WorkflowDecl),
    Test(TestDecl),
    Other(String),
}

#[derive(Debug, PartialEq, Eq)]
pub struct RecordDecl {
    pub name: Ident,
    pub type_params: Vec<Ident>,
    pub fields: Vec<RecordField>,
}

#[derive(Debug, PartialEq, Eq)]
pub struct RecordField {
    pub name: Ident,
    pub optional: bool,
    pub ty: TypeExpr,
}

#[derive(Debug, PartialEq, Eq)]
pub struct TaskDecl {
    pub name: Ident,
    pub params: Vec<Param>,
    pub return_type: Option<TypeExpr>,
    pub body: Block,
}

#[derive(Debug, PartialEq, Eq)]
pub struct WorkflowDecl {
    pub name: Ident,
    pub body: Block,
}

#[derive(Debug, PartialEq, Eq)]
pub struct TestDecl {
    pub name: String,
    pub body: Block,
}

#[derive(Debug, PartialEq, Eq)]
pub struct Param {
    pub name: Ident,
    pub ty: TypeExpr,
    pub default: Option<String>,
}

#[derive(Debug, PartialEq, Eq)]
pub struct Block {
    pub raw: String,
    pub statements: Vec<Statement>,
}

#[derive(Debug, PartialEq, Eq)]
pub enum Statement {
    Let { name: Ident, ty: Option<TypeExpr>, value: Option<Expression> },
    Return { value: Option<Expression> },
    Expr(Expression),
}

#[derive(Debug, PartialEq, Eq)]
pub enum Expression {
    Identifier(Ident),
    Literal(String),
    Call { target: Box<Expression>, args: Vec<Expression> },
    Member { target: Box<Expression>, property: Ident },
    OptionalChain { target: Box<Expression>, property: Ident },
    Index { target: Box<Expression>, index: Box<Expression> },
    Binary { left: Box<Expression>, op: String, right: Box<Expression> },
    StructLiteral { type_path: QualifiedName, fields: Vec<(Ident, Expression)> },
    Raw(String),
}

#[derive(Debug, PartialEq, Eq)]
pub enum TypeExpr {
    Simple(QualifiedName),
    Generic { base: QualifiedName, arguments: Vec<TypeExpr> },
    List(Box<TypeExpr>),
    Struct(Vec<StructFieldType>),
    Optional(Box<TypeExpr>),
    Unknown(String),
}

#[derive(Debug, PartialEq, Eq)]
pub struct StructFieldType {
    pub name: Ident,
    pub optional: bool,
    pub ty: TypeExpr,
}

// ------------------------------------------------------------------
// Model types.
// ------------------------------------------------------------------

pub struct SpecModule {
    pub name: Option<Seq<Seq<char>>>,
    pub imports: Seq<SpecImport>,
    pub items: Seq<SpecItem>,
}

pub struct SpecImport {
    pub path: Seq<Seq<char>>,
    pub members: Option<Seq<Seq<char>>>,
    pub alias: Option<Seq<char>>,
}

pub enum SpecItem {
    Record(SpecRecordDecl),
    Task(SpecTaskDecl),
    Workflow(SpecWorkflowDecl),
    Test(SpecTestDecl),
    Other(Seq<char>),
}

pub struct SpecRecordDecl {
    pub name: Seq<char>,
    pub type_params: Seq<Seq<char>>,
    pub fields: Seq<SpecRecordField>,
}

pub struct SpecRecordField {
    pub name: Seq<char>,
    pub optional: bool,
    pub ty: SpecTypeExpr,
}

pub struct SpecTaskDecl {
    pub name: Seq<char>,
    pub params: Seq<SpecParam>,
    pub return_type: Option<SpecTypeExpr>,
    pub body: SpecBlock,
}

pub struct SpecWorkflowDecl {
    pub name: Seq<char>,
    pub body: SpecBlock,
}

pub struct SpecTestDecl {
    pub name: Seq<char>,
    pub body: SpecBlock,
}

pub struct SpecParam {
    pub name: Seq<char>,
    pub ty: SpecTypeExpr,
    pub default: Option<Seq<char>>,
}

pub struct SpecBlock {
    pub raw: Seq<char>,
    pub statements: Seq<SpecStatement>,
}

pub enum SpecStatement {
    Let { name: Seq<char>, ty: Option<SpecTypeExpr>, value: Option<SpecExpression> },
    Return { value: Option<SpecExpression> },
    Expr(SpecExpression),
}

pub enum SpecExpression {
    Identifier(Seq<char>),
    Literal(Seq<char>),
    Call { target: Box<SpecExpression>, args: Seq<SpecExpression> },
    Member { target: Box<SpecExpression>, property: Seq<char> },
    OptionalChain { target: Box<SpecExpression>, property: Seq<char> },
    Index { target: Box<SpecExpression>, index: Box<SpecExpression> },
    Binary { left: Box<SpecExpression>, op: Seq<char>, right: Box<SpecExpression> },
    StructLiteral { type_path: Seq<Seq<char>>, fields: Seq<(Seq<char>, SpecExpression)> },
    Raw(Seq<char>),
}

pub enum SpecTypeExpr {
    Simple(Seq<Seq<char>>),
    Generic { base: Seq<Seq<char>>, arguments: Seq<SpecTypeExpr> },
    List(Box<SpecTypeExpr>),
    Struct(Seq<SpecStructFieldType>),
    Optional(Box<SpecTypeExpr>),
    Unknown(Seq<char>),
}

pub struct SpecStructFieldType {
    pub name: Seq<char>,
    pub optional: bool,
    pub ty: SpecTypeExpr,
}

// ------------------------------------------------------------------
// Views.
// ------------------------------------------------------------------

pub open spec fn view_type_expr(t: TypeExpr) -> SpecTypeExpr
    decreases t,
        via view_type_expr_decreases
{
    match t {
        TypeExpr::Simple(q) => SpecTypeExpr::Simple(q.deep_view()),
        TypeExpr::Generic { base, arguments } => SpecTypeExpr::Generic {
            base: base.deep_view(),
            arguments: view_type_list(arguments@),
        },
        TypeExpr::List(inner) => SpecTypeExpr::List(Box::new(view_type_expr(*inner))),
        TypeExpr::Struct(fields) => SpecTypeExpr::Struct(view_struct_field_list(fields@)),
        TypeExpr::Optional(inner) => SpecTypeExpr::Optional(Box::new(view_type_expr(*inner))),
        TypeExpr::Unknown(raw) => SpecTypeExpr::Unknown(raw@),
    }
}

pub open spec fn view_type_list(ts: Seq<TypeExpr>) -> Seq<SpecTypeExpr>
    decreases ts,
        via view_type_list_decreases
{
    if ts.len() == 0 {
        Seq::empty()
    } else {
        seq![view_type_expr(ts[0])] + view_type_list(ts.drop_first())
    }
}

pub open spec fn view_struct_field_type(f: StructFieldType) -> SpecStructFieldType
    decreases f,
{
    SpecStructFieldType { name: f.name@, optional: f.optional, ty: view_type_expr(f.ty) }
}

pub open spec fn view_struct_field_list(fs: Seq<StructFieldType>) -> Seq<SpecStructFieldType>
    decreases fs,
        via view_struct_field_list_decreases
{
    if fs.len() == 0 {
        Seq::empty()
    } else {
        seq![view_struct_field_type(fs[0])] + view_struct_field_list(fs.drop_first())
    }
}

#[via_fn]
proof fn view_type_expr_decreases(t: TypeExpr) {
    match t {
        TypeExpr::Generic { base, arguments } => {
            vstd::std_specs::vec::axiom_vec_decreases_to_view(arguments);
            assert(decreases_to!(t => arguments));
        },
        TypeExpr::Struct(fields) => {
            vstd::std_specs::vec::axiom_vec_decreases_to_view(fields);
            assert(decreases_to!(t => fields));
        },
        _ => {},
    }
}

#[via_fn]
proof fn view_type_list_decreases(ts: Seq<TypeExpr>) {
    if ts.len() > 0 {
        vstd::seq::axiom_seq_index_decreases(ts, 0);
        vstd::seq::axiom_seq_subrange_decreases(ts, 1, ts.len() as int);
    }
}

#[via_fn]
proof fn view_struct_field_list_decreases(fs: Seq<StructFieldType>) {
    if fs.len() > 0 {
        vstd::seq::axiom_seq_index_decreases(fs, 0);
        vstd::seq::axiom_seq_subrange_decreases(fs, 1, fs.len() as int);
    }
}

pub open spec fn view_expression(e: Expression) -> SpecExpression
    decreases e,
        via view_expression_decreases
{
    match e {
        Expression::Identifier(s) => SpecExpression::Identifier(s@),
        Expression::Literal(s) => SpecExpression::Literal(s@),
        Expression::Call { target, args } => SpecExpression::Call {
            target: Box::new(view_expression(*target)),
            args: view_expr_list(args@),
        },
        Expression::Member { target, property } => SpecExpression::Member {
            target: Box::new(view_expression(*target)),
            property: property@,
        },
        Expression::OptionalChain { target, property } => SpecExpression::OptionalChain {
            target: Box::new(view_expression(*target)),
            property: property@,
        },
        Expression::Index { target, index } => SpecExpression::Index {
            target: Box::new(view_expression(*target)),
            index: Box::new(view_expression(*index)),
        },
        Expression::Binary { left, op, right } => SpecExpression::Binary {
            left: Box::new(view_expression(*left)),
            op: op@,
            right: Box::new(view_expression(*right)),
        },
        Expression::StructLiteral { type_path, fields } => SpecExpression::StructLiteral {
            type_path: type_path.deep_view(),
            fields: view_field_expr_list(fields@),
        },
        Expression::Raw(s) => SpecExpression::Raw(s@),
    }
}

pub open spec fn view_expr_list(es: Seq<Expression>) -> Seq<SpecExpression>
    decreases es,
        via view_expr_list_decreases
{
    if es.len() == 0 {
        Seq::empty()
    } else {
        seq![view_expression(es[0])] + view_expr_list(es.drop_first())
    }
}

pub open spec fn view_field_expr_list(fs: Seq<(Ident, Expression)>) -> Seq<
    (Seq<char>, SpecExpression),
>
    decreases fs,
        via view_field_expr_list_decreases
{
    if fs.len() == 0 {
        Seq::empty()
    } else {
        seq![(fs[0].0@, view_expression(fs[0].1))] + view_field_expr_list(fs.drop_first())
    }
}

#[via_fn]
proof fn view_expression_decreases(e: Expression) {
    match e {
        Expression::Call { target, args } => {
            vstd::std_specs::vec::axiom_vec_decreases_to_view(args);
            assert(decreases_to!(e => args));
        },
        Expression::StructLiteral { type_path, fields } => {
            vstd::std_specs::vec::axiom_vec_decreases_to_view(fields);
            assert(decreases_to!(e => fields));
        },
        _ => {},
    }
}

#[via_fn]
proof fn view_expr_list_decreases(es: Seq<Expression>) {
    if es.len() > 0 {
        vstd::seq::axiom_seq_index_decreases(es, 0);
        vstd::seq::axiom_seq_subrange_decreases(es, 1, es.len() as int);
    }
}

#[via_fn]
proof fn view_field_expr_list_decreases(fs: Seq<(Ident, Expression)>) {
    if fs.len() > 0 {
        vstd::seq::axiom_seq_index_decreases(fs, 0);
        vstd::seq::axiom_seq_subrange_decreases(fs, 1, fs.len() as int);
    }
}

impl View for TypeExpr {
    type V = SpecTypeExpr;

    open spec fn view(&self) -> SpecTypeExpr {
        view_type_expr(*self)
    }
}

impl DeepView for TypeExpr {
    type V = SpecTypeExpr;

    open spec fn deep_view(&self) -> SpecTypeExpr {
        view_type_expr(*self)
    }
}

impl View for StructFieldType {
    type V = SpecStructFieldType;

    open spec fn view(&self) -> SpecStructFieldType {
        view_struct_field_type(*self)
    }
}

impl DeepView for StructFieldType {
    type V = SpecStructFieldType;

    open spec fn deep_view(&self) -> SpecStructFieldType {
        view_struct_field_type(*self)
    }
}

impl View for Expression {
    type V = SpecExpression;

    open spec fn view(&self) -> SpecExpression {
        view_expression(*self)
    }
}

impl DeepView for Expression {
    type V = SpecExpression;

    open spec fn deep_view(&self) -> SpecExpression {
        view_expression(*self)
    }
}

impl View for Statement {
    type V = SpecStatement;

    open spec fn view(&self) -> SpecStatement {
        match *self {
            Statement::Let { ref name, ref ty, ref value } => SpecStatement::Let {
                name: name@,
                ty: ty.deep_view(),
                value: value.deep_view(),
            },
            Statement::Return { ref value } => SpecStatement::Return { value: value.deep_view() },
            Statement::Expr(ref e) => SpecStatement::Expr(view_expression(*e)),
        }
    }
}

impl DeepView for Statement {
    type V = SpecStatement;

    open spec fn deep_view(&self) -> SpecStatement {
        self.view()
    }
}

impl View for Block {
    type V = SpecBlock;

    open spec fn view(&self) -> SpecBlock {
        SpecBlock { raw: self.raw@, statements: self.statements.deep_view() }
    }
}

impl DeepView for Block {
    type V = SpecBlock;

    open spec fn deep_view(&self) -> SpecBlock {
        self.view()
    }
}

impl View for Param {
    type V = SpecParam;

    open spec fn view(&self) -> SpecParam {
        SpecParam { name: self.name@, ty: self.ty@, default: self.default.deep_view() }
    }
}

impl DeepView for Param {
    type V = SpecParam;

    open spec fn deep_view(&self) -> SpecParam {
        self.view()
    }
}

impl View for RecordField {
    type V = SpecRecordField;

    open spec fn view(&self) -> SpecRecordField {
        SpecRecordField { name: self.name@, optional: self.optional, ty: self.ty@ }
    }
}

impl DeepView for RecordField {
    type V = SpecRecordField;

    open spec fn deep_view(&self) -> SpecRecordField {
        self.view()
    }
}

impl View for RecordDecl {
    type V = SpecRecordDecl;

    open spec fn view(&self) -> SpecRecordDecl {
        SpecRecordDecl {
            name: self.name@,
            type_params: self.type_params.deep_view(),
            fields: self.fields.deep_view(),
        }
    }
}

impl DeepView for RecordDecl {
    type V = SpecRecordDecl;

    open spec fn deep_view(&self) -> SpecRecordDecl {
        self.view()
    }
}

impl View for TaskDecl {
    type V = SpecTaskDecl;

    open spec fn view(&self) -> SpecTaskDecl {
        SpecTaskDecl {
            name: self.name@,
            params: self.params.deep_view(),
            return_type: self.return_type.deep_view(),
            body: self.body@,
        }
    }
}

impl DeepView for TaskDecl {
    type V = SpecTaskDecl;

    open spec fn deep_view(&self) -> SpecTaskDecl {
        self.view()
    }
}

impl View for WorkflowDecl {
    type V = SpecWorkflowDecl;

    open spec fn view(&self) -> SpecWorkflowDecl {
        SpecWorkflowDecl { name: self.name@, body: self.body@ }
    }
}

impl DeepView for WorkflowDecl {
    type V = SpecWorkflowDecl;

    open spec fn deep_view(&self) -> SpecWorkflowDecl {
        self.view()
    }
}

impl View for TestDecl {
    type V = SpecTestDecl;

    open spec fn view(&self) -> SpecTestDecl {
        SpecTestDecl { name: self.name@, body: self.body@ }
    }
}

impl DeepView for TestDecl {
    type V = SpecTestDecl;

    open spec fn deep_view(&self) -> SpecTestDecl {
        self.view()
    }
}

impl View for Item {
    type V = SpecItem;

    open spec fn view(&self) -> SpecItem {
        match *self {
            Item::Record(ref d) => SpecItem::Record(d@),
            Item::Task(ref d) => SpecItem::Task(d@),
            Item::Workflow(ref d) => SpecItem::Workflow(d@),
            Item::Test(ref d) => SpecItem::Test(d@),
            Item::Other(ref s) => SpecItem::Other(s@),
        }
    }
}

impl DeepView for Item {
    type V = SpecItem;

    open spec fn deep_view(&self) -> SpecItem {
        self.view()
    }
}

impl View for Import {
    type V = SpecImport;

    open spec fn view(&self) -> SpecImport {
        SpecImport {
            path: self.path.deep_view(),
            members: self.members.deep_view(),
            alias: self.alias.deep_view(),
        }
    }
}

impl DeepView for Import {
    type V = SpecImport;

    open spec fn deep_view(&self) -> SpecImport {
        self.view()
    }
}

impl View for Module {
    type V = SpecModule;

    open spec fn view(&self) -> SpecModule {
        SpecModule {
            name: self.name.deep_view(),
            imports: self.imports.deep_view(),
            items: self.items.deep_view(),
        }
    }
}

impl DeepView for Module {
    type V = SpecModule;

    open spec fn deep_view(&self) -> SpecModule {
        self.view()
    }
}

} // verus!
