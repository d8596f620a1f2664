//! Statements as the script parser gives them, before they are compiled.
use vstd::prelude::*;
use crate::script::type_model::TypeModel;
use crate::script::val_type::VType;

verus! {

/// A literal value in a script. A float literal is kept as its decimal
/// text: the digits before the dot, the dot and what follows it.
pub enum VDataEnum {
    Bool(bool),
    Int(isize),
    Float(String),
    String(String),
}

/// One statement.
pub enum SStatementEnum {
    Value(VDataEnum),
    Tuple(Vec<SStatement>),
    List(Vec<SStatement>),
    Variable(String, bool),
    FunctionCall(String, Vec<SStatement>),
    FunctionDefinition(Option<String>, SFunction),
    Block(SBlock),
    If(SStatement, SStatement, Option<SStatement>),
    Loop(SStatement),
    For(String, SStatement, SStatement),
    Switch(String, Vec<(VType, SStatement)>, bool),
    Match(String, Vec<(SStatement, SStatement)>),
    IndexFixed(SStatement, usize),
    EnumVariant(String, SStatement),
}

/// A statement with where its value is stored (a variable and how many
/// times it is dereferenced first) and the type its value must fit.
pub struct SStatement {
    pub output_to: Option<(String, usize)>,
    pub statement: Box<SStatementEnum>,
    pub force_output_type: Option<VType>,
}

/// Statements run one after the other.
pub struct SBlock {
    pub statements: Vec<SStatement>,
}

/// A function: its arguments with their types, and its body.
pub struct SFunction {
    pub inputs: Vec<(String, VType)>,
    pub block: SBlock,
}

impl SStatementEnum {
    /// The statement with no variable to store to and no forced type.
    pub fn to(self) -> (r: SStatement)
        ensures
            r.model() == PStatement::plain(self.model()),
    {
        SStatement { output_to: None, statement: Box::new(self), force_output_type: None }
    }
}

impl SStatement {
    /// The statement with no variable to store to and no forced type.
    pub fn new(statement: SStatementEnum) -> (r: Self)
        ensures
            r.model() == PStatement::plain(statement.model()),
    {
        SStatement { output_to: None, statement: Box::new(statement), force_output_type: None }
    }

    /// The statement, storing its value to `var` after `derefs` dereferences.
    pub fn output_to(self, var: String, derefs: usize) -> (r: Self)
        ensures
            r.model() == (PStatement { output_to: Some((var@, derefs as nat)), ..self.model() }),
    {
        let mut s = self;
        s.output_to = Some((var, derefs));
        s
    }

    /// The statement, whose value must fit `t` where it is `Some`.
    pub fn force_output_type(self, t: Option<VType>) -> (r: Self)
        ensures
            r.model() == (PStatement { force: match t {
                Some(x) => Some(x.model()),
                None => None,
            }, ..self.model() }),
    {
        let mut s = self;
        s.force_output_type = t;
        s
    }
}

impl SBlock {
    pub fn new(statements: Vec<SStatement>) -> (r: Self)
        ensures
            r.statements@ == statements@,
    {
        SBlock { statements }
    }
}

impl SFunction {
    pub fn new(inputs: Vec<(String, VType)>, block: SBlock) -> (r: Self)
        ensures
            r.inputs@ == inputs@,
            r.block.statements@ == block.statements@,
    {
        SFunction { inputs, block }
    }
}

/// The mathematical value of a literal.
pub enum PValue {
    Bool(bool),
    Int(isize),
    Float(Seq<char>),
    Str(Seq<char>),
}

/// The mathematical value of an [`SStatementEnum`].
pub enum PKind {
    Value(PValue),
    Tuple(Seq<PStatement>),
    List(Seq<PStatement>),
    Variable(Seq<char>, bool),
    FunctionCall(Seq<char>, Seq<PStatement>),
    FunctionDefinition(Option<Seq<char>>, PFunction),
    Block(Seq<PStatement>),
    If(PStatement, PStatement, Option<PStatement>),
    Loop(PStatement),
    For(Seq<char>, PStatement, PStatement),
    Switch(Seq<char>, Seq<(TypeModel, PStatement)>, bool),
    Match(Seq<char>, Seq<(PStatement, PStatement)>),
    IndexFixed(PStatement, usize),
    EnumVariant(Seq<char>, PStatement),
}

/// The mathematical value of an [`SStatement`].
pub struct PStatement {
    pub output_to: Option<(Seq<char>, nat)>,
    pub statement: Box<PKind>,
    pub force: Option<TypeModel>,
}

/// The mathematical value of an [`SFunction`].
pub struct PFunction {
    pub inputs: Seq<(Seq<char>, TypeModel)>,
    pub block: Seq<PStatement>,
}

impl PStatement {
    pub open spec fn plain(k: PKind) -> PStatement {
        PStatement { output_to: None, statement: Box::new(k), force: None }
    }
}

impl VDataEnum {
    pub open spec fn model(&self) -> PValue {
        match self {
            VDataEnum::Bool(b) => PValue::Bool(*b),
            VDataEnum::Int(i) => PValue::Int(*i),
            VDataEnum::Float(s) => PValue::Float(s@),
            VDataEnum::String(s) => PValue::Str(s@),
        }
    }
}

pub open spec fn stmts_model(s: Seq<SStatement>) -> Seq<PStatement>
    decreases s,
{
    if s.len() == 0 {
        Seq::empty()
    } else {
        stmts_model(s.drop_last()).push(s.last().model())
    }
}

pub open spec fn arms_model(s: Seq<(SStatement, SStatement)>) -> Seq<(PStatement, PStatement)>
    decreases s,
{
    if s.len() == 0 {
        Seq::empty()
    } else {
        arms_model(s.drop_last()).push((s.last().0.model(), s.last().1.model()))
    }
}

pub open spec fn typed_arms_model(s: Seq<(VType, SStatement)>) -> Seq<(TypeModel, PStatement)>
    decreases s,
{
    if s.len() == 0 {
        Seq::empty()
    } else {
        typed_arms_model(s.drop_last()).push((s.last().0.model(), s.last().1.model()))
    }
}

pub open spec fn inputs_model(s: Seq<(String, VType)>) -> Seq<(Seq<char>, TypeModel)> {
    s.map_values(|x: (String, VType)| (x.0@, x.1.model()))
}

impl SFunction {
    pub open spec fn model(&self) -> PFunction {
        PFunction { inputs: inputs_model(self.inputs@), block: stmts_model(self.block.statements@) }
    }
}

impl SStatement {
    pub open spec fn model(&self) -> PStatement
        decreases self,
    {
        PStatement {
            output_to: match self.output_to {
                Some((v, k)) => Some((v@, k as nat)),
                None => None,
            },
            statement: Box::new(self.statement.model()),
            force: match self.force_output_type {
                Some(t) => Some(t.model()),
                None => None,
            },
        }
    }
}

impl SStatementEnum {
    pub open spec fn model(&self) -> PKind
        decreases self,
    {
        match self {
            SStatementEnum::Value(v) => PKind::Value(v.model()),
            SStatementEnum::Tuple(v) => PKind::Tuple(stmts_model(v@)),
            SStatementEnum::List(v) => PKind::List(stmts_model(v@)),
            SStatementEnum::Variable(n, r) => PKind::Variable(n@, *r),
            SStatementEnum::FunctionCall(f, a) => PKind::FunctionCall(f@, stmts_model(a@)),
            SStatementEnum::FunctionDefinition(n, f) => PKind::FunctionDefinition(
                match n {
                    Some(n) => Some(n@),
                    None => None,
                },
                PFunction { inputs: inputs_model(f.inputs@), block: stmts_model(f.block.statements@) },
            ),
            SStatementEnum::Block(b) => PKind::Block(stmts_model(b.statements@)),
            SStatementEnum::If(c, y, n) => PKind::If(c.model(), y.model(), match n {
                Some(n) => Some(n.model()),
                None => None,
            }),
            SStatementEnum::Loop(b) => PKind::Loop(b.model()),
            SStatementEnum::For(v, i, b) => PKind::For(v@, i.model(), b.model()),
            SStatementEnum::Switch(v, a, f) => PKind::Switch(v@, typed_arms_model(a@), *f),
            SStatementEnum::Match(v, a) => PKind::Match(v@, arms_model(a@)),
            SStatementEnum::IndexFixed(s, i) => PKind::IndexFixed(s.model(), *i),
            SStatementEnum::EnumVariant(v, s) => PKind::EnumVariant(v@, s.model()),
        }
    }
}

} // verus!
