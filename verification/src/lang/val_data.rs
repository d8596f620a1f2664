//! Values that mers programs compute with, and the type of each value.
use vstd::prelude::*;
use crate::lang::type_model::{SingleTypeModel, TypeModel, fns_model, singles_model, types_model};
use crate::lang::val_type::{VSingleType, VType, clone_fns};

verus! {

broadcast use crate::lang::type_model::group_model_lemmas;

/// A value. A float is held by the bits of its IEEE 754 double; a function
/// by the argument and result types it was made with; a thread by the type
/// it gives back; a reference by the value it points to.
#[derive(Debug, PartialEq)]
pub enum VDataEnum {
    Bool(bool),
    Int(isize),
    Float(u64),
    String(String),
    Tuple(Vec<VDataEnum>),
    List(VType, Vec<VDataEnum>),
    Function(Vec<(Vec<VSingleType>, VType)>),
    Thread(VType),
    Reference(Box<VDataEnum>),
    EnumVariant(usize, Box<VDataEnum>),
}

/// The mathematical value of a [`VDataEnum`].
pub enum DataModel {
    Bool(bool),
    Int(isize),
    Float(u64),
    String(Seq<char>),
    Tuple(Seq<DataModel>),
    List(TypeModel, Seq<DataModel>),
    Function(Seq<(Seq<SingleTypeModel>, TypeModel)>),
    Thread(TypeModel),
    Reference(Box<DataModel>),
    EnumVariant(usize, Box<DataModel>),
}

pub open spec fn datas_model(s: Seq<VDataEnum>) -> Seq<DataModel>
    decreases s,
{
    if s.len() == 0 {
        Seq::empty()
    } else {
        datas_model(s.drop_last()).push(s.last().model())
    }
}

impl VDataEnum {
    pub open spec fn model(&self) -> DataModel
        decreases self,
    {
        match self {
            VDataEnum::Bool(b) => DataModel::Bool(*b),
            VDataEnum::Int(i) => DataModel::Int(*i),
            VDataEnum::Float(f) => DataModel::Float(*f),
            VDataEnum::String(s) => DataModel::String(s@),
            VDataEnum::Tuple(v) => DataModel::Tuple(datas_model(v@)),
            VDataEnum::List(t, v) => DataModel::List(t.model(), datas_model(v@)),
            VDataEnum::Function(f) => DataModel::Function(fns_model(f@)),
            VDataEnum::Thread(t) => DataModel::Thread(t.model()),
            VDataEnum::Reference(r) => DataModel::Reference(Box::new(r.model())),
            VDataEnum::EnumVariant(e, v) => DataModel::EnumVariant(*e, Box::new(v.model())),
        }
    }
}

pub broadcast proof fn lemma_datas_model(s: Seq<VDataEnum>)
    ensures
        (#[trigger] datas_model(s)).len() == s.len(),
        forall|i: int| #![trigger datas_model(s)[i]] #![trigger s[i]] 0 <= i < s.len() ==> datas_model(s)[i] == s[i].model(),
    decreases s.len(),
{
    if s.len() > 0 {
        lemma_datas_model(s.drop_last());
        assert forall|i: int| 0 <= i < s.len() implies datas_model(s)[i] == (#[trigger] s[i]).model() by {
            if i < s.len() - 1 {
                assert(s.drop_last()[i] == s[i]);
            }
        }
    }
}

/// The type of a value: the value's own kind, with the types of its parts;
/// a list has the type it was made with.
pub open spec fn out_spec(d: DataModel) -> SingleTypeModel
    decreases d,
{
    match d {
        DataModel::Bool(_) => SingleTypeModel::Bool,
        DataModel::Int(_) => SingleTypeModel::Int,
        DataModel::Float(_) => SingleTypeModel::Float,
        DataModel::String(_) => SingleTypeModel::String,
        DataModel::Tuple(v) => SingleTypeModel::Tuple(outs_as_types(v)),
        DataModel::List(t, _) => SingleTypeModel::List(t),
        DataModel::Function(f) => SingleTypeModel::Function(f),
        DataModel::Thread(t) => SingleTypeModel::Thread(t),
        DataModel::Reference(r) => SingleTypeModel::Reference(Box::new(out_spec(*r))),
        DataModel::EnumVariant(e, v) => SingleTypeModel::EnumVariant(e, TypeModel { types: seq![out_spec(*v)] }),
    }
}

/// The type of each value, as a type with that one alternative.
pub open spec fn outs_as_types(v: Seq<DataModel>) -> Seq<TypeModel>
    decreases v,
{
    if v.len() == 0 {
        Seq::empty()
    } else {
        outs_as_types(v.drop_last()).push(TypeModel { types: seq![out_spec(v.last())] })
    }
}

/// The type of each value.
pub open spec fn outs(v: Seq<DataModel>) -> Seq<SingleTypeModel>
    decreases v.len(),
{
    if v.len() == 0 {
        Seq::empty()
    } else {
        outs(v.drop_last()).push(out_spec(v.last()))
    }
}

pub broadcast proof fn lemma_outs_as_types(v: Seq<DataModel>)
    ensures
        (#[trigger] outs_as_types(v)).len() == v.len(),
        forall|i: int| #![trigger outs_as_types(v)[i]] 0 <= i < v.len() ==> outs_as_types(v)[i] == (TypeModel { types: seq![out_spec(v[i])] }),
    decreases v.len(),
{
    if v.len() > 0 {
        lemma_outs_as_types(v.drop_last());
        assert forall|i: int| 0 <= i < v.len() implies #[trigger] outs_as_types(v)[i] == (TypeModel { types: seq![out_spec(v[i])] }) by {
            if i < v.len() - 1 {
                assert(v.drop_last()[i] == v[i]);
            }
        }
    }
}

pub broadcast proof fn lemma_outs(v: Seq<DataModel>)
    ensures
        (#[trigger] outs(v)).len() == v.len(),
        forall|i: int| #![trigger outs(v)[i]] 0 <= i < v.len() ==> outs(v)[i] == out_spec(v[i]),
    decreases v.len(),
{
    if v.len() > 0 {
        lemma_outs(v.drop_last());
        assert forall|i: int| 0 <= i < v.len() implies #[trigger] outs(v)[i] == out_spec(v[i]) by {
            if i < v.len() - 1 {
                assert(v.drop_last()[i] == v[i]);
            }
        }
    }
}

pub broadcast group group_data_lemmas {
    lemma_datas_model,
    lemma_outs_as_types,
    lemma_outs,
}

/// The type of each value, as a type with that one alternative.
fn tuple_types(v: &Vec<VDataEnum>) -> (r: Vec<VType>)
    ensures
        types_model(r@) == outs_as_types(datas_model(v@)),
    decreases v,
{
    let ghost m = datas_model(v@);
    proof {
        lemma_datas_model(v@);
        lemma_outs_as_types(m);
    }
    let mut ts: Vec<VType> = Vec::new();
    let mut i: usize = 0;
    while i < v.len()
        invariant
            i <= v@.len(),
            m == datas_model(v@),
            m.len() == v@.len(),
            forall|j: int| 0 <= j < v@.len() ==> #[trigger] m[j] == v@[j].model(),
            forall|j: int| #![trigger outs_as_types(m)[j]] 0 <= j < v@.len() ==> outs_as_types(m)[j] == (TypeModel { types: seq![out_spec(m[j])] }),
            outs_as_types(m).len() == v@.len(),
            ts@.len() == i,
            forall|j: int| 0 <= j < i ==> (#[trigger] ts@[j]).model() == outs_as_types(m)[j],
        decreases v@.len() - i,
    {
        proof { assert(decreases_to!(v@ => v@[i as int])); }
        let t = v[i].out_single().to();
        proof {
            assert(m[i as int] == v@[i as int].model());
            assert(outs_as_types(m)[i as int] == (TypeModel { types: seq![out_spec(m[i as int])] }));
        }
        ts.push(t);
        i += 1;
    }
    assert(types_model(ts@) =~= outs_as_types(m));
    ts
}

impl VDataEnum {
    /// The type of this value.
    pub fn out_single(&self) -> (r: VSingleType)
        ensures
            r.model() == out_spec(self.model()),
        decreases self,
    {
        broadcast use group_data_lemmas;
        match self {
            VDataEnum::Bool(_) => VSingleType::Bool,
            VDataEnum::Int(_) => VSingleType::Int,
            VDataEnum::Float(_) => VSingleType::Float,
            VDataEnum::String(_) => VSingleType::String,
            VDataEnum::Tuple(v) => VSingleType::Tuple(tuple_types(v)),
            VDataEnum::List(t, _) => VSingleType::List(t.deep_clone()),
            VDataEnum::Function(f) => VSingleType::Function(clone_fns(f)),
            VDataEnum::Thread(t) => VSingleType::Thread(t.deep_clone()),
            VDataEnum::Reference(r) => VSingleType::Reference(Box::new(r.out_single())),
            VDataEnum::EnumVariant(e, v) => VSingleType::EnumVariant(*e, v.out_single().to()),
        }
    }

    /// The type of this value, with this one alternative.
    pub fn out(&self) -> (r: VType)
        ensures
            r.model().types == seq![out_spec(self.model())],
    {
        self.out_single().to()
    }
}

} // verus!
