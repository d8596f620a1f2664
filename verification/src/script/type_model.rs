//! The mathematical values that contracts speak of for [`crate::script::val_type`].
use vstd::prelude::*;
use crate::script::val_type::{VSingleType, VType};

verus! {

/// The mathematical value of a [`VType`]: the sequence of its alternatives.
pub struct TypeModel {
    pub types: Seq<SingleTypeModel>,
}

/// The mathematical value of a [`VSingleType`].
pub enum SingleTypeModel {
    Bool,
    Int,
    Float,
    String,
    Tuple(Seq<TypeModel>),
    List(TypeModel),
    Function(Seq<(Seq<SingleTypeModel>, TypeModel)>),
    Thread(TypeModel),
    Reference(Box<SingleTypeModel>),
    EnumVariant(usize, TypeModel),
    EnumVariantS(Seq<char>, TypeModel),
}

pub open spec fn singles_model(s: Seq<VSingleType>) -> Seq<SingleTypeModel>
    decreases s,
{
    if s.len() == 0 {
        Seq::empty()
    } else {
        singles_model(s.drop_last()).push(s.last().model())
    }
}

pub open spec fn types_model(s: Seq<VType>) -> Seq<TypeModel>
    decreases s,
{
    if s.len() == 0 {
        Seq::empty()
    } else {
        types_model(s.drop_last()).push(s.last().model())
    }
}

pub open spec fn fns_model(s: Seq<(Vec<VSingleType>, VType)>) -> Seq<(Seq<SingleTypeModel>, TypeModel)>
    decreases s,
{
    if s.len() == 0 {
        Seq::empty()
    } else {
        fns_model(s.drop_last()).push((singles_model(s.last().0@), s.last().1.model()))
    }
}

impl VType {
    pub open spec fn model(&self) -> TypeModel
        decreases self,
    {
        TypeModel { types: singles_model(self.types@) }
    }
}

impl VSingleType {
    pub open spec fn model(&self) -> SingleTypeModel
        decreases self,
    {
        match self {
            VSingleType::Bool => SingleTypeModel::Bool,
            VSingleType::Int => SingleTypeModel::Int,
            VSingleType::Float => SingleTypeModel::Float,
            VSingleType::String => SingleTypeModel::String,
            VSingleType::Tuple(v) => SingleTypeModel::Tuple(types_model(v@)),
            VSingleType::List(t) => SingleTypeModel::List(t.model()),
            VSingleType::Function(f) => SingleTypeModel::Function(fns_model(f@)),
            VSingleType::Thread(t) => SingleTypeModel::Thread(t.model()),
            VSingleType::Reference(r) => SingleTypeModel::Reference(Box::new(r.model())),
            VSingleType::EnumVariant(e, t) => SingleTypeModel::EnumVariant(*e, t.model()),
            VSingleType::EnumVariantS(e, t) => SingleTypeModel::EnumVariantS(e@, t.model()),
        }
    }
}


pub broadcast proof fn lemma_singles_model(s: Seq<VSingleType>)
    ensures
        (#[trigger] singles_model(s)).len() == s.len(),
        forall|i: int| #![trigger singles_model(s)[i]] #![trigger s[i]] 0 <= i < s.len() ==> singles_model(s)[i] == s[i].model(),
    decreases s.len(),
{
    if s.len() > 0 {
        lemma_singles_model(s.drop_last());
        assert forall|i: int| 0 <= i < s.len() implies singles_model(s)[i] == (#[trigger] s[i]).model() by {
            if i < s.len() - 1 {
                assert(s.drop_last()[i] == s[i]);
            }
        }
    }
}

pub broadcast proof fn lemma_types_model(s: Seq<VType>)
    ensures
        (#[trigger] types_model(s)).len() == s.len(),
        forall|i: int| #![trigger types_model(s)[i]] #![trigger s[i]] 0 <= i < s.len() ==> types_model(s)[i] == s[i].model(),
    decreases s.len(),
{
    if s.len() > 0 {
        lemma_types_model(s.drop_last());
        assert forall|i: int| 0 <= i < s.len() implies types_model(s)[i] == (#[trigger] s[i]).model() by {
            if i < s.len() - 1 {
                assert(s.drop_last()[i] == s[i]);
            }
        }
    }
}

pub broadcast proof fn lemma_fns_model(s: Seq<(Vec<VSingleType>, VType)>)
    ensures
        (#[trigger] fns_model(s)).len() == s.len(),
        forall|i: int| #![trigger fns_model(s)[i]] #![trigger s[i]] 0 <= i < s.len() ==> fns_model(s)[i] == (singles_model(s[i].0@), s[i].1.model()),
    decreases s.len(),
{
    if s.len() > 0 {
        lemma_fns_model(s.drop_last());
        assert forall|i: int| 0 <= i < s.len() implies fns_model(s)[i] == (singles_model((#[trigger] s[i]).0@), s[i].1.model()) by {
            if i < s.len() - 1 {
                assert(s.drop_last()[i] == s[i]);
            }
        }
    }
}

pub broadcast group group_model_lemmas {
    lemma_singles_model,
    lemma_types_model,
    lemma_fns_model,
}

} // verus!
