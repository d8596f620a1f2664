//! How types travel in the byte format: a tag byte per single type, then its parts.
use vstd::prelude::*;
use vstd::utf8::{decode_utf8, encode_utf8, valid_utf8};
use crate::lang::type_model::{SingleTypeModel, TypeModel, fns_model, singles_model, types_model};
use crate::lang::val_type::{VSingleType, VType};
use crate::libs::comms::{ByteData, ByteDataA, ByteDataError, ByteReader, Decoded, be_value, law_string_roundtrip, law_usize_roundtrip};

verus! {

broadcast use {crate::lang::type_model::group_model_lemmas, ByteReader::lemma_pos_bound};

impl DeepView for VType {
    type V = TypeModel;

    open spec fn deep_view(&self) -> TypeModel {
        self.model()
    }
}

impl DeepView for VSingleType {
    type V = SingleTypeModel;

    open spec fn deep_view(&self) -> SingleTypeModel {
        self.model()
    }
}

/// The 8-byte prefix that stands for the length or number `n`.
pub open spec fn len_prefix(n: nat) -> Seq<u8> {
    <usize as ByteDataA>::spec_encode(n as usize)
}

/// The number that the first 8 bytes of `d` stand for.
pub open spec fn prefix_value(d: Seq<u8>) -> usize {
    (be_value(d.take(8)) as u64) as usize
}

/// The bytes of a single type.
pub open spec fn enc_single(t: SingleTypeModel) -> Seq<u8>
    decreases t,
{
    match t {
        SingleTypeModel::Bool => seq![98u8],
        SingleTypeModel::Int => seq![105u8],
        SingleTypeModel::Float => seq![102u8],
        SingleTypeModel::String => seq![34u8],
        SingleTypeModel::Tuple(v) => seq![116u8] + len_prefix(v.len()) + enc_types(v),
        SingleTypeModel::List(t) => seq![108u8] + enc_type(t),
        SingleTypeModel::Function(f) => seq![70u8] + len_prefix(f.len()) + enc_fns(f),
        SingleTypeModel::Thread(t) => seq![84u8] + enc_type(t),
        SingleTypeModel::Reference(r) => seq![82u8] + enc_single(*r),
        SingleTypeModel::EnumVariant(e, t) => seq![101u8] + len_prefix(e as nat) + enc_type(t),
        SingleTypeModel::EnumVariantS(s, t) => seq![69u8] + <String as ByteDataA>::spec_encode(s) + enc_type(t),
        SingleTypeModel::CustomType(_) => Seq::empty(),
        SingleTypeModel::CustomTypeS(_) => Seq::empty(),
    }
}

/// The bytes of a type: the number of alternatives, then each alternative.
pub open spec fn enc_type(t: TypeModel) -> Seq<u8>
    decreases t,
{
    len_prefix(t.types.len()) + enc_singles(t.types)
}

/// The bytes of each single type, one after the other.
pub open spec fn enc_singles(s: Seq<SingleTypeModel>) -> Seq<u8>
    decreases s,
{
    if s.len() == 0 {
        Seq::empty()
    } else {
        enc_singles(s.drop_last()) + enc_single(s.last())
    }
}

/// The bytes of each type, one after the other.
pub open spec fn enc_types(s: Seq<TypeModel>) -> Seq<u8>
    decreases s,
{
    if s.len() == 0 {
        Seq::empty()
    } else {
        enc_types(s.drop_last()) + enc_type(s.last())
    }
}

/// The bytes of one function signature: its arguments like a type, then its result.
pub open spec fn enc_fn(x: (Seq<SingleTypeModel>, TypeModel)) -> Seq<u8>
    decreases x,
{
    len_prefix(x.0.len()) + enc_singles(x.0) + enc_type(x.1)
}

/// The bytes of each function signature, one after the other.
pub open spec fn enc_fns(f: Seq<(Seq<SingleTypeModel>, TypeModel)>) -> Seq<u8>
    decreases f,
{
    if f.len() == 0 {
        Seq::empty()
    } else {
        enc_fns(f.drop_last()) + enc_fn(f.last())
    }
}

/// A single type that holds no custom type anywhere; only such types can be written.
pub open spec fn nc_single(t: SingleTypeModel) -> bool
    decreases t,
{
    match t {
        SingleTypeModel::Tuple(v) => nc_types(v),
        SingleTypeModel::List(t) => nc_type(t),
        SingleTypeModel::Function(f) => nc_fns(f),
        SingleTypeModel::Thread(t) => nc_type(t),
        SingleTypeModel::Reference(r) => nc_single(*r),
        SingleTypeModel::EnumVariant(_, t) => nc_type(t),
        SingleTypeModel::EnumVariantS(_, t) => nc_type(t),
        SingleTypeModel::CustomType(_) => false,
        SingleTypeModel::CustomTypeS(_) => false,
        _ => true,
    }
}

pub open spec fn nc_type(t: TypeModel) -> bool
    decreases t,
{
    nc_singles(t.types)
}

pub open spec fn nc_singles(s: Seq<SingleTypeModel>) -> bool
    decreases s,
{
    s.len() == 0 || (nc_singles(s.drop_last()) && nc_single(s.last()))
}

pub open spec fn nc_types(s: Seq<TypeModel>) -> bool
    decreases s,
{
    s.len() == 0 || (nc_types(s.drop_last()) && nc_type(s.last()))
}

pub open spec fn nc_fns(f: Seq<(Seq<SingleTypeModel>, TypeModel)>) -> bool
    decreases f,
{
    f.len() == 0 || (nc_fns(f.drop_last()) && nc_singles(f.last().0) && nc_type(f.last().1))
}

/// What a single type decodes to: a tag byte, then the parts that the tag asks for.
/// An unknown tag cannot be read.
pub open spec fn dec_single(d: Seq<u8>) -> Decoded<SingleTypeModel>
    decreases d.len(), 0nat,
{
    if d.len() == 0 {
        Decoded::Eof
    } else {
        let tag = d[0];
        let r = d.skip(1);
        if tag == 98u8 {
            Decoded::Value(SingleTypeModel::Bool, 1)
        } else if tag == 105u8 {
            Decoded::Value(SingleTypeModel::Int, 1)
        } else if tag == 102u8 {
            Decoded::Value(SingleTypeModel::Float, 1)
        } else if tag == 34u8 {
            Decoded::Value(SingleTypeModel::String, 1)
        } else if tag == 116u8 {
            match dec_types_vec(r) {
                Decoded::Value(v, k) => Decoded::Value(SingleTypeModel::Tuple(v), 1 + k),
                Decoded::Eof => Decoded::Eof,
                Decoded::Invalid => Decoded::Invalid,
            }
        } else if tag == 108u8 {
            match dec_type(r) {
                Decoded::Value(t, k) => Decoded::Value(SingleTypeModel::List(t), 1 + k),
                Decoded::Eof => Decoded::Eof,
                Decoded::Invalid => Decoded::Invalid,
            }
        } else if tag == 70u8 {
            match dec_fns_vec(r) {
                Decoded::Value(f, k) => Decoded::Value(SingleTypeModel::Function(f), 1 + k),
                Decoded::Eof => Decoded::Eof,
                Decoded::Invalid => Decoded::Invalid,
            }
        } else if tag == 84u8 {
            match dec_type(r) {
                Decoded::Value(t, k) => Decoded::Value(SingleTypeModel::Thread(t), 1 + k),
                Decoded::Eof => Decoded::Eof,
                Decoded::Invalid => Decoded::Invalid,
            }
        } else if tag == 82u8 {
            match dec_single(r) {
                Decoded::Value(t, k) => Decoded::Value(SingleTypeModel::Reference(Box::new(t)), 1 + k),
                Decoded::Eof => Decoded::Eof,
                Decoded::Invalid => Decoded::Invalid,
            }
        } else if tag == 101u8 {
            if r.len() < 8 {
                Decoded::Eof
            } else {
                match dec_type(r.skip(8)) {
                    Decoded::Value(t, k) => Decoded::Value(SingleTypeModel::EnumVariant(prefix_value(r), t), 9 + k),
                    Decoded::Eof => Decoded::Eof,
                    Decoded::Invalid => Decoded::Invalid,
                }
            }
        } else if tag == 69u8 {
            match dec_named_variant(r) {
                Decoded::Value(t, k) => Decoded::Value(t, 1 + k),
                Decoded::Eof => Decoded::Eof,
                Decoded::Invalid => Decoded::Invalid,
            }
        } else {
            Decoded::Invalid
        }
    }
}

/// What a type decodes to: a number of alternatives, then that many single types.
pub open spec fn dec_type(d: Seq<u8>) -> Decoded<TypeModel>
    decreases d.len(), 0nat,
{
    if d.len() < 8 {
        Decoded::Eof
    } else {
        match dec_singles(d.skip(8), prefix_value(d) as nat) {
            Decoded::Value(s, k) => Decoded::Value(TypeModel { types: s }, 8 + k),
            Decoded::Eof => Decoded::Eof,
            Decoded::Invalid => Decoded::Invalid,
        }
    }
}

/// A number of types, then that many types.
pub open spec fn dec_types_vec(d: Seq<u8>) -> Decoded<Seq<TypeModel>>
    decreases d.len(), 0nat,
{
    if d.len() < 8 {
        Decoded::Eof
    } else {
        match dec_types(d.skip(8), prefix_value(d) as nat) {
            Decoded::Value(s, k) => Decoded::Value(s, 8 + k),
            Decoded::Eof => Decoded::Eof,
            Decoded::Invalid => Decoded::Invalid,
        }
    }
}

/// A number of function signatures, then that many signatures.
pub open spec fn dec_fns_vec(d: Seq<u8>) -> Decoded<Seq<(Seq<SingleTypeModel>, TypeModel)>>
    decreases d.len(), 0nat,
{
    if d.len() < 8 {
        Decoded::Eof
    } else {
        match dec_fns(d.skip(8), prefix_value(d) as nat) {
            Decoded::Value(s, k) => Decoded::Value(s, 8 + k),
            Decoded::Eof => Decoded::Eof,
            Decoded::Invalid => Decoded::Invalid,
        }
    }
}

/// One function signature: a number of arguments, the arguments, then the result type.
pub open spec fn dec_fn(d: Seq<u8>) -> Decoded<(Seq<SingleTypeModel>, TypeModel)>
    decreases d.len(), 0nat,
{
    if d.len() < 8 {
        Decoded::Eof
    } else {
        match dec_singles(d.skip(8), prefix_value(d) as nat) {
            Decoded::Value(a, k) => if 8 + k <= d.len() {
                match dec_type(d.skip((8 + k) as int)) {
                    Decoded::Value(o, k2) => Decoded::Value((a, o), 8 + k + k2),
                    Decoded::Eof => Decoded::Eof,
                    Decoded::Invalid => Decoded::Invalid,
                }
            } else {
                Decoded::Invalid
            },
            Decoded::Eof => Decoded::Eof,
            Decoded::Invalid => Decoded::Invalid,
        }
    }
}

/// `n` single types one after the other.
pub open spec fn dec_singles(d: Seq<u8>, n: nat) -> Decoded<Seq<SingleTypeModel>>
    decreases d.len(), n,
{
    if n == 0 {
        Decoded::Value(Seq::empty(), 0)
    } else {
        match dec_singles(d, (n - 1) as nat) {
            Decoded::Value(acc, k) => if k <= d.len() {
                match dec_single(d.skip(k as int)) {
                    Decoded::Value(x, k2) => Decoded::Value(acc.push(x), k + k2),
                    Decoded::Eof => Decoded::Eof,
                    Decoded::Invalid => Decoded::Invalid,
                }
            } else {
                Decoded::Invalid
            },
            Decoded::Eof => Decoded::Eof,
            Decoded::Invalid => Decoded::Invalid,
        }
    }
}

/// `n` types one after the other.
pub open spec fn dec_types(d: Seq<u8>, n: nat) -> Decoded<Seq<TypeModel>>
    decreases d.len(), n,
{
    if n == 0 {
        Decoded::Value(Seq::empty(), 0)
    } else {
        match dec_types(d, (n - 1) as nat) {
            Decoded::Value(acc, k) => if k <= d.len() {
                match dec_type(d.skip(k as int)) {
                    Decoded::Value(x, k2) => Decoded::Value(acc.push(x), k + k2),
                    Decoded::Eof => Decoded::Eof,
                    Decoded::Invalid => Decoded::Invalid,
                }
            } else {
                Decoded::Invalid
            },
            Decoded::Eof => Decoded::Eof,
            Decoded::Invalid => Decoded::Invalid,
        }
    }
}

/// `n` function signatures one after the other.
pub open spec fn dec_fns(d: Seq<u8>, n: nat) -> Decoded<Seq<(Seq<SingleTypeModel>, TypeModel)>>
    decreases d.len(), n,
{
    if n == 0 {
        Decoded::Value(Seq::empty(), 0)
    } else {
        match dec_fns(d, (n - 1) as nat) {
            Decoded::Value(acc, k) => if k <= d.len() {
                match dec_fn(d.skip(k as int)) {
                    Decoded::Value(x, k2) => Decoded::Value(acc.push(x), k + k2),
                    Decoded::Eof => Decoded::Eof,
                    Decoded::Invalid => Decoded::Invalid,
                }
            } else {
                Decoded::Invalid
            },
            Decoded::Eof => Decoded::Eof,
            Decoded::Invalid => Decoded::Invalid,
        }
    }
}

proof fn lemma_nc_singles(s: Seq<SingleTypeModel>, i: int)
    requires
        nc_singles(s),
        0 <= i < s.len(),
    ensures
        nc_single(s[i]),
    decreases s.len(),
{
    if i < s.len() - 1 {
        lemma_nc_singles(s.drop_last(), i);
    }
}

proof fn lemma_nc_types(s: Seq<TypeModel>, i: int)
    requires
        nc_types(s),
        0 <= i < s.len(),
    ensures
        nc_type(s[i]),
    decreases s.len(),
{
    if i < s.len() - 1 {
        lemma_nc_types(s.drop_last(), i);
    }
}

proof fn lemma_nc_fns(s: Seq<(Seq<SingleTypeModel>, TypeModel)>, i: int)
    requires
        nc_fns(s),
        0 <= i < s.len(),
    ensures
        nc_singles(s[i].0),
        nc_type(s[i].1),
    decreases s.len(),
{
    if i < s.len() - 1 {
        lemma_nc_fns(s.drop_last(), i);
    }
}

pub(crate) fn write_len(n: usize, vec: &mut Vec<u8>)
    ensures
        final(vec)@ == old(vec)@ + len_prefix(n as nat),
{
    n.as_byte_data(vec);
}

fn write_singles(v: &Vec<VSingleType>, vec: &mut Vec<u8>)
    requires
        nc_singles(singles_model(v@)),
    ensures
        final(vec)@ == old(vec)@ + enc_singles(singles_model(v@)),
    decreases v,
{
    let ghost m = singles_model(v@);
    let mut i: usize = 0;
    while i < v.len()
        invariant
            i <= v@.len(),
            m == singles_model(v@),
            m.len() == v@.len(),
            nc_singles(m),
            vec@ == old(vec)@ + enc_singles(m.take(i as int)),
        decreases v@.len() - i,
    {
        proof {
            assert(decreases_to!(v@ => v@[i as int]));
            lemma_nc_singles(m, i as int);
            assert(m.take(i + 1).drop_last() =~= m.take(i as int));
        }
        write_single(&v[i], vec);
        i += 1;
    }
    assert(m.take(i as int) =~= m);
}

fn write_types(v: &Vec<VType>, vec: &mut Vec<u8>)
    requires
        nc_types(types_model(v@)),
    ensures
        final(vec)@ == old(vec)@ + enc_types(types_model(v@)),
    decreases v,
{
    let ghost m = types_model(v@);
    let mut i: usize = 0;
    while i < v.len()
        invariant
            i <= v@.len(),
            m == types_model(v@),
            m.len() == v@.len(),
            nc_types(m),
            vec@ == old(vec)@ + enc_types(m.take(i as int)),
        decreases v@.len() - i,
    {
        proof {
            assert(decreases_to!(v@ => v@[i as int]));
            lemma_nc_types(m, i as int);
            assert(m.take(i + 1).drop_last() =~= m.take(i as int));
        }
        write_type(&v[i], vec);
        i += 1;
    }
    assert(m.take(i as int) =~= m);
}

fn write_fns(f: &Vec<(Vec<VSingleType>, VType)>, vec: &mut Vec<u8>)
    requires
        nc_fns(fns_model(f@)),
    ensures
        final(vec)@ == old(vec)@ + enc_fns(fns_model(f@)),
    decreases f,
{
    let ghost m = fns_model(f@);
    let mut i: usize = 0;
    while i < f.len()
        invariant
            i <= f@.len(),
            m == fns_model(f@),
            m.len() == f@.len(),
            nc_fns(m),
            vec@ == old(vec)@ + enc_fns(m.take(i as int)),
        decreases f@.len() - i,
    {
        proof {
            assert(decreases_to!(f@ => f@[i as int]));
            assert(decreases_to!(f@[i as int] => f@[i as int].0));
            assert(decreases_to!(f@[i as int] => f@[i as int].1));
            lemma_nc_fns(m, i as int);
            assert(m.take(i + 1).drop_last() =~= m.take(i as int));
        }
        let ghost pre = vec@;
        write_len(f[i].0.len(), vec);
        write_singles(&f[i].0, vec);
        write_type(&f[i].1, vec);
        proof {
            assert(m[i as int] == (singles_model(f@[i as int].0@), f@[i as int].1.model()));
            assert(vec@ =~= pre + enc_fn(m[i as int]));
            assert(m.take(i + 1).last() == m[i as int]);
        }
        i += 1;
    }
    assert(m.take(i as int) =~= m);
}

fn write_type(t: &VType, vec: &mut Vec<u8>)
    requires
        nc_type(t.model()),
    ensures
        final(vec)@ == old(vec)@ + enc_type(t.model()),
    decreases t,
{
    write_len(t.types.len(), vec);
    write_singles(&t.types, vec);
    assert(final(vec)@ =~= old(vec)@ + enc_type(t.model()));
}

fn write_single(t: &VSingleType, vec: &mut Vec<u8>)
    requires
        nc_single(t.model()),
    ensures
        final(vec)@ == old(vec)@ + enc_single(t.model()),
    decreases t,
{
    match t {
        VSingleType::Bool => vec.push(98u8),
        VSingleType::Int => vec.push(105u8),
        VSingleType::Float => vec.push(102u8),
        VSingleType::String => vec.push(34u8),
        VSingleType::Tuple(v) => {
            vec.push(116u8);
            write_len(v.len(), vec);
            write_types(v, vec);
        },
        VSingleType::List(t) => {
            vec.push(108u8);
            write_type(t, vec);
        },
        VSingleType::Function(f) => {
            vec.push(70u8);
            write_len(f.len(), vec);
            write_fns(f, vec);
        },
        VSingleType::Thread(t) => {
            vec.push(84u8);
            write_type(t, vec);
        },
        VSingleType::Reference(r) => {
            vec.push(82u8);
            write_single(r, vec);
        },
        VSingleType::EnumVariant(e, t) => {
            vec.push(101u8);
            write_len(*e, vec);
            write_type(t, vec);
        },
        VSingleType::EnumVariantS(e, t) => {
            vec.push(69u8);
            e.as_byte_data(vec);
            write_type(t, vec);
        },
        VSingleType::CustomType(_) => {},
        VSingleType::CustomTypeS(_) => {},
    }
    assert(final(vec)@ =~= old(vec)@ + enc_single(t.model()));
}

fn custom_in_singles(v: &Vec<VSingleType>) -> (r: bool)
    ensures
        r == !nc_singles(singles_model(v@)),
    decreases v,
{
    let ghost m = singles_model(v@);
    let mut i: usize = 0;
    while i < v.len()
        invariant
            i <= v@.len(),
            m == singles_model(v@),
            m.len() == v@.len(),
            nc_singles(m.take(i as int)),
        decreases v@.len() - i,
    {
        proof {
            assert(decreases_to!(v@ => v@[i as int]));
            assert(m.take(i + 1).drop_last() =~= m.take(i as int));
        }
        if custom_in_single(&v[i]) {
            proof {
                if nc_singles(m) {
                    lemma_nc_singles(m, i as int);
                }
            }
            return true;
        }
        i += 1;
    }
    assert(m.take(i as int) =~= m);
    false
}

fn custom_in_types(v: &Vec<VType>) -> (r: bool)
    ensures
        r == !nc_types(types_model(v@)),
    decreases v,
{
    let ghost m = types_model(v@);
    let mut i: usize = 0;
    while i < v.len()
        invariant
            i <= v@.len(),
            m == types_model(v@),
            m.len() == v@.len(),
            nc_types(m.take(i as int)),
        decreases v@.len() - i,
    {
        proof {
            assert(decreases_to!(v@ => v@[i as int]));
            assert(m.take(i + 1).drop_last() =~= m.take(i as int));
        }
        if v[i].has_custom_type() {
            proof {
                if nc_types(m) {
                    lemma_nc_types(m, i as int);
                }
            }
            return true;
        }
        i += 1;
    }
    assert(m.take(i as int) =~= m);
    false
}

fn custom_in_fns(f: &Vec<(Vec<VSingleType>, VType)>) -> (r: bool)
    ensures
        r == !nc_fns(fns_model(f@)),
    decreases f,
{
    let ghost m = fns_model(f@);
    let mut i: usize = 0;
    while i < f.len()
        invariant
            i <= f@.len(),
            m == fns_model(f@),
            m.len() == f@.len(),
            nc_fns(m.take(i as int)),
        decreases f@.len() - i,
    {
        proof {
            assert(decreases_to!(f@ => f@[i as int]));
            assert(decreases_to!(f@[i as int] => f@[i as int].0));
            assert(decreases_to!(f@[i as int] => f@[i as int].1));
            assert(m.take(i + 1).drop_last() =~= m.take(i as int));
            assert(m[i as int] == (singles_model(f@[i as int].0@), f@[i as int].1.model()));
        }
        if custom_in_singles(&f[i].0) || f[i].1.has_custom_type() {
            proof {
                if nc_fns(m) {
                    lemma_nc_fns(m, i as int);
                }
            }
            return true;
        }
        i += 1;
    }
    assert(m.take(i as int) =~= m);
    false
}

fn custom_in_single(t: &VSingleType) -> (r: bool)
    ensures
        r == !nc_single(t.model()),
    decreases t,
{
    match t {
        VSingleType::Tuple(v) => custom_in_types(v),
        VSingleType::List(t) => t.has_custom_type(),
        VSingleType::Function(f) => custom_in_fns(f),
        VSingleType::Thread(t) => t.has_custom_type(),
        VSingleType::Reference(r) => custom_in_single(r),
        VSingleType::EnumVariant(_, t) => t.has_custom_type(),
        VSingleType::EnumVariantS(_, t) => t.has_custom_type(),
        VSingleType::CustomType(_) => true,
        VSingleType::CustomTypeS(_) => true,
        _ => false,
    }
}

impl VType {
    /// Whether a custom type occurs anywhere in this type; a type that holds
    /// one cannot be written in the byte format.
    pub fn has_custom_type(&self) -> (r: bool)
        ensures
            r == !<VType as ByteDataA>::spec_encodable(self.model()),
        decreases self,
    {
        custom_in_singles(&self.types)
    }
}

impl ByteDataA for VType {
    /// The number of alternatives, then each alternative.
    open spec fn spec_encode(v: TypeModel) -> Seq<u8> {
        enc_type(v)
    }

    /// Custom types cannot be written.
    open spec fn spec_encodable(v: TypeModel) -> bool {
        nc_type(v)
    }

    fn as_byte_data(&self, vec: &mut Vec<u8>) {
        write_type(self, vec)
    }
}

impl ByteDataA for VSingleType {
    /// A tag byte, then the parts of the type.
    open spec fn spec_encode(v: SingleTypeModel) -> Seq<u8> {
        enc_single(v)
    }

    /// Custom types cannot be written.
    open spec fn spec_encodable(v: SingleTypeModel) -> bool {
        nc_single(v)
    }

    fn as_byte_data(&self, vec: &mut Vec<u8>) {
        write_single(self, vec)
    }
}

/// Once decoding `m` single types fails, decoding more fails the same way.
proof fn lemma_dec_singles_stop(d: Seq<u8>, m: nat, n: nat)
    requires
        m <= n,
        !(dec_singles(d, m) is Value),
    ensures
        dec_singles(d, n) == dec_singles(d, m),
    decreases n,
{
    if m < n {
        lemma_dec_singles_stop(d, m, (n - 1) as nat);
    }
}

proof fn lemma_dec_types_stop(d: Seq<u8>, m: nat, n: nat)
    requires
        m <= n,
        !(dec_types(d, m) is Value),
    ensures
        dec_types(d, n) == dec_types(d, m),
    decreases n,
{
    if m < n {
        lemma_dec_types_stop(d, m, (n - 1) as nat);
    }
}

proof fn lemma_dec_fns_stop(d: Seq<u8>, m: nat, n: nat)
    requires
        m <= n,
        !(dec_fns(d, m) is Value),
    ensures
        dec_fns(d, n) == dec_fns(d, m),
    decreases n,
{
    if m < n {
        lemma_dec_fns_stop(d, m, (n - 1) as nat);
    }
}

/// Reads an 8-byte length prefix.
pub(crate) fn read_len(data: &mut ByteReader) -> (r: Option<usize>)
    ensures
        final(data).data() == old(data).data(),
        old(data).rest().len() >= 8 ==> r == Some(prefix_value(old(data).rest())) && final(data).pos() == old(data).pos() + 8,
        old(data).rest().len() < 8 ==> r is None && final(data).pos() == old(data).data().len(),
{
    match usize::from_byte_data(data) {
        Ok(n) => Some(n),
        Err(_) => None,
    }
}

fn read_singles(data: &mut ByteReader, n: usize) -> (r: Result<Vec<VSingleType>, ByteDataError>)
    ensures
        final(data).data() == old(data).data(),
        match dec_singles(old(data).rest(), n as nat) {
            Decoded::Value(v, k) => r matches Ok(x) && singles_model(x@) == v && final(data).pos() == old(data).pos() + k,
            Decoded::Eof => r == Err::<Vec<VSingleType>, ByteDataError>(ByteDataError::UnexpectedEof) && final(data).pos() == old(data).data().len(),
            Decoded::Invalid => r matches Err(ByteDataError::InvalidData),
        },
    decreases old(data).rest().len(), n,
{
    let ghost d = data.rest();
    let ghost p0 = data.pos();
    let mut out: Vec<VSingleType> = Vec::new();
    let mut i: usize = 0;
    assert(singles_model(out@) =~= Seq::<SingleTypeModel>::empty());
    while i < n
        invariant
            i <= n,
            data.data() == old(data).data(),
            d == old(data).rest(),
            p0 == old(data).pos(),
            data.pos() <= data.data().len(),
            dec_singles(d, i as nat) matches Decoded::Value(acc, k) && acc == singles_model(out@) && data.pos() == p0 + k,
        decreases n - i,
    {
        let ghost k = data.pos() - p0;
        proof {
            assert(data.rest() =~= d.skip(k as int));
            if dec_single(d.skip(k as int)) is Invalid {
                lemma_dec_singles_stop(d, (i + 1) as nat, n as nat);
            }
        }
        match read_single(data) {
            Ok(x) => {
                let ghost pre = singles_model(out@);
                let ghost xm = x.model();
                out.push(x);
                assert(singles_model(out@) =~= pre.push(xm));
            },
            Err(e) => {
                proof {
                    lemma_dec_singles_stop(d, (i + 1) as nat, n as nat);
                }
                return Err(e);
            },
        }
        i += 1;
    }
    Ok(out)
}

fn read_types(data: &mut ByteReader, n: usize) -> (r: Result<Vec<VType>, ByteDataError>)
    ensures
        final(data).data() == old(data).data(),
        match dec_types(old(data).rest(), n as nat) {
            Decoded::Value(v, k) => r matches Ok(x) && types_model(x@) == v && final(data).pos() == old(data).pos() + k,
            Decoded::Eof => r == Err::<Vec<VType>, ByteDataError>(ByteDataError::UnexpectedEof) && final(data).pos() == old(data).data().len(),
            Decoded::Invalid => r matches Err(ByteDataError::InvalidData),
        },
    decreases old(data).rest().len(), n,
{
    let ghost d = data.rest();
    let ghost p0 = data.pos();
    let mut out: Vec<VType> = Vec::new();
    let mut i: usize = 0;
    assert(types_model(out@) =~= Seq::<TypeModel>::empty());
    while i < n
        invariant
            i <= n,
            data.data() == old(data).data(),
            d == old(data).rest(),
            p0 == old(data).pos(),
            data.pos() <= data.data().len(),
            dec_types(d, i as nat) matches Decoded::Value(acc, k) && acc == types_model(out@) && data.pos() == p0 + k,
        decreases n - i,
    {
        let ghost k = data.pos() - p0;
        proof {
            assert(data.rest() =~= d.skip(k as int));
            if dec_type(d.skip(k as int)) is Invalid {
                lemma_dec_types_stop(d, (i + 1) as nat, n as nat);
            }
        }
        match read_type(data) {
            Ok(x) => {
                let ghost pre = types_model(out@);
                let ghost xm = x.model();
                out.push(x);
                assert(types_model(out@) =~= pre.push(xm));
            },
            Err(e) => {
                proof {
                    lemma_dec_types_stop(d, (i + 1) as nat, n as nat);
                }
                return Err(e);
            },
        }
        i += 1;
    }
    Ok(out)
}

fn read_fns(data: &mut ByteReader, n: usize) -> (r: Result<Vec<(Vec<VSingleType>, VType)>, ByteDataError>)
    ensures
        final(data).data() == old(data).data(),
        match dec_fns(old(data).rest(), n as nat) {
            Decoded::Value(v, k) => r matches Ok(x) && fns_model(x@) == v && final(data).pos() == old(data).pos() + k,
            Decoded::Eof => r == Err::<Vec<(Vec<VSingleType>, VType)>, ByteDataError>(ByteDataError::UnexpectedEof) && final(data).pos() == old(data).data().len(),
            Decoded::Invalid => r matches Err(ByteDataError::InvalidData),
        },
    decreases old(data).rest().len(), n,
{
    let ghost d = data.rest();
    let ghost p0 = data.pos();
    let mut out: Vec<(Vec<VSingleType>, VType)> = Vec::new();
    let mut i: usize = 0;
    assert(fns_model(out@) =~= Seq::<(Seq<SingleTypeModel>, TypeModel)>::empty());
    while i < n
        invariant
            i <= n,
            data.data() == old(data).data(),
            d == old(data).rest(),
            p0 == old(data).pos(),
            data.pos() <= data.data().len(),
            dec_fns(d, i as nat) matches Decoded::Value(acc, k) && acc == fns_model(out@) && data.pos() == p0 + k,
        decreases n - i,
    {
        let ghost k = data.pos() - p0;
        proof {
            assert(data.rest() =~= d.skip(k as int));
            if dec_fn(d.skip(k as int)) is Invalid {
                lemma_dec_fns_stop(d, (i + 1) as nat, n as nat);
            }
        }
        match read_fn(data) {
            Ok(x) => {
                let ghost pre = fns_model(out@);
                let ghost xm = (singles_model(x.0@), x.1.model());
                out.push(x);
                assert(fns_model(out@) =~= pre.push(xm));
            },
            Err(e) => {
                proof {
                    lemma_dec_fns_stop(d, (i + 1) as nat, n as nat);
                }
                return Err(e);
            },
        }
        i += 1;
    }
    Ok(out)
}

#[verifier::spinoff_prover]
#[verifier::rlimit(40)]
fn read_fn(data: &mut ByteReader) -> (r: Result<(Vec<VSingleType>, VType), ByteDataError>)
    ensures
        final(data).data() == old(data).data(),
        match dec_fn(old(data).rest()) {
            Decoded::Value(v, k) => r matches Ok(x) && (singles_model(x.0@), x.1.model()) == v && final(data).pos() == old(data).pos() + k,
            Decoded::Eof => r == Err::<(Vec<VSingleType>, VType), ByteDataError>(ByteDataError::UnexpectedEof) && final(data).pos() == old(data).data().len(),
            Decoded::Invalid => r matches Err(ByteDataError::InvalidData),
        },
    decreases old(data).rest().len(), 0nat,
{
    let ghost d = data.rest();
    let n = match read_len(data) {
        Some(n) => n,
        None => return Err(ByteDataError::UnexpectedEof),
    };
    assert(data.rest() =~= d.skip(8));
    let args = match read_singles(data, n) {
        Ok(a) => a,
        Err(e) => return Err(e),
    };
    let ghost k = data.pos() - old(data).pos() - 8;
    assert(data.rest() =~= d.skip(8 + k));
    let out = match read_type(data) {
        Ok(o) => o,
        Err(e) => return Err(e),
    };
    Ok((args, out))
}

fn read_type(data: &mut ByteReader) -> (r: Result<VType, ByteDataError>)
    ensures
        final(data).data() == old(data).data(),
        match dec_type(old(data).rest()) {
            Decoded::Value(v, k) => r matches Ok(x) && x.model() == v && final(data).pos() == old(data).pos() + k,
            Decoded::Eof => r == Err::<VType, ByteDataError>(ByteDataError::UnexpectedEof) && final(data).pos() == old(data).data().len(),
            Decoded::Invalid => r matches Err(ByteDataError::InvalidData),
        },
    decreases old(data).rest().len(), 0nat,
{
    let ghost d = data.rest();
    let n = match read_len(data) {
        Some(n) => n,
        None => return Err(ByteDataError::UnexpectedEof),
    };
    assert(data.rest() =~= d.skip(8));
    match read_singles(data, n) {
        Ok(types) => Ok(VType { types }),
        Err(e) => Err(e),
    }
}

fn read_types_vec(data: &mut ByteReader) -> (r: Result<Vec<VType>, ByteDataError>)
    ensures
        final(data).data() == old(data).data(),
        match dec_types_vec(old(data).rest()) {
            Decoded::Value(v, k) => r matches Ok(x) && types_model(x@) == v && final(data).pos() == old(data).pos() + k,
            Decoded::Eof => r == Err::<Vec<VType>, ByteDataError>(ByteDataError::UnexpectedEof) && final(data).pos() == old(data).data().len(),
            Decoded::Invalid => r matches Err(ByteDataError::InvalidData),
        },
    decreases old(data).rest().len(), 0nat,
{
    let ghost d = data.rest();
    let n = match read_len(data) {
        Some(n) => n,
        None => return Err(ByteDataError::UnexpectedEof),
    };
    assert(data.rest() =~= d.skip(8));
    read_types(data, n)
}

fn read_fns_vec(data: &mut ByteReader) -> (r: Result<Vec<(Vec<VSingleType>, VType)>, ByteDataError>)
    ensures
        final(data).data() == old(data).data(),
        match dec_fns_vec(old(data).rest()) {
            Decoded::Value(v, k) => r matches Ok(x) && fns_model(x@) == v && final(data).pos() == old(data).pos() + k,
            Decoded::Eof => r == Err::<Vec<(Vec<VSingleType>, VType)>, ByteDataError>(ByteDataError::UnexpectedEof) && final(data).pos() == old(data).data().len(),
            Decoded::Invalid => r matches Err(ByteDataError::InvalidData),
        },
    decreases old(data).rest().len(), 0nat,
{
    let ghost d = data.rest();
    let n = match read_len(data) {
        Some(n) => n,
        None => return Err(ByteDataError::UnexpectedEof),
    };
    assert(data.rest() =~= d.skip(8));
    read_fns(data, n)
}

/// The parts of a named enum variant after its tag: the name, then the type.
pub open spec fn dec_named_variant(r: Seq<u8>) -> Decoded<SingleTypeModel>
    decreases r.len(), 1nat,
{
    match <String as ByteData>::spec_decode(r) {
        Decoded::Value(s, k) => if k <= r.len() {
            match dec_type(r.skip(k as int)) {
                Decoded::Value(t, k2) => Decoded::Value(SingleTypeModel::EnumVariantS(s, t), k + k2),
                Decoded::Eof => Decoded::Eof,
                Decoded::Invalid => Decoded::Invalid,
            }
        } else {
            Decoded::Invalid
        },
        Decoded::Eof => Decoded::Eof,
        Decoded::Invalid => Decoded::Invalid,
    }
}

fn read_named_variant(data: &mut ByteReader) -> (r: Result<VSingleType, ByteDataError>)
    ensures
        final(data).data() == old(data).data(),
        match dec_named_variant(old(data).rest()) {
            Decoded::Value(v, k) => r matches Ok(x) && x.model() == v && final(data).pos() == old(data).pos() + k,
            Decoded::Eof => r == Err::<VSingleType, ByteDataError>(ByteDataError::UnexpectedEof) && final(data).pos() == old(data).data().len(),
            Decoded::Invalid => r matches Err(ByteDataError::InvalidData),
        },
    decreases old(data).rest().len(), 1nat,
{
    let ghost d = data.rest();
    let p1 = data.position();
    let s = match String::from_byte_data(data) {
        Ok(s) => s,
        Err(e) => return Err(e),
    };
    let ghost k = data.pos() - p1;
    assert(data.rest() =~= d.skip(k as int));
    match read_type(data) {
        Ok(t) => Ok(VSingleType::EnumVariantS(s, t)),
        Err(e) => Err(e),
    }
}

#[verifier::spinoff_prover]
#[verifier::rlimit(100)]
fn read_single(data: &mut ByteReader) -> (r: Result<VSingleType, ByteDataError>)
    ensures
        final(data).data() == old(data).data(),
        match dec_single(old(data).rest()) {
            Decoded::Value(v, k) => r matches Ok(x) && x.model() == v && final(data).pos() == old(data).pos() + k,
            Decoded::Eof => r == Err::<VSingleType, ByteDataError>(ByteDataError::UnexpectedEof) && final(data).pos() == old(data).data().len(),
            Decoded::Invalid => r matches Err(ByteDataError::InvalidData),
        },
    decreases old(data).rest().len(), 0nat,
{
    let ghost d = data.rest();
    let tag = match data.read_exact(1) {
        Some(b) => b[0],
        None => return Err(ByteDataError::UnexpectedEof),
    };
    assert(tag == d[0]);
    assert(data.rest() =~= d.skip(1));
    if tag == 98u8 {
        Ok(VSingleType::Bool)
    } else if tag == 105u8 {
        Ok(VSingleType::Int)
    } else if tag == 102u8 {
        Ok(VSingleType::Float)
    } else if tag == 34u8 {
        Ok(VSingleType::String)
    } else if tag == 116u8 {
        match read_types_vec(data) {
            Ok(v) => Ok(VSingleType::Tuple(v)),
            Err(e) => Err(e),
        }
    } else if tag == 108u8 {
        match read_type(data) {
            Ok(t) => Ok(VSingleType::List(t)),
            Err(e) => Err(e),
        }
    } else if tag == 70u8 {
        match read_fns_vec(data) {
            Ok(f) => Ok(VSingleType::Function(f)),
            Err(e) => Err(e),
        }
    } else if tag == 84u8 {
        match read_type(data) {
            Ok(t) => Ok(VSingleType::Thread(t)),
            Err(e) => Err(e),
        }
    } else if tag == 82u8 {
        match read_single(data) {
            Ok(t) => Ok(VSingleType::Reference(Box::new(t))),
            Err(e) => Err(e),
        }
    } else if tag == 101u8 {
        let e = match read_len(data) {
            Some(e) => e,
            None => return Err(ByteDataError::UnexpectedEof),
        };
        assert(data.rest() =~= d.skip(1).skip(8));
        match read_type(data) {
            Ok(t) => Ok(VSingleType::EnumVariant(e, t)),
            Err(e) => Err(e),
        }
    } else if tag == 69u8 {
        read_named_variant(data)
    } else {
        Err(ByteDataError::InvalidData)
    }
}

impl ByteData for VType {
    /// The number of alternatives, then each alternative.
    open spec fn spec_decode(data: Seq<u8>) -> Decoded<TypeModel> {
        dec_type(data)
    }

    fn from_byte_data(data: &mut ByteReader) -> (r: Result<VType, ByteDataError>) {
        read_type(data)
    }
}

impl ByteData for VSingleType {
    /// A tag byte, then the parts that the tag asks for.
    open spec fn spec_decode(data: Seq<u8>) -> Decoded<SingleTypeModel> {
        dec_single(data)
    }

    fn from_byte_data(data: &mut ByteReader) -> (r: Result<VSingleType, ByteDataError>) {
        read_single(data)
    }
}

/// Every length in the single type fits the 8-byte prefix and a `usize`.
pub open spec fn bounded_single(t: SingleTypeModel) -> bool
    decreases t,
{
    match t {
        SingleTypeModel::Tuple(v) => v.len() <= usize::MAX && bounded_types(v),
        SingleTypeModel::List(t) => bounded_type(t),
        SingleTypeModel::Function(f) => f.len() <= usize::MAX && bounded_fns(f),
        SingleTypeModel::Thread(t) => bounded_type(t),
        SingleTypeModel::Reference(r) => bounded_single(*r),
        SingleTypeModel::EnumVariant(_, t) => bounded_type(t),
        SingleTypeModel::EnumVariantS(s, t) => encode_utf8(s).len() <= usize::MAX && bounded_type(t),
        _ => true,
    }
}

pub open spec fn bounded_type(t: TypeModel) -> bool
    decreases t,
{
    t.types.len() <= usize::MAX && bounded_singles(t.types)
}

pub open spec fn bounded_singles(s: Seq<SingleTypeModel>) -> bool
    decreases s,
{
    s.len() == 0 || (bounded_singles(s.drop_last()) && bounded_single(s.last()))
}

pub open spec fn bounded_types(s: Seq<TypeModel>) -> bool
    decreases s,
{
    s.len() == 0 || (bounded_types(s.drop_last()) && bounded_type(s.last()))
}

pub open spec fn bounded_fns(f: Seq<(Seq<SingleTypeModel>, TypeModel)>) -> bool
    decreases f,
{
    f.len() == 0 || (bounded_fns(f.drop_last()) && f.last().0.len() <= usize::MAX && bounded_singles(f.last().0)
        && bounded_type(f.last().1))
}

pub(crate) proof fn lemma_prefix(n: nat, rest: Seq<u8>)
    requires
        n <= usize::MAX,
    ensures
        len_prefix(n).len() == 8,
        (len_prefix(n) + rest).len() >= 8,
        prefix_value(len_prefix(n) + rest) == n,
        (len_prefix(n) + rest).skip(8) == rest,
{
    law_usize_roundtrip(n as usize, rest);
    assert((len_prefix(n) + rest).skip(8) =~= rest);
}

proof fn case_tuple(v: Seq<TypeModel>, rest: Seq<u8>)
    requires
        v.len() <= usize::MAX,
        dec_types(enc_types(v) + rest, v.len()) == Decoded::Value(v, enc_types(v).len()),
    ensures
        dec_single(enc_single(SingleTypeModel::Tuple(v)) + rest)
            == Decoded::Value(SingleTypeModel::Tuple(v), enc_single(SingleTypeModel::Tuple(v)).len()),
{
    let d = enc_single(SingleTypeModel::Tuple(v)) + rest;
    let e = enc_types(v);
    assert(d.skip(1) =~= len_prefix(v.len()) + (e + rest));
    lemma_prefix(v.len(), e + rest);
    assert(d[0] == 116u8);
    assert(dec_types_vec(d.skip(1)) == Decoded::Value(v, 8 + e.len()));
}

proof fn case_function(f: Seq<(Seq<SingleTypeModel>, TypeModel)>, rest: Seq<u8>)
    requires
        f.len() <= usize::MAX,
        dec_fns(enc_fns(f) + rest, f.len()) == Decoded::Value(f, enc_fns(f).len()),
    ensures
        dec_single(enc_single(SingleTypeModel::Function(f)) + rest)
            == Decoded::Value(SingleTypeModel::Function(f), enc_single(SingleTypeModel::Function(f)).len()),
{
    let d = enc_single(SingleTypeModel::Function(f)) + rest;
    let e = enc_fns(f);
    assert(d.skip(1) =~= len_prefix(f.len()) + (e + rest));
    lemma_prefix(f.len(), e + rest);
    assert(d[0] == 70u8);
    assert(dec_fns_vec(d.skip(1)) == Decoded::Value(f, 8 + e.len()));
}

proof fn case_list(u: TypeModel, rest: Seq<u8>)
    requires
        dec_type(enc_type(u) + rest) == Decoded::Value(u, enc_type(u).len()),
    ensures
        dec_single(enc_single(SingleTypeModel::List(u)) + rest)
            == Decoded::Value(SingleTypeModel::List(u), enc_single(SingleTypeModel::List(u)).len()),
{
    let d = enc_single(SingleTypeModel::List(u)) + rest;
    assert(d.skip(1) =~= enc_type(u) + rest);
    assert(d[0] == 108u8);
}

proof fn case_thread(u: TypeModel, rest: Seq<u8>)
    requires
        dec_type(enc_type(u) + rest) == Decoded::Value(u, enc_type(u).len()),
    ensures
        dec_single(enc_single(SingleTypeModel::Thread(u)) + rest)
            == Decoded::Value(SingleTypeModel::Thread(u), enc_single(SingleTypeModel::Thread(u)).len()),
{
    let d = enc_single(SingleTypeModel::Thread(u)) + rest;
    assert(d.skip(1) =~= enc_type(u) + rest);
    assert(d[0] == 84u8);
}

proof fn case_reference(r: SingleTypeModel, rest: Seq<u8>)
    requires
        dec_single(enc_single(r) + rest) == Decoded::Value(r, enc_single(r).len()),
    ensures
        dec_single(enc_single(SingleTypeModel::Reference(Box::new(r))) + rest)
            == Decoded::Value(SingleTypeModel::Reference(Box::new(r)), enc_single(SingleTypeModel::Reference(Box::new(r))).len()),
{
    let d = enc_single(SingleTypeModel::Reference(Box::new(r))) + rest;
    assert(d.skip(1) =~= enc_single(r) + rest);
    assert(d[0] == 82u8);
}

proof fn case_enum_variant(x: usize, u: TypeModel, rest: Seq<u8>)
    requires
        dec_type(enc_type(u) + rest) == Decoded::Value(u, enc_type(u).len()),
    ensures
        dec_single(enc_single(SingleTypeModel::EnumVariant(x, u)) + rest)
            == Decoded::Value(SingleTypeModel::EnumVariant(x, u), enc_single(SingleTypeModel::EnumVariant(x, u)).len()),
{
    let d = enc_single(SingleTypeModel::EnumVariant(x, u)) + rest;
    let e = enc_type(u);
    assert(d.skip(1) =~= len_prefix(x as nat) + (e + rest));
    lemma_prefix(x as nat, e + rest);
    assert(d[0] == 101u8);
}

proof fn case_enum_variant_s(x: Seq<char>, u: TypeModel, rest: Seq<u8>)
    requires
        encode_utf8(x).len() <= usize::MAX,
        dec_type(enc_type(u) + rest) == Decoded::Value(u, enc_type(u).len()),
    ensures
        dec_single(enc_single(SingleTypeModel::EnumVariantS(x, u)) + rest)
            == Decoded::Value(SingleTypeModel::EnumVariantS(x, u), enc_single(SingleTypeModel::EnumVariantS(x, u)).len()),
{
    let d = enc_single(SingleTypeModel::EnumVariantS(x, u)) + rest;
    let e = enc_type(u);
    let se = <String as ByteDataA>::spec_encode(x);
    assert(d.skip(1) =~= se + (e + rest));
    law_string_roundtrip(x, e + rest);
    assert(d.skip(1).skip(se.len() as int) =~= e + rest);
    assert(dec_named_variant(d.skip(1)) == Decoded::Value(SingleTypeModel::EnumVariantS(x, u), se.len() + e.len()));
    assert(d[0] == 69u8);
}

proof fn rt_single(t: SingleTypeModel, rest: Seq<u8>)
    requires
        nc_single(t),
        bounded_single(t),
    ensures
        dec_single(enc_single(t) + rest) == Decoded::Value(t, enc_single(t).len()),
    decreases t,
{
    match t {
        SingleTypeModel::Tuple(v) => {
            rt_types(v, rest);
            case_tuple(v, rest);
        },
        SingleTypeModel::Function(f) => {
            rt_fns(f, rest);
            case_function(f, rest);
        },
        SingleTypeModel::List(u) => {
            rt_type(u, rest);
            case_list(u, rest);
        },
        SingleTypeModel::Thread(u) => {
            rt_type(u, rest);
            case_thread(u, rest);
        },
        SingleTypeModel::Reference(r) => {
            rt_single(*r, rest);
            case_reference(*r, rest);
        },
        SingleTypeModel::EnumVariant(x, u) => {
            rt_type(u, rest);
            case_enum_variant(x, u, rest);
        },
        SingleTypeModel::EnumVariantS(x, u) => {
            rt_type(u, rest);
            case_enum_variant_s(x, u, rest);
        },
        _ => {},
    }
}

proof fn rt_type(t: TypeModel, rest: Seq<u8>)
    requires
        nc_type(t),
        bounded_type(t),
    ensures
        dec_type(enc_type(t) + rest) == Decoded::Value(t, enc_type(t).len()),
    decreases t,
{
    let e = enc_singles(t.types);
    assert(enc_type(t) + rest =~= len_prefix(t.types.len()) + (e + rest));
    lemma_prefix(t.types.len(), e + rest);
    rt_singles(t.types, rest);
}

proof fn step_singles(s: Seq<SingleTypeModel>, rest: Seq<u8>)
    requires
        s.len() > 0,
        dec_singles(enc_singles(s.drop_last()) + (enc_single(s.last()) + rest), (s.len() - 1) as nat)
            == Decoded::Value(s.drop_last(), enc_singles(s.drop_last()).len()),
        dec_single(enc_single(s.last()) + rest) == Decoded::Value(s.last(), enc_single(s.last()).len()),
    ensures
        dec_singles(enc_singles(s) + rest, s.len()) == Decoded::Value(s, enc_singles(s).len()),
{
    let a = enc_singles(s.drop_last());
    let b = enc_single(s.last());
    let d = enc_singles(s) + rest;
    assert(d =~= a + (b + rest));
    assert(d.skip(a.len() as int) =~= b + rest);
    assert(s.drop_last().push(s.last()) =~= s);
}

proof fn rt_singles(s: Seq<SingleTypeModel>, rest: Seq<u8>)
    requires
        nc_singles(s),
        bounded_singles(s),
    ensures
        dec_singles(enc_singles(s) + rest, s.len()) == Decoded::Value(s, enc_singles(s).len()),
    decreases s,
{
    if s.len() > 0 {
        rt_singles(s.drop_last(), enc_single(s.last()) + rest);
        rt_single(s.last(), rest);
        step_singles(s, rest);
    } else {
        assert(s =~= Seq::empty());
    }
}

proof fn step_types(s: Seq<TypeModel>, rest: Seq<u8>)
    requires
        s.len() > 0,
        dec_types(enc_types(s.drop_last()) + (enc_type(s.last()) + rest), (s.len() - 1) as nat)
            == Decoded::Value(s.drop_last(), enc_types(s.drop_last()).len()),
        dec_type(enc_type(s.last()) + rest) == Decoded::Value(s.last(), enc_type(s.last()).len()),
    ensures
        dec_types(enc_types(s) + rest, s.len()) == Decoded::Value(s, enc_types(s).len()),
{
    let a = enc_types(s.drop_last());
    let b = enc_type(s.last());
    let d = enc_types(s) + rest;
    assert(d =~= a + (b + rest));
    assert(d.skip(a.len() as int) =~= b + rest);
    assert(s.drop_last().push(s.last()) =~= s);
}

proof fn rt_types(s: Seq<TypeModel>, rest: Seq<u8>)
    requires
        nc_types(s),
        bounded_types(s),
    ensures
        dec_types(enc_types(s) + rest, s.len()) == Decoded::Value(s, enc_types(s).len()),
    decreases s,
{
    if s.len() > 0 {
        rt_types(s.drop_last(), enc_type(s.last()) + rest);
        rt_type(s.last(), rest);
        step_types(s, rest);
    } else {
        assert(s =~= Seq::empty());
    }
}

#[verifier::spinoff_prover]
#[verifier::rlimit(100)]
proof fn step_fn(x: (Seq<SingleTypeModel>, TypeModel), rest: Seq<u8>)
    requires
        x.0.len() <= usize::MAX,
        dec_singles(enc_singles(x.0) + (enc_type(x.1) + rest), x.0.len()) == Decoded::Value(x.0, enc_singles(x.0).len()),
        dec_type(enc_type(x.1) + rest) == Decoded::Value(x.1, enc_type(x.1).len()),
    ensures
        dec_fn(enc_fn(x) + rest) == Decoded::Value(x, enc_fn(x).len()),
{
    let e1 = enc_singles(x.0);
    let e2 = enc_type(x.1);
    let g = enc_fn(x) + rest;
    assert(g =~= len_prefix(x.0.len()) + (e1 + (e2 + rest)));
    lemma_prefix(x.0.len(), e1 + (e2 + rest));
    assert(g.len() >= 8);
    assert(prefix_value(g) == x.0.len());
    assert(g.skip(8) == e1 + (e2 + rest));
    assert(dec_singles(g.skip(8), prefix_value(g) as nat) == Decoded::Value(x.0, e1.len()));
    assert(g.skip((8 + e1.len()) as int) =~= e2 + rest);
    assert(dec_type(g.skip((8 + e1.len()) as int)) == Decoded::Value(x.1, e2.len()));
}

#[verifier::spinoff_prover]
#[verifier::rlimit(100)]
proof fn step_fns(f: Seq<(Seq<SingleTypeModel>, TypeModel)>, rest: Seq<u8>)
    requires
        f.len() > 0,
        dec_fns(enc_fns(f.drop_last()) + (enc_fn(f.last()) + rest), (f.len() - 1) as nat)
            == Decoded::Value(f.drop_last(), enc_fns(f.drop_last()).len()),
        dec_fn(enc_fn(f.last()) + rest) == Decoded::Value(f.last(), enc_fn(f.last()).len()),
    ensures
        dec_fns(enc_fns(f) + rest, f.len()) == Decoded::Value(f, enc_fns(f).len()),
{
    let a = enc_fns(f.drop_last());
    let b = enc_fn(f.last());
    let d = enc_fns(f) + rest;
    assert(d =~= a + (b + rest));
    assert(d.skip(a.len() as int) =~= b + rest);
    assert(f.drop_last().push(f.last()) =~= f);
}

proof fn rt_fns(f: Seq<(Seq<SingleTypeModel>, TypeModel)>, rest: Seq<u8>)
    requires
        nc_fns(f),
        bounded_fns(f),
    ensures
        dec_fns(enc_fns(f) + rest, f.len()) == Decoded::Value(f, enc_fns(f).len()),
    decreases f,
{
    if f.len() > 0 {
        let x = f.last();
        rt_fns(f.drop_last(), enc_fn(x) + rest);
        rt_singles(x.0, enc_type(x.1) + rest);
        rt_type(x.1, rest);
        step_fn(x, rest);
        step_fns(f, rest);
    } else {
        assert(f =~= Seq::empty());
    }
}

/// Reading back the bytes written for a type gives the same type and takes
/// exactly those bytes, whatever follows them.
pub proof fn law_type_roundtrip(t: TypeModel, rest: Seq<u8>)
    requires
        <VType as ByteDataA>::spec_encodable(t),
        bounded_type(t),
    ensures
        <VType as ByteData>::spec_decode(<VType as ByteDataA>::spec_encode(t) + rest)
            == Decoded::Value(t, <VType as ByteDataA>::spec_encode(t).len()),
{
    rt_type(t, rest);
}

/// The same for a single type.
pub proof fn law_single_type_roundtrip(t: SingleTypeModel, rest: Seq<u8>)
    requires
        <VSingleType as ByteDataA>::spec_encodable(t),
        bounded_single(t),
    ensures
        <VSingleType as ByteData>::spec_decode(<VSingleType as ByteDataA>::spec_encode(t) + rest)
            == Decoded::Value(t, <VSingleType as ByteDataA>::spec_encode(t).len()),
{
    rt_single(t, rest);
}

} // verus!
