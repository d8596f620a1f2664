//! How values travel in the byte format: a tag byte per value, then its parts.
use vstd::prelude::*;
use crate::lang::type_model::TypeModel;
use crate::lang::val_data::{DataModel, VDataEnum, datas_model, group_data_lemmas, out_spec, outs};
use crate::lang::val_type::{VType, push_unique};
use crate::libs::comms::{ByteData, ByteDataA, ByteDataError, ByteReader, Decoded};
use crate::libs::type_bytes::{len_prefix, lemma_prefix, prefix_value, read_len, write_len};
use crate::libs::comms::{law_isize_roundtrip, law_string_roundtrip, law_u64_roundtrip};
use vstd::utf8::encode_utf8;
use crate::ordered_union::{add_all, dedup, lemma_add_all_step};

verus! {

broadcast use {crate::lang::type_model::group_model_lemmas, group_data_lemmas, ByteReader::lemma_pos_bound};

impl DeepView for VDataEnum {
    type V = DataModel;

    open spec fn deep_view(&self) -> DataModel {
        self.model()
    }
}

/// The bytes of a value. A function, a thread and a reference are written
/// as their tag alone.
pub open spec fn enc_value(d: DataModel) -> Seq<u8>
    decreases d,
{
    match d {
        DataModel::Bool(b) => if b { seq![66u8] } else { seq![98u8] },
        DataModel::Int(i) => seq![105u8] + <isize as ByteDataA>::spec_encode(i),
        DataModel::Float(f) => seq![102u8] + <u64 as ByteDataA>::spec_encode(f),
        DataModel::String(s) => seq![34u8] + <String as ByteDataA>::spec_encode(s),
        DataModel::Tuple(v) => seq![116u8] + len_prefix(v.len()) + enc_values(v),
        DataModel::List(_, v) => seq![108u8] + len_prefix(v.len()) + enc_values(v),
        DataModel::Function(_) => seq![70u8],
        DataModel::Thread(_) => seq![84u8],
        DataModel::Reference(_) => seq![82u8],
        DataModel::EnumVariant(e, v) => seq![69u8] + len_prefix(e as nat) + enc_value(*v),
    }
}

/// The bytes of each value, one after the other.
pub open spec fn enc_values(s: Seq<DataModel>) -> Seq<u8>
    decreases s,
{
    if s.len() == 0 {
        Seq::empty()
    } else {
        enc_values(s.drop_last()) + enc_value(s.last())
    }
}

/// The type of a list read from bytes: the type of each element, each kept
/// once, in the order of first occurrence.
pub open spec fn list_type_spec(v: Seq<DataModel>) -> TypeModel {
    TypeModel { types: dedup(outs(v)) }
}

/// What a value decodes to: a tag byte, then the parts that the tag asks
/// for. Functions, threads, references and unknown tags cannot be read.
pub open spec fn dec_value(d: Seq<u8>) -> Decoded<DataModel>
    decreases d.len(), 0nat,
{
    if d.len() == 0 {
        Decoded::Eof
    } else {
        let tag = d[0];
        let r = d.skip(1);
        if tag == 98u8 {
            Decoded::Value(DataModel::Bool(false), 1)
        } else if tag == 66u8 {
            Decoded::Value(DataModel::Bool(true), 1)
        } else if tag == 105u8 {
            match <isize as ByteData>::spec_decode(r) {
                Decoded::Value(i, k) => Decoded::Value(DataModel::Int(i), 1 + k),
                Decoded::Eof => Decoded::Eof,
                Decoded::Invalid => Decoded::Invalid,
            }
        } else if tag == 102u8 {
            match <u64 as ByteData>::spec_decode(r) {
                Decoded::Value(f, k) => Decoded::Value(DataModel::Float(f), 1 + k),
                Decoded::Eof => Decoded::Eof,
                Decoded::Invalid => Decoded::Invalid,
            }
        } else if tag == 34u8 {
            match <String as ByteData>::spec_decode(r) {
                Decoded::Value(s, k) => Decoded::Value(DataModel::String(s), 1 + k),
                Decoded::Eof => Decoded::Eof,
                Decoded::Invalid => Decoded::Invalid,
            }
        } else if tag == 116u8 {
            match dec_values_vec(r) {
                Decoded::Value(v, k) => Decoded::Value(DataModel::Tuple(v), 1 + k),
                Decoded::Eof => Decoded::Eof,
                Decoded::Invalid => Decoded::Invalid,
            }
        } else if tag == 108u8 {
            match dec_values_vec(r) {
                Decoded::Value(v, k) => Decoded::Value(DataModel::List(list_type_spec(v), v), 1 + k),
                Decoded::Eof => Decoded::Eof,
                Decoded::Invalid => Decoded::Invalid,
            }
        } else if tag == 69u8 {
            if r.len() < 8 {
                Decoded::Eof
            } else {
                match dec_value(r.skip(8)) {
                    Decoded::Value(x, k) => Decoded::Value(DataModel::EnumVariant(prefix_value(r), Box::new(x)), 9 + k),
                    Decoded::Eof => Decoded::Eof,
                    Decoded::Invalid => Decoded::Invalid,
                }
            }
        } else {
            Decoded::Invalid
        }
    }
}

/// A number of values, then that many values.
pub open spec fn dec_values_vec(d: Seq<u8>) -> Decoded<Seq<DataModel>>
    decreases d.len(), 0nat,
{
    if d.len() < 8 {
        Decoded::Eof
    } else {
        match dec_values(d.skip(8), prefix_value(d) as nat) {
            Decoded::Value(s, k) => Decoded::Value(s, 8 + k),
            Decoded::Eof => Decoded::Eof,
            Decoded::Invalid => Decoded::Invalid,
        }
    }
}

/// `n` values one after the other.
pub open spec fn dec_values(d: Seq<u8>, n: nat) -> Decoded<Seq<DataModel>>
    decreases d.len(), n,
{
    if n == 0 {
        Decoded::Value(Seq::empty(), 0)
    } else {
        match dec_values(d, (n - 1) as nat) {
            Decoded::Value(acc, k) => if k <= d.len() {
                match dec_value(d.skip(k as int)) {
                    Decoded::Value(x, k2) => Decoded::Value(acc.push(x), k + k2),
                    Decoded::Eof => Decoded::Eof,
                    Decoded::Invalid => Decoded::Invalid,
                }
            } else {
                Decoded::Invalid
            },
            Decoded::Eof => Decoded::Eof,
            Decoded::Invalid => Decoded::Invalid,
        }
    }
}

fn write_values(v: &Vec<VDataEnum>, vec: &mut Vec<u8>)
    ensures
        final(vec)@ == old(vec)@ + enc_values(datas_model(v@)),
    decreases v,
{
    let ghost m = datas_model(v@);
    let mut i: usize = 0;
    while i < v.len()
        invariant
            i <= v@.len(),
            m == datas_model(v@),
            m.len() == v@.len(),
            vec@ == old(vec)@ + enc_values(m.take(i as int)),
        decreases v@.len() - i,
    {
        proof {
            assert(decreases_to!(v@ => v@[i as int]));
            assert(m.take(i + 1).drop_last() =~= m.take(i as int));
        }
        write_value(&v[i], vec);
        i += 1;
    }
    assert(m.take(i as int) =~= m);
}

fn write_value(v: &VDataEnum, vec: &mut Vec<u8>)
    ensures
        final(vec)@ == old(vec)@ + enc_value(v.model()),
    decreases v,
{
    match v {
        VDataEnum::Bool(b) => {
            if *b {
                vec.push(66u8);
            } else {
                vec.push(98u8);
            }
        },
        VDataEnum::Int(i) => {
            vec.push(105u8);
            i.as_byte_data(vec);
        },
        VDataEnum::Float(f) => {
            vec.push(102u8);
            f.as_byte_data(vec);
        },
        VDataEnum::String(s) => {
            vec.push(34u8);
            s.as_byte_data(vec);
        },
        VDataEnum::Tuple(x) => {
            vec.push(116u8);
            write_len(x.len(), vec);
            write_values(x, vec);
        },
        VDataEnum::List(_, x) => {
            vec.push(108u8);
            write_len(x.len(), vec);
            write_values(x, vec);
        },
        VDataEnum::Function(_) => vec.push(70u8),
        VDataEnum::Thread(_) => vec.push(84u8),
        VDataEnum::Reference(_) => vec.push(82u8),
        VDataEnum::EnumVariant(e, x) => {
            vec.push(69u8);
            write_len(*e, vec);
            write_value(x, vec);
        },
    }
    assert(final(vec)@ =~= old(vec)@ + enc_value(v.model()));
}

impl ByteDataA for VDataEnum {
    /// A tag byte, then the parts of the value.
    open spec fn spec_encode(v: DataModel) -> Seq<u8> {
        enc_value(v)
    }

    /// Every value can be written.
    open spec fn spec_encodable(v: DataModel) -> bool {
        true
    }

    fn as_byte_data(&self, vec: &mut Vec<u8>) {
        write_value(self, vec)
    }
}

/// Once decoding `m` values fails, decoding more fails the same way.
proof fn lemma_dec_values_stop(d: Seq<u8>, m: nat, n: nat)
    requires
        m <= n,
        !(dec_values(d, m) is Value),
    ensures
        dec_values(d, n) == dec_values(d, m),
    decreases n,
{
    if m < n {
        lemma_dec_values_stop(d, m, (n - 1) as nat);
    }
}

/// The type of a list with the elements `v`: each element's type, once.
pub fn list_type(v: &Vec<VDataEnum>) -> (r: VType)
    ensures
        r.model() == list_type_spec(datas_model(v@)),
{
    let ghost o = outs(datas_model(v@));
    let mut t = VType::empty();
    let mut i: usize = 0;
    assert(o.take(0) =~= Seq::<crate::lang::type_model::SingleTypeModel>::empty());
    while i < v.len()
        invariant
            i <= v@.len(),
            o == outs(datas_model(v@)),
            o.len() == v@.len(),
            t.model().types == add_all(Seq::empty(), o.take(i as int)),
        decreases v@.len() - i,
    {
        proof {
            lemma_add_all_step(Seq::empty(), o, i as int);
            assert(o[i as int] == out_spec(v@[i as int].model()));
        }
        let x = v[i].out_single();
        push_unique(&mut t.types, x);
        i += 1;
    }
    assert(o.take(i as int) =~= o);
    t
}

fn read_values(data: &mut ByteReader, n: usize) -> (r: Result<Vec<VDataEnum>, ByteDataError>)
    ensures
        final(data).data() == old(data).data(),
        match dec_values(old(data).rest(), n as nat) {
            Decoded::Value(v, k) => r matches Ok(x) && datas_model(x@) == v && final(data).pos() == old(data).pos() + k,
            Decoded::Eof => r == Err::<Vec<VDataEnum>, ByteDataError>(ByteDataError::UnexpectedEof) && final(data).pos() == old(data).data().len(),
            Decoded::Invalid => r matches Err(ByteDataError::InvalidData),
        },
    decreases old(data).rest().len(), n,
{
    let ghost d = data.rest();
    let ghost p0 = data.pos();
    let mut out: Vec<VDataEnum> = Vec::new();
    let mut i: usize = 0;
    assert(datas_model(out@) =~= Seq::<DataModel>::empty());
    while i < n
        invariant
            i <= n,
            data.data() == old(data).data(),
            d == old(data).rest(),
            p0 == old(data).pos(),
            data.pos() <= data.data().len(),
            dec_values(d, i as nat) matches Decoded::Value(acc, k) && acc == datas_model(out@) && data.pos() == p0 + k,
        decreases n - i,
    {
        let ghost k = data.pos() - p0;
        proof {
            assert(data.rest() =~= d.skip(k as int));
            if dec_value(d.skip(k as int)) is Invalid {
                lemma_dec_values_stop(d, (i + 1) as nat, n as nat);
            }
        }
        match read_value(data) {
            Ok(x) => {
                let ghost pre = datas_model(out@);
                let ghost xm = x.model();
                out.push(x);
                assert(datas_model(out@) =~= pre.push(xm));
            },
            Err(e) => {
                proof {
                    lemma_dec_values_stop(d, (i + 1) as nat, n as nat);
                }
                return Err(e);
            },
        }
        i += 1;
    }
    Ok(out)
}

fn read_values_vec(data: &mut ByteReader) -> (r: Result<Vec<VDataEnum>, ByteDataError>)
    ensures
        final(data).data() == old(data).data(),
        match dec_values_vec(old(data).rest()) {
            Decoded::Value(v, k) => r matches Ok(x) && datas_model(x@) == v && final(data).pos() == old(data).pos() + k,
            Decoded::Eof => r == Err::<Vec<VDataEnum>, ByteDataError>(ByteDataError::UnexpectedEof) && final(data).pos() == old(data).data().len(),
            Decoded::Invalid => r matches Err(ByteDataError::InvalidData),
        },
    decreases old(data).rest().len(), 0nat,
{
    let ghost d = data.rest();
    let n = match read_len(data) {
        Some(n) => n,
        None => return Err(ByteDataError::UnexpectedEof),
    };
    assert(data.rest() =~= d.skip(8));
    read_values(data, n)
}

#[verifier::rlimit(40)]
fn read_value(data: &mut ByteReader) -> (r: Result<VDataEnum, ByteDataError>)
    ensures
        final(data).data() == old(data).data(),
        match dec_value(old(data).rest()) {
            Decoded::Value(v, k) => r matches Ok(x) && x.model() == v && final(data).pos() == old(data).pos() + k,
            Decoded::Eof => r == Err::<VDataEnum, ByteDataError>(ByteDataError::UnexpectedEof) && final(data).pos() == old(data).data().len(),
            Decoded::Invalid => r matches Err(ByteDataError::InvalidData),
        },
    decreases old(data).rest().len(), 0nat,
{
    let ghost d = data.rest();
    let tag = match data.read_exact(1) {
        Some(b) => b[0],
        None => return Err(ByteDataError::UnexpectedEof),
    };
    assert(tag == d[0]);
    assert(data.rest() =~= d.skip(1));
    if tag == 98u8 {
        Ok(VDataEnum::Bool(false))
    } else if tag == 66u8 {
        Ok(VDataEnum::Bool(true))
    } else if tag == 105u8 {
        match isize::from_byte_data(data) {
            Ok(i) => Ok(VDataEnum::Int(i)),
            Err(e) => Err(e),
        }
    } else if tag == 102u8 {
        match u64::from_byte_data(data) {
            Ok(f) => Ok(VDataEnum::Float(f)),
            Err(e) => Err(e),
        }
    } else if tag == 34u8 {
        match String::from_byte_data(data) {
            Ok(s) => Ok(VDataEnum::String(s)),
            Err(e) => Err(e),
        }
    } else if tag == 116u8 {
        match read_values_vec(data) {
            Ok(v) => Ok(VDataEnum::Tuple(v)),
            Err(e) => Err(e),
        }
    } else if tag == 108u8 {
        match read_values_vec(data) {
            Ok(v) => {
                let t = list_type(&v);
                Ok(VDataEnum::List(t, v))
            },
            Err(e) => Err(e),
        }
    } else if tag == 69u8 {
        let e = match read_len(data) {
            Some(e) => e,
            None => return Err(ByteDataError::UnexpectedEof),
        };
        assert(data.rest() =~= d.skip(1).skip(8));
        match read_value(data) {
            Ok(x) => Ok(VDataEnum::EnumVariant(e, Box::new(x))),
            Err(e) => Err(e),
        }
    } else {
        Err(ByteDataError::InvalidData)
    }
}

impl ByteData for VDataEnum {
    /// A tag byte, then the parts that the tag asks for.
    open spec fn spec_decode(data: Seq<u8>) -> Decoded<DataModel> {
        dec_value(data)
    }

    fn from_byte_data(data: &mut ByteReader) -> (r: Result<VDataEnum, ByteDataError>) {
        read_value(data)
    }
}

/// A value that reads back as written: no function, thread or reference in
/// it (those are written as a tag alone), each list with the type that
/// reading gives it, and every length small enough for its 8-byte prefix.
pub open spec fn readable(d: DataModel) -> bool
    decreases d,
{
    match d {
        DataModel::String(s) => encode_utf8(s).len() <= usize::MAX,
        DataModel::Tuple(v) => v.len() <= usize::MAX && readables(v),
        DataModel::List(t, v) => v.len() <= usize::MAX && readables(v) && t == list_type_spec(v),
        DataModel::EnumVariant(_, x) => readable(*x),
        DataModel::Function(_) => false,
        DataModel::Thread(_) => false,
        DataModel::Reference(_) => false,
        _ => true,
    }
}

/// [`readable`] for every value.
pub open spec fn readables(s: Seq<DataModel>) -> bool
    decreases s,
{
    s.len() == 0 || (readables(s.drop_last()) && readable(s.last()))
}

proof fn case_values_vec(v: Seq<DataModel>, rest: Seq<u8>)
    requires
        v.len() <= usize::MAX,
        dec_values(enc_values(v) + rest, v.len()) == Decoded::Value(v, enc_values(v).len()),
    ensures
        dec_values_vec(len_prefix(v.len()) + enc_values(v) + rest) == Decoded::Value(v, 8 + enc_values(v).len()),
{
    let e = enc_values(v);
    assert(len_prefix(v.len()) + e + rest =~= len_prefix(v.len()) + (e + rest));
    lemma_prefix(v.len(), e + rest);
}

proof fn case_scalar(d: DataModel, rest: Seq<u8>)
    requires
        readable(d),
        d is Bool || d is Int || d is Float || d is String,
    ensures
        dec_value(enc_value(d) + rest) == Decoded::Value(d, enc_value(d).len()),
{
    let x = enc_value(d) + rest;
    match d {
        DataModel::Bool(b) => {
            assert(x[0] == (if b { 66u8 } else { 98u8 }));
        },
        DataModel::Int(i) => {
            law_isize_roundtrip(i, rest);
            assert(x[0] == 105u8);
            assert(x.skip(1) =~= <isize as ByteDataA>::spec_encode(i) + rest);
        },
        DataModel::Float(f) => {
            law_u64_roundtrip(f, rest);
            assert(x[0] == 102u8);
            assert(x.skip(1) =~= <u64 as ByteDataA>::spec_encode(f) + rest);
        },
        DataModel::String(t) => {
            law_string_roundtrip(t, rest);
            assert(x[0] == 34u8);
            assert(x.skip(1) =~= <String as ByteDataA>::spec_encode(t) + rest);
        },
        _ => {},
    }
}

proof fn case_tuple(v: Seq<DataModel>, rest: Seq<u8>)
    requires
        v.len() <= usize::MAX,
        dec_values(enc_values(v) + rest, v.len()) == Decoded::Value(v, enc_values(v).len()),
    ensures
        dec_value(enc_value(DataModel::Tuple(v)) + rest) == Decoded::Value(DataModel::Tuple(v), enc_value(DataModel::Tuple(v)).len()),
{
    let x = enc_value(DataModel::Tuple(v)) + rest;
    case_values_vec(v, rest);
    lemma_prefix(v.len(), enc_values(v) + rest);
    assert(x[0] == 116u8);
    assert(x.skip(1) =~= len_prefix(v.len()) + enc_values(v) + rest);
    assert(dec_values_vec(x.skip(1)) == Decoded::Value(v, 8 + enc_values(v).len()));
    assert(enc_value(DataModel::Tuple(v)).len() == 1 + 8 + enc_values(v).len());
}

proof fn case_list(t: TypeModel, v: Seq<DataModel>, rest: Seq<u8>)
    requires
        v.len() <= usize::MAX,
        t == list_type_spec(v),
        dec_values(enc_values(v) + rest, v.len()) == Decoded::Value(v, enc_values(v).len()),
    ensures
        dec_value(enc_value(DataModel::List(t, v)) + rest) == Decoded::Value(DataModel::List(t, v), enc_value(DataModel::List(t, v)).len()),
{
    let x = enc_value(DataModel::List(t, v)) + rest;
    case_values_vec(v, rest);
    lemma_prefix(v.len(), enc_values(v) + rest);
    assert(x[0] == 108u8);
    assert(x.skip(1) =~= len_prefix(v.len()) + enc_values(v) + rest);
    assert(dec_values_vec(x.skip(1)) == Decoded::Value(v, 8 + enc_values(v).len()));
    assert(enc_value(DataModel::List(t, v)).len() == 1 + 8 + enc_values(v).len());
}

proof fn case_enum_variant(e: usize, y: DataModel, rest: Seq<u8>)
    requires
        dec_value(enc_value(y) + rest) == Decoded::Value(y, enc_value(y).len()),
    ensures
        dec_value(enc_value(DataModel::EnumVariant(e, Box::new(y))) + rest)
            == Decoded::Value(DataModel::EnumVariant(e, Box::new(y)), enc_value(DataModel::EnumVariant(e, Box::new(y))).len()),
{
    let x = enc_value(DataModel::EnumVariant(e, Box::new(y))) + rest;
    let r = x.skip(1);
    assert(r =~= len_prefix(e as nat) + (enc_value(y) + rest));
    lemma_prefix(e as nat, enc_value(y) + rest);
    assert(x[0] == 69u8);
    assert(prefix_value(r) == e);
}

proof fn rt_value(d: DataModel, rest: Seq<u8>)
    requires
        readable(d),
    ensures
        dec_value(enc_value(d) + rest) == Decoded::Value(d, enc_value(d).len()),
    decreases d,
{
    match d {
        DataModel::Tuple(v) => {
            rt_values(v, rest);
            case_tuple(v, rest);
        },
        DataModel::List(t, v) => {
            rt_values(v, rest);
            case_list(t, v, rest);
        },
        DataModel::EnumVariant(e, y) => {
            rt_value(*y, rest);
            case_enum_variant(e, *y, rest);
        },
        DataModel::Function(_) => {},
        DataModel::Thread(_) => {},
        DataModel::Reference(_) => {},
        _ => {
            case_scalar(d, rest);
        },
    }
}

proof fn step_values(s: Seq<DataModel>, rest: Seq<u8>)
    requires
        s.len() > 0,
        dec_values(enc_values(s.drop_last()) + (enc_value(s.last()) + rest), (s.len() - 1) as nat)
            == Decoded::Value(s.drop_last(), enc_values(s.drop_last()).len()),
        dec_value(enc_value(s.last()) + rest) == Decoded::Value(s.last(), enc_value(s.last()).len()),
    ensures
        dec_values(enc_values(s) + rest, s.len()) == Decoded::Value(s, enc_values(s).len()),
{
    let a = enc_values(s.drop_last());
    let b = enc_value(s.last());
    let d = enc_values(s) + rest;
    assert(d =~= a + (b + rest));
    assert(d.skip(a.len() as int) =~= b + rest);
    assert(s.drop_last().push(s.last()) =~= s);
}

proof fn rt_values(s: Seq<DataModel>, rest: Seq<u8>)
    requires
        readables(s),
    ensures
        dec_values(enc_values(s) + rest, s.len()) == Decoded::Value(s, enc_values(s).len()),
    decreases s,
{
    if s.len() > 0 {
        rt_values(s.drop_last(), enc_value(s.last()) + rest);
        rt_value(s.last(), rest);
        step_values(s, rest);
    } else {
        assert(s =~= Seq::empty());
    }
}

/// Reading back the bytes written for a value gives the same value and takes
/// exactly those bytes, whatever follows them, for every value that can be
/// read at all.
pub proof fn law_value_roundtrip(d: DataModel, rest: Seq<u8>)
    requires
        readable(d),
    ensures
        <VDataEnum as ByteData>::spec_decode(<VDataEnum as ByteDataA>::spec_encode(d) + rest)
            == Decoded::Value(d, <VDataEnum as ByteDataA>::spec_encode(d).len()),
{
    rt_value(d, rest);
}

} // verus!
