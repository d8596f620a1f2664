//! The byte format in which mers and its libraries exchange values and types.
use vstd::prelude::*;
use vstd::utf8::{decode_utf8, encode_utf8, valid_utf8};

verus! {

/// `256` to the power `n`.
pub open spec fn pow256(n: nat) -> nat
    decreases n,
{
    if n == 0 {
        1
    } else {
        256 * pow256((n - 1) as nat)
    }
}

/// The `n` lowest bytes of `x`, most significant first.
pub open spec fn be_bytes(x: nat, n: nat) -> Seq<u8>
    decreases n,
{
    if n == 0 {
        Seq::empty()
    } else {
        be_bytes(x / 256, (n - 1) as nat).push((x % 256) as u8)
    }
}

/// The number whose bytes, most significant first, are `s`.
pub open spec fn be_value(s: Seq<u8>) -> nat
    decreases s.len(),
{
    if s.len() == 0 {
        0
    } else {
        be_value(s.drop_last()) * 256 + s.last() as nat
    }
}

pub proof fn lemma_be_bytes_len(x: nat, n: nat)
    ensures
        be_bytes(x, n).len() == n,
    decreases n,
{
    if n > 0 {
        lemma_be_bytes_len(x / 256, (n - 1) as nat);
    }
}

pub proof fn lemma_be_value_bound(s: Seq<u8>)
    ensures
        be_value(s) < pow256(s.len()),
    decreases s.len(),
{
    if s.len() > 0 {
        lemma_be_value_bound(s.drop_last());
        let a = be_value(s.drop_last());
        let p = pow256(s.drop_last().len());
        assert(a * 256 + (s.last() as nat) < p * 256) by (nonlinear_arith)
            requires
                a < p,
                s.last() < 256,
        ;
    }
}

/// Reading back the bytes of a number that fits gives the number.
pub proof fn lemma_be_roundtrip(x: nat, n: nat)
    requires
        x < pow256(n),
    ensures
        be_value(be_bytes(x, n)) == x,
    decreases n,
{
    if n > 0 {
        let p = pow256((n - 1) as nat);
        assert(x / 256 < p) by (nonlinear_arith)
            requires
                x < 256 * p,
        ;
        lemma_be_roundtrip(x / 256, (n - 1) as nat);
        let b = be_bytes(x / 256, (n - 1) as nat).push((x % 256) as u8);
        assert(b.drop_last() =~= be_bytes(x / 256, (n - 1) as nat));
    }
}

pub proof fn lemma_pow256_values()
    ensures
        pow256(4) == 0x1_0000_0000,
        pow256(8) == 0x1_0000_0000_0000_0000,
        pow256(16) == 0x1_0000_0000_0000_0000_0000_0000_0000_0000,
{
    reveal_with_fuel(pow256, 17);
}

/// A buffer of bytes with a read position.
///
/// Reading behaves like reading exactly a number of bytes from an in-memory
/// stream: a read of more bytes than remain fails and leaves the position at
/// the end of the data.
pub struct ByteReader {
    data: Vec<u8>,
    pos: usize,
}

impl ByteReader {
    #[verifier::type_invariant]
    spec fn wf(self) -> bool {
        self.pos <= self.data@.len()
    }

    /// All the bytes, read or not.
    pub closed spec fn data(&self) -> Seq<u8> {
        self.data@
    }

    /// The number of bytes read so far.
    pub closed spec fn pos(&self) -> nat {
        if self.pos <= self.data@.len() {
            self.pos as nat
        } else {
            self.data@.len()
        }
    }

    /// The read position never passes the end of the data.
    pub broadcast proof fn lemma_pos_bound(r: &ByteReader)
        ensures
            #[trigger] r.pos() <= r.data().len(),
    {
    }

    /// The bytes not yet read.
    pub open spec fn rest(&self) -> Seq<u8> {
        self.data().skip(self.pos() as int)
    }

    /// A reader at the start of `data`.
    pub fn new(data: Vec<u8>) -> (r: Self)
        ensures
            r.data() == data@,
            r.pos() == 0,
    {
        ByteReader { data, pos: 0 }
    }

    /// The number of bytes read so far.
    pub fn position(&self) -> (r: usize)
        ensures
            r == self.pos(),
            r <= self.data().len(),
    {
        proof { use_type_invariant(self); }
        self.pos
    }

    /// Reads the next `n` bytes; when fewer remain, fails and moves to the end.
    pub fn read_exact(&mut self, n: usize) -> (r: Option<Vec<u8>>)
        ensures
            final(self).data() == old(self).data(),
            n <= old(self).rest().len() ==> r is Some && r.unwrap()@ == old(self).rest().take(n as int) && final(self).pos() == old(self).pos() + n,
            n > old(self).rest().len() ==> r is None && final(self).pos() == old(self).data().len(),
    {
        proof { use_type_invariant(&*self); }
        if n > self.data.len() - self.pos {
            self.pos = self.data.len();
            return None;
        }
        let mut out: Vec<u8> = Vec::new();
        let mut i: usize = 0;
        assert(self.data@.len() == self.data.len());
        while i < n
            invariant
                i <= n,
                self.pos + n <= self.data@.len(),
                self.data@.len() <= usize::MAX,
                out@ == self.data@.subrange(self.pos as int, self.pos + i),
            decreases n - i,
        {
            out.push(self.data[self.pos + i]);
            i += 1;
            assert(out@ =~= self.data@.subrange(self.pos as int, self.pos + i));
        }
        assert(out@ =~= self.rest().take(n as int));
        self.pos = self.pos + n;
        Some(out)
    }
}


/// What decoding a value from the front of some bytes gives.
pub enum Decoded<V> {
    /// The value, and how many bytes it took.
    Value(V, nat),
    /// The bytes end before the value does.
    Eof,
    /// The bytes do not encode a value of the type.
    Invalid,
}

/// Why reading a value failed.
#[derive(Debug, PartialEq, Eq)]
pub enum ByteDataError {
    /// The bytes ended before the value did.
    UnexpectedEof,
    /// The bytes do not encode a value of the type.
    InvalidData,
}

/// Values that can be written in the byte format.
pub trait ByteDataA: DeepView {
    /// The bytes that stand for a value with deep view `v`.
    spec fn spec_encode(v: Self::V) -> Seq<u8>;

    /// Whether a value with deep view `v` can be written at all.
    spec fn spec_encodable(v: Self::V) -> bool;

    /// Appends the bytes of `self` to `vec`.
    fn as_byte_data(&self, vec: &mut Vec<u8>)
        requires
            Self::spec_encodable(self.deep_view()),
        ensures
            final(vec)@ == old(vec)@ + Self::spec_encode(self.deep_view()),
    ;

    /// The bytes of `self`.
    fn as_byte_data_vec(&self) -> (r: Vec<u8>)
        requires
            Self::spec_encodable(self.deep_view()),
        ensures
            r@ == Self::spec_encode(self.deep_view()),
    {
        let mut vec: Vec<u8> = Vec::new();
        self.as_byte_data(&mut vec);
        assert(vec@ =~= Self::spec_encode(self.deep_view()));
        vec
    }
}

/// Values that can be read from the byte format.
pub trait ByteData: Sized + DeepView {
    /// What the front of `data` decodes to.
    spec fn spec_decode(data: Seq<u8>) -> Decoded<Self::V>;

    /// Reads a value from `data`, advancing it past the value's bytes.
    fn from_byte_data(data: &mut ByteReader) -> (r: Result<Self, ByteDataError>)
        ensures
            final(data).data() == old(data).data(),
            match Self::spec_decode(old(data).rest()) {
                Decoded::Value(v, n) => r matches Ok(x) && x.deep_view() == v && final(data).pos() == old(data).pos() + n,
                Decoded::Eof => r == Err::<Self, ByteDataError>(ByteDataError::UnexpectedEof) && final(data).pos() == old(data).data().len(),
                Decoded::Invalid => r == Err::<Self, ByteDataError>(ByteDataError::InvalidData),
            },
    ;
}

/// A message or a response exchanged between a script and a library.
pub trait MessageResponse: ByteData + ByteDataA {
    /// The number that identifies this kind of message, as each kind defines it.
    spec fn spec_messagetype_id() -> u32;

    /// The number that identifies this kind of message.
    fn messagetype_id() -> (r: u32)
        ensures
            r == Self::spec_messagetype_id(),
    ;

    /// The number that identifies the kind of this message: the one of its
    /// kind, whatever the message holds.
    fn msgtype_id(&self) -> (r: u32)
        ensures
            r == Self::spec_messagetype_id(),
    {
        Self::messagetype_id()
    }
}

/// A message that is answered: responding with a value of type `With` gives
/// the response.
pub trait RespondableMessage: MessageResponse {
    type With;
    type Response: MessageResponse;

    fn respond(self, with: Self::With) -> Self::Response;
}

/// Decoding a fixed number `n` of bytes as a number: `Value(conv(value), n)`
/// when enough bytes remain.
pub open spec fn decode_be(data: Seq<u8>, n: nat) -> Decoded<nat> {
    if data.len() < n {
        Decoded::Eof
    } else {
        Decoded::Value(be_value(data.take(n as int)), n)
    }
}

/// Appends the `n` lowest bytes of `x`, most significant first.
fn push_be(vec: &mut Vec<u8>, x: u128, n: usize)
    requires
        n <= 16,
    ensures
        final(vec)@ == old(vec)@ + be_bytes(x as nat, n as nat),
    decreases n,
{
    if n > 0 {
        push_be(vec, x / 256, n - 1);
        vec.push((x % 256) as u8);
        assert(be_bytes(x as nat, n as nat) == be_bytes((x / 256) as nat, (n - 1) as nat).push((x % 256) as u8));
        assert(final(vec)@ =~= old(vec)@ + be_bytes(x as nat, n as nat));
    } else {
        assert(old(vec)@ + be_bytes(x as nat, 0) =~= old(vec)@);
    }
}

/// Reads `n` bytes as a number, most significant first.
fn read_be(data: &mut ByteReader, n: usize) -> (r: Option<u128>)
    requires
        n <= 16,
    ensures
        final(data).data() == old(data).data(),
        match decode_be(old(data).rest(), n as nat) {
            Decoded::Value(v, k) => r == Some(v as u128) && v < pow256(n as nat) && final(data).pos() == old(data).pos() + k,
            _ => r is None && final(data).pos() == old(data).data().len(),
        },
{
    let bytes = data.read_exact(n);
    match bytes {
        None => None,
        Some(b) => {
            let mut acc: u128 = 0;
            let mut i: usize = 0;
            proof { lemma_pow256_values(); }
            while i < b.len()
                invariant
                    i <= b@.len(),
                    b@.len() == n,
                    n <= 16,
                    acc as nat == be_value(b@.take(i as int)),
                    pow256(16) == 0x1_0000_0000_0000_0000_0000_0000_0000_0000,
                decreases b@.len() - i,
            {
                proof {
                    assert(b@.take(i + 1).drop_last() =~= b@.take(i as int));
                    lemma_be_value_bound(b@.take(i + 1));
                    lemma_pow256_mono((i + 1) as nat, 16);
                }
                acc = acc * 256 + b[i] as u128;
                i += 1;
            }
            proof {
                assert(b@.take(i as int) =~= b@);
                lemma_be_value_bound(b@);
            }
            Some(acc)
        },
    }
}

pub proof fn lemma_pow256_mono(a: nat, b: nat)
    requires
        a <= b,
    ensures
        pow256(a) <= pow256(b),
    decreases b,
{
    if a < b {
        lemma_pow256_mono(a, (b - 1) as nat);
    }
}


impl ByteDataA for u32 {
    open spec fn spec_encode(v: u32) -> Seq<u8> {
        be_bytes(v as nat, 4)
    }

    open spec fn spec_encodable(v: u32) -> bool {
        true
    }

    fn as_byte_data(&self, vec: &mut Vec<u8>) {
        push_be(vec, *self as u128, 4);
    }
}

impl ByteData for u32 {
    open spec fn spec_decode(data: Seq<u8>) -> Decoded<u32> {
        match decode_be(data, 4) {
            Decoded::Value(v, k) => Decoded::Value(v as u32, k),
            _ => Decoded::Eof,
        }
    }

    fn from_byte_data(data: &mut ByteReader) -> (r: Result<u32, ByteDataError>) {
        match read_be(data, 4) {
            Some(v) => {
                proof { lemma_pow256_values(); }
                Ok(v as u32)
            },
            None => Err(ByteDataError::UnexpectedEof),
        }
    }
}

impl ByteDataA for i32 {
    open spec fn spec_encode(v: i32) -> Seq<u8> {
        be_bytes((v as u32) as nat, 4)
    }

    open spec fn spec_encodable(v: i32) -> bool {
        true
    }

    fn as_byte_data(&self, vec: &mut Vec<u8>) {
        push_be(vec, (*self as u32) as u128, 4);
    }
}

impl ByteData for i32 {
    open spec fn spec_decode(data: Seq<u8>) -> Decoded<i32> {
        match decode_be(data, 4) {
            Decoded::Value(v, k) => Decoded::Value((v as u32) as i32, k),
            _ => Decoded::Eof,
        }
    }

    fn from_byte_data(data: &mut ByteReader) -> (r: Result<i32, ByteDataError>) {
        match read_be(data, 4) {
            Some(v) => {
                proof { lemma_pow256_values(); }
                Ok((v as u32) as i32)
            },
            None => Err(ByteDataError::UnexpectedEof),
        }
    }
}

impl ByteDataA for u64 {
    open spec fn spec_encode(v: u64) -> Seq<u8> {
        be_bytes(v as nat, 8)
    }

    open spec fn spec_encodable(v: u64) -> bool {
        true
    }

    fn as_byte_data(&self, vec: &mut Vec<u8>) {
        push_be(vec, *self as u128, 8);
    }
}

impl ByteData for u64 {
    open spec fn spec_decode(data: Seq<u8>) -> Decoded<u64> {
        match decode_be(data, 8) {
            Decoded::Value(v, k) => Decoded::Value(v as u64, k),
            _ => Decoded::Eof,
        }
    }

    fn from_byte_data(data: &mut ByteReader) -> (r: Result<u64, ByteDataError>) {
        match read_be(data, 8) {
            Some(v) => {
                proof { lemma_pow256_values(); }
                Ok(v as u64)
            },
            None => Err(ByteDataError::UnexpectedEof),
        }
    }
}

impl ByteDataA for i64 {
    open spec fn spec_encode(v: i64) -> Seq<u8> {
        be_bytes((v as u64) as nat, 8)
    }

    open spec fn spec_encodable(v: i64) -> bool {
        true
    }

    fn as_byte_data(&self, vec: &mut Vec<u8>) {
        push_be(vec, (*self as u64) as u128, 8);
    }
}

impl ByteData for i64 {
    open spec fn spec_decode(data: Seq<u8>) -> Decoded<i64> {
        match decode_be(data, 8) {
            Decoded::Value(v, k) => Decoded::Value((v as u64) as i64, k),
            _ => Decoded::Eof,
        }
    }

    fn from_byte_data(data: &mut ByteReader) -> (r: Result<i64, ByteDataError>) {
        match read_be(data, 8) {
            Some(v) => {
                proof { lemma_pow256_values(); }
                Ok((v as u64) as i64)
            },
            None => Err(ByteDataError::UnexpectedEof),
        }
    }
}

impl ByteDataA for u128 {
    open spec fn spec_encode(v: u128) -> Seq<u8> {
        be_bytes(v as nat, 16)
    }

    open spec fn spec_encodable(v: u128) -> bool {
        true
    }

    fn as_byte_data(&self, vec: &mut Vec<u8>) {
        push_be(vec, *self as u128, 16);
    }
}

impl ByteData for u128 {
    open spec fn spec_decode(data: Seq<u8>) -> Decoded<u128> {
        match decode_be(data, 16) {
            Decoded::Value(v, k) => Decoded::Value(v as u128, k),
            _ => Decoded::Eof,
        }
    }

    fn from_byte_data(data: &mut ByteReader) -> (r: Result<u128, ByteDataError>) {
        match read_be(data, 16) {
            Some(v) => {
                proof { lemma_pow256_values(); }
                Ok(v as u128)
            },
            None => Err(ByteDataError::UnexpectedEof),
        }
    }
}

impl ByteDataA for i128 {
    open spec fn spec_encode(v: i128) -> Seq<u8> {
        be_bytes((v as u128) as nat, 16)
    }

    open spec fn spec_encodable(v: i128) -> bool {
        true
    }

    fn as_byte_data(&self, vec: &mut Vec<u8>) {
        push_be(vec, (*self as u128) as u128, 16);
    }
}

impl ByteData for i128 {
    open spec fn spec_decode(data: Seq<u8>) -> Decoded<i128> {
        match decode_be(data, 16) {
            Decoded::Value(v, k) => Decoded::Value((v as u128) as i128, k),
            _ => Decoded::Eof,
        }
    }

    fn from_byte_data(data: &mut ByteReader) -> (r: Result<i128, ByteDataError>) {
        match read_be(data, 16) {
            Some(v) => {
                proof { lemma_pow256_values(); }
                Ok((v as u128) as i128)
            },
            None => Err(ByteDataError::UnexpectedEof),
        }
    }
}

impl ByteDataA for usize {
    open spec fn spec_encode(v: usize) -> Seq<u8> {
        be_bytes((v as u64) as nat, 8)
    }

    open spec fn spec_encodable(v: usize) -> bool {
        true
    }

    fn as_byte_data(&self, vec: &mut Vec<u8>) {
        push_be(vec, (*self as u64) as u128, 8);
    }
}

impl ByteData for usize {
    open spec fn spec_decode(data: Seq<u8>) -> Decoded<usize> {
        match decode_be(data, 8) {
            Decoded::Value(v, k) => Decoded::Value((v as u64) as usize, k),
            _ => Decoded::Eof,
        }
    }

    fn from_byte_data(data: &mut ByteReader) -> (r: Result<usize, ByteDataError>) {
        match read_be(data, 8) {
            Some(v) => {
                proof { lemma_pow256_values(); }
                Ok((v as u64) as usize)
            },
            None => Err(ByteDataError::UnexpectedEof),
        }
    }
}

impl ByteDataA for isize {
    open spec fn spec_encode(v: isize) -> Seq<u8> {
        be_bytes(((v as i64) as u64) as nat, 8)
    }

    open spec fn spec_encodable(v: isize) -> bool {
        true
    }

    fn as_byte_data(&self, vec: &mut Vec<u8>) {
        push_be(vec, ((*self as i64) as u64) as u128, 8);
    }
}

impl ByteData for isize {
    open spec fn spec_decode(data: Seq<u8>) -> Decoded<isize> {
        match decode_be(data, 8) {
            Decoded::Value(v, k) => Decoded::Value(((v as u64) as i64) as isize, k),
            _ => Decoded::Eof,
        }
    }

    fn from_byte_data(data: &mut ByteReader) -> (r: Result<isize, ByteDataError>) {
        match read_be(data, 8) {
            Some(v) => {
                proof { lemma_pow256_values(); }
                Ok(((v as u64) as i64) as isize)
            },
            None => Err(ByteDataError::UnexpectedEof),
        }
    }
}


/// `String::from_utf8`: the string the bytes encode, or `None` when they are
/// not valid UTF-8.
#[verifier::external_body]
fn string_from_utf8(bytes: Vec<u8>) -> (r: Option<String>)
    ensures
        r is Some <==> valid_utf8(bytes@),
        r matches Some(s) ==> s@ == decode_utf8(bytes@),
{
    String::from_utf8(bytes).ok()
}


/// A decoded length prefix, as `usize`, with the number of bytes it took.
pub open spec fn decode_len(data: Seq<u8>) -> Decoded<usize> {
    <usize as ByteData>::spec_decode(data)
}

impl ByteDataA for String {
    /// The number of bytes of the UTF-8 encoding, then that encoding.
    open spec fn spec_encode(v: Seq<char>) -> Seq<u8> {
        <usize as ByteDataA>::spec_encode(encode_utf8(v).len() as usize) + encode_utf8(v)
    }

    open spec fn spec_encodable(v: Seq<char>) -> bool {
        true
    }

    fn as_byte_data(&self, vec: &mut Vec<u8>) {
        let bytes = self.as_str().as_bytes();
        bytes.len().as_byte_data(vec);
        let ghost mid = vec@;
        let mut i: usize = 0;
        while i < bytes.len()
            invariant
                i <= bytes@.len(),
                bytes@ == encode_utf8(self@),
                vec@ == mid + bytes@.take(i as int),
            decreases bytes@.len() - i,
        {
            vec.push(bytes[i]);
            i += 1;
            assert(vec@ =~= mid + bytes@.take(i as int));
        }
        assert(bytes@.take(i as int) =~= bytes@);
        assert(vec@ =~= old(vec)@ + Self::spec_encode(self@));
    }
}

impl ByteData for String {
    /// A length prefix, then that many bytes of UTF-8; the bytes end too early
    /// where fewer remain, and bytes that are not valid UTF-8 cannot be read.
    open spec fn spec_decode(data: Seq<u8>) -> Decoded<Seq<char>> {
        match decode_len(data) {
            Decoded::Value(len, k) => {
                let rest = data.skip(k as int);
                if len <= rest.len() {
                    let bytes = rest.take(len as int);
                    if valid_utf8(bytes) {
                        Decoded::Value(decode_utf8(bytes), (k + len) as nat)
                    } else {
                        Decoded::Invalid
                    }
                } else {
                    Decoded::Eof
                }
            },
            _ => Decoded::Eof,
        }
    }

    fn from_byte_data(data: &mut ByteReader) -> (r: Result<String, ByteDataError>) {
        let ghost rest0 = data.rest();
        let p0 = data.position();
        let len = match usize::from_byte_data(data) {
            Ok(len) => len,
            Err(e) => return Err(e),
        };
        let p1 = data.position();
        assert(data.rest() =~= rest0.skip(8));
        let bytes = match data.read_exact(len) {
            Some(b) => b,
            None => {
                return Err(ByteDataError::UnexpectedEof);
            },
        };
        match string_from_utf8(bytes) {
            Some(s) => Ok(s),
            None => Err(ByteDataError::InvalidData),
        }
    }
}

impl<T: ByteDataA + ?Sized> ByteDataA for &T {
    open spec fn spec_encode(v: T::V) -> Seq<u8> {
        T::spec_encode(v)
    }

    open spec fn spec_encodable(v: T::V) -> bool {
        T::spec_encodable(v)
    }

    fn as_byte_data(&self, vec: &mut Vec<u8>) {
        (**self).as_byte_data(vec)
    }
}

/// The encodings of the elements of `v`, one after the other.
pub open spec fn encode_all<T: ByteDataA>(v: Seq<T::V>) -> Seq<u8>
    decreases v.len(),
{
    if v.len() == 0 {
        Seq::empty()
    } else {
        encode_all::<T>(v.drop_last()) + T::spec_encode(v.last())
    }
}

/// Decoding `n` values of `T` one after the other.
pub open spec fn decode_n<T: ByteData>(data: Seq<u8>, n: nat) -> Decoded<Seq<T::V>>
    decreases n,
{
    if n == 0 {
        Decoded::Value(Seq::empty(), 0)
    } else {
        match decode_n::<T>(data, (n - 1) as nat) {
            Decoded::Value(acc, k) => match T::spec_decode(data.skip(k as int)) {
                Decoded::Value(x, k2) => Decoded::Value(acc.push(x), k + k2),
                Decoded::Eof => Decoded::Eof,
                Decoded::Invalid => Decoded::Invalid,
            },
            Decoded::Eof => Decoded::Eof,
            Decoded::Invalid => Decoded::Invalid,
        }
    }
}

/// Once decoding `m` values fails, decoding more fails the same way.
pub proof fn lemma_decode_n_prefix<T: ByteData>(data: Seq<u8>, m: nat, n: nat)
    requires
        m <= n,
        !(decode_n::<T>(data, m) is Value),
    ensures
        decode_n::<T>(data, n) == decode_n::<T>(data, m),
    decreases n,
{
    if m < n {
        lemma_decode_n_prefix::<T>(data, m, (n - 1) as nat);
    }
}

impl<T: ByteDataA> ByteDataA for Vec<T> {
    /// The number of elements, then each element.
    open spec fn spec_encode(v: Seq<T::V>) -> Seq<u8> {
        <usize as ByteDataA>::spec_encode(v.len() as usize) + encode_all::<T>(v)
    }

    open spec fn spec_encodable(v: Seq<T::V>) -> bool {
        forall|i: int| 0 <= i < v.len() ==> T::spec_encodable(#[trigger] v[i])
    }

    fn as_byte_data(&self, vec: &mut Vec<u8>) {
        self.len().as_byte_data(vec);
        let ghost mid = vec@;
        let ghost dv = self.deep_view();
        let mut i: usize = 0;
        while i < self.len()
            invariant
                i <= self@.len(),
                dv == self.deep_view(),
                dv.len() == self@.len(),
                <Vec<T> as ByteDataA>::spec_encodable(dv),
                vec@ == mid + encode_all::<T>(dv.take(i as int)),
            decreases self@.len() - i,
        {
            assert(dv[i as int] == self@[i as int].deep_view());
            assert(T::spec_encodable(dv[i as int]));
            self[i].as_byte_data(vec);
            assert(dv.take(i + 1).drop_last() =~= dv.take(i as int));
            i += 1;
            assert(vec@ =~= mid + encode_all::<T>(dv.take(i as int)));
        }
        assert(dv.take(i as int) =~= dv);
        assert(vec@ =~= old(vec)@ + Self::spec_encode(dv));
    }
}

impl<T: ByteData> ByteData for Vec<T> {
    /// The number of elements, then each element.
    open spec fn spec_decode(data: Seq<u8>) -> Decoded<Seq<T::V>> {
        match decode_len(data) {
            Decoded::Value(len, k) => match decode_n::<T>(data.skip(k as int), len as nat) {
                Decoded::Value(v, k2) => Decoded::Value(v, k + k2),
                Decoded::Eof => Decoded::Eof,
                Decoded::Invalid => Decoded::Invalid,
            },
            _ => Decoded::Eof,
        }
    }

    fn from_byte_data(data: &mut ByteReader) -> (r: Result<Vec<T>, ByteDataError>) {
        let ghost rest0 = data.rest();
        let ghost pos0 = data.pos();
        let len = match usize::from_byte_data(data) {
            Ok(len) => len,
            Err(e) => return Err(e),
        };
        let ghost d = rest0.skip(8);
        let p1 = data.position();
        assert(data.rest() =~= d);
        let mut vec: Vec<T> = Vec::new();
        let mut i: usize = 0;
        assert(vec.deep_view() =~= Seq::<T::V>::empty());
        while i < len
            invariant
                i <= len,
                data.data() == old(data).data(),
                p1 == pos0 + 8,
                pos0 == old(data).pos(),
                rest0 == old(data).rest(),
                decode_len(rest0) == Decoded::<usize>::Value(len, 8),
                d == rest0.skip(8),
                data.pos() <= data.data().len(),
                d == data.data().skip(p1 as int),
                decode_n::<T>(d, i as nat) matches Decoded::Value(acc, k) && acc == vec.deep_view() && data.pos() == p1 + k,
            decreases len - i,
        {
            let ghost k = data.pos() - p1;
            proof {
                assert(data.rest() =~= d.skip(k as int));
                if T::spec_decode(d.skip(k as int)) is Invalid {
                    lemma_decode_n_prefix::<T>(d, (i + 1) as nat, len as nat);
                }
            }
            match T::from_byte_data(data) {
                Ok(x) => {
                    let ghost pre = vec.deep_view();
                    vec.push(x);
                    assert(vec.deep_view() =~= pre.push(x.deep_view()));
                },
                Err(e) => {
                    proof {
                        assert(!(decode_n::<T>(d, (i + 1) as nat) is Value));
                        lemma_decode_n_prefix::<T>(d, (i + 1) as nat, len as nat);
                    }
                    return Err(e);
                },
            }
            let _ = data.position();
            i += 1;
        }
        Ok(vec)
    }
}

impl<A: ByteDataA, B: ByteDataA> ByteDataA for (A, B) {
    open spec fn spec_encode(v: (A::V, B::V)) -> Seq<u8> {
        A::spec_encode(v.0) + B::spec_encode(v.1)
    }

    open spec fn spec_encodable(v: (A::V, B::V)) -> bool {
        A::spec_encodable(v.0) && B::spec_encodable(v.1)
    }

    fn as_byte_data(&self, vec: &mut Vec<u8>) {
        self.0.as_byte_data(vec);
        self.1.as_byte_data(vec);
        assert(vec@ =~= old(vec)@ + Self::spec_encode(self.deep_view()));
    }
}

/// Decodes `b` after a value decoded by `a` that took `k` bytes.
pub open spec fn then_decode<X, Y>(a: Decoded<X>, data: Seq<u8>, b: spec_fn(Seq<u8>) -> Decoded<Y>) -> Decoded<(X, Y)> {
    match a {
        Decoded::Value(x, k) => match b(data.skip(k as int)) {
            Decoded::Value(y, k2) => Decoded::Value((x, y), k + k2),
            Decoded::Eof => Decoded::Eof,
            Decoded::Invalid => Decoded::Invalid,
        },
        Decoded::Eof => Decoded::Eof,
        Decoded::Invalid => Decoded::Invalid,
    }
}

impl<A: ByteData, B: ByteData> ByteData for (A, B) {
    /// The first value, then the second.
    open spec fn spec_decode(data: Seq<u8>) -> Decoded<(A::V, B::V)> {
        then_decode(A::spec_decode(data), data, |d: Seq<u8>| B::spec_decode(d))
    }

    fn from_byte_data(data: &mut ByteReader) -> (r: Result<(A, B), ByteDataError>) {
        let ghost rest0 = data.rest();
        let p0 = data.position();
        let a = match A::from_byte_data(data) {
            Ok(a) => a,
            Err(e) => return Err(e),
        };
        let p1 = data.position();
        assert(data.rest() =~= rest0.skip((p1 - p0) as int));
        let b = match B::from_byte_data(data) {
            Ok(b) => b,
            Err(e) => return Err(e),
        };
        Ok((a, b))
    }
}

impl<A: ByteDataA, B: ByteDataA, C: ByteDataA, D: ByteDataA, E: ByteDataA> ByteDataA for (A, B, C, D, E) {
    /// The five values, one after the other.
    open spec fn spec_encode(v: (A::V, B::V, C::V, D::V, E::V)) -> Seq<u8> {
        A::spec_encode(v.0) + B::spec_encode(v.1) + C::spec_encode(v.2) + D::spec_encode(v.3) + E::spec_encode(v.4)
    }

    open spec fn spec_encodable(v: (A::V, B::V, C::V, D::V, E::V)) -> bool {
        A::spec_encodable(v.0) && B::spec_encodable(v.1) && C::spec_encodable(v.2) && D::spec_encodable(v.3) && E::spec_encodable(v.4)
    }

    fn as_byte_data(&self, vec: &mut Vec<u8>) {
        self.0.as_byte_data(vec);
        self.1.as_byte_data(vec);
        self.2.as_byte_data(vec);
        self.3.as_byte_data(vec);
        self.4.as_byte_data(vec);
        assert(vec@ =~= old(vec)@ + Self::spec_encode(self.deep_view()));
    }
}

/// Nested pairs `(a, (b, (c, (d, e))))` as a flat five-tuple.
pub open spec fn flatten5<A, B, C, D, E>(r: Decoded<(A, (B, (C, (D, E))))>) -> Decoded<(A, B, C, D, E)> {
    match r {
        Decoded::Value(x, k) => Decoded::Value((x.0, x.1.0, x.1.1.0, x.1.1.1.0, x.1.1.1.1), k),
        Decoded::Eof => Decoded::Eof,
        Decoded::Invalid => Decoded::Invalid,
    }
}

impl<A: ByteData, B: ByteData, C: ByteData, D: ByteData, E: ByteData> ByteData for (A, B, C, D, E) {
    /// The five values, one after the other.
    open spec fn spec_decode(data: Seq<u8>) -> Decoded<(A::V, B::V, C::V, D::V, E::V)> {
        flatten5(then_decode(A::spec_decode(data), data, |d1: Seq<u8>|
            then_decode(B::spec_decode(d1), d1, |d2: Seq<u8>|
                then_decode(C::spec_decode(d2), d2, |d3: Seq<u8>|
                    then_decode(D::spec_decode(d3), d3, |d4: Seq<u8>| E::spec_decode(d4))))))
    }

    fn from_byte_data(data: &mut ByteReader) -> (r: Result<(A, B, C, D, E), ByteDataError>) {
        let ghost r0 = data.rest();
        let p0 = data.position();
        let a = match A::from_byte_data(data) {
            Ok(a) => a,
            Err(e) => return Err(e),
        };
        let p1 = data.position();
        let ghost r1 = data.rest();
        assert(r1 =~= r0.skip((p1 - p0) as int));
        let b = match B::from_byte_data(data) {
            Ok(b) => b,
            Err(e) => return Err(e),
        };
        let p2 = data.position();
        let ghost r2 = data.rest();
        assert(r2 =~= r1.skip((p2 - p1) as int));
        let c = match C::from_byte_data(data) {
            Ok(c) => c,
            Err(e) => return Err(e),
        };
        let p3 = data.position();
        let ghost r3 = data.rest();
        assert(r3 =~= r2.skip((p3 - p2) as int));
        let d = match D::from_byte_data(data) {
            Ok(d) => d,
            Err(e) => return Err(e),
        };
        let p4 = data.position();
        assert(data.rest() =~= r3.skip((p4 - p3) as int));
        let e = match E::from_byte_data(data) {
            Ok(e) => e,
            Err(e) => return Err(e),
        };
        Ok((a, b, c, d, e))
    }
}

/// Decoding the bytes of a `usize`, whatever follows them, gives the number back.
pub proof fn law_usize_roundtrip(n: usize, rest: Seq<u8>)
    ensures
        <usize as ByteDataA>::spec_encode(n).len() == 8,
        <usize as ByteData>::spec_decode(<usize as ByteDataA>::spec_encode(n) + rest) == Decoded::Value(n, 8),
{
    let b = <usize as ByteDataA>::spec_encode(n);
    lemma_pow256_values();
    lemma_be_bytes_len((n as u64) as nat, 8);
    lemma_be_roundtrip((n as u64) as nat, 8);
    assert((b + rest).take(8) =~= b);
}

/// `n` bytes of a number below `256^n`, whatever follows them, decode to
/// that number.
proof fn lemma_be_decode(x: nat, n: nat, rest: Seq<u8>)
    requires
        x < pow256(n),
    ensures
        be_bytes(x, n).len() == n,
        decode_be(be_bytes(x, n) + rest, n) == Decoded::Value(x, n),
{
    lemma_be_bytes_len(x, n);
    lemma_be_roundtrip(x, n);
    assert((be_bytes(x, n) + rest).take(n as int) =~= be_bytes(x, n));
}

/// Decoding the bytes of a `u32`, whatever follows them, gives it back.
pub proof fn law_u32_roundtrip(v: u32, rest: Seq<u8>)
    ensures
        <u32 as ByteDataA>::spec_encode(v).len() == 4,
        <u32 as ByteData>::spec_decode(<u32 as ByteDataA>::spec_encode(v) + rest) == Decoded::Value(v, 4),
{
    lemma_pow256_values();
    lemma_be_decode(v as nat, 4, rest);
}

/// Decoding the bytes of an `i32`, whatever follows them, gives it back.
pub proof fn law_i32_roundtrip(v: i32, rest: Seq<u8>)
    ensures
        <i32 as ByteDataA>::spec_encode(v).len() == 4,
        <i32 as ByteData>::spec_decode(<i32 as ByteDataA>::spec_encode(v) + rest) == Decoded::Value(v, 4),
{
    lemma_pow256_values();
    lemma_be_decode((v as u32) as nat, 4, rest);
    assert(((v as u32) as i32) == v) by (bit_vector);
}

/// Decoding the bytes of a `u64`, whatever follows them, gives it back.
pub proof fn law_u64_roundtrip(v: u64, rest: Seq<u8>)
    ensures
        <u64 as ByteDataA>::spec_encode(v).len() == 8,
        <u64 as ByteData>::spec_decode(<u64 as ByteDataA>::spec_encode(v) + rest) == Decoded::Value(v, 8),
{
    lemma_pow256_values();
    lemma_be_decode(v as nat, 8, rest);
}

/// Decoding the bytes of an `i64`, whatever follows them, gives it back.
pub proof fn law_i64_roundtrip(v: i64, rest: Seq<u8>)
    ensures
        <i64 as ByteDataA>::spec_encode(v).len() == 8,
        <i64 as ByteData>::spec_decode(<i64 as ByteDataA>::spec_encode(v) + rest) == Decoded::Value(v, 8),
{
    lemma_pow256_values();
    lemma_be_decode((v as u64) as nat, 8, rest);
    assert(((v as u64) as i64) == v) by (bit_vector);
}

/// Decoding the bytes of a `u128`, whatever follows them, gives it back.
pub proof fn law_u128_roundtrip(v: u128, rest: Seq<u8>)
    ensures
        <u128 as ByteDataA>::spec_encode(v).len() == 16,
        <u128 as ByteData>::spec_decode(<u128 as ByteDataA>::spec_encode(v) + rest) == Decoded::Value(v, 16),
{
    lemma_pow256_values();
    lemma_be_decode(v as nat, 16, rest);
}

/// Decoding the bytes of an `i128`, whatever follows them, gives it back.
pub proof fn law_i128_roundtrip(v: i128, rest: Seq<u8>)
    ensures
        <i128 as ByteDataA>::spec_encode(v).len() == 16,
        <i128 as ByteData>::spec_decode(<i128 as ByteDataA>::spec_encode(v) + rest) == Decoded::Value(v, 16),
{
    lemma_pow256_values();
    lemma_be_decode((v as u128) as nat, 16, rest);
    assert(((v as u128) as i128) == v) by (bit_vector);
}

/// Decoding the bytes of an `isize`, whatever follows them, gives it back.
pub proof fn law_isize_roundtrip(v: isize, rest: Seq<u8>)
    ensures
        <isize as ByteDataA>::spec_encode(v).len() == 8,
        <isize as ByteData>::spec_decode(<isize as ByteDataA>::spec_encode(v) + rest) == Decoded::Value(v, 8),
{
    lemma_pow256_values();
    lemma_be_decode(((v as i64) as u64) as nat, 8, rest);
    assert((((v as i64) as u64) as i64) as isize == v) by (bit_vector);
}

/// Every value of `T`, whatever bytes follow its encoding, decodes back
/// from it and takes exactly those bytes.
pub open spec fn roundtrips<T: ByteData + ByteDataA>() -> bool {
    forall|x: <T as DeepView>::V, rest: Seq<u8>| #[trigger] <T as ByteData>::spec_decode(<T as ByteDataA>::spec_encode(x) + rest)
        == Decoded::Value(x, <T as ByteDataA>::spec_encode(x).len())
}

/// Every fixed-width integer decodes back from its bytes, whatever follows.
pub proof fn law_integers_roundtrip()
    ensures
        roundtrips::<u32>(),
        roundtrips::<i32>(),
        roundtrips::<u64>(),
        roundtrips::<i64>(),
        roundtrips::<u128>(),
        roundtrips::<i128>(),
        roundtrips::<usize>(),
        roundtrips::<isize>(),
{
    assert forall|x: u32, rest: Seq<u8>| #[trigger] <u32 as ByteData>::spec_decode(<u32 as ByteDataA>::spec_encode(x) + rest)
        == Decoded::Value(x, <u32 as ByteDataA>::spec_encode(x).len()) by { law_u32_roundtrip(x, rest); }
    assert forall|x: i32, rest: Seq<u8>| #[trigger] <i32 as ByteData>::spec_decode(<i32 as ByteDataA>::spec_encode(x) + rest)
        == Decoded::Value(x, <i32 as ByteDataA>::spec_encode(x).len()) by { law_i32_roundtrip(x, rest); }
    assert forall|x: u64, rest: Seq<u8>| #[trigger] <u64 as ByteData>::spec_decode(<u64 as ByteDataA>::spec_encode(x) + rest)
        == Decoded::Value(x, <u64 as ByteDataA>::spec_encode(x).len()) by { law_u64_roundtrip(x, rest); }
    assert forall|x: i64, rest: Seq<u8>| #[trigger] <i64 as ByteData>::spec_decode(<i64 as ByteDataA>::spec_encode(x) + rest)
        == Decoded::Value(x, <i64 as ByteDataA>::spec_encode(x).len()) by { law_i64_roundtrip(x, rest); }
    assert forall|x: u128, rest: Seq<u8>| #[trigger] <u128 as ByteData>::spec_decode(<u128 as ByteDataA>::spec_encode(x) + rest)
        == Decoded::Value(x, <u128 as ByteDataA>::spec_encode(x).len()) by { law_u128_roundtrip(x, rest); }
    assert forall|x: i128, rest: Seq<u8>| #[trigger] <i128 as ByteData>::spec_decode(<i128 as ByteDataA>::spec_encode(x) + rest)
        == Decoded::Value(x, <i128 as ByteDataA>::spec_encode(x).len()) by { law_i128_roundtrip(x, rest); }
    assert forall|x: usize, rest: Seq<u8>| #[trigger] <usize as ByteData>::spec_decode(<usize as ByteDataA>::spec_encode(x) + rest)
        == Decoded::Value(x, <usize as ByteDataA>::spec_encode(x).len()) by { law_usize_roundtrip(x, rest); }
    assert forall|x: isize, rest: Seq<u8>| #[trigger] <isize as ByteData>::spec_decode(<isize as ByteDataA>::spec_encode(x) + rest)
        == Decoded::Value(x, <isize as ByteDataA>::spec_encode(x).len()) by { law_isize_roundtrip(x, rest); }
}

proof fn lemma_decode_all<T: ByteData + ByteDataA>(v: Seq<<T as DeepView>::V>, rest: Seq<u8>)
    requires
        roundtrips::<T>(),
    ensures
        decode_n::<T>(encode_all::<T>(v) + rest, v.len()) == Decoded::Value(v, encode_all::<T>(v).len()),
    decreases v.len(),
{
    if v.len() > 0 {
        let init = v.drop_last();
        let last_bytes = <T as ByteDataA>::spec_encode(v.last());
        let d = encode_all::<T>(v) + rest;
        assert(d =~= encode_all::<T>(init) + (last_bytes + rest));
        lemma_decode_all::<T>(init, last_bytes + rest);
        let k = encode_all::<T>(init).len();
        assert(d.skip(k as int) =~= last_bytes + rest);
        assert(<T as ByteData>::spec_decode(last_bytes + rest) == Decoded::Value(v.last(), last_bytes.len()));
        assert(init.push(v.last()) =~= v);
        assert(decode_n::<T>(d, init.len()) == Decoded::Value(init, k));
        assert(decode_n::<T>(d, v.len()) == Decoded::Value(init.push(v.last()), k + last_bytes.len()));
    } else {
        assert(v =~= Seq::<<T as DeepView>::V>::empty());
    }
}

/// Decoding the bytes of a list, whatever follows them, gives the list back,
/// where each element does so.
pub proof fn law_vec_roundtrip<T: ByteData + ByteDataA>(v: Seq<<T as DeepView>::V>, rest: Seq<u8>)
    requires
        roundtrips::<T>(),
        v.len() <= usize::MAX,
    ensures
        <Vec<T> as ByteData>::spec_decode(<Vec<T> as ByteDataA>::spec_encode(v) + rest)
            == Decoded::Value(v, <Vec<T> as ByteDataA>::spec_encode(v).len()),
{
    let items = encode_all::<T>(v);
    let d = <Vec<T> as ByteDataA>::spec_encode(v) + rest;
    law_usize_roundtrip(v.len() as usize, items + rest);
    assert(d =~= <usize as ByteDataA>::spec_encode(v.len() as usize) + (items + rest));
    assert(d.skip(8) =~= items + rest);
    lemma_decode_all::<T>(v, rest);
}

/// Decoding the bytes of a pair, whatever follows them, gives the pair back,
/// where both parts do so.
pub proof fn law_pair_roundtrip<A: ByteData + ByteDataA, B: ByteData + ByteDataA>(a: <A as DeepView>::V, b: <B as DeepView>::V, rest: Seq<u8>)
    requires
        roundtrips::<A>(),
        roundtrips::<B>(),
    ensures
        <(A, B) as ByteData>::spec_decode(<(A, B) as ByteDataA>::spec_encode((a, b)) + rest)
            == Decoded::Value((a, b), <(A, B) as ByteDataA>::spec_encode((a, b)).len()),
{
    let ea = <A as ByteDataA>::spec_encode(a);
    let eb = <B as ByteDataA>::spec_encode(b);
    let d = <(A, B) as ByteDataA>::spec_encode((a, b)) + rest;
    assert(d =~= ea + (eb + rest));
    assert(<A as ByteData>::spec_decode(ea + (eb + rest)) == Decoded::Value(a, ea.len()));
    assert(d.skip(ea.len() as int) =~= eb + rest);
    assert(<B as ByteData>::spec_decode(eb + rest) == Decoded::Value(b, eb.len()));
}

/// Decoding the bytes of a five-tuple, whatever follows them, gives the tuple
/// back, where each part does so.
pub proof fn law_tuple5_roundtrip<A: ByteData + ByteDataA, B: ByteData + ByteDataA, C: ByteData + ByteDataA, D: ByteData + ByteDataA, E: ByteData + ByteDataA>(
    v: (<A as DeepView>::V, <B as DeepView>::V, <C as DeepView>::V, <D as DeepView>::V, <E as DeepView>::V),
    rest: Seq<u8>,
)
    requires
        roundtrips::<A>(),
        roundtrips::<B>(),
        roundtrips::<C>(),
        roundtrips::<D>(),
        roundtrips::<E>(),
    ensures
        <(A, B, C, D, E) as ByteData>::spec_decode(<(A, B, C, D, E) as ByteDataA>::spec_encode(v) + rest)
            == Decoded::Value(v, <(A, B, C, D, E) as ByteDataA>::spec_encode(v).len()),
{
    let ea = <A as ByteDataA>::spec_encode(v.0);
    let eb = <B as ByteDataA>::spec_encode(v.1);
    let ec = <C as ByteDataA>::spec_encode(v.2);
    let ed = <D as ByteDataA>::spec_encode(v.3);
    let ee = <E as ByteDataA>::spec_encode(v.4);
    let t4 = ee + rest;
    let t3 = ed + t4;
    let t2 = ec + t3;
    let t1 = eb + t2;
    let t0 = ea + t1;
    assert(<(A, B, C, D, E) as ByteDataA>::spec_encode(v) + rest =~= t0);
    assert(t0.skip(ea.len() as int) =~= t1);
    assert(t1.skip(eb.len() as int) =~= t2);
    assert(t2.skip(ec.len() as int) =~= t3);
    assert(t3.skip(ed.len() as int) =~= t4);
    assert(<A as ByteData>::spec_decode(t0) == Decoded::Value(v.0, ea.len()));
    assert(<B as ByteData>::spec_decode(t1) == Decoded::Value(v.1, eb.len()));
    assert(<C as ByteData>::spec_decode(t2) == Decoded::Value(v.2, ec.len()));
    assert(<D as ByteData>::spec_decode(t3) == Decoded::Value(v.3, ed.len()));
    assert(<E as ByteData>::spec_decode(t4) == Decoded::Value(v.4, ee.len()));
}

/// Decoding the bytes of a list of `i32`, whatever follows them, gives the
/// list back.
pub proof fn law_i32_list_roundtrip(v: Seq<i32>, rest: Seq<u8>)
    requires
        v.len() <= usize::MAX,
    ensures
        <Vec<i32> as ByteData>::spec_decode(<Vec<i32> as ByteDataA>::spec_encode(v) + rest)
            == Decoded::Value(v, <Vec<i32> as ByteDataA>::spec_encode(v).len()),
{
    law_integers_roundtrip();
    law_vec_roundtrip::<i32>(v, rest);
}

/// Decoding the bytes of a string, whatever follows them, gives the string back.
pub proof fn law_string_roundtrip(s: Seq<char>, rest: Seq<u8>)
    requires
        encode_utf8(s).len() <= usize::MAX,
    ensures
        <String as ByteData>::spec_decode(<String as ByteDataA>::spec_encode(s) + rest)
            == Decoded::Value(s, <String as ByteDataA>::spec_encode(s).len()),
{
    let bytes = encode_utf8(s);
    let len = bytes.len() as usize;
    let d = <String as ByteDataA>::spec_encode(s) + rest;
    law_usize_roundtrip(len, bytes + rest);
    assert(d =~= <usize as ByteDataA>::spec_encode(len) + (bytes + rest));
    assert(d.skip(8) =~= bytes + rest);
    assert((bytes + rest).take(len as int) =~= bytes);
    vstd::utf8::encode_utf8_valid_utf8(s);
    vstd::utf8::encode_utf8_decode_utf8(s);
}

/// A message from a script to a library, of any kind.
#[derive(Debug, PartialEq)]
pub enum Message {
    RunFunction(crate::libs::run_function::Message),
}

impl DeepView for Message {
    type V = (u64, Seq<crate::lang::val_data::DataModel>);

    open spec fn deep_view(&self) -> Self::V {
        match self {
            Message::RunFunction(m) => m.deep_view(),
        }
    }
}

impl ByteData for Message {
    /// The kind of the message, then the message; kind 0 calls a function,
    /// and no other kind can be read.
    open spec fn spec_decode(data: Seq<u8>) -> Decoded<Self::V> {
        match <u32 as ByteData>::spec_decode(data) {
            Decoded::Value(kind, k) => if kind == 0 {
                match <crate::libs::run_function::Message as ByteData>::spec_decode(data.skip(k as int)) {
                    Decoded::Value(m, k2) => Decoded::Value(m, k + k2),
                    Decoded::Eof => Decoded::Eof,
                    Decoded::Invalid => Decoded::Invalid,
                }
            } else {
                Decoded::Invalid
            },
            Decoded::Eof => Decoded::Eof,
            Decoded::Invalid => Decoded::Invalid,
        }
    }

    fn from_byte_data(data: &mut ByteReader) -> (r: Result<Message, ByteDataError>) {
        let ghost rest0 = data.rest();
        let p0 = data.position();
        let kind = match u32::from_byte_data(data) {
            Ok(kind) => kind,
            Err(e) => return Err(e),
        };
        let p1 = data.position();
        assert(data.rest() =~= rest0.skip((p1 - p0) as int));
        if kind == 0 {
            match crate::libs::run_function::Message::from_byte_data(data) {
                Ok(m) => Ok(Message::RunFunction(m)),
                Err(e) => Err(e),
            }
        } else {
            Err(ByteDataError::InvalidData)
        }
    }
}

} // verus!
