//! The type-directed codec: one capability (`read`, `write`,
//! `has_static_size`, `is_explicit_tuple`) implemented for each supported
//! Solidity type, plus the two top-level encoding conventions.

use vstd::prelude::*;

use crate::reader::{read_pointer_spec, take_spec, EvmDataReader, RState};
use crate::revert::{EvmResult, Revert};
use crate::words::{
    be_bytes, be_bytes_exec, be_val, be_val_exec, ff_word, lemma_be_bytes_len, lemma_be_val_bound,
    pow256, word_of, word_to_usize, zeros, zeros_exec,
};
use crate::writer::{
    app, bake, bake_one, build_spec, empty_wstate, push_all, splice_one, wp, EvmDataWriter, Pend,
    WState,
};
use vstd::slice::{slice_index_get, slice_subrange, slice_to_vec};

verus! {

broadcast use vstd::seq_lib::group_seq_properties;

/// Data that can be converted from and to EVM data words.
///
/// `read_spec` and `write_spec` are the type's encoding at the
/// mathematical level; the executable `read` and `write` follow them
/// exactly, so the two always agree.
pub trait EvmData: DeepView + Sized {
    /// Whether the encoding has no deferred tail.
    spec fn static_spec() -> bool;

    /// Whether the type is a heterogeneous tuple.
    spec fn tuple_spec() -> bool;

    /// Well-formedness of a value (word-sized byte buffers).
    spec fn valid(&self) -> bool;

    /// What reading at a reader state yields, and the state left behind.
    spec fn read_spec(r: RState) -> (Result<Self::V, Revert>, RState);

    /// The writer state after writing a value.
    spec fn write_spec(v: Self::V, w: WState) -> WState;

    /// A dynamic explicit tuple writes exactly one deferred pointer; its
    /// payload is returned.
    proof fn explicit_dynamic_payload(v: Self::V, w: WState) -> (p: Seq<u8>)
        requires
            Self::tuple_spec(),
            !Self::static_spec(),
        ensures
            Self::write_spec(v, w) == wp(w, p),
    ;

    /// Read a value of this type at the reader's cursor.
    fn read(reader: &mut EvmDataReader<'_>) -> (r: EvmResult<Self>)
        requires
            old(reader).wf(),
        ensures
            final(reader).wf(),
            final(reader)@.input == old(reader)@.input,
            ({
                let (res, m) = Self::read_spec(old(reader)@);
                final(reader)@ == m && match (r, res) {
                    (Ok(v), Ok(sv)) => v.deep_view() == sv && v.valid(),
                    (Err(e), Err(e2)) => e == e2,
                    _ => false,
                }
            }),
    ;

    /// Write a value of this type at the writer's end.
    fn write(writer: &mut EvmDataWriter, value: Self)
        requires
            old(writer).wf(),
            value.valid(),
        ensures
            final(writer).wf(),
            final(writer)@ == Self::write_spec(value.deep_view(), old(writer)@),
    ;

    /// Whether the encoding has no deferred tail.
    fn has_static_size() -> (r: bool)
        ensures
            r == Self::static_spec(),
    ;

    /// Whether the type is a heterogeneous tuple.
    fn is_explicit_tuple() -> (r: bool)
        ensures
            r == Self::tuple_spec(),
    ;
}

impl<'a> EvmDataReader<'a> {
    /// Read data of the requested type from the input.
    pub fn read<T: EvmData>(&mut self) -> (r: EvmResult<T>)
        requires
            old(self).wf(),
        ensures
            final(self).wf(),
            final(self)@.input == old(self)@.input,
            ({
                let (res, m) = T::read_spec(old(self)@);
                final(self)@ == m && match (r, res) {
                    (Ok(v), Ok(sv)) => v.deep_view() == sv && v.valid(),
                    (Err(e), Err(e2)) => e == e2,
                    _ => false,
                }
            }),
    {
        T::read(self)
    }
}

impl EvmDataWriter {
    /// Write data of the requested type, chaining.
    pub fn write<T: EvmData>(self, value: T) -> (r: Self)
        requires
            self.wf(),
            value.valid(),
        ensures
            r.wf(),
            r@ == T::write_spec(value.deep_view(), self@),
    {
        let mut w = self;
        T::write(&mut w, value);
        w
    }
}

/// The 32-byte word carrying an unsigned `k`-byte integer, left-padded.
pub open spec fn uint_word_spec(n: nat, k: nat) -> Seq<u8> {
    zeros((32 - k) as nat) + be_bytes(n, k)
}

/// The 32-byte word carrying a boolean.
pub open spec fn bool_word(v: bool) -> Seq<u8> {
    zeros(31) + seq![if v { 1u8 } else { 0u8 }]
}

/// A word is truthy when any of its bytes is non-zero.
pub open spec fn word_truthy(s: Seq<u8>) -> bool {
    exists|i: int| 0 <= i < s.len() && s[i] != 0
}

/// The left-padded word of the `k` low-order bytes of `v`.
fn uint_word(v: u128, k: usize) -> (r: Vec<u8>)
    requires
        k <= 32,
    ensures
        r@ == uint_word_spec(v as nat, k as nat),
{
    let mut w = zeros_exec(32 - k);
    let tail = be_bytes_exec(v, k);
    push_all(&mut w, tail.as_slice());
    w
}

/// The value of the `k` low-order bytes of a 32-byte word.
fn read_uint_value(word: &[u8], k: usize) -> (r: u128)
    requires
        word@.len() == 32,
        1 <= k <= 16,
    ensures
        r as nat == be_val(word@.subrange(32 - k as int, 32)),
        r < pow256(k as nat),
{
    let tail = slice_subrange(word, 32 - k, 32);
    let v = be_val_exec(tail);
    proof {
        lemma_be_val_bound(word@.subrange(32 - k as int, 32));
    }
    v
}

/// Whether any byte of a word is non-zero.
fn word_any_nonzero(w: &[u8]) -> (r: bool)
    ensures
        r == word_truthy(w@),
{
    let mut i: usize = 0;
    while i < w.len()
        invariant
            i <= w@.len(),
            forall|t: int| 0 <= t < i ==> w@[t] == 0,
        decreases w@.len() - i,
    {
        if *slice_index_get(w, i) != 0 {
            return true;
        }
        i = i + 1;
    }
    false
}

impl EvmData for u8 {
    open spec fn static_spec() -> bool {
        true
    }

    open spec fn tuple_spec() -> bool {
        false
    }

    open spec fn valid(&self) -> bool {
        true
    }

    open spec fn read_spec(r: RState) -> (Result<u8, Revert>, RState) {
        let (w, m) = take_spec(r, 32, Revert::U8OutOfBounds);
        match w {
            Ok(word) => (Ok(word[31]), m),
            Err(e) => (Err(e), m),
        }
    }

    open spec fn write_spec(v: u8, w: WState) -> WState {
        app(w, uint_word_spec(v as nat, 1))
    }

    proof fn explicit_dynamic_payload(v: u8, w: WState) -> (p: Seq<u8>) {
        Seq::empty()
    }

    fn read(reader: &mut EvmDataReader<'_>) -> (r: EvmResult<u8>) {
        let w = match reader.move_cursor(32, Revert::U8OutOfBounds) {
            Ok(w) => w,
            Err(e) => {
                return Err(e);
            },
        };
        Ok(*slice_index_get(w, 31))
    }

    fn write(writer: &mut EvmDataWriter, value: Self) {
        let word = uint_word(value as u128, 1);
        proof {
            reveal_with_fuel(be_bytes, 3);
            assert(be_bytes(value as nat, 1) =~= seq![value]);
        }
        writer.append_bytes(word.as_slice());
    }

    fn has_static_size() -> (r: bool) {
        true
    }

    fn is_explicit_tuple() -> (r: bool) {
        false
    }
}

impl EvmData for bool {
    open spec fn static_spec() -> bool {
        true
    }

    open spec fn tuple_spec() -> bool {
        false
    }

    open spec fn valid(&self) -> bool {
        true
    }

    open spec fn read_spec(r: RState) -> (Result<bool, Revert>, RState) {
        let (w, m) = take_spec(r, 32, Revert::BoolOutOfBounds);
        match w {
            Ok(word) => (Ok(word_truthy(word)), m),
            Err(_) => (Err(Revert::BoolOutOfBounds), m),
        }
    }

    open spec fn write_spec(v: bool, w: WState) -> WState {
        app(w, bool_word(v))
    }

    proof fn explicit_dynamic_payload(v: bool, w: WState) -> (p: Seq<u8>) {
        Seq::empty()
    }

    fn read(reader: &mut EvmDataReader<'_>) -> (r: EvmResult<bool>) {
        let w = match reader.move_cursor(32, Revert::BoolOutOfBounds) {
            Ok(w) => w,
            Err(_) => {
                return Err(Revert::BoolOutOfBounds);
            },
        };
        Ok(word_any_nonzero(w))
    }

    fn write(writer: &mut EvmDataWriter, value: Self) {
        let mut word = zeros_exec(31);
        word.push(if value { 1u8 } else { 0u8 });
        proof {
            assert(word@ =~= bool_word(value));
        }
        writer.append_bytes(word.as_slice());
    }

    fn has_static_size() -> (r: bool) {
        true
    }

    fn is_explicit_tuple() -> (r: bool) {
        false
    }
}


impl EvmData for u16 {
    open spec fn static_spec() -> bool {
        true
    }

    open spec fn tuple_spec() -> bool {
        false
    }

    open spec fn valid(&self) -> bool {
        true
    }

    open spec fn read_spec(r: RState) -> (Result<u16, Revert>, RState) {
        let (w, m) = take_spec(r, 32, Revert::U16OutOfBounds);
        match w {
            Ok(word) => (Ok(be_val(word.subrange(32 - 2, 32)) as u16), m),
            Err(e) => (Err(e), m),
        }
    }

    open spec fn write_spec(v: u16, w: WState) -> WState {
        app(w, uint_word_spec(v as nat, 2))
    }

    proof fn explicit_dynamic_payload(v: u16, w: WState) -> (p: Seq<u8>) {
        Seq::empty()
    }

    fn read(reader: &mut EvmDataReader<'_>) -> (r: EvmResult<u16>) {
        let w = match reader.move_cursor(32, Revert::U16OutOfBounds) {
            Ok(w) => w,
            Err(e) => {
                return Err(e);
            },
        };
        let v = read_uint_value(w, 2);
        proof {
            assert(pow256(2) == 0x10000) by {
                reveal_with_fuel(pow256, 3);
            }
        }
        Ok(v as u16)
    }

    fn write(writer: &mut EvmDataWriter, value: Self) {
        let word = uint_word(value as u128, 2);
        writer.append_bytes(word.as_slice());
    }

    fn has_static_size() -> (r: bool) {
        true
    }

    fn is_explicit_tuple() -> (r: bool) {
        false
    }
}

impl EvmData for u32 {
    open spec fn static_spec() -> bool {
        true
    }

    open spec fn tuple_spec() -> bool {
        false
    }

    open spec fn valid(&self) -> bool {
        true
    }

    open spec fn read_spec(r: RState) -> (Result<u32, Revert>, RState) {
        let (w, m) = take_spec(r, 32, Revert::U32OutOfBounds);
        match w {
            Ok(word) => (Ok(be_val(word.subrange(32 - 4, 32)) as u32), m),
            Err(e) => (Err(e), m),
        }
    }

    open spec fn write_spec(v: u32, w: WState) -> WState {
        app(w, uint_word_spec(v as nat, 4))
    }

    proof fn explicit_dynamic_payload(v: u32, w: WState) -> (p: Seq<u8>) {
        Seq::empty()
    }

    fn read(reader: &mut EvmDataReader<'_>) -> (r: EvmResult<u32>) {
        let w = match reader.move_cursor(32, Revert::U32OutOfBounds) {
            Ok(w) => w,
            Err(e) => {
                return Err(e);
            },
        };
        let v = read_uint_value(w, 4);
        proof {
            assert(pow256(4) == 0x100000000) by {
                reveal_with_fuel(pow256, 5);
            }
        }
        Ok(v as u32)
    }

    fn write(writer: &mut EvmDataWriter, value: Self) {
        let word = uint_word(value as u128, 4);
        writer.append_bytes(word.as_slice());
    }

    fn has_static_size() -> (r: bool) {
        true
    }

    fn is_explicit_tuple() -> (r: bool) {
        false
    }
}

impl EvmData for u64 {
    open spec fn static_spec() -> bool {
        true
    }

    open spec fn tuple_spec() -> bool {
        false
    }

    open spec fn valid(&self) -> bool {
        true
    }

    open spec fn read_spec(r: RState) -> (Result<u64, Revert>, RState) {
        let (w, m) = take_spec(r, 32, Revert::U64OutOfBounds);
        match w {
            Ok(word) => (Ok(be_val(word.subrange(32 - 8, 32)) as u64), m),
            Err(e) => (Err(e), m),
        }
    }

    open spec fn write_spec(v: u64, w: WState) -> WState {
        app(w, uint_word_spec(v as nat, 8))
    }

    proof fn explicit_dynamic_payload(v: u64, w: WState) -> (p: Seq<u8>) {
        Seq::empty()
    }

    fn read(reader: &mut EvmDataReader<'_>) -> (r: EvmResult<u64>) {
        let w = match reader.move_cursor(32, Revert::U64OutOfBounds) {
            Ok(w) => w,
            Err(e) => {
                return Err(e);
            },
        };
        let v = read_uint_value(w, 8);
        proof {
            assert(pow256(8) == 0x10000000000000000) by {
                reveal_with_fuel(pow256, 9);
            }
        }
        Ok(v as u64)
    }

    fn write(writer: &mut EvmDataWriter, value: Self) {
        let word = uint_word(value as u128, 8);
        writer.append_bytes(word.as_slice());
    }

    fn has_static_size() -> (r: bool) {
        true
    }

    fn is_explicit_tuple() -> (r: bool) {
        false
    }
}

impl EvmData for u128 {
    open spec fn static_spec() -> bool {
        true
    }

    open spec fn tuple_spec() -> bool {
        false
    }

    open spec fn valid(&self) -> bool {
        true
    }

    open spec fn read_spec(r: RState) -> (Result<u128, Revert>, RState) {
        let (w, m) = take_spec(r, 32, Revert::U128OutOfBounds);
        match w {
            Ok(word) => (Ok(be_val(word.subrange(32 - 16, 32)) as u128), m),
            Err(e) => (Err(e), m),
        }
    }

    open spec fn write_spec(v: u128, w: WState) -> WState {
        app(w, uint_word_spec(v as nat, 16))
    }

    proof fn explicit_dynamic_payload(v: u128, w: WState) -> (p: Seq<u8>) {
        Seq::empty()
    }

    fn read(reader: &mut EvmDataReader<'_>) -> (r: EvmResult<u128>) {
        let w = match reader.move_cursor(32, Revert::U128OutOfBounds) {
            Ok(w) => w,
            Err(e) => {
                return Err(e);
            },
        };
        let v = read_uint_value(w, 16);
        proof {
            assert(pow256(16) == 0x100000000000000000000000000000000) by {
                reveal_with_fuel(pow256, 17);
            }
        }
        Ok(v as u128)
    }

    fn write(writer: &mut EvmDataWriter, value: Self) {
        let word = uint_word(value as u128, 16);
        writer.append_bytes(word.as_slice());
    }

    fn has_static_size() -> (r: bool) {
        true
    }

    fn is_explicit_tuple() -> (r: bool) {
        false
    }
}

/// The 256-bit unsigned integer of Solidity, held as its 32 big-endian
/// word bytes.
#[derive(Clone, Debug)]
pub struct U256 {
    bytes: Vec<u8>,
}

impl DeepView for U256 {
    type V = Seq<u8>;

    closed spec fn deep_view(&self) -> Seq<u8> {
        self.bytes@
    }
}

impl U256 {
    /// A 256-bit integer from its 32 big-endian bytes.
    pub fn new(bytes: Vec<u8>) -> (r: Self)
        requires
            bytes@.len() == 32,
        ensures
            r.deep_view() == bytes@,
            r.valid(),
    {
        U256 { bytes }
    }

    /// A 256-bit integer holding a small value.
    pub fn from_u64(v: u64) -> (r: Self)
        ensures
            r.deep_view() == word_of(v as nat),
            r.valid(),
    {
        let bytes = uint_word(v as u128, 8);
        proof {
            lemma_be_bytes_len(v as nat, 8);
        }
        U256 { bytes }
    }

    /// The 32 big-endian bytes.
    pub fn as_bytes(&self) -> (r: &[u8])
        ensures
            r@ == self.deep_view(),
    {
        self.bytes.as_slice()
    }
}

impl EvmData for U256 {
    open spec fn static_spec() -> bool {
        true
    }

    open spec fn tuple_spec() -> bool {
        false
    }

    open spec fn valid(&self) -> bool {
        self.deep_view().len() == 32
    }

    open spec fn read_spec(r: RState) -> (Result<Seq<u8>, Revert>, RState) {
        let (w, m) = take_spec(r, 32, Revert::U256OutOfBounds);
        match w {
            Ok(word) => (Ok(word), m),
            Err(e) => (Err(e), m),
        }
    }

    open spec fn write_spec(v: Seq<u8>, w: WState) -> WState {
        app(w, v)
    }

    proof fn explicit_dynamic_payload(v: Seq<u8>, w: WState) -> (p: Seq<u8>) {
        Seq::empty()
    }

    fn read(reader: &mut EvmDataReader<'_>) -> (r: EvmResult<U256>) {
        let w = match reader.move_cursor(32, Revert::U256OutOfBounds) {
            Ok(w) => w,
            Err(e) => {
                return Err(e);
            },
        };
        Ok(U256 { bytes: slice_to_vec(w) })
    }

    fn write(writer: &mut EvmDataWriter, value: Self) {
        writer.append_bytes(value.bytes.as_slice());
    }

    fn has_static_size() -> (r: bool) {
        true
    }

    fn is_explicit_tuple() -> (r: bool) {
        false
    }
}

/// An opaque 32-byte word, mapped to and from the wire unchanged.
#[derive(Clone, Debug)]
pub struct H256 {
    bytes: Vec<u8>,
}

impl DeepView for H256 {
    type V = Seq<u8>;

    closed spec fn deep_view(&self) -> Seq<u8> {
        self.bytes@
    }
}

impl H256 {
    /// A word from its 32 bytes.
    pub fn new(bytes: Vec<u8>) -> (r: Self)
        requires
            bytes@.len() == 32,
        ensures
            r.deep_view() == bytes@,
            r.valid(),
    {
        H256 { bytes }
    }

    /// The 32 bytes of the word.
    pub fn as_bytes(&self) -> (r: &[u8])
        ensures
            r@ == self.deep_view(),
    {
        self.bytes.as_slice()
    }
}

impl EvmData for H256 {
    open spec fn static_spec() -> bool {
        true
    }

    open spec fn tuple_spec() -> bool {
        false
    }

    open spec fn valid(&self) -> bool {
        self.deep_view().len() == 32
    }

    open spec fn read_spec(r: RState) -> (Result<Seq<u8>, Revert>, RState) {
        let (w, m) = take_spec(r, 32, Revert::H256OutOfBounds);
        match w {
            Ok(word) => (Ok(word), m),
            Err(e) => (Err(e), m),
        }
    }

    open spec fn write_spec(v: Seq<u8>, w: WState) -> WState {
        app(w, v)
    }

    proof fn explicit_dynamic_payload(v: Seq<u8>, w: WState) -> (p: Seq<u8>) {
        Seq::empty()
    }

    fn read(reader: &mut EvmDataReader<'_>) -> (r: EvmResult<H256>) {
        let w = match reader.move_cursor(32, Revert::H256OutOfBounds) {
            Ok(w) => w,
            Err(e) => {
                return Err(e);
            },
        };
        Ok(H256 { bytes: slice_to_vec(w) })
    }

    fn write(writer: &mut EvmDataWriter, value: Self) {
        writer.append_bytes(value.bytes.as_slice());
    }

    fn has_static_size() -> (r: bool) {
        true
    }

    fn is_explicit_tuple() -> (r: bool) {
        false
    }
}

/// The `address` type of Solidity: 20 bytes, carried in the low-order end
/// of a word.
#[derive(Clone, Debug)]
pub struct Address {
    bytes: Vec<u8>,
}

impl DeepView for Address {
    type V = Seq<u8>;

    closed spec fn deep_view(&self) -> Seq<u8> {
        self.bytes@
    }
}

impl Address {
    /// An address from its 20 bytes.
    pub fn new(bytes: Vec<u8>) -> (r: Self)
        requires
            bytes@.len() == 20,
        ensures
            r.deep_view() == bytes@,
            r.valid(),
    {
        Address { bytes }
    }

    /// The 20 bytes of the address.
    pub fn as_bytes(&self) -> (r: &[u8])
        ensures
            r@ == self.deep_view(),
    {
        self.bytes.as_slice()
    }
}

impl EvmData for Address {
    open spec fn static_spec() -> bool {
        true
    }

    open spec fn tuple_spec() -> bool {
        false
    }

    open spec fn valid(&self) -> bool {
        self.deep_view().len() == 20
    }

    open spec fn read_spec(r: RState) -> (Result<Seq<u8>, Revert>, RState) {
        let (w, m) = take_spec(r, 32, Revert::H160OutOfBounds);
        match w {
            Ok(word) => (Ok(word.subrange(12, 32)), m),
            Err(e) => (Err(e), m),
        }
    }

    open spec fn write_spec(v: Seq<u8>, w: WState) -> WState {
        app(w, zeros(12) + v)
    }

    proof fn explicit_dynamic_payload(v: Seq<u8>, w: WState) -> (p: Seq<u8>) {
        Seq::empty()
    }

    fn read(reader: &mut EvmDataReader<'_>) -> (r: EvmResult<Address>) {
        let w = match reader.move_cursor(32, Revert::H160OutOfBounds) {
            Ok(w) => w,
            Err(e) => {
                return Err(e);
            },
        };
        Ok(Address { bytes: slice_to_vec(slice_subrange(w, 12, 32)) })
    }

    fn write(writer: &mut EvmDataWriter, value: Self) {
        let mut word = zeros_exec(12);
        push_all(&mut word, value.bytes.as_slice());
        writer.append_bytes(word.as_slice());
    }

    fn has_static_size() -> (r: bool) {
        true
    }

    fn is_explicit_tuple() -> (r: bool) {
        false
    }
}

/// The amount of zero padding that aligns `n` bytes to whole words.
pub open spec fn pad_len(n: nat) -> nat {
    if n % 32 == 0 {
        0
    } else {
        (32 - n % 32) as nat
    }
}

/// The deferred payload of a `bytes`/`string` value: a length word, then
/// the bytes padded to whole words.
pub open spec fn bytes_payload(v: Seq<u8>) -> Seq<u8> {
    word_of(v.len()) + v + zeros(pad_len(v.len()))
}

/// The characters a byte buffer decodes to when it is valid UTF-8, and
/// nothing when it is not.
pub uninterp spec fn utf8_chars(bytes: Seq<u8>) -> Option<Seq<char>>;

/// The UTF-8 error type of the standard library.
#[verifier::external_type_specification]
#[verifier::external_body]
pub struct ExUtf8Error(core::str::Utf8Error);

/// The `bytes`/`string` type of Solidity: a tightly packed byte buffer,
/// unlike `Vec<u8>`, which spends one word per element.
#[derive(Clone, Debug)]
pub struct Bytes(pub Vec<u8>);

impl DeepView for Bytes {
    type V = Seq<u8>;

    open spec fn deep_view(&self) -> Seq<u8> {
        self.0@
    }
}

impl Bytes {
    /// Interpret as `bytes`.
    pub fn as_bytes(&self) -> (r: &[u8])
        ensures
            r@ == self.deep_view(),
    {
        self.0.as_slice()
    }

    /// Interpret as `string`. Fails when the buffer is not valid UTF-8.
    /// Relies on `core::str::from_utf8`: it succeeds exactly on valid
    /// UTF-8, and the decoded characters depend on the bytes alone.
    #[verifier::external_body]
    pub fn as_str(&self) -> (r: Result<&str, core::str::Utf8Error>)
        ensures
            match r {
                Ok(s) => utf8_chars(self.deep_view()) == Some(s@),
                Err(_) => utf8_chars(self.deep_view()) is None,
            },
    {
        core::str::from_utf8(&self.0)
    }
}

impl EvmData for Bytes {
    open spec fn static_spec() -> bool {
        false
    }

    open spec fn tuple_spec() -> bool {
        false
    }

    open spec fn valid(&self) -> bool {
        true
    }

    open spec fn read_spec(r: RState) -> (Result<Seq<u8>, Revert>, RState) {
        let (p, m) = read_pointer_spec(r);
        match p {
            Err(e) => (Err(e), m),
            Ok(sub) => {
                let (wl, s1) = take_spec(sub, 32, Revert::BytesLengthOutOfBounds);
                match wl {
                    Err(_) => (Err(Revert::BytesLengthOutOfBounds), m),
                    Ok(lw) => {
                        let n = be_val(lw);
                        if n > usize::MAX {
                            (Err(Revert::BytesLengthTooLarge), m)
                        } else {
                            let (bs, _s2) = take_spec(s1, n as int, Revert::BytesOutOfBounds);
                            match bs {
                                Err(e) => (Err(e), m),
                                Ok(data) => (Ok(data), m),
                            }
                        }
                    },
                }
            },
        }
    }

    open spec fn write_spec(v: Seq<u8>, w: WState) -> WState {
        wp(w, bytes_payload(v))
    }

    proof fn explicit_dynamic_payload(v: Seq<u8>, w: WState) -> (p: Seq<u8>) {
        Seq::empty()
    }

    fn read(reader: &mut EvmDataReader<'_>) -> (r: EvmResult<Bytes>) {
        let mut inner = match reader.read_pointer() {
            Ok(x) => x,
            Err(e) => {
                return Err(e);
            },
        };
        let lw = match inner.move_cursor(32, Revert::BytesLengthOutOfBounds) {
            Ok(w) => w,
            Err(_) => {
                return Err(Revert::BytesLengthOutOfBounds);
            },
        };
        let n = match word_to_usize(lw) {
            Some(n) => n,
            None => {
                return Err(Revert::BytesLengthTooLarge);
            },
        };
        let data = match inner.move_cursor(n, Revert::BytesOutOfBounds) {
            Ok(d) => d,
            Err(e) => {
                return Err(e);
            },
        };
        Ok(Bytes(slice_to_vec(data)))
    }

    fn write(writer: &mut EvmDataWriter, value: Self) {
        let length = value.0.len();
        let mut padded = value.0;
        while padded.len() % 32 != 0
            invariant
                padded@.len() >= length as int,
                padded@ =~= value.0@ + zeros((padded@.len() - length as int) as nat),
                padded@.len() - length as int <= pad_len(length as nat),
                length == value.0@.len(),
            decreases (32 - (padded@.len() as int % 32)) % 32,
        {
            proof {
                assert(padded@.len() - length < pad_len(length as nat));
            }
            padded.push(0u8);
            proof {
                assert(padded@ =~= value.0@ + zeros((padded@.len() - length as int) as nat));
            }
        }
        proof {
            assert(padded@.len() - length as int == pad_len(length as nat));
        }
        let mut body = uint_word(length as u128, 8);
        proof {
            assert(body@ == word_of(length as nat));
        }
        push_all(&mut body, padded.as_slice());
        let mut inner = EvmDataWriter::new();
        inner.append_bytes(body.as_slice());
        let built = inner.build();
        proof {
            assert(built@ =~= bytes_payload(value.0@));
        }
        writer.write_pointer(built);
    }

    fn has_static_size() -> (r: bool) {
        false
    }

    fn is_explicit_tuple() -> (r: bool) {
        false
    }
}


/// Reading `n` consecutive items of `T`.
pub open spec fn read_items<T: EvmData>(r: RState, n: nat) -> (Result<Seq<T::V>, Revert>, RState)
    decreases n,
{
    if n == 0 {
        (Ok(Seq::empty()), r)
    } else {
        let (h, r1) = T::read_spec(r);
        match h {
            Err(e) => (Err(e), r1),
            Ok(v) => {
                let (t, r2) = read_items::<T>(r1, (n - 1) as nat);
                match t {
                    Err(e) => (Err(e), r2),
                    Ok(vs) => (Ok(seq![v] + vs), r2),
                }
            },
        }
    }
}

/// The item results behind the items already read.
pub open spec fn with_prefix<V>(done: Seq<V>, o: (Result<Seq<V>, Revert>, RState)) -> (
    Result<Seq<V>, Revert>,
    RState,
) {
    match o.0 {
        Ok(vs) => (Ok(done + vs), o.1),
        Err(e) => (Err(e), o.1),
    }
}

/// The inner writer of a sequence before it is built: the length word,
/// then every item spliced in order.
pub open spec fn splice_items<T: EvmData>(acc: WState, items: Seq<T::V>) -> WState
    decreases items.len(),
{
    if items.len() == 0 {
        acc
    } else {
        splice_items::<T>(
            splice_one(acc, T::write_spec(items[0], empty_wstate())),
            items.drop_first(),
        )
    }
}

/// A sequence writer primed with its length word.
pub open spec fn seq_init_wstate(n: nat) -> WState {
    WState { data: word_of(n), pending: Seq::empty(), selector: None }
}

/// What decoding a dynamic sequence yields: follow the pointer, read the
/// length word, apply the bound if one is given, then read that many items
/// from the sequence body.
pub open spec fn read_seq_spec<T: EvmData>(
    r: RState,
    len_oob: Revert,
    too_large: Revert,
    bound: Option<u32>,
) -> (Result<Seq<T::V>, Revert>, RState) {
    let (p, m) = read_pointer_spec(r);
    match p {
        Err(e) => (Err(e), m),
        Ok(sub) => {
            let (wl, _s1) = take_spec(sub, 32, len_oob);
            match wl {
                Err(_) => (Err(len_oob), m),
                Ok(lw) => {
                    let n = be_val(lw);
                    let over = match bound {
                        Some(b) => n > b as nat,
                        None => false,
                    };
                    if n > usize::MAX {
                        (Err(too_large), m)
                    } else if over {
                        (Err(Revert::ValueTooLarge), m)
                    } else {
                        let base = RState {
                            input: sub.input.subrange(32, sub.input.len() as int),
                            cursor: 0,
                        };
                        let (res, _rf) = read_items::<T>(base, n);
                        match res {
                            Err(e) => (Err(e), m),
                            Ok(vs) => (Ok(vs), m),
                        }
                    }
                },
            }
        },
    }
}

/// The deferred payload of a dynamic sequence value.
pub open spec fn seq_payload<T: EvmData>(v: Seq<T::V>) -> Seq<u8> {
    build_spec(splice_items::<T>(seq_init_wstate(v.len()), v))
}

/// Decode a dynamic sequence: shared by the unbounded and the bounded
/// sequence types.
fn read_seq<T: EvmData>(
    reader: &mut EvmDataReader<'_>,
    len_oob: Revert,
    too_large: Revert,
    bound: Option<u32>,
) -> (r: EvmResult<Vec<T>>)
    requires
        old(reader).wf(),
    ensures
        final(reader).wf(),
        final(reader)@.input == old(reader)@.input,
        ({
            let (res, m) = read_seq_spec::<T>(old(reader)@, len_oob, too_large, bound);
            final(reader)@ == m && match (r, res) {
                (Ok(v), Ok(sv)) => v.deep_view() == sv && (forall|t: int|
                    0 <= t < v.len() ==> v[t].valid()),
                (Err(e), Err(e2)) => e == e2,
                _ => false,
            }
        }),
{
    let mut inner = match reader.read_pointer() {
        Ok(x) => x,
        Err(e) => {
            return Err(e);
        },
    };
    let lw = match inner.move_cursor(32, len_oob) {
        Ok(w) => w,
        Err(_) => {
            return Err(len_oob);
        },
    };
    let n = match word_to_usize(lw) {
        Some(x) => x,
        None => {
            return Err(too_large);
        },
    };
    match bound {
        Some(b) => {
            if n > b as usize {
                return Err(Revert::ValueTooLarge);
            }
        },
        None => {},
    }
    let mut item_reader = inner.tail_from(32);
    let ghost base = item_reader@;
    let mut array: Vec<T> = Vec::new();
    let mut i: usize = 0;
    proof {
        assert(array.deep_view() =~= Seq::<T::V>::empty());
        assert(read_items::<T>(base, n as nat) == with_prefix(
            array.deep_view(),
            read_items::<T>(item_reader@, n as nat),
        ));
    }
    while i < n
        invariant
            i <= n,
            item_reader.wf(),
            reader.wf(),
            array.deep_view().len() == i as nat,
            array@.len() == i as nat,
            forall|t: int| 0 <= t < array@.len() ==> array@[t].valid(),
            read_items::<T>(base, n as nat) == with_prefix(
                array.deep_view(),
                read_items::<T>(item_reader@, (n - i) as nat),
            ),
            ({
                let (res, m) = read_seq_spec::<T>(old(reader)@, len_oob, too_large, bound);
                m == reader@ && reader@.input == old(reader)@.input && res == (
                match read_items::<T>(base, n as nat).0 {
                    Ok(vs) => Ok::<Seq<T::V>, Revert>(vs),
                    Err(e) => Err::<Seq<T::V>, Revert>(e),
                })
            }),
        decreases n - i,
    {
        let ghost pre = item_reader@;
        let ghost done = array.deep_view();
        let item = match T::read(&mut item_reader) {
            Ok(v) => v,
            Err(e) => {
                return Err(e);
            },
        };
        let ghost pre_arr = array@;
        array.push(item);
        proof {
            assert(array.deep_view() =~= done + seq![item.deep_view()]);
            assert(forall|t: int| 0 <= t < pre_arr.len() ==> array@[t] == pre_arr[t]);
            let k = (n - i) as nat;
            let (h, r1) = T::read_spec(pre);
            let (t, r2) = read_items::<T>(r1, (k - 1) as nat);
            match t {
                Ok(vs) => {
                    assert(read_items::<T>(pre, k) == (
                        Ok::<Seq<T::V>, Revert>(seq![item.deep_view()] + vs),
                        r2,
                    ));
                    assert(done + (seq![item.deep_view()] + vs) =~= (done + seq![
                        item.deep_view(),
                    ]) + vs);
                },
                Err(_) => {},
            }
        }
        i = i + 1;
    }
    proof {
        assert(read_items::<T>(item_reader@, (n - i) as nat) == (
            Ok::<Seq<T::V>, Revert>(Seq::empty()),
            item_reader@,
        ));
        assert(array.deep_view() + Seq::<T::V>::empty() =~= array.deep_view());
    }
    Ok(array)
}

/// Encode a sequence body and write it as one deferred pointer: shared by
/// the unbounded and the bounded sequence types.
fn write_seq<T: EvmData>(writer: &mut EvmDataWriter, value: Vec<T>)
    requires
        old(writer).wf(),
        forall|t: int| 0 <= t < value@.len() ==> value@[t].valid(),
    ensures
        final(writer).wf(),
        final(writer)@ == wp(old(writer)@, seq_payload::<T>(value.deep_view())),
{
    let n = value.len();
    let lw = uint_word(n as u128, 8);
    let mut inner = EvmDataWriter::new();
    inner.append_bytes(lw.as_slice());
    let ghost all_items = value.deep_view();
    proof {
        lemma_be_bytes_len(n as nat, 8);
        assert(inner@.data =~= word_of(all_items.len()));
        assert(inner@ == seq_init_wstate(all_items.len()));
    }
    let mut value = value;
    while value.len() > 0
        invariant
            inner.wf(),
            inner@.data.len() >= 32,
            forall|t: int| 0 <= t < value@.len() ==> value@[t].valid(),
            splice_items::<T>(seq_init_wstate(all_items.len()), all_items) == splice_items::<T>(
                inner@,
                value.deep_view(),
            ),
        decreases value@.len(),
    {
        let ghost pre_vec = value@;
        let ghost pre_items = value.deep_view();
        let ghost pre_inner = inner@;
        let item = value.remove(0);
        proof {
            assert(value@ =~= pre_vec.subrange(1, pre_vec.len() as int));
            assert(forall|t: int| 0 <= t < value@.len() ==> value@[t] == pre_vec[t + 1]);
            assert(item.deep_view() == pre_items[0]);
            assert(value.deep_view() =~= pre_items.drop_first());
        }
        let item_writer = EvmDataWriter::new().write(item);
        inner.splice_child(item_writer);
        proof {
            assert(splice_items::<T>(pre_inner, pre_items) == splice_items::<T>(
                splice_one(pre_inner, T::write_spec(pre_items[0], empty_wstate())),
                pre_items.drop_first(),
            ));
        }
    }
    proof {
        assert(value.deep_view().len() == 0);
        assert(splice_items::<T>(inner@, value.deep_view()) == inner@);
    }
    writer.write_pointer(inner.build());
}

impl<T: EvmData> EvmData for Vec<T> {
    open spec fn static_spec() -> bool {
        false
    }

    open spec fn tuple_spec() -> bool {
        false
    }

    open spec fn valid(&self) -> bool {
        forall|t: int| 0 <= t < self@.len() ==> self@[t].valid()
    }

    open spec fn read_spec(r: RState) -> (Result<Seq<T::V>, Revert>, RState) {
        read_seq_spec::<T>(r, Revert::ArrayLengthOutOfBounds, Revert::ArrayLengthTooLarge, None)
    }

    open spec fn write_spec(v: Seq<T::V>, w: WState) -> WState {
        wp(w, seq_payload::<T>(v))
    }

    proof fn explicit_dynamic_payload(v: Seq<T::V>, w: WState) -> (p: Seq<u8>) {
        Seq::empty()
    }

    fn read(reader: &mut EvmDataReader<'_>) -> (r: EvmResult<Vec<T>>) {
        read_seq::<T>(
            reader,
            Revert::ArrayLengthOutOfBounds,
            Revert::ArrayLengthTooLarge,
            None,
        )
    }

    fn write(writer: &mut EvmDataWriter, value: Self) {
        write_seq::<T>(writer, value);
    }

    fn has_static_size() -> (r: bool) {
        false
    }

    fn is_explicit_tuple() -> (r: bool) {
        false
    }
}

/// Wrapper around a sequence that enforces a maximum element count when
/// decoding. Writing does not enforce the bound.
#[derive(Clone, Debug)]
pub struct BoundedVec<T, const N: u32> {
    inner: Vec<T>,
}

impl<T: DeepView, const N: u32> DeepView for BoundedVec<T, N> {
    type V = Seq<T::V>;

    closed spec fn deep_view(&self) -> Seq<T::V> {
        self.inner.deep_view()
    }
}

impl<T: DeepView, const N: u32> BoundedVec<T, N> {
    /// Wrap a sequence; the bound is not enforced here.
    pub fn from_vec(inner: Vec<T>) -> (r: Self)
        ensures
            r.deep_view() == inner.deep_view(),
    {
        BoundedVec { inner }
    }

    /// The wrapped sequence.
    pub fn into_inner(self) -> (r: Vec<T>)
        ensures
            r.deep_view() == self.deep_view(),
    {
        self.inner
    }
}

impl<T: EvmData, const N: u32> EvmData for BoundedVec<T, N> {
    open spec fn static_spec() -> bool {
        false
    }

    open spec fn tuple_spec() -> bool {
        false
    }

    closed spec fn valid(&self) -> bool {
        forall|t: int| 0 <= t < self.inner@.len() ==> self.inner@[t].valid()
    }

    open spec fn read_spec(r: RState) -> (Result<Seq<T::V>, Revert>, RState) {
        read_seq_spec::<T>(r, Revert::BoundedLengthOutOfBounds, Revert::ValueTooLarge, Some(N))
    }

    open spec fn write_spec(v: Seq<T::V>, w: WState) -> WState {
        wp(w, seq_payload::<T>(v))
    }

    proof fn explicit_dynamic_payload(v: Seq<T::V>, w: WState) -> (p: Seq<u8>) {
        Seq::empty()
    }

    fn read(reader: &mut EvmDataReader<'_>) -> (r: EvmResult<BoundedVec<T, N>>) {
        let inner = match read_seq::<T>(
            reader,
            Revert::BoundedLengthOutOfBounds,
            Revert::ValueTooLarge,
            Some(N),
        ) {
            Ok(v) => v,
            Err(e) => {
                return Err(e);
            },
        };
        Ok(BoundedVec { inner })
    }

    fn write(writer: &mut EvmDataWriter, value: Self) {
        write_seq::<T>(writer, value.inner);
    }

    fn has_static_size() -> (r: bool) {
        false
    }

    fn is_explicit_tuple() -> (r: bool) {
        false
    }
}


impl<A0: EvmData> EvmData for (A0,) {
    open spec fn static_spec() -> bool {
        A0::static_spec()
    }

    open spec fn tuple_spec() -> bool {
        true
    }

    open spec fn valid(&self) -> bool {
        self.0.valid()
    }

    open spec fn read_spec(r: RState) -> (Result<(A0::V,), Revert>, RState) {
        if Self::static_spec() {
            {
                let (r0, s1) = A0::read_spec(r);
                match r0 {
                    Err(e) => (Err(e), s1),
                    Ok(v0) => (Ok((v0,)), s1),
                }
            }
        } else {
            let (p, m) = read_pointer_spec(r);
            match p {
                Err(e) => (Err(e), m),
                Ok(sub) => {
                    let (r0, _s1) = A0::read_spec(sub);
                    match r0 {
                        Err(e) => (Err(e), m),
                        Ok(v0) => (Ok((v0,)), m),
                    }
                },
            }
        }
    }

    open spec fn write_spec(v: (A0::V,), w: WState) -> WState {
        if Self::static_spec() {
            A0::write_spec(v.0, w)
        } else {
            wp(w, build_spec(A0::write_spec(v.0, empty_wstate())))
        }
    }

    proof fn explicit_dynamic_payload(v: (A0::V,), w: WState) -> (p: Seq<u8>) {
        build_spec(A0::write_spec(v.0, empty_wstate()))
    }

    fn read(reader: &mut EvmDataReader<'_>) -> (r: EvmResult<(A0,)>) {
        if !Self::has_static_size() {
            let mut inner = match reader.read_pointer() {
                Ok(x) => x,
                Err(e) => {
                    return Err(e);
                },
            };
            let v0 = match A0::read(&mut inner) {
                Ok(v) => v,
                Err(e) => {
                    return Err(e);
                },
            };
            Ok((v0,))
        } else {
            let v0 = match A0::read(reader) {
                Ok(v) => v,
                Err(e) => {
                    return Err(e);
                },
            };
            Ok((v0,))
        }
    }

    fn write(writer: &mut EvmDataWriter, value: Self) {
        if !Self::has_static_size() {
            let mut inner = EvmDataWriter::new();
            A0::write(&mut inner, value.0);
            writer.write_pointer(inner.build());
        } else {
            A0::write(writer, value.0);
        }
    }

    fn has_static_size() -> (r: bool) {
        A0::has_static_size()
    }

    fn is_explicit_tuple() -> (r: bool) {
        true
    }
}

impl<A0: EvmData, A1: EvmData> EvmData for (A0, A1) {
    open spec fn static_spec() -> bool {
        A0::static_spec() && A1::static_spec()
    }

    open spec fn tuple_spec() -> bool {
        true
    }

    open spec fn valid(&self) -> bool {
        self.0.valid() && self.1.valid()
    }

    open spec fn read_spec(r: RState) -> (Result<(A0::V, A1::V), Revert>, RState) {
        if Self::static_spec() {
            {
                let (r0, s1) = A0::read_spec(r);
                match r0 {
                    Err(e) => (Err(e), s1),
                    Ok(v0) => {
                        let (r1, s2) = A1::read_spec(s1);
                        match r1 {
                            Err(e) => (Err(e), s2),
                            Ok(v1) => (Ok((v0, v1)), s2),
                        }
                    },
                }
            }
        } else {
            let (p, m) = read_pointer_spec(r);
            match p {
                Err(e) => (Err(e), m),
                Ok(sub) => {
                    let (r0, s1) = A0::read_spec(sub);
                    match r0 {
                        Err(e) => (Err(e), m),
                        Ok(v0) => {
                            let (r1, _s2) = A1::read_spec(s1);
                            match r1 {
                                Err(e) => (Err(e), m),
                                Ok(v1) => (Ok((v0, v1)), m),
                            }
                        },
                    }
                },
            }
        }
    }

    open spec fn write_spec(v: (A0::V, A1::V), w: WState) -> WState {
        if Self::static_spec() {
            A1::write_spec(v.1, A0::write_spec(v.0, w))
        } else {
            wp(w, build_spec(A1::write_spec(v.1, A0::write_spec(v.0, empty_wstate()))))
        }
    }

    proof fn explicit_dynamic_payload(v: (A0::V, A1::V), w: WState) -> (p: Seq<u8>) {
        build_spec(A1::write_spec(v.1, A0::write_spec(v.0, empty_wstate())))
    }

    fn read(reader: &mut EvmDataReader<'_>) -> (r: EvmResult<(A0, A1)>) {
        if !Self::has_static_size() {
            let mut inner = match reader.read_pointer() {
                Ok(x) => x,
                Err(e) => {
                    return Err(e);
                },
            };
            let v0 = match A0::read(&mut inner) {
                Ok(v) => v,
                Err(e) => {
                    return Err(e);
                },
            };
            let v1 = match A1::read(&mut inner) {
                Ok(v) => v,
                Err(e) => {
                    return Err(e);
                },
            };
            Ok((v0, v1))
        } else {
            let v0 = match A0::read(reader) {
                Ok(v) => v,
                Err(e) => {
                    return Err(e);
                },
            };
            let v1 = match A1::read(reader) {
                Ok(v) => v,
                Err(e) => {
                    return Err(e);
                },
            };
            Ok((v0, v1))
        }
    }

    fn write(writer: &mut EvmDataWriter, value: Self) {
        if !Self::has_static_size() {
            let mut inner = EvmDataWriter::new();
            A0::write(&mut inner, value.0);
            A1::write(&mut inner, value.1);
            writer.write_pointer(inner.build());
        } else {
            A0::write(writer, value.0);
            A1::write(writer, value.1);
        }
    }

    fn has_static_size() -> (r: bool) {
        A0::has_static_size() && A1::has_static_size()
    }

    fn is_explicit_tuple() -> (r: bool) {
        true
    }
}

impl<A0: EvmData, A1: EvmData, A2: EvmData> EvmData for (A0, A1, A2) {
    open spec fn static_spec() -> bool {
        A0::static_spec() && A1::static_spec() && A2::static_spec()
    }

    open spec fn tuple_spec() -> bool {
        true
    }

    open spec fn valid(&self) -> bool {
        self.0.valid() && self.1.valid() && self.2.valid()
    }

    open spec fn read_spec(r: RState) -> (Result<(A0::V, A1::V, A2::V), Revert>, RState) {
        if Self::static_spec() {
            {
                let (r0, s1) = A0::read_spec(r);
                match r0 {
                    Err(e) => (Err(e), s1),
                    Ok(v0) => {
                        let (r1, s2) = A1::read_spec(s1);
                        match r1 {
                            Err(e) => (Err(e), s2),
                            Ok(v1) => {
                                let (r2, s3) = A2::read_spec(s2);
                                match r2 {
                                    Err(e) => (Err(e), s3),
                                    Ok(v2) => (Ok((v0, v1, v2)), s3),
                                }
                            },
                        }
                    },
                }
            }
        } else {
            let (p, m) = read_pointer_spec(r);
            match p {
                Err(e) => (Err(e), m),
                Ok(sub) => {
                    let (r0, s1) = A0::read_spec(sub);
                    match r0 {
                        Err(e) => (Err(e), m),
                        Ok(v0) => {
                            let (r1, s2) = A1::read_spec(s1);
                            match r1 {
                                Err(e) => (Err(e), m),
                                Ok(v1) => {
                                    let (r2, _s3) = A2::read_spec(s2);
                                    match r2 {
                                        Err(e) => (Err(e), m),
                                        Ok(v2) => (Ok((v0, v1, v2)), m),
                                    }
                                },
                            }
                        },
                    }
                },
            }
        }
    }

    open spec fn write_spec(v: (A0::V, A1::V, A2::V), w: WState) -> WState {
        if Self::static_spec() {
            A2::write_spec(v.2, A1::write_spec(v.1, A0::write_spec(v.0, w)))
        } else {
            wp(w, build_spec(A2::write_spec(v.2, A1::write_spec(v.1, A0::write_spec(v.0, empty_wstate())))))
        }
    }

    proof fn explicit_dynamic_payload(v: (A0::V, A1::V, A2::V), w: WState) -> (p: Seq<u8>) {
        build_spec(A2::write_spec(v.2, A1::write_spec(v.1, A0::write_spec(v.0, empty_wstate()))))
    }

    fn read(reader: &mut EvmDataReader<'_>) -> (r: EvmResult<(A0, A1, A2)>) {
        if !Self::has_static_size() {
            let mut inner = match reader.read_pointer() {
                Ok(x) => x,
                Err(e) => {
                    return Err(e);
                },
            };
            let v0 = match A0::read(&mut inner) {
                Ok(v) => v,
                Err(e) => {
                    return Err(e);
                },
            };
            let v1 = match A1::read(&mut inner) {
                Ok(v) => v,
                Err(e) => {
                    return Err(e);
                },
            };
            let v2 = match A2::read(&mut inner) {
                Ok(v) => v,
                Err(e) => {
                    return Err(e);
                },
            };
            Ok((v0, v1, v2))
        } else {
            let v0 = match A0::read(reader) {
                Ok(v) => v,
                Err(e) => {
                    return Err(e);
                },
            };
            let v1 = match A1::read(reader) {
                Ok(v) => v,
                Err(e) => {
                    return Err(e);
                },
            };
            let v2 = match A2::read(reader) {
                Ok(v) => v,
                Err(e) => {
                    return Err(e);
                },
            };
            Ok((v0, v1, v2))
        }
    }

    fn write(writer: &mut EvmDataWriter, value: Self) {
        if !Self::has_static_size() {
            let mut inner = EvmDataWriter::new();
            A0::write(&mut inner, value.0);
            A1::write(&mut inner, value.1);
            A2::write(&mut inner, value.2);
            writer.write_pointer(inner.build());
        } else {
            A0::write(writer, value.0);
            A1::write(writer, value.1);
            A2::write(writer, value.2);
        }
    }

    fn has_static_size() -> (r: bool) {
        A0::has_static_size() && A1::has_static_size() && A2::has_static_size()
    }

    fn is_explicit_tuple() -> (r: bool) {
        true
    }
}

impl<A0: EvmData, A1: EvmData, A2: EvmData, A3: EvmData> EvmData for (A0, A1, A2, A3) {
    open spec fn static_spec() -> bool {
        A0::static_spec() && A1::static_spec() && A2::static_spec() && A3::static_spec()
    }

    open spec fn tuple_spec() -> bool {
        true
    }

    open spec fn valid(&self) -> bool {
        self.0.valid() && self.1.valid() && self.2.valid() && self.3.valid()
    }

    open spec fn read_spec(r: RState) -> (Result<(A0::V, A1::V, A2::V, A3::V), Revert>, RState) {
        if Self::static_spec() {
            {
                let (r0, s1) = A0::read_spec(r);
                match r0 {
                    Err(e) => (Err(e), s1),
                    Ok(v0) => {
                        let (r1, s2) = A1::read_spec(s1);
                        match r1 {
                            Err(e) => (Err(e), s2),
                            Ok(v1) => {
                                let (r2, s3) = A2::read_spec(s2);
                                match r2 {
                                    Err(e) => (Err(e), s3),
                                    Ok(v2) => {
                                        let (r3, s4) = A3::read_spec(s3);
                                        match r3 {
                                            Err(e) => (Err(e), s4),
                                            Ok(v3) => (Ok((v0, v1, v2, v3)), s4),
                                        }
                                    },
                                }
                            },
                        }
                    },
                }
            }
        } else {
            let (p, m) = read_pointer_spec(r);
            match p {
                Err(e) => (Err(e), m),
                Ok(sub) => {
                    let (r0, s1) = A0::read_spec(sub);
                    match r0 {
                        Err(e) => (Err(e), m),
                        Ok(v0) => {
                            let (r1, s2) = A1::read_spec(s1);
                            match r1 {
                                Err(e) => (Err(e), m),
                                Ok(v1) => {
                                    let (r2, s3) = A2::read_spec(s2);
                                    match r2 {
                                        Err(e) => (Err(e), m),
                                        Ok(v2) => {
                                            let (r3, _s4) = A3::read_spec(s3);
                                            match r3 {
                                                Err(e) => (Err(e), m),
                                                Ok(v3) => (Ok((v0, v1, v2, v3)), m),
                                            }
                                        },
                                    }
                                },
                            }
                        },
                    }
                },
            }
        }
    }

    open spec fn write_spec(v: (A0::V, A1::V, A2::V, A3::V), w: WState) -> WState {
        if Self::static_spec() {
            A3::write_spec(v.3, A2::write_spec(v.2, A1::write_spec(v.1, A0::write_spec(v.0, w))))
        } else {
            wp(w, build_spec(A3::write_spec(v.3, A2::write_spec(v.2, A1::write_spec(v.1, A0::write_spec(v.0, empty_wstate()))))))
        }
    }

    proof fn explicit_dynamic_payload(v: (A0::V, A1::V, A2::V, A3::V), w: WState) -> (p: Seq<u8>) {
        build_spec(A3::write_spec(v.3, A2::write_spec(v.2, A1::write_spec(v.1, A0::write_spec(v.0, empty_wstate())))))
    }

    fn read(reader: &mut EvmDataReader<'_>) -> (r: EvmResult<(A0, A1, A2, A3)>) {
        if !Self::has_static_size() {
            let mut inner = match reader.read_pointer() {
                Ok(x) => x,
                Err(e) => {
                    return Err(e);
                },
            };
            let v0 = match A0::read(&mut inner) {
                Ok(v) => v,
                Err(e) => {
                    return Err(e);
                },
            };
            let v1 = match A1::read(&mut inner) {
                Ok(v) => v,
                Err(e) => {
                    return Err(e);
                },
            };
            let v2 = match A2::read(&mut inner) {
                Ok(v) => v,
                Err(e) => {
                    return Err(e);
                },
            };
            let v3 = match A3::read(&mut inner) {
                Ok(v) => v,
                Err(e) => {
                    return Err(e);
                },
            };
            Ok((v0, v1, v2, v3))
        } else {
            let v0 = match A0::read(reader) {
                Ok(v) => v,
                Err(e) => {
                    return Err(e);
                },
            };
            let v1 = match A1::read(reader) {
                Ok(v) => v,
                Err(e) => {
                    return Err(e);
                },
            };
            let v2 = match A2::read(reader) {
                Ok(v) => v,
                Err(e) => {
                    return Err(e);
                },
            };
            let v3 = match A3::read(reader) {
                Ok(v) => v,
                Err(e) => {
                    return Err(e);
                },
            };
            Ok((v0, v1, v2, v3))
        }
    }

    fn write(writer: &mut EvmDataWriter, value: Self) {
        if !Self::has_static_size() {
            let mut inner = EvmDataWriter::new();
            A0::write(&mut inner, value.0);
            A1::write(&mut inner, value.1);
            A2::write(&mut inner, value.2);
            A3::write(&mut inner, value.3);
            writer.write_pointer(inner.build());
        } else {
            A0::write(writer, value.0);
            A1::write(writer, value.1);
            A2::write(writer, value.2);
            A3::write(writer, value.3);
        }
    }

    fn has_static_size() -> (r: bool) {
        A0::has_static_size() && A1::has_static_size() && A2::has_static_size() && A3::has_static_size()
    }

    fn is_explicit_tuple() -> (r: bool) {
        true
    }
}

/// The full ABI encoding of a single value.
pub open spec fn encode_spec<T: EvmData>(v: T::V) -> Seq<u8> {
    build_spec(T::write_spec(v, empty_wstate()))
}

/// Encode the value into its Solidity ABI format. A tuple is encoded as a
/// Solidity tuple with a leading offset word.
fn encode<T: EvmData>(value: T) -> (r: Vec<u8>)
    requires
        value.valid(),
    ensures
        r@ == encode_spec::<T>(value.deep_view()),
{
    EvmDataWriter::new().write(value).build()
}

/// Encode the value into its Solidity ABI format. A dynamic tuple loses
/// its leading offset word: this matches the encoding of Solidity function
/// arguments, return values and event data.
pub fn encode_arguments<T: EvmData>(value: T) -> (r: Vec<u8>)
    requires
        value.valid(),
    ensures
        T::tuple_spec() && !T::static_spec() ==> word_of(32) + r@ == encode_spec::<T>(
            value.deep_view(),
        ),
        !(T::tuple_spec() && !T::static_spec()) ==> r@ == encode_spec::<T>(value.deep_view()),
{
    let ghost dv = value.deep_view();
    let output = encode(value);
    if T::is_explicit_tuple() && !T::has_static_size() {
        proof {
            let p = T::explicit_dynamic_payload(dv, empty_wstate());
            let pend = Pend { pos: 0, payload: p, shift: 0 };
            let st = wp(empty_wstate(), p);
            assert(st.data =~= ff_word());
            assert(st.pending =~= seq![pend]);
            assert(st.pending[0] == pend);
            lemma_be_bytes_len(32, 8);
            assert(bake_one(st.data, pend) =~= word_of(32) + p);
            assert(bake(st.data, st.pending) == bake(
                bake_one(st.data, pend),
                st.pending.drop_first(),
            ));
            assert(st.pending.drop_first().len() == 0);
            assert(output@ == word_of(32) + p);
            assert(output@.len() == 32 + p.len());
        }
        let r = slice_to_vec(slice_subrange(output.as_slice(), 32, output.len()));
        proof {
            let p = T::explicit_dynamic_payload(dv, empty_wstate());
            assert(r@ =~= p);
            assert(word_of(32) + r@ == encode_spec::<T>(dv));
        }
        r
    } else {
        output
    }
}

} // verus!
