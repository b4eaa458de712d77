//! Laws of the codec: round-trips of the word-level types, the exact shape
//! of a `bytes` encoding, determinism of `build`, the bounded-sequence
//! bound, and pointer safety.

use vstd::prelude::*;

use crate::codec::{
    bool_word, bytes_payload, encode_spec, pad_len, read_items, read_seq_spec, seq_init_wstate,
    splice_items, uint_word_spec, word_truthy, Address, BoundedVec, Bytes, EvmData, H256, U256,
};
use crate::reader::{read_pointer_spec, take_spec, RState};
use crate::revert::Revert;
use crate::words::{
    be_bytes, be_val, lemma_be_bytes_len, lemma_be_val_be_bytes, pow256, word_of, zeros,
};
use crate::writer::{bake, bake_one, build_spec, empty_wstate, splice_one, wp, Pend, WState};

verus! {

broadcast use vstd::seq_lib::group_seq_properties;

/// Building a writer that holds a single deferred pointer places the
/// payload right behind its offset word.
pub proof fn lemma_build_single_pointer(p: Seq<u8>)
    ensures
        build_spec(wp(empty_wstate(), p)) == word_of(32) + p,
        word_of(32).len() == 32,
{
    let pend = Pend { pos: 0, payload: p, shift: 0 };
    let st = wp(empty_wstate(), p);
    lemma_be_bytes_len(32, 8);
    assert(st.pending =~= seq![pend]);
    assert(st.pending[0] == pend);
    assert(bake_one(st.data, pend) =~= word_of(32) + p);
    assert(bake(st.data, st.pending) == bake(bake_one(st.data, pend), st.pending.drop_first()));
    assert(st.pending.drop_first().len() == 0);
    assert(build_spec(st) =~= word_of(32) + p);
}

/// A word carrying a `k`-byte integer is 32 bytes, and its low `k` bytes
/// are the integer's big-endian encoding.
pub proof fn lemma_uint_word_extract(n: nat, k: nat)
    requires
        k <= 32,
    ensures
        uint_word_spec(n, k).len() == 32,
        uint_word_spec(n, k).subrange((32 - k) as int, 32) == be_bytes(n, k),
{
    lemma_be_bytes_len(n, k);
    assert(uint_word_spec(n, k).subrange((32 - k) as int, 32) =~= be_bytes(n, k));
}

/// The encoding of a static value read back at cursor zero.
proof fn lemma_static_enc<T: EvmData>(v: T::V, word: Seq<u8>) -> (r0: RState)
    requires
        T::write_spec(v, empty_wstate()) == (WState {
            data: Seq::<u8>::empty() + word,
            pending: Seq::<Pend>::empty(),
            selector: None,
        }),
        word.len() == 32,
    ensures
        r0 == (RState { input: encode_spec::<T>(v), cursor: 0 }),
        encode_spec::<T>(v) == word,
        take_spec(r0, 32, Revert::U8OutOfBounds).0 == Ok::<Seq<u8>, Revert>(word),
{
    let enc = encode_spec::<T>(v);
    assert(enc =~= word);
    let r0 = RState { input: enc, cursor: 0 };
    assert(enc.subrange(0, 32) =~= word);
    r0
}

/// Round-trip: decoding the encoding of a `u8` yields it back.
pub proof fn lemma_roundtrip_u8(v: u8)
    ensures
        <u8 as EvmData>::read_spec(
            RState { input: encode_spec::<u8>(v), cursor: 0 },
        ).0 == Ok::<u8, Revert>(v),
{
    lemma_uint_word_extract(v as nat, 1);
    let word = uint_word_spec(v as nat, 1);
    let r0 = lemma_static_enc::<u8>(v, word);
    assert(word.subrange(0, 32) =~= word);
    assert(pow256(1) == 256) by {
        reveal_with_fuel(pow256, 2);
    }
    lemma_be_val_be_bytes(v as nat, 1);
    assert(word[31] == be_bytes(v as nat, 1)[0]);
    assert(be_bytes(v as nat, 1) =~= seq![be_bytes(v as nat, 1)[0]]);
    assert(be_val(be_bytes(v as nat, 1)) == be_bytes(v as nat, 1)[0] as nat);
    assert(word[31] == v);
}

/// Round-trip: decoding the encoding of a `u16` yields it back. Writing
/// leaves the upper padding zero, and reading looks only at the low bytes.
pub proof fn lemma_roundtrip_u16(v: u16)
    ensures
        <u16 as EvmData>::read_spec(
            RState { input: encode_spec::<u16>(v), cursor: 0 },
        ).0 == Ok::<u16, Revert>(v),
{
    lemma_uint_word_extract(v as nat, 2);
    let word = uint_word_spec(v as nat, 2);
    let r0 = lemma_static_enc::<u16>(v, word);
    assert(pow256(2) == 0x10000) by {
        reveal_with_fuel(pow256, 3);
    }
    lemma_be_val_be_bytes(v as nat, 2);
}

/// Round-trip: decoding the encoding of a `u32` yields it back.
pub proof fn lemma_roundtrip_u32(v: u32)
    ensures
        <u32 as EvmData>::read_spec(
            RState { input: encode_spec::<u32>(v), cursor: 0 },
        ).0 == Ok::<u32, Revert>(v),
{
    lemma_uint_word_extract(v as nat, 4);
    let word = uint_word_spec(v as nat, 4);
    let r0 = lemma_static_enc::<u32>(v, word);
    assert(pow256(4) == 0x100000000) by {
        reveal_with_fuel(pow256, 5);
    }
    lemma_be_val_be_bytes(v as nat, 4);
}

/// Round-trip: decoding the encoding of a `u64` yields it back.
pub proof fn lemma_roundtrip_u64(v: u64)
    ensures
        <u64 as EvmData>::read_spec(
            RState { input: encode_spec::<u64>(v), cursor: 0 },
        ).0 == Ok::<u64, Revert>(v),
{
    lemma_uint_word_extract(v as nat, 8);
    let word = uint_word_spec(v as nat, 8);
    let r0 = lemma_static_enc::<u64>(v, word);
    assert(pow256(8) == 0x10000000000000000) by {
        reveal_with_fuel(pow256, 9);
    }
    lemma_be_val_be_bytes(v as nat, 8);
}

/// Round-trip: decoding the encoding of a `u128` yields it back.
pub proof fn lemma_roundtrip_u128(v: u128)
    ensures
        <u128 as EvmData>::read_spec(
            RState { input: encode_spec::<u128>(v), cursor: 0 },
        ).0 == Ok::<u128, Revert>(v),
{
    lemma_uint_word_extract(v as nat, 16);
    let word = uint_word_spec(v as nat, 16);
    let r0 = lemma_static_enc::<u128>(v, word);
    assert(pow256(16) == 0x100000000000000000000000000000000) by {
        reveal_with_fuel(pow256, 17);
    }
    lemma_be_val_be_bytes(v as nat, 16);
}

/// Round-trip: decoding the encoding of a boolean yields it back.
pub proof fn lemma_roundtrip_bool(v: bool)
    ensures
        <bool as EvmData>::read_spec(
            RState { input: encode_spec::<bool>(v), cursor: 0 },
        ).0 == Ok::<bool, Revert>(v),
{
    let word = bool_word(v);
    assert(word.len() == 32);
    let r0 = lemma_static_enc::<bool>(v, word);
    if v {
        assert(word[31] == 1);
        assert(word_truthy(word));
    } else {
        assert(forall|i: int| 0 <= i < 32 ==> word[i] == 0);
        assert(!word_truthy(word));
    }
}

/// Round-trip: decoding the encoding of a 256-bit integer yields it back.
pub proof fn lemma_roundtrip_u256(v: Seq<u8>)
    requires
        v.len() == 32,
    ensures
        <U256 as EvmData>::read_spec(
            RState { input: encode_spec::<U256>(v), cursor: 0 },
        ).0 == Ok::<Seq<u8>, Revert>(v),
{
    let r0 = lemma_static_enc::<U256>(v, v);
}

/// Round-trip: decoding the encoding of an opaque word yields it back.
pub proof fn lemma_roundtrip_h256(v: Seq<u8>)
    requires
        v.len() == 32,
    ensures
        <H256 as EvmData>::read_spec(
            RState { input: encode_spec::<H256>(v), cursor: 0 },
        ).0 == Ok::<Seq<u8>, Revert>(v),
{
    let r0 = lemma_static_enc::<H256>(v, v);
}

/// Round-trip: decoding the encoding of an address yields it back. The
/// twelve padding bytes are written as zero and ignored on read.
pub proof fn lemma_roundtrip_address(v: Seq<u8>)
    requires
        v.len() == 20,
    ensures
        <Address as EvmData>::read_spec(
            RState { input: encode_spec::<Address>(v), cursor: 0 },
        ).0 == Ok::<Seq<u8>, Revert>(v),
{
    let word = zeros(12) + v;
    assert(word.len() == 32);
    let r0 = lemma_static_enc::<Address>(v, word);
    assert(word.subrange(12, 32) =~= v);
}

/// Round-trip for `bytes`/`string`: decoding the encoding of any buffer
/// yields the buffer back, and the encoding is exactly the pointer word,
/// the length word, and the buffer padded to whole words.
pub proof fn lemma_roundtrip_bytes(b: Seq<u8>)
    requires
        b.len() + 96 <= usize::MAX,
    ensures
        encode_spec::<Bytes>(b).len() == 64 + b.len() + pad_len(b.len()),
        <Bytes as EvmData>::read_spec(
            RState { input: encode_spec::<Bytes>(b), cursor: 0 },
        ).0 == Ok::<Seq<u8>, Revert>(b),
{
    let payload = bytes_payload(b);
    lemma_build_single_pointer(payload);
    lemma_be_bytes_len(b.len(), 8);
    let enc = encode_spec::<Bytes>(b);
    assert(enc == word_of(32) + payload);
    assert(enc.len() == 64 + b.len() + pad_len(b.len()));
    assert(pow256(8) > usize::MAX) by {
        reveal_with_fuel(pow256, 9);
    }
    let r0 = RState { input: enc, cursor: 0 };
    assert(enc.subrange(0, 32) =~= word_of(32));
    crate::words::lemma_word_of_val(32);
    assert(be_val(word_of(32)) == 32);
    let sub = enc.subrange(32, enc.len() as int);
    assert(sub =~= payload);
    assert(read_pointer_spec(r0).0 == Ok::<RState, Revert>(RState { input: sub, cursor: 0 }));
    let s0 = RState { input: sub, cursor: 0 };
    assert(sub.subrange(0, 32) =~= word_of(b.len()));
    crate::words::lemma_word_of_val(b.len());
    assert(be_val(word_of(b.len())) == b.len());
    assert(sub.subrange(32, 32 + b.len() as int) =~= b);
    let s1 = RState { input: sub, cursor: 32 };
    assert(take_spec(s0, 32, Revert::BytesLengthOutOfBounds) == (
        Ok::<Seq<u8>, Revert>(word_of(b.len())),
        s1,
    ));
    assert(s1.cursor + b.len() <= usize::MAX);
    assert(take_spec(s1, b.len() as int, Revert::BytesOutOfBounds).0 == Ok::<Seq<u8>, Revert>(b));
}

/// `build` is a function of the writer's state alone: rebuilding from the
/// same sequence of writes always yields identical bytes.
pub proof fn lemma_build_deterministic(w1: WState, w2: WState)
    requires
        w1 == w2,
    ensures
        build_spec(w1) == build_spec(w2),
{
}

/// A bounded sequence whose length word exceeds the bound decodes to the
/// value-too-large revert, whatever the items hold.
pub proof fn lemma_bounded_over_bound<T: EvmData, const N: u32>(r: RState)
    requires
        read_pointer_spec(r).0 is Ok,
        ({
            let sub = read_pointer_spec(r).0->Ok_0;
            let (wl, _s1) = take_spec(sub, 32, Revert::BoundedLengthOutOfBounds);
            wl matches Ok(lw) && (N as nat) < be_val(lw) && be_val(lw) <= usize::MAX
        }),
    ensures
        <BoundedVec<T, N> as EvmData>::read_spec(r).0 == Err::<Seq<T::V>, Revert>(
            Revert::ValueTooLarge,
        ),
{
}

/// An offset word whose value reaches or passes the end of the input
/// reverts with the pointer-out-of-bounds reason, never a value.
pub proof fn lemma_pointer_out_of_bounds(r: RState)
    requires
        r.wf(),
        r.cursor + 32 <= r.input.len(),
        r.cursor + 32 <= usize::MAX,
        be_val(r.input.subrange(r.cursor, r.cursor + 32)) <= usize::MAX,
        be_val(r.input.subrange(r.cursor, r.cursor + 32)) >= r.input.len(),
    ensures
        read_pointer_spec(r).0 == Err::<RState, Revert>(Revert::PointerOutOfBounds),
{
}


/// The concatenation of a sequence of words.
pub open spec fn concat_words(items: Seq<Seq<u8>>) -> Seq<u8>
    decreases items.len(),
{
    if items.len() == 0 {
        Seq::empty()
    } else {
        items[0] + concat_words(items.drop_first())
    }
}

/// Word concatenations have one word per item.
pub proof fn lemma_concat_words_len(items: Seq<Seq<u8>>)
    requires
        forall|i: int| 0 <= i < items.len() ==> (#[trigger] items[i]).len() == 32,
    ensures
        concat_words(items).len() == 32 * items.len(),
    decreases items.len(),
{
    if items.len() > 0 {
        lemma_concat_words_len(items.drop_first());
    }
}

/// Splicing 256-bit integers into a sequence body concatenates their
/// words and defers nothing.
proof fn lemma_splice_words(acc: WState, items: Seq<Seq<u8>>)
    requires
        acc.pending.len() == 0,
    ensures
        splice_items::<U256>(acc, items) == (WState {
            data: acc.data + concat_words(items),
            pending: Seq::<Pend>::empty(),
            selector: acc.selector,
        }),
    decreases items.len(),
{
    if items.len() == 0 {
        assert(acc.data + concat_words(items) =~= acc.data);
        assert(acc.pending =~= Seq::<Pend>::empty());
    } else {
        let st = <U256 as EvmData>::write_spec(items[0], empty_wstate());
        assert(st.data =~= items[0]);
        let next = splice_one(acc, st);
        assert(next.pending =~= Seq::<Pend>::empty());
        lemma_splice_words(next, items.drop_first());
        assert(next.data + concat_words(items.drop_first()) =~= acc.data + concat_words(items));
    }
}

/// Reading `n` words in a row from their concatenation yields them back.
proof fn lemma_read_words(input: Seq<u8>, c: int, items: Seq<Seq<u8>>)
    requires
        forall|i: int| 0 <= i < items.len() ==> (#[trigger] items[i]).len() == 32,
        0 <= c,
        c + 32 * items.len() <= input.len() <= usize::MAX,
        input.subrange(c, c + 32 * items.len()) == concat_words(items),
    ensures
        read_items::<U256>(RState { input, cursor: c }, items.len()) == (
            Ok::<Seq<Seq<u8>>, Revert>(items),
            RState { input, cursor: c + 32 * items.len() },
        ),
    decreases items.len(),
{
    if items.len() == 0 {
        assert(read_items::<U256>(RState { input, cursor: c }, 0) == (
            Ok::<Seq<Seq<u8>>, Revert>(Seq::empty()),
            RState { input, cursor: c },
        ));
        assert(items =~= Seq::<Seq<u8>>::empty());
    } else {
        lemma_concat_words_len(items);
        lemma_concat_words_len(items.drop_first());
        let head = input.subrange(c, c + 32);
        assert(head =~= items[0]);
        let rest = items.drop_first();
        assert(concat_words(items) == items[0] + concat_words(rest));
        assert forall|t: int|
            0 <= t < 32 * rest.len() implies input.subrange(
            c + 32,
            c + 32 + 32 * rest.len(),
        )[t] == concat_words(rest)[t] by {
            assert(concat_words(rest)[t] == (items[0] + concat_words(rest))[32 + t]);
            assert(input.subrange(c, c + 32 * items.len())[32 + t] == input[c + 32 + t]);
        }
        assert(input.subrange(c + 32, c + 32 + 32 * rest.len()) =~= concat_words(rest));
        lemma_read_words(input, c + 32, rest);
        assert(seq![items[0]] + rest =~= items);
    }
}

/// The encoding of a sequence of 256-bit integers, read back through the
/// shared sequence decoder: the pointer, the length word, then the items.
proof fn lemma_seq_words_roundtrip(
    items: Seq<Seq<u8>>,
    len_oob: Revert,
    too_large: Revert,
    bound: Option<u32>,
)
    requires
        forall|i: int| 0 <= i < items.len() ==> (#[trigger] items[i]).len() == 32,
        96 + 32 * items.len() <= usize::MAX,
        match bound {
            Some(b) => items.len() <= b as nat,
            None => true,
        },
    ensures
        ({
            let enc = word_of(32) + build_spec(
                splice_items::<U256>(seq_init_wstate(items.len()), items),
            );
            read_seq_spec::<U256>(RState { input: enc, cursor: 0 }, len_oob, too_large, bound).0
                == Ok::<Seq<Seq<u8>>, Revert>(items)
        }),
{
    let init = seq_init_wstate(items.len());
    lemma_splice_words(init, items);
    lemma_concat_words_len(items);
    lemma_be_bytes_len(items.len(), 8);
    let payload = word_of(items.len()) + concat_words(items);
    assert(build_spec(splice_items::<U256>(init, items)) == payload);
    let enc = word_of(32) + payload;
    lemma_be_bytes_len(32, 8);
    assert(enc.len() == 64 + 32 * items.len());
    assert(pow256(8) > usize::MAX) by {
        reveal_with_fuel(pow256, 9);
    }
    let r0 = RState { input: enc, cursor: 0 };
    assert(enc.subrange(0, 32) =~= word_of(32));
    crate::words::lemma_word_of_val(32);
    let sub = enc.subrange(32, enc.len() as int);
    assert(sub =~= payload);
    assert(read_pointer_spec(r0).0 == Ok::<RState, Revert>(RState { input: sub, cursor: 0 }));
    let s0 = RState { input: sub, cursor: 0 };
    assert(sub.subrange(0, 32) =~= word_of(items.len()));
    crate::words::lemma_word_of_val(items.len());
    assert(be_val(word_of(items.len())) == items.len());
    let base = RState { input: sub.subrange(32, sub.len() as int), cursor: 0 };
    assert(base.input =~= concat_words(items));
    assert(base.input.subrange(0, 32 * items.len() as int) =~= concat_words(items));
    lemma_read_words(base.input, 0, items);
}

/// Round-trip for unbounded sequences of 256-bit integers: decoding the
/// encoding of any sequence yields the sequence back.
pub proof fn lemma_roundtrip_u256_array(items: Seq<Seq<u8>>)
    requires
        forall|i: int| 0 <= i < items.len() ==> (#[trigger] items[i]).len() == 32,
        96 + 32 * items.len() <= usize::MAX,
    ensures
        <Vec<U256> as EvmData>::read_spec(
            RState { input: encode_spec::<Vec<U256>>(items), cursor: 0 },
        ).0 == Ok::<Seq<Seq<u8>>, Revert>(items),
{
    lemma_build_single_pointer(
        build_spec(splice_items::<U256>(seq_init_wstate(items.len()), items)),
    );
    lemma_seq_words_roundtrip(
        items,
        Revert::ArrayLengthOutOfBounds,
        Revert::ArrayLengthTooLarge,
        None,
    );
}

/// Round-trip for bounded sequences: any sequence of 256-bit integers no
/// longer than the bound decodes from its own encoding.
pub proof fn lemma_bounded_within_bound<const N: u32>(items: Seq<Seq<u8>>)
    requires
        forall|i: int| 0 <= i < items.len() ==> (#[trigger] items[i]).len() == 32,
        96 + 32 * items.len() <= usize::MAX,
        items.len() <= N as nat,
    ensures
        <BoundedVec<U256, N> as EvmData>::read_spec(
            RState { input: encode_spec::<BoundedVec<U256, N>>(items), cursor: 0 },
        ).0 == Ok::<Seq<Seq<u8>>, Revert>(items),
{
    lemma_build_single_pointer(
        build_spec(splice_items::<U256>(seq_init_wstate(items.len()), items)),
    );
    lemma_seq_words_roundtrip(
        items,
        Revert::BoundedLengthOutOfBounds,
        Revert::ValueTooLarge,
        Some(N),
    );
}


/// Decoding a `u16` looks only at the word's low 2 bytes: any upper
/// padding decodes to the same value.
pub proof fn lemma_u16_ignores_padding(w: Seq<u8>)
    requires
        w.len() == 32,
    ensures
        <u16 as EvmData>::read_spec(RState { input: w, cursor: 0 }).0 == Ok::<u16, Revert>(
            be_val(w.subrange(30, 32)) as u16,
        ),
{
    assert(w.subrange(0, 32) =~= w);
}

/// Decoding a `u32` looks only at the word's low 4 bytes: any upper
/// padding decodes to the same value.
pub proof fn lemma_u32_ignores_padding(w: Seq<u8>)
    requires
        w.len() == 32,
    ensures
        <u32 as EvmData>::read_spec(RState { input: w, cursor: 0 }).0 == Ok::<u32, Revert>(
            be_val(w.subrange(28, 32)) as u32,
        ),
{
    assert(w.subrange(0, 32) =~= w);
}

/// Decoding a `u64` looks only at the word's low 8 bytes: any upper
/// padding decodes to the same value.
pub proof fn lemma_u64_ignores_padding(w: Seq<u8>)
    requires
        w.len() == 32,
    ensures
        <u64 as EvmData>::read_spec(RState { input: w, cursor: 0 }).0 == Ok::<u64, Revert>(
            be_val(w.subrange(24, 32)) as u64,
        ),
{
    assert(w.subrange(0, 32) =~= w);
}

/// Decoding a `u128` looks only at the word's low 16 bytes: any upper
/// padding decodes to the same value.
pub proof fn lemma_u128_ignores_padding(w: Seq<u8>)
    requires
        w.len() == 32,
    ensures
        <u128 as EvmData>::read_spec(RState { input: w, cursor: 0 }).0 == Ok::<u128, Revert>(
            be_val(w.subrange(16, 32)) as u128,
        ),
{
    assert(w.subrange(0, 32) =~= w);
}

/// Decoding a `u8` yields the word's last byte, whatever the upper
/// padding holds.
pub proof fn lemma_u8_ignores_padding(w: Seq<u8>)
    requires
        w.len() == 32,
    ensures
        <u8 as EvmData>::read_spec(RState { input: w, cursor: 0 }).0 == Ok::<u8, Revert>(w[31]),
{
    assert(w.subrange(0, 32) =~= w);
}

} // verus!
