//! The output side of the codec: an append-only data buffer plus a table of
//! deferred pointers, resolved in order when the output is built.

use vstd::prelude::*;

use crate::words::{be_bytes, be_bytes_exec, ff_word, lemma_be_bytes_len, word_of, zeros_exec};

verus! {

broadcast use vstd::seq_lib::group_seq_properties;

/// A deferred pointer: where its placeholder word sits, the payload to
/// append, and the shift correcting offsets measured inside an array item.
pub ghost struct Pend {
    pub pos: int,
    pub payload: Seq<u8>,
    pub shift: int,
}

/// The deferred-pointer view of a recorded offset table.
pub(crate) open spec fn pends_of(s: Seq<OffsetDatum>) -> Seq<Pend> {
    s.map_values(|od: OffsetDatum| od@)
}

/// Relocating a deferred pointer spliced from an array item: its position
/// moves past `base` bytes, and its shift grows past the length word.
pub open spec fn reloc(base: int, p: Pend) -> Pend {
    Pend { pos: p.pos + base, payload: p.payload, shift: p.shift + 32 }
}

/// The relocation of a whole pending table.
pub open spec fn reloc_all(base: int, s: Seq<Pend>) -> Seq<Pend> {
    s.map_values(|p: Pend| reloc(base, p))
}

/// The mathematical state of a writer.
pub ghost struct WState {
    pub data: Seq<u8>,
    pub pending: Seq<Pend>,
    pub selector: Option<u32>,
}

/// Every placeholder word lies inside the head data, and no shift reaches
/// back past the end of its own placeholder.
pub open spec fn pends_wf(data: Seq<u8>, pending: Seq<Pend>) -> bool {
    forall|i: int|
        0 <= i < pending.len() ==> {
            &&& (#[trigger] pending[i]).pos >= 0
            &&& pending[i].pos + 32 <= data.len()
            &&& 0 <= pending[i].shift <= pending[i].pos + 32
        }
}

pub open spec fn wstate_wf(w: WState) -> bool {
    pends_wf(w.data, w.pending)
}

/// An empty writer without a selector.
pub open spec fn empty_wstate() -> WState {
    WState { data: Seq::empty(), pending: Seq::empty(), selector: None }
}

/// Appending bytes to the head data.
pub open spec fn app(w: WState, bytes: Seq<u8>) -> WState {
    WState { data: w.data + bytes, pending: w.pending, selector: w.selector }
}

/// Writing a deferred pointer: a placeholder word now, the payload later.
pub open spec fn wp(w: WState, payload: Seq<u8>) -> WState {
    WState {
        data: w.data + ff_word(),
        pending: w.pending.push(Pend { pos: w.data.len() as int, payload, shift: 0 }),
        selector: w.selector,
    }
}

/// Splicing a child writer into a parent whose data is an array body: the
/// child's head bytes are appended, and each of its deferred pointers is
/// relocated by the parent's length and shifted past the array length word.
pub open spec fn splice_one(acc: WState, st: WState) -> WState {
    WState {
        data: acc.data + st.data,
        pending: acc.pending + reloc_all(acc.data.len() as int, st.pending),
        selector: acc.selector,
    }
}

/// One resolution step: patch the placeholder with the distance from the
/// start of the data to the payload (corrected by the shift), then append
/// the payload.
pub open spec fn bake_one(data: Seq<u8>, p: Pend) -> Seq<u8> {
    data.subrange(0, p.pos) + word_of((data.len() - p.shift) as nat) + data.subrange(
        p.pos + 32,
        data.len() as int,
    ) + p.payload
}

/// Resolving every deferred pointer, in recorded order.
pub open spec fn bake(data: Seq<u8>, pending: Seq<Pend>) -> Seq<u8>
    decreases pending.len(),
{
    if pending.len() == 0 {
        data
    } else {
        bake(bake_one(data, pending[0]), pending.drop_first())
    }
}

/// The bytes `build` returns: the baked data, behind the four selector bytes
/// when a selector was set.
pub open spec fn build_spec(w: WState) -> Seq<u8> {
    match w.selector {
        Some(sel) => be_bytes(sel as nat, 4) + bake(w.data, w.pending),
        None => bake(w.data, w.pending),
    }
}

/// Removing the first recorded offset removes the first deferred pointer.
proof fn lemma_pends_of_remove0(s: Seq<OffsetDatum>)
    requires
        s.len() > 0,
    ensures
        pends_of(s.remove(0)) == pends_of(s).drop_first(),
{
    let r = s.remove(0);
    assert(r =~= s.subrange(1, s.len() as int));
    assert forall|i: int| 0 <= i < pends_of(r).len() implies #[trigger] pends_of(r)[i] == pends_of(
        s,
    ).drop_first()[i] by {
        assert(r[i] == s[i + 1]);
    }
    assert(pends_of(r) =~= pends_of(s).drop_first());
}

/// Baking only appends: the built data holds the head data's length.
pub proof fn lemma_bake_len(data: Seq<u8>, pending: Seq<Pend>)
    requires
        pends_wf(data, pending),
    ensures
        bake(data, pending).len() >= data.len(),
    decreases pending.len(),
{
    if pending.len() > 0 {
        let p = pending[0];
        lemma_be_bytes_len((data.len() - p.shift) as nat, 8);
        assert(bake_one(data, p).len() == data.len() + p.payload.len());
        assert(pends_wf(bake_one(data, p), pending.drop_first()));
        lemma_bake_len(bake_one(data, p), pending.drop_first());
    }
}

/// Append the bytes of a slice to a vector.
pub(crate) fn push_all(dst: &mut Vec<u8>, src: &[u8])
    ensures
        final(dst)@ == old(dst)@ + src@,
{
    let mut i: usize = 0;
    while i < src.len()
        invariant
            i <= src@.len(),
            dst@ =~= old(dst)@ + src@.subrange(0, i as int),
        decreases src@.len() - i,
    {
        let b: u8 = *vstd::slice::slice_index_get(src, i);
        dst.push(b);
        proof {
            assert(dst@ =~= old(dst)@ + src@.subrange(0, i + 1));
        }
        i = i + 1;
    }
    proof {
        assert(old(dst)@ + src@.subrange(0, src@.len() as int) =~= old(dst)@ + src@);
    }
}

/// A deferred pointer as recorded by the writer.
#[derive(Clone, Debug)]
pub(crate) struct OffsetDatum {
    // Placeholder location in the container data.
    pub(crate) offset_position: usize,
    // Payload to insert at the end of the container data.
    pub(crate) data: Vec<u8>,
    // Inside an array body, offsets are measured from the item head rather
    // than from the length word; this shift corrects for that.
    pub(crate) offset_shift: usize,
}

impl View for OffsetDatum {
    type V = Pend;

    closed spec fn view(&self) -> Pend {
        Pend {
            pos: self.offset_position as int,
            payload: self.data@,
            shift: self.offset_shift as int,
        }
    }
}

/// Helps to build an EVM input or output byte buffer.
///
/// Writes chain by value: a typed write returns the writer, and `build`
/// consumes it and returns the final bytes.
#[derive(Clone, Debug)]
pub struct EvmDataWriter {
    pub(crate) data: Vec<u8>,
    pub(crate) offset_data: Vec<OffsetDatum>,
    pub(crate) selector: Option<u32>,
}

impl View for EvmDataWriter {
    type V = WState;

    closed spec fn view(&self) -> WState {
        WState { data: self.data@, pending: pends_of(self.offset_data@), selector: self.selector }
    }
}

impl EvmDataWriter {
    pub open spec fn wf(self) -> bool {
        wstate_wf(self@)
    }

    /// Creates a new empty output builder, without a selector.
    pub fn new() -> (r: Self)
        ensures
            r@ == empty_wstate(),
            r.wf(),
    {
        let r = Self { data: Vec::new(), offset_data: Vec::new(), selector: None };
        proof {
            assert(pends_of(r.offset_data@) =~= empty_wstate().pending);
        }
        r
    }

    /// Creates a new empty output builder whose built bytes will carry the
    /// given selector in front.
    pub fn new_with_selector(selector: u32) -> (r: Self)
        ensures
            r@ == (WState {
                data: Seq::<u8>::empty(),
                pending: Seq::<Pend>::empty(),
                selector: Some(selector),
            }),
            r.wf(),
    {
        let r = Self { data: Vec::new(), offset_data: Vec::new(), selector: Some(selector) };
        proof {
            assert(pends_of(r.offset_data@) =~= Seq::<Pend>::empty());
        }
        r
    }

    /// Append raw bytes to the head data.
    pub(crate) fn append_bytes(&mut self, value: &[u8])
        requires
            old(self).wf(),
        ensures
            final(self).wf(),
            final(self)@ == app(old(self)@, value@),
    {
        push_all(&mut self.data, value);
    }

    /// Write arbitrary bytes, chaining.
    pub(crate) fn write_raw_bytes(self, value: &[u8]) -> (r: Self)
        requires
            self.wf(),
        ensures
            r.wf(),
            r@ == app(self@, value@),
    {
        let mut w = self;
        w.append_bytes(value);
        w
    }

    /// Writes a pointer to the given payload: a placeholder word now, and
    /// the payload appended when `build` resolves the table.
    pub fn write_pointer(&mut self, data: Vec<u8>)
        requires
            old(self).wf(),
        ensures
            final(self).wf(),
            final(self)@ == wp(old(self)@, data@),
    {
        let offset_position = self.data.len();
        let mut i: usize = 0;
        while i < 32
            invariant
                i <= 32,
                self.data@ =~= old(self)@.data + ff_word().subrange(0, i as int),
                self.offset_data == old(self).offset_data,
                self.selector == old(self).selector,
            decreases 32 - i,
        {
            self.data.push(0xffu8);
            proof {
                assert(self.data@ =~= old(self)@.data + ff_word().subrange(0, i + 1));
            }
            i = i + 1;
        }
        proof {
            assert(self.data@ =~= old(self)@.data + ff_word());
        }
        self.offset_data.push(
            OffsetDatum { offset_position, data, offset_shift: 0 },
        );
        proof {
            assert(pends_of(self.offset_data@) =~= wp(old(self)@, data@).pending);
        }
    }

    /// Splice a child writer into this one, whose data is an array body:
    /// append the child's head bytes and relocate its deferred pointers.
    pub(crate) fn splice_child(&mut self, child: EvmDataWriter)
        requires
            old(self).wf(),
            child.wf(),
            old(self)@.data.len() >= 32,
        ensures
            final(self).wf(),
            final(self)@ == splice_one(old(self)@, child@),
    {
        let EvmDataWriter { data: child_data, offset_data: mut child_pends, selector: _ } = child;
        let shift = self.data.len();
        push_all(&mut self.data, child_data.as_slice());
        let ghost all_pends = pends_of(child_pends@);
        let total: usize = self.data.len();
        let child_count: usize = child_pends.len();
        let mut j: usize = 0;
        proof {
            assert(self@.pending =~= old(self)@.pending + reloc_all(
                shift as int,
                all_pends.subrange(0, 0),
            ));
        }
        while child_pends.len() > 0
            invariant
                self@.data == old(self)@.data + child@.data,
                self@.selector == old(self)@.selector,
                shift as int == old(self)@.data.len(),
                shift >= 32,
                shift + child@.data.len() == self@.data.len(),
                total as int == self@.data.len(),
                wstate_wf(child@),
                all_pends == child@.pending,
                j <= all_pends.len(),
                j as int + child_pends@.len() == child_count as int,
                pends_of(child_pends@) =~= all_pends.subrange(j as int, all_pends.len() as int),
                self@.pending =~= old(self)@.pending + reloc_all(
                    shift as int,
                    all_pends.subrange(0, j as int),
                ),
                wstate_wf(self@),
            decreases child_pends@.len(),
        {
            let ghost pre_child = child_pends@;
            proof {
                assert(pends_of(pre_child).len() == pre_child.len());
                assert(pends_of(pre_child).len() == all_pends.len() - j);
                assert(j < all_pends.len());
                assert(pends_of(pre_child)[0] == all_pends.subrange(
                    j as int,
                    all_pends.len() as int,
                )[0]);
                assert(pends_of(pre_child)[0] == all_pends[j as int]);
                assert(pends_of(pre_child)[0] == pre_child[0]@);
            }
            let mut od = child_pends.remove(0);
            proof {
                lemma_pends_of_remove0(pre_child);
                assert(pends_of(child_pends@) == pends_of(pre_child).drop_first());
                assert(pends_of(child_pends@) =~= all_pends.subrange(j + 1, all_pends.len() as int));
                assert(od@ == all_pends[j as int]);
                assert(all_pends[j as int].pos + 32 <= child@.data.len());
                assert(all_pends[j as int].shift <= all_pends[j as int].pos + 32);
            }
            od.offset_position = od.offset_position + shift;
            od.offset_shift = od.offset_shift + 32;
            proof {
                assert(od@ == reloc(shift as int, all_pends[j as int]));
            }
            let ghost pre_table = self.offset_data@;
            self.offset_data.push(od);
            proof {
                assert(pends_of(self.offset_data@) =~= pends_of(pre_table).push(od@));
                assert(reloc_all(shift as int, all_pends.subrange(0, j + 1)) =~= reloc_all(
                    shift as int,
                    all_pends.subrange(0, j as int),
                ).push(reloc(shift as int, all_pends[j as int])));
                assert(pends_of(self.offset_data@) =~= old(self)@.pending + reloc_all(
                    shift as int,
                    all_pends.subrange(0, j + 1),
                ));
            }
            j = j + 1;
        }
        proof {
            assert(all_pends.subrange(0, all_pends.len() as int) =~= all_pends);
            assert(self@.pending =~= splice_one(old(self)@, child@).pending);
        }
    }

    /// Return the built data, with every deferred pointer resolved and the
    /// selector, if any, in front.
    pub fn build(self) -> (r: Vec<u8>)
        requires
            self.wf(),
        ensures
            r@ == build_spec(self@),
    {
        let EvmDataWriter { data, offset_data, selector } = self;
        let mut data = data;
        let mut offset_data = offset_data;
        while offset_data.len() > 0
            invariant
                pends_wf(data@, pends_of(offset_data@)),
                bake(data@, pends_of(offset_data@)) == bake(self@.data, self@.pending),
            decreases offset_data@.len(),
        {
            let ghost pre_pends = pends_of(offset_data@);
            let ghost pre_data = data@;
            let ghost pre_table = offset_data@;
            proof {
                assert(pends_of(pre_table)[0] == pre_table[0]@);
            }
            let od = offset_data.remove(0);
            proof {
                lemma_pends_of_remove0(pre_table);
                assert(pends_of(offset_data@) == pre_pends.drop_first());
                assert(od@ == pre_pends[0]);
            }
            let free: usize = data.len() - od.offset_shift;
            let mut word = zeros_exec(24);
            let tail = be_bytes_exec(free as u128, 8);
            push_all(&mut word, tail.as_slice());
            proof {
                assert(word@ =~= word_of(free as nat));
                lemma_be_bytes_len(free as nat, 8);
            }
            let pos = od.offset_position;
            let mut i: usize = 0;
            while i < 32
                invariant
                    i <= 32,
                    word@ == word_of(free as nat),
                    word@.len() == 32,
                    pos + 32 <= data@.len(),
                    data@.len() <= usize::MAX,
                    data@.len() == pre_data.len(),
                    data@ =~= pre_data.subrange(0, pos as int) + word@.subrange(0, i as int)
                        + pre_data.subrange(pos + i, pre_data.len() as int),
                decreases 32 - i,
            {
                let b: u8 = word[i];
                data[pos + i] = b;
                proof {
                    assert(data@ =~= pre_data.subrange(0, pos as int) + word@.subrange(0, i + 1)
                        + pre_data.subrange(pos + i + 1, pre_data.len() as int));
                }
                i = i + 1;
            }
            push_all(&mut data, od.data.as_slice());
            proof {
                assert(data@ =~= bake_one(pre_data, pre_pends[0]));
                assert(bake(pre_data, pre_pends) == bake(data@, pre_pends.drop_first()));
                assert(pends_wf(data@, pre_pends.drop_first()));
            }
        }
        proof {
            assert(bake(data@, pends_of(offset_data@)) == data@);
        }
        match selector {
            Some(sel) => {
                let mut out = be_bytes_exec(sel as u128, 4);
                push_all(&mut out, data.as_slice());
                out
            },
            None => data,
        }
    }
}

impl Default for EvmDataWriter {
    /// An empty writer without a selector.
    fn default() -> (r: Self)
        ensures
            r@ == empty_wstate(),
            r.wf(),
    {
        Self::new()
    }
}

} // verus!
