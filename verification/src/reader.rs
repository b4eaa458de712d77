//! The input side of the codec: a bounds-checked cursor over a byte slice.

use vstd::prelude::*;

use crate::revert::{EvmResult, Revert};
use crate::words::{be_val, lemma_be_val_bound, lemma_pow256_mono, pow256, word_to_usize, be_val_exec};
use vstd::slice::slice_subrange;

verus! {

/// The mathematical state of a reader: the input bytes and the cursor.
pub ghost struct RState {
    pub input: Seq<u8>,
    pub cursor: int,
}

impl RState {
    /// The cursor never leaves the input.
    pub open spec fn wf(self) -> bool {
        0 <= self.cursor <= self.input.len()
    }

    pub open spec fn advanced(self, n: int) -> RState {
        RState { input: self.input, cursor: self.cursor + n }
    }
}

/// Taking `len` bytes at the cursor: the bytes and the advanced state, or an
/// error leaving the state unchanged. Cursor arithmetic that would overflow a
/// machine word reverts; a read past the end reverts with `oob`.
pub open spec fn take_spec(r: RState, len: int, oob: Revert) -> (Result<Seq<u8>, Revert>, RState) {
    if r.cursor + len > usize::MAX {
        (Err(Revert::CursorOverflow), r)
    } else if r.cursor + len > r.input.len() {
        (Err(oob), r)
    } else {
        (Ok(r.input.subrange(r.cursor, r.cursor + len)), r.advanced(len))
    }
}

/// Following a pointer word: the new reader state rebased at the offset, or
/// an error. The offset is measured from the start of the current input.
pub open spec fn read_pointer_spec(r: RState) -> (Result<RState, Revert>, RState) {
    let (w, r1) = take_spec(r, 32, Revert::ArrayOffsetOutOfBounds);
    match w {
        Err(_) => (Err(Revert::ArrayOffsetOutOfBounds), r1),
        Ok(word) => {
            let off = be_val(word);
            if off > usize::MAX {
                (Err(Revert::ArrayOffsetTooLarge), r1)
            } else if off >= r.input.len() {
                (Err(Revert::PointerOutOfBounds), r1)
            } else {
                (
                    Ok(RState { input: r.input.subrange(off as int, r.input.len() as int), cursor: 0 }),
                    r1,
                )
            }
        },
    }
}

/// A user enumeration of function selectors, decoded from the selector's
/// 32-bit value. Implementors state which values they recognize.
pub trait SelectorCodec: Sized {
    /// The selectors this enumeration recognizes.
    spec fn from_u32_spec(v: u32) -> Option<Self>;

    /// Decode a selector value.
    fn try_from_u32(v: u32) -> (r: Option<Self>)
        ensures
            r == Self::from_u32_spec(v),
    ;
}

/// The identity enumeration: every selector value is recognized.
impl SelectorCodec for u32 {
    open spec fn from_u32_spec(v: u32) -> Option<u32> {
        Some(v)
    }

    fn try_from_u32(v: u32) -> (r: Option<u32>) {
        Some(v)
    }
}

/// A narrow enumeration: only selector values that fit one byte.
impl SelectorCodec for u8 {
    open spec fn from_u32_spec(v: u32) -> Option<u8> {
        if v <= 0xff {
            Some(v as u8)
        } else {
            None
        }
    }

    fn try_from_u32(v: u32) -> (r: Option<u8>) {
        if v <= 0xff {
            Some(v as u8)
        } else {
            None
        }
    }
}

/// Wrapper around an EVM input slice, helping to parse it.
#[derive(Clone, Copy, Debug)]
pub struct EvmDataReader<'a> {
    pub(crate) input: &'a [u8],
    pub(crate) cursor: usize,
}

impl<'a> View for EvmDataReader<'a> {
    type V = RState;

    closed spec fn view(&self) -> RState {
        RState { input: self.input@, cursor: self.cursor as int }
    }
}

impl<'a> EvmDataReader<'a> {
    pub open spec fn wf(self) -> bool {
        self@.wf()
    }

    /// Create a new input parser at cursor zero.
    pub fn new(input: &'a [u8]) -> (r: Self)
        ensures
            r@ == (RState { input: input@, cursor: 0 }),
            r.wf(),
    {
        Self { input, cursor: 0 }
    }

    /// Decode the four leading selector bytes through the enumeration `T`.
    pub fn read_selector<T: SelectorCodec>(input: &[u8]) -> (r: EvmResult<T>)
        ensures
            input@.len() < 4 ==> r == Err::<T, Revert>(Revert::InputIsTooShort),
            input@.len() >= 4 ==> match T::from_u32_spec(be_val(input@.subrange(0, 4)) as u32) {
                Some(t) => r == Ok::<T, Revert>(t),
                None => r == Err::<T, Revert>(Revert::UnknownSelector),
            },
    {
        if input.len() < 4 {
            return Err(Revert::InputIsTooShort);
        }
        let sel = be_val_exec(slice_subrange(input, 0, 4));
        proof {
            lemma_be_val_bound(input@.subrange(0, 4));
            assert(pow256(4) == 0x100000000) by {
                reveal_with_fuel(pow256, 5);
            }
        }
        match T::try_from_u32(sel as u32) {
            Some(t) => Ok(t),
            None => Err(Revert::UnknownSelector),
        }
    }

    /// Create a new input parser from a selector-initial input, starting at
    /// byte four.
    pub fn new_skip_selector(input: &'a [u8]) -> (r: EvmResult<Self>)
        ensures
            match r {
                Ok(rd) => input@.len() >= 4 && rd@ == (RState {
                    input: input@.subrange(4, input@.len() as int),
                    cursor: 0,
                }) && rd.wf(),
                Err(e) => input@.len() < 4 && e == Revert::InputIsTooShort,
            },
    {
        if input.len() < 4 {
            return Err(Revert::InputIsTooShort);
        }
        Ok(Self::new(slice_subrange(input, 4, input.len())))
    }

    /// Check that at least `args` 32-byte argument words remain before the
    /// end of the input.
    pub fn expect_arguments(&self, args: usize) -> (r: EvmResult)
        requires
            self.wf(),
        ensures
            r == if self@.cursor + args * 32 <= self@.input.len() {
                Ok::<(), Revert>(())
            } else {
                Err::<(), Revert>(Revert::ArgumentsLengthMismatch)
            },
    {
        let avail: usize = self.input.len() - self.cursor;
        proof {
            assert((args as int) <= avail as int / 32 <==> (args as int) * 32 <= avail as int)
                by (nonlinear_arith)
                requires
                    avail >= 0,
            ;
        }
        if args <= avail / 32 {
            Ok(())
        } else {
            Err(Revert::ArgumentsLengthMismatch)
        }
    }

    /// Move the cursor over `len` bytes and return them; on failure the
    /// cursor does not move and the read reverts with `oob` (or with the
    /// cursor-overflow revert).
    pub(crate) fn move_cursor(&mut self, len: usize, oob: Revert) -> (r: EvmResult<&'a [u8]>)
        requires
            old(self).wf(),
        ensures
            final(self).wf(),
            ({
                let (res, m) = take_spec(old(self)@, len as int, oob);
                final(self)@ == m && match (r, res) {
                    (Ok(s), Ok(bs)) => s@ == bs,
                    (Err(e), Err(e2)) => e == e2,
                    _ => false,
                }
            }),
    {
        if len > usize::MAX - self.cursor {
            Err(Revert::CursorOverflow)
        } else if len > self.input.len() - self.cursor {
            Err(oob)
        } else {
            let s = slice_subrange(self.input, self.cursor, self.cursor + len);
            self.cursor = self.cursor + len;
            Ok(s)
        }
    }

    /// Read `len` raw bytes from the input, without alignment handling.
    pub fn read_raw_bytes(&mut self, len: usize) -> (r: EvmResult<&'a [u8]>)
        requires
            old(self).wf(),
        ensures
            final(self).wf(),
            ({
                let (res, m) = take_spec(old(self)@, len as int, Revert::RawBytesOutOfBounds);
                final(self)@ == m && match (r, res) {
                    (Ok(s), Ok(bs)) => s@ == bs,
                    (Err(e), Err(e2)) => e == e2,
                    _ => false,
                }
            }),
    {
        self.move_cursor(len, Revert::RawBytesOutOfBounds)
    }

    /// Read the remaining bytes, leaving the cursor at the end.
    pub fn read_till_end(&mut self) -> (r: EvmResult<&'a [u8]>)
        requires
            old(self).wf(),
        ensures
            final(self).wf(),
            final(self)@.input == old(self)@.input,
            final(self)@.cursor == final(self)@.input.len(),
            match r {
                Ok(s) => s@ == old(self)@.input.subrange(
                    old(self)@.cursor,
                    old(self)@.input.len() as int,
                ),
                Err(_) => false,
            },
    {
        let len: usize = self.input.len() - self.cursor;
        self.move_cursor(len, Revert::RawBytesOutOfBounds)
    }

    /// A reader over this reader's input from byte `k` on, at cursor zero.
    pub(crate) fn tail_from(&self, k: usize) -> (r: EvmDataReader<'a>)
        requires
            k as int <= self@.input.len(),
        ensures
            r@ == (RState {
                input: self@.input.subrange(k as int, self@.input.len() as int),
                cursor: 0,
            }),
            r.wf(),
    {
        EvmDataReader { input: slice_subrange(self.input, k, self.input.len()), cursor: 0 }
    }

    /// Read a pointer word and return a reader over the pointed-to suffix of
    /// the current input.
    pub fn read_pointer(&mut self) -> (r: EvmResult<Self>)
        requires
            old(self).wf(),
        ensures
            final(self).wf(),
            ({
                let (res, m) = read_pointer_spec(old(self)@);
                final(self)@ == m && match (r, res) {
                    (Ok(rd), Ok(st)) => rd@ == st && rd.wf(),
                    (Err(e), Err(e2)) => e == e2,
                    _ => false,
                }
            }),
    {
        let w = match self.move_cursor(32, Revert::ArrayOffsetOutOfBounds) {
            Ok(w) => w,
            Err(_) => {
                return Err(Revert::ArrayOffsetOutOfBounds);
            },
        };
        let off = match word_to_usize(w) {
            Some(o) => o,
            None => {
                return Err(Revert::ArrayOffsetTooLarge);
            },
        };
        if off >= self.input.len() {
            return Err(Revert::PointerOutOfBounds);
        }
        Ok(EvmDataReader { input: slice_subrange(self.input, off, self.input.len()), cursor: 0 })
    }
}

} // verus!
