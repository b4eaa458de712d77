//! The single failure kind of the codec: a revert carrying a short reason
//! string. Every fallible operation of the crate returns [`EvmResult`].

use vstd::prelude::*;

verus! {

/// A revert, distinguished by its reason.
#[derive(Clone, Copy, Debug, PartialEq, Eq, Structural)]
pub enum Revert {
    /// Selector extraction on an input shorter than four bytes.
    InputIsTooShort,
    /// A selector outside the caller's enumeration.
    UnknownSelector,
    /// `expect_arguments` found fewer words than announced.
    ArgumentsLengthMismatch,
    /// Cursor arithmetic would overflow a machine-word integer.
    CursorOverflow,
    /// A raw byte read past the end of the input.
    RawBytesOutOfBounds,
    /// A 32-byte word read past the end of the input.
    H256OutOfBounds,
    /// An address word read past the end of the input.
    H160OutOfBounds,
    /// An unsigned integer word read past the end of the input.
    U256OutOfBounds,
    U8OutOfBounds,
    U16OutOfBounds,
    U32OutOfBounds,
    U64OutOfBounds,
    U128OutOfBounds,
    /// A boolean word read past the end of the input.
    BoolOutOfBounds,
    /// An offset word read past the end of the input.
    ArrayOffsetOutOfBounds,
    /// An offset word whose value does not fit a machine-word integer.
    ArrayOffsetTooLarge,
    /// An offset at or past the end of the enclosing input.
    PointerOutOfBounds,
    /// An array length word read past the end of the input.
    ArrayLengthOutOfBounds,
    /// An array length that does not fit a machine-word integer.
    ArrayLengthTooLarge,
    /// An array body that starts past the end of the input.
    ArrayItemsOutOfBounds,
    /// A bytes/string length word read past the end of the input.
    BytesLengthOutOfBounds,
    /// A bytes/string length that does not fit a machine-word integer.
    BytesLengthTooLarge,
    /// A bytes/string body read past the end of the input.
    BytesOutOfBounds,
    /// A bounded array length word read past the end of the input.
    BoundedLengthOutOfBounds,
    /// A bounded array longer than its compile-time bound.
    ValueTooLarge,
    /// A bounded array body that starts past the end of the input.
    BoundedItemsOutOfBounds,
}

/// The result type of every fallible operation of the codec.
pub type EvmResult<T = ()> = Result<T, Revert>;

impl Revert {
    /// The reason string of this revert.
    pub open spec fn reason_spec(self) -> Seq<char> {
        match self {
            Revert::InputIsTooShort => "input is too short"@,
            Revert::UnknownSelector => "unknown selector"@,
            Revert::ArgumentsLengthMismatch => "input doesn't match expected length"@,
            Revert::CursorOverflow => "data reading cursor overflow"@,
            Revert::RawBytesOutOfBounds => "tried to parse raw bytes out of bounds"@,
            Revert::H256OutOfBounds => "tried to parse H256 out of bounds"@,
            Revert::H160OutOfBounds => "tried to parse H160 out of bounds"@,
            Revert::U256OutOfBounds => "tried to parse U256 out of bounds"@,
            Revert::U8OutOfBounds => "tried to parse u8 out of bounds"@,
            Revert::U16OutOfBounds => "tried to parse u16 out of bounds"@,
            Revert::U32OutOfBounds => "tried to parse u32 out of bounds"@,
            Revert::U64OutOfBounds => "tried to parse u64 out of bounds"@,
            Revert::U128OutOfBounds => "tried to parse u128 out of bounds"@,
            Revert::BoolOutOfBounds => "tried to parse bool out of bounds"@,
            Revert::ArrayOffsetOutOfBounds => "tried to parse array offset out of bounds"@,
            Revert::ArrayOffsetTooLarge => "array offset is too large"@,
            Revert::PointerOutOfBounds => "pointer points out of bounds"@,
            Revert::ArrayLengthOutOfBounds => "tried to parse array length out of bounds"@,
            Revert::ArrayLengthTooLarge => "array length is too large"@,
            Revert::ArrayItemsOutOfBounds => "try to read array items out of bound"@,
            Revert::BytesLengthOutOfBounds => "tried to parse bytes/string length out of bounds"@,
            Revert::BytesLengthTooLarge => "bytes/string length is too large"@,
            Revert::BytesOutOfBounds => "tried to parse bytes/string out of bounds"@,
            Revert::BoundedLengthOutOfBounds => "out of bounds: length of array"@,
            Revert::ValueTooLarge => "value too large : Array has more than max items allowed"@,
            Revert::BoundedItemsOutOfBounds => "read out of bounds: array content"@,
        }
    }

    /// The reason string of this revert, as the host embeds it in revert data.
    pub fn reason(&self) -> (r: &'static str)
        ensures
            r@ == self.reason_spec(),
    {
        match self {
            Revert::InputIsTooShort => "input is too short",
            Revert::UnknownSelector => "unknown selector",
            Revert::ArgumentsLengthMismatch => "input doesn't match expected length",
            Revert::CursorOverflow => "data reading cursor overflow",
            Revert::RawBytesOutOfBounds => "tried to parse raw bytes out of bounds",
            Revert::H256OutOfBounds => "tried to parse H256 out of bounds",
            Revert::H160OutOfBounds => "tried to parse H160 out of bounds",
            Revert::U256OutOfBounds => "tried to parse U256 out of bounds",
            Revert::U8OutOfBounds => "tried to parse u8 out of bounds",
            Revert::U16OutOfBounds => "tried to parse u16 out of bounds",
            Revert::U32OutOfBounds => "tried to parse u32 out of bounds",
            Revert::U64OutOfBounds => "tried to parse u64 out of bounds",
            Revert::U128OutOfBounds => "tried to parse u128 out of bounds",
            Revert::BoolOutOfBounds => "tried to parse bool out of bounds",
            Revert::ArrayOffsetOutOfBounds => "tried to parse array offset out of bounds",
            Revert::ArrayOffsetTooLarge => "array offset is too large",
            Revert::PointerOutOfBounds => "pointer points out of bounds",
            Revert::ArrayLengthOutOfBounds => "tried to parse array length out of bounds",
            Revert::ArrayLengthTooLarge => "array length is too large",
            Revert::ArrayItemsOutOfBounds => "try to read array items out of bound",
            Revert::BytesLengthOutOfBounds => "tried to parse bytes/string length out of bounds",
            Revert::BytesLengthTooLarge => "bytes/string length is too large",
            Revert::BytesOutOfBounds => "tried to parse bytes/string out of bounds",
            Revert::BoundedLengthOutOfBounds => "out of bounds: length of array",
            Revert::ValueTooLarge => "value too large : Array has more than max items allowed",
            Revert::BoundedItemsOutOfBounds => "read out of bounds: array content",
        }
    }
}

} // verus!
