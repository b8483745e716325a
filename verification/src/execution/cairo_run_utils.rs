//! Configuration of a Cairo run, conversions between field elements and the
//! numbers of the Cairo runner, and the reading of what a run returned.
//!
//! Numbers of any size are `num_bigint::BigInt`s. Verus does not look into
//! that crate: the four functions here that are marked `external_body` call
//! it, and what they say of its results is taken on trust.

use crate::big_endian::{be_value, lemma_be_value_bound, lemma_pow256_monotonic, pow256};
use crate::felt::{felt_bound, FeltError, StarkFelt};
use num_bigint::{BigInt, Sign};
use num_traits::Signed;
use vstd::prelude::*;
use vstd::std_specs::convert::FromSpecImpl;

verus! {

/// `num_bigint::BigInt`, an integer of any size. Nothing inside it is
/// visible here.
#[verifier::external_type_specification]
#[verifier::external_body]
pub struct ExBigInt(num_bigint::BigInt);

/// The integer that a `BigInt` holds. Nothing is proved of it: each of the
/// four functions below says, of one function of `num_bigint`, how its result
/// depends on this integer.
pub uninterp spec fn bigint_value(bigint: BigInt) -> int;

/// The magnitude of an integer.
pub open spec fn magnitude(number: int) -> nat {
    if number < 0 {
        (-number) as nat
    } else {
        number as nat
    }
}

/// The fewest bits that express `number`: none for zero.
pub open spec fn bit_length(number: nat) -> nat
    decreases number,
{
    if number == 0 {
        0
    } else {
        1 + bit_length(number / 2)
    }
}

/// `BigInt::from_bytes_be` with the sign `Sign::Plus`. Not proved: the result
/// holds the number that the bytes spell, most significant byte first.
#[verifier::external_body]
fn bigint_from_bytes_be(bytes: &[u8]) -> (bigint: BigInt)
    ensures
        bigint_value(bigint) == be_value(bytes@),
{
    BigInt::from_bytes_be(Sign::Plus, bytes)
}

/// `Signed::is_negative` of a `BigInt`. Not proved: it tells whether the
/// number is below zero.
#[verifier::external_body]
fn bigint_is_negative(bigint: &BigInt) -> (negative: bool)
    ensures
        negative == (bigint_value(*bigint) < 0),
{
    bigint.is_negative()
}

/// `BigInt::bits`. Not proved: it gives the fewest bits that express the
/// magnitude of the number.
#[verifier::external_body]
fn bigint_bits(bigint: &BigInt) -> (bits: u64)
    ensures
        bits == bit_length(magnitude(bigint_value(*bigint))),
{
    bigint.bits()
}

/// The bytes that `BigInt::to_bytes_be` gives beside the sign. Not proved:
/// they spell the magnitude of the number, most significant byte first.
#[verifier::external_body]
fn bigint_magnitude_be(bigint: &BigInt) -> (bytes: Vec<u8>)
    ensures
        be_value(bytes@) == magnitude(bigint_value(*bigint)),
{
    bigint.to_bytes_be().1
}

/// The set of builtins that a Cairo run offers.
#[derive(Debug)]
pub enum Layout {
    All,
}

impl Layout {
    /// The name by which the Cairo runner knows the layout: its variant's
    /// name in lower case.
    pub open spec fn name(self) -> Seq<char> {
        match self {
            Layout::All => "all"@,
        }
    }
}

impl FromSpecImpl<Layout> for String {
    /// Two strings with the same characters need not be the same value, so
    /// the conversion is specified by the characters of its result.
    open spec fn obeys_from_spec() -> bool {
        false
    }

    open spec fn from_spec(layout: Layout) -> String {
        arbitrary()
    }
}

impl From<Layout> for String {
    /// The name by which the Cairo runner knows the layout.
    fn from(layout: Layout) -> (name: String)
        ensures
            name@ == layout.name(),
    {
        match layout {
            Layout::All => "all".to_owned(),
        }
    }
}

/// How a Cairo program is run.
pub struct CairoRunConfig {
    pub enable_trace: bool,
    pub layout: Layout,
    pub proof_mode: bool,
}

impl CairoRunConfig {
    /// A run with every builtin, without trace and not in proof mode.
    pub fn default() -> (config: Self)
        ensures
            config == (CairoRunConfig {
                enable_trace: false,
                layout: Layout::All,
                proof_mode: false,
            }),
    {
        Self { enable_trace: false, layout: Layout::All, proof_mode: false }
    }
}

/// The number of a field element as a `BigInt`.
pub fn felt_to_bigint(felt: StarkFelt) -> (bigint: BigInt)
    ensures
        bigint_value(bigint) == felt.value(),
{
    bigint_from_bytes_be(felt.bytes().as_slice())
}

/// The field element that stands for the number of a `BigInt`. A negative
/// number and one that does not fit in 252 bits are rejected.
pub fn bigint_to_felt(bigint: &BigInt) -> (felt: Result<StarkFelt, FeltError>)
    ensures
        bigint_value(*bigint) < 0 ==> felt == Err::<StarkFelt, FeltError>(FeltError::Negative),
        0 <= bigint_value(*bigint) < felt_bound() ==> felt is Ok && felt->Ok_0.value()
            == bigint_value(*bigint),
        bigint_value(*bigint) >= felt_bound() ==> felt == Err::<StarkFelt, FeltError>(
            FeltError::OutOfRange,
        ),
{
    if bigint_is_negative(bigint) {
        return Err(FeltError::Negative);
    }
    let magnitude = bigint_magnitude_be(bigint);
    StarkFelt::from_be_bytes(magnitude.as_slice())
}

/// The number that the last eight bytes of a field element spell, most
/// significant byte first.
pub open spec fn low_eight_bytes(felt: StarkFelt) -> nat {
    be_value(felt@.subrange(24, 32))
}

/// The number that the last eight bytes of a field element spell; the bytes
/// before them are not looked at. A number that `usize` cannot hold is
/// rejected.
pub fn usize_try_from_starkfelt(felt: &StarkFelt) -> (number: Result<usize, FeltError>)
    ensures
        low_eight_bytes(*felt) <= usize::MAX ==> number == Ok::<usize, FeltError>(
            low_eight_bytes(*felt) as usize,
        ),
        low_eight_bytes(*felt) > usize::MAX ==> number == Err::<usize, FeltError>(
            FeltError::OutOfRange,
        ),
{
    let bytes = felt.bytes();
    let mut number: u64 = 0;
    let mut i: usize = 0;
    while i < 8
        invariant
            i <= 8,
            bytes@.len() == 32,
            number == be_value(bytes@.subrange(24, 24 + i)),
        decreases 8 - i,
    {
        proof {
            let read = bytes@.subrange(24, 24 + i);
            lemma_be_value_bound(read);
            lemma_pow256_monotonic(i as nat, 7);
            assert(pow256(7) == 0x100_0000_0000_0000) by {
                reveal_with_fuel(pow256, 8);
            }
            let next = bytes@.subrange(24, 24 + i + 1);
            assert(next.drop_last() =~= read);
        }
        number = number * 256 + bytes[24 + i] as u64;
        i = i + 1;
    }
    if number <= usize::MAX as u64 {
        Ok(number as usize)
    } else {
        Err(FeltError::OutOfRange)
    }
}

/// An address in the memory of the Cairo VM.
#[derive(Clone, Copy, PartialEq, Eq, Structural, Debug)]
pub struct Relocatable {
    pub segment_index: isize,
    pub offset: usize,
}

/// A value in the memory of the Cairo VM: an address or a number.
#[derive(PartialEq, Eq, Debug)]
pub enum MaybeRelocatable {
    RelocatableValue(Relocatable),
    Int(BigInt),
}

/// Why the data that a run returned cannot be read.
#[derive(Clone, Copy, PartialEq, Eq, Structural, Debug)]
pub enum ReturnDataError {
    /// The memory holds an address where a number was expected.
    ExpectedInteger(Relocatable),
    /// The memory holds nothing in a cell of the returned range.
    NoneInMemoryRange,
    /// The memory holds a number that cannot be converted.
    Conversion(FeltError),
}

/// Whether a memory cell holds a number that is a field element.
pub open spec fn holds_felt(cell: Option<MaybeRelocatable>) -> bool {
    cell matches Some(MaybeRelocatable::Int(number)) && 0 <= bigint_value(number) < felt_bound()
}

/// The number in a memory cell that holds one.
pub open spec fn number_in(cell: Option<MaybeRelocatable>) -> int {
    match cell {
        Some(MaybeRelocatable::Int(number)) => bigint_value(number),
        _ => 0,
    }
}

/// Why a memory cell that holds no field element cannot be read as one.
pub open spec fn unreadable_because(cell: Option<MaybeRelocatable>) -> ReturnDataError {
    match cell {
        None => ReturnDataError::NoneInMemoryRange,
        Some(MaybeRelocatable::RelocatableValue(address)) => ReturnDataError::ExpectedInteger(
            address,
        ),
        Some(MaybeRelocatable::Int(number)) => if bigint_value(number) < 0 {
            ReturnDataError::Conversion(FeltError::Negative)
        } else {
            ReturnDataError::Conversion(FeltError::OutOfRange)
        },
    }
}

/// The number of memory cells that a run returned, read from the first of
/// its two return values: the number of bits that express that value. An
/// address in its place is rejected, and so is a count that `usize` cannot
/// hold.
pub fn return_data_size(size: &MaybeRelocatable) -> (cells: Result<usize, ReturnDataError>)
    ensures
        cells == (match *size {
            MaybeRelocatable::Int(number) => if bit_length(magnitude(bigint_value(number)))
                <= usize::MAX {
                Ok::<usize, ReturnDataError>(
                    bit_length(magnitude(bigint_value(number))) as usize,
                )
            } else {
                Err::<usize, ReturnDataError>(ReturnDataError::Conversion(FeltError::OutOfRange))
            },
            MaybeRelocatable::RelocatableValue(address) => Err::<usize, ReturnDataError>(
                ReturnDataError::ExpectedInteger(address),
            ),
        }),
{
    match size {
        MaybeRelocatable::Int(number) => {
            let bits = bigint_bits(number);
            if bits <= usize::MAX as u64 {
                Ok(bits as usize)
            } else {
                Err(ReturnDataError::Conversion(FeltError::OutOfRange))
            }
        },
        MaybeRelocatable::RelocatableValue(address) => Err(
            ReturnDataError::ExpectedInteger(*address),
        ),
    }
}

/// The field elements that a run returned, read from the memory cells of the
/// returned range. Every cell must hold a number that is a field element;
/// the first cell that does not decides the error.
pub fn extract_execution_return_data(values: &Vec<Option<MaybeRelocatable>>) -> (data: Result<
    Vec<StarkFelt>,
    ReturnDataError,
>)
    ensures
        match data {
            Ok(felts) => {
                &&& felts@.len() == values@.len()
                &&& forall|i: int|
                    0 <= i < values@.len() ==> holds_felt(#[trigger] values@[i])
                        && felts@[i].value() == number_in(values@[i])
            },
            Err(error) => exists|i: int|
                {
                    &&& 0 <= i < values@.len()
                    &&& !holds_felt(#[trigger] values@[i])
                    &&& error == unreadable_because(values@[i])
                    &&& forall|j: int| 0 <= j < i ==> holds_felt(#[trigger] values@[j])
                },
        },
{
    let mut felts: Vec<StarkFelt> = Vec::new();
    let mut i: usize = 0;
    while i < values.len()
        invariant
            i <= values@.len(),
            felts@.len() == i,
            forall|j: int|
                0 <= j < i ==> holds_felt(#[trigger] values@[j]) && felts@[j].value() == number_in(
                    values@[j],
                ),
        decreases values@.len() - i,
    {
        match &values[i] {
            Some(MaybeRelocatable::Int(number)) => {
                match bigint_to_felt(number) {
                    Ok(felt) => felts.push(felt),
                    Err(error) => {
                        assert(!holds_felt(values@[i as int]));
                        return Err(ReturnDataError::Conversion(error));
                    },
                }
            },
            Some(MaybeRelocatable::RelocatableValue(address)) => {
                assert(!holds_felt(values@[i as int]));
                return Err(ReturnDataError::ExpectedInteger(*address));
            },
            None => {
                assert(!holds_felt(values@[i as int]));
                return Err(ReturnDataError::NoneInMemoryRange);
            },
        }
        i = i + 1;
    }
    Ok(felts)
}

} // verus!
