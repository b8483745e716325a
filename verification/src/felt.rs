//! Field elements and the identifiers built from them.

use crate::big_endian::{
    be_value, lemma_be_value_first, lemma_be_value_injective, lemma_be_value_skip_zeros,
    lemma_be_value_zeros, lemma_pow256_monotonic, lemma_pow256_positive, pow256,
};
use crate::cell_map::CellKey;
use vstd::prelude::*;

verus! {

/// Why a number cannot be converted.
#[derive(Clone, Copy, PartialEq, Eq, Structural, Debug)]
pub enum FeltError {
    /// The number is negative.
    Negative,
    /// The number is too large for the type it is converted to.
    OutOfRange,
}

/// The least number that is too large for a field element: 2 to the power
/// 252.
pub open spec fn felt_bound() -> nat {
    16 * pow256(31)
}

/// 32 bytes spell a number below `felt_bound()` exactly when the top four
/// bits of the first byte are zero.
pub proof fn lemma_felt_range(bytes: Seq<u8>)
    requires
        bytes.len() == 32,
    ensures
        bytes[0] < 0x10 <==> be_value(bytes) < felt_bound(),
{
    lemma_be_value_first(bytes);
    let scale = pow256(31);
    let first = bytes[0] as nat;
    lemma_pow256_positive(31);
    if first < 0x10 {
        assert(first * scale <= 15 * scale) by (nonlinear_arith)
            requires
                first <= 15,
                scale > 0,
        ;
    } else {
        assert(first * scale >= 16 * scale) by (nonlinear_arith)
            requires
                first >= 16,
                scale > 0,
        ;
    }
}

/// The bytes of the field element zero.
pub open spec fn zero_bytes() -> Seq<u8> {
    Seq::new(32, |i: int| 0u8)
}

/// A field element, held as 32 big-endian bytes whose top four bits are
/// zero. The element zero stands for a cell that was never assigned.
#[derive(Clone, Copy, PartialEq, Eq, Hash, Debug)]
pub struct StarkFelt {
    bytes: [u8; 32],
}

impl View for StarkFelt {
    type V = Seq<u8>;

    closed spec fn view(&self) -> Seq<u8> {
        self.bytes@
    }
}

impl StarkFelt {
    #[verifier::type_invariant]
    spec fn top_nibble_clear(self) -> bool {
        self.bytes[0] < 0x10
    }

    /// The number that the element stands for.
    pub open spec fn value(self) -> nat {
        be_value(self@)
    }

    /// The field element zero.
    pub closed spec fn zero() -> StarkFelt {
        StarkFelt { bytes: vstd::array::spec_array_fill_for_copy_type(0u8) }
    }

    /// Two field elements with the same bytes are the same element.
    pub proof fn lemma_view_injective(self, other: StarkFelt)
        requires
            self@ == other@,
        ensures
            self == other,
    {
        assert(self.bytes =~= other.bytes);
    }

    /// Two field elements that stand for the same number are the same
    /// element.
    pub proof fn lemma_value_injective(self, other: StarkFelt)
        requires
            self.value() == other.value(),
        ensures
            self == other,
    {
        lemma_be_value_injective(self@, other@);
        self.lemma_view_injective(other);
    }

    /// The element zero has 32 zero bytes and stands for the number zero.
    pub proof fn lemma_zero_view()
        ensures
            StarkFelt::zero()@ == zero_bytes(),
            StarkFelt::zero().value() == 0,
    {
        assert(StarkFelt::zero()@ =~= zero_bytes());
        lemma_be_value_zeros(zero_bytes());
    }

    /// The field element with the given big-endian bytes. Bytes whose top
    /// four bits are not all zero are rejected.
    pub fn new(bytes: [u8; 32]) -> (made: Result<StarkFelt, FeltError>)
        ensures
            bytes[0] < 0x10 ==> made is Ok && made->Ok_0@ == bytes@,
            bytes[0] >= 0x10 ==> made == Err::<StarkFelt, FeltError>(FeltError::OutOfRange),
            bytes[0] < 0x10 <==> be_value(bytes@) < felt_bound(),
    {
        proof {
            lemma_felt_range(bytes@);
        }
        if bytes[0] < 0x10 {
            Ok(StarkFelt { bytes })
        } else {
            Err(FeltError::OutOfRange)
        }
    }

    /// The field element that stands for the number that `bytes` spell, most
    /// significant byte first. The bytes may be fewer or more than 32; a
    /// number that does not fit in 252 bits is rejected.
    pub fn from_be_bytes(bytes: &[u8]) -> (made: Result<StarkFelt, FeltError>)
        ensures
            be_value(bytes@) < felt_bound() ==> made is Ok && made->Ok_0.value() == be_value(
                bytes@,
            ),
            be_value(bytes@) >= felt_bound() ==> made == Err::<StarkFelt, FeltError>(
                FeltError::OutOfRange,
            ),
    {
        let length = bytes.len();
        let mut zeros: usize = 0;
        while zeros < length && bytes[zeros] == 0
            invariant
                zeros <= length,
                length == bytes@.len(),
                forall|i: int| 0 <= i < zeros ==> bytes@[i] == 0,
            decreases length - zeros,
        {
            zeros = zeros + 1;
        }
        let ghost significant = bytes@.subrange(zeros as int, length as int);
        proof {
            lemma_be_value_skip_zeros(bytes@, zeros as int);
        }
        let digits = length - zeros;
        if digits > 32 {
            proof {
                lemma_be_value_first(significant);
                lemma_pow256_monotonic(32, (digits - 1) as nat);
                lemma_pow256_positive((digits - 1) as nat);
                let scale = pow256((digits - 1) as nat);
                let first = significant[0] as nat;
                assert(first * scale >= scale) by (nonlinear_arith)
                    requires
                        first >= 1,
                        scale > 0,
                ;
            }
            return Err(FeltError::OutOfRange);
        }
        let offset = 32 - digits;
        let mut padded = [0u8; 32];
        let mut i: usize = 0;
        while i < digits
            invariant
                i <= digits,
                digits == length - zeros,
                offset == 32 - digits,
                length == bytes@.len(),
                forall|j: int| 0 <= j < offset ==> padded@[j] == 0,
                forall|j: int|
                    offset <= j < offset + i ==> #[trigger] padded@[j] == bytes@[j - offset + zeros],
            decreases digits - i,
        {
            padded[offset + i] = bytes[zeros + i];
            i = i + 1;
        }
        proof {
            assert(padded@.subrange(offset as int, 32) =~= significant);
            lemma_be_value_skip_zeros(padded@, offset as int);
        }
        StarkFelt::new(padded)
    }

    /// The big-endian bytes of the element.
    pub fn bytes(&self) -> (bytes: &[u8; 32])
        ensures
            bytes@ == self@,
            bytes@.len() == 32,
            bytes[0] < 0x10,
            be_value(bytes@) < felt_bound(),
    {
        proof {
            use_type_invariant(self);
            lemma_felt_range(self@);
        }
        &self.bytes
    }

    /// Whether two field elements are the same.
    pub fn same(&self, other: &StarkFelt) -> (same: bool)
        ensures
            same == (*self == *other),
    {
        let mut i: usize = 0;
        while i < 32
            invariant
                i <= 32,
                forall|j: int| 0 <= j < i ==> self.bytes[j] == other.bytes[j],
            decreases 32 - i,
        {
            if self.bytes[i] != other.bytes[i] {
                return false;
            }
            i = i + 1;
        }
        assert(self.bytes =~= other.bytes);
        true
    }
}

impl Default for StarkFelt {
    /// The element zero.
    fn default() -> (felt: Self)
        ensures
            felt == StarkFelt::zero(),
    {
        let felt = StarkFelt { bytes: [0u8; 32] };
        proof {
            StarkFelt::lemma_zero_view();
            assert(felt@ =~= zero_bytes());
            felt.lemma_view_injective(StarkFelt::zero());
        }
        felt
    }
}

/// The address of a deployed contract instance.
#[derive(Clone, Copy, PartialEq, Eq, Hash, Debug)]
pub struct ContractAddress(pub StarkFelt);

/// The key of a storage cell within one contract.
#[derive(Clone, Copy, PartialEq, Eq, Hash, Debug)]
pub struct StorageKey(pub StarkFelt);

/// The replay counter of a contract.
#[derive(Clone, Copy, PartialEq, Eq, Hash, Debug)]
pub struct Nonce(pub StarkFelt);

/// The identity of the code deployed at a contract.
#[derive(Clone, Copy, PartialEq, Eq, Hash, Debug)]
pub struct ClassHash(pub StarkFelt);

/// The key of a storage cell: the contract and the key within it.
#[derive(Clone, Copy, PartialEq, Eq, Hash, Debug)]
pub struct ContractStorageKey(pub ContractAddress, pub StorageKey);

impl Default for ContractAddress {
    fn default() -> (address: Self)
        ensures
            address == ContractAddress(StarkFelt::zero()),
    {
        ContractAddress(StarkFelt::default())
    }
}

impl Default for StorageKey {
    fn default() -> (key: Self)
        ensures
            key == StorageKey(StarkFelt::zero()),
    {
        StorageKey(StarkFelt::default())
    }
}

impl Default for Nonce {
    /// The nonce of a contract that never sent a transaction.
    fn default() -> (nonce: Self)
        ensures
            nonce == Nonce(StarkFelt::zero()),
    {
        Nonce(StarkFelt::default())
    }
}

impl Default for ClassHash {
    /// The class hash of an address at which nothing is deployed.
    fn default() -> (class_hash: Self)
        ensures
            class_hash == ClassHash(StarkFelt::zero()),
    {
        ClassHash(StarkFelt::default())
    }
}

impl CellKey for ContractAddress {
    fn same_cell(&self, other: &Self) -> (same: bool) {
        self.0.same(&other.0)
    }
}

impl CellKey for ContractStorageKey {
    fn same_cell(&self, other: &Self) -> (same: bool) {
        self.0.0.same(&other.0.0) && self.1.0.same(&other.1.0)
    }
}

} // verus!
