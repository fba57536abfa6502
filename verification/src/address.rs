use anchor_lang::prelude::Pubkey;
use vstd::prelude::*;

verus! {

/// The identity of a ledger account: 32 bytes. Two addresses are equal
/// where all their bytes are.
#[derive(Clone, Copy, Debug, Eq)]
pub struct Address {
    pub bytes: [u8; 32],
}

impl PartialEq for Address {
    fn eq(&self, other: &Address) -> (r: bool) {
        let mut i: usize = 0;
        while i < 32
            invariant
                i <= 32,
                forall|j: int| 0 <= j < i ==> self.bytes[j] == other.bytes[j],
            decreases 32 - i,
        {
            if self.bytes[i] != other.bytes[i] {
                return false;
            }
            i = i + 1;
        }
        assert(self.bytes =~= other.bytes);
        true
    }
}

impl vstd::std_specs::cmp::PartialEqSpecImpl for Address {
    open spec fn obeys_eq_spec() -> bool {
        true
    }

    open spec fn eq_spec(&self, other: &Address) -> bool {
        *self == *other
    }
}

/// What `Pubkey::try_find_program_address` yields for a program and the two
/// seeds `namespace` and `prefix`, in that order: a program-derived address
/// with its bump seed, or `None`. Nothing is said here of which address
/// that is.
pub uninterp spec fn program_address(program_id: Address, namespace: Seq<u8>, prefix: Seq<u8>) -> Option<(Address, u8)>;

/// Trusted, not proved. Calls `Pubkey::try_find_program_address` of
/// `anchor_lang` with the seeds `[namespace, prefix]` for the given program.
/// The contract claims one thing: that what comes back depends on the
/// program and the two seeds alone, so that it is `program_address` of
/// them. The derivation hashes the seeds, a bump seed, the program and a
/// fixed marker, and tries the bump seeds from 255 down; it reads nothing
/// else and does not panic.
#[verifier::external_body]
pub(crate) fn find_program_address(
    program_id: &Address,
    namespace: &[u8],
    prefix: &[u8],
) -> (found: Option<(Address, u8)>)
    ensures
        found == program_address(*program_id, namespace@, prefix@),
{
    let program = Pubkey::new_from_array(program_id.bytes);
    match Pubkey::try_find_program_address(&[namespace, prefix], &program) {
        Some((key, bump)) => Some((Address { bytes: key.to_bytes() }, bump)),
        None => None,
    }
}

} // verus!
