//! The data model: validators, validator sets, commits, headers and light
//! blocks, with the sums and predicates that the contracts speak of.

use vstd::prelude::*;

verus! {

/// A member of a validator set.
#[derive(Clone, Copy, Debug, PartialEq, Eq)]
pub struct Validator {
    /// The validator's 20-byte address.
    pub address: [u8; 20],
    /// The validator's voting power.
    pub power: u64,
}

/// One slot of a commit.
#[derive(Clone, Copy, Debug, PartialEq, Eq)]
pub enum CommitSig {
    /// The validator of this slot did not vote.
    Absent,
    /// The validator voted for the block.
    Commit { validator_address: [u8; 20] },
    /// The validator voted nil.
    Nil { validator_address: [u8; 20] },
}

/// The voting power of the validator with address `addr` in `vals` (of the
/// last such validator, should there be several), or 0 where there is none.
pub open spec fn power_of(vals: Seq<Validator>, addr: Seq<u8>) -> u64
    decreases vals.len(),
{
    if vals.len() == 0 {
        0
    } else if vals.last().address@ == addr {
        vals.last().power
    } else {
        power_of(vals.drop_last(), addr)
    }
}

/// Whether some validator of `vals` has address `addr`.
pub open spec fn has_address(vals: Seq<Validator>, addr: Seq<u8>) -> bool {
    exists|i: int| 0 <= i < vals.len() && (#[trigger] vals[i]).address@ == addr
}

/// The sum of the voting powers of `vals`.
pub open spec fn total_power(vals: Seq<Validator>) -> nat
    decreases vals.len(),
{
    if vals.len() == 0 {
        0
    } else {
        total_power(vals.drop_last()) + vals.last().power as nat
    }
}

/// No two validators of `vals` share an address.
pub open spec fn unique_addresses(vals: Seq<Validator>) -> bool {
    forall|i: int, j: int|
        0 <= i < j < vals.len() ==> (#[trigger] vals[i]).address@ != (#[trigger] vals[j]).address@
}

impl CommitSig {
    /// The address of the validator that filled this slot, if any.
    pub open spec fn signer(self) -> Option<Seq<u8>> {
        match self {
            CommitSig::Absent => None,
            CommitSig::Commit { validator_address } => Some(validator_address@),
            CommitSig::Nil { validator_address } => Some(validator_address@),
        }
    }

    /// The voting power that the slot's signer holds in `vals`; 0 for an
    /// empty slot and for a signer that `vals` does not list.
    pub open spec fn signer_power(self, vals: Seq<Validator>) -> u64 {
        match self.signer() {
            None => 0,
            Some(addr) => power_of(vals, addr),
        }
    }

    /// The address of the validator that filled this slot, if any.
    pub fn validator_address(&self) -> (r: Option<[u8; 20]>)
        ensures
            r.is_some() == self.signer().is_some(),
            r.is_some() ==> r.unwrap()@ == self.signer().unwrap(),
    {
        match self {
            CommitSig::Absent => None,
            CommitSig::Commit { validator_address } => Some(*validator_address),
            CommitSig::Nil { validator_address } => Some(*validator_address),
        }
    }
}

/// Whether two byte arrays of one length hold the same bytes.
pub fn bytes_eq<const N: usize>(a: &[u8; N], b: &[u8; N]) -> (r: bool)
    ensures
        r == (a@ == b@),
{
    let mut i: usize = 0;
    while i < N
        invariant
            i <= N,
            forall|k: int| 0 <= k < i ==> a@[k] == b@[k],
        decreases N - i,
    {
        if a[i] != b[i] {
            return false;
        }
        i += 1;
    }
    assert(a@ =~= b@);
    true
}

/// The voting power of the validator with address `addr` in `vals`
/// (of the last such validator, should there be several); 0 for none.
pub fn lookup_power(vals: &Vec<Validator>, addr: &[u8; 20]) -> (p: u64)
    ensures
        p == power_of(vals@, addr@),
{
    let mut p: u64 = 0;
    let mut i: usize = 0;
    while i < vals.len()
        invariant
            i <= vals.len(),
            p == power_of(vals@.take(i as int), addr@),
        decreases vals.len() - i,
    {
        proof {
            assert(vals@.take(i + 1).drop_last() =~= vals@.take(i as int));
        }
        if bytes_eq(&vals[i].address, addr) {
            p = vals[i].power;
        }
        i += 1;
    }
    proof {
        assert(vals@.take(i as int) =~= vals@);
    }
    p
}

/// Going on from a shorter prefix never lowers the sum.
pub proof fn lemma_prefix_power_bounded(vals: Seq<Validator>, i: int)
    requires
        0 <= i <= vals.len(),
    ensures
        total_power(vals.take(i)) <= total_power(vals),
    decreases vals.len() - i,
{
    if i == vals.len() {
        assert(vals.take(i) =~= vals);
    } else {
        assert(vals.take(i + 1).drop_last() =~= vals.take(i));
        lemma_prefix_power_bounded(vals, i + 1);
    }
}

/// Why a list of validators is no validator set.
#[derive(Clone, Copy, Debug, PartialEq, Eq)]
pub enum ValidatorSetError {
    /// Two entries share an address.
    DuplicateAddress,
    /// The voting powers add up to more than 64 bits hold.
    PowerOverflow,
}

/// A validator set together with its hash.
#[derive(Clone, Debug, PartialEq, Eq)]
pub struct ValidatorSet {
    /// The validators, in the order in which the chain lists them.
    pub validators: Vec<Validator>,
    /// The 32-byte hash that commits to the set.
    pub hash: [u8; 32],
}

/// Whether no two entries of `vals` share an address.
pub fn addresses_are_unique(vals: &Vec<Validator>) -> (r: bool)
    ensures
        r == unique_addresses(vals@),
{
    let n = vals.len();
    let mut j: usize = 0;
    while j < n
        invariant
            j <= n,
            n == vals.len(),
            forall|a: int, b: int|
                0 <= a < b < j ==> (#[trigger] vals@[a]).address@ != (#[trigger] vals@[b]).address@,
        decreases n - j,
    {
        let mut i: usize = 0;
        while i < j
            invariant
                i <= j,
                j < n,
                n == vals.len(),
                forall|a: int| 0 <= a < i ==> (#[trigger] vals@[a]).address@ != vals@[j as int].address@,
            decreases j - i,
        {
            if bytes_eq(&vals[i].address, &vals[j].address) {
                return false;
            }
            i += 1;
        }
        j += 1;
    }
    true
}

/// The sum of the voting powers of `vals`, where 64 bits hold it.
pub fn sum_powers(vals: &Vec<Validator>) -> (r: Option<u64>)
    ensures
        match r {
            Some(t) => t == total_power(vals@),
            None => total_power(vals@) > u64::MAX,
        },
{
    let mut acc: u64 = 0;
    let mut i: usize = 0;
    while i < vals.len()
        invariant
            i <= vals.len(),
            acc == total_power(vals@.take(i as int)),
        decreases vals.len() - i,
    {
        proof {
            assert(vals@.take(i + 1).drop_last() =~= vals@.take(i as int));
            lemma_prefix_power_bounded(vals@, i + 1);
        }
        match acc.checked_add(vals[i].power) {
            Some(next) => {
                acc = next;
            },
            None => {
                return None;
            },
        }
        i += 1;
    }
    proof {
        assert(vals@.take(i as int) =~= vals@);
    }
    Some(acc)
}

impl ValidatorSet {
    /// Addresses are unique and the total voting power fits in 64 bits.
    pub open spec fn wf(&self) -> bool {
        &&& unique_addresses(self.validators@)
        &&& total_power(self.validators@) <= u64::MAX
    }

    /// Makes a validator set of `validators`, unless two of them share an
    /// address or their powers overflow.
    pub fn new(validators: Vec<Validator>, hash: [u8; 32]) -> (r: Result<ValidatorSet, ValidatorSetError>)
        ensures
            match r {
                Ok(s) => s.validators@ == validators@ && s.hash == hash && s.wf(),
                Err(ValidatorSetError::DuplicateAddress) => !unique_addresses(validators@),
                Err(ValidatorSetError::PowerOverflow) => unique_addresses(validators@)
                    && total_power(validators@) > u64::MAX,
            },
    {
        if !addresses_are_unique(&validators) {
            return Err(ValidatorSetError::DuplicateAddress);
        }
        if sum_powers(&validators).is_none() {
            return Err(ValidatorSetError::PowerOverflow);
        }
        Ok(ValidatorSet { validators, hash })
    }

    /// Whether addresses are unique and the total power fits in 64 bits.
    pub fn is_well_formed(&self) -> (r: bool)
        ensures
            r == self.wf(),
    {
        addresses_are_unique(&self.validators) && sum_powers(&self.validators).is_some()
    }

    /// The number of validators.
    pub fn len(&self) -> (n: usize)
        ensures
            n == self.validators@.len(),
    {
        self.validators.len()
    }

    /// The total voting power of the set.
    pub fn total_power(&self) -> (t: u64)
        requires
            self.wf(),
        ensures
            t == total_power(self.validators@),
    {
        match sum_powers(&self.validators) {
            Some(t) => t,
            None => 0,
        }
    }

    /// Whether the set lists a validator with address `addr`.
    pub fn contains_address(&self, addr: &[u8; 20]) -> (r: bool)
        ensures
            r == has_address(self.validators@, addr@),
    {
        let mut i: usize = 0;
        while i < self.validators.len()
            invariant
                i <= self.validators.len(),
                forall|k: int| 0 <= k < i ==> (#[trigger] self.validators@[k]).address@ != addr@,
            decreases self.validators.len() - i,
        {
            if bytes_eq(&self.validators[i].address, addr) {
                return true;
            }
            i += 1;
        }
        false
    }
}

/// The header fields that the operator reads.
#[derive(Clone, Copy, Debug, PartialEq, Eq)]
pub struct Header {
    /// The block height.
    pub height: u64,
    /// The block time, in nanoseconds since the Unix epoch.
    pub time: u64,
    /// The 32-byte digest of the header.
    pub hash: [u8; 32],
    /// The hash of the validator set of this height, as the header
    /// commits to it.
    pub validators_hash: [u8; 32],
    /// The hash of the validator set of the next height, as the header
    /// commits to it.
    pub next_validators_hash: [u8; 32],
}

/// The commit of a block: one slot per validator index.
#[derive(Clone, Debug, PartialEq, Eq)]
pub struct Commit {
    pub signatures: Vec<CommitSig>,
}

/// A header with the commit that signs it.
#[derive(Clone, Debug, PartialEq, Eq)]
pub struct SignedHeader {
    pub header: Header,
    pub commit: Commit,
}

/// A header with the validator sets needed to check it.
#[derive(Clone, Debug, PartialEq, Eq)]
pub struct LightBlock {
    pub signed_header: SignedHeader,
    /// The validator set of the block's height.
    pub validators: ValidatorSet,
    /// The validator set of the next height.
    pub next_validators: ValidatorSet,
    /// The 20-byte identifier of the peer that served the block.
    pub peer_id: [u8; 20],
}

impl LightBlock {
    /// Both validator sets are well formed.
    pub open spec fn wf(&self) -> bool {
        self.validators.wf() && self.next_validators.wf()
    }

    /// The light block made of these parts.
    pub fn new(
        signed_header: SignedHeader,
        validators: ValidatorSet,
        next_validators: ValidatorSet,
        peer_id: [u8; 20],
    ) -> (lb: LightBlock)
        ensures
            lb.signed_header == signed_header,
            lb.validators == validators,
            lb.next_validators == next_validators,
            lb.peer_id == peer_id,
    {
        LightBlock { signed_header, validators, next_validators, peer_id }
    }

    /// The height of the block.
    pub fn height(&self) -> (h: u64)
        ensures
            h == self.signed_header.header.height,
    {
        self.signed_header.header.height
    }

    /// The time of the block, in nanoseconds since the Unix epoch.
    pub fn time(&self) -> (t: u64)
        ensures
            t == self.signed_header.header.time,
    {
        self.signed_header.header.time
    }
}

} // verus!
