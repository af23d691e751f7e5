//! Ledger addresses.

use vstd::prelude::*;

verus! {

/// An address on the ledger: an account by its ed25519 key, or a contract by its hash.
#[derive(Clone, Copy, Debug, Eq)]
pub enum Address {
    Account([u8; 32]),
    Contract([u8; 32]),
}

impl Address {
    /// The 32 bytes of the key or the hash.
    pub open spec fn bytes(self) -> Seq<u8> {
        match self {
            Address::Account(key) => key@,
            Address::Contract(hash) => hash@,
        }
    }

    /// The all-zeros account and the all-zeros contract, which nobody controls.
    pub open spec fn is_zero(self) -> bool {
        forall|i: int| 0 <= i < 32 ==> self.bytes()[i] == 0
    }

    /// How the host serialises the address: the tags of the value, of the kind of address and,
    /// for an account, of the kind of key, each in four bytes; then the 32 bytes.
    pub open spec fn xdr(self) -> Seq<u8> {
        match self {
            Address::Account(key) => account_tags() + key@,
            Address::Contract(hash) => contract_tags() + hash@,
        }
    }
}

/// An address value (18), an account (0), an ed25519 key (0).
pub open spec fn account_tags() -> Seq<u8> {
    seq![0u8, 0, 0, 18, 0, 0, 0, 0, 0, 0, 0, 0]
}

/// An address value (18), a contract (1).
pub open spec fn contract_tags() -> Seq<u8> {
    seq![0u8, 0, 0, 18, 0, 0, 0, 1]
}

/// 32 bytes that are all zero.
pub open spec fn zeros() -> Seq<u8> {
    Seq::new(32, |i: int| 0u8)
}

impl View for Address {
    type V = Address;

    open spec fn view(&self) -> Address {
        *self
    }
}

fn same_bytes(a: &[u8; 32], b: &[u8; 32]) -> (same: bool)
    ensures
        same == (*a == *b),
{
    let mut i: usize = 0;
    while i < 32
        invariant
            i <= 32,
            forall|j: int| 0 <= j < i ==> a[j] == b[j],
        decreases 32 - i,
    {
        if a[i] != b[i] {
            return false;
        }
        i = i + 1;
    }
    assert(*a =~= *b);
    true
}

impl PartialEq for Address {
    fn eq(&self, other: &Self) -> (same: bool) {
        match (self, other) {
            (Address::Account(a), Address::Account(b)) => same_bytes(a, b),
            (Address::Contract(a), Address::Contract(b)) => same_bytes(a, b),
            _ => false,
        }
    }
}

impl vstd::std_specs::cmp::PartialEqSpecImpl for Address {
    open spec fn obeys_eq_spec() -> bool {
        true
    }

    open spec fn eq_spec(&self, other: &Self) -> bool {
        *self == *other
    }
}

/// The strkey of the account whose key is all zeros.
pub const ZERO_ACCOUNT_STRKEY: &'static str =
    "GAAAAAAAAAAAAAAAAAAAAAAAAAAAAAAAAAAAAAAAAAAAAAAAAAAAAWHF";

/// The strkey of the contract whose hash is all zeros.
pub const ZERO_CONTRACT_STRKEY: &'static str =
    "CAAAAAAAAAAAAAAAAAAAAAAAAAAAAAAAAAAAAAAAAAAAAAAAAAAABSC4";

impl Address {
    fn tags(&self) -> (tags: Vec<u8>)
        ensures
            tags@ == (match *self {
                Address::Account(_) => account_tags(),
                Address::Contract(_) => contract_tags(),
            }),
    {
        let tags: Vec<u8> = match self {
            Address::Account(_) => vec![0, 0, 0, 18, 0, 0, 0, 0, 0, 0, 0, 0],
            Address::Contract(_) => vec![0, 0, 0, 18, 0, 0, 0, 1],
        };
        assert(tags@ =~= (match *self {
            Address::Account(_) => account_tags(),
            Address::Contract(_) => contract_tags(),
        }));
        tags
    }

    /// Serialises the address as the host does.
    pub fn to_xdr(&self) -> (xdr: Vec<u8>)
        ensures
            xdr@ == self.xdr(),
    {
        let mut xdr: Vec<u8> = self.tags();
        let ghost tags = xdr@;
        let bytes: &[u8; 32] = match self {
            Address::Account(key) => key,
            Address::Contract(hash) => hash,
        };
        let mut i: usize = 0;
        while i < 32
            invariant
                i <= 32,
                xdr@ == tags + bytes@.take(i as int),
            decreases 32 - i,
        {
            xdr.push(bytes[i]);
            i = i + 1;
            assert(xdr@ =~= tags + bytes@.take(i as int));
        }
        assert(bytes@.take(32) =~= bytes@);
        xdr
    }

    /// The address that the host serialises to these bytes, if there is one.
    pub fn from_xdr(xdr: &Vec<u8>) -> (address: Option<Address>)
        ensures
            match address {
                Some(address) => address.xdr() == xdr@,
                None => forall|address: Address| address.xdr() != xdr@,
            },
    {
        let is_account: bool = xdr.len() == 44;
        let start: usize = if is_account {
            12
        } else {
            8
        };
        let mut bytes: [u8; 32] = [0; 32];
        let mut i: usize = 0;
        while i < 32 && start + i < xdr.len()
            invariant
                i <= 32,
                start <= 12,
                forall|j: int| 0 <= j < i ==> bytes@[j] == xdr@[start + j],
            decreases 32 - i,
        {
            bytes[i] = xdr[start + i];
            i = i + 1;
        }
        let address = if is_account {
            Address::Account(bytes)
        } else {
            Address::Contract(bytes)
        };
        let again: Vec<u8> = address.to_xdr();
        if same_sequence(&again, xdr) {
            Some(address)
        } else {
            assert forall|other: Address| other.xdr() != xdr@ by {
                if other.xdr() == xdr@ {
                    let k = other.bytes();
                    assert(k.len() == 32);
                    assert(i == 32);
                    assert forall|j: int| 0 <= j < 32 implies bytes@[j] == k[j] by {
                        assert(other.xdr()[start + j] == k[j]);
                    }
                    assert(bytes@ =~= k);
                    assert(address.xdr() == xdr@);
                }
            }
            None
        }
    }
}

fn same_sequence(a: &Vec<u8>, b: &Vec<u8>) -> (same: bool)
    ensures
        same == (a@ == b@),
{
    if a.len() != b.len() {
        return false;
    }
    let mut i: usize = 0;
    while i < a.len()
        invariant
            i <= a@.len() == b@.len(),
            forall|j: int| 0 <= j < i ==> a@[j] == b@[j],
        decreases a@.len() - i,
    {
        if a[i] != b[i] {
            assert(a@[i as int] != b@[i as int]);
            return false;
        }
        i = i + 1;
    }
    assert(a@ =~= b@);
    true
}

/// No two addresses serialise alike.
pub proof fn xdr_is_unambiguous(a: Address, b: Address)
    requires
        a.xdr() == b.xdr(),
    ensures
        a == b,
{
    assert(a.xdr()[7] == b.xdr()[7]);
    match (a, b) {
        (Address::Account(x), Address::Account(y)) => {
            assert forall|j: int| 0 <= j < 32 implies x@[j] == y@[j] by {
                assert(a.xdr()[12 + j] == x@[j] && b.xdr()[12 + j] == y@[j]);
            }
            assert(x@ =~= y@);
            assert(x =~= y);
        },
        (Address::Contract(x), Address::Contract(y)) => {
            assert forall|j: int| 0 <= j < 32 implies x@[j] == y@[j] by {
                assert(a.xdr()[8 + j] == x@[j] && b.xdr()[8 + j] == y@[j]);
            }
            assert(x@ =~= y@);
            assert(x =~= y);
        },
        (Address::Account(x), Address::Contract(y)) => {
            assert(a.xdr()[7] == 0 && b.xdr()[7] == 1);
        },
        (Address::Contract(x), Address::Account(y)) => {
            assert(a.xdr()[7] == 1 && b.xdr()[7] == 0);
        },
    }
}

/// Calls `soroban_sdk::Address::from_string`, which decodes a strkey and panics on a text that is
/// none; so only the two texts of the zero addresses are asked for. The address is handed on as
/// `soroban_sdk::xdr::ToXdr` serialises it. The contract claims that the `G...` text decodes to
/// the account, and the `C...` text to the contract, whose 32 bytes are all zeros, and that the
/// serialised value is the tags of an account or a contract followed by these bytes.
#[verifier::external_body]
fn xdr_of_strkey(strkey: &str) -> (xdr: Vec<u8>)
    requires
        strkey@ == ZERO_ACCOUNT_STRKEY@ || strkey@ == ZERO_CONTRACT_STRKEY@,
    ensures
        strkey@ == ZERO_ACCOUNT_STRKEY@ ==> xdr@ == account_tags() + zeros(),
        strkey@ == ZERO_CONTRACT_STRKEY@ ==> xdr@ == contract_tags() + zeros(),
{
    let env = soroban_sdk::Env::default();
    let parsed = soroban_sdk::Address::from_string(&soroban_sdk::String::from_str(&env, strkey));
    soroban_sdk::xdr::ToXdr::to_xdr(parsed, &env).iter().collect()
}

/// Whether the address is the all-zeros account or contract address.
pub fn is_zero(addr: &Address) -> (zero: bool)
    ensures
        zero == addr.is_zero(),
{
    let zero_account: Vec<u8> = xdr_of_strkey(ZERO_ACCOUNT_STRKEY);
    let zero_contract: Vec<u8> = xdr_of_strkey(ZERO_CONTRACT_STRKEY);
    let xdr: Vec<u8> = addr.to_xdr();
    proof {
        if addr.is_zero() {
            assert(addr.bytes() =~= zeros());
        } else {
            let i = choose|i: int| 0 <= i < 32 && addr.bytes()[i] != 0;
            let start: int = if *addr is Account {
                12
            } else {
                8
            };
            assert(xdr@[start + i] == addr.bytes()[i]);
            assert(xdr@.len() == start + 32);
            assert(zeros()[i] == 0);
            if xdr@ == zero_account@ {
                assert(zero_account@.len() == 44);
                assert(zero_account@[12 + i] == zeros()[i]);
            }
            if xdr@ == zero_contract@ {
                assert(zero_contract@.len() == 40);
                assert(zero_contract@[8 + i] == zeros()[i]);
            }
        }
    }
    same_sequence(&xdr, &zero_account) || same_sequence(&xdr, &zero_contract)
}

} // verus!
