//! Account identifiers.

use vstd::prelude::*;
use vstd::string::StringSliceAdditionalSpecFns;

verus! {

/// Most bytes an account name can have.
pub const MAX_ACCOUNT_LEN: usize = 64;

/// The name of an account, held in place: the first `len` bytes are the name,
/// the bytes behind it are zero.
///
/// Two identifiers denote the same account exactly when they are equal as
/// values, which [`AccountId::same`] decides.
#[derive(Clone, Copy, Debug, PartialEq, Eq, Hash)]
pub struct AccountId {
    len: u8,
    bytes: [u8; 64],
}

impl AccountId {
    /// The bytes of the account's name.
    pub closed spec fn name(&self) -> Seq<u8> {
        self.bytes@.take(self.len as int)
    }

    #[verifier::type_invariant]
    spec fn held_in_place(&self) -> bool {
        self.canonical()
    }

    /// Holds of every identifier that the program holds: the name has at
    /// most `MAX_ACCOUNT_LEN` bytes, and the bytes behind it are zero.
    pub closed spec fn canonical(&self) -> bool {
        &&& self.len <= MAX_ACCOUNT_LEN
        &&& forall|i: int| self.len <= i < MAX_ACCOUNT_LEN ==> self.bytes[i] == 0
    }

    /// The identifier of the account whose name is `name`.
    pub closed spec fn named(name: Seq<u8>) -> AccountId {
        choose|id: AccountId| id.canonical() && id.name() == name
    }

    /// The identifier of the account called `name`, if the name fits.
    pub fn new(name: &str) -> (id: Option<AccountId>)
        ensures
            id.is_some() == (name.spec_bytes().len() <= MAX_ACCOUNT_LEN),
            id.is_some() ==> id.unwrap() == AccountId::named(name.spec_bytes()),
            id.is_some() ==> id.unwrap().name() == name.spec_bytes() && id.unwrap().canonical(),
    {
        AccountId::from_bytes(name.as_bytes())
    }

    /// The identifier of the account whose name is `name`, if the name fits.
    pub fn from_bytes(name: &[u8]) -> (id: Option<AccountId>)
        ensures
            id.is_some() == (name@.len() <= MAX_ACCOUNT_LEN),
            id.is_some() ==> id.unwrap() == AccountId::named(name@),
            id.is_some() ==> id.unwrap().name() == name@ && id.unwrap().canonical(),
    {
        let n: usize = name.len();
        if n > MAX_ACCOUNT_LEN {
            return None;
        }
        let mut bytes: [u8; 64] = [0u8; 64];
        let mut i: usize = 0;
        while i < n
            invariant
                i <= n,
                n == name@.len(),
                n <= MAX_ACCOUNT_LEN,
                forall|j: int| 0 <= j < i ==> bytes[j] == name@[j],
                forall|j: int| i <= j < MAX_ACCOUNT_LEN ==> bytes[j] == 0,
            decreases n - i,
        {
            bytes[i] = name[i];
            i += 1;
        }
        let id = AccountId { len: n as u8, bytes };
        assert(id.name() =~= name@);
        proof {
            AccountId::lemma_name_decides(id, AccountId::named(name@));
        }
        Some(id)
    }

    /// Number of bytes in the account's name.
    pub fn len(&self) -> (n: usize)
        ensures
            n == self.name().len(),
            n <= MAX_ACCOUNT_LEN,
    {
        proof {
            use_type_invariant(self);
        }
        self.len as usize
    }

    /// The bytes of the account's name.
    pub fn to_bytes(&self) -> (name: Vec<u8>)
        ensures
            name@ == self.name(),
    {
        proof {
            use_type_invariant(self);
        }
        let mut name: Vec<u8> = Vec::new();
        let n: usize = self.len as usize;
        let mut i: usize = 0;
        while i < n
            invariant
                i <= n,
                n == self.len,
                n <= MAX_ACCOUNT_LEN,
                name@ == self.bytes@.take(i as int),
            decreases n - i,
        {
            name.push(self.bytes[i]);
            i += 1;
        }
        name
    }

    /// Whether both identifiers denote one account: whether the names are
    /// the same.
    pub fn same(&self, other: &AccountId) -> (r: bool)
        ensures
            r == (*self == *other),
            r == (self.name() == other.name()),
    {
        proof {
            use_type_invariant(self);
            use_type_invariant(other);
            if self.name() == other.name() {
                AccountId::lemma_name_decides(*self, *other);
            }
        }
        if self.len != other.len {
            return false;
        }
        let mut i: usize = 0;
        while i < 64
            invariant
                i <= 64,
                self.len == other.len,
                self.canonical(),
                other.canonical(),
                forall|j: int| 0 <= j < i ==> self.bytes[j] == other.bytes[j],
            decreases 64 - i,
        {
            if self.bytes[i] != other.bytes[i] {
                assert(self.name()[i as int] != other.name()[i as int]);
                return false;
            }
            i += 1;
        }
        assert(self.bytes =~= other.bytes);
        true
    }

    /// Accounts built from equal names are the same account.
    pub proof fn lemma_name_decides(a: AccountId, b: AccountId)
        requires
            a.canonical(),
            b.canonical(),
            a.name() == b.name(),
        ensures
            a == b,
    {
        assert(a.name().len() == a.len);
        assert forall|i: int| 0 <= i < 64 implies a.bytes[i] == b.bytes[i] by {
            if i < a.len {
                assert(a.name()[i] == a.bytes[i]);
            }
        }
        assert(a.bytes =~= b.bytes);
    }
}

/// The account that stands for the native token.
pub open spec fn native_token() -> AccountId {
    AccountId::named(seq![110u8, 101u8, 97u8, 114u8])
}

/// The account that stands for the native token: the one called `near`.
pub fn near_token() -> (token_id: AccountId)
    ensures
        token_id == native_token(),
{
    let name: [u8; 4] = [110u8, 101u8, 97u8, 114u8];
    let spelled = name.as_slice();
    AccountId::from_bytes(spelled).unwrap()
}

/// Whether an optional identifier names `id`.
pub fn is_account(slot: &Option<AccountId>, id: &AccountId) -> (r: bool)
    ensures
        r == (*slot == Some(*id)),
{
    match slot {
        Some(held) => held.same(id),
        None => false,
    }
}

} // verus!
