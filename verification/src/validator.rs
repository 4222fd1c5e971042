//! Binding of the accounts that come with a call to the roles that the
//! operation expects, with the checks that each role asks for.

use crate::error::{AiNftError, ProcessError};
use crate::ledger::{AccountRef, Address};
use vstd::prelude::*;

verus! {

/// The parts that an account can play in an operation.
#[derive(Clone, Copy, Debug, PartialEq, Eq, Structural)]
pub enum RoleName {
    Initializer,
    Minter,
    Owner,
    Mint,
    HoldingAccount,
    SourceAccount,
    DestinationAccount,
    RentParameters,
    TokenProgram,
    MetadataAccount,
    MetadataProgram,
    SystemProgram,
}

/// What an operation asks of the account in one slot of its list.
#[derive(Clone, Copy, Debug, PartialEq, Eq)]
pub struct Role {
    /// The part that the account plays.
    pub name: RoleName,
    /// The account must have signed.
    pub signer: bool,
    /// The account must be writable.
    pub writable: bool,
    /// The account must be this one.
    pub identity: Option<Address>,
}

impl Role {
    /// A role whose account must have signed.
    pub fn signer(name: RoleName) -> (role: Role)
        ensures
            role == (Role { name, signer: true, writable: false, identity: None }),
    {
        Role { name, signer: true, writable: false, identity: None }
    }

    /// A role whose account must be writable.
    pub fn writable(name: RoleName) -> (role: Role)
        ensures
            role == (Role { name, signer: false, writable: true, identity: None }),
    {
        Role { name, signer: false, writable: true, identity: None }
    }

    /// A role that asks nothing of its account.
    pub fn readonly(name: RoleName) -> (role: Role)
        ensures
            role == (Role { name, signer: false, writable: false, identity: None }),
    {
        Role { name, signer: false, writable: false, identity: None }
    }

    /// The same role, for the account at `address` only.
    pub fn at(self, address: Address) -> (role: Role)
        ensures
            role == (Role { identity: Some(address), ..self }),
    {
        Role { name: self.name, signer: self.signer, writable: self.writable, identity: Some(address) }
    }
}

/// What is wrong with `account` in a slot that asks for `role`, if anything.
/// The signature is looked at first, then the right to write, then the
/// identity.
pub open spec fn slot_violation(account: AccountRef, role: Role) -> Option<ProcessError> {
    if role.signer && !account.is_signer {
        Some(ProcessError::MissingRequiredSignature)
    } else if role.writable && !account.is_writable {
        Some(ProcessError::MalformedAccountList)
    } else if role.identity is Some && account.key@ != role.identity->0@ {
        Some(ProcessError::Custom(AiNftError::NotOwner.spec_code()))
    } else {
        None
    }
}

/// The violation in the first slot, from `from` on, that has one.
pub open spec fn first_violation(accounts: Seq<AccountRef>, schema: Seq<Role>, from: int) -> Option<
    ProcessError,
>
    decreases schema.len() - from,
{
    if from < 0 || from >= schema.len() {
        None
    } else {
        match slot_violation(accounts[from], schema[from]) {
            Some(e) => Some(e),
            None => first_violation(accounts, schema, from + 1),
        }
    }
}

/// The accounts of a call under the names of their roles, slot by slot.
pub open spec fn spec_binding(accounts: Seq<AccountRef>, schema: Seq<Role>) -> Seq<
    (RoleName, AccountRef),
> {
    Seq::new(schema.len(), |i: int| (schema[i].name, accounts[i]))
}

/// What binding gives: a list of another length than the schema is
/// malformed; else the first violation in schema order is the failure; else
/// each account stands under the name of its slot's role.
pub open spec fn spec_bind(accounts: Seq<AccountRef>, schema: Seq<Role>) -> Result<
    Seq<(RoleName, AccountRef)>,
    ProcessError,
> {
    if accounts.len() != schema.len() {
        Err(ProcessError::MalformedAccountList)
    } else {
        match first_violation(accounts, schema, 0) {
            Some(e) => Err(e),
            None => Ok(spec_binding(accounts, schema)),
        }
    }
}

/// Where every slot before `at` is in order, the first violation from the
/// start is the first one from `at`.
pub proof fn lemma_first_violation_skips(accounts: Seq<AccountRef>, schema: Seq<Role>, at: int)
    requires
        0 <= at <= schema.len(),
        forall|j: int| 0 <= j < at ==> slot_violation(accounts[j], schema[j]) is None,
    ensures
        first_violation(accounts, schema, 0) == first_violation(accounts, schema, at),
    decreases at,
{
    if at > 0 {
        lemma_first_violation_skips(accounts, schema, at - 1);
    }
}

/// The failure reported is that of the first slot out of order: every slot
/// before it is in order. None is reported exactly where every slot is in
/// order.
pub proof fn lemma_first_violation_is_first(accounts: Seq<AccountRef>, schema: Seq<Role>)
    ensures
        match first_violation(accounts, schema, 0) {
            Some(e) => exists|i: int|
                0 <= i < schema.len() && slot_violation(accounts[i], schema[i]) == Some(e) && (
                forall|j: int| 0 <= j < i ==> slot_violation(accounts[j], schema[j]) is None),
            None => forall|j: int|
                0 <= j < schema.len() ==> slot_violation(accounts[j], schema[j]) is None,
        },
{
    lemma_first_violation_from(accounts, schema, 0);
}

proof fn lemma_first_violation_from(accounts: Seq<AccountRef>, schema: Seq<Role>, from: int)
    requires
        0 <= from <= schema.len(),
    ensures
        match first_violation(accounts, schema, from) {
            Some(e) => exists|i: int|
                from <= i < schema.len() && slot_violation(accounts[i], schema[i]) == Some(e) && (
                forall|j: int| from <= j < i ==> slot_violation(accounts[j], schema[j]) is None),
            None => forall|j: int|
                from <= j < schema.len() ==> slot_violation(accounts[j], schema[j]) is None,
        },
    decreases schema.len() - from,
{
    if from < schema.len() {
        match slot_violation(accounts[from], schema[from]) {
            Some(e) => {
                assert(from <= from < schema.len() && slot_violation(
                    accounts[from],
                    schema[from],
                ) == Some(e) && (forall|j: int|
                    from <= j < from ==> slot_violation(accounts[j], schema[j]) is None));
            },
            None => {
                lemma_first_violation_from(accounts, schema, from + 1);
                match first_violation(accounts, schema, from + 1) {
                    Some(e) => {
                        let i = choose|i: int|
                            from + 1 <= i < schema.len() && slot_violation(
                                accounts[i],
                                schema[i],
                            ) == Some(e) && (forall|j: int|
                                from + 1 <= j < i ==> slot_violation(accounts[j], schema[j])
                                    is None);
                        assert(from <= i < schema.len() && slot_violation(
                            accounts[i],
                            schema[i],
                        ) == Some(e) && (forall|j: int|
                            from <= j < i ==> slot_violation(accounts[j], schema[j]) is None));
                    },
                    None => {},
                }
            },
        }
    }
}

/// The accounts of a call, each under the name of the role it was bound to.
#[derive(Clone, Debug, PartialEq, Eq)]
pub struct Binding {
    pub entries: Vec<(RoleName, AccountRef)>,
}

impl View for Binding {
    type V = Seq<(RoleName, AccountRef)>;

    open spec fn view(&self) -> Seq<(RoleName, AccountRef)> {
        self.entries@
    }
}

impl Binding {
    /// Some slot is bound to `name`.
    pub open spec fn binds(&self, name: RoleName) -> bool {
        exists|i: int| 0 <= i < self@.len() && (#[trigger] self@[i]).0 == name
    }

    /// The first slot bound to `name`, with its account; `None` where no
    /// slot is.
    pub fn find(&self, name: RoleName) -> (r: Option<(usize, AccountRef)>)
        ensures
            r is Some <==> self.binds(name),
            r matches Some((slot, account)) ==> slot < self@.len() && self@[slot as int] == (
                name,
                account,
            ) && forall|j: int| 0 <= j < slot ==> (#[trigger] self@[j]).0 != name,
    {
        let mut i: usize = 0;
        while i < self.entries.len()
            invariant
                i <= self.entries@.len(),
                forall|j: int| 0 <= j < i ==> (#[trigger] self.entries@[j]).0 != name,
            decreases self.entries@.len() - i,
        {
            let entry = self.entries[i];
            if entry.0 == name {
                return Some((i, entry.1));
            }
            i = i + 1;
        }
        None
    }

    /// The first slot bound to `name`, with its account.
    pub fn get(&self, name: RoleName) -> (r: (usize, AccountRef))
        requires
            self.binds(name),
        ensures
            r.0 < self@.len(),
            self@[r.0 as int] == (name, r.1),
            forall|j: int| 0 <= j < r.0 ==> (#[trigger] self@[j]).0 != name,
    {
        let n = self.entries.len();
        let mut i: usize = 0;
        loop
            invariant
                n == self.entries@.len(),
                exists|k: int|
                    i <= k < self.entries@.len() && (#[trigger] self.entries@[k]).0 == name,
                forall|j: int| 0 <= j < i ==> (#[trigger] self.entries@[j]).0 != name,
            decreases self.entries@.len() - i,
        {
            let ghost k = choose|k: int|
                i <= k < self.entries@.len() && (#[trigger] self.entries@[k]).0 == name;
            let entry = self.entries[i];
            if entry.0 == name {
                return (i, entry.1);
            }
            assert(k != i);
            i = i + 1;
        }
    }
}

/// What is wrong with `account` in a slot that asks for `role`, if anything.
fn check_slot(account: &AccountRef, role: &Role) -> (r: Option<ProcessError>)
    ensures
        r == slot_violation(*account, *role),
{
    if role.signer && !account.is_signer {
        return Some(ProcessError::MissingRequiredSignature);
    }
    if role.writable && !account.is_writable {
        return Some(ProcessError::MalformedAccountList);
    }
    match role.identity {
        Some(expected) => {
            if account.key != expected {
                return Some(ProcessError::from(AiNftError::NotOwner));
            }
        },
        None => {},
    }
    None
}

/// Binds the accounts of a call to the roles of `schema`, slot by slot and
/// in order. The list must be as long as the schema. The first slot whose
/// account lacks what its role asks for decides the failure, and then
/// nothing is bound.
pub fn bind(accounts: &[AccountRef], schema: &[Role]) -> (r: Result<Binding, ProcessError>)
    ensures
        match r {
            Ok(binding) => spec_bind(accounts@, schema@) == Ok::<_, ProcessError>(binding@),
            Err(e) => spec_bind(accounts@, schema@) == Err::<Seq<(RoleName, AccountRef)>, _>(e),
        },
{
    if accounts.len() != schema.len() {
        return Err(ProcessError::MalformedAccountList);
    }
    let mut entries: Vec<(RoleName, AccountRef)> = Vec::new();
    let mut i: usize = 0;
    while i < schema.len()
        invariant
            accounts@.len() == schema@.len(),
            i <= schema@.len(),
            entries@.len() == i,
            forall|j: int| 0 <= j < i ==> slot_violation(accounts@[j], schema@[j]) is None,
            forall|j: int| 0 <= j < i ==> entries@[j] == (schema@[j].name, accounts@[j]),
        decreases schema@.len() - i,
    {
        match check_slot(&accounts[i], &schema[i]) {
            Some(e) => {
                proof {
                    lemma_first_violation_skips(accounts@, schema@, i as int);
                }
                return Err(e);
            },
            None => {},
        }
        entries.push((schema[i].name, accounts[i]));
        i = i + 1;
    }
    proof {
        lemma_first_violation_skips(accounts@, schema@, i as int);
        assert(entries@ =~= spec_binding(accounts@, schema@));
    }
    Ok(Binding { entries })
}

} // verus!
