//! The role registry: one owner fixed at construction, a growable ordered
//! administrator list, and registered users.

use vstd::prelude::*;
use crate::errors::UserError;
use crate::keyed::{
    Keyed, lemma_lookup_absent, lemma_lookup_present, lemma_lookup_push_all, lemma_unique_push,
    lookup, unique_keys,
};
use crate::storage_types::Address;

verus! {

/// The roles a principal can hold in the registry.
#[derive(Clone, Copy, Debug, PartialEq, Eq, Structural)]
pub enum Role {
    /// The singleton owner, fixed at construction.
    Owner,
    /// The administrator set.
    Admins,
    /// An ordinary registered user.
    User,
}

/// One principal's registered role.
struct RoleEntry {
    /// The principal.
    account: Address,
    /// The role it registered under.
    role: Role,
}

impl Keyed for RoleEntry {
    type Key = Address;

    /// A role entry is filed under its principal.
    closed spec fn key(&self) -> Address {
        self.account
    }
}

/// The role registry. The owner is an administrator from the start;
/// further administrators are promoted from registered users, in order.
pub struct User {
    owner: Address,
    admins: Vec<Address>,
    roles: Vec<RoleEntry>,
}

impl User {
    /// Each principal registers at most once, and the administrator list
    /// holds no principal twice.
    pub closed spec fn wf(self) -> bool {
        &&& unique_keys(self.roles@)
        &&& self.admins@.no_duplicates()
    }

    /// The owner fixed at construction.
    pub closed spec fn spec_owner(self) -> Address {
        self.owner
    }

    /// The administrators, in the order they were added; this order decides
    /// liquidity-scan priority.
    pub closed spec fn admins_seq(self) -> Seq<Address> {
        self.admins@
    }

    /// Whether `account` is an administrator.
    pub open spec fn is_admin_spec(self, account: Address) -> bool {
        self.admins_seq().contains(account)
    }

    /// The role `account` registered under, if any.
    pub closed spec fn role_of(self, account: Address) -> Option<Role> {
        match lookup(self.roles@, account) {
            Some(e) => Some(e.role),
            None => None,
        }
    }

    /// Whether `account` is a registered user.
    pub open spec fn is_user_spec(self, account: Address) -> bool {
        self.role_of(account) == Some(Role::User)
    }

    /// A fresh registry: `owner` is the one administrator, and nobody has
    /// registered.
    pub fn new(owner: Address) -> (u: User)
        ensures
            u.wf(),
            u.spec_owner() == owner,
            u.admins_seq() =~= seq![owner],
            forall|a: Address| u.role_of(a) is None,
    {
        let mut admins: Vec<Address> = Vec::new();
        admins.push(owner);
        User { owner, admins, roles: Vec::new() }
    }

    /// Registers `account` as a user; a principal already holding a role is
    /// refused with `AlreadyRegistered`, unchanged.
    pub fn register_user(&mut self, account: Address) -> (r: Result<(), UserError>)
        requires
            old(self).wf(),
        ensures
            final(self).wf(),
            r is Ok <==> old(self).role_of(account) is None,
            r is Err ==> r == Err::<(), UserError>(UserError::AlreadyRegistered)
                && *final(self) == *old(self),
            r is Ok ==> final(self).role_of(account) == Some(Role::User),
            r is Ok ==> forall|a: Address|
                a != account ==> final(self).role_of(a) == old(self).role_of(a),
            final(self).admins_seq() == old(self).admins_seq(),
            final(self).spec_owner() == old(self).spec_owner(),
    {
        match self.find_role_index(account) {
            Some(_) => Err(UserError::AlreadyRegistered),
            None => {
                let ghost s0 = self.roles@;
                let e = RoleEntry { account, role: Role::User };
                proof {
                    lemma_lookup_push_all(s0, e);
                    lemma_unique_push(s0, e);
                }
                self.roles.push(e);
                Ok(())
            },
        }
    }

    /// Promotes `account` to administrator. An existing administrator is
    /// refused with `AlreadyAdmin`; a principal that never registered as a
    /// user is refused with `NotAuthorized`. Refusals change nothing.
    pub fn add_admin(&mut self, account: Address) -> (r: Result<(), UserError>)
        requires
            old(self).wf(),
        ensures
            final(self).wf(),
            r == Err::<(), UserError>(UserError::AlreadyAdmin) <==> old(self).is_admin_spec(
                account,
            ),
            r == Err::<(), UserError>(UserError::NotAuthorized) <==> !old(self).is_admin_spec(
                account,
            ) && !old(self).is_user_spec(account),
            r is Ok <==> !old(self).is_admin_spec(account) && old(self).is_user_spec(account),
            r is Err ==> *final(self) == *old(self),
            r is Ok ==> final(self).admins_seq() == old(self).admins_seq().push(account),
            forall|a: Address| final(self).role_of(a) == old(self).role_of(a),
            final(self).spec_owner() == old(self).spec_owner(),
    {
        if self.is_admin(account) {
            return Err(UserError::AlreadyAdmin);
        }
        if !self.is_user(account) {
            return Err(UserError::NotAuthorized);
        }
        self.admins.push(account);
        Ok(())
    }

    /// The administrators, in order.
    pub fn get_admins(&self) -> (v: Vec<Address>)
        ensures
            v@ == self.admins_seq(),
    {
        let n = self.admins.len();
        let mut v: Vec<Address> = Vec::new();
        let mut i: usize = 0;
        while i < n
            invariant
                n == self.admins@.len(),
                0 <= i <= n,
                v@ =~= self.admins@.subrange(0, i as int),
            decreases n - i,
        {
            v.push(self.admins[i]);
            i = i + 1;
        }
        proof {
            assert(self.admins@.subrange(0, n as int) =~= self.admins@);
        }
        v
    }

    /// Whether `account` is an administrator.
    pub fn is_admin(&self, account: Address) -> (b: bool)
        ensures
            b == self.is_admin_spec(account),
    {
        let n = self.admins.len();
        let mut i: usize = 0;
        while i < n
            invariant
                n == self.admins@.len(),
                0 <= i <= n,
                forall|j: int| 0 <= j < i ==> self.admins@[j] != account,
            decreases n - i,
        {
            if self.admins[i] == account {
                return true;
            }
            i = i + 1;
        }
        false
    }

    /// Whether `account` is a registered user.
    pub fn is_user(&self, account: Address) -> (b: bool)
        ensures
            b == self.is_user_spec(account),
    {
        match self.find_role_index(account) {
            Some(i) => match self.roles[i].role {
                Role::User => true,
                _ => false,
            },
            None => false,
        }
    }

    /// The index of the role entry for `account`, if any.
    fn find_role_index(&self, account: Address) -> (r: Option<usize>)
        ensures
            match r {
                Some(i) => 0 <= i < self.roles@.len() && self.roles@[i as int].key() == account
                    && lookup(self.roles@, account) == Some(self.roles@[i as int]),
                None => lookup(self.roles@, account) is None,
            },
    {
        let n = self.roles.len();
        let mut i: usize = 0;
        while i < n
            invariant
                n == self.roles@.len(),
                0 <= i <= n,
                forall|j: int| 0 <= j < i ==> self.roles@[j].key() != account,
            decreases n - i,
        {
            if self.roles[i].account == account {
                proof {
                    lemma_lookup_present(self.roles@, account, i as int);
                }
                return Some(i);
            }
            i = i + 1;
        }
        proof {
            lemma_lookup_absent(self.roles@, account);
        }
        None
    }
}

} // verus!
