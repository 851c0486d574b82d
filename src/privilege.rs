//! Privilege kinds and sets of privileges, held as a bit mask.

use vstd::prelude::*;
use vstd::string::StringExecFns;

verus! {

/// One grantable privilege.
#[derive(Clone, Copy, Debug, PartialEq, Eq, Structural)]
pub enum UserPrivilegeType {
    Usage,
    Create,
    Select,
    Insert,
    SetVariable,
    Super,
    CreateUser,
    CreateRole,
    Grant,
}

/// The bit that stands for a privilege in a mask.
pub open spec fn privilege_bit(p: UserPrivilegeType) -> u64 {
    match p {
        UserPrivilegeType::Usage => 1,
        UserPrivilegeType::Create => 2,
        UserPrivilegeType::Select => 4,
        UserPrivilegeType::Insert => 8,
        UserPrivilegeType::SetVariable => 16,
        UserPrivilegeType::Super => 32,
        UserPrivilegeType::CreateUser => 64,
        UserPrivilegeType::CreateRole => 128,
        UserPrivilegeType::Grant => 256,
    }
}

/// Every privilege that exists.
pub const ALL_PRIVILEGES: u64 = 511;

/// What may be granted on a database.
pub const DATABASE_PRIVILEGES: u64 = 15;

/// What may be granted on a table.
pub const TABLE_PRIVILEGES: u64 = 13;

/// Whether a mask holds a privilege.
pub open spec fn mask_has(mask: u64, p: UserPrivilegeType) -> bool {
    mask & privilege_bit(p) != 0
}

impl UserPrivilegeType {
    pub fn bit(&self) -> (r: u64)
        ensures
            r == privilege_bit(*self),
    {
        match self {
            UserPrivilegeType::Usage => 1,
            UserPrivilegeType::Create => 2,
            UserPrivilegeType::Select => 4,
            UserPrivilegeType::Insert => 8,
            UserPrivilegeType::SetVariable => 16,
            UserPrivilegeType::Super => 32,
            UserPrivilegeType::CreateUser => 64,
            UserPrivilegeType::CreateRole => 128,
            UserPrivilegeType::Grant => 256,
        }
    }
}

/// A set of privileges.
#[derive(Clone, Copy, Debug, PartialEq, Eq, Structural)]
pub struct UserPrivilegeSet {
    pub privileges: u64,
}

impl UserPrivilegeSet {
    pub fn empty() -> (r: UserPrivilegeSet)
        ensures
            r.privileges == 0,
    {
        UserPrivilegeSet { privileges: 0 }
    }

    pub fn from_mask(mask: u64) -> (r: UserPrivilegeSet)
        ensures
            r.privileges == mask & ALL_PRIVILEGES,
    {
        UserPrivilegeSet { privileges: mask & ALL_PRIVILEGES }
    }

    pub fn available_privileges_on_global() -> (r: UserPrivilegeSet)
        ensures
            r.privileges == ALL_PRIVILEGES,
    {
        UserPrivilegeSet { privileges: ALL_PRIVILEGES }
    }

    pub fn available_privileges_on_database() -> (r: UserPrivilegeSet)
        ensures
            r.privileges == DATABASE_PRIVILEGES,
    {
        UserPrivilegeSet { privileges: DATABASE_PRIVILEGES }
    }

    pub fn available_privileges_on_table() -> (r: UserPrivilegeSet)
        ensures
            r.privileges == TABLE_PRIVILEGES,
    {
        UserPrivilegeSet { privileges: TABLE_PRIVILEGES }
    }

    pub fn has_privilege(&self, privilege: UserPrivilegeType) -> (r: bool)
        ensures
            r == mask_has(self.privileges, privilege),
    {
        self.privileges & privilege.bit() != 0
    }

    pub fn set_privilege(&mut self, privilege: UserPrivilegeType)
        ensures
            final(self).privileges == old(self).privileges | privilege_bit(privilege),
    {
        self.privileges = self.privileges | privilege.bit();
    }

    /// Whether every privilege of `other` is in this set.
    pub fn contains_all(&self, other: UserPrivilegeSet) -> (r: bool)
        ensures
            r == (self.privileges & other.privileges == other.privileges),
    {
        self.privileges & other.privileges == other.privileges
    }

    pub fn is_empty(&self) -> (r: bool)
        ensures
            r == (self.privileges == 0),
    {
        self.privileges == 0
    }
}

/// Every privilege, in the order of their bits.
pub fn all_privilege_types() -> (r: Vec<UserPrivilegeType>)
    ensures
        forall|p: UserPrivilegeType| r@.contains(p),
        r@ == privilege_order(),
{
    let r = vec![
        UserPrivilegeType::Usage,
        UserPrivilegeType::Create,
        UserPrivilegeType::Select,
        UserPrivilegeType::Insert,
        UserPrivilegeType::SetVariable,
        UserPrivilegeType::Super,
        UserPrivilegeType::CreateUser,
        UserPrivilegeType::CreateRole,
        UserPrivilegeType::Grant,
    ];
    assert forall|p: UserPrivilegeType| r@.contains(p) by {
        match p {
            UserPrivilegeType::Usage => assert(r@[0] == p),
            UserPrivilegeType::Create => assert(r@[1] == p),
            UserPrivilegeType::Select => assert(r@[2] == p),
            UserPrivilegeType::Insert => assert(r@[3] == p),
            UserPrivilegeType::SetVariable => assert(r@[4] == p),
            UserPrivilegeType::Super => assert(r@[5] == p),
            UserPrivilegeType::CreateUser => assert(r@[6] == p),
            UserPrivilegeType::CreateRole => assert(r@[7] == p),
            UserPrivilegeType::Grant => assert(r@[8] == p),
        }
    }
    r
}

/// The privileges in the order of their bits.
pub open spec fn privilege_order() -> Seq<UserPrivilegeType> {
    seq![
        UserPrivilegeType::Usage,
        UserPrivilegeType::Create,
        UserPrivilegeType::Select,
        UserPrivilegeType::Insert,
        UserPrivilegeType::SetVariable,
        UserPrivilegeType::Super,
        UserPrivilegeType::CreateUser,
        UserPrivilegeType::CreateRole,
        UserPrivilegeType::Grant,
    ]
}

/// The keyword of a privilege.
pub open spec fn privilege_name(p: UserPrivilegeType) -> Seq<char> {
    match p {
        UserPrivilegeType::Usage => "USAGE"@,
        UserPrivilegeType::Create => "CREATE"@,
        UserPrivilegeType::Select => "SELECT"@,
        UserPrivilegeType::Insert => "INSERT"@,
        UserPrivilegeType::SetVariable => "SET"@,
        UserPrivilegeType::Super => "SUPER"@,
        UserPrivilegeType::CreateUser => "CREATE USER"@,
        UserPrivilegeType::CreateRole => "CREATE ROLE"@,
        UserPrivilegeType::Grant => "GRANT"@,
    }
}

/// The privileges of `ps` that `mask` holds, in order.
pub open spec fn selected(ps: Seq<UserPrivilegeType>, mask: u64) -> Seq<UserPrivilegeType> {
    ps.filter(|p: UserPrivilegeType| mask_has(mask, p))
}

/// Keywords joined by commas.
pub open spec fn joined_names(ps: Seq<UserPrivilegeType>) -> Seq<char>
    decreases ps.len(),
{
    if ps.len() == 0 {
        Seq::empty()
    } else if ps.len() == 1 {
        privilege_name(ps[0])
    } else {
        joined_names(ps.drop_last()) + ","@ + privilege_name(ps.last())
    }
}

impl UserPrivilegeType {
    pub fn name(&self) -> (r: &'static str)
        ensures
            r@ == privilege_name(*self),
    {
        match self {
            UserPrivilegeType::Usage => "USAGE",
            UserPrivilegeType::Create => "CREATE",
            UserPrivilegeType::Select => "SELECT",
            UserPrivilegeType::Insert => "INSERT",
            UserPrivilegeType::SetVariable => "SET",
            UserPrivilegeType::Super => "SUPER",
            UserPrivilegeType::CreateUser => "CREATE USER",
            UserPrivilegeType::CreateRole => "CREATE ROLE",
            UserPrivilegeType::Grant => "GRANT",
        }
    }
}

impl UserPrivilegeSet {
    /// The keywords of the privileges held, in bit order, joined by commas.
    pub fn display(&self) -> (r: String)
        ensures
            r@ == joined_names(selected(privilege_order(), self.privileges)),
    {
        let all = all_privilege_types();
        let mut out = String::new();
        let mut n: usize = 0;
        let mut i: usize = 0;
        proof {
            assert(all@.take(0) =~= Seq::<UserPrivilegeType>::empty());
            reveal(Seq::filter);
            assert(selected(all@.take(0), self.privileges) =~= Seq::<UserPrivilegeType>::empty());
        }
        while i < all.len()
            invariant
                all@ == privilege_order(),
                0 <= i <= all@.len(),
                n == selected(all@.take(i as int), self.privileges).len(),
                out@ == joined_names(selected(all@.take(i as int), self.privileges)),
            decreases all@.len() - i,
        {
            let p = all[i];
            let ghost before = selected(all@.take(i as int), self.privileges);
            proof {
                assert(all@.take(i + 1) =~= all@.take(i as int).push(p));
                reveal(Seq::filter);
                assert(all@.take(i + 1).drop_last() =~= all@.take(i as int));
            }
            if self.has_privilege(p) {
                assert(selected(all@.take(i + 1), self.privileges) =~= before.push(p));
                assert(before.push(p).drop_last() =~= before);
                if n > 0 {
                    out.append(",");
                }
                out.append(p.name());
                n = n + 1;
            } else {
                assert(selected(all@.take(i + 1), self.privileges) =~= before);
            }
            i = i + 1;
        }
        assert(all@.take(all@.len() as int) =~= all@);
        out
    }
}

} // verus!
