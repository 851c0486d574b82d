//! Grants: which user, from which hosts, holds which privileges on which object.

use vstd::prelude::*;

use vstd::string::StringExecFns;

use crate::privilege::{
    all_privilege_types, joined_names, mask_has, privilege_order, selected, UserPrivilegeSet, UserPrivilegeType, ALL_PRIVILEGES,
    DATABASE_PRIVILEGES, TABLE_PRIVILEGES,
};

verus! {

/// What a grant applies to.
#[derive(Clone, Debug)]
pub enum GrantObject {
    Global,
    Database(String),
    Table(String, String),
}

/// The view of a grant object: names as character sequences.
pub enum GrantObjectView {
    Global,
    Database(Seq<char>),
    Table(Seq<char>, Seq<char>),
}

impl View for GrantObject {
    type V = GrantObjectView;

    open spec fn view(&self) -> GrantObjectView {
        match self {
            GrantObject::Global => GrantObjectView::Global,
            GrantObject::Database(db) => GrantObjectView::Database(db@),
            GrantObject::Table(db, t) => GrantObjectView::Table(db@, t@),
        }
    }
}

impl PartialEq for GrantObject {
    fn eq(&self, o: &GrantObject) -> (r: bool) {
        match (self, o) {
            (GrantObject::Global, GrantObject::Global) => true,
            (GrantObject::Database(a), GrantObject::Database(b)) => *a == *b,
            (GrantObject::Table(a, x), GrantObject::Table(b, y)) => *a == *b && *x == *y,
            _ => false,
        }
    }
}

impl vstd::std_specs::cmp::PartialEqSpecImpl for GrantObject {
    open spec fn obeys_eq_spec() -> bool {
        true
    }

    open spec fn eq_spec(&self, o: &GrantObject) -> bool {
        self@ == o@
    }
}

/// The privileges that may be granted on an object.
pub open spec fn available_mask(o: GrantObjectView) -> u64 {
    match o {
        GrantObjectView::Global => ALL_PRIVILEGES,
        GrantObjectView::Database(_) => DATABASE_PRIVILEGES,
        GrantObjectView::Table(_, _) => TABLE_PRIVILEGES,
    }
}

/// Whether every privilege in `mask` may be granted on `o`.
pub open spec fn privileges_allowed(o: GrantObjectView, mask: u64) -> bool {
    forall|p: UserPrivilegeType| mask_has(mask, p) ==> mask_has(available_mask(o), p)
}

/// Why a grant or revoke was refused.
#[derive(Clone, Copy, Debug, PartialEq, Eq, Structural)]
pub enum GrantError {
    IllegalGrant,
}

impl GrantObject {
    /// Some privileges cannot be granted on a database or a table: killing a
    /// query, for one, means nothing for a table.
    pub fn allow_privilege(&self, privilege: UserPrivilegeType) -> (r: bool)
        ensures
            r == mask_has(available_mask(self@), privilege),
    {
        self.available_privileges().has_privilege(privilege)
    }

    /// Global, database and table objects each allow their own privileges.
    pub fn available_privileges(&self) -> (r: UserPrivilegeSet)
        ensures
            r.privileges == available_mask(self@),
    {
        match self {
            GrantObject::Global => UserPrivilegeSet::available_privileges_on_global(),
            GrantObject::Database(_) => UserPrivilegeSet::available_privileges_on_database(),
            GrantObject::Table(_, _) => UserPrivilegeSet::available_privileges_on_table(),
        }
    }

    /// Refuses a set that holds a privilege which cannot be granted here.
    pub fn validate_privileges(&self, privileges: UserPrivilegeSet) -> (r: Result<(), GrantError>)
        ensures
            r is Ok <==> privileges_allowed(self@, privileges.privileges),
            r is Err ==> r == Err::<(), GrantError>(GrantError::IllegalGrant),
    {
        let all = all_privilege_types();
        let mut i: usize = 0;
        while i < all.len()
            invariant
                0 <= i <= all@.len(),
                forall|p: UserPrivilegeType| all@.contains(p),
                forall|j: int|
                    0 <= j < i ==> (mask_has(privileges.privileges, #[trigger] all@[j])
                        ==> mask_has(available_mask(self@), all@[j])),
            decreases all@.len() - i,
        {
            let p = all[i];
            if privileges.has_privilege(p) && !self.allow_privilege(p) {
                return Err(GrantError::IllegalGrant);
            }
            i = i + 1;
        }
        assert forall|p: UserPrivilegeType| mask_has(privileges.privileges, p) implies mask_has(
            available_mask(self@),
            p,
        ) by {
            assert(all@.contains(p));
            let j = choose|j: int| 0 <= j < all@.len() && all@[j] == p;
            assert(mask_has(privileges.privileges, all@[j]));
        }
        Ok(())
    }
}

/// One grant: a user at a host pattern holds privileges on an object.
#[derive(Clone, Debug)]
pub struct GrantEntry {
    pub user: String,
    pub host_pattern: String,
    pub object: GrantObject,
    pub privileges: u64,
}

/// Whether a host pattern admits a host: `%` admits every host, any other
/// pattern only itself.
pub open spec fn host_matches(pattern: Seq<char>, host: Seq<char>) -> bool {
    pattern == seq!['%'] || pattern == host
}

/// Whether a grant on `o` covers the database `db`.
pub open spec fn covers_database(o: GrantObjectView, db: Seq<char>) -> bool {
    match o {
        GrantObjectView::Global => true,
        GrantObjectView::Database(d) => d == db,
        GrantObjectView::Table(_, _) => false,
    }
}

/// Whether a grant on `o` covers the table `db`.`table`.
pub open spec fn covers_table(o: GrantObjectView, db: Seq<char>, table: Seq<char>) -> bool {
    match o {
        GrantObjectView::Global => true,
        GrantObjectView::Database(d) => d == db,
        GrantObjectView::Table(d, t) => d == db && t == table,
    }
}

impl GrantEntry {
    pub open spec fn matches_user_host_spec(&self, user: Seq<char>, host: Seq<char>) -> bool {
        self.user@ == user && host_matches(self.host_pattern@, host)
    }

    pub open spec fn global_spec(&self, user: Seq<char>, host: Seq<char>, p: UserPrivilegeType) -> bool {
        self.matches_user_host_spec(user, host) && self.object@ == GrantObjectView::Global
            && mask_has(self.privileges, p)
    }

    pub open spec fn database_spec(
        &self,
        user: Seq<char>,
        host: Seq<char>,
        db: Seq<char>,
        p: UserPrivilegeType,
    ) -> bool {
        self.matches_user_host_spec(user, host) && covers_database(self.object@, db)
            && mask_has(self.privileges, p)
    }

    pub open spec fn table_spec(
        &self,
        user: Seq<char>,
        host: Seq<char>,
        db: Seq<char>,
        table: Seq<char>,
        p: UserPrivilegeType,
    ) -> bool {
        self.matches_user_host_spec(user, host) && covers_table(self.object@, db, table)
            && mask_has(self.privileges, p)
    }

    pub open spec fn matches_entry_spec(
        &self,
        user: Seq<char>,
        host_pattern: Seq<char>,
        object: GrantObjectView,
    ) -> bool {
        self.user@ == user && self.host_pattern@ == host_pattern && self.object@ == object
    }

    pub fn new(user: String, host_pattern: String, object: GrantObject, privileges: UserPrivilegeSet) -> (r: GrantEntry)
        ensures
            r.user == user,
            r.host_pattern == host_pattern,
            r.object == object,
            r.privileges == privileges.privileges,
    {
        GrantEntry { user, host_pattern, object, privileges: privileges.privileges }
    }

    pub fn verify_global_privilege(&self, user: &str, host: &str, privilege: UserPrivilegeType) -> (r: bool)
        ensures
            r == self.global_spec(user@, host@, privilege),
    {
        if !self.matches_user_host(user, host) {
            return false;
        }
        if !matches!(self.object, GrantObject::Global) {
            return false;
        }
        self.privileges & privilege.bit() != 0
    }

    pub fn verify_database_privilege(
        &self,
        user: &str,
        host: &str,
        db: &str,
        privilege: UserPrivilegeType,
    ) -> (r: bool)
        ensures
            r == self.database_spec(user@, host@, db@, privilege),
    {
        if !self.matches_user_host(user, host) {
            return false;
        }
        let db = db.to_owned();
        let covered = match &self.object {
            GrantObject::Global => true,
            GrantObject::Database(expected_db) => *expected_db == db,
            GrantObject::Table(_, _) => false,
        };
        if !covered {
            return false;
        }
        self.privileges & privilege.bit() != 0
    }

    pub fn verify_table_privilege(
        &self,
        user: &str,
        host: &str,
        db: &str,
        table: &str,
        privilege: UserPrivilegeType,
    ) -> (r: bool)
        ensures
            r == self.table_spec(user@, host@, db@, table@, privilege),
    {
        if !self.matches_user_host(user, host) {
            return false;
        }
        let db = db.to_owned();
        let table = table.to_owned();
        let covered = match &self.object {
            GrantObject::Global => true,
            GrantObject::Database(expected_db) => *expected_db == db,
            GrantObject::Table(expected_db, expected_table) => {
                *expected_db == db && *expected_table == table
            },
        };
        if !covered {
            return false;
        }
        self.privileges & privilege.bit() != 0
    }

    pub fn matches_entry(&self, user: &str, host_pattern: &str, object: &GrantObject) -> (r: bool)
        ensures
            r == self.matches_entry_spec(user@, host_pattern@, object@),
    {
        let user = user.to_owned();
        let host_pattern = host_pattern.to_owned();
        self.user == user && self.host_pattern == host_pattern && self.object == *object
    }

    fn matches_user_host(&self, user: &str, host: &str) -> (r: bool)
        ensures
            r == self.matches_user_host_spec(user@, host@),
    {
        let user = user.to_owned();
        self.user == user && Self::match_host_pattern(&self.host_pattern, host)
    }

    fn match_host_pattern(host_pattern: &String, host: &str) -> (r: bool)
        ensures
            r == host_matches(host_pattern@, host@),
    {
        let any = "%".to_owned();
        proof {
            reveal_strlit("%");
        }
        assert(any@ =~= seq!['%']);
        if *host_pattern == any {
            return true;
        }
        let host = host.to_owned();
        *host_pattern == host
    }

    /// Whether this grant holds everything that its object allows.
    pub fn has_all_available_privileges(&self) -> (r: bool)
        ensures
            r == (self.privileges & available_mask(self.object@) == available_mask(self.object@)),
    {
        let all = self.object.available_privileges();
        UserPrivilegeSet { privileges: self.privileges }.contains_all(all)
    }
}

/// The grants that a user holds.
#[derive(Clone, Debug)]
pub struct UserGrantSet {
    pub grants: Vec<GrantEntry>,
}

impl GrantObject {
    /// A copy equal to this object.
    pub fn duplicate(&self) -> (r: GrantObject)
        ensures
            r == *self,
    {
        match self {
            GrantObject::Global => GrantObject::Global,
            GrantObject::Database(db) => GrantObject::Database(db.clone()),
            GrantObject::Table(db, t) => GrantObject::Table(db.clone(), t.clone()),
        }
    }
}

impl GrantEntry {
    /// A copy equal to this entry.
    pub fn duplicate(&self) -> (r: GrantEntry)
        ensures
            r == *self,
    {
        GrantEntry {
            user: self.user.clone(),
            host_pattern: self.host_pattern.clone(),
            object: self.object.duplicate(),
            privileges: self.privileges,
        }
    }
}

/// An entry with its privileges replaced.
pub open spec fn with_privileges(e: GrantEntry, mask: u64) -> GrantEntry {
    GrantEntry { user: e.user, host_pattern: e.host_pattern, object: e.object, privileges: mask }
}

/// An entry after `mask` is granted to (user, host pattern, object).
pub open spec fn grant_step(
    e: GrantEntry,
    user: Seq<char>,
    host_pattern: Seq<char>,
    object: GrantObjectView,
    mask: u64,
) -> GrantEntry {
    if e.matches_entry_spec(user, host_pattern, object) {
        with_privileges(e, e.privileges | mask)
    } else {
        e
    }
}

/// An entry after `mask` is revoked from (user, host pattern, object): the
/// named privileges are toggled off the matching entry.
pub open spec fn revoke_step(
    e: GrantEntry,
    user: Seq<char>,
    host_pattern: Seq<char>,
    object: GrantObjectView,
    mask: u64,
) -> GrantEntry {
    if e.matches_entry_spec(user, host_pattern, object) {
        with_privileges(e, e.privileges ^ mask)
    } else {
        e
    }
}

/// The grants left after a revoke: each entry stepped, the empty ones dropped,
/// the order kept.
pub open spec fn revoked(
    s: Seq<GrantEntry>,
    user: Seq<char>,
    host_pattern: Seq<char>,
    object: GrantObjectView,
    mask: u64,
) -> Seq<GrantEntry>
    decreases s.len(),
{
    if s.len() == 0 {
        Seq::empty()
    } else {
        let rest = revoked(s.drop_last(), user, host_pattern, object, mask);
        let e = revoke_step(s.last(), user, host_pattern, object, mask);
        if e.privileges != 0 {
            rest.push(e)
        } else {
            rest
        }
    }
}

/// Whether some entry is for (user, host pattern, object).
pub open spec fn has_entry(
    s: Seq<GrantEntry>,
    user: Seq<char>,
    host_pattern: Seq<char>,
    object: GrantObjectView,
) -> bool {
    exists|i: int| 0 <= i < s.len() && #[trigger] s[i].matches_entry_spec(user, host_pattern, object)
}

impl UserGrantSet {
    pub fn empty() -> (r: UserGrantSet)
        ensures
            r.grants@.len() == 0,
    {
        UserGrantSet { grants: Vec::new() }
    }

    pub fn entries(&self) -> (r: &[GrantEntry])
        ensures
            r@ == self.grants@,
    {
        self.grants.as_slice()
    }

    pub fn verify_global_privilege(&self, user: &str, host: &str, privilege: UserPrivilegeType) -> (r: bool)
        ensures
            r == exists|i: int|
                0 <= i < self.grants@.len() && #[trigger] self.grants@[i].global_spec(
                    user@,
                    host@,
                    privilege,
                ),
    {
        let mut i: usize = 0;
        while i < self.grants.len()
            invariant
                0 <= i <= self.grants@.len(),
                forall|j: int|
                    0 <= j < i ==> !#[trigger] self.grants@[j].global_spec(user@, host@, privilege),
            decreases self.grants@.len() - i,
        {
            if self.grants[i].verify_global_privilege(user, host, privilege) {
                return true;
            }
            i = i + 1;
        }
        false
    }

    pub fn verify_database_privilege(
        &self,
        user: &str,
        host: &str,
        db: &str,
        privilege: UserPrivilegeType,
    ) -> (r: bool)
        ensures
            r == exists|i: int|
                0 <= i < self.grants@.len() && #[trigger] self.grants@[i].database_spec(
                    user@,
                    host@,
                    db@,
                    privilege,
                ),
    {
        let mut i: usize = 0;
        while i < self.grants.len()
            invariant
                0 <= i <= self.grants@.len(),
                forall|j: int|
                    0 <= j < i ==> !#[trigger] self.grants@[j].database_spec(
                        user@,
                        host@,
                        db@,
                        privilege,
                    ),
            decreases self.grants@.len() - i,
        {
            if self.grants[i].verify_database_privilege(user, host, db, privilege) {
                return true;
            }
            i = i + 1;
        }
        false
    }

    pub fn verify_table_privilege(
        &self,
        user: &str,
        host: &str,
        db: &str,
        table: &str,
        privilege: UserPrivilegeType,
    ) -> (r: bool)
        ensures
            r == exists|i: int|
                0 <= i < self.grants@.len() && #[trigger] self.grants@[i].table_spec(
                    user@,
                    host@,
                    db@,
                    table@,
                    privilege,
                ),
    {
        let mut i: usize = 0;
        while i < self.grants.len()
            invariant
                0 <= i <= self.grants@.len(),
                forall|j: int|
                    0 <= j < i ==> !#[trigger] self.grants@[j].table_spec(
                        user@,
                        host@,
                        db@,
                        table@,
                        privilege,
                    ),
            decreases self.grants@.len() - i,
        {
            if self.grants[i].verify_table_privilege(user, host, db, table, privilege) {
                return true;
            }
            i = i + 1;
        }
        false
    }

    /// Adds `privileges` to every entry for (user, host pattern, object), or
    /// appends a new entry when there is none.
    pub fn grant_privileges(
        &mut self,
        user: &str,
        host_pattern: &str,
        object: &GrantObject,
        privileges: UserPrivilegeSet,
    )
        ensures
            has_entry(old(self).grants@, user@, host_pattern@, object@) ==> final(self).grants@
                == old(self).grants@.map_values(
                |e: GrantEntry| grant_step(e, user@, host_pattern@, object@, privileges.privileges),
            ),
            !has_entry(old(self).grants@, user@, host_pattern@, object@) ==> {
                &&& final(self).grants@.len() == old(self).grants@.len() + 1
                &&& final(self).grants@.take(old(self).grants@.len() as int) == old(self).grants@
                &&& final(self).grants@.last().user@ == user@
                &&& final(self).grants@.last().host_pattern@ == host_pattern@
                &&& final(self).grants@.last().object == *object
                &&& final(self).grants@.last().privileges == privileges.privileges
            },
    {
        let mut new_grants: Vec<GrantEntry> = Vec::new();
        let mut changed = false;
        let mut i: usize = 0;
        while i < self.grants.len()
            invariant
                0 <= i <= self.grants@.len(),
                new_grants@ == self.grants@.take(i as int).map_values(
                    |e: GrantEntry| grant_step(e, user@, host_pattern@, object@, privileges.privileges),
                ),
                changed == exists|j: int|
                    0 <= j < i && #[trigger] self.grants@[j].matches_entry_spec(
                        user@,
                        host_pattern@,
                        object@,
                    ),
            decreases self.grants@.len() - i,
        {
            let mut grant = self.grants[i].duplicate();
            if grant.matches_entry(user, host_pattern, object) {
                grant.privileges = grant.privileges | privileges.privileges;
                changed = true;
            }
            new_grants.push(grant);
            proof {
                assert(self.grants@.take(i + 1) =~= self.grants@.take(i as int).push(self.grants@[i as int]));
            }
            i = i + 1;
        }
        assert(self.grants@.take(self.grants@.len() as int) =~= self.grants@);
        if !changed {
            let entry = GrantEntry::new(user.to_owned(), host_pattern.to_owned(), object.duplicate(), privileges);
            proof {
                assert forall|j: int| 0 <= j < self.grants@.len() implies #[trigger] new_grants@[j] == self.grants@[j] by {
                    assert(!self.grants@[j].matches_entry_spec(user@, host_pattern@, object@));
                }
            }
            new_grants.push(entry);
            assert(new_grants@.take(self.grants@.len() as int) =~= self.grants@);
        }
        self.grants = new_grants;
    }

    /// Toggles `privileges` on every entry for (user, host pattern, object) and
    /// drops the entries left with no privilege.
    pub fn revoke_privileges(
        &mut self,
        user: &str,
        host_pattern: &str,
        object: &GrantObject,
        privileges: UserPrivilegeSet,
    )
        ensures
            final(self).grants@ == revoked(old(self).grants@, user@, host_pattern@, object@, privileges.privileges),
    {
        let mut grants: Vec<GrantEntry> = Vec::new();
        let mut i: usize = 0;
        while i < self.grants.len()
            invariant
                0 <= i <= self.grants@.len(),
                grants@ == revoked(self.grants@.take(i as int), user@, host_pattern@, object@, privileges.privileges),
            decreases self.grants@.len() - i,
        {
            let mut e = self.grants[i].duplicate();
            if e.matches_entry(user, host_pattern, object) {
                e.privileges = e.privileges ^ privileges.privileges;
            }
            proof {
                assert(self.grants@.take(i + 1).drop_last() =~= self.grants@.take(i as int));
            }
            if e.privileges != 0 {
                grants.push(e);
            }
            i = i + 1;
        }
        assert(self.grants@.take(self.grants@.len() as int) =~= self.grants@);
        self.grants = grants;
    }
}

/// How a grant object is written: `*.*`, `'db'.*` or `'db'.'table'`.
pub open spec fn object_text(o: GrantObjectView) -> Seq<char> {
    match o {
        GrantObjectView::Global => "*.*"@,
        GrantObjectView::Database(db) => "'"@ + db + "'.*"@,
        GrantObjectView::Table(db, t) => "'"@ + db + "'.'"@ + t + "'"@,
    }
}

/// How a grant is written: `GRANT <privileges> ON <object> TO '<user>'@'<host>'`,
/// with `ALL` for the privileges when the entry holds all that its object allows.
pub open spec fn entry_text(e: GrantEntry) -> Seq<char> {
    let privileges = if e.privileges & available_mask(e.object@) == available_mask(e.object@) {
        "ALL"@
    } else {
        joined_names(selected(privilege_order(), e.privileges))
    };
    "GRANT "@ + privileges + " ON "@ + object_text(e.object@) + " TO '"@ + e.user@ + "'@'"@ + e.host_pattern@ + "'"@
}

impl GrantObject {
    pub fn display(&self) -> (r: String)
        ensures
            r@ == object_text(self@),
    {
        match self {
            GrantObject::Global => String::from_str("*.*"),
            GrantObject::Database(db) => {
                let mut out = String::from_str("'");
                out.append(db.as_str());
                out.append("'.*");
                out
            },
            GrantObject::Table(db, t) => {
                let mut out = String::from_str("'");
                out.append(db.as_str());
                out.append("'.'");
                out.append(t.as_str());
                out.append("'");
                out
            },
        }
    }
}

impl GrantEntry {
    pub fn display(&self) -> (r: String)
        ensures
            r@ == entry_text(*self),
    {
        let privileges = if self.has_all_available_privileges() {
            String::from_str("ALL")
        } else {
            UserPrivilegeSet { privileges: self.privileges }.display()
        };
        let mut out = String::from_str("GRANT ");
        out.append(privileges.as_str());
        out.append(" ON ");
        out.append(self.object.display().as_str());
        out.append(" TO '");
        out.append(self.user.as_str());
        out.append("'@'");
        out.append(self.host_pattern.as_str());
        out.append("'");
        out
    }
}

} // verus!
