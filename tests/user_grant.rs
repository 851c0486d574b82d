use fusequery::privilege::{UserPrivilegeSet, UserPrivilegeType};
use fusequery::user_grant::{GrantError, GrantObject, UserGrantSet};

fn set_of(ps: &[UserPrivilegeType]) -> UserPrivilegeSet {
    let mut s = UserPrivilegeSet::empty();
    for p in ps {
        s.set_privilege(*p);
    }
    s
}

#[test]
fn objects_allow_their_privileges() {
    let db = GrantObject::Database("db".to_string());
    let table = GrantObject::Table("db".to_string(), "t".to_string());
    assert!(GrantObject::Global.allow_privilege(UserPrivilegeType::Super));
    assert!(!table.allow_privilege(UserPrivilegeType::Super));
    assert!(db.allow_privilege(UserPrivilegeType::Create));
    assert!(!table.allow_privilege(UserPrivilegeType::Create));
    assert_eq!(GrantObject::Global.available_privileges().privileges, 511);
    assert_eq!(db.available_privileges().privileges, 15);
    assert!(table.validate_privileges(set_of(&[UserPrivilegeType::Select])).is_ok());
    assert_eq!(
        table.validate_privileges(set_of(&[UserPrivilegeType::Select, UserPrivilegeType::Grant])),
        Err(GrantError::IllegalGrant)
    );
}

#[test]
fn grant_verify_and_revoke() {
    let mut grants = UserGrantSet::empty();
    let db = GrantObject::Database("db".to_string());
    grants.grant_privileges("u", "%", &db, set_of(&[UserPrivilegeType::Select]));
    assert!(grants.verify_database_privilege("u", "any.host", "db", UserPrivilegeType::Select));
    assert!(grants.verify_table_privilege("u", "h", "db", "t", UserPrivilegeType::Select));
    assert!(!grants.verify_table_privilege("u", "h", "other", "t", UserPrivilegeType::Select));
    assert!(!grants.verify_global_privilege("u", "h", UserPrivilegeType::Select));
    assert!(!grants.verify_database_privilege("v", "h", "db", UserPrivilegeType::Select));

    grants.grant_privileges("u", "%", &db, set_of(&[UserPrivilegeType::Insert]));
    assert_eq!(grants.entries().len(), 1);
    assert_eq!(grants.entries()[0].privileges, 12);

    grants.grant_privileges("u", "localhost", &GrantObject::Global, set_of(&[UserPrivilegeType::Super]));
    assert_eq!(grants.entries().len(), 2);
    assert!(grants.verify_global_privilege("u", "localhost", UserPrivilegeType::Super));
    assert!(!grants.verify_global_privilege("u", "remote", UserPrivilegeType::Super));

    grants.revoke_privileges("u", "%", &db, set_of(&[UserPrivilegeType::Select]));
    assert!(!grants.verify_database_privilege("u", "h", "db", UserPrivilegeType::Select));
    assert!(grants.verify_database_privilege("u", "h", "db", UserPrivilegeType::Insert));
    grants.revoke_privileges("u", "%", &db, set_of(&[UserPrivilegeType::Insert]));
    assert_eq!(grants.entries().len(), 1);
    assert!(grants.entries()[0].has_all_available_privileges() == false);
}

#[test]
fn grants_are_written_out() {
    assert_eq!(GrantObject::Global.display(), "*.*");
    assert_eq!(GrantObject::Database("db".to_string()).display(), "'db'.*");
    assert_eq!(GrantObject::Table("db".to_string(), "t".to_string()).display(), "'db'.'t'");
    let table = GrantObject::Table("db".to_string(), "t".to_string());
    let mut grants = UserGrantSet::empty();
    grants.grant_privileges("u", "%", &table, set_of(&[UserPrivilegeType::Insert, UserPrivilegeType::Select]));
    assert_eq!(grants.entries()[0].display(), "GRANT SELECT,INSERT ON 'db'.'t' TO 'u'@'%'");
    grants.grant_privileges("u", "%", &table, set_of(&[UserPrivilegeType::Usage]));
    assert_eq!(grants.entries()[0].display(), "GRANT ALL ON 'db'.'t' TO 'u'@'%'");
    assert_eq!(set_of(&[UserPrivilegeType::CreateUser, UserPrivilegeType::Usage]).display(), "USAGE,CREATE USER");
}
