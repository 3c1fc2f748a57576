//! Accounts and their administration.

use jscalendar::admin::{apply_update, check_delete, check_new_user, edit_user_form, form_error, list_users, new_user_form, plan_update, AdminUserFormBody, UpdatePlan};
use jscalendar::client::Credentials;
use jscalendar::auth::{account_login, login_target, LoginTarget};
use jscalendar::users::{bootstrap_plan, generate_random_password, hash_password, new_user, verify_password, BootstrapPlan, JmapSettings, Role, User};

fn user(name: &str, role: Role) -> User {
    new_user(name.to_string(), "hash".to_string(), role, JmapSettings::default())
}

fn form(username: &str, password: &str, role: &str) -> AdminUserFormBody {
    AdminUserFormBody {
        username: username.to_string(),
        password: password.to_string(),
        role: role.to_string(),
    }
}

#[test]
fn passwords_fit_their_hash_only() {
    let hash = hash_password("correct horse");
    assert!(hash.starts_with("$argon2"));
    assert!(verify_password("correct horse", &hash));
    assert!(!verify_password("wrong horse", &hash));
    assert!(!verify_password("correct horse", "not a hash"));
    assert_ne!(hash_password("correct horse"), hash);
}

#[test]
fn an_account_opens_with_its_password() {
    assert_eq!(login_target("  "), LoginTarget::Account);
    assert_eq!(login_target("mail.example.com"), LoginTarget::Server);
    let ada = new_user("ada".to_string(), hash_password("engine"), Role::User, JmapSettings::default());
    assert_eq!(account_login(Some(&ada), "engine"), Ok(ada.id.clone()));
    let refused = Err("wrong username or password".to_string());
    assert_eq!(account_login(Some(&ada), "engines"), refused);
    assert_eq!(account_login(None, "engine"), refused);
}

#[test]
fn random_passwords_differ() {
    let (a, b) = (generate_random_password(), generate_random_password());
    assert_ne!(a, b);
    assert!(a.len() >= 16);
    assert!(a.chars().all(|c| c.is_ascii_hexdigit()));
}

#[test]
fn roles_read_back() {
    for role in [Role::Admin, Role::User] {
        assert_eq!(Role::parse(role.as_str()), role);
    }
    assert_eq!(Role::parse("other"), Role::User);
}

#[test]
fn new_accounts_have_ids_of_their_own() {
    let (a, b) = (user("a", Role::User), user("b", Role::User));
    assert_ne!(a.id, b.id);
    assert_eq!(a.id.len(), 36);
    assert_eq!(&a.id[14..15], "4");
}

#[test]
fn connections_need_an_address_and_credentials() {
    let mut jmap = JmapSettings::default();
    assert!(!jmap.is_configured());
    assert!(jmap.credentials().is_none());
    jmap.server_url = "mail.example.com".to_string();
    jmap.token = "t".to_string();
    assert!(jmap.is_configured());
    assert!(matches!(jmap.credentials(), Some(Credentials::Bearer(t)) if t == "t"));
    jmap.token = String::new();
    jmap.username = "u".to_string();
    jmap.password = "p".to_string();
    assert!(jmap.is_configured());
    assert!(matches!(jmap.credentials(), Some(Credentials::Basic { .. })));
}

#[test]
fn the_first_account_is_an_administrator() {
    assert!(matches!(bootstrap_plan(None, None), BootstrapPlan::Create { password: None }));
    let admin = user("admin", Role::Admin);
    assert!(matches!(bootstrap_plan(Some(&admin), None), BootstrapPlan::Keep));
    match bootstrap_plan(Some(&admin), Some("secret".to_string())) {
        BootstrapPlan::Reset { id, wanted } => {
            assert_eq!(id, admin.id);
            assert_eq!(wanted, "secret");
        }
        other => panic!("{:?}", other),
    }
}

#[test]
fn accounts_are_listed() {
    let users = vec![user("ada", Role::Admin), user("bob", Role::User)];
    let rows = list_users(&users, &users[0].id);
    assert!(rows[0].is_self && !rows[1].is_self);
    assert_eq!(rows[1].username, "bob");
    assert!(!rows[1].jmap_configured);
    assert!(!new_user_form().editing);
    assert_eq!(edit_user_form(&users[1]).username, "bob");
    assert_eq!(form_error(true, "i", "n", "user", "bad").error.as_deref(), Some("bad"));
}

#[test]
fn new_accounts_are_checked() {
    let (name, role) = check_new_user(&form(" bob ", "longenough", "admin"), false).unwrap();
    assert_eq!((name.as_str(), role), ("bob", Role::Admin));
    assert!(check_new_user(&form("bob", "longenough", "user"), true).is_err());
    assert!(check_new_user(&form(" ", "longenough", "user"), false).is_err());
    assert!(check_new_user(&form("bob", "", "user"), false).is_err());
}

#[test]
fn the_last_administrator_stays() {
    let admin = user("ada", Role::Admin);
    let plan = plan_update(Some(&admin), &admin.id, "other", &form("ada", "", "user"), false, 1);
    assert!(matches!(plan, UpdatePlan::Refuse(_)));
    let plan = plan_update(Some(&admin), &admin.id, "other", &form("ada", "", "user"), false, 2);
    assert!(matches!(plan, UpdatePlan::Save { role: Role::User, password: None, .. }));
    assert!(matches!(
        plan_update(None, "x", "other", &form("ada", "", "user"), false, 2),
        UpdatePlan::NotFound
    ));
    assert!(check_delete(&admin.id, "other", Some(Role::Admin), 1).is_some());
    assert!(check_delete(&admin.id, &admin.id, Some(Role::Admin), 2).is_some());
    assert!(check_delete(&admin.id, "other", Some(Role::Admin), 2).is_none());
}

#[test]
fn a_change_keeps_what_is_not_named() {
    let before = user("ada", Role::Admin);
    let id = before.id.clone();
    let after = apply_update(before, "ada2".to_string(), Role::User, None);
    assert_eq!(after.id, id);
    assert_eq!(after.password_hash, "hash");
    assert_eq!((after.username.as_str(), after.role), ("ada2", Role::User));
}
