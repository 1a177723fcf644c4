use rustconn_window::groups::{
    connections_in_subtree, group_lookup_key, group_password_load, import_duplicates,
    parent_choices, parent_for_selection, password_source_at, password_value_visible,
    plan_new_group, rename_outcome, root_walk_ends, subtree_ids, sync_root, under_import_root,
    walk_to_root, GroupForm, GroupFormError, GroupPasswordLoad, GroupPath, GroupRecord, Placement, RenameOutcome,
    RootWalk,
};
use rustconn_window::credentials::{PasswordSourceKind, SecretBackend};

fn g(id: u128, parent: Option<u128>, import_sync: bool) -> GroupRecord {
    GroupRecord { id, parent_id: parent, name: format!("g{id}"), import_sync }
}

#[test]
fn subtree_collects_all_descendants() {
    let groups = vec![g(1, None, false), g(2, Some(1), false), g(3, Some(2), false), g(4, None, false), g(5, Some(4), false)];
    let mut ids = subtree_ids(&groups, 1);
    ids.sort();
    assert_eq!(ids, vec![1, 2, 3]);
    let mut ids = subtree_ids(&groups, 3);
    ids.sort();
    assert_eq!(ids, vec![3]);
    // a cycle of parents still ends
    let cyc = vec![g(1, Some(2), false), g(2, Some(1), false)];
    let mut ids = subtree_ids(&cyc, 1);
    ids.sort();
    assert_eq!(ids, vec![1, 2]);
}

#[test]
fn connections_of_a_subtree_in_list_order() {
    let groups = vec![g(1, None, false), g(2, Some(1), false), g(4, None, false)];
    let conns = vec![
        Placement { connection_id: 10, group_id: Some(2) },
        Placement { connection_id: 11, group_id: Some(4) },
        Placement { connection_id: 12, group_id: None },
        Placement { connection_id: 13, group_id: Some(1) },
    ];
    assert_eq!(connections_in_subtree(&groups, &conns, 1), vec![10, 13]);
}

#[test]
fn root_walks() {
    let groups = vec![g(1, None, true), g(2, Some(1), false), g(3, Some(9), false)];
    assert_eq!(walk_to_root(&groups, 2), RootWalk::Root { id: 1, import_sync: true });
    assert_eq!(walk_to_root(&groups, 3), RootWalk::Missing);
    assert_eq!(sync_root(&groups, 2), 1);
    assert_eq!(sync_root(&groups, 3), 3);
    assert!(under_import_root(&groups, Some(2)));
    assert!(!under_import_root(&groups, None));
    let cyc = vec![g(1, Some(2), false), g(2, Some(1), false)];
    assert!(!root_walk_ends(&cyc, 1));
    assert!(root_walk_ends(&groups, 2));
}

#[test]
fn parent_choices_sorted_case_insensitively() {
    let groups = vec![
        GroupPath { id: 1, path: "beta".into() },
        GroupPath { id: 2, path: "Alpha".into() },
        GroupPath { id: 3, path: "alpha/x".into() },
    ];
    let c = parent_choices(&groups, "(None - Root Level)", Some(1));
    assert_eq!(c.labels, vec!["(None - Root Level)".to_string(), "Alpha".into(), "alpha/x".into(), "beta".into()]);
    assert_eq!(c.ids, vec![None, Some(2), Some(3), Some(1)]);
    assert_eq!(c.selected, 3);
    let c2 = parent_choices(&groups, "root", None);
    assert_eq!(c2.selected, 0);
    assert_eq!(parent_for_selection(&c.ids, 2), Some(3));
    assert_eq!(parent_for_selection(&c.ids, 0), None);
    assert_eq!(parent_for_selection(&c.ids, 9), None);
}

#[test]
fn stable_order_for_equal_keys() {
    let groups = vec![
        GroupPath { id: 1, path: "Same".into() },
        GroupPath { id: 2, path: "same".into() },
    ];
    let c = parent_choices(&groups, "root", None);
    assert_eq!(c.ids, vec![None, Some(1), Some(2)]);
}

#[test]
fn password_sources_and_keys() {
    assert_eq!(password_source_at(0), PasswordSourceKind::Prompt);
    assert_eq!(password_source_at(1), PasswordSourceKind::Vault);
    assert_eq!(password_source_at(2), PasswordSourceKind::Variable);
    assert_eq!(password_source_at(3), PasswordSourceKind::Inherit);
    assert_eq!(password_source_at(4), PasswordSourceKind::NoPassword);
    assert!(password_value_visible(1));
    assert!(!password_value_visible(0));
    assert_eq!(group_lookup_key("Prod/Web"), "group:Prod-Web");
}

#[test]
fn password_load_decisions() {
    assert!(matches!(group_password_load("  ", 1, true, SecretBackend::KeePassXc, true), GroupPasswordLoad::NeedName));
    assert!(matches!(group_password_load("G", 0, true, SecretBackend::KeePassXc, true), GroupPasswordLoad::SelectVault));
    assert!(matches!(group_password_load("G", 1, true, SecretBackend::KdbxFile, false), GroupPasswordLoad::VaultNotConfigured));
    match group_password_load("G", 1, true, SecretBackend::KeePassXc, true) {
        GroupPasswordLoad::KeePass { entry_name } => assert_eq!(entry_name, "RustConn/Groups/G"),
        _ => panic!("expected keepass"),
    }
    match group_password_load("a/b", 1, false, SecretBackend::KeePassXc, true) {
        GroupPasswordLoad::Backend { lookup_key } => assert_eq!(lookup_key, "group:a-b"),
        _ => panic!("expected backend"),
    }
}

fn form(name: &str, user: &str, pw: &str, idx: u32, icon: &str) -> GroupForm {
    GroupForm {
        name: name.into(),
        username: user.into(),
        password: pw.into(),
        password_source_index: idx,
        domain: " ".into(),
        description: "".into(),
        icon: icon.into(),
    }
}

#[test]
fn new_group_plans() {
    assert_eq!(plan_new_group(&form("  ", "", "", 0, ""), true).err(), Some(GroupFormError::BlankName));
    assert_eq!(plan_new_group(&form("  ", "", "", 0, "bad"), false).err(), Some(GroupFormError::BlankName));
    assert_eq!(plan_new_group(&form("Web", "", "", 0, " bad "), false).err(), Some(GroupFormError::InvalidIcon));
    // A blank icon is never checked.
    assert!(plan_new_group(&form("Web", "", "", 0, "  "), false).is_ok());
    let p = plan_new_group(&form(" Web ", " bob ", "pw", 1, " 🇺🇦 "), true).unwrap();
    assert_eq!(p.name, " Web ");
    assert_eq!(p.username.as_deref(), Some(" bob "));
    assert_eq!(p.domain, None);
    assert_eq!(p.icon.as_deref(), Some("🇺🇦"));
    assert!(p.save_password);
    assert!(p.update_group);
    let p = plan_new_group(&form("Web", "", "pw", 4, ""), false).unwrap();
    assert!(!p.save_password);
    assert!(!p.update_group);
    assert_eq!(p.password_source, PasswordSourceKind::NoPassword);
}

#[test]
fn rename_outcomes() {
    assert!(matches!(rename_outcome("   ", "a", false, false), RenameOutcome::EmptyName));
    assert!(matches!(rename_outcome(" a ", "a", true, true), RenameOutcome::Unchanged));
    assert!(matches!(rename_outcome("b", "a", true, true), RenameOutcome::NameTaken));
    match rename_outcome(" b ", "a", false, true) {
        RenameOutcome::Rename(n) => assert_eq!(n, "b"),
        _ => panic!("expected rename"),
    }
}

#[test]
fn import_duplicates_by_lowercase_name() {
    let names = vec!["Web".to_string(), "db".to_string(), "WEB".to_string()];
    let d = import_duplicates(&names, &[true, false, false]);
    assert_eq!(d.is_duplicate, vec![true, false, true]);
    assert_eq!(d.count, 2);
    assert_eq!(d.kept, vec![1]);
    let d = import_duplicates(&names, &[false, false, false]);
    assert_eq!(d.count, 0);
    assert_eq!(d.kept, vec![0, 1, 2]);
}
