use sv_manage::backup::{backup_dir_of, copy_action, CopyAction, CopyError, CopyTracker, EntryKind, Progress};
use sv_manage::menu::{MenuHistory, MenuTable, MenuUrl, MenuUrlKind, PollKey, TransactionKey};
use sv_manage::modmeta::{side_both, Mods, ModsDefault, ModsWithCreditsList, Side};
use sv_manage::staging::{DelOnDrop, DelOnDropOwned, Name};
use sv_manage::text::escape_discord;

#[test]
fn escape_markup() {
    assert_eq!(escape_discord("a*b"), "a\\*b");
    assert_eq!(escape_discord("x\\y"), "x\\\\y");
    assert_eq!(escape_discord("l1\nl2\r"), "l1\\n\\*l2\\r");
    assert_eq!(escape_discord("[a](b) ~`#->:"), "\\[a\\]\\(b\\) \\~\\`\\#\\-\\>\\:");
    assert_eq!(escape_discord(""), "");
}

#[test]
fn copy_progress_accumulates() {
    let mut t = CopyTracker::new(100);
    assert_eq!(t.file_copied(40), Progress { copied: 40, total: 100 });
    assert_eq!(t.file_copied(0), Progress { copied: 40, total: 100 });
    assert_eq!(t.file_copied(60), Progress { copied: 100, total: 100 });
}

#[test]
fn symlinks_stop_the_copy() {
    assert_eq!(copy_action(EntryKind::Symlink), CopyAction::Fail(CopyError::Symlink));
    assert_eq!(copy_action(EntryKind::Other), CopyAction::Fail(CopyError::Unsupported));
    assert_eq!(copy_action(EntryKind::File), CopyAction::CopyFile);
    assert_eq!(copy_action(EntryKind::Dir), CopyAction::Descend);
}

#[test]
fn backup_dir_is_sibling() {
    assert_eq!(backup_dir_of("/srv/survival"), Some("/srv/survival.bak".to_string()));
    assert_eq!(backup_dir_of("/"), None);
    assert_eq!(backup_dir_of(""), None);
}

#[test]
fn menu_navigation() {
    let h = MenuHistory::new("main");
    assert_eq!(h.current.url, "main");
    assert!(h.exit_page().is_none());
    let pushed = MenuHistory {
        history: vec![MenuUrl::page("main", &[]), MenuUrl::page("server", &["s1"]), MenuUrl::action("start", &["s1"])],
        current: MenuUrl::page("result", &[]),
    };
    let back = pushed.exit_page().unwrap();
    assert_eq!(back.current.url, "server");
    assert_eq!(back.current.arguments, vec!["s1".to_string()]);
    assert_eq!(back.history.len(), 1);
    let back2 = back.exit_page().unwrap();
    assert_eq!(back2.current.url, "main");
    assert!(back2.exit_page().is_none());
    assert_eq!(MenuUrl::action("a", &["x", "y"]).kind, MenuUrlKind::Action);
    let entered = MenuHistory::new("main").enter_page(MenuUrl::page("mods", &["s1"]));
    assert_eq!(entered.current.url, "mods");
    assert_eq!(entered.history.len(), 1);
    assert_eq!(entered.exit_page().unwrap().current.url, "main");
}

#[test]
fn poll_and_transaction_keys() {
    assert_eq!(
        PollKey::mod_op("s".to_string(), "m".to_string()),
        PollKey::Mod { server: "s".to_string(), mod_id: "m".to_string() }
    );
    assert_eq!(TransactionKey::mod_op("s".to_string()), TransactionKey::Mod { server: "s".to_string() });
}

#[test]
fn mod_metadata_credits() {
    let m = Mods::WithCreditList(ModsWithCreditsList {
        mod_id: "id".to_string(),
        version: "1".to_string(),
        display_name: Some("Name".to_string()),
        logo_file: None,
        description: None,
        display_url: None,
        credits: Some(vec!["a".to_string(), "b".to_string(), "c".to_string()]),
        authors: Some("me".to_string()),
    });
    assert_eq!(m.credits(), Some("a, b, c".to_string()));
    assert_eq!(m.mod_id(), "id");
    assert_eq!(m.display_name(), Some("Name".to_string()));
    assert_eq!(m.authors(), Some("me"));
    let d = Mods::Default(ModsDefault {
        mod_id: "d".to_string(),
        version: "2".to_string(),
        display_name: None,
        logo_file: Some("logo.png".to_string()),
        description: Some("desc".to_string()),
        display_url: None,
        credits: Some("all".to_string()),
        authors: None,
    });
    assert_eq!(d.credits(), Some("all".to_string()));
    assert_eq!(d.version(), "2");
    assert_eq!(d.logo_file(), Some("logo.png".to_string()));
    assert_eq!(d.description(), Some("desc".to_string()));
    assert_eq!(d.display_url(), None);
    assert_eq!(d.authors(), None);
    assert_eq!(side_both(), Side::Both);
}

#[test]
fn staging_guards_release_paths() {
    let p = "/tmp/staged.jar".to_string();
    assert_eq!(DelOnDrop::new(&p).forgive(), "/tmp/staged.jar");
    assert_eq!(DelOnDropOwned::new(p.clone()).forgive(), p);
    let n = Name::new("alice".to_string(), "survival".to_string());
    assert_eq!(n.account, "alice");
    assert_eq!(n.server, "survival");
}

#[test]
fn menu_ids_round_trip() {
    let mut table = MenuTable::new();
    let menu = MenuHistory::new("main").enter_page(MenuUrl::page("server", &["s1"]));
    let id = menu.to_id(&mut table, 12345).unwrap();
    assert_eq!(id, "12345");
    assert_eq!(menu.to_id(&mut table, 777).unwrap(), "12345");
    assert_eq!(table.entries.len(), 1);
    let other = MenuHistory::new("other");
    assert_eq!(other.to_id(&mut table, 12345), None);
    assert_eq!(other.to_id(&mut table, 0).unwrap(), "0");
    let back = MenuHistory::from_id("12345", &table);
    assert!(back.same_as(&menu));
    let broken = MenuHistory::from_id("999", &table);
    assert_eq!(broken.current.url, "broken-999");
    assert_eq!(MenuHistory::from_id("x1", &table).current.url, "broken-x1");
    assert_eq!(MenuHistory::from_id("+0", &table).current.url, "other");
    let big = u128::MAX.to_string();
    assert_eq!(MenuHistory::new("m").to_id(&mut table, u128::MAX).unwrap(), big);
    assert_eq!(MenuHistory::from_id(&big, &table).current.url, "m");
    assert_eq!(MenuHistory::from_id("340282366920938463463374607431768211456", &table).current.url, "broken-340282366920938463463374607431768211456");
}
