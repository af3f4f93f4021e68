use sv_manage::notify::{get_notifs, push_notif, replace_notif_if, report_progress, Notification, Outbox, ZipProgress};
use sv_manage::status::Status;

#[test]
fn drain_returns_pending_and_clears() {
    let mut outbox = Outbox::new();
    push_notif(&mut outbox, "alice", Notification::ZipFailed("s".to_string(), "e".to_string()));
    push_notif(&mut outbox, "bob", Notification::ZipFile("t".to_string(), "u".to_string()));
    let got = get_notifs(&mut outbox, "alice");
    assert_eq!(got, vec![Notification::ZipFailed("s".to_string(), "e".to_string())]);
    assert!(get_notifs(&mut outbox, "alice").is_empty());
    assert_eq!(get_notifs(&mut outbox, "bob").len(), 1);
}

#[test]
fn drain_unknown_account_is_empty() {
    let mut outbox = Outbox::new();
    assert!(get_notifs(&mut outbox, "nobody").is_empty());
}

#[test]
fn progress_of_same_server_replaces() {
    let mut outbox = Outbox::new();
    report_progress(&mut outbox, "alice", Notification::BackupProgress("survival".to_string(), 1, 10));
    report_progress(&mut outbox, "alice", Notification::BackupProgress("survival".to_string(), 5, 10));
    report_progress(&mut outbox, "alice", Notification::BackupProgress("creative".to_string(), 2, 10));
    let got = get_notifs(&mut outbox, "alice");
    assert_eq!(
        got,
        vec![
            Notification::BackupProgress("survival".to_string(), 5, 10),
            Notification::BackupProgress("creative".to_string(), 2, 10),
        ]
    );
}

#[test]
fn terminal_notifications_append() {
    let mut outbox = Outbox::new();
    report_progress(&mut outbox, "a", Notification::ZipFailed("s".to_string(), "x".to_string()));
    report_progress(&mut outbox, "a", Notification::ZipFailed("s".to_string(), "x".to_string()));
    assert_eq!(get_notifs(&mut outbox, "a").len(), 2);
}

#[test]
fn replace_notif_if_uses_predicate() {
    let mut outbox = Outbox::new();
    push_notif(&mut outbox, "a", Notification::StatusChanged("s".to_string(), Status::Idle, Status::Starting));
    push_notif(&mut outbox, "a", Notification::ZipProgress("s".to_string(), ZipProgress::Zipping(1, 4)));
    replace_notif_if(&mut outbox, "a", Notification::ZipProgress("s".to_string(), ZipProgress::Zipping(3, 4)), |n| n.is_package_progress());
    replace_notif_if(&mut outbox, "a", Notification::RestoreProgress("s".to_string(), 1, 2), |n| n.is_restore_progress());
    let got = get_notifs(&mut outbox, "a");
    assert_eq!(
        got,
        vec![
            Notification::StatusChanged("s".to_string(), Status::Idle, Status::Starting),
            Notification::ZipProgress("s".to_string(), ZipProgress::Zipping(3, 4)),
            Notification::RestoreProgress("s".to_string(), 1, 2),
        ]
    );
}

#[test]
fn notification_kind_predicates() {
    let b = Notification::BackupProgress("s".to_string(), 0, 1);
    let r = Notification::RestoreProgress("s".to_string(), 0, 1);
    let z = Notification::ZipProgress("s".to_string(), ZipProgress::Uploading(0, 1));
    assert!(b.is_backup_progress() && !b.is_restore_progress() && !b.is_package_progress());
    assert!(r.is_restore_progress() && !r.is_backup_progress());
    assert!(z.is_package_progress() && !z.is_backup_progress());
}
