use sv_manage::notify::{get_notifs, Notification, Outbox};
use sv_manage::protocol::Response;
use sv_manage::status::{pretty_status, Status};
use sv_manage::supervisor::{console_action, stdin_console_reply, ConsoleAction};
use sv_manage::supervisor::{cleanup_step, process_command_idle, process_command_inloop, CleanupAction, Command, ModRequest, Route, Supervisor};

fn alice_survival() -> Supervisor {
    Supervisor::new("alice".to_string(), "survival".to_string(), false)
}

#[test]
fn status_change_is_announced_once() {
    let mut outbox = Outbox::new();
    let mut sup = alice_survival();
    sup.start();
    sup.begin_launch(&mut outbox);
    sup.begin_launch(&mut outbox);
    sup.process_spawned(&mut outbox, false);
    let got = get_notifs(&mut outbox, "alice");
    assert_eq!(
        got,
        vec![
            Notification::StatusChanged("survival".to_string(), Status::Idle, Status::Starting),
            Notification::StatusChanged("survival".to_string(), Status::Starting, Status::Running),
        ]
    );
}

#[test]
fn backup_scenario_for_alice() {
    let mut outbox = Outbox::new();
    let mut sup = alice_survival();
    let mut deferred = Command::DoNothing;
    let route = process_command_idle(Command::Backup, &mut deferred, false);
    assert_eq!(route, Route::Reply(Response::Success));
    assert_eq!(deferred, Command::Backup);
    sup.begin_backup(&mut outbox);
    let mut last = 0u64;
    for copied in [10u64, 30, 30, 60] {
        sup.copy_progress(&mut outbox, false, copied, 60);
        let pending = get_notifs(&mut outbox, "alice");
        for n in &pending {
            if let Notification::BackupProgress(s, c, t) = n {
                assert_eq!(s, "survival");
                assert_eq!(*t, 60);
                assert!(*c >= last);
                last = *c;
            }
        }
    }
    assert!(!sup.finish_copy(&mut outbox, false, None));
    let got = get_notifs(&mut outbox, "alice");
    assert_eq!(got, vec![Notification::StatusChanged("survival".to_string(), Status::BackingUp, Status::Idle)]);
    assert_eq!(sup.status, Status::Idle);
}

#[test]
fn restore_without_backup_is_refused() {
    let mut deferred = Command::DoNothing;
    assert_eq!(process_command_idle(Command::Restore, &mut deferred, false), Route::Reply(Response::NoBackup));
    assert_eq!(deferred, Command::DoNothing);
    assert_eq!(process_command_idle(Command::Restore, &mut deferred, true), Route::Reply(Response::Success));
    assert_eq!(deferred, Command::Restore);
}

#[test]
fn idle_refuses_console() {
    let mut deferred = Command::DoNothing;
    let r = process_command_idle(Command::Console("say hi".to_string()), &mut deferred, true);
    assert_eq!(r, Route::Reply(Response::InvalidState));
    assert_eq!(deferred, Command::DoNothing);
}

#[test]
fn idle_routes_mod_commands() {
    let mut deferred = Command::DoNothing;
    assert_eq!(process_command_idle(Command::ListMods(5, 1), &mut deferred, false), Route::Mods(ModRequest::List(5, 1)));
    assert_eq!(
        process_command_idle(Command::UninstallMod("x".to_string()), &mut deferred, false),
        Route::Mods(ModRequest::Uninstall("x".to_string()))
    );
    assert_eq!(process_command_idle(Command::GenerateModsZip, &mut deferred, false), Route::Reply(Response::Success));
    assert_eq!(deferred, Command::GenerateModsZip);
}

#[test]
fn running_forwards_console_and_refuses_backup() {
    let mut deferred = Command::DoNothing;
    assert_eq!(
        process_command_inloop(Command::Console("list".to_string()), &mut deferred),
        Route::Console("list".to_string())
    );
    assert_eq!(process_command_inloop(Command::Backup, &mut deferred), Route::Reply(Response::InvalidState));
}

#[test]
fn packaging_compresses_once() {
    let mut outbox = Outbox::new();
    let mut sup = alice_survival();
    let mut compressions = 0;
    for _ in 0..2 {
        if sup.begin_packaging(&mut outbox) {
            compressions += 1;
            sup.zip_built();
        }
        sup.finish_packaging(&mut outbox, Status::Idle, Ok("https://example/x".to_string()));
    }
    assert_eq!(compressions, 1);
    sup.mods_changed();
    assert!(sup.begin_packaging(&mut outbox));
}

#[test]
fn packaging_reports_link_or_failure() {
    let mut outbox = Outbox::new();
    let mut sup = alice_survival();
    assert!(sup.begin_packaging(&mut outbox));
    sup.finish_packaging(&mut outbox, Status::Idle, Err("boom".to_string()));
    let got = get_notifs(&mut outbox, "alice");
    assert_eq!(
        got,
        vec![
            Notification::StatusChanged("survival".to_string(), Status::Idle, Status::Packaging),
            Notification::StatusChanged("survival".to_string(), Status::Packaging, Status::Idle),
            Notification::ZipFailed("survival".to_string(), "boom".to_string()),
        ]
    );
}

#[test]
fn start_reaches_running() {
    let mut outbox = Outbox::new();
    let mut sup = alice_survival();
    sup.start();
    assert!(sup.keep_running());
    sup.begin_launch(&mut outbox);
    assert_eq!(sup.status, Status::Starting);
    sup.process_spawned(&mut outbox, true);
    assert_eq!(sup.status, Status::Starting);
    sup.console_attached(&mut outbox);
    assert_eq!(sup.status, Status::Running);
    let mut other = alice_survival();
    other.start();
    other.begin_launch(&mut outbox);
    other.process_spawned(&mut outbox, false);
    assert_eq!(other.status, Status::Running);
}

#[test]
fn reboot_is_consumed_once() {
    let mut sup = alice_survival();
    sup.reboot();
    assert!(sup.should_run);
    assert!(!sup.keep_running());
    assert!(sup.keep_running());
    sup.stop();
    assert!(!sup.keep_running());
}

#[test]
fn failed_restore_is_reported() {
    let mut outbox = Outbox::new();
    let mut sup = alice_survival();
    assert!(!sup.finish_copy(&mut outbox, true, Some("disk".to_string())));
    assert_eq!(get_notifs(&mut outbox, "alice"), vec![Notification::RestoreFailed("survival".to_string(), "disk".to_string())]);
}

#[test]
fn cleanup_decisions() {
    assert_eq!(cleanup_step(true, 999_999, 0), CleanupAction::Done);
    assert_eq!(cleanup_step(false, 300_001, 0), CleanupAction::Kill);
    assert_eq!(cleanup_step(false, 300_000, 5_001), CleanupAction::SendStop);
    assert_eq!(cleanup_step(false, 10, 5_000), CleanupAction::Wait);
}

#[test]
fn status_labels() {
    assert_eq!(pretty_status(Status::Idle), ":zzz: **Idle**");
    assert_eq!(pretty_status(Status::Restoring), ":leftwards_arrow_with_hook: **Restoring backup**");
    assert_eq!(pretty_status(Status::Packaging), ":package: **Packaging**");
}

#[test]
fn console_paths() {
    assert_eq!(console_action("list".to_string(), true), ConsoleAction::ViaRcon("list".to_string()));
    assert_eq!(console_action("list".to_string(), false), ConsoleAction::ViaStdin("list\n".to_string()));
    match stdin_console_reply() {
        Response::CommandOutput(t) => assert!(t.contains("RCON is not enabled")),
        _ => panic!("expected command output"),
    }
}

#[test]
fn failed_backup_is_discarded() {
    let mut outbox = Outbox::new();
    let mut sup = alice_survival();
    sup.begin_backup(&mut outbox);
    assert!(sup.finish_copy(&mut outbox, false, Some("copy failed".to_string())));
    let mut deferred = Command::DoNothing;
    assert_eq!(process_command_idle(Command::Restore, &mut deferred, false), Route::Reply(Response::NoBackup));
}

#[test]
fn modding_returns_to_previous_status() {
    let mut outbox = Outbox::new();
    let mut sup = alice_survival();
    sup.start();
    sup.begin_launch(&mut outbox);
    sup.process_spawned(&mut outbox, true);
    sup.zip_built();
    let resume = sup.begin_modding(&mut outbox);
    assert_eq!(sup.status, Status::Modding);
    sup.finish_modding(&mut outbox, resume, true);
    assert_eq!(sup.status, Status::Starting);
    assert!(!sup.mods_up_to_date);
}

#[test]
fn running_needs_a_live_process() {
    let mut outbox = Outbox::new();
    let mut sup = alice_survival();
    sup.start();
    sup.begin_launch(&mut outbox);
    sup.console_attached(&mut outbox);
    assert_eq!(sup.status, Status::Starting);
    let resume = sup.begin_modding(&mut outbox);
    sup.finish_modding(&mut outbox, resume, false);
    assert_eq!(sup.status, Status::Starting);
    sup.finish_packaging(&mut outbox, Status::Running, Ok("u".to_string()));
    assert_eq!(sup.status, Status::Starting);
    sup.process_spawned(&mut outbox, false);
    assert_eq!(sup.status, Status::Running);
    sup.process_ended(&mut outbox);
    assert_eq!(sup.status, Status::Stopping);
    assert!(!sup.process_alive);
    sup.stop();
    sup.finish_run(&mut outbox);
    assert_eq!(sup.status, Status::Idle);
    sup.begin_restore(&mut outbox);
    assert_eq!(sup.status, Status::Restoring);
}
