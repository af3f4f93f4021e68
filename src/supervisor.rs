use vstd::prelude::*;
use crate::notify::{Notification, Outbox, ZipProgress, coalesced, push_notif, report_progress};
use crate::protocol::Response;
use crate::status::Status;

verus! {

/// A request handed to a server's worker.
#[derive(Debug, Clone, PartialEq, Eq)]
pub enum Command {
    DoNothing,
    Console(String),
    Backup,
    Restore,
    ListMods(u64, u64),
    InstallMod(String, String),
    UninstallMod(String),
    UpdateMod(String, String),
    QueryMod(String),
    GenerateModsZip,
}

/// A mod-directory operation that needs the directory's current listing.
#[derive(Debug, Clone, PartialEq, Eq)]
pub enum ModRequest {
    List(u64, u64),
    Query(String),
    Install(String, String),
    Update(String, String),
    Uninstall(String),
}

/// How the worker answers a command: at once, or after consulting the mod directory.
#[derive(Debug, Clone, PartialEq, Eq)]
pub enum Route {
    Reply(Response),
    Mods(ModRequest),
    /// Forward the text to the running process.
    Console(String),
}

/// What to do with a child process that is being shut down.
#[derive(Debug, Clone, Copy, PartialEq, Eq, Structural)]
pub enum CleanupAction {
    /// It has exited.
    Done,
    /// The grace period ran out: terminate it.
    Kill,
    /// Write the shutdown directive to its input again.
    SendStop,
    /// Poll again later.
    Wait,
}

/// How console text reaches a running server.
#[derive(Debug, Clone, PartialEq, Eq)]
pub enum ConsoleAction {
    /// Through the connected remote console, whose output is the reply.
    ViaRcon(String),
    /// Written as a line to the process's input; no output comes back.
    ViaStdin(String),
}

/// Chooses the console path: the remote console when it is connected, else the
/// process input, one line per command.
pub fn console_action(text: String, rcon_connected: bool) -> (r: ConsoleAction)
    ensures
        rcon_connected ==> r == ConsoleAction::ViaRcon(text),
        !rcon_connected ==> (r matches ConsoleAction::ViaStdin(line) && line@ == text@ + "\n"@),
{
    if rcon_connected {
        ConsoleAction::ViaRcon(text)
    } else {
        let mut line = text;
        vstd::string::StringExecFns::append(&mut line, "\n");
        ConsoleAction::ViaStdin(line)
    }
}

/// The reply to console text written to the process input.
pub open spec fn stdin_ack_text() -> Seq<char> {
    "Command successfully sent, but output cannot be displayed because RCON is not enabled"@
}

pub fn stdin_console_reply() -> (r: Response)
    ensures
        r matches Response::CommandOutput(t) && t@ == stdin_ack_text(),
{
    Response::CommandOutput("Command successfully sent, but output cannot be displayed because RCON is not enabled".to_owned())
}

/// How long a graceful shutdown may take, in milliseconds.
pub const STOP_TIMEOUT_MS: u64 = 300000;
/// How often the shutdown directive is repeated, in milliseconds.
pub const STOP_INTERVAL_MS: u64 = 5000;

/// The state machine of one managed server.
pub struct Supervisor {
    pub account: String,
    pub server: String,
    pub status: Status,
    pub should_run: bool,
    pub reboot_queued: bool,
    pub mods_up_to_date: bool,
    /// A spawned server process is running (it has not been seen to end).
    pub process_alive: bool,
    /// The running process has a remote console configured.
    pub console_configured: bool,
    /// That remote console is connected and logged in.
    pub console_up: bool,
}

/// The status changes announced when a server at `current` is moved through `updates`:
/// one (old, new) pair for each update that changes the value.
pub open spec fn announced_changes(current: Status, updates: Seq<Status>) -> Seq<(Status, Status)>
    decreases updates.len(),
{
    if updates.len() == 0 {
        Seq::empty()
    } else {
        let next = updates[0];
        let head: Seq<(Status, Status)> = if next != current { seq![(current, next)] } else { Seq::empty() };
        head + announced_changes(next, updates.drop_first())
    }
}

/// Status changes are never announced as no-ops, and they chain: each one starts
/// where the previous one ended, so the observed history never repeats a value twice in a row.
pub proof fn lemma_announced_changes_chain(current: Status, updates: Seq<Status>)
    ensures
        forall|i: int| 0 <= i < announced_changes(current, updates).len()
            ==> #[trigger] announced_changes(current, updates)[i].0 != announced_changes(current, updates)[i].1,
        forall|i: int| 0 <= i < announced_changes(current, updates).len() - 1
            ==> #[trigger] announced_changes(current, updates)[i].1 == announced_changes(current, updates)[i + 1].0,
        announced_changes(current, updates).len() > 0 ==> announced_changes(current, updates)[0].0 == current,
    decreases updates.len(),
{
    if updates.len() > 0 {
        let next = updates[0];
        let rest = updates.drop_first();
        lemma_announced_changes_chain(next, rest);
        let tail = announced_changes(next, rest);
        let head: Seq<(Status, Status)> = if next != current { seq![(current, next)] } else { Seq::empty() };
        let all = announced_changes(current, updates);
        assert(all == head + tail);
        assert forall|i: int| 0 <= i < all.len() - 1 implies #[trigger] all[i].1 == all[i + 1].0 by {
            if head.len() == 1 && i == 0 {
                if tail.len() > 0 {
                    assert(tail[0].0 == next);
                }
            } else {
                assert(all[i] == tail[i - head.len()]);
                assert(all[i + 1] == tail[i + 1 - head.len()]);
            }
        }
        assert forall|i: int| 0 <= i < all.len() implies #[trigger] all[i].0 != all[i].1 by {
            if head.len() == 1 && i == 0 {
            } else {
                assert(all[i] == tail[i - head.len()]);
            }
        }
    }
}

/// The notifications that announce `changes` for `server`.
pub open spec fn change_notifications(server: String, changes: Seq<(Status, Status)>) -> Seq<Notification> {
    Seq::new(changes.len(), |i: int| Notification::StatusChanged(server, changes[i].0, changes[i].1))
}

impl Supervisor {
    /// `Running` is reported only while a spawned process is alive and, where it has
    /// a remote console configured, once that console is connected.
    pub open spec fn well_formed(&self) -> bool {
        self.status == Status::Running ==> self.process_alive && (self.console_configured ==> self.console_up)
    }

    /// A supervisor for a server that is not running yet.
    pub fn new(account: String, server: String, should_run: bool) -> (r: Supervisor)
        ensures
            r.account == account,
            r.server == server,
            r.status == Status::Idle,
            r.should_run == should_run,
            !r.reboot_queued,
            !r.mods_up_to_date,
            !r.process_alive,
            r.well_formed(),
    {
        Supervisor {
            account,
            server,
            status: Status::Idle,
            should_run,
            reboot_queued: false,
            mods_up_to_date: false,
            process_alive: false,
            console_configured: false,
            console_up: false,
        }
    }

    /// Moves to `status`, announcing the change to the account only when the value differs.
    pub(crate) fn update_status(&mut self, outbox: &mut Outbox, status: Status)
        requires
            old(outbox).well_formed(),
        ensures
            final(outbox).well_formed(),
            final(self).status == status,
            final(self).account == old(self).account,
            final(self).server == old(self).server,
            final(self).should_run == old(self).should_run,
            final(self).reboot_queued == old(self).reboot_queued,
            final(self).mods_up_to_date == old(self).mods_up_to_date,
            final(self).process_alive == old(self).process_alive,
            final(self).console_configured == old(self).console_configured,
            final(self).console_up == old(self).console_up,
            final(outbox).pending_of(old(self).account@) == old(outbox).pending_of(old(self).account@)
                + change_notifications(old(self).server, announced_changes(old(self).status, seq![status])),
            forall|b: Seq<char>| b != old(self).account@ ==> final(outbox).pending_of(b) == old(outbox).pending_of(b),
    {
        let previous = self.status;
        self.status = status;
        let ghost changes = announced_changes(previous, seq![status]);
        proof {
            assert(seq![status].drop_first() =~= Seq::<Status>::empty());
            assert(announced_changes(status, Seq::<Status>::empty()) == Seq::<(Status, Status)>::empty());
        }
        if previous != status {
            let n = Notification::StatusChanged(self.server.clone(), previous, status);
            push_notif(outbox, self.account.as_str(), n);
            proof {
                assert(changes =~= seq![(previous, status)]);
                assert(change_notifications(self.server, changes) =~= seq![n]);
            }
        } else {
            proof {
                assert(changes =~= Seq::<(Status, Status)>::empty());
                assert(old(outbox).pending_of(self.account@) + change_notifications(self.server, changes)
                    =~= old(outbox).pending_of(self.account@));
            }
        }
    }

    /// Asks the worker to run the server.
    pub fn start(&mut self)
        requires
            old(self).well_formed(),
        ensures
            final(self).well_formed(),
            *final(self) == (Supervisor { should_run: true, ..*old(self) }),
    {
        self.should_run = true;
    }

    /// Asks the worker to stop the server.
    pub fn stop(&mut self)
        requires
            old(self).well_formed(),
        ensures
            final(self).well_formed(),
            *final(self) == (Supervisor { should_run: false, ..*old(self) }),
    {
        self.should_run = false;
    }

    /// Asks the worker to restart the server without an external stop.
    pub fn reboot(&mut self)
        requires
            old(self).well_formed(),
        ensures
            final(self).well_formed(),
            *final(self) == (Supervisor { should_run: true, reboot_queued: true, ..*old(self) }),
    {
        self.start();
        self.reboot_queued = true;
    }
}

/// The worker's own record after a launch begins: any queued reboot is consumed.
pub open spec fn launching(s: Supervisor) -> Supervisor {
    Supervisor { status: Status::Starting, reboot_queued: false, process_alive: false, console_up: false, ..s }
}

/// After the process has spawned: without a remote console it counts as running at
/// once; with one it is `Starting` until the console connects.
pub open spec fn spawned(s: Supervisor, console_configured: bool) -> Supervisor {
    Supervisor {
        status: if console_configured { Status::Starting } else { Status::Running },
        process_alive: true,
        console_configured,
        console_up: false,
        ..s
    }
}

/// After the remote console connected: `Running`, provided the process is alive.
pub open spec fn attached(s: Supervisor) -> Supervisor {
    if s.process_alive { Supervisor { status: Status::Running, console_up: true, ..s } } else { s }
}

/// The status actually resumed after a mod change or packaging: `Running` only while
/// the process backs it, `Starting` otherwise.
pub open spec fn resumed(s: Supervisor, resume: Status) -> Status {
    if resume == Status::Running && !(s.process_alive && (s.console_configured ==> s.console_up)) {
        Status::Starting
    } else {
        resume
    }
}

/// The progress report of a backup, or of a restore.
pub open spec fn copy_report(server: String, restoring: bool, copied: u64, total: u64) -> Notification {
    if restoring {
        Notification::RestoreProgress(server, copied, total)
    } else {
        Notification::BackupProgress(server, copied, total)
    }
}

/// A backup that failed leaves no backup directory behind.
pub open spec fn backup_discarded(restoring: bool, error: Option<String>) -> bool {
    !restoring && error is Some
}

/// Whether packaging has to compress the mod directory again.
pub open spec fn packaging_compresses(s: Supervisor) -> bool {
    !s.mods_up_to_date
}

impl Supervisor {
    /// Begins (or restarts) a launch of the server process.
    pub fn begin_launch(&mut self, outbox: &mut Outbox)
        requires
            old(self).well_formed(),
            old(outbox).well_formed(),
        ensures
            final(self).well_formed(),
            final(outbox).well_formed(),
            *final(self) == launching(*old(self)),
            final(outbox).pending_of(old(self).account@) == old(outbox).pending_of(old(self).account@)
                + change_notifications(old(self).server, announced_changes(old(self).status, seq![Status::Starting])),
            forall|b: Seq<char>| b != old(self).account@ ==> final(outbox).pending_of(b) == old(outbox).pending_of(b),
    {
        self.reboot_queued = false;
        self.process_alive = false;
        self.console_up = false;
        self.update_status(outbox, Status::Starting);
    }

    /// Records that the process was spawned.
    pub fn process_spawned(&mut self, outbox: &mut Outbox, console_configured: bool)
        requires
            old(self).well_formed(),
            old(outbox).well_formed(),
        ensures
            final(self).well_formed(),
            final(outbox).well_formed(),
            *final(self) == spawned(*old(self), console_configured),
            final(outbox).pending_of(old(self).account@) == old(outbox).pending_of(old(self).account@)
                + change_notifications(old(self).server, announced_changes(old(self).status,
                    seq![if console_configured { Status::Starting } else { Status::Running }])),
            forall|b: Seq<char>| b != old(self).account@ ==> final(outbox).pending_of(b) == old(outbox).pending_of(b),
    {
        self.process_alive = true;
        self.console_configured = console_configured;
        self.console_up = false;
        let next = if console_configured { Status::Starting } else { Status::Running };
        self.update_status(outbox, next);
    }

    /// Records that the remote console of the running process connected; the server
    /// is then `Running`. Without a live process nothing changes.
    pub fn console_attached(&mut self, outbox: &mut Outbox)
        requires
            old(self).well_formed(),
            old(outbox).well_formed(),
        ensures
            final(self).well_formed(),
            final(outbox).well_formed(),
            *final(self) == attached(*old(self)),
            !old(self).process_alive ==> *final(outbox) == *old(outbox),
            old(self).process_alive ==> final(outbox).pending_of(old(self).account@) == old(outbox).pending_of(old(self).account@)
                + change_notifications(old(self).server, announced_changes(old(self).status, seq![Status::Running])),
            forall|b: Seq<char>| b != old(self).account@ ==> final(outbox).pending_of(b) == old(outbox).pending_of(b),
    {
        if self.process_alive {
            self.console_up = true;
            self.update_status(outbox, Status::Running);
        }
    }

    /// The running loop ended: the server is `Stopping` while its process is shut down.
    pub fn begin_stopping(&mut self, outbox: &mut Outbox)
        requires
            old(self).well_formed(),
            old(outbox).well_formed(),
        ensures
            final(self).well_formed(),
            final(outbox).well_formed(),
            *final(self) == (Supervisor { status: Status::Stopping, ..*old(self) }),
            final(outbox).pending_of(old(self).account@) == old(outbox).pending_of(old(self).account@)
                + change_notifications(old(self).server, announced_changes(old(self).status, seq![Status::Stopping])),
            forall|b: Seq<char>| b != old(self).account@ ==> final(outbox).pending_of(b) == old(outbox).pending_of(b),
    {
        self.update_status(outbox, Status::Stopping);
    }

    /// Records that the process has ended (exited, or was shut down or killed); a
    /// server still reported `Running` moves to `Stopping`.
    pub fn process_ended(&mut self, outbox: &mut Outbox)
        requires
            old(self).well_formed(),
            old(outbox).well_formed(),
        ensures
            final(self).well_formed(),
            final(outbox).well_formed(),
            *final(self) == (Supervisor {
                process_alive: false,
                console_up: false,
                status: if old(self).status == Status::Running { Status::Stopping } else { old(self).status },
                ..*old(self)
            }),
            final(outbox).pending_of(old(self).account@) == old(outbox).pending_of(old(self).account@)
                + change_notifications(old(self).server, announced_changes(old(self).status,
                    seq![if old(self).status == Status::Running { Status::Stopping } else { old(self).status }])),
            forall|b: Seq<char>| b != old(self).account@ ==> final(outbox).pending_of(b) == old(outbox).pending_of(b),
    {
        self.process_alive = false;
        self.console_up = false;
        let next = if self.status == Status::Running { Status::Stopping } else { self.status };
        self.update_status(outbox, next);
    }

    /// The server no longer runs: back to `Idle`.
    pub fn finish_run(&mut self, outbox: &mut Outbox)
        requires
            old(self).well_formed(),
            old(outbox).well_formed(),
        ensures
            final(self).well_formed(),
            final(outbox).well_formed(),
            *final(self) == (Supervisor { status: Status::Idle, ..*old(self) }),
            final(outbox).pending_of(old(self).account@) == old(outbox).pending_of(old(self).account@)
                + change_notifications(old(self).server, announced_changes(old(self).status, seq![Status::Idle])),
            forall|b: Seq<char>| b != old(self).account@ ==> final(outbox).pending_of(b) == old(outbox).pending_of(b),
    {
        self.update_status(outbox, Status::Idle);
    }

    /// One check of the running loop: it goes on while the server should run and no
    /// reboot is queued; a queued reboot is consumed here.
    pub fn keep_running(&mut self) -> (r: bool)
        requires
            old(self).well_formed(),
        ensures
            final(self).well_formed(),
            r == (old(self).should_run && !old(self).reboot_queued),
            *final(self) == (Supervisor {
                reboot_queued: old(self).reboot_queued && !old(self).should_run,
                ..*old(self)
            }),
    {
        if !self.should_run {
            return false;
        }
        if self.reboot_queued {
            self.reboot_queued = false;
            return false;
        }
        true
    }

    /// Starts a backup; the copy itself is done by the caller.
    pub fn begin_backup(&mut self, outbox: &mut Outbox)
        requires
            old(self).well_formed(),
            old(outbox).well_formed(),
        ensures
            final(self).well_formed(),
            final(outbox).well_formed(),
            *final(self) == (Supervisor { status: Status::BackingUp, ..*old(self) }),
            final(outbox).pending_of(old(self).account@) == old(outbox).pending_of(old(self).account@)
                + change_notifications(old(self).server, announced_changes(old(self).status, seq![Status::BackingUp])),
            forall|b: Seq<char>| b != old(self).account@ ==> final(outbox).pending_of(b) == old(outbox).pending_of(b),
    {
        self.update_status(outbox, Status::BackingUp);
    }

    /// Starts a restore; the copy itself is done by the caller.
    pub fn begin_restore(&mut self, outbox: &mut Outbox)
        requires
            old(self).well_formed(),
            old(outbox).well_formed(),
        ensures
            final(self).well_formed(),
            final(outbox).well_formed(),
            *final(self) == (Supervisor { status: Status::Restoring, ..*old(self) }),
            final(outbox).pending_of(old(self).account@) == old(outbox).pending_of(old(self).account@)
                + change_notifications(old(self).server, announced_changes(old(self).status, seq![Status::Restoring])),
            forall|b: Seq<char>| b != old(self).account@ ==> final(outbox).pending_of(b) == old(outbox).pending_of(b),
    {
        self.update_status(outbox, Status::Restoring);
    }

    /// Reports how far a backup or restore copy has got.
    pub fn copy_progress(&self, outbox: &mut Outbox, restoring: bool, copied: u64, total: u64)
        requires
            old(outbox).well_formed(),
        ensures
            final(outbox).well_formed(),
            coalesced(old(outbox).pending_of(self.account@), final(outbox).pending_of(self.account@),
                copy_report(self.server, restoring, copied, total)),
            forall|b: Seq<char>| b != self.account@ ==> final(outbox).pending_of(b) == old(outbox).pending_of(b),
    {
        let server = self.server.clone();
        let n = if restoring {
            Notification::RestoreProgress(server, copied, total)
        } else {
            Notification::BackupProgress(server, copied, total)
        };
        report_progress(outbox, self.account.as_str(), n);
    }

    /// Ends a backup or restore: back to `Idle`, then a failure notice if it failed.
    /// Returns whether the backup directory must be discarded: a backup that failed
    /// part-way is never left behind to be restored later.
    pub fn finish_copy(&mut self, outbox: &mut Outbox, restoring: bool, error: Option<String>) -> (discard_backup: bool)
        requires
            old(self).well_formed(),
            old(outbox).well_formed(),
        ensures
            final(self).well_formed(),
            discard_backup == backup_discarded(restoring, error),
            final(outbox).well_formed(),
            *final(self) == (Supervisor { status: Status::Idle, ..*old(self) }),
            final(outbox).pending_of(old(self).account@) == old(outbox).pending_of(old(self).account@)
                + change_notifications(old(self).server, announced_changes(old(self).status, seq![Status::Idle]))
                + match error {
                    Some(e) => if restoring {
                        seq![Notification::RestoreFailed(old(self).server, e)]
                    } else {
                        seq![Notification::BackupFailed(old(self).server, e)]
                    },
                    None => Seq::empty(),
                },
            forall|b: Seq<char>| b != old(self).account@ ==> final(outbox).pending_of(b) == old(outbox).pending_of(b),
    {
        self.update_status(outbox, Status::Idle);
        let ghost mid = final(outbox).pending_of(self.account@);
        match error {
            Some(e) => {
                let server = self.server.clone();
                let n = if restoring { Notification::RestoreFailed(server, e) } else { Notification::BackupFailed(server, e) };
                push_notif(outbox, self.account.as_str(), n);
                !restoring
            },
            None => {
                proof { assert(mid + Seq::<Notification>::empty() =~= mid); }
                false
            },
        }
    }

    /// Starts packaging the mods; returns whether the archive must be built again
    /// (it is skipped when nothing changed since the last build).
    pub fn begin_packaging(&mut self, outbox: &mut Outbox) -> (r: bool)
        requires
            old(self).well_formed(),
            old(outbox).well_formed(),
        ensures
            final(self).well_formed(),
            final(outbox).well_formed(),
            r == packaging_compresses(*old(self)),
            r ==> *final(self) == (Supervisor { status: Status::Packaging, ..*old(self) }),
            r ==> final(outbox).pending_of(old(self).account@) == old(outbox).pending_of(old(self).account@)
                + change_notifications(old(self).server, announced_changes(old(self).status, seq![Status::Packaging])),
            !r ==> *final(self) == *old(self) && *final(outbox) == *old(outbox),
            forall|b: Seq<char>| b != old(self).account@ ==> final(outbox).pending_of(b) == old(outbox).pending_of(b),
    {
        if !self.mods_up_to_date {
            self.update_status(outbox, Status::Packaging);
            true
        } else {
            false
        }
    }

    /// Reports how much of the mod directory has been compressed.
    pub fn zip_progress(&self, outbox: &mut Outbox, copied: u64, total: u64)
        requires
            old(outbox).well_formed(),
        ensures
            final(outbox).well_formed(),
            coalesced(old(outbox).pending_of(self.account@), final(outbox).pending_of(self.account@),
                Notification::ZipProgress(self.server, ZipProgress::Zipping(copied, total))),
            forall|b: Seq<char>| b != self.account@ ==> final(outbox).pending_of(b) == old(outbox).pending_of(b),
    {
        let n = Notification::ZipProgress(self.server.clone(), ZipProgress::Zipping(copied, total));
        report_progress(outbox, self.account.as_str(), n);
    }

    fn resume_target(&self, resume: Status) -> (r: Status)
        ensures
            r == resumed(*self, resume),
    {
        if resume == Status::Running && !(self.process_alive && (!self.console_configured || self.console_up)) {
            Status::Starting
        } else {
            resume
        }
    }

    /// Starts changing the mod directory; returns the status to come back to.
    pub fn begin_modding(&mut self, outbox: &mut Outbox) -> (resume: Status)
        requires
            old(self).well_formed(),
            old(outbox).well_formed(),
        ensures
            final(self).well_formed(),
            resume == old(self).status,
            final(outbox).well_formed(),
            *final(self) == (Supervisor { status: Status::Modding, ..*old(self) }),
            final(outbox).pending_of(old(self).account@) == old(outbox).pending_of(old(self).account@)
                + change_notifications(old(self).server, announced_changes(old(self).status, seq![Status::Modding])),
            forall|b: Seq<char>| b != old(self).account@ ==> final(outbox).pending_of(b) == old(outbox).pending_of(b),
    {
        let resume = self.status;
        self.update_status(outbox, Status::Modding);
        resume
    }

    /// Ends a change of the mod directory: back to the status held before it began,
    /// and the packaged archive is stale when the directory did change.
    pub fn finish_modding(&mut self, outbox: &mut Outbox, resume: Status, changed: bool)
        requires
            old(self).well_formed(),
            old(outbox).well_formed(),
        ensures
            final(self).well_formed(),
            final(outbox).well_formed(),
            *final(self) == (Supervisor {
                status: resumed(*old(self), resume),
                mods_up_to_date: old(self).mods_up_to_date && !changed,
                ..*old(self)
            }),
            final(outbox).pending_of(old(self).account@) == old(outbox).pending_of(old(self).account@)
                + change_notifications(old(self).server, announced_changes(old(self).status, seq![resumed(*old(self), resume)])),
            forall|b: Seq<char>| b != old(self).account@ ==> final(outbox).pending_of(b) == old(outbox).pending_of(b),
    {
        if changed {
            self.mods_up_to_date = false;
        }
        let target = self.resume_target(resume);
        self.update_status(outbox, target);
    }

    /// Records that the archive now matches the mod directory.
    pub fn zip_built(&mut self)
        requires
            old(self).well_formed(),
        ensures
            final(self).well_formed(),
            *final(self) == (Supervisor { mods_up_to_date: true, ..*old(self) }),
    {
        self.mods_up_to_date = true;
    }

    /// Records that the mod directory changed, so the archive is stale.
    pub fn mods_changed(&mut self)
        requires
            old(self).well_formed(),
        ensures
            final(self).well_formed(),
            *final(self) == (Supervisor { mods_up_to_date: false, ..*old(self) }),
    {
        self.mods_up_to_date = false;
    }

    /// Ends packaging: back to `resume`, then the download link or the failure.
    pub fn finish_packaging(&mut self, outbox: &mut Outbox, resume: Status, result: Result<String, String>)
        requires
            old(self).well_formed(),
            old(outbox).well_formed(),
        ensures
            final(self).well_formed(),
            final(outbox).well_formed(),
            *final(self) == (Supervisor { status: resumed(*old(self), resume), ..*old(self) }),
            final(outbox).pending_of(old(self).account@) == old(outbox).pending_of(old(self).account@)
                + change_notifications(old(self).server, announced_changes(old(self).status, seq![resumed(*old(self), resume)]))
                + match result {
                    Ok(url) => seq![Notification::ZipFile(old(self).server, url)],
                    Err(e) => seq![Notification::ZipFailed(old(self).server, e)],
                },
            forall|b: Seq<char>| b != old(self).account@ ==> final(outbox).pending_of(b) == old(outbox).pending_of(b),
    {
        let target = self.resume_target(resume);
        self.update_status(outbox, target);
        let server = self.server.clone();
        let n = match result {
            Ok(url) => Notification::ZipFile(server, url),
            Err(e) => Notification::ZipFailed(server, e),
        };
        push_notif(outbox, self.account.as_str(), n);
    }
}

/// A start request on an idle server leads to `Starting`. Once the process has
/// spawned the server is `Running`, except that with a remote console configured it
/// stays `Starting` until that console connects. While no process is alive (every
/// spawn failed so far) no step brings it to `Running`: the console cannot attach
/// and a resumed `Running` becomes `Starting`. Every step keeps `well_formed`, so
/// `Running` always has a live process (and a connected console where one is configured).
pub proof fn lemma_start_reaches_running(s: Supervisor, console_configured: bool)
    requires
        s.status == Status::Idle,
    ensures
        launching(Supervisor { should_run: true, ..s }).status == Status::Starting,
        launching(Supervisor { should_run: true, ..s }).should_run,
        launching(Supervisor { should_run: true, ..s }).well_formed(),
        attached(launching(Supervisor { should_run: true, ..s })).status == Status::Starting,
        resumed(launching(Supervisor { should_run: true, ..s }), Status::Running) == Status::Starting,
        spawned(launching(Supervisor { should_run: true, ..s }), console_configured).status
            == (if console_configured { Status::Starting } else { Status::Running }),
        spawned(launching(Supervisor { should_run: true, ..s }), console_configured).well_formed(),
        attached(spawned(launching(Supervisor { should_run: true, ..s }), console_configured)).status == Status::Running,
        attached(spawned(launching(Supervisor { should_run: true, ..s }), console_configured)).well_formed(),
{
}

/// A well-formed supervisor that reports `Running` has a live process, and a
/// connected console where one is configured.
pub proof fn lemma_running_is_backed(s: Supervisor)
    requires
        s.well_formed(),
        s.status == Status::Running,
    ensures
        s.process_alive,
        s.console_configured ==> s.console_up,
{
}

/// Packaging twice with no mod change in between compresses at most once: after a
/// run that built the archive, the next run finds it up to date.
pub proof fn lemma_packaging_compresses_once(s: Supervisor, resume: Status)
    ensures
        !packaging_compresses(Supervisor { status: resume, ..Supervisor { mods_up_to_date: true, ..s } }),
        packaging_compresses(s) == !s.mods_up_to_date,
{
}

/// The answer to a command received while idle, and the work left deferred.
pub open spec fn idle_route(cmd: Command, deferred: Command, backup_exists: bool) -> (Route, Command) {
    match cmd {
        Command::Backup => (Route::Reply(Response::Success), Command::Backup),
        Command::Restore => if backup_exists {
            (Route::Reply(Response::Success), Command::Restore)
        } else {
            (Route::Reply(Response::NoBackup), deferred)
        },
        Command::GenerateModsZip => (Route::Reply(Response::Success), Command::GenerateModsZip),
        Command::ListMods(per_page, page) => (Route::Mods(ModRequest::List(per_page, page)), deferred),
        Command::QueryMod(id) => (Route::Mods(ModRequest::Query(id)), deferred),
        Command::InstallMod(p, f) => (Route::Mods(ModRequest::Install(p, f)), deferred),
        Command::UpdateMod(p, f) => (Route::Mods(ModRequest::Update(p, f)), deferred),
        Command::UninstallMod(id) => (Route::Mods(ModRequest::Uninstall(id)), deferred),
        _ => (Route::Reply(Response::InvalidState), deferred),
    }
}

/// A backup that fails part-way is discarded, so a later restore finds no backup
/// and answers `NoBackup` instead of restoring partial data; a restore is only
/// deferred (and thus carried out) when a backup is there.
pub proof fn lemma_partial_backup_never_restored(error: String, deferred: Command)
    ensures
        backup_discarded(false, Some(error)),
        idle_route(Command::Restore, deferred, false) == (Route::Reply(Response::NoBackup), deferred),
        idle_route(Command::Restore, deferred, true).1 == Command::Restore,
{
}

/// Answers a command received while the server is not running. Backup, restore
/// (when a backup exists) and packaging are accepted at once and left in `deferred`
/// for the worker to carry out next; mod operations go to the mod directory;
/// anything else is refused.
pub fn process_command_idle(cmd: Command, deferred: &mut Command, backup_exists: bool) -> (r: Route)
    ensures
        (r, *final(deferred)) == idle_route(cmd, *old(deferred), backup_exists),
{
    match cmd {
        Command::Backup => {
            *deferred = Command::Backup;
            Route::Reply(Response::Success)
        },
        Command::Restore => {
            if !backup_exists {
                Route::Reply(Response::NoBackup)
            } else {
                *deferred = Command::Restore;
                Route::Reply(Response::Success)
            }
        },
        Command::ListMods(per_page, page) => Route::Mods(ModRequest::List(per_page, page)),
        Command::QueryMod(id) => Route::Mods(ModRequest::Query(id)),
        Command::InstallMod(p, f) => Route::Mods(ModRequest::Install(p, f)),
        Command::UpdateMod(p, f) => Route::Mods(ModRequest::Update(p, f)),
        Command::UninstallMod(id) => Route::Mods(ModRequest::Uninstall(id)),
        Command::GenerateModsZip => {
            *deferred = Command::GenerateModsZip;
            Route::Reply(Response::Success)
        },
        _ => Route::Reply(Response::InvalidState),
    }
}

/// Answers a command received while the server process runs: console text goes
/// to the process, packaging is deferred as when idle, backup and restore are refused.
pub fn process_command_inloop(cmd: Command, deferred: &mut Command) -> (r: Route)
    ensures
        match cmd {
            Command::Console(text) => r == Route::Console(text) && *final(deferred) == *old(deferred),
            Command::GenerateModsZip => r == Route::Reply(Response::Success)
                && *final(deferred) == Command::GenerateModsZip,
            Command::ListMods(per_page, page) => r == Route::Mods(ModRequest::List(per_page, page))
                && *final(deferred) == *old(deferred),
            Command::QueryMod(id) => r == Route::Mods(ModRequest::Query(id)) && *final(deferred) == *old(deferred),
            Command::InstallMod(p, f) => r == Route::Mods(ModRequest::Install(p, f)) && *final(deferred) == *old(deferred),
            Command::UpdateMod(p, f) => r == Route::Mods(ModRequest::Update(p, f)) && *final(deferred) == *old(deferred),
            Command::UninstallMod(id) => r == Route::Mods(ModRequest::Uninstall(id)) && *final(deferred) == *old(deferred),
            _ => r == Route::Reply(Response::InvalidState) && *final(deferred) == *old(deferred),
        },
{
    match cmd {
        Command::Console(text) => Route::Console(text),
        Command::ListMods(per_page, page) => Route::Mods(ModRequest::List(per_page, page)),
        Command::QueryMod(id) => Route::Mods(ModRequest::Query(id)),
        Command::InstallMod(p, f) => Route::Mods(ModRequest::Install(p, f)),
        Command::UpdateMod(p, f) => Route::Mods(ModRequest::Update(p, f)),
        Command::UninstallMod(id) => Route::Mods(ModRequest::Uninstall(id)),
        Command::GenerateModsZip => {
            *deferred = Command::GenerateModsZip;
            Route::Reply(Response::Success)
        },
        _ => Route::Reply(Response::InvalidState),
    }
}

/// One poll of a child being shut down, given whether it has exited, the time since
/// shutdown began and the time since the directive was last written.
pub fn cleanup_step(exited: bool, elapsed_ms: u64, since_last_stop_ms: u64) -> (r: CleanupAction)
    ensures
        r == (if exited {
            CleanupAction::Done
        } else if elapsed_ms > STOP_TIMEOUT_MS {
            CleanupAction::Kill
        } else if since_last_stop_ms > STOP_INTERVAL_MS {
            CleanupAction::SendStop
        } else {
            CleanupAction::Wait
        }),
{
    if exited {
        CleanupAction::Done
    } else if elapsed_ms > STOP_TIMEOUT_MS {
        CleanupAction::Kill
    } else if since_last_stop_ms > STOP_INTERVAL_MS {
        CleanupAction::SendStop
    } else {
        CleanupAction::Wait
    }
}

} // verus!
