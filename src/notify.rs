use vstd::prelude::*;
use crate::status::Status;
use crate::text::same_text;

verus! {

/// Progress of packaging a server's mods: bytes done out of a total.
#[derive(Debug, Clone, PartialEq, Eq)]
pub enum ZipProgress {
    Zipping(u64, u64),
    Uploading(u64, u64),
}

/// An asynchronous event reported to an account; the first field names the server.
#[derive(Debug, Clone, PartialEq, Eq)]
pub enum Notification {
    BackupFailed(String, String),
    RestoreFailed(String, String),
    StatusChanged(String, Status, Status),
    BackupProgress(String, u64, u64),
    RestoreProgress(String, u64, u64),
    ZipProgress(String, ZipProgress),
    ZipFailed(String, String),
    ZipFile(String, String),
}

/// Progress-shaped notifications: a newer one of the same kind supersedes it.
pub open spec fn is_progress(n: Notification) -> bool {
    n is BackupProgress || n is RestoreProgress || n is ZipProgress
}

impl Notification {
    pub fn is_backup_progress(&self) -> (r: bool)
        ensures
            r == (*self is BackupProgress),
    {
        match self {
            Notification::BackupProgress(..) => true,
            _ => false,
        }
    }

    pub fn is_restore_progress(&self) -> (r: bool)
        ensures
            r == (*self is RestoreProgress),
    {
        match self {
            Notification::RestoreProgress(..) => true,
            _ => false,
        }
    }

    pub fn is_package_progress(&self) -> (r: bool)
        ensures
            r == (*self is ZipProgress),
    {
        match self {
            Notification::ZipProgress(..) => true,
            _ => false,
        }
    }
}

/// The kinds of progress report.
#[derive(Debug, Clone, Copy, PartialEq, Eq, Structural)]
pub enum ProgressKind {
    Backup,
    Restore,
    Package,
}

/// The stream a progress report belongs to: its kind and its server.
pub open spec fn progress_stream(n: Notification) -> Option<(ProgressKind, Seq<char>)> {
    match n {
        Notification::BackupProgress(x, _, _) => Some((ProgressKind::Backup, x@)),
        Notification::RestoreProgress(x, _, _) => Some((ProgressKind::Restore, x@)),
        Notification::ZipProgress(x, _) => Some((ProgressKind::Package, x@)),
        _ => None,
    }
}

/// Two progress notifications of the same kind about the same server: the newer
/// supersedes the older in the outbox.
pub open spec fn same_progress_stream(a: Notification, b: Notification) -> bool {
    progress_stream(a) is Some && progress_stream(a) == progress_stream(b)
}

impl Notification {
    /// The stream of a progress report, or `None` for other notifications.
    pub fn progress_stream(&self) -> (r: Option<(ProgressKind, String)>)
        ensures
            match r {
                Some((k, x)) => progress_stream(*self) == Some((k, x@)),
                None => progress_stream(*self) is None,
            },
    {
        match self {
            Notification::BackupProgress(x, _, _) => Some((ProgressKind::Backup, x.clone())),
            Notification::RestoreProgress(x, _, _) => Some((ProgressKind::Restore, x.clone())),
            Notification::ZipProgress(x, _) => Some((ProgressKind::Package, x.clone())),
            _ => None,
        }
    }

    /// Whether this notification is a progress report of `kind` about `server`.
    pub fn in_stream(&self, kind: ProgressKind, server: &str) -> (r: bool)
        ensures
            r == (progress_stream(*self) == Some((kind, server@))),
    {
        match self {
            Notification::BackupProgress(x, _, _) => kind == ProgressKind::Backup && same_text(x.as_str(), server),
            Notification::RestoreProgress(x, _, _) => kind == ProgressKind::Restore && same_text(x.as_str(), server),
            Notification::ZipProgress(x, _) => kind == ProgressKind::Package && same_text(x.as_str(), server),
            _ => false,
        }
    }
}

/// The pending notifications of one account, oldest first.
pub struct AccountQueue {
    pub account: String,
    pub pending: Vec<Notification>,
}

/// Per-account queues of pending notifications, drained wholesale by polling clients.
pub struct Outbox {
    pub queues: Vec<AccountQueue>,
}

impl Outbox {
    /// Each account has at most one queue.
    pub open spec fn well_formed(&self) -> bool {
        forall|i: int, j: int|
            0 <= i < self.queues.len() && 0 <= j < self.queues.len() && i != j
                ==> #[trigger] self.queues[i].account@ != #[trigger] self.queues[j].account@
    }

    pub open spec fn has_queue(&self, account: Seq<char>) -> bool {
        exists|i: int| 0 <= i < self.queues.len() && #[trigger] self.queues[i].account@ == account
    }

    /// What is pending for `account`: empty where it has no queue.
    pub open spec fn pending_of(&self, account: Seq<char>) -> Seq<Notification> {
        if self.has_queue(account) {
            let i = choose|i: int| 0 <= i < self.queues.len() && #[trigger] self.queues[i].account@ == account;
            self.queues[i].pending@
        } else {
            Seq::empty()
        }
    }

    pub proof fn lemma_pending_at(&self, k: int)
        requires
            self.well_formed(),
            0 <= k < self.queues.len(),
        ensures
            self.pending_of(self.queues[k].account@) == self.queues[k].pending@,
    {
        let a = self.queues[k].account@;
        assert(self.has_queue(a));
        let i = choose|i: int| 0 <= i < self.queues.len() && #[trigger] self.queues[i].account@ == a;
        if i != k {
            assert(self.queues[i].account@ != self.queues[k].account@);
        }
    }

    pub fn new() -> (r: Outbox)
        ensures
            r.well_formed(),
            forall|a: Seq<char>| r.pending_of(a) == Seq::<Notification>::empty(),
    {
        Outbox { queues: Vec::new() }
    }

    fn find(&self, account: &str) -> (r: Option<usize>)
        ensures
            match r {
                Some(k) => k < self.queues.len() && self.queues[k as int].account@ == account@,
                None => !self.has_queue(account@),
            },
    {
        let mut i: usize = 0;
        while i < self.queues.len()
            invariant
                i <= self.queues.len(),
                forall|k: int| 0 <= k < i ==> self.queues[k].account@ != account@,
            decreases self.queues.len() - i,
        {
            if same_text(self.queues[i].account.as_str(), account) {
                return Some(i);
            }
            i = i + 1;
        }
        None
    }

    /// Replaces the queue at `k` by one with the same account and `pending`.
    proof fn lemma_replace_queue(old: &Outbox, new: &Outbox, k: int)
        requires
            old.well_formed(),
            0 <= k < old.queues.len(),
            new.queues.len() == old.queues.len(),
            forall|i: int| 0 <= i < old.queues.len() && i != k ==> new.queues[i] == old.queues[i],
            new.queues[k].account@ == old.queues[k].account@,
        ensures
            new.well_formed(),
            forall|b: Seq<char>| b != old.queues[k].account@ ==> new.pending_of(b) == old.pending_of(b),
            new.pending_of(old.queues[k].account@) == new.queues[k].pending@,
    {
        assert forall|i: int, j: int|
            0 <= i < new.queues.len() && 0 <= j < new.queues.len() && i != j
                implies #[trigger] new.queues[i].account@ != #[trigger] new.queues[j].account@ by {
            assert(old.queues[i].account@ != old.queues[j].account@);
        }
        new.lemma_pending_at(k);
        assert forall|b: Seq<char>| b != old.queues[k].account@ implies new.pending_of(b) == old.pending_of(b) by {
            if old.has_queue(b) {
                let i = choose|i: int| 0 <= i < old.queues.len() && #[trigger] old.queues[i].account@ == b;
                old.lemma_pending_at(i);
                new.lemma_pending_at(i);
            } else {
                if new.has_queue(b) {
                    let i = choose|i: int| 0 <= i < new.queues.len() && #[trigger] new.queues[i].account@ == b;
                    assert(old.queues[i].account@ == b);
                }
            }
        }
    }

    /// Appends a queue for an account that had none.
    proof fn lemma_add_queue(old: &Outbox, new: &Outbox)
        requires
            old.well_formed(),
            new.queues.len() == old.queues.len() + 1,
            forall|i: int| 0 <= i < old.queues.len() ==> new.queues[i] == old.queues[i],
            !old.has_queue(new.queues[old.queues.len() as int].account@),
        ensures
            new.well_formed(),
            forall|b: Seq<char>| b != new.queues[old.queues.len() as int].account@
                ==> new.pending_of(b) == old.pending_of(b),
            new.pending_of(new.queues[old.queues.len() as int].account@)
                == new.queues[old.queues.len() as int].pending@,
    {
        let n = old.queues.len() as int;
        assert forall|i: int, j: int|
            0 <= i < new.queues.len() && 0 <= j < new.queues.len() && i != j
                implies #[trigger] new.queues[i].account@ != #[trigger] new.queues[j].account@ by {
            if i < n && j < n {
                assert(old.queues[i].account@ != old.queues[j].account@);
            } else if i < n {
                assert(old.queues[i].account@ == new.queues[i].account@);
            } else {
                assert(old.queues[j].account@ == new.queues[j].account@);
            }
        }
        new.lemma_pending_at(n);
        assert forall|b: Seq<char>| b != new.queues[n].account@ implies new.pending_of(b) == old.pending_of(b) by {
            if old.has_queue(b) {
                let i = choose|i: int| 0 <= i < old.queues.len() && #[trigger] old.queues[i].account@ == b;
                old.lemma_pending_at(i);
                new.lemma_pending_at(i);
            } else {
                if new.has_queue(b) {
                    let i = choose|i: int| 0 <= i < new.queues.len() && #[trigger] new.queues[i].account@ == b;
                    assert(old.queues[i].account@ == b);
                }
            }
        }
    }
}

/// Drains and returns everything pending for `account` (read and clear).
pub fn get_notifs(outbox: &mut Outbox, account: &str) -> (r: Vec<Notification>)
    requires
        old(outbox).well_formed(),
    ensures
        final(outbox).well_formed(),
        r@ == old(outbox).pending_of(account@),
        final(outbox).pending_of(account@) == Seq::<Notification>::empty(),
        forall|b: Seq<char>| b != account@ ==> final(outbox).pending_of(b) == old(outbox).pending_of(b),
{
    match outbox.find(account) {
        None => Vec::new(),
        Some(k) => {
            proof { outbox.lemma_pending_at(k as int); }
            let ghost before = *outbox;
            let mut q = outbox.queues.remove(k);
            let taken = q.pending;
            q.pending = Vec::new();
            outbox.queues.insert(k, q);
            proof { Outbox::lemma_replace_queue(&before, outbox, k as int); }
            taken
        },
    }
}

/// Appends `notif` to the queue of `account`, creating the queue if needed.
pub fn push_notif(outbox: &mut Outbox, account: &str, notif: Notification)
    requires
        old(outbox).well_formed(),
    ensures
        final(outbox).well_formed(),
        final(outbox).pending_of(account@) == old(outbox).pending_of(account@).push(notif),
        forall|b: Seq<char>| b != account@ ==> final(outbox).pending_of(b) == old(outbox).pending_of(b),
{
    let ghost before = *outbox;
    match outbox.find(account) {
        None => {
            let mut pending = Vec::new();
            pending.push(notif);
            outbox.queues.push(AccountQueue { account: account.to_owned(), pending });
            proof {
                Outbox::lemma_add_queue(&before, outbox);
                assert(pending@ =~= Seq::<Notification>::empty().push(notif));
            }
        },
        Some(k) => {
            proof { outbox.lemma_pending_at(k as int); }
            let mut q = outbox.queues.remove(k);
            q.pending.push(notif);
            outbox.queues.insert(k, q);
            proof { Outbox::lemma_replace_queue(&before, outbox, k as int); }
        },
    }
}

/// The answers of a predicate scanned over a queue of length `n` until its first
/// `true`: all are `false` but possibly the last, and the scan stops early only on `true`.
pub open spec fn is_first_hit_scan(answers: Seq<bool>, n: nat) -> bool {
    &&& answers.len() <= n
    &&& forall|j: int| 0 <= j < answers.len() - 1 ==> !#[trigger] answers[j]
    &&& (answers.len() == n || (answers.len() > 0 && answers.last()))
}

/// Where `notif` lands in `queue` after such a scan: it overwrites the entry that
/// answered `true`, or is appended when none did.
pub open spec fn replace_first(queue: Seq<Notification>, notif: Notification, answers: Seq<bool>) -> Seq<Notification> {
    if answers.len() > 0 && answers.last() {
        queue.update(answers.len() - 1, notif)
    } else {
        queue.push(notif)
    }
}

/// Replaces the first pending notification of `account` for which `f` holds by
/// `notif`, or appends `notif` when there is none.
pub fn replace_notif_if<F>(outbox: &mut Outbox, account: &str, notif: Notification, f: F)
    where F: Fn(&Notification) -> bool
    requires
        old(outbox).well_formed(),
        forall|n: &Notification| #[trigger] f.requires((n,)),
    ensures
        final(outbox).well_formed(),
        exists|matched: Seq<bool>| {
            &&& is_first_hit_scan(matched, old(outbox).pending_of(account@).len())
            &&& forall|j: int| 0 <= j < matched.len()
                ==> f.ensures((&old(outbox).pending_of(account@)[j],), #[trigger] matched[j])
            &&& final(outbox).pending_of(account@) == replace_first(old(outbox).pending_of(account@), notif, matched)
        },
        forall|b: Seq<char>| b != account@ ==> final(outbox).pending_of(b) == old(outbox).pending_of(b),
{
    let ghost before = *outbox;
    match outbox.find(account) {
        None => {
            let mut pending = Vec::new();
            pending.push(notif);
            outbox.queues.push(AccountQueue { account: account.to_owned(), pending });
            proof {
                Outbox::lemma_add_queue(&before, outbox);
                assert(pending@ =~= Seq::<Notification>::empty().push(notif));
                let matched = Seq::<bool>::empty();
                assert(final(outbox).pending_of(account@) == replace_first(before.pending_of(account@), notif, matched));
            }
        },
        Some(k) => {
            proof { outbox.lemma_pending_at(k as int); }
            let mut q = outbox.queues.remove(k);
            let ghost old_pending = q.pending@;
            let ghost mut matched = Seq::<bool>::empty();
            let mut i: usize = 0;
            let mut found = false;
            while !found && i < q.pending.len()
                invariant
                    q.pending@ == old_pending,
                    i <= q.pending.len(),
                    forall|n: &Notification| #[trigger] f.requires((n,)),
                    !found ==> matched.len() == i,
                    found ==> matched.len() == i + 1 && i < q.pending.len() && matched.last(),
                    forall|j: int| 0 <= j < matched.len() - 1 ==> !#[trigger] matched[j],
                    !found ==> forall|j: int| 0 <= j < matched.len() ==> !#[trigger] matched[j],
                    forall|j: int| 0 <= j < matched.len() ==> f.ensures((&old_pending[j],), #[trigger] matched[j]),
                decreases q.pending.len() - i + (if found { 0int } else { 1int }),
            {
                let hit = f(&q.pending[i]);
                proof { matched = matched.push(hit); }
                if hit {
                    found = true;
                } else {
                    i = i + 1;
                }
            }
            if found {
                q.pending.set(i, notif);
            } else {
                q.pending.push(notif);
            }
            outbox.queues.insert(k, q);
            proof {
                Outbox::lemma_replace_queue(&before, outbox, k as int);
                assert(is_first_hit_scan(matched, old_pending.len()));
                assert(final(outbox).pending_of(account@) == replace_first(old_pending, notif, matched));
            }
        },
    }
}

/// `after` is `before` with the progress report `n` coalesced into it: `n` replaces
/// the first pending report of its stream, or is appended when there is none.
pub open spec fn coalesced(before: Seq<Notification>, after: Seq<Notification>, n: Notification) -> bool {
    exists|matched: Seq<bool>| {
        &&& #[trigger] is_first_hit_scan(matched, before.len())
        &&& forall|j: int| 0 <= j < matched.len() ==> #[trigger] matched[j] == same_progress_stream(n, before[j])
        &&& after == replace_first(before, n, matched)
    }
}

/// Queues a progress report for `account`, replacing the first pending report of
/// the same kind about the same server, or appending it when there is none.
pub fn report_progress(outbox: &mut Outbox, account: &str, notif: Notification)
    requires
        old(outbox).well_formed(),
    ensures
        final(outbox).well_formed(),
        coalesced(old(outbox).pending_of(account@), final(outbox).pending_of(account@), notif),
        forall|b: Seq<char>| b != account@ ==> final(outbox).pending_of(b) == old(outbox).pending_of(b),
{
    match notif.progress_stream() {
        Some((kind, server)) => {
            replace_notif_if(outbox, account, notif, |o: &Notification| -> (b: bool)
                ensures
                    b == (progress_stream(*o) == Some((kind, server@))),
            { o.in_stream(kind, server.as_str()) });
        },
        None => {
            push_notif(outbox, account, notif);
            proof {
                let matched = Seq::new(old(outbox).pending_of(account@).len(), |j: int| false);
                assert(is_first_hit_scan(matched, old(outbox).pending_of(account@).len()));
                assert(final(outbox).pending_of(account@) == replace_first(old(outbox).pending_of(account@), notif, matched));
            }
        },
    }
}

} // verus!
