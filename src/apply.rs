use vstd::prelude::*;
use crate::model::{HostsEntry, HostsError, EntryView, entry_views, duplicate_entries};
use crate::codec::{render_text, stamp_text, serialize_hosts};
use crate::paths::{Platform, get_hosts_file_path, hosts_path_of};
use crate::store::{ProfileStore, has_id, index_of};

verus! {

/// Where a backup-then-write of the live hosts file stands.
#[derive(Clone, Copy, Debug, PartialEq, Eq, Structural)]
pub enum ApplyPhase {
    Ready,
    BackingUp,
    Writing,
    Done,
    Failed,
}

/// What the outside world reports back to a transaction.
pub enum ApplyEvent {
    Begin,
    BackupTaken(Result<String, HostsError>),
    WriteDone(Result<(), HostsError>),
}

/// What a transaction asks the outside world to do next.
pub enum ApplyAction {
    /// Copy the live file at this path into a new backup.
    TakeBackup(String),
    /// Write this content to the live file at this path, with elevated rights.
    WriteLive(String, String),
    /// The transaction is over, with this outcome.
    Finish(Result<(), HostsError>),
    /// The event does not fit the phase: nothing to do.
    Wait,
}

/// The phase that follows an event.
pub open spec fn next_phase(p: ApplyPhase, ev: ApplyEvent) -> ApplyPhase {
    match (p, ev) {
        (ApplyPhase::Ready, ApplyEvent::Begin) => ApplyPhase::BackingUp,
        (ApplyPhase::BackingUp, ApplyEvent::BackupTaken(Ok(_))) => ApplyPhase::Writing,
        (ApplyPhase::BackingUp, ApplyEvent::BackupTaken(Err(_))) => ApplyPhase::Failed,
        (ApplyPhase::Writing, ApplyEvent::WriteDone(Ok(_))) => ApplyPhase::Done,
        (ApplyPhase::Writing, ApplyEvent::WriteDone(Err(_))) => ApplyPhase::Failed,
        _ => p,
    }
}

/// The live file is written only after a backup of it was taken: the writing
/// phase is entered only from the backing-up phase on a successful backup, and
/// a failed write ends the transaction failed, with that backup left in place.
pub proof fn lemma_write_follows_backup(p: ApplyPhase, ev: ApplyEvent)
    ensures
        next_phase(p, ev) is Writing && !(p is Writing) ==> (p is BackingUp
            && ev matches ApplyEvent::BackupTaken(Ok(_))),
        (p is Writing && ev matches ApplyEvent::WriteDone(Err(_))) ==> next_phase(p, ev) is Failed,
        p is Ready ==> !(next_phase(p, ev) is Writing),
{
}

/// Makes a set of entries the live hosts file: a backup first, then the write.
pub struct ApplyTxn {
    phase: ApplyPhase,
    entries: Vec<HostsEntry>,
    live_path: String,
}

impl ApplyTxn {
    pub closed spec fn spec_phase(&self) -> ApplyPhase {
        self.phase
    }

    pub closed spec fn spec_entries(&self) -> Seq<EntryView> {
        entry_views(self.entries@)
    }

    pub closed spec fn spec_live_path(&self) -> Seq<char> {
        self.live_path@
    }

    /// Where the transaction stands.
    pub fn phase(&self) -> (r: ApplyPhase)
        ensures
            r == self.spec_phase(),
    {
        self.phase
    }

    /// A transaction that will write the given entries to the live file at the path.
    pub fn for_entries(entries: Vec<HostsEntry>, live_path: String) -> (r: ApplyTxn)
        ensures
            r.spec_phase() == ApplyPhase::Ready,
            r.spec_entries() == entry_views(entries@),
            r.spec_live_path() == live_path@,
    {
        ApplyTxn { phase: ApplyPhase::Ready, entries, live_path }
    }

    /// Takes one event and gives the next action.
    pub fn step(&mut self, event: ApplyEvent) -> (r: ApplyAction)
        ensures
            final(self).spec_phase() == next_phase(old(self).spec_phase(), event),
            final(self).spec_entries() == old(self).spec_entries(),
            final(self).spec_live_path() == old(self).spec_live_path(),
            old(self).spec_phase() is Ready && event is Begin ==> (r matches ApplyAction::TakeBackup(p)
                && p@ == old(self).spec_live_path()),
            (old(self).spec_phase() is BackingUp && event matches ApplyEvent::BackupTaken(Ok(_))) ==> (
            r matches ApplyAction::WriteLive(p, c) && p@ == old(self).spec_live_path() && exists|
                stamp: Seq<char>,
            |
                stamp_text(stamp) && c@ == render_text(old(self).spec_entries(), stamp)),
            old(self).spec_phase() is BackingUp ==> (event matches ApplyEvent::BackupTaken(Err(e)) ==> r
                == ApplyAction::Finish(Err(e))),
            old(self).spec_phase() is Writing ==> (event matches ApplyEvent::WriteDone(res) ==> r
                == ApplyAction::Finish(res)),
            r is WriteLive ==> old(self).spec_phase() is BackingUp,
            r is TakeBackup ==> old(self).spec_phase() is Ready,
            next_phase(old(self).spec_phase(), event) == old(self).spec_phase() ==> r is Wait,
    {
        match (self.phase, event) {
            (ApplyPhase::Ready, ApplyEvent::Begin) => {
                self.phase = ApplyPhase::BackingUp;
                ApplyAction::TakeBackup(self.live_path.clone())
            },
            (ApplyPhase::BackingUp, ApplyEvent::BackupTaken(Ok(_))) => {
                self.phase = ApplyPhase::Writing;
                let content = serialize_hosts(&self.entries);
                ApplyAction::WriteLive(self.live_path.clone(), content)
            },
            (ApplyPhase::BackingUp, ApplyEvent::BackupTaken(Err(e))) => {
                self.phase = ApplyPhase::Failed;
                ApplyAction::Finish(Err(e))
            },
            (ApplyPhase::Writing, ApplyEvent::WriteDone(res)) => {
                self.phase = if res.is_ok() {
                    ApplyPhase::Done
                } else {
                    ApplyPhase::Failed
                };
                ApplyAction::Finish(res)
            },
            _ => ApplyAction::Wait,
        }
    }
}

/// Starts making a saved profile the live hosts file. Fails with not-found
/// where no profile has the id (and no backup is asked for), else with a
/// system error where the platform has no known hosts file.
pub fn apply_profile(store: &ProfileStore, profile_id: &String, platform: Platform) -> (r: Result<
    ApplyTxn,
    HostsError,
>)
    requires
        store.wf(),
    ensures
        !has_id(store@, profile_id@) ==> (r matches Err(e) && e matches HostsError::NotFound(m)
            && m@ == "Profile not found"@),
        has_id(store@, profile_id@) && hosts_path_of(platform) is None ==> (r matches Err(e)
            && e is System),
        has_id(store@, profile_id@) && hosts_path_of(platform) is Some ==> (r matches Ok(t)
            && t.spec_phase() == ApplyPhase::Ready && t.spec_live_path() == hosts_path_of(platform)->0
            && t.spec_entries() == store@[index_of(store@, profile_id@)].entries),
{
    let i = match store.position(profile_id) {
        Some(i) => i,
        None => {
            return Err(HostsError::NotFound(String::from_str("Profile not found")));
        },
    };
    let live_path = match get_hosts_file_path(platform) {
        Ok(p) => p,
        Err(e) => {
            return Err(e);
        },
    };
    let profiles = store.get_profiles();
    let entries = duplicate_entries(&profiles[i].entries);
    Ok(ApplyTxn::for_entries(entries, live_path))
}

} // verus!
