//! Changes that touch both the registry and the credential store: in which order they
//! are made, and how they are taken back.

use crate::providers::{CredentialError, ManagerErrorView, ProviderManagerError};
use crate::registry::{CoreError, ProviderRegistry, ProviderView};
use crate::text::{insert_ordered, ordered, views};
use vstd::prelude::*;

verus! {

/// What reading a credential gave.
pub enum SecretRead {
    Found(String),
    Missing,
    Failed(CredentialError),
}

/// How a credential is brought back to what it was.
pub enum Restore {
    Put(String),
    Delete,
}

/// The next step of a change to a provider and its credential.
pub enum ChangeStep {
    /// The credential that is about to be replaced is read.
    Read { secret: String },
    /// The new credential is stored.
    Put { secret: String, previous: Option<String> },
    /// The registry is saved. What brings the credential back is kept at hand, where it
    /// was touched.
    Save { undo: Option<Restore> },
    /// The old registry is saved and the credential restored, where it was touched; the
    /// change has failed.
    RollBack { restore: Option<Restore>, error: CoreError },
    /// The change is made.
    Done,
    /// The change has failed.
    Fail(ProviderManagerError),
}

/// The first step of a change.
pub open spec fn change_begun(secret: Option<String>) -> ChangeStep {
    match secret {
        Some(secret) => ChangeStep::Read { secret },
        None => ChangeStep::Save { undo: None },
    }
}

/// Begins a change: with a new credential, the old one is read first. Without one the
/// credential is left alone.
pub fn begin_change(secret: Option<String>) -> (r: ChangeStep)
    ensures
        r == change_begun(secret),
{
    match secret {
        Some(secret) => ChangeStep::Read { secret },
        None => ChangeStep::Save { undo: None },
    }
}

/// The step after the old credential was read.
pub open spec fn after_read(secret: String, read: SecretRead) -> ChangeStep {
    match read {
        SecretRead::Found(previous) => ChangeStep::Put { secret, previous: Some(previous) },
        SecretRead::Missing => ChangeStep::Put { secret, previous: None },
        SecretRead::Failed(e) => ChangeStep::Fail(ProviderManagerError::Credential(e)),
    }
}

/// Goes on once the old credential was read. A failed reading ends the change: it must
/// not be taken for a credential that is not there.
pub fn change_after_read(secret: String, read: SecretRead) -> (r: ChangeStep)
    ensures
        r == after_read(secret, read),
{
    match read {
        SecretRead::Found(previous) => ChangeStep::Put { secret, previous: Some(previous) },
        SecretRead::Missing => ChangeStep::Put { secret, previous: None },
        SecretRead::Failed(e) => ChangeStep::Fail(ProviderManagerError::Credential(e)),
    }
}

/// How a credential is brought back to what it was.
pub open spec fn restored(previous: Option<String>) -> Restore {
    match previous {
        Some(secret) => Restore::Put(secret),
        None => Restore::Delete,
    }
}

/// How a credential is brought back to what it was.
pub fn restore_secret(previous: Option<String>) -> (r: Restore)
    ensures
        r == restored(previous),
{
    match previous {
        Some(secret) => Restore::Put(secret),
        None => Restore::Delete,
    }
}

/// The step after the new credential was stored.
pub open spec fn after_put(
    previous: Option<String>,
    outcome: Result<(), CredentialError>,
) -> ChangeStep {
    match outcome {
        Ok(_) => ChangeStep::Save { undo: Some(restored(previous)) },
        Err(e) => ChangeStep::Fail(ProviderManagerError::Credential(e)),
    }
}

/// Goes on once the new credential was stored.
pub fn change_after_put(previous: Option<String>, outcome: Result<(), CredentialError>) -> (r:
    ChangeStep)
    ensures
        r == after_put(previous, outcome),
{
    match outcome {
        Ok(_) => ChangeStep::Save { undo: Some(restore_secret(previous)) },
        Err(e) => ChangeStep::Fail(ProviderManagerError::Credential(e)),
    }
}

/// The step after the registry was saved.
pub open spec fn after_save(undo: Option<Restore>, outcome: Result<(), CoreError>) -> ChangeStep {
    match outcome {
        Ok(_) => ChangeStep::Done,
        Err(error) => ChangeStep::RollBack { restore: undo, error },
    }
}

/// Goes on once the registry was saved.
pub fn change_after_save(undo: Option<Restore>, outcome: Result<(), CoreError>) -> (r: ChangeStep)
    ensures
        r == after_save(undo, outcome),
{
    match outcome {
        Ok(_) => ChangeStep::Done,
        Err(error) => ChangeStep::RollBack { restore: undo, error },
    }
}

/// What a rolled back change reports: the failed saving, whatever became of the
/// rollback.
pub fn change_rolled_back(error: CoreError) -> (r: ChangeStep)
    ensures
        r == ChangeStep::Fail(ProviderManagerError::Core(error)),
{
    ChangeStep::Fail(ProviderManagerError::Core(error))
}

/// Whether bringing a credential back succeeded: one that is to be deleted may be gone
/// already.
pub fn restore_outcome(restore: &Restore, outcome: Result<(), CredentialError>) -> (r: Result<
    (),
    CredentialError,
>)
    ensures
        r is Ok <==> outcome is Ok || (restore is Delete && outcome->Err_0 is NotFound),
        r is Err ==> r == outcome,
{
    match outcome {
        Ok(_) => Ok(()),
        Err(CredentialError::NotFound(s)) => match restore {
            Restore::Delete => Ok(()),
            Restore::Put(_) => Err(CredentialError::NotFound(s)),
        },
        Err(e) => Err(e),
    }
}

/// What is stored of a credential once a step was carried out.
pub open spec fn stored_after(stored: Option<Seq<char>>, step: ChangeStep) -> Option<Seq<char>> {
    match step {
        ChangeStep::Put { secret, .. } => Some(secret@),
        ChangeStep::RollBack { restore: Some(Restore::Put(secret)), .. } => Some(secret@),
        ChangeStep::RollBack { restore: Some(Restore::Delete), .. } => None,
        _ => stored,
    }
}

/// What reading a stored credential gives, where it does not fail.
pub open spec fn reads(read: SecretRead, stored: Option<Seq<char>>) -> bool {
    match read {
        SecretRead::Found(secret) => stored == Some(secret@),
        SecretRead::Missing => stored is None,
        SecretRead::Failed(_) => false,
    }
}

/// What is stored of a credential once a change has run to its end, given what reading
/// the old credential gave and what saving the registry gave.
pub open spec fn stored_in_the_end(
    stored: Option<Seq<char>>,
    secret: Option<String>,
    read: SecretRead,
    outcome: Result<(), CoreError>,
) -> Option<Seq<char>> {
    match change_begun(secret) {
        ChangeStep::Save { undo } => stored_after(stored, after_save(undo, outcome)),
        ChangeStep::Read { secret } => match after_read(secret, read) {
            ChangeStep::Put { secret, previous } => {
                let put = stored_after(stored, ChangeStep::Put { secret, previous });
                match after_put(previous, Ok(())) {
                    ChangeStep::Save { undo } => stored_after(put, after_save(undo, outcome)),
                    _ => put,
                }
            },
            _ => stored,
        },
        _ => stored,
    }
}

/// A change whose registry cannot be saved leaves the credential as it was, with a new
/// credential and without one. A change that is saved leaves the new credential, or the
/// old one where there is no new one.
pub proof fn failed_changes_restore_the_credential(
    stored: Option<Seq<char>>,
    secret: Option<String>,
    read: SecretRead,
    outcome: Result<(), CoreError>,
)
    requires
        reads(read, stored),
    ensures
        stored_in_the_end(stored, secret, read, outcome) == (if outcome is Ok && secret is Some {
            Some(secret->0@)
        } else {
            stored
        }),
{
}

/// The next step of the removal of a provider.
pub enum RemovalStep {
    /// The provider's credential is read.
    Read { reference: String },
    /// The credential is deleted; it is kept at hand in case the removal fails.
    Delete { reference: String, secret: String },
    /// The registry is saved.
    Save { reference: String, deleted: Option<String> },
    /// The old registry is saved and the deleted credential stored again; the removal
    /// has failed.
    RollBack { reference: String, deleted: Option<String>, error: CoreError },
    /// The provider is removed.
    Done,
    /// The removal has failed.
    Fail(ProviderManagerError),
}

/// Begins the removal of a provider: it leaves the registry, which is not saved yet.
/// Its credential goes with it where that is asked for.
pub fn remove_provider(registry: &mut ProviderRegistry, id: &str, purge_credential: bool) -> (r:
    RemovalStep)
    ensures
        match old(registry)@.without_provider(id@) {
            Ok(after) => {
                let reference = old(registry)@.provider(id@)->0.credential_reference;
                &&& final(registry)@ == after
                &&& old(registry)@.provider(id@) is Some
                &&& if purge_credential {
                    r is Read && r->Read_reference@ == reference
                } else {
                    r is Save && r->Save_reference@ == reference && r->Save_deleted is None
                }
            },
            Err(e) => {
                &&& *final(registry) == *old(registry)
                &&& r is Fail
                &&& r->Fail_0@ == ManagerErrorView::Core(e)
            },
        },
{
    match registry.remove_provider(id) {
        Ok(provider) => if purge_credential {
            RemovalStep::Read { reference: provider.credential_reference }
        } else {
            RemovalStep::Save { reference: provider.credential_reference, deleted: None }
        },
        Err(e) => RemovalStep::Fail(ProviderManagerError::Core(e)),
    }
}

/// The step after the credential of a removed provider was read.
pub open spec fn removal_read(reference: String, read: SecretRead) -> RemovalStep {
    match read {
        SecretRead::Found(secret) => RemovalStep::Delete { reference, secret },
        SecretRead::Missing => RemovalStep::Save { reference, deleted: None },
        SecretRead::Failed(e) => RemovalStep::Fail(ProviderManagerError::Credential(e)),
    }
}

/// Goes on once the credential was read. One that cannot be read ends the removal.
pub fn removal_after_read(reference: String, read: SecretRead) -> (r: RemovalStep)
    ensures
        r == removal_read(reference, read),
{
    match read {
        SecretRead::Found(secret) => RemovalStep::Delete { reference, secret },
        SecretRead::Missing => RemovalStep::Save { reference, deleted: None },
        SecretRead::Failed(e) => RemovalStep::Fail(ProviderManagerError::Credential(e)),
    }
}

/// The step after the credential of a removed provider was deleted.
pub open spec fn removal_deleted(
    reference: String,
    secret: String,
    outcome: Result<(), CredentialError>,
) -> RemovalStep {
    match outcome {
        Ok(_) => RemovalStep::Save { reference, deleted: Some(secret) },
        Err(e) => RemovalStep::Fail(ProviderManagerError::Credential(e)),
    }
}

/// Goes on once the credential was deleted.
pub fn removal_after_delete(
    reference: String,
    secret: String,
    outcome: Result<(), CredentialError>,
) -> (r: RemovalStep)
    ensures
        r == removal_deleted(reference, secret, outcome),
{
    match outcome {
        Ok(_) => RemovalStep::Save { reference, deleted: Some(secret) },
        Err(e) => RemovalStep::Fail(ProviderManagerError::Credential(e)),
    }
}

/// The step after the registry without the provider was saved.
pub open spec fn removal_saved(
    reference: String,
    deleted: Option<String>,
    outcome: Result<(), CoreError>,
) -> RemovalStep {
    match outcome {
        Ok(_) => RemovalStep::Done,
        Err(error) => RemovalStep::RollBack { reference, deleted, error },
    }
}

/// Goes on once the registry was saved.
pub fn removal_after_save(
    reference: String,
    deleted: Option<String>,
    outcome: Result<(), CoreError>,
) -> (r: RemovalStep)
    ensures
        r == removal_saved(reference, deleted, outcome),
{
    match outcome {
        Ok(_) => RemovalStep::Done,
        Err(error) => RemovalStep::RollBack { reference, deleted, error },
    }
}

/// What is stored of a removed provider's credential once a step was carried out.
pub open spec fn left_after(stored: Option<Seq<char>>, step: RemovalStep) -> Option<Seq<char>> {
    match step {
        RemovalStep::Delete { .. } => None,
        RemovalStep::RollBack { deleted: Some(secret), .. } => Some(secret@),
        _ => stored,
    }
}

/// A removal that purges the credential leaves none, and one whose registry cannot be
/// saved leaves the credential as it was.
pub proof fn failed_removals_restore_the_credential(
    stored: Option<Seq<char>>,
    reference: String,
    read: SecretRead,
    error: CoreError,
)
    requires
        reads(read, stored),
    ensures
        ({
            let deleted = match read {
                SecretRead::Found(secret) => Some(secret),
                _ => None,
            };
            let left = match read {
                SecretRead::Found(secret) => left_after(
                    stored,
                    RemovalStep::Delete { reference, secret },
                ),
                _ => stored,
            };
            &&& left is None
            &&& left_after(left, RemovalStep::RollBack { reference, deleted, error }) == stored
        }),
{
}

/// What a removal whose registry could not be saved reports: that the old registry
/// could not be saved either, else that the credential could not be brought back, else
/// the failed saving.
pub fn removal_error(
    error: CoreError,
    registry_rollback: Result<(), CoreError>,
    credential_rollback: Result<(), String>,
) -> (r: ProviderManagerError)
    ensures
        r == (match registry_rollback {
            Err(e) => ProviderManagerError::Core(e),
            Ok(_) => match credential_rollback {
                Err(e) => ProviderManagerError::Credential(CredentialError::Backend(e)),
                Ok(_) => ProviderManagerError::Core(error),
            },
        }),
{
    match registry_rollback {
        Err(e) => ProviderManagerError::Core(e),
        Ok(_) => match credential_rollback {
            Err(e) => ProviderManagerError::Credential(CredentialError::Backend(e)),
            Ok(_) => ProviderManagerError::Core(error),
        },
    }
}

/// A purge under way: which credentials are read and which are deleted. All are read
/// before the first is deleted.
pub struct PurgeRun {
    pub references: Vec<String>,
    pub read: usize,
    pub found: Vec<(String, String)>,
    pub deleted: usize,
    pub remove_registry: bool,
    pub removed: bool,
}

/// The next step of a purge.
pub enum PurgeStep {
    Read(String),
    Delete(String),
    RemoveRegistry,
    Done(usize),
}

/// A purge that has failed: the credentials that are put back, and what is reported.
pub struct PurgeFailure {
    pub restore: Vec<(String, String)>,
    pub error: ProviderManagerError,
}

/// Whether a reference is that of one of the providers.
pub open spec fn referenced(providers: Seq<ProviderView>, reference: Seq<char>) -> bool {
    exists|i: int|
        0 <= i < providers.len() && (#[trigger] providers[i]).credential_reference == reference
}

impl PurgeRun {
    /// Whether reading comes before deleting, and nothing but what was found is deleted.
    pub open spec fn well_formed(&self) -> bool {
        &&& self.read <= self.references@.len()
        &&& self.found@.len() <= self.read
        &&& self.deleted <= self.found@.len()
        &&& self.deleted > 0 ==> self.read == self.references@.len()
    }

    /// What is put back where a purge fails: exactly what was deleted.
    pub open spec fn put_back(&self) -> Seq<(String, String)> {
        self.found@.take(self.deleted as int)
    }

    /// The next step.
    pub open spec fn purge_next(&self) -> PurgeStep {
        if self.read < self.references@.len() {
            PurgeStep::Read(self.references@[self.read as int])
        } else if self.deleted < self.found@.len() {
            PurgeStep::Delete(self.found@[self.deleted as int].0)
        } else if self.remove_registry && !self.removed {
            PurgeStep::RemoveRegistry
        } else {
            PurgeStep::Done(self.deleted)
        }
    }

    /// Begins a purge. A registry that cannot be read stops it, unless the registry is
    /// to be removed as well: then no credential is known, and the file alone goes.
    pub fn begin(registry: Result<&ProviderRegistry, CoreError>, remove_registry: bool) -> (r: Result<
        PurgeRun,
        ProviderManagerError,
    >)
        ensures
            match r {
                Ok(run) => {
                    &&& run.well_formed()
                    &&& run.read == 0
                    &&& run.deleted == 0
                    &&& run.found@.len() == 0
                    &&& run.remove_registry == remove_registry
                    &&& !run.removed
                    &&& match registry {
                        Ok(registry) => {
                            &&& ordered(views(run.references@))
                            &&& forall|t: Seq<char>|
                                #[trigger] views(run.references@).contains(t) <==> referenced(
                                    registry@.providers,
                                    t,
                                )
                        },
                        Err(_) => remove_registry && run.references@.len() == 0,
                    }
                },
                Err(e) => {
                    &&& registry is Err
                    &&& !remove_registry
                    &&& e == ProviderManagerError::Core(registry->Err_0)
                },
            },
    {
        let mut references: Vec<String> = Vec::new();
        assert(views(references@) =~= Seq::empty());
        match registry {
            Ok(registry) => {
                let ghost all = registry@.providers;
                let mut i: usize = 0;
                while i < registry.providers.len()
                    invariant
                        i <= registry.providers@.len(),
                        all == registry@.providers,
                        ordered(views(references@)),
                        forall|t: Seq<char>|
                            #[trigger] views(references@).contains(t) <==> referenced(
                                all.take(i as int),
                                t,
                            ),
                    decreases registry.providers@.len() - i,
                {
                    let ghost before = views(references@);
                    insert_ordered(&mut references, &registry.providers[i].credential_reference);
                    proof {
                        let p = registry.providers@[i as int]@;
                        assert(all[i as int] == p);
                        assert forall|t: Seq<char>|
                            #[trigger] views(references@).contains(t) <==> referenced(
                                all.take(i + 1),
                                t,
                            ) by {
                            assert(before.contains(t) <==> referenced(all.take(i as int), t));
                            if referenced(all.take(i as int), t) {
                                let j = choose|j: int|
                                    0 <= j < i && (#[trigger] all.take(
                                        i as int,
                                    )[j]).credential_reference == t;
                                assert(all.take(i + 1)[j].credential_reference == t);
                            }
                            if t == p.credential_reference {
                                assert(all.take(i + 1)[i as int].credential_reference == t);
                            }
                            if referenced(all.take(i + 1), t) {
                                let j = choose|j: int|
                                    0 <= j < i + 1 && (#[trigger] all.take(
                                        i + 1,
                                    )[j]).credential_reference == t;
                                if j < i {
                                    assert(all.take(i as int)[j].credential_reference == t);
                                }
                            }
                        }
                    }
                    i = i + 1;
                }
                assert(all.take(i as int) =~= all);
            },
            Err(e) => {
                if !remove_registry {
                    return Err(ProviderManagerError::Core(e));
                }
            },
        }
        Ok(
            PurgeRun {
                references,
                read: 0,
                found: Vec::new(),
                deleted: 0,
                remove_registry,
                removed: false,
            },
        )
    }

    /// The next step.
    pub fn next(&self) -> (r: PurgeStep)
        requires
            self.well_formed(),
        ensures
            r == self.purge_next(),
    {
        if self.read < self.references.len() {
            PurgeStep::Read(self.references[self.read].clone())
        } else if self.deleted < self.found.len() {
            PurgeStep::Delete(self.found[self.deleted].0.clone())
        } else if self.remove_registry && !self.removed {
            PurgeStep::RemoveRegistry
        } else {
            PurgeStep::Done(self.deleted)
        }
    }

    /// Takes in what reading a credential gave. Nothing was deleted yet, so a failed
    /// reading ends the purge with nothing to put back.
    pub fn on_read(&mut self, read: SecretRead) -> (r: Result<(), PurgeFailure>)
        requires
            old(self).well_formed(),
            old(self).read < old(self).references@.len(),
        ensures
            match read {
                SecretRead::Failed(e) => {
                    &&& r is Err
                    &&& r->Err_0.restore@.len() == 0
                    &&& r->Err_0.error == ProviderManagerError::Credential(e)
                    &&& *final(self) == *old(self)
                },
                SecretRead::Missing => {
                    &&& r is Ok
                    &&& final(self).well_formed()
                    &&& *final(self) == (PurgeRun {
                        read: (old(self).read + 1) as usize,
                        ..*old(self)
                    })
                },
                SecretRead::Found(secret) => {
                    &&& r is Ok
                    &&& final(self).well_formed()
                    &&& final(self).found@ == old(self).found@.push(
                        (old(self).references@[old(self).read as int], secret),
                    )
                    &&& *final(self) == (PurgeRun {
                        read: (old(self).read + 1) as usize,
                        found: final(self).found,
                        ..*old(self)
                    })
                },
            },
    {
        assert(self.read < self.references.len());
        match read {
            SecretRead::Failed(e) => Err(
                PurgeFailure { restore: Vec::new(), error: ProviderManagerError::Credential(e) },
            ),
            SecretRead::Missing => {
                self.read = self.read + 1;
                Ok(())
            },
            SecretRead::Found(secret) => {
                self.found.push((self.references[self.read].clone(), secret));
                self.read = self.read + 1;
                Ok(())
            },
        }
    }

    /// The credentials that were deleted so far.
    fn deleted_ones(&self) -> (r: Vec<(String, String)>)
        requires
            self.well_formed(),
        ensures
            r@ == self.found@.take(self.deleted as int),
    {
        let mut out: Vec<(String, String)> = Vec::new();
        let mut i: usize = 0;
        while i < self.deleted
            invariant
                self.well_formed(),
                i <= self.deleted,
                out@ == self.found@.take(i as int),
            decreases self.deleted - i,
        {
            out.push((self.found[i].0.clone(), self.found[i].1.clone()));
            assert(self.found@.take(i as int).push(self.found@[i as int]) =~= self.found@.take(
                i + 1,
            ));
            i = i + 1;
        }
        out
    }

    /// Takes in what deleting a credential gave. A failure puts back exactly what was
    /// deleted before.
    pub fn on_delete(&mut self, outcome: Result<(), CredentialError>) -> (r: Result<(), PurgeFailure>)
        requires
            old(self).well_formed(),
            old(self).read == old(self).references@.len(),
            old(self).deleted < old(self).found@.len(),
        ensures
            match outcome {
                Ok(_) => {
                    &&& r is Ok
                    &&& final(self).well_formed()
                    &&& *final(self) == (PurgeRun {
                        deleted: (old(self).deleted + 1) as usize,
                        ..*old(self)
                    })
                },
                Err(e) => {
                    &&& r is Err
                    &&& r->Err_0.restore@ == old(self).put_back()
                    &&& r->Err_0.error == ProviderManagerError::Credential(e)
                    &&& *final(self) == *old(self)
                },
            },
    {
        match outcome {
            Ok(_) => {
                self.deleted = self.deleted + 1;
                Ok(())
            },
            Err(e) => Err(
                PurgeFailure {
                    restore: self.deleted_ones(),
                    error: ProviderManagerError::Credential(e),
                },
            ),
        }
    }

    /// Takes in what removing the registry gave. A failure puts back exactly what was
    /// deleted.
    pub fn on_removed(&mut self, outcome: Result<(), String>) -> (r: Result<(), PurgeFailure>)
        requires
            old(self).well_formed(),
        ensures
            match outcome {
                Ok(_) => {
                    &&& r is Ok
                    &&& final(self).well_formed()
                    &&& *final(self) == (PurgeRun { removed: true, ..*old(self) })
                },
                Err(e) => {
                    &&& r is Err
                    &&& r->Err_0.restore@ == old(self).put_back()
                    &&& r->Err_0.error == ProviderManagerError::Core(CoreError::Io(e))
                    &&& *final(self) == *old(self)
                },
            },
    {
        match outcome {
            Ok(_) => {
                self.removed = true;
                Ok(())
            },
            Err(e) => Err(
                PurgeFailure {
                    restore: self.deleted_ones(),
                    error: ProviderManagerError::Core(CoreError::Io(e)),
                },
            ),
        }
    }
}

/// What a failed purge reports once its credentials were put back: that they could not
/// be, else why the purge failed.
pub fn purge_restored(
    error: ProviderManagerError,
    outcome: Result<(), CredentialError>,
) -> (r: ProviderManagerError)
    ensures
        r == (match outcome {
            Ok(_) => error,
            Err(e) => ProviderManagerError::Credential(e),
        }),
{
    match outcome {
        Ok(_) => error,
        Err(e) => ProviderManagerError::Credential(e),
    }
}

/// What is stored of a removed provider's credential once the removal has run to its end, given
/// what reading the credential gave and what saving the registry gave.
pub open spec fn left_in_the_end(
    stored: Option<Seq<char>>,
    reference: String,
    read: SecretRead,
    outcome: Result<(), CoreError>,
) -> Option<Seq<char>> {
    match removal_read(reference, read) {
        RemovalStep::Delete { reference, secret } => {
            let left = left_after(stored, RemovalStep::Delete { reference, secret });
            match removal_deleted(reference, secret, Ok(())) {
                RemovalStep::Save { reference, deleted } => left_after(
                    left,
                    removal_saved(reference, deleted, outcome),
                ),
                _ => left,
            }
        },
        RemovalStep::Save { reference, deleted } => left_after(
            stored,
            removal_saved(reference, deleted, outcome),
        ),
        _ => stored,
    }
}

/// A removal that purges the credential leaves none once the registry is saved, and leaves the
/// credential as it was where the registry cannot be saved.
pub proof fn removals_purge_or_restore(
    stored: Option<Seq<char>>,
    reference: String,
    read: SecretRead,
    outcome: Result<(), CoreError>,
)
    requires
        reads(read, stored),
    ensures
        left_in_the_end(stored, reference, read, outcome) == (if outcome is Ok {
            None
        } else {
            stored
        }),
{
}

/// A credential that cannot be read is not taken for one that is not there: a change and a
/// removal stop at once, and nothing is stored, deleted or saved.
pub proof fn failed_readings_stop_the_change(secret: String, reference: String, e: CredentialError)
    ensures
        after_read(secret, SecretRead::Failed(e)) == ChangeStep::Fail(
            ProviderManagerError::Credential(e),
        ),
        removal_read(reference, SecretRead::Failed(e)) == RemovalStep::Fail(
            ProviderManagerError::Credential(e),
        ),
        after_put(None, Err(e)) is Fail,
        removal_deleted(reference, secret, Err(e)) is Fail,
        change_begun(None) is Save,
        change_begun(Some(secret)) == (ChangeStep::Read { secret }),
{
}

/// A purge reads every credential before it deletes the first, deletes what it has found, and
/// removes the registry last, where that is asked for. What it puts back where it fails is what
/// it has deleted, with the secrets that it has read.
pub proof fn purges_read_before_they_delete(run: PurgeRun, i: int)
    requires
        run.well_formed(),
    ensures
        run.purge_next() is Delete ==> run.read == run.references@.len() && run.deleted
            < run.found@.len() && run.purge_next() == PurgeStep::Delete(
            run.found@[run.deleted as int].0,
        ),
        run.purge_next() is Read ==> run.deleted == 0 && run.purge_next() == PurgeStep::Read(
            run.references@[run.read as int],
        ),
        run.purge_next() is RemoveRegistry ==> run.remove_registry && run.deleted == run.found@.len()
            && run.read == run.references@.len(),
        run.purge_next() is Done ==> run.deleted == run.found@.len() && (run.remove_registry
            ==> run.removed) && run.purge_next() == PurgeStep::Done(run.deleted),
        run.put_back().len() == run.deleted,
        0 <= i < run.deleted ==> run.put_back()[i] == run.found@[i],
{
}

} // verus!
