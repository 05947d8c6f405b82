//! The versioning store: named secrets, each with an append-only history.
//!
//! A store is an arena of secrets. The identifier of a secret is its position
//! in the arena, and version `k` of a secret is entry `k - 1` of its history,
//! so the current value is a position in the history and never a copy of it.
//! Renaming a secret is written as a version of its own, so that every
//! version keeps the name it was written under. Deleting a secret releases
//! its name and stops further writes; its history stays readable by
//! identifier.

use vstd::prelude::*;
use crate::error::ErrorKind;
use crate::models::{Secret, SecretVersion, SecretVersionView, SecretView};

verus! {

/// The largest page size that [`SecretStore::list_versions`] serves.
pub const MAX_PAGE_SIZE: usize = 50;

/// The mathematical value of one secret in a store.
pub struct SecretRecord {
    pub name: Seq<char>,
    /// Whether the secret has not been deleted.
    pub live: bool,
    pub created_at: i64,
    /// Entry `k` holds version `k + 1`.
    pub history: Seq<SecretVersionView>,
}

/// The mathematical value of a store: its secrets by identifier.
pub struct StoreModel {
    pub records: Seq<SecretRecord>,
}

/// The identifier of the history entry that holds `version` of the secret
/// with identifier `secret`.
pub open spec fn row_id(secret: int, version: int) -> u128 {
    (secret * 0x1_0000_0000 + version) as u128
}

/// The history entry written for `version` of `secret` at time `now`.
pub open spec fn row_written(
    secret: int,
    name: Seq<char>,
    version: int,
    ciphertext: Seq<u8>,
    now: i64,
) -> SecretVersionView {
    SecretVersionView {
        id: row_id(secret, version),
        secret_id: secret as u128,
        secret_name: name,
        encryption_secret_value: ciphertext,
        version: version as i32,
        created_at: Some(now),
        updated_at: Some(now),
    }
}

impl SecretRecord {
    /// The number of the current version.
    pub open spec fn current_version(self) -> int {
        self.history.len() as int
    }

    /// The record as secret number `id`, with its current value.
    pub open spec fn current(self, id: int) -> SecretView {
        SecretView {
            id: id as u128,
            secret_name: self.name,
            encryption_secret_value: self.history.last().encryption_secret_value,
            version: self.history.len() as i32,
            created_at: Some(self.created_at),
            updated_at: self.history.last().created_at,
        }
    }

    /// The record after `ciphertext` was appended as the next version.
    pub open spec fn appended(self, id: int, ciphertext: Seq<u8>, now: i64) -> SecretRecord {
        SecretRecord {
            history: self.history.push(
                row_written(id, self.name, self.history.len() as int + 1, ciphertext, now),
            ),
            ..self
        }
    }

    /// The record after the secret was renamed to `name`: the next version
    /// holds the value of the current one under the new name.
    pub open spec fn renamed(self, id: int, name: Seq<char>, now: i64) -> SecretRecord {
        SecretRecord {
            name,
            history: self.history.push(
                row_written(
                    id,
                    name,
                    self.history.len() as int + 1,
                    self.history.last().encryption_secret_value,
                    now,
                ),
            ),
            ..self
        }
    }

    /// The history is gapless from version 1, belongs to secret `id`, and
    /// ends in the name the secret has now.
    pub open spec fn wf(self, id: int) -> bool {
        &&& 1 <= self.history.len() <= i32::MAX
        &&& self.history.last().secret_name == self.name
        &&& forall|k: int|
            0 <= k < self.history.len() ==> {
                &&& (#[trigger] self.history[k]).version == k + 1
                &&& self.history[k].secret_id == id
                &&& self.history[k].id == row_id(id, k + 1)
            }
    }
}

impl StoreModel {
    /// The store that holds nothing.
    pub open spec fn empty() -> StoreModel {
        StoreModel { records: Seq::empty() }
    }

    /// Whether `id` names a secret that was ever created here.
    pub open spec fn known(self, id: u128) -> bool {
        id < self.records.len()
    }

    /// Whether `id` names a secret that has not been deleted.
    pub open spec fn is_live(self, id: u128) -> bool {
        self.known(id) && self.records[id as int].live
    }

    /// Whether position `i` holds a live secret called `name`.
    pub open spec fn live_at(self, i: int, name: Seq<char>) -> bool {
        0 <= i < self.records.len() && self.records[i].live && self.records[i].name == name
    }

    /// Whether a live secret is called `name`.
    pub open spec fn has_live(self, name: Seq<char>) -> bool {
        exists|i: int| self.live_at(i, name)
    }

    /// The identifier of the live secret called `name`.
    pub open spec fn live_id(self, name: Seq<char>) -> int {
        choose|i: int| self.live_at(i, name)
    }

    /// Every history is gapless, identifiers fit, and live names are unique.
    pub open spec fn wf(self) -> bool {
        &&& self.records.len() <= usize::MAX
        &&& forall|i: int| 0 <= i < self.records.len() ==> (#[trigger] self.records[i]).wf(i)
        &&& forall|i: int, j: int|
            0 <= i < self.records.len() && 0 <= j < self.records.len() && i != j
                && (#[trigger] self.records[i]).live && (#[trigger] self.records[j]).live
                ==> self.records[i].name != self.records[j].name
    }

    /// The store after a secret called `name` was created with `ciphertext`.
    pub open spec fn created(self, name: Seq<char>, ciphertext: Seq<u8>, now: i64) -> StoreModel {
        StoreModel {
            records: self.records.push(
                SecretRecord {
                    name,
                    live: true,
                    created_at: now,
                    history: seq![row_written(self.records.len() as int, name, 1, ciphertext, now)],
                },
            ),
        }
    }

    /// The store after `ciphertext` became the next version of secret `id`.
    pub open spec fn updated(self, id: u128, ciphertext: Seq<u8>, now: i64) -> StoreModel {
        StoreModel {
            records: self.records.update(
                id as int,
                self.records[id as int].appended(id as int, ciphertext, now),
            ),
        }
    }

    /// The store after secret `id` was renamed to `name`.
    pub open spec fn renamed(self, id: u128, name: Seq<char>, now: i64) -> StoreModel {
        StoreModel {
            records: self.records.update(
                id as int,
                self.records[id as int].renamed(id as int, name, now),
            ),
        }
    }

    /// Whether secret `id` can be renamed to `name`: it can take a next
    /// version, and no live secret has the name.
    pub open spec fn can_rename(self, id: u128, name: Seq<char>) -> bool {
        self.can_update(id) && !self.has_live(name)
    }

    /// The store after secret `id` was deleted: the name is released, the
    /// history stays.
    pub open spec fn deleted(self, id: u128) -> StoreModel {
        StoreModel {
            records: self.records.update(
                id as int,
                SecretRecord { live: false, ..self.records[id as int] },
            ),
        }
    }

    /// Whether secret `id` can take a next version.
    pub open spec fn can_update(self, id: u128) -> bool {
        self.is_live(id) && self.records[id as int].current_version() < i32::MAX
    }

    /// Whether secret `id` can take a next version from a writer that read
    /// version `based_on`.
    pub open spec fn can_update_from(self, id: u128, based_on: i32) -> bool {
        self.can_update(id) && self.records[id as int].current_version() == based_on
    }

    /// The live secrets, each with its current value, in the order of
    /// their identifiers.
    pub open spec fn live_secrets(self) -> Seq<SecretView> {
        currents(self.records, self.records.len() as int)
    }

    /// The number of live secrets.
    pub open spec fn live_count(self) -> nat {
        count_live(self.records)
    }

    /// What reading `version` of secret `id` gives: the history entry, or
    /// nothing when the secret never existed or has no such version.
    pub open spec fn version_row(self, id: u128, version: i32) -> Option<SecretVersionView> {
        if self.known(id) && 1 <= version <= self.records[id as int].current_version() {
            Some(self.records[id as int].history[version - 1])
        } else {
            None
        }
    }

    /// The number of versions of secret `id`; none for an unknown secret.
    pub open spec fn total_versions(self, id: u128) -> int {
        if self.known(id) {
            self.records[id as int].current_version()
        } else {
            0
        }
    }

    /// Page `page` of the history of secret `id`, newest version first.
    pub open spec fn versions_page(self, id: u128, page: int, page_size: int) -> Seq<
        SecretVersionView,
    > {
        if self.known(id) {
            page_of(self.records[id as int].history, page, page_size)
        } else {
            Seq::empty()
        }
    }
}

/// The live secrets among the first `n` of `records`, each with its current
/// value, in the order of their identifiers.
pub open spec fn currents(records: Seq<SecretRecord>, n: int) -> Seq<SecretView>
    decreases n,
{
    if n <= 0 {
        Seq::empty()
    } else if records[n - 1].live {
        currents(records, n - 1).push(records[n - 1].current(n - 1))
    } else {
        currents(records, n - 1)
    }
}

/// The number of live records in `records`.
pub open spec fn count_live(records: Seq<SecretRecord>) -> nat
    decreases records.len(),
{
    if records.len() == 0 {
        0
    } else {
        count_live(records.drop_last()) + if records.last().live {
            1nat
        } else {
            0nat
        }
    }
}

/// Whether `page` and `page_size` name a page that holds entries of a
/// history of `total` versions: pages count from 1 and hold 1 to
/// `MAX_PAGE_SIZE` entries.
pub open spec fn page_in_range(total: int, page: int, page_size: int) -> bool {
    1 <= page && 1 <= page_size <= MAX_PAGE_SIZE && (page - 1) * page_size < total
}

/// Page `page` of `history`, newest version first. A page that is out of
/// range is empty.
pub open spec fn page_of(history: Seq<SecretVersionView>, page: int, page_size: int) -> Seq<
    SecretVersionView,
> {
    if page_in_range(history.len() as int, page, page_size) {
        let skip = (page - 1) * page_size;
        let rest = history.len() - skip;
        let count = if rest < page_size {
            rest
        } else {
            page_size
        };
        Seq::new(count as nat, |j: int| history[history.len() - 1 - skip - j])
    } else {
        Seq::empty()
    }
}

/// One secret of a store with its history.
struct SecretEntry {
    name: String,
    live: bool,
    created_at: i64,
    history: Vec<SecretVersion>,
}

impl View for SecretEntry {
    type V = SecretRecord;

    closed spec fn view(&self) -> SecretRecord {
        SecretRecord {
            name: self.name@,
            live: self.live,
            created_at: self.created_at,
            history: self.history@.map_values(|v: SecretVersion| v@),
        }
    }
}

/// A versioning store for the secrets of one tenant.
pub struct SecretStore {
    entries: Vec<SecretEntry>,
}

impl View for SecretStore {
    type V = StoreModel;

    closed spec fn view(&self) -> StoreModel {
        StoreModel { records: self.entries@.map_values(|e: SecretEntry| e@) }
    }
}

impl SecretStore {
    #[verifier::type_invariant]
    closed spec fn inv(&self) -> bool {
        self@.wf()
    }

    /// An empty store.
    pub fn new() -> (store: SecretStore)
        ensures
            store@ == StoreModel::empty(),
            store@.wf(),
    {
        let store = SecretStore { entries: Vec::new() };
        assert(store@.records =~= Seq::empty());
        store
    }

    /// Moves the arena out and leaves an empty one behind.
    fn take_entries(&mut self) -> (entries: Vec<SecretEntry>)
        ensures
            entries@.map_values(|e: SecretEntry| e@) == old(self)@.records,
            old(self)@.wf(),
    {
        proof {
            use_type_invariant(&*self);
        }
        let mut taken = SecretStore::new();
        std::mem::swap(self, &mut taken);
        taken.entries
    }

    /// The position of the live secret called `name`, if there is one.
    fn find_live(&self, name: &str) -> (found: Option<usize>)
        ensures
            match found {
                Some(i) => self@.live_at(i as int, name@) && self@.live_id(name@) == i,
                None => !self@.has_live(name@),
            },
    {
        proof {
            use_type_invariant(self);
        }
        let wanted = name.to_owned();
        let mut i: usize = 0;
        while i < self.entries.len()
            invariant
                i <= self.entries.len(),
                self@.wf(),
                wanted@ == name@,
                forall|j: int| 0 <= j < i ==> !self@.live_at(j, name@),
            decreases self.entries.len() - i,
        {
            let entry = &self.entries[i];
            assert(entry@ == self@.records[i as int]);
            if entry.live && entry.name == wanted {
                assert(self@.live_at(i as int, name@));
                return Some(i);
            }
            i += 1;
        }
        None
    }

    /// The secret at position `index` with its current value.
    fn current_at(&self, index: usize) -> (secret: Secret)
        requires
            index < self@.records.len(),
        ensures
            secret@ == self@.records[index as int].current(index as int),
    {
        proof {
            use_type_invariant(self);
        }
        let entry = &self.entries[index];
        assert(entry@ == self@.records[index as int]);
        assert(self@.records[index as int].wf(index as int));
        let last = &entry.history[entry.history.len() - 1];
        assert(last@ == entry@.history.last());
        Secret {
            id: index as u128,
            secret_name: entry.name.clone(),
            encryption_secret_value: vstd::slice::slice_to_vec(
                last.encryption_secret_value.as_slice(),
            ),
            version: entry.history.len() as i32,
            created_at: Some(entry.created_at),
            updated_at: last.created_at,
        }
    }

    /// Looks up the live secret called `name`.
    ///
    /// Fails with `NotFound` exactly when no live secret has that name.
    pub fn get_current(&self, name: &str) -> (r: Result<Secret, ErrorKind>)
        ensures
            match r {
                Ok(secret) => self@.has_live(name@) && secret@ == self@.records[self@.live_id(
                    name@,
                )].current(self@.live_id(name@)),
                Err(e) => !self@.has_live(name@) && e == ErrorKind::NotFound,
            },
    {
        match self.find_live(name) {
            Some(i) => Ok(self.current_at(i)),
            None => Err(ErrorKind::NotFound),
        }
    }

    /// Creates a secret called `name` whose version 1 holds `ciphertext`.
    ///
    /// Fails with `DuplicateName` exactly when a live secret already has that
    /// name, and then changes nothing. Otherwise the secret and its first
    /// history entry are written together.
    pub fn create(&mut self, name: &str, ciphertext: Vec<u8>, now: i64) -> (r: Result<
        Secret,
        ErrorKind,
    >)
        ensures
            final(self)@.wf(),
            match r {
                Ok(secret) => {
                    &&& !old(self)@.has_live(name@)
                    &&& final(self)@ == old(self)@.created(name@, ciphertext@, now)
                    &&& secret@ == final(self)@.records.last().current(
                        old(self)@.records.len() as int,
                    )
                },
                Err(e) => {
                    &&& old(self)@.has_live(name@)
                    &&& e == ErrorKind::DuplicateName
                    &&& final(self)@ == old(self)@
                },
            },
    {
        proof {
            use_type_invariant(&*self);
        }
        if self.find_live(name).is_some() {
            return Err(ErrorKind::DuplicateName);
        }
        let index = self.entries.len();
        let row = written_row(index, name.to_owned(), 1, ciphertext, now);
        let mut history: Vec<SecretVersion> = Vec::new();
        history.push(row);
        let entry = SecretEntry { name: name.to_owned(), live: true, created_at: now, history };
        assert(entry@.history =~= seq![row_written(index as int, name@, 1, ciphertext@, now)]);
        let ghost before = self@;
        let mut entries = self.take_entries();
        entries.push(entry);
        proof {
            let after = before.created(name@, ciphertext@, now);
            assert(entries@.map_values(|e: SecretEntry| e@) =~= after.records);
            assert(entries@.len() == entries.len());
            lemma_created_wf(before, name@, ciphertext@, now);
        }
        *self = SecretStore { entries };
        Ok(self.current_at(index))
    }

    /// The position of the live secret with identifier `secret_id`.
    fn live_position(&self, secret_id: u128) -> (found: Option<usize>)
        ensures
            match found {
                Some(i) => self@.is_live(secret_id) && i == secret_id,
                None => !self@.is_live(secret_id),
            },
    {
        if secret_id >= self.entries.len() as u128 {
            return None;
        }
        let index = secret_id as usize;
        assert(self.entries[index as int]@ == self@.records[index as int]);
        if self.entries[index].live {
            Some(index)
        } else {
            None
        }
    }

    /// Appends `ciphertext` as the next version of secret `secret_id`,
    /// provided that `based_on` is still its current version.
    ///
    /// Fails with `NotFound` when no live secret has that identifier, and
    /// with `VersionConflict` when the current version is not `based_on` or
    /// is the last number a version can have. A failed call changes
    /// nothing. On success the history entry and the new current version
    /// are written together.
    pub fn update_from(
        &mut self,
        secret_id: u128,
        based_on: i32,
        ciphertext: Vec<u8>,
        now: i64,
    ) -> (r: Result<Secret, ErrorKind>)
        ensures
            final(self)@.wf(),
            match r {
                Ok(secret) => {
                    &&& old(self)@.can_update_from(secret_id, based_on)
                    &&& final(self)@ == old(self)@.updated(secret_id, ciphertext@, now)
                    &&& secret@ == final(self)@.records[secret_id as int].current(secret_id as int)
                },
                Err(e) => {
                    &&& final(self)@ == old(self)@
                    &&& !old(self)@.can_update_from(secret_id, based_on)
                    &&& e == if old(self)@.is_live(secret_id) {
                        ErrorKind::VersionConflict
                    } else {
                        ErrorKind::NotFound
                    }
                },
            },
    {
        proof {
            use_type_invariant(&*self);
        }
        let index = match self.live_position(secret_id) {
            Some(i) => i,
            None => {
                return Err(ErrorKind::NotFound);
            },
        };
        assert(self.entries[index as int]@ == self@.records[index as int]);
        assert(self@.records[index as int].wf(index as int));
        let current = self.entries[index].history.len();
        if current >= i32::MAX as usize || current as i32 != based_on {
            return Err(ErrorKind::VersionConflict);
        }
        let name = self.entries[index].name.clone();
        let row = written_row(index, name, current as i32 + 1, ciphertext, now);
        let ghost before = self@;
        let mut entries = self.take_entries();
        entries[index].history.push(row);
        proof {
            let after = before.updated(secret_id, ciphertext@, now);
            assert(entries[index as int]@.history =~= after.records[index as int].history);
            assert(entries@.map_values(|e: SecretEntry| e@) =~= after.records);
            lemma_updated_wf(before, secret_id, ciphertext@, now);
        }
        *self = SecretStore { entries };
        Ok(self.current_at(index))
    }

    /// Appends `ciphertext` as the next version of secret `secret_id`.
    ///
    /// Reading the current version and writing the next one happen under
    /// one exclusive borrow, so no other write can come between them. Fails
    /// with `NotFound` when no live secret has that identifier, and with
    /// `VersionConflict` when no further version number can be assigned.
    pub fn update(&mut self, secret_id: u128, ciphertext: Vec<u8>, now: i64) -> (r: Result<
        Secret,
        ErrorKind,
    >)
        ensures
            final(self)@.wf(),
            match r {
                Ok(secret) => {
                    &&& old(self)@.can_update(secret_id)
                    &&& final(self)@ == old(self)@.updated(secret_id, ciphertext@, now)
                    &&& secret@ == final(self)@.records[secret_id as int].current(secret_id as int)
                },
                Err(e) => {
                    &&& final(self)@ == old(self)@
                    &&& !old(self)@.can_update(secret_id)
                    &&& e == if old(self)@.is_live(secret_id) {
                        ErrorKind::VersionConflict
                    } else {
                        ErrorKind::NotFound
                    }
                },
            },
    {
        proof {
            use_type_invariant(&*self);
        }
        let index = match self.live_position(secret_id) {
            Some(i) => i,
            None => {
                return Err(ErrorKind::NotFound);
            },
        };
        assert(self.entries[index as int]@ == self@.records[index as int]);
        assert(self@.records[index as int].wf(index as int));
        let current = self.entries[index].history.len() as i32;
        self.update_from(secret_id, current, ciphertext, now)
    }

    /// Renames secret `secret_id` to `new_name`. The history keeps the names
    /// the secret had: the renaming is written as the next version, which
    /// holds the value of the current one under the new name.
    ///
    /// Fails, and then changes nothing, with `NotFound` when no live secret
    /// has that identifier, with `DuplicateName` when a live secret has the
    /// new name already, and with `VersionConflict` when no further version
    /// number can be assigned, in that order.
    pub fn rename(&mut self, secret_id: u128, new_name: &str, now: i64) -> (r: Result<
        Secret,
        ErrorKind,
    >)
        ensures
            final(self)@.wf(),
            match r {
                Ok(secret) => {
                    &&& old(self)@.can_rename(secret_id, new_name@)
                    &&& final(self)@ == old(self)@.renamed(secret_id, new_name@, now)
                    &&& secret@ == final(self)@.records[secret_id as int].current(secret_id as int)
                },
                Err(e) => {
                    &&& final(self)@ == old(self)@
                    &&& !old(self)@.can_rename(secret_id, new_name@)
                    &&& e == if !old(self)@.is_live(secret_id) {
                        ErrorKind::NotFound
                    } else if old(self)@.has_live(new_name@) {
                        ErrorKind::DuplicateName
                    } else {
                        ErrorKind::VersionConflict
                    }
                },
            },
    {
        proof {
            use_type_invariant(&*self);
        }
        let index = match self.live_position(secret_id) {
            Some(i) => i,
            None => {
                return Err(ErrorKind::NotFound);
            },
        };
        if self.find_live(new_name).is_some() {
            return Err(ErrorKind::DuplicateName);
        }
        assert(self.entries[index as int]@ == self@.records[index as int]);
        assert(self@.records[index as int].wf(index as int));
        let current = self.entries[index].history.len();
        if current >= i32::MAX as usize {
            return Err(ErrorKind::VersionConflict);
        }
        let last = &self.entries[index].history[current - 1];
        assert(last@ == self.entries[index as int]@.history.last());
        let value = vstd::slice::slice_to_vec(last.encryption_secret_value.as_slice());
        let row = written_row(index, new_name.to_owned(), current as i32 + 1, value, now);
        let ghost before = self@;
        let mut entries = self.take_entries();
        entries[index].history.push(row);
        entries[index].name = new_name.to_owned();
        proof {
            let after = before.renamed(secret_id, new_name@, now);
            assert(entries[index as int]@.history =~= after.records[index as int].history);
            assert(entries@.map_values(|e: SecretEntry| e@) =~= after.records);
            lemma_renamed_wf(before, secret_id, new_name@, now);
        }
        *self = SecretStore { entries };
        Ok(self.current_at(index))
    }

    /// Deletes secret `secret_id`: its name becomes free and it takes no
    /// further writes, while its history stays readable by identifier.
    ///
    /// Fails with `NotFound` exactly when no live secret has that identifier.
    pub fn delete(&mut self, secret_id: u128) -> (r: Result<(), ErrorKind>)
        ensures
            final(self)@.wf(),
            match r {
                Ok(()) => {
                    &&& old(self)@.is_live(secret_id)
                    &&& final(self)@ == old(self)@.deleted(secret_id)
                },
                Err(e) => {
                    &&& !old(self)@.is_live(secret_id)
                    &&& e == ErrorKind::NotFound
                    &&& final(self)@ == old(self)@
                },
            },
    {
        proof {
            use_type_invariant(&*self);
        }
        let index = match self.live_position(secret_id) {
            Some(i) => i,
            None => {
                return Err(ErrorKind::NotFound);
            },
        };
        let ghost before = self@;
        let mut entries = self.take_entries();
        entries[index].live = false;
        proof {
            let after = before.deleted(secret_id);
            assert(entries@.map_values(|e: SecretEntry| e@) =~= after.records);
            lemma_deleted_wf(before, secret_id);
        }
        *self = SecretStore { entries };
        Ok(())
    }

    /// Reads `version` of secret `secret_id`, whether or not the secret has
    /// been deleted since.
    ///
    /// Fails with `NotFound` exactly when the secret never existed or has no
    /// such version.
    pub fn get_version(&self, secret_id: u128, version: i32) -> (r: Result<
        SecretVersion,
        ErrorKind,
    >)
        ensures
            match r {
                Ok(row) => self@.version_row(secret_id, version) == Some(row@),
                Err(e) => self@.version_row(secret_id, version) is None && e
                    == ErrorKind::NotFound,
            },
    {
        proof {
            use_type_invariant(self);
        }
        if secret_id >= self.entries.len() as u128 {
            return Err(ErrorKind::NotFound);
        }
        let index = secret_id as usize;
        let entry = &self.entries[index];
        assert(entry@ == self@.records[index as int]);
        assert(self@.records[index as int].wf(index as int));
        if version < 1 || version as usize > entry.history.len() {
            return Err(ErrorKind::NotFound);
        }
        let row = &entry.history[version as usize - 1];
        assert(row@ == entry@.history[version - 1]);
        Ok(row.duplicate())
    }

    /// Lists page `page` of the history of secret `secret_id`, newest
    /// version first, together with the number of versions the secret has.
    ///
    /// Pages count from 1 and hold up to `page_size` entries, with
    /// `page_size` between 1 and `MAX_PAGE_SIZE`. A page outside the history,
    /// a page or page size outside these bounds, and an unknown secret all
    /// give an empty page.
    pub fn list_versions(&self, secret_id: u128, page: usize, page_size: usize) -> (r: (
        Vec<SecretVersion>,
        usize,
    ))
        ensures
            r.0@.map_values(|v: SecretVersion| v@) == self@.versions_page(
                secret_id,
                page as int,
                page_size as int,
            ),
            r.1 == self@.total_versions(secret_id),
    {
        proof {
            use_type_invariant(self);
        }
        let mut rows: Vec<SecretVersion> = Vec::new();
        if secret_id >= self.entries.len() as u128 {
            assert(rows@.map_values(|v: SecretVersion| v@) =~= Seq::empty());
            return (rows, 0);
        }
        let index = secret_id as usize;
        let entry = &self.entries[index];
        assert(entry@ == self@.records[index as int]);
        assert(self@.records[index as int].wf(index as int));
        let total = entry.history.len();
        if page < 1 || page_size < 1 || page_size > MAX_PAGE_SIZE || page - 1 >= total {
            proof {
                if page >= 1 && 1 <= page_size <= MAX_PAGE_SIZE {
                    lemma_skip_at_least(page as int - 1, page_size as int);
                }
                assert(rows@.map_values(|v: SecretVersion| v@) =~= Seq::empty());
            }
            return (rows, total);
        }
        proof {
            lemma_skip_at_most(page as int - 1, page_size as int, total as int);
        }
        let skip: u64 = (page - 1) as u64 * page_size as u64;
        if skip >= total as u64 {
            assert(rows@.map_values(|v: SecretVersion| v@) =~= Seq::empty());
            return (rows, total);
        }
        let rest: usize = total - skip as usize;
        let count: usize = if rest < page_size {
            rest
        } else {
            page_size
        };
        let ghost wanted = page_of(entry@.history, page as int, page_size as int);
        let mut j: usize = 0;
        while j < count
            invariant
                j <= count <= rest,
                rest == total - skip,
                total == entry.history.len(),
                wanted.len() == count,
                forall|k: int|
                    0 <= k < count ==> #[trigger] wanted[k] == entry.history[total - 1 - skip
                        - k]@,
                rows@.len() == j,
                forall|k: int| 0 <= k < j ==> (#[trigger] rows@[k])@ == wanted[k],
            decreases count - j,
        {
            let row = &entry.history[total - 1 - skip as usize - j];
            rows.push(row.duplicate());
            j += 1;
        }
        assert(rows@.map_values(|v: SecretVersion| v@) =~= wanted);
        (rows, total)
    }

    /// Lists the live secrets, each with its current value, in the order
    /// of their identifiers.
    pub fn list_current(&self) -> (secrets: Vec<Secret>)
        ensures
            secrets@.map_values(|s: Secret| s@) == self@.live_secrets(),
    {
        let mut secrets: Vec<Secret> = Vec::new();
        let mut i: usize = 0;
        while i < self.entries.len()
            invariant
                i <= self.entries.len(),
                self.entries.len() == self@.records.len(),
                secrets@.map_values(|s: Secret| s@) == currents(self@.records, i as int),
            decreases self.entries.len() - i,
        {
            assert(self.entries[i as int]@ == self@.records[i as int]);
            if self.entries[i].live {
                let ghost before = secrets@.map_values(|s: Secret| s@);
                let secret = self.current_at(i);
                secrets.push(secret);
                assert(secrets@.map_values(|s: Secret| s@) =~= before.push(secret@));
            }
            i += 1;
        }
        secrets
    }

    /// Whether no secret was ever created here.
    pub fn is_empty(&self) -> (empty: bool)
        ensures
            empty == (self@.records.len() == 0),
    {
        self.entries.len() == 0
    }

    /// The number of live secrets.
    pub fn secret_count(&self) -> (n: usize)
        ensures
            n == self@.live_count(),
    {
        let mut n: usize = 0;
        let mut i: usize = 0;
        while i < self.entries.len()
            invariant
                i <= self.entries.len(),
                n <= i,
                n == count_live(self@.records.take(i as int)),
            decreases self.entries.len() - i,
        {
            assert(self.entries[i as int]@ == self@.records[i as int]);
            assert(self@.records.take(i + 1).drop_last() =~= self@.records.take(i as int));
            if self.entries[i].live {
                n += 1;
            }
            i += 1;
        }
        assert(self@.records.take(i as int) =~= self@.records);
        n
    }
}

/// Builds the history entry for `version` of the secret at position `secret`.
fn written_row(secret: usize, name: String, version: i32, ciphertext: Vec<u8>, now: i64) -> (row:
    SecretVersion)
    requires
        1 <= version,
    ensures
        row@ == row_written(secret as int, name@, version as int, ciphertext@, now),
{
    let id: u128 = (secret as u128) * 0x1_0000_0000u128 + (version as u128);
    SecretVersion {
        id,
        secret_id: secret as u128,
        secret_name: name,
        encryption_secret_value: ciphertext,
        version,
        created_at: Some(now),
        updated_at: Some(now),
    }
}

/// Creating a secret under a free name keeps a store well formed.
pub proof fn lemma_created_wf(s: StoreModel, name: Seq<char>, ciphertext: Seq<u8>, now: i64)
    requires
        s.wf(),
        !s.has_live(name),
        s.records.len() < usize::MAX,
    ensures
        s.created(name, ciphertext, now).wf(),
{
    let t = s.created(name, ciphertext, now);
    let n = s.records.len() as int;
    assert forall|i: int| 0 <= i < t.records.len() implies (#[trigger] t.records[i]).wf(i) by {
        if i < n {
            assert(t.records[i] == s.records[i]);
        }
    }
    assert forall|i: int, j: int|
        0 <= i < t.records.len() && 0 <= j < t.records.len() && i != j
            && (#[trigger] t.records[i]).live && (#[trigger] t.records[j]).live
        implies t.records[i].name != t.records[j].name by {
        if i < n && j < n {
            assert(t.records[i] == s.records[i]);
            assert(t.records[j] == s.records[j]);
        } else if i < n {
            assert(!s.live_at(i, name));
        } else {
            assert(!s.live_at(j, name));
        }
    }
}

/// Appending a version to a live secret keeps a store well formed.
pub proof fn lemma_updated_wf(s: StoreModel, id: u128, ciphertext: Seq<u8>, now: i64)
    requires
        s.wf(),
        s.can_update(id),
    ensures
        s.updated(id, ciphertext, now).wf(),
{
    let t = s.updated(id, ciphertext, now);
    assert forall|i: int| 0 <= i < t.records.len() implies (#[trigger] t.records[i]).wf(i) by {
        assert(s.records[i].wf(i));
        if i == id {
            let h = t.records[i].history;
            assert forall|k: int| 0 <= k < h.len() implies {
                &&& (#[trigger] h[k]).version == k + 1
                &&& h[k].secret_id == i
                &&& h[k].id == row_id(i, k + 1)
            } by {
                if k < s.records[i].history.len() {
                    assert(h[k] == s.records[i].history[k]);
                }
            }
        }
    }
    assert forall|i: int, j: int|
        0 <= i < t.records.len() && 0 <= j < t.records.len() && i != j
            && (#[trigger] t.records[i]).live && (#[trigger] t.records[j]).live
        implies t.records[i].name != t.records[j].name by {
        assert(s.records[i].live && s.records[j].live);
    }
}

/// Renaming a secret to a free name keeps a store well formed.
pub proof fn lemma_renamed_wf(s: StoreModel, id: u128, name: Seq<char>, now: i64)
    requires
        s.wf(),
        s.can_rename(id, name),
    ensures
        s.renamed(id, name, now).wf(),
{
    let t = s.renamed(id, name, now);
    assert forall|i: int| 0 <= i < t.records.len() implies (#[trigger] t.records[i]).wf(i) by {
        assert(s.records[i].wf(i));
        if i == id {
            let h = t.records[i].history;
            assert forall|k: int| 0 <= k < h.len() implies {
                &&& (#[trigger] h[k]).version == k + 1
                &&& h[k].secret_id == i
                &&& h[k].id == row_id(i, k + 1)
            } by {
                if k < s.records[i].history.len() {
                    assert(h[k] == s.records[i].history[k]);
                }
            }
        }
    }
    assert forall|i: int, j: int|
        0 <= i < t.records.len() && 0 <= j < t.records.len() && i != j
            && (#[trigger] t.records[i]).live && (#[trigger] t.records[j]).live
        implies t.records[i].name != t.records[j].name by {
        assert(s.records[i].live && s.records[j].live);
        if i == id {
            assert(!s.live_at(j, name));
        } else if j == id {
            assert(!s.live_at(i, name));
        }
    }
}

/// Deleting a secret keeps a store well formed.
pub proof fn lemma_deleted_wf(s: StoreModel, id: u128)
    requires
        s.wf(),
        s.known(id),
    ensures
        s.deleted(id).wf(),
{
    let t = s.deleted(id);
    assert forall|i: int| 0 <= i < t.records.len() implies (#[trigger] t.records[i]).wf(i) by {
        assert(s.records[i].wf(i));
    }
    assert forall|i: int, j: int|
        0 <= i < t.records.len() && 0 <= j < t.records.len() && i != j
            && (#[trigger] t.records[i]).live && (#[trigger] t.records[j]).live
        implies t.records[i].name != t.records[j].name by {
        assert(s.records[i].live && s.records[j].live);
    }
}

/// Skipping `pages` pages of at least one entry skips at least `pages`
/// entries.
proof fn lemma_skip_at_least(pages: int, page_size: int)
    requires
        0 <= pages,
        1 <= page_size,
    ensures
        pages * page_size >= pages,
{
    assert(pages * page_size >= pages) by (nonlinear_arith)
        requires
            0 <= pages,
            1 <= page_size,
    ;
}

/// Fewer than `total` pages of at most `MAX_PAGE_SIZE` entries skip fewer
/// than `total * MAX_PAGE_SIZE` entries.
proof fn lemma_skip_at_most(pages: int, page_size: int, total: int)
    requires
        0 <= pages < total,
        1 <= page_size <= MAX_PAGE_SIZE,
    ensures
        0 <= pages * page_size < total * MAX_PAGE_SIZE,
{
    assert(0 <= pages * page_size < total * 50) by (nonlinear_arith)
        requires
            0 <= pages < total,
            1 <= page_size <= 50,
    ;
}

} // verus!
