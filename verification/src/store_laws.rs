//! What holds of every versioning store, stated over its model.

use vstd::prelude::*;
use crate::models::SecretVersionView;
use crate::store::{
    StoreModel,
    lemma_created_wf,
    lemma_renamed_wf,
    lemma_updated_wf,
    page_in_range,
    row_id,
};

verus! {

/// The store after secret `id` took the values of `values` as its next
/// versions, in order, value `i` at time `times[i]`.
pub open spec fn written(s: StoreModel, id: u128, values: Seq<Seq<u8>>, times: Seq<i64>) -> StoreModel
    decreases values.len(),
{
    if values.len() == 0 {
        s
    } else {
        written(s, id, values.drop_last(), times.drop_last()).updated(
            id,
            values.last(),
            times.last(),
        )
    }
}

/// Reading a secret by name right after it was created gives version 1 with
/// the value that was written.
pub proof fn lemma_current_after_create(
    s: StoreModel,
    name: Seq<char>,
    ciphertext: Seq<u8>,
    now: i64,
)
    requires
        s.wf(),
        !s.has_live(name),
    ensures
        ({
            let t = s.created(name, ciphertext, now);
            let id = s.records.len() as int;
            &&& t.has_live(name)
            &&& t.live_id(name) == id
            &&& t.records[id].current(id).version == 1
            &&& t.records[id].current(id).encryption_secret_value == ciphertext
            &&& t.records[id].current(id).secret_name == name
            &&& t.live_count() == s.live_count() + 1
        }),
{
    let t = s.created(name, ciphertext, now);
    let id = s.records.len() as int;
    assert(t.live_at(id, name));
    let chosen = t.live_id(name);
    assert(t.live_at(chosen, name));
    if chosen != id {
        assert(t.records[chosen] == s.records[chosen]);
        assert(s.live_at(chosen, name));
    }
    assert(t.records.drop_last() =~= s.records);
}

/// After a secret was created and then updated any number of times, its
/// current version is the number of values written, its history holds
/// exactly the versions 1 to that number, and version `k` holds the `k`-th
/// value written.
pub proof fn lemma_history_after_writes(
    s: StoreModel,
    name: Seq<char>,
    first: Seq<u8>,
    created_at: i64,
    later: Seq<Seq<u8>>,
    times: Seq<i64>,
)
    requires
        s.wf(),
        s.records.len() < usize::MAX,
        !s.has_live(name),
        later.len() == times.len(),
        1 + later.len() <= i32::MAX,
    ensures
        ({
            let id = s.records.len() as u128;
            let t = written(s.created(name, first, created_at), id, later, times);
            let all = seq![first] + later;
            &&& t.wf()
            &&& t.is_live(id)
            &&& t.records.len() == s.records.len() + 1
            &&& t.total_versions(id) == all.len()
            &&& t.records[id as int].current(id as int).version == all.len()
            &&& t.records[id as int].current(id as int).encryption_secret_value == all.last()
            &&& forall|k: int|
                1 <= k <= all.len() ==> {
                    &&& (#[trigger] t.version_row(id, k as i32)) is Some
                    &&& t.version_row(id, k as i32)->0.version == k
                    &&& t.version_row(id, k as i32)->0.encryption_secret_value == all[k - 1]
                }
            &&& forall|k: i32| k < 1 || k > all.len() ==> t.version_row(id, k) is None
        }),
    decreases later.len(),
{
    let id = s.records.len() as u128;
    let base = s.created(name, first, created_at);
    let t = written(base, id, later, times);
    let all = seq![first] + later;
    lemma_created_wf(s, name, first, created_at);
    if later.len() == 0 {
        assert(all =~= seq![first]);
        assert(t == base);
        assert(base.records[id as int].history[0].encryption_secret_value == first);
    } else {
        let before = written(base, id, later.drop_last(), times.drop_last());
        lemma_history_after_writes(
            s,
            name,
            first,
            created_at,
            later.drop_last(),
            times.drop_last(),
        );
        let shorter = seq![first] + later.drop_last();
        assert(shorter =~= all.drop_last());
        assert(before.can_update(id));
        lemma_updated_wf(before, id, later.last(), times.last());
        assert(t == before.updated(id, later.last(), times.last()));
        assert forall|k: int| 1 <= k <= all.len() implies {
            &&& (#[trigger] t.version_row(id, k as i32)) is Some
            &&& t.version_row(id, k as i32)->0.version == k
            &&& t.version_row(id, k as i32)->0.encryption_secret_value == all[k - 1]
        } by {
            if k < all.len() {
                assert(before.version_row(id, k as i32) is Some);
                assert(t.records[id as int].history[k - 1] == before.records[id as int].history[k
                    - 1]);
                assert(all[k - 1] == shorter[k - 1]);
            }
        }
    }
}

/// Every page of a history lists consecutive versions, newest first:
/// entry `j` of page `page` holds the version that lies
/// `(page - 1) * page_size + j` below the current one.
pub proof fn lemma_page_lists_versions_descending(
    s: StoreModel,
    id: u128,
    page: int,
    page_size: int,
    j: int,
)
    requires
        s.wf(),
        s.known(id),
        0 <= j < s.versions_page(id, page, page_size).len(),
    ensures
        page_in_range(s.total_versions(id), page, page_size),
        s.versions_page(id, page, page_size).len() <= page_size,
        s.versions_page(id, page, page_size)[j].version == s.total_versions(id) - (page - 1)
            * page_size - j,
        s.version_row(id, s.versions_page(id, page, page_size)[j].version) == Some(
            s.versions_page(id, page, page_size)[j],
        ),
{
    let record = s.records[id as int];
    assert(record.wf(id as int));
    let skip = (page - 1) * page_size;
    assert(0 <= skip) by (nonlinear_arith)
        requires
            1 <= page,
            1 <= page_size,
            skip == (page - 1) * page_size,
    ;
    let at = record.history.len() - 1 - skip - j;
    assert(s.versions_page(id, page, page_size)[j] == record.history[at]);
}

/// A page that is out of range is empty, and so is every page of a secret
/// that never existed.
pub proof fn lemma_out_of_range_page_is_empty(s: StoreModel, id: u128, page: int, page_size: int)
    requires
        !s.known(id) || !page_in_range(s.total_versions(id), page, page_size),
    ensures
        s.versions_page(id, page, page_size) == Seq::<SecretVersionView>::empty(),
{
}

/// No two entries of one history carry the same version number, and no
/// two history entries of a store carry the same identifier.
pub proof fn lemma_versions_are_unique(s: StoreModel, a: int, j: int, b: int, k: int)
    requires
        s.wf(),
        0 <= a < s.records.len(),
        0 <= b < s.records.len(),
        0 <= j < s.records[a].history.len(),
        0 <= k < s.records[b].history.len(),
    ensures
        a == b && s.records[a].history[j].version == s.records[b].history[k].version ==> j == k,
        s.records[a].history[j].id == s.records[b].history[k].id ==> a == b && j == k,
{
    assert(s.records[a].wf(a));
    assert(s.records[b].wf(b));
    assert(s.records[a].history[j].id == row_id(a, j + 1));
    assert(s.records[b].history[k].id == row_id(b, k + 1));
}

/// Two writers that both read version `based_on` of a secret cannot both
/// append: once the first write is in, the second is refused with a version
/// conflict, the current version is `based_on + 1`, it holds the first
/// writer's value, and it is the only entry with that number.
pub proof fn lemma_racing_updates_serialize(
    s: StoreModel,
    id: u128,
    based_on: i32,
    first: Seq<u8>,
    now: i64,
)
    requires
        s.wf(),
        s.can_update_from(id, based_on),
    ensures
        ({
            let t = s.updated(id, first, now);
            &&& t.wf()
            &&& t.is_live(id)
            &&& !t.can_update_from(id, based_on)
            &&& t.records[id as int].current_version() == based_on + 1
            &&& t.records[id as int].current(id as int).encryption_secret_value == first
            &&& forall|k: int|
                0 <= k < t.records[id as int].history.len() ==> (
                (#[trigger] t.records[id as int].history[k]).version == based_on + 1 <==> k
                    == based_on)
        }),
{
    let t = s.updated(id, first, now);
    lemma_updated_wf(s, id, first, now);
    assert(t.records[id as int].wf(id as int));
}

/// Renaming a secret moves it from its old name to the new one and keeps
/// its history: the secret is found under the new name and no longer
/// under the old one, every version it had reads as before, under the name
/// it had then, and the next version holds the current value under the new
/// name.
pub proof fn lemma_rename_keeps_history(
    s: StoreModel,
    id: u128,
    name: Seq<char>,
    now: i64,
    earlier: i32,
)
    requires
        s.wf(),
        s.can_rename(id, name),
    ensures
        ({
            let t = s.renamed(id, name, now);
            let old_name = s.records[id as int].name;
            let latest = t.records[id as int].history.last();
            &&& t.wf()
            &&& t.has_live(name)
            &&& t.live_id(name) == id
            &&& old_name != name
            &&& !t.has_live(old_name)
            &&& t.live_count() == s.live_count()
            &&& 1 <= earlier <= s.records[id as int].current_version() ==> t.version_row(
                id,
                earlier,
            ) == s.version_row(id, earlier)
            &&& latest.version == s.records[id as int].current_version() + 1
            &&& latest.secret_name == name
            &&& latest.encryption_secret_value == s.records[id as int].current(
                id as int,
            ).encryption_secret_value
        }),
{
    let t = s.renamed(id, name, now);
    let old_name = s.records[id as int].name;
    lemma_renamed_wf(s, id, name, now);
    assert(s.live_at(id as int, old_name));
    assert(t.live_at(id as int, name));
    let chosen = t.live_id(name);
    assert(t.live_at(chosen, name));
    if t.has_live(old_name) {
        let i = choose|i: int| t.live_at(i, old_name);
        assert(t.live_at(i, old_name));
        assert(i != id);
        assert(s.live_at(i, old_name));
    }
    lemma_count_live_same(s, t, s.records.len() as int);
    assert(s.records.take(s.records.len() as int) =~= s.records);
    assert(t.records.take(s.records.len() as int) =~= t.records);
}

/// Writes to one secret leave every other secret as it was.
pub proof fn lemma_update_leaves_others(
    s: StoreModel,
    id: u128,
    ciphertext: Seq<u8>,
    now: i64,
    other: u128,
)
    requires
        s.known(id),
        other != id,
    ensures
        s.updated(id, ciphertext, now).known(other) == s.known(other),
        s.known(other) ==> s.updated(id, ciphertext, now).records[other as int]
            == s.records[other as int],
{
}

/// Deleting a secret releases its name and keeps its history readable.
pub proof fn lemma_delete_keeps_history(s: StoreModel, id: u128, version: i32)
    requires
        s.wf(),
        s.is_live(id),
    ensures
        !s.deleted(id).has_live(s.records[id as int].name),
        !s.deleted(id).is_live(id),
        s.deleted(id).version_row(id, version) == s.version_row(id, version),
        s.deleted(id).total_versions(id) == s.total_versions(id),
        s.deleted(id).live_count() == s.live_count() - 1,
{
    let t = s.deleted(id);
    let name = s.records[id as int].name;
    if t.has_live(name) {
        let i = choose|i: int| t.live_at(i, name);
        assert(t.live_at(i, name));
        assert(i != id);
        assert(s.records[i].live && s.records[id as int].live);
    }
    lemma_count_live_after_delete(s, id, s.records.len() as int);
    assert(s.records.take(s.records.len() as int) =~= s.records);
    assert(t.records.take(s.records.len() as int) =~= t.records);
}

/// Among the first `n` secrets, deleting a live one lowers the number of
/// live secrets by one exactly when it is among them.
proof fn lemma_count_live_after_delete(s: StoreModel, id: u128, n: int)
    requires
        s.is_live(id),
        0 <= n <= s.records.len(),
    ensures
        crate::store::count_live(s.deleted(id).records.take(n)) == crate::store::count_live(
            s.records.take(n),
        ) - if id < n {
            1int
        } else {
            0int
        },
    decreases n,
{
    let t = s.deleted(id);
    if n > 0 {
        lemma_count_live_after_delete(s, id, n - 1);
        assert(s.records.take(n).drop_last() =~= s.records.take(n - 1));
        assert(t.records.take(n).drop_last() =~= t.records.take(n - 1));
    }
}

/// Appending a version to a secret changes no name: every name is live
/// exactly if it was, and names the secret it named. The secret written
/// holds the new value as its current one.
pub proof fn lemma_names_after_update(
    s: StoreModel,
    id: u128,
    ciphertext: Seq<u8>,
    now: i64,
    name: Seq<char>,
)
    requires
        s.wf(),
        s.can_update(id),
    ensures
        s.updated(id, ciphertext, now).has_live(name) == s.has_live(name),
        s.has_live(name) ==> s.updated(id, ciphertext, now).live_id(name) == s.live_id(name),
        s.updated(id, ciphertext, now).records[id as int].history.last().encryption_secret_value
            == ciphertext,
        s.updated(id, ciphertext, now).live_count() == s.live_count(),
{
    let t = s.updated(id, ciphertext, now);
    lemma_updated_wf(s, id, ciphertext, now);
    if s.has_live(name) {
        let i = s.live_id(name);
        assert(s.live_at(i, name));
        assert(t.live_at(i, name));
        let j = t.live_id(name);
        assert(t.live_at(j, name));
        assert(s.live_at(j, name));
    }
    if t.has_live(name) {
        let j = choose|j: int| t.live_at(j, name);
        assert(s.live_at(j, name));
    }
    lemma_count_live_same(s, t, s.records.len() as int);
    assert(s.records.take(s.records.len() as int) =~= s.records);
    assert(t.records.take(s.records.len() as int) =~= t.records);
}

/// Two stores whose secrets are live at the same places have as many live
/// secrets among their first `n`.
proof fn lemma_count_live_same(s: StoreModel, t: StoreModel, n: int)
    requires
        s.records.len() == t.records.len(),
        0 <= n <= s.records.len(),
        forall|i: int| 0 <= i < s.records.len() ==> s.records[i].live == t.records[i].live,
    ensures
        crate::store::count_live(s.records.take(n)) == crate::store::count_live(t.records.take(n)),
    decreases n,
{
    if n > 0 {
        lemma_count_live_same(s, t, n - 1);
        assert(s.records.take(n).drop_last() =~= s.records.take(n - 1));
        assert(t.records.take(n).drop_last() =~= t.records.take(n - 1));
    }
}

} // verus!
