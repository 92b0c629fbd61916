use vstd::prelude::*;
use vstd::string::StringExecFns;
use crate::errors::Error;
use crate::status::Status;
use crate::status::StatusView;
use crate::status::transition_allowed;
use crate::status::transition_allowed_exec;
use crate::status::valid_history;
use crate::status::is_terminal;
use crate::status::lemma_history_extend;
use crate::status::lemma_history_canonical;

verus! {

/// One registry entry: a submitted task, when it arrived, and where it
/// stands in its lifecycle.
#[derive(Clone, Debug)]
pub struct TaskRecord {
    pub task_id: String,
    pub timestamp: i64,
    pub status: Status,
}

/// The mathematical value of a `TaskRecord`.
#[verifier::ext_equal]
pub struct RecordView {
    pub task_id: Seq<char>,
    pub timestamp: i64,
    pub status: StatusView,
}

impl View for TaskRecord {
    type V = RecordView;

    open spec fn view(&self) -> RecordView {
        RecordView { task_id: self.task_id@, timestamp: self.timestamp, status: self.status@ }
    }
}

#[verifier::external_type_specification]
#[verifier::external_body]
#[verifier::reject_recursive_types(K)]
#[verifier::reject_recursive_types(V)]
#[verifier::reject_recursive_types(S)]
pub struct ExIndexMap<K, V, S>(indexmap::IndexMap<K, V, S>);

/// What an insertion-ordered task map holds: its key/record pairs, oldest
/// insertion first.
pub uninterp spec fn entries_of(m: indexmap::IndexMap<String, TaskRecord>) -> Seq<
    (Seq<char>, RecordView),
>;

/// Whether some entry of `s` carries the key `id`.
pub open spec fn has_id(s: Seq<(Seq<char>, RecordView)>, id: Seq<char>) -> bool {
    exists|i: int| 0 <= i < s.len() && s[i].0 == id
}

/// The position of the entry carrying `id` (unique when keys are distinct).
pub open spec fn id_index(s: Seq<(Seq<char>, RecordView)>, id: Seq<char>) -> int {
    choose|i: int| 0 <= i < s.len() && s[i].0 == id
}

/// The record stored under `id`.
pub open spec fn record_of(s: Seq<(Seq<char>, RecordView)>, id: Seq<char>) -> RecordView {
    s[id_index(s, id)].1
}

/// Keys of `s` are pairwise distinct.
pub open spec fn distinct_ids(s: Seq<(Seq<char>, RecordView)>) -> bool {
    forall|i: int, j: int| 0 <= i < j < s.len() ==> (#[trigger] s[i].0) != (#[trigger] s[j].0)
}

/// The entries after asking to move the task `id` to status `st`: the one
/// matching record changes exactly when the transition is an accepted one;
/// everything else, and the order, stays as it was.
pub open spec fn updated_entries(
    s: Seq<(Seq<char>, RecordView)>,
    id: Seq<char>,
    st: StatusView,
) -> Seq<(Seq<char>, RecordView)> {
    Seq::new(
        s.len(),
        |i: int|
            if s[i].0 == id && transition_allowed(s[i].1.status, st) {
                (s[i].0, RecordView { status: st, ..s[i].1 })
            } else {
                s[i]
            },
    )
}

/// In a run with distinct keys, the entry found at the key's index is the
/// one any witness index points at.
pub proof fn lemma_id_index_unique(s: Seq<(Seq<char>, RecordView)>, i: int)
    requires
        distinct_ids(s),
        0 <= i < s.len(),
    ensures
        id_index(s, s[i].0) == i,
{
    let id = s[i].0;
    assert(has_id(s, id));
    let j = id_index(s, id);
    if j < i {
        assert(s[j].0 != s[i].0);
    } else if i < j {
        assert(s[i].0 != s[j].0);
    }
}

/// Asking to update an id that no entry carries changes nothing.
pub proof fn lemma_update_unknown_id(s: Seq<(Seq<char>, RecordView)>, id: Seq<char>, st: StatusView)
    requires
        !has_id(s, id),
    ensures
        updated_entries(s, id, st) =~= s,
{
}

/// An update never adds, removes or reorders entries, and never touches a key.
pub proof fn lemma_update_preserves_keys(
    s: Seq<(Seq<char>, RecordView)>,
    id: Seq<char>,
    st: StatusView,
)
    ensures
        updated_entries(s, id, st).len() == s.len(),
        forall|i: int| 0 <= i < s.len() ==> (#[trigger] updated_entries(s, id, st)[i]).0 == s[i].0
            && updated_entries(s, id, st)[i].1.task_id == s[i].1.task_id
            && updated_entries(s, id, st)[i].1.timestamp == s[i].1.timestamp,
{
}

/// A terminal record is never changed by an update.
pub proof fn lemma_terminal_stays(s: Seq<(Seq<char>, RecordView)>, id: Seq<char>, st: StatusView)
    requires
        distinct_ids(s),
        has_id(s, id),
        is_terminal(record_of(s, id).status),
    ensures
        updated_entries(s, id, st) =~= s,
{
    assert forall|i: int| 0 <= i < s.len() implies updated_entries(s, id, st)[i] == s[i] by {
        if s[i].0 == id {
            lemma_id_index_unique(s, i);
        }
    }
}

/// An accepted update lands the record under `id` exactly at the new
/// status, leaving its identity, its timestamp and its position alone.
pub proof fn lemma_update_applies(s: Seq<(Seq<char>, RecordView)>, id: Seq<char>, st: StatusView)
    requires
        distinct_ids(s),
        has_id(s, id),
        transition_allowed(record_of(s, id).status, st),
    ensures
        has_id(updated_entries(s, id, st), id),
        distinct_ids(updated_entries(s, id, st)),
        id_index(updated_entries(s, id, st), id) == id_index(s, id),
        record_of(updated_entries(s, id, st), id).status == st,
        record_of(updated_entries(s, id, st), id).task_id == record_of(s, id).task_id,
        record_of(updated_entries(s, id, st), id).timestamp == record_of(s, id).timestamp,
{
    let u = updated_entries(s, id, st);
    let i = id_index(s, id);
    assert(0 <= i < s.len() && s[i].0 == id);
    assert(u[i].0 == id);
    assert(has_id(u, id));
    assert forall|p: int, q: int| 0 <= p < q < u.len() implies (#[trigger] u[p].0)
        != (#[trigger] u[q].0) by {
        assert(u[p].0 == s[p].0 && u[q].0 == s[q].0);
    }
    lemma_id_index_unique(u, i);
}

/// Relies on `indexmap::IndexMap::new`: the new map is empty.
#[verifier::external_body]
fn im_new() -> (r: indexmap::IndexMap<String, TaskRecord>)
    ensures
        entries_of(r) == Seq::<(Seq<char>, RecordView)>::empty(),
{
    indexmap::IndexMap::new()
}

/// Relies on `indexmap::IndexMap::insert`: a key not yet present is appended
/// last in insertion order and `None` comes back; a present key keeps its
/// place, its value alone is replaced, and the old value comes back.
#[verifier::external_body]
fn im_insert(
    m: &mut indexmap::IndexMap<String, TaskRecord>,
    key: String,
    value: TaskRecord,
) -> (r: Option<TaskRecord>)
    ensures
        !has_id(entries_of(*old(m)), key@) ==> entries_of(*final(m)) == entries_of(*old(m)).push(
            (key@, value@),
        ) && r is None,
        forall|i: int|
            0 <= i < entries_of(*old(m)).len() && (#[trigger] entries_of(*old(m))[i]).0 == key@
                ==> entries_of(*final(m)) == entries_of(*old(m)).update(i, (key@, value@)) && (
            match r {
                Some(prev) => prev@ == entries_of(*old(m))[i].1,
                None => false,
            }),
{
    m.insert(key, value)
}

/// Relies on `indexmap::IndexMap::get`: it returns the value stored under
/// the key, or `None` when no entry carries it.
#[verifier::external_body]
fn im_get<'a>(m: &'a indexmap::IndexMap<String, TaskRecord>, key: &String) -> (r: Option<
    &'a TaskRecord,
>)
    ensures
        match r {
            Some(rec) => exists|i: int|
                0 <= i < entries_of(*m).len() && (#[trigger] entries_of(*m)[i]).0 == key@
                    && entries_of(*m)[i].1 == rec@,
            None => !has_id(entries_of(*m), key@),
        },
{
    m.get(key)
}

/// Relies on `indexmap::IndexMap::values`: it yields the stored records in
/// insertion order; the body only clones them into a `Vec`.
#[verifier::external_body]
fn im_values(m: &indexmap::IndexMap<String, TaskRecord>) -> (r: Vec<TaskRecord>)
    ensures
        r@.len() == entries_of(*m).len(),
        forall|i: int| 0 <= i < r@.len() ==> (#[trigger] r@[i])@ == entries_of(*m)[i].1,
{
    m.values().cloned().collect()
}

/// The in-memory task store: every submission's record, in submission order,
/// each advancing along the status lifecycle and never leaving a terminal
/// state. The ghost `history` keeps, for each task, every status it has been
/// observed in.
pub struct TaskRegistry {
    map: indexmap::IndexMap<String, TaskRecord>,
    history: Ghost<Map<Seq<char>, Seq<StatusView>>>,
}

impl TaskRegistry {
    /// The key/record pairs, in insertion order.
    pub closed spec fn entries(self) -> Seq<(Seq<char>, RecordView)> {
        entries_of(self.map)
    }

    /// Every status the task `id` has been observed in, oldest first.
    pub closed spec fn history_of(self, id: Seq<char>) -> Seq<StatusView> {
        self.history@[id]
    }

    pub closed spec fn histories(self) -> Map<Seq<char>, Seq<StatusView>> {
        self.history@
    }

    /// The registry's invariant: one record per id, each record knowing its
    /// own id, and each with a valid observation history ending at its
    /// current status.
    pub closed spec fn wf(self) -> bool {
        &&& distinct_ids(self.entries())
        &&& forall|i: int|
            0 <= i < self.entries().len() ==> (#[trigger] self.entries()[i]).1.task_id
                == self.entries()[i].0
        &&& forall|i: int|
            0 <= i < self.entries().len() ==> self.histories().contains_key(
                (#[trigger] self.entries()[i]).0,
            )
        &&& forall|i: int|
            0 <= i < self.entries().len() ==> {
                let h = self.histories()[(#[trigger] self.entries()[i]).0];
                valid_history(h) && h.len() > 0 && h.last() == self.entries()[i].1.status
            }
    }

    pub fn new() -> (r: Self)
        ensures
            r.wf(),
            r.entries() == Seq::<(Seq<char>, RecordView)>::empty(),
    {
        TaskRegistry { map: im_new(), history: Ghost(Map::empty()) }
    }

    /// Register a fresh submission as `Pending`. A duplicate id is a logic
    /// error: it is reported and the registry is left untouched.
    pub fn insert(&mut self, id: String, timestamp: i64) -> (r: Result<(), Error>)
        requires
            old(self).wf(),
        ensures
            final(self).wf(),
            r is Ok <==> !has_id(old(self).entries(), id@),
            r is Ok ==> final(self).entries() == old(self).entries().push(
                (id@, (RecordView { task_id: id@, timestamp, status: StatusView::Pending })),
            ) && final(self).histories() == old(self).histories().insert(
                id@,
                seq![StatusView::Pending],
            ),
            r is Err ==> final(self).entries() == old(self).entries() && final(self).histories()
                == old(self).histories(),
    {
        if im_get(&self.map, &id).is_some() {
            return Err(Error::Common(String::from_str("task id already registered")));
        }
        let ghost gid = id@;
        let record = TaskRecord { task_id: id.clone(), timestamp, status: Status::Pending };
        let prev = im_insert(&mut self.map, id, record);
        self.history = Ghost(self.history@.insert(gid, seq![StatusView::Pending]));
        proof {
            let es = self.entries();
            assert forall|i: int, j: int| 0 <= i < j < es.len() implies (#[trigger] es[i].0)
                != (#[trigger] es[j].0) by {
                assert(es == old(self).entries().push((gid, es.last().1)));
            }
        }
        Ok(())
    }

    /// Apply a worker outcome to the task `id`. An unknown id and a refused
    /// transition are reported, non-fatally, with the registry untouched.
    pub fn update(&mut self, id: &String, new_status: Status) -> (r: UpdateOutcome)
        requires
            old(self).wf(),
        ensures
            final(self).wf(),
            final(self).entries() == updated_entries(old(self).entries(), id@, new_status@),
            r == UpdateOutcome::UnknownId <==> !has_id(old(self).entries(), id@),
            r == UpdateOutcome::Updated <==> has_id(old(self).entries(), id@)
                && transition_allowed(record_of(old(self).entries(), id@).status, new_status@),
            r == UpdateOutcome::InvalidTransition <==> has_id(old(self).entries(), id@)
                && !transition_allowed(record_of(old(self).entries(), id@).status, new_status@),
            r == UpdateOutcome::Updated ==> final(self).histories() == old(
                self,
            ).histories().insert(id@, old(self).history_of(id@).push(new_status@)),
            r != UpdateOutcome::Updated ==> final(self).histories() == old(self).histories(),
    {
        let current = im_get(&self.map, id);
        match current {
            None => {
                proof {
                    lemma_update_unknown_id(self.entries(), id@, new_status@);
                    assert(updated_entries(self.entries(), id@, new_status@) == self.entries());
                }
                UpdateOutcome::UnknownId
            },
            Some(rec) => {
                let ghost es = entries_of(self.map);
                let ghost wi = choose|i: int|
                    0 <= i < es.len() && es[i].0 == id@ && es[i].1 == rec@;
                proof {
                    lemma_id_index_unique(es, wi);
                }
                if !transition_allowed_exec(&rec.status, &new_status) {
                    proof {
                        assert forall|i: int| 0 <= i < es.len() implies updated_entries(
                            es,
                            id@,
                            new_status@,
                        )[i] == es[i] by {
                            if es[i].0 == id@ {
                                lemma_id_index_unique(es, i);
                            }
                        }
                        assert(updated_entries(es, id@, new_status@) =~= es);
                    }
                    UpdateOutcome::InvalidTransition
                } else {
                    let new_rec = TaskRecord {
                        task_id: rec.task_id.clone(),
                        timestamp: rec.timestamp,
                        status: new_status,
                    };
                    let ghost new_view = new_rec@;
                    let _prev = im_insert(&mut self.map, id.clone(), new_rec);
                    self.history = Ghost(
                        self.history@.insert(id@, self.history@[id@].push(new_view.status)),
                    );
                    proof {
                        assert(entries_of(self.map) == es.update(wi, (id@, new_view)));
                        assert forall|i: int| 0 <= i < es.len() implies updated_entries(
                            es,
                            id@,
                            new_view.status,
                        )[i] == es.update(wi, (id@, new_view))[i] by {
                            if es[i].0 == id@ {
                                lemma_id_index_unique(es, i);
                                assert(i == wi);
                                assert(new_view == (RecordView {
                                    status: new_view.status,
                                    ..es[i].1
                                }));
                            }
                        }
                        assert(updated_entries(es, id@, new_view.status) =~= es.update(
                            wi,
                            (id@, new_view),
                        ));
                        lemma_history_extend(old(self).history_of(id@), new_view.status);
                        self.lemma_update_wf(*old(self), id@, new_view, wi);
                    }
                    UpdateOutcome::Updated
                }
            },
        }
    }

    /// After a successful update the invariant still holds.
    proof fn lemma_update_wf(self, prev: Self, id: Seq<char>, new_view: RecordView, wi: int)
        requires
            prev.wf(),
            0 <= wi < prev.entries().len(),
            prev.entries()[wi].0 == id,
            new_view.task_id == prev.entries()[wi].1.task_id,
            new_view.timestamp == prev.entries()[wi].1.timestamp,
            self.entries() == prev.entries().update(wi, (id, new_view)),
            valid_history(prev.history_of(id).push(new_view.status)),
            self.histories() == prev.histories().insert(
                id,
                prev.history_of(id).push(new_view.status),
            ),
        ensures
            self.wf(),
    {
        let es = self.entries();
        assert forall|i: int, j: int| 0 <= i < j < es.len() implies (#[trigger] es[i].0)
            != (#[trigger] es[j].0) by {
            assert(prev.entries()[i].0 == es[i].0 && prev.entries()[j].0 == es[j].0);
        }
        assert forall|i: int| 0 <= i < es.len() implies {
            let h = self.histories()[(#[trigger] es[i]).0];
            self.histories().contains_key(es[i].0) && valid_history(h) && h.len() > 0 && h.last()
                == es[i].1.status
        } by {
            if i != wi {
                assert(es[i] == prev.entries()[i]);
                if es[i].0 == id {
                    assert(prev.entries()[wi].0 == id);
                }
            }
        }
    }

    /// A consistent point-in-time copy of all records, in insertion order.
    pub fn snapshot(&self) -> (r: Vec<TaskRecord>)
        ensures
            r@.len() == self.entries().len(),
            forall|i: int| 0 <= i < r@.len() ==> (#[trigger] r@[i])@ == self.entries()[i].1,
    {
        im_values(&self.map)
    }

    /// Look one task up by its id.
    pub fn get_record(&self, id: &String) -> (r: Option<&TaskRecord>)
        requires
            self.wf(),
        ensures
            match r {
                Some(rec) => has_id(self.entries(), id@) && rec@ == record_of(
                    self.entries(),
                    id@,
                ),
                None => !has_id(self.entries(), id@),
            },
    {
        let r = im_get(&self.map, id);
        proof {
            if r is Some {
                let wi = choose|i: int|
                    0 <= i < self.entries().len() && self.entries()[i].0 == id@
                        && self.entries()[i].1 == r.unwrap()@;
                lemma_id_index_unique(self.entries(), wi);
            }
        }
        r
    }

    /// No two records ever share an id.
    pub proof fn lemma_ids_unique(self)
        requires
            self.wf(),
        ensures
            forall|i: int, j: int|
                0 <= i < j < self.entries().len() ==> (#[trigger] self.entries()[i]).0
                    != (#[trigger] self.entries()[j]).0,
    {
    }

    /// Every task was observed `Pending` first: strictly before any terminal
    /// status.
    pub proof fn lemma_pending_precedes_terminal(self, id: Seq<char>)
        requires
            self.wf(),
            has_id(self.entries(), id),
        ensures
            self.history_of(id).len() > 0,
            self.history_of(id)[0] is Pending,
            forall|i: int|
                0 <= i < self.history_of(id).len() && is_terminal(#[trigger] self.history_of(id)[i])
                    ==> 0 < i,
    {
        let wi = id_index(self.entries(), id);
        assert(0 <= wi < self.entries().len() && self.entries()[wi].0 == id);
        let h = self.history_of(id);
        assert(valid_history(h) && h.len() > 0);
        assert forall|i: int| 0 <= i < h.len() && is_terminal(#[trigger] h[i]) implies 0 < i by {
            assert(h[0] is Pending);
        }
    }

    /// The statuses any task is observed in follow the canonical lifecycle:
    /// `Pending` first, possibly `InProgress`, then at most one terminal
    /// state, last — never both `Success` and `Failure`, and nothing after a
    /// terminal state. The task's record carries the latest of them.
    pub proof fn lemma_status_lifecycle(self, id: Seq<char>)
        requires
            self.wf(),
            has_id(self.entries(), id),
        ensures
            valid_history(self.history_of(id)),
            self.history_of(id).len() >= 1,
            self.history_of(id).len() <= 3,
            self.history_of(id)[0] is Pending,
            forall|i: int|
                0 <= i < self.history_of(id).len() - 1 ==> !is_terminal(
                    #[trigger] self.history_of(id)[i],
                ),
            !(exists|i: int, j: int|
                0 <= i < self.history_of(id).len() && 0 <= j < self.history_of(id).len()
                    && self.history_of(id)[i] is Success && self.history_of(id)[j] is Failure),
            self.history_of(id).last() == record_of(self.entries(), id).status,
    {
        let wi = id_index(self.entries(), id);
        assert(0 <= wi < self.entries().len() && self.entries()[wi].0 == id);
        lemma_history_canonical(self.history_of(id));
    }
}

/// How the registry answered a status-update request.
#[derive(Clone, Copy, Debug, PartialEq, Eq, Structural)]
pub enum UpdateOutcome {
    Updated,
    UnknownId,
    InvalidTransition,
}

} // verus!
