use vstd::prelude::*;

verus! {

/// What one live record holds besides its identifier: the MIME string and
/// the payload exactly as stored (the store keeps payloads compressed).
pub ghost struct RecordView {
    pub mime: Seq<char>,
    pub image: Seq<u8>,
}

/// One stored record together with its identifier: the common shape that
/// both backends' native rows and documents abstract to.
pub ghost struct RecordEntry {
    pub id: Seq<char>,
    pub mime: Seq<char>,
    pub image: Seq<u8>,
}

impl RecordEntry {
    /// The record this entry stores under its identifier.
    pub open spec fn record(self) -> RecordView {
        RecordView { mime: self.mime, image: self.image }
    }
}

/// The abstract state of a store: each identifier maps to its one live record.
pub type StoreContents = Map<Seq<char>, RecordView>;

/// No two entries share an identifier (the primary-key / document-id
/// uniqueness every backend enforces).
pub open spec fn unique_ids(s: Seq<RecordEntry>) -> bool {
    forall|i: int, j: int| 0 <= i < j < s.len() ==> s[i].id != s[j].id
}

/// The store contents that a sequence of entries denotes.
pub open spec fn entries_map(s: Seq<RecordEntry>) -> StoreContents
    decreases s.len(),
{
    if s.len() == 0 {
        Map::empty()
    } else {
        entries_map(s.drop_last()).insert(s.last().id, s.last().record())
    }
}

/// The entries that a backend's native rows or documents abstract to.
pub open spec fn entries_of<T: View<V = RecordEntry>>(s: Seq<T>) -> Seq<RecordEntry> {
    s.map_values(|x: T| x@)
}

/// `entries_of` distributes over appending one row or document.
pub proof fn lemma_entries_of_push<T: View<V = RecordEntry>>(s: Seq<T>, x: T)
    ensures
        entries_of(s.push(x)) =~= entries_of(s).push(x@),
{
    assert forall|k: int|
        0 <= k < s.push(x).len() implies entries_of(s.push(x))[k] == entries_of(s).push(x@)[k] by {
        if k < s.len() {
            assert(s.push(x)[k] == s[k]);
        } else {
            assert(s.push(x)[k] == x);
        }
    }
}

/// `entries_of` distributes over removing one row or document.
pub proof fn lemma_entries_of_remove<T: View<V = RecordEntry>>(s: Seq<T>, i: int)
    requires
        0 <= i < s.len(),
    ensures
        entries_of(s.remove(i)) =~= entries_of(s).remove(i),
{
    assert forall|k: int|
        0 <= k < s.remove(i).len() implies entries_of(s.remove(i))[k] == entries_of(s).remove(
            i,
        )[k] by {
        if k < i {
            assert(s.remove(i)[k] == s[k]);
        } else {
            assert(s.remove(i)[k] == s[k + 1]);
        }
    }
}

/// What `fetch` observes of a store with the given contents.
pub open spec fn spec_fetch(m: StoreContents, id: Seq<char>) -> Option<RecordView> {
    if m.contains_key(id) {
        Some(m[id])
    } else {
        None
    }
}

/// Whether an insert succeeds: exactly where the identifier is still free.
pub open spec fn spec_insert_ok(m: StoreContents, id: Seq<char>) -> bool {
    !m.contains_key(id)
}

/// The contents after an insert; a store whose identifier is already taken
/// is left unchanged (the insert surfaces a constraint violation instead).
pub open spec fn spec_insert(m: StoreContents, id: Seq<char>, r: RecordView) -> StoreContents {
    if m.contains_key(id) {
        m
    } else {
        m.insert(id, r)
    }
}

/// The contents after a delete; deleting an absent identifier changes nothing.
pub open spec fn spec_delete(m: StoreContents, id: Seq<char>) -> StoreContents {
    m.remove(id)
}

/// One operation of the storage contract.
pub ghost enum Operation {
    Fetch { id: Seq<char> },
    Insert { id: Seq<char>, record: RecordView },
    Delete { id: Seq<char> },
}

/// Everything a caller observes of one operation: the fetched record, or
/// whether the insert was accepted.
pub ghost enum Observation {
    Fetched { result: Option<RecordView> },
    Inserted { ok: bool },
    Deleted,
}

/// The contents after one operation.
pub open spec fn apply_op(m: StoreContents, op: Operation) -> StoreContents {
    match op {
        Operation::Fetch { .. } => m,
        Operation::Insert { id, record } => spec_insert(m, id, record),
        Operation::Delete { id } => spec_delete(m, id),
    }
}

/// What a caller observes of one operation on the given contents.
pub open spec fn observe_op(m: StoreContents, op: Operation) -> Observation {
    match op {
        Operation::Fetch { id } => Observation::Fetched { result: spec_fetch(m, id) },
        Operation::Insert { id, .. } => Observation::Inserted { ok: spec_insert_ok(m, id) },
        Operation::Delete { .. } => Observation::Deleted,
    }
}

/// An entries sequence holds an identifier iff its denoted contents do.
pub proof fn lemma_entries_map_contains(s: Seq<RecordEntry>, k: Seq<char>)
    ensures
        entries_map(s).contains_key(k) <==> exists|i: int| 0 <= i < s.len() && s[i].id == k,
    decreases s.len(),
{
    if s.len() > 0 {
        lemma_entries_map_contains(s.drop_last(), k);
        if s.last().id == k {
            assert(s[s.len() - 1].id == k);
        } else {
            if exists|i: int| 0 <= i < s.len() && s[i].id == k {
                let i = choose|i: int| 0 <= i < s.len() && s[i].id == k;
                assert(s.drop_last()[i] == s[i]);
            }
            if exists|i: int| 0 <= i < s.drop_last().len() && s.drop_last()[i].id == k {
                let i = choose|i: int| 0 <= i < s.drop_last().len() && s.drop_last()[i].id == k;
                assert(s[i].id == k);
            }
        }
    }
}

/// Dropping the last entry keeps identifiers unique.
pub proof fn lemma_unique_drop_last(s: Seq<RecordEntry>)
    requires
        unique_ids(s),
        s.len() > 0,
    ensures
        unique_ids(s.drop_last()),
{
    assert forall|i: int, j: int|
        0 <= i < j < s.drop_last().len() implies s.drop_last()[i].id != s.drop_last()[j].id by {
        assert(s.drop_last()[i] == s[i]);
        assert(s.drop_last()[j] == s[j]);
    }
}

/// With unique identifiers, the contents at an entry's identifier are that
/// entry's record.
pub proof fn lemma_entries_map_value(s: Seq<RecordEntry>, i: int)
    requires
        unique_ids(s),
        0 <= i < s.len(),
    ensures
        entries_map(s).contains_key(s[i].id),
        entries_map(s)[s[i].id] == s[i].record(),
    decreases s.len(),
{
    if i == s.len() - 1 {
        assert(s.last() == s[i]);
    } else {
        assert(s[i].id != s[s.len() - 1].id);
        lemma_unique_drop_last(s);
        lemma_entries_map_value(s.drop_last(), i);
        assert(s.drop_last()[i] == s[i]);
    }
}

/// Removing one entry keeps identifiers unique.
pub proof fn lemma_unique_remove(s: Seq<RecordEntry>, i: int)
    requires
        unique_ids(s),
        0 <= i < s.len(),
    ensures
        unique_ids(s.remove(i)),
{
    let t = s.remove(i);
    assert forall|a: int, b: int| 0 <= a < b < t.len() implies t[a].id != t[b].id by {
        let sa: int = if a < i { a } else { a + 1 };
        let sb: int = if b < i { b } else { b + 1 };
        assert(t[a] == s[sa]);
        assert(t[b] == s[sb]);
    }
}

/// With unique identifiers, removing one entry removes exactly its key from
/// the denoted contents.
pub proof fn lemma_entries_map_remove(s: Seq<RecordEntry>, i: int)
    requires
        unique_ids(s),
        0 <= i < s.len(),
    ensures
        entries_map(s.remove(i)) =~= entries_map(s).remove(s[i].id),
    decreases s.len(),
{
    if i == s.len() - 1 {
        assert(s.remove(i) =~= s.drop_last());
        lemma_entries_map_contains(s.drop_last(), s[i].id);
        assert forall|j: int| 0 <= j < s.drop_last().len() implies s.drop_last()[j].id != s[i].id by {
            assert(s.drop_last()[j] == s[j]);
        }
        assert(!entries_map(s.drop_last()).contains_key(s[i].id));
    } else {
        lemma_unique_drop_last(s);
        lemma_entries_map_remove(s.drop_last(), i);
        assert(s.remove(i).len() == s.len() - 1);
        assert(s.remove(i).last() == s.last());
        assert(s.remove(i).drop_last() =~= s.drop_last().remove(i));
        assert(s.drop_last()[i] == s[i]);
        assert(s[i].id != s.last().id);
        assert(entries_map(s.remove(i)) =~= entries_map(s.drop_last().remove(i)).insert(
            s.last().id,
            s.last().record(),
        ));
    }
}

/// Law: the store after a successful insert holds exactly that record under
/// that identifier, so a fetch of it observes the inserted MIME string and
/// payload.
pub proof fn lemma_storage_round_trip(m: StoreContents, id: Seq<char>, r: RecordView)
    requires
        spec_insert_ok(m, id),
    ensures
        spec_fetch(spec_insert(m, id, r), id) == Some(r),
{
}

/// Law: an identifier never inserted is observed as absent.
pub proof fn lemma_absence(m: StoreContents, id: Seq<char>)
    requires
        !m.contains_key(id),
    ensures
        spec_fetch(m, id) is None,
{
}

/// Law: a deleted record is indistinguishable from one that never existed —
/// after an insert of an identifier and a delete of it, a fetch observes
/// absence, whatever else the store holds.
pub proof fn lemma_delete_effect(m: StoreContents, id: Seq<char>, r: RecordView)
    ensures
        spec_fetch(spec_delete(spec_insert(m, id, r), id), id) is None,
{
}

/// Law: inserting an identifier a second time is refused as a constraint
/// violation and leaves the store unchanged.
pub proof fn lemma_duplicate_insert(m: StoreContents, id: Seq<char>, r1: RecordView, r2: RecordView)
    requires
        spec_insert_ok(m, id),
    ensures
        !spec_insert_ok(spec_insert(m, id, r1), id),
        spec_insert(spec_insert(m, id, r1), id, r2) == spec_insert(m, id, r1),
{
}

/// Law: backend parity — two adapters of the storage contract whose contents
/// agree yield the same observation for any operation, and their contents
/// agree again afterwards; so the same operation sequence run against the
/// relational and the document adapter is observably equivalent throughout.
pub proof fn lemma_backend_parity(a: StoreContents, b: StoreContents, op: Operation)
    requires
        a =~= b,
    ensures
        observe_op(a, op) == observe_op(b, op),
        apply_op(a, op) =~= apply_op(b, op),
{
}

} // verus!
