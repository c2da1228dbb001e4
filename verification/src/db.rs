use vstd::prelude::*;

use crate::codec::{compress, deflate_of, inflate_of};
use crate::errors::StoreError;
use crate::model::{
    entries_map, entries_of, lemma_entries_map_contains, lemma_entries_map_remove,
    lemma_entries_map_value, lemma_entries_of_push, lemma_entries_of_remove, lemma_unique_remove,
    unique_ids, RecordEntry, RecordView, StoreContents,
};
use crate::options::{MongoOptions, PostgresOptions};

verus! {

/// One row of the relational table: `image_identifier TEXT PRIMARY KEY,
/// image_data BLOB, mime TEXT`.
#[derive(Debug)]
pub struct ImageRow {
    pub image_identifier: String,
    pub image_data: Vec<u8>,
    pub mime: String,
}

impl View for ImageRow {
    type V = RecordEntry;

    open spec fn view(&self) -> RecordEntry {
        RecordEntry { id: self.image_identifier@, mime: self.mime@, image: self.image_data@ }
    }
}

/// One document of the collection: `{ _id, mime, image }`, the payload held
/// as a native binary field.
#[derive(Debug)]
pub struct MongoImoogDocument {
    pub _id: String,
    pub mime: String,
    pub image: Vec<u8>,
}

impl View for MongoImoogDocument {
    type V = RecordEntry;

    open spec fn view(&self) -> RecordEntry {
        RecordEntry { id: self._id@, mime: self.mime@, image: self.image@ }
    }
}

/// The storage contract that every backend adapter satisfies: one
/// long-lived handle whose observable state is `contents`, a map holding at
/// most one live record per identifier.
pub trait DatabaseImpl<OptionsT>: Sized {
    /// The adapter's internal well-formedness.
    spec fn inv(&self) -> bool;

    /// The abstract contents: each identifier maps to its one live record,
    /// the payload exactly as stored.
    spec fn contents(&self) -> StoreContents;

    /// Establish the long-lived session; a fresh store holds no records.
    fn connect(options: OptionsT) -> (r: Self)
        ensures
            r.inv(),
            r.contents() =~= Map::<Seq<char>, RecordView>::empty(),
    ;

    /// Return the record stored under the identifier as
    /// `(identifier, payload, mime)`, or `None` where there is none —
    /// absence is a normal outcome, not an error.
    fn fetch(&self, identifier: String) -> (r: Option<(String, Vec<u8>, String)>)
        requires
            self.inv(),
        ensures
            match r {
                None => !self.contents().contains_key(identifier@),
                Some(t) => self.contents().contains_key(identifier@) && t.0@ == identifier@
                    && t.1@ == self.contents()[identifier@].image
                    && t.2@ == self.contents()[identifier@].mime,
            },
    ;

    /// Write a new record; a duplicate identifier is refused as a
    /// constraint violation and leaves the store unchanged.
    fn insert(&mut self, identifier: String, mime_type: String, image: Vec<u8>) -> (r: Result<
        (),
        StoreError,
    >)
        requires
            old(self).inv(),
        ensures
            final(self).inv(),
            old(self).contents().contains_key(identifier@) ==> r == Result::<
                (),
                StoreError,
            >::Err(StoreError::ConstraintViolation) && final(self).contents() == old(
                self,
            ).contents(),
            !old(self).contents().contains_key(identifier@) ==> r is Ok && final(self).contents()
                =~= old(self).contents().insert(
                identifier@,
                RecordView { mime: mime_type@, image: image@ },
            ),
    ;

    /// Remove the record under the identifier, if any; deleting an absent
    /// identifier is not an error.
    fn delete(&mut self, identifier: String)
        requires
            old(self).inv(),
        ensures
            final(self).inv(),
            final(self).contents() =~= old(self).contents().remove(identifier@),
    ;
}

/// A backend adapter: the configuration it was connected with and its live
/// connection. The relational adapter's connection is modeled by the rows
/// of its table, the document adapter's by the documents of its collection.
#[derive(Debug)]
pub struct DatabaseDriver<OptionsT, ConnectionT> {
    options: OptionsT,
    connection: ConnectionT,
}

impl<OptionsT, ConnectionT> DatabaseDriver<OptionsT, ConnectionT> {
    /// The configuration the driver was connected with.
    pub closed spec fn spec_options(&self) -> &OptionsT {
        &self.options
    }

    /// The configuration the driver was connected with.
    pub fn options(&self) -> (r: &OptionsT)
        ensures
            r == self.spec_options(),
    {
        &self.options
    }
}

/// A cloned byte vector holds exactly the bytes of the original.
proof fn lemma_u8_vec_cloned(v: Vec<u8>, c: Vec<u8>)
    requires
        c@.len() == v@.len(),
        forall|i: int| #![all_triggers] 0 <= i < v@.len() ==> cloned::<u8>(v[i], c[i]),
    ensures
        c@ == v@,
{
    assert forall|i: int| 0 <= i < v@.len() implies v@[i] == c@[i] by {
        assert(cloned::<u8>(v[i], c[i]));
    }
    assert(v@ =~= c@);
}

impl DatabaseDriver<PostgresOptions, Vec<ImageRow>> {
    /// The index of the row holding the identifier, if any.
    fn position_of(&self, identifier: &String) -> (r: Option<usize>)
        ensures
            match r {
                Some(i) => i < self.connection@.len() && entries_of(self.connection@)[i as int].id
                    == identifier@,
                None => forall|k: int|
                    0 <= k < self.connection@.len() ==> entries_of(self.connection@)[k].id
                        != identifier@,
            },
    {
        let n = self.connection.len();
        let mut j: usize = 0;
        while j < n
            invariant
                n == self.connection@.len(),
                j <= n,
                forall|k: int| 0 <= k < j ==> entries_of(self.connection@)[k].id != identifier@,
            decreases n - j,
        {
            proof {
                assert(entries_of(self.connection@)[j as int] == self.connection@[j as int]@);
            }
            if self.connection[j].image_identifier == *identifier {
                return Some(j);
            }
            j += 1;
        }
        None
    }
}

impl DatabaseImpl<PostgresOptions> for DatabaseDriver<PostgresOptions, Vec<ImageRow>> {
    closed spec fn inv(&self) -> bool {
        unique_ids(entries_of(self.connection@))
    }

    closed spec fn contents(&self) -> StoreContents {
        entries_map(entries_of(self.connection@))
    }

    fn connect(options: PostgresOptions) -> (r: Self) {
        let driver = DatabaseDriver { options, connection: Vec::<ImageRow>::new() };
        proof {
            assert(entries_of(driver.connection@).len() == 0);
        }
        driver
    }

    fn fetch(&self, identifier: String) -> (r: Option<(String, Vec<u8>, String)>) {
        match self.position_of(&identifier) {
            Some(i) => {
                proof {
                    lemma_entries_map_value(entries_of(self.connection@), i as int);
                }
                let row = &self.connection[i];
                proof {
                    assert(entries_of(self.connection@)[i as int] == self.connection@[i as int]@);
                }
                let data = row.image_data.clone();
                proof {
                    lemma_u8_vec_cloned(row.image_data, data);
                }
                Some((row.image_identifier.clone(), data, row.mime.clone()))
            },
            None => {
                proof {
                    lemma_entries_map_contains(entries_of(self.connection@), identifier@);
                }
                None
            },
        }
    }

    fn insert(&mut self, identifier: String, mime_type: String, image: Vec<u8>) -> (r: Result<
        (),
        StoreError,
    >) {
        let ghost entries = entries_of(self.connection@);
        match self.position_of(&identifier) {
            Some(i) => {
                proof {
                    lemma_entries_map_contains(entries, identifier@);
                    assert(0 <= i < entries.len() && entries[i as int].id == identifier@);
                }
                Err(StoreError::ConstraintViolation)
            },
            None => {
                proof {
                    lemma_entries_map_contains(entries, identifier@);
                }
                let row = ImageRow {
                    image_identifier: identifier,
                    image_data: image,
                    mime: mime_type,
                };
                proof {
                    lemma_entries_of_push(self.connection@, row);
                }
                self.connection.push(row);
                proof {
                    let pushed = entries.push(
                        RecordEntry { id: identifier@, mime: mime_type@, image: image@ },
                    );
                    assert(entries_of(self.connection@) == pushed);
                    assert forall|a: int, b: int|
                        0 <= a < b < pushed.len() implies pushed[a].id != pushed[b].id by {
                        if b < entries.len() {
                            assert(pushed[a] == entries[a]);
                            assert(pushed[b] == entries[b]);
                        } else {
                            assert(pushed[a] == entries[a]);
                            assert(pushed[b].id == identifier@);
                        }
                    }
                    assert(pushed.drop_last() =~= entries);
                    assert(entries_map(pushed) == entries_map(entries).insert(
                        identifier@,
                        RecordView { mime: mime_type@, image: image@ },
                    ));
                }
                Ok(())
            },
        }
    }

    fn delete(&mut self, identifier: String) {
        let ghost entries = entries_of(self.connection@);
        match self.position_of(&identifier) {
            Some(i) => {
                proof {
                    lemma_unique_remove(entries, i as int);
                    lemma_entries_map_remove(entries, i as int);
                    lemma_entries_of_remove(self.connection@, i as int);
                }
                self.connection.remove(i);
                proof {
                    assert(entries_of(self.connection@) == entries.remove(i as int));
                }
            },
            None => {
                proof {
                    lemma_entries_map_contains(entries, identifier@);
                    assert(entries_map(entries) =~= entries_map(entries).remove(identifier@));
                }
            },
        }
    }
}

impl DatabaseDriver<MongoOptions, Vec<MongoImoogDocument>> {
    /// The index of the document holding the identifier, if any.
    fn position_of(&self, identifier: &String) -> (r: Option<usize>)
        ensures
            match r {
                Some(i) => i < self.connection@.len() && entries_of(self.connection@)[i as int].id
                    == identifier@,
                None => forall|k: int|
                    0 <= k < self.connection@.len() ==> entries_of(self.connection@)[k].id
                        != identifier@,
            },
    {
        let n = self.connection.len();
        let mut j: usize = 0;
        while j < n
            invariant
                n == self.connection@.len(),
                j <= n,
                forall|k: int| 0 <= k < j ==> entries_of(self.connection@)[k].id != identifier@,
            decreases n - j,
        {
            proof {
                assert(entries_of(self.connection@)[j as int] == self.connection@[j as int]@);
            }
            if self.connection[j]._id == *identifier {
                return Some(j);
            }
            j += 1;
        }
        None
    }
}

impl DatabaseImpl<MongoOptions> for DatabaseDriver<MongoOptions, Vec<MongoImoogDocument>> {
    closed spec fn inv(&self) -> bool {
        unique_ids(entries_of(self.connection@))
    }

    closed spec fn contents(&self) -> StoreContents {
        entries_map(entries_of(self.connection@))
    }

    fn connect(options: MongoOptions) -> (r: Self) {
        let driver = DatabaseDriver { options, connection: Vec::<MongoImoogDocument>::new() };
        proof {
            assert(entries_of(driver.connection@).len() == 0);
        }
        driver
    }

    fn fetch(&self, identifier: String) -> (r: Option<(String, Vec<u8>, String)>) {
        match self.position_of(&identifier) {
            Some(i) => {
                proof {
                    lemma_entries_map_value(entries_of(self.connection@), i as int);
                }
                let document = &self.connection[i];
                proof {
                    assert(entries_of(self.connection@)[i as int] == self.connection@[i as int]@);
                }
                let data = document.image.clone();
                proof {
                    lemma_u8_vec_cloned(document.image, data);
                }
                Some((document._id.clone(), data, document.mime.clone()))
            },
            None => {
                proof {
                    lemma_entries_map_contains(entries_of(self.connection@), identifier@);
                }
                None
            },
        }
    }

    fn insert(&mut self, identifier: String, mime_type: String, image: Vec<u8>) -> (r: Result<
        (),
        StoreError,
    >) {
        let ghost entries = entries_of(self.connection@);
        match self.position_of(&identifier) {
            Some(i) => {
                proof {
                    lemma_entries_map_contains(entries, identifier@);
                    assert(0 <= i < entries.len() && entries[i as int].id == identifier@);
                }
                Err(StoreError::ConstraintViolation)
            },
            None => {
                proof {
                    lemma_entries_map_contains(entries, identifier@);
                }
                let document = MongoImoogDocument { _id: identifier, mime: mime_type, image };
                proof {
                    lemma_entries_of_push(self.connection@, document);
                }
                self.connection.push(document);
                proof {
                    let pushed = entries.push(
                        RecordEntry { id: identifier@, mime: mime_type@, image: image@ },
                    );
                    assert(entries_of(self.connection@) == pushed);
                    assert forall|a: int, b: int|
                        0 <= a < b < pushed.len() implies pushed[a].id != pushed[b].id by {
                        if b < entries.len() {
                            assert(pushed[a] == entries[a]);
                            assert(pushed[b] == entries[b]);
                        } else {
                            assert(pushed[a] == entries[a]);
                            assert(pushed[b].id == identifier@);
                        }
                    }
                    assert(pushed.drop_last() =~= entries);
                    assert(entries_map(pushed) == entries_map(entries).insert(
                        identifier@,
                        RecordView { mime: mime_type@, image: image@ },
                    ));
                }
                Ok(())
            },
        }
    }

    fn delete(&mut self, identifier: String) {
        let ghost entries = entries_of(self.connection@);
        match self.position_of(&identifier) {
            Some(i) => {
                proof {
                    lemma_unique_remove(entries, i as int);
                    lemma_entries_map_remove(entries, i as int);
                    lemma_entries_of_remove(self.connection@, i as int);
                }
                self.connection.remove(i);
                proof {
                    assert(entries_of(self.connection@) == entries.remove(i as int));
                }
            },
            None => {
                proof {
                    lemma_entries_map_contains(entries, identifier@);
                    assert(entries_map(entries) =~= entries_map(entries).remove(identifier@));
                }
            },
        }
    }
}

/// Write path of the store: compress the caller's raw bytes, then insert
/// them under the identifier. The store never persists raw bytes, and a
/// stored payload always decompresses back to the caller's bytes exactly.
pub fn store_image<OptionsT, D: DatabaseImpl<OptionsT>>(
    db: &mut D,
    identifier: String,
    mime_type: String,
    raw: &[u8],
) -> (r: Result<(), StoreError>)
    requires
        old(db).inv(),
    ensures
        final(db).inv(),
        old(db).contents().contains_key(identifier@) ==> r == Result::<(), StoreError>::Err(
            StoreError::ConstraintViolation,
        ) && final(db).contents() == old(db).contents(),
        !old(db).contents().contains_key(identifier@) ==> r is Ok && final(db).contents() =~= old(
            db,
        ).contents().insert(
            identifier@,
            RecordView { mime: mime_type@, image: deflate_of(raw@) },
        ) && inflate_of(deflate_of(raw@)) == Some(raw@),
{
    let compressed = compress(raw);
    db.insert(identifier, mime_type, compressed)
}

} // verus!
