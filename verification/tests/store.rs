use imoog::codec::{compress, decompress};
use imoog::db::{store_image, DatabaseDriver, DatabaseImpl, ImageRow, MongoImoogDocument};
use imoog::errors::{classify_document_error, classify_relational_error, StoreError};
use imoog::options::{AuthOptions, ImoogOptions, MongoOptions, PostgresOptions};
use imoog::routes::{deliver_file, index, render_fetched, ImageResponse};

fn relational() -> DatabaseDriver<PostgresOptions, Vec<ImageRow>> {
    DatabaseImpl::connect(PostgresOptions {
        connection_uri: "postgres://localhost/imoog".to_owned(),
        max_connections: 4,
    })
}

fn document() -> DatabaseDriver<MongoOptions, Vec<MongoImoogDocument>> {
    DatabaseImpl::connect(MongoOptions {
        connection_uri: "mongodb://localhost:27017".to_owned(),
        database_name: "imoog".to_owned(),
        collection_name: "images".to_owned(),
    })
}

fn png_stub() -> Vec<u8> {
    vec![0x89, 0x50, 0x4e, 0x47, 0x0d, 0x0a, 0x1a, 0x0a]
}

#[test]
fn welcome_line() {
    assert_eq!(index(), "Welcome to imoog");
}

#[test]
fn storage_round_trip_relational() {
    let mut db = relational();
    let raw = png_stub();
    assert_eq!(
        store_image(&mut db, "cat1".to_owned(), "image/png".to_owned(), raw.as_slice()),
        Ok(())
    );
    let (id, payload, mime) = db.fetch("cat1".to_owned()).expect("record should be present");
    assert_eq!(id, "cat1");
    assert_eq!(mime, "image/png");
    assert_ne!(payload, raw);
    assert_eq!(payload, compress(raw.as_slice()));
    assert_eq!(decompress(payload.as_slice()), Ok(raw));
}

#[test]
fn storage_round_trip_document() {
    let mut db = document();
    let raw = png_stub();
    assert_eq!(
        store_image(&mut db, "cat1".to_owned(), "image/png".to_owned(), raw.as_slice()),
        Ok(())
    );
    let (id, payload, mime) = db.fetch("cat1".to_owned()).expect("record should be present");
    assert_eq!(id, "cat1");
    assert_eq!(mime, "image/png");
    assert_eq!(decompress(payload.as_slice()), Ok(raw));
}

#[test]
fn insert_stores_payload_verbatim() {
    let mut db = relational();
    let payload: Vec<u8> = vec![1, 2, 3];
    assert_eq!(
        db.insert("a".to_owned(), "application/octet-stream".to_owned(), payload.clone()),
        Ok(())
    );
    let (_, stored, _) = db.fetch("a".to_owned()).expect("record should be present");
    assert_eq!(stored, payload);
}

#[test]
fn absence_never_inserted() {
    let db = document();
    assert_eq!(db.fetch("missing".to_owned()), None);
    let response = deliver_file(&db, "missing".to_owned());
    assert_eq!(response.status, 404);
    assert!(response.body.is_empty());
    assert_eq!(response.content_type, None);
}

#[test]
fn delete_effect() {
    let mut db = relational();
    let raw = png_stub();
    store_image(&mut db, "cat1".to_owned(), "image/png".to_owned(), raw.as_slice()).unwrap();
    db.delete("cat1".to_owned());
    assert_eq!(db.fetch("cat1".to_owned()), None);
    let response = deliver_file(&db, "cat1".to_owned());
    assert_eq!(response.status, 404);
    assert!(response.body.is_empty());
}

#[test]
fn delete_absent_identifier_is_quiet() {
    let mut db = document();
    db.delete("never".to_owned());
    assert_eq!(db.fetch("never".to_owned()), None);
}

#[test]
fn delete_leaves_other_records() {
    let mut db = document();
    store_image(&mut db, "a".to_owned(), "image/png".to_owned(), &[1u8, 2]).unwrap();
    store_image(&mut db, "b".to_owned(), "image/gif".to_owned(), &[3u8, 4]).unwrap();
    db.delete("a".to_owned());
    assert_eq!(db.fetch("a".to_owned()), None);
    let (_, payload, mime) = db.fetch("b".to_owned()).expect("record should be present");
    assert_eq!(mime, "image/gif");
    assert_eq!(decompress(payload.as_slice()), Ok(vec![3u8, 4]));
}

#[test]
fn duplicate_insert_is_constraint_violation() {
    let mut db = relational();
    let raw = png_stub();
    assert_eq!(
        store_image(&mut db, "cat1".to_owned(), "image/png".to_owned(), raw.as_slice()),
        Ok(())
    );
    assert_eq!(
        store_image(&mut db, "cat1".to_owned(), "image/jpeg".to_owned(), raw.as_slice()),
        Err(StoreError::ConstraintViolation)
    );
    let (_, _, mime) = db.fetch("cat1".to_owned()).expect("record should be present");
    assert_eq!(mime, "image/png");
}

fn observe(response: &ImageResponse) -> (u16, Option<String>, Vec<u8>) {
    (response.status, response.content_type.clone(), response.body.clone())
}

#[test]
fn backend_parity_over_an_operation_sequence() {
    let mut rel = relational();
    let mut doc = document();
    let ops: Vec<(&str, &str, Vec<u8>)> = vec![
        ("cat1", "image/png", png_stub()),
        ("cat2", "image/gif", vec![0x47, 0x49, 0x46]),
        ("cat1", "image/jpeg", vec![0xff, 0xd8]),
    ];
    for (id, mime, raw) in &ops {
        let a = store_image(&mut rel, (*id).to_owned(), (*mime).to_owned(), raw.as_slice());
        let b = store_image(&mut doc, (*id).to_owned(), (*mime).to_owned(), raw.as_slice());
        assert_eq!(a, b);
    }
    for id in ["cat1", "cat2", "missing"] {
        assert_eq!(rel.fetch(id.to_owned()), doc.fetch(id.to_owned()));
        assert_eq!(
            observe(&deliver_file(&rel, id.to_owned())),
            observe(&deliver_file(&doc, id.to_owned()))
        );
    }
    rel.delete("cat2".to_owned());
    doc.delete("cat2".to_owned());
    for id in ["cat1", "cat2"] {
        assert_eq!(rel.fetch(id.to_owned()), doc.fetch(id.to_owned()));
    }
}

#[test]
fn end_to_end_cat1() {
    let mut db = document();
    let raw = png_stub();
    store_image(&mut db, "cat1".to_owned(), "image/png".to_owned(), raw.as_slice()).unwrap();
    let response = deliver_file(&db, "cat1".to_owned());
    assert_eq!(response.status, 200);
    assert_eq!(response.content_type.as_deref(), Some("image/png"));
    assert_eq!(response.body, raw);
    let missing = deliver_file(&db, "missing".to_owned());
    assert_eq!(missing.status, 404);
    assert!(missing.body.is_empty());
}

#[test]
fn backend_failure_renders_500() {
    let response = render_fetched(Err(StoreError::BackendQueryFailure));
    assert_eq!(response.status, 500);
    assert!(response.body.is_empty());
    let response = render_fetched(Err(StoreError::ConnectionFailure));
    assert_eq!(response.status, 500);
}

#[test]
fn corrupt_payload_renders_500_not_the_raw_bytes() {
    let corrupt: Vec<u8> = vec![1, 2, 3];
    let response = render_fetched(Ok(Some((
        "cat1".to_owned(),
        corrupt,
        "image/png".to_owned(),
    ))));
    assert_eq!(response.status, 500);
    assert!(response.body.is_empty());
    assert_eq!(response.content_type, None);
}

#[test]
fn classify_relational_errors() {
    assert_eq!(
        classify_relational_error(Some("23505".to_owned())),
        StoreError::ConstraintViolation
    );
    assert_eq!(
        classify_relational_error(Some("42P01".to_owned())),
        StoreError::BackendQueryFailure
    );
    assert_eq!(classify_relational_error(None), StoreError::BackendQueryFailure);
}

#[test]
fn classify_document_errors() {
    assert_eq!(classify_document_error(Some(11000)), StoreError::ConstraintViolation);
    assert_eq!(classify_document_error(Some(2)), StoreError::BackendQueryFailure);
    assert_eq!(classify_document_error(None), StoreError::BackendQueryFailure);
}

#[test]
fn options_accessor_returns_configuration() {
    let db = relational();
    assert_eq!(db.options().max_connections, 4);
    let db = document();
    assert_eq!(db.options().collection_name, "images");
}

#[test]
fn configuration_shape() {
    let config = ImoogOptions {
        database: MongoOptions {
            connection_uri: "mongodb://localhost:27017".to_owned(),
            database_name: "imoog".to_owned(),
            collection_name: "images".to_owned(),
        },
        auth: AuthOptions {
            secret_key: "unused".to_owned(),
            delete_requires_auth: false,
        },
    };
    assert_eq!(config.database.database_name, "imoog");
    assert!(!config.auth.delete_requires_auth);
}
