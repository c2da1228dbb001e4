use vstd::prelude::*;

use crate::codec::{decompress, inflate_of};
use crate::db::DatabaseImpl;
use crate::errors::StoreError;
use crate::model::{spec_fetch, RecordView, StoreContents};

verus! {

/// Plain-text welcome line served at the root route.
pub fn index() -> (r: &'static str)
    ensures
        r@ == "Welcome to imoog"@,
{
    "Welcome to imoog"
}

/// Everything the delivery path decides about an HTTP response: the status
/// code, the `content-type` header if one is set, and the body bytes.
pub struct ImageResponse {
    pub status: u16,
    pub content_type: Option<String>,
    pub body: Vec<u8>,
}

/// A not-found answer: status 404 and an empty body.
pub open spec fn response_not_found(r: ImageResponse) -> bool {
    &&& r.status == 404
    &&& r.content_type is None
    &&& r.body@ == Seq::<u8>::empty()
}

/// A server-side failure answer: status 500 and an empty body.
pub open spec fn response_server_error(r: ImageResponse) -> bool {
    &&& r.status == 500
    &&& r.content_type is None
    &&& r.body@ == Seq::<u8>::empty()
}

/// The response owed for a fetch outcome: 404 where the record is absent,
/// 500 where the backend failed or the stored payload does not decompress,
/// else 200 with the stored MIME string and the decompressed payload.
pub open spec fn response_matches(
    r: ImageResponse,
    fetched: Result<Option<RecordView>, StoreError>,
) -> bool {
    match fetched {
        Ok(Some(record)) => {
            if inflate_of(record.image) is Some {
                &&& r.status == 200
                &&& r.content_type matches Some(ct) && ct@ == record.mime
                &&& Some(r.body@) == inflate_of(record.image)
            } else {
                response_server_error(r)
            }
        },
        Ok(None) => response_not_found(r),
        Err(_) => response_server_error(r),
    }
}

/// The record a raw fetch result stands for: its MIME string and its
/// payload as stored.
pub open spec fn fetched_record(t: (String, Vec<u8>, String)) -> RecordView {
    RecordView { mime: t.2@, image: t.1@ }
}

/// The view of a raw fetch outcome, errors passed through.
pub open spec fn fetched_view(
    fetched: Result<Option<(String, Vec<u8>, String)>, StoreError>,
) -> Result<Option<RecordView>, StoreError> {
    match fetched {
        Ok(Some(t)) => Ok(Some(fetched_record(t))),
        Ok(None) => Ok(None),
        Err(e) => Err(e),
    }
}

/// Turn a fetch outcome into the HTTP response: 404 for absence, 500 for a
/// backend failure or a stored payload that does not decompress — never the
/// compressed bytes themselves — else 200 with the stored MIME string and
/// the decompressed payload.
pub fn render_fetched(fetched: Result<Option<(String, Vec<u8>, String)>, StoreError>) -> (r:
    ImageResponse)
    ensures
        response_matches(r, fetched_view(fetched)),
{
    match fetched {
        Ok(Some((_identifier, image_data, mime))) => {
            match decompress(image_data.as_slice()) {
                Ok(decompressed) => ImageResponse {
                    status: 200,
                    content_type: Some(mime),
                    body: decompressed,
                },
                Err(_) => ImageResponse { status: 500, content_type: None, body: Vec::new() },
            }
        },
        Ok(None) => ImageResponse { status: 404, content_type: None, body: Vec::new() },
        Err(_) => ImageResponse { status: 500, content_type: None, body: Vec::new() },
    }
}

/// The response owed for an identifier against the store's contents.
pub open spec fn delivery_for(r: ImageResponse, m: StoreContents, id: Seq<char>) -> bool {
    response_matches(r, Ok(spec_fetch(m, id)))
}

/// Read path of the store: fetch the record under the identifier and turn
/// it into the HTTP response — 404 with an empty body where the identifier
/// holds no record, 500 where the stored payload does not decompress, else
/// 200 with the stored MIME string and the decompressed payload.
pub fn deliver_file<OptionsT, D: DatabaseImpl<OptionsT>>(database: &D, identifier: String) -> (r:
    ImageResponse)
    requires
        database.inv(),
    ensures
        delivery_for(r, database.contents(), identifier@),
{
    let fetched = database.fetch(identifier);
    render_fetched(Ok(fetched))
}

} // verus!
