use vstd::prelude::*;

verus! {

/// Configuration for the relational backend: where to connect and how many
/// pooled connections to hold.
pub struct PostgresOptions {
    pub connection_uri: String,
    pub max_connections: u32,
}

/// Configuration for the document backend: where to connect and which
/// database and collection hold the records.
pub struct MongoOptions {
    pub connection_uri: String,
    pub database_name: String,
    pub collection_name: String,
}

/// Authentication settings. The configuration format declares them, but
/// nothing on the request path enforces them.
pub struct AuthOptions {
    pub secret_key: String,
    pub delete_requires_auth: bool,
}

/// Top-level configuration: the selected backend plus authentication settings.
pub struct ImoogOptions {
    pub database: MongoOptions,
    pub auth: AuthOptions,
}

} // verus!
