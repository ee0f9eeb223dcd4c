use vstd::prelude::*;

verus! {

/// Prefix of the document keys that name a file of a room.
pub const DOC_PREFIX_FILE: &'static str = "file/";

/// Prefix of the document keys that name a member of a room.
pub const DOC_PREFIX_MEMBER: &'static str = "member/";

/// Qualifier of the platform data directory.
pub const APP_QUALIFIER: &'static str = "dev";

/// Organisation of the platform data directory.
pub const APP_ORG: &'static str = "haul";

/// Application name of the platform data directory.
pub const APP_NAME: &'static str = "haul";

/// Directory of the blob store, under the data directory.
pub const BLOBS_DIR: &'static str = "blobs";

/// Directory of the document store, under the data directory.
pub const DOCS_DIR: &'static str = "docs";

/// File of the node's secret key, under the data directory.
pub const NODE_KEY_FILE: &'static str = "node.key";

/// File of the room registry, under the data directory.
pub const ROOMS_FILE: &'static str = "rooms.json";

} // verus!
