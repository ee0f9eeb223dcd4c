use vstd::prelude::*;

verus! {

/// What the index of a room records of one file.
#[derive(Clone, Debug)]
pub struct FileEntry {
    /// Hash of the encrypted blob, in hex.
    pub blob_hash: String,
    /// Size of the encrypted blob in bytes.
    pub size: u64,
    /// Modification time of the file, in seconds since the Unix epoch.
    pub modified: u64,
    /// Id of the node that added the file.
    pub from_node: String,
}

impl FileEntry {
    /// The entry of a blob with hash `blob_hash` (hex) and `size` bytes, of a file last
    /// modified at `modified`, added by the node `from_node`.
    pub fn new(blob_hash: String, size: u64, modified: u64, from_node: String) -> (entry: FileEntry)
        ensures
            entry.blob_hash == blob_hash,
            entry.size == size,
            entry.modified == modified,
            entry.from_node == from_node,
    {
        FileEntry { blob_hash, size, modified, from_node }
    }
}

} // verus!
