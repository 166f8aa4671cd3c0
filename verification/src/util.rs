//! File descriptors and small shared helpers.

use vstd::prelude::*;

use crate::hashing::{digest_hex, lemma_hex_digest_bytes, sha256_hex};
use vstd::utf8::encode_utf8;

verus! {

/// Which address the host publishes to its peers.  Resolving `V4` or `V6`
/// to a public address needs the network and stays outside the core.
#[derive(Clone, Copy, Debug, PartialEq, Eq, Structural)]
pub enum Ip {
    V4,
    V6,
    Local,
}

/// Advertised descriptor of one file: the basename peers see, the byte
/// count, and the hex SHA-256 of the contents that identifies the file.
#[derive(Debug)]
pub struct FileInfo {
    pub name: String,
    pub size: u64,
    pub hash: String,
}

impl Clone for FileInfo {
    /// A clone repeats all three fields.
    fn clone(&self) -> (r: Self)
        ensures
            r.name == self.name,
            r.size == self.size,
            r.hash == self.hash,
    {
        FileInfo { name: self.name.clone(), size: self.size, hash: self.hash.clone() }
    }
}

impl FileInfo {
    /// Bundles the three fields of a descriptor.
    pub fn new(name: String, size: u64, hash: String) -> (r: FileInfo)
        ensures
            r.name == name,
            r.size == size,
            r.hash == hash,
    {
        FileInfo { name, size, hash }
    }
}

/// Byte-wise equality of two messages.
pub fn bytes_eq(a: &Vec<u8>, b: &Vec<u8>) -> (r: bool)
    ensures
        r == (a@ == b@),
{
    if a.len() != b.len() {
        return false;
    }
    let mut i: usize = 0;
    while i < a.len()
        invariant
            a@.len() == b@.len(),
            i <= a@.len(),
            forall|j: int| 0 <= j < i ==> a@[j] == b@[j],
        decreases a@.len() - i,
    {
        if a[i] != b[i] {
            return false;
        }
        i = i + 1;
    }
    proof {
        assert(a@ =~= b@);
    }
    true
}

/// The byte is the ASCII code of a lowercase hexadecimal digit.
pub open spec fn is_hex_byte(b: u8) -> bool {
    48 <= b <= 57 || 97 <= b <= 102
}

/// The UTF-8 bytes of a well-formed rendered digest: exactly 64 lowercase
/// hex digit codes.
pub open spec fn hash_bytes_wf(h: Seq<u8>) -> bool {
    h.len() == 64 && forall|i: int| 0 <= i < h.len() ==> is_hex_byte(#[trigger] h[i])
}

/// Every descriptor in the run has a strictly positive size.
pub open spec fn entries_positive(files: Seq<FileInfo>) -> bool {
    forall|j: int| 0 <= j < files.len() ==> (#[trigger] files[j]).size > 0
}

/// A descriptor fit for a catalog: strictly positive size and a well-formed
/// rendered digest.
pub open spec fn wf_file_info(info: FileInfo) -> bool {
    info.size > 0 && hash_bytes_wf(encode_utf8(info.hash@))
}

/// The descriptor the host advertises for one file, from its basename and
/// contents.  Zero-byte files are excluded: the result is `Some` exactly
/// when the contents are nonempty.
pub fn file_entry(name: String, content: &Vec<u8>) -> (r: Option<FileInfo>)
    ensures
        r is Some <==> content@.len() > 0,
        r matches Some(info) ==> {
            &&& info.name == name
            &&& info.size == content@.len()
            &&& info.hash@ == sha256_hex(content@)
            &&& wf_file_info(info)
        },
{
    if content.len() == 0 {
        return None;
    }
    let size = content.len() as u64;
    let hash = digest_hex(content);
    proof {
        lemma_hex_digest_bytes(hash@);
    }
    Some(FileInfo::new(name, size, hash))
}

} // verus!
