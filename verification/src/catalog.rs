//! The catalog and its wire form.
//!
//! The host advertises each file as one `name:size:digest` line.  The size
//! digits and the digest never hold a `':'`, so a line is parsed from its
//! right end and the name may hold any bytes.  A catalog collects the
//! advertised descriptors: sizes strictly positive, digests unique, and,
//! for each entry, the position of the source it came from.

use vstd::prelude::*;

use crate::decimal::{
    dec_digits_of, dec_value, is_dec_digit, is_dec_digits, lemma_dec_digits_of_is_digits,
    lemma_dec_digits_of_value, parse_dec, u64_to_dec,
};
use crate::errors::TransferError;
use crate::util::{hash_bytes_wf, is_hex_byte, wf_file_info, FileInfo};
use vstd::string::StrSliceExecFns;
use vstd::utf8::{decode_utf8, encode_utf8, valid_utf8};

verus! {

/// The byte separating the fields of a catalog entry: ASCII `':'`.
pub const FIELD_SEP: u8 = 58;

/// No byte of `s` is the field separator.
pub open spec fn sep_free(s: Seq<u8>) -> bool {
    forall|i: int| 0 <= i < s.len() ==> s[i] != FIELD_SEP
}

/// The wire payload advertising one file.
pub open spec fn entry_bytes(name: Seq<u8>, size: nat, hash: Seq<u8>) -> Seq<u8> {
    name + seq![FIELD_SEP] + dec_digits_of(size) + seq![FIELD_SEP] + hash
}

/// A well-formed digest is separator-free.
pub proof fn lemma_hash_bytes_sep_free(h: Seq<u8>)
    requires
        hash_bytes_wf(h),
    ensures
        sep_free(h),
{
    assert forall|i: int| 0 <= i < h.len() implies h[i] != FIELD_SEP by {
        assert(is_hex_byte(h[i]));
    }
}

/// Relies on String::from_utf8: succeeds exactly on valid UTF-8, and the
/// returned string's characters are the decoding of, and re-encode to,
/// exactly the input bytes.
#[verifier::external_body]
fn bytes_to_string(bytes: Vec<u8>) -> (r: Option<String>)
    ensures
        r is Some <==> valid_utf8(bytes@),
        r matches Some(s) ==> s@ == decode_utf8(bytes@) && encode_utf8(s@) == bytes@,
{
    String::from_utf8(bytes).ok()
}

/// Renders the advertised line for one file.
pub fn encode_entry(info: &FileInfo) -> (r: Vec<u8>)
    ensures
        r@ == entry_bytes(encode_utf8(info.name@), info.size as nat, encode_utf8(info.hash@)),
{
    let mut out = info.name.as_str().as_bytes_vec();
    out.push(FIELD_SEP);
    let mut digits = u64_to_dec(info.size);
    out.append(&mut digits);
    out.push(FIELD_SEP);
    let mut hash = info.hash.as_str().as_bytes_vec();
    out.append(&mut hash);
    proof {
        assert(out@ =~= entry_bytes(
            encode_utf8(info.name@),
            info.size as nat,
            encode_utf8(info.hash@),
        ));
    }
    out
}

/// The index of the last field separator in `s`, if any.
fn rfind_sep(s: &[u8]) -> (r: Option<usize>)
    ensures
        r matches Some(i) ==> i < s@.len() && s@[i as int] == FIELD_SEP && forall|j: int|
            i < j < s@.len() ==> s@[j] != FIELD_SEP,
        r is None ==> sep_free(s@),
{
    let mut i: usize = s.len();
    while i > 0
        invariant
            i <= s@.len(),
            forall|j: int| i <= j < s@.len() ==> s@[j] != FIELD_SEP,
        decreases i,
    {
        i = i - 1;
        if s[i] == FIELD_SEP {
            return Some(i);
        }
    }
    None
}

/// Where the two separators of an entry sit and what lies between them.
proof fn lemma_entry_layout(bytes: Seq<u8>, nm: Seq<u8>, sz: u64, h: Seq<u8>)
    requires
        bytes == entry_bytes(nm, sz as nat, h),
        sep_free(h),
    ensures
        bytes.len() == nm.len() + 2 + dec_digits_of(sz as nat).len() + h.len(),
        bytes[nm.len() as int] == FIELD_SEP,
        bytes[nm.len() as int + 1 + dec_digits_of(sz as nat).len() as int] == FIELD_SEP,
        forall|i: int|
            nm.len() < i < nm.len() + 1 + dec_digits_of(sz as nat).len() ==> bytes[i] != FIELD_SEP,
        forall|i: int|
            nm.len() + 1 + dec_digits_of(sz as nat).len() < i < bytes.len() ==> bytes[i]
                != FIELD_SEP,
        bytes.take(nm.len() as int) == nm,
        bytes.subrange(
            nm.len() as int + 1,
            nm.len() as int + 1 + dec_digits_of(sz as nat).len() as int,
        ) == dec_digits_of(sz as nat),
        bytes.skip(nm.len() as int + 2 + dec_digits_of(sz as nat).len() as int) == h,
{
    lemma_dec_digits_of_is_digits(sz as nat);
    let d = dec_digits_of(sz as nat);
    assert forall|i: int| nm.len() < i < nm.len() + 1 + d.len() implies bytes[i] != FIELD_SEP by {
        assert(bytes[i] == d[i - nm.len() - 1]);
        assert(is_dec_digit(d[i - nm.len() - 1]));
    }
    assert forall|i: int| nm.len() + 1 + d.len() < i < bytes.len() implies bytes[i]
        != FIELD_SEP by {
        assert(bytes[i] == h[i - nm.len() - 2 - d.len()]);
    }
    assert(bytes.take(nm.len() as int) =~= nm);
    assert(bytes.subrange(nm.len() as int + 1, nm.len() as int + 1 + d.len() as int) =~= d);
    assert(bytes.skip(nm.len() as int + 2 + d.len() as int) =~= h);
}

/// The separator positions a right-to-left scan finds are exactly the
/// entry's two separators, so the decomposition of an entry is unique.
proof fn lemma_entry_positions(bytes: Seq<u8>, nm: Seq<u8>, sz: u64, h: Seq<u8>, p1: int, p2: int)
    requires
        bytes == entry_bytes(nm, sz as nat, h),
        sep_free(h),
        0 <= p2 < bytes.len(),
        bytes[p2] == FIELD_SEP,
        forall|j: int| p2 < j < bytes.len() ==> bytes[j] != FIELD_SEP,
        0 <= p1 < p2,
        bytes[p1] == FIELD_SEP,
        forall|j: int| p1 < j < p2 ==> bytes[j] != FIELD_SEP,
    ensures
        p1 == nm.len(),
        p2 == nm.len() + 1 + dec_digits_of(sz as nat).len(),
        bytes.take(p1) == nm,
        bytes.subrange(p1 + 1, p2) == dec_digits_of(sz as nat),
        bytes.skip(p2 + 1) == h,
{
    lemma_entry_layout(bytes, nm, sz, h);
    let q = nm.len() + 1 + dec_digits_of(sz as nat).len() as int;
    assert(p2 == q);
    assert(p1 == nm.len());
    assert(bytes.skip(p2 + 1) =~= bytes.skip(
        nm.len() as int + 2 + dec_digits_of(sz as nat).len() as int,
    ));
}

/// Parses one advertised line back into a descriptor.  Succeeds on every
/// line rendered from a descriptor whose digest is separator-free and whose
/// size digits are canonical, and recovers its fields exactly.
pub fn parse_entry(bytes: &Vec<u8>) -> (r: Result<FileInfo, TransferError>)
    ensures
        r matches Ok(info) ==> {
            &&& bytes@ == entry_bytes(
                encode_utf8(info.name@),
                info.size as nat,
                encode_utf8(info.hash@),
            )
            &&& sep_free(encode_utf8(info.hash@))
        },
        forall|nm: Seq<u8>, sz: u64, h: Seq<u8>|
            bytes@ == entry_bytes(nm, sz as nat, h) && sep_free(h) && valid_utf8(nm)
                && valid_utf8(h) ==> (r matches Ok(info) && info.name@ == decode_utf8(nm)
                && info.size == sz && info.hash@ == decode_utf8(h)),
        r matches Err(e) ==> e == TransferError::MalformedEntry,
{
    let total = bytes.len();
    let p2 = match rfind_sep(bytes.as_slice()) {
        Some(i) => i,
        None => {
            proof {
                assert forall|nm: Seq<u8>, sz: u64, h: Seq<u8>|
                    bytes@ == entry_bytes(nm, sz as nat, h) && sep_free(h) && valid_utf8(nm)
                        && valid_utf8(h) implies false by {
                    lemma_entry_layout(bytes@, nm, sz, h);
                }
            }
            return Err(TransferError::MalformedEntry);
        },
    };
    proof {
        assert(p2 < total);
    }
    let hash_part = vstd::slice::slice_to_vec(vstd::slice::slice_subrange(
        bytes.as_slice(),
        p2 + 1,
        total,
    ));
    let prefix = vstd::slice::slice_subrange(bytes.as_slice(), 0, p2);
    let p1 = match rfind_sep(prefix) {
        Some(i) => i,
        None => {
            proof {
                assert forall|nm: Seq<u8>, sz: u64, h: Seq<u8>|
                    bytes@ == entry_bytes(nm, sz as nat, h) && sep_free(h) && valid_utf8(nm)
                        && valid_utf8(h) implies false by {
                    lemma_entry_layout(bytes@, nm, sz, h);
                    let q = nm.len() + 1 + dec_digits_of(sz as nat).len() as int;
                    assert(p2 == q);
                    assert(prefix@[nm.len() as int] == FIELD_SEP);
                }
            }
            return Err(TransferError::MalformedEntry);
        },
    };
    let digits = vstd::slice::slice_to_vec(vstd::slice::slice_subrange(
        bytes.as_slice(),
        p1 + 1,
        p2,
    ));
    let name_part = vstd::slice::slice_to_vec(vstd::slice::slice_subrange(bytes.as_slice(), 0, p1));
    proof {
        assert(prefix@[p1 as int] == bytes@[p1 as int]);
        assert forall|j: int| p1 < j < p2 implies bytes@[j] != FIELD_SEP by {
            assert(bytes@[j] == prefix@[j]);
        }
    }
    let size = match parse_dec(digits.as_slice()) {
        Some(v) => v,
        None => {
            proof {
                assert forall|nm: Seq<u8>, sz: u64, h: Seq<u8>|
                    bytes@ == entry_bytes(nm, sz as nat, h) && sep_free(h) && valid_utf8(nm)
                        && valid_utf8(h) implies false by {
                    lemma_entry_positions(bytes@, nm, sz, h, p1 as int, p2 as int);
                    lemma_dec_digits_of_is_digits(sz as nat);
                    lemma_dec_digits_of_value(sz as nat);
                    assert(digits@ == dec_digits_of(sz as nat));
                }
            }
            return Err(TransferError::MalformedEntry);
        },
    };
    let recoded = u64_to_dec(size);
    if !(recoded == digits) {
        proof {
            assert forall|nm: Seq<u8>, sz: u64, h: Seq<u8>|
                bytes@ == entry_bytes(nm, sz as nat, h) && sep_free(h) && valid_utf8(nm)
                    && valid_utf8(h) implies false by {
                lemma_entry_positions(bytes@, nm, sz, h, p1 as int, p2 as int);
                lemma_dec_digits_of_is_digits(sz as nat);
                lemma_dec_digits_of_value(sz as nat);
                assert(digits@ == dec_digits_of(sz as nat));
                assert(size == sz);
                assert(recoded@ =~= digits@);
            }
        }
        return Err(TransferError::MalformedEntry);
    }
    let name = match bytes_to_string(name_part) {
        Some(s) => s,
        None => {
            proof {
                assert forall|nm: Seq<u8>, sz: u64, h: Seq<u8>|
                    bytes@ == entry_bytes(nm, sz as nat, h) && sep_free(h) && valid_utf8(nm)
                        && valid_utf8(h) implies false by {
                    lemma_entry_positions(bytes@, nm, sz, h, p1 as int, p2 as int);
                }
            }
            return Err(TransferError::MalformedEntry);
        },
    };
    let hash = match bytes_to_string(hash_part) {
        Some(s) => s,
        None => {
            proof {
                assert forall|nm: Seq<u8>, sz: u64, h: Seq<u8>|
                    bytes@ == entry_bytes(nm, sz as nat, h) && sep_free(h) && valid_utf8(nm)
                        && valid_utf8(h) implies false by {
                    lemma_entry_positions(bytes@, nm, sz, h, p1 as int, p2 as int);
                }
            }
            return Err(TransferError::MalformedEntry);
        },
    };
    let info = FileInfo::new(name, size, hash);
    proof {
        assert(bytes@ =~= entry_bytes(
            encode_utf8(info.name@),
            info.size as nat,
            encode_utf8(info.hash@),
        ));
        assert forall|nm: Seq<u8>, sz: u64, h: Seq<u8>|
            bytes@ == entry_bytes(nm, sz as nat, h) && sep_free(h) && valid_utf8(nm)
                && valid_utf8(h) implies info.name@ == decode_utf8(nm) && info.size == sz
            && info.hash@ == decode_utf8(h) by {
            lemma_entry_positions(bytes@, nm, sz, h, p1 as int, p2 as int);
            lemma_dec_digits_of_is_digits(sz as nat);
            lemma_dec_digits_of_value(sz as nat);
            assert(digits@ == dec_digits_of(sz as nat));
        }
    }
    Ok(info)
}

/// Catalog-line round trip: the advertised line of any catalog-worthy
/// descriptor parses back to a descriptor with the very same fields.
pub fn entry_round_trip(info: &FileInfo) -> (r: FileInfo)
    requires
        wf_file_info(*info),
    ensures
        r.name@ == info.name@,
        r.size == info.size,
        r.hash@ == info.hash@,
{
    let line = encode_entry(info);
    proof {
        lemma_hash_bytes_sep_free(encode_utf8(info.hash@));
        vstd::utf8::encode_utf8_valid_utf8(info.name@);
        vstd::utf8::encode_utf8_valid_utf8(info.hash@);
        vstd::utf8::encode_utf8_decode_utf8(info.name@);
        vstd::utf8::encode_utf8_decode_utf8(info.hash@);
    }
    parse_entry(&line).unwrap()
}

/// The first slot whose digest's UTF-8 bytes equal `needle`, if any.
pub fn find_hash_bytes(files: &Vec<FileInfo>, needle: &Vec<u8>) -> (r: Option<usize>)
    ensures
        r matches Some(j) ==> j < files@.len() && encode_utf8(files@[j as int].hash@) == needle@
            && forall|k: int| 0 <= k < j ==> encode_utf8(files@[k].hash@) != needle@,
        r is None ==> forall|k: int|
            0 <= k < files@.len() ==> encode_utf8(#[trigger] files@[k].hash@) != needle@,
{
    let mut j: usize = 0;
    while j < files.len()
        invariant
            j <= files@.len(),
            forall|k: int| 0 <= k < j ==> encode_utf8(#[trigger] files@[k].hash@) != needle@,
        decreases files@.len() - j,
    {
        let hb = files[j].hash.as_str().as_bytes_vec();
        if hb == *needle {
            return Some(j);
        }
        j = j + 1;
    }
    None
}

/// Checks that a rendered digest has the well-formed shape: 64 bytes, each
/// a lowercase hex digit's code.
fn check_hash(hash: &String) -> (r: bool)
    ensures
        r <==> hash_bytes_wf(encode_utf8(hash@)),
{
    let bytes = hash.as_str().as_bytes();
    if bytes.len() != 64 {
        return false;
    }
    let mut i: usize = 0;
    while i < 64
        invariant
            i <= 64,
            bytes@.len() == 64,
            bytes@ == encode_utf8(hash@),
            forall|k: int| 0 <= k < i ==> is_hex_byte(#[trigger] bytes@[k]),
        decreases 64 - i,
    {
        let b = bytes[i];
        if !((48 <= b && b <= 57) || (97 <= b && b <= 102)) {
            return false;
        }
        i = i + 1;
    }
    true
}

/// The host's advertised catalog: descriptors with positive sizes and
/// pairwise distinct digests, each remembering which source slot it came
/// from.
pub struct Catalog {
    files: Vec<FileInfo>,
    origin: Vec<usize>,
}

impl Clone for Catalog {
    /// A clone advertises the same descriptors from the same sources, so
    /// every connection can hold its own copy of the one catalog built at
    /// startup.
    fn clone(&self) -> (r: Self)
        ensures
            r.files_view() == self.files_view(),
            r.origin_view() == self.origin_view(),
    {
        let mut files: Vec<FileInfo> = Vec::new();
        let mut j: usize = 0;
        while j < self.files.len()
            invariant
                j <= self.files@.len(),
                files@ =~= self.files@.take(j as int),
            decreases self.files@.len() - j,
        {
            let info = self.files[j].clone();
            proof {
                assert(info == self.files@[j as int]);
            }
            files.push(info);
            proof {
                assert(files@ =~= self.files@.take(j + 1));
            }
            j = j + 1;
        }
        proof {
            assert(files@ =~= self.files@);
        }
        let origin = vstd::slice::slice_to_vec(self.origin.as_slice());
        Catalog { files, origin }
    }
}

impl Catalog {
    /// The advertised descriptors, in advertisement order.
    pub closed spec fn files_view(&self) -> Seq<FileInfo> {
        self.files@
    }

    /// For each advertised descriptor, the source slot it came from.
    pub closed spec fn origin_view(&self) -> Seq<usize> {
        self.origin@
    }

    /// Catalog invariant: one origin per file, every file fit for a
    /// catalog, digests pairwise distinct.
    pub open spec fn wf(&self) -> bool {
        &&& self.files_view().len() == self.origin_view().len()
        &&& forall|j: int|
            0 <= j < self.files_view().len() ==> wf_file_info(#[trigger] self.files_view()[j])
        &&& forall|j: int, k: int|
            0 <= j < k < self.files_view().len() ==> encode_utf8(self.files_view()[j].hash@)
                != encode_utf8(self.files_view()[k].hash@)
    }

    /// How many files are advertised.
    pub fn len(&self) -> (r: usize)
        ensures
            r == self.files_view().len(),
    {
        self.files.len()
    }

    /// The descriptor in slot `j`.
    pub fn get(&self, j: usize) -> (r: &FileInfo)
        requires
            j < self.files_view().len(),
        ensures
            *r == self.files_view()[j as int],
    {
        &self.files[j]
    }

    /// The source slot the file in slot `j` came from.
    pub fn origin_of(&self, j: usize) -> (r: usize)
        requires
            j < self.origin_view().len(),
        ensures
            r == self.origin_view()[j as int],
    {
        self.origin[j]
    }

    /// The slot advertising the digest whose UTF-8 bytes are `needle`.
    pub fn lookup_bytes(&self, needle: &Vec<u8>) -> (r: Option<usize>)
        ensures
            r matches Some(j) ==> j < self.files_view().len() && encode_utf8(
                self.files_view()[j as int].hash@,
            ) == needle@,
            r is None ==> forall|k: int|
                0 <= k < self.files_view().len() ==> encode_utf8(
                    #[trigger] self.files_view()[k].hash@,
                ) != needle@,
    {
        find_hash_bytes(&self.files, needle)
    }

    /// Builds the catalog from the descriptors of the host's source files,
    /// one slot per source, `None` where the source yielded no descriptor.
    /// Zero-size and malformed descriptors are excluded; of several sources
    /// with one digest, the first is kept.  Every retained descriptor is a
    /// source's descriptor, and every well-formed source is represented.
    pub fn build(sources: &Vec<Option<FileInfo>>) -> (c: Catalog)
        ensures
            c.wf(),
            forall|j: int|
                0 <= j < c.files_view().len() ==> {
                    &&& (#[trigger] c.origin_view()[j]) < sources@.len()
                    &&& sources@[c.origin_view()[j] as int] matches Some(f) && c.files_view()[j]
                        == f
                },
            forall|i: int|
                0 <= i < sources@.len() ==> (#[trigger] sources@[i] matches Some(f) ==> (
                wf_file_info(f) ==> exists|j: int|
                    0 <= j < c.files_view().len() && encode_utf8(
                        (#[trigger] c.files_view()[j]).hash@,
                    ) == encode_utf8(f.hash@))),
    {
        let mut files: Vec<FileInfo> = Vec::new();
        let mut origin: Vec<usize> = Vec::new();
        let mut i: usize = 0;
        while i < sources.len()
            invariant
                i <= sources@.len(),
                files@.len() == origin@.len(),
                forall|j: int| 0 <= j < files@.len() ==> wf_file_info(#[trigger] files@[j]),
                forall|j: int, k: int|
                    0 <= j < k < files@.len() ==> encode_utf8(files@[j].hash@) != encode_utf8(
                        files@[k].hash@,
                    ),
                forall|j: int|
                    0 <= j < files@.len() ==> {
                        &&& (#[trigger] origin@[j]) < sources@.len()
                        &&& sources@[origin@[j] as int] matches Some(f) && files@[j] == f
                    },
                forall|ii: int|
                    0 <= ii < i ==> (#[trigger] sources@[ii] matches Some(f) ==> (wf_file_info(f)
                        ==> exists|j: int|
                        0 <= j < files@.len() && encode_utf8((#[trigger] files@[j]).hash@)
                            == encode_utf8(f.hash@))),
            decreases sources@.len() - i,
        {
            let ghost files0 = files@;
            match &sources[i] {
                Some(info) => {
                    if info.size > 0 && check_hash(&info.hash) {
                        let needle = info.hash.as_str().as_bytes_vec();
                        match find_hash_bytes(&files, &needle) {
                            Some(j) => {
                                proof {
                                    assert(encode_utf8(files@[j as int].hash@) == encode_utf8(
                                        info.hash@,
                                    ));
                                }
                            },
                            None => {
                                files.push(info.clone());
                                origin.push(i);
                                proof {
                                    assert(encode_utf8(files@[files0.len() as int].hash@)
                                        == encode_utf8(info.hash@));
                                    assert(forall|j: int|
                                        0 <= j < files0.len() ==> files@[j] == files0[j]);
                                }
                            },
                        }
                    }
                },
                None => {},
            }
            proof {
                assert forall|ii: int|
                    0 <= ii <= i implies (#[trigger] sources@[ii] matches Some(f) ==> (
                    wf_file_info(f) ==> exists|j: int|
                        0 <= j < files@.len() && encode_utf8((#[trigger] files@[j]).hash@)
                            == encode_utf8(f.hash@))) by {
                    if ii < i {
                        assert(files0.len() <= files@.len());
                        assert(forall|j: int| 0 <= j < files0.len() ==> files@[j] == files0[j]);
                        if sources@[ii] is Some && wf_file_info(sources@[ii]->Some_0) {
                            let f = sources@[ii]->Some_0;
                            let j = choose|j: int|
                                0 <= j < files0.len() && encode_utf8(
                                    (#[trigger] files0[j]).hash@,
                                ) == encode_utf8(f.hash@);
                            assert(encode_utf8(files@[j].hash@) == encode_utf8(f.hash@));
                        }
                    }
                }
            }
            i = i + 1;
        }
        Catalog { files, origin }
    }
}

} // verus!
