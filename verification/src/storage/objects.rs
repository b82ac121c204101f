//! The object store: blobs named by the SHA-256 of their content and kept
//! as zstd frames under a two-character fan-out directory.

use vstd::prelude::*;
use sha2::Digest;
use crate::error::MoteError;
use crate::path_resolver::{join, join_spec};

verus! {

/// The SHA-256 digest of a byte sequence.
pub uninterp spec fn sha256(data: Seq<u8>) -> Seq<u8>;

/// What `zstd::decode_all` gives for a byte sequence: the content of the
/// frames, or nothing where they cannot be decoded.
pub uninterp spec fn zstd_decoded(frame: Seq<u8>) -> Option<Seq<u8>>;

/// What `zstd::encode_all` gives for a content at a level: the frame, or
/// nothing where it fails.
pub uninterp spec fn zstd_frame(content: Seq<u8>, level: int) -> Option<Seq<u8>>;

/// The error type of std's input and output, carried through as it is.
#[verifier::external_type_specification]
#[verifier::external_body]
pub struct ExIoError(std::io::Error);

/// `sha2::Sha256::digest`: the SHA-256 digest of `data`, which has 32 bytes.
#[verifier::external_body]
fn sha256_digest(data: &[u8]) -> (digest: Vec<u8>)
    ensures
        digest@ == sha256(data@),
        digest@.len() == 32,
{
    sha2::Sha256::digest(data).to_vec()
}

/// `hex::encode`: two lowercase hexadecimal digits for each byte, the high
/// half first.
#[verifier::external_body]
fn hex_encode(bytes: &[u8]) -> (text: String)
    ensures
        text@ == hex_text(bytes@),
{
    hex::encode(bytes)
}

/// `zstd::encode_all`: the frame of `content` at `level`, or an error
/// where it fails. The frame decodes to `content` again.
#[verifier::external_body]
fn zstd_encode(content: &[u8], level: i32) -> (r: Result<Vec<u8>, std::io::Error>)
    ensures
        match r {
            Ok(frame) => zstd_frame(content@, level as int) == Some(frame@) && zstd_decoded(
                frame@,
            ) == Some(content@),
            Err(_) => zstd_frame(content@, level as int) is None,
        },
{
    zstd::encode_all(content, level)
}

/// `zstd::decode_all`: the content of the frames in `frame`, or an error
/// where they cannot be decoded.
#[verifier::external_body]
fn zstd_decode(frame: &[u8]) -> (r: Result<Vec<u8>, std::io::Error>)
    ensures
        match r {
            Ok(content) => zstd_decoded(frame@) == Some(content@),
            Err(_) => zstd_decoded(frame@) is None,
        },
{
    zstd::decode_all(frame)
}

/// The text of an I/O error, as its `Display` gives it.
#[verifier::external_body]
fn io_error_text(error: &std::io::Error) -> (text: String) {
    error.to_string()
}

/// The sixteen hexadecimal digits, in lower case.
pub open spec fn hex_digits() -> Seq<char> {
    seq!['0', '1', '2', '3', '4', '5', '6', '7', '8', '9', 'a', 'b', 'c', 'd', 'e', 'f']
}

/// Lowercase hexadecimal text: two digits per byte, the high half first.
pub open spec fn hex_text(bytes: Seq<u8>) -> Seq<char> {
    Seq::new(
        2 * bytes.len(),
        |i: int|
            if i % 2 == 0 {
                hex_digits()[bytes[i / 2] as int / 16]
            } else {
                hex_digits()[bytes[i / 2] as int % 16]
            },
    )
}

/// One of `0`..`9`, `a`..`f`.
pub open spec fn is_lower_hex_char(c: char) -> bool {
    ('0' <= c && c <= '9') || ('a' <= c && c <= 'f')
}

/// The shape of a content hash: 64 lowercase hexadecimal digits.
pub open spec fn is_content_hash(hash: Seq<char>) -> bool {
    hash.len() == 64 && forall|i: int| 0 <= i < hash.len() ==> is_lower_hex_char(#[trigger] hash[i])
}

/// The identity of a blob: the lowercase hexadecimal text of the SHA-256
/// digest of its bytes.
pub open spec fn content_hash(content: Seq<u8>) -> Seq<char> {
    hex_text(sha256(content))
}

/// Hexadecimal text holds hexadecimal digits only, two for each byte.
pub proof fn lemma_hex_text_shape(bytes: Seq<u8>)
    ensures
        hex_text(bytes).len() == 2 * bytes.len(),
        forall|i: int|
            0 <= i < hex_text(bytes).len() ==> is_lower_hex_char(#[trigger] hex_text(bytes)[i]),
{
    assert forall|i: int| 0 <= i < hex_text(bytes).len() implies is_lower_hex_char(
        #[trigger] hex_text(bytes)[i],
    ) by {
        let b = bytes[i / 2] as int;
        assert(0 <= b / 16 < 16 && 0 <= b % 16 < 16);
        assert forall|d: int| 0 <= d < 16 implies is_lower_hex_char(#[trigger] hex_digits()[d]) by {
            if d == 0 {
            } else if d == 1 {
            } else if d == 2 {
            } else if d == 3 {
            } else if d == 4 {
            } else if d == 5 {
            } else if d == 6 {
            } else if d == 7 {
            } else if d == 8 {
            } else if d == 9 {
            } else if d == 10 {
            } else if d == 11 {
            } else if d == 12 {
            } else if d == 13 {
            } else if d == 14 {
            } else {
            }
        }
    }
}

/// The fan-out directory of `hash` under `objects_dir`: named by the first
/// two characters of the hash.
pub open spec fn fanout_dir_of(objects_dir: Seq<char>, hash: Seq<char>) -> Seq<char> {
    join_spec(objects_dir, hash.subrange(0, 2))
}

/// The file of `hash` under `objects_dir`: in its fan-out directory, named
/// by the rest of the hash.
pub open spec fn object_path_of(objects_dir: Seq<char>, hash: Seq<char>) -> Seq<char> {
    join_spec(fanout_dir_of(objects_dir, hash), hash.subrange(2, hash.len() as int))
}

/// What `retrieve` gives for `hash` when `stored` is what lies at the
/// object's path: the content, when it hashes to `hash`.
pub open spec fn retrieved(hash: Seq<char>, stored: Option<Seq<u8>>) -> Option<Seq<u8>> {
    match stored {
        None => None,
        Some(frame) => match zstd_decoded(frame) {
            None => None,
            Some(content) => if content_hash(content) == hash {
                Some(content)
            } else {
                None
            },
        },
    }
}

/// A file to write for a new object.
#[derive(Debug, Clone, PartialEq, Eq)]
pub struct ObjectWrite {
    /// The fan-out directory, to be created if it is missing.
    pub dir: String,
    /// The file to write.
    pub path: String,
    /// The zstd frame to write into it.
    pub data: Vec<u8>,
}

/// The outcome of storing a blob.
#[derive(Debug, Clone, PartialEq, Eq)]
pub struct Stored {
    /// The content hash of the blob.
    pub hash: String,
    /// The file to write, or nothing where the object is there already.
    pub write: Option<ObjectWrite>,
}

/// Where the objects lie and how hard they are compressed.
#[derive(Debug, Clone, PartialEq, Eq)]
pub struct ObjectStore {
    objects_dir: String,
    compression_level: i32,
}

impl ObjectStore {
    /// The directory that holds the objects.
    pub closed spec fn dir(self) -> Seq<char> {
        self.objects_dir@
    }

    /// The level handed to zstd.
    pub closed spec fn level(self) -> int {
        self.compression_level as int
    }

    /// Whether `stored` is what storing `content` into this store must give,
    /// `present` saying whether the object is there already.
    pub open spec fn store_meets(self, content: Seq<u8>, present: bool, stored: Stored) -> bool {
        &&& stored.hash@ == content_hash(content)
        &&& present ==> stored.write is None
        &&& !present ==> {
            &&& stored.write matches Some(w)
            &&& w.dir@ == fanout_dir_of(self.dir(), content_hash(content))
            &&& w.path@ == object_path_of(self.dir(), content_hash(content))
            &&& zstd_frame(content, self.level()) == Some(w.data@)
            &&& zstd_decoded(w.data@) == Some(content)
        }
    }

    /// The store of the objects in `objects_dir`.
    pub fn new(objects_dir: String, compression_level: i32) -> (store: Self)
        ensures
            store.dir() == objects_dir@,
            store.level() == compression_level,
    {
        ObjectStore { objects_dir, compression_level }
    }

    /// The directory that holds the objects.
    pub fn objects_dir(&self) -> (dir: &str)
        ensures
            dir@ == self.dir(),
    {
        self.objects_dir.as_str()
    }

    /// The level handed to zstd.
    pub fn compression_level(&self) -> (level: i32)
        ensures
            level == self.level(),
    {
        self.compression_level
    }

    /// The content hash of `content`: 64 lowercase hexadecimal digits. It
    /// depends on the bytes alone.
    pub fn compute_hash(content: &[u8]) -> (hash: String)
        ensures
            hash@ == content_hash(content@),
            is_content_hash(hash@),
    {
        let digest = sha256_digest(content);
        let hash = hex_encode(digest.as_slice());
        proof {
            lemma_hex_text_shape(digest@);
        }
        hash
    }

    /// Whether `hash` has the shape of a content hash.
    pub fn is_valid_hash(hash: &str) -> (r: bool)
        ensures
            r == is_content_hash(hash@),
    {
        let chars = crate::text::chars_of(hash);
        if chars.len() != 64 {
            return false;
        }
        let mut i: usize = 0;
        while i < chars.len()
            invariant
                i <= chars.len(),
                chars@ == hash@,
                forall|j: int| 0 <= j < i ==> is_lower_hex_char(#[trigger] hash@[j]),
            decreases chars.len() - i,
        {
            let c = chars[i];
            if !(('0' <= c && c <= '9') || ('a' <= c && c <= 'f')) {
                return false;
            }
            i += 1;
        }
        true
    }

    /// The fan-out directory of `hash`.
    pub fn fanout_dir(&self, hash: &str) -> (dir: String)
        requires
            hash@.len() >= 2,
        ensures
            dir@ == fanout_dir_of(self.dir(), hash@),
    {
        join(self.objects_dir.as_str(), hash.substring_char(0, 2))
    }

    /// The file that holds the object of `hash`.
    pub fn object_path(&self, hash: &str) -> (path: String)
        requires
            hash@.len() >= 2,
        ensures
            path@ == object_path_of(self.dir(), hash@),
    {
        let dir = self.fanout_dir(hash);
        let len = hash.unicode_len();
        join(dir.as_str(), hash.substring_char(2, len))
    }

    /// Stores `content`. `present` says whether a file stands at the
    /// object's path already: then nothing is written. Otherwise the
    /// content is compressed and the result names the file to write; it
    /// fails where, and only where, the compression fails.
    pub fn store(&self, content: &[u8], present: bool) -> (r: Result<Stored, MoteError>)
        ensures
            present ==> r is Ok,
            !present ==> (r is Ok <==> zstd_frame(content@, self.level()) is Some),
            r matches Ok(stored) ==> self.store_meets(content@, present, stored),
            r matches Err(e) ==> e is Io,
    {
        let hash = Self::compute_hash(content);
        if present {
            return Ok(Stored { hash, write: None });
        }
        let encoded = zstd_encode(content, self.compression_level);
        self.store_encoded(hash, encoded)
    }

    /// The second half of `store`, for an object that is not there yet:
    /// `encoded` is what compressing the content gave.
    pub fn store_encoded(&self, hash: String, encoded: Result<Vec<u8>, std::io::Error>) -> (r:
        Result<Stored, MoteError>)
        requires
            hash@.len() >= 2,
        ensures
            match encoded {
                Ok(frame) => {
                    &&& r matches Ok(stored)
                    &&& stored.hash@ == hash@
                    &&& stored.write matches Some(w)
                    &&& w.dir@ == fanout_dir_of(self.dir(), hash@)
                    &&& w.path@ == object_path_of(self.dir(), hash@)
                    &&& w.data@ == frame@
                },
                Err(_) => r matches Err(e) && e is Io,
            },
    {
        match encoded {
            Ok(data) => {
                let dir = self.fanout_dir(hash.as_str());
                let path = self.object_path(hash.as_str());
                Ok(Stored { hash, write: Some(ObjectWrite { dir, path, data }) })
            },
            Err(e) => Err(MoteError::Io(io_error_text(&e))),
        }
    }

    /// Stores the content of a file: as `store`, and the number of bytes.
    pub fn store_file(&self, content: &[u8], present: bool) -> (r: Result<(Stored, u64), MoteError>)
        ensures
            present ==> r is Ok,
            !present ==> (r is Ok <==> zstd_frame(content@, self.level()) is Some),
            r matches Ok(pair) ==> self.store_meets(content@, present, pair.0) && pair.1
                == content@.len(),
            r matches Err(e) ==> e is Io,
    {
        let size = content.len() as u64;
        match self.store(content, present) {
            Ok(stored) => Ok((stored, size)),
            Err(e) => Err(e),
        }
    }

    /// Gives back the content of the object `hash`, where `stored` is what
    /// lies at its path (nothing, where no file is there). The content is
    /// checked against the hash.
    pub fn retrieve(hash: &str, stored: Option<&[u8]>) -> (r: Result<Vec<u8>, MoteError>)
        ensures
            match r {
                Ok(content) => retrieved(hash@, option_bytes(stored)) == Some(content@),
                Err(e) => retrieved(hash@, option_bytes(stored)) is None && retrieve_failure(
                    hash@,
                    option_bytes(stored),
                    e,
                ),
            },
    {
        match stored {
            None => Err(MoteError::ObjectNotFound(String::from_str(hash))),
            Some(frame) => Self::check_decoded(hash, zstd_decode(frame)),
        }
    }

    /// The second half of `retrieve`: `decoded` is what decoding the stored
    /// frame gave. The content is returned when it hashes to `hash`.
    pub fn check_decoded(hash: &str, decoded: Result<Vec<u8>, std::io::Error>) -> (r: Result<
        Vec<u8>,
        MoteError,
    >)
        ensures
            match decoded {
                Err(_) => r matches Err(e) && e is Io,
                Ok(content) => if content_hash(content@) == hash@ {
                    r matches Ok(c) && c@ == content@
                } else {
                    r matches Err(MoteError::HashMismatch { expected, actual }) && expected@
                        == hash@ && actual@ == content_hash(content@)
                },
            },
    {
        match decoded {
            Err(e) => Err(MoteError::Io(io_error_text(&e))),
            Ok(content) => {
                let actual = Self::compute_hash(content.as_slice());
                if !crate::text::str_eq(actual.as_str(), hash) {
                    Err(MoteError::HashMismatch { expected: String::from_str(hash), actual })
                } else {
                    Ok(content)
                }
            },
        }
    }

    /// The content to write to `dest` to restore the object `hash`.
    pub fn restore_file(hash: &str, stored: Option<&[u8]>, dest: &str) -> (r: Result<
        FileWrite,
        MoteError,
    >)
        ensures
            match r {
                Ok(w) => retrieved(hash@, option_bytes(stored)) == Some(w.data@) && w.path@
                    == dest@,
                Err(e) => retrieved(hash@, option_bytes(stored)) is None && retrieve_failure(
                    hash@,
                    option_bytes(stored),
                    e,
                ),
            },
    {
        match Self::retrieve(hash, stored) {
            Ok(data) => Ok(FileWrite { path: String::from_str(dest), data }),
            Err(e) => Err(e),
        }
    }
}

/// A file of the working tree to write, parents created as needed, any
/// file that is there replaced.
#[derive(Debug, Clone, PartialEq, Eq)]
pub struct FileWrite {
    pub path: String,
    pub data: Vec<u8>,
}

/// The bytes behind an optional slice.
pub open spec fn option_bytes(stored: Option<&[u8]>) -> Option<Seq<u8>> {
    match stored {
        Some(bytes) => Some(bytes@),
        None => None,
    }
}

/// Which failure `retrieve` reports: no file, a frame that does not decode,
/// or content that does not hash to the name.
pub open spec fn retrieve_failure(hash: Seq<char>, stored: Option<Seq<u8>>, e: MoteError) -> bool {
    match stored {
        None => e matches MoteError::ObjectNotFound(h) && h@ == hash,
        Some(frame) => match zstd_decoded(frame) {
            None => e is Io,
            Some(content) => e matches MoteError::HashMismatch { expected, actual } && expected@
                == hash && actual@ == content_hash(content),
        },
    }
}

/// The objects on disk, each hash with the frame that lies at its path,
/// once what `stored` asks for has been written.
pub open spec fn after_store(objects: Map<Seq<char>, Seq<u8>>, stored: Stored) -> Map<
    Seq<char>,
    Seq<u8>,
> {
    match stored.write {
        Some(w) => objects.insert(stored.hash@, w.data@),
        None => objects,
    }
}

/// What lies at the path of `hash`.
pub open spec fn stored_at(objects: Map<Seq<char>, Seq<u8>>, hash: Seq<char>) -> Option<Seq<u8>> {
    if objects.contains_key(hash) {
        Some(objects[hash])
    } else {
        None
    }
}

/// The objects on disk after a row of `store` calls.
pub open spec fn after_stores(objects: Map<Seq<char>, Seq<u8>>, outcomes: Seq<Stored>) -> Map<
    Seq<char>,
    Seq<u8>,
>
    decreases outcomes.len(),
{
    if outcomes.len() == 0 {
        objects
    } else {
        after_store(after_stores(objects, outcomes.drop_last()), outcomes.last())
    }
}

/// Whether each of `outcomes` is what `store` gives for `content` on the
/// objects that the outcomes before it have left.
pub open spec fn stores_of(
    store: ObjectStore,
    objects: Map<Seq<char>, Seq<u8>>,
    content: Seq<u8>,
    outcomes: Seq<Stored>,
) -> bool
    decreases outcomes.len(),
{
    outcomes.len() == 0 || {
        &&& stores_of(store, objects, content, outcomes.drop_last())
        &&& store.store_meets(
            content,
            after_stores(objects, outcomes.drop_last()).contains_key(content_hash(content)),
            outcomes.last(),
        )
    }
}

/// Whether every object on disk is what its name says: its frame decodes
/// to content of that hash.
pub open spec fn objects_sound(objects: Map<Seq<char>, Seq<u8>>) -> bool {
    forall|hash: Seq<char>| #[trigger]
        objects.contains_key(hash) ==> retrieved(hash, Some(objects[hash])) is Some
}

/// Storing keeps the objects sound: the object written decodes to content
/// of its hash, and no other object is touched.
pub proof fn law_store_keeps_objects_sound(
    store: ObjectStore,
    objects: Map<Seq<char>, Seq<u8>>,
    content: Seq<u8>,
    stored: Stored,
)
    requires
        objects_sound(objects),
        store.store_meets(content, objects.contains_key(content_hash(content)), stored),
    ensures
        objects_sound(after_store(objects, stored)),
{
    let after = after_store(objects, stored);
    assert forall|hash: Seq<char>| #[trigger] after.contains_key(hash) implies retrieved(
        hash,
        Some(after[hash]),
    ) is Some by {
        if hash != content_hash(content) {
            assert(objects.contains_key(hash));
        }
    }
}

/// Round trip: what was stored is retrieved again, byte for byte. Where an
/// object of that hash was there before, it must hold this content: a
/// damaged object, or another content of the same hash, is not replaced.
pub proof fn law_store_then_retrieve(
    store: ObjectStore,
    objects: Map<Seq<char>, Seq<u8>>,
    content: Seq<u8>,
    stored: Stored,
)
    requires
        store.store_meets(content, objects.contains_key(content_hash(content)), stored),
        objects.contains_key(content_hash(content)) ==> zstd_decoded(
            objects[content_hash(content)],
        ) == Some(content),
    ensures
        retrieved(stored.hash@, stored_at(after_store(objects, stored), stored.hash@)) == Some(
            content,
        ),
{
}

/// Storing the same content again and again writes one file at most, the
/// first time, and gives the same hash every time: after the first call the
/// objects on disk no longer change.
pub proof fn law_store_idempotent(
    store: ObjectStore,
    objects: Map<Seq<char>, Seq<u8>>,
    content: Seq<u8>,
    outcomes: Seq<Stored>,
)
    requires
        outcomes.len() >= 1,
        stores_of(store, objects, content, outcomes),
    ensures
        forall|i: int|
            0 <= i < outcomes.len() ==> (#[trigger] outcomes[i]).hash@ == content_hash(content),
        forall|i: int| 1 <= i < outcomes.len() ==> (#[trigger] outcomes[i]).write is None,
        outcomes[0].write is Some <==> !objects.contains_key(content_hash(content)),
        after_stores(objects, outcomes) == after_store(objects, outcomes[0]),
        after_stores(objects, outcomes).dom() == objects.dom().insert(content_hash(content)),
    decreases outcomes.len(),
{
    let h = content_hash(content);
    let front = outcomes.drop_last();
    let last = outcomes.last();
    if outcomes.len() == 1 {
        assert(after_stores(objects, front) == objects);
        assert(after_store(objects, last).dom() =~= objects.dom().insert(h));
    } else {
        law_store_idempotent(store, objects, content, front);
        assert(front[0] == outcomes[0]);
        assert(after_stores(objects, front).dom().contains(h));
        assert(last.write is None);
        assert forall|i: int| 0 <= i < outcomes.len() implies (#[trigger] outcomes[i]).hash@
            == h by {
            if i < front.len() {
                assert(front[i] == outcomes[i]);
            }
        }
        assert forall|i: int| 1 <= i < outcomes.len() implies (#[trigger] outcomes[i]).write
            is None by {
            if i < front.len() {
                assert(front[i] == outcomes[i]);
            }
        }
    }
}

} // verus!
