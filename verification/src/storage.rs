//! The object-storage gateway: typed facade over a keyed blob store.
//!
//! The gateway owns the bucket identity and exposes the four domain
//! operations — `put`, `get_stream`, `get_bytes`, `delete` —
//! independent of any backend SDK's vocabulary. This is the verified
//! reference backend the gateway's callers are tested against: a
//! reliable in-process store whose operations meet the exact protocol
//! contracts (atomic per-object visibility, no partial writes,
//! idempotent delete). The production glue drives a remote blob store
//! through the same operations and the same error mapping, but its
//! transfers happen outside this crate.

use vstd::prelude::*;

use crate::bytebuf::bytes_seq;
use crate::errors::StorageError;
use crate::stream::{
    body_bytes, chunk_total, chunk_views, clone_bytes, collect_to_buffer, concat_bytes,
    flatten_chunks, BodyStream,
};

verus! {

/// One stored object: the payload and the content type attached at put
/// time, read back unchanged at get time. The gateway neither validates
/// nor transforms content.
pub struct StoredObject {
    /// The payload.
    pub data: Vec<u8>,
    /// The declared content type.
    pub content_type: String,
}

/// The mathematical image of one stored object.
pub struct ObjectView {
    /// The payload bytes.
    pub data: Seq<u8>,
    /// The declared content type.
    pub content_type: Seq<char>,
}

impl View for StoredObject {
    type V = ObjectView;

    open spec fn view(&self) -> ObjectView {
        ObjectView { data: self.data@, content_type: self.content_type@ }
    }
}

/// The map a sequence of keyed entries denotes; a later entry for the
/// same key would shadow an earlier one.
pub open spec fn entries_map(s: Seq<(String, StoredObject)>) -> Map<Seq<char>, ObjectView>
    decreases s.len(),
{
    if s.len() == 0 {
        Map::empty()
    } else {
        entries_map(s.drop_last()).insert(s.last().0@, s.last().1@)
    }
}

/// No two entries share a key.
pub open spec fn keys_unique(s: Seq<(String, StoredObject)>) -> bool {
    forall|i: int, j: int| 0 <= i < j < s.len() ==> s[i].0@ != s[j].0@
}

/// A key is in the denoted map exactly when some entry carries it.
proof fn lemma_entries_map_contains(s: Seq<(String, StoredObject)>, k: Seq<char>)
    ensures
        entries_map(s).contains_key(k) <==> (exists|i: int| 0 <= i < s.len() && s[i].0@ == k),
    decreases s.len(),
{
    if s.len() > 0 {
        lemma_entries_map_contains(s.drop_last(), k);
        if s.last().0@ == k {
            assert(s[s.len() - 1].0@ == k);
        } else {
            if entries_map(s.drop_last()).contains_key(k) {
                let i = choose|i: int| 0 <= i < s.len() - 1 && s.drop_last()[i].0@ == k;
                assert(s[i].0@ == k);
            }
            if exists|i: int| 0 <= i < s.len() && s[i].0@ == k {
                let i = choose|i: int| 0 <= i < s.len() && s[i].0@ == k;
                assert(s.drop_last()[i].0@ == k);
            }
        }
    }
}

/// With unique keys, the denoted map sends each entry's key to that
/// entry's object.
proof fn lemma_entries_map_get(s: Seq<(String, StoredObject)>, i: int)
    requires
        keys_unique(s),
        0 <= i < s.len(),
    ensures
        entries_map(s).contains_key(s[i].0@),
        entries_map(s)[s[i].0@] == s[i].1@,
    decreases s.len(),
{
    if i == s.len() - 1 {
    } else {
        lemma_entries_map_get(s.drop_last(), i);
        assert(s.drop_last()[i] == s[i]);
    }
}

/// Removing the entry that carries a key removes exactly that key from
/// the denoted map.
proof fn lemma_entries_map_remove(s: Seq<(String, StoredObject)>, i: int)
    requires
        keys_unique(s),
        0 <= i < s.len(),
    ensures
        keys_unique(s.remove(i)),
        entries_map(s.remove(i)) == entries_map(s).remove(s[i].0@),
    decreases s.len(),
{
    let k = s[i].0@;
    assert forall|a: int, b: int| 0 <= a < b < s.remove(i).len() implies s.remove(i)[a].0@
        != s.remove(i)[b].0@ by {
        let a0 = if a < i { a } else { a + 1 };
        let b0 = if b < i { b } else { b + 1 };
        assert(s.remove(i)[a] == s[a0] && s.remove(i)[b] == s[b0]);
    }
    if i == s.len() - 1 {
        assert(s.remove(i) =~= s.drop_last());
        lemma_entries_map_contains(s.drop_last(), k);
        assert forall|j: int| 0 <= j < s.len() - 1 implies s[j].0@ != k by {}
        assert(entries_map(s.drop_last()) =~= entries_map(s.drop_last()).insert(
            k,
            s.last().1@,
        ).remove(k));
    } else {
        let t = s.remove(i);
        assert(t.drop_last() =~= s.drop_last().remove(i));
        assert(t.last() == s.last());
        lemma_entries_map_remove(s.drop_last(), i);
        assert(s.drop_last()[i] == s[i]);
        // The removed key differs from the last entry's key, so the
        // final insert commutes with the removal.
        assert(s[i].0@ != s.last().0@);
        assert(entries_map(s.drop_last()).remove(k).insert(s.last().0@, s.last().1@)
            =~= entries_map(s.drop_last()).insert(s.last().0@, s.last().1@).remove(k));
    }
}

/// Appending a fresh entry inserts exactly its key into the denoted
/// map.
proof fn lemma_entries_map_push(s: Seq<(String, StoredObject)>, e: (String, StoredObject))
    ensures
        entries_map(s.push(e)) == entries_map(s).insert(e.0@, e.1@),
{
    assert(s.push(e).drop_last() =~= s);
    assert(s.push(e).last() == e);
}

/// The storage gateway over the reference backend. The bucket identity
/// is immutable after construction and shared read-only; the store
/// itself maps each key to the one object most recently put under it.
pub struct Storage {
    /// The bucket this gateway addresses.
    pub bucket_name: String,
    /// The stored objects, one entry per key.
    pub entries: Vec<(String, StoredObject)>,
}

impl Storage {
    /// The gateway invariant: one entry per key.
    pub open spec fn wf(&self) -> bool {
        keys_unique(self.entries@)
    }

    /// The store as a map from keys to objects.
    pub open spec fn objects(&self) -> Map<Seq<char>, ObjectView> {
        entries_map(self.entries@)
    }

    /// Create a new storage instance addressing the given bucket,
    /// holding nothing.
    pub fn new(bucket_name: String) -> (r: Storage)
        ensures
            r.wf(),
            r.bucket_name@ == bucket_name@,
            r.objects() == Map::<Seq<char>, ObjectView>::empty(),
    {
        Storage { bucket_name, entries: Vec::new() }
    }

    /// The position of the entry carrying a key, if any.
    fn find(&self, path: &String) -> (r: Option<usize>)
        requires
            self.wf(),
        ensures
            match r {
                Option::Some(i) => i < self.entries@.len() && self.entries@[i as int].0@ == path@,
                Option::None => !self.objects().contains_key(path@),
            },
    {
        let mut i: usize = 0;
        while i < self.entries.len()
            invariant
                i <= self.entries.len(),
                forall|j: int| 0 <= j < i ==> self.entries@[j].0@ != path@,
            decreases self.entries.len() - i,
        {
            if self.entries[i].0 == *path {
                return Option::Some(i);
            }
            i += 1;
        }
        proof {
            lemma_entries_map_contains(self.entries@, path@);
        }
        Option::None
    }

    /// Drop the entry carrying a key, if any.
    fn remove_entry(&mut self, path: &String)
        requires
            old(self).wf(),
        ensures
            final(self).wf(),
            final(self).bucket_name == old(self).bucket_name,
            final(self).objects() == old(self).objects().remove(path@),
            !final(self).objects().contains_key(path@),
    {
        let found = self.find(path);
        match found {
            Option::Some(i) => {
                proof {
                    lemma_entries_map_remove(self.entries@, i as int);
                }
                self.entries.remove(i);
            },
            Option::None => {
                proof {
                    assert(self.objects() =~= self.objects().remove(path@));
                }
            },
        }
    }

    /// Delete the object under a key. Idempotent: deleting a missing
    /// key is not an error, and the call never fails.
    pub fn delete(&mut self, path: &String) -> (r: Result<(), StorageError>)
        requires
            old(self).wf(),
        ensures
            final(self).wf(),
            final(self).bucket_name == old(self).bucket_name,
            final(self).objects() == old(self).objects().remove(path@),
            r == Result::<(), StorageError>::Ok(()),
    {
        self.remove_entry(path);
        Result::Ok(())
    }

    /// Store an object under a key: create it or fully overwrite it,
    /// never partially. Succeeds exactly when the body ended cleanly
    /// and the declared content length equals the number of bytes it
    /// carried; otherwise the store is left untouched and the body's
    /// own fault — or `Rejected`, for a length mismatch — comes back.
    pub fn put(
        &mut self,
        path: &String,
        body: BodyStream,
        content_length: u64,
        content_type: String,
    ) -> (r: Result<(), StorageError>)
        requires
            old(self).wf(),
        ensures
            final(self).wf(),
            final(self).bucket_name == old(self).bucket_name,
            r is Ok <==> (body.fault is None && body_bytes(body).len() == content_length),
            match r {
                Result::Ok(()) => final(self).objects() == old(self).objects().insert(
                    path@,
                    (ObjectView { data: body_bytes(body), content_type: content_type@ }),
                ),
                Result::Err(e) => final(self).objects() == old(self).objects() && (match body
                    .fault {
                    Option::Some(f) => e == f,
                    Option::None => e == StorageError::Rejected && body_bytes(body).len()
                        != content_length,
                }),
            },
    {
        match body.fault {
            Option::Some(f) => {
                return Result::Err(f);
            },
            Option::None => {},
        }
        let matches_length = match chunk_total(&body.chunks) {
            Option::Some(n) => n == content_length,
            Option::None => false,
        };
        if !matches_length {
            return Result::Err(StorageError::Rejected);
        }
        let data = flatten_chunks(&body.chunks);
        self.remove_entry(path);
        let ghost trimmed = self.entries@;
        let key = path.clone();
        self.entries.push((key, StoredObject { data, content_type }));
        proof {
            let e = self.entries@.last();
            assert(self.entries@ == trimmed.push(e));
            lemma_entries_map_push(trimmed, e);
            lemma_entries_map_contains(trimmed, path@);
            assert forall|a: int, b: int|
                0 <= a < b < self.entries@.len() implies self.entries@[a].0@
                != self.entries@[b].0@ by {
                if b == self.entries@.len() - 1 {
                    assert(trimmed[a].0@ != path@);
                } else {
                    assert(trimmed[a].0@ != trimmed[b].0@);
                }
            }
            assert(self.objects() =~= old(self).objects().insert(
                path@,
                (ObjectView { data: body_bytes(body), content_type: content_type@ }),
            ));
        }
        Result::Ok(())
    }

    /// Hand the object under a key out as a lazily consumable chunk
    /// sequence. Fails with `NotFound` exactly when the key does not
    /// exist; the chunks of a successful answer concatenate to exactly
    /// the stored payload.
    pub fn get_stream(&self, path: &String) -> (r: Result<BodyStream, StorageError>)
        requires
            self.wf(),
        ensures
            r is Ok <==> self.objects().contains_key(path@),
            match r {
                Result::Ok(stream) => stream.fault is None && self.objects().contains_key(path@)
                    && body_bytes(stream) == self.objects()[path@].data,
                Result::Err(e) => e == StorageError::NotFound,
            },
    {
        let found = self.find(path);
        match found {
            Option::Some(i) => {
                proof {
                    lemma_entries_map_get(self.entries@, i as int);
                }
                let data = clone_bytes(&self.entries[i].1.data);
                let chunks = vec![data];
                let stream = BodyStream { chunks, fault: Option::None };
                proof {
                    let cv = chunk_views(stream.chunks@);
                    assert(cv.drop_last() =~= Seq::<Seq<u8>>::empty());
                    assert(concat_bytes(cv) == concat_bytes(cv.drop_last()) + cv.last());
                    assert(body_bytes(stream) =~= self.objects()[path@].data);
                }
                Result::Ok(stream)
            },
            Option::None => Result::Err(StorageError::NotFound),
        }
    }

    /// Fetch the whole object under a key into one contiguous buffer.
    /// Same failure modes as `get_stream`, plus memory use proportional
    /// to the object size.
    pub fn get_bytes(&self, path: &String) -> (r: Result<bytes::Bytes, StorageError>)
        requires
            self.wf(),
        ensures
            r is Ok <==> self.objects().contains_key(path@),
            match r {
                Result::Ok(b) => self.objects().contains_key(path@) && bytes_seq(b)
                    == self.objects()[path@].data,
                Result::Err(e) => e == StorageError::NotFound,
            },
    {
        match self.get_stream(path) {
            Result::Ok(stream) => {
                match collect_to_buffer(stream) {
                    Result::Ok(b) => Result::Ok(b),
                    Result::Err(e) => {
                        proof {
                            assert(false);
                        }
                        Result::Err(e)
                    },
                }
            },
            Result::Err(e) => Result::Err(e),
        }
    }
}

/// Writing a key and reading it back returns exactly the content
/// written, and writing touches no other key: the round trip law the
/// contracts of `put` and `get_bytes`/`get_stream` compose to.
pub proof fn lemma_put_get_round_trip(
    objects: Map<Seq<char>, ObjectView>,
    key: Seq<char>,
    obj: ObjectView,
)
    ensures
        objects.insert(key, obj).contains_key(key),
        objects.insert(key, obj)[key] == obj,
        forall|other: Seq<char>|
            other != key ==> (objects.insert(key, obj).contains_key(other)
                == objects.contains_key(other)),
{
}

/// Deleting a key twice ends in the same state as deleting it once,
/// and by `delete`'s contract neither call fails.
pub proof fn lemma_delete_idempotent(objects: Map<Seq<char>, ObjectView>, key: Seq<char>)
    ensures
        objects.remove(key).remove(key) == objects.remove(key),
{
    assert(objects.remove(key).remove(key) =~= objects.remove(key));
}

} // verus!
