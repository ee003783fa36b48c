//! Progress of chunked uploads: one record per upload identifier, advanced on
//! every chunk, removed on completion or cancellation, and swept when no chunk
//! has arrived for an hour.

use vstd::prelude::*;

verus! {

/// Seconds without a chunk after which an upload counts as abandoned.
pub const DEAD_TIME_LENGTH: i64 = 3600;

/// Progress of one upload.
#[derive(Debug, PartialEq, Eq)]
pub struct StreamProgress {
    /// Identifier chosen by the client.
    pub id: String,
    /// File that the chunks are appended to.
    pub path: String,
    /// Bytes received so far.
    pub current_size: u64,
    /// Bytes that the client announced.
    pub total_size: u64,
    /// Unix time, in seconds, of the last chunk.
    pub last_chunk_time: i64,
}

/// What a [`StreamProgress`] holds, as mathematical values.
pub struct Progress {
    pub id: Seq<char>,
    pub path: Seq<char>,
    pub current_size: nat,
    pub total_size: nat,
    pub last_chunk_time: int,
}

impl View for StreamProgress {
    type V = Progress;

    open spec fn view(&self) -> Progress {
        Progress {
            id: self.id@,
            path: self.path@,
            current_size: self.current_size as nat,
            total_size: self.total_size as nat,
            last_chunk_time: self.last_chunk_time as int,
        }
    }
}

impl Clone for StreamProgress {
    fn clone(&self) -> (r: Self)
        ensures
            r@ == self@,
    {
        StreamProgress {
            id: self.id.clone(),
            path: self.path.clone(),
            current_size: self.current_size,
            total_size: self.total_size,
            last_chunk_time: self.last_chunk_time,
        }
    }
}

/// Why an operation on the store was refused.
#[derive(Debug, PartialEq, Eq, Structural, Clone, Copy)]
pub enum TransferError {
    /// No upload with that identifier is in progress.
    NotFound,
}

/// Whether an upload whose last chunk came at `last_chunk_time` is abandoned at
/// time `now`.
pub open spec fn is_stale(now: int, last_chunk_time: int) -> bool {
    now - last_chunk_time > DEAD_TIME_LENGTH
}

/// The record of a new upload: nothing received yet.
pub open spec fn fresh(id: Seq<char>, path: Seq<char>, total_size: nat, now: int) -> Progress {
    Progress { id, path, current_size: 0, total_size, last_chunk_time: now }
}

/// A record after one more chunk of `bytes` bytes at time `now`. The count stops
/// at `u64::MAX`.
pub open spec fn advanced(p: Progress, bytes: nat, now: int) -> Progress {
    Progress {
        current_size: if p.current_size + bytes > u64::MAX {
            u64::MAX as nat
        } else {
            p.current_size + bytes
        },
        last_chunk_time: now,
        ..p
    }
}

/// The store after `begin`: a new record where the identifier was unknown,
/// nothing otherwise.
pub open spec fn began(
    m: Map<Seq<char>, Progress>,
    id: Seq<char>,
    path: Seq<char>,
    total_size: nat,
    now: int,
) -> Map<Seq<char>, Progress> {
    if m.dom().contains(id) {
        m
    } else {
        m.insert(id, fresh(id, path, total_size, now))
    }
}

/// The store after one chunk for `id`: that record advanced, every other
/// record as it was. An unknown identifier changes nothing.
pub open spec fn chunk_applied(
    m: Map<Seq<char>, Progress>,
    id: Seq<char>,
    bytes: nat,
    now: int,
) -> Map<Seq<char>, Progress> {
    if m.dom().contains(id) {
        m.insert(id, advanced(m[id], bytes, now))
    } else {
        m
    }
}

/// The records that a sweep at time `now` keeps.
pub open spec fn survivors(m: Map<Seq<char>, Progress>, now: int) -> Map<Seq<char>, Progress> {
    Map::new(
        |id: Seq<char>| m.dom().contains(id) && !is_stale(now, m[id].last_chunk_time),
        |id: Seq<char>| m[id],
    )
}

/// The records that a sweep at time `now` removes.
pub open spec fn abandoned(m: Map<Seq<char>, Progress>, now: int) -> Map<Seq<char>, Progress> {
    Map::new(
        |id: Seq<char>| m.dom().contains(id) && is_stale(now, m[id].last_chunk_time),
        |id: Seq<char>| m[id],
    )
}

/// Whether no two records of `s` share an identifier.
pub open spec fn distinct_ids(s: Seq<StreamProgress>) -> bool {
    forall|i: int, j: int| 0 <= i < j < s.len() ==> s[i].id@ != s[j].id@
}

/// Whether some record of `s` has the identifier `id`.
pub open spec fn has_id(s: Seq<StreamProgress>, id: Seq<char>) -> bool {
    exists|i: int| 0 <= i < s.len() && #[trigger] s[i].id@ == id
}

/// The records of `s` by identifier.
pub open spec fn records(s: Seq<StreamProgress>) -> Map<Seq<char>, Progress> {
    Map::new(
        |id: Seq<char>| has_id(s, id),
        |id: Seq<char>| s[choose|i: int| 0 <= i < s.len() && #[trigger] s[i].id@ == id]@,
    )
}

proof fn lemma_records_at(s: Seq<StreamProgress>, i: int)
    requires
        distinct_ids(s),
        0 <= i < s.len(),
    ensures
        records(s).dom().contains(s[i].id@),
        records(s)[s[i].id@] == s[i]@,
{
    let id = s[i].id@;
    assert(has_id(s, id));
    let j = choose|j: int| 0 <= j < s.len() && #[trigger] s[j].id@ == id;
    assert(j == i);
}

proof fn lemma_records_push(s: Seq<StreamProgress>, r: StreamProgress)
    requires
        distinct_ids(s),
        !has_id(s, r.id@),
    ensures
        distinct_ids(s.push(r)),
        records(s.push(r)) == records(s).insert(r.id@, r@),
{
    let t = s.push(r);
    assert forall|i: int, j: int| 0 <= i < j < t.len() implies t[i].id@ != t[j].id@ by {
        if j == s.len() {
            assert(s[i].id@ != r.id@);
        }
    }
    assert forall|id: Seq<char>| has_id(t, id) <==> (has_id(s, id) || id == r.id@) by {
        if has_id(t, id) {
            let k = choose|k: int| 0 <= k < t.len() && #[trigger] t[k].id@ == id;
            if k < s.len() {
                assert(s[k].id@ == id);
            }
        }
        if has_id(s, id) {
            let k = choose|k: int| 0 <= k < s.len() && #[trigger] s[k].id@ == id;
            assert(t[k].id@ == id);
        }
        if id == r.id@ {
            assert(t[s.len() as int].id@ == id);
        }
    }
    assert forall|id: Seq<char>| has_id(t, id) implies records(t)[id] == records(s).insert(
        r.id@,
        r@,
    )[id] by {
        let k = choose|k: int| 0 <= k < t.len() && #[trigger] t[k].id@ == id;
        lemma_records_at(t, k);
        if k < s.len() {
            lemma_records_at(s, k);
        }
    }
    assert(records(t) =~= records(s).insert(r.id@, r@));
}

proof fn lemma_records_update(s: Seq<StreamProgress>, i: int, r: StreamProgress)
    requires
        distinct_ids(s),
        0 <= i < s.len(),
        r.id@ == s[i].id@,
    ensures
        distinct_ids(s.update(i, r)),
        records(s.update(i, r)) == records(s).insert(r.id@, r@),
{
    let t = s.update(i, r);
    assert forall|a: int, b: int| 0 <= a < b < t.len() implies t[a].id@ != t[b].id@ by {
        assert(s[a].id@ != s[b].id@);
    }
    assert forall|id: Seq<char>| has_id(t, id) <==> has_id(s, id) by {
        if has_id(t, id) {
            let k = choose|k: int| 0 <= k < t.len() && #[trigger] t[k].id@ == id;
            assert(s[k].id@ == id);
        }
        if has_id(s, id) {
            let k = choose|k: int| 0 <= k < s.len() && #[trigger] s[k].id@ == id;
            assert(t[k].id@ == id);
        }
    }
    assert(has_id(s, r.id@));
    assert forall|id: Seq<char>| has_id(t, id) implies records(t)[id] == records(s).insert(
        r.id@,
        r@,
    )[id] by {
        let k = choose|k: int| 0 <= k < t.len() && #[trigger] t[k].id@ == id;
        lemma_records_at(t, k);
        lemma_records_at(s, k);
    }
    assert(records(t) =~= records(s).insert(r.id@, r@));
}

proof fn lemma_records_remove(s: Seq<StreamProgress>, i: int)
    requires
        distinct_ids(s),
        0 <= i < s.len(),
    ensures
        distinct_ids(s.remove(i)),
        records(s.remove(i)) == records(s).remove(s[i].id@),
{
    let t = s.remove(i);
    let gone = s[i].id@;
    assert forall|a: int, b: int| 0 <= a < b < t.len() implies t[a].id@ != t[b].id@ by {
        let a0 = if a < i { a } else { a + 1 };
        let b0 = if b < i { b } else { b + 1 };
        assert(s[a0].id@ != s[b0].id@);
    }
    assert forall|id: Seq<char>| has_id(t, id) <==> (has_id(s, id) && id != gone) by {
        if has_id(t, id) {
            let k = choose|k: int| 0 <= k < t.len() && #[trigger] t[k].id@ == id;
            let k0 = if k < i { k } else { k + 1 };
            assert(s[k0].id@ == id);
            if k0 < i {
                assert(s[k0].id@ != s[i].id@);
            } else {
                assert(s[i].id@ != s[k0].id@);
            }
        }
        if has_id(s, id) && id != gone {
            let k = choose|k: int| 0 <= k < s.len() && #[trigger] s[k].id@ == id;
            let k1 = if k < i { k } else { k - 1 };
            assert(t[k1].id@ == id);
        }
    }
    assert forall|id: Seq<char>| has_id(t, id) implies records(t)[id] == records(s).remove(
        gone,
    )[id] by {
        let k = choose|k: int| 0 <= k < t.len() && #[trigger] t[k].id@ == id;
        let k0 = if k < i { k } else { k + 1 };
        lemma_records_at(t, k);
        lemma_records_at(s, k0);
    }
    assert(records(t) =~= records(s).remove(gone));
}

/// Whether `now` is more than [`DEAD_TIME_LENGTH`] seconds after
/// `last_chunk_time`.
pub fn stale(now: i64, last_chunk_time: i64) -> (r: bool)
    ensures
        r == is_stale(now as int, last_chunk_time as int),
{
    let gap: i128 = now as i128 - last_chunk_time as i128;
    gap > DEAD_TIME_LENGTH as i128
}

/// The uploads in progress, by identifier.
pub struct StreamStore {
    streams: Vec<StreamProgress>,
}

impl View for StreamStore {
    type V = Map<Seq<char>, Progress>;

    closed spec fn view(&self) -> Map<Seq<char>, Progress> {
        records(self.streams@)
    }
}

impl StreamStore {
    #[verifier::type_invariant]
    spec fn well_formed(&self) -> bool {
        distinct_ids(self.streams@)
    }

    /// A store without uploads.
    pub fn new() -> (s: Self)
        ensures
            s@ == Map::<Seq<char>, Progress>::empty(),
    {
        let s = StreamStore { streams: Vec::new() };
        assert(s@ =~= Map::<Seq<char>, Progress>::empty());
        s
    }

    /// Position of the record with identifier `id`.
    fn position(streams: &Vec<StreamProgress>, id: &String) -> (r: Option<usize>)
        ensures
            match r {
                Some(i) => i < streams.len() && streams[i as int].id@ == id@,
                None => !has_id(streams@, id@),
            },
    {
        let mut i: usize = 0;
        while i < streams.len()
            invariant
                0 <= i <= streams.len(),
                forall|k: int| 0 <= k < i ==> streams[k].id@ != id@,
            decreases streams.len() - i,
        {
            if streams[i].id == *id {
                return Some(i);
            }
            i = i + 1;
        }
        None
    }

    /// Number of uploads in progress.
    pub fn len(&self) -> (n: usize)
        ensures
            n == self@.dom().len(),
            self@.dom().finite(),
    {
        proof {
            use_type_invariant(self);
            lemma_records_len(self.streams@);
        }
        self.streams.len()
    }

    /// Whether an upload with identifier `id` is in progress.
    pub fn contains(&self, id: &str) -> (r: bool)
        ensures
            r == self@.dom().contains(id@),
    {
        let key = id.to_owned();
        Self::position(&self.streams, &key).is_some()
    }

    /// The record of the upload `id`, if one is in progress.
    pub fn get(&self, id: &str) -> (r: Option<StreamProgress>)
        ensures
            match r {
                Some(p) => self@.dom().contains(id@) && p@ == self@[id@],
                None => !self@.dom().contains(id@),
            },
    {
        proof {
            use_type_invariant(self);
        }
        let key = id.to_owned();
        match Self::position(&self.streams, &key) {
            Some(i) => {
                proof {
                    lemma_records_at(self.streams@, i as int);
                }
                Some(self.streams[i].clone())
            },
            None => None,
        }
    }

    /// Starts the record of upload `id` unless one exists already, and says
    /// whether it started one.
    pub fn begin(&mut self, id: &str, path: &str, total_size: u64, now: i64) -> (created: bool)
        ensures
            created == !old(self)@.dom().contains(id@),
            final(self)@ == began(old(self)@, id@, path@, total_size as nat, now as int),
    {
        proof {
            use_type_invariant(&*self);
        }
        let key = id.to_owned();
        if Self::position(&self.streams, &key).is_some() {
            return false;
        }
        let record = StreamProgress {
            id: key,
            path: path.to_owned(),
            current_size: 0,
            total_size,
            last_chunk_time: now,
        };
        let mut streams: Vec<StreamProgress> = Vec::new();
        std::mem::swap(&mut streams, &mut self.streams);
        proof {
            lemma_records_push(streams@, record);
        }
        streams.push(record);
        self.streams = streams;
        true
    }

    /// Counts one chunk of `bytes` bytes, received at `now`, for upload `id`.
    pub fn advance(&mut self, id: &str, bytes: u64, now: i64) -> (r: Result<(), TransferError>)
        ensures
            r is Ok <==> old(self)@.dom().contains(id@),
            r is Err ==> r == Err::<(), TransferError>(TransferError::NotFound),
            final(self)@ == chunk_applied(old(self)@, id@, bytes as nat, now as int),
    {
        proof {
            use_type_invariant(&*self);
        }
        let key = id.to_owned();
        match Self::position(&self.streams, &key) {
            None => Err(TransferError::NotFound),
            Some(i) => {
                let mut streams: Vec<StreamProgress> = Vec::new();
                std::mem::swap(&mut streams, &mut self.streams);
                let old_record = &streams[i];
                let current_size = if bytes > u64::MAX - old_record.current_size {
                    u64::MAX
                } else {
                    old_record.current_size + bytes
                };
                let record = StreamProgress {
                    id: key,
                    path: old_record.path.clone(),
                    current_size,
                    total_size: old_record.total_size,
                    last_chunk_time: now,
                };
                proof {
                    lemma_records_at(streams@, i as int);
                    lemma_records_update(streams@, i as int, record);
                    assert(record@ == advanced(streams@[i as int]@, bytes as nat, now as int));
                }
                streams.set(i, record);
                self.streams = streams;
                Ok(())
            },
        }
    }

    /// Ends upload `id`: its record leaves the store and is returned. An unknown
    /// identifier changes nothing.
    pub fn complete(&mut self, id: &str) -> (r: Option<StreamProgress>)
        ensures
            final(self)@ == old(self)@.remove(id@),
            match r {
                Some(p) => old(self)@.dom().contains(id@) && p@ == old(self)@[id@],
                None => !old(self)@.dom().contains(id@),
            },
    {
        proof {
            use_type_invariant(&*self);
        }
        let key = id.to_owned();
        match Self::position(&self.streams, &key) {
            None => {
                assert(self@.remove(id@) =~= self@);
                None
            },
            Some(i) => {
                let mut streams: Vec<StreamProgress> = Vec::new();
                std::mem::swap(&mut streams, &mut self.streams);
                proof {
                    lemma_records_at(streams@, i as int);
                    lemma_records_remove(streams@, i as int);
                }
                let record = streams.remove(i);
                self.streams = streams;
                Some(record)
            },
        }
    }

    /// Cancels upload `id`: its record leaves the store and is returned, so that
    /// the partial file can be deleted. An unknown identifier is an error and
    /// changes nothing.
    pub fn cancel(&mut self, id: &str) -> (r: Result<StreamProgress, TransferError>)
        ensures
            final(self)@ == old(self)@.remove(id@),
            match r {
                Ok(p) => old(self)@.dom().contains(id@) && p@ == old(self)@[id@],
                Err(e) => !old(self)@.dom().contains(id@) && final(self)@ == old(self)@ && e
                    == TransferError::NotFound,
            },
    {
        match self.complete(id) {
            Some(p) => Ok(p),
            None => {
                assert(self@ =~= old(self)@);
                Err(TransferError::NotFound)
            },
        }
    }

    /// Removes every upload that is abandoned at `now` and returns the removed
    /// records, so that their partial files can be deleted.
    pub fn sweep(&mut self, now: i64) -> (removed: Vec<StreamProgress>)
        ensures
            final(self)@ == survivors(old(self)@, now as int),
            distinct_ids(removed@),
            records(removed@) == abandoned(old(self)@, now as int),
    {
        proof {
            use_type_invariant(&*self);
        }
        let mut all: Vec<StreamProgress> = Vec::new();
        std::mem::swap(&mut all, &mut self.streams);
        let mut kept: Vec<StreamProgress> = Vec::new();
        let mut removed: Vec<StreamProgress> = Vec::new();
        let mut i: usize = 0;
        assert(records(kept@) =~= survivors(records(all@.take(0)), now as int));
        assert(records(removed@) =~= abandoned(records(all@.take(0)), now as int));
        while i < all.len()
            invariant
                0 <= i <= all.len(),
                distinct_ids(all@),
                distinct_ids(kept@),
                distinct_ids(removed@),
                records(kept@) == survivors(records(all@.take(i as int)), now as int),
                records(removed@) == abandoned(records(all@.take(i as int)), now as int),
            decreases all.len() - i,
        {
            let record = all[i].clone();
            proof {
                let before = all@.take(i as int);
                let after = all@.take(i + 1);
                assert(after =~= before.push(all@[i as int]));
                assert(distinct_ids(before)) by {
                    assert forall|a: int, b: int| 0 <= a < b < before.len() implies before[a].id@
                        != before[b].id@ by {
                        assert(all@[a].id@ != all@[b].id@);
                    }
                }
                assert(!has_id(before, all@[i as int].id@)) by {
                    if has_id(before, all@[i as int].id@) {
                        let k = choose|k: int|
                            0 <= k < before.len() && #[trigger] before[k].id@ == all@[i as int].id@;
                        assert(all@[k].id@ != all@[i as int].id@);
                    }
                }
                lemma_records_push(before, all@[i as int]);
                let m0 = records(before);
                let m1 = records(after);
                let id = all@[i as int].id@;
                assert(m1 == m0.insert(id, all@[i as int]@));
                assert(!m0.dom().contains(id));
                assert(record@ == all@[i as int]@);
                if is_stale(now as int, record.last_chunk_time as int) {
                    assert(!has_id(removed@, record.id@)) by {
                        if has_id(removed@, record.id@) {
                            assert(records(removed@).dom().contains(id));
                        }
                    }
                    lemma_records_push(removed@, record);
                    assert(records(removed@).insert(id, record@) =~= abandoned(m1, now as int));
                    assert(survivors(m0, now as int) =~= survivors(m1, now as int));
                } else {
                    assert(!has_id(kept@, record.id@)) by {
                        if has_id(kept@, record.id@) {
                            assert(records(kept@).dom().contains(id));
                        }
                    }
                    lemma_records_push(kept@, record);
                    assert(records(kept@).insert(id, record@) =~= survivors(m1, now as int));
                    assert(abandoned(m0, now as int) =~= abandoned(m1, now as int));
                }
            }
            if stale(now, record.last_chunk_time) {
                removed.push(record);
            } else {
                kept.push(record);
            }
            i = i + 1;
        }
        assert(all@.take(all.len() as int) =~= all@);
        self.streams = kept;
        removed
    }
}

/// A store of `n` records with distinct identifiers holds `n` identifiers.
proof fn lemma_records_len(s: Seq<StreamProgress>)
    requires
        distinct_ids(s),
    ensures
        records(s).dom().finite(),
        records(s).dom().len() == s.len(),
    decreases s.len(),
{
    if s.len() == 0 {
        assert(records(s).dom() =~= Set::<Seq<char>>::empty());
    } else {
        let t = s.drop_last();
        let r = s.last();
        assert(distinct_ids(t)) by {
            assert forall|a: int, b: int| 0 <= a < b < t.len() implies t[a].id@ != t[b].id@ by {
                assert(s[a].id@ != s[b].id@);
            }
        }
        assert(!has_id(t, r.id@)) by {
            if has_id(t, r.id@) {
                let k = choose|k: int| 0 <= k < t.len() && #[trigger] t[k].id@ == r.id@;
                assert(s[k].id@ != s[s.len() - 1].id@);
            }
        }
        lemma_records_len(t);
        lemma_records_push(t, r);
        assert(t.push(r) =~= s);
        assert(records(s).dom() =~= records(t).dom().insert(r.id@));
    }
}

impl StreamStore {
    /// Counts one chunk for upload `id`, starting its record first if this is
    /// the upload's first chunk.
    pub fn record_chunk(&mut self, id: &str, path: &str, total_size: u64, bytes: u64, now: i64)
        ensures
            final(self)@ == chunk_applied(
                began(old(self)@, id@, path@, total_size as nat, now as int),
                id@,
                bytes as nat,
                now as int,
            ),
            final(self)@.dom().contains(id@),
    {
        self.begin(id, path, total_size, now);
        let _ = self.advance(id, bytes, now);
    }
}

/// One chunk of an upload: how many bytes it holds and when it arrived.
pub struct Chunk {
    pub bytes: nat,
    pub at: int,
}

/// The bytes of all `chunks` together.
pub open spec fn total_bytes(chunks: Seq<Chunk>) -> nat
    decreases chunks.len(),
{
    if chunks.len() == 0 {
        0
    } else {
        total_bytes(chunks.drop_last()) + chunks.last().bytes
    }
}

/// The store after `chunks` were counted for `id`, one after the other.
pub open spec fn chunks_applied(
    m: Map<Seq<char>, Progress>,
    id: Seq<char>,
    chunks: Seq<Chunk>,
) -> Map<Seq<char>, Progress>
    decreases chunks.len(),
{
    if chunks.len() == 0 {
        m
    } else {
        chunk_applied(
            chunks_applied(m, id, chunks.drop_last()),
            id,
            chunks.last().bytes,
            chunks.last().at,
        )
    }
}

/// Chunks add up: as long as the count fits in 64 bits, the bytes received
/// after a run of chunks are the bytes received before plus the bytes of the
/// chunks.
pub proof fn lemma_chunks_add_up(m: Map<Seq<char>, Progress>, id: Seq<char>, chunks: Seq<Chunk>)
    requires
        m.dom().contains(id),
        m[id].current_size + total_bytes(chunks) <= u64::MAX,
    ensures
        chunks_applied(m, id, chunks).dom().contains(id),
        chunks_applied(m, id, chunks)[id].current_size == m[id].current_size + total_bytes(chunks),
        chunks_applied(m, id, chunks)[id].total_size == m[id].total_size,
        chunks_applied(m, id, chunks)[id].path == m[id].path,
    decreases chunks.len(),
{
    if chunks.len() > 0 {
        lemma_chunks_add_up(m, id, chunks.drop_last());
    }
}

/// An upload whose chunks add up to the announced size ends with exactly that
/// size received.
pub proof fn lemma_complete_upload(m: Map<Seq<char>, Progress>, id: Seq<char>, chunks: Seq<Chunk>)
    requires
        m.dom().contains(id),
        m[id].total_size <= u64::MAX,
        m[id].current_size + total_bytes(chunks) == m[id].total_size,
    ensures
        chunks_applied(m, id, chunks).dom().contains(id),
        chunks_applied(m, id, chunks)[id].current_size == m[id].total_size,
{
    lemma_chunks_add_up(m, id, chunks);
}

/// Chunks of one upload leave every other upload as it was.
pub proof fn lemma_chunks_leave_others(
    m: Map<Seq<char>, Progress>,
    id: Seq<char>,
    chunks: Seq<Chunk>,
    other: Seq<char>,
)
    requires
        other != id,
    ensures
        chunks_applied(m, id, chunks).dom().contains(other) == m.dom().contains(other),
        chunks_applied(m, id, chunks)[other] == m[other],
    decreases chunks.len(),
{
    if chunks.len() > 0 {
        lemma_chunks_leave_others(m, id, chunks.drop_last(), other);
    }
}

/// Chunks of two different uploads may be counted in either order.
pub proof fn lemma_chunks_commute(
    m: Map<Seq<char>, Progress>,
    a: Seq<char>,
    a_bytes: nat,
    a_at: int,
    b: Seq<char>,
    b_bytes: nat,
    b_at: int,
)
    requires
        a != b,
    ensures
        chunk_applied(chunk_applied(m, a, a_bytes, a_at), b, b_bytes, b_at) == chunk_applied(
            chunk_applied(m, b, b_bytes, b_at),
            a,
            a_bytes,
            a_at,
        ),
{
    assert(chunk_applied(chunk_applied(m, a, a_bytes, a_at), b, b_bytes, b_at) =~= chunk_applied(
        chunk_applied(m, b, b_bytes, b_at),
        a,
        a_bytes,
        a_at,
    ));
}

/// A sweep parts the store in two: an upload is removed exactly if its last
/// chunk is more than an hour old, and what stays is unchanged.
pub proof fn lemma_sweep_parts(m: Map<Seq<char>, Progress>, now: int, id: Seq<char>)
    requires
        m.dom().contains(id),
    ensures
        is_stale(now, m[id].last_chunk_time) ==> !survivors(m, now).dom().contains(id) && abandoned(
            m,
            now,
        ).dom().contains(id) && abandoned(m, now)[id] == m[id],
        !is_stale(now, m[id].last_chunk_time) ==> survivors(m, now).dom().contains(id)
            && survivors(m, now)[id] == m[id] && !abandoned(m, now).dom().contains(id),
{
}

/// An upload that received a chunk within the last hour survives a sweep, with
/// its record untouched.
pub proof fn lemma_recent_chunk_survives(
    m: Map<Seq<char>, Progress>,
    id: Seq<char>,
    bytes: nat,
    at: int,
    now: int,
)
    requires
        m.dom().contains(id),
        now - at <= DEAD_TIME_LENGTH,
    ensures
        survivors(chunk_applied(m, id, bytes, at), now).dom().contains(id),
        survivors(chunk_applied(m, id, bytes, at), now)[id] == advanced(m[id], bytes, at),
{
}

} // verus!
