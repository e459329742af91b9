//! The push-to-pull streaming bridge: a bounded queue of byte chunks
//! between a push-side producer and a pull-side reader, plus the reader's
//! carry-over of partially consumed chunks.
//!
//! The bound on the queue is the backpressure that caps memory use; the
//! carry-over is what guarantees no byte is dropped or re-ordered.

use vstd::prelude::*;

verus! {

/// The bytes a sequence of chunks carries, in order.
pub open spec fn flat(chunks: Seq<Vec<u8>>) -> Seq<u8>
    decreases chunks.len(),
{
    if chunks.len() == 0 {
        Seq::empty()
    } else {
        chunks[0]@ + flat(chunks.drop_first())
    }
}

/// Appending a chunk appends its bytes.
pub proof fn lemma_flat_push(chunks: Seq<Vec<u8>>, c: Vec<u8>)
    ensures
        flat(chunks.push(c)) == flat(chunks) + c@,
    decreases chunks.len(),
{
    if chunks.len() == 0 {
        let p = chunks.push(c);
        assert(p[0] == c);
        assert(p.drop_first() =~= Seq::<Vec<u8>>::empty());
        assert(flat(p.drop_first()) == Seq::<u8>::empty());
        assert(flat(p) =~= flat(chunks) + c@);
    } else {
        lemma_flat_push(chunks.drop_first(), c);
        assert(chunks.push(c).drop_first() =~= chunks.drop_first().push(c));
        assert(chunks[0]@ + (flat(chunks.drop_first()) + c@) =~= (chunks[0]@ + flat(
            chunks.drop_first(),
        )) + c@);
    }
}

/// The bounded chunk queue between producer and reader.
pub struct ChunkQueue {
    pub capacity: usize,
    pub chunks: Vec<Vec<u8>>,
}

impl ChunkQueue {
    /// How many chunks sit in the queue.
    pub open spec fn spec_len(self) -> int {
        self.chunks@.len() as int
    }

    /// The queued bytes, oldest first.
    pub open spec fn content(self) -> Seq<u8> {
        flat(self.chunks@)
    }

    /// The queue never holds more chunks than its capacity.
    pub open spec fn inv(self) -> bool {
        self.chunks@.len() <= self.capacity
    }

    /// An empty queue with the given capacity.
    pub fn new(capacity: usize) -> (r: Self)
        ensures
            r.inv(),
            r.capacity == capacity,
            r.spec_len() == 0,
            r.content() == Seq::<u8>::empty(),
    {
        ChunkQueue { capacity, chunks: Vec::new() }
    }

    /// Offer a chunk. A full queue refuses it — the producer backs off and
    /// retries, which is the backpressure that bounds memory — and an
    /// accepted chunk appends exactly its bytes.
    pub fn try_push(&mut self, chunk: Vec<u8>) -> (accepted: bool)
        requires
            old(self).inv(),
        ensures
            final(self).inv(),
            final(self).capacity == old(self).capacity,
            accepted == (old(self).spec_len() < old(self).capacity),
            accepted ==> final(self).content() == old(self).content() + chunk@
                && final(self).spec_len() == old(self).spec_len() + 1,
            !accepted ==> *final(self) == *old(self),
    {
        if self.chunks.len() < self.capacity {
            proof {
                lemma_flat_push(self.chunks@, chunk);
            }
            self.chunks.push(chunk);
            true
        } else {
            false
        }
    }

    /// Take the oldest chunk; nothing when the queue is empty.
    pub fn pop_front(&mut self) -> (r: Option<Vec<u8>>)
        requires
            old(self).inv(),
        ensures
            final(self).inv(),
            final(self).capacity == old(self).capacity,
            match r {
                Option::Some(c) => old(self).spec_len() > 0 && c@ + final(self).content() == old(
                    self,
                ).content() && final(self).spec_len() == old(self).spec_len() - 1,
                Option::None => old(self).spec_len() == 0 && *final(self) == *old(self),
            },
    {
        if self.chunks.len() == 0 {
            Option::None
        } else {
            let c = self.chunks.remove(0);
            proof {
                assert(self.chunks@ =~= old(self).chunks@.drop_first());
            }
            Option::Some(c)
        }
    }
}

/// What one pull of the reader serves and retains, over plain values: the
/// carried-over bytes, the next chunk if one was taken from the queue (or
/// none at end of stream), and the caller's buffer size. The result is the
/// served bytes and the new carry-over.
pub open spec fn spec_read_step(
    overflow: Seq<u8>,
    incoming: Option<Seq<u8>>,
    buf_len: int,
) -> (Seq<u8>, Seq<u8>) {
    if overflow.len() > 0 {
        if overflow.len() <= buf_len {
            (overflow, Seq::empty())
        } else {
            (overflow.subrange(0, buf_len), overflow.subrange(buf_len, overflow.len() as int))
        }
    } else {
        match incoming {
            Option::None => (Seq::empty(), Seq::empty()),
            Option::Some(data) => {
                if data.len() <= buf_len {
                    (data, Seq::empty())
                } else {
                    (data.subrange(0, buf_len), data.subrange(buf_len, data.len() as int))
                }
            },
        }
    }
}

/// The reader's pull side: the retained remainder of a partially consumed
/// chunk.
pub struct StreamReader {
    pub overflow: Vec<u8>,
}

impl StreamReader {
    /// A reader with nothing carried over.
    pub fn new() -> (r: Self)
        ensures
            r.overflow@ == Seq::<u8>::empty(),
    {
        StreamReader { overflow: Vec::new() }
    }

    /// Serve one pull of at most `buf_len` bytes: first the carried-over
    /// remainder, otherwise the incoming chunk; what does not fit is
    /// retained, in order. An empty result with no carry-over means end of
    /// stream.
    pub fn read_step(&mut self, incoming: Option<Vec<u8>>, buf_len: usize) -> (out: Vec<u8>)
        requires
            buf_len > 0,
        ensures
            ({
                let (served, kept) = spec_read_step(
                    old(self).overflow@,
                    spec_opt_bytes(incoming),
                    buf_len as int,
                );
                &&& out@ == served
                &&& final(self).overflow@ == kept
                &&& out@.len() <= buf_len
            }),
    {
        if self.overflow.len() > 0 {
            if self.overflow.len() <= buf_len {
                let mut served: Vec<u8> = Vec::new();
                std::mem::swap(&mut served, &mut self.overflow);
                served
            } else {
                let mut served: Vec<u8> = Vec::new();
                let mut i: usize = 0;
                while i < buf_len
                    invariant
                        i <= buf_len,
                        buf_len < self.overflow@.len(),
                        self.overflow == old(self).overflow,
                        served@ =~= self.overflow@.subrange(0, i as int),
                    decreases buf_len - i,
                {
                    served.push(self.overflow[i]);
                    proof {
                        assert(served@ =~= self.overflow@.subrange(0, i + 1));
                    }
                    i = i + 1;
                }
                let mut kept: Vec<u8> = Vec::new();
                let n = self.overflow.len();
                let mut j: usize = buf_len;
                while j < n
                    invariant
                        buf_len <= j <= n,
                        n == self.overflow@.len(),
                        self.overflow == old(self).overflow,
                        kept@ =~= self.overflow@.subrange(buf_len as int, j as int),
                    decreases n - j,
                {
                    kept.push(self.overflow[j]);
                    proof {
                        assert(kept@ =~= self.overflow@.subrange(buf_len as int, j + 1));
                    }
                    j = j + 1;
                }
                self.overflow = kept;
                served
            }
        } else {
            match incoming {
                Option::None => Vec::new(),
                Option::Some(data) => {
                    if data.len() <= buf_len {
                        proof {
                            assert(data@.subrange(0, data@.len() as int) =~= data@);
                        }
                        data
                    } else {
                        let mut served: Vec<u8> = Vec::new();
                        let mut i: usize = 0;
                        while i < buf_len
                            invariant
                                i <= buf_len,
                                buf_len < data@.len(),
                                served@ =~= data@.subrange(0, i as int),
                            decreases buf_len - i,
                        {
                            served.push(data[i]);
                            proof {
                                assert(served@ =~= data@.subrange(0, i + 1));
                            }
                            i = i + 1;
                        }
                        let mut kept: Vec<u8> = Vec::new();
                        let n = data.len();
                        let mut j: usize = buf_len;
                        while j < n
                            invariant
                                buf_len <= j <= n,
                                n == data@.len(),
                                kept@ =~= data@.subrange(buf_len as int, j as int),
                            decreases n - j,
                        {
                            kept.push(data[j]);
                            proof {
                                assert(kept@ =~= data@.subrange(buf_len as int, j + 1));
                            }
                            j = j + 1;
                        }
                        self.overflow = kept;
                        served
                    }
                },
            }
        }
    }
}

/// What the archive scan does with one entry, by the entry path's final
/// component: the two known table files are extracted, everything else is
/// passed over.
pub enum ArchiveEntryAction {
    ExtractVersions,
    ExtractCrates,
    Skip,
}

/// Decide what to do with one archive entry.
pub fn classify_archive_entry(entry_path: &str) -> (r: ArchiveEntryAction)
    ensures
        ({
            let tail = crate::local_crates::spec_last_component(entry_path@);
            match r {
                ArchiveEntryAction::ExtractVersions => tail == Option::Some("versions.csv"@),
                ArchiveEntryAction::ExtractCrates => tail == Option::Some("crates.csv"@),
                ArchiveEntryAction::Skip => tail != Option::Some("versions.csv"@) && tail
                    != Option::Some("crates.csv"@),
            }
        }),
{
    let versions: String = "versions.csv".to_owned();
    let crates: String = "crates.csv".to_owned();
    match crate::local_crates::last_component(entry_path) {
        Option::Some(tail) => {
            if tail.eq(&versions) {
                ArchiveEntryAction::ExtractVersions
            } else if tail.eq(&crates) {
                ArchiveEntryAction::ExtractCrates
            } else {
                proof {
                    reveal_strlit("versions.csv");
                    reveal_strlit("crates.csv");
                }
                ArchiveEntryAction::Skip
            }
        },
        Option::None => ArchiveEntryAction::Skip,
    }
}

/// Whether the archive scan may stop: both table files were extracted.
pub fn extraction_complete(versions_unpacked: bool, crates_unpacked: bool) -> (r: bool)
    ensures
        r == (versions_unpacked && crates_unpacked),
{
    versions_unpacked && crates_unpacked
}

/// The byte view of an optional chunk.
pub open spec fn spec_opt_bytes(v: Option<Vec<u8>>) -> Option<Seq<u8>> {
    match v {
        Option::Some(d) => Option::Some(d@),
        Option::None => Option::None,
    }
}

/// Law: the bridge never drops data. Whatever one pull serves, followed by
/// what it retained, is exactly what was pending — and a second pull that
/// drains the retained remainder hands the rest out unchanged, in order.
pub proof fn lemma_bridge_no_loss(overflow: Seq<u8>, incoming: Option<Seq<u8>>, buf_len: int)
    requires
        buf_len > 0,
    ensures
        ({
            let (served, kept) = spec_read_step(overflow, incoming, buf_len);
            &&& overflow.len() > 0 ==> served + kept == overflow
            &&& (overflow.len() == 0 && incoming is Some) ==> served + kept == incoming->Some_0
        }),
        ({
            let (served, kept) = spec_read_step(overflow, incoming, buf_len);
            let (served2, kept2) = spec_read_step(kept, Option::None, kept.len() as int + 1);
            kept.len() > 0 ==> served + served2 + kept2 == served + kept
        }),
{
    let (served, kept) = spec_read_step(overflow, incoming, buf_len);
    if overflow.len() > 0 {
        assert(served + kept =~= overflow);
    } else if incoming is Some {
        let data = incoming->Some_0;
        assert(served + kept =~= data);
    }
    let (served2, kept2) = spec_read_step(kept, Option::None, kept.len() as int + 1);
    if kept.len() > 0 {
        assert(served + served2 + kept2 =~= served + kept);
    }
}

/// What any number of further pulls serves and retains: each pull takes
/// the next buffer's worth of the carried-over bytes.
pub open spec fn spec_drain(overflow: Seq<u8>, buf_lens: Seq<int>) -> (Seq<u8>, Seq<u8>)
    decreases buf_lens.len(),
{
    if buf_lens.len() == 0 {
        (Seq::empty(), overflow)
    } else {
        let first = spec_read_step(overflow, Option::None, buf_lens[0]);
        let rest = spec_drain(first.1, buf_lens.drop_first());
        (first.0 + rest.0, rest.1)
    }
}

/// Law: a partially consumed chunk is delivered in full, in order, across
/// any pattern of later buffer sizes — the concatenation of everything the
/// pulls serve, followed by what is still retained, is exactly the
/// carried-over bytes.
pub proof fn lemma_bridge_drain_conserves(overflow: Seq<u8>, buf_lens: Seq<int>)
    requires
        forall|i: int| 0 <= i < buf_lens.len() ==> #[trigger] buf_lens[i] >= 0,
    ensures
        spec_drain(overflow, buf_lens).0 + spec_drain(overflow, buf_lens).1 == overflow,
    decreases buf_lens.len(),
{
    if buf_lens.len() == 0 {
        assert(spec_drain(overflow, buf_lens).0 + overflow =~= overflow);
    } else {
        let first = spec_read_step(overflow, Option::None, buf_lens[0]);
        assert(first.0 + first.1 =~= overflow);
        lemma_bridge_drain_conserves(first.1, buf_lens.drop_first());
        let rest = spec_drain(first.1, buf_lens.drop_first());
        assert((first.0 + rest.0) + rest.1 =~= first.0 + (rest.0 + rest.1));
    }
}

} // verus!
