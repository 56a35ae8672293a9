//! The resource cache behind the Lua-scripted engine's world: canonical
//! data for all paths pointing to the same entity.
//!
//! Each canonicalized path owns one slot whose "interpret as text" and
//! "read as bytes" outcomes are computed at most once and then served from
//! the cache forever — failures included.

use vstd::prelude::*;

use crate::buffer::{share, Buffer};
use crate::canon::{normalize, spec_normalize};
use crate::text::{decode_utf8, str_eq, utf8_of};

verus! {

/// The reasons reading or decoding a resource can fail, uniform over host
/// platforms.
#[derive(Debug, Copy, Clone, Eq, PartialEq, Hash, Structural)]
pub enum FileError {
    /// The path names nothing.
    NotFound,
    /// The host refused access.
    AccessDenied,
    /// The path names a directory.
    IsDirectory,
    /// The bytes are not valid text.
    InvalidUtf8,
    /// Any other I/O failure.
    Other,
}

/// A stable handle into the append-only table of interned text resources.
#[derive(Debug, Copy, Clone, Eq, PartialEq, Hash, Structural)]
pub struct SourceId(pub u16);

impl SourceId {
    /// Create a source id from a raw number.
    pub fn from_u16(v: u16) -> (r: Self)
        ensures
            r == SourceId(v),
    {
        SourceId(v)
    }

    /// The raw number of this id.
    pub fn into_u16(self) -> (r: u16)
        ensures
            r == self.0,
    {
        self.0
    }
}

/// An interned text resource: its id, the canonical path it was read from,
/// and its decoded text.
#[derive(Debug)]
pub struct Source {
    /// The resource's id: its index in the table.
    pub id: SourceId,
    /// The canonical path the text was read from.
    pub path: String,
    /// The decoded text.
    pub text: String,
}

/// The filesystem seam of the cache. The host implements it; errors arrive
/// already classified into the `FileError` taxonomy.
pub trait FileHost {
    /// Whether the path names a directory, or why that cannot be told.
    fn is_dir(&self, path: &str) -> Result<bool, FileError>;

    /// The bytes of the file at the path, or why they cannot be read.
    fn read(&self, path: &str) -> Result<Vec<u8>, FileError>;
}

/// Holds the memoized outcomes for one canonical path.
pub struct PathSlot {
    /// The canonical path this slot belongs to.
    pub key: String,
    /// The memoized outcome of interpreting the path as a text resource.
    pub source: Option<Result<SourceId, FileError>>,
    /// The memoized outcome of reading the path as raw bytes.
    pub buffer: Option<Result<Buffer, FileError>>,
}

/// The first slot carrying a canonical path, if any.
pub open spec fn spec_slot(paths: Seq<PathSlot>, key: Seq<char>) -> Option<PathSlot>
    decreases paths.len(),
{
    if paths.len() == 0 {
        None
    } else if paths[0].key@ == key {
        Some(paths[0])
    } else {
        spec_slot(paths.drop_first(), key)
    }
}

/// A byte outcome, by the character of its content.
pub open spec fn bytes_view(o: Result<Vec<u8>, FileError>) -> Result<Seq<u8>, FileError> {
    match o {
        Ok(b) => Ok(b@),
        Err(e) => Err(e),
    }
}

/// A buffer outcome, by the character of its content.
pub open spec fn buffer_view(o: Result<Buffer, FileError>) -> Result<Seq<u8>, FileError> {
    match o {
        Ok(b) => Ok(b@),
        Err(e) => Err(e),
    }
}

/// What the cache decides from a stat outcome: a failed stat is passed on,
/// a directory is refused, a plain file may be read.
pub open spec fn spec_stat_gate(stat: Result<bool, FileError>) -> Option<FileError> {
    match stat {
        Err(e) => Some(e),
        Ok(true) => Some(FileError::IsDirectory),
        Ok(false) => None,
    }
}

/// Decide from a stat outcome whether reading may proceed, and with which
/// error it is cut short.
pub fn stat_gate(stat: Result<bool, FileError>) -> (r: Option<FileError>)
    ensures
        r == spec_stat_gate(stat),
{
    match stat {
        Err(e) => Some(e),
        Ok(true) => Some(FileError::IsDirectory),
        Ok(false) => None,
    }
}

/// The byte outcome of a gated read: the stat gate's error when it trips,
/// else whatever the read returned.
pub open spec fn spec_read_gate(stat: Result<bool, FileError>, rd: Result<Seq<u8>, FileError>) -> Result<
    Seq<u8>,
    FileError,
> {
    match spec_stat_gate(stat) {
        Some(e) => Err(e),
        None => rd,
    }
}

/// The text outcome the cache derives from one gated read outcome: a
/// failure passes through, undecodable bytes fail with `InvalidUtf8`, and
/// decodable text interns under the next dense id — `Other` when the id
/// space is exhausted.
pub open spec fn spec_intern(count: int, bytes: Result<Seq<u8>, FileError>) -> Result<
    SourceId,
    FileError,
> {
    match bytes {
        Err(e) => Err(e),
        Ok(b) => if utf8_of(b) is None {
            Err(FileError::InvalidUtf8)
        } else if count >= 0xffff {
            Err(FileError::Other)
        } else {
            Ok(SourceId(count as u16))
        },
    }
}

/// A text outcome is the intern pipeline applied to some gated read
/// outcome.
pub open spec fn spec_text_pipeline(count: int, r: Result<SourceId, FileError>) -> bool {
    exists|stat: Result<bool, FileError>, rd: Result<Seq<u8>, FileError>|
        #![trigger spec_read_gate(stat, rd)]
        r == spec_intern(count, spec_read_gate(stat, rd))
}

/// A byte outcome is some gated read outcome, its bytes passed through
/// unchanged.
pub open spec fn spec_bytes_pipeline(r: Result<Buffer, FileError>) -> bool {
    exists|stat: Result<bool, FileError>, rd: Result<Seq<u8>, FileError>|
        #![trigger spec_read_gate(stat, rd)]
        buffer_view(r) == spec_read_gate(stat, rd)
}

/// Read a file through the host, as the cache interprets reading: the
/// result is the gated read of the host's stat and read answers.
fn read_file<H: FileHost>(host: &H, path: &str) -> (r: Result<Vec<u8>, FileError>)
    ensures
        exists|stat: Result<bool, FileError>, rd: Result<Seq<u8>, FileError>|
            #![trigger spec_read_gate(stat, rd)]
            bytes_view(r) == spec_read_gate(stat, rd),
{
    let stat = host.is_dir(path);
    match stat_gate(stat) {
        Some(e) => {
            proof {
                assert(bytes_view(Err::<Vec<u8>, FileError>(e)) == spec_read_gate(
                    stat,
                    Err::<Seq<u8>, FileError>(e),
                ));
            }
            Err(e)
        },
        None => {
            let rd = host.read(path);
            proof {
                assert(bytes_view(rd) == spec_read_gate(stat, bytes_view(rd)));
            }
            rd
        },
    }
}

/// Intern one byte outcome as a text resource: errors and undecodable
/// bytes are passed to the caller as `spec_intern` states, decodable text
/// is appended to the source table under the given canonical path and the
/// next dense id.
pub fn intern_outcome(sources: &mut Vec<Source>, key: &str, outcome: Result<Vec<u8>, FileError>) -> (r:
    Result<SourceId, FileError>)
    ensures
        r == spec_intern(old(sources)@.len() as int, bytes_view(outcome)),
        match r {
            Ok(id) => {
                &&& final(sources)@.len() == old(sources)@.len() + 1
                &&& forall|i: int|
                    0 <= i < old(sources)@.len() ==> #[trigger] final(sources)@[i] == old(
                        sources,
                    )@[i]
                &&& final(sources)@.last().id == id
                &&& final(sources)@.last().path@ == key@
                &&& (outcome matches Ok(b) && utf8_of(b@) == Some(final(sources)@.last().text@))
            },
            Err(_) => *final(sources) == *old(sources),
        },
{
    match outcome {
        Err(e) => Err(e),
        Ok(bytes) => {
            let ghost gbytes = bytes@;
            match decode_utf8(bytes) {
                None => Err(FileError::InvalidUtf8),
                Some(text) => {
                    if sources.len() >= 0xffffusize {
                        Err(FileError::Other)
                    } else {
                        let id = SourceId(sources.len() as u16);
                        proof {
                            assert(utf8_of(gbytes) == Some(text@));
                        }
                        sources.push(Source { id, path: key.to_owned(), text });
                        Ok(id)
                    }
                },
            }
        },
    }
}

/// Wrap one byte outcome as a shareable buffer outcome, the bytes passed
/// through unchanged.
pub fn buffer_outcome(outcome: Result<Vec<u8>, FileError>) -> (r: Result<Buffer, FileError>)
    ensures
        buffer_view(r) == bytes_view(outcome),
{
    match outcome {
        Ok(b) => Ok(std::rc::Rc::new(b)),
        Err(e) => Err(e),
    }
}

/// The world the engine resolves resources through: an append-only table
/// of interned text resources and one memoization slot per canonical path.
pub struct LuaWorld<H: FileHost> {
    /// The filesystem seam all bytes arrive through.
    pub host: H,
    /// The interned text resources, in interning order; never shrinks.
    pub sources: Vec<Source>,
    /// One slot per canonical path seen so far.
    pub paths: Vec<PathSlot>,
}

impl<H: FileHost> LuaWorld<H> {
    /// Ids are dense indices into the source table, slot keys are unique,
    /// and every memoized id points into the table.
    pub open spec fn wf(self) -> bool {
        &&& self.sources@.len() <= 0xffff
        &&& forall|i: int|
            0 <= i < self.sources@.len() ==> (#[trigger] self.sources@[i]).id == SourceId(i as u16)
        &&& forall|j1: int, j2: int|
            0 <= j1 < j2 < self.paths@.len() ==> (#[trigger] self.paths@[j1]).key@ != (
            #[trigger] self.paths@[j2]).key@
        &&& forall|j: int|
            0 <= j < self.paths@.len() ==> ((#[trigger] self.paths@[j]).source matches Some(res)
                ==> (res matches Ok(id) ==> id.0 < self.sources@.len()))
    }

    /// The memoized text outcome stored under a canonical path, if any.
    pub open spec fn source_slot_of(self, key: Seq<char>) -> Option<Result<SourceId, FileError>> {
        match spec_slot(self.paths@, key) {
            Some(slot) => slot.source,
            None => None,
        }
    }

    /// The memoized byte outcome stored under a canonical path, if any.
    pub open spec fn buffer_slot_of(self, key: Seq<char>) -> Option<Result<Buffer, FileError>> {
        match spec_slot(self.paths@, key) {
            Some(slot) => slot.buffer,
            None => None,
        }
    }

    /// Create an empty world over a host.
    pub fn new(host: H) -> (r: Self)
        ensures
            r.wf(),
            r.sources@.len() == 0,
            r.paths@.len() == 0,
            r.host == host,
    {
        LuaWorld { host, sources: Vec::new(), paths: Vec::new() }
    }

    /// Get an interned text resource by its id.
    ///
    /// Callers must only pass ids handed out by this world's `resolve`.
    pub fn source(&self, id: SourceId) -> (r: &Source)
        requires
            self.wf(),
            id.0 < self.sources@.len(),
        ensures
            *r == self.sources@[id.0 as int],
    {
        &self.sources[id.0 as usize]
    }

    /// The index of the slot for a key, creating the slot if the key is
    /// new; the rest of the table is untouched.
    fn slot_index(&mut self, key: String) -> (e: usize)
        requires
            old(self).wf(),
        ensures
            final(self).wf(),
            final(self).host == old(self).host,
            final(self).sources == old(self).sources,
            e < final(self).paths@.len(),
            final(self).paths@[e as int].key@ == key@,
            forall|j: int| 0 <= j < e ==> final(self).paths@[j].key@ != key@,
            spec_slot(final(self).paths@, key@) == Some(final(self).paths@[e as int]),
            forall|j: int|
                0 <= j < old(self).paths@.len() ==> final(self).paths@[j] == old(self).paths@[j],
            old(self).paths@.len() <= final(self).paths@.len() <= old(self).paths@.len() + 1,
            forall|k2: Seq<char>|
                k2 != key@ ==> #[trigger] spec_slot(final(self).paths@, k2) == spec_slot(
                    old(self).paths@,
                    k2,
                ),
            spec_slot(old(self).paths@, key@) is Some ==> final(self).paths == old(self).paths,
            spec_slot(old(self).paths@, key@) is None ==> {
                &&& final(self).paths@.len() == old(self).paths@.len() + 1
                &&& e == old(self).paths@.len()
                &&& final(self).paths@[e as int].source is None
                &&& final(self).paths@[e as int].buffer is None
            },
    {
        let n = self.paths.len();
        let ghost pre = *self;
        proof {
            assert(self.paths@.skip(0) =~= self.paths@);
        }
        for e in 0..n
            invariant
                *self == pre,
                pre == *old(self),
                pre.wf(),
                n == self.paths@.len(),
                spec_slot(self.paths@, key@) == spec_slot(self.paths@.skip(e as int), key@),
                forall|j: int| 0 <= j < e ==> self.paths@[j].key@ != key@,
        {
            proof {
                assert(self.paths@.skip(e as int)[0] == self.paths@[e as int]);
                assert(self.paths@.skip(e as int).drop_first() =~= self.paths@.skip(e + 1));
            }
            if str_eq(self.paths[e].key.as_str(), key.as_str()) {
                return e;
            }
        }
        proof {
            assert(self.paths@.skip(n as int).len() == 0);
        }
        let ghost old_paths = self.paths@;
        self.paths.push(PathSlot { key, source: None, buffer: None });
        proof {
            let g = self.paths@[n as int];
            assert(self.paths@ =~= old_paths.push(g));
            lemma_slot_push(old_paths, g, g.key@);
            lemma_slot_none(old_paths, g.key@);
            assert forall|k2: Seq<char>| k2 != g.key@ implies spec_slot(self.paths@, k2)
                == spec_slot(old_paths, k2) by {
                lemma_slot_push(old_paths, g, k2);
            }
        }
        n
    }

    /// Canonicalize a path and return its interned text resource,
    /// computing it at most once.
    ///
    /// The first call for a canonical path stats, reads, decodes and
    /// interns; every later call returns the remembered outcome — success
    /// or failure — without touching the host again. The byte slot of the
    /// path and every other slot are untouched, and the source table only
    /// ever grows.
    pub fn resolve(&mut self, path: &str) -> (r: Result<SourceId, FileError>)
        requires
            old(self).wf(),
        ensures
            final(self).wf(),
            final(self).host == old(self).host,
            ({
                let key = spec_normalize(path@);
                match old(self).source_slot_of(key) {
                    Some(res) => r == res && *final(self) == *old(self),
                    None => {
                        &&& final(self).source_slot_of(key) == Some(r)
                        &&& final(self).buffer_slot_of(key) == old(self).buffer_slot_of(key)
                        &&& forall|k2: Seq<char>|
                            k2 != key ==> #[trigger] final(self).source_slot_of(k2) == old(
                                self,
                            ).source_slot_of(k2) && #[trigger] final(self).buffer_slot_of(k2)
                                == old(self).buffer_slot_of(k2)
                        &&& (match r {
                            Ok(id) => {
                                &&& id == SourceId(old(self).sources@.len() as u16)
                                &&& final(self).sources@.len() == old(self).sources@.len() + 1
                                &&& final(self).sources@[id.0 as int].path@ == key
                                &&& exists|bytes: Seq<u8>|
                                    utf8_of(bytes) == Some(
                                        final(self).sources@[id.0 as int].text@,
                                    )
                            },
                            Err(_) => final(self).sources == old(self).sources,
                        })
                        &&& spec_text_pipeline(old(self).sources@.len() as int, r)
                        &&& forall|i: int|
                            0 <= i < old(self).sources@.len() ==> final(self).sources@[i] == old(
                                self,
                            ).sources@[i]
                    },
                }
            }),
    {
        let key = normalize(path);
        let e = self.slot_index(key);
        match &self.paths[e].source {
            Some(res) => {
                return *res;
            },
            None => {},
        }
        let raw = read_file(&self.host, self.paths[e].key.as_str());
        let ghost graw = raw;
        let ghost count = self.sources@.len() as int;
        let outcome = intern_outcome(&mut self.sources, self.paths[e].key.as_str(), raw);
        proof {
            let (stat, rd) = choose|stat: Result<bool, FileError>, rd: Result<Seq<u8>, FileError>|
                #![trigger spec_read_gate(stat, rd)]
                bytes_view(graw) == spec_read_gate(stat, rd);
            assert(outcome == spec_intern(count, spec_read_gate(stat, rd)));
            assert(spec_text_pipeline(count, outcome));
        }
        let ghost old_paths = self.paths@;
        let slot = &mut self.paths[e];
        slot.source = Some(outcome);
        proof {
            let g = self.paths@[e as int];
            assert(self.paths@ =~= old_paths.update(e as int, g));
            lemma_slot_update_first(old_paths, e as int, g);
            assert forall|k2: Seq<char>| k2 != g.key@ implies spec_slot(self.paths@, k2)
                == spec_slot(old_paths, k2) by {
                lemma_slot_update_other(old_paths, e as int, g, k2);
            }
            let key = spec_normalize(path@);
            assert(self.source_slot_of(key) == Some(outcome));
            assert(self.buffer_slot_of(key) == old(self).buffer_slot_of(key));
            assert(forall|k2: Seq<char>|
                k2 != key ==> #[trigger] self.source_slot_of(k2) == old(self).source_slot_of(k2)
                    && #[trigger] self.buffer_slot_of(k2) == old(self).buffer_slot_of(k2));
            assert(match outcome {
                Ok(id) => {
                    &&& id == SourceId(old(self).sources@.len() as u16)
                    &&& self.sources@.len() == old(self).sources@.len() + 1
                    &&& self.sources@[id.0 as int].path@ == key
                    &&& exists|bytes: Seq<u8>|
                        utf8_of(bytes) == Some(self.sources@[id.0 as int].text@)
                },
                Err(_) => self.sources == old(self).sources,
            });
            assert(forall|i: int|
                0 <= i < old(self).sources@.len() ==> self.sources@[i] == old(self).sources@[i]);
            assert(self.wf());
        }
        outcome
    }

    /// Canonicalize a path and return its raw bytes, reading them at most
    /// once.
    ///
    /// The same memoization discipline as `resolve`, under the slot's
    /// independent byte field: the text slot of the path, every other
    /// slot, and the source table are untouched.
    pub fn file(&mut self, path: &str) -> (r: Result<Buffer, FileError>)
        requires
            old(self).wf(),
        ensures
            final(self).wf(),
            final(self).host == old(self).host,
            final(self).sources == old(self).sources,
            ({
                let key = spec_normalize(path@);
                match old(self).buffer_slot_of(key) {
                    Some(res) => r == res && *final(self) == *old(self),
                    None => {
                        &&& final(self).buffer_slot_of(key) == Some(r)
                        &&& final(self).source_slot_of(key) == old(self).source_slot_of(key)
                        &&& spec_bytes_pipeline(r)
                        &&& forall|k2: Seq<char>|
                            k2 != key ==> #[trigger] final(self).source_slot_of(k2) == old(
                                self,
                            ).source_slot_of(k2) && #[trigger] final(self).buffer_slot_of(k2)
                                == old(self).buffer_slot_of(k2)
                    },
                }
            }),
    {
        let key = normalize(path);
        let e = self.slot_index(key);
        match &self.paths[e].buffer {
            Some(res) => {
                return match res {
                    Ok(rc) => Ok(share(rc)),
                    Err(err) => Err(*err),
                };
            },
            None => {},
        }
        let raw = read_file(&self.host, self.paths[e].key.as_str());
        let ghost graw = raw;
        let outcome = buffer_outcome(raw);
        proof {
            let (stat, rd) = choose|stat: Result<bool, FileError>, rd: Result<Seq<u8>, FileError>|
                #![trigger spec_read_gate(stat, rd)]
                bytes_view(graw) == spec_read_gate(stat, rd);
            assert(buffer_view(outcome) == spec_read_gate(stat, rd));
            assert(spec_bytes_pipeline(outcome));
        }
        let stored: Result<Buffer, FileError> = match &outcome {
            Ok(rc) => Ok(share(rc)),
            Err(err) => Err(*err),
        };
        let ghost old_paths = self.paths@;
        let slot = &mut self.paths[e];
        slot.buffer = Some(stored);
        proof {
            let g = self.paths@[e as int];
            assert(self.paths@ =~= old_paths.update(e as int, g));
            lemma_slot_update_first(old_paths, e as int, g);
            assert forall|k2: Seq<char>| k2 != g.key@ implies spec_slot(self.paths@, k2)
                == spec_slot(old_paths, k2) by {
                lemma_slot_update_other(old_paths, e as int, g, k2);
            }
        }
        outcome
    }
}

/// Two spellings with one canonical form share one slot, so their memoized
/// outcomes — text and bytes alike — always coincide.
pub proof fn lemma_canonical_sharing<H: FileHost>(w: LuaWorld<H>, p1: Seq<char>, p2: Seq<char>)
    requires
        spec_normalize(p1) == spec_normalize(p2),
    ensures
        w.source_slot_of(spec_normalize(p1)) == w.source_slot_of(spec_normalize(p2)),
        w.buffer_slot_of(spec_normalize(p1)) == w.buffer_slot_of(spec_normalize(p2)),
{
}

/// A key that resolves to nothing is carried by no slot.
proof fn lemma_slot_none(paths: Seq<PathSlot>, key: Seq<char>)
    requires
        spec_slot(paths, key) is None,
    ensures
        forall|j: int| 0 <= j < paths.len() ==> (#[trigger] paths[j]).key@ != key,
    decreases paths.len(),
{
    if paths.len() > 0 {
        lemma_slot_none(paths.drop_first(), key);
        assert forall|j: int| 0 <= j < paths.len() implies (#[trigger] paths[j]).key@ != key by {
            if j > 0 {
                assert(paths.drop_first()[j - 1] == paths[j]);
            }
        }
    }
}

/// Looking a key up after pushing a slot: a listed key keeps its slot, the
/// new slot's key resolves to it when it was unlisted, and everything else
/// stays unlisted.
proof fn lemma_slot_push(paths: Seq<PathSlot>, g: PathSlot, key: Seq<char>)
    ensures
        spec_slot(paths.push(g), key) == {
            if spec_slot(paths, key) is Some {
                spec_slot(paths, key)
            } else if g.key@ == key {
                Some(g)
            } else {
                None
            }
        },
    decreases paths.len(),
{
    if paths.len() == 0 {
        assert(paths.push(g).drop_first() =~= Seq::<PathSlot>::empty());
    } else {
        assert(paths.push(g).drop_first() =~= paths.drop_first().push(g));
        lemma_slot_push(paths.drop_first(), g, key);
    }
}

/// Replacing the first slot of a key: that key resolves to the
/// replacement.
proof fn lemma_slot_update_first(paths: Seq<PathSlot>, e: int, g: PathSlot)
    requires
        0 <= e < paths.len(),
        g.key@ == paths[e].key@,
        forall|j: int| 0 <= j < e ==> paths[j].key@ != paths[e].key@,
    ensures
        spec_slot(paths.update(e, g), g.key@) == Some(g),
    decreases e,
{
    if e == 0 {
        assert(paths.update(0, g)[0] == g);
    } else {
        assert(paths.update(e, g)[0] == paths[0]);
        assert(paths.update(e, g).drop_first() =~= paths.drop_first().update(e - 1, g));
        lemma_slot_update_first(paths.drop_first(), e - 1, g);
    }
}

/// Replacing a slot whose key stays put: every other key resolves as
/// before.
proof fn lemma_slot_update_other(paths: Seq<PathSlot>, e: int, g: PathSlot, key: Seq<char>)
    requires
        0 <= e < paths.len(),
        g.key@ == paths[e].key@,
        key != g.key@,
    ensures
        spec_slot(paths.update(e, g), key) == spec_slot(paths, key),
    decreases e,
{
    if e == 0 {
        assert(paths.update(0, g)[0] == g);
        assert(paths.update(0, g).drop_first() =~= paths.drop_first());
    } else {
        assert(paths.update(e, g)[0] == paths[0]);
        assert(paths.update(e, g).drop_first() =~= paths.drop_first().update(e - 1, g));
        lemma_slot_update_other(paths.drop_first(), e - 1, g, key);
    }
}

} // verus!
