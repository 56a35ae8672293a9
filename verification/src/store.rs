//! Storage for loaded and parsed font faces.

use vstd::prelude::*;

use std::collections::HashMap;
use std::rc::Rc;

use crate::buffer::share;
use crate::face::{Face, FaceInfo};
use crate::text::{lower_of, lowercase, str_eq};
use crate::variant::{stretch_distance, weight_distance, FontVariant};

verus! {

broadcast use vstd::std_specs::hash::group_hash_axioms;

/// A hash identifying a file's contents; two paths that reach the same
/// file resolve to the same hash.
pub type FileHash = u64;

/// A unique identifier for a loaded font face: a dense index into the
/// store's face table, assigned at store construction and never reused.
#[derive(Debug, Copy, Clone, Eq, PartialEq, Hash, Structural)]
pub struct FaceId(pub u32);

impl FaceId {
    /// Create a face id from the raw underlying value.
    ///
    /// This should only be called with values returned by
    /// [`into_raw`](Self::into_raw).
    pub fn from_raw(v: u32) -> (r: Self)
        ensures
            r == FaceId(v),
    {
        FaceId(v)
    }

    /// Convert into the raw underlying value.
    pub fn into_raw(self) -> (r: u32)
        ensures
            r == self.0,
    {
        self.0
    }
}

/// The loading seam of the font store. The host implements it; the store
/// never touches a filesystem itself, so all bytes arrive through these
/// three methods.
pub trait Loader {
    /// The descriptors of all known faces, in registration order.
    fn faces(&self) -> Vec<FaceInfo>;

    /// Resolve a path to a hash of the file it denotes, or `None` when the
    /// path cannot be resolved.
    fn resolve(&self, path: &str) -> Option<FileHash>;

    /// Load the bytes of the file at a path, or `None` when reading fails.
    fn load(&self, path: &str) -> Option<Vec<u8>>;
}

/// A single-subscriber hook, invoked once per newly loaded face within the
/// triggering `select` call.
pub trait FontObserver {
    /// Called with each face right after the store loads it.
    fn loaded(&mut self, id: FaceId, face: &Face);
}

/// An observer that ignores every load.
pub struct NoObserver;

impl FontObserver for NoObserver {
    fn loaded(&mut self, _id: FaceId, _face: &Face) {
    }
}

/// The face ids registered under one lower-cased family name, in
/// registration order.
pub struct FamilyEntry {
    /// The lower-cased family name.
    pub name: String,
    /// The ids of the family's faces, in registration order.
    pub ids: Vec<FaceId>,
}

/// The ids listed under a name: those of the first entry carrying it.
pub open spec fn spec_family_ids(families: Seq<FamilyEntry>, name: Seq<char>) -> Option<
    Seq<FaceId>,
>
    decreases families.len(),
{
    if families.len() == 0 {
        None
    } else if families[0].name@ == name {
        Some(families[0].ids@)
    } else {
        spec_family_ids(families.drop_first(), name)
    }
}

/// The tie-break key of a candidate variant against a request: a style
/// mismatch dominates, then stretch distance, then weight distance.
pub open spec fn spec_key(c: FontVariant, v: FontVariant) -> (bool, int, int) {
    (c.style != v.style, stretch_distance(c.stretch, v.stretch), weight_distance(c.weight, v.weight))
}

/// Lexicographic order on tie-break keys; a matching style sorts first.
pub open spec fn key_lt(a: (bool, int, int), b: (bool, int, int)) -> bool {
    if a.0 != b.0 {
        !a.0
    } else if a.1 != b.1 {
        a.1 < b.1
    } else {
        a.2 < b.2
    }
}

/// The state of the selection scan after some candidates: the best
/// candidate so far with its key, when one was scored.
pub open spec fn opt_cur(b: Option<FaceId>, k: Option<(bool, u16, u16)>) -> Option<
    (FaceId, (bool, int, int)),
> {
    match (b, k) {
        (Some(id), Some(kk)) => Some((id, (kk.0, kk.1 as int, kk.2 as int))),
        _ => None,
    }
}

/// The candidate the selection scan ends on, starting at position `i` with
/// the best scored candidate `cur`: the first exact variant match wins
/// outright, otherwise the first candidate with the strictly smallest key.
pub open spec fn spec_best_from(
    infos: Seq<FaceInfo>,
    ids: Seq<FaceId>,
    v: FontVariant,
    i: int,
    cur: Option<(FaceId, (bool, int, int))>,
) -> Option<FaceId>
    decreases ids.len() - i,
{
    if i < 0 || i >= ids.len() {
        match cur {
            Some(c) => Some(c.0),
            None => None,
        }
    } else {
        let c = infos[ids[i].0 as int].variant;
        if c == v {
            Some(ids[i])
        } else {
            let k = spec_key(c, v);
            let next = match cur {
                Some(c0) => if key_lt(k, c0.1) {
                    Some((ids[i], k))
                } else {
                    cur
                },
                None => Some((ids[i], k)),
            };
            spec_best_from(infos, ids, v, i + 1, next)
        }
    }
}

/// How a load leaves the buffer cache: either the loaded buffer went in
/// under a fresh hash, or it is the very buffer already cached under some
/// hash — never a second copy of cached bytes.
pub open spec fn spec_cache_extended(
    pre: Map<FileHash, Rc<Vec<u8>>>,
    post: Map<FileHash, Rc<Vec<u8>>>,
    buf: Rc<Vec<u8>>,
) -> bool {
    exists|h: FileHash|
        #![trigger pre.contains_key(h)]
        {
            ||| (!pre.contains_key(h) && post == pre.insert(h, buf))
            ||| (pre.contains_key(h) && post == pre && buf == pre[h])
        }
}

/// How much of a descriptor list fits under the dense `u32` face ids.
pub open spec fn catalog_cap(n: int) -> int {
    if n <= 0xffff_ffff {
        n
    } else {
        0xffff_ffff
    }
}

/// The candidate `select` picks among the ids of a family.
pub open spec fn spec_best(infos: Seq<FaceInfo>, ids: Seq<FaceId>, v: FontVariant) -> Option<
    FaceId,
> {
    spec_best_from(infos, ids, v, 0, None)
}

/// Lexicographic comparison of two executable tie-break keys.
fn key_less(a: (bool, u16, u16), b: (bool, u16, u16)) -> (r: bool)
    ensures
        r == key_lt((a.0, a.1 as int, a.2 as int), (b.0, b.1 as int, b.2 as int)),
{
    if a.0 != b.0 {
        !a.0
    } else if a.1 != b.1 {
        a.1 < b.1
    } else {
        a.2 < b.2
    }
}

/// The first entry carrying a name, if any.
fn find_family_entry(families: &Vec<FamilyEntry>, name: &str) -> (r: Option<usize>)
    ensures
        match r {
            Some(e) => {
                &&& e < families@.len()
                &&& families@[e as int].name@ == name@
                &&& forall|j: int| 0 <= j < e ==> families@[j].name@ != name@
                &&& spec_family_ids(families@, name@) == Some(families@[e as int].ids@)
            },
            None => spec_family_ids(families@, name@) is None,
        },
{
    let n = families.len();
    proof {
        assert(families@.skip(0) =~= families@);
    }
    for e in 0..n
        invariant
            n == families@.len(),
            spec_family_ids(families@, name@) == spec_family_ids(families@.skip(e as int), name@),
            forall|j: int| 0 <= j < e ==> families@[j].name@ != name@,
    {
        proof {
            assert(families@.skip(e as int)[0] == families@[e as int]);
            assert(families@.skip(e as int).drop_first() =~= families@.skip(e + 1));
        }
        if str_eq(families[e].name.as_str(), name) {
            return Some(e);
        }
    }
    proof {
        assert(families@.skip(n as int).len() == 0);
    }
    None
}

/// Storage for loaded and parsed font faces.
///
/// The catalog of descriptors and the family index are fixed at
/// construction; face slots fill in lazily as `select` loads them, and
/// decoded buffers are cached by content hash so faces sharing a file
/// share one buffer.
pub struct FontStore<L: Loader, O: FontObserver> {
    /// The loading seam all bytes arrive through.
    pub loader: L,
    /// The catalog: one descriptor per face, as the loader enumerated them.
    pub infos: Vec<FaceInfo>,
    /// One slot per face id; empty until the face is first selected.
    pub faces: Vec<Option<Face>>,
    /// The family index: ids grouped by lower-cased family name.
    pub families: Vec<FamilyEntry>,
    /// Decoded buffers keyed by content hash.
    pub buffers: HashMap<FileHash, Rc<Vec<u8>>>,
    /// The observer to invoke once per newly loaded face.
    pub observer: Option<O>,
}

impl<L: Loader, O: FontObserver> FontStore<L, O> {
    /// One slot per descriptor, every listed id in range, and every loaded
    /// face consistent with its raw table entries.
    pub open spec fn wf(self) -> bool {
        &&& self.faces@.len() == self.infos@.len()
        &&& self.infos@.len() <= 0xffff_ffff
        &&& forall|e: int, k: int|
            0 <= e < self.families@.len() && 0 <= k < self.families@[e].ids@.len()
                ==> (#[trigger] self.families@[e].ids@[k]).0 < self.infos@.len()
        &&& forall|i: int|
            0 <= i < self.faces@.len() ==> ((#[trigger] self.faces@[i]) matches Some(f)
                ==> f.wf())
    }

    /// The family index lists exactly the catalog, grouped by lower-cased
    /// family name, in registration order, one entry per name.
    pub open spec fn families_index(self) -> bool {
        &&& forall|e: int, k: int|
            0 <= e < self.families@.len() && 0 <= k < self.families@[e].ids@.len() ==> {
                let id = #[trigger] self.families@[e].ids@[k];
                id.0 < self.infos@.len() && lower_of(self.infos@[id.0 as int].family@)
                    == self.families@[e].name@
            }
        &&& forall|i: int|
            0 <= i < self.infos@.len() ==> match spec_family_ids(
                self.families@,
                lower_of((#[trigger] self.infos@[i]).family@),
            ) {
                Some(ids) => ids.contains(FaceId(i as u32)),
                None => false,
            }
        &&& forall|e: int, k1: int, k2: int|
            0 <= e < self.families@.len() && 0 <= k1 < k2 < self.families@[e].ids@.len()
                ==> (#[trigger] self.families@[e].ids@[k1]).0
                < (#[trigger] self.families@[e].ids@[k2]).0
        &&& forall|e1: int, e2: int|
            0 <= e1 < e2 < self.families@.len() ==> (#[trigger] self.families@[e1]).name@ != (
            #[trigger] self.families@[e2]).name@
    }

    /// The candidate that selecting a variant under a (lower-cased) family
    /// name settles on, before any loading.
    pub open spec fn spec_selection(self, key: Seq<char>, v: FontVariant) -> Option<FaceId> {
        match spec_family_ids(self.families@, key) {
            Some(ids) => spec_best(self.infos@, ids, v),
            None => None,
        }
    }

    /// Create a new font store over a loader: take the loader's catalog
    /// and hand it to `from_catalog`.
    pub fn new(loader: L) -> (r: Self)
        ensures
            r.wf(),
            r.families_index(),
            forall|i: int| 0 <= i < r.faces@.len() ==> (#[trigger] r.faces@[i]) is None,
            r.observer is None,
            r.buffers@.len() == 0,
            r.loader == loader,
    {
        let infos = loader.faces();
        Self::from_catalog(loader, infos)
    }

    /// Create a font store over a caller-supplied descriptor list: the
    /// store's catalog is exactly that list (truncated at the id limit),
    /// indexed by lower-cased family name, with every slot empty.
    pub fn from_catalog(loader: L, catalog: Vec<FaceInfo>) -> (r: Self)
        ensures
            r.wf(),
            r.families_index(),
            r.infos@ == catalog@.take(catalog_cap(catalog@.len() as int)),
            forall|i: int| 0 <= i < r.faces@.len() ==> (#[trigger] r.faces@[i]) is None,
            r.observer is None,
            r.buffers@.len() == 0,
            r.loader == loader,
    {
        let mut infos = catalog;
        if infos.len() > 0xffff_ffffusize {
            infos.truncate(0xffff_ffffusize);
        }
        proof {
            assert(infos@ =~= catalog@.take(catalog_cap(catalog@.len() as int)));
        }
        let n = infos.len();
        let mut faces: Vec<Option<Face>> = Vec::new();
        let mut families: Vec<FamilyEntry> = Vec::new();
        let mut i: usize = 0;
        while i < n
            invariant
                n == infos@.len(),
                n <= 0xffff_ffff,
                i <= n,
                faces@.len() == i,
                forall|j: int| 0 <= j < i ==> (#[trigger] faces@[j]) is None,
                forall|e: int, k: int|
                    0 <= e < families@.len() && 0 <= k < families@[e].ids@.len() ==> {
                        let id = #[trigger] families@[e].ids@[k];
                        id.0 < i && lower_of(infos@[id.0 as int].family@) == families@[e].name@
                    },
                forall|j: int|
                    0 <= j < i ==> match spec_family_ids(
                        families@,
                        lower_of((#[trigger] infos@[j]).family@),
                    ) {
                        Some(ids) => ids.contains(FaceId(j as u32)),
                        None => false,
                    },
                forall|e: int, k1: int, k2: int|
                    0 <= e < families@.len() && 0 <= k1 < k2 < families@[e].ids@.len()
                        ==> (#[trigger] families@[e].ids@[k1]).0
                        < (#[trigger] families@[e].ids@[k2]).0,
                forall|e1: int, e2: int|
                    0 <= e1 < e2 < families@.len() ==> (#[trigger] families@[e1]).name@ != (
                    #[trigger] families@[e2]).name@,
            decreases n - i,
        {
            let id = FaceId(i as u32);
            faces.push(None);
            let low = lowercase(infos[i].family.as_str());
            let ghost old_families = families@;
            match find_family_entry(&families, low.as_str()) {
                Some(e) => {
                    let entry = &mut families[e];
                    entry.ids.push(id);
                    proof {
                        let g = families@[e as int];
                        assert(families@ =~= old_families.update(e as int, g));
                        lemma_family_ids_update_first(old_families, e as int, g);
                        assert forall|j: int| 0 <= j < i + 1 implies match spec_family_ids(
                            families@,
                            lower_of((#[trigger] infos@[j]).family@),
                        ) {
                            Some(ids) => ids.contains(FaceId(j as u32)),
                            None => false,
                        } by {
                            let name = lower_of(infos@[j].family@);
                            if name == g.name@ {
                                if j < i {
                                    let old_ids = old_families[e as int].ids@;
                                    assert(spec_family_ids(old_families, name) == Some(old_ids));
                                    assert(g.ids@ == old_ids.push(id));
                                    assert(old_ids.contains(FaceId(j as u32)));
                                    let w = choose|w: int|
                                        0 <= w < old_ids.len() && old_ids[w] == FaceId(j as u32);
                                    assert(g.ids@[w] == FaceId(j as u32));
                                } else {
                                    assert(g.ids@[g.ids@.len() - 1] == id);
                                }
                            } else {
                                lemma_family_ids_update_first_other(
                                    old_families,
                                    e as int,
                                    g,
                                    name,
                                );
                                assert(spec_family_ids(families@, name) == spec_family_ids(
                                    old_families,
                                    name,
                                ));
                                assert(j < i);
                            }
                        }
                    }
                },
                None => {
                    let entry = FamilyEntry { name: low, ids: vec![id] };
                    families.push(entry);
                    proof {
                        let g = families@[families@.len() - 1];
                        assert(families@ =~= old_families.push(g));
                        lemma_family_ids_none(old_families, g.name@);
                        assert forall|j: int| 0 <= j < i + 1 implies match spec_family_ids(
                            families@,
                            lower_of((#[trigger] infos@[j]).family@),
                        ) {
                            Some(ids) => ids.contains(FaceId(j as u32)),
                            None => false,
                        } by {
                            let name = lower_of(infos@[j].family@);
                            lemma_family_ids_push(old_families, g, name);
                            if j == i {
                                assert(spec_family_ids(old_families, g.name@) is None);
                                assert(g.ids@[0] == id);
                            }
                        }
                    }
                },
            }
            i = i + 1;
        }
        FontStore {
            loader,
            infos,
            faces,
            families,
            buffers: HashMap::new(),
            observer: None,
        }
    }

    /// Register the observer that is invoked each time a face is loaded.
    pub fn on_load(&mut self, observer: O)
        ensures
            final(self).observer == Some(observer),
            final(self).loader == old(self).loader,
            final(self).infos == old(self).infos,
            final(self).faces == old(self).faces,
            final(self).families == old(self).families,
            final(self).buffers == old(self).buffers,
    {
        self.observer = Some(observer);
    }

    /// Query for and load the font face from the given `family` (matched
    /// case-insensitively) that most closely matches the given `variant`.
    ///
    /// The chosen candidate is `spec_selection` of the lower-cased family
    /// name: the first exact variant match, else the first candidate with
    /// the smallest tie-break key. `None` comes back exactly when the
    /// family is unknown, it lists no candidate, or loading or parsing the
    /// chosen face fails; a face already loaded is never reloaded and the
    /// store is then left untouched.
    pub fn select(&mut self, family: &str, variant: FontVariant) -> (r: Option<FaceId>)
        requires
            old(self).wf(),
        ensures
            final(self).wf(),
            final(self).loader == old(self).loader,
            final(self).infos == old(self).infos,
            final(self).families == old(self).families,
            forall|h: FileHash|
                #![trigger old(self).buffers@.contains_key(h)]
                #![trigger final(self).buffers@.contains_key(h)]
                old(self).buffers@.contains_key(h) ==> final(self).buffers@.contains_key(h)
                    && final(self).buffers@[h] == old(self).buffers@[h],
            ({
                let chosen = old(self).spec_selection(lower_of(family@), variant);
                match chosen {
                    None => r is None && *final(self) == *old(self),
                    Some(best) => {
                        &&& best.0 < old(self).faces@.len()
                        &&& (r is Some ==> r == Some(best))
                        &&& (old(self).faces@[best.0 as int] is Some ==> r == Some(best)
                            && *final(self) == *old(self))
                        &&& (r is Some <==> final(self).faces@[best.0 as int] is Some)
                        &&& forall|j: int|
                            0 <= j < final(self).faces@.len() && j != best.0 as int
                                ==> final(self).faces@[j] == old(self).faces@[j]
                        &&& (r is None ==> final(self).faces == old(self).faces
                            && final(self).observer == old(self).observer)
                        &&& (r is Some && old(self).faces@[best.0 as int] is None
                            ==> (final(self).faces@[best.0 as int] matches Some(f) && f.wf()
                                && f.backed() && f.index == old(self).infos@[best.0 as int].index
                                && spec_cache_extended(
                                old(self).buffers@,
                                final(self).buffers@,
                                f.buffer,
                            )))
                    },
                }
            }),
    {
        let low = lowercase(family);
        let e = match find_family_entry(&self.families, low.as_str()) {
            Some(e) => e,
            None => {
                return None;
            },
        };
        let ghost ginfos = self.infos@;
        let ghost gids = self.families@[e as int].ids@;
        let best_opt: Option<FaceId> = {
            let ids = &self.families[e].ids;
            let n = ids.len();
            let mut best: Option<FaceId> = None;
            let mut best_key: Option<(bool, u16, u16)> = None;
            let mut exact: bool = false;
            let mut i: usize = 0;
            while i < n && !exact
                invariant
                    self.wf(),
                    e < self.families@.len(),
                    ids@ == self.families@[e as int].ids@,
                    gids == ids@,
                    ginfos == self.infos@,
                    n == ids@.len(),
                    i <= n,
                    !exact ==> (best is Some <==> best_key is Some),
                    best matches Some(b) ==> b.0 < self.infos@.len(),
                    if exact {
                        best is Some && spec_best(self.infos@, ids@, variant) == best
                    } else {
                        spec_best(self.infos@, ids@, variant) == spec_best_from(
                            self.infos@,
                            ids@,
                            variant,
                            i as int,
                            opt_cur(best, best_key),
                        )
                    },
                decreases n - i,
            {
                let id = ids[i];
                assert(id.0 < self.infos@.len());
                let cur = self.infos[id.0 as usize].variant;
                if cur == variant {
                    best = Some(id);
                    exact = true;
                } else {
                    let k = (
                        cur.style != variant.style,
                        cur.stretch.distance(variant.stretch),
                        cur.weight.distance(variant.weight),
                    );
                    let replace = match &best_key {
                        Some(bk) => key_less(k, *bk),
                        None => true,
                    };
                    if replace {
                        best = Some(id);
                        best_key = Some(k);
                    }
                }
                i = i + 1;
            }
            best
        };
        let best_id = match best_opt {
            Some(b) => b,
            None => {
                return None;
            },
        };
        let idx = best_id.0 as usize;
        if self.faces[idx].is_some() {
            return Some(best_id);
        }
        let hash = match self.loader.resolve(self.infos[idx].path.as_str()) {
            Some(h) => h,
            None => {
                return None;
            },
        };
        let buffer: Rc<Vec<u8>> = if self.buffers.contains_key(&hash) {
            let b = match self.buffers.get(&hash) {
                Some(b) => b,
                None => unreached(),
            };
            share(b)
        } else {
            let bytes = match self.loader.load(self.infos[idx].path.as_str()) {
                Some(b) => b,
                None => {
                    return None;
                },
            };
            let rc = Rc::new(bytes);
            let shared = share(&rc);
            self.buffers.insert(hash, shared);
            rc
        };
        let face = match Face::new(buffer, self.infos[idx].index) {
            Some(f) => f,
            None => {
                return None;
            },
        };
        if let Some(obs) = &mut self.observer {
            obs.loaded(best_id, &face);
        }
        self.faces.set(idx, Some(face));
        proof {
            if old(self).buffers@.contains_key(hash) {
                assert(self.faces@[idx as int] matches Some(f) && self.buffers == old(self).buffers
                    && f.buffer == old(self).buffers@[hash]);
            } else {
                assert(self.faces@[idx as int] matches Some(f) && self.buffers@ == old(
                    self,
                ).buffers@.insert(hash, f.buffer));
            }
            assert(self.faces@[idx as int] matches Some(f) && spec_cache_extended(
                old(self).buffers@,
                self.buffers@,
                f.buffer,
            ));
        }
        Some(best_id)
    }

    /// Get a reference to a loaded face.
    ///
    /// Callers must only pass ids for which a `select` call has already
    /// loaded the face.
    pub fn get(&self, id: FaceId) -> (r: &Face)
        requires
            self.wf(),
            id.0 < self.faces@.len(),
            self.faces@[id.0 as int] is Some,
        ensures
            Some(*r) == self.faces@[id.0 as int],
            r.wf(),
    {
        match &self.faces[id.0 as usize] {
            Some(f) => f,
            None => unreached(),
        }
    }
}

/// A name that resolves to nothing is carried by no entry.
proof fn lemma_family_ids_none(families: Seq<FamilyEntry>, name: Seq<char>)
    requires
        spec_family_ids(families, name) is None,
    ensures
        forall|e: int| 0 <= e < families.len() ==> (#[trigger] families[e]).name@ != name,
    decreases families.len(),
{
    if families.len() > 0 {
        lemma_family_ids_none(families.drop_first(), name);
        assert forall|e: int| 0 <= e < families.len() implies (#[trigger] families[e]).name@
            != name by {
            if e > 0 {
                assert(families.drop_first()[e - 1] == families[e]);
            }
        }
    }
}

/// Looking a name up after pushing an entry: an already listed name keeps
/// its ids, the new entry's name resolves to the new ids when it was not
/// listed, and everything else stays unlisted.
proof fn lemma_family_ids_push(families: Seq<FamilyEntry>, g: FamilyEntry, name: Seq<char>)
    ensures
        spec_family_ids(families.push(g), name) == {
            if spec_family_ids(families, name) is Some {
                spec_family_ids(families, name)
            } else if g.name@ == name {
                Some(g.ids@)
            } else {
                None
            }
        },
    decreases families.len(),
{
    if families.len() == 0 {
        assert(families.push(g).drop_first() =~= Seq::<FamilyEntry>::empty());
        assert(spec_family_ids(Seq::<FamilyEntry>::empty(), name) is None);
    } else {
        assert(families.push(g).drop_first() =~= families.drop_first().push(g));
        lemma_family_ids_push(families.drop_first(), g, name);
    }
}

/// Replacing the first entry of a name: that name resolves to the
/// replacement's ids.
proof fn lemma_family_ids_update_first(families: Seq<FamilyEntry>, e: int, g: FamilyEntry)
    requires
        0 <= e < families.len(),
        g.name@ == families[e].name@,
        forall|j: int| 0 <= j < e ==> families[j].name@ != families[e].name@,
    ensures
        spec_family_ids(families.update(e, g), g.name@) == Some(g.ids@),
    decreases e,
{
    if e == 0 {
        assert(families.update(0, g)[0] == g);
    } else {
        assert(families.update(e, g).drop_first() =~= families.drop_first().update(e - 1, g));
        lemma_family_ids_update_first(families.drop_first(), e - 1, g);
    }
}

/// Replacing an entry whose name stays put: every other name resolves as
/// before.
proof fn lemma_family_ids_update_first_other(
    families: Seq<FamilyEntry>,
    e: int,
    g: FamilyEntry,
    name: Seq<char>,
)
    requires
        0 <= e < families.len(),
        g.name@ == families[e].name@,
        name != g.name@,
    ensures
        spec_family_ids(families.update(e, g), name) == spec_family_ids(families, name),
    decreases e,
{
    if e == 0 {
        assert(families.update(0, g)[0] == g);
        assert(families.update(0, g).drop_first() =~= families.drop_first());
    } else {
        assert(families.update(e, g)[0] == families[0]);
        assert(families.update(e, g).drop_first() =~= families.drop_first().update(e - 1, g));
        lemma_family_ids_update_first_other(families.drop_first(), e - 1, g, name);
    }
}

/// Scanning from `i` with the exact match at `j` still ahead ends on the
/// candidate at `j`, whatever has been scored so far.
proof fn lemma_best_from_exact(
    infos: Seq<FaceInfo>,
    ids: Seq<FaceId>,
    v: FontVariant,
    i: int,
    cur: Option<(FaceId, (bool, int, int))>,
    j: int,
)
    requires
        forall|k: int| 0 <= k < ids.len() ==> (#[trigger] ids[k]).0 < infos.len(),
        0 <= i <= j < ids.len(),
        infos[ids[j].0 as int].variant == v,
        forall|k: int| i <= k < j ==> infos[(#[trigger] ids[k]).0 as int].variant != v,
    ensures
        spec_best_from(infos, ids, v, i, cur) == Some(ids[j]),
    decreases j - i,
{
    if i < j {
        let c = infos[ids[i].0 as int].variant;
        let k = spec_key(c, v);
        let next = match cur {
            Some(c0) => if key_lt(k, c0.1) {
                Some((ids[i], k))
            } else {
                cur
            },
            None => Some((ids[i], k)),
        };
        lemma_best_from_exact(infos, ids, v, i + 1, next, j);
    }
}

/// Exact-match short circuit: when some candidate's variant equals the
/// request, the selection is the first such candidate, whatever the other
/// candidates score.
pub proof fn lemma_select_exact(infos: Seq<FaceInfo>, ids: Seq<FaceId>, v: FontVariant, j: int)
    requires
        forall|k: int| 0 <= k < ids.len() ==> (#[trigger] ids[k]).0 < infos.len(),
        0 <= j < ids.len(),
        infos[ids[j].0 as int].variant == v,
        forall|k: int| 0 <= k < j ==> infos[(#[trigger] ids[k]).0 as int].variant != v,
    ensures
        spec_best(infos, ids, v) == Some(ids[j]),
{
    lemma_best_from_exact(infos, ids, v, 0, None, j);
}

/// Once the scan holds a candidate no later candidate strictly improves
/// on, it keeps that candidate to the end.
proof fn lemma_best_from_keeps(
    infos: Seq<FaceInfo>,
    ids: Seq<FaceId>,
    v: FontVariant,
    i: int,
    id0: FaceId,
    k0: (bool, int, int),
)
    requires
        forall|k: int| 0 <= k < ids.len() ==> (#[trigger] ids[k]).0 < infos.len(),
        0 <= i <= ids.len(),
        forall|k: int| i <= k < ids.len() ==> infos[(#[trigger] ids[k]).0 as int].variant != v,
        forall|k: int|
            i <= k < ids.len() ==> !key_lt(
                spec_key(infos[(#[trigger] ids[k]).0 as int].variant, v),
                k0,
            ),
    ensures
        spec_best_from(infos, ids, v, i, Some((id0, k0))) == Some(id0),
    decreases ids.len() - i,
{
    if i < ids.len() {
        lemma_best_from_keeps(infos, ids, v, i + 1, id0, k0);
    }
}

/// Scanning from `i` with the overall first minimum at `m` still ahead,
/// holding nothing or something the minimum strictly improves on, ends on
/// the candidate at `m`.
proof fn lemma_best_from_min(
    infos: Seq<FaceInfo>,
    ids: Seq<FaceId>,
    v: FontVariant,
    i: int,
    cur: Option<(FaceId, (bool, int, int))>,
    m: int,
)
    requires
        forall|k: int| 0 <= k < ids.len() ==> (#[trigger] ids[k]).0 < infos.len(),
        forall|k: int| 0 <= k < ids.len() ==> infos[(#[trigger] ids[k]).0 as int].variant != v,
        0 <= i <= m < ids.len(),
        forall|k: int|
            0 <= k < ids.len() ==> !key_lt(
                spec_key(infos[(#[trigger] ids[k]).0 as int].variant, v),
                spec_key(infos[ids[m].0 as int].variant, v),
            ),
        forall|k: int|
            i <= k < m ==> key_lt(
                spec_key(infos[ids[m].0 as int].variant, v),
                spec_key(infos[(#[trigger] ids[k]).0 as int].variant, v),
            ),
        cur matches Some(c0) ==> key_lt(spec_key(infos[ids[m].0 as int].variant, v), c0.1),
    ensures
        spec_best_from(infos, ids, v, i, cur) == Some(ids[m]),
    decreases m - i,
{
    let km = spec_key(infos[ids[m].0 as int].variant, v);
    let c = infos[ids[i].0 as int].variant;
    let k = spec_key(c, v);
    let next = match cur {
        Some(c0) => if key_lt(k, c0.1) {
            Some((ids[i], k))
        } else {
            cur
        },
        None => Some((ids[i], k)),
    };
    if i == m {
        lemma_best_from_keeps(infos, ids, v, i + 1, ids[m], km);
    } else {
        lemma_best_from_min(infos, ids, v, i + 1, next, m);
    }
}

/// Deterministic tie-break: without an exact match, the selection is the
/// first candidate attaining the minimal tie-break key. In particular,
/// when two candidates carry identical keys, the one registered first
/// wins, on every run.
pub proof fn lemma_select_first_min(infos: Seq<FaceInfo>, ids: Seq<FaceId>, v: FontVariant, m: int)
    requires
        forall|k: int| 0 <= k < ids.len() ==> (#[trigger] ids[k]).0 < infos.len(),
        forall|k: int| 0 <= k < ids.len() ==> infos[(#[trigger] ids[k]).0 as int].variant != v,
        0 <= m < ids.len(),
        forall|k: int|
            0 <= k < ids.len() ==> !key_lt(
                spec_key(infos[(#[trigger] ids[k]).0 as int].variant, v),
                spec_key(infos[ids[m].0 as int].variant, v),
            ),
        forall|k: int|
            0 <= k < m ==> key_lt(
                spec_key(infos[ids[m].0 as int].variant, v),
                spec_key(infos[(#[trigger] ids[k]).0 as int].variant, v),
            ),
    ensures
        spec_best(infos, ids, v) == Some(ids[m]),
{
    lemma_best_from_min(infos, ids, v, 0, None, m);
}

/// Two candidates with identical, minimal tie-break keys: the selection is
/// the first-registered of the two, deterministically.
pub proof fn lemma_select_tie_break(
    infos: Seq<FaceInfo>,
    ids: Seq<FaceId>,
    v: FontVariant,
    i: int,
    j: int,
)
    requires
        forall|k: int| 0 <= k < ids.len() ==> (#[trigger] ids[k]).0 < infos.len(),
        forall|k: int| 0 <= k < ids.len() ==> infos[(#[trigger] ids[k]).0 as int].variant != v,
        0 <= i < j < ids.len(),
        spec_key(infos[ids[i].0 as int].variant, v) == spec_key(infos[ids[j].0 as int].variant, v),
        forall|k: int|
            0 <= k < ids.len() ==> !key_lt(
                spec_key(infos[(#[trigger] ids[k]).0 as int].variant, v),
                spec_key(infos[ids[i].0 as int].variant, v),
            ),
        forall|k: int|
            0 <= k < i ==> key_lt(
                spec_key(infos[ids[i].0 as int].variant, v),
                spec_key(infos[(#[trigger] ids[k]).0 as int].variant, v),
            ),
    ensures
        spec_best(infos, ids, v) == Some(ids[i]),
{
    lemma_select_first_min(infos, ids, v, i);
}

} // verus!
