//! The durable image metadata record and the in-memory pixel cache.
//!
//! [`DocumentMetadata`] maps image identifiers to their persisted payloads
//! (base64 pixel data plus dimensions); [`ImageStore`] caches the decoded
//! raw bytes per identifier. Both are association lists with unique keys and
//! first-match lookup.

use vstd::prelude::*;

use crate::strings::str_eq;

verus! {

/// The durable record of one embedded image: its identifier, its pixel
/// payload encoded in base64, and its intrinsic dimensions.
#[derive(Clone, Debug)]
pub struct ImageMetadata {
    pub id: String,
    pub data: String,
    pub width: u32,
    pub height: u32,
}

/// The mathematical value of an [`ImageMetadata`].
#[verifier::ext_equal]
pub struct ImageMetaModel {
    pub id: Seq<char>,
    pub data: Seq<char>,
    pub width: u32,
    pub height: u32,
}

impl View for ImageMetadata {
    type V = ImageMetaModel;

    open spec fn view(&self) -> ImageMetaModel {
        ImageMetaModel { id: self.id@, data: self.data@, width: self.width, height: self.height }
    }
}

impl DeepView for ImageMetadata {
    type V = ImageMetaModel;

    open spec fn deep_view(&self) -> ImageMetaModel {
        self.view()
    }
}

/// First entry of `ms` whose identifier is `id`, if any.
pub open spec fn meta_lookup(ms: Seq<ImageMetaModel>, id: Seq<char>) -> Option<ImageMetaModel>
    decreases ms.len(),
{
    if ms.len() == 0 {
        None
    } else if ms[0].id == id {
        Some(ms[0])
    } else {
        meta_lookup(ms.skip(1), id)
    }
}

/// Lookup skips any prefix whose identifiers all differ from `id`.
pub proof fn lemma_meta_lookup_skip(ms: Seq<ImageMetaModel>, id: Seq<char>, k: int)
    requires
        0 <= k <= ms.len(),
        forall|j: int| 0 <= j < k ==> ms[j].id != id,
    ensures
        meta_lookup(ms, id) == meta_lookup(ms.skip(k), id),
    decreases k,
{
    if k > 0 {
        assert(ms.skip(1).skip(k - 1) =~= ms.skip(k));
        assert(forall|j: int| 0 <= j < k - 1 ==> ms.skip(1)[j] == ms[j + 1]);
        lemma_meta_lookup_skip(ms.skip(1), id, k - 1);
    } else {
        assert(ms.skip(0) =~= ms);
    }
}

/// Replacing the entry at `i` with one carrying the same identifier leaves
/// every other identifier's lookup unchanged.
pub proof fn lemma_meta_lookup_update(ms: Seq<ImageMetaModel>, i: int, m: ImageMetaModel)
    requires
        0 <= i < ms.len(),
        ms[i].id == m.id,
    ensures
        forall|x: Seq<char>|
            x != m.id ==> meta_lookup(ms.update(i, m), x) == meta_lookup(ms, x),
    decreases i,
{
    reveal_with_fuel(meta_lookup, 3);
    let nu = ms.update(i, m);
    if i > 0 {
        lemma_meta_lookup_update(ms.skip(1), i - 1, m);
    }
    assert forall|x: Seq<char>| x != m.id implies meta_lookup(nu, x) == meta_lookup(ms, x) by {
        if i == 0 {
            assert(nu[0] == m);
            assert(nu.skip(1) =~= ms.skip(1));
            assert(ms[0].id != x);
            assert(meta_lookup(nu, x) == meta_lookup(nu.skip(1), x));
            assert(meta_lookup(ms, x) == meta_lookup(ms.skip(1), x));
        } else {
            assert(nu[0] == ms[0]);
            assert(nu.skip(1) =~= ms.skip(1).update(i - 1, m));
            assert(ms.skip(1)[i - 1].id == m.id);
            if ms[0].id == x {
                assert(meta_lookup(nu, x) == Some(ms[0]));
                assert(meta_lookup(ms, x) == Some(ms[0]));
            } else {
                assert(meta_lookup(nu, x) == meta_lookup(ms.skip(1).update(i - 1, m), x));
                assert(meta_lookup(ms.skip(1).update(i - 1, m), x) == meta_lookup(ms.skip(1), x));
                assert(meta_lookup(ms, x) == meta_lookup(ms.skip(1), x));
            }
        }
    }
}

/// Appending an entry changes no lookup except for its own identifier, and
/// only when that identifier was absent.
pub proof fn lemma_meta_lookup_push(ms: Seq<ImageMetaModel>, m: ImageMetaModel)
    ensures
        forall|x: Seq<char>|
            x != m.id ==> meta_lookup(ms.push(m), x) == meta_lookup(ms, x),
        meta_lookup(ms, m.id) is None ==> meta_lookup(ms.push(m), m.id) == Some(m),
        meta_lookup(ms, m.id) is Some ==> meta_lookup(ms.push(m), m.id) == meta_lookup(ms, m.id),
    decreases ms.len(),
{
    reveal_with_fuel(meta_lookup, 3);
    let nu = ms.push(m);
    if ms.len() == 0 {
        assert(nu[0] == m);
        assert(nu.skip(1) =~= Seq::<ImageMetaModel>::empty());
        assert(meta_lookup(nu, m.id) == Some(m));
        assert forall|x: Seq<char>| x != m.id implies meta_lookup(nu, x) == meta_lookup(ms, x) by {
            assert(meta_lookup(nu, x) == meta_lookup(nu.skip(1), x));
            assert(meta_lookup(nu.skip(1), x) is None);
            assert(meta_lookup(ms, x) is None);
        }
    } else {
        lemma_meta_lookup_push(ms.skip(1), m);
        assert(nu[0] == ms[0]);
        assert(nu.skip(1) =~= ms.skip(1).push(m));
        assert forall|x: Seq<char>| x != m.id implies meta_lookup(nu, x) == meta_lookup(ms, x) by {
            if ms[0].id == x {
                assert(meta_lookup(nu, x) == Some(ms[0]));
                assert(meta_lookup(ms, x) == Some(ms[0]));
            } else {
                assert(meta_lookup(nu, x) == meta_lookup(ms.skip(1).push(m), x));
                assert(meta_lookup(ms.skip(1).push(m), x) == meta_lookup(ms.skip(1), x));
                assert(meta_lookup(ms, x) == meta_lookup(ms.skip(1), x));
            }
        }
        if ms[0].id == m.id {
            assert(meta_lookup(ms, m.id) == Some(ms[0]));
            assert(meta_lookup(nu, m.id) == Some(ms[0]));
        } else {
            assert(meta_lookup(nu, m.id) == meta_lookup(ms.skip(1).push(m), m.id));
            assert(meta_lookup(ms, m.id) == meta_lookup(ms.skip(1), m.id));
        }
    }
}

/// All identifiers in `ms` are pairwise distinct.
pub open spec fn meta_ids_unique(ms: Seq<ImageMetaModel>) -> bool {
    forall|i: int, j: int| 0 <= i < j < ms.len() ==> ms[i].id != ms[j].id
}

/// The mapping from image identifiers to their persisted metadata, keyed by
/// identifier with unique keys.
#[derive(Clone, Debug)]
pub struct DocumentMetadata {
    pub images: Vec<ImageMetadata>,
}

impl DocumentMetadata {
    /// All identifiers are pairwise distinct.
    pub open spec fn wf(&self) -> bool {
        meta_ids_unique(self.images.deep_view())
    }

    /// The metadata recorded for `id`, if any.
    pub open spec fn spec_lookup(&self, id: Seq<char>) -> Option<ImageMetaModel> {
        meta_lookup(self.images.deep_view(), id)
    }

    /// An empty mapping: no images recorded.
    pub fn new() -> (r: Self)
        ensures
            r.images@.len() == 0,
            r.wf(),
    {
        DocumentMetadata { images: Vec::new() }
    }

    /// Whether at least one image is recorded.
    pub fn has_images(&self) -> (r: bool)
        ensures
            r == (self.images@.len() > 0),
    {
        self.images.len() > 0
    }

    /// The recorded metadata for `id`, or `None` if the identifier is
    /// absent.
    pub fn get(&self, id: &str) -> (r: Option<&ImageMetadata>)
        ensures
            r is Some <==> self.spec_lookup(id@) is Some,
            r matches Some(m) ==> self.spec_lookup(id@) == Some(m@),
    {
        let ghost ms = self.images.deep_view();
        let n = self.images.len();
        let mut i: usize = 0;
        while i < n
            invariant
                i <= n,
                n == self.images@.len(),
                ms == self.images.deep_view(),
                forall|j: int| 0 <= j < i ==> ms[j].id != id@,
            decreases n - i,
        {
            if str_eq(self.images[i].id.as_str(), id) {
                proof {
                    lemma_meta_lookup_skip(ms, id@, i as int);
                    assert(ms.skip(i as int)[0] == ms[i as int]);
                }
                return Some(&self.images[i]);
            }
            i = i + 1;
        }
        proof {
            lemma_meta_lookup_skip(ms, id@, n as int);
            assert(ms.skip(n as int) =~= Seq::<ImageMetaModel>::empty());
        }
        None
    }

    /// Record `m` under its identifier, replacing any previous entry with
    /// the same identifier. Every other identifier's lookup is unchanged.
    pub fn insert(&mut self, m: ImageMetadata)
        requires
            old(self).wf(),
        ensures
            final(self).wf(),
            final(self).spec_lookup(m@.id) == Some(m@),
            forall|x: Seq<char>|
                x != m@.id ==> final(self).spec_lookup(x) == old(self).spec_lookup(x),
    {
        let ghost ms = self.images.deep_view();
        let n = self.images.len();
        let mut i: usize = 0;
        while i < n
            invariant
                i <= n,
                n == self.images@.len(),
                ms == self.images.deep_view(),
                ms == old(self).images.deep_view(),
                meta_ids_unique(ms),
                forall|j: int| 0 <= j < i ==> ms[j].id != m@.id,
            decreases n - i,
        {
            if str_eq(self.images[i].id.as_str(), m.id.as_str()) {
                self.images.remove(i);
                self.images.insert(i, m);
                proof {
                    let nu = ms.update(i as int, m@);
                    assert(self.images.deep_view() =~= nu);
                    lemma_meta_lookup_skip(nu, m@.id, i as int);
                    assert(nu.skip(i as int)[0] == m@);
                    lemma_meta_lookup_update(ms, i as int, m@);
                    assert(forall|a: int| 0 <= a < ms.len() ==> nu[a].id == ms[a].id);
                    assert(meta_ids_unique(ms));
                    assert forall|a: int, b: int|
                        0 <= a < b < nu.len() implies nu[a].id != nu[b].id by {
                        assert(nu[a].id == ms[a].id);
                        assert(nu[b].id == ms[b].id);
                        assert(ms[a].id != ms[b].id);
                    }
                    assert(meta_ids_unique(nu));
                    assert forall|x: Seq<char>|
                        x != m@.id implies meta_lookup(self.images.deep_view(), x)
                        == meta_lookup(ms, x) by {
                        assert(self.images.deep_view() == nu);
                        assert(meta_lookup(nu, x) == meta_lookup(ms, x));
                    }
                }
                return ;
            }
            i = i + 1;
        }
        self.images.push(m);
        proof {
            let nu = ms.push(m@);
            assert(self.images.deep_view() =~= nu);
            lemma_meta_lookup_skip(ms, m@.id, n as int);
            assert(ms.skip(n as int) =~= Seq::<ImageMetaModel>::empty());
            lemma_meta_lookup_push(ms, m@);
            assert(forall|a: int| 0 <= a < ms.len() ==> nu[a] == ms[a]);
            assert(nu[ms.len() as int] == m@);
            assert(meta_ids_unique(ms));
            assert forall|a: int, b: int|
                0 <= a < b < nu.len() implies nu[a].id != nu[b].id by {
                if b < ms.len() {
                    assert(ms[a].id != ms[b].id);
                } else {
                    assert(ms[a].id != m@.id);
                }
            }
            assert(meta_ids_unique(nu));
            assert forall|x: Seq<char>|
                x != m@.id implies meta_lookup(self.images.deep_view(), x) == meta_lookup(ms, x) by {
                assert(self.images.deep_view() == nu);
                assert(meta_lookup(nu, x) == meta_lookup(ms, x));
            }
        }
    }
}

/// One cached image: the identifier and the raw (decoded) bytes.
#[derive(Clone, Debug)]
pub struct ImageEntry {
    pub id: String,
    pub bytes: Vec<u8>,
}

/// The mathematical value of an [`ImageEntry`].
#[verifier::ext_equal]
pub struct ImageEntryModel {
    pub id: Seq<char>,
    pub bytes: Seq<u8>,
}

impl View for ImageEntry {
    type V = ImageEntryModel;

    open spec fn view(&self) -> ImageEntryModel {
        ImageEntryModel { id: self.id@, bytes: self.bytes@ }
    }
}

impl DeepView for ImageEntry {
    type V = ImageEntryModel;

    open spec fn deep_view(&self) -> ImageEntryModel {
        self.view()
    }
}

/// First entry of `es` whose identifier is `id`, if any.
pub open spec fn store_lookup(es: Seq<ImageEntryModel>, id: Seq<char>) -> Option<ImageEntryModel>
    decreases es.len(),
{
    if es.len() == 0 {
        None
    } else if es[0].id == id {
        Some(es[0])
    } else {
        store_lookup(es.skip(1), id)
    }
}

/// Lookup skips any prefix whose identifiers all differ from `id`.
pub proof fn lemma_store_lookup_skip(es: Seq<ImageEntryModel>, id: Seq<char>, k: int)
    requires
        0 <= k <= es.len(),
        forall|j: int| 0 <= j < k ==> es[j].id != id,
    ensures
        store_lookup(es, id) == store_lookup(es.skip(k), id),
    decreases k,
{
    if k > 0 {
        assert(es.skip(1).skip(k - 1) =~= es.skip(k));
        assert(forall|j: int| 0 <= j < k - 1 ==> es.skip(1)[j] == es[j + 1]);
        lemma_store_lookup_skip(es.skip(1), id, k - 1);
    } else {
        assert(es.skip(0) =~= es);
    }
}

/// Appending an entry changes no lookup except for its own identifier, and
/// only when that identifier was absent.
pub proof fn lemma_store_lookup_push(es: Seq<ImageEntryModel>, m: ImageEntryModel)
    ensures
        forall|x: Seq<char>|
            x != m.id ==> store_lookup(es.push(m), x) == store_lookup(es, x),
        store_lookup(es, m.id) is None ==> store_lookup(es.push(m), m.id) == Some(m),
        store_lookup(es, m.id) is Some ==> store_lookup(es.push(m), m.id) == store_lookup(
            es,
            m.id,
        ),
    decreases es.len(),
{
    reveal_with_fuel(store_lookup, 3);
    let nu = es.push(m);
    if es.len() == 0 {
        assert(nu[0] == m);
        assert(nu.skip(1) =~= Seq::<ImageEntryModel>::empty());
        assert(store_lookup(nu, m.id) == Some(m));
        assert forall|x: Seq<char>| x != m.id implies store_lookup(nu, x) == store_lookup(es, x) by {
            assert(store_lookup(nu, x) == store_lookup(nu.skip(1), x));
            assert(store_lookup(nu.skip(1), x) is None);
            assert(store_lookup(es, x) is None);
        }
    } else {
        lemma_store_lookup_push(es.skip(1), m);
        assert(nu[0] == es[0]);
        assert(nu.skip(1) =~= es.skip(1).push(m));
        assert forall|x: Seq<char>| x != m.id implies store_lookup(nu, x) == store_lookup(es, x) by {
            if es[0].id == x {
                assert(store_lookup(nu, x) == Some(es[0]));
                assert(store_lookup(es, x) == Some(es[0]));
            } else {
                assert(store_lookup(nu, x) == store_lookup(es.skip(1).push(m), x));
                assert(store_lookup(es.skip(1).push(m), x) == store_lookup(es.skip(1), x));
                assert(store_lookup(es, x) == store_lookup(es.skip(1), x));
            }
        }
        if es[0].id == m.id {
            assert(store_lookup(es, m.id) == Some(es[0]));
            assert(store_lookup(nu, m.id) == Some(es[0]));
        } else {
            assert(store_lookup(nu, m.id) == store_lookup(es.skip(1).push(m), m.id));
            assert(store_lookup(es, m.id) == store_lookup(es.skip(1), m.id));
        }
    }
}

/// The in-memory cache of decoded image bytes, keyed by identifier.
#[derive(Clone, Debug)]
pub struct ImageStore {
    pub entries: Vec<ImageEntry>,
}

impl ImageStore {
    /// The cached bytes for `id`, if present.
    pub open spec fn spec_lookup(&self, id: Seq<char>) -> Option<ImageEntryModel> {
        store_lookup(self.entries.deep_view(), id)
    }

    /// An empty cache.
    pub fn new() -> (r: Self)
        ensures
            r.entries@.len() == 0,
    {
        ImageStore { entries: Vec::new() }
    }

    /// Whether bytes are cached for `id`.
    pub fn contains(&self, id: &str) -> (r: bool)
        ensures
            r == (self.spec_lookup(id@) is Some),
    {
        let ghost es = self.entries.deep_view();
        let n = self.entries.len();
        let mut i: usize = 0;
        while i < n
            invariant
                i <= n,
                n == self.entries@.len(),
                es == self.entries.deep_view(),
                forall|j: int| 0 <= j < i ==> es[j].id != id@,
            decreases n - i,
        {
            if str_eq(self.entries[i].id.as_str(), id) {
                proof {
                    lemma_store_lookup_skip(es, id@, i as int);
                    assert(es.skip(i as int)[0] == es[i as int]);
                }
                return true;
            }
            i = i + 1;
        }
        proof {
            lemma_store_lookup_skip(es, id@, n as int);
            assert(es.skip(n as int) =~= Seq::<ImageEntryModel>::empty());
        }
        false
    }

    /// Cache `bytes` under `id`. The entry is appended; an already-present
    /// identifier keeps its first (earlier) entry for lookup.
    pub fn insert(&mut self, id: String, bytes: Vec<u8>)
        ensures
            old(self).spec_lookup(id@) is None ==> final(self).spec_lookup(id@) == Some(
                ImageEntryModel { id: id@, bytes: bytes@ },
            ),
            old(self).spec_lookup(id@) is Some ==> final(self).spec_lookup(id@) == old(
                self,
            ).spec_lookup(id@),
            forall|x: Seq<char>|
                x != id@ ==> final(self).spec_lookup(x) == old(self).spec_lookup(x),
    {
        let ghost es = self.entries.deep_view();
        let ghost m = ImageEntryModel { id: id@, bytes: bytes@ };
        self.entries.push(ImageEntry { id: id, bytes: bytes });
        proof {
            assert(self.entries.deep_view() =~= es.push(m));
            lemma_store_lookup_push(es, m);
        }
    }
}

} // verus!
