//! The schema registry: documents stored under their relative
//! identifiers, with last-write-wins overwrite on collision.

use vstd::prelude::*;

use crate::identity::{spec_identity, spec_relative_of, IdentityError, SchemaId};
use crate::url_id::spec_url_path;

verus! {

/// One stored document together with the identity it was stored under.
#[derive(Debug)]
pub struct SchemaMapItem {
    /// The identity extracted from the document.
    pub id: SchemaId,
    /// The document itself, kept as given (the `$id` member stays in
    /// place).
    pub node: serde_json::Value,
}

/// What `register_schema` did with a document.
#[derive(Clone, Copy, Debug, PartialEq, Eq, Structural)]
pub enum RegisterOutcome {
    /// The document declared a valid identity and was stored under its
    /// relative identifier.
    Stored,
    /// The document declared no valid identity and was dropped; the
    /// registry is unchanged.
    Dropped(IdentityError),
}

/// A registry of schema documents, addressable by relative identifier.
///
/// Its abstract value is a map from relative identifier to stored
/// document; at most one entry exists per relative identifier.
#[derive(Debug)]
pub struct SchemaMap {
    registry: Vec<SchemaMapItem>,
}

/// The map held by a sequence of entries: each entry binds its relative
/// identifier to its document, later entries winning.
spec fn map_of(s: Seq<SchemaMapItem>) -> Map<Seq<char>, serde_json::Value>
    decreases s.len(),
{
    if s.len() == 0 {
        Map::empty()
    } else {
        map_of(s.drop_last()).insert(s.last().id.relative_id@, s.last().node)
    }
}

/// A key is in the map exactly when some entry carries it.
proof fn lemma_map_of_contains(s: Seq<SchemaMapItem>, k: Seq<char>)
    ensures
        map_of(s).contains_key(k) <==> exists|i: int|
            0 <= i < s.len() && s[i].id.relative_id@ == k,
    decreases s.len(),
{
    if s.len() > 0 {
        lemma_map_of_contains(s.drop_last(), k);
        if s.last().id.relative_id@ == k {
            assert(s[s.len() - 1].id.relative_id@ == k);
        } else if map_of(s).contains_key(k) {
            let i = choose|i: int| 0 <= i < s.drop_last().len() && s.drop_last()[i].id.relative_id@
                == k;
            assert(s[i].id.relative_id@ == k);
        } else {
            assert(forall|i: int|
                0 <= i < s.len() - 1 ==> s.drop_last()[i] == s[i]);
        }
    }
}

/// When no later entry repeats an entry's key, the map sends that key to
/// that entry's document.
proof fn lemma_map_of_index(s: Seq<SchemaMapItem>, i: int)
    requires
        0 <= i < s.len(),
        forall|j: int| i < j < s.len() ==> s[j].id.relative_id@ != s[i].id.relative_id@,
    ensures
        map_of(s).contains_key(s[i].id.relative_id@),
        map_of(s)[s[i].id.relative_id@] == s[i].node,
    decreases s.len(),
{
    lemma_map_of_contains(s, s[i].id.relative_id@);
    if i < s.len() - 1 {
        assert(forall|j: int|
            0 <= j < s.len() - 1 ==> s.drop_last()[j] == s[j]);
        lemma_map_of_index(s.drop_last(), i);
    }
}

/// With pairwise distinct keys, the map has exactly one entry per
/// element of the sequence.
proof fn lemma_map_of_len(s: Seq<SchemaMapItem>)
    requires
        forall|i: int, j: int|
            0 <= i < j < s.len() ==> s[i].id.relative_id@ != s[j].id.relative_id@,
    ensures
        map_of(s).dom().finite(),
        map_of(s).dom().len() == s.len(),
    decreases s.len(),
{
    if s.len() > 0 {
        assert(forall|i: int, j: int|
            0 <= i < j < s.len() - 1 ==> s.drop_last()[i].id.relative_id@
                != s.drop_last()[j].id.relative_id@);
        lemma_map_of_len(s.drop_last());
        lemma_map_of_contains(s.drop_last(), s.last().id.relative_id@);
        assert(forall|i: int|
            0 <= i < s.len() - 1 ==> s.drop_last()[i] == s[i]);
        assert(!map_of(s.drop_last()).contains_key(s.last().id.relative_id@));
    }
}

/// Replacing the one entry that carries a key rewrites that key's
/// binding and nothing else.
proof fn lemma_map_of_update(s: Seq<SchemaMapItem>, i: int, item: SchemaMapItem)
    requires
        0 <= i < s.len(),
        s[i].id.relative_id@ == item.id.relative_id@,
        forall|j: int, l: int|
            0 <= j < l < s.len() ==> s[j].id.relative_id@ != s[l].id.relative_id@,
    ensures
        map_of(s.update(i, item)) == map_of(s).insert(item.id.relative_id@, item.node),
    decreases s.len(),
{
    let k = item.id.relative_id@;
    let t = s.update(i, item);
    if i == s.len() - 1 {
        assert(t.drop_last() =~= s.drop_last());
        assert(map_of(t) =~= map_of(s).insert(k, item.node));
    } else {
        assert(t.drop_last() =~= s.drop_last().update(i, item));
        assert(forall|j: int, l: int|
            0 <= j < l < s.len() - 1 ==> s.drop_last()[j].id.relative_id@
                != s.drop_last()[l].id.relative_id@);
        lemma_map_of_update(s.drop_last(), i, item);
        assert(t.last() == s.last());
        assert(map_of(t) =~= map_of(s).insert(k, item.node));
    }
}

impl SchemaMap {
    /// The registry's entries carry pairwise distinct relative
    /// identifiers, each well formed for its canonical identifier.
    pub closed spec fn wf(self) -> bool {
        &&& forall|i: int, j: int|
            0 <= i < j < self.registry@.len() ==> self.registry@[i].id.relative_id@
                != self.registry@[j].id.relative_id@
        &&& forall|i: int| 0 <= i < self.registry@.len() ==> self.registry@[i].id.wf()
    }

    /// Create an empty registry.
    pub fn new() -> (r: SchemaMap)
        ensures
            r.wf(),
            r@ == Map::<Seq<char>, serde_json::Value>::empty(),
    {
        SchemaMap { registry: Vec::new() }
    }

    /// Register a document. When it declares a valid identity, it is
    /// stored under the identity's relative identifier, silently
    /// replacing any prior entry there; otherwise the registry is left
    /// unchanged and the reason is reported in the outcome.
    pub fn register_schema(&mut self, schema: serde_json::Value) -> (r: RegisterOutcome)
        requires
            old(self).wf(),
        ensures
            final(self).wf(),
            match spec_identity(schema) {
                Result::Ok(u) => {
                    &&& final(self)@ == old(self)@.insert(
                        spec_relative_of(spec_url_path(u)),
                        schema,
                    )
                    &&& r == RegisterOutcome::Stored
                },
                Result::Err(e) => {
                    &&& final(self)@ == old(self)@
                    &&& r == RegisterOutcome::Dropped(e)
                },
            },
    {
        let the_id = match SchemaId::extract(&schema) {
            Ok(id) => id,
            Err(e) => {
                return RegisterOutcome::Dropped(e);
            },
        };
        let item = SchemaMapItem { id: the_id, node: schema };
        let mut i: usize = 0;
        let n: usize = self.registry.len();
        while i < n
            invariant
                *self == *old(self),
                old(self).wf(),
                item.id.wf(),
                spec_identity(schema) == Result::<url::Url, IdentityError>::Ok(item.id.full_id),
                item.node == schema,
                n == self.registry@.len(),
                i <= n,
                forall|j: int|
                    0 <= j < i ==> self.registry@[j].id.relative_id@ != item.id.relative_id@,
            decreases n - i,
        {
            if self.registry[i].id.relative_id == item.id.relative_id {
                proof {
                    lemma_map_of_update(self.registry@, i as int, item);
                }
                self.registry[i] = item;
                return RegisterOutcome::Stored;
            }
            i += 1;
        }
        proof {
            assert(self.registry@.push(item).drop_last() =~= self.registry@);
        }
        self.registry.push(item);
        return RegisterOutcome::Stored;
    }

    /// Look up a stored document by its relative identifier. A pure
    /// read: the registered document comes back unmodified, or nothing
    /// when no document is stored under that identifier.
    pub fn get<'a>(&'a self, which: String) -> (r: Option<&'a serde_json::Value>)
        requires
            self.wf(),
        ensures
            match r {
                Some(d) => self@.contains_key(which@) && *d == self@[which@],
                None => !self@.contains_key(which@),
            },
    {
        let mut i: usize = 0;
        let n: usize = self.registry.len();
        while i < n
            invariant
                self.wf(),
                n == self.registry@.len(),
                i <= n,
                forall|j: int| 0 <= j < i ==> self.registry@[j].id.relative_id@ != which@,
            decreases n - i,
        {
            if self.registry[i].id.relative_id == which {
                proof {
                    lemma_map_of_index(self.registry@, i as int);
                }
                return Some(&self.registry[i].node);
            }
            i += 1;
        }
        proof {
            lemma_map_of_contains(self.registry@, which@);
        }
        None
    }

    /// The number of documents currently stored: one per distinct
    /// relative identifier.
    pub fn size(&self) -> (r: usize)
        requires
            self.wf(),
        ensures
            r == self@.dom().len(),
    {
        proof {
            lemma_map_of_len(self.registry@);
        }
        self.registry.len()
    }
}

/// Law: registering the same document twice is idempotent. A registry
/// whose abstract map is `m` moves to `m.insert(k, doc)` on the first
/// registration, where `k` is the document's relative identifier; the
/// second registration of the same document leaves that map — and so
/// `size()` — unchanged, and the key maps to the document both times.
pub proof fn lemma_register_idempotent(
    m: Map<Seq<char>, serde_json::Value>,
    doc: serde_json::Value,
    u: url::Url,
)
    requires
        spec_identity(doc) == Result::<url::Url, IdentityError>::Ok(u),
    ensures
        m.insert(spec_relative_of(spec_url_path(u)), doc).insert(
            spec_relative_of(spec_url_path(u)),
            doc,
        ) == m.insert(spec_relative_of(spec_url_path(u)), doc),
        m.insert(spec_relative_of(spec_url_path(u)), doc)[spec_relative_of(spec_url_path(u))]
            == doc,
{
    let k = spec_relative_of(spec_url_path(u));
    assert(m.insert(k, doc).insert(k, doc) =~= m.insert(k, doc));
}

/// Law: a collision overwrites. Registering document `a` under a
/// relative identifier `k` and then document `b` whose different
/// canonical identifier also derives `k` leaves the registry exactly as
/// if only `b` had been registered at `k`: the key maps to `b`, and the
/// map's domain — and so `size()` — is the same as after registering `a`
/// alone.
pub proof fn lemma_register_overwrites(
    m: Map<Seq<char>, serde_json::Value>,
    k: Seq<char>,
    a: serde_json::Value,
    b: serde_json::Value,
)
    ensures
        m.insert(k, a).insert(k, b) == m.insert(k, b),
        m.insert(k, a).insert(k, b)[k] == b,
        m.insert(k, a).insert(k, b).dom() == m.insert(k, a).dom(),
{
    assert(m.insert(k, a).insert(k, b) =~= m.insert(k, b));
    assert(m.insert(k, a).insert(k, b).dom() =~= m.insert(k, a).dom());
}

impl View for SchemaMap {
    type V = Map<Seq<char>, serde_json::Value>;

    /// The registry's abstract value: the map from relative identifier
    /// to stored document.
    closed spec fn view(&self) -> Map<Seq<char>, serde_json::Value> {
        map_of(self.registry@)
    }
}

impl Default for SchemaMap {
    /// An empty registry.
    fn default() -> (r: SchemaMap)
        ensures
            r.wf(),
            r@ == Map::<Seq<char>, serde_json::Value>::empty(),
    {
        SchemaMap::new()
    }
}

} // verus!
