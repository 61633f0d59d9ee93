//! Context units and the requests that create and update them.

use vstd::prelude::*;

verus! {

/// String-keyed metadata; each value is the JSON text of the value.
pub open spec fn meta_view(m: Seq<(String, String)>) -> Seq<(Seq<char>, Seq<char>)> {
    m.map_values(|e: (String, String)| (e.0@, e.1@))
}

/// A copy of metadata entries.
pub fn copy_metadata(m: &Vec<(String, String)>) -> (r: Vec<(String, String)>)
    ensures
        meta_view(r@) == meta_view(m@),
{
    let mut r: Vec<(String, String)> = Vec::new();
    let mut i: usize = 0;
    while i < m.len()
        invariant
            0 <= i <= m@.len(),
            meta_view(r@) == meta_view(m@).subrange(0, i as int),
        decreases m@.len() - i,
    {
        let k = m[i].0.clone();
        let v = m[i].1.clone();
        assert(k@ == m@[i as int].0@ && v@ == m@[i as int].1@);
        let ghost before = r@;
        r.push((k, v));
        assert(meta_view(r@) =~= meta_view(before).push((k@, v@)));
        assert(meta_view(m@).subrange(0, i + 1) =~= meta_view(m@).subrange(0, i as int).push(meta_view(m@)[i as int]));
        i = i + 1;
    }
    assert(meta_view(m@).subrange(0, i as int) =~= meta_view(m@));
    r
}

/// A copy of an optional vector.
pub fn copy_vector(v: &Option<Vec<u32>>) -> (r: Option<Vec<u32>>)
    ensures
        vector_view(r) == vector_view(*v),
{
    match v {
        Some(x) => {
            let c = x.clone();
            assert(c@ =~= x@);
            Some(c)
        },
        None => None,
    }
}

/// An optional vector as plain values.
pub open spec fn vector_view(v: Option<Vec<u32>>) -> Option<Seq<u32>> {
    match v {
        Some(x) => Some(x@),
        None => None,
    }
}

/// One encrypted, versioned record of a user's context. Times are
/// microseconds since the Unix epoch.
#[derive(Clone, Debug)]
pub struct ContextShard {
    pub id: u128,
    /// The owner; never changes.
    pub user_id: u128,
    /// The category, such as "travel-preferences".
    pub domain: String,
    /// The kind of content, such as "preferences".
    pub content_type: String,
    /// An embedding carried through for search, each component as the bit
    /// pattern of a 32-bit float.
    pub vector_representation: Option<Vec<u32>>,
    /// Unencrypted metadata used for filtering.
    pub metadata: Vec<(String, String)>,
    /// The encrypted content: a nonce followed by the sealed plaintext.
    pub content: Vec<u8>,
    pub created_at: i64,
    pub updated_at: i64,
    /// Starts at 1 and grows by one with every update.
    pub version: i32,
}

/// A context unit as plain values.
pub struct ContextShardView {
    pub id: u128,
    pub user_id: u128,
    pub domain: Seq<char>,
    pub content_type: Seq<char>,
    pub vector_representation: Option<Seq<u32>>,
    pub metadata: Seq<(Seq<char>, Seq<char>)>,
    pub content: Seq<u8>,
    pub created_at: i64,
    pub updated_at: i64,
    pub version: i32,
}

impl View for ContextShard {
    type V = ContextShardView;

    open spec fn view(&self) -> ContextShardView {
        ContextShardView {
            id: self.id,
            user_id: self.user_id,
            domain: self.domain@,
            content_type: self.content_type@,
            vector_representation: vector_view(self.vector_representation),
            metadata: meta_view(self.metadata@),
            content: self.content@,
            created_at: self.created_at,
            updated_at: self.updated_at,
            version: self.version,
        }
    }
}

impl ContextShard {
    /// A copy of this unit.
    pub fn copy(&self) -> (r: ContextShard)
        ensures
            r@ == self@,
    {
        let content = self.content.clone();
        assert(content@ =~= self.content@);
        ContextShard {
            id: self.id,
            user_id: self.user_id,
            domain: self.domain.clone(),
            content_type: self.content_type.clone(),
            vector_representation: copy_vector(&self.vector_representation),
            metadata: copy_metadata(&self.metadata),
            content,
            created_at: self.created_at,
            updated_at: self.updated_at,
            version: self.version,
        }
    }
}

/// A request to create a context unit; `content` is the plaintext.
#[derive(Clone, Debug)]
pub struct CreateShardInput {
    pub user_id: u128,
    pub domain: String,
    pub content_type: String,
    pub vector_representation: Option<Vec<u32>>,
    pub metadata: Vec<(String, String)>,
    pub content: Vec<u8>,
}

/// A request to update a context unit: each field given replaces the
/// unit's (metadata as a whole); `content` is plaintext to encrypt anew.
#[derive(Clone, Debug)]
pub struct UpdateShardInput {
    pub domain: Option<String>,
    pub content_type: Option<String>,
    pub vector_representation: Option<Vec<u32>>,
    pub metadata: Option<Vec<(String, String)>>,
    pub content: Option<Vec<u8>>,
    /// The version the caller last saw; the update applies only if it is
    /// still the stored one.
    pub current_version: i32,
}

/// `s` is the unit that `input` creates, with identity `id`, encrypted
/// content `content` and creation time `now`.
pub open spec fn created_from(s: ContextShardView, input: CreateShardInput, content: Seq<u8>, now: i64) -> bool {
    &&& s.user_id == input.user_id
    &&& s.domain == input.domain@
    &&& s.content_type == input.content_type@
    &&& s.vector_representation == vector_view(input.vector_representation)
    &&& s.metadata == meta_view(input.metadata@)
    &&& s.content == content
    &&& s.created_at == now
    &&& s.updated_at == now
    &&& s.version == 1
}

/// `cur` with the fields that `input` gives replaced, content `content`,
/// the version one higher and the update time `now`.
pub open spec fn patched(cur: ContextShardView, input: UpdateShardInput, content: Seq<u8>, now: i64) -> ContextShardView {
    ContextShardView {
        id: cur.id,
        user_id: cur.user_id,
        domain: match input.domain { Some(d) => d@, None => cur.domain },
        content_type: match input.content_type { Some(t) => t@, None => cur.content_type },
        vector_representation: match input.vector_representation {
            Some(v) => Some(v@),
            None => cur.vector_representation,
        },
        metadata: match input.metadata { Some(m) => meta_view(m@), None => cur.metadata },
        content,
        created_at: cur.created_at,
        updated_at: now,
        version: (cur.version + 1) as i32,
    }
}

} // verus!
