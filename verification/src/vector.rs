//! The provider-neutral vector index model: embedding surfaces, candidate filters,
//! the payload names of the index, deterministic point identities, and the check of
//! an existing collection's vector configuration.

use vstd::prelude::*;
use crate::domain::{MemoryId, ObjectType, RetentionState, object_type_token, retention_state_token};
use crate::objects::Timestamp;
use crate::errors::CustomError;

verus! {

/// The text of an object that an embedding is made from.
#[derive(Debug, Clone, Copy, PartialEq, Eq, Hash, Structural)]
pub enum VectorSurface {
    Summary,
    Text,
    Name,
    DerivedText,
    Query,
}

/// The payload name of a surface.
pub open spec fn surface_token(s: VectorSurface) -> Seq<char> {
    match s {
        VectorSurface::Summary => "summary"@,
        VectorSurface::Text => "text"@,
        VectorSurface::Name => "name"@,
        VectorSurface::DerivedText => "derived_text"@,
        VectorSurface::Query => "query"@,
    }
}

/// The payload name of a surface.
pub fn surface_name(surface: VectorSurface) -> (s: &'static str)
    ensures
        s@ == surface_token(surface),
{
    match surface {
        VectorSurface::Summary => "summary",
        VectorSurface::Text => "text",
        VectorSurface::Name => "name",
        VectorSurface::DerivedText => "derived_text",
        VectorSurface::Query => "query",
    }
}

/// The payload name of an object type.
pub fn object_type_name(object_type: ObjectType) -> (s: &'static str)
    ensures
        s@ == object_type_token(object_type),
{
    object_type.token()
}

/// The payload name of a retention state.
pub fn retention_state_name(retention_state: RetentionState) -> (s: &'static str)
    ensures
        s@ == retention_state_token(retention_state),
{
    retention_state.token()
}

/// The message refusing an unknown object type in a payload.
pub open spec fn unknown_object_type_message(value: Seq<char>) -> Seq<char> {
    "Unknown Qdrant object_type payload value: "@ + value
}

/// The message refusing an unknown surface in a payload.
pub open spec fn unknown_surface_message(value: Seq<char>) -> Seq<char> {
    "Unknown Qdrant surface payload value: "@ + value
}

/// Reads an object type from its payload name.
pub fn parse_object_type(value: String) -> (r: Result<ObjectType, CustomError>)
    ensures
        match r {
            Ok(t) => object_type_token(t) == value@,
            Err(e) => (forall|t: ObjectType| object_type_token(t) != value@) && (e matches CustomError::DatabaseError(m)
                && m@ == unknown_object_type_message(value@)),
        },
{
    match ObjectType::parse(value.as_str()) {
        Ok(t) => Ok(t),
        Err(_) => {
            let mut message = String::from_str("Unknown Qdrant object_type payload value: ");
            message.append(value.as_str());
            Err(CustomError::DatabaseError(message))
        },
    }
}

/// Reads a surface from its payload name.
pub fn parse_vector_surface(value: String) -> (r: Result<VectorSurface, CustomError>)
    ensures
        match r {
            Ok(s) => surface_token(s) == value@,
            Err(e) => (forall|s: VectorSurface| surface_token(s) != value@) && (e matches CustomError::DatabaseError(m)
                && m@ == unknown_surface_message(value@)),
        },
{
    proof {
        reveal_strlit("summary");
        reveal_strlit("text");
        reveal_strlit("name");
        reveal_strlit("derived_text");
        reveal_strlit("query");
    }
    let v = value.as_str();
    if crate::text::str_eq(v, "summary") {
        Ok(VectorSurface::Summary)
    } else if crate::text::str_eq(v, "text") {
        Ok(VectorSurface::Text)
    } else if crate::text::str_eq(v, "name") {
        Ok(VectorSurface::Name)
    } else if crate::text::str_eq(v, "derived_text") {
        Ok(VectorSurface::DerivedText)
    } else if crate::text::str_eq(v, "query") {
        Ok(VectorSurface::Query)
    } else {
        let mut message = String::from_str("Unknown Qdrant surface payload value: ");
        message.append(v);
        Err(CustomError::DatabaseError(message))
    }
}

/// Distinct surfaces have distinct payload names.
pub proof fn law_surface_names_distinct(a: VectorSurface, b: VectorSurface)
    ensures
        surface_token(a) == surface_token(b) ==> a == b,
{
    reveal_strlit("summary");
    reveal_strlit("text");
    reveal_strlit("name");
    reveal_strlit("derived_text");
    reveal_strlit("query");
    if surface_token(a) == surface_token(b) && a != b {
        assert(surface_token(a)[0] != surface_token(b)[0] || surface_token(a).len() != surface_token(b).len());
    }
}

/// The object types a candidate search covers unless told otherwise.
pub open spec fn default_candidate_types() -> Seq<ObjectType> {
    seq![ObjectType::Episode, ObjectType::Observation, ObjectType::DerivedMemory, ObjectType::MemoryThread, ObjectType::Entity]
}

/// The object types a candidate search covers unless told otherwise: every memory
/// object but links.
pub fn default_vector_candidate_object_types() -> (v: Vec<ObjectType>)
    ensures
        v@ == default_candidate_types(),
{
    let v = vec![ObjectType::Episode, ObjectType::Observation, ObjectType::DerivedMemory, ObjectType::MemoryThread, ObjectType::Entity];
    assert(v@ =~= default_candidate_types());
    v
}

/// A time a candidate filter can restrict.
#[derive(Debug, Clone, Copy, PartialEq, Eq, Structural)]
pub enum VectorTimeField {
    Created,
    Updated,
    Started,
    Ended,
    Observed,
    LastTouched,
}

/// A time window on one field; an open end is unbounded.
#[derive(Debug, Clone, Copy, PartialEq, Eq, Structural)]
pub struct VectorTimeRangeFilter {
    pub field: VectorTimeField,
    pub after: Option<Timestamp>,
    pub before: Option<Timestamp>,
}

impl VectorTimeRangeFilter {
    /// The window `after ..= before` on `field`.
    pub fn new(field: VectorTimeField, after: Option<Timestamp>, before: Option<Timestamp>) -> (r: VectorTimeRangeFilter)
        ensures
            r == (VectorTimeRangeFilter { field, after, before }),
    {
        VectorTimeRangeFilter { field, after, before }
    }
}

/// Payload-hint prefilters of a candidate search; an empty list does not restrict.
#[derive(Debug, Clone, PartialEq, Eq)]
pub struct VectorCandidateFilters {
    pub retention_states: Vec<RetentionState>,
    pub is_current: Option<bool>,
    pub is_superseded: Option<bool>,
    pub thread_ids: Vec<MemoryId>,
    pub entity_ids: Vec<MemoryId>,
    pub episode_ids: Vec<MemoryId>,
    pub time_ranges: Vec<VectorTimeRangeFilter>,
}

impl VectorCandidateFilters {
    /// No prefilter.
    pub fn new() -> (r: VectorCandidateFilters)
        ensures
            r.retention_states@.len() == 0,
            r.is_current is None,
            r.is_superseded is None,
            r.thread_ids@.len() == 0,
            r.entity_ids@.len() == 0,
            r.episode_ids@.len() == 0,
            r.time_ranges@.len() == 0,
    {
        VectorCandidateFilters {
            retention_states: Vec::new(),
            is_current: None,
            is_superseded: None,
            thread_ids: Vec::new(),
            entity_ids: Vec::new(),
            episode_ids: Vec::new(),
            time_ranges: Vec::new(),
        }
    }

    /// The same filters, keeping only these retention states.
    pub fn with_retention_states(self, retention_states: Vec<RetentionState>) -> (r: VectorCandidateFilters)
        ensures
            r == (VectorCandidateFilters { retention_states, ..self }),
    {
        VectorCandidateFilters { retention_states, ..self }
    }

    /// The same filters, keeping only current, unsuperseded memories.
    pub fn current_only(self) -> (r: VectorCandidateFilters)
        ensures
            r == (VectorCandidateFilters { is_current: Some(true), is_superseded: Some(false), ..self }),
    {
        VectorCandidateFilters { is_current: Some(true), is_superseded: Some(false), ..self }
    }

    /// The same filters, keeping only memories of these threads.
    pub fn with_thread_ids(self, thread_ids: Vec<MemoryId>) -> (r: VectorCandidateFilters)
        ensures
            r == (VectorCandidateFilters { thread_ids, ..self }),
    {
        VectorCandidateFilters { thread_ids, ..self }
    }

    /// The same filters, keeping only memories about these notions.
    pub fn with_entity_ids(self, entity_ids: Vec<MemoryId>) -> (r: VectorCandidateFilters)
        ensures
            r == (VectorCandidateFilters { entity_ids, ..self }),
    {
        VectorCandidateFilters { entity_ids, ..self }
    }

    /// The same filters, keeping only memories of these episodes.
    pub fn with_episode_ids(self, episode_ids: Vec<MemoryId>) -> (r: VectorCandidateFilters)
        ensures
            r == (VectorCandidateFilters { episode_ids, ..self }),
    {
        VectorCandidateFilters { episode_ids, ..self }
    }

    /// Whether a currentness hint (current, superseded) is set.
    pub open spec fn has_currentness(&self) -> bool {
        self.is_current is Some || self.is_superseded is Some
    }

    /// Whether a currentness hint (current, superseded) is set.
    pub fn has_currentness_filters(&self) -> (b: bool)
        ensures
            b == self.has_currentness(),
    {
        self.is_current.is_some() || self.is_superseded.is_some()
    }

    /// The same filters with one more time window.
    pub fn with_time_range(self, time_range: VectorTimeRangeFilter) -> (r: VectorCandidateFilters)
        ensures
            r.time_ranges@ == self.time_ranges@.push(time_range),
            r.retention_states == self.retention_states,
            r.is_current == self.is_current,
            r.is_superseded == self.is_superseded,
            r.thread_ids == self.thread_ids,
            r.entity_ids == self.entity_ids,
            r.episode_ids == self.episode_ids,
    {
        let mut s = self;
        s.time_ranges.push(time_range);
        s
    }
}

/// The sixteen bytes of a UUID, most significant first.
pub open spec fn uuid_bytes(id: u128) -> Seq<u8> {
    Seq::new(16, |i: int| ((id >> ((8 * (15 - i)) as u128)) & 0xff) as u8)
}

/// The bytes of a surface's payload name (its characters are ASCII).
pub open spec fn surface_bytes(s: VectorSurface) -> Seq<u8> {
    surface_token(s).map_values(|c: char| c as u8)
}

/// Left rotation by five bits.
pub open spec fn rotl5(x: u64) -> u64 {
    (x << 5u64) | (x >> 59u64)
}

/// One byte into the two 64-bit hash lanes.
pub open spec fn hash_step(h: (u64, u64), b: u8) -> (u64, u64) {
    (
        vstd::wrapping::u64_specs::wrapping_mul(h.0 ^ (b as u64), 0x100000001b3u64),
        vstd::wrapping::u64_specs::wrapping_mul(
            rotl5(h.1 ^ vstd::wrapping::u64_specs::wrapping_add(b as u64, 0x9e3779b97f4a7c15u64)),
            0x517cc1b727220a95u64,
        ),
    )
}

/// The two hash lanes of a byte sequence.
pub open spec fn hash_lanes(bs: Seq<u8>) -> (u64, u64)
    decreases bs.len(),
{
    if bs.len() == 0 {
        (0xcbf29ce484222325u64, 0x9e3779b97f4a7c15u64)
    } else {
        hash_step(hash_lanes(bs.drop_last()), bs.last())
    }
}

/// The UUID of two hash lanes, marked as a name-based (version 5) RFC 4122 UUID.
pub open spec fn lanes_uuid(h: (u64, u64)) -> u128 {
    let hi: u64 = (h.0 & 0xffff_ffff_ffff_0fffu64) | 0x5000u64;
    let lo: u64 = (h.1 & 0x3fff_ffff_ffff_ffffu64) | 0x8000_0000_0000_0000u64;
    ((hi as u128) << 64u128) | (lo as u128)
}

/// The point identity of an object's embedding on a surface.
pub open spec fn point_id_of(object_id: MemoryId, surface: VectorSurface) -> u128 {
    lanes_uuid(hash_lanes(uuid_bytes(object_id) + surface_bytes(surface)))
}

fn hash_byte(h: (u64, u64), b: u8) -> (r: (u64, u64))
    ensures
        r == hash_step(h, b),
{
    let first = (h.0 ^ (b as u64)).wrapping_mul(0x100000001b3u64);
    let x = h.1 ^ (b as u64).wrapping_add(0x9e3779b97f4a7c15u64);
    let rotated = (x << 5u64) | (x >> 59u64);
    let second = rotated.wrapping_mul(0x517cc1b727220a95u64);
    (first, second)
}

/// The point identity of an object's embedding on a surface: two 64-bit hash lanes
/// over the object's UUID bytes and the surface's name, as a version-5-shaped UUID.
/// Each (object, surface) pair has its own point; the object stays in the payload.
pub fn qdrant_point_id(object_id: MemoryId, surface: VectorSurface) -> (r: u128)
    ensures
        r == point_id_of(object_id, surface),
{
    let ghost all = uuid_bytes(object_id) + surface_bytes(surface);
    let mut h: (u64, u64) = (0xcbf29ce484222325u64, 0x9e3779b97f4a7c15u64);
    let mut i: usize = 0;
    proof {
        assert(all.take(0) =~= Seq::<u8>::empty());
    }
    while i < 16
        invariant
            i <= 16,
            all == uuid_bytes(object_id) + surface_bytes(surface),
            h == hash_lanes(all.take(i as int)),
        decreases 16 - i,
    {
        let shift: u128 = (8 * (15 - i)) as u128;
        let b = ((object_id >> shift) & 0xff) as u8;
        proof {
            assert(all[i as int] == b);
            assert(all.take(i + 1).drop_last() =~= all.take(i as int));
        }
        h = hash_byte(h, b);
        i = i + 1;
    }
    let name = surface_name(surface);
    let n = name.unicode_len();
    let mut j: usize = 0;
    while j < n
        invariant
            j <= n,
            n == surface_token(surface).len(),
            name@ == surface_token(surface),
            all == uuid_bytes(object_id) + surface_bytes(surface),
            h == hash_lanes(all.take(16 + j)),
        decreases n - j,
    {
        let c = name.get_char(j);
        let b = c as u8;
        proof {
            assert(all[16 + j] == b);
            assert(all.take(16 + j + 1).drop_last() =~= all.take(16 + j));
        }
        h = hash_byte(h, b);
        j = j + 1;
    }
    proof {
        assert(all.take(16 + j) =~= all);
    }
    let hi: u64 = (h.0 & 0xffff_ffff_ffff_0fffu64) | 0x5000u64;
    let lo: u64 = (h.1 & 0x3fff_ffff_ffff_ffffu64) | 0x8000_0000_0000_0000u64;
    ((hi as u128) << 64u128) | (lo as u128)
}

proof fn lemma_marked_bits(a: u64, b: u64)
    by (bit_vector)
    ensures
        ((((((a & 0xffff_ffff_ffff_0fffu64) | 0x5000u64) as u128) << 64u128) | (((b & 0x3fff_ffff_ffff_ffffu64)
            | 0x8000_0000_0000_0000u64) as u128)) >> 76u128) & 0xfu128 == 5u128,
        ((((((a & 0xffff_ffff_ffff_0fffu64) | 0x5000u64) as u128) << 64u128) | (((b & 0x3fff_ffff_ffff_ffffu64)
            | 0x8000_0000_0000_0000u64) as u128)) >> 62u128) & 0x3u128 == 2u128,
{
}

/// Every point identity is marked as an RFC 4122 version-5 UUID: its version nibble
/// is five and its variant bits are `10`.
pub proof fn law_point_id_is_version_five(object_id: MemoryId, surface: VectorSurface)
    ensures
        (point_id_of(object_id, surface) >> 76u128) & 0xfu128 == 5,
        (point_id_of(object_id, surface) >> 62u128) & 0x3u128 == 2,
{
    let h = hash_lanes(uuid_bytes(object_id) + surface_bytes(surface));
    lemma_marked_bits(h.0, h.1);
}

/// The decimal digit character of `d`.
pub open spec fn digit_char(d: nat) -> char {
    (48 + d) as char
}

/// The decimal text of a natural number.
pub open spec fn decimal(n: nat) -> Seq<char>
    decreases n,
{
    if n < 10 {
        seq![digit_char(n)]
    } else {
        decimal(n / 10).push(digit_char(n % 10))
    }
}

/// The decimal text of an integer, with a leading minus sign when negative.
pub open spec fn signed_decimal(n: int) -> Seq<char> {
    if n < 0 {
        seq!['-'] + decimal((-n) as nat)
    } else {
        decimal(n as nat)
    }
}

fn digit(d: u64) -> (c: char)
    requires
        d < 10,
    ensures
        c == digit_char(d as nat),
{
    let b: u8 = 48u8 + (d as u8);
    b as char
}

fn push_decimal(s: &mut String, n: u128)
    ensures
        final(s)@ == old(s)@ + decimal(n as nat),
    decreases n,
{
    if n >= 10 {
        push_decimal(s, n / 10);
    }
    crate::text::push_char(s, digit((n % 10) as u64));
    proof {
        if n < 10 {
            assert(decimal(n as nat) =~= seq![digit_char(n as nat)]);
        }
    }
}

/// Appends the decimal text of a 64-bit count.
pub fn append_decimal(s: &mut String, n: u64)
    ensures
        final(s)@ == old(s)@ + decimal(n as nat),
{
    push_decimal(s, n as u128);
}

/// Appends the decimal text of a 32-bit integer.
pub fn append_signed_decimal(s: &mut String, n: i32)
    ensures
        final(s)@ == old(s)@ + signed_decimal(n as int),
{
    if n < 0 {
        crate::text::push_char(s, '-');
        let m: u128 = (0i64 - (n as i64)) as u128;
        push_decimal(s, m);
        proof {
            assert(old(s)@.push('-') + decimal(m as nat) =~= old(s)@ + (seq!['-'] + decimal(m as nat)));
        }
    } else {
        push_decimal(s, n as u128);
    }
}

/// Inserts `x` after every text that does not order after it.
pub open spec fn insert_text(s: Seq<Seq<char>>, x: Seq<char>) -> Seq<Seq<char>>
    decreases s.len(),
{
    if s.len() == 0 {
        seq![x]
    } else if crate::text::text_lt(x, s.last()) {
        insert_text(s.drop_last(), x).push(s.last())
    } else {
        s.push(x)
    }
}

/// Texts sorted by `String`'s order.
pub open spec fn sort_texts(s: Seq<Seq<char>>) -> Seq<Seq<char>>
    decreases s.len(),
{
    if s.len() == 0 {
        seq![]
    } else {
        insert_text(sort_texts(s.drop_last()), s.last())
    }
}

/// Texts joined with `", "` between them.
pub open spec fn joined(s: Seq<Seq<char>>) -> Seq<char>
    decreases s.len(),
{
    if s.len() == 0 {
        seq![]
    } else if s.len() == 1 {
        s[0]
    } else {
        joined(s.drop_last()) + ", "@ + s.last()
    }
}

/// The characters of texts.
pub open spec fn texts(v: Seq<String>) -> Seq<Seq<char>> {
    v.map_values(|t: String| t@)
}

proof fn lemma_insert_text_at(s: Seq<Seq<char>>, x: Seq<char>, j: int)
    requires
        0 <= j <= s.len(),
        forall|k: int| j <= k < s.len() ==> crate::text::text_lt(x, #[trigger] s[k]),
        j == 0 || !crate::text::text_lt(x, s[j - 1]),
    ensures
        insert_text(s, x) == s.take(j).push(x) + s.skip(j),
    decreases s.len(),
{
    if s.len() == 0 {
        assert(s.take(j).push(x) + s.skip(j) =~= seq![x]);
    } else if crate::text::text_lt(x, s.last()) {
        lemma_insert_text_at(s.drop_last(), x, j);
        assert(s.drop_last().take(j) =~= s.take(j));
        assert((s.drop_last().take(j).push(x) + s.drop_last().skip(j)).push(s.last()) =~= s.take(j).push(x) + s.skip(j));
    } else {
        assert(s.take(j).push(x) + s.skip(j) =~= s.push(x));
    }
}

/// Sorts texts by `String`'s order.
pub fn sort_strings(items: Vec<String>) -> (r: Vec<String>)
    ensures
        texts(r@) == sort_texts(texts(items@)),
{
    let ghost orig = texts(items@);
    let n = items.len();
    let mut v = items;
    let mut i: usize = 0;
    assert(orig.take(0) =~= Seq::<Seq<char>>::empty());
    assert(texts(v@).skip(0) =~= orig);
    while i < n
        invariant
            n == orig.len(),
            v@.len() == n,
            i <= n,
            texts(v@).take(i as int) == sort_texts(orig.take(i as int)),
            texts(v@).skip(i as int) == orig.skip(i as int),
        decreases n - i,
    {
        let ghost before = texts(v@);
        let ghost sorted = before.take(i as int);
        assert(before[i as int] == orig[i as int]) by {
            assert(before.skip(i as int)[0] == orig.skip(i as int)[0]);
        }
        let x = v.remove(i);
        let ghost removed = texts(v@);
        assert(removed.take(i as int) =~= sorted);
        let mut j: usize = i;
        while j > 0 && crate::text::text_less(x.as_str(), v[j - 1].as_str())
            invariant
                j <= i,
                i < n,
                v@.len() == n - 1,
                texts(v@) == removed,
                removed.take(i as int) == sorted,
                forall|m: int| j <= m < i ==> crate::text::text_lt(x@, #[trigger] sorted[m]),
            decreases j,
        {
            assert(sorted[j - 1] == removed[j - 1]);
            j = j - 1;
        }
        proof {
            if j > 0 {
                assert(sorted[j - 1] == removed[j - 1]);
            }
            lemma_insert_text_at(sorted, x@, j as int);
            assert(orig.take(i + 1).drop_last() =~= orig.take(i as int));
            assert(orig.take(i + 1).last() == x@);
        }
        v.insert(j, x);
        proof {
            let after = texts(v@);
            assert(after.take(i + 1) =~= sorted.take(j as int).push(x@) + sorted.skip(j as int));
            assert forall|m: int| 0 <= m < n - (i + 1) implies #[trigger] after.skip(i + 1)[m] == orig.skip(i + 1)[m] by {
                assert(after[i + 1 + m] == removed[i + m]);
                assert(removed[i + m] == before[i + 1 + m]);
                assert(before.skip(i as int)[m + 1] == orig.skip(i as int)[m + 1]);
            }
            assert(after.skip(i + 1) =~= orig.skip(i + 1));
        }
        i = i + 1;
    }
    proof {
        assert(orig.take(n as int) =~= orig);
        assert(texts(v@).take(n as int) =~= texts(v@));
    }
    v
}

/// Appends texts joined with `", "`.
pub fn append_joined(s: &mut String, parts: &Vec<String>)
    ensures
        final(s)@ == old(s)@ + joined(texts(parts@)),
{
    let ghost ts = texts(parts@);
    let mut i: usize = 0;
    proof {
        assert(ts.take(0) =~= Seq::<Seq<char>>::empty());
        assert(old(s)@ + joined(ts.take(0)) =~= old(s)@);
    }
    while i < parts.len()
        invariant
            i <= parts@.len(),
            ts == texts(parts@),
            s@ == old(s)@ + joined(ts.take(i as int)),
        decreases parts@.len() - i,
    {
        let ghost before = s@;
        if i > 0 {
            s.append(", ");
        }
        s.append(parts[i].as_str());
        proof {
            reveal_strlit(", ");
            let t = ts.take(i + 1);
            assert(t.drop_last() =~= ts.take(i as int));
            assert(t.last() == parts@[i as int]@);
            if i == 0 {
                assert(joined(t) == t[0]);
                assert(s@ =~= old(s)@ + joined(t));
            } else {
                assert(s@ =~= old(s)@ + joined(t));
            }
        }
        i = i + 1;
    }
    proof {
        assert(ts.take(i as int) =~= ts);
    }
}

/// The vector configuration of an existing collection.
#[derive(Debug, Clone, PartialEq, Eq)]
pub enum CollectionVectorsShape {
    /// One unnamed vector of a size, with the distance metric's protocol number.
    Params { size: u64, distance: i32 },
    /// Named vectors.
    ParamsMap { names: Vec<String> },
}

/// The protocol number of the cosine distance.
pub open spec fn cosine_distance() -> i32 {
    1
}

/// The name of a distance metric's protocol number, or the number itself when unknown.
pub open spec fn distance_name(d: i32) -> Seq<char> {
    if d == 0 {
        "UnknownDistance"@
    } else if d == 1 {
        "Cosine"@
    } else if d == 2 {
        "Euclid"@
    } else if d == 3 {
        "Dot"@
    } else if d == 4 {
        "Manhattan"@
    } else {
        signed_decimal(d as int)
    }
}

fn append_distance_name(s: &mut String, d: i32)
    ensures
        final(s)@ == old(s)@ + distance_name(d),
{
    if d == 0 {
        s.append("UnknownDistance");
    } else if d == 1 {
        s.append("Cosine");
    } else if d == 2 {
        s.append("Euclid");
    } else if d == 3 {
        s.append("Dot");
    } else if d == 4 {
        s.append("Manhattan");
    } else {
        append_signed_decimal(s, d);
    }
}

/// The message of a collection without usable vectors.
pub open spec fn collection_message(name: Seq<char>, expected: u64, config: Option<Option<CollectionVectorsShape>>) -> Option<Seq<char>> {
    let head = "Qdrant collection '"@ + name + "'"@;
    let want = decimal(expected as nat);
    match config {
        None => Some(head + " is missing vector configuration; expected unnamed vectors with size "@ + want + "."@),
        Some(None) => Some(head + " vector configuration is empty; expected unnamed vectors with size "@ + want + "."@),
        Some(Some(CollectionVectorsShape::Params { size, distance })) => if size == expected {
            if distance == cosine_distance() {
                None
            } else {
                Some(head + " vector distance mismatch: expected Cosine, found "@ + distance_name(distance) + "."@)
            }
        } else {
            Some(head + " vector size mismatch: expected "@ + want + ", found "@ + decimal(size as nat) + "."@)
        },
        Some(Some(CollectionVectorsShape::ParamsMap { names })) => Some(
            head + " uses named vectors ("@ + joined(sort_texts(texts(names@)))
                + ") but CharacterMemory expects an unnamed vector with size "@ + want + "."@,
        ),
    }
}

/// Checks an existing collection's vector configuration: one unnamed vector of the
/// expected size with the cosine distance. Anything else is refused with a message
/// naming the collection and what was found.
pub fn validate_collection_vector_config(
    collection_name: &str,
    expected_vector_size: u64,
    vectors_config: Option<Option<CollectionVectorsShape>>,
) -> (r: Result<(), CustomError>)
    ensures
        match collection_message(collection_name@, expected_vector_size, vectors_config) {
            None => r is Ok,
            Some(m) => r matches Err(CustomError::DatabaseError(msg)) && msg@ == m,
        },
{
    let mut msg = String::from_str("Qdrant collection '");
    msg.append(collection_name);
    msg.append("'");
    let ghost head = msg@;
    proof {
        reveal_strlit("Qdrant collection '");
        reveal_strlit("'");
        assert(head =~= "Qdrant collection '"@ + collection_name@ + "'"@);
    }
    match vectors_config {
        None => {
            msg.append(" is missing vector configuration; expected unnamed vectors with size ");
            append_decimal(&mut msg, expected_vector_size);
            msg.append(".");
            proof {
                assert(msg@ =~= head + " is missing vector configuration; expected unnamed vectors with size "@ + decimal(
                    expected_vector_size as nat,
                ) + "."@);
            }
            Err(CustomError::DatabaseError(msg))
        },
        Some(None) => {
            msg.append(" vector configuration is empty; expected unnamed vectors with size ");
            append_decimal(&mut msg, expected_vector_size);
            msg.append(".");
            proof {
                assert(msg@ =~= head + " vector configuration is empty; expected unnamed vectors with size "@ + decimal(
                    expected_vector_size as nat,
                ) + "."@);
            }
            Err(CustomError::DatabaseError(msg))
        },
        Some(Some(CollectionVectorsShape::Params { size, distance })) => {
            if size == expected_vector_size {
                if distance == 1 {
                    Ok(())
                } else {
                    msg.append(" vector distance mismatch: expected Cosine, found ");
                    append_distance_name(&mut msg, distance);
                    msg.append(".");
                    proof {
                        assert(msg@ =~= head + " vector distance mismatch: expected Cosine, found "@ + distance_name(distance) + "."@);
                    }
                    Err(CustomError::DatabaseError(msg))
                }
            } else {
                msg.append(" vector size mismatch: expected ");
                append_decimal(&mut msg, expected_vector_size);
                msg.append(", found ");
                append_decimal(&mut msg, size);
                msg.append(".");
                proof {
                    assert(msg@ =~= head + " vector size mismatch: expected "@ + decimal(expected_vector_size as nat) + ", found "@
                        + decimal(size as nat) + "."@);
                }
                Err(CustomError::DatabaseError(msg))
            }
        },
        Some(Some(CollectionVectorsShape::ParamsMap { names })) => {
            let sorted = sort_strings(names);
            msg.append(" uses named vectors (");
            append_joined(&mut msg, &sorted);
            msg.append(") but CharacterMemory expects an unnamed vector with size ");
            append_decimal(&mut msg, expected_vector_size);
            msg.append(".");
            proof {
                assert(msg@ =~= head + " uses named vectors ("@ + joined(texts(sorted@))
                    + ") but CharacterMemory expects an unnamed vector with size "@ + decimal(expected_vector_size as nat) + "."@);
            }
            Err(CustomError::DatabaseError(msg))
        },
    }
}

} // verus!
