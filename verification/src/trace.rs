//! One logged turn of a conversation, and the metadata it carries.
use vstd::prelude::*;
use vstd::string::StringExecFns;
use crate::clock::{now, Timestamp};

verus! {

/// One value of a trace's metadata.
#[derive(Clone, Debug, PartialEq)]
pub enum MetaValue {
    Null,
    Bool(bool),
    Int(i64),
    Text(String),
    /// Any other JSON value: a fraction, a number beyond `i64`, a list or an
    /// object.
    Json(serde_json::Value),
}

/// A key of a trace's metadata with its value.
#[derive(Clone, Debug, PartialEq)]
pub struct MetaEntry {
    pub key: String,
    pub value: MetaValue,
}

/// No two entries of `s` have the same key.
pub open spec fn distinct_keys(s: Seq<MetaEntry>) -> bool {
    forall|i: int, j: int| 0 <= i < j < s.len() ==> s[i].key@ != s[j].key@
}

/// The value that `s` holds under `key`: that of the last entry with the key.
pub open spec fn lookup(s: Seq<MetaEntry>, key: Seq<char>) -> Option<MetaValue>
    decreases s.len(),
{
    if s.len() == 0 {
        None
    } else if s.last().key@ == key {
        Some(s.last().value)
    } else {
        lookup(s.drop_last(), key)
    }
}

/// The mapping that a list of entries stands for.
pub open spec fn entries_map(s: Seq<MetaEntry>) -> Map<Seq<char>, MetaValue> {
    Map::new(|k: Seq<char>| lookup(s, k).is_some(), |k: Seq<char>| lookup(s, k).unwrap())
}

/// A key that no entry has is not held.
pub proof fn lemma_lookup_absent(s: Seq<MetaEntry>, key: Seq<char>)
    requires
        forall|j: int| 0 <= j < s.len() ==> s[j].key@ != key,
    ensures
        lookup(s, key).is_none(),
    decreases s.len(),
{
    if s.len() > 0 {
        lemma_lookup_absent(s.drop_last(), key);
    }
}

/// Where keys are distinct, an entry's key is held with that entry's value.
pub proof fn lemma_lookup_at(s: Seq<MetaEntry>, i: int)
    requires
        distinct_keys(s),
        0 <= i < s.len(),
    ensures
        lookup(s, s[i].key@) == Some(s[i].value),
    decreases s.len(),
{
    if i < s.len() - 1 {
        lemma_lookup_at(s.drop_last(), i);
    }
}

/// Replacing the value of one entry changes what is held under its key and
/// nothing else.
pub proof fn lemma_lookup_update(s: Seq<MetaEntry>, i: int, e: MetaEntry, key: Seq<char>)
    requires
        distinct_keys(s),
        0 <= i < s.len(),
        e.key@ == s[i].key@,
    ensures
        distinct_keys(s.update(i, e)),
        lookup(s.update(i, e), key) == if key == e.key@ {
            Some(e.value)
        } else {
            lookup(s, key)
        },
    decreases s.len(),
{
    let t = s.update(i, e);
    if key == e.key@ {
        lemma_lookup_at(t, i);
    } else if i == s.len() - 1 {
        assert(t.drop_last() =~= s.drop_last());
    } else {
        assert(t.drop_last() =~= s.drop_last().update(i, e));
        lemma_lookup_update(s.drop_last(), i, e, key);
    }
}

/// The place of the last entry with the key, or -1 where there is none.
pub open spec fn index_of(s: Seq<MetaEntry>, key: Seq<char>) -> int
    decreases s.len(),
{
    if s.len() == 0 {
        -1
    } else if s.last().key@ == key {
        s.len() - 1
    } else {
        index_of(s.drop_last(), key)
    }
}

/// The entries with `e` in the place of the entry of its key, or at the end
/// where no entry has its key.
pub open spec fn with_entry(s: Seq<MetaEntry>, e: MetaEntry) -> Seq<MetaEntry> {
    if index_of(s, e.key@) < 0 {
        s.push(e)
    } else {
        s.update(index_of(s, e.key@), e)
    }
}

/// A key that no entry has has no place.
pub proof fn lemma_index_absent(s: Seq<MetaEntry>, key: Seq<char>)
    requires
        forall|j: int| 0 <= j < s.len() ==> s[j].key@ != key,
    ensures
        index_of(s, key) == -1,
    decreases s.len(),
{
    if s.len() > 0 {
        lemma_index_absent(s.drop_last(), key);
    }
}

/// Where keys are distinct, the place of an entry's key is the entry's.
pub proof fn lemma_index_at(s: Seq<MetaEntry>, i: int)
    requires
        distinct_keys(s),
        0 <= i < s.len(),
    ensures
        index_of(s, s[i].key@) == i,
    decreases s.len(),
{
    if i < s.len() - 1 {
        lemma_index_at(s.drop_last(), i);
    }
}

/// The metadata of a trace: a mapping from keys to values, each key held once.
#[derive(Clone, Debug)]
pub struct Metadata {
    entries: Vec<MetaEntry>,
}

impl View for Metadata {
    type V = Map<Seq<char>, MetaValue>;

    open spec fn view(&self) -> Map<Seq<char>, MetaValue> {
        entries_map(self.stored())
    }
}

impl Metadata {
    /// The entries as they are stored.
    pub closed spec fn stored(&self) -> Seq<MetaEntry> {
        self.entries@
    }

    /// No key is held twice.
    pub open spec fn wf(&self) -> bool {
        distinct_keys(self.stored())
    }

    /// The empty mapping.
    pub fn new() -> (m: Metadata)
        ensures
            m.wf(),
            m@ == Map::<Seq<char>, MetaValue>::empty(),
            m.stored().len() == 0,
    {
        let m = Metadata { entries: Vec::new() };
        assert(m@ =~= Map::<Seq<char>, MetaValue>::empty());
        m
    }

    /// The mapping that a list of entries stands for; `None` where two of
    /// them have the same key.
    pub fn from_entries(entries: Vec<MetaEntry>) -> (r: Option<Metadata>)
        ensures
            r.is_some() == distinct_keys(entries@),
            r matches Some(m) ==> m.wf() && m.stored() == entries@ && m@ == entries_map(entries@),
    {
        if has_distinct_keys(&entries) {
            Some(Metadata { entries })
        } else {
            None
        }
    }

    /// The entries, one for each key.
    pub fn entries(&self) -> (r: &Vec<MetaEntry>)
        ensures
            r@ == self.stored(),
    {
        &self.entries
    }

    /// The number of keys.
    pub fn len(&self) -> (n: usize)
        ensures
            n == self.stored().len(),
    {
        self.entries.len()
    }

    /// Holds `value` under `key`, in place of what was held there.
    pub fn insert(&mut self, key: String, value: MetaValue)
        requires
            old(self).wf(),
        ensures
            final(self).wf(),
            final(self)@ == old(self)@.insert(key@, value),
            final(self).stored() == with_entry(old(self).stored(), MetaEntry { key, value }),
    {
        let mut i: usize = 0;
        while i < self.entries.len()
            invariant
                self.entries == old(self).entries,
                self.wf(),
                0 <= i <= self.entries.len(),
                forall|j: int| 0 <= j < i ==> self.entries[j].key@ != key@,
            decreases self.entries.len() - i,
        {
            if self.entries[i].key == key {
                let ghost before = self.entries@;
                let e = MetaEntry { key, value };
                self.entries.set(i, e);
                proof {
                    assert forall|k: Seq<char>| #[trigger] lookup(self.entries@, k) == (if k == key@ {
                        Some(value)
                    } else {
                        lookup(before, k)
                    }) by {
                        lemma_lookup_update(before, i as int, e, k);
                    }
                    lemma_lookup_update(before, i as int, e, key@);
                    lemma_index_at(before, i as int);
                    assert(self@ =~= old(self)@.insert(key@, value));
                }
                return ;
            }
            i += 1;
        }
        let ghost before = self.entries@;
        let e = MetaEntry { key, value };
        self.entries.push(e);
        proof {
            lemma_index_absent(before, key@);
            assert(self.entries@.drop_last() =~= before);
            assert(self@ =~= old(self)@.insert(key@, value));
        }
    }

    /// The value held under `key`, if any.
    pub fn get(&self, key: &str) -> (r: Option<&MetaValue>)
        requires
            self.wf(),
        ensures
            r.is_some() == self@.contains_key(key@),
            r matches Some(v) ==> self@[key@] == *v,
    {
        let wanted = String::from_str(key);
        let mut i: usize = 0;
        while i < self.entries.len()
            invariant
                0 <= i <= self.entries.len(),
                self.wf(),
                wanted@ == key@,
                forall|j: int| 0 <= j < i ==> self.entries[j].key@ != key@,
            decreases self.entries.len() - i,
        {
            if self.entries[i].key == wanted {
                proof {
                    lemma_lookup_at(self.entries@, i as int);
                }
                return Some(&self.entries[i].value);
            }
            i += 1;
        }
        proof {
            lemma_lookup_absent(self.entries@, key@);
        }
        None
    }
}

/// Whether no two entries have the same key.
pub fn has_distinct_keys(entries: &Vec<MetaEntry>) -> (r: bool)
    ensures
        r == distinct_keys(entries@),
{
    let mut j: usize = 0;
    while j < entries.len()
        invariant
            0 <= j <= entries.len(),
            forall|a: int, b: int| 0 <= a < b < j ==> entries[a].key@ != entries[b].key@,
        decreases entries.len() - j,
    {
        let mut i: usize = 0;
        while i < j
            invariant
                0 <= i <= j < entries.len(),
                forall|a: int| 0 <= a < i ==> entries[a].key@ != entries[j as int].key@,
            decreases j - i,
        {
            if entries[i].key == entries[j].key {
                return false;
            }
            i += 1;
        }
        j += 1;
    }
    true
}

/// `uuid::Uuid::new_v4` written out with `to_string`: a random identifier in
/// the hyphenated form, which is 36 characters long.
#[verifier::external_body]
pub(crate) fn fresh_id() -> (id: String)
    ensures
        id@.len() == 36,
{
    uuid::Uuid::new_v4().to_string()
}

/// One logged turn: a message with its metadata.
#[derive(Clone, Debug)]
pub struct Trace {
    /// Unique identifier of the trace.
    pub id: String,
    /// The session that the trace belongs to.
    pub session_id: String,
    /// Who spoke: "user", "assistant", "system" or any other tag.
    pub role: String,
    /// The message text.
    pub content: String,
    /// Structured facts about the turn.
    pub metadata: Metadata,
    /// When the trace was made.
    pub created_at: Timestamp,
    /// Reserved for a semantic index; never read here.
    pub embedding: Option<String>,
}

/// What a trace holds, as mathematical values.
pub struct TraceView {
    pub id: Seq<char>,
    pub session_id: Seq<char>,
    pub role: Seq<char>,
    pub content: Seq<char>,
    pub metadata: Map<Seq<char>, MetaValue>,
    pub created_at: Timestamp,
    pub embedding: Option<Seq<char>>,
}

impl TraceView {
    /// The turn counts as successful unless its metadata holds the boolean
    /// `false` under "success".
    pub open spec fn succeeded(self) -> bool {
        !(self.metadata.contains_key("success"@) && self.metadata["success"@] == MetaValue::Bool(
            false,
        ))
    }
}

/// The view of an optional text.
pub open spec fn text_view(s: Option<String>) -> Option<Seq<char>> {
    match s {
        Some(t) => Some(t@),
        None => None,
    }
}

impl View for Trace {
    type V = TraceView;

    open spec fn view(&self) -> TraceView {
        TraceView {
            id: self.id@,
            session_id: self.session_id@,
            role: self.role@,
            content: self.content@,
            metadata: self.metadata@,
            created_at: self.created_at,
            embedding: text_view(self.embedding),
        }
    }
}

impl Trace {
    /// The metadata holds no key twice.
    pub open spec fn wf(&self) -> bool {
        self.metadata.wf()
    }

    /// A trace of the given session, role and content, with a fresh
    /// identifier, the current time, no metadata and no embedding.
    pub fn new(session_id: String, role: String, content: String) -> (t: Trace)
        ensures
            t.wf(),
            t.id@.len() == 36,
            t.session_id == session_id,
            t.role == role,
            t.content == content,
            t.metadata@ == Map::<Seq<char>, MetaValue>::empty(),
            t.metadata.stored().len() == 0,
            t.embedding.is_none(),
    {
        Trace {
            id: fresh_id(),
            session_id,
            role,
            content,
            metadata: Metadata::new(),
            created_at: now(),
            embedding: None,
        }
    }

    /// The trace with its metadata replaced as a whole.
    pub fn with_metadata(self, metadata: Metadata) -> (t: Trace)
        ensures
            t == (Trace { metadata, ..self }),
    {
        let mut t = self;
        t.metadata = metadata;
        t
    }

    /// Holds `value` under `key` in the metadata, in place of what was held
    /// there.
    pub fn add_metadata(&mut self, key: String, value: MetaValue)
        requires
            old(self).wf(),
        ensures
            final(self).wf(),
            final(self).metadata@ == old(self).metadata@.insert(key@, value),
            final(self).metadata.stored() == with_entry(
                old(self).metadata.stored(),
                MetaEntry { key, value },
            ),
            final(self)@ == (TraceView { metadata: final(self).metadata@, ..old(self)@ }),
    {
        self.metadata.insert(key, value);
    }

    /// The metadata value under `key`, if any.
    pub fn get_metadata(&self, key: &str) -> (r: Option<&MetaValue>)
        requires
            self.wf(),
        ensures
            r.is_some() == self@.metadata.contains_key(key@),
            r matches Some(v) ==> self@.metadata[key@] == *v,
    {
        self.metadata.get(key)
    }

    /// Whether the turn counts as successful: it does unless the metadata
    /// holds the boolean `false` under "success".
    pub fn is_success(&self) -> (r: bool)
        requires
            self.wf(),
        ensures
            r == self@.succeeded(),
    {
        match self.metadata.get("success") {
            Some(MetaValue::Bool(b)) => *b,
            _ => true,
        }
    }
}

} // verus!
