//! Message catalogs: a parsed YAML document is flattened into dotted keys
//! (`toolbar.open_files`) and stored in a map with distinct keys, in which a
//! later entry for a key replaces an earlier one.
use vstd::prelude::*;

use crate::text::{chars_equal, chars_of, push_chars, push_char, string_from_chars};

verus! {

/// The part of a YAML document that catalogs read: mappings, strings,
/// tagged values, and everything else.
#[derive(Debug)]
pub enum YamlNode {
    Mapping(Vec<(YamlNode, YamlNode)>),
    Text(String),
    Tagged(Box<YamlNode>),
    Other,
}

/// A YAML value as `serde_yaml` parses it.
#[verifier::external_type_specification]
#[verifier::external_body]
pub struct ExYamlValue(serde_yaml::Value);

/// The document that `serde_yaml` parses from a text, or `None` when the
/// text is not valid YAML.
pub uninterp spec fn yaml_document(text: Seq<char>) -> Option<YamlNode>;

/// Parses `text` with `serde_yaml::from_str::<serde_yaml::Value>` and keeps
/// the mappings and strings of the result. Trusted: the result is the one
/// `serde_yaml` gives for this text, named `yaml_document`.
#[verifier::external_body]
pub(crate) fn parse_yaml(text: &str) -> (document: Option<YamlNode>)
    ensures
        document == yaml_document(text@),
{
    serde_yaml::from_str::<serde_yaml::Value>(text).ok().map(|value| node_from_value(&value))
}

/// Converts a `serde_yaml::Value` variant by variant: mappings entry by
/// entry in their order, strings as they are, a tagged value as the tag's
/// value (the tag itself is dropped), every other variant to `Other`.
/// Trusted conversion used by `parse_yaml` only.
#[verifier::external_body]
fn node_from_value(value: &serde_yaml::Value) -> YamlNode {
    match value {
        serde_yaml::Value::Null => YamlNode::Other,
        serde_yaml::Value::Bool(_) => YamlNode::Other,
        serde_yaml::Value::Number(_) => YamlNode::Other,
        serde_yaml::Value::String(text) => YamlNode::Text(text.clone()),
        serde_yaml::Value::Sequence(_) => YamlNode::Other,
        serde_yaml::Value::Mapping(mapping) => YamlNode::Mapping(
            mapping.iter().map(|(key, value)| (node_from_value(key), node_from_value(value))).collect(),
        ),
        serde_yaml::Value::Tagged(tagged) => YamlNode::Tagged(Box::new(node_from_value(&tagged.value))),
    }
}

/// The key under which a child named `key` of a node at `prefix` is stored.
pub open spec fn child_key(prefix: Seq<char>, key: Seq<char>) -> Seq<char> {
    if prefix.len() == 0 {
        key
    } else {
        prefix + seq!['.'] + key
    }
}

/// The text of a mapping key: a string, under any number of tags, as
/// `serde_yaml::Value::as_str` reads it.
pub open spec fn key_text(node: YamlNode) -> Option<Seq<char>>
    decreases node,
{
    match node {
        YamlNode::Text(key) => Some(key@),
        YamlNode::Tagged(inner) => key_text(*inner),
        _ => None,
    }
}

/// The (key, message) pairs of `node` at `prefix`, in document order: a
/// string is one message; a mapping contributes the pairs of each entry whose
/// key is a string (tagged or not); anything else, a tagged value included,
/// contributes nothing.
pub open spec fn flattened(prefix: Seq<char>, node: YamlNode) -> Seq<(Seq<char>, Seq<char>)>
    decreases node, 0nat,
{
    match node {
        YamlNode::Mapping(entries) => flattened_entries(prefix, entries@, entries@.len()),
        YamlNode::Text(message) => seq![(prefix, message@)],
        _ => seq![],
    }
}

/// The pairs of the first `n` entries of a mapping at `prefix`.
pub open spec fn flattened_entries(
    prefix: Seq<char>,
    entries: Seq<(YamlNode, YamlNode)>,
    n: nat,
) -> Seq<(Seq<char>, Seq<char>)>
    decreases entries, n,
{
    if n == 0 || n > entries.len() {
        seq![]
    } else {
        flattened_entries(prefix, entries, (n - 1) as nat) + match key_text(entries[n - 1].0) {
            Some(key) => flattened(child_key(prefix, key), entries[n - 1].1),
            None => seq![],
        }
    }
}

/// The map that inserting `pairs` one after another into `m` gives.
pub open spec fn insert_all(
    m: Map<Seq<char>, Seq<char>>,
    pairs: Seq<(Seq<char>, Seq<char>)>,
) -> Map<Seq<char>, Seq<char>>
    decreases pairs.len(),
{
    if pairs.len() == 0 {
        m
    } else {
        insert_all(m, pairs.drop_last()).insert(pairs.last().0, pairs.last().1)
    }
}

/// The catalog that a parsed document yields: its flattened pairs, inserted
/// in order; no document gives the empty catalog.
pub open spec fn catalog_of_document(document: Option<YamlNode>) -> Map<Seq<char>, Seq<char>> {
    match document {
        Some(node) => insert_all(Map::empty(), flattened(Seq::empty(), node)),
        None => Map::empty(),
    }
}

pub proof fn lemma_insert_all_append(
    m: Map<Seq<char>, Seq<char>>,
    a: Seq<(Seq<char>, Seq<char>)>,
    b: Seq<(Seq<char>, Seq<char>)>,
)
    ensures
        insert_all(m, a + b) == insert_all(insert_all(m, a), b),
    decreases b.len(),
{
    if b.len() == 0 {
        assert(a + b =~= a);
    } else {
        assert((a + b).drop_last() =~= a + b.drop_last());
        lemma_insert_all_append(m, a, b.drop_last());
    }
}

/// A map from message keys to messages, kept as a list of entries with
/// distinct keys.
#[derive(Debug)]
pub struct Catalog {
    entries: Vec<(String, String)>,
}

impl Clone for Catalog {
    /// A copy with the same entries in the same order.
    fn clone(&self) -> (copy: Self)
        ensures
            copy.pairs() == self.pairs(),
    {
        proof {
            use_type_invariant(self);
        }
        let mut entries: Vec<(String, String)> = Vec::new();
        let mut i: usize = 0;
        while i < self.entries.len()
            invariant
                i <= self.entries@.len(),
                entries@.len() == i,
                entry_views(entries@) == entry_views(self.entries@).take(i as int),
            decreases self.entries@.len() - i,
        {
            let key = self.entries[i].0.clone();
            let message = self.entries[i].1.clone();
            let ghost before = entries@;
            entries.push((key, message));
            proof {
                assert(entries@ == before.push((key, message)));
                assert(key@ == self.entries@[i as int].0@);
                assert(message@ == self.entries@[i as int].1@);
                assert forall|j: int| 0 <= j < i + 1 implies #[trigger] entry_views(entries@)[j]
                    == entry_views(self.entries@)[j] by {
                    if j < i {
                        assert(entry_views(entries@)[j] == entry_views(before)[j]);
                        assert(entry_views(before)[j] == entry_views(self.entries@).take(i as int)[j]);
                    }
                }
                assert(entry_views(entries@) =~= entry_views(self.entries@).take(i + 1));
            }
            i = i + 1;
        }
        proof {
            assert(entry_views(self.entries@).take(i as int) =~= entry_views(self.entries@));
        }
        Catalog { entries }
    }
}

/// The (key, message) views of a list of entries.
pub open spec fn entry_views(entries: Seq<(String, String)>) -> Seq<(Seq<char>, Seq<char>)> {
    entries.map_values(|e: (String, String)| (e.0@, e.1@))
}

/// No two pairs share a key.
pub open spec fn distinct_keys(pairs: Seq<(Seq<char>, Seq<char>)>) -> bool {
    forall|i: int, j: int| 0 <= i < j < pairs.len() ==> pairs[i].0 != pairs[j].0
}

proof fn lemma_map_of_distinct(pairs: Seq<(Seq<char>, Seq<char>)>)
    requires
        distinct_keys(pairs),
    ensures
        forall|i: int|
            0 <= i < pairs.len() ==> #[trigger] insert_all(Map::empty(), pairs).contains_key(
                pairs[i].0,
            ) && insert_all(Map::empty(), pairs)[pairs[i].0] == pairs[i].1,
        forall|k: Seq<char>|
            #[trigger] insert_all(Map::empty(), pairs).contains_key(k) ==> exists|i: int|
                0 <= i < pairs.len() && pairs[i].0 == k,
        insert_all(Map::empty(), pairs).dom().finite(),
        insert_all(Map::empty(), pairs).dom().len() == pairs.len(),
    decreases pairs.len(),
{
    if pairs.len() > 0 {
        let init = pairs.drop_last();
        assert(distinct_keys(init));
        lemma_map_of_distinct(init);
        let m = insert_all(Map::empty(), init);
        assert(!m.contains_key(pairs.last().0)) by {
            if m.contains_key(pairs.last().0) {
                let i = choose|i: int| 0 <= i < init.len() && init[i].0 == pairs.last().0;
                assert(pairs[i].0 == pairs[pairs.len() - 1].0);
            }
        }
        assert forall|i: int| 0 <= i < pairs.len() implies #[trigger] insert_all(
            Map::empty(),
            pairs,
        ).contains_key(pairs[i].0) && insert_all(Map::empty(), pairs)[pairs[i].0] == pairs[i].1 by {
            if i < pairs.len() - 1 {
                assert(init[i] == pairs[i]);
                assert(pairs[i].0 != pairs[pairs.len() - 1].0);
            }
        }
        assert forall|k: Seq<char>| #[trigger]
            insert_all(Map::empty(), pairs).contains_key(k) implies exists|i: int|
            0 <= i < pairs.len() && pairs[i].0 == k by {
            if k != pairs.last().0 {
                assert(m.contains_key(k));
                let i = choose|i: int| 0 <= i < init.len() && init[i].0 == k;
                assert(pairs[i] == init[i]);
            } else {
                assert(pairs[pairs.len() - 1].0 == k);
            }
        }
    } else {
        assert(insert_all(Map::empty(), pairs) =~= Map::empty());
    }
}

proof fn lemma_insert_all_update(pairs: Seq<(Seq<char>, Seq<char>)>, i: int, value: Seq<char>)
    requires
        distinct_keys(pairs),
        0 <= i < pairs.len(),
    ensures
        insert_all(Map::empty(), pairs.update(i, (pairs[i].0, value))) == insert_all(
            Map::empty(),
            pairs,
        ).insert(pairs[i].0, value),
    decreases pairs.len(),
{
    let updated = pairs.update(i, (pairs[i].0, value));
    if i == pairs.len() - 1 {
        assert(updated.drop_last() =~= pairs.drop_last());
        let m = insert_all(Map::empty(), pairs.drop_last());
        assert(m.insert(pairs[i].0, value) =~= m.insert(pairs[i].0, pairs[i].1).insert(
            pairs[i].0,
            value,
        ));
    } else {
        let init = pairs.drop_last();
        assert(distinct_keys(init));
        assert(updated.drop_last() =~= init.update(i, (init[i].0, value)));
        lemma_insert_all_update(init, i, value);
        let m = insert_all(Map::empty(), init);
        assert(pairs[i].0 != pairs.last().0);
        assert(m.insert(pairs[i].0, value).insert(pairs.last().0, pairs.last().1) =~= m.insert(
            pairs.last().0,
            pairs.last().1,
        ).insert(pairs[i].0, value));
    }
}

impl Catalog {
    /// Well-formed: no two entries share a key.
    #[verifier::type_invariant]
    closed spec fn wf(&self) -> bool {
        distinct_keys(entry_views(self.entries@))
    }

    /// The entries' (key, message) views, in order.
    pub closed spec fn pairs(&self) -> Seq<(Seq<char>, Seq<char>)> {
        entry_views(self.entries@)
    }

    /// The catalog as a map from keys to messages.
    pub open spec fn messages(&self) -> Map<Seq<char>, Seq<char>> {
        insert_all(Map::empty(), self.pairs())
    }

    /// An empty catalog.
    pub fn new() -> (catalog: Catalog)
        ensures
            catalog.messages() == Map::<Seq<char>, Seq<char>>::empty(),
            catalog.pairs().len() == 0,
    {
        let catalog = Catalog { entries: Vec::new() };
        proof {
            assert(catalog.pairs() =~= Seq::empty());
        }
        catalog
    }

    /// The index of the entry for `key`, if there is one.
    fn position(&self, key: &[char]) -> (found: Option<usize>)
        ensures
            match found {
                Some(i) => i < self.pairs().len() && self.pairs()[i as int].0 == key@,
                None => forall|i: int| 0 <= i < self.pairs().len() ==> self.pairs()[i].0 != key@,
            },
    {
        proof {
            use_type_invariant(self);
        }
        let mut i: usize = 0;
        while i < self.entries.len()
            invariant
                i <= self.entries@.len(),
                self.pairs().len() == self.entries@.len(),
                forall|j: int| 0 <= j < i ==> self.pairs()[j].0 != key@,
            decreases self.entries@.len() - i,
        {
            let entry_key = chars_of(self.entries[i].0.as_str());
            if chars_equal(entry_key.as_slice(), key) {
                return Some(i);
            }
            i = i + 1;
        }
        None
    }

    /// Inserts `message` under `key`, replacing an earlier message for the
    /// same key in place.
    pub fn insert(&mut self, key: String, message: String)
        ensures
            final(self).messages() == old(self).messages().insert(key@, message@),
            final(self).pairs().len() == old(self).pairs().len() + if old(self).messages().contains_key(key@) { 0int } else { 1int },
    {
        proof {
            use_type_invariant(&*self);
        }
        let key_chars = chars_of(key.as_str());
        proof {
            lemma_map_of_distinct(self.pairs());
        }
        let found = self.position(key_chars.as_slice());
        let ghost before = self.pairs();
        let mut entries: Vec<(String, String)> = Vec::new();
        std::mem::swap(&mut entries, &mut self.entries);
        match found {
            Some(i) => {
                entries.set(i, (key, message));
                proof {
                    assert(entry_views(entries@) =~= before.update(i as int, (before[i as int].0, message@)));
                    lemma_insert_all_update(before, i as int, message@);
                    assert forall|a: int, b: int| 0 <= a < b < entry_views(entries@).len() implies entry_views(entries@)[a].0 != entry_views(entries@)[b].0 by {
                        assert(before[a].0 != before[b].0);
                    }
                }
            },
            None => {
                entries.push((key, message));
                proof {
                    assert(entry_views(entries@) =~= before.push((key@, message@)));
                    assert(entry_views(entries@).drop_last() =~= before);
                    assert(!old(self).messages().contains_key(key@));
                }
            },
        }
        self.entries = entries;
    }

    /// The message stored under `key`, if any.
    pub fn get(&self, key: &str) -> (message: Option<String>)
        ensures
            match message {
                Some(m) => self.messages().contains_key(key@) && m@ == self.messages()[key@],
                None => !self.messages().contains_key(key@),
            },
    {
        proof {
            use_type_invariant(self);
        }
        let key_chars = chars_of(key);
        proof {
            lemma_map_of_distinct(self.pairs());
        }
        match self.position(key_chars.as_slice()) {
            Some(i) => {
                let message = self.entries[i].1.clone();
                proof {
                    assert(self.pairs()[i as int].1 == self.entries@[i as int].1@);
                    assert(self.messages().contains_key(self.pairs()[i as int].0));
                }
                Some(message)
            },
            None => None,
        }
    }

    /// Whether a message is stored under `key`.
    pub fn contains_key(&self, key: &str) -> (found: bool)
        ensures
            found == self.messages().contains_key(key@),
    {
        self.get(key).is_some()
    }

    /// The number of keys in the catalog.
    pub fn len(&self) -> (n: usize)
        ensures
            n == self.messages().dom().len(),
    {
        proof {
            use_type_invariant(self);
        }
        proof {
            lemma_map_of_distinct(self.pairs());
        }
        self.entries.len()
    }

    /// The keys of the catalog, each once, in insertion order.
    pub fn keys(&self) -> (keys: Vec<String>)
        ensures
            keys@.len() == self.messages().dom().len(),
            forall|i: int| 0 <= i < keys@.len() ==> #[trigger] self.messages().contains_key(keys@[i]@),
            forall|k: Seq<char>| #[trigger] self.messages().contains_key(k) ==> exists|i: int| 0 <= i < keys@.len() && keys@[i]@ == k,
    {
        proof {
            use_type_invariant(self);
        }
        proof {
            lemma_map_of_distinct(self.pairs());
        }
        let mut keys: Vec<String> = Vec::new();
        let mut i: usize = 0;
        while i < self.entries.len()
            invariant
                i <= self.entries@.len(),
                self.pairs().len() == self.entries@.len(),
                keys@.len() == i,
                forall|j: int| 0 <= j < i ==> #[trigger] keys@[j]@ == self.pairs()[j].0,
            decreases self.entries@.len() - i,
        {
            keys.push(self.entries[i].0.clone());
            i = i + 1;
        }
        proof {
            assert forall|j: int| 0 <= j < keys@.len() implies #[trigger] self.messages().contains_key(keys@[j]@) by {
                assert(keys@[j]@ == self.pairs()[j].0);
            }
            assert forall|k: Seq<char>| #[trigger] self.messages().contains_key(k) implies exists|j: int| 0 <= j < keys@.len() && keys@[j]@ == k by {
                let j = choose|j: int| 0 <= j < self.pairs().len() && self.pairs()[j].0 == k;
                assert(keys@[j]@ == self.pairs()[j].0);
            }
        }
        keys
    }

    /// The (key, message) entries of the catalog, each key once, in insertion
    /// order.
    pub fn entries(&self) -> (entries: Vec<(String, String)>)
        ensures
            entry_views(entries@) == self.pairs(),
    {
        proof {
            use_type_invariant(self);
        }
        let mut out: Vec<(String, String)> = Vec::new();
        let mut i: usize = 0;
        while i < self.entries.len()
            invariant
                i <= self.entries@.len(),
                entry_views(out@) == entry_views(self.entries@.take(i as int)),
            decreases self.entries@.len() - i,
        {
            let key = self.entries[i].0.clone();
            let message = self.entries[i].1.clone();
            let ghost before = out@;
            out.push((key, message));
            proof {
                assert(out@ == before.push((key, message)));
                assert(entry_views(out@) =~= entry_views(before).push((key@, message@)));
                assert(self.entries@.take(i + 1) =~= self.entries@.take(i as int).push(self.entries@[i as int]));
                assert(entry_views(out@) =~= entry_views(self.entries@.take(i + 1)));
            }
            i = i + 1;
        }
        proof {
            assert(self.entries@.take(self.entries@.len() as int) =~= self.entries@);
        }
        out
    }
}

/// The key for a child named `key` below `prefix`: `key` alone at the top
/// level, `prefix.key` below it.
pub fn child_key_chars(prefix: &[char], key: &str) -> (full: Vec<char>)
    ensures
        full@ == child_key(prefix@, key@),
{
    let key_chars = chars_of(key);
    if prefix.len() == 0 {
        key_chars
    } else {
        let mut full: Vec<char> = Vec::new();
        let mut i: usize = 0;
        while i < prefix.len()
            invariant
                i <= prefix@.len(),
                full@ == prefix@.take(i as int),
            decreases prefix@.len() - i,
        {
            full.push(prefix[i]);
            proof {
                assert(prefix@.take(i + 1) =~= prefix@.take(i as int).push(prefix@[i as int]));
            }
            i = i + 1;
        }
        full.push('.');
        let mut j: usize = 0;
        while j < key_chars.len()
            invariant
                j <= key_chars@.len(),
                full@ == prefix@ + seq!['.'] + key_chars@.take(j as int),
            decreases key_chars@.len() - j,
        {
            full.push(key_chars[j]);
            proof {
                assert(key_chars@.take(j + 1) =~= key_chars@.take(j as int).push(key_chars@[j as int]));
            }
            j = j + 1;
        }
        proof {
            assert(prefix@.take(prefix@.len() as int) =~= prefix@);
            assert(key_chars@.take(key_chars@.len() as int) =~= key_chars@);
        }
        full
    }
}

/// The text of a mapping key, under any number of tags.
pub fn node_key(node: &YamlNode) -> (key: Option<String>)
    ensures
        match key {
            Some(k) => key_text(*node) == Some(k@),
            None => key_text(*node) is None,
        },
    decreases node,
{
    match node {
        YamlNode::Text(key) => Some(key.clone()),
        YamlNode::Tagged(inner) => node_key(inner),
        _ => None,
    }
}

/// Inserts the flattened messages of `node` at `prefix` into `catalog`, in
/// document order.
pub fn flatten_into(prefix: &[char], node: &YamlNode, catalog: &mut Catalog)
    ensures
        final(catalog).messages() == insert_all(old(catalog).messages(), flattened(prefix@, *node)),
    decreases *node,
{
    match node {
        YamlNode::Mapping(entries) => {
            let mut i: usize = 0;
            let ghost start = catalog.messages();
            proof {
                assert(flattened_entries(prefix@, entries@, 0) =~= Seq::empty());
            }
            while i < entries.len()
                invariant
                    i <= entries@.len(),
                    *node == YamlNode::Mapping(*entries),
                    catalog.messages() == insert_all(
                        start,
                        flattened_entries(prefix@, entries@, i as nat),
                    ),
                decreases entries@.len() - i,
            {
                let ghost done = flattened_entries(prefix@, entries@, i as nat);
                let entry = &entries[i];
                match node_key(&entry.0) {
                    Some(key) => {
                        let full = child_key_chars(prefix, key.as_str());
                        proof {
                            assert(decreases_to!(*node => (*node)->Mapping_0));
                            assert((*node)->Mapping_0 == *entries);
                            assert(decreases_to!(*entries => entries@));
                            assert(decreases_to!(entries@ => entries@[i as int]));
                            assert(decreases_to!(entries@[i as int] => entries@[i as int].1));
                        }
                        flatten_into(full.as_slice(), &entry.1, catalog);
                        proof {
                            lemma_insert_all_append(
                                start,
                                done,
                                flattened(full@, entries@[i as int].1),
                            );
                        }
                    },
                    None => {
                        proof {
                            assert(done + Seq::<(Seq<char>, Seq<char>)>::empty() =~= done);
                        }
                    },
                }
                i = i + 1;
            }
            proof {
                assert(i == entries@.len());
                assert(flattened(prefix@, *node) == flattened_entries(prefix@, entries@, entries@.len()));
                assert(catalog.messages() == insert_all(start, flattened(prefix@, *node)));
            }
        },
        YamlNode::Text(message) => {
            let key = string_from_chars(prefix);
            let ghost before = catalog.messages();
            catalog.insert(key, message.clone());
            proof {
                let pairs = seq![(prefix@, message@)];
                assert(pairs.drop_last() =~= Seq::empty());
                assert(insert_all(before, pairs.drop_last()) == before);
                assert(flattened(prefix@, *node) == pairs);
            }
        },
        _ => {
            proof {
                assert(flattened(prefix@, *node) =~= Seq::empty());
                assert(insert_all(catalog.messages(), Seq::empty()) == catalog.messages());
            }
        },
    }
}

} // verus!
