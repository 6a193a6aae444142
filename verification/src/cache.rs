//! What has been learnt of application paths and of rules, kept so that it
//! need not be worked out again.

use vstd::prelude::*;
use crate::layer::Layer;
use crate::rule::{text_of, FilterRule};
use crate::selector::{layers_of, select_layers};
use crate::text::same_text;

verus! {

/// The value remembered for `key`: that of the first entry for it.
pub open spec fn remembered<V>(entries: Seq<(String, V)>, key: Seq<char>) -> Option<V>
    decreases entries.len(),
{
    if entries.len() == 0 {
        None
    } else if entries[0].0@ == key {
        Some(entries[0].1)
    } else {
        remembered(entries.drop_first(), key)
    }
}

/// Whether no key has two entries.
pub open spec fn distinct_keys<V>(entries: Seq<(String, V)>) -> bool {
    forall|i: int, j: int|
        0 <= i < j < entries.len() ==> (#[trigger] entries[i]).0@ != (#[trigger] entries[j]).0@
}

/// Nothing is remembered for a key exactly when no entry has it.
pub proof fn lemma_remembered_none<V>(entries: Seq<(String, V)>, key: Seq<char>)
    ensures
        remembered(entries, key) is None <==> forall|i: int|
            0 <= i < entries.len() ==> (#[trigger] entries[i]).0@ != key,
    decreases entries.len(),
{
    if entries.len() > 0 {
        let rest = entries.drop_first();
        lemma_remembered_none(rest, key);
        if entries[0].0@ != key {
            if remembered(entries, key) is None {
                assert forall|i: int| 0 <= i < entries.len() implies (#[trigger] entries[i]).0@
                    != key by {
                    if i > 0 {
                        assert(entries[i] == rest[i - 1]);
                    }
                }
            } else {
                let i = choose|i: int| 0 <= i < rest.len() && (#[trigger] rest[i]).0@ == key;
                assert(entries[i + 1] == rest[i]);
            }
        }
    }
}

/// What is remembered after one more entry: what was remembered before,
/// and the new entry for its key if that key had none.
pub proof fn lemma_remembered_push<V>(entries: Seq<(String, V)>, entry: (String, V), key: Seq<char>)
    ensures
        remembered(entries.push(entry), key) == match remembered(entries, key) {
            Some(v) => Some(v),
            None => if entry.0@ == key {
                Some(entry.1)
            } else {
                None
            },
        },
    decreases entries.len(),
{
    let pushed = entries.push(entry);
    if entries.len() == 0 {
        assert(pushed[0] == entry);
        assert(pushed.drop_first() =~= Seq::<(String, V)>::empty());
        assert(remembered(pushed.drop_first(), key) is None);
    } else {
        assert(pushed[0] == entries[0]);
        assert(pushed.drop_first() =~= entries.drop_first().push(entry));
        if entries[0].0@ != key {
            lemma_remembered_push(entries.drop_first(), entry, key);
        }
    }
}

/// The identities of applications by the paths they were asked for, and
/// the layers of rules by their signatures.
#[derive(Clone, Debug, PartialEq, Eq)]
pub struct FilterCache {
    /// Pairs of a path and the identity resolved for it.
    pub app_path_cache: Vec<(String, String)>,
    /// Pairs of a rule's signature and the layers selected for the rule.
    pub layer_cache: Vec<(String, Vec<Layer>)>,
}

/// A copy of a list of layers.
fn copy_layers(layers: &Vec<Layer>) -> (copy: Vec<Layer>)
    ensures
        copy@ == layers@,
{
    let mut copy: Vec<Layer> = Vec::new();
    let mut i: usize = 0;
    while i < layers.len()
        invariant
            i <= layers.len(),
            copy@ == layers@.take(i as int),
        decreases layers.len() - i,
    {
        copy.push(layers[i]);
        i = i + 1;
        assert(copy@ =~= layers@.take(i as int));
    }
    assert(layers@.take(layers.len() as int) =~= layers@);
    copy
}

impl FilterCache {
    /// Whether no path and no signature has two entries.
    pub open spec fn well_formed(self) -> bool {
        distinct_keys(self.app_path_cache@) && distinct_keys(self.layer_cache@)
    }

    /// The identity remembered for a path.
    pub open spec fn lookup(self, path: Seq<char>) -> Option<Seq<char>> {
        match remembered(self.app_path_cache@, path) {
            Some(identity) => Some(identity@),
            None => None,
        }
    }

    /// The layers remembered for a signature.
    pub open spec fn lookup_layers(self, signature: Seq<char>) -> Option<Seq<Layer>> {
        match remembered(self.layer_cache@, signature) {
            Some(layers) => Some(layers@),
            None => None,
        }
    }

    /// A cache that remembers nothing.
    pub fn new() -> (cache: FilterCache)
        ensures
            cache.well_formed(),
            forall|path: Seq<char>| cache.lookup(path) is None,
            forall|signature: Seq<char>| cache.lookup_layers(signature) is None,
    {
        FilterCache { app_path_cache: Vec::new(), layer_cache: Vec::new() }
    }

    /// The identity remembered for `dos_path`, if there is one.
    pub fn cached_nt_path(&self, dos_path: &str) -> (identity: Option<String>)
        ensures
            text_of(identity) == self.lookup(dos_path@),
    {
        let mut i: usize = 0;
        assert(self.app_path_cache@.skip(0) =~= self.app_path_cache@);
        while i < self.app_path_cache.len()
            invariant
                i <= self.app_path_cache.len(),
                remembered(self.app_path_cache@, dos_path@) == remembered(
                    self.app_path_cache@.skip(i as int),
                    dos_path@,
                ),
            decreases self.app_path_cache.len() - i,
        {
            let entry = &self.app_path_cache[i];
            proof {
                let rest = self.app_path_cache@.skip(i as int);
                assert(rest[0] == self.app_path_cache@[i as int]);
                assert(rest.drop_first() =~= self.app_path_cache@.skip(i + 1));
            }
            if same_text(entry.0.as_str(), dos_path) {
                return Some(entry.1.clone());
            }
            i = i + 1;
        }
        None
    }

    /// The identity of the application at `dos_path`: the one
    /// remembered if there is one, else `resolved`, which is what the
    /// resolver answered for the path and is remembered from now on. A
    /// path that could not be resolved is not remembered.
    pub fn get_nt_path(&mut self, dos_path: &str, resolved: Option<String>) -> (identity:
        Option<String>)
        requires
            old(self).well_formed(),
        ensures
            final(self).well_formed(),
            final(self).layer_cache == old(self).layer_cache,
            text_of(identity) == match old(self).lookup(dos_path@) {
                Some(known) => Some(known),
                None => text_of(resolved),
            },
            forall|path: Seq<char>|
                path != dos_path@ ==> final(self).lookup(path) == old(self).lookup(path),
            final(self).lookup(dos_path@) == text_of(identity),
    {
        match self.cached_nt_path(dos_path) {
            Some(known) => Some(known),
            None => match resolved {
                Some(nt_path) => {
                    let entry = (dos_path.to_owned(), nt_path.clone());
                    proof {
                        lemma_remembered_none(self.app_path_cache@, dos_path@);
                        assert forall|path: Seq<char>|
                            remembered(self.app_path_cache@.push(entry), path) == if path
                                == dos_path@ {
                                Some(entry.1)
                            } else {
                                remembered(self.app_path_cache@, path)
                            } by {
                            lemma_remembered_push(self.app_path_cache@, entry, path);
                        }
                    }
                    self.app_path_cache.push(entry);
                    Some(nt_path)
                },
                None => None,
            },
        }
    }

    /// The layers remembered for `signature`, if there are any.
    pub fn cached_layers(&self, signature: &str) -> (layers: Option<Vec<Layer>>)
        ensures
            match self.lookup_layers(signature@) {
                Some(known) => layers is Some && layers->0@ == known,
                None => layers is None,
            },
    {
        let mut i: usize = 0;
        assert(self.layer_cache@.skip(0) =~= self.layer_cache@);
        while i < self.layer_cache.len()
            invariant
                i <= self.layer_cache.len(),
                remembered(self.layer_cache@, signature@) == remembered(
                    self.layer_cache@.skip(i as int),
                    signature@,
                ),
            decreases self.layer_cache.len() - i,
        {
            let entry = &self.layer_cache[i];
            proof {
                let rest = self.layer_cache@.skip(i as int);
                assert(rest[0] == self.layer_cache@[i as int]);
                assert(rest.drop_first() =~= self.layer_cache@.skip(i + 1));
            }
            if same_text(entry.0.as_str(), signature) {
                return Some(copy_layers(&entry.1));
            }
            i = i + 1;
        }
        None
    }

    /// The layers at which `rule` is installed: those remembered for the
    /// rule's signature if there are any, else the layers selected for the
    /// rule, which are remembered for its signature from now on.
    pub fn get_layers(&mut self, rule: &FilterRule) -> (layers: Vec<Layer>)
        requires
            old(self).well_formed(),
        ensures
            final(self).well_formed(),
            final(self).app_path_cache == old(self).app_path_cache,
            layers@ == match old(self).lookup_layers(rule@.signature()) {
                Some(known) => known,
                None => layers_of(rule@),
            },
            forall|signature: Seq<char>|
                signature != rule@.signature() ==> final(self).lookup_layers(signature) == old(self).lookup_layers(signature),
            final(self).lookup_layers(rule@.signature()) == Some(layers@),
    {
        let signature = rule.signature();
        match self.cached_layers(signature.as_str()) {
            Some(known) => known,
            None => {
                let layers = select_layers(rule);
                let entry = (signature, copy_layers(&layers));
                proof {
                    lemma_remembered_none(self.layer_cache@, rule@.signature());
                    assert forall|key: Seq<char>|
                        remembered(self.layer_cache@.push(entry), key) == if key
                            == rule@.signature() {
                            Some(entry.1)
                        } else {
                            remembered(self.layer_cache@, key)
                        } by {
                        lemma_remembered_push(self.layer_cache@, entry, key);
                    }
                }
                self.layer_cache.push(entry);
                layers
            },
        }
    }
}

} // verus!
