//! The dynamic key-value store and its read and write primitives.

use vstd::pervasive::VecAdditionalExecFns;
use vstd::prelude::*;

use crate::error::PropertyError;
use crate::value::DynamicValue;

verus! {

/// One slot of a [`DynamicObject`]: a string key and its value.
#[derive(Debug, PartialEq)]
pub(crate) struct Entry {
    pub(crate) key: String,
    pub(crate) value: DynamicValue,
}

/// A string-keyed store of [`DynamicValue`]s.
///
/// Its mathematical view (`self@`) is a map from key (as a sequence of
/// characters) to the stored value. The store has value semantics: a nested
/// object is a value held inside its parent, not a shared reference.
#[derive(Debug, PartialEq)]
pub struct DynamicObject {
    pub(crate) entries: Vec<Entry>,
}

/// The map described by a sequence of entries; a later entry for the same
/// key overrides an earlier one.
pub(crate) open spec fn entry_map(s: Seq<Entry>) -> Map<Seq<char>, DynamicValue>
    decreases s.len(),
{
    if s.len() == 0 {
        Map::empty()
    } else {
        entry_map(s.drop_last()).insert(s.last().key@, s.last().value)
    }
}

/// No two entries share a key.
pub(crate) open spec fn unique_keys(s: Seq<Entry>) -> bool {
    forall|i: int, j: int| #![trigger s[i].key@, s[j].key@]
        0 <= i < j < s.len() ==> s[i].key@ != s[j].key@
}

/// A key stands in `entry_map(s)` exactly when some entry carries it.
proof fn lemma_entry_map_contains(s: Seq<Entry>, k: Seq<char>)
    ensures
        entry_map(s).contains_key(k) <==> exists|i: int| 0 <= i < s.len() && s[i].key@ == k,
    decreases s.len(),
{
    if s.len() == 0 {
    } else {
        lemma_entry_map_contains(s.drop_last(), k);
        if s.last().key@ == k {
            assert(s[s.len() - 1].key@ == k);
        } else {
            if exists|i: int| 0 <= i < s.len() && s[i].key@ == k {
                let i = choose|i: int| 0 <= i < s.len() && s[i].key@ == k;
                assert(s.drop_last()[i] == s[i]);
            }
        }
    }
}

/// Dropping the last entry keeps the remaining keys unique.
proof fn lemma_unique_drop_last(s: Seq<Entry>)
    requires
        unique_keys(s),
        s.len() > 0,
    ensures
        unique_keys(s.drop_last()),
{
    assert forall|i: int, j: int| #![trigger s.drop_last()[i].key@, s.drop_last()[j].key@]
        0 <= i < j < s.drop_last().len() implies s.drop_last()[i].key@ != s.drop_last()[j].key@ by {
        assert(s.drop_last()[i] == s[i]);
        assert(s.drop_last()[j] == s[j]);
    }
}

/// With unique keys, the entry at `i` gives the map's value at its key.
proof fn lemma_entry_map_value(s: Seq<Entry>, i: int)
    requires
        unique_keys(s),
        0 <= i < s.len(),
    ensures
        entry_map(s).contains_key(s[i].key@),
        entry_map(s)[s[i].key@] == s[i].value,
    decreases s.len(),
{
    if i == s.len() - 1 {
    } else {
        lemma_unique_drop_last(s);
        assert(s.drop_last()[i] == s[i]);
        lemma_entry_map_value(s.drop_last(), i);
        assert(s[i].key@ != s[s.len() - 1].key@);
    }
}

/// Replacing the entry at `i` by one with the same key updates the map at
/// that key and keeps the keys unique.
proof fn lemma_entry_map_update(s: Seq<Entry>, i: int, e: Entry)
    requires
        unique_keys(s),
        0 <= i < s.len(),
        e.key@ == s[i].key@,
    ensures
        entry_map(s.update(i, e)) == entry_map(s).insert(e.key@, e.value),
        unique_keys(s.update(i, e)),
    decreases s.len(),
{
    let t = s.update(i, e);
    assert forall|a: int, b: int| #![trigger t[a].key@, t[b].key@]
        0 <= a < b < t.len() implies t[a].key@ != t[b].key@ by {
        assert(s[a].key@ != s[b].key@);
    }
    if i == s.len() - 1 {
        assert(t.drop_last() =~= s.drop_last());
        assert(t.last() == e);
        assert(entry_map(t) =~= entry_map(s).insert(e.key@, e.value));
    } else {
        lemma_unique_drop_last(s);
        assert(s.drop_last()[i] == s[i]);
        lemma_entry_map_update(s.drop_last(), i, e);
        assert(t.drop_last() =~= s.drop_last().update(i, e));
        assert(t.last() == s.last());
        assert(s.last().key@ != e.key@);
        assert(entry_map(t) =~= entry_map(s).insert(e.key@, e.value));
    }
}

/// Removing the entry at `i` removes exactly its key from the map and keeps
/// the remaining keys unique.
proof fn lemma_entry_map_remove(s: Seq<Entry>, i: int)
    requires
        unique_keys(s),
        0 <= i < s.len(),
    ensures
        entry_map(s.remove(i)) == entry_map(s).remove(s[i].key@),
        unique_keys(s.remove(i)),
    decreases s.len(),
{
    let t = s.remove(i);
    assert forall|a: int, b: int| #![trigger t[a].key@, t[b].key@]
        0 <= a < b < t.len() implies t[a].key@ != t[b].key@ by {
        let a0 = if a < i { a } else { a + 1 };
        let b0 = if b < i { b } else { b + 1 };
        assert(t[a] == s[a0]);
        assert(t[b] == s[b0]);
        assert(s[a0].key@ != s[b0].key@);
    }
    if i == s.len() - 1 {
        assert(t =~= s.drop_last());
        lemma_unique_drop_last(s);
        lemma_entry_map_contains(s.drop_last(), s[i].key@);
        assert forall|j: int| 0 <= j < s.drop_last().len() implies s.drop_last()[j].key@
            != s[i].key@ by {
            assert(s.drop_last()[j] == s[j]);
            assert(s[j].key@ != s[i].key@);
        }
        assert(entry_map(t) =~= entry_map(s).remove(s[i].key@));
    } else {
        lemma_unique_drop_last(s);
        assert(s.drop_last()[i] == s[i]);
        lemma_entry_map_remove(s.drop_last(), i);
        assert(t.drop_last() =~= s.drop_last().remove(i));
        assert(t.last() == s.last());
        assert(s.last().key@ != s[i].key@);
        assert(entry_map(t) =~= entry_map(s).remove(s[i].key@));
    }
}

/// Find the index of the entry carrying `key`, if any.
fn find_entry(entries: &Vec<Entry>, key: &String) -> (r: Option<usize>)
    ensures
        match r {
            Some(i) => i < entries@.len() && entries@[i as int].key@ == key@,
            None => forall|i: int| 0 <= i < entries@.len() ==> entries@[i].key@ != key@,
        },
{
    let n = entries.len();
    let mut j: usize = 0;
    while j < n
        invariant
            n == entries@.len(),
            j <= n,
            forall|i: int| 0 <= i < j ==> entries@[i].key@ != key@,
        decreases n - j,
    {
        if entries[j].key == *key {
            return Some(j);
        }
        j = j + 1;
    }
    None
}

/// The map after writing every pair of `props`, in order, over `m`: a later
/// pair for the same key overrides an earlier one.
pub open spec fn props_applied(
    m: Map<Seq<char>, DynamicValue>,
    props: Seq<(String, DynamicValue)>,
) -> Map<Seq<char>, DynamicValue>
    decreases props.len(),
{
    if props.len() == 0 {
        m
    } else {
        props_applied(m, props.drop_last()).insert(props.last().0@, props.last().1)
    }
}

/// Law: after a multi-property write, every property whose key does not
/// recur later in the list is readable under its key with exactly the value
/// that was written for it, independently of the other pairs.
pub proof fn lemma_props_applied_readable(
    m: Map<Seq<char>, DynamicValue>,
    props: Seq<(String, DynamicValue)>,
    i: int,
)
    requires
        0 <= i < props.len(),
        forall|j: int| i < j < props.len() ==> (#[trigger] props[j].0)@ != props[i].0@,
    ensures
        props_applied(m, props).contains_key(props[i].0@),
        props_applied(m, props)[props[i].0@] == props[i].1,
    decreases props.len(),
{
    if i == props.len() - 1 {
    } else {
        assert(props.drop_last()[i] == props[i]);
        assert forall|j: int| i < j < props.drop_last().len() implies (#[trigger] props.drop_last()[
            j
        ].0)@ != props.drop_last()[i].0@ by {
            assert(props.drop_last()[j] == props[j]);
        }
        lemma_props_applied_readable(m, props.drop_last(), i);
        assert(props.last().0@ != props[i].0@);
    }
}

impl View for DynamicObject {
    type V = Map<Seq<char>, DynamicValue>;

    closed spec fn view(&self) -> Map<Seq<char>, DynamicValue> {
        entry_map(self.entries@)
    }
}

/// A slot counts as present when it exists and does not hold the undefined
/// sentinel: an `Undefined` slot behaves exactly like an absent one.
pub open spec fn slot_present(m: Map<Seq<char>, DynamicValue>, key: Seq<char>) -> bool {
    m.contains_key(key) && !(m[key] is Undefined)
}

impl DynamicObject {
    #[verifier::type_invariant]
    spec fn wf(self) -> bool {
        unique_keys(self.entries@)
    }

    /// A present slot: see [`slot_present`].
    pub open spec fn spec_present(&self, key: Seq<char>) -> bool {
        slot_present(self@, key)
    }

    /// Create an empty object.
    pub fn new() -> (obj: Self)
        ensures
            obj@ == Map::<Seq<char>, DynamicValue>::empty(),
    {
        DynamicObject { entries: Vec::new() }
    }

    /// Borrow the raw value stored under `prop`, if the slot exists.
    pub(crate) fn lookup(&self, prop: &str) -> (r: Option<&DynamicValue>)
        ensures
            match r {
                Some(v) => self@.contains_key(prop@) && *v == self@[prop@],
                None => !self@.contains_key(prop@),
            },
    {
        proof {
            use_type_invariant(&*self);
        }
        let key = prop.to_owned();
        match find_entry(&self.entries, &key) {
            Some(i) => {
                proof {
                    lemma_entry_map_value(self.entries@, i as int);
                }
                Some(&self.entries[i].value)
            },
            None => {
                proof {
                    lemma_entry_map_contains(self.entries@, prop@);
                }
                None
            },
        }
    }

    /// Unconditionally overwrite the slot at `prop` with `value`.
    ///
    /// The returned flag reports whether the write defined a new property
    /// (`true`) or overwrote an existing slot (`false`). The write itself
    /// cannot fail.
    pub fn set(&mut self, prop: &str, value: DynamicValue) -> (r: Result<bool, PropertyError>)
        ensures
            r matches Ok(defined_new) && defined_new == !old(self)@.contains_key(prop@),
            final(self)@ == old(self)@.insert(prop@, value),
    {
        proof {
            use_type_invariant(&*self);
        }
        let key = prop.to_owned();
        let mut entries: Vec<Entry> = Vec::new();
        core::mem::swap(&mut entries, &mut self.entries);
        let ghost s0 = entries@;
        proof {
            lemma_entry_map_contains(s0, prop@);
        }
        let r;
        match find_entry(&entries, &key) {
            Some(i) => {
                entries.set(i, Entry { key, value });
                proof {
                    lemma_entry_map_update(s0, i as int, entries@[i as int]);
                }
                r = Ok(false);
            },
            None => {
                entries.push(Entry { key, value });
                proof {
                    let t = entries@;
                    assert(t.drop_last() =~= s0);
                    assert forall|a: int, b: int| #![trigger t[a].key@, t[b].key@]
                        0 <= a < b < t.len() implies t[a].key@ != t[b].key@ by {
                        if b < t.len() - 1 {
                            assert(s0[a].key@ != s0[b].key@);
                        } else {
                            assert(s0[a].key@ != key@);
                        }
                    }
                    assert(entry_map(t) =~= entry_map(s0).insert(prop@, value));
                }
                r = Ok(true);
            },
        }
        self.entries = entries;
        r
    }

    /// Build a sequence value from `values` and store it at `prop`.
    ///
    /// The returned flag reports whether the write defined a new property,
    /// exactly as for [`Self::set`].
    pub fn set_vec(&mut self, prop: &str, values: Vec<DynamicValue>) -> (r: Result<
        bool,
        PropertyError,
    >)
        ensures
            r matches Ok(defined_new) && defined_new == !old(self)@.contains_key(prop@),
            final(self)@ == old(self)@.insert(prop@, DynamicValue::Array(values)),
    {
        self.set(prop, DynamicValue::Array(values))
    }

    /// Write every `(name, value)` pair of `props`, in order.
    ///
    /// The writes are sequential with no rollback: the store reports no
    /// failure, and after the call every pair has been applied, a later
    /// pair overriding an earlier one with the same name.
    pub fn set_properties(&mut self, props: Vec<(String, DynamicValue)>) -> (r: Result<
        (),
        PropertyError,
    >)
        ensures
            r is Ok,
            final(self)@ == props_applied(old(self)@, props@),
    {
        let ghost orig = props@;
        let ghost m0 = self@;
        let mut remaining = props;
        while remaining.len() > 0
            invariant
                remaining@.len() <= orig.len(),
                remaining@ =~= orig.skip(orig.len() - remaining@.len()),
                self@ == props_applied(m0, orig.take(orig.len() - remaining@.len())),
            decreases remaining@.len(),
        {
            let ghost done = orig.len() - remaining@.len();
            let (key, value) = remaining.remove(0);
            proof {
                assert(orig.skip(done)[0] == orig[done]);
                assert(remaining@ =~= orig.skip(done + 1));
            }
            let _ = self.set(key.as_str(), value);
            proof {
                assert(orig.take(done + 1).drop_last() =~= orig.take(done));
                assert(orig.take(done + 1).last() == orig[done]);
            }
        }
        proof {
            assert(orig.take(orig.len() as int) =~= orig);
        }
        Ok(())
    }

    /// Remove the slot at `prop`.
    ///
    /// Returns whether a property existed and was removed: `true` when the
    /// slot was there, `false` when it was already absent.
    pub fn delete(&mut self, prop: &str) -> (r: Result<bool, PropertyError>)
        ensures
            r matches Ok(existed) && existed == old(self)@.contains_key(prop@),
            final(self)@ == old(self)@.remove(prop@),
    {
        proof {
            use_type_invariant(&*self);
        }
        let key = prop.to_owned();
        let mut entries: Vec<Entry> = Vec::new();
        core::mem::swap(&mut entries, &mut self.entries);
        let ghost s0 = entries@;
        proof {
            lemma_entry_map_contains(s0, prop@);
        }
        let r;
        match find_entry(&entries, &key) {
            Some(i) => {
                proof {
                    lemma_entry_map_value(s0, i as int);
                    lemma_entry_map_remove(s0, i as int);
                }
                entries.remove(i);
                r = Ok(true);
            },
            None => {
                proof {
                    assert(entry_map(s0).remove(prop@) =~= entry_map(s0));
                }
                r = Ok(false);
            },
        }
        self.entries = entries;
        r
    }
}

} // verus!
