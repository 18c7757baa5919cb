//! The record buffer: captures collected between emissions.
use vstd::prelude::*;
use crate::convert::{convert_scalar, scalar_of, FieldValue, Scalar};
use crate::text::str_eq;
use crate::types::{first_value_index, ValueDef};

verus! {

/// The captures of one field.
#[derive(Debug, Clone, PartialEq)]
pub struct Slot {
    pub name: String,
    pub values: Vec<String>,
}

/// One output record: an entry per defined field, in field order.
#[derive(Debug, Clone, PartialEq)]
pub struct Record {
    pub fields: Vec<(String, FieldValue)>,
}

/// Accumulates captures between rule firings.
#[derive(Debug)]
pub struct RecordBuffer {
    slots: Vec<Slot>,
    dirty: bool,
}

pub open spec fn strs(v: Seq<String>) -> Seq<Seq<char>> {
    v.map_values(|s: String| s@)
}

/// A buffer entry: a field name and its captures, oldest first.
pub type Entry = (Seq<char>, Seq<Seq<char>>);

pub open spec fn slot_view(s: Slot) -> Entry {
    (s.name@, strs(s.values@))
}

pub open spec fn slots_view(slots: Seq<Slot>) -> Seq<Entry> {
    slots.map_values(|s: Slot| slot_view(s))
}

/// The first index of an entry named `name`, or -1.
pub open spec fn entry_index(es: Seq<Entry>, name: Seq<char>) -> int
    decreases es.len(),
{
    if es.len() == 0 {
        -1
    } else if entry_index(es.drop_last(), name) >= 0 {
        entry_index(es.drop_last(), name)
    } else if es.last().0 == name {
        es.len() - 1
    } else {
        -1
    }
}

pub proof fn lemma_entry_index(es: Seq<Entry>, name: Seq<char>)
    ensures
        -1 <= entry_index(es, name) < es.len(),
        entry_index(es, name) >= 0 ==> es[entry_index(es, name)].0 == name,
        forall|j: int|
            0 <= j < es.len() && (entry_index(es, name) < 0 || j < entry_index(es, name))
                ==> es[j].0 != name,
    decreases es.len(),
{
    if es.len() > 0 {
        let t = es.drop_last();
        lemma_entry_index(t, name);
        let k = entry_index(es, name);
        assert forall|j: int| 0 <= j < es.len() && (k < 0 || j < k) implies es[j].0 != name by {
            if j < t.len() {
                assert(t[j] == es[j]);
            }
        }
    }
}

/// Equal names at every position give equal first indexes.
pub proof fn lemma_entry_index_same_names(a: Seq<Entry>, b: Seq<Entry>, name: Seq<char>)
    requires
        a.len() == b.len(),
        forall|j: int| 0 <= j < a.len() ==> (#[trigger] a[j]).0 == b[j].0,
    ensures
        entry_index(a, name) == entry_index(b, name),
    decreases a.len(),
{
    if a.len() > 0 {
        lemma_entry_index_same_names(a.drop_last(), b.drop_last(), name);
        assert(a.last().0 == b.last().0);
        assert forall|j: int| 0 <= j < a.len() - 1 implies (#[trigger] a.drop_last()[j]).0
            == b.drop_last()[j].0 by {
            assert(a.drop_last()[j] == a[j]);
            assert(b.drop_last()[j] == b[j]);
        }
    }
}

/// The captures buffered for `name`.
pub open spec fn lookup(es: Seq<Entry>, name: Seq<char>) -> Option<Seq<Seq<char>>> {
    let i = entry_index(es, name);
    if i >= 0 {
        Some(es[i].1)
    } else {
        None
    }
}

/// The entries after capturing `v` for `name`: appended for a list field,
/// replacing otherwise; a new entry goes last.
pub open spec fn with_capture(es: Seq<Entry>, name: Seq<char>, v: Seq<char>, is_list: bool) -> Seq<
    Entry,
> {
    let i = entry_index(es, name);
    if i >= 0 {
        es.update(i, (name, if is_list { es[i].1.push(v) } else { seq![v] }))
    } else {
        es.push((name, seq![v]))
    }
}

/// Whether the first field of `defs` named `name` is marked filldown.
pub open spec fn is_filldown(defs: Seq<ValueDef>, name: Seq<char>) -> bool {
    let i = first_value_index(defs, name);
    i >= 0 && defs[i].filldown
}

/// The entries that survive an emission or a `Clear`: those of filldown fields.
pub open spec fn kept_after_reset(es: Seq<Entry>, defs: Seq<ValueDef>) -> Seq<Entry>
    decreases es.len(),
{
    if es.len() == 0 {
        es
    } else if is_filldown(defs, es.last().0) {
        kept_after_reset(es.drop_last(), defs).push(es.last())
    } else {
        kept_after_reset(es.drop_last(), defs)
    }
}

/// The record entry for a field `def` whose buffered captures are `got`.
pub open spec fn entry_of(def: ValueDef, got: Option<Seq<Seq<char>>>, e: FieldValue) -> bool {
    match got {
        None => if def.list {
            e is List && e->List_0@.len() == 0
        } else {
            e is One && e->One_0 is Str && e->One_0->Str_0@.len() == 0
        },
        Some(vs) => if def.list {
            e is List && e->List_0@.len() == vs.len() && forall|j: int|
                0 <= j < vs.len() ==> scalar_of(#[trigger] e->List_0@[j], vs[j], def.type_hint)
        } else {
            e is One && scalar_of(e->One_0, vs.last(), def.type_hint)
        },
    }
}

/// Whether field `d` with captures `got` is unset or empty: no capture, an
/// empty list, or (for a scalar field) an empty last capture.
pub open spec fn unset_or_empty(d: ValueDef, got: Option<Seq<Seq<char>>>) -> bool {
    match got {
        None => true,
        Some(vs) => vs.len() == 0 || (!d.list && vs.last().len() == 0),
    }
}

/// Whether some required field of `defs` is unset or empty in `es`.
pub open spec fn missing_required(es: Seq<Entry>, defs: Seq<ValueDef>) -> bool {
    exists|i: int|
        0 <= i < defs.len() && (#[trigger] defs[i]).required && unset_or_empty(defs[i], lookup(es, defs[i].name@))
}

/// `e` is the typed value of a field of `defs` that has captures in `es`.
pub open spec fn snapshot_entry(e: (String, FieldValue), es: Seq<Entry>, defs: Seq<ValueDef>) -> bool {
    exists|j: int|
        0 <= j < defs.len() && e.0@ == (#[trigger] defs[j]).name@ && lookup(es, defs[j].name@) is Some
            && entry_of(defs[j], lookup(es, defs[j].name@), e.1)
}

/// `r` is the record built from the entries `es` for the fields `defs`.
pub open spec fn record_of(r: Record, es: Seq<Entry>, defs: Seq<ValueDef>) -> bool {
    &&& r.fields@.len() == defs.len()
    &&& forall|i: int|
        0 <= i < defs.len() ==> {
            &&& (#[trigger] r.fields@[i]).0@ == defs[i].name@
            &&& entry_of(defs[i], lookup(es, defs[i].name@), r.fields@[i].1)
        }
}

impl Record {
    /// The entry named `name`, if the record has one.
    pub fn get(&self, name: &str) -> (r: Option<&FieldValue>)
        ensures
            r.is_some() <==> exists|i: int|
                0 <= i < self.fields@.len() && (#[trigger] self.fields@[i]).0@ == name@,
            r.is_some() ==> exists|i: int|
                0 <= i < self.fields@.len() && (#[trigger] self.fields@[i]).0@ == name@
                    && self.fields@[i].1 == *r.unwrap(),
    {
        let mut i: usize = 0;
        while i < self.fields.len()
            invariant
                i <= self.fields@.len(),
                forall|j: int| 0 <= j < i ==> (#[trigger] self.fields@[j]).0@ != name@,
            decreases self.fields@.len() - i,
        {
            if str_eq(self.fields[i].0.as_str(), name) {
                return Some(&self.fields[i].1);
            }
            i = i + 1;
        }
        None
    }

    /// The number of entries.
    pub fn len(&self) -> (r: usize)
        ensures
            r == self.fields@.len(),
    {
        self.fields.len()
    }
}

impl RecordBuffer {
    /// The buffered entries, in order of first capture.
    pub closed spec fn view(&self) -> Seq<Entry> {
        slots_view(self.slots@)
    }

    /// Whether something was captured since the last emission or clear.
    pub closed spec fn is_dirty(&self) -> bool {
        self.dirty
    }

    /// Every entry holds at least one capture.
    pub closed spec fn wf(&self) -> bool {
        forall|i: int| 0 <= i < self.slots@.len() ==> (#[trigger] self.slots@[i]).values@.len() > 0
    }

    /// A well-formed buffer holds at least one capture per entry.
    pub proof fn lemma_entries_nonempty(&self)
        requires
            self.wf(),
        ensures
            forall|i: int| 0 <= i < self@.len() ==> (#[trigger] self@[i]).1.len() > 0,
    {
        assert forall|i: int| 0 <= i < self@.len() implies (#[trigger] self@[i]).1.len() > 0 by {
            assert(self@[i] == slot_view(self.slots@[i]));
        }
    }

    pub fn new() -> (r: Self)
        ensures
            r.wf(),
            r@ == Seq::<Entry>::empty(),
            !r.is_dirty(),
    {
        let r = RecordBuffer { slots: Vec::new(), dirty: false };
        assert(r@ =~= Seq::<Entry>::empty());
        r
    }

    fn find(&self, name: &str) -> (r: usize)
        ensures
            r <= self@.len(),
            r < self@.len() <==> entry_index(self@, name@) >= 0,
            r < self@.len() ==> r == entry_index(self@, name@),
    {
        proof {
            lemma_entry_index(self@, name@);
        }
        let mut i: usize = 0;
        while i < self.slots.len()
            invariant
                i <= self@.len(),
                self@.len() == self.slots@.len(),
                forall|j: int| 0 <= j < i ==> (#[trigger] self@[j]).0 != name@,
                -1 <= entry_index(self@, name@) < self@.len(),
                entry_index(self@, name@) >= 0 ==> self@[entry_index(self@, name@)].0 == name@,
                forall|j: int|
                    0 <= j < self@.len() && (entry_index(self@, name@) < 0 || j < entry_index(
                        self@,
                        name@,
                    )) ==> self@[j].0 != name@,
            decreases self@.len() - i,
        {
            if str_eq(self.slots[i].name.as_str(), name) {
                assert(self@[i as int].0 == name@);
                return i;
            }
            assert(self@[i as int].0 != name@);
            i = i + 1;
        }
        i
    }

    /// Records a capture: appended for a list field, replacing otherwise.
    pub fn insert(&mut self, name: String, value: String, is_list: bool)
        requires
            old(self).wf(),
        ensures
            final(self).wf(),
            final(self).is_dirty(),
            final(self)@ == with_capture(old(self)@, name@, value@, is_list),
    {
        let i = self.find(name.as_str());
        let ghost old_slots = self.slots@;
        let ghost old_view = self@;
        let ghost nv = name@;
        let ghost vv = value@;
        if i < self.slots.len() {
            let mut slot = Slot { name: String::new(), values: Vec::new() };
            self.slots.set_and_swap(i, &mut slot);
            if is_list {
                slot.values.push(value);
            } else {
                slot.values = vec![value];
            }
            self.slots.set(i, slot);
            proof {
                lemma_entry_index(old_view, nv);
                assert(old_view[i as int].0 == nv);
                assert(strs(self.slots@[i as int].values@) =~= (if is_list {
                    old_view[i as int].1.push(vv)
                } else {
                    seq![vv]
                }));
                assert(self@ =~= with_capture(old_view, nv, vv, is_list));
            }
        } else {
            self.slots.push(Slot { name, values: vec![value] });
            proof {
                assert(strs(self.slots@.last().values@) =~= seq![vv]);
                assert(self@ =~= with_capture(old_view, nv, vv, is_list));
            }
        }
        self.dirty = true;
    }

    /// Empties the buffer.
    pub fn clear(&mut self)
        ensures
            final(self).wf(),
            final(self)@ == Seq::<Entry>::empty(),
            !final(self).is_dirty(),
    {
        self.clear_all();
    }

    /// Empties the buffer (the `ClearAll` action).
    pub fn clear_all(&mut self)
        ensures
            final(self).wf(),
            final(self)@ == Seq::<Entry>::empty(),
            !final(self).is_dirty(),
    {
        self.slots = Vec::new();
        self.dirty = false;
        assert(self@ =~= Seq::<Entry>::empty());
    }

    /// Keeps only the captures of filldown fields (the `Clear` action).
    pub fn clear_non_filldown(&mut self, values: &Vec<ValueDef>)
        requires
            old(self).wf(),
        ensures
            final(self).wf(),
            final(self)@ == kept_after_reset(old(self)@, values@),
            !final(self).is_dirty(),
    {
        self.reset_after_emit(values);
    }

    fn reset_after_emit(&mut self, values: &Vec<ValueDef>)
        requires
            old(self).wf(),
        ensures
            final(self).wf(),
            final(self)@ == kept_after_reset(old(self)@, values@),
            !final(self).is_dirty(),
    {
        let ghost old_view = self@;
        let mut next: Vec<Slot> = Vec::new();
        let mut i: usize = 0;
        while i < self.slots.len()
            invariant
                self@ == old_view,
                self.wf(),
                i <= self.slots@.len(),
                slots_view(next@) == kept_after_reset(old_view.subrange(0, i as int), values@),
                forall|a: int| 0 <= a < next@.len() ==> (#[trigger] next@[a]).values@.len() > 0,
            decreases self.slots@.len() - i,
        {
            let j = crate::types::find_value(values, self.slots[i].name.as_str());
            proof {
                assert(old_view.subrange(0, i + 1).drop_last() =~= old_view.subrange(0, i as int));
                assert(old_view[i as int] == slot_view(self.slots@[i as int]));
            }
            if j < values.len() && values[j].filldown {
                let s = Slot {
                    name: self.slots[i].name.clone(),
                    values: clone_strings(&self.slots[i].values),
                };
                let ghost prev = next@;
                next.push(s);
                proof {
                    assert(slots_view(next@) =~= slots_view(prev).push(slot_view(s)));
                }
            }
            i = i + 1;
        }
        proof {
            assert(old_view.subrange(0, old_view.len() as int) =~= old_view);
        }
        self.slots = next;
        self.dirty = false;
    }

    /// Builds the record for the fields `values` and resets the buffer to its
    /// filldown entries. Nothing is built when nothing was captured since the
    /// last emission (the buffer is then left as it is), or when a required
    /// field is unset or empty.
    pub fn emit(&mut self, values: &Vec<ValueDef>) -> (r: Option<Record>)
        requires
            old(self).wf(),
        ensures
            final(self).wf(),
            !old(self).is_dirty() ==> r is None && final(self)@ == old(self)@,
            old(self).is_dirty() ==> final(self)@ == kept_after_reset(old(self)@, values@),
            !final(self).is_dirty(),
            old(self).is_dirty() ==> (r is Some <==> !missing_required(old(self)@, values@)),
            r is Some ==> record_of(r.unwrap(), old(self)@, values@),
    {
        if !self.dirty {
            return None;
        }
        let ghost old_view = self@;
        let mut i: usize = 0;
        while i < values.len()
            invariant
                i <= values@.len(),
                forall|j: int|
                    0 <= j < i ==> !((#[trigger] values@[j]).required && unset_or_empty(
                        values@[j],
                        lookup(old_view, values@[j].name@),
                    )),
                self@ == old_view,
                old(self)@ == old_view,
                old(self).is_dirty(),
                self.wf(),
                self.dirty,
            decreases values@.len() - i,
        {
            if values[i].required {
                let k = self.find(values[i].name.as_str());
                if k >= self.slots.len() {
                    assert(lookup(old_view, values@[i as int].name@) is None);
                    self.reset_after_emit(values);
                    assert(missing_required(old_view, values@));
                    return None;
                }
                let vals = &self.slots[k].values;
                proof {
                    assert(self.slots@[k as int].values@.len() > 0);
                    assert(self@[k as int] == slot_view(self.slots@[k as int]));
                }
                if !values[i].list && vals[vals.len() - 1].as_str().is_empty() {
                    proof {
                        assert(lookup(old_view, values@[i as int].name@) == Some(strs(vals@)));
                        assert(strs(vals@).last() == vals@[vals@.len() - 1]@);
                        assert(unset_or_empty(values@[i as int], lookup(old_view, values@[i as int].name@)));
                    }
                    self.reset_after_emit(values);
                    assert(missing_required(old_view, values@));
                    return None;
                }
                proof {
                    assert(strs(vals@).len() > 0);
                    if !values@[i as int].list {
                        assert(strs(vals@).last() == vals@[vals@.len() - 1]@);
                    }
                }
            }
            i = i + 1;
        }
        let mut fields: Vec<(String, FieldValue)> = Vec::new();
        let mut i: usize = 0;
        while i < values.len()
            invariant
                i <= values@.len(),
                fields@.len() == i,
                self@ == old_view,
                self.wf(),
                forall|j: int|
                    0 <= j < i ==> {
                        &&& (#[trigger] fields@[j]).0@ == values@[j].name@
                        &&& entry_of(values@[j], lookup(old_view, values@[j].name@), fields@[j].1)
                    },
            decreases values@.len() - i,
        {
            let e = self.entry(&values[i]);
            fields.push((values[i].name.clone(), e));
            i = i + 1;
        }
        self.reset_after_emit(values);
        Some(Record { fields })
    }

    /// The record entry for one field, from the current captures.
    fn entry(&self, def: &ValueDef) -> (e: FieldValue)
        requires
            self.wf(),
        ensures
            entry_of(*def, lookup(self@, def.name@), e),
    {
        let k = self.find(def.name.as_str());
        if k >= self.slots.len() {
            if def.list {
                FieldValue::List(Vec::new())
            } else {
                FieldValue::One(Scalar::Str(String::new()))
            }
        } else {
            let vals = &self.slots[k].values;
            proof {
                assert(self.slots@[k as int].values@.len() > 0);
                assert(self@[k as int] == slot_view(self.slots@[k as int]));
            }
            if def.list {
                FieldValue::List(convert_all(vals, def.type_hint))
            } else {
                FieldValue::One(convert_scalar(vals[vals.len() - 1].as_str(), def.type_hint))
            }
        }
    }

    /// The buffered captures, one slot per field name.
    pub fn get_buffer(&self) -> (r: &Vec<Slot>)
        ensures
            slots_view(r@) == self@,
    {
        &self.slots
    }

    /// The typed values captured so far, for the fields of `values` that have
    /// any, in field order.
    pub fn current_values(&self, values: &Vec<ValueDef>) -> (r: Vec<(String, FieldValue)>)
        requires
            self.wf(),
        ensures
            r@.len() <= values@.len(),
            forall|i: int| 0 <= i < r@.len() ==> snapshot_entry(#[trigger] r@[i], self@, values@),
    {
        let mut out: Vec<(String, FieldValue)> = Vec::new();
        let mut i: usize = 0;
        while i < values.len()
            invariant
                i <= values@.len(),
                out@.len() <= i,
                self.wf(),
                forall|a: int| 0 <= a < out@.len() ==> snapshot_entry(#[trigger] out@[a], self@, values@),
            decreases values@.len() - i,
        {
            let k = self.find(values[i].name.as_str());
            if k < self.slots.len() {
                let e = self.entry(&values[i]);
                let n = values[i].name.clone();
                let ghost prev = out@;
                out.push((n, e));
                proof {
                    assert forall|a: int| 0 <= a < out@.len() implies snapshot_entry(#[trigger] out@[a], self@, values@) by {
                        if a < prev.len() {
                            assert(out@[a] == prev[a]);
                        } else {
                            assert(out@[a].0@ == values@[i as int].name@);
                            assert(lookup(self@, values@[i as int].name@) is Some);
                            assert(entry_of(
                                values@[i as int],
                                lookup(self@, values@[i as int].name@),
                                out@[a].1,
                            ));
                        }
                    }
                }
            }
            i = i + 1;
        }
        out
    }
}

/// A copy of a list of strings.
fn clone_strings(v: &Vec<String>) -> (r: Vec<String>)
    ensures
        r@ == v@,
{
    let mut out: Vec<String> = Vec::new();
    let mut i: usize = 0;
    while i < v.len()
        invariant
            i <= v@.len(),
            out@ == v@.subrange(0, i as int),
        decreases v@.len() - i,
    {
        out.push(v[i].clone());
        i = i + 1;
        assert(out@ =~= v@.subrange(0, i as int));
    }
    assert(out@ =~= v@);
    out
}

/// Types every capture of a list field.
fn convert_all(v: &Vec<String>, hint: Option<crate::types::FieldType>) -> (r: Vec<Scalar>)
    ensures
        r@.len() == v@.len(),
        forall|j: int| 0 <= j < v@.len() ==> scalar_of(#[trigger] r@[j], v@[j]@, hint),
{
    let mut out: Vec<Scalar> = Vec::new();
    let mut i: usize = 0;
    while i < v.len()
        invariant
            i <= v@.len(),
            out@.len() == i,
            forall|j: int| 0 <= j < i ==> scalar_of(#[trigger] out@[j], v@[j]@, hint),
        decreases v@.len() - i,
    {
        out.push(convert_scalar(v[i].as_str(), hint));
        i = i + 1;
    }
    out
}

} // verus!
