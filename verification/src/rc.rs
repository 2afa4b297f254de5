use vstd::prelude::*;

use crate::value::{Value, ValueModel};
use crate::objects::{Function, NativeFn, Struct, StructInstance};
use crate::natives::RuntimeError;

verus! {

/// What the heap can hold: counted objects with values.
pub trait Object {
    /// Whether the object keeps a reference count (an emptied slot does not).
    spec fn is_counted(&self) -> bool;

    /// The reference count.
    spec fn counter(&self) -> nat;

    /// The values the object holds.
    spec fn held_values(&self) -> Seq<ValueModel>;

    /// The values after `set_value(pos, v)`.
    spec fn values_after_set(&self, pos: int, v: ValueModel) -> Seq<ValueModel>;

    /// Whether `set_value(pos, _)` can be done.
    spec fn can_set(&self, pos: int) -> bool;

    /// The argument count (or field count) the object declares.
    spec fn arg_count_of(&self) -> nat;

    /// Adds a reference.
    fn inc_counter(&mut self)
        requires
            old(self).counter() < usize::MAX,
        ensures
            final(self).counter() == if old(self).is_counted() { old(self).counter() + 1 } else { old(self).counter() },
            final(self).is_counted() == old(self).is_counted(),
            final(self).held_values() == old(self).held_values(),
    ;

    /// Drops a reference.
    fn dec_counter(&mut self)
        requires
            old(self).is_counted() ==> old(self).counter() > 0,
        ensures
            final(self).counter() == if old(self).is_counted() { (old(self).counter() - 1) as nat } else { old(self).counter() },
            final(self).is_counted() == old(self).is_counted(),
            final(self).held_values() == old(self).held_values(),
    ;

    /// The reference count.
    fn get_rc_counter(&self) -> (r: usize)
        ensures
            r == self.counter(),
    ;

    /// Copies of the values the object holds.
    fn get_values(&self) -> (r: Vec<Value>)
        ensures
            r@.map_values(|v: Value| v@) == self.held_values(),
    ;

    /// Sets the value at `pos` (a no-op for an object without settable values).
    fn set_value(&mut self, pos: usize, value: Value)
        requires
            old(self).can_set(pos as int),
        ensures
            final(self).held_values() == old(self).values_after_set(pos as int, value@),
            final(self).counter() == old(self).counter(),
            final(self).is_counted() == old(self).is_counted(),
    ;

    /// The argument count (or field count) the object declares.
    fn get_arg_count(&self) -> (r: usize)
        ensures
            r == self.arg_count_of(),
    ;
}

/// The views of a vector of values.
pub open spec fn models(v: Seq<Value>) -> Seq<ValueModel> {
    v.map_values(|x: Value| x@)
}

fn copy_values(v: &Vec<Value>) -> (r: Vec<Value>)
    ensures
        models(r@) == models(v@),
{
    let mut r: Vec<Value> = Vec::new();
    let mut i: usize = 0;
    while i < v.len()
        invariant
            i <= v@.len(),
            models(r@) == models(v@).take(i as int),
        decreases v@.len() - i,
    {
        let x = v[i].copy();
        let ghost old_r = r@;
        let ghost xm = x@;
        r.push(x);
        assert(r@.len() == old_r.len() + 1);
        assert(models(old_r).len() == old_r.len());
        i = i + 1;
        assert forall|j: int| 0 <= j < i implies models(r@)[j] == models(v@).take(i as int)[j] by {
            if j < i - 1 {
                assert(models(old_r)[j] == models(v@).take((i - 1) as int)[j]);
                assert(r@[j] == old_r[j]);
            }
        }
        assert(models(r@) =~= models(v@).take(i as int));
    }
    assert(models(v@).take(i as int) =~= models(v@));
    r
}

/// A slot of the heap whose object was removed.
#[derive(Debug, Clone, PartialEq)]
pub struct EmptyObject {}

impl Object for EmptyObject {
    open spec fn is_counted(&self) -> bool { false }
    open spec fn counter(&self) -> nat { 0 }
    open spec fn held_values(&self) -> Seq<ValueModel> { seq![ValueModel::EmptyObj] }
    open spec fn values_after_set(&self, pos: int, v: ValueModel) -> Seq<ValueModel> { self.held_values() }
    open spec fn can_set(&self, pos: int) -> bool { true }
    open spec fn arg_count_of(&self) -> nat { 0 }

    fn inc_counter(&mut self) {}

    fn dec_counter(&mut self) {}

    fn get_rc_counter(&self) -> (r: usize) { 0 }

    fn get_values(&self) -> (r: Vec<Value>) {
        let r = vec![Value::EmptyObj];
        assert(models(r@) =~= seq![ValueModel::EmptyObj]);
        r
    }

    fn set_value(&mut self, pos: usize, value: Value) {}

    fn get_arg_count(&self) -> (r: usize) { 0 }
}

impl Object for StructInstance {
    open spec fn is_counted(&self) -> bool { true }
    open spec fn counter(&self) -> nat { self.rc_counter as nat }
    open spec fn held_values(&self) -> Seq<ValueModel> { models(self.fields_values@) }
    open spec fn values_after_set(&self, pos: int, v: ValueModel) -> Seq<ValueModel> { self.held_values().update(pos, v) }
    open spec fn can_set(&self, pos: int) -> bool { 0 <= pos < self.fields_values@.len() }
    open spec fn arg_count_of(&self) -> nat { 0 }

    fn inc_counter(&mut self) {
        self.rc_counter = self.rc_counter + 1;
    }

    fn dec_counter(&mut self) {
        self.rc_counter = self.rc_counter - 1;
    }

    fn get_rc_counter(&self) -> (r: usize) { self.rc_counter }

    fn get_values(&self) -> (r: Vec<Value>) {
        copy_values(&self.fields_values)
    }

    fn set_value(&mut self, pos: usize, value: Value) {
        let ghost m = value@;
        self.fields_values.set(pos, value);
        assert(models(self.fields_values@) =~= models(old(self).fields_values@).update(pos as int, m));
    }

    fn get_arg_count(&self) -> (r: usize) { 0 }
}

impl Object for Struct {
    open spec fn is_counted(&self) -> bool { true }
    open spec fn counter(&self) -> nat { self.rc_counter as nat }
    open spec fn held_values(&self) -> Seq<ValueModel> { seq![ValueModel::String(self.name@)] }
    open spec fn values_after_set(&self, pos: int, v: ValueModel) -> Seq<ValueModel> { self.held_values() }
    open spec fn can_set(&self, pos: int) -> bool { true }
    open spec fn arg_count_of(&self) -> nat { self.field_count as nat }

    fn inc_counter(&mut self) {
        self.rc_counter = self.rc_counter + 1;
    }

    fn dec_counter(&mut self) {
        self.rc_counter = self.rc_counter - 1;
    }

    fn get_rc_counter(&self) -> (r: usize) { self.rc_counter }

    fn get_values(&self) -> (r: Vec<Value>) {
        let r = vec![Value::String(self.name.clone())];
        assert(models(r@) =~= seq![ValueModel::String(self.name@)]);
        r
    }

    fn set_value(&mut self, pos: usize, value: Value) {}

    fn get_arg_count(&self) -> (r: usize) { self.field_count }
}

impl Object for Function {
    open spec fn is_counted(&self) -> bool { true }
    open spec fn counter(&self) -> nat { self.rc_counter as nat }
    open spec fn held_values(&self) -> Seq<ValueModel> { Seq::empty() }
    open spec fn values_after_set(&self, pos: int, v: ValueModel) -> Seq<ValueModel> { self.held_values() }
    open spec fn can_set(&self, pos: int) -> bool { true }
    open spec fn arg_count_of(&self) -> nat { self.arg_count as nat }

    fn inc_counter(&mut self) {
        self.rc_counter = self.rc_counter + 1;
    }

    fn dec_counter(&mut self) {
        self.rc_counter = self.rc_counter - 1;
    }

    fn get_rc_counter(&self) -> (r: usize) { self.rc_counter }

    fn get_values(&self) -> (r: Vec<Value>) {
        let r: Vec<Value> = Vec::new();
        assert(models(r@) =~= Seq::<ValueModel>::empty());
        r
    }

    fn set_value(&mut self, pos: usize, value: Value) {}

    fn get_arg_count(&self) -> (r: usize) { self.arg_count }
}

impl Object for NativeFn {
    open spec fn is_counted(&self) -> bool { true }
    open spec fn counter(&self) -> nat { self.rc_counter as nat }
    open spec fn held_values(&self) -> Seq<ValueModel> { Seq::empty() }
    open spec fn values_after_set(&self, pos: int, v: ValueModel) -> Seq<ValueModel> { self.held_values() }
    open spec fn can_set(&self, pos: int) -> bool { true }
    open spec fn arg_count_of(&self) -> nat { self.arg_count as nat }

    fn inc_counter(&mut self) {
        self.rc_counter = self.rc_counter + 1;
    }

    fn dec_counter(&mut self) {
        self.rc_counter = self.rc_counter - 1;
    }

    fn get_rc_counter(&self) -> (r: usize) { self.rc_counter }

    fn get_values(&self) -> (r: Vec<Value>) {
        let r: Vec<Value> = Vec::new();
        assert(models(r@) =~= Seq::<ValueModel>::empty());
        r
    }

    fn set_value(&mut self, pos: usize, value: Value) {}

    fn get_arg_count(&self) -> (r: usize) { self.arg_count }
}

} // verus!

verus! {

/// An object on the machine's heap.
#[derive(Debug, PartialEq)]
pub enum HeapObject {
    Function(Function),
    Native(NativeFn),
    Struct(Struct),
    Instance(StructInstance),
    Empty(EmptyObject),
}

impl HeapObject {
    pub open spec fn counted(&self) -> bool {
        !(self is Empty)
    }

    pub open spec fn count(&self) -> nat {
        match self {
            HeapObject::Function(f) => f.counter(),
            HeapObject::Native(n) => n.counter(),
            HeapObject::Struct(s) => s.counter(),
            HeapObject::Instance(i) => i.counter(),
            HeapObject::Empty(e) => e.counter(),
        }
    }

    pub open spec fn values(&self) -> Seq<ValueModel> {
        match self {
            HeapObject::Function(f) => f.held_values(),
            HeapObject::Native(n) => n.held_values(),
            HeapObject::Struct(s) => s.held_values(),
            HeapObject::Instance(i) => i.held_values(),
            HeapObject::Empty(e) => e.held_values(),
        }
    }

    pub open spec fn can_set_at(&self, pos: int) -> bool {
        match self {
            HeapObject::Instance(i) => i.can_set(pos),
            _ => true,
        }
    }

    pub open spec fn values_after(&self, pos: int, v: ValueModel) -> Seq<ValueModel> {
        match self {
            HeapObject::Instance(i) => i.values_after_set(pos, v),
            _ => self.values(),
        }
    }

    pub open spec fn arg_count(&self) -> nat {
        match self {
            HeapObject::Function(f) => f.arg_count_of(),
            HeapObject::Native(n) => n.arg_count_of(),
            HeapObject::Struct(s) => s.arg_count_of(),
            HeapObject::Instance(i) => i.arg_count_of(),
            HeapObject::Empty(e) => e.arg_count_of(),
        }
    }
}

impl Object for HeapObject {
    open spec fn is_counted(&self) -> bool { self.counted() }
    open spec fn counter(&self) -> nat { self.count() }
    open spec fn held_values(&self) -> Seq<ValueModel> { self.values() }
    open spec fn values_after_set(&self, pos: int, v: ValueModel) -> Seq<ValueModel> { self.values_after(pos, v) }
    open spec fn can_set(&self, pos: int) -> bool { self.can_set_at(pos) }
    open spec fn arg_count_of(&self) -> nat { self.arg_count() }

    fn inc_counter(&mut self)
        ensures
            *final(self) is Instance <==> *old(self) is Instance,
            recounted(*old(self), *final(self)),
    {
        match self {
            HeapObject::Function(f) => {
                f.rc_counter = f.rc_counter + 1;
            },
            HeapObject::Native(n) => {
                n.rc_counter = n.rc_counter + 1;
            },
            HeapObject::Struct(s) => {
                s.rc_counter = s.rc_counter + 1;
            },
            HeapObject::Instance(i) => {
                i.rc_counter = i.rc_counter + 1;
            },
            HeapObject::Empty(_) => {},
        }
    }

    fn dec_counter(&mut self)
        ensures
            *final(self) is Instance <==> *old(self) is Instance,
            recounted(*old(self), *final(self)),
    {
        match self {
            HeapObject::Function(f) => {
                f.rc_counter = f.rc_counter - 1;
            },
            HeapObject::Native(n) => {
                n.rc_counter = n.rc_counter - 1;
            },
            HeapObject::Struct(s) => {
                s.rc_counter = s.rc_counter - 1;
            },
            HeapObject::Instance(i) => {
                i.rc_counter = i.rc_counter - 1;
            },
            HeapObject::Empty(_) => {},
        }
    }

    fn get_rc_counter(&self) -> (r: usize) {
        match self {
            HeapObject::Function(f) => f.get_rc_counter(),
            HeapObject::Native(n) => n.get_rc_counter(),
            HeapObject::Struct(s) => s.get_rc_counter(),
            HeapObject::Instance(i) => i.get_rc_counter(),
            HeapObject::Empty(e) => e.get_rc_counter(),
        }
    }

    fn get_values(&self) -> (r: Vec<Value>) {
        match self {
            HeapObject::Function(f) => f.get_values(),
            HeapObject::Native(n) => n.get_values(),
            HeapObject::Struct(s) => s.get_values(),
            HeapObject::Instance(i) => i.get_values(),
            HeapObject::Empty(e) => e.get_values(),
        }
    }

    fn set_value(&mut self, pos: usize, value: Value) {
        match self {
            HeapObject::Function(f) => f.set_value(pos, value),
            HeapObject::Native(n) => n.set_value(pos, value),
            HeapObject::Struct(s) => s.set_value(pos, value),
            HeapObject::Instance(i) => i.set_value(pos, value),
            HeapObject::Empty(e) => e.set_value(pos, value),
        }
    }

    fn get_arg_count(&self) -> (r: usize) {
        match self {
            HeapObject::Function(f) => f.get_arg_count(),
            HeapObject::Native(n) => n.get_arg_count(),
            HeapObject::Struct(s) => s.get_arg_count(),
            HeapObject::Instance(i) => i.get_arg_count(),
            HeapObject::Empty(e) => e.get_arg_count(),
        }
    }
}

/// `b` is the object `a` with, at most, another reference count: same kind, and every
/// other field (a function's name, chunk and argument count among them) unchanged.
pub open spec fn recounted(a: HeapObject, b: HeapObject) -> bool {
    match (a, b) {
        (HeapObject::Function(f), HeapObject::Function(g)) => g == Function { rc_counter: g.rc_counter, ..f },
        (HeapObject::Native(f), HeapObject::Native(g)) => g == NativeFn { rc_counter: g.rc_counter, ..f },
        (HeapObject::Struct(f), HeapObject::Struct(g)) => g == Struct { rc_counter: g.rc_counter, ..f },
        (HeapObject::Instance(f), HeapObject::Instance(g)) => g == StructInstance { rc_counter: g.rc_counter, ..f },
        (HeapObject::Empty(_), HeapObject::Empty(_)) => true,
        _ => false,
    }
}

/// Every object of `b` is the object of `a` at the same place, recounted.
pub open spec fn all_recounted(a: Seq<HeapObject>, b: Seq<HeapObject>) -> bool {
    &&& a.len() == b.len()
    &&& forall|i: int| 0 <= i < a.len() ==> recounted(#[trigger] a[i], b[i])
}

/// Every object of `b` is the object of `a` at the same place, recounted, or an emptied
/// slot.
pub open spec fn recounted_or_freed(a: Seq<HeapObject>, b: Seq<HeapObject>) -> bool {
    &&& a.len() == b.len()
    &&& forall|i: int| 0 <= i < a.len() ==> recounted(#[trigger] a[i], b[i]) || b[i] is Empty
}

/// Every object of `a` that is not an instance stands in `b` at the same place, at most
/// recounted, or its slot has been emptied; `b` holds at least as many objects. Functions,
/// built-in functions and structs, with their code, are never changed but for their count.
pub open spec fn others_kept(a: Seq<HeapObject>, b: Seq<HeapObject>) -> bool {
    &&& a.len() <= b.len()
    &&& forall|i: int| 0 <= i < a.len() && !(a[i] is Instance) ==> recounted(#[trigger] a[i], b[i]) || b[i] is Empty
}

/// Keeping the other objects holds of no change, and of two steps that each keep them.
pub proof fn lemma_others_kept_trans(a: Seq<HeapObject>, b: Seq<HeapObject>, c: Seq<HeapObject>)
    requires
        others_kept(a, b),
        others_kept(b, c),
    ensures
        others_kept(a, c),
        others_kept(a, a),
{
    assert forall|i: int| 0 <= i < a.len() && !(a[i] is Instance) implies recounted(#[trigger] a[i], c[i]) || c[i] is Empty by {
        assert(recounted(a[i], b[i]) || b[i] is Empty);
        assert(!(b[i] is Instance));
        assert(recounted(b[i], c[i]) || c[i] is Empty);
    }
    assert forall|i: int| 0 <= i < a.len() && !(a[i] is Instance) implies recounted(#[trigger] a[i], a[i]) || a[i] is Empty by {
        match a[i] {
            HeapObject::Function(f) => assert(f == Function { rc_counter: f.rc_counter, ..f }),
            HeapObject::Native(f) => assert(f == NativeFn { rc_counter: f.rc_counter, ..f }),
            HeapObject::Struct(f) => assert(f == Struct { rc_counter: f.rc_counter, ..f }),
            _ => {},
        }
    }
}

/// Recounting every object, or emptying some, keeps the other objects.
pub proof fn lemma_recounted_keeps(a: Seq<HeapObject>, b: Seq<HeapObject>)
    requires
        recounted_or_freed(a, b) || all_recounted(a, b),
    ensures
        others_kept(a, b),
{
    assert forall|i: int| 0 <= i < a.len() && !(a[i] is Instance) implies recounted(#[trigger] a[i], b[i]) || b[i] is Empty by {
        if all_recounted(a, b) {
            assert(recounted(a[i], b[i]));
        }
    }
}

/// The counted state of a heap slot: whether it is counted, its count, and its values.
pub struct SlotModel {
    pub counted: bool,
    pub count: nat,
    pub values: Seq<ValueModel>,
}

pub open spec fn slot_of(o: HeapObject) -> SlotModel {
    SlotModel { counted: o.counted(), count: o.count(), values: o.values() }
}

pub open spec fn empty_slot() -> SlotModel {
    SlotModel { counted: false, count: 0, values: seq![ValueModel::EmptyObj] }
}

/// The slot with one reference more (an uncounted slot is left as it is).
pub open spec fn incremented(s: SlotModel) -> SlotModel {
    if s.counted {
        SlotModel { count: s.count + 1, ..s }
    } else {
        s
    }
}

/// The slot with one reference fewer (an uncounted slot is left as it is).
pub open spec fn decremented(s: SlotModel) -> SlotModel {
    if s.counted {
        SlotModel { count: (s.count - 1) as nat, ..s }
    } else {
        s
    }
}

/// The heap after dropping one reference for each heap reference among `vals`, in order;
/// `None` where a reference is out of range or would drop a count below zero.
pub open spec fn drop_refs(h: Seq<SlotModel>, vals: Seq<ValueModel>) -> Option<Seq<SlotModel>>
    decreases vals.len(),
{
    if vals.len() == 0 {
        Some(h)
    } else {
        match drop_refs(h, vals.drop_last()) {
            None => None,
            Some(h2) => match vals.last() {
                ValueModel::StringRef(p) | ValueModel::InstanceRef(p) => {
                    if p < h2.len() && (h2[p as int].counted ==> h2[p as int].count > 0) {
                        Some(h2.update(p as int, decremented(h2[p as int])))
                    } else {
                        None
                    }
                },
                _ => Some(h2),
            },
        }
    }
}

/// The heap after the slots `0..n` have been swept, from `n - 1` down to `0`: a slot whose
/// count is zero drops the references it holds and becomes empty.
pub open spec fn sweep(h: Seq<SlotModel>, n: int) -> Option<Seq<SlotModel>>
    decreases n,
{
    if n <= 0 {
        Some(h)
    } else {
        let k = n - 1;
        if 0 <= k < h.len() && h[k].count == 0 {
            match drop_refs(h, h[k].values) {
                None => None,
                Some(h2) => if k < h2.len() {
                    sweep(h2.update(k, empty_slot()), k)
                } else {
                    None
                },
            }
        } else {
            sweep(h, k)
        }
    }
}

/// Dropping references keeps the heap's length.
pub proof fn lemma_drop_refs_len(h: Seq<SlotModel>, vals: Seq<ValueModel>)
    requires
        drop_refs(h, vals) is Some,
    ensures
        drop_refs(h, vals).unwrap().len() == h.len(),
    decreases vals.len(),
{
    if vals.len() > 0 {
        lemma_drop_refs_len(h, vals.drop_last());
    }
}

/// Where dropping the references of `vals` succeeds, so does dropping those of any prefix.
pub proof fn lemma_drop_refs_prefix(h: Seq<SlotModel>, vals: Seq<ValueModel>, i: int)
    requires
        drop_refs(h, vals) is Some,
        0 <= i <= vals.len(),
    ensures
        drop_refs(h, vals.take(i)) is Some,
    decreases vals.len(),
{
    if i == vals.len() {
        assert(vals.take(i) =~= vals);
    } else {
        lemma_drop_refs_prefix(h, vals.drop_last(), i);
        assert(vals.drop_last().take(i) =~= vals.take(i));
    }
}

/// Sweeping keeps the heap's length.
pub proof fn lemma_sweep_len(h: Seq<SlotModel>, n: int)
    requires
        sweep(h, n) is Some,
    ensures
        sweep(h, n).unwrap().len() == h.len(),
    decreases n,
{
    if n > 0 {
        let k = n - 1;
        if 0 <= k < h.len() && h[k].count == 0 {
            lemma_drop_refs_len(h, h[k].values);
            let h2 = drop_refs(h, h[k].values).unwrap();
            lemma_sweep_len(h2.update(k, empty_slot()), k);
        } else {
            lemma_sweep_len(h, k);
        }
    }
}

/// The heap of objects the machine allocates, with reference counts.
pub struct ReferenceCounter {
    pub heap: Vec<HeapObject>,
}

/// Which slots of a heap hold instances.
pub open spec fn kinds(heap: Seq<HeapObject>) -> Seq<bool> {
    heap.map_values(|o: HeapObject| o is Instance)
}

impl ReferenceCounter {
    /// The counted state of every slot.
    pub open spec fn slots(&self) -> Seq<SlotModel> {
        self.heap@.map_values(|o: HeapObject| slot_of(o))
    }

    /// An empty heap.
    pub fn init() -> (r: Self)
        ensures
            r.heap@.len() == 0,
    {
        ReferenceCounter { heap: Vec::new() }
    }

    /// Adds an object at the end of the heap.
    pub fn push(&mut self, object: HeapObject)
        ensures
            final(self).heap@ == old(self).heap@.push(object),
    {
        self.heap.push(object);
    }

    /// The object at `index`, to change.
    pub fn get_object(&mut self, index: usize) -> (r: &mut HeapObject)
        requires
            index < old(self).heap@.len(),
        ensures
            *r == old(self).heap@[index as int],
            final(self).heap@ == old(self).heap@.update(index as int, *final(r)),
    {
        &mut self.heap[index]
    }

    /// Adds a reference to the object at `index`.
    pub fn inc_counter(&mut self, index: usize)
        requires
            index < old(self).heap@.len(),
            old(self).heap@[index as int].count() < usize::MAX,
        ensures
            final(self).heap@.len() == old(self).heap@.len(),
            final(self).slots() == old(self).slots().update(index as int, incremented(old(self).slots()[index as int])),
            kinds(final(self).heap@) == kinds(old(self).heap@),
            all_recounted(old(self).heap@, final(self).heap@),
            forall|j: int| 0 <= j < old(self).heap@.len() && j != index ==> final(self).heap@[j] == old(self).heap@[j],
    {
        let ghost before = self.heap@;
        let mut o = self.heap.remove(index);
        o.inc_counter();
        self.heap.insert(index, o);
        proof {
            assert(self.heap@ =~= before.update(index as int, o));
            assert(self.slots() =~= before.map_values(|o: HeapObject| slot_of(o)).update(index as int, slot_of(o)));
            assert(kinds(self.heap@) =~= kinds(before));
        }
    }

    /// Drops a reference to the object at `index`.
    pub fn dec_counter(&mut self, index: usize)
        requires
            index < old(self).heap@.len(),
            old(self).heap@[index as int].counted() ==> old(self).heap@[index as int].count() > 0,
        ensures
            final(self).heap@.len() == old(self).heap@.len(),
            final(self).slots() == old(self).slots().update(index as int, decremented(old(self).slots()[index as int])),
            kinds(final(self).heap@) == kinds(old(self).heap@),
            all_recounted(old(self).heap@, final(self).heap@),
            forall|j: int| 0 <= j < old(self).heap@.len() && j != index ==> final(self).heap@[j] == old(self).heap@[j],
    {
        let ghost before = self.heap@;
        let mut o = self.heap.remove(index);
        o.dec_counter();
        self.heap.insert(index, o);
        proof {
            assert(self.heap@ =~= before.update(index as int, o));
            assert(self.slots() =~= before.map_values(|o: HeapObject| slot_of(o)).update(index as int, slot_of(o)));
            assert(kinds(self.heap@) =~= kinds(before));
        }
    }

    /// Drops one reference for each heap reference that the object at `index` holds.
    fn dec_values(&mut self, index: usize)
        requires
            index < old(self).heap@.len(),
            drop_refs(old(self).slots(), old(self).slots()[index as int].values) is Some,
        ensures
            final(self).slots() == drop_refs(old(self).slots(), old(self).slots()[index as int].values).unwrap(),
            final(self).heap@.len() == old(self).heap@.len(),
            all_recounted(old(self).heap@, final(self).heap@),
    {
        let ghost h0 = self.slots();
        let values = self.heap[index].get_values();
        let ghost vals = models(values@);
        assert(vals == h0[index as int].values);
        let mut i: usize = 0;
        while i < values.len()
            invariant
                i <= values@.len(),
                vals == models(values@),
                self.heap@.len() == h0.len(),
                drop_refs(h0, vals) is Some,
                drop_refs(h0, vals.take(i as int)) == Some(self.slots()),
                all_recounted(old(self).heap@, self.heap@),
            decreases values@.len() - i,
        {
            proof {
                lemma_drop_refs_prefix(h0, vals, i as int + 1);
                assert(vals.take(i as int + 1).drop_last() =~= vals.take(i as int));
                lemma_drop_refs_len(h0, vals.take(i as int));
            }
            match &values[i] {
                Value::StringRef(p) | Value::InstanceRef(p) => {
                    self.dec_counter(*p);
                },
                _ => {},
            }
            i = i + 1;
        }
        assert(vals.take(i as int) =~= vals);
    }

    /// Sweeps the heap from its last object to its first: an object whose count is zero
    /// drops the references it holds and is replaced by an empty slot.
    pub fn remove(&mut self)
        requires
            sweep(old(self).slots(), old(self).heap@.len() as int) is Some,
        ensures
            final(self).slots() == sweep(old(self).slots(), old(self).heap@.len() as int).unwrap(),
            final(self).heap@.len() == old(self).heap@.len(),
            recounted_or_freed(old(self).heap@, final(self).heap@),
    {
        let ghost h0 = self.slots();
        let n = self.heap.len();
        let mut i: usize = n;
        while i > 0
            invariant
                i <= n,
                self.heap@.len() == n,
                sweep(self.slots(), i as int) is Some,
                sweep(h0, n as int) == sweep(self.slots(), i as int),
                recounted_or_freed(old(self).heap@, self.heap@),
            decreases i,
        {
            let k = i - 1;
            if self.heap[k].get_rc_counter() == 0 {
                let ghost h = self.slots();
                self.dec_values(k);
                proof {
                    lemma_drop_refs_len(h, h[k as int].values);
                }
                let ghost h2 = self.slots();
                self.heap.set(k, HeapObject::Empty(EmptyObject {}));
                proof {
                    assert(self.slots() =~= h2.update(k as int, empty_slot()));
                }
            }
            i = k;
        }
    }

    /// Empties the heap.
    pub fn remove_all(&mut self)
        ensures
            final(self).heap@.len() == 0,
    {
        self.heap = Vec::new();
    }
}


impl ReferenceCounter {
    /// Whether the slot at `index` is counted (holds an object rather than an empty slot).
    fn is_counted_at(&self, index: usize) -> (b: bool)
        requires
            index < self.heap@.len(),
        ensures
            b == self.heap@[index as int].counted(),
    {
        match &self.heap[index] {
            HeapObject::Empty(_) => false,
            _ => true,
        }
    }

    /// Adds a reference to the object at `index`; fails where there is no slot there or
    /// the count is at its largest.
    pub fn try_inc_counter(&mut self, index: usize) -> (r: Result<(), RuntimeError>)
        ensures
            final(self).heap@.len() == old(self).heap@.len(),
            index >= old(self).heap@.len() ==> r == Err::<(), RuntimeError>(RuntimeError::BadReference),
            index < old(self).heap@.len() && old(self).heap@[index as int].count() == usize::MAX ==> r == Err::<
                (),
                RuntimeError,
            >(RuntimeError::Overflow),
            r is Ok <==> index < old(self).heap@.len() && old(self).heap@[index as int].count() < usize::MAX,
            r is Ok ==> final(self).slots() == old(self).slots().update(index as int, incremented(old(self).slots()[index as int])),
            r is Err ==> final(self).slots() == old(self).slots(),
            kinds(final(self).heap@) == kinds(old(self).heap@),
            r is Ok ==> all_recounted(old(self).heap@, final(self).heap@),
    {
        if index >= self.heap.len() {
            return Err(RuntimeError::BadReference);
        }
        if self.heap[index].get_rc_counter() == usize::MAX {
            return Err(RuntimeError::Overflow);
        }
        self.inc_counter(index);
        Ok(())
    }

    /// Drops a reference to the object at `index`; fails where there is no slot there or
    /// a counted object's count is already zero.
    pub fn try_dec_counter(&mut self, index: usize) -> (r: Result<(), RuntimeError>)
        ensures
            final(self).heap@.len() == old(self).heap@.len(),
            r is Ok <==> index < old(self).heap@.len() && (old(self).heap@[index as int].counted()
                ==> old(self).heap@[index as int].count() > 0),
            r is Ok ==> final(self).slots() == old(self).slots().update(
                index as int,
                decremented(old(self).slots()[index as int]),
            ),
            r matches Err(e) ==> e == RuntimeError::BadReference && final(self).slots() == old(self).slots(),
            kinds(final(self).heap@) == kinds(old(self).heap@),
            all_recounted(old(self).heap@, final(self).heap@),
    {
        if index >= self.heap.len() {
            return Err(RuntimeError::BadReference);
        }
        if self.is_counted_at(index) && self.heap[index].get_rc_counter() == 0 {
            return Err(RuntimeError::BadReference);
        }
        self.dec_counter(index);
        Ok(())
    }

    /// Drops one reference for each heap reference that the object at `index` holds;
    /// fails where a reference is out of range or would take a count below zero.
    fn try_dec_values(&mut self, index: usize) -> (r: Result<(), RuntimeError>)
        requires
            index < old(self).heap@.len(),
        ensures
            final(self).heap@.len() == old(self).heap@.len(),
            r is Ok <==> drop_refs(old(self).slots(), old(self).slots()[index as int].values) is Some,
            r is Ok ==> final(self).slots() == drop_refs(old(self).slots(), old(self).slots()[index as int].values).unwrap(),
            r matches Err(e) ==> e == RuntimeError::BadReference,
            all_recounted(old(self).heap@, final(self).heap@),
    {
        let ghost h0 = self.slots();
        let values = self.heap[index].get_values();
        let ghost vals = models(values@);
        assert(vals == h0[index as int].values);
        let mut i: usize = 0;
        while i < values.len()
            invariant
                h0 == old(self).slots(),
                index < old(self).heap@.len(),
                vals == h0[index as int].values,
                i <= values@.len(),
                vals == models(values@),
                self.heap@.len() == h0.len(),
                h0.len() == old(self).heap@.len(),
                drop_refs(h0, vals.take(i as int)) == Some(self.slots()),
                all_recounted(old(self).heap@, self.heap@),
            decreases values@.len() - i,
        {
            assert(vals.take(i as int + 1).drop_last() =~= vals.take(i as int));
            assert(vals.take(i as int + 1).last() == values@[i as int]@);
            proof {
                lemma_drop_refs_len(h0, vals.take(i as int));
            }
            match &values[i] {
                Value::StringRef(p) | Value::InstanceRef(p) => {
                    let p = *p;
                    if p >= self.heap.len() || (self.is_counted_at(p) && self.heap[p].get_rc_counter() == 0) {
                        proof {
                            if p < self.heap@.len() {
                                assert(self.slots()[p as int] == slot_of(self.heap@[p as int]));
                            }
                            assert(drop_refs(h0, vals.take(i as int + 1)) is None);
                            if drop_refs(h0, vals) is Some {
                                lemma_drop_refs_prefix(h0, vals, i as int + 1);
                            }
                        }
                        return Err(RuntimeError::BadReference);
                    }
                    self.dec_counter(p);
                },
                _ => {},
            }
            i = i + 1;
        }
        assert(vals.take(i as int) =~= vals);
        Ok(())
    }

    /// `remove`, checked: sweeps the heap where the sweep can be done, and fails (leaving
    /// the heap part swept) where an object drops a reference it cannot.
    pub fn try_remove(&mut self) -> (r: Result<(), RuntimeError>)
        ensures
            final(self).heap@.len() == old(self).heap@.len(),
            r is Ok <==> sweep(old(self).slots(), old(self).heap@.len() as int) is Some,
            r is Ok ==> final(self).slots() == sweep(old(self).slots(), old(self).heap@.len() as int).unwrap(),
            r matches Err(e) ==> e == RuntimeError::BadReference,
            recounted_or_freed(old(self).heap@, final(self).heap@),
    {
        let ghost h0 = self.slots();
        let n = self.heap.len();
        let mut i: usize = n;
        while i > 0
            invariant
                h0 == old(self).slots(),
                n == old(self).heap@.len(),
                i <= n,
                self.heap@.len() == n,
                sweep(h0, n as int) == sweep(self.slots(), i as int),
                recounted_or_freed(old(self).heap@, self.heap@),
            decreases i,
        {
            let k = i - 1;
            if self.heap[k].get_rc_counter() == 0 {
                let ghost h = self.slots();
                assert(h[k as int] == slot_of(self.heap@[k as int]));
                match self.try_dec_values(k) {
                    Ok(()) => {},
                    Err(e) => {
                        assert(sweep(h, i as int) is None);
                        return Err(e);
                    },
                }
                proof {
                    lemma_drop_refs_len(h, h[k as int].values);
                }
                let ghost h2 = self.slots();
                self.heap.set(k, HeapObject::Empty(EmptyObject {}));
                proof {
                    assert(self.slots() =~= h2.update(k as int, empty_slot()));
                }
            }
            i = k;
        }
        Ok(())
    }
}

/// Dropping a reference undoes adding one.
pub proof fn lemma_inc_then_dec(s: SlotModel)
    ensures
        decremented(incremented(s)) == s,
{
}

/// A sweep of the slots `0..n` changes nothing where each of them holds a reference.
pub proof fn lemma_sweep_live(h: Seq<SlotModel>, n: int)
    requires
        0 <= n <= h.len(),
        forall|k: int| 0 <= k < n ==> (#[trigger] h[k]).count > 0,
    ensures
        sweep(h, n) == Some(h),
    decreases n,
{
    if n > 0 {
        lemma_sweep_live(h, n - 1);
    }
}
} // verus!
