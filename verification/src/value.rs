//! The recursive tagged-union document type at the center of the model.
//!
//! A `Value` holds text, a number, a boolean, an array, an object,
//! date/time data, or explicit null/undefined.  Its mathematical shape
//! is the `ValueView` tree: text becomes its character sequence, keys
//! become their character sequences, and containers become sequences,
//! so contracts over values speak of one pure recursive datatype.
//! Equality of values is logical: numbers compare by value and not by
//! origin width, containers compare entry by entry, and an object's
//! backend is part of its identity.

use vstd::prelude::*;

verus! {

use crate::array::Array;
use crate::datetime::DateTime;
use crate::key::ValueKey;
use crate::number::Number;
use crate::object::{keys_distinct, keys_sorted, Object};
use crate::stringb::StringB;

/// A dynamically typed value: exactly one case is active at a time.
#[derive(Debug)]
pub enum Value {
    String(StringB),
    Number(Number),
    Boolean(bool),
    Array(Array),
    Object(Object),
    Null,
    Undefined,
    DateTime(DateTime),
}

/// The mathematical shape of a value tree: texts and keys as character
/// sequences, containers as sequences.
pub enum ValueView {
    String(Seq<char>),
    Number(Number),
    Boolean(bool),
    Array(Seq<ValueView>),
    Object(bool, Seq<(Seq<char>, ValueView)>),
    Null,
    Undefined,
    DateTime(DateTime),
}

impl Value {
    /// The mathematical shape of this value.
    pub open spec fn deep_view(self) -> ValueView
        decreases self,
    {
        match self {
            Value::String(s) => ValueView::String(s@),
            Value::Number(n) => ValueView::Number(n),
            Value::Boolean(b) => ValueView::Boolean(b),
            Value::Array(a) => ValueView::Array(deep_view_seq(a.elements@)),
            Value::Object(o) => ValueView::Object(o.ordered, deep_view_entries(o.entries@)),
            Value::Null => ValueView::Null,
            Value::Undefined => ValueView::Undefined,
            Value::DateTime(d) => ValueView::DateTime(d),
        }
    }

    /// Every object in the tree keeps its backend's discipline, and
    /// every held date or time is a real calendar value.
    pub open spec fn wf(self) -> bool
        decreases self,
    {
        match self {
            Value::Array(a) => wf_seq(a.elements@),
            Value::Object(o) => keys_distinct(o.entries@) && (o.ordered ==> keys_sorted(
                o.entries@,
            )) && wf_entries(o.entries@),
            Value::DateTime(d) => d.wf(),
            _ => true,
        }
    }
}

/// The shapes of a sequence of values.
pub open spec fn deep_view_seq(s: Seq<Value>) -> Seq<ValueView>
    decreases s,
{
    if s.len() == 0 {
        Seq::empty()
    } else {
        deep_view_seq(s.drop_last()).push(s.last().deep_view())
    }
}

/// The shapes of a sequence of entries: each key as its character
/// sequence beside its value's shape.
pub open spec fn deep_view_entries(s: Seq<(ValueKey, Value)>) -> Seq<(Seq<char>, ValueView)>
    decreases s,
{
    if s.len() == 0 {
        Seq::empty()
    } else {
        deep_view_entries(s.drop_last()).push((s.last().0@, s.last().1.deep_view()))
    }
}

/// Well-formedness of every value in a sequence.
pub open spec fn wf_seq(s: Seq<Value>) -> bool
    decreases s,
{
    s.len() == 0 || (s.last().wf() && wf_seq(s.drop_last()))
}

/// Well-formedness of every value in a sequence of entries.
pub open spec fn wf_entries(s: Seq<(ValueKey, Value)>) -> bool
    decreases s,
{
    s.len() == 0 || (s.last().1.wf() && wf_entries(s.drop_last()))
}

/// `deep_view_seq` is the elementwise shape.
pub proof fn lemma_deep_view_seq(s: Seq<Value>)
    ensures
        deep_view_seq(s).len() == s.len(),
        forall|i: int| 0 <= i < s.len() ==> #[trigger] deep_view_seq(s)[i] == s[i].deep_view(),
    decreases s.len(),
{
    if s.len() > 0 {
        let t = s.drop_last();
        lemma_deep_view_seq(t);
        assert forall|i: int| 0 <= i < s.len() implies #[trigger] deep_view_seq(s)[i]
            == s[i].deep_view() by {
            if i < s.len() - 1 {
                assert(t[i] == s[i]);
                assert(deep_view_seq(s)[i] == deep_view_seq(t)[i]);
            } else {
                assert(s.last() == s[i]);
            }
        }
    }
}

/// `deep_view_entries` is the entrywise shape.
pub proof fn lemma_deep_view_entries(s: Seq<(ValueKey, Value)>)
    ensures
        deep_view_entries(s).len() == s.len(),
        forall|i: int|
            0 <= i < s.len() ==> #[trigger] deep_view_entries(s)[i] == (s[i].0@,
            s[i].1.deep_view()),
    decreases s.len(),
{
    if s.len() > 0 {
        let t = s.drop_last();
        lemma_deep_view_entries(t);
        assert forall|i: int| 0 <= i < s.len() implies #[trigger] deep_view_entries(s)[i] == (
            s[i].0@, s[i].1.deep_view()) by {
            if i < s.len() - 1 {
                assert(t[i] == s[i]);
                assert(deep_view_entries(s)[i] == deep_view_entries(t)[i]);
            } else {
                assert(s.last() == s[i]);
            }
        }
    }
}

/// `wf_seq` is elementwise well-formedness.
pub proof fn lemma_wf_seq(s: Seq<Value>)
    ensures
        wf_seq(s) <==> (forall|i: int| 0 <= i < s.len() ==> (#[trigger] s[i]).wf()),
    decreases s.len(),
{
    if s.len() > 0 {
        let t = s.drop_last();
        lemma_wf_seq(t);
        if wf_seq(s) {
            assert forall|i: int| 0 <= i < s.len() implies (#[trigger] s[i]).wf() by {
                if i < s.len() - 1 {
                    assert(t[i] == s[i]);
                } else {
                    assert(s.last() == s[i]);
                }
            }
        } else {
            if forall|i: int| 0 <= i < s.len() ==> (#[trigger] s[i]).wf() {
                assert forall|i: int| 0 <= i < t.len() implies (#[trigger] t[i]).wf() by {
                    assert(t[i] == s[i]);
                }
                assert(s.last() == s[s.len() - 1]);
                assert(false);
            }
        }
    }
}

/// `wf_entries` is entrywise well-formedness.
pub proof fn lemma_wf_entries(s: Seq<(ValueKey, Value)>)
    ensures
        wf_entries(s) <==> (forall|i: int| 0 <= i < s.len() ==> (#[trigger] s[i]).1.wf()),
    decreases s.len(),
{
    if s.len() > 0 {
        let t = s.drop_last();
        lemma_wf_entries(t);
        if wf_entries(s) {
            assert forall|i: int| 0 <= i < s.len() implies (#[trigger] s[i]).1.wf() by {
                if i < s.len() - 1 {
                    assert(t[i] == s[i]);
                } else {
                    assert(s.last() == s[i]);
                }
            }
        } else {
            if forall|i: int| 0 <= i < s.len() ==> (#[trigger] s[i]).1.wf() {
                assert forall|i: int| 0 <= i < t.len() implies (#[trigger] t[i]).1.wf() by {
                    assert(t[i] == s[i]);
                }
                assert(s.last() == s[s.len() - 1]);
                assert(false);
            }
        }
    }
}

impl ValueView {
    /// Logical equality of two shapes: numbers compare by logical
    /// value, everything else structurally.
    pub open spec fn same_shape(self, other: ValueView) -> bool
        decreases self,
    {
        match (self, other) {
            (ValueView::String(x), ValueView::String(y)) => x == y,
            (ValueView::Number(m), ValueView::Number(n)) => m.same_value(n),
            (ValueView::Boolean(x), ValueView::Boolean(y)) => x == y,
            (ValueView::Array(x), ValueView::Array(y)) => same_shape_seq(x, y),
            (ValueView::Object(p, x), ValueView::Object(q, y)) => p == q && same_shape_entries(
                x,
                y,
            ),
            (ValueView::Null, ValueView::Null) => true,
            (ValueView::Undefined, ValueView::Undefined) => true,
            (ValueView::DateTime(x), ValueView::DateTime(y)) => x == y,
            _ => false,
        }
    }

    /// What cleaning leaves of a shape: every number in the tree moves
    /// to its canonical narrowed tag; nothing else changes.
    pub open spec fn cleaned(self) -> ValueView
        decreases self,
    {
        match self {
            ValueView::Number(n) => ValueView::Number(n.cleaned()),
            ValueView::Array(s) => ValueView::Array(cleaned_seq(s)),
            ValueView::Object(ord, es) => ValueView::Object(ord, cleaned_entries(es)),
            _ => self,
        }
    }
}

/// Pairwise logical equality of two shape sequences.
pub open spec fn same_shape_seq(x: Seq<ValueView>, y: Seq<ValueView>) -> bool
    decreases x,
{
    if x.len() != y.len() {
        false
    } else if x.len() == 0 {
        true
    } else {
        x.last().same_shape(y.last()) && same_shape_seq(x.drop_last(), y.drop_last())
    }
}

/// Pairwise logical equality of two entry-shape sequences: keys equal,
/// values of the same shape.
pub open spec fn same_shape_entries(
    x: Seq<(Seq<char>, ValueView)>,
    y: Seq<(Seq<char>, ValueView)>,
) -> bool
    decreases x,
{
    if x.len() != y.len() {
        false
    } else if x.len() == 0 {
        true
    } else {
        x.last().0 == y.last().0 && x.last().1.same_shape(y.last().1) && same_shape_entries(
            x.drop_last(),
            y.drop_last(),
        )
    }
}

/// Cleaning a shape sequence, element by element.
pub open spec fn cleaned_seq(s: Seq<ValueView>) -> Seq<ValueView>
    decreases s,
{
    if s.len() == 0 {
        Seq::empty()
    } else {
        cleaned_seq(s.drop_last()).push(s.last().cleaned())
    }
}

/// Cleaning an entry-shape sequence: keys kept, values cleaned.
pub open spec fn cleaned_entries(s: Seq<(Seq<char>, ValueView)>) -> Seq<(Seq<char>, ValueView)>
    decreases s,
{
    if s.len() == 0 {
        Seq::empty()
    } else {
        cleaned_entries(s.drop_last()).push((s.last().0, s.last().1.cleaned()))
    }
}

/// `same_shape_seq` is pairwise logical equality.
pub proof fn lemma_same_shape_seq(x: Seq<ValueView>, y: Seq<ValueView>)
    ensures
        same_shape_seq(x, y) <==> (x.len() == y.len() && forall|i: int|
            0 <= i < x.len() ==> (#[trigger] x[i]).same_shape(y[i])),
    decreases x.len(),
{
    if x.len() > 0 && x.len() == y.len() {
        lemma_same_shape_seq(x.drop_last(), y.drop_last());
        if same_shape_seq(x, y) {
            assert forall|i: int| 0 <= i < x.len() implies (#[trigger] x[i]).same_shape(
                y[i],
            ) by {
                if i < x.len() - 1 {
                    assert(x.drop_last()[i] == x[i]);
                    assert(y.drop_last()[i] == y[i]);
                }
            }
        } else {
            if forall|i: int| 0 <= i < x.len() ==> (#[trigger] x[i]).same_shape(y[i]) {
                assert forall|i: int|
                    0 <= i < x.len() - 1 implies (#[trigger] x.drop_last()[i]).same_shape(
                    y.drop_last()[i],
                ) by {
                    assert(x.drop_last()[i] == x[i]);
                    assert(y.drop_last()[i] == y[i]);
                }
                assert(x.last().same_shape(y.last()));
                assert(false);
            }
        }
    }
}

/// `same_shape_entries` is pairwise key equality and value shape
/// equality.
pub proof fn lemma_same_shape_entries(x: Seq<(Seq<char>, ValueView)>, y: Seq<(Seq<char>, ValueView)>)
    ensures
        same_shape_entries(x, y) <==> (x.len() == y.len() && forall|i: int|
            0 <= i < x.len() ==> (#[trigger] x[i]).0 == y[i].0 && x[i].1.same_shape(y[i].1)),
    decreases x.len(),
{
    if x.len() > 0 && x.len() == y.len() {
        lemma_same_shape_entries(x.drop_last(), y.drop_last());
        if same_shape_entries(x, y) {
            assert forall|i: int| 0 <= i < x.len() implies (#[trigger] x[i]).0 == y[i].0 && x[
                i
            ].1.same_shape(y[i].1) by {
                if i < x.len() - 1 {
                    assert(x.drop_last()[i] == x[i]);
                    assert(y.drop_last()[i] == y[i]);
                }
            }
        } else {
            if forall|i: int|
                0 <= i < x.len() ==> (#[trigger] x[i]).0 == y[i].0 && x[i].1.same_shape(y[i].1) {
                assert forall|i: int|
                    0 <= i < x.len() - 1 implies (#[trigger] x.drop_last()[i]).0
                    == y.drop_last()[i].0 && x.drop_last()[i].1.same_shape(
                    y.drop_last()[i].1,
                ) by {
                    assert(x.drop_last()[i] == x[i]);
                    assert(y.drop_last()[i] == y[i]);
                }
                assert(x.last().0 == y.last().0 && x.last().1.same_shape(y.last().1));
                assert(false);
            }
        }
    }
}

/// `cleaned_seq` is elementwise cleaning.
pub proof fn lemma_cleaned_seq(s: Seq<ValueView>)
    ensures
        cleaned_seq(s).len() == s.len(),
        forall|i: int| 0 <= i < s.len() ==> #[trigger] cleaned_seq(s)[i] == s[i].cleaned(),
    decreases s.len(),
{
    if s.len() > 0 {
        let t = s.drop_last();
        lemma_cleaned_seq(t);
        assert forall|i: int| 0 <= i < s.len() implies #[trigger] cleaned_seq(s)[i]
            == s[i].cleaned() by {
            if i < s.len() - 1 {
                assert(t[i] == s[i]);
                assert(cleaned_seq(s)[i] == cleaned_seq(t)[i]);
            } else {
                assert(s.last() == s[i]);
            }
        }
    }
}

/// `cleaned_entries` is entrywise cleaning.
pub proof fn lemma_cleaned_entries(s: Seq<(Seq<char>, ValueView)>)
    ensures
        cleaned_entries(s).len() == s.len(),
        forall|i: int|
            0 <= i < s.len() ==> #[trigger] cleaned_entries(s)[i] == (s[i].0,
            s[i].1.cleaned()),
    decreases s.len(),
{
    if s.len() > 0 {
        let t = s.drop_last();
        lemma_cleaned_entries(t);
        assert forall|i: int| 0 <= i < s.len() implies #[trigger] cleaned_entries(s)[i] == (
            s[i].0, s[i].1.cleaned()) by {
            if i < s.len() - 1 {
                assert(t[i] == s[i]);
                assert(cleaned_entries(s)[i] == cleaned_entries(t)[i]);
            } else {
                assert(s.last() == s[i]);
            }
        }
    }
}

/// Cleaning a whole tree is idempotent: every number lands on its
/// canonical narrowed tag the first time, and nothing else ever moves.
pub proof fn lemma_cleaned_idempotent(v: ValueView)
    ensures
        v.cleaned().cleaned() == v.cleaned(),
    decreases v,
{
    match v {
        ValueView::Number(n) => {
            crate::number::lemma_clean_idempotent(n);
        },
        ValueView::Array(s) => {
            let c = cleaned_seq(s);
            lemma_cleaned_seq(s);
            lemma_cleaned_seq(c);
            assert forall|i: int| 0 <= i < c.len() implies #[trigger] cleaned_seq(c)[i]
                == c[i] by {
                lemma_cleaned_idempotent(s[i]);
            }
            assert(cleaned_seq(c) =~= c);
        },
        ValueView::Object(ord, es) => {
            let c = cleaned_entries(es);
            lemma_cleaned_entries(es);
            lemma_cleaned_entries(c);
            assert forall|i: int| 0 <= i < c.len() implies #[trigger] cleaned_entries(c)[i]
                == c[i] by {
                lemma_cleaned_idempotent(es[i].1);
            }
            assert(cleaned_entries(c) =~= c);
        },
        _ => {},
    }
}

/// Cleaning never changes what a tree logically holds: the cleaned
/// tree has the same shape, with every number still the same value.
pub proof fn lemma_cleaned_preserves_shape(v: ValueView)
    ensures
        v.cleaned().same_shape(v),
    decreases v,
{
    match v {
        ValueView::Number(n) => {
            crate::number::lemma_clean_idempotent(n);
        },
        ValueView::Array(s) => {
            let c = cleaned_seq(s);
            lemma_cleaned_seq(s);
            lemma_same_shape_seq(c, s);
            assert forall|i: int| 0 <= i < c.len() implies (#[trigger] c[i]).same_shape(
                s[i],
            ) by {
                lemma_cleaned_preserves_shape(s[i]);
            }
        },
        ValueView::Object(ord, es) => {
            let c = cleaned_entries(es);
            lemma_cleaned_entries(es);
            lemma_same_shape_entries(c, es);
            assert forall|i: int| 0 <= i < c.len() implies (#[trigger] c[i]).0 == es[i].0 && c[
                i
            ].1.same_shape(es[i].1) by {
                lemma_cleaned_preserves_shape(es[i].1);
            }
        },
        _ => {},
    }
}

/// A deep, value-semantic copy: the copy has the same shape and shares
/// no state with its source.
pub fn deep_copy(v: &Value) -> (r: Value)
    ensures
        r.deep_view() == v.deep_view(),
        v.wf() ==> r.wf(),
    decreases v,
{
    match v {
        Value::String(s) => Value::String(s.clone()),
        Value::Number(n) => Value::Number(*n),
        Value::Boolean(b) => Value::Boolean(*b),
        Value::Null => Value::Null,
        Value::Undefined => Value::Undefined,
        Value::DateTime(d) => Value::DateTime(*d),
        Value::Array(a) => {
            let n = a.elements.len();
            let mut out: Vec<Value> = Vec::new();
            let mut i: usize = 0;
            while i < n
                invariant
                    n == a.elements@.len(),
                    0 <= i <= n,
                    out@.len() == i,
                    *v == Value::Array(*a),
                    forall|j: int|
                        0 <= j < i ==> (#[trigger] out@[j]).deep_view()
                            == a.elements@[j].deep_view(),
                    forall|j: int| 0 <= j < i ==> a.elements@[j].wf() ==> (#[trigger] out@[j]).wf(),
                decreases n - i,
            {
                proof {
                    let vv = *v;
                    assert(decreases_to!(vv => vv->Array_0));
                    assert(decreases_to!(*a => a.elements));
                    assert(decreases_to!(a.elements => a.elements@));
                    assert(decreases_to!(a.elements@ => a.elements@[i as int]));
                    assert(decreases_to!(vv => a.elements@[i as int]));
                }
                let c = deep_copy(&a.elements[i]);
                out.push(c);
                i = i + 1;
            }
            proof {
                lemma_deep_view_seq(out@);
                lemma_deep_view_seq(a.elements@);
                assert(deep_view_seq(out@) =~= deep_view_seq(a.elements@));
                if v.wf() {
                    lemma_wf_seq(a.elements@);
                    lemma_wf_seq(out@);
                }
            }
            Value::Array(Array { elements: out })
        },
        Value::Object(o) => {
            let n = o.entries.len();
            let mut out: Vec<(ValueKey, Value)> = Vec::new();
            let mut i: usize = 0;
            while i < n
                invariant
                    n == o.entries@.len(),
                    0 <= i <= n,
                    out@.len() == i,
                    *v == Value::Object(*o),
                    forall|j: int| 0 <= j < i ==> (#[trigger] out@[j]).0@ == o.entries@[j].0@,
                    forall|j: int|
                        0 <= j < i ==> (#[trigger] out@[j]).1.deep_view()
                            == o.entries@[j].1.deep_view(),
                    forall|j: int|
                        0 <= j < i ==> o.entries@[j].1.wf() ==> (#[trigger] out@[j]).1.wf(),
                decreases n - i,
            {
                proof {
                    let vv = *v;
                    assert(decreases_to!(vv => vv->Object_0));
                    assert(decreases_to!(*o => o.entries));
                    assert(decreases_to!(o.entries => o.entries@));
                    assert(decreases_to!(o.entries@ => o.entries@[i as int]));
                    assert(decreases_to!(o.entries@[i as int] => o.entries@[i as int].1));
                    assert(decreases_to!(vv => o.entries@[i as int].1));
                }
                let e = &o.entries[i];
                let k = e.0.clone();
                let c = deep_copy(&e.1);
                out.push((k, c));
                i = i + 1;
            }
            proof {
                lemma_deep_view_entries(out@);
                lemma_deep_view_entries(o.entries@);
                assert(deep_view_entries(out@) =~= deep_view_entries(o.entries@));
                if v.wf() {
                    lemma_wf_entries(o.entries@);
                    lemma_wf_entries(out@);
                    assert(keys_distinct(out@)) by {
                        assert forall|x: int, y: int|
                            0 <= x < y < out@.len() implies (#[trigger] out@[x]).0@ != (
                        #[trigger] out@[y]).0@ by {
                            assert(o.entries@[x].0@ != o.entries@[y].0@);
                        }
                    }
                    if o.ordered {
                        assert(keys_sorted(out@)) by {
                            assert forall|x: int, y: int|
                                0 <= x < y < out@.len() implies crate::key::bytes_lt(
                                crate::key::key_bytes((#[trigger] out@[x]).0@),
                                crate::key::key_bytes((#[trigger] out@[y]).0@),
                            ) by {
                                assert(crate::key::bytes_lt(
                                    crate::key::key_bytes(o.entries@[x].0@),
                                    crate::key::key_bytes(o.entries@[y].0@),
                                ));
                            }
                        }
                    }
                }
            }
            Value::Object(Object { ordered: o.ordered, entries: out })
        },
    }
}

/// Whether two values have the same logical shape: numbers by value,
/// everything else structurally.
pub fn deep_eq(a: &Value, b: &Value) -> (r: bool)
    ensures
        r == a.deep_view().same_shape(b.deep_view()),
    decreases a,
{
    match (a, b) {
        (Value::String(x), Value::String(y)) => x == y,
        (Value::Number(m), Value::Number(n)) => m == n,
        (Value::Boolean(x), Value::Boolean(y)) => x == y,
        (Value::Null, Value::Null) => true,
        (Value::Undefined, Value::Undefined) => true,
        (Value::DateTime(x), Value::DateTime(y)) => x == y,
        (Value::Array(x), Value::Array(y)) => {
            let ghost xv = deep_view_seq(x.elements@);
            let ghost yv = deep_view_seq(y.elements@);
            proof {
                lemma_deep_view_seq(x.elements@);
                lemma_deep_view_seq(y.elements@);
                lemma_same_shape_seq(xv, yv);
            }
            if x.elements.len() != y.elements.len() {
                return false;
            }
            let n = x.elements.len();
            let mut i: usize = 0;
            while i < n
                invariant
                    *a == Value::Array(*x),
                    *b == Value::Array(*y),
                    xv == deep_view_seq(x.elements@),
                    yv == deep_view_seq(y.elements@),
                    n == x.elements@.len(),
                    n == y.elements@.len(),
                    0 <= i <= n,
                    xv.len() == n,
                    yv.len() == n,
                    forall|j: int| 0 <= j < n ==> xv[j] == (#[trigger] x.elements@[j]).deep_view(),
                    forall|j: int| 0 <= j < n ==> yv[j] == (#[trigger] y.elements@[j]).deep_view(),
                    forall|j: int| 0 <= j < i ==> (#[trigger] xv[j]).same_shape(yv[j]),
                decreases n - i,
            {
                proof {
                    let aa = *a;
                    assert(decreases_to!(aa => aa->Array_0));
                    assert(decreases_to!(*x => x.elements));
                    assert(decreases_to!(x.elements => x.elements@));
                    assert(decreases_to!(x.elements@ => x.elements@[i as int]));
                    assert(decreases_to!(aa => x.elements@[i as int]));
                }
                if !deep_eq(&x.elements[i], &y.elements[i]) {
                    proof {
                        lemma_same_shape_seq(xv, yv);
                    }
                    return false;
                }
                i = i + 1;
            }
            proof {
                lemma_same_shape_seq(xv, yv);
            }
            true
        },
        (Value::Object(x), Value::Object(y)) => {
            let ghost xv = deep_view_entries(x.entries@);
            let ghost yv = deep_view_entries(y.entries@);
            proof {
                lemma_deep_view_entries(x.entries@);
                lemma_deep_view_entries(y.entries@);
                lemma_same_shape_entries(xv, yv);
            }
            if x.ordered != y.ordered {
                return false;
            }
            if x.entries.len() != y.entries.len() {
                return false;
            }
            let n = x.entries.len();
            let mut i: usize = 0;
            while i < n
                invariant
                    *a == Value::Object(*x),
                    *b == Value::Object(*y),
                    xv == deep_view_entries(x.entries@),
                    yv == deep_view_entries(y.entries@),
                    n == x.entries@.len(),
                    n == y.entries@.len(),
                    0 <= i <= n,
                    xv.len() == n,
                    yv.len() == n,
                    forall|j: int|
                        0 <= j < n ==> xv[j] == ((#[trigger] x.entries@[j]).0@,
                        x.entries@[j].1.deep_view()),
                    forall|j: int|
                        0 <= j < n ==> yv[j] == ((#[trigger] y.entries@[j]).0@,
                        y.entries@[j].1.deep_view()),
                    forall|j: int|
                        0 <= j < i ==> (#[trigger] xv[j]).0 == yv[j].0 && xv[j].1.same_shape(
                            yv[j].1,
                        ),
                decreases n - i,
            {
                proof {
                    let aa = *a;
                    assert(decreases_to!(aa => aa->Object_0));
                    assert(decreases_to!(*x => x.entries));
                    assert(decreases_to!(x.entries => x.entries@));
                    assert(decreases_to!(x.entries@ => x.entries@[i as int]));
                    assert(decreases_to!(x.entries@[i as int] => x.entries@[i as int].1));
                    assert(decreases_to!(aa => x.entries@[i as int].1));
                }
                if !(x.entries[i].0 == y.entries[i].0) {
                    proof {
                        lemma_same_shape_entries(xv, yv);
                    }
                    return false;
                }
                if !deep_eq(&x.entries[i].1, &y.entries[i].1) {
                    proof {
                        lemma_same_shape_entries(xv, yv);
                    }
                    return false;
                }
                i = i + 1;
            }
            proof {
                lemma_same_shape_entries(xv, yv);
            }
            true
        },
        _ => false,
    }
}

/// Cleans an owned value: every number in the tree is re-tagged at its
/// canonical narrowed width; structure, text and logical values stay.
#[verifier::loop_isolation(false)]
pub(crate) fn clean_owned(v: Value) -> (r: Value)
    ensures
        r.deep_view() == v.deep_view().cleaned(),
        v.wf() ==> r.wf(),
    decreases v,
{
    let ghost va = v;
    match v {
        Value::Number(n) => {
            let mut m = n;
            m.clean();
            Value::Number(m)
        },
        Value::Array(a) => {
            let ghost a0 = a;
            let mut elems = a.elements;
            let ghost orig = elems@;
            let mut out: Vec<Value> = Vec::new();
            while elems.len() > 0
                invariant
                    va == Value::Array(a0),
                    a0.elements@ == orig,
                    out@.len() + elems@.len() == orig.len(),
                    elems@ == orig.skip(out@.len() as int),
                    forall|j: int|
                        0 <= j < out@.len() ==> (#[trigger] out@[j]).deep_view()
                            == orig[j].deep_view().cleaned(),
                    forall|j: int| 0 <= j < out@.len() ==> orig[j].wf() ==> (#[trigger] out@[j]).wf(),
                decreases elems@.len(),
            {
                let ghost k = out@.len() as int;
                proof {
                    assert(elems@[0] == orig.skip(k)[0]);
                    assert(orig.skip(k)[0] == orig[k]);
                }
                let e = elems.remove(0);
                proof {
                    assert(e == orig[k]);
                    assert(decreases_to!(va => va->Array_0));
                    assert(decreases_to!(a0 => a0.elements));
                    assert(decreases_to!(a0.elements => a0.elements@));
                    assert(decreases_to!(a0.elements@ => a0.elements@[k]));
                    assert(decreases_to!(va => e));
                    assert(elems@ =~= orig.skip(k + 1));
                }
                let c = clean_owned(e);
                out.push(c);
            }
            proof {
                assert(out@.len() == orig.len());
                let base = deep_view_seq(orig);
                lemma_deep_view_seq(orig);
                lemma_deep_view_seq(out@);
                lemma_cleaned_seq(base);
                assert(deep_view_seq(out@) =~= cleaned_seq(base));
                if va.wf() {
                    lemma_wf_seq(orig);
                    lemma_wf_seq(out@);
                }
            }
            Value::Array(Array { elements: out })
        },
        Value::Object(o) => {
            let ghost o0 = o;
            let is_ord = o.ordered;
            let mut ents = o.entries;
            let ghost orig = ents@;
            let mut out: Vec<(ValueKey, Value)> = Vec::new();
            while ents.len() > 0
                invariant
                    va == Value::Object(o0),
                    o0.entries@ == orig,
                    o0.ordered == is_ord,
                    out@.len() + ents@.len() == orig.len(),
                    ents@ == orig.skip(out@.len() as int),
                    forall|j: int| 0 <= j < out@.len() ==> (#[trigger] out@[j]).0 == orig[j].0,
                    forall|j: int|
                        0 <= j < out@.len() ==> (#[trigger] out@[j]).1.deep_view()
                            == orig[j].1.deep_view().cleaned(),
                    forall|j: int|
                        0 <= j < out@.len() ==> orig[j].1.wf() ==> (#[trigger] out@[j]).1.wf(),
                decreases ents@.len(),
            {
                let ghost k = out@.len() as int;
                proof {
                    assert(ents@[0] == orig.skip(k)[0]);
                    assert(orig.skip(k)[0] == orig[k]);
                }
                let e = ents.remove(0);
                proof {
                    assert(e == orig[k]);
                    assert(decreases_to!(va => va->Object_0));
                    assert(decreases_to!(o0 => o0.entries));
                    assert(decreases_to!(o0.entries => o0.entries@));
                    assert(decreases_to!(o0.entries@ => o0.entries@[k]));
                    assert(decreases_to!(o0.entries@[k] => o0.entries@[k].1));
                    assert(decreases_to!(va => e.1));
                    assert(ents@ =~= orig.skip(k + 1));
                }
                let c = clean_owned(e.1);
                out.push((e.0, c));
            }
            proof {
                assert(out@.len() == orig.len());
                let base = deep_view_entries(orig);
                lemma_deep_view_entries(orig);
                lemma_deep_view_entries(out@);
                lemma_cleaned_entries(base);
                assert(deep_view_entries(out@) =~= cleaned_entries(base));
                if va.wf() {
                    lemma_wf_entries(orig);
                    lemma_wf_entries(out@);
                    assert(keys_distinct(out@)) by {
                        assert forall|x: int, y: int|
                            0 <= x < y < out@.len() implies (#[trigger] out@[x]).0@ != (
                        #[trigger] out@[y]).0@ by {
                            assert(orig[x].0@ != orig[y].0@);
                        }
                    }
                    if is_ord {
                        assert(keys_sorted(out@)) by {
                            assert forall|x: int, y: int|
                                0 <= x < y < out@.len() implies crate::key::bytes_lt(
                                crate::key::key_bytes((#[trigger] out@[x]).0@),
                                crate::key::key_bytes((#[trigger] out@[y]).0@),
                            ) by {
                                assert(crate::key::bytes_lt(
                                    crate::key::key_bytes(orig[x].0@),
                                    crate::key::key_bytes(orig[y].0@),
                                ));
                            }
                        }
                    }
                }
            }
            Value::Object(Object { ordered: is_ord, entries: out })
        },
        other => other,
    }
}

impl Value {
    /// Normalizes every number in the tree to its canonical narrowed
    /// width, recursing through arrays and objects alike; logical
    /// values, text, keys, order and backends are untouched.
    pub fn clean(&mut self)
        ensures
            final(self).deep_view() == old(self).deep_view().cleaned(),
            old(self).wf() ==> final(self).wf(),
    {
        let mut tmp = Value::Null;
        core::mem::swap(self, &mut tmp);
        *self = clean_owned(tmp);
    }
}

impl PartialEq for Value {
    /// Logical equality: numbers compare by value regardless of origin
    /// width; containers compare entry by entry; an object's backend is
    /// part of its identity.
    fn eq(&self, other: &Value) -> (r: bool) {
        deep_eq(self, other)
    }
}

impl vstd::std_specs::cmp::PartialEqSpecImpl for Value {
    open spec fn obeys_eq_spec() -> bool {
        true
    }

    open spec fn eq_spec(&self, other: &Value) -> bool {
        self.deep_view().same_shape(other.deep_view())
    }
}

impl Clone for Value {
    /// A deep, value-semantic copy sharing no state with its source.
    fn clone(&self) -> (r: Value)
        ensures
            r.deep_view() == self.deep_view(),
            self.wf() ==> r.wf(),
    {
        deep_copy(self)
    }
}

impl Clone for Array {
    /// A deep copy: same length, elementwise the same shape.
    fn clone(&self) -> (r: Array)
        ensures
            r@.len() == self@.len(),
            forall|i: int|
                0 <= i < self@.len() ==> (#[trigger] r@[i]).deep_view() == self@[i].deep_view(),
            forall|i: int| 0 <= i < self@.len() ==> self@[i].wf() ==> (#[trigger] r@[i]).wf(),
    {
        Array { elements: clone_vec_values(&self.elements) }
    }
}

/// A deep copy of a vector of values.
fn clone_vec_values(elements: &Vec<Value>) -> (r: Vec<Value>)
    ensures
        r@.len() == elements@.len(),
        forall|i: int|
            0 <= i < elements@.len() ==> (#[trigger] r@[i]).deep_view()
                == elements@[i].deep_view(),
        forall|i: int| 0 <= i < elements@.len() ==> elements@[i].wf() ==> (#[trigger] r@[i]).wf(),
{
    let n = elements.len();
    let mut out: Vec<Value> = Vec::new();
    let mut i: usize = 0;
    while i < n
        invariant
            n == elements@.len(),
            0 <= i <= n,
            out@.len() == i,
            forall|j: int|
                0 <= j < i ==> (#[trigger] out@[j]).deep_view() == elements@[j].deep_view(),
            forall|j: int| 0 <= j < i ==> elements@[j].wf() ==> (#[trigger] out@[j]).wf(),
        decreases n - i,
    {
        let c = deep_copy(&elements[i]);
        out.push(c);
        i = i + 1;
    }
    out
}

impl Clone for Object {
    /// A deep copy: same backend, same keys in the same order,
    /// entrywise the same shape.
    fn clone(&self) -> (r: Object)
        ensures
            r.ordered == self.ordered,
            r@.len() == self@.len(),
            forall|i: int| 0 <= i < self@.len() ==> (#[trigger] r@[i]).0@ == self@[i].0@,
            forall|i: int|
                0 <= i < self@.len() ==> (#[trigger] r@[i]).1.deep_view()
                    == self@[i].1.deep_view(),
            forall|i: int| 0 <= i < self@.len() ==> self@[i].1.wf() ==> (#[trigger] r@[i]).1.wf(),
    {
        let n = self.entries.len();
        let mut out: Vec<(ValueKey, Value)> = Vec::new();
        let mut i: usize = 0;
        while i < n
            invariant
                n == self.entries@.len(),
                0 <= i <= n,
                out@.len() == i,
                forall|j: int| 0 <= j < i ==> (#[trigger] out@[j]).0@ == self.entries@[j].0@,
                forall|j: int|
                    0 <= j < i ==> (#[trigger] out@[j]).1.deep_view()
                        == self.entries@[j].1.deep_view(),
                forall|j: int|
                    0 <= j < i ==> self.entries@[j].1.wf() ==> (#[trigger] out@[j]).1.wf(),
            decreases n - i,
        {
            let e = &self.entries[i];
            let k = e.0.clone();
            let c = deep_copy(&e.1);
            out.push((k, c));
            i = i + 1;
        }
        Object { ordered: self.ordered, entries: out }
    }
}

impl Default for Value {
    /// The explicit null value.
    fn default() -> (r: Value)
        ensures
            r == Value::Null,
    {
        Value::Null
    }
}

impl From<u8> for Value {
    fn from(value: u8) -> (r: Value) {
        Value::Number(Number::U8(value))
    }
}

impl vstd::std_specs::convert::FromSpecImpl<u8> for Value {
    open spec fn obeys_from_spec() -> bool {
        true
    }

    open spec fn from_spec(value: u8) -> Value {
        Value::Number(Number::U8(value))
    }
}

impl From<u16> for Value {
    fn from(value: u16) -> (r: Value) {
        Value::Number(Number::U16(value))
    }
}

impl vstd::std_specs::convert::FromSpecImpl<u16> for Value {
    open spec fn obeys_from_spec() -> bool {
        true
    }

    open spec fn from_spec(value: u16) -> Value {
        Value::Number(Number::U16(value))
    }
}

impl From<u32> for Value {
    fn from(value: u32) -> (r: Value) {
        Value::Number(Number::U32(value))
    }
}

impl vstd::std_specs::convert::FromSpecImpl<u32> for Value {
    open spec fn obeys_from_spec() -> bool {
        true
    }

    open spec fn from_spec(value: u32) -> Value {
        Value::Number(Number::U32(value))
    }
}

impl From<u64> for Value {
    fn from(value: u64) -> (r: Value) {
        Value::Number(Number::U64(value))
    }
}

impl vstd::std_specs::convert::FromSpecImpl<u64> for Value {
    open spec fn obeys_from_spec() -> bool {
        true
    }

    open spec fn from_spec(value: u64) -> Value {
        Value::Number(Number::U64(value))
    }
}

impl From<u128> for Value {
    fn from(value: u128) -> (r: Value) {
        Value::Number(Number::U128(value))
    }
}

impl vstd::std_specs::convert::FromSpecImpl<u128> for Value {
    open spec fn obeys_from_spec() -> bool {
        true
    }

    open spec fn from_spec(value: u128) -> Value {
        Value::Number(Number::U128(value))
    }
}

impl From<i8> for Value {
    fn from(value: i8) -> (r: Value) {
        Value::Number(Number::I8(value))
    }
}

impl vstd::std_specs::convert::FromSpecImpl<i8> for Value {
    open spec fn obeys_from_spec() -> bool {
        true
    }

    open spec fn from_spec(value: i8) -> Value {
        Value::Number(Number::I8(value))
    }
}

impl From<i16> for Value {
    fn from(value: i16) -> (r: Value) {
        Value::Number(Number::I16(value))
    }
}

impl vstd::std_specs::convert::FromSpecImpl<i16> for Value {
    open spec fn obeys_from_spec() -> bool {
        true
    }

    open spec fn from_spec(value: i16) -> Value {
        Value::Number(Number::I16(value))
    }
}

impl From<i32> for Value {
    fn from(value: i32) -> (r: Value) {
        Value::Number(Number::I32(value))
    }
}

impl vstd::std_specs::convert::FromSpecImpl<i32> for Value {
    open spec fn obeys_from_spec() -> bool {
        true
    }

    open spec fn from_spec(value: i32) -> Value {
        Value::Number(Number::I32(value))
    }
}

impl From<i64> for Value {
    fn from(value: i64) -> (r: Value) {
        Value::Number(Number::I64(value))
    }
}

impl vstd::std_specs::convert::FromSpecImpl<i64> for Value {
    open spec fn obeys_from_spec() -> bool {
        true
    }

    open spec fn from_spec(value: i64) -> Value {
        Value::Number(Number::I64(value))
    }
}

impl From<i128> for Value {
    fn from(value: i128) -> (r: Value) {
        Value::Number(Number::I128(value))
    }
}

impl vstd::std_specs::convert::FromSpecImpl<i128> for Value {
    open spec fn obeys_from_spec() -> bool {
        true
    }

    open spec fn from_spec(value: i128) -> Value {
        Value::Number(Number::I128(value))
    }
}

impl From<bool> for Value {
    fn from(value: bool) -> (r: Value) {
        Value::Boolean(value)
    }
}

impl vstd::std_specs::convert::FromSpecImpl<bool> for Value {
    open spec fn obeys_from_spec() -> bool {
        true
    }

    open spec fn from_spec(value: bool) -> Value {
        Value::Boolean(value)
    }
}

impl From<Number> for Value {
    fn from(value: Number) -> (r: Value) {
        Value::Number(value)
    }
}

impl vstd::std_specs::convert::FromSpecImpl<Number> for Value {
    open spec fn obeys_from_spec() -> bool {
        true
    }

    open spec fn from_spec(value: Number) -> Value {
        Value::Number(value)
    }
}

impl From<StringB> for Value {
    fn from(value: StringB) -> (r: Value) {
        Value::String(value)
    }
}

impl vstd::std_specs::convert::FromSpecImpl<StringB> for Value {
    open spec fn obeys_from_spec() -> bool {
        true
    }

    open spec fn from_spec(value: StringB) -> Value {
        Value::String(value)
    }
}

impl From<String> for Value {
    fn from(value: String) -> (r: Value) {
        Value::String(StringB { value })
    }
}

impl vstd::std_specs::convert::FromSpecImpl<String> for Value {
    open spec fn obeys_from_spec() -> bool {
        true
    }

    open spec fn from_spec(value: String) -> Value {
        Value::String(StringB { value })
    }
}

impl From<DateTime> for Value {
    fn from(value: DateTime) -> (r: Value) {
        Value::DateTime(value)
    }
}

impl vstd::std_specs::convert::FromSpecImpl<DateTime> for Value {
    open spec fn obeys_from_spec() -> bool {
        true
    }

    open spec fn from_spec(value: DateTime) -> Value {
        Value::DateTime(value)
    }
}

} // verus!
