//! The textual JSON form of a value tree.
//!
//! Rendering is exact: `json_of` is the character sequence a value
//! renders to, and the renderer produces it verbatim.  The surface is
//! deliberately narrow — text is rendered as it stands, so every
//! string and key must be free of quotes, backslashes and control
//! characters, numbers must be integers, and a held date-time must fit
//! its ISO fields; `renderable` says exactly that.  `Undefined`, which
//! JSON cannot spell, renders as `null`.  The parser reads the same
//! dialect back: no escapes, no floats; whatever it accepts is a
//! well-formed tree.

use vstd::prelude::*;

verus! {

use vstd::string::StrSliceExecFns;
use vstd::string::StringExecFns;

use crate::array::Array;
use crate::datetime::{iso_formattable, iso_of};
use crate::number::Number;
use crate::object::Object;
use crate::render::dec_str_of;
use crate::stringb::StringB;
use crate::value::{
    deep_view_entries, deep_view_seq, lemma_deep_view_entries, lemma_deep_view_seq, Value,
    ValueView,
};

/// True of text that renders verbatim: no quote, no backslash, no
/// control character.
pub open spec fn text_plain(s: Seq<char>) -> bool {
    forall|i: int|
        0 <= i < s.len() ==> (#[trigger] s[i]) != '"' && s[i] != '\\' && s[i] as int >= 32
}

/// True of the trees this JSON surface can spell exactly.
pub open spec fn renderable(v: ValueView) -> bool
    decreases v,
{
    match v {
        ValueView::String(s) => text_plain(s),
        ValueView::Number(n) => n.int_value() is Some || n is Unset,
        ValueView::Array(xs) => renderable_seq(xs),
        ValueView::Object(_, es) => renderable_entries(es),
        ValueView::DateTime(d) => iso_formattable(d),
        _ => true,
    }
}

/// Renderability of every element of a sequence.
pub open spec fn renderable_seq(xs: Seq<ValueView>) -> bool
    decreases xs,
{
    xs.len() == 0 || (renderable(xs.last()) && renderable_seq(xs.drop_last()))
}

/// Renderability of every entry: plain key, renderable value.
pub open spec fn renderable_entries(es: Seq<(Seq<char>, ValueView)>) -> bool
    decreases es,
{
    es.len() == 0 || (text_plain(es.last().0) && renderable(es.last().1) && renderable_entries(
        es.drop_last(),
    ))
}

/// `renderable_seq` is elementwise renderability.
pub proof fn lemma_renderable_seq(xs: Seq<ValueView>)
    ensures
        renderable_seq(xs) <==> (forall|i: int| 0 <= i < xs.len() ==> renderable(#[trigger] xs[i])),
    decreases xs.len(),
{
    if xs.len() > 0 {
        let t = xs.drop_last();
        lemma_renderable_seq(t);
        if renderable_seq(xs) {
            assert forall|i: int| 0 <= i < xs.len() implies renderable(#[trigger] xs[i]) by {
                if i < xs.len() - 1 {
                    assert(t[i] == xs[i]);
                } else {
                    assert(xs.last() == xs[i]);
                }
            }
        } else {
            if forall|i: int| 0 <= i < xs.len() ==> renderable(#[trigger] xs[i]) {
                assert forall|i: int| 0 <= i < t.len() implies renderable(#[trigger] t[i]) by {
                    assert(t[i] == xs[i]);
                }
                assert(xs.last() == xs[xs.len() - 1]);
                assert(false);
            }
        }
    }
}

/// `renderable_entries` is entrywise renderability.
pub proof fn lemma_renderable_entries(es: Seq<(Seq<char>, ValueView)>)
    ensures
        renderable_entries(es) <==> (forall|i: int|
            0 <= i < es.len() ==> text_plain((#[trigger] es[i]).0) && renderable(es[i].1)),
    decreases es.len(),
{
    if es.len() > 0 {
        let t = es.drop_last();
        lemma_renderable_entries(t);
        if renderable_entries(es) {
            assert forall|i: int| 0 <= i < es.len() implies text_plain((#[trigger] es[i]).0)
                && renderable(es[i].1) by {
                if i < es.len() - 1 {
                    assert(t[i] == es[i]);
                } else {
                    assert(es.last() == es[i]);
                }
            }
        } else {
            if forall|i: int|
                0 <= i < es.len() ==> text_plain((#[trigger] es[i]).0) && renderable(es[i].1) {
                assert forall|i: int| 0 <= i < t.len() implies text_plain((#[trigger] t[i]).0)
                    && renderable(t[i].1) by {
                    assert(t[i] == es[i]);
                }
                assert(es.last() == es[es.len() - 1]);
                assert(false);
            }
        }
    }
}

/// The compact JSON text of a shape.
pub open spec fn json_of(v: ValueView) -> Seq<char>
    decreases v,
{
    match v {
        ValueView::String(s) => seq!['"'] + s + seq!['"'],
        ValueView::Number(n) => match n.int_value() {
            Some(x) => dec_str_of(x),
            None => "null"@,
        },
        ValueView::Boolean(b) => if b {
            "true"@
        } else {
            "false"@
        },
        ValueView::Array(xs) => seq!['['] + json_items(xs) + seq![']'],
        ValueView::Object(_, es) => seq!['{'] + json_entries(es) + seq!['}'],
        ValueView::Null => "null"@,
        ValueView::Undefined => "null"@,
        ValueView::DateTime(d) => seq!['"'] + iso_of(d) + seq!['"'],
    }
}

/// The comma-joined texts of a sequence of shapes.
pub open spec fn json_items(xs: Seq<ValueView>) -> Seq<char>
    decreases xs,
{
    if xs.len() == 0 {
        Seq::empty()
    } else if xs.len() == 1 {
        json_of(xs.last())
    } else {
        json_items(xs.drop_last()) + seq![','] + json_of(xs.last())
    }
}

/// The comma-joined `"key":value` texts of a sequence of entries.
pub open spec fn json_entries(es: Seq<(Seq<char>, ValueView)>) -> Seq<char>
    decreases es,
{
    if es.len() == 0 {
        Seq::empty()
    } else if es.len() == 1 {
        seq!['"'] + es.last().0 + seq!['"', ':'] + json_of(es.last().1)
    } else {
        json_entries(es.drop_last()) + seq![','] + (seq!['"'] + es.last().0 + seq!['"', ':']
            + json_of(es.last().1))
    }
}

/// One more element extends the joined text by a comma (after the
/// first) and the element's own text.
proof fn lemma_json_items_take(xs: Seq<ValueView>, k: int)
    requires
        0 <= k < xs.len(),
    ensures
        json_items(xs.take(k + 1)) == if k == 0 {
            json_of(xs[0])
        } else {
            json_items(xs.take(k)) + seq![','] + json_of(xs[k])
        },
{
    let u = xs.take(k + 1);
    assert(u.drop_last() =~= xs.take(k));
    assert(u.last() == xs[k]);
}

/// One more entry extends the joined text by a comma (after the first)
/// and the entry's own text.
proof fn lemma_json_entries_take(es: Seq<(Seq<char>, ValueView)>, k: int)
    requires
        0 <= k < es.len(),
    ensures
        json_entries(es.take(k + 1)) == if k == 0 {
            seq!['"'] + es[0].0 + seq!['"', ':'] + json_of(es[0].1)
        } else {
            json_entries(es.take(k)) + seq![','] + (seq!['"'] + es[k].0 + seq!['"', ':'] + json_of(
                es[k].1,
            ))
        },
{
    let u = es.take(k + 1);
    assert(u.drop_last() =~= es.take(k));
    assert(u.last() == es[k]);
}

/// Renders a value as compact JSON text, exactly `json_of` of its
/// shape.
pub fn json_value(v: &Value) -> (out: String)
    requires
        renderable(v.deep_view()),
    ensures
        out@ == json_of(v.deep_view()),
    decreases v,
{
    let mut s = String::new();
    match v {
        Value::Null => {
            s.append("null");
            proof {
                assert(s@ =~= "null"@);
            }
        },
        Value::Undefined => {
            s.append("null");
            proof {
                assert(s@ =~= "null"@);
            }
        },
        Value::Boolean(b) => {
            if *b {
                s.append("true");
                proof {
                    assert(s@ =~= "true"@);
                }
            } else {
                s.append("false");
                proof {
                    assert(s@ =~= "false"@);
                }
            }
        },
        Value::Number(n) => {
            if n.is_integer() {
                let d = n.to_decimal_string();
                s.append(d.as_str());
                proof {
                    assert(s@ =~= dec_str_of(n.int_value()->0));
                }
            } else {
                s.append("null");
                proof {
                    assert(s@ =~= "null"@);
                }
            }
        },
        Value::String(sb) => {
            proof {
                reveal_strlit("\"");
                assert("\""@ =~= seq!['"']);
            }
            s.append("\"");
            s.append(sb.as_str());
            s.append("\"");
            proof {
                assert(s@ =~= seq!['"'] + sb@ + seq!['"']);
            }
        },
        Value::DateTime(d) => {
            proof {
                reveal_strlit("\"");
                assert("\""@ =~= seq!['"']);
            }
            let iso = d.to_iso8601();
            s.append("\"");
            s.append(iso.as_str());
            s.append("\"");
            proof {
                assert(s@ =~= seq!['"'] + iso_of(*d) + seq!['"']);
            }
        },
        Value::Array(a) => {
            let ghost xs = deep_view_seq(a.elements@);
            proof {
                reveal_strlit("[");
                reveal_strlit("]");
                assert("["@ =~= seq!['[']);
                assert("]"@ =~= seq![']']);
                lemma_deep_view_seq(a.elements@);
                lemma_renderable_seq(xs);
                assert(xs.take(0) =~= Seq::<ValueView>::empty());
            }
            s.append("[");
            let n = a.elements.len();
            let mut i: usize = 0;
            proof {
                assert(s@ =~= seq!['['] + json_items(xs.take(0)));
            }
            while i < n
                invariant
                    *v == Value::Array(*a),
                    renderable(v.deep_view()),
                    xs == deep_view_seq(a.elements@),
                    n == a.elements@.len(),
                    xs.len() == n,
                    0 <= i <= n,
                    forall|j: int| 0 <= j < n ==> xs[j] == (#[trigger] a.elements@[j]).deep_view(),
                    forall|j: int| 0 <= j < n ==> renderable(#[trigger] xs[j]),
                    s@ == seq!['['] + json_items(xs.take(i as int)),
                decreases n - i,
            {
                proof {
                    let vv = *v;
                    assert(decreases_to!(vv => vv->Array_0));
                    assert(decreases_to!(*a => a.elements));
                    assert(decreases_to!(a.elements => a.elements@));
                    assert(decreases_to!(a.elements@ => a.elements@[i as int]));
                    assert(decreases_to!(vv => a.elements@[i as int]));
                    reveal_strlit(",");
                    assert(","@ =~= seq![',']);
                }
                if i > 0 {
                    s.append(",");
                }
                let piece = json_value(&a.elements[i]);
                s.append(piece.as_str());
                proof {
                    lemma_json_items_take(xs, i as int);
                    assert(s@ =~= seq!['['] + json_items(xs.take(i as int + 1)));
                }
                i = i + 1;
            }
            s.append("]");
            proof {
                assert(xs.take(n as int) =~= xs);
                assert(s@ =~= seq!['['] + json_items(xs) + seq![']']);
            }
        },
        Value::Object(o) => {
            let ghost es = deep_view_entries(o.entries@);
            proof {
                reveal_strlit("{");
                reveal_strlit("}");
                assert("{"@ =~= seq!['{']);
                assert("}"@ =~= seq!['}']);
                lemma_deep_view_entries(o.entries@);
                lemma_renderable_entries(es);
                assert(es.take(0) =~= Seq::<(Seq<char>, ValueView)>::empty());
            }
            s.append("{");
            let n = o.entries.len();
            let mut i: usize = 0;
            proof {
                assert(s@ =~= seq!['{'] + json_entries(es.take(0)));
            }
            while i < n
                invariant
                    *v == Value::Object(*o),
                    renderable(v.deep_view()),
                    es == deep_view_entries(o.entries@),
                    n == o.entries@.len(),
                    es.len() == n,
                    0 <= i <= n,
                    forall|j: int|
                        0 <= j < n ==> es[j] == ((#[trigger] o.entries@[j]).0@,
                        o.entries@[j].1.deep_view()),
                    forall|j: int|
                        0 <= j < n ==> text_plain((#[trigger] es[j]).0) && renderable(es[j].1),
                    s@ == seq!['{'] + json_entries(es.take(i as int)),
                decreases n - i,
            {
                proof {
                    let vv = *v;
                    assert(decreases_to!(vv => vv->Object_0));
                    assert(decreases_to!(*o => o.entries));
                    assert(decreases_to!(o.entries => o.entries@));
                    assert(decreases_to!(o.entries@ => o.entries@[i as int]));
                    assert(decreases_to!(o.entries@[i as int] => o.entries@[i as int].1));
                    assert(decreases_to!(vv => o.entries@[i as int].1));
                    reveal_strlit(",");
                    reveal_strlit("\"");
                    reveal_strlit("\":");
                    assert(","@ =~= seq![',']);
                    assert("\""@ =~= seq!['"']);
                    assert("\":"@ =~= seq!['"', ':']);
                }
                if i > 0 {
                    s.append(",");
                }
                s.append("\"");
                let e = &o.entries[i];
                s.append(e.0.as_str());
                s.append("\":");
                let piece = json_value(&e.1);
                s.append(piece.as_str());
                proof {
                    lemma_json_entries_take(es, i as int);
                    assert(s@ =~= seq!['{'] + json_entries(es.take(i as int + 1)));
                }
                i = i + 1;
            }
            s.append("}");
            proof {
                assert(es.take(n as int) =~= es);
                assert(s@ =~= seq!['{'] + json_entries(es) + seq!['}']);
            }
        },
    }
    s
}

impl Value {
    /// Compact JSON text, exactly `json_of` of this value's shape.
    pub fn to_json(&self) -> (r: String)
        requires
            renderable(self.deep_view()),
        ensures
            r@ == json_of(self.deep_view()),
    {
        json_value(self)
    }

    /// The default text of a value: a number in its logical decimal
    /// form, a boolean as `true`/`false`, null as `null`, undefined as
    /// `undefined`, date/time data in ISO form, and text, arrays and
    /// objects through the JSON form.
    pub fn render(&self) -> (r: String)
        requires
            renderable(self.deep_view()),
        ensures
            r@ == match self.deep_view() {
                ValueView::Undefined => "undefined"@,
                ValueView::DateTime(d) => iso_of(d),
                _ => json_of(self.deep_view()),
            },
    {
        match self {
            Value::Undefined => {
                let mut s = String::new();
                s.append("undefined");
                proof {
                    assert(s@ =~= "undefined"@);
                }
                s
            },
            Value::DateTime(d) => d.to_iso8601(),
            _ => json_value(self),
        }
    }
}

/// The position of the first byte at or after `pos` that is not JSON
/// whitespace.
fn skip_ws(bytes: &Vec<u8>, pos: usize) -> (r: usize)
    requires
        pos <= bytes@.len(),
    ensures
        pos <= r <= bytes@.len(),
{
    let mut i = pos;
    while i < bytes.len() && (bytes[i] == 32 || bytes[i] == 9 || bytes[i] == 10 || bytes[i] == 13)
        invariant
            pos <= i <= bytes@.len(),
        decreases bytes@.len() - i,
    {
        i = i + 1;
    }
    i
}

/// Reads a quoted, escape-free text starting at the opening quote.
fn parse_string_at(bytes: &Vec<u8>, pos: usize) -> (r: Option<(StringB, usize)>)
    requires
        pos < bytes@.len(),
        bytes@[pos as int] == 34,
    ensures
        match r {
            Some(p) => pos < p.1 <= bytes@.len(),
            None => true,
        },
{
    let n = bytes.len();
    let mut j = pos + 1;
    while j < n && bytes[j] != 34 && bytes[j] != 92 && bytes[j] >= 32
        invariant
            n == bytes@.len(),
            pos + 1 <= j <= bytes@.len(),
        decreases bytes@.len() - j,
    {
        j = j + 1;
    }
    if j >= n {
        return None;
    }
    if bytes[j] != 34 {
        return None;
    }
    let mut raw: Vec<u8> = Vec::new();
    let mut k = pos + 1;
    while k < j
        invariant
            pos + 1 <= k <= j,
            j < bytes@.len(),
        decreases j - k,
    {
        raw.push(bytes[k]);
        k = k + 1;
    }
    match StringB::from_utf8(raw) {
        Some(sb) => Some((sb, j + 1)),
        None => None,
    }
}

/// Reads one JSON value starting at `pos`; whatever comes back is a
/// well-formed tree, and the cursor moved forward.
fn parse_value(bytes: &Vec<u8>, pos: usize) -> (r: Option<(Value, usize)>)
    requires
        pos <= bytes@.len(),
    ensures
        match r {
            Some(p) => p.0.wf() && pos < p.1 <= bytes@.len(),
            None => true,
        },
    decreases bytes@.len() - pos,
{
    let i = skip_ws(bytes, pos);
    if i >= bytes.len() {
        return None;
    }
    let b = bytes[i];
    if b == 110 {
        // "null"
        if bytes.len() - i >= 4 && bytes[i + 1] == 117 && bytes[i + 2] == 108 && bytes[i + 3]
            == 108 {
            Some((Value::Null, i + 4))
        } else {
            None
        }
    } else if b == 116 {
        // "true"
        if bytes.len() - i >= 4 && bytes[i + 1] == 114 && bytes[i + 2] == 117 && bytes[i + 3]
            == 101 {
            Some((Value::Boolean(true), i + 4))
        } else {
            None
        }
    } else if b == 102 {
        // "false"
        if bytes.len() - i >= 5 && bytes[i + 1] == 97 && bytes[i + 2] == 108 && bytes[i + 3] == 115
            && bytes[i + 4] == 101 {
            Some((Value::Boolean(false), i + 5))
        } else {
            None
        }
    } else if b == 34 {
        match parse_string_at(bytes, i) {
            Some(p) => Some((Value::String(p.0), p.1)),
            None => None,
        }
    } else if b == 91 {
        // '['
        let mut arr = Array::new();
        let mut cur = i + 1;
        let after = skip_ws(bytes, cur);
        if after < bytes.len() && bytes[after] == 93 {
            proof {
                crate::value::lemma_wf_seq(arr@);
            }
            return Some((Value::Array(arr), after + 1));
        }
        loop
            invariant
                pos < cur <= bytes@.len(),
                forall|j: int| 0 <= j < arr@.len() ==> (#[trigger] arr@[j]).wf(),
            decreases bytes@.len() - cur,
        {
            let parsed = parse_value(bytes, cur);
            match parsed {
                Some(p) => {
                    arr.push(p.0);
                    let next = skip_ws(bytes, p.1);
                    if next < bytes.len() && bytes[next] == 44 {
                        cur = next + 1;
                    } else if next < bytes.len() && bytes[next] == 93 {
                        proof {
                            crate::value::lemma_wf_seq(arr@);
                        }
                        return Some((Value::Array(arr), next + 1));
                    } else {
                        return None;
                    }
                },
                None => {
                    return None;
                },
            }
        }
    } else if b == 123 {
        // '{'
        let mut ov = Value::Object(Object::new());
        let mut cur = i + 1;
        let after = skip_ws(bytes, cur);
        if after < bytes.len() && bytes[after] == 125 {
            return Some((ov, after + 1));
        }
        loop
            invariant
                pos < cur <= bytes@.len(),
                ov is Object,
                ov.wf(),
            decreases bytes@.len() - cur,
        {
            let kstart = skip_ws(bytes, cur);
            if kstart >= bytes.len() {
                return None;
            }
            if bytes[kstart] != 34 {
                return None;
            }
            let key = match parse_string_at(bytes, kstart) {
                Some(p) => p,
                None => {
                    return None;
                },
            };
            let colon = skip_ws(bytes, key.1);
            if colon >= bytes.len() {
                return None;
            }
            if bytes[colon] != 58 {
                return None;
            }
            let parsed = parse_value(bytes, colon + 1);
            match parsed {
                Some(p) => {
                    ov.insert(key.0.as_str(), p.0);
                    let next = skip_ws(bytes, p.1);
                    if next < bytes.len() && bytes[next] == 44 {
                        cur = next + 1;
                    } else if next < bytes.len() && bytes[next] == 125 {
                        return Some((ov, next + 1));
                    } else {
                        return None;
                    }
                },
                None => {
                    return None;
                },
            }
        }
    } else if b == 45 || (48 <= b && b <= 57) {
        let neg = b == 45;
        let mut k = if neg {
            i + 1
        } else {
            i
        };
        let start = k;
        let mut acc: u128 = 0;
        while k < bytes.len() && 48 <= bytes[k] && bytes[k] <= 57
            invariant
                start <= k <= bytes@.len(),
                start <= bytes@.len(),
            decreases bytes@.len() - k,
        {
            let d = (bytes[k] - 48) as u128;
            if acc > (u128::MAX - d) / 10 {
                return None;
            }
            proof {
                assert(acc * 10 + d <= u128::MAX) by (nonlinear_arith)
                    requires
                        acc <= (u128::MAX - d) / 10,
                        d <= 9,
                ;
            }
            acc = acc * 10 + d;
            k = k + 1;
        }
        if k == start {
            return None;
        }
        if k < bytes.len() && (bytes[k] == 46 || bytes[k] == 101 || bytes[k] == 69) {
            // a fraction or exponent: not an integer, and this surface
            // reads integers only
            return None;
        }
        if !neg {
            if acc <= u64::MAX as u128 {
                Some((Value::Number(Number::U64(acc as u64)), k))
            } else {
                Some((Value::Number(Number::U128(acc)), k))
            }
        } else {
            if acc <= i64::MAX as u128 {
                Some((Value::Number(Number::I64(-(acc as i64))), k))
            } else if acc <= i128::MAX as u128 {
                Some((Value::Number(Number::I128(-(acc as i128))), k))
            } else if acc == 170141183460469231731687303715884105728 {
                Some((Value::Number(Number::I128(i128::MIN)), k))
            } else {
                None
            }
        }
    } else {
        None
    }
}

/// Whether a slice is surely plain: ASCII with no quote, backslash or
/// control byte.  Plain non-ASCII text is conservatively declined.
fn check_text_plain(s: &str) -> (r: bool)
    ensures
        r ==> text_plain(s@),
{
    if !s.is_ascii() {
        return false;
    }
    let bytes = s.as_bytes_vec();
    proof {
        vstd::utf8::is_ascii_chars_encode_utf8(s@);
    }
    let ghost cs = s@;
    let n = bytes.len();
    let mut i: usize = 0;
    while i < n
        invariant
            cs == s@,
            0 <= i <= n,
            n == bytes.len(),
            bytes@.len() == cs.len(),
            forall|j: int| 0 <= j < cs.len() ==> bytes@[j] == #[trigger] cs[j] as u8,
            forall|j: int| 0 <= j < cs.len() ==> '\0' <= #[trigger] cs[j] && cs[j] <= '\u{7f}',
            forall|j: int|
                0 <= j < i ==> (#[trigger] cs[j]) != '"' && cs[j] != '\\' && cs[j] as int >= 32,
        decreases n - i,
    {
        let b = bytes[i];
        if b == 34 || b == 92 || b < 32 {
            return false;
        }
        i = i + 1;
    }
    true
}

/// Whether a value surely renders exactly: a quick, conservative
/// check unverified callers can make before asking for JSON text.
/// Plain non-ASCII text is declined even though the renderer could
/// spell it.
pub fn check_renderable(v: &Value) -> (r: bool)
    ensures
        r ==> renderable(v.deep_view()),
    decreases v,
{
    match v {
        Value::Null => true,
        Value::Undefined => true,
        Value::Boolean(_) => true,
        Value::Number(n) => n.is_integer() || matches!(n, Number::Unset),
        Value::String(sb) => check_text_plain(sb.as_str()),
        Value::DateTime(d) => {
            let base = match d {
                crate::datetime::DateTime::Date(cd) => crate::datetime::check_date(
                    cd.year,
                    cd.month,
                    cd.day,
                ) && 0 <= cd.year && cd.year < 10000,
                crate::datetime::DateTime::Time(t) => crate::datetime::check_time(
                    t.hour,
                    t.minute,
                    t.second,
                ),
                crate::datetime::DateTime::DateTime(c) => crate::datetime::check_date(
                    c.date.year,
                    c.date.month,
                    c.date.day,
                ) && crate::datetime::check_time(c.time.hour, c.time.minute, c.time.second) && 0
                    <= c.date.year && c.date.year < 10000,
            };
            base
        },
        Value::Array(a) => {
            let ghost xs = deep_view_seq(a.elements@);
            proof {
                lemma_deep_view_seq(a.elements@);
                lemma_renderable_seq(xs);
            }
            let n = a.elements.len();
            let mut i: usize = 0;
            while i < n
                invariant
                    *v == Value::Array(*a),
                    xs == deep_view_seq(a.elements@),
                    n == a.elements@.len(),
                    xs.len() == n,
                    0 <= i <= n,
                    forall|j: int| 0 <= j < n ==> xs[j] == (#[trigger] a.elements@[j]).deep_view(),
                    forall|j: int| 0 <= j < i ==> renderable(#[trigger] xs[j]),
                decreases n - i,
            {
                proof {
                    let vv = *v;
                    assert(decreases_to!(vv => vv->Array_0));
                    assert(decreases_to!(*a => a.elements));
                    assert(decreases_to!(a.elements => a.elements@));
                    assert(decreases_to!(a.elements@ => a.elements@[i as int]));
                    assert(decreases_to!(vv => a.elements@[i as int]));
                }
                if !check_renderable(&a.elements[i]) {
                    return false;
                }
                i = i + 1;
            }
            proof {
                lemma_renderable_seq(xs);
            }
            true
        },
        Value::Object(o) => {
            let ghost es = deep_view_entries(o.entries@);
            proof {
                lemma_deep_view_entries(o.entries@);
                lemma_renderable_entries(es);
            }
            let n = o.entries.len();
            let mut i: usize = 0;
            while i < n
                invariant
                    *v == Value::Object(*o),
                    es == deep_view_entries(o.entries@),
                    n == o.entries@.len(),
                    es.len() == n,
                    0 <= i <= n,
                    forall|j: int|
                        0 <= j < n ==> es[j] == ((#[trigger] o.entries@[j]).0@,
                        o.entries@[j].1.deep_view()),
                    forall|j: int|
                        0 <= j < i ==> text_plain((#[trigger] es[j]).0) && renderable(es[j].1),
                decreases n - i,
            {
                proof {
                    let vv = *v;
                    assert(decreases_to!(vv => vv->Object_0));
                    assert(decreases_to!(*o => o.entries));
                    assert(decreases_to!(o.entries => o.entries@));
                    assert(decreases_to!(o.entries@ => o.entries@[i as int]));
                    assert(decreases_to!(o.entries@[i as int] => o.entries@[i as int].1));
                    assert(decreases_to!(vv => o.entries@[i as int].1));
                }
                let e = &o.entries[i];
                if !check_text_plain(e.0.as_str()) {
                    return false;
                }
                if !check_renderable(&e.1) {
                    return false;
                }
                i = i + 1;
            }
            proof {
                lemma_renderable_entries(es);
            }
            true
        },
    }
}

/// Reads a value from JSON text in the same dialect the renderer
/// writes: no escapes in strings, integer numbers only.  Whatever
/// comes back is a well-formed tree; text that spells no such value
/// yields nothing.
pub fn parse_json(text: &str) -> (r: Option<Value>)
    ensures
        match r {
            Some(v) => v.wf(),
            None => true,
        },
{
    let bytes = text.as_bytes_vec();
    match parse_value(&bytes, 0) {
        Some(p) => {
            let rest = skip_ws(&bytes, p.1);
            if rest == bytes.len() {
                Some(p.0)
            } else {
                None
            }
        },
        None => None,
    }
}

} // verus!
