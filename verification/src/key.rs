//! The normalized identifier that indexes `Object` entries.
//!
//! A `ValueKey` owns its text.  Keys compare by that text: equality is
//! equality of the character sequences, and the order used by the
//! order-preserving `Object` backend is the lexicographic order of the
//! UTF-8 byte sequences, the same order `String`'s own `Ord` gives.
//! A key whose text is a plain decimal numeral can also serve as an
//! array index.

use vstd::prelude::*;

verus! {

use vstd::string::StrSliceExecFns;
use vstd::utf8::{encode_utf8, encode_utf8_decode_utf8};

/// A normalized, totally-ordered identifier for `Object` entries.
#[derive(Debug)]
pub struct ValueKey {
    text: String,
}

impl View for ValueKey {
    type V = Seq<char>;

    closed spec fn view(&self) -> Seq<char> {
        self.text@
    }
}

impl Clone for ValueKey {
    fn clone(&self) -> (r: ValueKey)
        ensures
            r@ == self@,
    {
        ValueKey { text: self.text.clone() }
    }
}

/// The UTF-8 byte sequence of a key's text: the sequence its order is
/// defined over.
pub open spec fn key_bytes(k: Seq<char>) -> Seq<u8> {
    encode_utf8(k)
}

/// Lexicographic order on byte sequences.
pub open spec fn bytes_lt(a: Seq<u8>, b: Seq<u8>) -> bool
    decreases a.len(),
{
    if b.len() == 0 {
        false
    } else if a.len() == 0 {
        true
    } else if a[0] < b[0] {
        true
    } else if a[0] == b[0] {
        bytes_lt(a.drop_first(), b.drop_first())
    } else {
        false
    }
}

/// True when every character of `s` is a decimal digit.
pub open spec fn all_digits(s: Seq<char>) -> bool {
    forall|i: int| 0 <= i < s.len() ==> '0' <= #[trigger] s[i] && s[i] <= '9'
}

/// The integer a sequence of decimal digits denotes.
pub open spec fn dec_value(s: Seq<char>) -> int
    decreases s.len(),
{
    if s.len() == 0 {
        0
    } else {
        dec_value(s.drop_last()) * 10 + (s.last() as int - 48)
    }
}

/// The array index a key denotes: the value of its digits, when the key
/// is a non-empty, all-digit numeral that fits `usize`.
pub open spec fn parsed_index(s: Seq<char>) -> Option<usize> {
    if s.len() > 0 && all_digits(s) && dec_value(s) <= usize::MAX as int {
        Some(dec_value(s) as usize)
    } else {
        None
    }
}

/// UTF-8 encoding is injective: equal byte sequences come from equal
/// character sequences.
pub proof fn lemma_key_bytes_injective(a: Seq<char>, b: Seq<char>)
    requires
        key_bytes(a) == key_bytes(b),
    ensures
        a == b,
{
    encode_utf8_decode_utf8(a);
    encode_utf8_decode_utf8(b);
}

/// The value of a digit sequence never shrinks as the sequence grows.
proof fn lemma_dec_value_prefix(s: Seq<char>, i: int)
    requires
        all_digits(s),
        0 <= i <= s.len(),
    ensures
        0 <= dec_value(s.subrange(0, i)),
        dec_value(s.subrange(0, i)) <= dec_value(s),
    decreases s.len() - i,
{
    if i == s.len() {
        assert(s.subrange(0, i) =~= s);
        lemma_dec_value_nonneg(s);
    } else {
        let shorter = s.subrange(0, i);
        let longer = s.subrange(0, i + 1);
        assert(longer.drop_last() =~= shorter);
        lemma_dec_value_nonneg(shorter);
        lemma_dec_value_prefix(s, i + 1);
    }
}

proof fn lemma_dec_value_nonneg(s: Seq<char>)
    requires
        all_digits(s),
    ensures
        dec_value(s) >= 0,
    decreases s.len(),
{
    if s.len() > 0 {
        assert(all_digits(s.drop_last())) by {
            assert(forall|i: int| 0 <= i < s.len() - 1 ==> s.drop_last()[i] == s[i]);
        }
        lemma_dec_value_nonneg(s.drop_last());
    }
}

impl ValueKey {
    /// A key carrying the given text.
    pub fn new(text: String) -> (r: ValueKey)
        ensures
            r@ == text@,
    {
        ValueKey { text }
    }

    /// A key carrying a copy of the given text.
    pub fn from_str(text: &str) -> (r: ValueKey)
        ensures
            r@ == text@,
    {
        ValueKey { text: text.to_owned() }
    }

    /// The key's text.
    pub fn as_str(&self) -> (r: &str)
        ensures
            r@ == self@,
    {
        self.text.as_str()
    }

    /// The array index this key denotes, when its text is a non-empty
    /// decimal numeral whose value fits `usize`; nothing otherwise.
    pub fn to_usize(&self) -> (r: Option<usize>)
        ensures
            r == parsed_index(self@),
    {
        parse_index(self.text.as_str())
    }
}

/// The array index a slice denotes, when it is a non-empty decimal
/// numeral whose value fits `usize`; nothing otherwise.
pub fn parse_index(s: &str) -> (r: Option<usize>)
    ensures
        r == parsed_index(s@),
{
        if !s.is_ascii() {
            proof {
                let ghost cs = s@;
                assert(!vstd::utf8::is_ascii_chars(cs));
                let ghost j = choose|j: int|
                    !(0 <= j < cs.len() ==> '\0' <= cs[j] && cs[j] <= '\u{7f}');
                assert(!('0' <= cs[j] && cs[j] <= '9'));
            }
            return None;
        }
        let bytes = s.as_bytes_vec();
        proof {
            vstd::utf8::is_ascii_chars_encode_utf8(s@);
        }
        if bytes.len() == 0 {
            return None;
        }
        let ghost cs = s@;
        let n = bytes.len();
        let mut acc: usize = 0;
        let mut i: usize = 0;
        while i < n
            invariant
                cs == s@,
                0 <= i <= n,
                n == bytes.len(),
                bytes@.len() == cs.len(),
                forall|j: int| 0 <= j < cs.len() ==> bytes@[j] == #[trigger] cs[j] as u8,
                forall|j: int| 0 <= j < cs.len() ==> '\0' <= #[trigger] cs[j] && cs[j] <= '\u{7f}',
                all_digits(cs.subrange(0, i as int)),
                acc as int == dec_value(cs.subrange(0, i as int)),
            decreases n - i,
        {
            let b = bytes[i];
            if b < 48 || b > 57 {
                proof {
                    assert(!('0' <= cs[i as int] && cs[i as int] <= '9'));
                }
                return None;
            }
            let d = (b - 48) as usize;
            if acc > (usize::MAX - d) / 10 {
                proof {
                    assert(acc as int * 10 + d > usize::MAX as int) by (nonlinear_arith)
                        requires
                            acc as int > (usize::MAX as int - d) / 10,
                            0 <= d <= 9,
                    ;
                    assert(cs.subrange(0, i as int + 1).drop_last() =~= cs.subrange(0, i as int));
                    assert(all_digits(cs.subrange(0, i as int + 1)));
                    assert(dec_value(cs.subrange(0, i as int + 1)) > usize::MAX as int);
                    if all_digits(cs) {
                        lemma_dec_value_prefix(cs, i as int + 1);
                        assert(dec_value(cs) > usize::MAX as int);
                    }
                    assert(parsed_index(cs) is None);
                }
                return None;
            }
            proof {
                assert(acc as int * 10 + d <= usize::MAX as int) by (nonlinear_arith)
                    requires
                        acc as int <= (usize::MAX as int - d) / 10,
                        0 <= d <= 9,
                ;
                assert(cs.subrange(0, i as int + 1).drop_last() =~= cs.subrange(0, i as int));
            }
            acc = acc * 10 + d;
            i = i + 1;
        }
        proof {
            assert(cs.subrange(0, n as int) =~= cs);
        }
        Some(acc)
}

impl PartialEq for ValueKey {
    /// Keys are equal when their texts are equal.
    fn eq(&self, other: &ValueKey) -> (r: bool) {
        self.text == other.text
    }
}

impl vstd::std_specs::cmp::PartialEqSpecImpl for ValueKey {
    open spec fn obeys_eq_spec() -> bool {
        true
    }

    open spec fn eq_spec(&self, other: &ValueKey) -> bool {
        self@ == other@
    }
}

/// Three-way lexicographic comparison of two keys by their UTF-8 bytes:
/// `-1` when `a` comes first, `1` when `b` does, `0` exactly when the
/// keys are equal.
pub fn key_cmp(a: &ValueKey, b: &ValueKey) -> (r: i8)
    ensures
        r == -1 || r == 0 || r == 1,
        (r == 0) <==> (a@ == b@),
        (r == -1) <==> bytes_lt(key_bytes(a@), key_bytes(b@)),
        (r == 1) <==> bytes_lt(key_bytes(b@), key_bytes(a@)),
{
    let av = a.as_str().as_bytes_vec();
    let bv = b.as_str().as_bytes_vec();
    let ghost ab = key_bytes(a@);
    let ghost bb = key_bytes(b@);
    let mut i: usize = 0;
    proof {
        assert(ab.skip(0) =~= ab);
        assert(bb.skip(0) =~= bb);
    }
    while i < av.len() && i < bv.len()
        invariant
            ab == key_bytes(a@),
            bb == key_bytes(b@),
            av@ == ab,
            bv@ == bb,
            0 <= i <= av.len(),
            i <= bv.len(),
            ab.subrange(0, i as int) == bb.subrange(0, i as int),
            bytes_lt(ab, bb) == bytes_lt(ab.skip(i as int), bb.skip(i as int)),
            bytes_lt(bb, ab) == bytes_lt(bb.skip(i as int), ab.skip(i as int)),
        decreases av.len() - i,
    {
        let x = av[i];
        let y = bv[i];
        proof {
            assert(ab.skip(i as int).len() > 0);
            assert(bb.skip(i as int).len() > 0);
            assert(ab.skip(i as int)[0] == ab[i as int]);
            assert(bb.skip(i as int)[0] == bb[i as int]);
            assert(a@ != b@ ==> true);
        }
        if x < y {
            proof {
                assert(bytes_lt(ab.skip(i as int), bb.skip(i as int)));
                assert(!bytes_lt(bb.skip(i as int), ab.skip(i as int)));
                assert(a@ != b@) by {
                    if a@ == b@ {
                        assert(ab == bb);
                    }
                }
            }
            return -1;
        }
        if x > y {
            proof {
                assert(bytes_lt(bb.skip(i as int), ab.skip(i as int)));
                assert(!bytes_lt(ab.skip(i as int), bb.skip(i as int)));
                assert(a@ != b@) by {
                    if a@ == b@ {
                        assert(ab == bb);
                    }
                }
            }
            return 1;
        }
        proof {
            assert(ab.skip(i as int).drop_first() =~= ab.skip(i as int + 1));
            assert(bb.skip(i as int).drop_first() =~= bb.skip(i as int + 1));
            assert(ab.subrange(0, i as int + 1) =~= bb.subrange(0, i as int + 1));
        }
        i = i + 1;
    }
    if av.len() == bv.len() {
        proof {
            assert forall|j: int| 0 <= j < ab.len() implies ab[j] == bb[j] by {
                assert(ab.subrange(0, i as int)[j] == ab[j]);
                assert(bb.subrange(0, i as int)[j] == bb[j]);
            }
            assert(ab =~= bb);
            lemma_key_bytes_injective(a@, b@);
            assert(!bytes_lt(ab.skip(i as int), bb.skip(i as int)));
        }
        0
    } else if av.len() < bv.len() {
        proof {
            assert(i == av.len());
            assert(ab.skip(i as int).len() == 0);
            assert(bb.skip(i as int).len() > 0);
            assert(bytes_lt(ab.skip(i as int), bb.skip(i as int)));
            assert(!bytes_lt(bb.skip(i as int), ab.skip(i as int)));
            assert(a@ != b@) by {
                if a@ == b@ {
                    assert(ab == bb);
                }
            }
        }
        -1
    } else {
        proof {
            assert(i == bv.len());
            assert(bytes_lt(bb.skip(i as int), ab.skip(i as int)));
            assert(!bytes_lt(ab.skip(i as int), bb.skip(i as int)));
            assert(a@ != b@) by {
                if a@ == b@ {
                    assert(ab == bb);
                }
            }
        }
        1
    }
}

/// Whether a key's text equals the given slice, decided by comparing
/// UTF-8 bytes.
pub fn key_matches(k: &ValueKey, s: &str) -> (r: bool)
    ensures
        r == (k@ == s@),
{
    let a = k.as_str().as_bytes_vec();
    let b = s.as_bytes_vec();
    if a == b {
        proof {
            assert(a@ =~= b@);
            lemma_key_bytes_injective(k@, s@);
        }
        true
    } else {
        proof {
            if k@ == s@ {
                assert(a@ == b@);
                assert(false);
            }
        }
        false
    }
}

} // verus!
