//! Decimal text for the numeric side of the value model.
//!
//! `dec_digits` is the canonical decimal numeral of a natural number;
//! `dec_str_of` adds the sign.  The executable builders produce exactly
//! those character sequences.

use vstd::prelude::*;

verus! {

use vstd::string::StringExecFns;

use crate::number::Number;

/// The digit character of a value below ten.
pub open spec fn digit_char(d: int) -> char {
    ((48 + d) as u8) as char
}

/// The decimal numeral of a natural number, most significant digit
/// first, with no leading zeros (zero itself is "0").
pub open spec fn dec_digits(v: nat) -> Seq<char>
    decreases v,
{
    if v < 10 {
        seq![digit_char(v as int)]
    } else {
        dec_digits(v / 10) + seq![digit_char((v % 10) as int)]
    }
}

/// The decimal text of an integer: a minus sign before the numeral of
/// its magnitude when negative.
pub open spec fn dec_str_of(v: int) -> Seq<char> {
    if v < 0 {
        seq!['-'] + dec_digits((-v) as nat)
    } else {
        dec_digits(v as nat)
    }
}

/// Appends one digit character.
fn push_digit(s: &mut String, d: u8)
    requires
        d < 10,
    ensures
        final(s)@ == old(s)@ + seq![digit_char(d as int)],
{
    let ghost target = seq![digit_char(d as int)];
    if d == 0 {
        proof {
            reveal_strlit("0");
            assert("0"@ =~= target);
        }
        s.append("0");
    } else if d == 1 {
        proof {
            reveal_strlit("1");
            assert("1"@ =~= target);
        }
        s.append("1");
    } else if d == 2 {
        proof {
            reveal_strlit("2");
            assert("2"@ =~= target);
        }
        s.append("2");
    } else if d == 3 {
        proof {
            reveal_strlit("3");
            assert("3"@ =~= target);
        }
        s.append("3");
    } else if d == 4 {
        proof {
            reveal_strlit("4");
            assert("4"@ =~= target);
        }
        s.append("4");
    } else if d == 5 {
        proof {
            reveal_strlit("5");
            assert("5"@ =~= target);
        }
        s.append("5");
    } else if d == 6 {
        proof {
            reveal_strlit("6");
            assert("6"@ =~= target);
        }
        s.append("6");
    } else if d == 7 {
        proof {
            reveal_strlit("7");
            assert("7"@ =~= target);
        }
        s.append("7");
    } else if d == 8 {
        proof {
            reveal_strlit("8");
            assert("8"@ =~= target);
        }
        s.append("8");
    } else {
        proof {
            reveal_strlit("9");
            assert("9"@ =~= target);
        }
        s.append("9");
    }
}

/// The characters of the collected digits read back to front: the
/// numeral they spell once extraction finished.
spec fn rev_chars(ds: Seq<u8>) -> Seq<char>
    decreases ds.len(),
{
    if ds.len() == 0 {
        Seq::empty()
    } else {
        seq![digit_char(ds.last() as int)] + rev_chars(ds.drop_last())
    }
}

/// Splitting one digit off the front of the collected sequence moves
/// its character to the back of the spelled numeral.
proof fn lemma_rev_chars_split(ds: Seq<u8>, t: int)
    requires
        0 <= t < ds.len(),
    ensures
        rev_chars(ds.skip(t)) == rev_chars(ds.skip(t + 1)) + seq![digit_char(ds[t] as int)],
    decreases ds.len() - t,
{
    let s = ds.skip(t);
    if t == ds.len() - 1 {
        assert(s.len() == 1);
        assert(s.last() == ds[t]);
        assert(s.drop_last() =~= ds.skip(t + 1));
        assert(ds.skip(t + 1).len() == 0);
        assert(rev_chars(s) =~= rev_chars(ds.skip(t + 1)) + seq![digit_char(ds[t] as int)]);
    } else {
        let dl = ds.drop_last();
        lemma_rev_chars_split(dl, t);
        assert(s.drop_last() =~= dl.skip(t));
        assert(s.last() == ds.last());
        assert(ds.skip(t + 1).drop_last() =~= dl.skip(t + 1));
        assert(ds.skip(t + 1).last() == ds.last());
        assert(dl[t] == ds[t]);
        assert(rev_chars(s) == seq![digit_char(ds.last() as int)] + rev_chars(dl.skip(t)));
        assert(rev_chars(ds.skip(t + 1)) == seq![digit_char(ds.last() as int)] + rev_chars(
            dl.skip(t + 1),
        ));
        assert(rev_chars(s) =~= rev_chars(ds.skip(t + 1)) + seq![digit_char(ds[t] as int)]);
    }
}

/// The decimal numeral of an unsigned value.
pub fn u128_to_string(v: u128) -> (r: String)
    ensures
        r@ == dec_digits(v as nat),
{
    let mut s = String::new();
    if v == 0 {
        push_digit(&mut s, 0);
        proof {
            assert(s@ =~= dec_digits(0));
        }
        return s;
    }
    let mut digits: Vec<u8> = Vec::new();
    let mut x = v;
    while x > 0
        invariant
            dec_digits(v as nat) == (if x > 0 {
                dec_digits(x as nat)
            } else {
                Seq::<char>::empty()
            }) + rev_chars(digits@),
            x == 0 ==> digits@.len() > 0,
            forall|j: int| 0 <= j < digits@.len() ==> #[trigger] digits@[j] < 10,
        decreases x,
    {
        let d = (x % 10) as u8;
        let x2 = x / 10;
        proof {
            let ds2 = digits@.push(d);
            assert(ds2.last() == d);
            assert(ds2.drop_last() =~= digits@);
            assert(rev_chars(ds2) == seq![digit_char(d as int)] + rev_chars(digits@));
            if x2 > 0 {
                assert(x >= 10);
                assert(dec_digits(x as nat) == dec_digits(x2 as nat) + seq![
                    digit_char(d as int),
                ]);
            } else {
                assert(x < 10);
                assert(dec_digits(x as nat) == seq![digit_char(d as int)]);
            }
            assert((if x2 > 0 {
                dec_digits(x2 as nat)
            } else {
                Seq::<char>::empty()
            }) + rev_chars(ds2) =~= (if x > 0 {
                dec_digits(x as nat)
            } else {
                Seq::<char>::empty()
            }) + rev_chars(digits@));
        }
        digits.push(d);
        x = x2;
    }
    let ghost ds = digits@;
    let mut i: usize = digits.len();
    proof {
        assert(ds.skip(i as int) =~= Seq::<u8>::empty());
        assert(s@ =~= rev_chars(ds.skip(i as int)));
    }
    while i > 0
        invariant
            i <= ds.len(),
            ds == digits@,
            s@ == rev_chars(ds.skip(i as int)),
            forall|j: int| 0 <= j < ds.len() ==> #[trigger] ds[j] < 10,
        decreases i,
    {
        i = i - 1;
        proof {
            lemma_rev_chars_split(ds, i as int);
        }
        push_digit(&mut s, digits[i]);
    }
    proof {
        assert(ds.skip(0) =~= ds);
        assert(dec_digits(v as nat) =~= Seq::<char>::empty() + rev_chars(ds));
        assert(Seq::<char>::empty() + rev_chars(ds) =~= rev_chars(ds));
    }
    s
}

/// The decimal text of a signed magnitude.
pub fn sign_mag_to_string(neg: bool, mag: u128) -> (r: String)
    requires
        neg ==> mag >= 1,
    ensures
        r@ == dec_str_of(if neg {
            -(mag as int)
        } else {
            mag as int
        }),
{
    let digits = u128_to_string(mag);
    if neg {
        let mut s = String::new();
        proof {
            reveal_strlit("-");
            assert("-"@ =~= seq!['-']);
        }
        s.append("-");
        s.append(digits.as_str());
        proof {
            assert(s@ =~= seq!['-'] + dec_digits(mag as nat));
        }
        s
    } else {
        digits
    }
}

impl Number {
    /// The logical value in decimal text.  Asking this of a float or
    /// unset cell is a caller contract violation, so the precondition
    /// admits integer payloads only.
    pub fn to_decimal_string(&self) -> (r: String)
        requires
            self.int_value() is Some,
        ensures
            r@ == dec_str_of(self.int_value()->0),
    {
        let p = self.sign_mag();
        let q = p.unwrap();
        sign_mag_to_string(q.0, q.1)
    }
}

} // verus!
