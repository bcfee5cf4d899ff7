use vstd::prelude::*;
use vstd::string::{StrSliceExecFns, StringExecFns};

verus! {

broadcast use vstd::slice::group_slice_axioms;

/// Character-wise string equality, decided against the `Seq<char>` views.
pub fn str_eq(a: &str, b: &str) -> (r: bool)
    ensures
        r == (a@ == b@),
{
    let alen = a.unicode_len();
    let blen = b.unicode_len();
    if alen != blen {
        proof {
            assert(a@.len() != b@.len());
        }
        return false;
    }
    let mut i: usize = 0;
    while i < alen
        invariant
            alen == a@.len(),
            blen == b@.len(),
            alen == blen,
            i <= alen,
            forall|j: int| 0 <= j < i ==> a@[j] == b@[j],
        decreases alen - i,
    {
        if a.get_char(i) != b.get_char(i) {
            return false;
        }
        i = i + 1;
    }
    proof {
        assert(a@ =~= b@);
    }
    true
}

/// Relies on `String::push`: appends exactly the given character at the
/// end of the string.
#[verifier::external_body]
pub fn push_char(s: &mut String, c: char)
    ensures
        final(s)@ == old(s)@.push(c),
{
    s.push(c);
}

/// The views of a sequence of strings.
pub open spec fn strs_view(ss: Seq<String>) -> Seq<Seq<char>> {
    Seq::new(ss.len(), |i: int| ss[i]@)
}

/// Whether `c` is an ASCII decimal digit.
pub open spec fn is_digit(c: char) -> bool {
    48 <= c as int <= 57
}

/// The numeric value of a digit character.
pub open spec fn digit_val(c: char) -> nat {
    (c as int - 48) as nat
}

/// The digit character for `d < 10`.
pub open spec fn dec_digit(d: nat) -> char {
    if d == 0 {
        '0'
    } else if d == 1 {
        '1'
    } else if d == 2 {
        '2'
    } else if d == 3 {
        '3'
    } else if d == 4 {
        '4'
    } else if d == 5 {
        '5'
    } else if d == 6 {
        '6'
    } else if d == 7 {
        '7'
    } else if d == 8 {
        '8'
    } else {
        '9'
    }
}

/// The decimal digit string of a natural number, no sign, no leading zeros
/// (except for the single digit of zero itself).
pub open spec fn dec_nat(n: nat) -> Seq<char>
    decreases n,
{
    if n < 10 {
        seq![dec_digit(n)]
    } else {
        dec_nat(n / 10).push(dec_digit(n % 10))
    }
}

/// The decimal text of an integer: a `-` sign for negatives, then digits.
pub open spec fn dec_int(i: int) -> Seq<char> {
    if i < 0 {
        seq!['-'] + dec_nat((-i) as nat)
    } else {
        dec_nat(i as nat)
    }
}

/// Whether every character of `s` is a decimal digit.
pub open spec fn all_digits(s: Seq<char>) -> bool {
    forall|i: int| 0 <= i < s.len() ==> is_digit(s[i])
}

/// The value of an all-digit string, most significant digit first.
pub open spec fn digits_val(s: Seq<char>) -> nat
    decreases s.len(),
{
    if s.len() == 0 {
        0
    } else {
        digits_val(s.drop_last()) * 10 + digit_val(s.last())
    }
}

/// What a numeric token means: an optional leading `-`, then one or more
/// digits, rejected on 32-bit overflow.  (A leading `+` is not accepted:
/// such a token reads as a symbol.)
pub open spec fn spec_parse_i32(s: Seq<char>) -> Option<i32> {
    if s.len() > 0 && s[0] == '-' {
        let ds = s.skip(1);
        if ds.len() > 0 && all_digits(ds) && digits_val(ds) <= 0x8000_0000 {
            Some((-(digits_val(ds) as int)) as i32)
        } else {
            None
        }
    } else if s.len() > 0 && all_digits(s) && digits_val(s) <= 0x7fff_ffff {
        Some(digits_val(s) as i32)
    } else {
        None
    }
}

/// What a signed numeric token means to the early front end: like
/// `spec_parse_i32` but a leading `+` is accepted as well.
pub open spec fn spec_parse_i32_plus(s: Seq<char>) -> Option<i32> {
    if s.len() > 0 && s[0] == '+' {
        let ds = s.skip(1);
        if ds.len() > 0 && all_digits(ds) && digits_val(ds) <= 0x7fff_ffff {
            Some(digits_val(ds) as i32)
        } else {
            None
        }
    } else {
        spec_parse_i32(s)
    }
}

/// The value of the digit run `s[from..to]`, accumulated left to right.
proof fn lemma_digits_val_step(s: Seq<char>, i: int)
    requires
        0 <= i < s.len(),
    ensures
        digits_val(s.take(i + 1)) == digits_val(s.take(i)) * 10 + digit_val(s[i]),
{
    assert(s.take(i + 1).drop_last() =~= s.take(i));
    assert(s.take(i + 1).last() == s[i]);
}

/// Parses the digit run `s[from..]`; `None` on a non-digit or a value
/// above `bound`.
fn parse_digits(s: &str, from: usize, bound: u64) -> (r: Option<u64>)
    requires
        from <= s@.len(),
        bound <= 0x8000_0000,
    ensures
        match r {
            Some(v) => all_digits(s@.skip(from as int)) && v == digits_val(
                s@.skip(from as int),
            ) && v <= bound,
            None => !all_digits(s@.skip(from as int)) || digits_val(s@.skip(from as int))
                > bound,
        },
{
    let len = s.unicode_len();
    let ghost ds = s@.skip(from as int);
    let mut acc: u64 = 0;
    let mut too_big = false;
    let mut i: usize = from;
    while i < len
        invariant
            from <= i <= len,
            len == s@.len(),
            bound <= 0x8000_0000,
            ds == s@.skip(from as int),
            all_digits(ds.take(i - from)),
            !too_big ==> acc == digits_val(ds.take(i - from)) && acc <= bound,
            too_big ==> digits_val(ds.take(i - from)) > bound,
        decreases len - i,
    {
        let c = s.get_char(i);
        let u = c as u32;
        proof {
            assert(ds[i - from] == s@[i as int]);
        }
        if u < 48 || u > 57 {
            proof {
                assert(!is_digit(ds[i - from]));
            }
            return None;
        }
        let d: u64 = (u - 48) as u64;
        proof {
            lemma_digits_val_step(ds, i - from);
            assert(ds.take(i - from + 1).take(i - from) =~= ds.take(i - from));
        }
        if !too_big {
            acc = acc * 10 + d;
            if acc > bound {
                too_big = true;
            }
        } else {
            proof {
                assert(digits_val(ds.take(i - from + 1)) >= digits_val(ds.take(i - from)));
            }
        }
        i = i + 1;
    }
    proof {
        assert(ds.take(i - from) =~= ds);
    }
    if too_big {
        None
    } else {
        Some(acc)
    }
}

/// Parses decimal text as a 32-bit integer, against `spec_parse_i32`.
pub fn parse_i32(s: &str) -> (r: Option<i32>)
    ensures
        r == spec_parse_i32(s@),
{
    let len = s.unicode_len();
    if len == 0 {
        return None;
    }
    let first = s.get_char(0);
    if first == '-' {
        if len == 1 {
            proof {
                assert(s@.skip(1).len() == 0);
            }
            return None;
        }
        match parse_digits(s, 1, 0x8000_0000) {
            Some(mag) => {
                let v: i64 = -(mag as i64);
                Some(v as i32)
            }
            None => None,
        }
    } else {
        proof {
            assert(s@.skip(0) =~= s@);
        }
        match parse_digits(s, 0, 0x7fff_ffff) {
            Some(mag) => Some(mag as i32),
            None => None,
        }
    }
}

/// Parses decimal text that may also carry a leading `+`, against
/// `spec_parse_i32_plus`.
pub fn parse_i32_plus(s: &str) -> (r: Option<i32>)
    ensures
        r == spec_parse_i32_plus(s@),
{
    let len = s.unicode_len();
    if len > 0 && s.get_char(0) == '+' {
        if len == 1 {
            proof {
                assert(s@.skip(1).len() == 0);
            }
            return None;
        }
        match parse_digits(s, 1, 0x7fff_ffff) {
            Some(mag) => Some(mag as i32),
            None => None,
        }
    } else {
        parse_i32(s)
    }
}

/// The UTF-8 byte length of the text.
pub fn byte_len(s: &str) -> (n: usize)
    ensures
        n == vstd::utf8::encode_utf8(s@).len(),
{
    s.as_bytes().len()
}

/// The digit characters of `n`, built against `dec_nat`.
fn format_u32(n: u32) -> (s: String)
    ensures
        s@ == dec_nat(n as nat),
    decreases n,
{
    let d10 = n % 10;
    let d: &str = if d10 == 0 {
        "0"
    } else if d10 == 1 {
        "1"
    } else if d10 == 2 {
        "2"
    } else if d10 == 3 {
        "3"
    } else if d10 == 4 {
        "4"
    } else if d10 == 5 {
        "5"
    } else if d10 == 6 {
        "6"
    } else if d10 == 7 {
        "7"
    } else if d10 == 8 {
        "8"
    } else {
        "9"
    };
    proof {
        reveal_strlit("0");
        reveal_strlit("1");
        reveal_strlit("2");
        reveal_strlit("3");
        reveal_strlit("4");
        reveal_strlit("5");
        reveal_strlit("6");
        reveal_strlit("7");
        reveal_strlit("8");
        reveal_strlit("9");
        assert(d@ =~= seq![dec_digit((n % 10) as nat)]);
    }
    if n < 10 {
        d.to_owned()
    } else {
        let mut s = format_u32(n / 10);
        s.append(d);
        proof {
            assert(s@ =~= dec_nat((n / 10) as nat).push(dec_digit((n % 10) as nat)));
        }
        s
    }
}

/// The decimal text of a 32-bit integer, against `dec_int`.
pub fn format_i32(x: i32) -> (s: String)
    ensures
        s@ == dec_int(x as int),
{
    if x >= 0 {
        format_u32(x as u32)
    } else {
        let mag: u32 = (-(x as i64)) as u32;
        let mut s: String = "-".to_owned();
        let digits = format_u32(mag);
        s.append(digits.as_str());
        proof {
            reveal_strlit("-");
            assert(s@ =~= seq!['-'] + dec_nat(mag as nat));
        }
        s
    }
}

} // verus!
