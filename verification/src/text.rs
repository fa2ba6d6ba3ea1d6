//! Character-sequence utilities: conversions between `str`/`String` and
//! `Vec<char>`, decimal rendering and parsing with exact specifications.

use vstd::prelude::*;

verus! {

/// Collects the characters of a string slice into a vector.
pub fn chars_vec(s: &str) -> (r: Vec<char>)
    ensures
        r@ == s@,
{
    let n: usize = s.unicode_len();
    let mut v: Vec<char> = Vec::new();
    let mut i: usize = 0;
    while i < n
        invariant
            n == s@.len(),
            i <= n,
            v@ == s@.subrange(0, i as int),
        decreases n - i,
    {
        v.push(s.get_char(i));
        i += 1;
    }
    proof {
        assert(v@ =~= s@);
    }
    v
}

/// Relies on `String: FromIterator<char>`: collecting an iterator of
/// characters yields the string of exactly those characters in order.
#[verifier::external_body]
pub fn string_from_chars(v: &Vec<char>) -> (r: String)
    ensures
        r@ == v@,
{
    v.iter().collect()
}

/// Appends the characters of a string slice to `out`.
pub fn push_str_chars(out: &mut Vec<char>, s: &str)
    ensures
        final(out)@ == old(out)@ + s@,
{
    let mut cs = chars_vec(s);
    out.append(&mut cs);
}

/// Appends a copy of the characters of `v` to `out`.
pub fn push_chars(out: &mut Vec<char>, v: &Vec<char>)
    ensures
        final(out)@ == old(out)@ + v@,
{
    let n: usize = v.len();
    let mut i: usize = 0;
    while i < n
        invariant
            n == v@.len(),
            i <= n,
            out@ == old(out)@ + v@.subrange(0, i as int),
        decreases n - i,
    {
        out.push(v[i]);
        i += 1;
        proof {
            assert(out@ =~= old(out)@ + v@.subrange(0, i as int));
        }
    }
    proof {
        assert(v@.subrange(0, n as int) =~= v@);
    }
}

/// A copy of a character vector.
pub fn clone_chars(v: &Vec<char>) -> (r: Vec<char>)
    ensures
        r@ == v@,
{
    let mut out: Vec<char> = Vec::new();
    push_chars(&mut out, v);
    out
}

/// Equality of two character vectors, decided element by element.
pub fn chars_eq(a: &Vec<char>, b: &Vec<char>) -> (r: bool)
    ensures
        r == (a@ == b@),
{
    if a.len() != b.len() {
        proof {
            assert(a@ != b@);
        }
        return false;
    }
    let n: usize = a.len();
    let mut i: usize = 0;
    while i < n
        invariant
            n == a@.len() == b@.len(),
            i <= n,
            forall|j: int| 0 <= j < i ==> a@[j] == b@[j],
        decreases n - i,
    {
        if a[i] != b[i] {
            return false;
        }
        i += 1;
    }
    proof {
        assert(a@ =~= b@);
    }
    true
}

/// The character for a decimal digit.
pub open spec fn digit_char(d: nat) -> char {
    if d == 0 {
        '0'
    } else if d == 1 {
        '1'
    } else if d == 2 {
        '2'
    } else if d == 3 {
        '3'
    } else if d == 4 {
        '4'
    } else if d == 5 {
        '5'
    } else if d == 6 {
        '6'
    } else if d == 7 {
        '7'
    } else if d == 8 {
        '8'
    } else {
        '9'
    }
}

/// The decimal rendering of a natural number, most significant digit first.
pub open spec fn dec_chars(n: nat) -> Seq<char>
    decreases n,
{
    if n < 10 {
        seq![digit_char(n)]
    } else {
        dec_chars(n / 10).push(digit_char(n % 10))
    }
}

fn digit_char_exec(d: u64) -> (c: char)
    requires
        d < 10,
    ensures
        c == digit_char(d as nat),
{
    if d == 0 {
        '0'
    } else if d == 1 {
        '1'
    } else if d == 2 {
        '2'
    } else if d == 3 {
        '3'
    } else if d == 4 {
        '4'
    } else if d == 5 {
        '5'
    } else if d == 6 {
        '6'
    } else if d == 7 {
        '7'
    } else if d == 8 {
        '8'
    } else {
        '9'
    }
}

/// Appends the decimal rendering of `n` to `out`.
pub fn push_dec_u64(n: u64, out: &mut Vec<char>)
    ensures
        final(out)@ == old(out)@ + dec_chars(n as nat),
    decreases n,
{
    if n < 10 {
        out.push(digit_char_exec(n));
    } else {
        push_dec_u64(n / 10, out);
        out.push(digit_char_exec(n % 10));
    }
}

/// Whether a character is a decimal digit.
pub open spec fn is_digit(c: char) -> bool {
    '0' <= c && c <= '9'
}

/// The numeric value of a decimal digit character.
pub open spec fn digit_val(c: char) -> nat {
    (c as nat - '0' as nat) as nat
}

/// Whether every character of `s` is a decimal digit.
pub open spec fn all_digits(s: Seq<char>) -> bool {
    forall|i: int| 0 <= i < s.len() ==> is_digit(#[trigger] s[i])
}

/// The value of a sequence of decimal digit characters.
pub open spec fn dec_val(s: Seq<char>) -> nat
    decreases s.len(),
{
    if s.len() == 0 {
        0
    } else {
        dec_val(s.drop_last()) * 10 + digit_val(s.last())
    }
}

pub fn is_digit_exec(c: char) -> (r: bool)
    ensures
        r == is_digit(c),
{
    '0' <= c && c <= '9'
}

fn digit_val_exec(c: char) -> (d: u64)
    requires
        is_digit(c),
    ensures
        d == digit_val(c),
        d < 10,
{
    (c as u64) - ('0' as u64)
}

/// Extending a digit sequence on the right never decreases its value.
pub proof fn lemma_dec_val_extend(s: Seq<char>, t: Seq<char>)
    requires
        s.len() <= t.len(),
        forall|i: int| 0 <= i < s.len() ==> s[i] == t[i],
    ensures
        dec_val(t) >= dec_val(s),
    decreases t.len(),
{
    if t.len() == s.len() {
        assert(t =~= s);
    } else {
        lemma_dec_val_extend(s, t.drop_last());
        assert(dec_val(t) == dec_val(t.drop_last()) * 10 + digit_val(t.last()));
        assert(dec_val(t.drop_last()) * 10 >= dec_val(t.drop_last())) by (nonlinear_arith);
    }
}

/// Parses the characters `v[from..to]` as an unsigned decimal number.
/// Returns the value exactly when the range is a nonempty run of digits
/// whose value fits in `u64`.
pub fn parse_u64_range(v: &Vec<char>, from: usize, to: usize) -> (r: Option<u64>)
    requires
        from <= to <= v@.len(),
    ensures
        r matches Some(n) ==> {
            &&& all_digits(v@.subrange(from as int, to as int))
            &&& to > from
            &&& n == dec_val(v@.subrange(from as int, to as int))
        },
        r is None ==> {
            ||| !all_digits(v@.subrange(from as int, to as int))
            ||| to == from
            ||| dec_val(v@.subrange(from as int, to as int)) > u64::MAX
        },
{
    if to == from {
        return None;
    }
    let ghost whole = v@.subrange(from as int, to as int);
    let mut val: u64 = 0;
    let mut i: usize = from;
    while i < to
        invariant
            from <= i <= to <= v@.len(),
            whole == v@.subrange(from as int, to as int),
            all_digits(v@.subrange(from as int, i as int)),
            val == dec_val(v@.subrange(from as int, i as int)),
        decreases to - i,
    {
        let c = v[i];
        if !is_digit_exec(c) {
            proof {
                assert(whole[i - from] == v@[i as int]);
            }
            return None;
        }
        let d = digit_val_exec(c);
        let limit: u64 = (u64::MAX - d) / 10;
        let ghost pre = v@.subrange(from as int, i as int);
        let ghost ext = v@.subrange(from as int, i + 1);
        proof {
            assert(ext.drop_last() =~= pre);
            assert(ext.last() == v@[i as int]);
            assert(all_digits(ext)) by {
                assert(forall|j: int| 0 <= j < ext.len() - 1 ==> ext[j] == pre[j]);
            }
            assert(dec_val(ext) == val * 10 + d);
        }
        if val > limit {
            // the prefix alone already exceeds the range; the whole run can
            // only be larger when it stays numeric, and otherwise it is not
            // a digit run at all
            proof {
                assert(val * 10 + d > u64::MAX) by (nonlinear_arith)
                    requires
                        val > (u64::MAX - d) / 10,
                        d < 10,
                ;
                if all_digits(whole) {
                    assert(forall|j: int| 0 <= j < ext.len() ==> ext[j] == whole[j]);
                    lemma_dec_val_extend(ext, whole);
                }
            }
            return None;
        }
        proof {
            assert(val * 10 + d <= u64::MAX) by (nonlinear_arith)
                requires
                    val <= (u64::MAX - d) / 10,
                    d < 10,
            ;
        }
        val = val * 10 + d;
        i += 1;
    }
    proof {
        assert(v@.subrange(from as int, i as int) == whole);
    }
    Some(val)
}

} // verus!
