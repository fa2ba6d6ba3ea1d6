//! JSON text handling over character vectors: string-literal escaping with an
//! exact specification, its inverse, and scanning utilities used to pull
//! fields out of request payloads.
//!
//! The escaper emits `\"`, `\\` and `\u00XX` (for control characters) and
//! passes every other character through; the reader additionally tolerates
//! the common short escapes and `\uXXXX` up to `U+00FF`.

use vstd::prelude::*;

verus! {

/// The character for a hexadecimal digit, lower case.
pub open spec fn hex_char(d: nat) -> char {
    if d == 0 {
        '0'
    } else if d == 1 {
        '1'
    } else if d == 2 {
        '2'
    } else if d == 3 {
        '3'
    } else if d == 4 {
        '4'
    } else if d == 5 {
        '5'
    } else if d == 6 {
        '6'
    } else if d == 7 {
        '7'
    } else if d == 8 {
        '8'
    } else if d == 9 {
        '9'
    } else if d == 10 {
        'a'
    } else if d == 11 {
        'b'
    } else if d == 12 {
        'c'
    } else if d == 13 {
        'd'
    } else if d == 14 {
        'e'
    } else {
        'f'
    }
}

pub open spec fn is_hex(c: char) -> bool {
    ('0' <= c && c <= '9') || ('a' <= c && c <= 'f') || ('A' <= c && c <= 'F')
}

pub open spec fn hex_val(c: char) -> nat {
    if '0' <= c && c <= '9' {
        (c as nat - '0' as nat) as nat
    } else if 'a' <= c && c <= 'f' {
        (c as nat - 'a' as nat + 10) as nat
    } else {
        (c as nat - 'A' as nat + 10) as nat
    }
}

fn hex_char_exec(d: u32) -> (c: char)
    requires
        d < 16,
    ensures
        c == hex_char(d as nat),
{
    if d == 0 {
        '0'
    } else if d == 1 {
        '1'
    } else if d == 2 {
        '2'
    } else if d == 3 {
        '3'
    } else if d == 4 {
        '4'
    } else if d == 5 {
        '5'
    } else if d == 6 {
        '6'
    } else if d == 7 {
        '7'
    } else if d == 8 {
        '8'
    } else if d == 9 {
        '9'
    } else if d == 10 {
        'a'
    } else if d == 11 {
        'b'
    } else if d == 12 {
        'c'
    } else if d == 13 {
        'd'
    } else if d == 14 {
        'e'
    } else {
        'f'
    }
}

fn is_hex_exec(c: char) -> (r: bool)
    ensures
        r == is_hex(c),
{
    ('0' <= c && c <= '9') || ('a' <= c && c <= 'f') || ('A' <= c && c <= 'F')
}

fn hex_val_exec(c: char) -> (d: u32)
    requires
        is_hex(c),
    ensures
        d == hex_val(c),
        d < 16,
{
    if '0' <= c && c <= '9' {
        (c as u32) - ('0' as u32)
    } else if 'a' <= c && c <= 'f' {
        (c as u32) - ('a' as u32) + 10
    } else {
        (c as u32) - ('A' as u32) + 10
    }
}

proof fn lemma_hex_roundtrip(d: nat)
    requires
        d < 16,
    ensures
        is_hex(hex_char(d)),
        hex_val(hex_char(d)) == d,
{
}

/// How one character is written inside a JSON string literal.
pub open spec fn esc_char(c: char) -> Seq<char> {
    if c == '"' {
        seq!['\\', '"']
    } else if c == '\\' {
        seq!['\\', '\\']
    } else if (c as u32) < 32 {
        seq!['\\', 'u', '0', '0', hex_char(((c as u32) / 16) as nat), hex_char(
            ((c as u32) % 16) as nat,
        )]
    } else {
        seq![c]
    }
}

/// How a whole string is written inside a JSON string literal (without the
/// surrounding quotes).
pub open spec fn esc_str(s: Seq<char>) -> Seq<char>
    decreases s.len(),
{
    if s.len() == 0 {
        Seq::<char>::empty()
    } else {
        esc_char(s[0]) + esc_str(s.drop_first())
    }
}

/// Appends the escaped form of `s` to `out`.
pub fn push_escaped(s: &Vec<char>, out: &mut Vec<char>)
    ensures
        final(out)@ == old(out)@ + esc_str(s@),
{
    let n: usize = s.len();
    let mut i: usize = 0;
    while i < n
        invariant
            n == s@.len(),
            i <= n,
            out@ == old(out)@ + esc_str(s@.subrange(0, i as int)),
        decreases n - i,
    {
        let c = s[i];
        if c == '"' {
            out.push('\\');
            out.push('"');
        } else if c == '\\' {
            out.push('\\');
            out.push('\\');
        } else if (c as u32) < 32 {
            out.push('\\');
            out.push('u');
            out.push('0');
            out.push('0');
            out.push(hex_char_exec((c as u32) / 16));
            out.push(hex_char_exec((c as u32) % 16));
        } else {
            out.push(c);
        }
        i += 1;
        proof {
            lemma_esc_str_snoc(s@.subrange(0, i as int));
            assert(s@.subrange(0, i as int).drop_last() =~= s@.subrange(0, i - 1));
            assert(out@ =~= old(out)@ + esc_str(s@.subrange(0, i as int)));
        }
    }
    proof {
        assert(s@.subrange(0, n as int) =~= s@);
    }
}

/// Escaping can also be unrolled from the right.
proof fn lemma_esc_str_snoc(s: Seq<char>)
    requires
        s.len() >= 1,
    ensures
        esc_str(s) == esc_str(s.drop_last()) + esc_char(s.last()),
    decreases s.len(),
{
    if s.len() == 1 {
        assert(s.drop_first() =~= Seq::<char>::empty());
        assert(s.drop_last() =~= Seq::<char>::empty());
        assert(esc_str(Seq::<char>::empty()) =~= Seq::<char>::empty());
        assert(esc_str(s) =~= esc_char(s[0]));
        assert(esc_str(s.drop_last()) + esc_char(s.last()) =~= esc_char(s[0]));
    } else {
        lemma_esc_str_snoc(s.drop_first());
        assert(s.drop_first().drop_last() =~= s.drop_last().drop_first());
        assert(s.drop_first().last() == s.last());
        assert(s.drop_last()[0] == s[0]);
        assert(esc_str(s.drop_last()) == esc_char(s[0]) + esc_str(s.drop_last().drop_first()));
        assert(esc_str(s) =~= esc_str(s.drop_last()) + esc_char(s.last()));
    }
}

/// Reads one escape sequence; `i` points just after the backslash.
pub open spec fn unesc_escape(v: Seq<char>, i: int) -> Option<(char, int)> {
    if 0 <= i < v.len() {
        let c = v[i];
        if c == '"' {
            Some(('"', i + 1))
        } else if c == '\\' {
            Some(('\\', i + 1))
        } else if c == '/' {
            Some(('/', i + 1))
        } else if c == 'n' {
            Some(('\n', i + 1))
        } else if c == 't' {
            Some(('\t', i + 1))
        } else if c == 'r' {
            Some(('\r', i + 1))
        } else if c == 'b' {
            Some(('\u{8}', i + 1))
        } else if c == 'f' {
            Some(('\u{c}', i + 1))
        } else if c == 'u' {
            if i + 5 <= v.len() && is_hex(v[i + 1]) && is_hex(v[i + 2]) && is_hex(v[i + 3])
                && is_hex(v[i + 4]) && hex_val(v[i + 1]) == 0 && hex_val(v[i + 2]) == 0 {
                Some((((hex_val(v[i + 3]) * 16 + hex_val(v[i + 4])) as u8) as char, i + 5))
            } else {
                None
            }
        } else {
            None
        }
    } else {
        None
    }
}

/// Reads a JSON string body starting at `i` (just after the opening quote)
/// up to its closing quote; yields the unescaped content and the position
/// just after the closing quote.
pub open spec fn unesc(v: Seq<char>, i: int) -> Option<(Seq<char>, int)>
    decreases v.len() - i,
    when 0 <= i
{
    if i >= v.len() {
        None
    } else if v[i] == '"' {
        Some((Seq::<char>::empty(), i + 1))
    } else if v[i] == '\\' {
        match unesc_escape(v, i + 1) {
            None => None,
            Some((c, ni)) => if ni > i {
                match unesc(v, ni) {
                    None => None,
                    Some((s, e)) => Some((seq![c] + s, e)),
                }
            } else {
                None
            },
        }
    } else {
        match unesc(v, i + 1) {
            None => None,
            Some((s, e)) => Some((seq![v[i]] + s, e)),
        }
    }
}

/// What the reader gives back of what the escaper wrote: the same string.
pub proof fn lemma_unesc_esc(s: Seq<char>, v: Seq<char>, i: int)
    requires
        0 <= i,
        i + esc_str(s).len() + 1 <= v.len(),
        forall|j: int| 0 <= j < esc_str(s).len() ==> v[i + j] == esc_str(s)[j],
        v[i + esc_str(s).len()] == '"',
    ensures
        unesc(v, i) == Some((s, i + esc_str(s).len() + 1)),
    decreases s.len(),
{
    if s.len() == 0 {
        assert(v[i] == '"');
    } else {
        let c = s[0];
        let e = esc_char(c);
        let rest = s.drop_first();
        assert(esc_str(s) == e + esc_str(rest));
        assert forall|j: int| 0 <= j < e.len() implies v[i + j] == e[j] by {
            assert(esc_str(s)[j] == e[j]);
        }
        let ni = i + e.len();
        assert forall|j: int| 0 <= j < esc_str(rest).len() implies v[ni + j] == esc_str(rest)[j] by {
            assert(esc_str(s)[e.len() + j] == esc_str(rest)[j]);
            assert(v[i + (e.len() + j)] == esc_str(s)[e.len() + j]);
        }
        assert(v[ni + esc_str(rest).len()] == '"');
        lemma_unesc_esc(rest, v, ni);
        if c == '"' {
            assert(v[i] == '\\' && v[i + 1] == '"');
            assert(unesc_escape(v, i + 1) == Some((c, i + 2)));
            assert(seq![c] + rest =~= s);
        } else if c == '\\' {
            assert(v[i] == '\\' && v[i + 1] == '\\');
            assert(unesc_escape(v, i + 1) == Some((c, i + 2)));
            assert(seq![c] + rest =~= s);
        } else if (c as u32) < 32 {
            assert(v[i] == '\\' && v[i + 1] == 'u' && v[i + 2] == '0' && v[i + 3] == '0');
            let hi = ((c as u32) / 16) as nat;
            let lo = ((c as u32) % 16) as nat;
            assert(v[i + 4] == hex_char(hi) && v[i + 5] == hex_char(lo));
            lemma_hex_roundtrip(hi);
            lemma_hex_roundtrip(lo);
            assert(hex_val(v[i + 2]) == 0 && hex_val(v[i + 3]) == 0);
            assert(hex_val(v[i + 4]) * 16 + hex_val(v[i + 5]) == c as u32);
            assert((((c as u32) as u8) as char) == c) by {
                let b = (c as u32) as u8;
                assert(b as u32 == c as u32);
                let c2 = b as char;
                assert(c2 as u32 == b as u32);
                vstd::utf8::char_u32_cast(c2, c2 as u32);
                vstd::utf8::char_u32_cast(c, c as u32);
                assert((c2 as u32) as char == (c as u32) as char);
            }
            assert(unesc_escape(v, i + 1) == Some((c, i + 6)));
            assert(seq![c] + rest =~= s);
        } else {
            assert(e[0] == c);
            assert(v[i + 0] == e[0]);
            assert(v[i] == c);
            assert(c != '"' && c != '\\');
            assert(seq![c] + rest =~= s);
        }
    }
}

/// Reads the string literal starting at `from` (just after its opening
/// quote), following the specification `unesc` exactly.
pub fn parse_string_at(v: &Vec<char>, from: usize) -> (r: Option<(Vec<char>, usize)>)
    requires
        from <= v@.len(),
    ensures
        match r {
            Some((s, e)) => unesc(v@, from as int) == Some((s@, e as int)) && from < e <= v@.len(),
            None => unesc(v@, from as int) is None,
        },
{
    let mut acc: Vec<char> = Vec::new();
    let mut i: usize = from;
    loop
        invariant
            from <= i <= v@.len(),
            unesc(v@, from as int) == match unesc(v@, i as int) {
                Option::<(Seq<char>, int)>::None => Option::<(Seq<char>, int)>::None,
                Option::<(Seq<char>, int)>::Some((s, e)) => Some((acc@ + s, e)),
            },
        decreases v@.len() - i,
    {
        if i >= v.len() {
            return None;
        }
        let c = v[i];
        if c == '"' {
            proof {
                assert(acc@ + Seq::<char>::empty() =~= acc@);
            }
            return Some((acc, i + 1));
        } else if c == '\\' {
            if i + 1 >= v.len() {
                return None;
            }
            let d = v[i + 1];
            let dec: Option<(char, usize)> = if d == '"' {
                Some(('"', i + 2))
            } else if d == '\\' {
                Some(('\\', i + 2))
            } else if d == '/' {
                Some(('/', i + 2))
            } else if d == 'n' {
                Some(('\n', i + 2))
            } else if d == 't' {
                Some(('\t', i + 2))
            } else if d == 'r' {
                Some(('\r', i + 2))
            } else if d == 'b' {
                Some(('\u{8}', i + 2))
            } else if d == 'f' {
                Some(('\u{c}', i + 2))
            } else if d == 'u' {
                if v.len() >= 6 && i <= v.len() - 6 && is_hex_exec(v[i + 2]) && is_hex_exec(v[i + 3])
                    && is_hex_exec(v[i + 4]) && is_hex_exec(v[i + 5]) && hex_val_exec(v[i + 2]) == 0
                    && hex_val_exec(v[i + 3]) == 0 {
                    let h = hex_val_exec(v[i + 4]) * 16 + hex_val_exec(v[i + 5]);
                    Some(((h as u8) as char, i + 6))
                } else {
                    None
                }
            } else {
                None
            };
            proof {
                assert(unesc_escape(v@, i + 1) == match dec {
                    Option::<(char, usize)>::None => Option::<(char, int)>::None,
                    Option::<(char, usize)>::Some((ch, ni)) => Some((ch, ni as int)),
                });
            }
            match dec {
                None => {
                    return None;
                },
                Some((ch, ni)) => {
                    let ghost prev_acc = acc@;
                    acc.push(ch);
                    proof {
                        if let Some((s2, e2)) = unesc(v@, ni as int) {
                            assert(prev_acc + (seq![ch] + s2) =~= acc@ + s2);
                        }
                    }
                    i = ni;
                },
            }
        } else {
            let ghost prev_acc = acc@;
            acc.push(c);
            proof {
                if let Some((s2, e2)) = unesc(v@, i + 1) {
                    assert(prev_acc + (seq![c] + s2) =~= acc@ + s2);
                }
            }
            i = i + 1;
        }
    }
}

/// Whether a character is insignificant JSON whitespace.
pub open spec fn is_ws(c: char) -> bool {
    c == ' ' || c == '\t' || c == '\n' || c == '\r'
}

pub fn is_ws_exec(c: char) -> (r: bool)
    ensures
        r == is_ws(c),
{
    c == ' ' || c == '\t' || c == '\n' || c == '\r'
}

/// Where whitespace starting at `i` ends.
pub open spec fn skip_ws_spec(v: Seq<char>, i: int) -> int
    decreases v.len() - i,
    when 0 <= i <= v.len()
{
    if i < v.len() && is_ws(v[i]) {
        skip_ws_spec(v, i + 1)
    } else {
        i
    }
}

/// Advances past whitespace.
pub fn skip_ws(v: &Vec<char>, from: usize) -> (r: usize)
    requires
        from <= v@.len(),
    ensures
        r == skip_ws_spec(v@, from as int),
        from <= r <= v@.len(),
        r < v@.len() ==> !is_ws(v@[r as int]),
        forall|j: int| from <= j < r ==> is_ws(#[trigger] v@[j]),
{
    let mut i: usize = from;
    while i < v.len() && is_ws_exec(v[i])
        invariant
            from <= i <= v@.len(),
            skip_ws_spec(v@, from as int) == skip_ws_spec(v@, i as int),
            forall|j: int| from <= j < i ==> is_ws(#[trigger] v@[j]),
        decreases v@.len() - i,
    {
        i += 1;
    }
    i
}

/// Where a bare token (a number, `true`, `false` or `null`) ends: the
/// first delimiter or whitespace at or after `i`.
pub open spec fn token_end_spec(v: Seq<char>, i: int) -> int
    decreases v.len() - i,
    when 0 <= i <= v.len()
{
    if i < v.len() && v[i] != ',' && v[i] != '}' && v[i] != ']' && !is_ws(v[i]) {
        token_end_spec(v, i + 1)
    } else {
        i
    }
}

/// Crossing nested structure: the position just after the bracket that
/// closes `depth` open brackets, with string literals crossed whole.
pub open spec fn skip_depth_spec(v: Seq<char>, i: int, depth: nat) -> Option<int>
    decreases v.len() - i,
    when 0 <= i
{
    if depth == 0 {
        Some(i)
    } else if i >= v.len() {
        None
    } else if v[i] == '"' {
        match unesc(v, i + 1) {
            None => None,
            Some((s, e)) => if i < e <= v.len() {
                skip_depth_spec(v, e, depth)
            } else {
                None
            },
        }
    } else if v[i] == '{' || v[i] == '[' {
        if depth >= usize::MAX as nat {
            None
        } else {
            skip_depth_spec(v, i + 1, depth + 1)
        }
    } else if v[i] == '}' || v[i] == ']' {
        skip_depth_spec(v, i + 1, (depth - 1) as nat)
    } else {
        skip_depth_spec(v, i + 1, depth)
    }
}

/// Where the JSON value starting at `i` ends.
pub open spec fn skip_value_spec(v: Seq<char>, i: int) -> Option<int> {
    if i >= v.len() {
        None
    } else if v[i] == '"' {
        match unesc(v, i + 1) {
            None => None,
            Some((s, e)) => Some(e),
        }
    } else if v[i] == '{' || v[i] == '[' {
        skip_depth_spec(v, i + 1, 1)
    } else if v[i] == '}' || v[i] == ']' || v[i] == ',' || v[i] == ':' {
        None
    } else {
        Some(token_end_spec(v, i + 1))
    }
}

/// Skips one complete JSON value starting at `from`, returning the position
/// just after it. Structure is tracked by nesting depth; string literals are
/// crossed with their escapes. Returns `None` when the text ends before the
/// value is closed or no value starts here.
pub fn skip_json_value(v: &Vec<char>, from: usize) -> (r: Option<usize>)
    requires
        from <= v@.len(),
    ensures
        match r {
            Some(e) => skip_value_spec(v@, from as int) == Some(e as int) && from < e <= v@.len(),
            None => skip_value_spec(v@, from as int) is None,
        },
{
    if from >= v.len() {
        return None;
    }
    let c = v[from];
    if c == '"' {
        match parse_string_at(v, from + 1) {
            Some((_, e)) => {
                proof {
                    assert(skip_value_spec(v@, from as int) == Some(e as int));
                }
                Some(e)
            },
            None => {
                proof {
                    assert(skip_value_spec(v@, from as int) is None);
                }
                None
            },
        }
    } else if c == '{' || c == '[' {
        let mut depth: usize = 1;
        let mut i: usize = from + 1;
        while depth > 0
            invariant
                from < i <= v@.len(),
                depth <= i,
                skip_value_spec(v@, from as int) == skip_depth_spec(v@, from + 1, 1nat),
                skip_depth_spec(v@, from + 1, 1nat) == skip_depth_spec(v@, i as int, depth as nat),
            decreases v@.len() - i, depth,
        {
            if i >= v.len() {
                return None;
            }
            let c2 = v[i];
            if c2 == '"' {
                match parse_string_at(v, i + 1) {
                    Some((_, e)) => {
                        proof {
                            assert(skip_depth_spec(v@, i as int, depth as nat) == skip_depth_spec(
                                v@,
                                e as int,
                                depth as nat,
                            ));
                        }
                        i = e;
                    },
                    None => {
                        return None;
                    },
                }
            } else if c2 == '{' || c2 == '[' {
                if depth == usize::MAX {
                    return None;
                }
                depth += 1;
                i += 1;
            } else if c2 == '}' || c2 == ']' {
                depth -= 1;
                i += 1;
            } else {
                i += 1;
            }
        }
        proof {
            assert(skip_depth_spec(v@, i as int, 0nat) == Some(i as int));
            assert(skip_value_spec(v@, from as int) == Some(i as int));
        }
        Some(i)
    } else if c == '}' || c == ']' || c == ',' || c == ':' {
        None
    } else {
        // a number, `true`, `false` or `null`: runs to the next delimiter
        let mut i: usize = from + 1;
        while i < v.len() && v[i] != ',' && v[i] != '}' && v[i] != ']' && !is_ws_exec(v[i])
            invariant
                from < i <= v@.len(),
                token_end_spec(v@, from + 1) == token_end_spec(v@, i as int),
            decreases v@.len() - i,
        {
            i += 1;
        }
        proof {
            assert(token_end_spec(v@, i as int) == i as int);
            assert(skip_value_spec(v@, from as int) == Some(i as int));
        }
        Some(i)
    }
}

/// Copies `v[from..to]` into a fresh vector.
pub fn subrange_vec(v: &Vec<char>, from: usize, to: usize) -> (r: Vec<char>)
    requires
        from <= to <= v@.len(),
    ensures
        r@ == v@.subrange(from as int, to as int),
{
    let mut out: Vec<char> = Vec::new();
    let mut i: usize = from;
    while i < to
        invariant
            from <= i <= to <= v@.len(),
            out@ == v@.subrange(from as int, i as int),
        decreases to - i,
    {
        out.push(v[i]);
        i += 1;
        proof {
            assert(out@ =~= v@.subrange(from as int, i as int));
        }
    }
    out
}

/// One `"key": value` pair after another, left to right, until the key
/// matches; mirrors the scan below it.
pub open spec fn field_pairs_spec(v: Seq<char>, key: Seq<char>, i: int) -> Option<(int, int)>
    decreases v.len() - i,
    when 0 <= i
{
    if i >= v.len() || v[i] != '"' {
        None
    } else {
        match unesc(v, i + 1) {
            None => None,
            Some((name, after)) => if !(0 <= after <= v.len()) {
                None
            } else {
                let j = skip_ws_spec(v, after);
                if j >= v.len() || v[j] != ':' {
                    None
                } else {
                    let js = skip_ws_spec(v, j + 1);
                    match skip_value_spec(v, js) {
                        None => None,
                        Some(ve) => if name == key {
                            Some((js, ve))
                        } else if !(0 <= ve <= v.len()) {
                            None
                        } else {
                            let j2 = skip_ws_spec(v, ve);
                            if j2 >= v.len() {
                                None
                            } else if v[j2] == '}' {
                                None
                            } else if v[j2] != ',' {
                                None
                            } else {
                                let i2 = skip_ws_spec(v, j2 + 1);
                                if i2 <= js || i2 <= i || i2 > v.len() {
                                    None
                                } else {
                                    field_pairs_spec(v, key, i2)
                                }
                            }
                        },
                    }
                }
            },
        }
    }
}

/// The extent of the value of `key` in the object spanning `v`.
pub open spec fn find_field_spec(v: Seq<char>, key: Seq<char>) -> Option<(int, int)> {
    let i0 = skip_ws_spec(v, 0);
    if i0 >= v.len() || v[i0] != '{' {
        None
    } else {
        let i1 = skip_ws_spec(v, i0 + 1);
        if i1 < v.len() && v[i1] == '}' {
            None
        } else {
            field_pairs_spec(v, key, i1)
        }
    }
}

/// The extent of one top-level field value inside the JSON object that spans
/// `v` in full: looks `key` up and returns `(start, end)` of its value text.
/// The object is scanned left to right; the first matching key wins.
pub fn find_object_field(v: &Vec<char>, key: &Vec<char>) -> (r: Option<(usize, usize)>)
    ensures
        match r {
            Some((s, e)) => find_field_spec(v@, key@) == Some((s as int, e as int)) && s < e
                <= v@.len(),
            None => find_field_spec(v@, key@) is None,
        },
{
    let mut i: usize = skip_ws(v, 0);
    if i >= v.len() || v[i] != '{' {
        return None;
    }
    i = skip_ws(v, i + 1);
    if i < v.len() && v[i] == '}' {
        return None;
    }
    loop
        invariant
            i <= v@.len(),
            find_field_spec(v@, key@) == field_pairs_spec(v@, key@, i as int),
        decreases v@.len() - i,
    {
        // each turn consumes one `"key": value` pair, so the position grows
        if i >= v.len() || v[i] != '"' {
            return None;
        }
        let ghost i_at = i as int;
        let (name, after_key) = match parse_string_at(v, i + 1) {
            Some(p) => p,
            None => {
                return None;
            },
        };
        let mut j: usize = skip_ws(v, after_key);
        if j >= v.len() || v[j] != ':' {
            return None;
        }
        j = skip_ws(v, j + 1);
        let vs = j;
        let ve = match skip_json_value(v, j) {
            Some(e) => e,
            None => {
                proof {
                    assert(field_pairs_spec(v@, key@, i_at) is None);
                }
                return None;
            },
        };
        if crate::text::chars_eq(&name, key) {
            proof {
                assert(field_pairs_spec(v@, key@, i_at) == Some((vs as int, ve as int)));
            }
            return Some((vs, ve));
        }
        j = skip_ws(v, ve);
        if j >= v.len() {
            return None;
        }
        if v[j] == '}' {
            return None;
        }
        if v[j] != ',' {
            return None;
        }
        i = skip_ws(v, j + 1);
        if i <= vs {
            // no progress can only mean malformed text; stop
            proof {
                assert(field_pairs_spec(v@, key@, i_at) is None);
            }
            return None;
        }
        proof {
            assert(i > vs && vs as int > i_at);
            assert(field_pairs_spec(v@, key@, i_at) == field_pairs_spec(v@, key@, i as int));
        }
    }
}

/// Whether the characters `v[s..e]` spell exactly the literal `lit`.
pub fn extent_is(v: &Vec<char>, s: usize, e: usize, lit: &str) -> (r: bool)
    requires
        s <= e <= v@.len(),
    ensures
        r == (v@.subrange(s as int, e as int) == lit@),
{
    let lv = crate::text::chars_vec(lit);
    let sub = subrange_vec(v, s, e);
    crate::text::chars_eq(&sub, &lv)
}

/// The unescaped content of a string value starting at `s`.
pub open spec fn string_content_spec(v: Seq<char>, s: int) -> Option<Seq<char>> {
    if 0 <= s < v.len() && v[s] == '"' {
        match unesc(v, s + 1) {
            Some((c, e)) => Some(c),
            None => None,
        }
    } else {
        None
    }
}

/// The unescaped content of a string field value whose extent is known.
pub fn string_field_content(v: &Vec<char>, s: usize, e: usize) -> (r: Option<Vec<char>>)
    requires
        s < e <= v@.len(),
    ensures
        match r {
            Some(c) => string_content_spec(v@, s as int) == Some(c@),
            None => string_content_spec(v@, s as int) is None,
        },
{
    if v[s] != '"' {
        return None;
    }
    match parse_string_at(v, s + 1) {
        Some((content, _)) => Some(content),
        None => None,
    }
}

/// The unescaped content of the string value of `key`, when the field is
/// there and is a string.
pub open spec fn spec_string_field(v: Seq<char>, key: Seq<char>) -> Option<Seq<char>> {
    match find_field_spec(v, key) {
        None => None,
        Some((s, e)) => string_content_spec(v, s),
    }
}

/// The raw text of the value of `key`; an absent field reads as empty.
pub open spec fn spec_raw_field(v: Seq<char>, key: Seq<char>) -> Seq<char> {
    match find_field_spec(v, key) {
        None => Seq::<char>::empty(),
        Some((s, e)) => v.subrange(s, e),
    }
}

/// The numeric reading of the value extent `[s, e)`: a nonempty digit run
/// whose value fits.
pub open spec fn num_extent(v: Seq<char>, s: int, e: int) -> Option<u64> {
    if 0 <= s < e <= v.len() && crate::text::all_digits(v.subrange(s, e)) && crate::text::dec_val(
        v.subrange(s, e),
    ) <= u64::MAX {
        Some(crate::text::dec_val(v.subrange(s, e)) as u64)
    } else {
        None
    }
}

/// The numeric value of `key`, or the default when the field is absent or
/// not a plain number in range.
pub open spec fn spec_u64_field_or(v: Seq<char>, key: Seq<char>, d: u64) -> u64 {
    match find_field_spec(v, key) {
        None => d,
        Some((s, e)) => match num_extent(v, s, e) {
            Some(n) => n,
            None => d,
        },
    }
}

} // verus!
