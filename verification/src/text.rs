//! Character-level building blocks of the wire formats: JSON whitespace,
//! canonical decimal numerals and separator-delimited fields.
//!
//! Everything here is stated over `Seq<char>`, the view of a string.
use vstd::prelude::*;
use vstd::string::*;

verus! {

broadcast use vstd::string::group_string_axioms;

/// The four characters that JSON treats as insignificant whitespace.
pub open spec fn is_space(c: char) -> bool {
    c == ' ' || c == '\t' || c == '\n' || c == '\r'
}

/// `s` without its leading whitespace.
pub open spec fn trim_start(s: Seq<char>) -> Seq<char>
    decreases s.len(),
{
    if s.len() > 0 && is_space(s[0]) {
        trim_start(s.drop_first())
    } else {
        s
    }
}

/// `s` without its trailing whitespace.
pub open spec fn trim_end(s: Seq<char>) -> Seq<char>
    decreases s.len(),
{
    if s.len() > 0 && is_space(s.last()) {
        trim_end(s.drop_last())
    } else {
        s
    }
}

/// `s` without the whitespace around it.
pub open spec fn trim(s: Seq<char>) -> Seq<char> {
    trim_end(trim_start(s))
}

/// A text that neither starts nor ends with whitespace is its own trimming.
pub proof fn lemma_trim_tight(s: Seq<char>)
    requires
        s.len() > 0 ==> !is_space(s[0]) && !is_space(s.last()),
    ensures
        trim(s) == s,
{
}

/// The decimal digit that stands for `d`, for `d` below ten.
pub open spec fn digit_char(d: nat) -> char {
    if d == 0 {
        '0'
    } else if d == 1 {
        '1'
    } else if d == 2 {
        '2'
    } else if d == 3 {
        '3'
    } else if d == 4 {
        '4'
    } else if d == 5 {
        '5'
    } else if d == 6 {
        '6'
    } else if d == 7 {
        '7'
    } else if d == 8 {
        '8'
    } else {
        '9'
    }
}

/// Whether `c` is one of the ten decimal digits.
pub open spec fn is_digit(c: char) -> bool {
    c == '0' || c == '1' || c == '2' || c == '3' || c == '4' || c == '5' || c == '6' || c == '7'
        || c == '8' || c == '9'
}

/// The number a decimal digit stands for (0 for any other character).
pub open spec fn digit_value(c: char) -> nat {
    if c == '1' {
        1
    } else if c == '2' {
        2
    } else if c == '3' {
        3
    } else if c == '4' {
        4
    } else if c == '5' {
        5
    } else if c == '6' {
        6
    } else if c == '7' {
        7
    } else if c == '8' {
        8
    } else if c == '9' {
        9
    } else {
        0
    }
}

/// The canonical decimal numeral of `n`: no sign, no leading zero.
pub open spec fn decimal(n: nat) -> Seq<char>
    decreases n,
{
    if n < 10 {
        seq![digit_char(n)]
    } else {
        decimal(n / 10).push(digit_char(n % 10))
    }
}

/// Whether `s` is a canonical decimal numeral.
pub open spec fn is_numeral(s: Seq<char>) -> bool {
    &&& s.len() >= 1
    &&& forall|i: int| 0 <= i < s.len() ==> is_digit(#[trigger] s[i])
    &&& s.len() > 1 ==> s[0] != '0'
}

/// The number that a string of digits denotes, most significant digit first.
pub open spec fn numeral_value(s: Seq<char>) -> nat
    decreases s.len(),
{
    if s.len() == 0 {
        0
    } else {
        numeral_value(s.drop_last()) * 10 + digit_value(s.last())
    }
}

/// Every number has a canonical numeral, and the numeral denotes the number.
pub proof fn lemma_decimal_is_numeral(n: nat)
    ensures
        is_numeral(decimal(n)),
        numeral_value(decimal(n)) == n,
        n > 0 ==> decimal(n)[0] != '0',
    decreases n,
{
    if n < 10 {
        let s = decimal(n);
        assert(s.drop_last() =~= Seq::<char>::empty());
        assert(numeral_value(s.drop_last()) == 0);
    } else {
        lemma_decimal_is_numeral(n / 10);
        let p = decimal(n / 10);
        let s = decimal(n);
        assert(s == p.push(digit_char(n % 10)));
        assert(s.drop_last() =~= p);
        assert(s[0] == p[0]);
        assert forall|i: int| 0 <= i < s.len() implies is_digit(#[trigger] s[i]) by {
            if i < p.len() {
                assert(s[i] == p[i]);
            }
        }
    }
}

/// A numeral with a significant leading digit denotes a positive number.
proof fn lemma_numeral_positive(s: Seq<char>)
    requires
        s.len() >= 1,
        forall|i: int| 0 <= i < s.len() ==> is_digit(#[trigger] s[i]),
        s[0] != '0',
    ensures
        numeral_value(s) >= 1,
    decreases s.len(),
{
    if s.len() == 1 {
        assert(s.drop_last() =~= Seq::<char>::empty());
        assert(numeral_value(s.drop_last()) == 0);
        assert(is_digit(s[0]));
    } else {
        let p = s.drop_last();
        assert(p[0] == s[0]);
        assert forall|i: int| 0 <= i < p.len() implies is_digit(#[trigger] p[i]) by {
            assert(p[i] == s[i]);
        }
        lemma_numeral_positive(p);
    }
}

/// A canonical numeral is the numeral of the number it denotes.
pub proof fn lemma_numeral_is_decimal(s: Seq<char>)
    requires
        is_numeral(s),
    ensures
        decimal(numeral_value(s)) == s,
    decreases s.len(),
{
    let p = s.drop_last();
    let c = s.last();
    assert(is_digit(c));
    assert(digit_char(digit_value(c)) == c);
    if s.len() == 1 {
        assert(p =~= Seq::<char>::empty());
        assert(numeral_value(p) == 0);
        assert(numeral_value(s) == digit_value(c));
        assert(decimal(numeral_value(s)) =~= s);
    } else {
        assert(p[0] == s[0]);
        assert forall|i: int| 0 <= i < p.len() implies is_digit(#[trigger] p[i]) by {
            assert(p[i] == s[i]);
        }
        lemma_numeral_positive(p);
        lemma_numeral_is_decimal(p);
        let v = numeral_value(s);
        assert(v == numeral_value(p) * 10 + digit_value(c));
        assert(v >= 10);
        assert(v / 10 == numeral_value(p));
        assert(v % 10 == digit_value(c));
        assert(decimal(v) == decimal(v / 10).push(digit_char(v % 10)));
        assert(p.push(c) =~= s);
    }
}

/// Two numbers with the same numeral are the same number.
pub proof fn lemma_decimal_injective(a: nat, b: nat)
    requires
        decimal(a) == decimal(b),
    ensures
        a == b,
{
    lemma_decimal_is_numeral(a);
    lemma_decimal_is_numeral(b);
}

/// A string of digits denotes at least what any of its prefixes denotes.
proof fn lemma_numeral_prefix(s: Seq<char>, k: int)
    requires
        0 <= k <= s.len(),
    ensures
        numeral_value(s.take(k)) <= numeral_value(s),
    decreases s.len() - k,
{
    if k == s.len() {
        assert(s.take(k) =~= s);
    } else {
        lemma_numeral_prefix(s, k + 1);
        assert(s.take(k + 1).drop_last() =~= s.take(k));
    }
}

/// The one-character text of a digit.
fn digit_str(d: usize) -> (s: &'static str)
    requires
        d < 10,
    ensures
        s@ == seq![digit_char(d as nat)],
{
    proof {
        reveal_strlit("0");
        reveal_strlit("1");
        reveal_strlit("2");
        reveal_strlit("3");
        reveal_strlit("4");
        reveal_strlit("5");
        reveal_strlit("6");
        reveal_strlit("7");
        reveal_strlit("8");
        reveal_strlit("9");
    }
    let s = if d == 0 {
        "0"
    } else if d == 1 {
        "1"
    } else if d == 2 {
        "2"
    } else if d == 3 {
        "3"
    } else if d == 4 {
        "4"
    } else if d == 5 {
        "5"
    } else if d == 6 {
        "6"
    } else if d == 7 {
        "7"
    } else if d == 8 {
        "8"
    } else {
        "9"
    };
    assert(s@ =~= seq![digit_char(d as nat)]);
    s
}

/// Renders `n` as its canonical decimal numeral.
pub fn decimal_string_u64(n: u64) -> (s: String)
    ensures
        s@ == decimal(n as nat),
    decreases n,
{
    if n < 10 {
        String::from_str(digit_str(n as usize))
    } else {
        let mut s = decimal_string_u64(n / 10);
        s.append(digit_str((n % 10) as usize));
        assert(s@ =~= decimal((n / 10) as nat).push(digit_char((n % 10) as nat)));
        s
    }
}

/// Renders `n` as its canonical decimal numeral.
pub fn decimal_string(n: usize) -> (s: String)
    ensures
        s@ == decimal(n as nat),
{
    decimal_string_u64(n as u64)
}

/// The decimal numeral of an integer: a minus sign before the numeral of
/// its magnitude if it is negative.
pub open spec fn signed_decimal(n: int) -> Seq<char> {
    if n < 0 {
        seq!['-'] + decimal((-n) as nat)
    } else {
        decimal(n as nat)
    }
}

/// Renders `n` as its decimal numeral.
pub fn signed_decimal_string(n: i64) -> (s: String)
    ensures
        s@ == signed_decimal(n as int),
{
    if n >= 0 {
        decimal_string_u64(n as u64)
    } else {
        let magnitude: u64 = (-(n + 1)) as u64 + 1;
        let mut s = String::from_str("-");
        let digits = decimal_string_u64(magnitude);
        s.append(digits.as_str());
        proof {
            reveal_strlit("-");
            assert(s@ =~= seq!['-'] + decimal((-n) as nat));
        }
        s
    }
}

/// The hexadecimal digit, in lower case, that stands for `d`, for `d`
/// below sixteen.
pub open spec fn hex_char(d: nat) -> char {
    if d < 10 {
        digit_char(d)
    } else if d == 10 {
        'a'
    } else if d == 11 {
        'b'
    } else if d == 12 {
        'c'
    } else if d == 13 {
        'd'
    } else if d == 14 {
        'e'
    } else {
        'f'
    }
}

/// How a character stands inside a JSON string: the quotation mark, the
/// backslash and the control characters are escaped, the latter by their
/// short forms where JSON has one and by `\u00` and two hexadecimal digits
/// where it has none; every other character stands for itself.
pub open spec fn escape(c: char) -> Seq<char> {
    if c == '"' {
        seq!['\\', '"']
    } else if c == '\\' {
        seq!['\\', '\\']
    } else if c == '\n' {
        seq!['\\', 'n']
    } else if c == '\r' {
        seq!['\\', 'r']
    } else if c == '\t' {
        seq!['\\', 't']
    } else if c == '\u{8}' {
        seq!['\\', 'b']
    } else if c == '\u{c}' {
        seq!['\\', 'f']
    } else if (c as u32) < 0x20 {
        seq!['\\', 'u', '0', '0', hex_char((c as u32 / 16) as nat), hex_char((c as u32 % 16) as nat)]
    } else {
        seq![c]
    }
}

/// The characters of `s` as they stand inside a JSON string.
pub open spec fn escaped(s: Seq<char>) -> Seq<char>
    decreases s.len(),
{
    if s.len() == 0 {
        Seq::empty()
    } else {
        escaped(s.drop_last()) + escape(s.last())
    }
}

/// The JSON string that holds `s`.
pub open spec fn json_string(s: Seq<char>) -> Seq<char> {
    seq!['"'] + escaped(s) + seq!['"']
}

/// The one-character text of a hexadecimal digit.
fn hex_str(d: u32) -> (s: &'static str)
    requires
        d < 16,
    ensures
        s@ == seq![hex_char(d as nat)],
{
    if d < 10 {
        digit_str(d as usize)
    } else {
        proof {
            reveal_strlit("a");
            reveal_strlit("b");
            reveal_strlit("c");
            reveal_strlit("d");
            reveal_strlit("e");
            reveal_strlit("f");
        }
        let s = if d == 10 {
            "a"
        } else if d == 11 {
            "b"
        } else if d == 12 {
            "c"
        } else if d == 13 {
            "d"
        } else if d == 14 {
            "e"
        } else {
            "f"
        };
        assert(s@ =~= seq![hex_char(d as nat)]);
        s
    }
}

/// Appends to `out` the character `c` of `s`, which stands at `i`, as it
/// stands inside a JSON string.
fn push_escaped(out: &mut String, s: &str, i: usize, c: char)
    requires
        i < s@.len(),
        i < usize::MAX,
        s@[i as int] == c,
    ensures
        final(out)@ == old(out)@ + escape(c),
{
    proof {
        reveal_strlit("\\\"");
        reveal_strlit("\\\\");
        reveal_strlit("\\n");
        reveal_strlit("\\r");
        reveal_strlit("\\t");
        reveal_strlit("\\b");
        reveal_strlit("\\f");
        reveal_strlit("\\u00");
    }
    let code: u32 = c as u32;
    if c == '"' {
        out.append("\\\"");
        assert(out@ =~= old(out)@ + escape(c));
    } else if c == '\\' {
        out.append("\\\\");
        assert(out@ =~= old(out)@ + escape(c));
    } else if c == '\n' {
        out.append("\\n");
        assert(out@ =~= old(out)@ + escape(c));
    } else if c == '\r' {
        out.append("\\r");
        assert(out@ =~= old(out)@ + escape(c));
    } else if c == '\t' {
        out.append("\\t");
        assert(out@ =~= old(out)@ + escape(c));
    } else if c == '\u{8}' {
        out.append("\\b");
        assert(out@ =~= old(out)@ + escape(c));
    } else if c == '\u{c}' {
        out.append("\\f");
        assert(out@ =~= old(out)@ + escape(c));
    } else if code < 32 {
        out.append("\\u00");
        out.append(hex_str(code / 16));
        out.append(hex_str(code % 16));
        assert(out@ =~= old(out)@ + escape(c));
    } else {
        out.append(s.substring_char(i, i + 1));
        assert(s@.subrange(i as int, i + 1) =~= seq![c]);
        assert(out@ =~= old(out)@ + escape(c));
    }
}

/// Writes `s` as a JSON string.
pub fn json_string_of(s: &str) -> (out: String)
    ensures
        out@ == json_string(s@),
{
    let v = chars_of(s);
    let mut out = String::from_str("\"");
    proof {
        reveal_strlit("\"");
        assert(out@ =~= seq!['"'] + escaped(v@.take(0)));
    }
    let mut i: usize = 0;
    while i < v.len()
        invariant
            i <= v.len(),
            v@ == s@,
            out@ == seq!['"'] + escaped(v@.take(i as int)),
        decreases v.len() - i,
    {
        let ghost before = out@;
        push_escaped(&mut out, s, i, v[i]);
        proof {
            assert(v@.take(i + 1).drop_last() =~= v@.take(i as int));
            assert(v@.take(i + 1).last() == v@[i as int]);
            assert(out@ =~= seq!['"'] + escaped(v@.take(i + 1)));
        }
        i = i + 1;
    }
    out.append("\"");
    proof {
        assert(v@.take(v.len() as int) =~= v@);
        assert(out@ =~= json_string(s@));
    }
    out
}

/// The characters of `s`, in order.
pub fn chars_of(s: &str) -> (v: Vec<char>)
    ensures
        v@ == s@,
{
    let mut v: Vec<char> = Vec::new();
    for c in it: s.chars()
        invariant
            it.seq() == s@,
            v@ == s@.take(it.index() as int),
    {
        v.push(c);
    }
    v
}

/// The value of a decimal digit, or `None` for any other character.
fn digit_of(c: char) -> (d: Option<usize>)
    ensures
        d is Some <==> is_digit(c),
        d matches Some(v) ==> v == digit_value(c) && v < 10,
{
    if c == '0' {
        Some(0)
    } else if c == '1' {
        Some(1)
    } else if c == '2' {
        Some(2)
    } else if c == '3' {
        Some(3)
    } else if c == '4' {
        Some(4)
    } else if c == '5' {
        Some(5)
    } else if c == '6' {
        Some(6)
    } else if c == '7' {
        Some(7)
    } else if c == '8' {
        Some(8)
    } else if c == '9' {
        Some(9)
    } else {
        None
    }
}

/// Reads `v[from..to]` as a canonical decimal numeral that fits a `usize`.
///
/// Returns the number exactly when that stretch is the numeral of one.
pub fn parse_decimal(v: &Vec<char>, from: usize, to: usize) -> (r: Option<usize>)
    requires
        from <= to <= v.len(),
    ensures
        match r {
            Some(n) => v@.subrange(from as int, to as int) == decimal(n as nat),
            None => forall|n: usize| v@.subrange(from as int, to as int) != decimal(n as nat),
        },
{
    let ghost s = v@.subrange(from as int, to as int);
    if from == to {
        proof {
            assert forall|n: usize| s != decimal(n as nat) by {
                lemma_decimal_is_numeral(n as nat);
            }
        }
        return None;
    }
    if v[from] == '0' && to - from > 1 {
        proof {
            assert(s[0] == '0');
            assert forall|n: usize| s != decimal(n as nat) by {
                lemma_decimal_is_numeral(n as nat);
            }
        }
        return None;
    }
    let mut acc: usize = 0;
    let mut i: usize = from;
    while i < to
        invariant
            from <= i <= to <= v.len(),
            s == v@.subrange(from as int, to as int),
            acc == numeral_value(s.take(i - from)),
            forall|k: int| 0 <= k < i - from ==> is_digit(#[trigger] s[k]),
        decreases to - i,
    {
        let ghost k = i - from;
        proof {
            assert(s[k] == v@[i as int]);
            assert(s.take(k + 1).drop_last() =~= s.take(k));
            assert(s.take(k + 1).last() == s[k]);
        }
        match digit_of(v[i]) {
            None => {
                proof {
                    assert forall|n: usize| s != decimal(n as nat) by {
                        lemma_decimal_is_numeral(n as nat);
                    }
                }
                return None;
            },
            Some(d) => {
                if acc > (usize::MAX - d) / 10 {
                    proof {
                        assert(acc * 10 + d > usize::MAX);
                        lemma_numeral_prefix(s, k + 1);
                        assert forall|n: usize| s != decimal(n as nat) by {
                            lemma_decimal_is_numeral(n as nat);
                        }
                    }
                    return None;
                }
                acc = acc * 10 + d;
            },
        }
        i = i + 1;
    }
    proof {
        assert(s.take(to - from) =~= s);
        assert(is_numeral(s));
        lemma_numeral_is_decimal(s);
    }
    Some(acc)
}

/// Where the first `sep` of `s` stands, or `s.len()` when it has none.
pub open spec fn first_sep(s: Seq<char>, sep: char) -> int
    decreases s.len(),
{
    if s.len() == 0 || s[0] == sep {
        0
    } else {
        1 + first_sep(s.drop_first(), sep)
    }
}

/// `first_sep` is a position of `s`, no `sep` stands before it, and one
/// stands at it unless it is the end.
pub proof fn lemma_first_sep(s: Seq<char>, sep: char)
    ensures
        0 <= first_sep(s, sep) <= s.len(),
        forall|i: int| 0 <= i < first_sep(s, sep) ==> #[trigger] s[i] != sep,
        first_sep(s, sep) < s.len() ==> s[first_sep(s, sep)] == sep,
    decreases s.len(),
{
    if s.len() == 0 || s[0] == sep {
    } else {
        let t = s.drop_first();
        lemma_first_sep(t, sep);
        assert forall|i: int| 0 <= i < first_sep(s, sep) implies #[trigger] s[i] != sep by {
            if i > 0 {
                assert(s[i] == t[i - 1]);
            }
        }
    }
}

/// A position that holds `sep` after a stretch without it is `first_sep`.
pub proof fn lemma_first_sep_at(s: Seq<char>, sep: char, k: int)
    requires
        0 <= k <= s.len(),
        forall|i: int| 0 <= i < k ==> #[trigger] s[i] != sep,
        k < s.len() ==> s[k] == sep,
    ensures
        first_sep(s, sep) == k,
    decreases s.len(),
{
    if s.len() == 0 || s[0] == sep {
        if k > 0 {
            assert(s[0] != sep);
        }
    } else {
        let t = s.drop_first();
        assert(k > 0);
        assert forall|i: int| 0 <= i < k - 1 implies #[trigger] t[i] != sep by {
            assert(t[i] == s[i + 1]);
        }
        lemma_first_sep_at(t, sep, k - 1);
    }
}

/// Field number `n` (from 0) of `s` split at every `sep`; `None` when `s`
/// has `n` fields or fewer.
pub open spec fn nth_field(s: Seq<char>, sep: char, n: nat) -> Option<Seq<char>>
    decreases n,
{
    let k = first_sep(s, sep);
    if n == 0 {
        Some(s.take(k))
    } else if k >= s.len() {
        None
    } else {
        nth_field(s.skip(k + 1), sep, (n - 1) as nat)
    }
}

/// The first position at or after `from` that holds `sep`, or `v.len()`.
pub fn find_sep(v: &Vec<char>, sep: char, from: usize) -> (k: usize)
    requires
        from <= v.len(),
    ensures
        from <= k <= v.len(),
        k - from == first_sep(v@.skip(from as int), sep),
{
    let mut k: usize = from;
    while k < v.len() && v[k] != sep
        invariant
            from <= k <= v.len(),
            forall|i: int| from <= i < k ==> v@[i] != sep,
        decreases v.len() - k,
    {
        k = k + 1;
    }
    proof {
        let t = v@.skip(from as int);
        assert forall|i: int| 0 <= i < k - from implies #[trigger] t[i] != sep by {
            assert(t[i] == v@[from + i]);
        }
        lemma_first_sep_at(t, sep, k - from);
    }
    k
}

/// The bounds of field number `n` of `v` split at every `sep`.
pub fn field_bounds(v: &Vec<char>, sep: char, n: usize) -> (r: Option<(usize, usize)>)
    ensures
        match r {
            Some((a, b)) => a <= b <= v.len() && nth_field(v@, sep, n as nat) == Some(
                v@.subrange(a as int, b as int),
            ),
            None => nth_field(v@, sep, n as nat) is None,
        },
{
    let mut start: usize = 0;
    let mut left: usize = n;
    assert(v@.skip(0) =~= v@);
    loop
        invariant
            start <= v.len(),
            left <= n,
            nth_field(v@, sep, n as nat) == nth_field(v@.skip(start as int), sep, left as nat),
        decreases left,
    {
        let k = find_sep(v, sep, start);
        if left == 0 {
            proof {
                assert(v@.skip(start as int).take(k - start) =~= v@.subrange(
                    start as int,
                    k as int,
                ));
            }
            return Some((start, k));
        }
        if k >= v.len() {
            return None;
        }
        proof {
            assert(v@.skip(start as int).skip(k - start + 1) =~= v@.skip(k + 1));
        }
        start = k + 1;
        left = left - 1;
    }
}

/// The bounds of `v` without the whitespace around it.
pub fn trim_bounds(v: &Vec<char>) -> (r: (usize, usize))
    ensures
        r.0 <= r.1 <= v.len(),
        v@.subrange(r.0 as int, r.1 as int) == trim(v@),
{
    let mut a: usize = 0;
    assert(v@.skip(0) =~= v@);
    while a < v.len() && is_space_char(v[a])
        invariant
            a <= v.len(),
            trim_start(v@) == trim_start(v@.skip(a as int)),
        decreases v.len() - a,
    {
        proof {
            assert(v@.skip(a as int).drop_first() =~= v@.skip(a + 1));
        }
        a = a + 1;
    }
    let mut b: usize = v.len();
    proof {
        assert(v@.subrange(a as int, b as int) =~= v@.skip(a as int));
    }
    while b > a && is_space_char(v[b - 1])
        invariant
            a <= b <= v.len(),
            trim_start(v@) == v@.skip(a as int),
            trim(v@) == trim_end(v@.subrange(a as int, b as int)),
        decreases b - a,
    {
        proof {
            assert(v@.subrange(a as int, b as int).drop_last() =~= v@.subrange(
                a as int,
                b - 1,
            ));
        }
        b = b - 1;
    }
    (a, b)
}

/// Whether `c` is JSON whitespace.
pub fn is_space_char(c: char) -> (b: bool)
    ensures
        b == is_space(c),
{
    c == ' ' || c == '\t' || c == '\n' || c == '\r'
}

/// Whether `v[from..to]` spells `lit`.
pub fn spells(v: &Vec<char>, from: usize, to: usize, lit: &str) -> (b: bool)
    requires
        from <= to <= v.len(),
    ensures
        b == (v@.subrange(from as int, to as int) == lit@),
{
    let w = chars_of(lit);
    if w.len() != to - from {
        return false;
    }
    let ghost s = v@.subrange(from as int, to as int);
    let mut i: usize = 0;
    while i < w.len()
        invariant
            from <= to <= v.len(),
            w.len() == to - from,
            i <= w.len(),
            w@ == lit@,
            s == v@.subrange(from as int, to as int),
            forall|k: int| 0 <= k < i ==> s[k] == w@[k],
        decreases w.len() - i,
    {
        if v[from + i] != w[i] {
            assert(s[i as int] != w@[i as int]);
            return false;
        }
        i = i + 1;
    }
    assert(s =~= w@);
    true
}

} // verus!
