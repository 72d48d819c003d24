//! Character-level helpers shared by the parsers and formatters: token
//! scanning over a string's characters, search for the reserved `::`
//! separator, case-insensitive comparison, and decimal rendering of numbers.

use vstd::prelude::*;
use vstd::string::{StrSliceExecFns, StringExecFns};

verus! {

/// The characters the protocol treats as token separators.
pub open spec fn is_space_char(c: char) -> bool {
    c == ' ' || c == '\t' || c == '\n' || c == '\r'
}

fn is_space(c: char) -> (r: bool)
    ensures
        r == is_space_char(c),
{
    c == ' ' || c == '\t' || c == '\n' || c == '\r'
}

/// Index of the first non-space character at or after `from` (the length if
/// there is none).
pub open spec fn skip_spaces(s: Seq<char>, from: int) -> int
    decreases s.len() - from when 0 <= from <= s.len()
{
    if from < s.len() {
        if is_space_char(s[from]) {
            skip_spaces(s, from + 1)
        } else {
            from
        }
    } else {
        s.len() as int
    }
}

/// Index of the first space character at or after `from` (the length if
/// there is none); applied at a token start it yields the token's end.
pub open spec fn token_end(s: Seq<char>, from: int) -> int
    decreases s.len() - from when 0 <= from <= s.len()
{
    if from < s.len() {
        if is_space_char(s[from]) {
            from
        } else {
            token_end(s, from + 1)
        }
    } else {
        s.len() as int
    }
}

pub proof fn lemma_scan_bounds(s: Seq<char>, from: int)
    requires
        0 <= from <= s.len(),
    ensures
        from <= skip_spaces(s, from) <= s.len(),
        from <= token_end(s, from) <= s.len(),
        skip_spaces(s, from) < s.len() ==> !is_space_char(s[skip_spaces(s, from)]),
    decreases s.len() - from,
{
    if from < s.len() {
        lemma_scan_bounds(s, from + 1);
    }
}

fn skip_spaces_exec(s: &str, from: usize) -> (r: usize)
    requires
        from <= s@.len(),
    ensures
        r == skip_spaces(s@, from as int),
        from <= r <= s@.len(),
{
    let n = s.unicode_len();
    let mut i = from;
    while i < n
        invariant
            from <= i <= n,
            n == s@.len(),
            skip_spaces(s@, from as int) == skip_spaces(s@, i as int),
        decreases n - i,
    {
        if !is_space(s.get_char(i)) {
            return i;
        }
        i = i + 1;
    }
    i
}

fn token_end_exec(s: &str, from: usize) -> (r: usize)
    requires
        from <= s@.len(),
    ensures
        r == token_end(s@, from as int),
        from <= r <= s@.len(),
{
    let n = s.unicode_len();
    let mut i = from;
    while i < n
        invariant
            from <= i <= n,
            n == s@.len(),
            token_end(s@, from as int) == token_end(s@, i as int),
        decreases n - i,
    {
        if is_space(s.get_char(i)) {
            return i;
        }
        i = i + 1;
    }
    i
}

/// The bounds of the first whitespace-delimited token at or after `from`:
/// the token is `s.subrange(r.0, r.1)`, empty exactly when no token is left.
pub open spec fn token_at(s: Seq<char>, from: int) -> (int, int) {
    let a = skip_spaces(s, from);
    (a, token_end(s, a))
}

/// Extracts the first whitespace-delimited token at or after `from`, together
/// with the index just past it.
pub fn next_token(s: &str, from: usize) -> (r: (String, usize))
    requires
        from <= s@.len(),
    ensures
        ({
            let (a, b) = token_at(s@, from as int);
            r.0@ == s@.subrange(a, b) && r.1 == b && from <= b <= s@.len()
        }),
{
    proof {
        lemma_scan_bounds(s@, from as int);
    }
    let a = skip_spaces_exec(s, from);
    proof {
        lemma_scan_bounds(s@, a as int);
    }
    let b = token_end_exec(s, a);
    (s.substring_char(a, b).to_owned(), b)
}

/// Index of the first occurrence of `c` at or after `from` (the length if
/// there is none).
pub open spec fn find_char(s: Seq<char>, c: char, from: int) -> int
    decreases s.len() - from when 0 <= from <= s.len()
{
    if from < s.len() {
        if s[from] == c {
            from
        } else {
            find_char(s, c, from + 1)
        }
    } else {
        s.len() as int
    }
}

/// Index of the first occurrence of `c` at or after `from`.
pub fn find_char_exec(s: &str, c: char, from: usize) -> (r: usize)
    requires
        from <= s@.len(),
    ensures
        r == find_char(s@, c, from as int),
        from <= r <= s@.len(),
{
    let n = s.unicode_len();
    let mut i = from;
    while i < n
        invariant
            from <= i <= n,
            n == s@.len(),
            find_char(s@, c, from as int) == find_char(s@, c, i as int),
        decreases n - i,
    {
        if s.get_char(i) == c {
            return i;
        }
        i = i + 1;
    }
    i
}

/// Whether the two-character separator `::` stands at index `i`.
pub open spec fn sep_at(s: Seq<char>, i: int) -> bool {
    0 <= i && i + 2 <= s.len() && s[i] == ':' && s[i + 1] == ':'
}

/// Whether `::` occurs anywhere in `s`.
pub open spec fn contains_sep(s: Seq<char>) -> bool {
    exists|i: int| sep_at(s, i)
}

/// Index of the first `::` at or after `from` (the length if there is none).
pub open spec fn find_sep(s: Seq<char>, from: int) -> int
    decreases s.len() - from when 0 <= from <= s.len()
{
    if from + 2 <= s.len() {
        if s[from] == ':' && s[from + 1] == ':' {
            from
        } else {
            find_sep(s, from + 1)
        }
    } else {
        s.len() as int
    }
}

pub proof fn lemma_find_sep(s: Seq<char>, from: int)
    requires
        0 <= from <= s.len(),
    ensures
        from <= find_sep(s, from) <= s.len(),
        find_sep(s, from) < s.len() ==> sep_at(s, find_sep(s, from)),
        forall|i: int| from <= i < find_sep(s, from) ==> !sep_at(s, i),
        find_sep(s, from) == s.len() ==> forall|i: int| from <= i ==> !sep_at(s, i),
    decreases s.len() - from,
{
    if from + 2 <= s.len() && !(s[from] == ':' && s[from + 1] == ':') {
        lemma_find_sep(s, from + 1);
    }
}

fn find_sep_exec(s: &str, from: usize) -> (r: usize)
    requires
        from <= s@.len(),
    ensures
        r == find_sep(s@, from as int),
        from <= r <= s@.len(),
{
    let n = s.unicode_len();
    let mut i = from;
    while n >= 2 && i <= n - 2
        invariant
            from <= i <= n,
            n == s@.len(),
            find_sep(s@, from as int) == find_sep(s@, i as int),
        decreases n - i,
    {
        if s.get_char(i) == ':' && s.get_char(i + 1) == ':' {
            return i;
        }
        i = i + 1;
    }
    n
}

/// Splits off the part of `s` before the first `::` at or after `from`, and
/// the index just past that separator, if `s` contains one there.
pub fn split_at_sep(s: &str, from: usize) -> (r: (String, Option<usize>))
    requires
        from <= s@.len(),
    ensures
        ({
            let p = find_sep(s@, from as int);
            r.0@ == s@.subrange(from as int, p) && (match r.1 {
                Some(next) => p < s@.len() && next as int == p + 2 && next <= s@.len(),
                None => p == s@.len(),
            })
        }),
{
    let n = s.unicode_len();
    let p = find_sep_exec(s, from);
    proof {
        lemma_find_sep(s@, from as int);
    }
    let head = s.substring_char(from, p).to_owned();
    if p < n {
        (head, Some(p + 2))
    } else {
        (head, None)
    }
}

/// Character-by-character string equality; `==` on views.
pub fn str_eq(a: &str, b: &str) -> (r: bool)
    ensures
        r == (a@ == b@),
{
    let na = a.unicode_len();
    let nb = b.unicode_len();
    if na != nb {
        proof {
            assert(a@ != b@) by {
                if a@ == b@ {
                    assert(a@.len() == b@.len());
                }
            }
        }
        return false;
    }
    let mut i: usize = 0;
    while i < na
        invariant
            i <= na,
            na == a@.len(),
            na == b@.len(),
            forall|j: int| 0 <= j < i ==> a@[j] == b@[j],
        decreases na - i,
    {
        if a.get_char(i) != b.get_char(i) {
            proof {
                assert(a@ != b@) by {
                    if a@ == b@ {
                        assert(a@[i as int] == b@[i as int]);
                    }
                }
            }
            return false;
        }
        i = i + 1;
    }
    proof {
        assert(a@ =~= b@);
    }
    true
}

/// ASCII lower-casing of one character; other characters stay as they are.
pub open spec fn lower_char(c: char) -> char {
    if 65 <= c as u32 && c as u32 <= 90 {
        ((c as u8) + 32) as char
    } else {
        c
    }
}

/// ASCII lower-casing of a whole sequence.
pub open spec fn lower_seq(s: Seq<char>) -> Seq<char> {
    s.map_values(|c: char| lower_char(c))
}

fn lower_char_exec(c: char) -> (r: char)
    ensures
        r == lower_char(c),
{
    let u = c as u32;
    if 65 <= u && u <= 90 {
        ((u as u8) + 32) as char
    } else {
        c
    }
}

/// Whether `a`, lower-cased ASCII-wise, equals `b` (callers pass a lower-case
/// literal for `b`).
pub fn str_eq_lower(a: &str, b: &str) -> (r: bool)
    ensures
        r == (lower_seq(a@) == b@),
{
    let na = a.unicode_len();
    let nb = b.unicode_len();
    if na != nb {
        proof {
            assert(lower_seq(a@) != b@) by {
                if lower_seq(a@) == b@ {
                    assert(lower_seq(a@).len() == b@.len());
                }
            }
        }
        return false;
    }
    let mut i: usize = 0;
    while i < na
        invariant
            i <= na,
            na == a@.len(),
            na == b@.len(),
            forall|j: int| 0 <= j < i ==> lower_char(a@[j]) == b@[j],
        decreases na - i,
    {
        if lower_char_exec(a.get_char(i)) != b.get_char(i) {
            proof {
                assert(lower_seq(a@) != b@) by {
                    if lower_seq(a@) == b@ {
                        assert(lower_seq(a@)[i as int] == b@[i as int]);
                    }
                }
            }
            return false;
        }
        i = i + 1;
    }
    proof {
        assert(lower_seq(a@) =~= b@);
    }
    true
}

/// Index just past the last non-space character of `s[..upto]` (0 if they are
/// all spaces).
pub open spec fn trim_end_idx(s: Seq<char>, upto: int) -> int
    decreases upto when 0 <= upto <= s.len()
{
    if upto > 0 && is_space_char(s[upto - 1]) {
        trim_end_idx(s, upto - 1)
    } else {
        upto
    }
}

/// `s` with leading and trailing spaces removed.
pub open spec fn trim_seq(s: Seq<char>) -> Seq<char> {
    let a = skip_spaces(s, 0);
    let b = trim_end_idx(s, s.len() as int);
    if a < b {
        s.subrange(a, b)
    } else {
        Seq::empty()
    }
}

proof fn lemma_trim_end_bounds(s: Seq<char>, upto: int)
    requires
        0 <= upto <= s.len(),
    ensures
        0 <= trim_end_idx(s, upto) <= upto,
    decreases upto,
{
    if upto > 0 && is_space_char(s[upto - 1]) {
        lemma_trim_end_bounds(s, upto - 1);
    }
}

fn trim_end_exec(s: &str) -> (r: usize)
    ensures
        r == trim_end_idx(s@, s@.len() as int),
        r <= s@.len(),
{
    let n = s.unicode_len();
    let mut i = n;
    while i > 0
        invariant
            i <= n,
            n == s@.len(),
            trim_end_idx(s@, n as int) == trim_end_idx(s@, i as int),
        decreases i,
    {
        if !is_space(s.get_char(i - 1)) {
            return i;
        }
        i = i - 1;
    }
    i
}

/// Removes leading and trailing spaces.
pub fn trim(s: &str) -> (r: String)
    ensures
        r@ == trim_seq(s@),
{
    proof {
        lemma_scan_bounds(s@, 0);
        lemma_trim_end_bounds(s@, s@.len() as int);
    }
    let a = skip_spaces_exec(s, 0);
    let b = trim_end_exec(s);
    if a < b {
        s.substring_char(a, b).to_owned()
    } else {
        String::new()
    }
}

/// The given parts joined by the separator: nothing between zero or one
/// parts, the separator between each neighbouring two.
pub open spec fn join_sep(parts: Seq<Seq<char>>, sep: Seq<char>) -> Seq<char>
    decreases parts.len(),
{
    if parts.len() == 0 {
        Seq::empty()
    } else if parts.len() == 1 {
        parts[0]
    } else {
        parts[0] + sep + join_sep(parts.drop_first(), sep)
    }
}

pub proof fn lemma_join_sep_push(parts: Seq<Seq<char>>, sep: Seq<char>, x: Seq<char>)
    ensures
        join_sep(parts.push(x), sep) =~= if parts.len() == 0 {
            x
        } else {
            join_sep(parts, sep) + sep + x
        },
    decreases parts.len(),
{
    if parts.len() == 0 {
        assert(parts.push(x)[0] == x);
    } else {
        assert(parts.push(x).drop_first() =~= parts.drop_first().push(x));
        lemma_join_sep_push(parts.drop_first(), sep, x);
    }
}

/// The character for one decimal digit.
pub open spec fn digit_char(d: int) -> char {
    if d == 0 {
        '0'
    } else if d == 1 {
        '1'
    } else if d == 2 {
        '2'
    } else if d == 3 {
        '3'
    } else if d == 4 {
        '4'
    } else if d == 5 {
        '5'
    } else if d == 6 {
        '6'
    } else if d == 7 {
        '7'
    } else if d == 8 {
        '8'
    } else {
        '9'
    }
}

/// The usual decimal rendering of a non-negative number, no leading zeros.
pub open spec fn dec_digits(n: int) -> Seq<char>
    decreases n when n >= 0
{
    if n < 10 {
        seq![digit_char(n)]
    } else {
        dec_digits(n / 10) + seq![digit_char(n % 10)]
    }
}

/// Decimal rendering of a possibly negative number, `-` sign included.
pub open spec fn int_digits(n: int) -> Seq<char> {
    if n < 0 {
        seq!['-'] + dec_digits(-n)
    } else {
        dec_digits(n)
    }
}

fn digit_str(d: u32) -> (r: &'static str)
    requires
        d < 10,
    ensures
        r@ == seq![digit_char(d as int)],
{
    if d == 0 {
        proof {
            reveal_strlit("0");
            assert("0"@ =~= seq![digit_char(0)]);
        }
        "0"
    } else if d == 1 {
        proof {
            reveal_strlit("1");
            assert("1"@ =~= seq![digit_char(1)]);
        }
        "1"
    } else if d == 2 {
        proof {
            reveal_strlit("2");
            assert("2"@ =~= seq![digit_char(2)]);
        }
        "2"
    } else if d == 3 {
        proof {
            reveal_strlit("3");
            assert("3"@ =~= seq![digit_char(3)]);
        }
        "3"
    } else if d == 4 {
        proof {
            reveal_strlit("4");
            assert("4"@ =~= seq![digit_char(4)]);
        }
        "4"
    } else if d == 5 {
        proof {
            reveal_strlit("5");
            assert("5"@ =~= seq![digit_char(5)]);
        }
        "5"
    } else if d == 6 {
        proof {
            reveal_strlit("6");
            assert("6"@ =~= seq![digit_char(6)]);
        }
        "6"
    } else if d == 7 {
        proof {
            reveal_strlit("7");
            assert("7"@ =~= seq![digit_char(7)]);
        }
        "7"
    } else if d == 8 {
        proof {
            reveal_strlit("8");
            assert("8"@ =~= seq![digit_char(8)]);
        }
        "8"
    } else {
        proof {
            reveal_strlit("9");
            assert("9"@ =~= seq![digit_char(9)]);
        }
        "9"
    }
}

/// Renders a number in decimal.
pub fn u32_to_string(n: u32) -> (r: String)
    ensures
        r@ == dec_digits(n as int),
    decreases n,
{
    if n < 10 {
        digit_str(n).to_owned()
    } else {
        let mut s = u32_to_string(n / 10);
        s.append(digit_str(n % 10));
        proof {
            assert(s@ =~= dec_digits(n as int));
        }
        s
    }
}

/// Renders a number in decimal, with a `-` sign when it is negative.
pub fn i32_to_string(n: i32) -> (r: String)
    ensures
        r@ == int_digits(n as int),
{
    if n >= 0 {
        u32_to_string(n as u32)
    } else {
        let mag: u32 = (-(n as i64)) as u32;
        let mut s = "-".to_owned();
        s.append(u32_to_string(mag).as_str());
        proof {
            reveal_strlit("-");
            assert(s@ =~= int_digits(n as int));
        }
        s
    }
}

} // verus!
