//! Small verified string utilities shared by the rest of the library:
//! conversion between strings and character vectors, string equality,
//! substring search, and decimal formatting.

use vstd::prelude::*;

verus! {

/// The characters of a string, as a vector.
pub fn str_to_chars(s: &str) -> (r: Vec<char>)
    ensures
        r@ == s@,
{
    let n = s.unicode_len();
    let mut r: Vec<char> = Vec::new();
    let mut i: usize = 0;
    while i < n
        invariant
            n == s@.len(),
            i <= n,
            r@ == s@.subrange(0, i as int),
        decreases n - i,
    {
        let c = s.get_char(i);
        r.push(c);
        i = i + 1;
        proof {
            assert(r@ =~= s@.subrange(0, i as int));
        }
    }
    proof {
        assert(r@ =~= s@);
    }
    r
}

/// Relies on `String`'s `FromIterator<char>` from std: collecting
/// characters yields exactly the string of those characters, in order.
#[verifier::external_body]
pub fn string_from_chars(v: &Vec<char>) -> (r: String)
    ensures
        r@ == v@,
{
    v.iter().copied().collect()
}

/// Relies on `char::from_u32` from std: it returns `Some` exactly on
/// Unicode scalar values (everything in range except the surrogate
/// block), and the returned character is that scalar value.
#[verifier::external_body]
pub fn char_from_u32(v: u32) -> (r: Option<char>)
    ensures
        r is Some <==> (v < 0xD800 || (0xE000 <= v && v <= 0x10FFFF)),
        r matches Some(c) ==> c as u32 == v,
{
    char::from_u32(v)
}

/// Character-wise string equality, tied to view equality.
pub fn str_eq(a: &str, b: &str) -> (r: bool)
    ensures
        r == (a@ == b@),
{
    let na = a.unicode_len();
    let nb = b.unicode_len();
    if na != nb {
        return false;
    }
    let mut i: usize = 0;
    while i < na
        invariant
            na == a@.len(),
            nb == b@.len(),
            na == nb,
            i <= na,
            forall|j: int| 0 <= j < i ==> a@[j] == b@[j],
        decreases na - i,
    {
        if a.get_char(i) != b.get_char(i) {
            return false;
        }
        i = i + 1;
    }
    proof {
        assert(a@ =~= b@);
    }
    true
}

/// Equality of a character vector against a string.
pub fn chars_eq_str(a: &Vec<char>, b: &str) -> (r: bool)
    ensures
        r == (a@ == b@),
{
    let nb = b.unicode_len();
    if a.len() != nb {
        return false;
    }
    let mut i: usize = 0;
    while i < nb
        invariant
            nb == b@.len(),
            a@.len() == nb,
            i <= nb,
            forall|j: int| 0 <= j < i ==> a@[j] == b@[j],
        decreases nb - i,
    {
        if a[i] != b.get_char(i) {
            return false;
        }
        i = i + 1;
    }
    proof {
        assert(a@ =~= b@);
    }
    true
}

/// The pattern occurs in `s` at position `i`.
pub open spec fn contains_at(s: Seq<char>, pat: Seq<char>, i: int) -> bool {
    0 <= i && i + pat.len() <= s.len() && s.subrange(i, i + pat.len()) == pat
}

/// The pattern occurs somewhere in `s`.
pub open spec fn contains_seq(s: Seq<char>, pat: Seq<char>) -> bool {
    exists|i: int| contains_at(s, pat, i)
}

/// Substring search over character vectors.
pub fn contains_chars(s: &Vec<char>, pat: &Vec<char>) -> (r: bool)
    ensures
        r == contains_seq(s@, pat@),
{
    let m = pat.len();
    let n = s.len();
    if m > n {
        proof {
            assert(forall|i: int| !contains_at(s@, pat@, i));
        }
        return false;
    }
    let mut i: usize = 0;
    while i <= n - m
        invariant
            m == pat@.len(),
            n == s@.len(),
            m <= n,
            i <= n - m + 1,
            forall|k: int| 0 <= k < i ==> !contains_at(s@, pat@, k),
        decreases n - m + 1 - i,
    {
        let mut j: usize = 0;
        let mut all_eq: bool = true;
        while j < m
            invariant
                m == pat@.len(),
                n == s@.len(),
                i + m <= n,
                j <= m,
                all_eq == (forall|t: int| 0 <= t < j ==> s@[i + t] == pat@[t]),
                all_eq || j == m,
            decreases m - j,
        {
            let a = s[i + j];
            let b = pat[j];
            if a != b {
                all_eq = false;
                j = m;
            } else {
                proof {
                    assert(s@[i as int + j as int] == pat@[j as int]);
                    assert forall|t: int| 0 <= t < j + 1 implies s@[i + t] == pat@[t] by {
                        if t < j {
                            assert(s@[i + t] == pat@[t]);
                        } else {
                            assert(t == j);
                        }
                    }
                }
                j = j + 1;
            }
        }
        if all_eq {
            proof {
                assert(s@.subrange(i as int, i + pat@.len()) =~= pat@);
                assert(contains_at(s@, pat@, i as int));
            }
            return true;
        }
        proof {
            assert(!contains_at(s@, pat@, i as int));
        }
        i = i + 1;
    }
    proof {
        assert(forall|k: int| !contains_at(s@, pat@, k));
    }
    false
}

/// The decimal digit character for a value below ten.
pub open spec fn dec_digit(d: nat) -> char {
    if d == 0 {
        '0'
    } else if d == 1 {
        '1'
    } else if d == 2 {
        '2'
    } else if d == 3 {
        '3'
    } else if d == 4 {
        '4'
    } else if d == 5 {
        '5'
    } else if d == 6 {
        '6'
    } else if d == 7 {
        '7'
    } else if d == 8 {
        '8'
    } else {
        '9'
    }
}

/// Decimal notation of a natural number, most significant digit first,
/// without leading zeros (except for zero itself).
pub open spec fn dec_str(n: nat) -> Seq<char>
    decreases n,
{
    if n < 10 {
        seq![dec_digit(n)]
    } else {
        dec_str(n / 10) + seq![dec_digit(n % 10)]
    }
}

pub(crate) fn dec_digit_char(d: u64) -> (r: char)
    requires
        d < 10,
    ensures
        r == dec_digit(d as nat),
{
    if d == 0 {
        '0'
    } else if d == 1 {
        '1'
    } else if d == 2 {
        '2'
    } else if d == 3 {
        '3'
    } else if d == 4 {
        '4'
    } else if d == 5 {
        '5'
    } else if d == 6 {
        '6'
    } else if d == 7 {
        '7'
    } else if d == 8 {
        '8'
    } else {
        '9'
    }
}

/// Decimal formatting of a number as characters.
pub fn u64_to_chars(n: u64) -> (r: Vec<char>)
    ensures
        r@ == dec_str(n as nat),
{
    let mut out: Vec<char> = Vec::new();
    let d = dec_digit_char(n % 10);
    out.push(d);
    let mut k: u64 = n / 10;
    proof {
        if n < 10 {
            assert(out@ =~= dec_str(n as nat));
        } else {
            assert(dec_str(n as nat) =~= dec_str(k as nat) + out@);
        }
    }
    while k > 0
        invariant
            dec_str(n as nat) == if k == 0 {
                out@
            } else {
                dec_str(k as nat) + out@
            },
        decreases k,
    {
        let d = dec_digit_char(k % 10);
        out.insert(0, d);
        let ghost old_k = k as nat;
        k = k / 10;
        proof {
            if old_k < 10 {
                assert(dec_str(old_k) =~= seq![dec_digit(old_k)]);
                assert(dec_str(n as nat) =~= out@);
            } else {
                assert(dec_str(old_k) == dec_str(old_k / 10) + seq![dec_digit(old_k % 10)]);
                assert(dec_str(n as nat) =~= dec_str(k as nat) + out@);
            }
        }
    }
    out
}

/// Index of the first occurrence of `sep` at or after `pos`, or the length
/// of `s` when there is none.
pub open spec fn find_sep(s: Seq<char>, sep: char, pos: int) -> int
    decreases s.len() - pos,
{
    if pos < 0 || pos >= s.len() {
        s.len() as int
    } else if s[pos] == sep {
        pos
    } else {
        find_sep(s, sep, pos + 1)
    }
}

/// ASCII whitespace, as the token separators of command output.
pub open spec fn is_space(c: char) -> bool {
    c == ' ' || c == '\t' || c == '\r' || c == '\n' || c == '\u{b}' || c == '\u{c}'
}

/// Index of the first whitespace character at or after `pos`, or the length
/// of `s` when there is none.
pub open spec fn find_space(s: Seq<char>, pos: int) -> int
    decreases s.len() - pos,
{
    if pos < 0 || pos >= s.len() {
        s.len() as int
    } else if is_space(s[pos]) {
        pos
    } else {
        find_space(s, pos + 1)
    }
}

pub proof fn lemma_find_sep_bounds(s: Seq<char>, sep: char, pos: int)
    requires
        0 <= pos <= s.len(),
    ensures
        pos <= find_sep(s, sep, pos) <= s.len(),
    decreases s.len() - pos,
{
    if pos < s.len() && s[pos] != sep {
        lemma_find_sep_bounds(s, sep, pos + 1);
    }
}

pub proof fn lemma_find_space_bounds(s: Seq<char>, pos: int)
    requires
        0 <= pos <= s.len(),
    ensures
        pos <= find_space(s, pos) <= s.len(),
    decreases s.len() - pos,
{
    if pos < s.len() && !is_space(s[pos]) {
        lemma_find_space_bounds(s, pos + 1);
    }
}

/// `find_sep` is pinned down by its characteristic properties.
pub proof fn lemma_find_sep_is(s: Seq<char>, sep: char, pos: int, k: int)
    requires
        0 <= pos <= k <= s.len(),
        forall|j: int| pos <= j < k ==> s[j] != sep,
        k == s.len() || s[k] == sep,
    ensures
        find_sep(s, sep, pos) == k,
    decreases k - pos,
{
    if pos < k {
        lemma_find_sep_is(s, sep, pos + 1, k);
    }
}

/// `find_space` is pinned down by its characteristic properties.
pub proof fn lemma_find_space_is(s: Seq<char>, pos: int, k: int)
    requires
        0 <= pos <= k <= s.len(),
        forall|j: int| pos <= j < k ==> !is_space(s[j]),
        k == s.len() || is_space(s[k]),
    ensures
        find_space(s, pos) == k,
    decreases k - pos,
{
    if pos < k {
        lemma_find_space_is(s, pos + 1, k);
    }
}

/// A line with a final carriage return removed, as the line splitter
/// does for lines ended by a carriage return and line feed pair.
pub open spec fn chomp_cr(l: Seq<char>) -> Seq<char> {
    if l.len() > 0 && l[l.len() - 1] == '\r' {
        l.drop_last()
    } else {
        l
    }
}

/// The lines of `s` from position `pos` on: split at line feeds, a carriage
/// return before a line feed is dropped, and a final line ending is
/// optional.
pub open spec fn split_lines_from(s: Seq<char>, pos: int) -> Seq<Seq<char>>
    decreases s.len() - pos,
    via split_lines_from_dec
{
    if pos < 0 || pos >= s.len() {
        Seq::empty()
    } else {
        let i = find_sep(s, '\n', pos);
        if i >= s.len() {
            seq![s.subrange(pos, s.len() as int)]
        } else {
            seq![chomp_cr(s.subrange(pos, i))] + split_lines_from(s, i + 1)
        }
    }
}

#[via_fn]
proof fn split_lines_from_dec(s: Seq<char>, pos: int) {
    if 0 <= pos < s.len() {
        lemma_find_sep_bounds(s, '\n', pos);
    }
}

/// The lines of `s`.
pub open spec fn split_lines(s: Seq<char>) -> Seq<Seq<char>> {
    split_lines_from(s, 0)
}

/// The whitespace-separated tokens of `s` from position `pos` on.
pub open spec fn split_ws_from(s: Seq<char>, pos: int) -> Seq<Seq<char>>
    decreases s.len() - pos,
    via split_ws_from_dec
{
    if pos < 0 || pos >= s.len() {
        Seq::empty()
    } else if is_space(s[pos]) {
        split_ws_from(s, pos + 1)
    } else {
        let e = find_space(s, pos);
        seq![s.subrange(pos, e)] + split_ws_from(s, e)
    }
}

#[via_fn]
proof fn split_ws_from_dec(s: Seq<char>, pos: int) {
    if 0 <= pos < s.len() && !is_space(s[pos]) {
        lemma_find_space_bounds(s, pos + 1);
    }
}

/// The whitespace-separated tokens of `s`.
pub open spec fn split_ws(s: Seq<char>) -> Seq<Seq<char>> {
    split_ws_from(s, 0)
}

/// The fields of `s` from position `pos` on, separated by `sep`; empty
/// fields are kept, and a trailing separator yields a final empty field.
pub open spec fn split_sep_from(s: Seq<char>, sep: char, pos: int) -> Seq<Seq<char>>
    decreases s.len() - pos,
    via split_sep_from_dec
{
    if pos < 0 || pos > s.len() {
        Seq::empty()
    } else {
        let e = find_sep(s, sep, pos);
        if e >= s.len() {
            seq![s.subrange(pos, s.len() as int)]
        } else {
            seq![s.subrange(pos, e)] + split_sep_from(s, sep, e + 1)
        }
    }
}

#[via_fn]
proof fn split_sep_from_dec(s: Seq<char>, sep: char, pos: int) {
    if 0 <= pos <= s.len() {
        lemma_find_sep_bounds(s, sep, pos);
    }
}

/// The fields of `s` separated by `sep`.
pub open spec fn split_sep(s: Seq<char>, sep: char) -> Seq<Seq<char>> {
    split_sep_from(s, sep, 0)
}

/// Copy of a range of a character vector.
pub fn copy_range(s: &Vec<char>, from: usize, to: usize) -> (r: Vec<char>)
    requires
        from <= to <= s@.len(),
    ensures
        r@ == s@.subrange(from as int, to as int),
{
    let mut r: Vec<char> = Vec::new();
    let mut i: usize = from;
    while i < to
        invariant
            from <= i <= to <= s@.len(),
            r@ == s@.subrange(from as int, i as int),
        decreases to - i,
    {
        r.push(s[i]);
        i = i + 1;
        proof {
            assert(r@ =~= s@.subrange(from as int, i as int));
        }
    }
    r
}

/// The lines of a character vector.
pub fn split_lines_exec(s: &Vec<char>) -> (r: Vec<Vec<char>>)
    ensures
        r@.map_values(|l: Vec<char>| l@) == split_lines(s@),
{
    let n = s.len();
    let mut r: Vec<Vec<char>> = Vec::new();
    let mut pos: usize = 0;
    proof {
        assert(r@.map_values(|l: Vec<char>| l@) =~= Seq::<Seq<char>>::empty());
    }
    while pos < n
        invariant
            n == s@.len(),
            pos <= n,
            split_lines(s@) == r@.map_values(|l: Vec<char>| l@) + split_lines_from(
                s@,
                pos as int,
            ),
        decreases n - pos,
    {
        let ghost prev = r@.map_values(|l: Vec<char>| l@);
        let mut i: usize = pos;
        while i < n && s[i] != '\n'
            invariant
                n == s@.len(),
                pos <= i <= n,
                forall|j: int| pos <= j < i ==> s@[j] != '\n',
            decreases n - i,
        {
            i = i + 1;
        }
        proof {
            lemma_find_sep_is(s@, '\n', pos as int, i as int);
        }
        if i >= n {
            let line = copy_range(s, pos, n);
            r.push(line);
            proof {
                assert(r@.map_values(|l: Vec<char>| l@) =~= prev + seq![line@]);
            }
            pos = n;
        } else {
            let end = if i > pos && s[i - 1] == '\r' {
                i - 1
            } else {
                i
            };
            let line = copy_range(s, pos, end);
            proof {
                assert(line@ =~= chomp_cr(s@.subrange(pos as int, i as int)));
            }
            r.push(line);
            proof {
                assert(r@.map_values(|l: Vec<char>| l@) =~= prev + seq![
                    chomp_cr(s@.subrange(pos as int, i as int)),
                ]);
            }
            pos = i + 1;
        }
    }
    proof {
        assert(split_lines_from(s@, pos as int) =~= Seq::<Seq<char>>::empty());
        assert(r@.map_values(|l: Vec<char>| l@) =~= split_lines(s@));
    }
    r
}

fn is_space_exec(c: char) -> (r: bool)
    ensures
        r == is_space(c),
{
    c == ' ' || c == '\t' || c == '\r' || c == '\n' || c == '\u{b}' || c == '\u{c}'
}

/// The whitespace-separated tokens of a character vector.
pub fn split_ws_exec(s: &Vec<char>) -> (r: Vec<Vec<char>>)
    ensures
        r@.map_values(|l: Vec<char>| l@) == split_ws(s@),
{
    let n = s.len();
    let mut r: Vec<Vec<char>> = Vec::new();
    let mut pos: usize = 0;
    proof {
        assert(r@.map_values(|l: Vec<char>| l@) =~= Seq::<Seq<char>>::empty());
    }
    while pos < n
        invariant
            n == s@.len(),
            pos <= n,
            split_ws(s@) == r@.map_values(|l: Vec<char>| l@) + split_ws_from(s@, pos as int),
        decreases n - pos,
    {
        if is_space_exec(s[pos]) {
            pos = pos + 1;
        } else {
            let ghost prev = r@.map_values(|l: Vec<char>| l@);
            let mut i: usize = pos;
            while i < n && !is_space_exec(s[i])
                invariant
                    n == s@.len(),
                    pos <= i <= n,
                    forall|j: int| pos <= j < i ==> !is_space(s@[j]),
                decreases n - i,
            {
                i = i + 1;
            }
            proof {
                lemma_find_space_is(s@, pos as int, i as int);
            }
            let tok = copy_range(s, pos, i);
            r.push(tok);
            proof {
                assert(r@.map_values(|l: Vec<char>| l@) =~= prev + seq![
                    s@.subrange(pos as int, i as int),
                ]);
            }
            pos = i;
        }
    }
    proof {
        assert(split_ws_from(s@, pos as int) =~= Seq::<Seq<char>>::empty());
        assert(r@.map_values(|l: Vec<char>| l@) =~= split_ws(s@));
    }
    r
}

/// The fields of a character vector separated by `sep`.
pub fn split_sep_exec(s: &Vec<char>, sep: char) -> (r: Vec<Vec<char>>)
    ensures
        r@.map_values(|l: Vec<char>| l@) == split_sep(s@, sep),
{
    let n = s.len();
    let mut r: Vec<Vec<char>> = Vec::new();
    let mut pos: usize = 0;
    proof {
        assert(r@.map_values(|l: Vec<char>| l@) =~= Seq::<Seq<char>>::empty());
    }
    let mut done: bool = false;
    while !done
        invariant
            n == s@.len(),
            pos <= n,
            !done ==> split_sep(s@, sep) == r@.map_values(|l: Vec<char>| l@) + split_sep_from(
                s@,
                sep,
                pos as int,
            ),
            done ==> split_sep(s@, sep) == r@.map_values(|l: Vec<char>| l@),
        decreases n + 1 - pos, (if done { 0int } else { 1int }),
    {
        let ghost prev = r@.map_values(|l: Vec<char>| l@);
        let mut i: usize = pos;
        while i < n && s[i] != sep
            invariant
                n == s@.len(),
                pos <= i <= n,
                forall|j: int| pos <= j < i ==> s@[j] != sep,
            decreases n - i,
        {
            i = i + 1;
        }
        proof {
            lemma_find_sep_is(s@, sep, pos as int, i as int);
        }
        let tok = copy_range(s, pos, i);
        r.push(tok);
        proof {
            assert(r@.map_values(|l: Vec<char>| l@) =~= prev + seq![
                s@.subrange(pos as int, i as int),
            ]);
        }
        if i >= n {
            done = true;
        } else {
            pos = i + 1;
        }
    }
    r
}

/// Decimal formatting of a number as a string.
pub fn u64_to_string(n: u64) -> (r: String)
    ensures
        r@ == dec_str(n as nat),
{
    let v = u64_to_chars(n);
    string_from_chars(&v)
}

} // verus!
