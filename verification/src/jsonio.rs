//! The configuration record's on-disk format: a JSON object of seven
//! string members, written canonically and parsed tolerantly in whitespace
//! and string escapes (the letter escapes, four-digit escapes, surrogate
//! pairs). The parser is deliberately strict about shape: it accepts the
//! seven members only in the order this library (and the record's earlier
//! keepers) write them, and no others; a text of any other shape counts as
//! unparsable and yields the built-in defaults, the specified fallback for
//! any unreadable record. Writing a record and parsing it back yields the
//! record unchanged, and that is proved here.

use vstd::prelude::*;
use crate::config::ConfigModel;
use crate::strutil::char_from_u32;

verus! {

/// Lowercase hexadecimal digit for a value below sixteen.
pub open spec fn hex_digit(d: nat) -> char {
    if d == 0 {
        '0'
    } else if d == 1 {
        '1'
    } else if d == 2 {
        '2'
    } else if d == 3 {
        '3'
    } else if d == 4 {
        '4'
    } else if d == 5 {
        '5'
    } else if d == 6 {
        '6'
    } else if d == 7 {
        '7'
    } else if d == 8 {
        '8'
    } else if d == 9 {
        '9'
    } else if d == 10 {
        'a'
    } else if d == 11 {
        'b'
    } else if d == 12 {
        'c'
    } else if d == 13 {
        'd'
    } else if d == 14 {
        'e'
    } else {
        'f'
    }
}

/// Value of a hexadecimal digit character, upper or lower case, or -1.
pub open spec fn hex_val(c: char) -> int {
    if c == '0' {
        0
    } else if c == '1' {
        1
    } else if c == '2' {
        2
    } else if c == '3' {
        3
    } else if c == '4' {
        4
    } else if c == '5' {
        5
    } else if c == '6' {
        6
    } else if c == '7' {
        7
    } else if c == '8' {
        8
    } else if c == '9' {
        9
    } else if c == 'a' || c == 'A' {
        10
    } else if c == 'b' || c == 'B' {
        11
    } else if c == 'c' || c == 'C' {
        12
    } else if c == 'd' || c == 'D' {
        13
    } else if c == 'e' || c == 'E' {
        14
    } else if c == 'f' || c == 'F' {
        15
    } else {
        -1
    }
}

proof fn lemma_hex_round_trip(d: nat)
    requires
        d < 16,
    ensures
        hex_val(hex_digit(d)) == d,
{
}

/// How one character is written inside a string literal: quote and
/// backslash escaped, the common control characters by letter escapes,
/// the remaining control characters as four-digit escapes, everything
/// else literally.
pub open spec fn esc_seq(c: char) -> Seq<char> {
    if c == '"' {
        seq!['\\', '"']
    } else if c == '\\' {
        seq!['\\', '\\']
    } else if c == '\n' {
        seq!['\\', 'n']
    } else if c == '\t' {
        seq!['\\', 't']
    } else if c == '\r' {
        seq!['\\', 'r']
    } else if c == '\u{8}' {
        seq!['\\', 'b']
    } else if c == '\u{c}' {
        seq!['\\', 'f']
    } else if (c as u32) < 0x20 {
        seq!['\\', 'u', '0', '0', hex_digit((c as u32 / 16) as nat), hex_digit(
            (c as u32 % 16) as nat,
        )]
    } else {
        seq![c]
    }
}

/// The body of the string literal that writes `s`: each character's
/// escape sequence, in order.
pub open spec fn quote_body(s: Seq<char>) -> Seq<char>
    decreases s.len(),
{
    if s.len() == 0 {
        Seq::empty()
    } else {
        esc_seq(s[0]) + quote_body(s.drop_first())
    }
}

/// The string literal that writes `s`.
pub open spec fn quoted(s: Seq<char>) -> Seq<char> {
    seq!['"'] + quote_body(s) + seq!['"']
}

/// Appending one character appends its escape sequence.
pub proof fn lemma_quote_body_snoc(s: Seq<char>, c: char)
    ensures
        quote_body(s + seq![c]) == quote_body(s) + esc_seq(c),
    decreases s.len(),
{
    if s.len() == 0 {
        assert(s + seq![c] =~= seq![c]);
        assert(seq![c].drop_first() =~= Seq::<char>::empty());
        assert(quote_body(seq![c]) == esc_seq(c) + quote_body(Seq::<char>::empty()));
        assert(esc_seq(c) + Seq::<char>::empty() =~= esc_seq(c));
        assert(quote_body(s) + esc_seq(c) =~= esc_seq(c));
    } else {
        let t = s + seq![c];
        assert(t[0] == s[0]);
        assert(t.drop_first() =~= s.drop_first() + seq![c]);
        lemma_quote_body_snoc(s.drop_first(), c);
        assert(quote_body(t) == esc_seq(s[0]) + (quote_body(s.drop_first()) + esc_seq(c)));
        assert(esc_seq(s[0]) + (quote_body(s.drop_first()) + esc_seq(c)) =~= (esc_seq(s[0])
            + quote_body(s.drop_first())) + esc_seq(c));
    }
}

/// The character with the given code point.
pub open spec fn code_char(n: int) -> char {
    choose|c: char| char_code(c) == n
}

/// The code point of a character.
pub open spec fn char_code(c: char) -> int {
    c as int
}

pub proof fn lemma_code_char(c: char)
    ensures
        code_char(c as int) == c,
{
    assert(char_code(c) == c as int);
    let w = choose|x: char| char_code(x) == c as int;
    assert(char_code(w) == c as int);
}

/// Decode one escape: `i` is the position just after the backslash; the
/// result is the decoded character and the position after the escape.
pub open spec fn scan_escape(s: Seq<char>, i: int) -> Option<(char, int)> {
    if i < 0 || i >= s.len() {
        None
    } else {
        let c = s[i];
        if c == '"' {
            Some(('"', i + 1))
        } else if c == '\\' {
            Some(('\\', i + 1))
        } else if c == '/' {
            Some(('/', i + 1))
        } else if c == 'n' {
            Some(('\n', i + 1))
        } else if c == 't' {
            Some(('\t', i + 1))
        } else if c == 'r' {
            Some(('\r', i + 1))
        } else if c == 'b' {
            Some(('\u{8}', i + 1))
        } else if c == 'f' {
            Some(('\u{c}', i + 1))
        } else if c == 'u' {
            if i + 5 <= s.len() && hex_val(s[i + 1]) >= 0 && hex_val(s[i + 2]) >= 0 && hex_val(
                s[i + 3],
            ) >= 0 && hex_val(s[i + 4]) >= 0 {
                let code = hex_val(s[i + 1]) * 4096 + hex_val(s[i + 2]) * 256 + hex_val(s[i + 3])
                    * 16 + hex_val(s[i + 4]);
                if code < 0xD800 || code >= 0xE000 {
                    Some((code_char(code), i + 5))
                } else if code < 0xDC00 {
                    // a high surrogate must pair with an escaped low surrogate
                    if i + 11 <= s.len() && s[i + 5] == '\\' && s[i + 6] == 'u' && hex_val(
                        s[i + 7],
                    ) >= 0 && hex_val(s[i + 8]) >= 0 && hex_val(s[i + 9]) >= 0 && hex_val(
                        s[i + 10],
                    ) >= 0 {
                        let low = hex_val(s[i + 7]) * 4096 + hex_val(s[i + 8]) * 256 + hex_val(
                            s[i + 9],
                        ) * 16 + hex_val(s[i + 10]);
                        if 0xDC00 <= low < 0xE000 {
                            Some(
                                (
                                    code_char(0x10000 + (code - 0xD800) * 0x400 + (low - 0xDC00)),
                                    i + 11,
                                ),
                            )
                        } else {
                            None
                        }
                    } else {
                        None
                    }
                } else {
                    // a lone low surrogate is not a character
                    None
                }
            } else {
                None
            }
        } else {
            None
        }
    }
}

proof fn lemma_scan_escape_bounds(s: Seq<char>, i: int)
    ensures
        scan_escape(s, i) matches Some((c, j)) ==> i + 1 <= j <= s.len(),
{
}

/// Scan the body of a string literal from `i` (just after the opening
/// quote): the decoded characters and the position after the closing
/// quote. Unescaped control characters and unknown escapes are refused.
pub open spec fn scan_body(s: Seq<char>, i: int) -> Option<(Seq<char>, int)>
    decreases s.len() - i,
    via scan_body_dec
{
    if i < 0 || i >= s.len() {
        None
    } else if s[i] == '"' {
        Some((Seq::empty(), i + 1))
    } else if s[i] == '\\' {
        match scan_escape(s, i + 1) {
            Some((c, j)) => match scan_body(s, j) {
                Some((t, k)) => Some((seq![c] + t, k)),
                None => None,
            },
            None => None,
        }
    } else if (s[i] as u32) < 0x20 {
        None
    } else {
        match scan_body(s, i + 1) {
            Some((t, k)) => Some((seq![s[i]] + t, k)),
            None => None,
        }
    }
}

#[via_fn]
proof fn scan_body_dec(s: Seq<char>, i: int) {
    lemma_scan_escape_bounds(s, i + 1);
}

/// Scan a string literal at `i`: the opening quote, the body, the closing
/// quote.
pub open spec fn scan_string(s: Seq<char>, i: int) -> Option<(Seq<char>, int)> {
    if 0 <= i < s.len() && s[i] == '"' {
        scan_body(s, i + 1)
    } else {
        None
    }
}

/// Scanning the written body of `s` (followed by a closing quote) yields
/// `s` and stops right after that quote, in whatever surrounding text.
pub proof fn lemma_scan_body_of_quote(full: Seq<char>, i: int, s: Seq<char>)
    requires
        0 <= i,
        i + quote_body(s).len() + 1 <= full.len(),
        full.subrange(i, i + quote_body(s).len() + 1) == quote_body(s) + seq!['"'],
    ensures
        scan_body(full, i) == Some((s, i + quote_body(s).len() + 1)),
    decreases s.len(),
{
    let qb = quote_body(s);
    let sub = full.subrange(i, i + qb.len() + 1);
    if s.len() == 0 {
        assert(qb =~= Seq::<char>::empty());
        assert(full[i] == sub[0]);
        assert(full[i] == '"');
    } else {
        let c = s[0];
        let e = esc_seq(c);
        let rest = s.drop_first();
        let qrest = quote_body(rest);
        assert(qb == e + qrest);
        // every character of the member's text is visible in `full`
        assert forall|t: int| 0 <= t < qb.len() + 1 implies full[i + t] == (qb + seq!['"'])[t] by {
            assert(sub[t] == full[i + t]);
        }
        // the inner scan's precondition, one escape further in
        assert(full.subrange(i + e.len(), i + e.len() + qrest.len() + 1) =~= qrest + seq!['"'])
            by {
            assert forall|t: int| 0 <= t < qrest.len() + 1 implies full[i + e.len() + t] == (qrest
                + seq!['"'])[t] by {
                assert(full[i + (e.len() + t)] == (qb + seq!['"'])[e.len() + t]);
            }
        }
        lemma_scan_body_of_quote(full, i + e.len(), rest);
        if c == '"' || c == '\\' || c == '\n' || c == '\t' || c == '\r' || c == '\u{8}' || c
            == '\u{c}' {
            // two-character letter escape
            assert(full[i + 0] == (qb + seq!['"'])[0]);
            assert((qb + seq!['"'])[0] == e[0]);
            assert(full[i] == '\\');
            assert(full[i + 1] == (qb + seq!['"'])[1]);
            assert((qb + seq!['"'])[1] == e[1]);
            assert(scan_escape(full, i + 1) == Some((c, i + 2)));
            assert(scan_body(full, i) == Some((seq![c] + rest, i + qb.len() + 1)));
            assert(seq![c] + rest =~= s);
        } else if (c as u32) < 0x20 {
            // four-digit escape
            let hi = (c as u32 / 16) as nat;
            let lo = (c as u32 % 16) as nat;
            assert(full[i + 0] == (qb + seq!['"'])[0]);
            assert(full[i + 1] == (qb + seq!['"'])[1]);
            assert(full[i + 2] == (qb + seq!['"'])[2]);
            assert(full[i + 3] == (qb + seq!['"'])[3]);
            assert(full[i + 4] == (qb + seq!['"'])[4]);
            assert(full[i + 5] == (qb + seq!['"'])[5]);
            assert((qb + seq!['"'])[0] == e[0]);
            assert((qb + seq!['"'])[1] == e[1]);
            assert((qb + seq!['"'])[2] == e[2]);
            assert((qb + seq!['"'])[3] == e[3]);
            assert((qb + seq!['"'])[4] == e[4]);
            assert((qb + seq!['"'])[5] == e[5]);
            assert(full[i] == '\\');
            assert(full[i + 1] == 'u');
            assert(full[i + 2] == '0');
            assert(full[i + 3] == '0');
            assert(full[i + 4] == hex_digit(hi));
            assert(full[i + 5] == hex_digit(lo));
            lemma_hex_round_trip(hi);
            lemma_hex_round_trip(lo);
            assert(hex_val(full[i + 2]) == 0);
            assert(hex_val(full[i + 3]) == 0);
            let code = hex_val(full[i + 2]) * 4096 + hex_val(full[i + 3]) * 256 + hex_val(
                full[i + 4],
            ) * 16 + hex_val(full[i + 5]);
            assert(code == c as u32) by {
                assert(c as u32 == 16 * (c as u32 / 16) + (c as u32 % 16));
            }
            lemma_code_char(c);
            assert(scan_escape(full, i + 1) == Some((c, i + 6)));
            assert(scan_body(full, i) == Some((seq![c] + rest, i + qb.len() + 1)));
            assert(seq![c] + rest =~= s);
        } else {
            // literal character
            assert(e =~= seq![c]);
            assert(full[i + 0] == (qb + seq!['"'])[0]);
            assert((qb + seq!['"'])[0] == e[0]);
            assert(full[i] == c);
            assert(scan_body(full, i) == Some((seq![c] + rest, i + qb.len() + 1)));
            assert(seq![c] + rest =~= s);
        }
    }
}

/// Scanning the literal that writes `s` yields `s`.
pub proof fn lemma_scan_string_of_quoted(full: Seq<char>, i: int, s: Seq<char>)
    requires
        0 <= i,
        i + quoted(s).len() <= full.len(),
        full.subrange(i, i + quoted(s).len()) == quoted(s),
    ensures
        scan_string(full, i) == Some((s, i + quoted(s).len())),
{
    let q = quoted(s);
    assert(full[i] == q[0]);
    assert(full[i] == '"');
    assert(full.subrange(i + 1, i + 1 + quote_body(s).len() + 1) =~= quote_body(s) + seq!['"'])
        by {
        assert forall|t: int| 0 <= t < quote_body(s).len() + 1 implies full[i + 1 + t] == (
        quote_body(s) + seq!['"'])[t] by {
            assert(full.subrange(i, i + q.len())[1 + t] == full[i + (1 + t)]);
            assert(q[1 + t] == (quote_body(s) + seq!['"'])[t]);
        }
    }
    lemma_scan_body_of_quote(full, i + 1, s);
}

/// JSON whitespace.
pub open spec fn is_json_ws(c: char) -> bool {
    c == ' ' || c == '\t' || c == '\n' || c == '\r'
}

/// First position at or after `i` that holds no whitespace.
pub open spec fn skip_ws(s: Seq<char>, i: int) -> int
    decreases s.len() - i,
{
    if i < 0 || i >= s.len() {
        i
    } else if is_json_ws(s[i]) {
        skip_ws(s, i + 1)
    } else {
        i
    }
}

/// Skip whitespace, then consume exactly the punctuation character `p`.
pub open spec fn expect_punct(s: Seq<char>, i: int, p: char) -> Option<int> {
    let j = skip_ws(s, i);
    if 0 <= j < s.len() && s[j] == p {
        Some(j + 1)
    } else {
        None
    }
}

/// Scan one member whose key must be `key`: the key literal, a colon, the
/// value literal, each optionally preceded by whitespace.
pub open spec fn scan_member(s: Seq<char>, i: int, key: Seq<char>) -> Option<(Seq<char>, int)> {
    let i0 = skip_ws(s, i);
    match scan_string(s, i0) {
        Some((k, i1)) => if k == key {
            match expect_punct(s, i1, ':') {
                Some(i2) => {
                    let i3 = skip_ws(s, i2);
                    scan_string(s, i3)
                },
                None => None,
            }
        } else {
            None
        },
        None => None,
    }
}

/// The canonical text of one member.
pub open spec fn member_json(key: Seq<char>, v: Seq<char>) -> Seq<char> {
    quoted(key) + seq![':'] + quoted(v)
}

/// The canonical text of a member list, comma separated.
pub open spec fn members_json(ms: Seq<(Seq<char>, Seq<char>)>) -> Seq<char>
    decreases ms.len(),
{
    if ms.len() == 0 {
        Seq::empty()
    } else if ms.len() == 1 {
        member_json(ms[0].0, ms[0].1)
    } else {
        member_json(ms[0].0, ms[0].1) + seq![','] + members_json(ms.drop_first())
    }
}

/// Scan the members named by `keys`, in order, comma separated.
pub open spec fn scan_members(s: Seq<char>, i: int, keys: Seq<Seq<char>>) -> Option<
    (Seq<Seq<char>>, int),
>
    decreases keys.len(),
{
    if keys.len() == 0 {
        Some((Seq::empty(), i))
    } else {
        match scan_member(s, i, keys[0]) {
            Some((v, j)) => if keys.len() == 1 {
                Some((seq![v], j))
            } else {
                match expect_punct(s, j, ',') {
                    Some(j2) => match scan_members(s, j2, keys.drop_first()) {
                        Some((vs, k)) => Some((seq![v] + vs, k)),
                        None => None,
                    },
                    None => None,
                }
            },
            None => None,
        }
    }
}

/// Scanning a member's canonical text yields its value and stops right
/// after it.
pub proof fn lemma_scan_member_of_json(full: Seq<char>, i: int, key: Seq<char>, v: Seq<char>)
    requires
        0 <= i,
        i + member_json(key, v).len() <= full.len(),
        full.subrange(i, i + member_json(key, v).len()) == member_json(key, v),
    ensures
        scan_member(full, i, key) == Some((v, i + member_json(key, v).len())),
{
    let mj = member_json(key, v);
    let sub = full.subrange(i, i + mj.len());
    let qk = quoted(key);
    let qv = quoted(v);
    assert forall|t: int| 0 <= t < mj.len() implies full[i + t] == mj[t] by {
        assert(sub[t] == full[i + t]);
    }
    // the key literal
    assert(full.subrange(i, i + qk.len()) =~= qk) by {
        assert forall|t: int| 0 <= t < qk.len() implies full[i + t] == qk[t] by {
            assert(mj[t] == (qk + seq![':'] + qv)[t]);
        }
    }
    lemma_scan_string_of_quoted(full, i, key);
    // the key starts with a quote, so no whitespace precedes it
    assert(full[i + 0] == mj[0]);
    assert(mj[0] == qk[0]);
    assert(full[i] == '"');
    assert(skip_ws(full, i) == i);
    // the colon
    let i1 = i + qk.len();
    assert(full[i1 + 0] == mj[qk.len() as int]);
    assert(mj[qk.len() as int] == ':');
    assert(skip_ws(full, i1) == i1);
    assert(expect_punct(full, i1, ':') == Some(i1 + 1));
    // the value literal
    let i2 = i1 + 1;
    assert(full.subrange(i2, i2 + qv.len()) =~= qv) by {
        assert forall|t: int| 0 <= t < qv.len() implies full[i2 + t] == qv[t] by {
            assert(full[i + (qk.len() + 1 + t)] == mj[qk.len() + 1 + t]);
            assert(mj[qk.len() + 1 + t] == qv[t]);
        }
    }
    lemma_scan_string_of_quoted(full, i2, v);
    assert(full[i2 + 0] == mj[qk.len() as int + 1]);
    assert(mj[qk.len() as int + 1] == qv[0]);
    assert(full[i2] == '"');
    assert(skip_ws(full, i2) == i2);
}

/// Scanning a member list's canonical text yields the values in order and
/// stops right after the last member.
pub proof fn lemma_scan_members_of_json(full: Seq<char>, i: int, ms: Seq<(Seq<char>, Seq<char>)>)
    requires
        ms.len() >= 1,
        0 <= i,
        i + members_json(ms).len() <= full.len(),
        full.subrange(i, i + members_json(ms).len()) == members_json(ms),
    ensures
        scan_members(full, i, ms.map_values(|p: (Seq<char>, Seq<char>)| p.0)) == Some(
            (ms.map_values(|p: (Seq<char>, Seq<char>)| p.1), i + members_json(ms).len()),
        ),
    decreases ms.len(),
{
    let keys = ms.map_values(|p: (Seq<char>, Seq<char>)| p.0);
    let vals = ms.map_values(|p: (Seq<char>, Seq<char>)| p.1);
    let mj = members_json(ms);
    let sub = full.subrange(i, i + mj.len());
    assert forall|t: int| 0 <= t < mj.len() implies full[i + t] == mj[t] by {
        assert(sub[t] == full[i + t]);
    }
    let m0 = member_json(ms[0].0, ms[0].1);
    assert(keys[0] == ms[0].0);
    if ms.len() == 1 {
        lemma_scan_member_of_json(full, i, ms[0].0, ms[0].1);
        assert(seq![ms[0].1] =~= vals);
    } else {
        assert(mj == m0 + seq![','] + members_json(ms.drop_first()));
        assert(full.subrange(i, i + m0.len()) =~= m0) by {
            assert forall|t: int| 0 <= t < m0.len() implies full[i + t] == m0[t] by {
                assert(mj[t] == (m0 + seq![','] + members_json(ms.drop_first()))[t]);
            }
        }
        lemma_scan_member_of_json(full, i, ms[0].0, ms[0].1);
        let j = i + m0.len();
        assert(full[j + 0] == mj[m0.len() as int]);
        assert(mj[m0.len() as int] == ',');
        assert(skip_ws(full, j) == j);
        assert(expect_punct(full, j, ',') == Some(j + 1));
        let j2 = j + 1;
        let rest_mj = members_json(ms.drop_first());
        assert(full.subrange(j2, j2 + rest_mj.len()) =~= rest_mj) by {
            assert forall|t: int| 0 <= t < rest_mj.len() implies full[j2 + t] == rest_mj[t] by {
                assert(full[i + (m0.len() + 1 + t)] == mj[m0.len() + 1 + t]);
                assert(mj[m0.len() + 1 + t] == rest_mj[t]);
            }
        }
        lemma_scan_members_of_json(full, j2, ms.drop_first());
        assert(ms.drop_first().map_values(|p: (Seq<char>, Seq<char>)| p.0)
            =~= keys.drop_first());
        assert(ms.drop_first().map_values(|p: (Seq<char>, Seq<char>)| p.1)
            =~= vals.drop_first());
        assert(keys.drop_first()[0] == keys[1]);
        assert(seq![ms[0].1] + vals.drop_first() =~= vals);
        assert(j2 + rest_mj.len() == i + mj.len());
    }
}

/// The members of a configuration record, in canonical order.
pub open spec fn config_members(c: ConfigModel) -> Seq<(Seq<char>, Seq<char>)> {
    seq![
        ("hotspot_interface"@, c.hotspot_interface),
        ("internet_interface"@, c.internet_interface),
        ("connection_name"@, c.connection_name),
        ("ssid"@, c.ssid),
        ("password"@, c.password),
        ("band"@, c.band),
        ("gateway_ip"@, c.gateway_ip),
    ]
}

/// The member keys of a configuration record, in canonical order.
pub open spec fn config_keys() -> Seq<Seq<char>> {
    seq![
        "hotspot_interface"@,
        "internet_interface"@,
        "connection_name"@,
        "ssid"@,
        "password"@,
        "band"@,
        "gateway_ip"@,
    ]
}

/// A record from its member values, in canonical order.
pub open spec fn config_from_values(vs: Seq<Seq<char>>) -> ConfigModel {
    ConfigModel {
        hotspot_interface: vs[0],
        internet_interface: vs[1],
        connection_name: vs[2],
        ssid: vs[3],
        password: vs[4],
        band: vs[5],
        gateway_ip: vs[6],
    }
}

/// The canonical text of a configuration record.
pub open spec fn config_json(c: ConfigModel) -> Seq<char> {
    seq!['{'] + members_json(config_members(c)) + seq!['}']
}

/// Parse a configuration record: the seven members, required in canonical
/// order with none missing and none added, whitespace allowed around every
/// token, nothing but whitespace after the closing brace. Texts of any
/// other shape are `None`, and the caller falls back to the defaults.
pub open spec fn parse_config_model(s: Seq<char>) -> Option<ConfigModel> {
    match expect_punct(s, 0, '{') {
        Some(i) => match scan_members(s, i, config_keys()) {
            Some((vs, j)) => match expect_punct(s, j, '}') {
                Some(e) => if skip_ws(s, e) == s.len() {
                    Some(config_from_values(vs))
                } else {
                    None
                },
                None => None,
            },
            None => None,
        },
        None => None,
    }
}

fn hex_digit_char(d: u32) -> (r: char)
    requires
        d < 16,
    ensures
        r == hex_digit(d as nat),
{
    if d == 0 {
        '0'
    } else if d == 1 {
        '1'
    } else if d == 2 {
        '2'
    } else if d == 3 {
        '3'
    } else if d == 4 {
        '4'
    } else if d == 5 {
        '5'
    } else if d == 6 {
        '6'
    } else if d == 7 {
        '7'
    } else if d == 8 {
        '8'
    } else if d == 9 {
        '9'
    } else if d == 10 {
        'a'
    } else if d == 11 {
        'b'
    } else if d == 12 {
        'c'
    } else if d == 13 {
        'd'
    } else if d == 14 {
        'e'
    } else {
        'f'
    }
}

fn push_esc(out: &mut Vec<char>, c: char)
    ensures
        final(out)@ == old(out)@ + esc_seq(c),
{
    if c == '"' {
        out.push('\\');
        out.push('"');
        proof {
            assert(out@ =~= old(out)@ + esc_seq(c));
        }
    } else if c == '\\' {
        out.push('\\');
        out.push('\\');
        proof {
            assert(out@ =~= old(out)@ + esc_seq(c));
        }
    } else if c == '\n' {
        out.push('\\');
        out.push('n');
        proof {
            assert(out@ =~= old(out)@ + esc_seq(c));
        }
    } else if c == '\t' {
        out.push('\\');
        out.push('t');
        proof {
            assert(out@ =~= old(out)@ + esc_seq(c));
        }
    } else if c == '\r' {
        out.push('\\');
        out.push('r');
        proof {
            assert(out@ =~= old(out)@ + esc_seq(c));
        }
    } else if c == '\u{8}' {
        out.push('\\');
        out.push('b');
        proof {
            assert(out@ =~= old(out)@ + esc_seq(c));
        }
    } else if c == '\u{c}' {
        out.push('\\');
        out.push('f');
        proof {
            assert(out@ =~= old(out)@ + esc_seq(c));
        }
    } else if (c as u32) < 0x20 {
        let v = c as u32;
        out.push('\\');
        out.push('u');
        out.push('0');
        out.push('0');
        out.push(hex_digit_char(v / 16));
        out.push(hex_digit_char(v % 16));
        proof {
            assert(out@ =~= old(out)@ + esc_seq(c));
        }
    } else {
        out.push(c);
        proof {
            assert(out@ =~= old(out)@ + esc_seq(c));
        }
    }
}

fn quote_into(out: &mut Vec<char>, s: &Vec<char>)
    ensures
        final(out)@ == old(out)@ + quoted(s@),
{
    out.push('"');
    let n = s.len();
    let mut i: usize = 0;
    proof {
        assert(s@.subrange(0, 0) =~= Seq::<char>::empty());
        assert(quote_body(s@.subrange(0, 0)) == Seq::<char>::empty());
        assert(out@ =~= old(out)@ + seq!['"'] + quote_body(s@.subrange(0, 0)));
    }
    while i < n
        invariant
            n == s@.len(),
            i <= n,
            out@ == old(out)@ + seq!['"'] + quote_body(s@.subrange(0, i as int)),
        decreases n - i,
    {
        let c = s[i];
        push_esc(out, c);
        proof {
            lemma_quote_body_snoc(s@.subrange(0, i as int), c);
            assert(s@.subrange(0, i as int) + seq![c] =~= s@.subrange(0, i as int + 1));
            assert(out@ =~= old(out)@ + seq!['"'] + quote_body(s@.subrange(0, i as int + 1)));
        }
        i = i + 1;
    }
    out.push('"');
    proof {
        assert(s@.subrange(0, n as int) =~= s@);
        assert(out@ =~= old(out)@ + quoted(s@));
    }
}

fn encode_member(out: &mut Vec<char>, key: &str, value: &str)
    ensures
        final(out)@ == old(out)@ + member_json(key@, value@),
{
    let kv = crate::strutil::str_to_chars(key);
    quote_into(out, &kv);
    out.push(':');
    let vv = crate::strutil::str_to_chars(value);
    quote_into(out, &vv);
    proof {
        assert(out@ =~= old(out)@ + member_json(key@, value@));
    }
}

/// The canonical text of a configuration record, as written to disk.
#[verifier::rlimit(60)]
pub fn encode_config(c: &crate::config::Config) -> (r: String)
    ensures
        r@ == config_json(c@),
{
    let mut out: Vec<char> = Vec::new();
    out.push('{');
    encode_member(&mut out, "hotspot_interface", c.hotspot_interface.as_str());
    out.push(',');
    encode_member(&mut out, "internet_interface", c.internet_interface.as_str());
    out.push(',');
    encode_member(&mut out, "connection_name", c.connection_name.as_str());
    out.push(',');
    encode_member(&mut out, "ssid", c.ssid.as_str());
    out.push(',');
    encode_member(&mut out, "password", c.password.as_str());
    out.push(',');
    encode_member(&mut out, "band", c.band.as_str());
    out.push(',');
    encode_member(&mut out, "gateway_ip", c.gateway_ip.as_str());
    out.push('}');
    proof {
        let ms = config_members(c@);
        let t1 = ms.drop_first();
        let t2 = t1.drop_first();
        let t3 = t2.drop_first();
        let t4 = t3.drop_first();
        let t5 = t4.drop_first();
        let t6 = t5.drop_first();
        assert(t1 =~= seq![
            ("internet_interface"@, c@.internet_interface),
            ("connection_name"@, c@.connection_name),
            ("ssid"@, c@.ssid),
            ("password"@, c@.password),
            ("band"@, c@.band),
            ("gateway_ip"@, c@.gateway_ip),
        ]);
        assert(t2 =~= seq![
            ("connection_name"@, c@.connection_name),
            ("ssid"@, c@.ssid),
            ("password"@, c@.password),
            ("band"@, c@.band),
            ("gateway_ip"@, c@.gateway_ip),
        ]);
        assert(t3 =~= seq![
            ("ssid"@, c@.ssid),
            ("password"@, c@.password),
            ("band"@, c@.band),
            ("gateway_ip"@, c@.gateway_ip),
        ]);
        assert(t4 =~= seq![
            ("password"@, c@.password),
            ("band"@, c@.band),
            ("gateway_ip"@, c@.gateway_ip),
        ]);
        assert(t5 =~= seq![("band"@, c@.band), ("gateway_ip"@, c@.gateway_ip)]);
        assert(t6 =~= seq![("gateway_ip"@, c@.gateway_ip)]);
        assert(members_json(ms) == member_json("hotspot_interface"@, c@.hotspot_interface)
            + seq![','] + members_json(t1));
        assert(members_json(t1) == member_json("internet_interface"@, c@.internet_interface)
            + seq![','] + members_json(t2));
        assert(members_json(t2) == member_json("connection_name"@, c@.connection_name)
            + seq![','] + members_json(t3));
        assert(members_json(t3) == member_json("ssid"@, c@.ssid) + seq![','] + members_json(t4));
        assert(members_json(t4) == member_json("password"@, c@.password) + seq![',']
            + members_json(t5));
        assert(members_json(t5) == member_json("band"@, c@.band) + seq![','] + members_json(t6));
        assert(members_json(t6) == member_json("gateway_ip"@, c@.gateway_ip));
        assert(out@ =~= config_json(c@));
    }
    crate::strutil::string_from_chars(&out)
}

fn is_json_ws_exec(c: char) -> (r: bool)
    ensures
        r == is_json_ws(c),
{
    c == ' ' || c == '\t' || c == '\n' || c == '\r'
}

fn skip_ws_exec(s: &Vec<char>, i: usize) -> (r: usize)
    requires
        i <= s@.len(),
    ensures
        r as int == skip_ws(s@, i as int),
        i <= r <= s@.len(),
{
    let n = s.len();
    let mut r: usize = i;
    while r < n && is_json_ws_exec(s[r])
        invariant
            n == s@.len(),
            i <= r <= n,
            skip_ws(s@, i as int) == skip_ws(s@, r as int),
        decreases n - r,
    {
        r = r + 1;
    }
    r
}

fn hex_val_exec(c: char) -> (r: Option<u32>)
    ensures
        r is Some <==> hex_val(c) >= 0,
        r matches Some(v) ==> v == hex_val(c) && v < 16,
{
    if c == '0' {
        Some(0)
    } else if c == '1' {
        Some(1)
    } else if c == '2' {
        Some(2)
    } else if c == '3' {
        Some(3)
    } else if c == '4' {
        Some(4)
    } else if c == '5' {
        Some(5)
    } else if c == '6' {
        Some(6)
    } else if c == '7' {
        Some(7)
    } else if c == '8' {
        Some(8)
    } else if c == '9' {
        Some(9)
    } else if c == 'a' || c == 'A' {
        Some(10)
    } else if c == 'b' || c == 'B' {
        Some(11)
    } else if c == 'c' || c == 'C' {
        Some(12)
    } else if c == 'd' || c == 'D' {
        Some(13)
    } else if c == 'e' || c == 'E' {
        Some(14)
    } else if c == 'f' || c == 'F' {
        Some(15)
    } else {
        None
    }
}

fn scan_escape_exec(s: &Vec<char>, i: usize) -> (r: Option<(char, usize)>)
    requires
        i <= s@.len(),
    ensures
        r is Some <==> scan_escape(s@, i as int) is Some,
        r matches Some((c, j)) ==> scan_escape(s@, i as int) == Some((c, j as int)) && i < j
            <= s@.len(),
{
    if i >= s.len() {
        return None;
    }
    let c = s[i];
    if c == '"' {
        Some(('"', i + 1))
    } else if c == '\\' {
        Some(('\\', i + 1))
    } else if c == '/' {
        Some(('/', i + 1))
    } else if c == 'n' {
        Some(('\n', i + 1))
    } else if c == 't' {
        Some(('\t', i + 1))
    } else if c == 'r' {
        Some(('\r', i + 1))
    } else if c == 'b' {
        Some(('\u{8}', i + 1))
    } else if c == 'f' {
        Some(('\u{c}', i + 1))
    } else if c == 'u' {
        if s.len() < 5 || i > s.len() - 5 {
            return None;
        }
        let h1 = match hex_val_exec(s[i + 1]) {
            Some(v) => v,
            None => {
                return None;
            },
        };
        let h2 = match hex_val_exec(s[i + 2]) {
            Some(v) => v,
            None => {
                return None;
            },
        };
        let h3 = match hex_val_exec(s[i + 3]) {
            Some(v) => v,
            None => {
                return None;
            },
        };
        let h4 = match hex_val_exec(s[i + 4]) {
            Some(v) => v,
            None => {
                return None;
            },
        };
        let code: u32 = h1 * 4096 + h2 * 256 + h3 * 16 + h4;
        if code < 0xD800 || code >= 0xE000 {
            match char_from_u32(code) {
                Some(d) => {
                    proof {
                        lemma_code_char(d);
                    }
                    Some((d, i + 5))
                },
                None => {
                    proof {
                        assert(code < 0xD800 || (0xE000 <= code && code <= 0x10FFFF));
                        assert(false);
                    }
                    None
                },
            }
        } else if code < 0xDC00 {
            // a high surrogate must pair with an escaped low surrogate
            if s.len() < 11 || i > s.len() - 11 || s[i + 5] != '\\' || s[i + 6] != 'u' {
                return None;
            }
            let l1 = match hex_val_exec(s[i + 7]) {
                Some(v) => v,
                None => {
                    return None;
                },
            };
            let l2 = match hex_val_exec(s[i + 8]) {
                Some(v) => v,
                None => {
                    return None;
                },
            };
            let l3 = match hex_val_exec(s[i + 9]) {
                Some(v) => v,
                None => {
                    return None;
                },
            };
            let l4 = match hex_val_exec(s[i + 10]) {
                Some(v) => v,
                None => {
                    return None;
                },
            };
            let low: u32 = l1 * 4096 + l2 * 256 + l3 * 16 + l4;
            if 0xDC00 <= low && low < 0xE000 {
                let combined: u32 = 0x10000 + (code - 0xD800) * 0x400 + (low - 0xDC00);
                match char_from_u32(combined) {
                    Some(d) => {
                        proof {
                            lemma_code_char(d);
                        }
                        Some((d, i + 11))
                    },
                    None => {
                        proof {
                            assert(0x10000 <= combined <= 0x10FFFF);
                            assert(false);
                        }
                        None
                    },
                }
            } else {
                None
            }
        } else {
            None
        }
    } else {
        None
    }
}

spec fn prepend_scan(acc: Seq<char>, o: Option<(Seq<char>, int)>) -> Option<(Seq<char>, int)> {
    match o {
        Some((t, e)) => Some((acc + t, e)),
        None => None,
    }
}

/// Scan a string literal starting at `i`.
fn scan_string_exec(s: &Vec<char>, i: usize) -> (r: Option<(Vec<char>, usize)>)
    requires
        i <= s@.len(),
    ensures
        r is Some <==> scan_string(s@, i as int) is Some,
        r matches Some((v, j)) ==> scan_string(s@, i as int) == Some((v@, j as int)) && i < j
            <= s@.len(),
{
    let n = s.len();
    if i >= n || s[i] != '"' {
        return None;
    }
    let ghost start: int = i as int + 1;
    let mut acc: Vec<char> = Vec::new();
    let mut cur: usize = i + 1;
    proof {
        assert(acc@ =~= Seq::<char>::empty());
        if scan_body(s@, start) is Some {
            let (t, e) = scan_body(s@, start)->Some_0;
            assert(acc@ + t =~= t);
        }
        assert(prepend_scan(acc@, scan_body(s@, start)) == scan_body(s@, start));
    }
    loop
        invariant
            n == s@.len(),
            i < n,
            s@[i as int] == '"',
            start == i as int + 1,
            i as int + 1 <= cur as int <= n,
            scan_body(s@, start) == prepend_scan(acc@, scan_body(s@, cur as int)),
        decreases n - cur,
    {
        if cur >= n {
            return None;
        }
        let c = s[cur];
        if c == '"' {
            proof {
                assert(scan_body(s@, cur as int) == Some((Seq::<char>::empty(), cur as int + 1)));
                assert(acc@ + Seq::<char>::empty() =~= acc@);
            }
            return Some((acc, cur + 1));
        } else if c == '\\' {
            match scan_escape_exec(s, cur + 1) {
                Some((d, j)) => {
                    let ghost old_acc = acc@;
                    let ghost old_cur = cur as int;
                    acc.push(d);
                    cur = j;
                    proof {
                        if scan_body(s@, j as int) is Some {
                            let (t, e) = scan_body(s@, j as int)->Some_0;
                            assert(scan_body(s@, old_cur) == Some((seq![d] + t, e)));
                            assert(old_acc + (seq![d] + t) =~= (old_acc + seq![d]) + t);
                            assert(acc@ =~= old_acc + seq![d]);
                        } else {
                            assert(scan_body(s@, old_cur) is None);
                        }
                    }
                },
                None => {
                    proof {
                        assert(scan_body(s@, cur as int) is None);
                    }
                    return None;
                },
            }
        } else {
            if (c as u32) < 0x20 {
                proof {
                    assert(scan_body(s@, cur as int) is None);
                }
                return None;
            }
            let ghost old_acc = acc@;
            let ghost old_cur = cur as int;
            acc.push(c);
            cur = cur + 1;
            proof {
                if scan_body(s@, old_cur + 1) is Some {
                    let (t, e) = scan_body(s@, old_cur + 1)->Some_0;
                    assert(scan_body(s@, old_cur) == Some((seq![c] + t, e)));
                    assert(old_acc + (seq![c] + t) =~= (old_acc + seq![c]) + t);
                    assert(acc@ =~= old_acc + seq![c]);
                } else {
                    assert(scan_body(s@, old_cur) is None);
                }
            }
        }
    }
}

/// Scan one member whose key must be `key`.
fn scan_member_exec(s: &Vec<char>, i: usize, key: &str) -> (r: Option<(String, usize)>)
    requires
        i <= s@.len(),
    ensures
        r is Some <==> scan_member(s@, i as int, key@) is Some,
        r matches Some((v, j)) ==> scan_member(s@, i as int, key@) == Some((v@, j as int)) && j
            <= s@.len(),
{
    let i0 = skip_ws_exec(s, i);
    let (k, i1) = match scan_string_exec(s, i0) {
        Some(p) => p,
        None => {
            return None;
        },
    };
    if !crate::strutil::chars_eq_str(&k, key) {
        return None;
    }
    let i2 = skip_ws_exec(s, i1);
    if i2 >= s.len() || s[i2] != ':' {
        return None;
    }
    let i3 = skip_ws_exec(s, i2 + 1);
    match scan_string_exec(s, i3) {
        Some((v, j)) => {
            let vs = crate::strutil::string_from_chars(&v);
            Some((vs, j))
        },
        None => None,
    }
}

/// The model a configuration text denotes: the parsed record, or the
/// defaults when the text is missing or unparsable.
pub open spec fn config_of_text(content: Option<Seq<char>>) -> ConfigModel {
    match content {
        Some(t) => match parse_config_model(t) {
            Some(m) => m,
            None => crate::config::default_config(),
        },
        None => crate::config::default_config(),
    }
}

/// Parse a configuration record from text.
#[verifier::rlimit(80)]
pub fn parse_config(s: &str) -> (r: Option<crate::config::Config>)
    ensures
        r is Some <==> parse_config_model(s@) is Some,
        r matches Some(c) ==> parse_config_model(s@) == Some(c@),
{
    let chars = crate::strutil::str_to_chars(s);
    let i0 = skip_ws_exec(&chars, 0);
    if i0 >= chars.len() || chars[i0] != '{' {
        return None;
    }
    let ghost keys = config_keys();
    proof {
        assert(keys.drop_first() =~= seq![
            "internet_interface"@,
            "connection_name"@,
            "ssid"@,
            "password"@,
            "band"@,
            "gateway_ip"@,
        ]);
        assert(keys.drop_first().drop_first() =~= seq![
            "connection_name"@,
            "ssid"@,
            "password"@,
            "band"@,
            "gateway_ip"@,
        ]);
        assert(keys.drop_first().drop_first().drop_first() =~= seq![
            "ssid"@,
            "password"@,
            "band"@,
            "gateway_ip"@,
        ]);
        assert(keys.drop_first().drop_first().drop_first().drop_first() =~= seq![
            "password"@,
            "band"@,
            "gateway_ip"@,
        ]);
        assert(keys.drop_first().drop_first().drop_first().drop_first().drop_first() =~= seq![
            "band"@,
            "gateway_ip"@,
        ]);
        assert(keys.drop_first().drop_first().drop_first().drop_first().drop_first().drop_first()
            =~= seq!["gateway_ip"@]);
    }
    let ghost k1 = keys.drop_first();
    let ghost k2 = k1.drop_first();
    let ghost k3 = k2.drop_first();
    let ghost k4 = k3.drop_first();
    let ghost k5 = k4.drop_first();
    let ghost k6 = k5.drop_first();
    let p1 = i0 + 1;
    let (v1, j1) = match scan_member_exec(&chars, p1, "hotspot_interface") {
        Some(p) => p,
        None => {
            return None;
        },
    };
    proof {
        assert(keys[0] == "hotspot_interface"@);
        assert(scan_members(s@, p1 as int, keys) == (match expect_punct(s@, j1 as int, ',') {
            Some(jn) => match scan_members(s@, jn, k1) {
                Some(p) => Some((seq![v1@] + p.0, p.1)),
                None => None,
            },
            None => None,
        }));
    }
    let c1 = skip_ws_exec(&chars, j1);
    if c1 >= chars.len() || chars[c1] != ',' {
        return None;
    }
    proof {
        assert(expect_punct(s@, j1 as int, ',') == Some(c1 as int + 1));
    }
    let (v2, j2) = match scan_member_exec(&chars, c1 + 1, "internet_interface") {
        Some(p) => p,
        None => {
            return None;
        },
    };
    proof {
        assert(k1[0] == "internet_interface"@);
        assert(scan_members(s@, c1 as int + 1, k1) == (match expect_punct(s@, j2 as int, ',') {
            Some(jn) => match scan_members(s@, jn, k2) {
                Some(p) => Some((seq![v2@] + p.0, p.1)),
                None => None,
            },
            None => None,
        }));
    }
    let c2 = skip_ws_exec(&chars, j2);
    if c2 >= chars.len() || chars[c2] != ',' {
        return None;
    }
    proof {
        assert(expect_punct(s@, j2 as int, ',') == Some(c2 as int + 1));
    }
    let (v3, j3) = match scan_member_exec(&chars, c2 + 1, "connection_name") {
        Some(p) => p,
        None => {
            return None;
        },
    };
    proof {
        assert(k2[0] == "connection_name"@);
        assert(scan_members(s@, c2 as int + 1, k2) == (match expect_punct(s@, j3 as int, ',') {
            Some(jn) => match scan_members(s@, jn, k3) {
                Some(p) => Some((seq![v3@] + p.0, p.1)),
                None => None,
            },
            None => None,
        }));
    }
    let c3 = skip_ws_exec(&chars, j3);
    if c3 >= chars.len() || chars[c3] != ',' {
        return None;
    }
    proof {
        assert(expect_punct(s@, j3 as int, ',') == Some(c3 as int + 1));
    }
    let (v4, j4) = match scan_member_exec(&chars, c3 + 1, "ssid") {
        Some(p) => p,
        None => {
            return None;
        },
    };
    proof {
        assert(k3[0] == "ssid"@);
        assert(scan_members(s@, c3 as int + 1, k3) == (match expect_punct(s@, j4 as int, ',') {
            Some(jn) => match scan_members(s@, jn, k4) {
                Some(p) => Some((seq![v4@] + p.0, p.1)),
                None => None,
            },
            None => None,
        }));
    }
    let c4 = skip_ws_exec(&chars, j4);
    if c4 >= chars.len() || chars[c4] != ',' {
        return None;
    }
    proof {
        assert(expect_punct(s@, j4 as int, ',') == Some(c4 as int + 1));
    }
    let (v5, j5) = match scan_member_exec(&chars, c4 + 1, "password") {
        Some(p) => p,
        None => {
            return None;
        },
    };
    proof {
        assert(k4[0] == "password"@);
        assert(scan_members(s@, c4 as int + 1, k4) == (match expect_punct(s@, j5 as int, ',') {
            Some(jn) => match scan_members(s@, jn, k5) {
                Some(p) => Some((seq![v5@] + p.0, p.1)),
                None => None,
            },
            None => None,
        }));
    }
    let c5 = skip_ws_exec(&chars, j5);
    if c5 >= chars.len() || chars[c5] != ',' {
        return None;
    }
    proof {
        assert(expect_punct(s@, j5 as int, ',') == Some(c5 as int + 1));
    }
    let (v6, j6) = match scan_member_exec(&chars, c5 + 1, "band") {
        Some(p) => p,
        None => {
            return None;
        },
    };
    proof {
        assert(k5[0] == "band"@);
        assert(scan_members(s@, c5 as int + 1, k5) == (match expect_punct(s@, j6 as int, ',') {
            Some(jn) => match scan_members(s@, jn, k6) {
                Some(p) => Some((seq![v6@] + p.0, p.1)),
                None => None,
            },
            None => None,
        }));
    }
    let c6 = skip_ws_exec(&chars, j6);
    if c6 >= chars.len() || chars[c6] != ',' {
        return None;
    }
    proof {
        assert(expect_punct(s@, j6 as int, ',') == Some(c6 as int + 1));
    }
    let (v7, j7) = match scan_member_exec(&chars, c6 + 1, "gateway_ip") {
        Some(p) => p,
        None => {
            return None;
        },
    };
    proof {
        assert(k6[0] == "gateway_ip"@);
        assert(scan_members(s@, c6 as int + 1, k6) == Some((seq![v7@], j7 as int)));
    }
    let e0 = skip_ws_exec(&chars, j7);
    if e0 >= chars.len() || chars[e0] != '}' {
        return None;
    }
    let e1 = skip_ws_exec(&chars, e0 + 1);
    if e1 < chars.len() {
        return None;
    }
    let cfg = crate::config::Config {
        hotspot_interface: v1,
        internet_interface: v2,
        connection_name: v3,
        ssid: v4,
        password: v5,
        band: v6,
        gateway_ip: v7,
    };
    proof {
        let vs = scan_members(s@, p1 as int, keys)->Some_0.0;
        assert(vs =~= seq![v1@, v2@, v3@, v4@, v5@, v6@, v7@]);
        assert(config_from_values(vs) == cfg@);
    }
    Some(cfg)
}

/// The configuration a stored text yields: the parsed record, or the
/// defaults when the text is missing or unreadable.
pub fn config_from_text(content: Option<&str>) -> (r: crate::config::Config)
    ensures
        r@ == config_of_text(match content {
            Some(t) => Some(t@),
            None => None,
        }),
{
    match content {
        Some(t) => match parse_config(t) {
            Some(c) => c,
            None => crate::config::Config::default(),
        },
        None => crate::config::Config::default(),
    }
}

/// The value a whole text denotes as a single JSON string: optional
/// whitespace, one string literal, optional whitespace, nothing else.
pub open spec fn json_string_value(s: Seq<char>) -> Option<Seq<char>> {
    let i = skip_ws(s, 0);
    match scan_string(s, i) {
        Some((v, j)) => if skip_ws(s, j) == s.len() {
            Some(v)
        } else {
            None
        },
        None => None,
    }
}

/// Why a text fails to parse as one JSON string literal: it does not open
/// with a quote, its literal is malformed (unterminated, an unknown or
/// unpaired escape, a bare control character), or something follows it.
/// Meaningful only on texts whose `json_string_value` is `None`.
pub open spec fn json_string_error(s: Seq<char>) -> Seq<char> {
    let i = skip_ws(s, 0);
    if !(0 <= i < s.len() && s[i] == '"') {
        "expected a string literal"@
    } else if scan_body(s, i + 1) is None {
        "malformed string literal"@
    } else {
        "trailing characters after the string"@
    }
}

/// Parse a whole text as one JSON string literal, or say why it is none.
pub fn parse_json_string(s: &str) -> (r: Result<String, String>)
    ensures
        r is Ok <==> json_string_value(s@) is Some,
        r matches Ok(v) ==> json_string_value(s@) == Some(v@),
        r matches Err(e) ==> e@ == json_string_error(s@),
{
    let chars = crate::strutil::str_to_chars(s);
    let i = skip_ws_exec(&chars, 0);
    if i >= chars.len() || chars[i] != '"' {
        return Err(String::from_str("expected a string literal"));
    }
    match scan_string_exec(&chars, i) {
        Some((v, j)) => {
            let e = skip_ws_exec(&chars, j);
            if e >= chars.len() {
                Ok(crate::strutil::string_from_chars(&v))
            } else {
                Err(String::from_str("trailing characters after the string"))
            }
        },
        None => Err(String::from_str("malformed string literal")),
    }
}

/// The literal that writes a string value.
pub fn encode_json_string(s: &str) -> (r: String)
    ensures
        r@ == quoted(s@),
{
    let chars = crate::strutil::str_to_chars(s);
    let mut out: Vec<char> = Vec::new();
    quote_into(&mut out, &chars);
    proof {
        assert(out@ =~= quoted(s@));
    }
    crate::strutil::string_from_chars(&out)
}

/// Law: writing a string value and parsing the literal back yields the
/// value.
pub proof fn lemma_json_string_round_trip(v: Seq<char>)
    ensures
        json_string_value(quoted(v)) == Some(v),
{
    let f = quoted(v);
    assert(f[0] == '"');
    assert(skip_ws(f, 0) == 0);
    assert(f.subrange(0, f.len() as int) =~= f);
    lemma_scan_string_of_quoted(f, 0, v);
    assert(skip_ws(f, f.len() as int) == f.len());
}

/// Law: writing a configuration record and parsing it back yields the
/// record, field for field.
#[verifier::rlimit(60)]
pub proof fn lemma_config_round_trip(c: ConfigModel)
    ensures
        parse_config_model(config_json(c)) == Some(c),
{
    let f = config_json(c);
    let ms = config_members(c);
    let mj = members_json(ms);
    assert(f[0] == '{');
    assert(skip_ws(f, 0) == 0);
    assert(expect_punct(f, 0, '{') == Some(1int));
    assert(f.subrange(1, 1 + mj.len() as int) =~= mj) by {
        assert forall|t: int| 0 <= t < mj.len() implies f[1 + t] == mj[t] by {
            assert(f[1 + t] == (seq!['{'] + mj + seq!['}'])[1 + t]);
        }
    }
    lemma_scan_members_of_json(f, 1, ms);
    assert(ms.map_values(|p: (Seq<char>, Seq<char>)| p.0) =~= config_keys());
    let vals = ms.map_values(|p: (Seq<char>, Seq<char>)| p.1);
    let j: int = 1 + mj.len() as int;
    assert(f[j + 0] == (seq!['{'] + mj + seq!['}'])[j as int]);
    assert(f[j] == '}');
    assert(skip_ws(f, j) == j);
    assert(expect_punct(f, j, '}') == Some(j + 1));
    assert(j + 1 == f.len());
    assert(skip_ws(f, f.len() as int) == f.len());
    assert(vals[0] == c.hotspot_interface);
    assert(vals[1] == c.internet_interface);
    assert(vals[2] == c.connection_name);
    assert(vals[3] == c.ssid);
    assert(vals[4] == c.password);
    assert(vals[5] == c.band);
    assert(vals[6] == c.gateway_ip);
    assert(config_from_values(vals) == c);
}

} // verus!
