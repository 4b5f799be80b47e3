//! Text rendering helpers: decimal and octal numbers, JSON string escaping.

use vstd::prelude::*;
use vstd::string::StringExecFns;

verus! {

/// The character for one digit value below 16 (decimal, octal and hex all use
/// a prefix of this table).
pub open spec fn digit_char(d: nat) -> char {
    if d == 0 {
        '0'
    } else if d == 1 {
        '1'
    } else if d == 2 {
        '2'
    } else if d == 3 {
        '3'
    } else if d == 4 {
        '4'
    } else if d == 5 {
        '5'
    } else if d == 6 {
        '6'
    } else if d == 7 {
        '7'
    } else if d == 8 {
        '8'
    } else if d == 9 {
        '9'
    } else if d == 10 {
        'a'
    } else if d == 11 {
        'b'
    } else if d == 12 {
        'c'
    } else if d == 13 {
        'd'
    } else if d == 14 {
        'e'
    } else {
        'f'
    }
}

/// Decimal rendering of a number, most significant digit first, no sign and
/// no leading zeros (a lone `0` for zero).
pub open spec fn dec_chars(n: nat) -> Seq<char>
    decreases n,
{
    if n < 10 {
        seq![digit_char(n)]
    } else {
        dec_chars(n / 10) + seq![digit_char(n % 10)]
    }
}

/// Octal rendering of a number, as `chmod` takes it.
pub open spec fn oct_chars(n: nat) -> Seq<char>
    decreases n,
{
    if n < 8 {
        seq![digit_char(n)]
    } else {
        oct_chars(n / 8) + seq![digit_char(n % 8)]
    }
}

/// Relies on String::push: appends exactly the given character.
#[verifier::external_body]
pub fn push_char(s: &mut String, c: char)
    ensures
        final(s)@ == old(s)@.push(c),
{
    s.push(c);
}

fn append_digit(s: &mut String, d: u64)
    requires
        d < 16,
    ensures
        final(s)@ == old(s)@ + seq![digit_char(d as nat)],
{
    match d {
        0 => s.append("0"),
        1 => s.append("1"),
        2 => s.append("2"),
        3 => s.append("3"),
        4 => s.append("4"),
        5 => s.append("5"),
        6 => s.append("6"),
        7 => s.append("7"),
        8 => s.append("8"),
        9 => s.append("9"),
        10 => s.append("a"),
        11 => s.append("b"),
        12 => s.append("c"),
        13 => s.append("d"),
        14 => s.append("e"),
        _ => s.append("f"),
    }
    proof {
        reveal_strlit("0");
        reveal_strlit("1");
        reveal_strlit("2");
        reveal_strlit("3");
        reveal_strlit("4");
        reveal_strlit("5");
        reveal_strlit("6");
        reveal_strlit("7");
        reveal_strlit("8");
        reveal_strlit("9");
        reveal_strlit("a");
        reveal_strlit("b");
        reveal_strlit("c");
        reveal_strlit("d");
        reveal_strlit("e");
        reveal_strlit("f");
        assert(final(s)@ =~= old(s)@ + seq![digit_char(d as nat)]);
    }
}

/// Appends the decimal rendering of `n`.
pub fn append_dec(s: &mut String, n: u64)
    ensures
        final(s)@ == old(s)@ + dec_chars(n as nat),
    decreases n,
{
    if n >= 10 {
        append_dec(s, n / 10);
    }
    append_digit(s, n % 10);
    proof {
        assert(final(s)@ =~= old(s)@ + dec_chars(n as nat));
    }
}

/// Appends the octal rendering of `n`.
pub fn append_oct(s: &mut String, n: u64)
    ensures
        final(s)@ == old(s)@ + oct_chars(n as nat),
    decreases n,
{
    if n >= 8 {
        append_oct(s, n / 8);
    }
    append_digit(s, n % 8);
    proof {
        assert(final(s)@ =~= old(s)@ + oct_chars(n as nat));
    }
}

/// Decimal rendering of a signed value: a minus sign before the digits of
/// its magnitude.
pub open spec fn int_chars(n: int) -> Seq<char> {
    if n >= 0 {
        dec_chars(n as nat)
    } else {
        seq!['-'] + dec_chars((-n) as nat)
    }
}

/// Appends the decimal rendering of a signed value.
pub fn append_int(s: &mut String, n: i64)
    ensures
        final(s)@ == old(s)@ + int_chars(n as int),
{
    if n >= 0 {
        append_dec(s, n as u64);
    } else {
        s.append("-");
        let magnitude = (-(n as i128)) as u64;
        append_dec(s, magnitude);
        proof {
            reveal_strlit("-");
            assert(final(s)@ =~= old(s)@ + int_chars(n as int));
        }
    }
}

/// The decimal rendering of `n` on its own.
pub fn dec_string(n: u64) -> (r: String)
    ensures
        r@ == dec_chars(n as nat),
{
    let mut s = String::new();
    append_dec(&mut s, n);
    proof {
        assert(s@ =~= dec_chars(n as nat));
    }
    s
}

/// How one character is written inside a JSON string literal: quote and
/// backslash get a backslash, control characters a `\u00XX` escape, and
/// everything else stands as it is.
pub open spec fn json_escape_char(c: char) -> Seq<char> {
    if c == '"' {
        seq!['\\', '"']
    } else if c == '\\' {
        seq!['\\', '\\']
    } else if (c as nat) < 32 {
        seq!['\\', 'u', '0', '0', digit_char((c as nat) / 16), digit_char((c as nat) % 16)]
    } else {
        seq![c]
    }
}

/// A whole string escaped for a JSON string literal, without the quotes.
pub open spec fn json_escaped(s: Seq<char>) -> Seq<char>
    decreases s.len(),
{
    if s.len() == 0 {
        Seq::empty()
    } else {
        json_escape_char(s.first()) + json_escaped(s.drop_first())
    }
}

/// A JSON string literal: quotes around the escaped content.
pub open spec fn json_string(s: Seq<char>) -> Seq<char> {
    seq!['"'] + json_escaped(s) + seq!['"']
}

proof fn lemma_json_escaped_snoc(s: Seq<char>)
    requires
        s.len() > 0,
    ensures
        json_escaped(s) == json_escaped(s.drop_last()) + json_escape_char(s.last()),
    decreases s.len(),
{
    if s.len() == 1 {
        assert(s.drop_last() =~= Seq::<char>::empty());
        assert(s.drop_first() =~= Seq::<char>::empty());
        assert(json_escaped(s) == json_escape_char(s.first()) + json_escaped(s.drop_first()));
        assert(json_escaped(s) =~= json_escaped(s.drop_last()) + json_escape_char(s.last()));
    } else {
        lemma_json_escaped_snoc(s.drop_first());
        assert(s.drop_first().drop_last() =~= s.drop_last().drop_first());
        assert(s.drop_last().first() == s.first());
        assert(s.drop_first().last() == s.last());
        assert(json_escaped(s) == json_escape_char(s.first()) + json_escaped(s.drop_first()));
        assert(s.drop_last().len() > 0);
        assert(json_escaped(s.drop_last()) == json_escape_char(s.drop_last().first()) + json_escaped(
            s.drop_last().drop_first(),
        ));
        assert(json_escaped(s) =~= json_escaped(s.drop_last()) + json_escape_char(s.last()));
    }
}

fn append_escaped_char(s: &mut String, c: char)
    ensures
        final(s)@ == old(s)@ + json_escape_char(c),
{
    if c == '"' {
        s.append("\\\"");
        proof {
            reveal_strlit("\\\"");
            assert(final(s)@ =~= old(s)@ + json_escape_char(c));
        }
    } else if c == '\\' {
        s.append("\\\\");
        proof {
            reveal_strlit("\\\\");
            assert(final(s)@ =~= old(s)@ + json_escape_char(c));
        }
    } else if (c as u32) < 32 {
        s.append("\\u00");
        let code: u64 = (c as u32) as u64;
        append_digit(s, code / 16);
        append_digit(s, code % 16);
        proof {
            reveal_strlit("\\u00");
            assert(final(s)@ =~= old(s)@ + json_escape_char(c));
        }
    } else {
        push_char(s, c);
        proof {
            assert(final(s)@ =~= old(s)@ + json_escape_char(c));
        }
    }
}

/// Appends `v` escaped for a JSON string literal, without the quotes.
pub fn append_json_escaped(s: &mut String, v: &str)
    ensures
        final(s)@ == old(s)@ + json_escaped(v@),
{
    let len = v.unicode_len();
    let mut i: usize = 0;
    while i < len
        invariant
            len == v@.len(),
            i <= len,
            s@ == old(s)@ + json_escaped(v@.take(i as int)),
        decreases len - i,
    {
        let c = v.get_char(i);
        append_escaped_char(s, c);
        proof {
            lemma_json_escaped_snoc(v@.take(i + 1));
            assert(v@.take(i + 1).drop_last() =~= v@.take(i as int));
            assert(v@.take(i + 1).last() == v@[i as int]);
        }
        i = i + 1;
    }
    proof {
        assert(v@.take(len as int) =~= v@);
    }
}

/// True when `s` starts with `p`, character for character.
pub fn str_has_prefix(s: &str, p: &str) -> (r: bool)
    ensures
        r == (s@.len() >= p@.len() && s@.take(p@.len() as int) == p@),
{
    let slen = s.unicode_len();
    let plen = p.unicode_len();
    if slen < plen {
        proof {
            assert(!(s@.len() >= p@.len()));
        }
        return false;
    }
    let mut i: usize = 0;
    while i < plen
        invariant
            slen == s@.len(),
            plen == p@.len(),
            plen <= slen,
            i <= plen,
            forall|j: int| 0 <= j < i ==> s@[j] == p@[j],
        decreases plen - i,
    {
        if s.get_char(i) != p.get_char(i) {
            proof {
                assert(s@.take(p@.len() as int)[i as int] != p@[i as int]);
            }
            return false;
        }
        i = i + 1;
    }
    proof {
        assert(s@.take(p@.len() as int) =~= p@);
    }
    true
}

/// True when two strings hold the same characters.
pub fn str_eq(a: &str, b: &str) -> (r: bool)
    ensures
        r == (a@ == b@),
{
    let alen = a.unicode_len();
    let blen = b.unicode_len();
    if alen != blen {
        proof {
            assert(a@ != b@);
        }
        return false;
    }
    if str_has_prefix(a, b) {
        proof {
            assert(a@.take(b@.len() as int) =~= a@);
        }
        true
    } else {
        proof {
            assert(a@.take(b@.len() as int) =~= a@);
        }
        false
    }
}

/// `s` with a leading `p` removed when present, unchanged otherwise.
pub fn strip_prefix_or_self(s: &str, p: &str) -> (r: String)
    ensures
        r@ == if s@.len() >= p@.len() && s@.take(p@.len() as int) == p@ {
            s@.skip(p@.len() as int)
        } else {
            s@
        },
{
    if str_has_prefix(s, p) {
        let slen = s.unicode_len();
        let plen = p.unicode_len();
        let rest = s.substring_char(plen, slen);
        proof {
            assert(rest@ =~= s@.skip(p@.len() as int));
        }
        rest.to_owned()
    } else {
        s.to_owned()
    }
}

/// Appends a JSON string literal holding `v`.
pub fn append_json_string(s: &mut String, v: &str)
    ensures
        final(s)@ == old(s)@ + json_string(v@),
{
    s.append("\"");
    append_json_escaped(s, v);
    s.append("\"");
    proof {
        reveal_strlit("\"");
        assert(final(s)@ =~= old(s)@ + json_string(v@));
    }
}

} // verus!
