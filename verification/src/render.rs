//! Verified text-building blocks for the SQL emitter.
//!
//! Emitted statements are assembled from three kinds of pieces: decimal
//! renderings of numbers, quoted identifiers, and fixed keywords.  User
//! supplied identifiers are not escaped but validated up front: a valid
//! identifier is non-empty ASCII consisting of letters, digits and
//! underscores — never a double quote — so surrounding it with double
//! quotes always yields a well-formed quoted SQL identifier.

use vstd::prelude::*;

verus! {

/// The decimal digit character for `d` (which must be below ten).
pub open spec fn spec_digit(d: nat) -> char {
    if d == 0 {
        '0'
    } else if d == 1 {
        '1'
    } else if d == 2 {
        '2'
    } else if d == 3 {
        '3'
    } else if d == 4 {
        '4'
    } else if d == 5 {
        '5'
    } else if d == 6 {
        '6'
    } else if d == 7 {
        '7'
    } else if d == 8 {
        '8'
    } else {
        '9'
    }
}

/// The decimal rendering of `n`, most significant digit first, no sign and
/// no leading zeros (a single zero for zero).
pub open spec fn spec_u64_dec(n: nat) -> Seq<char>
    decreases n,
{
    if n < 10 {
        seq![spec_digit(n)]
    } else {
        spec_u64_dec(n / 10) + seq![spec_digit(n % 10)]
    }
}

/// The decimal rendering of a signed number: a leading minus sign for
/// negative values.
pub open spec fn spec_i64_dec(v: int) -> Seq<char> {
    if v < 0 {
        seq!['-'] + spec_u64_dec((-v) as nat)
    } else {
        spec_u64_dec(v as nat)
    }
}

/// The one-character string for decimal digit `d`.
fn digit_str(d: u64) -> (r: &'static str)
    requires
        d < 10,
    ensures
        r@ == seq![spec_digit(d as nat)],
{
    let r: &'static str = if d == 0 {
        "0"
    } else if d == 1 {
        "1"
    } else if d == 2 {
        "2"
    } else if d == 3 {
        "3"
    } else if d == 4 {
        "4"
    } else if d == 5 {
        "5"
    } else if d == 6 {
        "6"
    } else if d == 7 {
        "7"
    } else if d == 8 {
        "8"
    } else {
        "9"
    };
    proof {
        reveal_strlit("0");
        reveal_strlit("1");
        reveal_strlit("2");
        reveal_strlit("3");
        reveal_strlit("4");
        reveal_strlit("5");
        reveal_strlit("6");
        reveal_strlit("7");
        reveal_strlit("8");
        reveal_strlit("9");
        assert(r@ =~= seq![spec_digit(d as nat)]);
    }
    r
}

/// Append the decimal rendering of `n` to `out`.
pub fn push_u64_dec(out: &mut String, n: u64)
    ensures
        final(out)@ == old(out)@ + spec_u64_dec(n as nat),
    decreases n,
{
    if n >= 10 {
        push_u64_dec(out, n / 10);
        out.append(digit_str(n % 10));
        proof {
            assert(final(out)@ =~= old(out)@ + spec_u64_dec(n as nat));
        }
    } else {
        out.append(digit_str(n));
    }
}

/// Append the decimal rendering of a signed value to `out`.
pub fn push_i64_dec(out: &mut String, v: i64)
    ensures
        final(out)@ == old(out)@ + spec_i64_dec(v as int),
{
    if v >= 0 {
        push_u64_dec(out, v as u64);
    } else {
        out.append("-");
        // avoid overflow at the minimum value
        let m: u64 = ((-(v + 1)) as u64) + 1;
        assert(m == -(v as int));
        push_u64_dec(out, m);
        proof {
            reveal_strlit("-");
            assert(seq!['-'] =~= "-"@);
            assert(final(out)@ =~= old(out)@ + spec_i64_dec(v as int));
        }
    }
}

/// Whether `c` may occur in an identifier: an ASCII letter, a digit or an
/// underscore.
pub open spec fn spec_ident_char(c: char) -> bool {
    ('a' <= c && c <= 'z') || ('A' <= c && c <= 'Z') || ('0' <= c && c <= '9') || c == '_'
}

/// Whether `s` is a valid identifier: non-empty, at most 512 characters,
/// every character an identifier character.
pub open spec fn spec_is_ident(s: Seq<char>) -> bool {
    &&& 0 < s.len() <= 512
    &&& forall|i: int| 0 <= i < s.len() ==> spec_ident_char(#[trigger] s[i])
}

/// Check that `s` is a valid identifier.
pub fn check_ident(s: &str) -> (r: bool)
    ensures
        r == spec_is_ident(s@),
{
    let len = s.unicode_len();
    if len == 0 || len > 512 {
        return false;
    }
    let mut i: usize = 0;
    let mut ok = true;
    while i < len && ok
        invariant
            len == s@.len(),
            i <= len,
            ok ==> forall|j: int| 0 <= j < i ==> spec_ident_char(#[trigger] s@[j]),
            !ok ==> !spec_is_ident(s@),
        decreases len - i + (if ok { 1int } else { 0int }),
    {
        let c = s.get_char(i);
        if ('a' <= c && c <= 'z') || ('A' <= c && c <= 'Z') || ('0' <= c && c <= '9') || c == '_' {
            i = i + 1;
        } else {
            ok = false;
        }
    }
    ok
}

/// The quoted form of identifier `s`.
pub open spec fn spec_quoted(s: Seq<char>) -> Seq<char> {
    seq!['"'] + s + seq!['"']
}

/// Append the quoted form of the (already validated) identifier `s`.
pub fn push_quoted(out: &mut String, s: &str)
    requires
        spec_is_ident(s@),
    ensures
        final(out)@ == old(out)@ + spec_quoted(s@),
{
    out.append("\"");
    out.append(s);
    out.append("\"");
    proof {
        reveal_strlit("\"");
        assert(seq!['"'] =~= "\""@);
        assert(final(out)@ =~= old(out)@ + spec_quoted(s@));
    }
}

/// The rendered name of a generated alias: an underscore followed by the
/// number.
pub open spec fn spec_alias_name(id: u64) -> Seq<char> {
    seq!['_'] + spec_u64_dec(id as nat)
}

/// Append the quoted rendered name of a generated alias.
pub fn push_alias(out: &mut String, id: u64)
    ensures
        final(out)@ == old(out)@ + spec_quoted(spec_alias_name(id)),
{
    out.append("\"_");
    push_u64_dec(out, id);
    out.append("\"");
    proof {
        reveal_strlit("\"_");
        reveal_strlit("\"");
        assert("\"_"@ =~= seq!['"', '_']);
        assert(seq!['"'] =~= "\""@);
        assert(final(out)@ =~= old(out)@ + spec_quoted(spec_alias_name(id)));
    }
}

} // verus!
