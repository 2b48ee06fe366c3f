//! Base64 in the standard alphabet, with padding.

use vstd::prelude::*;

verus! {

/// The alphabet, in order.
pub open spec fn alphabet() -> Seq<char> {
    "ABCDEFGHIJKLMNOPQRSTUVWXYZabcdefghijklmnopqrstuvwxyz0123456789+/"@
}

/// The character of a six-bit value.
pub open spec fn sextet_char(v: int) -> char {
    if v < 26 {
        (65 + v) as char
    } else if v < 52 {
        (71 + v) as char
    } else if v < 62 {
        (v - 4) as char
    } else if v == 62 {
        '+'
    } else {
        '/'
    }
}

/// The four characters that stand for the first three bytes of `s`, or for the one or two there
/// are.
pub open spec fn group_chars(s: Seq<u8>) -> Seq<char> {
    let a = s[0] as int;
    let b = if s.len() > 1 {
        s[1] as int
    } else {
        0
    };
    let c = if s.len() > 2 {
        s[2] as int
    } else {
        0
    };
    seq![
        sextet_char(a / 4),
        sextet_char((a % 4) * 16 + b / 16),
        if s.len() > 1 {
            sextet_char((b % 16) * 4 + c / 64)
        } else {
            '='
        },
        if s.len() > 2 {
            sextet_char(c % 64)
        } else {
            '='
        },
    ]
}

/// `s` in base64.
pub open spec fn base64(s: Seq<u8>) -> Seq<char>
    decreases s.len(),
{
    if s.len() == 0 {
        Seq::empty()
    } else if s.len() <= 3 {
        group_chars(s)
    } else {
        group_chars(s) + base64(s.skip(3))
    }
}

fn sextet(v: u8) -> (c: char)
    requires
        v < 64,
    ensures
        c == sextet_char(v as int),
{
    if v < 26 {
        (65 + v) as char
    } else if v < 52 {
        (71 + v) as char
    } else if v < 62 {
        (v - 4) as char
    } else if v == 62 {
        '+'
    } else {
        '/'
    }
}

/// Encode `input` in base64.
pub fn base64_encode(input: &[u8]) -> (out: String)
    ensures
        out@ == base64(input@),
{
    let mut out = String::new();
    let mut i: usize = 0;
    let n: usize = input.len();
    assert(input@.skip(0) =~= input@);
    assert(Seq::<char>::empty() + base64(input@) =~= base64(input@));
    while i < n
        invariant
            n == input@.len(),
            i <= n,
            out@ + base64(input@.skip(i as int)) == base64(input@),
        decreases n - i,
    {
        let ghost before = out@;
        let ghost left = input@.skip(i as int);
        let a: u8 = input[i];
        let b: u8 = if n - i > 1 {
            input[i + 1]
        } else {
            0
        };
        let c: u8 = if n - i > 2 {
            input[i + 2]
        } else {
            0
        };
        out.push(sextet(a / 4));
        out.push(sextet((a % 4) * 16 + b / 16));
        out.push(
            if n - i > 1 {
                sextet((b % 16) * 4 + c / 64)
            } else {
                '='
            },
        );
        out.push(
            if n - i > 2 {
                sextet(c % 64)
            } else {
                '='
            },
        );
        assert(out@ =~= before + group_chars(left));
        if n - i <= 3 {
            assert(base64(left) == group_chars(left));
            i = n;
            assert(out@ + base64(input@.skip(n as int)) =~= out@);
        } else {
            i = i + 3;
            assert(left.skip(3) =~= input@.skip(i as int));
            assert(out@ + base64(left.skip(3)) =~= before + base64(left));
        }
    }
    assert(out@ + base64(input@.skip(n as int)) =~= out@);
    out
}

/// What a character of the alphabet is worth.
pub open spec fn char_sextet(c: char) -> int {
    let n = c as int;
    if 65 <= n <= 90 {
        n - 65
    } else if 97 <= n <= 122 {
        n - 71
    } else if 48 <= n <= 57 {
        n + 4
    } else if c == '+' {
        62
    } else {
        63
    }
}

/// The bytes that a group of four characters stands for.
pub open spec fn group_bytes(g: Seq<char>) -> Seq<u8> {
    let (a, b, c, d) = (char_sextet(g[0]), char_sextet(g[1]), char_sextet(g[2]), char_sextet(g[3]));
    let first = (a * 4 + b / 16) as u8;
    let second = ((b % 16) * 16 + c / 4) as u8;
    let third = ((c % 4) * 64 + d) as u8;
    if g[2] == '=' {
        seq![first]
    } else if g[3] == '=' {
        seq![first, second]
    } else {
        seq![first, second, third]
    }
}

/// The bytes that base64 text stands for.
pub open spec fn unbase64(s: Seq<char>) -> Seq<u8>
    decreases s.len(),
{
    if s.len() < 4 {
        Seq::empty()
    } else {
        group_bytes(s.take(4)) + unbase64(s.skip(4))
    }
}

proof fn sextet_reads_back(v: int)
    requires
        0 <= v < 64,
    ensures
        char_sextet(sextet_char(v)) == v,
        sextet_char(v) != '=',
{
}

proof fn group_reads_back(s: Seq<u8>)
    requires
        1 <= s.len(),
    ensures
        group_bytes(group_chars(s)) == if s.len() <= 3 {
            s
        } else {
            s.take(3)
        },
{
    let a = s[0] as int;
    let b = if s.len() > 1 {
        s[1] as int
    } else {
        0
    };
    let c = if s.len() > 2 {
        s[2] as int
    } else {
        0
    };
    sextet_reads_back(a / 4);
    sextet_reads_back((a % 4) * 16 + b / 16);
    sextet_reads_back((b % 16) * 4 + c / 64);
    sextet_reads_back(c % 64);
    let want = if s.len() <= 3 {
        s
    } else {
        s.take(3)
    };
    assert(group_bytes(group_chars(s)) =~= want);
}

/// Decoding gives back what was encoded, and every three bytes, or what is left of them, take four
/// characters.
pub proof fn base64_reads_back(s: Seq<u8>)
    ensures
        unbase64(base64(s)) == s,
        base64(s).len() == (s.len() + 2) / 3 * 4,
    decreases s.len(),
{
    if s.len() > 0 {
        group_reads_back(s);
        let g = group_chars(s);
        let out = base64(s);
        assert(out.take(4) =~= g);
        if s.len() <= 3 {
            assert(out.skip(4) =~= Seq::<char>::empty());
            assert(unbase64(out.skip(4)) =~= Seq::<u8>::empty());
            assert(s + Seq::<u8>::empty() =~= s);
        } else {
            base64_reads_back(s.skip(3));
            assert(out.skip(4) =~= base64(s.skip(3)));
            assert(s.take(3) + s.skip(3) =~= s);
        }
    }
}

/// Each six-bit value has the character at its place in the alphabet.
pub proof fn sextets_follow_the_alphabet(v: int)
    requires
        0 <= v < 64,
    ensures
        alphabet().len() == 64,
        sextet_char(v) == alphabet()[v],
{
    reveal_strlit("ABCDEFGHIJKLMNOPQRSTUVWXYZabcdefghijklmnopqrstuvwxyz0123456789+/");
}

} // verus!
