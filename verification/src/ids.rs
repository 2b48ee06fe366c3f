//! Identifiers: terminals, agents and repositories, and the text form of a terminal's id.

use vstd::prelude::*;
use crate::text::chars_of;

verus! {

/// A value that stands for something else and is only ever compared.
pub trait Ident: Copy {
    /// Whether two identifiers are the same one.
    fn same(self, other: Self) -> (b: bool)
        ensures
            b == (self == other),
    ;
}

/// A terminal: one pseudo-terminal run by the daemon.
#[derive(Clone, Copy, Debug, PartialEq, Eq, Hash, Structural)]
pub struct TerminalId(pub u128);

/// An agent: a workspace with a primary terminal and any number of shells.
#[derive(Clone, Copy, Debug, PartialEq, Eq, Hash, Structural)]
pub struct AgentId(pub u128);

/// A repository. Repositories are ordered by the value of their id.
#[derive(Clone, Copy, Debug, PartialEq, Eq, Hash, Structural)]
pub struct RepoId(pub u128);

impl Ident for TerminalId {
    fn same(self, other: Self) -> (b: bool) {
        self == other
    }
}

impl Ident for AgentId {
    fn same(self, other: Self) -> (b: bool) {
        self == other
    }
}

impl Ident for RepoId {
    fn same(self, other: Self) -> (b: bool) {
        self == other
    }
}

impl Ident for u64 {
    fn same(self, other: Self) -> (b: bool) {
        self == other
    }
}

impl Ident for u32 {
    fn same(self, other: Self) -> (b: bool) {
        self == other
    }
}

// --- the hyphenated hexadecimal form ---

/// The number of characters of an id's text.
pub const ID_TEXT_LEN: usize = 36;

/// The lower-case hexadecimal digit of value `d`.
pub open spec fn hex_digit(d: nat) -> char {
    if d < 10 {
        (48 + d) as char
    } else {
        (87 + d) as char
    }
}

/// What a hexadecimal digit of either case is worth.
pub open spec fn hex_value(c: char) -> Option<nat> {
    let n = c as int;
    if 48 <= n <= 57 {
        Some((n - 48) as nat)
    } else if 97 <= n <= 102 {
        Some((n - 87) as nat)
    } else if 65 <= n <= 70 {
        Some((n - 55) as nat)
    } else {
        None
    }
}

/// The last `len` hexadecimal digits of `n`, most significant first.
pub open spec fn hex(n: nat, len: nat) -> Seq<char>
    decreases len,
{
    if len == 0 {
        Seq::empty()
    } else {
        hex(n / 16, (len - 1) as nat).push(hex_digit(n % 16))
    }
}

/// The number that hexadecimal digits spell.
pub open spec fn hex_number(s: Seq<char>) -> nat
    decreases s.len(),
{
    if s.len() == 0 {
        0
    } else {
        hex_number(s.drop_last()) * 16 + hex_value(s.last()).unwrap_or(0)
    }
}

/// The places of the hyphens: groups of 8, 4, 4, 4 and 12 digits.
pub open spec fn hyphen_at(i: int) -> bool {
    i == 8 || i == 13 || i == 18 || i == 23
}

/// How many hyphens stand before place `i`.
pub open spec fn hyphens_before(i: int) -> int {
    if i <= 8 {
        0
    } else if i <= 13 {
        1
    } else if i <= 18 {
        2
    } else if i <= 23 {
        3
    } else {
        4
    }
}

/// The place of digit `j` once the hyphens are in.
pub open spec fn digit_place(j: int) -> int {
    if j < 8 {
        j
    } else if j < 12 {
        j + 1
    } else if j < 16 {
        j + 2
    } else if j < 20 {
        j + 3
    } else {
        j + 4
    }
}

/// The hyphenated text of an id.
pub open spec fn id_text(id: TerminalId) -> Seq<char> {
    Seq::new(
        36,
        |i: int|
            if hyphen_at(i) {
                '-'
            } else {
                hex(id.0 as nat, 32)[i - hyphens_before(i)]
            },
    )
}

/// Whether `s` has the shape of an id's text.
pub open spec fn is_id_text(s: Seq<char>) -> bool {
    &&& s.len() == 36
    &&& forall|i: int|
        0 <= i < 36 ==> if hyphen_at(i) {
            #[trigger] s[i] == '-'
        } else {
            hex_value(s[i]) is Some
        }
}

/// The 32 digits of an id's text.
pub open spec fn id_digits(s: Seq<char>) -> Seq<char> {
    Seq::new(32, |j: int| s[digit_place(j)])
}

/// The id that `s` spells, in digits of either case.
pub open spec fn parsed_id(s: Seq<char>) -> Option<TerminalId> {
    if is_id_text(s) {
        Some(TerminalId(hex_number(id_digits(s)) as u128))
    } else {
        None
    }
}

/// 16 to the power `k`.
pub open spec fn pow16(k: nat) -> nat
    decreases k,
{
    if k == 0 {
        1
    } else {
        16 * pow16((k - 1) as nat)
    }
}

proof fn pow16_of_32()
    ensures
        pow16(32) == 0x1_0000_0000_0000_0000_0000_0000_0000_0000,
{
    reveal_with_fuel(pow16, 33);
}

proof fn hex_number_bound(s: Seq<char>)
    ensures
        hex_number(s) < pow16(s.len()),
    decreases s.len(),
{
    if s.len() > 0 {
        hex_number_bound(s.drop_last());
    }
}

proof fn hex_len(n: nat, len: nat)
    ensures
        hex(n, len).len() == len,
        forall|i: int| 0 <= i < len ==> hex_value(#[trigger] hex(n, len)[i]) is Some,
    decreases len,
{
    if len > 0 {
        hex_len(n / 16, (len - 1) as nat);
    }
}

proof fn hex_number_of_hex(n: nat, len: nat)
    requires
        n < pow16(len),
    ensures
        hex_number(hex(n, len)) == n,
    decreases len,
{
    if len > 0 {
        hex_number_of_hex(n / 16, (len - 1) as nat);
        assert(hex(n, len).drop_last() =~= hex(n / 16, (len - 1) as nat));
        assert(hex_value(hex_digit(n % 16)) == Some(n % 16));
    }
}

/// Reading back the text of an id gives that id.
pub proof fn id_text_reads_back(id: TerminalId)
    ensures
        parsed_id(id_text(id)) == Some(id),
{
    let h = hex(id.0 as nat, 32);
    hex_len(id.0 as nat, 32);
    pow16_of_32();
    hex_number_of_hex(id.0 as nat, 32);
    assert(id_digits(id_text(id)) =~= h);
}

/// Every character of an id's text is ASCII.
pub proof fn id_text_is_ascii(id: TerminalId)
    ensures
        id_text(id).len() == 36,
        forall|i: int| 0 <= i < 36 ==> (#[trigger] id_text(id)[i]) as u32 <= 0x7f,
{
    hex_len(id.0 as nat, 32);
}

fn hex_char(d: u8) -> (c: char)
    requires
        d < 16,
    ensures
        c == hex_digit(d as nat),
{
    if d < 10 {
        (48 + d) as char
    } else {
        (87 + d) as char
    }
}

fn hex_chars(n: u128, len: usize) -> (out: Vec<char>)
    ensures
        out@ == hex(n as nat, len as nat),
    decreases len,
{
    if len == 0 {
        Vec::new()
    } else {
        let mut out = hex_chars(n / 16, len - 1);
        out.push(hex_char((n % 16) as u8));
        out
    }
}

fn hex_digit_value(c: char) -> (v: Option<u128>)
    ensures
        v is Some == hex_value(c) is Some,
        v is Some ==> v->0 as nat == hex_value(c)->0 && v->0 < 16,
{
    let n: u32 = c as u32;
    if 48 <= n && n <= 57 {
        Some((n - 48) as u128)
    } else if 97 <= n && n <= 102 {
        Some((n - 87) as u128)
    } else if 65 <= n && n <= 70 {
        Some((n - 55) as u128)
    } else {
        None
    }
}

/// The id spelt by 36 characters, if they have the shape of one.
pub fn id_of_chars(cs: &Vec<char>) -> (id: Option<TerminalId>)
    ensures
        id == parsed_id(cs@),
{
    if cs.len() != ID_TEXT_LEN {
        return None;
    }
    let mut i: usize = 0;
    let mut j: usize = 0;
    let mut n: u128 = 0;
    let ghost digits = id_digits(cs@);
    assert(digits.take(0) =~= Seq::<char>::empty());
    while i < 36
        invariant
            i <= 36,
            cs@.len() == 36,
            digits == id_digits(cs@),
            j == i - hyphens_before(i as int),
            j <= 32,
            n == hex_number(digits.take(j as int)),
            forall|k: int|
                0 <= k < i ==> if hyphen_at(k) {
                    #[trigger] cs@[k] == '-'
                } else {
                    hex_value(cs@[k]) is Some
                },
        decreases 36 - i,
    {
        let c = cs[i];
        if i == 8 || i == 13 || i == 18 || i == 23 {
            if c != '-' {
                return None;
            }
        } else {
            match hex_digit_value(c) {
                None => {
                    return None;
                },
                Some(d) => {
                    assert(digit_place(j as int) == i);
                    assert(digits[j as int] == c);
                    assert(digits.take(j + 1).drop_last() =~= digits.take(j as int));
                    proof {
                        hex_number_bound(digits.take(j as int));
                        hex_number_bound(digits.take(j + 1));
                        pow16_of_32();
                        pow16_grows((j + 1) as nat, 32);
                    }
                    n = n * 16 + d;
                    j = j + 1;
                },
            }
        }
        i = i + 1;
    }
    assert(digits.take(32) =~= digits);
    Some(TerminalId(n))
}

proof fn pow16_grows(a: nat, b: nat)
    requires
        a <= b,
    ensures
        pow16(a) <= pow16(b),
    decreases b,
{
    if a < b {
        pow16_grows(a, (b - 1) as nat);
    }
}

impl TerminalId {
    /// The id as 36 characters of hyphenated hexadecimal.
    pub fn to_full_string(&self) -> (out: String)
        ensures
            out@ == id_text(*self),
    {
        let h = hex_chars(self.0, 32);
        proof {
            hex_len(self.0 as nat, 32);
        }
        let mut out = String::new();
        let mut i: usize = 0;
        let mut j: usize = 0;
        while i < 36
            invariant
                i <= 36,
                h@ == hex(self.0 as nat, 32),
                h@.len() == 32,
                j == i - hyphens_before(i as int),
                j <= 32,
                out@ == id_text(*self).take(i as int),
            decreases 36 - i,
        {
            if i == 8 || i == 13 || i == 18 || i == 23 {
                out.push('-');
            } else {
                out.push(h[j]);
                j = j + 1;
            }
            assert(out@ =~= id_text(*self).take(i + 1));
            i = i + 1;
        }
        assert(id_text(*self).take(36) =~= id_text(*self));
        out
    }

    /// The id that `s` spells.
    pub fn parse(s: &str) -> (id: Option<TerminalId>)
        ensures
            id == parsed_id(s@),
    {
        let cs = chars_of(s);
        id_of_chars(&cs)
    }
}

} // verus!
