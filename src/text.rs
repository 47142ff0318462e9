use vstd::prelude::*;
use vstd::string::*;

verus! {

/// Relies on `String::push`: the character is appended at the end.
pub assume_specification[ String::push ](s: &mut String, ch: char)
    ensures
        final(s)@ == old(s)@.push(ch),
;

/// `c` with ASCII lower-case letters mapped to upper case.
pub open spec fn ascii_upper(c: char) -> char {
    if 'a' <= c && c <= 'z' {
        ((c as u8) - 32) as u8 as char
    } else {
        c
    }
}

/// `s` with every ASCII lower-case letter mapped to upper case.
pub open spec fn upper(s: Seq<char>) -> Seq<char> {
    s.map_values(|c: char| ascii_upper(c))
}

pub fn upper_char(c: char) -> (r: char)
    ensures
        r == ascii_upper(c),
{
    if 'a' <= c && c <= 'z' {
        ((c as u8) - 32) as char
    } else {
        c
    }
}

/// Appends `upper(s@)` to `out`.
pub fn push_upper(out: &mut String, s: &str)
    ensures
        final(out)@ == old(out)@ + upper(s@),
{
    let n = s.unicode_len();
    let ghost start = out@;
    let mut i: usize = 0;
    while i < n
        invariant
            n == s@.len(),
            i <= n,
            out@ == start + upper(s@.subrange(0, i as int)),
        decreases n - i,
    {
        let c = s.get_char(i);
        out.push(upper_char(c));
        proof {
            assert(upper(s@.subrange(0, i + 1)) =~= upper(s@.subrange(0, i as int)).push(ascii_upper(c)));
        }
        i = i + 1;
    }
    proof {
        assert(s@.subrange(0, n as int) =~= s@);
    }
}

/// Whether two strings hold the same characters.
pub fn same_text(a: &str, b: &str) -> (r: bool)
    ensures
        r == (a@ == b@),
{
    let n = a.unicode_len();
    if n != b.unicode_len() {
        return false;
    }
    let mut i: usize = 0;
    while i < n
        invariant
            n == a@.len(),
            n == b@.len(),
            i <= n,
            forall|j: int| 0 <= j < i ==> a@[j] == b@[j],
        decreases n - i,
    {
        if a.get_char(i) != b.get_char(i) {
            return false;
        }
        i = i + 1;
    }
    assert(a@ =~= b@);
    true
}

/// The boolean that `s` spells, as `bool`'s parser reads it: exactly `true` or `false`.
pub open spec fn parse_bool_spec(s: Seq<char>) -> Option<bool> {
    if s == seq!['t', 'r', 'u', 'e'] {
        Some(true)
    } else if s == seq!['f', 'a', 'l', 's', 'e'] {
        Some(false)
    } else {
        None
    }
}

pub fn parse_bool(s: &str) -> (r: Option<bool>)
    ensures
        r == parse_bool_spec(s@),
{
    proof {
        reveal_strlit("true");
        reveal_strlit("false");
    }
    assert("true"@ =~= seq!['t', 'r', 'u', 'e']);
    assert("false"@ =~= seq!['f', 'a', 'l', 's', 'e']);
    if same_text(s, "true") {
        Some(true)
    } else if same_text(s, "false") {
        Some(false)
    } else {
        None
    }
}

/// The decimal digit for `d < 10`.
pub open spec fn digit(d: nat) -> char {
    ((48 + d) as u8) as char
}

/// The decimal form of `n`.
pub open spec fn decimal(n: nat) -> Seq<char>
    decreases n,
{
    if n < 10 {
        seq![digit(n)]
    } else {
        decimal(n / 10).push(digit(n % 10))
    }
}

/// Appends the decimal form of `b` to `out`.
pub fn push_decimal(out: &mut String, b: u8)
    ensures
        final(out)@ == old(out)@ + decimal(b as nat),
{
    if b >= 100 {
        out.push(((48 + b / 100) as u8) as char);
        out.push(((48 + (b / 10) % 10) as u8) as char);
        out.push(((48 + b % 10) as u8) as char);
        assert(decimal(b as nat) =~= seq![digit((b / 100) as nat), digit(((b / 10) % 10) as nat), digit((b % 10) as nat)]) by {
            assert(decimal((b / 10) as nat) =~= seq![digit((b / 100) as nat), digit(((b / 10) % 10) as nat)]) by {
                assert(decimal((b / 100) as nat) == seq![digit((b / 100) as nat)]);
            }
        }
    } else if b >= 10 {
        out.push(((48 + b / 10) as u8) as char);
        out.push(((48 + b % 10) as u8) as char);
        assert(decimal(b as nat) =~= seq![digit((b / 10) as nat), digit((b % 10) as nat)]) by {
            assert(decimal((b / 10) as nat) == seq![digit((b / 10) as nat)]);
        }
    } else {
        out.push(((48 + b) as u8) as char);
    }
    assert(final(out)@ =~= old(out)@ + decimal(b as nat));
}

/// The items of a byte list in decimal, separated by `", "`.
pub open spec fn byte_items(bs: Seq<u8>) -> Seq<char>
    decreases bs.len(),
{
    if bs.len() == 0 {
        Seq::empty()
    } else if bs.len() == 1 {
        decimal(bs[0] as nat)
    } else {
        byte_items(bs.drop_last()) + seq![',', ' '] + decimal(bs.last() as nat)
    }
}

/// A byte list written as a bracketed list of decimal numbers, e.g. `[104, 105]`.
pub open spec fn byte_list(bs: Seq<u8>) -> Seq<char> {
    seq!['['] + byte_items(bs) + seq![']']
}

/// Appends `byte_list(bs@)` to `out`.
pub fn push_byte_list(out: &mut String, bs: &[u8])
    ensures
        final(out)@ == old(out)@ + byte_list(bs@),
{
    let ghost start = out@;
    out.push('[');
    let mut i: usize = 0;
    while i < bs.len()
        invariant
            i <= bs@.len(),
            out@ == start + seq!['['] + byte_items(bs@.subrange(0, i as int)),
        decreases bs@.len() - i,
    {
        let ghost before = out@;
        if i > 0 {
            out.push(',');
            out.push(' ');
        }
        push_decimal(out, bs[i]);
        proof {
            let s1 = bs@.subrange(0, i + 1);
            assert(s1.drop_last() =~= bs@.subrange(0, i as int));
            if i == 0 {
                assert(byte_items(s1) == decimal(bs@[0] as nat));
                assert(byte_items(bs@.subrange(0, 0)) =~= Seq::<char>::empty());
            }
            assert(out@ =~= start + seq!['['] + byte_items(s1));
        }
        i = i + 1;
    }
    out.push(']');
    proof {
        assert(bs@.subrange(0, bs@.len() as int) =~= bs@);
        assert(out@ =~= start + byte_list(bs@));
    }
}

/// Appends `s` to `out`.
pub fn push_text(out: &mut String, s: &str)
    ensures
        final(out)@ == old(out)@ + s@,
{
    out.append(s);
}

} // verus!
