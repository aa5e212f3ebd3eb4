//! Writing JSON text: strings with their escapes, decimal numbers, and the
//! pieces of objects.

use vstd::prelude::*;

verus! {

/// `String::push`: appends one char.
#[verifier::external_body]
pub(crate) fn string_push(s: &mut String, c: char)
    ensures
        final(s)@ == old(s)@.push(c),
{
    s.push(c)
}

/// The decimal digit `d` (for `d < 10`).
pub open spec fn digit_char(d: nat) -> char {
    if d == 0 { '0' } else if d == 1 { '1' } else if d == 2 { '2' } else if d == 3 { '3' }
    else if d == 4 { '4' } else if d == 5 { '5' } else if d == 6 { '6' } else if d == 7 { '7' }
    else if d == 8 { '8' } else { '9' }
}

/// The lower-case hexadecimal digit `d` (for `d < 16`).
pub open spec fn hex_char(d: nat) -> char {
    if d < 10 { digit_char(d) } else if d == 10 { 'a' } else if d == 11 { 'b' } else if d == 12 { 'c' }
    else if d == 13 { 'd' } else if d == 14 { 'e' } else { 'f' }
}

/// The decimal digits of `n`, without leading zeros (`"0"` for zero).
pub open spec fn dec(n: nat) -> Seq<char>
    decreases n,
{
    if n < 10 { seq![digit_char(n)] } else { dec(n / 10).push(digit_char(n % 10)) }
}

/// How a char is written inside a JSON string: quote and backslash escaped,
/// control chars as `\b \t \n \f \r` or `\u00XX`, every other char as itself.
pub open spec fn escape_char(c: char) -> Seq<char> {
    if c == '"' {
        seq!['\\', '"']
    } else if c == '\\' {
        seq!['\\', '\\']
    } else if c == '\u{8}' {
        seq!['\\', 'b']
    } else if c == '\t' {
        seq!['\\', 't']
    } else if c == '\n' {
        seq!['\\', 'n']
    } else if c == '\u{c}' {
        seq!['\\', 'f']
    } else if c == '\r' {
        seq!['\\', 'r']
    } else if (c as u32) < 0x20 {
        seq!['\\', 'u', '0', '0', hex_char(((c as u32) / 16) as nat), hex_char(((c as u32) % 16) as nat)]
    } else {
        seq![c]
    }
}

/// The chars of `s` escaped for a JSON string.
pub open spec fn escape(s: Seq<char>) -> Seq<char>
    decreases s.len(),
{
    if s.len() == 0 { Seq::empty() } else { escape(s.drop_last()) + escape_char(s.last()) }
}

/// `s` as a JSON string.
pub open spec fn json_string(s: Seq<char>) -> Seq<char> {
    seq!['"'] + escape(s) + seq!['"']
}

/// The member `"key":value` of a JSON object.
pub open spec fn member(key: Seq<char>, value: Seq<char>) -> Seq<char> {
    json_string(key) + seq![':'] + value
}

/// An optional string: the JSON string, or `null`.
pub open spec fn json_opt_string(s: Option<Seq<char>>) -> Seq<char> {
    match s {
        Some(s) => json_string(s),
        None => seq!['n', 'u', 'l', 'l'],
    }
}

/// An amount, written as a JSON string of its decimal digits.
pub open spec fn json_amount(n: nat) -> Seq<char> {
    json_string(dec(n))
}

fn digit(d: u8) -> (c: char)
    requires
        d < 10,
    ensures
        c == digit_char(d as nat),
{
    match d {
        0 => '0', 1 => '1', 2 => '2', 3 => '3', 4 => '4',
        5 => '5', 6 => '6', 7 => '7', 8 => '8', _ => '9',
    }
}

fn hex(d: u32) -> (c: char)
    requires
        d < 16,
    ensures
        c == hex_char(d as nat),
{
    if d < 10 {
        digit(d as u8)
    } else {
        match d {
            10 => 'a', 11 => 'b', 12 => 'c', 13 => 'd', 14 => 'e', _ => 'f',
        }
    }
}

/// Appends the decimal digits of `n`.
pub fn push_dec(out: &mut String, n: u128)
    ensures
        final(out)@ == old(out)@ + dec(n as nat),
    decreases n,
{
    if n >= 10 {
        push_dec(out, n / 10);
    }
    string_push(out, digit((n % 10) as u8));
    proof {
        if n >= 10 {
            assert(dec(n as nat) == dec((n / 10) as nat).push(digit_char((n % 10) as nat)));
        }
    }
    assert(final(out)@ =~= old(out)@ + dec(n as nat));
}

/// Appends `c`, escaped for a JSON string.
fn push_escaped_char(out: &mut String, c: char)
    ensures
        final(out)@ == old(out)@ + escape_char(c),
{
    let ghost start = out@;
    if c == '"' {
        string_push(out, '\\');
        string_push(out, '"');
    } else if c == '\\' {
        string_push(out, '\\');
        string_push(out, '\\');
    } else if c == '\u{8}' {
        string_push(out, '\\');
        string_push(out, 'b');
    } else if c == '\t' {
        string_push(out, '\\');
        string_push(out, 't');
    } else if c == '\n' {
        string_push(out, '\\');
        string_push(out, 'n');
    } else if c == '\u{c}' {
        string_push(out, '\\');
        string_push(out, 'f');
    } else if c == '\r' {
        string_push(out, '\\');
        string_push(out, 'r');
    } else if (c as u32) < 0x20 {
        string_push(out, '\\');
        string_push(out, 'u');
        string_push(out, '0');
        string_push(out, '0');
        string_push(out, hex((c as u32) / 16));
        string_push(out, hex((c as u32) % 16));
    } else {
        string_push(out, c);
    }
    assert(out@ =~= start + escape_char(c));
}

/// Appends `s` as a JSON string.
pub fn push_json_string(out: &mut String, s: &str)
    ensures
        final(out)@ == old(out)@ + json_string(s@),
{
    let ghost start = out@;
    string_push(out, '"');
    let n = s.unicode_len();
    let mut i: usize = 0;
    while i < n
        invariant
            i <= n,
            n == s@.len(),
            out@ == start + seq!['"'] + escape(s@.take(i as int)),
        decreases n - i,
    {
        let c = s.get_char(i);
        push_escaped_char(out, c);
        assert(s@.take(i as int + 1).drop_last() =~= s@.take(i as int));
        assert(s@.take(i as int + 1).last() == c);
        assert(out@ =~= start + seq!['"'] + escape(s@.take(i as int + 1)));
        i = i + 1;
    }
    assert(s@.take(n as int) =~= s@);
    string_push(out, '"');
    assert(out@ =~= start + json_string(s@));
}

/// Appends `s`.
pub fn push_str(out: &mut String, s: &str)
    ensures
        final(out)@ == old(out)@ + s@,
{
    out.append(s);
}

/// Appends `"key":` (the start of a member).
pub fn push_key(out: &mut String, key: &str)
    ensures
        final(out)@ == old(out)@ + json_string(key@) + seq![':'],
{
    push_json_string(out, key);
    string_push(out, ':');
}

/// Appends `n` as a JSON string of its decimal digits.
pub fn push_amount(out: &mut String, n: u128)
    ensures
        final(out)@ == old(out)@ + json_amount(n as nat),
{
    let ghost start = out@;
    string_push(out, '"');
    push_dec(out, n);
    string_push(out, '"');
    assert(escape(dec(n as nat)) == dec(n as nat)) by { lemma_dec_digits(n as nat); lemma_escape_digits(dec(n as nat)); }
    assert(out@ =~= start + json_amount(n as nat));
}

/// Appends an optional string: the JSON string, or `null`.
pub fn push_opt_string(out: &mut String, s: &Option<String>)
    ensures
        final(out)@ == old(out)@ + json_opt_string(match s { Some(s) => Some(s@), None => None }),
{
    match s {
        Some(s) => push_json_string(out, s.as_str()),
        None => {
            let ghost start = out@;
            string_push(out, 'n');
            string_push(out, 'u');
            string_push(out, 'l');
            string_push(out, 'l');
            assert(out@ =~= start + seq!['n', 'u', 'l', 'l']);
        },
    }
}

/// The chars of a decimal number are digits.
pub open spec fn all_digits(s: Seq<char>) -> bool {
    forall|i: int| 0 <= i < s.len() ==> '0' <= #[trigger] s[i] <= '9'
}

proof fn lemma_dec_digits(n: nat)
    ensures
        all_digits(dec(n)),
    decreases n,
{
    if n >= 10 {
        lemma_dec_digits(n / 10);
        assert forall|i: int| 0 <= i < dec(n).len() implies '0' <= #[trigger] dec(n)[i] <= '9' by {
            if i < dec(n / 10).len() {
                assert(dec(n)[i] == dec(n / 10)[i]);
            }
        }
    }
}

proof fn lemma_escape_digits(s: Seq<char>)
    requires
        all_digits(s),
    ensures
        escape(s) == s,
    decreases s.len(),
{
    if s.len() > 0 {
        assert(all_digits(s.drop_last())) by {
            assert forall|i: int| 0 <= i < s.drop_last().len() implies '0' <= #[trigger] s.drop_last()[i] <= '9' by {
                assert(s.drop_last()[i] == s[i]);
            }
        }
        lemma_escape_digits(s.drop_last());
        assert(s[s.len() - 1] == s.last());
        assert(escape_char(s.last()) =~= seq![s.last()]);
        assert(s.drop_last().push(s.last()) =~= s);
    }
}

} // verus!
