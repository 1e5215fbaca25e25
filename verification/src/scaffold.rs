//! The scaffolder's file contents. The wrapper-configuration file points the
//! toolchain's compiler invocation through the build-cache accelerator; its
//! one computed part is the accelerator's path, embedded as a quoted string
//! with every character escaped the way `char::escape_default` escapes it:
//! backslash, both quotes, tab, carriage return and line feed get a
//! backslash form, printable ASCII stands as itself, and everything else
//! becomes `\u{..}` with lowercase hex digits.

use vstd::prelude::*;
use vstd::string::*;
use crate::text::chars_of;
use crate::text::push_char;

verus! {

/// The lowercase hex digit for a value below sixteen.
pub open spec fn hex_digit(d: nat) -> char {
    if d == 0 {
        '0'
    } else if d == 1 {
        '1'
    } else if d == 2 {
        '2'
    } else if d == 3 {
        '3'
    } else if d == 4 {
        '4'
    } else if d == 5 {
        '5'
    } else if d == 6 {
        '6'
    } else if d == 7 {
        '7'
    } else if d == 8 {
        '8'
    } else if d == 9 {
        '9'
    } else if d == 10 {
        'a'
    } else if d == 11 {
        'b'
    } else if d == 12 {
        'c'
    } else if d == 13 {
        'd'
    } else if d == 14 {
        'e'
    } else {
        'f'
    }
}

/// The lowercase hex digits of a number, most significant first, with no
/// leading zeros.
pub open spec fn hex_seq(n: nat) -> Seq<char>
    decreases n,
{
    if n < 16 {
        seq![hex_digit(n)]
    } else {
        hex_seq(n / 16).push(hex_digit(n % 16))
    }
}

/// How one character appears inside the quoted wrapper path.
pub open spec fn escaped_char(c: char) -> Seq<char> {
    if c == '\t' {
        seq!['\\', 't']
    } else if c == '\r' {
        seq!['\\', 'r']
    } else if c == '\n' {
        seq!['\\', 'n']
    } else if c == '\\' {
        seq!['\\', '\\']
    } else if c == '\'' {
        seq!['\\', '\'']
    } else if c == '"' {
        seq!['\\', '"']
    } else if 0x20 <= (c as u32) && (c as u32) <= 0x7e {
        seq![c]
    } else {
        seq!['\\', 'u', '{'] + hex_seq((c as u32) as nat) + seq!['}']
    }
}

/// A whole character sequence, escaped character by character.
pub open spec fn escape_seq(s: Seq<char>) -> Seq<char>
    decreases s.len(),
{
    if s.len() == 0 {
        Seq::empty()
    } else {
        escaped_char(s[0]) + escape_seq(s.drop_first())
    }
}

/// The wrapper-configuration file's whole content for an accelerator at the
/// given path.
pub open spec fn config_content(path: Seq<char>) -> Seq<char> {
    "[build]\nrustc-wrapper = \""@ + escape_seq(path) + "\"\n"@
}

fn hex_digit_exec(d: u32) -> (c: char)
    requires
        d < 16,
    ensures
        c == hex_digit(d as nat),
{
    match d {
        0 => '0',
        1 => '1',
        2 => '2',
        3 => '3',
        4 => '4',
        5 => '5',
        6 => '6',
        7 => '7',
        8 => '8',
        9 => '9',
        10 => 'a',
        11 => 'b',
        12 => 'c',
        13 => 'd',
        14 => 'e',
        _ => 'f',
    }
}

/// Append the hex digits of `n` to `out`.
fn push_hex(out: &mut String, n: u32)
    ensures
        final(out)@ == old(out)@ + hex_seq(n as nat),
    decreases n,
{
    if n < 16 {
        push_char(out, hex_digit_exec(n));
        proof {
            assert(out@ =~= old(out)@ + hex_seq(n as nat));
        }
    } else {
        push_hex(out, n / 16);
        push_char(out, hex_digit_exec(n % 16));
        proof {
            assert(out@ =~= old(out)@ + hex_seq(n as nat));
        }
    }
}

/// Append one escaped character to `out`.
fn push_escaped(out: &mut String, c: char)
    ensures
        final(out)@ == old(out)@ + escaped_char(c),
{
    if c == '\t' {
        push_char(out, '\\');
        push_char(out, 't');
    } else if c == '\r' {
        push_char(out, '\\');
        push_char(out, 'r');
    } else if c == '\n' {
        push_char(out, '\\');
        push_char(out, 'n');
    } else if c == '\\' {
        push_char(out, '\\');
        push_char(out, '\\');
    } else if c == '\'' {
        push_char(out, '\\');
        push_char(out, '\'');
    } else if c == '"' {
        push_char(out, '\\');
        push_char(out, '"');
    } else {
        let u = c as u32;
        if 0x20 <= u && u <= 0x7e {
            push_char(out, c);
        } else {
            push_char(out, '\\');
            push_char(out, 'u');
            push_char(out, '{');
            push_hex(out, u);
            push_char(out, '}');
        }
    }
    proof {
        assert(out@ =~= old(out)@ + escaped_char(c));
    }
}

/// The accelerator path as it appears between the quotes of the wrapper
/// configuration.
pub fn escape_path(path: &str) -> (r: String)
    ensures
        r@ == escape_seq(path@),
{
    let v = chars_of(path);
    let mut out = String::new();
    let mut i: usize = 0;
    proof {
        assert(v@.skip(0) =~= v@);
        assert(out@ + escape_seq(v@) =~= escape_seq(v@));
    }
    while i < v.len()
        invariant
            i <= v@.len(),
            v@ == path@,
            out@ + escape_seq(v@.skip(i as int)) == escape_seq(v@),
        decreases v@.len() - i,
    {
        let ghost before = out@;
        let ghost rest = v@.skip(i as int);
        push_escaped(&mut out, v[i]);
        i = i + 1;
        proof {
            assert(rest[0] == v@[i - 1]);
            assert(rest.drop_first() =~= v@.skip(i as int));
            assert(out@ + escape_seq(v@.skip(i as int)) =~= before + escape_seq(rest));
        }
    }
    proof {
        assert(v@.skip(i as int) =~= Seq::<char>::empty());
        assert(escape_seq(v@.skip(i as int)) =~= Seq::<char>::empty());
        assert(out@ =~= escape_seq(v@));
    }
    out
}

/// The wrapper-configuration file content for an accelerator at `path`.
pub fn cache_config_content(path: &str) -> (r: String)
    ensures
        r@ == config_content(path@),
{
    let mut out = "[build]\nrustc-wrapper = \"".to_owned();
    let esc = escape_path(path);
    out.append(esc.as_str());
    out.append("\"\n");
    out
}

} // verus!
