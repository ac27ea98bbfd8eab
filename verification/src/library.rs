//! The per-format encoders: pure functions from a byte sequence, a constant
//! name and a tab size to the text of a constant declaration in a target
//! language, or to a plain hexadecimal or binary dump.
//!
//! Every encoder is total: any byte sequence, the empty one included, yields
//! a complete declaration or dump. The text each encoder returns is pinned
//! down exactly by a spec function over the view of its inputs.

use crate::language::Language;
use vstd::prelude::*;

verus! {

/// Bytes per generated line inside a constant declaration body.
pub const BYTES_PER_ROW: usize = 12;

/// Bytes per generated line in a hexadecimal dump.
pub const HEX_BYTES_PER_ROW: usize = 16;

/// Bytes per generated line in a binary dump.
pub const BIN_BYTES_PER_ROW: usize = 8;

/// A run of `tab` space characters: one indentation level.
pub open spec fn spec_spaces(tab: nat) -> Seq<char> {
    Seq::new(tab, |i: int| ' ')
}

/// The lower-case hexadecimal digit for a value below sixteen.
pub open spec fn spec_hex_char(d: u8) -> char {
    if d == 0 {
        '0'
    } else if d == 1 {
        '1'
    } else if d == 2 {
        '2'
    } else if d == 3 {
        '3'
    } else if d == 4 {
        '4'
    } else if d == 5 {
        '5'
    } else if d == 6 {
        '6'
    } else if d == 7 {
        '7'
    } else if d == 8 {
        '8'
    } else if d == 9 {
        '9'
    } else if d == 10 {
        'a'
    } else if d == 11 {
        'b'
    } else if d == 12 {
        'c'
    } else if d == 13 {
        'd'
    } else if d == 14 {
        'e'
    } else {
        'f'
    }
}

/// A byte as exactly two lower-case hexadecimal digits.
pub open spec fn spec_hex_pair(x: u8) -> Seq<char> {
    seq![spec_hex_char(x / 16), spec_hex_char(x % 16)]
}

/// Bit `i` of a byte, most significant first, as the character '0' or '1'.
pub open spec fn spec_bit_char(x: u8, i: int) -> char {
    if (x >> ((7 - i) as u8)) & 1 == 1 {
        '1'
    } else {
        '0'
    }
}

/// A byte as exactly eight '0'/'1' characters, most significant bit first.
pub open spec fn spec_bin_bits(x: u8) -> Seq<char> {
    Seq::new(8, |i: int| spec_bit_char(x, i))
}

/// What stands before the token of byte `i` in a dump wrapped at `per`
/// bytes per line: nothing before the first, a newline at a line start,
/// a space otherwise.
pub open spec fn spec_dump_sep(i: int, per: int) -> Seq<char> {
    if i == 0 {
        Seq::empty()
    } else if i % per == 0 {
        seq!['\n']
    } else {
        seq![' ']
    }
}

/// The full hexadecimal dump: two-digit byte tokens separated by single
/// spaces, wrapped every `HEX_BYTES_PER_ROW` bytes.
pub open spec fn spec_hex_dump(b: Seq<u8>) -> Seq<char>
    decreases b.len(),
{
    if b.len() == 0 {
        Seq::empty()
    } else {
        spec_hex_dump(b.drop_last()) + spec_dump_sep(b.len() - 1, HEX_BYTES_PER_ROW as int)
            + spec_hex_pair(b.last())
    }
}

/// The full binary dump: eight-digit byte tokens separated by single
/// spaces, wrapped every `BIN_BYTES_PER_ROW` bytes.
pub open spec fn spec_bin_dump(b: Seq<u8>) -> Seq<char>
    decreases b.len(),
{
    if b.len() == 0 {
        Seq::empty()
    } else {
        spec_bin_dump(b.drop_last()) + spec_dump_sep(b.len() - 1, BIN_BYTES_PER_ROW as int)
            + spec_bin_bits(b.last())
    }
}

/// A byte inside a declaration body: a `0x`-prefixed pair of hex digits.
pub open spec fn spec_hex_token(x: u8) -> Seq<char> {
    seq!['0', 'x'] + spec_hex_pair(x)
}

/// What stands before the token of byte `i` in a declaration body:
/// the indentation before the first byte, a comma, the line break `brk`
/// and the indentation at a line start, a comma and a space otherwise.
pub open spec fn spec_body_sep(i: int, tab: nat, brk: Seq<char>) -> Seq<char> {
    if i == 0 {
        spec_spaces(tab)
    } else if i % (BYTES_PER_ROW as int) == 0 {
        seq![','] + brk + spec_spaces(tab)
    } else {
        seq![',', ' ']
    }
}

/// The byte list of a declaration body: `0x`-tokens separated by commas,
/// wrapped every `BYTES_PER_ROW` bytes with the line break `brk`, every
/// line indented by `tab` spaces. Empty input gives empty text.
pub open spec fn spec_const_body(b: Seq<u8>, tab: nat, brk: Seq<char>) -> Seq<char>
    decreases b.len(),
{
    if b.len() == 0 {
        Seq::empty()
    } else {
        spec_const_body(b.drop_last(), tab, brk) + spec_body_sep(b.len() - 1, tab, brk)
            + spec_hex_token(b.last())
    }
}

/// A declaration body between braces: empty for no bytes, otherwise the
/// byte list on its own lines with a trailing comma.
pub open spec fn spec_block(b: Seq<u8>, tab: nat) -> Seq<char> {
    if b.len() == 0 {
        Seq::empty()
    } else {
        seq!['\n'] + spec_const_body(b, tab, seq!['\n']) + seq![',', '\n']
    }
}

/// A declaration body inside a C macro definition: as `spec_block`, but
/// every line break is escaped with a backslash and the text stays on the
/// macro's logical line.
pub open spec fn spec_define_block(b: Seq<u8>, tab: nat) -> Seq<char> {
    if b.len() == 0 {
        Seq::empty()
    } else {
        seq![' ', '\\', '\n'] + spec_const_body(b, tab, seq![' ', '\\', '\n']) + seq![',']
    }
}

/// The C constant declaration.
pub open spec fn spec_c_const(b: Seq<u8>, name: Seq<char>, tab: nat) -> Seq<char> {
    "const unsigned char "@ + name + "[] = {"@ + spec_block(b, tab) + "};"@
}

/// The C macro definition.
pub open spec fn spec_c_define(b: Seq<u8>, name: Seq<char>, tab: nat) -> Seq<char> {
    "#define "@ + name + " {"@ + spec_define_block(b, tab) + " }"@
}

/// The Rust constant declaration.
pub open spec fn spec_rust_const(b: Seq<u8>, name: Seq<char>, tab: nat) -> Seq<char> {
    "const "@ + name + ": &[u8] = &["@ + spec_block(b, tab) + "];"@
}

/// The C# constant declaration.
pub open spec fn spec_csharp_const(b: Seq<u8>, name: Seq<char>, tab: nat) -> Seq<char> {
    "public static readonly byte[] "@ + name + " = {"@ + spec_block(b, tab) + "};"@
}

/// The Python constant declaration.
pub open spec fn spec_python_const(b: Seq<u8>, name: Seq<char>, tab: nat) -> Seq<char> {
    name + " = bytes(["@ + spec_block(b, tab) + "])"@
}

/// The JavaScript constant declaration.
pub open spec fn spec_javascript_const(b: Seq<u8>, name: Seq<char>, tab: nat) -> Seq<char> {
    "const "@ + name + " = new Uint8Array(["@ + spec_block(b, tab) + "]);"@
}

/// The Go constant declaration.
pub open spec fn spec_go_const(b: Seq<u8>, name: Seq<char>, tab: nat) -> Seq<char> {
    "var "@ + name + " = []byte{"@ + spec_block(b, tab) + "}"@
}

/// The Java constant declaration.
pub open spec fn spec_java_const(b: Seq<u8>, name: Seq<char>, tab: nat) -> Seq<char> {
    "public static final int[] "@ + name + " = {"@ + spec_block(b, tab) + "};"@
}

/// The text that encoding `b` under format `lang` with constant name
/// `name` and tab size `tab` yields. The dumps ignore name and tab size.
pub open spec fn spec_encode(lang: Language, b: Seq<u8>, name: Seq<char>, tab: nat) -> Seq<char> {
    match lang {
        Language::Binary => spec_bin_dump(b),
        Language::Hex => spec_hex_dump(b),
        Language::C => spec_c_const(b, name, tab),
        Language::CDef => spec_c_define(b, name, tab),
        Language::Rust => spec_rust_const(b, name, tab),
        Language::CSharp => spec_csharp_const(b, name, tab),
        Language::Python => spec_python_const(b, name, tab),
        Language::Javascript => spec_javascript_const(b, name, tab),
        Language::Go => spec_go_const(b, name, tab),
        Language::Java => spec_java_const(b, name, tab),
    }
}

/// The one-character string holding the hexadecimal digit of a value
/// below sixteen.
fn hex_digit_str(d: u8) -> (r: &'static str)
    requires
        d < 16,
    ensures
        r@ == seq![spec_hex_char(d)],
{
    proof {
        reveal_strlit("0");
        reveal_strlit("1");
        reveal_strlit("2");
        reveal_strlit("3");
        reveal_strlit("4");
        reveal_strlit("5");
        reveal_strlit("6");
        reveal_strlit("7");
        reveal_strlit("8");
        reveal_strlit("9");
        reveal_strlit("a");
        reveal_strlit("b");
        reveal_strlit("c");
        reveal_strlit("d");
        reveal_strlit("e");
        reveal_strlit("f");
    }
    let r: &'static str = match d {
        0 => "0",
        1 => "1",
        2 => "2",
        3 => "3",
        4 => "4",
        5 => "5",
        6 => "6",
        7 => "7",
        8 => "8",
        9 => "9",
        10 => "a",
        11 => "b",
        12 => "c",
        13 => "d",
        14 => "e",
        _ => "f",
    };
    proof {
        assert(r@ =~= seq![spec_hex_char(d)]);
    }
    r
}

/// Append `tab` space characters to `out`.
fn push_spaces(out: &mut String, tab: usize)
    ensures
        final(out)@ == old(out)@ + spec_spaces(tab as nat),
{
    let ghost out0: Seq<char> = out@;
    proof {
        reveal_strlit(" ");
        assert(out@ =~= out0 + spec_spaces(0));
    }
    let mut j: usize = 0;
    while j < tab
        invariant
            j <= tab,
            out@ == out0 + spec_spaces(j as nat),
        decreases tab - j,
    {
        out.append(" ");
        proof {
            reveal_strlit(" ");
            assert(out@ =~= out0 + spec_spaces((j + 1) as nat));
        }
        j += 1;
    }
}

/// Append the two hexadecimal digits of a byte to `out`.
fn push_hex_pair(out: &mut String, x: u8)
    ensures
        final(out)@ == old(out)@ + spec_hex_pair(x),
{
    let ghost out0: Seq<char> = out@;
    let hi: u8 = x / 16;
    let lo: u8 = x % 16;
    out.append(hex_digit_str(hi));
    out.append(hex_digit_str(lo));
    proof {
        assert(out@ =~= out0 + spec_hex_pair(x));
    }
}

/// Append the eight binary digits of a byte to `out`, most significant
/// bit first.
fn push_bin_bits(out: &mut String, x: u8)
    ensures
        final(out)@ == old(out)@ + spec_bin_bits(x),
{
    let ghost out0: Seq<char> = out@;
    proof {
        reveal_strlit("0");
        reveal_strlit("1");
        assert(out@ =~= out0 + spec_bin_bits(x).take(0));
    }
    let mut j: usize = 0;
    while j < 8
        invariant
            j <= 8,
            out@ == out0 + spec_bin_bits(x).take(j as int),
        decreases 8 - j,
    {
        let shift: u8 = (7 - j) as u8;
        let bit: u8 = (x >> shift) & 1;
        if bit == 1 {
            out.append("1");
        } else {
            out.append("0");
        }
        proof {
            reveal_strlit("0");
            reveal_strlit("1");
            assert(spec_bit_char(x, j as int) == (if bit == 1 { '1' } else { '0' }));
            assert(out@ =~= out0 + spec_bin_bits(x).take(j + 1));
        }
        j += 1;
    }
    proof {
        assert(spec_bin_bits(x).take(8) =~= spec_bin_bits(x));
    }
}

/// Emit a byte sequence as a binary dump: each byte as eight '0'/'1'
/// characters, bytes separated by spaces, `BIN_BYTES_PER_ROW` to a line.
pub fn binary_to_binary(bytes: &[u8]) -> (r: String)
    ensures
        r@ == spec_bin_dump(bytes@),
{
    let mut out = String::new();
    proof {
        assert(out@ =~= spec_bin_dump(bytes@.take(0)));
    }
    let mut i: usize = 0;
    while i < bytes.len()
        invariant
            i <= bytes@.len(),
            out@ == spec_bin_dump(bytes@.take(i as int)),
        decreases bytes@.len() - i,
    {
        if i > 0 {
            if i % BIN_BYTES_PER_ROW == 0 {
                out.append("\n");
            } else {
                out.append(" ");
            }
        }
        push_bin_bits(&mut out, bytes[i]);
        proof {
            reveal_strlit("\n");
            reveal_strlit(" ");
            let t = bytes@.take(i + 1);
            assert(t.drop_last() =~= bytes@.take(i as int));
            assert(out@ =~= spec_bin_dump(t));
        }
        i += 1;
    }
    proof {
        assert(bytes@.take(bytes@.len() as int) =~= bytes@);
    }
    out
}

/// Emit a byte sequence as a hexadecimal dump: each byte as two hex
/// digits, bytes separated by spaces, `HEX_BYTES_PER_ROW` to a line.
pub fn binary_to_hex(bytes: &[u8]) -> (r: String)
    ensures
        r@ == spec_hex_dump(bytes@),
{
    let mut out = String::new();
    proof {
        assert(out@ =~= spec_hex_dump(bytes@.take(0)));
    }
    let mut i: usize = 0;
    while i < bytes.len()
        invariant
            i <= bytes@.len(),
            out@ == spec_hex_dump(bytes@.take(i as int)),
        decreases bytes@.len() - i,
    {
        if i > 0 {
            if i % HEX_BYTES_PER_ROW == 0 {
                out.append("\n");
            } else {
                out.append(" ");
            }
        }
        push_hex_pair(&mut out, bytes[i]);
        proof {
            reveal_strlit("\n");
            reveal_strlit(" ");
            let t = bytes@.take(i + 1);
            assert(t.drop_last() =~= bytes@.take(i as int));
            assert(out@ =~= spec_hex_dump(t));
        }
        i += 1;
    }
    proof {
        assert(bytes@.take(bytes@.len() as int) =~= bytes@);
    }
    out
}

/// Append the byte list of a declaration body to `out`, wrapped with the
/// line break `brk` and indented by `tab` spaces.
fn push_const_body(out: &mut String, bytes: &[u8], tab: usize, brk: &str)
    ensures
        final(out)@ == old(out)@ + spec_const_body(bytes@, tab as nat, brk@),
{
    let ghost out0: Seq<char> = out@;
    proof {
        assert(out@ =~= out0 + spec_const_body(bytes@.take(0), tab as nat, brk@));
    }
    let mut i: usize = 0;
    while i < bytes.len()
        invariant
            i <= bytes@.len(),
            out@ == out0 + spec_const_body(bytes@.take(i as int), tab as nat, brk@),
        decreases bytes@.len() - i,
    {
        if i == 0 {
            push_spaces(out, tab);
        } else if i % BYTES_PER_ROW == 0 {
            out.append(",");
            out.append(brk);
            push_spaces(out, tab);
        } else {
            out.append(", ");
        }
        out.append("0x");
        push_hex_pair(out, bytes[i]);
        proof {
            reveal_strlit(",");
            reveal_strlit(", ");
            reveal_strlit("0x");
            let t = bytes@.take(i + 1);
            assert(t.drop_last() =~= bytes@.take(i as int));
            assert(out@ =~= out0 + spec_const_body(t, tab as nat, brk@));
        }
        i += 1;
    }
    proof {
        assert(bytes@.take(bytes@.len() as int) =~= bytes@);
    }
}

/// Append a braced declaration body to `out`: nothing for no bytes,
/// otherwise the byte list on its own lines with a trailing comma.
fn push_block(out: &mut String, bytes: &[u8], tab: usize)
    ensures
        final(out)@ == old(out)@ + spec_block(bytes@, tab as nat),
{
    let ghost out0: Seq<char> = out@;
    if bytes.len() > 0 {
        out.append("\n");
        push_const_body(out, bytes, tab, "\n");
        out.append(",\n");
        proof {
            reveal_strlit("\n");
            reveal_strlit(",\n");
            assert("\n"@ =~= seq!['\n']);
            assert(out@ =~= out0 + spec_block(bytes@, tab as nat));
        }
    } else {
        proof {
            assert(out@ =~= out0 + spec_block(bytes@, tab as nat));
        }
    }
}

/// Append a macro-definition body to `out`: as `push_block`, but with
/// backslash-escaped line breaks.
fn push_define_block(out: &mut String, bytes: &[u8], tab: usize)
    ensures
        final(out)@ == old(out)@ + spec_define_block(bytes@, tab as nat),
{
    let ghost out0: Seq<char> = out@;
    if bytes.len() > 0 {
        out.append(" \\\n");
        push_const_body(out, bytes, tab, " \\\n");
        out.append(",");
        proof {
            reveal_strlit(" \\\n");
            reveal_strlit(",");
            assert(" \\\n"@ =~= seq![' ', '\\', '\n']);
            assert(out@ =~= out0 + spec_define_block(bytes@, tab as nat));
        }
    } else {
        proof {
            assert(out@ =~= out0 + spec_define_block(bytes@, tab as nat));
        }
    }
}

/// Emit a C constant declaration for the bytes.
pub fn binary_to_c_const(bytes: &[u8], name: &str, tab_size: usize) -> (r: String)
    ensures
        r@ == spec_c_const(bytes@, name@, tab_size as nat),
{
    let mut out = String::from_str("const unsigned char ");
    out.append(name);
    out.append("[] = {");
    push_block(&mut out, bytes, tab_size);
    out.append("};");
    proof {
        assert(out@ =~= spec_c_const(bytes@, name@, tab_size as nat));
    }
    out
}

/// Emit a C macro definition for the bytes.
pub fn binary_to_c_define(bytes: &[u8], name: &str, tab_size: usize) -> (r: String)
    ensures
        r@ == spec_c_define(bytes@, name@, tab_size as nat),
{
    let mut out = String::from_str("#define ");
    out.append(name);
    out.append(" {");
    push_define_block(&mut out, bytes, tab_size);
    out.append(" }");
    proof {
        assert(out@ =~= spec_c_define(bytes@, name@, tab_size as nat));
    }
    out
}

/// Emit a Rust constant declaration for the bytes.
pub fn binary_to_rust_const(bytes: &[u8], name: &str, tab_size: usize) -> (r: String)
    ensures
        r@ == spec_rust_const(bytes@, name@, tab_size as nat),
{
    let mut out = String::from_str("const ");
    out.append(name);
    out.append(": &[u8] = &[");
    push_block(&mut out, bytes, tab_size);
    out.append("];");
    proof {
        assert(out@ =~= spec_rust_const(bytes@, name@, tab_size as nat));
    }
    out
}

/// Emit a C# constant declaration for the bytes.
pub fn binary_to_csharp_const(bytes: &[u8], name: &str, tab_size: usize) -> (r: String)
    ensures
        r@ == spec_csharp_const(bytes@, name@, tab_size as nat),
{
    let mut out = String::from_str("public static readonly byte[] ");
    out.append(name);
    out.append(" = {");
    push_block(&mut out, bytes, tab_size);
    out.append("};");
    proof {
        assert(out@ =~= spec_csharp_const(bytes@, name@, tab_size as nat));
    }
    out
}

/// Emit a Python constant declaration for the bytes.
pub fn binary_to_python_const(bytes: &[u8], name: &str, tab_size: usize) -> (r: String)
    ensures
        r@ == spec_python_const(bytes@, name@, tab_size as nat),
{
    let mut out = String::from_str(name);
    out.append(" = bytes([");
    push_block(&mut out, bytes, tab_size);
    out.append("])");
    proof {
        assert(out@ =~= spec_python_const(bytes@, name@, tab_size as nat));
    }
    out
}

/// Emit a JavaScript constant declaration for the bytes.
pub fn binary_to_javascript_const(bytes: &[u8], name: &str, tab_size: usize) -> (r: String)
    ensures
        r@ == spec_javascript_const(bytes@, name@, tab_size as nat),
{
    let mut out = String::from_str("const ");
    out.append(name);
    out.append(" = new Uint8Array([");
    push_block(&mut out, bytes, tab_size);
    out.append("]);");
    proof {
        assert(out@ =~= spec_javascript_const(bytes@, name@, tab_size as nat));
    }
    out
}

/// Emit a Go constant declaration for the bytes.
pub fn binary_to_go_const(bytes: &[u8], name: &str, tab_size: usize) -> (r: String)
    ensures
        r@ == spec_go_const(bytes@, name@, tab_size as nat),
{
    let mut out = String::from_str("var ");
    out.append(name);
    out.append(" = []byte{");
    push_block(&mut out, bytes, tab_size);
    out.append("}");
    proof {
        assert(out@ =~= spec_go_const(bytes@, name@, tab_size as nat));
    }
    out
}

/// Emit a Java constant declaration for the bytes.
pub fn binary_to_java_const(bytes: &[u8], name: &str, tab_size: usize) -> (r: String)
    ensures
        r@ == spec_java_const(bytes@, name@, tab_size as nat),
{
    let mut out = String::from_str("public static final int[] ");
    out.append(name);
    out.append(" = {");
    push_block(&mut out, bytes, tab_size);
    out.append("};");
    proof {
        assert(out@ =~= spec_java_const(bytes@, name@, tab_size as nat));
    }
    out
}

/// Encode the bytes under the selected format: the dispatch over the
/// closed set of formats.
pub fn encode(lang: Language, bytes: &[u8], name: &str, tab_size: usize) -> (r: String)
    ensures
        r@ == spec_encode(lang, bytes@, name@, tab_size as nat),
{
    match lang {
        Language::Binary => binary_to_binary(bytes),
        Language::Hex => binary_to_hex(bytes),
        Language::C => binary_to_c_const(bytes, name, tab_size),
        Language::CDef => binary_to_c_define(bytes, name, tab_size),
        Language::Rust => binary_to_rust_const(bytes, name, tab_size),
        Language::CSharp => binary_to_csharp_const(bytes, name, tab_size),
        Language::Python => binary_to_python_const(bytes, name, tab_size),
        Language::Javascript => binary_to_javascript_const(bytes, name, tab_size),
        Language::Go => binary_to_go_const(bytes, name, tab_size),
        Language::Java => binary_to_java_const(bytes, name, tab_size),
    }
}

} // verus!
