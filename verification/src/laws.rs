//! Laws of the encoders, proved once over the spec model: the emitted
//! text determines the bytes (so a decoder for the target language can
//! reproduce them), encoding is deterministic, and the dumps carry
//! exactly one fixed-width token per byte.

use crate::language::Language;
use crate::library::{
    spec_bin_bits, spec_bin_dump, spec_bit_char, spec_block, spec_body_sep, spec_const_body,
    spec_define_block, spec_dump_sep, spec_encode, spec_hex_char, spec_hex_dump, spec_hex_pair,
    spec_hex_token, spec_spaces, BIN_BYTES_PER_ROW, BYTES_PER_ROW, HEX_BYTES_PER_ROW,
};
use vstd::arithmetic::div_mod::lemma_fundamental_div_mod;
use vstd::prelude::*;

verus! {

/// A lower-case hexadecimal digit character.
pub open spec fn spec_is_hex_digit(c: char) -> bool {
    ('0' as u32 <= c as u32 && c as u32 <= '9' as u32) || ('a' as u32 <= c as u32 && c as u32
        <= 'f' as u32)
}

/// Token `i` of a dump whose byte tokens are `w` characters wide and
/// separated by one character each.
pub open spec fn spec_dump_token(s: Seq<char>, w: int, i: int) -> Seq<char> {
    s.subrange((w + 1) * i, (w + 1) * i + w)
}

/// The separator character standing before token `i` of such a dump.
pub open spec fn spec_dump_sep_at(s: Seq<char>, w: int, i: int) -> char {
    s[(w + 1) * i - 1]
}

/// Distinct values below sixteen have distinct hexadecimal digits.
proof fn lemma_hex_char_injective(d1: u8, d2: u8)
    requires
        d1 < 16,
        d2 < 16,
        spec_hex_char(d1) == spec_hex_char(d2),
    ensures
        d1 == d2,
{
}

/// Both characters of a byte's hexadecimal pair are hex digits.
pub proof fn lemma_hex_pair_digits(x: u8)
    ensures
        spec_hex_pair(x).len() == 2,
        spec_is_hex_digit(spec_hex_pair(x)[0]),
        spec_is_hex_digit(spec_hex_pair(x)[1]),
{
    assert(x / 16 < 16 && x % 16 < 16);
}

/// Every character of a byte's binary rendering is '0' or '1'.
pub proof fn lemma_bin_bits_chars(x: u8)
    ensures
        spec_bin_bits(x).len() == 8,
        forall|i: int|
            0 <= i < 8 ==> #[trigger] spec_bin_bits(x)[i] == '0' || spec_bin_bits(x)[i] == '1',
{
}

/// The hexadecimal pair determines the byte.
proof fn lemma_hex_pair_injective(x1: u8, x2: u8)
    requires
        spec_hex_pair(x1) == spec_hex_pair(x2),
    ensures
        x1 == x2,
{
    assert(spec_hex_pair(x1)[0] == spec_hex_char(x1 / 16));
    assert(spec_hex_pair(x1)[1] == spec_hex_char(x1 % 16));
    assert(spec_hex_pair(x2)[0] == spec_hex_char(x2 / 16));
    assert(spec_hex_pair(x2)[1] == spec_hex_char(x2 % 16));
    lemma_hex_char_injective(x1 / 16, x2 / 16);
    lemma_hex_char_injective(x1 % 16, x2 % 16);
    lemma_fundamental_div_mod(x1 as int, 16);
    lemma_fundamental_div_mod(x2 as int, 16);
}

/// The eight binary digits determine the byte.
proof fn lemma_bin_bits_injective(x1: u8, x2: u8)
    requires
        spec_bin_bits(x1) == spec_bin_bits(x2),
    ensures
        x1 == x2,
{
    assert forall|k: int| 0 <= k < 8 implies spec_bit_char(x1, k) == spec_bit_char(x2, k) by {
        assert(spec_bin_bits(x1)[k] == spec_bit_char(x1, k));
        assert(spec_bin_bits(x2)[k] == spec_bit_char(x2, k));
        assert(spec_bin_bits(x1)[k] == spec_bin_bits(x2)[k]);
    }
    assert(spec_bit_char(x1, 0) == spec_bit_char(x2, 0));
    assert(spec_bit_char(x1, 1) == spec_bit_char(x2, 1));
    assert(spec_bit_char(x1, 2) == spec_bit_char(x2, 2));
    assert(spec_bit_char(x1, 3) == spec_bit_char(x2, 3));
    assert(spec_bit_char(x1, 4) == spec_bit_char(x2, 4));
    assert(spec_bit_char(x1, 5) == spec_bit_char(x2, 5));
    assert(spec_bit_char(x1, 6) == spec_bit_char(x2, 6));
    assert(spec_bit_char(x1, 7) == spec_bit_char(x2, 7));
    assert(x1 == x2) by (bit_vector)
        requires
            ((x1 >> 7) & 1 == 1) <==> ((x2 >> 7) & 1 == 1),
            ((x1 >> 6) & 1 == 1) <==> ((x2 >> 6) & 1 == 1),
            ((x1 >> 5) & 1 == 1) <==> ((x2 >> 5) & 1 == 1),
            ((x1 >> 4) & 1 == 1) <==> ((x2 >> 4) & 1 == 1),
            ((x1 >> 3) & 1 == 1) <==> ((x2 >> 3) & 1 == 1),
            ((x1 >> 2) & 1 == 1) <==> ((x2 >> 2) & 1 == 1),
            ((x1 >> 1) & 1 == 1) <==> ((x2 >> 1) & 1 == 1),
            ((x1 >> 0) & 1 == 1) <==> ((x2 >> 0) & 1 == 1),
    ;
}

/// Splitting equal concatenations at the same distance from the end
/// splits them into equal parts.
proof fn lemma_concat_parts(a: Seq<char>, b: Seq<char>, c: Seq<char>, d: Seq<char>)
    requires
        a + b == c + d,
        b.len() == d.len(),
    ensures
        a == c,
        b == d,
{
    assert((a + b).len() == a.len() + b.len());
    assert((c + d).len() == c.len() + d.len());
    assert(a.len() == c.len());
    assert forall|i: int| 0 <= i < a.len() implies a[i] == c[i] by {
        assert((a + b)[i] == a[i]);
        assert((c + d)[i] == c[i]);
    }
    assert(a =~= c);
    assert forall|i: int| 0 <= i < b.len() implies b[i] == d[i] by {
        assert((a + b)[a.len() + i] == b[i]);
        assert((c + d)[c.len() + i] == d[i]);
    }
    assert(b =~= d);
}

/// Equal texts with the same prefix have equal remainders.
proof fn lemma_strip_prefix(p: Seq<char>, x: Seq<char>, y: Seq<char>)
    requires
        p + x == p + y,
    ensures
        x == y,
{
    assert((p + x).len() == p.len() + x.len());
    assert((p + y).len() == p.len() + y.len());
    assert(x.len() == y.len());
    lemma_concat_parts(p, x, p, y);
}

/// The character count of the separator before byte `i` of a body.
spec fn spec_sep_len(i: int, tab: nat, bl: nat) -> nat {
    if i == 0 {
        tab
    } else if i % (BYTES_PER_ROW as int) == 0 {
        1 + bl + tab
    } else {
        2
    }
}

/// The character count of a body of `n` bytes.
spec fn spec_body_len(n: nat, tab: nat, bl: nat) -> nat
    decreases n,
{
    if n == 0 {
        0
    } else {
        spec_body_len((n - 1) as nat, tab, bl) + spec_sep_len(n - 1, tab, bl) + 4
    }
}

/// A body's length follows `spec_body_len`: it depends only on the byte
/// count, the tab size and the line-break width.
proof fn lemma_const_body_len(b: Seq<u8>, tab: nat, brk: Seq<char>)
    ensures
        spec_const_body(b, tab, brk).len() == spec_body_len(b.len(), tab, brk.len()),
    decreases b.len(),
{
    if b.len() > 0 {
        lemma_const_body_len(b.drop_last(), tab, brk);
        assert(spec_hex_token(b.last()).len() == 4);
        assert(spec_body_sep(b.len() - 1, tab, brk).len() == spec_sep_len(
            b.len() - 1,
            tab,
            brk.len(),
        ));
    }
}

/// More bytes make a strictly longer body.
proof fn lemma_body_len_increasing(n1: nat, n2: nat, tab: nat, bl: nat)
    requires
        n1 < n2,
    ensures
        spec_body_len(n1, tab, bl) < spec_body_len(n2, tab, bl),
    decreases n2,
{
    if n1 < n2 - 1 {
        lemma_body_len_increasing(n1, (n2 - 1) as nat, tab, bl);
    }
}

/// The byte list of a declaration body determines the bytes.
proof fn lemma_const_body_injective(b1: Seq<u8>, b2: Seq<u8>, tab: nat, brk: Seq<char>)
    requires
        spec_const_body(b1, tab, brk) == spec_const_body(b2, tab, brk),
    ensures
        b1 == b2,
    decreases b1.len(),
{
    lemma_const_body_len(b1, tab, brk);
    lemma_const_body_len(b2, tab, brk);
    if b1.len() < b2.len() {
        lemma_body_len_increasing(b1.len(), b2.len(), tab, brk.len());
    }
    if b2.len() < b1.len() {
        lemma_body_len_increasing(b2.len(), b1.len(), tab, brk.len());
    }
    if b1.len() == 0 {
        assert(b1 =~= b2);
    } else {
        let a1 = spec_const_body(b1.drop_last(), tab, brk);
        let a2 = spec_const_body(b2.drop_last(), tab, brk);
        let s = spec_body_sep(b1.len() - 1, tab, brk);
        let t1 = spec_hex_token(b1.last());
        let t2 = spec_hex_token(b2.last());
        assert(spec_const_body(b1, tab, brk) == a1 + s + t1);
        assert(spec_const_body(b2, tab, brk) == a2 + s + t2);
        assert(t1.len() == 4 && t2.len() == 4);
        lemma_concat_parts(a1 + s, t1, a2 + s, t2);
        assert(spec_hex_pair(b1.last()) =~= spec_hex_pair(b2.last())) by {
            assert(t1[2] == spec_hex_pair(b1.last())[0]);
            assert(t1[3] == spec_hex_pair(b1.last())[1]);
            assert(t2[2] == spec_hex_pair(b2.last())[0]);
            assert(t2[3] == spec_hex_pair(b2.last())[1]);
        }
        lemma_hex_pair_injective(b1.last(), b2.last());
        lemma_concat_parts(a1, s, a2, s);
        lemma_const_body_injective(b1.drop_last(), b2.drop_last(), tab, brk);
        assert forall|i: int| 0 <= i < b1.len() implies b1[i] == b2[i] by {
            if i < b1.len() - 1 {
                assert(b1.drop_last()[i] == b1[i]);
                assert(b2.drop_last()[i] == b2[i]);
            } else {
                assert(b1[i] == b1.last());
                assert(b2[i] == b2.last());
            }
        }
        assert(b1 =~= b2);
    }
}

/// A braced declaration body determines the bytes.
proof fn lemma_block_injective(b1: Seq<u8>, b2: Seq<u8>, tab: nat)
    requires
        spec_block(b1, tab) == spec_block(b2, tab),
    ensures
        b1 == b2,
{
    let nl = seq!['\n'];
    if b1.len() == 0 && b2.len() == 0 {
        assert(b1 =~= b2);
    } else if b1.len() == 0 {
        assert(spec_block(b2, tab).len() > 0);
    } else if b2.len() == 0 {
        assert(spec_block(b1, tab).len() > 0);
    } else {
        let x1 = spec_const_body(b1, tab, nl);
        let x2 = spec_const_body(b2, tab, nl);
        assert(spec_block(b1, tab) == nl + x1 + seq![',', '\n']);
        assert(spec_block(b2, tab) == nl + x2 + seq![',', '\n']);
        lemma_concat_parts(nl + x1, seq![',', '\n'], nl + x2, seq![',', '\n']);
        lemma_strip_prefix(nl, x1, x2);
        lemma_const_body_injective(b1, b2, tab, nl);
    }
}

/// A macro-definition body determines the bytes.
proof fn lemma_define_block_injective(b1: Seq<u8>, b2: Seq<u8>, tab: nat)
    requires
        spec_define_block(b1, tab) == spec_define_block(b2, tab),
    ensures
        b1 == b2,
{
    let brk = seq![' ', '\\', '\n'];
    if b1.len() == 0 && b2.len() == 0 {
        assert(b1 =~= b2);
    } else if b1.len() == 0 {
        assert(spec_define_block(b2, tab).len() > 0);
    } else if b2.len() == 0 {
        assert(spec_define_block(b1, tab).len() > 0);
    } else {
        let x1 = spec_const_body(b1, tab, brk);
        let x2 = spec_const_body(b2, tab, brk);
        assert(spec_define_block(b1, tab) == brk + x1 + seq![',']);
        assert(spec_define_block(b2, tab) == brk + x2 + seq![',']);
        lemma_concat_parts(brk + x1, seq![','], brk + x2, seq![',']);
        lemma_strip_prefix(brk, x1, x2);
        lemma_const_body_injective(b1, b2, tab, brk);
    }
}

/// A declaration wrapped in any fixed head and tail determines the bytes.
proof fn lemma_wrapped_block_injective(
    pre: Seq<char>,
    post: Seq<char>,
    b1: Seq<u8>,
    b2: Seq<u8>,
    tab: nat,
)
    requires
        pre + spec_block(b1, tab) + post == pre + spec_block(b2, tab) + post,
    ensures
        b1 == b2,
{
    lemma_concat_parts(pre + spec_block(b1, tab), post, pre + spec_block(b2, tab), post);
    lemma_strip_prefix(pre, spec_block(b1, tab), spec_block(b2, tab));
    lemma_block_injective(b1, b2, tab);
}

/// A macro definition wrapped in any fixed head and tail determines the
/// bytes.
proof fn lemma_wrapped_define_injective(
    pre: Seq<char>,
    post: Seq<char>,
    b1: Seq<u8>,
    b2: Seq<u8>,
    tab: nat,
)
    requires
        pre + spec_define_block(b1, tab) + post == pre + spec_define_block(b2, tab) + post,
    ensures
        b1 == b2,
{
    lemma_concat_parts(pre + spec_define_block(b1, tab), post, pre + spec_define_block(b2, tab), post);
    lemma_strip_prefix(pre, spec_define_block(b1, tab), spec_define_block(b2, tab));
    lemma_define_block_injective(b1, b2, tab);
}

/// Shape of the hexadecimal dump: it is exactly one two-character hex
/// token per byte, tokens separated by single spaces or newlines.
pub proof fn lemma_hex_dump_shape(b: Seq<u8>)
    ensures
        spec_hex_dump(b).len() == if b.len() == 0 { 0int } else { 3 * b.len() - 1 },
        forall|i: int|
            0 <= i < b.len() ==> #[trigger] spec_dump_token(spec_hex_dump(b), 2, i)
                == spec_hex_pair(b[i]),
        forall|i: int|
            1 <= i < b.len() ==> #[trigger] spec_dump_sep_at(spec_hex_dump(b), 2, i) == (if i % (
            HEX_BYTES_PER_ROW as int) == 0 {
                '\n'
            } else {
                ' '
            }),
    decreases b.len(),
{
    if b.len() > 0 {
        let p = b.drop_last();
        lemma_hex_dump_shape(p);
        let d = spec_hex_dump(p);
        let s = spec_dump_sep(b.len() - 1, HEX_BYTES_PER_ROW as int);
        let t = spec_hex_pair(b.last());
        let full = spec_hex_dump(b);
        let n = b.len() as int;
        assert(full == d + s + t);
        assert forall|i: int| 0 <= i < n implies #[trigger] spec_dump_token(full, 2, i)
            == spec_hex_pair(b[i]) by {
            if i < n - 1 {
                assert(spec_dump_token(d, 2, i) == spec_hex_pair(p[i]));
                assert(full[3 * i] == d[3 * i]);
                assert(full[3 * i + 1] == d[3 * i + 1]);
                assert(spec_dump_token(full, 2, i) =~= spec_dump_token(d, 2, i));
            } else {
                assert((d + s).len() == 3 * i);
                assert(full[3 * i] == t[0]);
                assert(full[3 * i + 1] == t[1]);
                assert(spec_dump_token(full, 2, i) =~= t);
            }
        }
        assert forall|i: int| 1 <= i < n implies #[trigger] spec_dump_sep_at(full, 2, i) == (if i
            % (HEX_BYTES_PER_ROW as int) == 0 {
            '\n'
        } else {
            ' '
        }) by {
            if i < n - 1 {
                assert(spec_dump_sep_at(d, 2, i) == (if i % (HEX_BYTES_PER_ROW as int) == 0 {
                    '\n'
                } else {
                    ' '
                }));
                assert(full[3 * i - 1] == d[3 * i - 1]);
            } else {
                assert(d.len() == 3 * i - 1);
                assert(full[3 * i - 1] == s[0]);
            }
        }
    }
}

/// Shape of the binary dump: it is exactly one eight-character '0'/'1'
/// token per byte, tokens separated by single spaces or newlines.
pub proof fn lemma_bin_dump_shape(b: Seq<u8>)
    ensures
        spec_bin_dump(b).len() == if b.len() == 0 { 0int } else { 9 * b.len() - 1 },
        forall|i: int|
            0 <= i < b.len() ==> #[trigger] spec_dump_token(spec_bin_dump(b), 8, i)
                == spec_bin_bits(b[i]),
        forall|i: int|
            1 <= i < b.len() ==> #[trigger] spec_dump_sep_at(spec_bin_dump(b), 8, i) == (if i % (
            BIN_BYTES_PER_ROW as int) == 0 {
                '\n'
            } else {
                ' '
            }),
    decreases b.len(),
{
    if b.len() > 0 {
        let p = b.drop_last();
        lemma_bin_dump_shape(p);
        let d = spec_bin_dump(p);
        let s = spec_dump_sep(b.len() - 1, BIN_BYTES_PER_ROW as int);
        let t = spec_bin_bits(b.last());
        let full = spec_bin_dump(b);
        let n = b.len() as int;
        assert(full == d + s + t);
        assert forall|i: int| 0 <= i < n implies #[trigger] spec_dump_token(full, 8, i)
            == spec_bin_bits(b[i]) by {
            if i < n - 1 {
                assert(spec_dump_token(d, 8, i) == spec_bin_bits(p[i]));
                assert(9 * i + 7 < d.len());
                assert(full[9 * i] == d[9 * i]);
                assert(full[9 * i + 1] == d[9 * i + 1]);
                assert(full[9 * i + 2] == d[9 * i + 2]);
                assert(full[9 * i + 3] == d[9 * i + 3]);
                assert(full[9 * i + 4] == d[9 * i + 4]);
                assert(full[9 * i + 5] == d[9 * i + 5]);
                assert(full[9 * i + 6] == d[9 * i + 6]);
                assert(full[9 * i + 7] == d[9 * i + 7]);
                assert(spec_dump_token(full, 8, i) =~= spec_dump_token(d, 8, i));
            } else {
                assert((d + s).len() == 9 * i);
                assert(full[9 * i] == t[0]);
                assert(full[9 * i + 1] == t[1]);
                assert(full[9 * i + 2] == t[2]);
                assert(full[9 * i + 3] == t[3]);
                assert(full[9 * i + 4] == t[4]);
                assert(full[9 * i + 5] == t[5]);
                assert(full[9 * i + 6] == t[6]);
                assert(full[9 * i + 7] == t[7]);
                assert(spec_dump_token(full, 8, i) =~= t);
            }
        }
        assert forall|i: int| 1 <= i < n implies #[trigger] spec_dump_sep_at(full, 8, i) == (if i
            % (BIN_BYTES_PER_ROW as int) == 0 {
            '\n'
        } else {
            ' '
        }) by {
            if i < n - 1 {
                assert(spec_dump_sep_at(d, 8, i) == (if i % (BIN_BYTES_PER_ROW as int) == 0 {
                    '\n'
                } else {
                    ' '
                }));
                assert(full[9 * i - 1] == d[9 * i - 1]);
            } else {
                assert(d.len() == 9 * i - 1);
                assert(full[9 * i - 1] == s[0]);
            }
        }
    }
}

/// The hexadecimal dump determines the bytes.
proof fn lemma_hex_dump_injective(b1: Seq<u8>, b2: Seq<u8>)
    requires
        spec_hex_dump(b1) == spec_hex_dump(b2),
    ensures
        b1 == b2,
{
    lemma_hex_dump_shape(b1);
    lemma_hex_dump_shape(b2);
    if b1.len() == 0 || b2.len() == 0 {
        assert(b1 =~= b2);
    } else {
        assert(b1.len() == b2.len());
        assert forall|i: int| 0 <= i < b1.len() implies b1[i] == b2[i] by {
            assert(spec_dump_token(spec_hex_dump(b1), 2, i) == spec_hex_pair(b1[i]));
            assert(spec_dump_token(spec_hex_dump(b2), 2, i) == spec_hex_pair(b2[i]));
            lemma_hex_pair_injective(b1[i], b2[i]);
        }
        assert(b1 =~= b2);
    }
}

/// The binary dump determines the bytes.
proof fn lemma_bin_dump_injective(b1: Seq<u8>, b2: Seq<u8>)
    requires
        spec_bin_dump(b1) == spec_bin_dump(b2),
    ensures
        b1 == b2,
{
    lemma_bin_dump_shape(b1);
    lemma_bin_dump_shape(b2);
    if b1.len() == 0 || b2.len() == 0 {
        assert(b1 =~= b2);
    } else {
        assert(b1.len() == b2.len());
        assert forall|i: int| 0 <= i < b1.len() implies b1[i] == b2[i] by {
            assert(spec_dump_token(spec_bin_dump(b1), 8, i) == spec_bin_bits(b1[i]));
            assert(spec_dump_token(spec_bin_dump(b2), 8, i) == spec_bin_bits(b2[i]));
            lemma_bin_bits_injective(b1[i], b2[i]);
        }
        assert(b1 =~= b2);
    }
}

/// Full fidelity: under every format, with the constant name and tab size
/// fixed, the emitted text determines the input bytes exactly, so decoding
/// the declaration in its target language can reproduce them byte for
/// byte.
pub proof fn lemma_encode_reproduces_bytes(
    lang: Language,
    b1: Seq<u8>,
    b2: Seq<u8>,
    name: Seq<char>,
    tab: nat,
)
    requires
        spec_encode(lang, b1, name, tab) == spec_encode(lang, b2, name, tab),
    ensures
        b1 == b2,
{
    match lang {
        Language::Binary => lemma_bin_dump_injective(b1, b2),
        Language::Hex => lemma_hex_dump_injective(b1, b2),
        Language::C => lemma_wrapped_block_injective(
            "const unsigned char "@ + name + "[] = {"@,
            "};"@,
            b1,
            b2,
            tab,
        ),
        Language::CDef => lemma_wrapped_define_injective(
            "#define "@ + name + " {"@,
            " }"@,
            b1,
            b2,
            tab,
        ),
        Language::Rust => lemma_wrapped_block_injective(
            "const "@ + name + ": &[u8] = &["@,
            "];"@,
            b1,
            b2,
            tab,
        ),
        Language::CSharp => lemma_wrapped_block_injective(
            "public static readonly byte[] "@ + name + " = {"@,
            "};"@,
            b1,
            b2,
            tab,
        ),
        Language::Python => lemma_wrapped_block_injective(
            name + " = bytes(["@,
            "])"@,
            b1,
            b2,
            tab,
        ),
        Language::Javascript => lemma_wrapped_block_injective(
            "const "@ + name + " = new Uint8Array(["@,
            "]);"@,
            b1,
            b2,
            tab,
        ),
        Language::Go => lemma_wrapped_block_injective(
            "var "@ + name + " = []byte{"@,
            "}"@,
            b1,
            b2,
            tab,
        ),
        Language::Java => lemma_wrapped_block_injective(
            "public static final int[] "@ + name + " = {"@,
            "};"@,
            b1,
            b2,
            tab,
        ),
    }
}

/// Every line of `s` opened by a line-break character starts with exactly
/// `tab` spaces and then the first character of a byte token.
pub open spec fn spec_indented_after_breaks(s: Seq<char>, tab: nat) -> bool {
    forall|k: int|
        0 <= k < s.len() && #[trigger] s[k] == '\n' ==> k + tab + 1 < s.len() && (forall|j: int|
            k < j <= k + tab ==> #[trigger] s[j] == ' ') && s[k + tab + 1] == '0'
}

/// No character of a byte's `0x` token is a line break, and the token
/// opens with '0'.
proof fn lemma_hex_token_chars(x: u8)
    ensures
        spec_hex_token(x).len() == 4,
        spec_hex_token(x)[0] == '0',
        forall|j: int| 0 <= j < 4 ==> #[trigger] spec_hex_token(x)[j] != '\n',
{
    assert(x / 16 < 16 && x % 16 < 16);
    assert(spec_hex_token(x)[2] == spec_hex_char(x / 16));
    assert(spec_hex_token(x)[3] == spec_hex_char(x % 16));
}

/// Uniform indentation: with any tab size, the first line of a declaration
/// body and every line opened by a break start with exactly `tab` spaces,
/// followed directly by a byte token. `brk` is the break text and ends in
/// its only line-break character, as both break texts in use do.
pub proof fn lemma_body_lines_uniformly_indented(b: Seq<u8>, tab: nat, brk: Seq<char>)
    requires
        brk.len() > 0,
        brk.last() == '\n',
        forall|i: int| 0 <= i < brk.len() - 1 ==> brk[i] != '\n',
    ensures
        spec_indented_after_breaks(spec_const_body(b, tab, brk), tab),
        b.len() > 0 ==> {
            &&& spec_const_body(b, tab, brk).len() > tab
            &&& (forall|j: int| 0 <= j < tab ==> #[trigger] spec_const_body(b, tab, brk)[j] == ' ')
            &&& spec_const_body(b, tab, brk)[tab as int] == '0'
        },
    decreases b.len(),
{
    if b.len() == 0 {
    } else {
        let n = b.len() as int;
        lemma_body_lines_uniformly_indented(b.drop_last(), tab, brk);
        let a = spec_const_body(b.drop_last(), tab, brk);
        let s = spec_body_sep(n - 1, tab, brk);
        let t = spec_hex_token(b.last());
        let full = spec_const_body(b, tab, brk);
        assert(full == a + s + t);
        lemma_hex_token_chars(b.last());
        if n == 1 {
            assert(s == spec_spaces(tab));
            assert forall|j: int| 0 <= j < tab implies #[trigger] full[j] == ' ' by {
                assert(full[j] == s[j]);
            }
            assert(full[tab as int] == t[0]);
        } else {
            lemma_const_body_len(b.drop_last(), tab, brk);
            if b.drop_last().len() > 1 {
                lemma_body_len_increasing(1, b.drop_last().len(), tab, brk.len());
            }
            assert(spec_body_len(0, tab, brk.len()) == 0);
            assert(spec_body_len(1, tab, brk.len()) == spec_body_len(0, tab, brk.len())
                + spec_sep_len(0, tab, brk.len()) + 4);
            assert(spec_body_len(1, tab, brk.len()) == tab + 4);
            assert(a.len() >= tab + 4);
            assert forall|j: int| 0 <= j < tab implies #[trigger] full[j] == ' ' by {
                assert(full[j] == a[j]);
            }
            assert(full[tab as int] == a[tab as int]);
        }
        assert forall|k: int| 0 <= k < full.len() && #[trigger] full[k] == '\n' implies k + tab + 1
            < full.len() && (forall|j: int| k < j <= k + tab ==> #[trigger] full[j] == ' ') && full[k
            + tab + 1] == '0' by {
            if k < a.len() {
                assert(a[k] == '\n');
                assert(k + tab + 1 < a.len());
                assert forall|j: int| k < j <= k + tab implies #[trigger] full[j] == ' ' by {
                    assert(a[j] == ' ');
                    assert(full[j] == a[j]);
                }
                assert(full[k + tab + 1] == a[k + tab + 1]);
            } else if k < a.len() + s.len() {
                let q = k - a.len();
                assert(s[q] == '\n');
                if n - 1 == 0 {
                    assert(s[q] == ' ');
                } else if (n - 1) % (BYTES_PER_ROW as int) == 0 {
                    assert(s == seq![','] + brk + spec_spaces(tab));
                    assert(s.len() == 1 + brk.len() + tab);
                    if q == 0 {
                        assert(s[q] == ',');
                    } else if q <= brk.len() {
                        assert(s[q] == brk[q - 1]);
                        if q - 1 < brk.len() - 1 {
                            assert(brk[q - 1] != '\n');
                        }
                        assert(q == brk.len());
                    } else {
                        assert(s[q] == spec_spaces(tab)[q - 1 - brk.len()]);
                        assert(s[q] == ' ');
                    }
                    assert(q == brk.len());
                    assert(k + tab + 1 == a.len() + s.len());
                    assert(full[k + tab + 1] == t[0]);
                    assert forall|j: int| k < j <= k + tab implies #[trigger] full[j] == ' ' by {
                        assert(full[j] == s[j - a.len()]);
                        assert(s[j - a.len()] == spec_spaces(tab)[j - a.len() - 1 - brk.len()]);
                    }
                } else {
                    assert(s == seq![',', ' ']);
                    assert(s[q] != '\n');
                }
            } else {
                assert(full[k] == t[k - a.len() - s.len()]);
                assert(t[k - a.len() - s.len()] != '\n');
            }
        }
    }
}

/// Idempotence: encoding the same bytes, name and tab size twice yields
/// the same text, because every encoder's result is a function of those
/// inputs alone.
pub proof fn lemma_encode_deterministic(
    lang: Language,
    b: Seq<u8>,
    name: Seq<char>,
    tab: nat,
    r1: Seq<char>,
    r2: Seq<char>,
)
    requires
        r1 == spec_encode(lang, b, name, tab),
        r2 == spec_encode(lang, b, name, tab),
    ensures
        r1 == r2,
{
}

} // verus!
