//! Hex color codec: validation, packing into 32-bit ARGB, and reduction to
//! the `#RRGGBB` form that toolkits without a hex alpha channel accept.
//!
//! Accepted shapes are `RGB`, `ARGB`, `RRGGBB` and `AARRGGBB`, optionally
//! behind one `#` or `0x` prefix. Short forms are expanded by doubling each
//! digit, and a missing alpha channel means fully opaque.
//!
//! Unparseable input is not an error here: it goes through a single fallback
//! path, opaque white (`0xFFFFFFFF`, displayed as `#FFFFFF`). This policy masks
//! caller mistakes, so callers that must reject bad colors check
//! [`is_valid_color`] first.
use vstd::arithmetic::div_mod::lemma_fundamental_div_mod_converse;
use vstd::prelude::*;

verus! {

/// The color every unparseable input decodes to: opaque white.
pub const FALLBACK_ARGB: u32 = 0xFFFF_FFFF;

/// Whether `c` is an ASCII hexadecimal digit, in either case.
pub open spec fn is_hex_char(c: char) -> bool {
    ('0' <= c && c <= '9') || ('a' <= c && c <= 'f') || ('A' <= c && c <= 'F')
}

/// The value of a hexadecimal digit.
pub open spec fn hex_value(c: char) -> nat {
    if '0' <= c && c <= '9' {
        (c as int - '0' as int) as nat
    } else if 'a' <= c && c <= 'f' {
        (c as int - 'a' as int + 10) as nat
    } else {
        (c as int - 'A' as int + 10) as nat
    }
}

/// Every character of `d` is a hexadecimal digit.
pub open spec fn all_hex(d: Seq<char>) -> bool {
    forall|i: int| 0 <= i < d.len() ==> #[trigger] is_hex_char(d[i])
}

/// The number that the digits `d` spell in base 16, most significant first.
pub open spec fn hex_number(d: Seq<char>) -> nat
    decreases d.len(),
{
    if d.len() == 0 {
        0
    } else {
        hex_number(d.drop_last()) * 16 + hex_value(d.last())
    }
}

/// The length of the recognised prefix of `s`: one `#`, one `0x`, or nothing.
pub open spec fn prefix_len(s: Seq<char>) -> int {
    if s.len() >= 1 && s[0] == '#' {
        1
    } else if s.len() >= 2 && s[0] == '0' && s[1] == 'x' {
        2
    } else {
        0
    }
}

/// What follows the prefix.
pub open spec fn digits_of(s: Seq<char>) -> Seq<char> {
    s.subrange(prefix_len(s), s.len() as int)
}

pub open spec fn is_digit_count(n: nat) -> bool {
    n == 3 || n == 4 || n == 6 || n == 8
}

/// `s` decodes to a color of its own, with or without a prefix.
pub open spec fn is_parsable(s: Seq<char>) -> bool {
    is_digit_count(digits_of(s).len()) && all_hex(digits_of(s))
}

/// `s` is a well-formed color string: prefixed, and parsable.
pub open spec fn is_valid_spec(s: Seq<char>) -> bool {
    prefix_len(s) > 0 && is_parsable(s)
}

/// Each digit of `d` written twice (`F00` becomes `FF0000`).
pub open spec fn doubled(d: Seq<char>) -> Seq<char> {
    Seq::new((2 * d.len()) as nat, |i: int| d[i / 2])
}

/// The alpha digits that a form without alpha gets.
pub open spec fn opaque_alpha() -> Seq<char> {
    seq!['F', 'F']
}

/// The eight-digit `AARRGGBB` form of a three, four, six or eight digit color.
pub open spec fn expand(d: Seq<char>) -> Seq<char> {
    if d.len() == 3 {
        opaque_alpha() + doubled(d)
    } else if d.len() == 4 {
        doubled(d)
    } else if d.len() == 6 {
        opaque_alpha() + d
    } else {
        d
    }
}

/// The packed ARGB value of a color string, or the fallback.
pub open spec fn argb_of(s: Seq<char>) -> nat {
    if is_parsable(s) {
        hex_number(expand(digits_of(s)))
    } else {
        FALLBACK_ARGB as nat
    }
}

/// The `#RRGGBB` text of a color string: its eight-digit form without the
/// alpha digits, or the fallback's.
pub open spec fn display_of(s: Seq<char>) -> Seq<char> {
    if is_parsable(s) {
        seq!['#'] + expand(digits_of(s)).subrange(2, 8)
    } else {
        seq!['#', 'F', 'F', 'F', 'F', 'F', 'F']
    }
}

pub open spec fn pow16(n: nat) -> nat
    decreases n,
{
    if n == 0 {
        1
    } else {
        16 * pow16((n - 1) as nat)
    }
}

proof fn lemma_pow16_monotonic(a: nat, b: nat)
    requires
        a <= b,
    ensures
        pow16(a) <= pow16(b),
    decreases b,
{
    if a < b {
        lemma_pow16_monotonic(a, (b - 1) as nat);
    }
}

proof fn lemma_hex_number_bound(d: Seq<char>)
    requires
        all_hex(d),
    ensures
        hex_number(d) < pow16(d.len()),
    decreases d.len(),
{
    if d.len() > 0 {
        let p = d.drop_last();
        assert(all_hex(p)) by {
            assert forall|i: int| 0 <= i < p.len() implies is_hex_char(p[i]) by {
                assert(p[i] == d[i]);
            }
        }
        lemma_hex_number_bound(p);
        assert(is_hex_char(d[d.len() - 1]));
        assert(hex_value(d.last()) < 16);
        assert(hex_number(d) == hex_number(p) * 16 + hex_value(d.last()));
        assert(pow16(d.len()) == 16 * pow16(p.len()));
        assert(hex_number(p) + 1 <= pow16(p.len()));
        assert((hex_number(p) + 1) * 16 <= pow16(p.len()) * 16) by (nonlinear_arith)
            requires
                hex_number(p) + 1 <= pow16(p.len()),
        ;
    }
}

proof fn lemma_expand_shape(d: Seq<char>)
    requires
        is_digit_count(d.len()),
        all_hex(d),
    ensures
        expand(d).len() == 8,
        all_hex(expand(d)),
{
    let e = expand(d);
    assert forall|i: int| 0 <= i < e.len() implies is_hex_char(e[i]) by {
        if d.len() == 3 || d.len() == 6 {
            if i >= 2 {
                if d.len() == 3 {
                    assert(e[i] == d[(i - 2) / 2]);
                } else {
                    assert(e[i] == d[i - 2]);
                }
            }
        } else if d.len() == 4 {
            assert(e[i] == d[i / 2]);
        }
    }
}

proof fn lemma_pow16_eight()
    ensures
        pow16(0) == 1,
        pow16(2) == 256,
        pow16(8) == 0x1_0000_0000,
{
    assert(pow16(0) == 1);
    assert(pow16(1) == 16);
    assert(pow16(2) == 256);
    assert(pow16(3) == 4096);
    assert(pow16(4) == 65536);
    assert(pow16(5) == 1048576);
    assert(pow16(6) == 16777216);
    assert(pow16(7) == 268435456);
}

/// The packed value of a parsable color fits in 32 bits.
pub proof fn lemma_argb_fits(s: Seq<char>)
    ensures
        argb_of(s) <= u32::MAX,
{
    if is_parsable(s) {
        let e = expand(digits_of(s));
        lemma_expand_shape(digits_of(s));
        lemma_hex_number_bound(e);
        lemma_pow16_eight();
    }
}

/// The value of a hexadecimal digit, or `None` for any other character.
fn hex_digit(c: char) -> (r: Option<u32>)
    ensures
        r == (if is_hex_char(c) {
            Some(hex_value(c) as u32)
        } else {
            None::<u32>
        }),
{
    if '0' <= c && c <= '9' {
        Some((c as u32) - ('0' as u32))
    } else if 'a' <= c && c <= 'f' {
        Some((c as u32) - ('a' as u32) + 10)
    } else if 'A' <= c && c <= 'F' {
        Some((c as u32) - ('A' as u32) + 10)
    } else {
        None
    }
}

/// The length of the prefix of `s`, whose character count is `n`.
fn prefix_length(s: &str, n: usize) -> (k: usize)
    requires
        n == s@.len(),
    ensures
        k == prefix_len(s@),
{
    if n >= 1 && s.get_char(0) == '#' {
        1
    } else if n >= 2 && s.get_char(0) == '0' && s.get_char(1) == 'x' {
        2
    } else {
        0
    }
}

/// Validates a color string: one `#` or `0x` prefix, then three, four, six
/// or eight hexadecimal digits and nothing else.
pub fn is_valid_color(color: &str) -> (r: bool)
    ensures
        r == is_valid_spec(color@),
{
    let n = color.unicode_len();
    let k = prefix_length(color, n);
    if k == 0 {
        return false;
    }
    all_hex_from(color, n, k)
}

/// Whether the characters of `s` from `k` on form a parsable digit string.
fn all_hex_from(s: &str, n: usize, k: usize) -> (r: bool)
    requires
        n == s@.len(),
        k == prefix_len(s@),
    ensures
        r == is_parsable(s@),
{
    let m = n - k;
    if !(m == 3 || m == 4 || m == 6 || m == 8) {
        return false;
    }
    let ghost d = digits_of(s@);
    let mut i: usize = k;
    while i < n
        invariant
            k <= i <= n,
            n == s@.len(),
            k == prefix_len(s@),
            d == digits_of(s@),
            forall|j: int| 0 <= j < i - k ==> #[trigger] is_hex_char(d[j]),
        decreases n - i,
    {
        let c = s.get_char(i);
        assert(d[i - k] == c);
        if hex_digit(c).is_none() {
            assert(!is_hex_char(d[i - k]));
            return false;
        }
        i = i + 1;
    }
    true
}


/// The digits read so far: the first `j` digits of `d` behind `pre`, each
/// written twice when `short`.
spec fn partial(pre: Seq<char>, d: Seq<char>, j: int, short: bool) -> Seq<char> {
    if short {
        pre + doubled(d.subrange(0, j))
    } else {
        pre + d.subrange(0, j)
    }
}

proof fn lemma_hex_number_push(x: Seq<char>, c: char)
    ensures
        hex_number(x.push(c)) == hex_number(x) * 16 + hex_value(c),
{
    assert(x.push(c).drop_last() =~= x);
}

proof fn lemma_doubled_push(x: Seq<char>, c: char)
    ensures
        doubled(x.push(c)) =~= doubled(x).push(c).push(c),
{
    let l = doubled(x.push(c));
    let r = doubled(x).push(c).push(c);
    assert(l.len() == r.len());
    assert forall|i: int| 0 <= i < l.len() implies l[i] == r[i] by {
        if i < 2 * x.len() {
            assert(i / 2 < x.len());
        } else {
            assert(i / 2 == x.len());
        }
    }
}

proof fn lemma_partial_step(pre: Seq<char>, d: Seq<char>, j: int, short: bool)
    requires
        0 <= j < d.len(),
    ensures
        short ==> partial(pre, d, j + 1, short) =~= partial(pre, d, j, short).push(d[j]).push(d[j]),
        !short ==> partial(pre, d, j + 1, short) =~= partial(pre, d, j, short).push(d[j]),
        partial(pre, d, j + 1, short).len() == partial(pre, d, j, short).len() + (if short {
            2int
        } else {
            1int
        }),
{
    assert(d.subrange(0, j + 1) =~= d.subrange(0, j).push(d[j]));
    lemma_doubled_push(d.subrange(0, j), d[j]);
}

proof fn lemma_step_bound(acc: nat, v: nat, p: nat, q: nat)
    requires
        acc < p,
        v < 16,
        p * 16 <= q,
    ensures
        acc * 16 + v < q,
{
    assert(acc * 16 + v < p * 16) by (nonlinear_arith)
        requires
            acc < p,
            v < 16,
    ;
}

/// Packs a color string into a 32-bit ARGB value (`0xAARRGGBB`).
///
/// Three and four digit forms are expanded by doubling each digit, and the
/// forms without alpha get `FF`. Anything unparseable gives the fallback,
/// opaque white.
pub fn hex_to_argb_u32(color: &str) -> (r: u32)
    ensures
        r == argb_of(color@),
{
    let n = color.unicode_len();
    let k = prefix_length(color, n);
    let m = n - k;
    if !(m == 3 || m == 4 || m == 6 || m == 8) {
        return FALLBACK_ARGB;
    }
    let short = m <= 4;
    let opaque = m == 3 || m == 6;
    let ghost d = digits_of(color@);
    let ghost pre: Seq<char> = if opaque {
        opaque_alpha()
    } else {
        Seq::<char>::empty()
    };
    proof {
        lemma_hex_ff();
        assert(hex_number(Seq::<char>::empty()) == 0);
        assert(partial(pre, d, 0, short) =~= pre);
        lemma_pow16_eight();
        assert(pow16(2) == 256);
    }
    let mut acc: u32 = if opaque {
        0xFF
    } else {
        0
    };
    let mut i: usize = k;
    while i < n
        invariant
            k <= i <= n,
            n == color@.len(),
            m == n - k,
            k == prefix_len(color@),
            is_digit_count(m as nat),
            short == (m <= 4),
            opaque == (m == 3 || m == 6),
            d == digits_of(color@),
            pre == (if opaque {
                opaque_alpha()
            } else {
                Seq::<char>::empty()
            }),
            pow16(8) == 0x1_0000_0000,
            all_hex(d.subrange(0, i - k)),
            acc == hex_number(partial(pre, d, i - k, short)),
            acc < pow16(partial(pre, d, i - k, short).len()),
            partial(pre, d, i - k, short).len() == pre.len() + (if short {
                2 * (i - k)
            } else {
                i - k
            }),
        decreases n - i,
    {
        let c = color.get_char(i);
        assert(d[i - k] == c);
        let j: usize = i - k;
        let ghost cur = partial(pre, d, j as int, short);
        match hex_digit(c) {
            None => {
                assert(!is_hex_char(d[j as int]));
                return FALLBACK_ARGB;
            },
            Some(v) => {
                proof {
                    lemma_partial_step(pre, d, j as int, short);
                    assert(d.subrange(0, j + 1) =~= d.subrange(0, j as int).push(c));
                    lemma_hex_number_push(cur, c);
                    if short {
                        lemma_hex_number_push(cur.push(c), c);
                        lemma_step_bound(acc as nat, v as nat, pow16(cur.len()), pow16(cur.len() + 1));
                        lemma_step_bound((acc * 16 + v) as nat, v as nat, pow16(cur.len() + 1), pow16(cur.len() + 2));
                        lemma_pow16_monotonic(cur.len() + 2, 8);
                    } else {
                        lemma_step_bound(acc as nat, v as nat, pow16(cur.len()), pow16(cur.len() + 1));
                        lemma_pow16_monotonic(cur.len() + 1, 8);
                    }
                }
                if short {
                    acc = acc * 256 + v * 17;
                } else {
                    acc = acc * 16 + v;
                }
            },
        }
        i = i + 1;
    }
    proof {
        assert(d.subrange(0, m as int) =~= d);
        assert(Seq::<char>::empty() + doubled(d) =~= doubled(d));
        assert(Seq::<char>::empty() + d =~= d);
        assert(partial(pre, d, m as int, short) =~= expand(d));
    }
    acc
}

proof fn lemma_doubled_drop_first_digit(d: Seq<char>)
    requires
        d.len() == 4,
    ensures
        doubled(d).subrange(2, 8) =~= doubled(d.subrange(1, 4)),
{
    let l = doubled(d).subrange(2, 8);
    let r = doubled(d.subrange(1, 4));
    assert forall|i: int| 0 <= i < 6 implies l[i] == r[i] by {
        assert((i + 2) / 2 == i / 2 + 1);
    }
}

/// Reduces a color string to `#RRGGBB`, for toolkits that refuse an alpha
/// channel in hex notation.
///
/// The alpha digits of an eight-digit color are dropped, not blended; short
/// forms are expanded first. Unparseable input gives `#FFFFFF`, the display
/// form of the fallback color.
pub fn to_slint_color_string(color: &str) -> (r: String)
    ensures
        r@ == display_of(color@),
{
    let n = color.unicode_len();
    let k = prefix_length(color, n);
    if !all_hex_from(color, n, k) {
        proof {
            reveal_strlit("#FFFFFF");
        }
        return String::from_str("#FFFFFF");
    }
    let m = n - k;
    let ghost d = digits_of(color@);
    proof {
        reveal_strlit("#");
    }
    let mut out = String::from_str("#");
    if m == 3 || m == 4 {
        let start: usize = n - 3;
        let mut i: usize = start;
        proof {
            assert(color@.subrange(start as int, start as int) =~= Seq::<char>::empty());
            assert(doubled(Seq::<char>::empty()) =~= Seq::<char>::empty());
        }
        while i < n
            invariant
                start <= i <= n,
                n == color@.len(),
                out@ == seq!['#'] + doubled(color@.subrange(start as int, i as int)),
            decreases n - i,
        {
            let one = color.substring_char(i, i + 1);
            out.append(one);
            out.append(one);
            proof {
                let x = color@.subrange(start as int, i as int);
                let c = color@[i as int];
                assert(one@ =~= seq![c]);
                assert(color@.subrange(start as int, i + 1) =~= x.push(c));
                lemma_doubled_push(x, c);
            }
            i = i + 1;
        }
        proof {
            if m == 3 {
                assert(color@.subrange(start as int, n as int) =~= d);
                assert((opaque_alpha() + doubled(d)).subrange(2, 8) =~= doubled(d));
            } else {
                assert(color@.subrange(start as int, n as int) =~= d.subrange(1, 4));
                lemma_doubled_drop_first_digit(d);
            }
        }
    } else {
        out.append(color.substring_char(n - 6, n));
        proof {
            if m == 6 {
                assert((opaque_alpha() + d).subrange(2, 8) =~= color@.subrange(n - 6, n as int));
            } else {
                assert(d.subrange(2, 8) =~= color@.subrange(n - 6, n as int));
            }
        }
    }
    out
}

proof fn lemma_hex_number_concat(a: Seq<char>, b: Seq<char>)
    ensures
        hex_number(a + b) == hex_number(a) * pow16(b.len()) + hex_number(b),
    decreases b.len(),
{
    if b.len() == 0 {
        assert(a + b =~= a);
        assert(pow16(0) == 1);
        assert(hex_number(b) == 0);
    } else {
        let b1 = b.drop_last();
        assert((a + b).drop_last() =~= a + b1);
        assert((a + b).last() == b.last());
        lemma_hex_number_concat(a, b1);
        assert(hex_number(a + b) == hex_number(a + b1) * 16 + hex_value(b.last()));
        assert(hex_number(b) == hex_number(b1) * 16 + hex_value(b.last()));
        assert(pow16(b.len()) == 16 * pow16(b1.len()));
        let x = hex_number(a);
        let p = pow16(b1.len());
        let y = hex_number(b1);
        assert((x * p + y) * 16 == x * (16 * p) + y * 16) by (nonlinear_arith);
        assert(hex_number(a + b) == (x * p + y) * 16 + hex_value(b.last()));
        assert(hex_number(b) == y * 16 + hex_value(b.last()));
        assert(x * pow16(b.len()) == x * (16 * p));
    }
}

proof fn lemma_prefix_then_digits(p: Seq<char>, d: Seq<char>)
    requires
        p == seq!['#'] || p == seq!['0', 'x'] || p.len() == 0,
        d.len() >= 2,
        all_hex(d),
    ensures
        prefix_len(p + d) == p.len(),
        digits_of(p + d) =~= d,
{
    let s = p + d;
    if p.len() == 0 {
        assert(s[0] == d[0]);
        assert(s[1] == d[1]);
        assert(is_hex_char(d[0]));
        assert(is_hex_char(d[1]));
    } else if p.len() == 1 {
        assert(s[0] == '#');
    } else {
        assert(s[0] == '0');
        assert(s[1] == 'x');
    }
}

proof fn lemma_doubled_hex(d: Seq<char>)
    requires
        all_hex(d),
    ensures
        all_hex(doubled(d)),
{
    assert forall|i: int| 0 <= i < doubled(d).len() implies is_hex_char(doubled(d)[i]) by {
        assert(is_hex_char(d[i / 2]));
    }
}

/// Nibble doubling: a three or four digit color and the color with each of
/// its digits written twice decode to the same value, behind any accepted
/// prefix; the three-digit form is fully opaque.
pub proof fn lemma_nibble_doubling(p: Seq<char>, d: Seq<char>)
    requires
        p == seq!['#'] || p == seq!['0', 'x'] || p.len() == 0,
        d.len() == 3 || d.len() == 4,
        all_hex(d),
    ensures
        is_parsable(p + d),
        is_parsable(p + doubled(d)),
        argb_of(p + d) == argb_of(p + doubled(d)),
        d.len() == 3 ==> argb_of(p + d) >= 0xFF00_0000,
{
    lemma_doubled_hex(d);
    lemma_prefix_then_digits(p, d);
    lemma_prefix_then_digits(p, doubled(d));
    if d.len() == 3 {
        lemma_hex_number_concat(opaque_alpha(), doubled(d));
        lemma_pow16_six();
        lemma_hex_ff();
    }
}

proof fn lemma_pow16_six()
    ensures
        pow16(6) == 0x100_0000,
{
    lemma_pow16_eight();
    assert(pow16(3) == 4096);
    assert(pow16(4) == 65536);
    assert(pow16(5) == 1048576);
}

proof fn lemma_hex_ff()
    ensures
        hex_number(opaque_alpha()) == 255,
{
    lemma_hex_number_push(Seq::<char>::empty(), 'F');
    assert(Seq::<char>::empty().push('F') =~= seq!['F']);
    lemma_hex_number_push(seq!['F'], 'F');
    assert(seq!['F'].push('F') =~= opaque_alpha());
}

/// Showing a color as `#RRGGBB` and reading that back keeps its red, green
/// and blue exactly and makes it fully opaque; unparseable input shows as
/// the fallback's `#FFFFFF`, which reads back as the fallback.
pub proof fn lemma_display_round_trip(s: Seq<char>)
    ensures
        is_valid_spec(display_of(s)),
        argb_of(display_of(s)) == 0xFF00_0000 + argb_of(s) % 0x100_0000,
{
    let shown = display_of(s);
    let rgb = shown.subrange(1, 7);
    lemma_pow16_six();
    lemma_hex_ff();
    if is_parsable(s) {
        let e = expand(digits_of(s));
        lemma_expand_shape(digits_of(s));
        assert(rgb =~= e.subrange(2, 8));
        assert(all_hex(rgb)) by {
            assert forall|i: int| 0 <= i < rgb.len() implies is_hex_char(rgb[i]) by {
                assert(rgb[i] == e[i + 2]);
            }
        }
        assert(e =~= e.subrange(0, 2) + rgb);
        lemma_hex_number_concat(e.subrange(0, 2), rgb);
        lemma_hex_number_bound(rgb);
        lemma_fundamental_div_mod_converse(
            hex_number(e) as int,
            0x100_0000,
            hex_number(e.subrange(0, 2)) as int,
            hex_number(rgb) as int,
        );
    } else {
        assert(rgb =~= seq!['F', 'F', 'F', 'F', 'F', 'F']);
        assert(rgb =~= opaque_alpha() + opaque_alpha() + opaque_alpha());
        lemma_hex_number_concat(opaque_alpha(), opaque_alpha());
        lemma_hex_number_concat(opaque_alpha() + opaque_alpha(), opaque_alpha());
        lemma_pow16_eight();
        assert(hex_number(rgb) == 0xFF_FFFF);
        lemma_fundamental_div_mod_converse(0xFFFF_FFFF, 0x100_0000, 0xFF, 0xFF_FFFF);
    }
    lemma_prefix_then_digits(seq!['#'], rgb);
    assert(shown =~= seq!['#'] + rgb);
    lemma_hex_number_concat(opaque_alpha(), rgb);
}

} // verus!
