//! Percent-encoding and `application/x-www-form-urlencoded` decoding of
//! query-string components, with exact sequence-level models.
use vstd::prelude::*;

verus! {

/// The Unicode code point of a character (a `char` always fits in a `u32`).
pub open spec fn cp(c: char) -> int {
    c as u32 as int
}

/// Numeric value of a hexadecimal digit character, or -1 for any other char.
pub open spec fn hex_val(c: char) -> int {
    if 48 <= cp(c) && cp(c) <= 57 {
        cp(c) - 48
    } else if 97 <= cp(c) && cp(c) <= 102 {
        cp(c) - 87
    } else if 65 <= cp(c) && cp(c) <= 70 {
        cp(c) - 55
    } else {
        -1
    }
}

pub open spec fn is_hex_digit(c: char) -> bool {
    hex_val(c) >= 0
}

/// Uppercase hexadecimal digit character for a value below 16.
pub open spec fn hex_char(d: int) -> char
    recommends
        0 <= d < 16,
{
    if d < 10 {
        ((d + 48) as u8) as char
    } else {
        ((d + 55) as u8) as char
    }
}

/// Characters that percent-encoding leaves as they are (RFC 3986 unreserved).
pub open spec fn is_unreserved(c: char) -> bool {
    (65 <= cp(c) && cp(c) <= 90) || (97 <= cp(c) && cp(c) <= 122) || (48 <= cp(c) && cp(c) <= 57)
        || c == '-' || c == '.' || c == '_' || c == '~'
}

/// The three characters `%XY` that encode one byte.
pub open spec fn pct_byte(b: u8) -> Seq<char> {
    seq!['%', hex_char(b as int / 16), hex_char(b as int % 16)]
}

/// Percent-encoding of a single character: an unreserved character stands as
/// itself; any other character's UTF-8 bytes each become a `%XY` triple.
pub open spec fn enc_char(c: char) -> Seq<char> {
    let u = cp(c);
    if is_unreserved(c) {
        seq![c]
    } else if u < 0x80 {
        pct_byte(u as u8)
    } else if u < 0x800 {
        pct_byte((0xC0 + u / 64) as u8) + pct_byte((0x80 + u % 64) as u8)
    } else if u < 0x10000 {
        pct_byte((0xE0 + u / 4096) as u8) + pct_byte((0x80 + (u / 64) % 64) as u8) + pct_byte(
            (0x80 + u % 64) as u8,
        )
    } else {
        pct_byte((0xF0 + u / 262144) as u8) + pct_byte((0x80 + (u / 4096) % 64) as u8) + pct_byte(
            (0x80 + (u / 64) % 64) as u8,
        ) + pct_byte((0x80 + u % 64) as u8)
    }
}

/// Percent-encoding of a whole character sequence.
pub open spec fn enc(s: Seq<char>) -> Seq<char>
    decreases s.len(),
{
    if s.len() == 0 {
        Seq::empty()
    } else {
        enc(s.drop_last()) + enc_char(s.last())
    }
}

/// A decoded character prepended to a decoding result that may have failed.
pub open spec fn prepend_dec(c: char, r: Option<Seq<char>>) -> Option<Seq<char>> {
    match r {
        Some(x) => Some(seq![c] + x),
        None => None,
    }
}

/// Form-urlencoded decoding of a query component. `%XY` pairs must spell a
/// printable ASCII byte, `+` stands for a space, and any raw character must
/// itself be printable ASCII; anything else makes the component malformed.
pub open spec fn dec(s: Seq<char>) -> Option<Seq<char>>
    decreases s.len(),
{
    if s.len() == 0 {
        Some(Seq::empty())
    } else if s[0] == '%' {
        if s.len() >= 3 && is_hex_digit(s[1]) && is_hex_digit(s[2]) {
            let b = 16 * hex_val(s[1]) + hex_val(s[2]);
            if 0x20 <= b && b <= 0x7e {
                prepend_dec((b as u8) as char, dec(s.skip(3)))
            } else {
                None
            }
        } else {
            None
        }
    } else if s[0] == '+' {
        prepend_dec(' ', dec(s.skip(1)))
    } else if 0x20 <= cp(s[0]) && cp(s[0]) <= 0x7e {
        prepend_dec(s[0], dec(s.skip(1)))
    } else {
        None
    }
}

/// A fully decoded prefix moved in front of the decoding of the remainder.
pub open spec fn opt_prepend(p: Seq<char>, r: Option<Seq<char>>) -> Option<Seq<char>> {
    match r {
        Some(x) => Some(p + x),
        None => None,
    }
}

proof fn lemma_opt_prepend_shift(p: Seq<char>, c: char, r: Option<Seq<char>>)
    ensures
        opt_prepend(p, prepend_dec(c, r)) == opt_prepend(p.push(c), r),
{
    match r {
        Some(x) => {
            assert(p + (seq![c] + x) =~= p.push(c) + x);
        },
        None => {},
    }
}

proof fn lemma_enc_snoc(s: Seq<char>, i: int)
    requires
        0 <= i < s.len(),
    ensures
        enc(s.take(i + 1)) == enc(s.take(i)) + enc_char(s[i]),
{
    assert(s.take(i + 1).drop_last() =~= s.take(i));
    assert(s.take(i + 1).last() == s[i]);
}

/// Pushes the `%XY` triple for one byte.
fn push_pct(out: &mut Vec<char>, b: u8)
    ensures
        final(out)@ == old(out)@ + pct_byte(b),
{
    out.push('%');
    let hi: u8 = b / 16;
    let lo: u8 = b % 16;
    let hc: char = if hi < 10 {
        (hi + 48) as char
    } else {
        (hi + 55) as char
    };
    let lc: char = if lo < 10 {
        (lo + 48) as char
    } else {
        (lo + 55) as char
    };
    out.push(hc);
    out.push(lc);
    proof {
        assert(out@ =~= old(out)@ + pct_byte(b));
    }
}

fn is_unreserved_exec(c: char) -> (r: bool)
    ensures
        r == is_unreserved(c),
{
    let u = c as u32;
    (65 <= u && u <= 90) || (97 <= u && u <= 122) || (48 <= u && u <= 57) || c == '-' || c == '.'
        || c == '_' || c == '~'
}

/// Percent-encodes a character sequence, exactly as `enc` describes.
pub fn percent_encode_into(s: &Vec<char>, out: &mut Vec<char>)
    ensures
        final(out)@ == old(out)@ + enc(s@),
{
    let ghost base = out@;
    let mut i: usize = 0;
    proof {
        assert(s@.take(0) =~= Seq::<char>::empty());
        assert(base + enc(s@.take(0)) =~= base);
    }
    while i < s.len()
        invariant
            i <= s@.len(),
            out@ == base + enc(s@.take(i as int)),
        decreases s@.len() - i,
    {
        let c = s[i];
        let u = c as u32;
        if is_unreserved_exec(c) {
            out.push(c);
            proof {
                assert(out@ =~= base + enc(s@.take(i as int)) + enc_char(c));
            }
        } else if u < 0x80 {
            push_pct(out, u as u8);
        } else if u < 0x800 {
            push_pct(out, (0xC0 + u / 64) as u8);
            push_pct(out, (0x80 + u % 64) as u8);
        } else if u < 0x10000 {
            push_pct(out, (0xE0 + u / 4096) as u8);
            push_pct(out, (0x80 + (u / 64) % 64) as u8);
            push_pct(out, (0x80 + u % 64) as u8);
        } else {
            push_pct(out, (0xF0 + u / 262144) as u8);
            push_pct(out, (0x80 + (u / 4096) % 64) as u8);
            push_pct(out, (0x80 + (u / 64) % 64) as u8);
            push_pct(out, (0x80 + u % 64) as u8);
        }
        proof {
            lemma_enc_snoc(s@, i as int);
            assert(out@ =~= base + enc(s@.take(i as int + 1)));
        }
        i = i + 1;
    }
    proof {
        assert(s@.take(s@.len() as int) =~= s@);
    }
}

fn hex_digit_val(c: char) -> (r: Option<u8>)
    ensures
        match r {
            Some(v) => hex_val(c) == v as int && v < 16,
            None => hex_val(c) < 0,
        },
{
    let u = c as u32;
    if 48 <= u && u <= 57 {
        Some((u - 48) as u8)
    } else if 97 <= u && u <= 102 {
        Some((u - 87) as u8)
    } else if 65 <= u && u <= 70 {
        Some((u - 55) as u8)
    } else {
        None
    }
}

/// Decodes the range `[lo, hi)` of a character buffer, exactly as `dec`
/// describes; `None` means the component is malformed.
pub fn decode_range(s: &Vec<char>, lo: usize, hi: usize) -> (r: Option<Vec<char>>)
    requires
        lo <= hi <= s@.len(),
    ensures
        match r {
            Some(v) => dec(s@.subrange(lo as int, hi as int)) == Some(v@),
            None => dec(s@.subrange(lo as int, hi as int)) is None,
        },
{
    let ghost full = s@.subrange(lo as int, hi as int);
    let mut out: Vec<char> = Vec::new();
    let mut i: usize = lo;
    proof {
        assert(full.skip(0) =~= full);
    }
    while i < hi
        invariant
            lo <= i <= hi <= s@.len(),
            full == s@.subrange(lo as int, hi as int),
            dec(full) == opt_prepend(out@, dec(s@.subrange(i as int, hi as int))),
        decreases hi - i,
    {
        let ghost rem = s@.subrange(i as int, hi as int);
        let c = s[i];
        proof {
            assert(rem[0] == c);
        }
        if c == '%' {
            if hi - i >= 3 {
                let v1 = hex_digit_val(s[i + 1]);
                let v2 = hex_digit_val(s[i + 2]);
                proof {
                    assert(rem[1] == s@[i as int + 1]);
                    assert(rem[2] == s@[i as int + 2]);
                }
                match (v1, v2) {
                    (Some(h1), Some(h2)) => {
                        let b: u8 = 16 * h1 + h2;
                        if 0x20 <= b && b <= 0x7e {
                            let d: char = b as char;
                            proof {
                                assert(rem.skip(3) =~= s@.subrange(i as int + 3, hi as int));
                                assert(dec(rem) == prepend_dec(d, dec(rem.skip(3))));
                                lemma_opt_prepend_shift(out@, d, dec(rem.skip(3)));
                            }
                            out.push(d);
                            i = i + 3;
                        } else {
                            proof {
                                assert(dec(rem) is None);
                            }
                            return None;
                        }
                    },
                    _ => {
                        proof {
                            assert(dec(rem) is None);
                        }
                        return None;
                    },
                }
            } else {
                proof {
                    assert(rem.len() < 3);
                    assert(dec(rem) is None);
                }
                return None;
            }
        } else {
            let u = c as u32;
            if c == '+' {
                proof {
                    assert(rem.skip(1) =~= s@.subrange(i as int + 1, hi as int));
                    assert(dec(rem) == prepend_dec(' ', dec(rem.skip(1))));
                    lemma_opt_prepend_shift(out@, ' ', dec(rem.skip(1)));
                }
                out.push(' ');
                i = i + 1;
            } else if 0x20 <= u && u <= 0x7e {
                proof {
                    assert(rem.skip(1) =~= s@.subrange(i as int + 1, hi as int));
                    assert(dec(rem) == prepend_dec(c, dec(rem.skip(1))));
                    lemma_opt_prepend_shift(out@, c, dec(rem.skip(1)));
                }
                out.push(c);
                i = i + 1;
            } else {
                proof {
                    assert(dec(rem) is None);
                }
                return None;
            }
        }
    }
    proof {
        assert(s@.subrange(i as int, hi as int) =~= Seq::<char>::empty());
        assert(dec(Seq::<char>::empty()) == Some(Seq::<char>::empty()));
        assert(out@ + Seq::<char>::empty() =~= out@);
    }
    Some(out)
}

/// A character sequence made only of printable ASCII characters.
pub open spec fn is_printable_ascii(s: Seq<char>) -> bool {
    forall|i: int| 0 <= i < s.len() ==> 0x20 <= cp(#[trigger] s[i]) && cp(s[i]) <= 0x7e
}

proof fn lemma_hex_char_val(d: int)
    requires
        0 <= d < 16,
    ensures
        hex_val(hex_char(d)) == d,
{
}

proof fn lemma_enc_prepend(s: Seq<char>)
    requires
        s.len() > 0,
    ensures
        enc(s) == enc_char(s[0]) + enc(s.drop_first()),
    decreases s.len(),
{
    if s.len() == 1 {
        assert(s.drop_last() =~= Seq::<char>::empty());
        assert(s.drop_first() =~= Seq::<char>::empty());
        assert(enc(s) =~= enc_char(s[0]) + enc(s.drop_first()));
    } else {
        let t = s.drop_last();
        lemma_enc_prepend(t);
        assert(t[0] == s[0]);
        assert(s.drop_first().drop_last() =~= t.drop_first());
        assert(s.drop_first().last() == s.last());
        assert(enc(s) =~= enc_char(s[0]) + enc(s.drop_first()));
    }
}

proof fn lemma_dec_enc_char(c: char, t: Seq<char>)
    requires
        0x20 <= cp(c) <= 0x7e,
    ensures
        dec(enc_char(c) + t) == prepend_dec(c, dec(t)),
{
    let s = enc_char(c) + t;
    if is_unreserved(c) {
        assert(s[0] == c);
        assert(c != '%' && c != '+');
        assert(s.skip(1) =~= t);
    } else {
        let b = cp(c) as u8;
        assert(enc_char(c) == pct_byte(b));
        assert(s[0] == '%');
        assert(s[1] == hex_char(b as int / 16));
        assert(s[2] == hex_char(b as int % 16));
        lemma_hex_char_val(b as int / 16);
        lemma_hex_char_val(b as int % 16);
        assert(16 * hex_val(s[1]) + hex_val(s[2]) == b as int);
        assert(((16 * hex_val(s[1]) + hex_val(s[2])) as u8) as char == c);
        assert(s.skip(3) =~= t);
    }
}

/// Law: decoding inverts encoding — a printable-ASCII component, once
/// percent-encoded, decodes back to exactly itself.
pub proof fn lemma_decode_inverts_encode(s: Seq<char>)
    requires
        is_printable_ascii(s),
    ensures
        dec(enc(s)) == Some(s),
    decreases s.len(),
{
    if s.len() == 0 {
        assert(enc(s) =~= Seq::<char>::empty());
    } else {
        let t = s.drop_first();
        lemma_enc_prepend(s);
        lemma_dec_enc_char(s[0], enc(t));
        assert forall|i: int| 0 <= i < t.len() implies 0x20 <= cp(#[trigger] t[i]) && cp(t[i])
            <= 0x7e by {
            assert(t[i] == s[i + 1]);
        }
        lemma_decode_inverts_encode(t);
        assert(seq![s[0]] + t =~= s);
    }
}

} // verus!
