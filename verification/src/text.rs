//! UTF-16 text as it appears on the wire, and the std calls that build strings.
use vstd::prelude::*;
use crate::utils::le_u16;
use vstd::std_specs::iter::IteratorSpec;

verus! {

/// `v` is a Unicode scalar value.
pub open spec fn is_scalar_value(v: int) -> bool {
    (0 <= v < 0xD800) || (0xE000 <= v <= 0x10FFFF)
}

/// `u` is a UTF-16 high (leading) surrogate.
pub open spec fn is_high_surrogate(u: u16) -> bool {
    0xD800 <= u <= 0xDBFF
}

/// `u` is a UTF-16 low (trailing) surrogate.
pub open spec fn is_low_surrogate(u: u16) -> bool {
    0xDC00 <= u <= 0xDFFF
}

/// The scalar value of a surrogate pair.
pub open spec fn pair_value(hi: u16, lo: u16) -> int {
    0x10000 + (hi - 0xD800) * 0x400 + (lo - 0xDC00)
}

/// The replacement character that stands for an unpaired surrogate.
pub open spec fn replacement() -> char {
    '\u{FFFD}'
}

/// Lossy UTF-16 decoding: a surrogate pair gives one character, an unpaired
/// surrogate gives U+FFFD and decoding goes on with the next unit.
pub open spec fn decode_utf16_lossy(units: Seq<u16>) -> Seq<char>
    decreases units.len(),
{
    if units.len() == 0 {
        Seq::empty()
    } else {
        let u = units[0];
        if !is_high_surrogate(u) && !is_low_surrogate(u) {
            seq![(u as u32) as char] + decode_utf16_lossy(units.drop_first())
        } else if is_high_surrogate(u) && units.len() >= 2 && is_low_surrogate(units[1]) {
            seq![(pair_value(u, units[1]) as u32) as char] + decode_utf16_lossy(
                units.subrange(2, units.len() as int),
            )
        } else {
            seq![replacement()] + decode_utf16_lossy(units.drop_first())
        }
    }
}

/// The little-endian 16-bit units of the bytes `b` (an even number of them).
pub open spec fn utf16_units(b: Seq<u8>) -> Seq<u16> {
    Seq::new(b.len() / 2, |i: int| le_u16(b, 2 * i) as u16)
}

/// Calls `char::from_u32`, which gives the character of a Unicode scalar value
/// and `None` for any other number, as its documentation says.
#[verifier::external_body]
fn char_from_u32(v: u32) -> (r: Option<char>)
    ensures
        is_scalar_value(v as int) ==> r == Some(v as char),
        !is_scalar_value(v as int) ==> r is None,
{
    char::from_u32(v)
}

/// Calls `String::push`, which appends one character.
#[verifier::external_body]
fn string_push(s: &mut String, c: char)
    ensures
        final(s)@ == old(s)@.push(c),
{
    s.push(c)
}

/// Decodes the little-endian UTF-16 text in `bytes[start..end]`, replacing each
/// unpaired surrogate by U+FFFD.
pub fn decode_utf16_le_lossy(bytes: &[u8], start: usize, end: usize) -> (r: String)
    requires
        start <= end <= bytes@.len(),
        (end - start) % 2 == 0,
    ensures
        r@ == decode_utf16_lossy(utf16_units(bytes@.subrange(start as int, end as int))),
{
    let ghost units = utf16_units(bytes@.subrange(start as int, end as int));
    let mut out = String::new();
    let mut i = start;
    proof {
        assert(units.subrange(0, units.len() as int) =~= units);
        assert(out@ + decode_utf16_lossy(units) =~= decode_utf16_lossy(units));
    }
    while i < end
        invariant
            start <= i <= end <= bytes@.len(),
            (end - start) % 2 == 0,
            (i - start) % 2 == 0,
            units == utf16_units(bytes@.subrange(start as int, end as int)),
            out@ + decode_utf16_lossy(units.subrange((i - start) / 2, units.len() as int))
                == decode_utf16_lossy(units),
        decreases end - i,
    {
        let ghost k = (i - start) / 2;
        let ghost rest = units.subrange(k, units.len() as int);
        let ghost before = out@;
        assert(rest.len() > 0);
        let u = bytes[i] as u16 + (bytes[i + 1] as u16) * 256;
        assert(u == rest[0]);
        if u < 0xD800 || u > 0xDFFF {
            let c = char_from_u32(u as u32);
            if let Some(c) = c {
                string_push(&mut out, c);
            }
            proof {
                assert(rest.drop_first() =~= units.subrange(k + 1, units.len() as int));
                assert(out@ + decode_utf16_lossy(rest.drop_first()) =~= before
                    + decode_utf16_lossy(rest));
            }
            i = i + 2;
        } else if u <= 0xDBFF && end - i >= 4 && 0xDC00 <= bytes[i + 2] as u16 + (bytes[i + 3]
            as u16) * 256 && bytes[i + 2] as u16 + (bytes[i + 3] as u16) * 256 <= 0xDFFF {
            let lo = bytes[i + 2] as u16 + (bytes[i + 3] as u16) * 256;
            assert(lo == rest[1]);
            let v: u32 = 0x10000 + (u as u32 - 0xD800) * 0x400 + (lo as u32 - 0xDC00);
            let c = char_from_u32(v);
            if let Some(c) = c {
                string_push(&mut out, c);
            }
            proof {
                assert(rest.subrange(2, rest.len() as int) =~= units.subrange(
                    k + 2,
                    units.len() as int,
                ));
                assert(out@ + decode_utf16_lossy(rest.subrange(2, rest.len() as int)) =~= before
                    + decode_utf16_lossy(rest));
            }
            i = i + 4;
        } else {
            string_push(&mut out, '\u{FFFD}');
            proof {
                assert(rest.drop_first() =~= units.subrange(k + 1, units.len() as int));
                assert(out@ + decode_utf16_lossy(rest.drop_first()) =~= before
                    + decode_utf16_lossy(rest));
            }
            i = i + 2;
        }
    }
    assert(units.subrange(units.len() as int, units.len() as int) =~= Seq::<u16>::empty());
    out
}

/// The UTF-16LE bytes of the character `c`: one unit below U+10000, a
/// surrogate pair above.
pub open spec fn char_utf16_le(c: char) -> Seq<u8> {
    let v = c as int;
    if v < 0x10000 {
        seq![(v % 256) as u8, (v / 256) as u8]
    } else {
        let w = v - 0x10000;
        let hi = 0xD800 + w / 0x400;
        let lo = 0xDC00 + w % 0x400;
        seq![(hi % 256) as u8, (hi / 256) as u8, (lo % 256) as u8, (lo / 256) as u8]
    }
}

/// The UTF-16LE bytes of the characters `s`.
pub open spec fn utf16_le_of(s: Seq<char>) -> Seq<u8>
    decreases s.len(),
{
    if s.len() == 0 {
        Seq::empty()
    } else {
        utf16_le_of(s.drop_last()) + char_utf16_le(s.last())
    }
}

proof fn lemma_utf16_le_front(s: Seq<char>)
    requires
        s.len() > 0,
    ensures
        utf16_le_of(s) == char_utf16_le(s[0]) + utf16_le_of(s.drop_first()),
    decreases s.len(),
{
    if s.len() == 1 {
        assert(s.drop_last() =~= Seq::<char>::empty());
        assert(s.drop_first() =~= Seq::<char>::empty());
        assert(utf16_le_of(s) =~= char_utf16_le(s[0]) + utf16_le_of(s.drop_first()));
    } else {
        lemma_utf16_le_front(s.drop_last());
        assert(s.drop_last().drop_first() =~= s.drop_first().drop_last());
        assert(s.drop_first().last() == s.last());
        assert(utf16_le_of(s) =~= char_utf16_le(s[0]) + utf16_le_of(s.drop_first()));
    }
}

proof fn lemma_utf16_le_even(s: Seq<char>)
    ensures
        utf16_le_of(s).len() % 2 == 0,
    decreases s.len(),
{
    if s.len() > 0 {
        lemma_utf16_le_even(s.drop_last());
    }
}

proof fn lemma_units_concat(a: Seq<u8>, b: Seq<u8>)
    requires
        a.len() % 2 == 0,
    ensures
        utf16_units(a + b) =~= utf16_units(a) + utf16_units(b),
{
    let ab = a + b;
    assert forall|i: int| 0 <= i < utf16_units(a + b).len() implies utf16_units(a + b)[i]
        == (utf16_units(a) + utf16_units(b))[i] by {
        if i < a.len() / 2 {
            assert(ab[2 * i] == a[2 * i]);
            assert(ab[2 * i + 1] == a[2 * i + 1]);
        } else {
            let j = i - a.len() / 2;
            assert(ab[2 * i] == b[2 * j]);
            assert(ab[2 * i + 1] == b[2 * j + 1]);
        }
    }
}

proof fn lemma_char_units(c: char)
    ensures
        ({
            let u = utf16_units(char_utf16_le(c));
            let v = c as int;
            &&& v < 0x10000 ==> u.len() == 1 && u[0] == v && !is_high_surrogate(u[0])
                && !is_low_surrogate(u[0])
            &&& v >= 0x10000 ==> u.len() == 2 && is_high_surrogate(u[0]) && is_low_surrogate(u[1])
                && pair_value(u[0], u[1]) == v
        }),
{
    let v = c as int;
    let b = char_utf16_le(c);
    if v < 0x10000 {
        assert(le_u16(b, 0) == v);
    } else {
        let w = v - 0x10000;
        let hi = 0xD800 + w / 0x400;
        let lo = 0xDC00 + w % 0x400;
        assert(w < 0x100000);
        assert(le_u16(b, 0) == hi);
        assert(le_u16(b, 2) == lo);
        assert(0x10000 + (hi - 0xD800) * 0x400 + (lo - 0xDC00) == v);
    }
}

/// Reading back written text: decoding the UTF-16LE bytes that encode the
/// characters `s` gives `s`.
pub proof fn lemma_utf16_roundtrip(s: Seq<char>)
    ensures
        decode_utf16_lossy(utf16_units(utf16_le_of(s))) == s,
    decreases s.len(),
{
    if s.len() == 0 {
        assert(utf16_units(utf16_le_of(s)) =~= Seq::<u16>::empty());
    } else {
        let c = s[0];
        lemma_utf16_le_front(s);
        lemma_utf16_le_even(s.drop_first());
        lemma_units_concat(char_utf16_le(c), utf16_le_of(s.drop_first()));
        lemma_char_units(c);
        lemma_utf16_roundtrip(s.drop_first());
        let cu = utf16_units(char_utf16_le(c));
        let ru = utf16_units(utf16_le_of(s.drop_first()));
        let all = cu + ru;
        if (c as int) < 0x10000 {
            assert(all.drop_first() =~= ru);
            assert(((all[0] as u32) as char) == c);
        } else {
            assert(all.subrange(2, all.len() as int) =~= ru);
            assert(((pair_value(all[0], all[1]) as u32) as char) == c);
        }
        assert(seq![c] + s.drop_first() =~= s);
    }
}

/// Appends the UTF-16LE bytes of the character `c`.
fn push_char_utf16_le(out: &mut Vec<u8>, c: char)
    ensures
        final(out)@ == old(out)@ + char_utf16_le(c),
{
    let v = c as u32;
    if v < 0x10000 {
        out.push((v % 256) as u8);
        out.push((v / 256) as u8);
    } else {
        let w = v - 0x10000;
        let hi = 0xD800 + w / 0x400;
        let lo = 0xDC00 + w % 0x400;
        out.push((hi % 256) as u8);
        out.push((hi / 256) as u8);
        out.push((lo % 256) as u8);
        out.push((lo / 256) as u8);
    }
    assert(out@ =~= old(out)@ + char_utf16_le(c));
}

/// Appends the UTF-16LE bytes of the text `s`.
pub fn string_chars_utf16_le(s: &String, out: &mut Vec<u8>)
    ensures
        final(out)@ == old(out)@ + utf16_le_of(s@),
{
    broadcast use vstd::string::group_string_axioms;

    let ghost start = out@;
    let mut it = s.as_str().chars();
    let ghost all = s@;
    let ghost mut done: Seq<char> = Seq::empty();
    assert(it.remaining() == all);
    loop
        invariant
            done + it.remaining() == all,
            all == s@,
            out@ == start + utf16_le_of(done),
        ensures
            out@ == start + utf16_le_of(all),
        decreases all.len() - done.len(),
    {
        let ghost before = it.remaining();
        match it.next() {
            Some(c) => {
                push_char_utf16_le(out, c);
                proof {
                    assert(before.len() > 0);
                    assert(c == before[0]);
                    let d2 = done.push(c);
                    assert(d2.drop_last() =~= done);
                    assert(d2 + it.remaining() =~= all);
                    done = d2;
                }
            },
            None => {
                assert(done =~= all);
                break ;
            },
        }
    }
}


/// The character of the decimal digit `d`.
pub open spec fn digit_char(d: nat) -> char {
    if d == 0 {
        '0'
    } else if d == 1 {
        '1'
    } else if d == 2 {
        '2'
    } else if d == 3 {
        '3'
    } else if d == 4 {
        '4'
    } else if d == 5 {
        '5'
    } else if d == 6 {
        '6'
    } else if d == 7 {
        '7'
    } else if d == 8 {
        '8'
    } else {
        '9'
    }
}

/// The decimal digits of `n`, most significant first, as `Display` writes them.
pub open spec fn decimal(n: nat) -> Seq<char>
    decreases n,
{
    if n < 10 {
        seq![digit_char(n)]
    } else {
        decimal(n / 10).push(digit_char(n % 10))
    }
}

/// Appends the decimal digits of `n`.
pub fn push_decimal(s: &mut String, n: usize)
    ensures
        final(s)@ == old(s)@ + decimal(n as nat),
    decreases n,
{
    if n >= 10 {
        push_decimal(s, n / 10);
    }
    let d = n % 10;
    let c = if d == 0 {
        '0'
    } else if d == 1 {
        '1'
    } else if d == 2 {
        '2'
    } else if d == 3 {
        '3'
    } else if d == 4 {
        '4'
    } else if d == 5 {
        '5'
    } else if d == 6 {
        '6'
    } else if d == 7 {
        '7'
    } else if d == 8 {
        '8'
    } else {
        '9'
    };
    string_push(s, c);
    proof {
        if n < 10 {
            assert(old(s)@.push(c) =~= old(s)@ + decimal(n as nat));
        } else {
            assert(final(s)@ =~= old(s)@ + decimal(n as nat));
        }
    }
}

/// Appends the characters of `t`.
pub fn push_chars(s: &mut String, t: &str)
    ensures
        final(s)@ == old(s)@ + t@,
{
    broadcast use vstd::string::group_string_axioms;

    let ghost start = s@;
    let mut it = t.chars();
    let ghost all = t@;
    let ghost mut done: Seq<char> = Seq::empty();
    assert(it.remaining() == all);
    loop
        invariant
            done + it.remaining() == all,
            all == t@,
            s@ == start + done,
        ensures
            s@ == start + all,
        decreases all.len() - done.len(),
    {
        let ghost before = it.remaining();
        match it.next() {
            Some(c) => {
                string_push(s, c);
                proof {
                    assert(before.len() > 0);
                    assert(c == before[0]);
                    let d2 = done.push(c);
                    assert(d2 + it.remaining() =~= all);
                    assert(s@ =~= start + d2);
                    done = d2;
                }
            },
            None => {
                assert(done =~= all);
                break ;
            },
        }
    }
}

} // verus!
