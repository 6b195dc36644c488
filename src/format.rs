use vstd::prelude::*;
use vstd::string::StrSliceExecFns;
use vstd::string::StringExecFns;
use crate::registry::{RegValue, ValueType};
use crate::text::white_space;

verus! {

/// A sequence of UTF-16 units decoded: a high surrogate followed by a low one
/// gives one character, any other surrogate gives U+FFFD, and every other
/// unit is the character of that code.
pub open spec fn utf16_lossy(u: Seq<u16>) -> Seq<char>
    decreases u.len(),
{
    if u.len() == 0 {
        Seq::empty()
    } else if 0xd800 <= u[0] < 0xdc00 && u.len() >= 2 && 0xdc00 <= u[1] < 0xe000 {
        seq![(0x10000 + (u[0] - 0xd800) * 0x400 + (u[1] - 0xdc00)) as u32 as char]
            + utf16_lossy(u.subrange(2, u.len() as int))
    } else if 0xd800 <= u[0] < 0xe000 {
        seq!['\u{fffd}'] + utf16_lossy(u.subrange(1, u.len() as int))
    } else {
        seq![u[0] as u32 as char] + utf16_lossy(u.subrange(1, u.len() as int))
    }
}

/// Relies on `String::from_utf16_lossy`: decodes UTF-16, each invalid
/// surrogate becoming the replacement character U+FFFD.
#[verifier::external_body]
fn decode_utf16(units: &Vec<u16>) -> (r: String)
    ensures
        r@ == utf16_lossy(units@),
{
    String::from_utf16_lossy(units)
}

/// Relies on `String::push`: the character is appended.
#[verifier::external_body]
fn push_char(s: &mut String, c: char)
    ensures
        final(s)@ == old(s)@.push(c),
{
    s.push(c)
}

/// The digit of value `d` in base 16 or below, lowercase.
pub open spec fn digit_char(d: nat) -> char {
    "0123456789abcdef"@[d as int]
}

/// `n` in decimal, without leading zeros.
pub open spec fn decimal_digits(n: nat) -> Seq<char>
    decreases n,
{
    if n < 10 {
        seq![digit_char(n)]
    } else {
        decimal_digits(n / 10).push(digit_char(n % 10))
    }
}

/// `n` in lowercase hex, without leading zeros.
pub open spec fn hex_digits(n: nat) -> Seq<char>
    decreases n,
{
    if n < 16 {
        seq![digit_char(n)]
    } else {
        hex_digits(n / 16).push(digit_char(n % 16))
    }
}

/// `s` with zeros in front up to `width` characters.
pub open spec fn zero_padded(s: Seq<char>, width: nat) -> Seq<char> {
    if s.len() >= width {
        s
    } else {
        Seq::new((width - s.len()) as nat, |_i: int| '0') + s
    }
}

/// A number as `0x` and at least eight hex digits, then its decimal form in parentheses.
pub open spec fn hex_and_decimal(n: nat) -> Seq<char> {
    "0x"@ + zero_padded(hex_digits(n), 8) + " ("@ + decimal_digits(n) + ")"@
}

/// Each byte as two hex digits, separated by spaces.
pub open spec fn hex_bytes(b: Seq<u8>) -> Seq<char>
    decreases b.len(),
{
    if b.len() == 0 {
        Seq::empty()
    } else if b.len() == 1 {
        seq![digit_char((b[0] / 16) as nat), digit_char((b[0] % 16) as nat)]
    } else {
        hex_bytes(b.drop_last()) + seq![' ', digit_char((b.last() / 16) as nat), digit_char(
            (b.last() % 16) as nat,
        )]
    }
}

/// The data as little-endian UTF-16 units; an odd last byte is left out.
pub open spec fn wide_units(data: Seq<u8>) -> Seq<u16> {
    Seq::new(data.len() / 2, |i: int| (data[2 * i] + 256 * data[2 * i + 1]) as u16)
}

/// The units before the first 0, or all of them.
pub open spec fn until_nul(u: Seq<u16>) -> Seq<u16>
    decreases u.len(),
{
    if u.len() == 0 {
        u
    } else if u[0] == 0 {
        Seq::empty()
    } else {
        seq![u[0]] + until_nul(u.drop_first())
    }
}

/// The strings of a multi-string from unit `i` on, `current` holding the
/// units read of the one in progress: each ends at a 0, and an empty string
/// or the end of the data ends the list (a string without its 0 is dropped).
pub open spec fn multi_parts(u: Seq<u16>, i: int, current: Seq<u16>) -> Seq<Seq<u16>>
    decreases u.len() - i,
{
    if i < 0 || i >= u.len() {
        Seq::empty()
    } else if u[i] == 0 {
        if current.len() == 0 {
            Seq::empty()
        } else {
            seq![current] + multi_parts(u, i + 1, Seq::empty())
        }
    } else {
        multi_parts(u, i + 1, current.push(u[i]))
    }
}

/// The texts of `parts` joined by single spaces.
pub open spec fn joined(parts: Seq<Seq<u16>>) -> Seq<char>
    decreases parts.len(),
{
    if parts.len() == 0 {
        Seq::empty()
    } else if parts.len() == 1 {
        utf16_lossy(parts[0])
    } else {
        joined(parts.drop_last()) + " "@ + utf16_lossy(parts.last())
    }
}

/// `s` without the white space at its end.
pub open spec fn trimmed_end(s: Seq<char>) -> Seq<char>
    decreases s.len(),
{
    if s.len() > 0 && white_space(s.last()) {
        trimmed_end(s.drop_last())
    } else {
        s
    }
}

/// The number that the first four bytes give, least significant first.
pub open spec fn le_u32(d: Seq<u8>) -> nat {
    (d[0] + 0x100 * d[1] + 0x1_0000 * d[2] + 0x100_0000 * d[3]) as nat
}

/// The number that the first eight bytes give, least significant first.
pub open spec fn le_u64(d: Seq<u8>) -> nat {
    (le_u32(d) + 0x1_0000_0000 * (d[4] + 0x100 * d[5] + 0x1_0000 * d[6] + 0x100_0000 * d[7])) as nat
}

/// How a value is shown.
pub open spec fn printable(v: RegValue) -> Seq<char> {
    let d = v.data@;
    match v.ty {
        ValueType::Bytes => hex_bytes(d),
        ValueType::String | ValueType::ExpandString => utf16_lossy(until_nul(wide_units(d))),
        ValueType::MultiString => trimmed_end(joined(multi_parts(wide_units(d), 0, Seq::empty()))),
        ValueType::U32 if d.len() >= 4 => hex_and_decimal(le_u32(d)),
        ValueType::U64 if d.len() >= 8 => hex_and_decimal(le_u64(d)),
        _ => "(unknown data)"@,
    }
}

fn digit(d: u64) -> (c: char)
    requires
        d < 16,
    ensures
        c == digit_char(d as nat),
{
    proof {
        reveal_strlit("0123456789abcdef");
    }
    "0123456789abcdef".get_char(d as usize)
}

/// Appends `n` in decimal.
fn push_decimal(out: &mut String, n: u64)
    ensures
        final(out)@ == old(out)@ + decimal_digits(n as nat),
    decreases n,
{
    let ghost start = out@;
    if n >= 10 {
        push_decimal(out, n / 10);
    }
    push_char(out, digit(n % 10));
    proof {
        assert(out@ =~= start + decimal_digits(n as nat));
    }
}

/// Appends `n` in hex.
fn push_hex(out: &mut String, n: u64)
    ensures
        final(out)@ == old(out)@ + hex_digits(n as nat),
    decreases n,
{
    let ghost start = out@;
    if n >= 16 {
        push_hex(out, n / 16);
    }
    push_char(out, digit(n % 16));
    proof {
        assert(out@ =~= start + hex_digits(n as nat));
    }
}

/// A number as `0x`, at least eight hex digits, and its decimal form in parentheses.
fn format_number(n: u64) -> (r: String)
    ensures
        r@ == hex_and_decimal(n as nat),
{
    proof {
        reveal_strlit("0x");
        reveal_strlit(" (");
        reveal_strlit(")");
    }
    let mut hex = String::new();
    push_hex(&mut hex, n);
    let mut out = "0x".to_owned();
    let width = hex.as_str().unicode_len();
    let mut k: usize = width;
    while k < 8
        invariant
            width == hex_digits(n as nat).len(),
            width <= k <= 8 || (k == width && width > 8),
            out@ == "0x"@ + Seq::new((k - width) as nat, |_i: int| '0'),
        decreases 8 - k,
    {
        push_char(&mut out, '0');
        proof {
            assert(out@ =~= "0x"@ + Seq::new((k + 1 - width) as nat, |_i: int| '0'));
        }
        k = k + 1;
    }
    proof {
        if width >= 8 {
            assert(out@ =~= "0x"@);
        }
    }
    out = out.concat(hex.as_str());
    out = out.concat(" (");
    push_decimal(&mut out, n);
    out = out.concat(")");
    proof {
        assert(out@ =~= hex_and_decimal(n as nat));
    }
    out
}

/// The data of a value as little-endian UTF-16 units.
fn to_wide(data: &Vec<u8>) -> (r: Vec<u16>)
    ensures
        r@ == wide_units(data@),
{
    let mut r: Vec<u16> = Vec::new();
    let n = data.len() / 2;
    let mut i: usize = 0;
    while i < n
        invariant
            n == data.len() / 2,
            i <= n,
            r@ =~= wide_units(data@).subrange(0, i as int),
        decreases n - i,
    {
        let u = (data[2 * i] as u16) + 256 * (data[2 * i + 1] as u16);
        r.push(u);
        i = i + 1;
    }
    r
}

/// Shows bytes as hex pairs separated by spaces.
pub fn get_printable_binary(data: &Vec<u8>) -> (r: String)
    ensures
        r@ == hex_bytes(data@),
{
    let mut out = String::new();
    let mut i: usize = 0;
    while i < data.len()
        invariant
            i <= data.len(),
            out@ == hex_bytes(data@.subrange(0, i as int)),
        decreases data.len() - i,
    {
        let b = data[i];
        if i > 0 {
            push_char(&mut out, ' ');
        }
        push_char(&mut out, digit((b / 16) as u64));
        push_char(&mut out, digit((b % 16) as u64));
        proof {
            let s = data@.subrange(0, i + 1);
            assert(s.drop_last() =~= data@.subrange(0, i as int));
            assert(out@ =~= hex_bytes(s));
        }
        i = i + 1;
    }
    assert(data@.subrange(0, data@.len() as int) =~= data@);
    out
}

/// Shows a string value: its text up to the first NUL.
pub fn get_printable_sz(data: &Vec<u8>) -> (r: String)
    ensures
        r@ == utf16_lossy(until_nul(wide_units(data@))),
{
    let wide = to_wide(data);
    let mut end: usize = 0;
    while end < wide.len() && wide[end] != 0
        invariant
            end <= wide.len(),
            forall|j: int| 0 <= j < end ==> wide@[j] != 0,
        decreases wide.len() - end,
    {
        end = end + 1;
    }
    let mut head: Vec<u16> = Vec::new();
    let mut i: usize = 0;
    while i < end
        invariant
            i <= end <= wide.len(),
            head@ =~= wide@.subrange(0, i as int),
        decreases end - i,
    {
        head.push(wide[i]);
        i = i + 1;
    }
    proof {
        lemma_until_nul(wide@, end as int);
    }
    decode_utf16(&head)
}

proof fn lemma_until_nul(u: Seq<u16>, end: int)
    requires
        0 <= end <= u.len(),
        forall|j: int| 0 <= j < end ==> u[j] != 0,
        end < u.len() ==> u[end] == 0,
    ensures
        until_nul(u) == u.subrange(0, end),
    decreases u.len(),
{
    if u.len() > 0 && end > 0 {
        lemma_until_nul(u.drop_first(), end - 1);
        assert(seq![u[0]] + u.drop_first().subrange(0, end - 1) =~= u.subrange(0, end));
    } else if u.len() > 0 {
        assert(u.subrange(0, 0) =~= Seq::<u16>::empty());
    } else {
        assert(u.subrange(0, end) =~= u);
    }
}

/// Drops the white space at the end of `s`.
fn trim_end(s: String) -> (r: String)
    ensures
        r@ == trimmed_end(s@),
{
    let n = s.as_str().unicode_len();
    let mut k: usize = n;
    assert(s@.subrange(0, n as int) =~= s@);
    while k > 0 && crate::text::is_white(s.as_str().get_char(k - 1))
        invariant
            k <= n == s@.len(),
            trimmed_end(s@) == trimmed_end(s@.subrange(0, k as int)),
        decreases k,
    {
        proof {
            let t = s@.subrange(0, k as int);
            assert(t.drop_last() =~= s@.subrange(0, k - 1));
        }
        k = k - 1;
    }
    proof {
        let t = s@.subrange(0, k as int);
        assert(s@.subrange(0, n as int) =~= s@);
        if k > 0 {
            assert(t.last() == s@[k - 1]);
        }
    }
    s.as_str().substring_char(0, k).to_owned()
}

/// Shows a multi-string value: its strings separated by spaces.
pub fn get_printable_multi_sz(data: &Vec<u8>) -> (r: String)
    ensures
        r@ == trimmed_end(joined(multi_parts(wide_units(data@), 0, Seq::empty()))),
{
    let wide = to_wide(data);
    let ghost u = wide@;
    let ghost mut done: Seq<Seq<u16>> = Seq::empty();
    let mut out = String::new();
    let mut current: Vec<u16> = Vec::new();
    let mut any = false;
    let mut i: usize = 0;
    loop
        invariant
            any == (done.len() > 0),
            u == wide@,
            i <= wide.len(),
            done + multi_parts(u, i as int, current@) == multi_parts(u, 0, Seq::empty()),
            out@ == joined(done),
        ensures
            out@ == joined(multi_parts(u, 0, Seq::empty())),
        decreases wide.len() - i,
    {
        if i >= wide.len() {
            assert(done + Seq::empty() =~= done);
            break;
        }
        let c = wide[i];
        if c == 0 {
            if current.len() == 0 {
                assert(done + Seq::empty() =~= done);
                break;
            }
            let text = decode_utf16(&current);
            if any {
                push_char(&mut out, ' ');
            }
            out = out.concat(text.as_str());
            proof {
                let nd = done.push(current@);
                assert(nd.drop_last() =~= done);
                assert(nd.last() == current@);
                reveal_strlit(" ");
                assert(out@ =~= joined(nd));
                assert(nd + multi_parts(u, i + 1, Seq::empty()) =~= done + (seq![current@]
                    + multi_parts(u, i + 1, Seq::empty())));
                done = nd;
            }
            any = true;
            current = Vec::new();
        } else {
            current.push(c);
        }
        i = i + 1;
    }
    trim_end(out)
}

/// The number in the first four bytes, least significant first.
fn read_u32(d: &Vec<u8>) -> (r: u64)
    requires
        d.len() >= 4,
    ensures
        r == le_u32(d@),
{
    (d[0] as u64) + 0x100 * (d[1] as u64) + 0x1_0000 * (d[2] as u64) + 0x100_0000 * (d[3] as u64)
}

/// The number in the first eight bytes, least significant first.
fn read_u64(d: &Vec<u8>) -> (r: u64)
    requires
        d.len() >= 8,
    ensures
        r == le_u64(d@),
{
    let high = (d[4] as u64) + 0x100 * (d[5] as u64) + 0x1_0000 * (d[6] as u64) + 0x100_0000 * (
    d[7] as u64);
    read_u32(d) + 0x1_0000_0000 * high
}

/// Shows a value's data according to its kind.
pub fn get_printable_value(value: &RegValue) -> (r: String)
    ensures
        r@ == printable(*value),
{
    proof {
        reveal_strlit("(unknown data)");
    }
    match value.ty {
        ValueType::Bytes => get_printable_binary(&value.data),
        ValueType::String | ValueType::ExpandString => get_printable_sz(&value.data),
        ValueType::MultiString => get_printable_multi_sz(&value.data),
        ValueType::U32 if value.data.len() >= 4 => format_number(read_u32(&value.data)),
        ValueType::U64 if value.data.len() >= 8 => format_number(read_u64(&value.data)),
        _ => "(unknown data)".to_owned(),
    }
}

} // verus!
