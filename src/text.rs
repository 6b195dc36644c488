use vstd::prelude::*;
use vstd::std_specs::iter::IteratorSpec;
use vstd::string::StrSliceExecFns;
use vstd::string::StringExecFns;
use vstd::utf8::encode_utf8;

verus! {

broadcast use vstd::string::axiom_spec_iter, vstd::string::next_postcondition;

/// What `str::to_lowercase` makes of a character sequence.
pub uninterp spec fn lower_of(s: Seq<char>) -> Seq<char>;

/// Whether a character has the Unicode `White_Space` property.
pub open spec fn white_space(c: char) -> bool {
    let n = c as u32;
    ||| 0x09 <= n <= 0x0d
    ||| n == 0x20
    ||| n == 0x85
    ||| n == 0xa0
    ||| n == 0x1680
    ||| 0x2000 <= n <= 0x200a
    ||| n == 0x2028
    ||| n == 0x2029
    ||| n == 0x202f
    ||| n == 0x205f
    ||| n == 0x3000
}

/// Relies on `str::to_lowercase`: the lowercase form depends on the characters alone.
#[verifier::external_body]
fn lowercase(s: &str) -> (r: String)
    ensures
        r@ == lower_of(s@),
{
    s.to_lowercase()
}

/// Relies on `char::is_whitespace`: true exactly for characters with the
/// `White_Space` property.
#[verifier::external_body]
fn is_whitespace(c: char) -> (r: bool)
    ensures
        r == white_space(c),
{
    c.is_whitespace()
}

/// Whether a character is white space.
pub fn is_white(c: char) -> (r: bool)
    ensures
        r == white_space(c),
{
    is_whitespace(c)
}

/// A name is blank when it holds nothing but white space (what `trim` would remove).
pub open spec fn blank(s: Seq<char>) -> bool {
    forall|i: int| 0 <= i < s.len() ==> white_space(#[trigger] s[i])
}

/// Strict lexicographic order on character sequences, by code point. For
/// strings this is the order that `Ord for str` gives, as UTF-8 keeps it.
pub open spec fn seq_lt(a: Seq<char>, b: Seq<char>) -> bool {
    exists|k: int|
        0 <= k <= a.len() && k <= b.len() && a.subrange(0, k) == b.subrange(0, k) && (
        (k == a.len() && k < b.len()) || (k < a.len() && k < b.len() && (a[k] as u32) < (
        b[k] as u32)))
}

/// The characters of `s`, in order.
pub fn chars_of(s: &str) -> (r: Vec<char>)
    ensures
        r@ == s@,
{
    let mut it = s.chars();
    let mut r: Vec<char> = Vec::new();
    loop
        invariant
            it.obeys_prophetic_iter_laws(),
            it.decrease() is Some,
            r@ + it.remaining() == s@,
        ensures
            r@ == s@,
        decreases it.decrease()->0,
    {
        match it.next() {
            Some(c) => {
                r.push(c);
            },
            None => {
                assert(r@ + Seq::<char>::empty() =~= r@);
                break;
            },
        }
    }
    r
}

/// Whether `s` holds nothing but white space.
pub fn is_blank(s: &str) -> (r: bool)
    ensures
        r == blank(s@),
{
    let cs = chars_of(s);
    let mut i: usize = 0;
    while i < cs.len()
        invariant
            cs@ == s@,
            i <= cs.len(),
            forall|j: int| 0 <= j < i ==> white_space(#[trigger] s@[j]),
        decreases cs.len() - i,
    {
        if !is_whitespace(cs[i]) {
            return false;
        }
        i = i + 1;
    }
    true
}

/// Whether `s` holds the character `c`.
pub fn contains_char(s: &str, c: char) -> (r: bool)
    ensures
        r == s@.contains(c),
{
    let cs = chars_of(s);
    let mut i: usize = 0;
    while i < cs.len()
        invariant
            cs@ == s@,
            i <= cs.len(),
            forall|j: int| 0 <= j < i ==> s@[j] != c,
        decreases cs.len() - i,
    {
        if cs[i] == c {
            assert(s@[i as int] == c);
            return true;
        }
        i = i + 1;
    }
    false
}

/// The lowercase form of a name.
pub fn to_lower(s: &str) -> (r: String)
    ensures
        r@ == lower_of(s@),
{
    lowercase(s)
}

/// Whether `a` comes strictly before `b` in lexicographic order.
pub fn str_lt(a: &str, b: &str) -> (r: bool)
    ensures
        r == seq_lt(a@, b@),
{
    let ca = chars_of(a);
    let cb = chars_of(b);
    let mut i: usize = 0;
    while i < ca.len() && i < cb.len() && ca[i] == cb[i]
        invariant
            ca@ == a@,
            cb@ == b@,
            i <= ca.len(),
            i <= cb.len(),
            a@.subrange(0, i as int) == b@.subrange(0, i as int),
        decreases ca.len() - i,
    {
        assert(a@.subrange(0, i + 1) =~= a@.subrange(0, i as int).push(a@[i as int]));
        assert(b@.subrange(0, i + 1) =~= b@.subrange(0, i as int).push(b@[i as int]));
        i = i + 1;
    }
    let ghost k = i as int;
    let r = if i < ca.len() && i < cb.len() {
        (ca[i] as u32) < (cb[i] as u32)
    } else {
        i == ca.len() && i < cb.len()
    };
    proof {
        assert forall|m: int|
            0 <= m <= a@.len() && m <= b@.len() && a@.subrange(0, m) == b@.subrange(0, m) implies m
            <= k by {
            if m > k {
                assert(a@.subrange(0, m)[k] == a@[k]);
                assert(b@.subrange(0, m)[k] == b@[k]);
            }
        }
        if r {
            assert(seq_lt(a@, b@));
        } else {
            if seq_lt(a@, b@) {
                let m = choose|m: int|
                    0 <= m <= a@.len() && m <= b@.len() && a@.subrange(0, m) == b@.subrange(0, m)
                        && ((m == a@.len() && m < b@.len()) || (m < a@.len() && m < b@.len() && (
                    a@[m] as u32) < (b@[m] as u32)));
                assert(m <= k);
                if m < k {
                    assert(a@.subrange(0, k)[m] == a@[m]);
                    assert(b@.subrange(0, k)[m] == b@[m]);
                }
            }
        }
    }
    r
}

/// `s`, or, where it is longer than `max_len` bytes, its first `sides` characters
/// and the characters from `s.len() - sides` on, joined by `...`.
pub open spec fn truncated(s: Seq<char>, byte_len: nat, max_len: nat, sides: nat) -> Seq<char> {
    if byte_len <= max_len {
        s
    } else {
        let right_from = if byte_len - sides <= s.len() {
            (byte_len - sides) as int
        } else {
            s.len() as int
        };
        s.subrange(0, if sides <= s.len() { sides as int } else { s.len() as int }) + "..."@
            + s.subrange(right_from, s.len() as int)
    }
}

/// Shortens a long name for a label.
pub fn truncate_name(s: &str, max_len: usize, sides_size: usize) -> (r: String)
    requires
        max_len >= sides_size * 2,
    ensures
        r@ == truncated(s@, encode_utf8(s@).len(), max_len as nat, sides_size as nat),
{
    let len = s.as_bytes().len();
    if len <= max_len {
        return s.to_owned();
    }
    let n = s.unicode_len();
    let left_to = if sides_size <= n {
        sides_size
    } else {
        n
    };
    let right_from = if len - sides_size <= n {
        len - sides_size
    } else {
        n
    };
    let left = s.substring_char(0, left_to);
    let right = s.substring_char(right_from, n);
    let r = left.to_owned().concat("...").concat(right);
    proof {
        reveal_strlit("...");
        assert(r@ =~= truncated(s@, len as nat, max_len as nat, sides_size as nat));
    }
    r
}

} // verus!
