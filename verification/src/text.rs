//! Byte-level building blocks shared by the option tables: searching,
//! splitting, and the decimal, flag and list shapes a raw value can take.
//!
//! Everything here works on opaque bytes. No encoding is assumed beyond
//! ASCII for the handful of delimiters and digits that are looked for.

use vstd::prelude::*;
use vstd::string::*;
use vstd::utf8::{decode_utf8, valid_utf8};

verus! {

/// `=`, which separates a key from its value.
pub const EQUALS: u8 = 61;

/// `,`, which separates the members of an id list.
pub const COMMA: u8 = 44;

/// `:`, which separates the members of a path list.
pub const COLON: u8 = 58;

/// The blank that joins the words of a reconstructed command line.
pub const SPACE: u8 = 32;

/// `.`, which separates the two halves of a version.
pub const DOT: u8 = 46;

/// `0`, the first of the ten decimal digits.
pub const DIGIT_ZERO: u8 = 48;

/// `9`, the last of the ten decimal digits.
pub const DIGIT_NINE: u8 = 57;

/// The position of the first `b` in `s`, or the length of `s` when `s`
/// holds no `b`.
pub open spec fn first_index(s: Seq<u8>, b: u8) -> int
    decreases s.len(),
{
    if s.len() == 0 || s[0] == b {
        0
    } else {
        1 + first_index(s.drop_first(), b)
    }
}

/// `first_index` lies within `s`, points at a `b` when it is inside, and
/// nothing before it is a `b`.
pub proof fn lemma_first_index(s: Seq<u8>, b: u8)
    ensures
        0 <= first_index(s, b) <= s.len(),
        first_index(s, b) < s.len() ==> s[first_index(s, b)] == b,
        forall|j: int| 0 <= j < first_index(s, b) ==> s[j] != b,
    decreases s.len(),
{
    if s.len() == 0 || s[0] == b {
    } else {
        let rest = s.drop_first();
        lemma_first_index(rest, b);
        assert forall|j: int| 0 <= j < first_index(s, b) implies s[j] != b by {
            if j > 0 {
                assert(s[j] == rest[j - 1]);
            }
        }
    }
}

/// Any position that points at a `b` (or at the end) with no `b` before it
/// is the first index.
pub proof fn lemma_first_index_unique(s: Seq<u8>, b: u8, i: int)
    requires
        0 <= i <= s.len(),
        i < s.len() ==> s[i] == b,
        forall|j: int| 0 <= j < i ==> s[j] != b,
    ensures
        first_index(s, b) == i,
{
    lemma_first_index(s, b);
}

/// Finds the first `b` in `s`; returns the length of `s` when there is none.
pub fn find_byte(s: &[u8], b: u8) -> (i: usize)
    ensures
        i == first_index(s@, b),
        i <= s.len(),
{
    let mut i: usize = 0;
    while i < s.len() && s[i] != b
        invariant
            0 <= i <= s.len(),
            forall|j: int| 0 <= j < i ==> s@[j] != b,
        decreases s.len() - i,
    {
        i += 1;
    }
    proof {
        lemma_first_index_unique(s@, b, i as int);
    }
    i
}

/// Whether two byte strings hold the same bytes.
pub fn bytes_eq(a: &[u8], b: &[u8]) -> (same: bool)
    ensures
        same == (a@ == b@),
{
    if a.len() != b.len() {
        return false;
    }
    let mut i: usize = 0;
    while i < a.len()
        invariant
            a.len() == b.len(),
            0 <= i <= a.len(),
            forall|j: int| 0 <= j < i ==> a@[j] == b@[j],
        decreases a.len() - i,
    {
        if a[i] != b[i] {
            return false;
        }
        i += 1;
    }
    assert(a@ =~= b@);
    true
}

/// An owned copy of the bytes of `s` from `from` up to, not including, `to`.
pub fn copy_range(s: &[u8], from: usize, to: usize) -> (out: Vec<u8>)
    requires
        from <= to <= s.len(),
    ensures
        out@ == s@.subrange(from as int, to as int),
{
    let mut out: Vec<u8> = Vec::new();
    let mut i: usize = from;
    while i < to
        invariant
            from <= i <= to <= s.len(),
            out@ == s@.subrange(from as int, i as int),
        decreases to - i,
    {
        out.push(s[i]);
        i += 1;
    }
    out
}

/// Whether `b` is one of the ten ASCII decimal digits.
pub open spec fn is_digit(b: u8) -> bool {
    DIGIT_ZERO <= b <= DIGIT_NINE
}

/// Whether every byte of `s` is a decimal digit.
pub open spec fn all_digits(s: Seq<u8>) -> bool {
    forall|i: int| 0 <= i < s.len() ==> is_digit(#[trigger] s[i])
}

/// The number that a run of decimal digits writes, most significant digit
/// first. The empty run writes zero.
pub open spec fn digits_value(s: Seq<u8>) -> nat
    decreases s.len(),
{
    if s.len() == 0 {
        0
    } else {
        digits_value(s.drop_last()) * 10 + (s.last() - DIGIT_ZERO) as nat
    }
}

/// The number written by `s`, when `s` is one or more decimal digits and
/// nothing else: no sign, no blank, no separator. Leading zeros are allowed.
pub open spec fn decimal(s: Seq<u8>) -> Option<nat> {
    if s.len() > 0 && all_digits(s) {
        Some(digits_value(s))
    } else {
        None
    }
}

/// `decimal`, narrowed to what a `u64` can hold.
pub open spec fn decimal_u64(s: Seq<u8>) -> Option<u64> {
    match decimal(s) {
        Some(n) => if n <= u64::MAX {
            Some(n as u64)
        } else {
            None
        },
        None => None,
    }
}

/// `decimal`, narrowed to what a `u32` can hold.
pub open spec fn decimal_u32(s: Seq<u8>) -> Option<u32> {
    match decimal(s) {
        Some(n) => if n <= u32::MAX {
            Some(n as u32)
        } else {
            None
        },
        None => None,
    }
}

/// A run of digits writes at least as much as any of its prefixes.
pub proof fn lemma_digits_value_prefix(s: Seq<u8>, i: int)
    requires
        all_digits(s),
        0 <= i <= s.len(),
    ensures
        digits_value(s.take(i)) <= digits_value(s),
    decreases s.len() - i,
{
    if i == s.len() {
        assert(s.take(i) =~= s);
    } else {
        lemma_digits_value_prefix(s, i + 1);
        let longer = s.take(i + 1);
        assert(longer.drop_last() =~= s.take(i));
    }
}

/// Reads an unsigned decimal number.
///
/// Succeeds exactly when `s` is one or more ASCII digits whose value fits
/// in a `u64`.
pub fn parse_u64(s: &[u8]) -> (r: Option<u64>)
    ensures
        r == decimal_u64(s@),
{
    if s.len() == 0 {
        return None;
    }
    let mut acc: u64 = 0;
    let mut i: usize = 0;
    while i < s.len()
        invariant
            0 <= i <= s.len(),
            all_digits(s@.take(i as int)),
            acc == digits_value(s@.take(i as int)),
        decreases s.len() - i,
    {
        let b: u8 = s[i];
        if b < DIGIT_ZERO || b > DIGIT_NINE {
            return None;
        }
        let d: u64 = (b - DIGIT_ZERO) as u64;
        proof {
            let longer = s@.take(i + 1);
            assert(longer.drop_last() =~= s@.take(i as int));
            assert forall|j: int| 0 <= j < longer.len() implies is_digit(#[trigger] longer[j]) by {}
        }
        if acc > (u64::MAX - d) / 10 {
            proof {
                if all_digits(s@) {
                    lemma_digits_value_prefix(s@, i + 1);
                }
            }
            return None;
        }
        acc = acc * 10 + d;
        i += 1;
    }
    assert(s@.take(i as int) =~= s@);
    Some(acc)
}

/// Reads an unsigned decimal number that fits in a `u32`.
pub fn parse_u32(s: &[u8]) -> (r: Option<u32>)
    ensures
        r == decimal_u32(s@),
{
    match parse_u64(s) {
        Some(n) => if n <= u32::MAX as u64 {
            Some(n as u32)
        } else {
            None
        },
        None => None,
    }
}

/// The shortest decimal writing of `n`: no leading zero, except for zero
/// itself.
pub open spec fn decimal_digits(n: nat) -> Seq<u8>
    decreases n,
{
    if n < 10 {
        seq![(DIGIT_ZERO + n) as u8]
    } else {
        decimal_digits(n / 10).push((DIGIT_ZERO + n % 10) as u8)
    }
}

/// Writes `n` in decimal.
pub fn render_decimal(n: u64) -> (out: Vec<u8>)
    ensures
        out@ == decimal_digits(n as nat),
    decreases n,
{
    if n < 10 {
        let mut out: Vec<u8> = Vec::new();
        out.push(DIGIT_ZERO + n as u8);
        out
    } else {
        let mut out = render_decimal(n / 10);
        out.push(DIGIT_ZERO + (n % 10) as u8);
        out
    }
}

/// What `render_decimal` writes, `decimal` reads back as the same number.
pub proof fn lemma_decimal_round_trip(n: nat)
    ensures
        decimal(decimal_digits(n)) == Some(n),
    decreases n,
{
    let s = decimal_digits(n);
    if n < 10 {
        assert(digits_value(s.drop_last()) == 0);
    } else {
        lemma_decimal_round_trip(n / 10);
        let head = decimal_digits(n / 10);
        assert(s.drop_last() =~= head);
        assert forall|i: int| 0 <= i < s.len() implies is_digit(#[trigger] s[i]) by {}
    }
}

/// The pieces of `s` between occurrences of the delimiter `d`, in order.
///
/// There is always at least one piece: a string without delimiters is its
/// own single piece, and the empty string splits into one empty piece.
pub open spec fn split_on(s: Seq<u8>, d: u8) -> Seq<Seq<u8>>
    decreases s.len(),
{
    let i = first_index(s, d);
    if i < 0 || i >= s.len() {
        seq![s]
    } else {
        seq![s.take(i)] + split_on(s.skip(i + 1), d)
    }
}

/// Splitting never yields an empty list.
pub proof fn lemma_split_on_nonempty(s: Seq<u8>, d: u8)
    ensures
        split_on(s, d).len() >= 1,
{
}

/// The byte strings held by a list of owned byte strings.
pub open spec fn rows(v: Seq<Vec<u8>>) -> Seq<Seq<u8>> {
    Seq::new(v.len(), |i: int| v[i]@)
}

/// Splits `s` at every occurrence of the delimiter `d`.
pub fn split(s: &[u8], d: u8) -> (out: Vec<Vec<u8>>)
    ensures
        rows(out@) == split_on(s@, d),
{
    let mut out: Vec<Vec<u8>> = Vec::new();
    let mut start: usize = 0;
    let mut i: usize = 0;
    assert(s@.skip(0) =~= s@);
    while i < s.len()
        invariant
            0 <= start <= i <= s.len(),
            forall|j: int| start <= j < i ==> s@[j] != d,
            split_on(s@, d) == rows(out@) + split_on(s@.skip(start as int), d),
        decreases s.len() - i,
    {
        if s[i] == d {
            let piece = copy_range(s, start, i);
            proof {
                let rest = s@.skip(start as int);
                lemma_first_index_unique(rest, d, i - start);
                assert(rest.take(i - start) =~= s@.subrange(start as int, i as int));
                assert(rest.skip(i - start + 1) =~= s@.skip(i + 1));
            }
            out.push(piece);
            start = i + 1;
        }
        i += 1;
    }
    let piece = copy_range(s, start, s.len());
    proof {
        let rest = s@.skip(start as int);
        lemma_first_index_unique(rest, d, s.len() - start);
    }
    out.push(piece);
    out
}

/// The list of ids that `s` writes: decimal numbers that each fit in a
/// `u32`, separated by commas. `None` when any member is not such a number,
/// so the empty string, a trailing comma and a doubled comma are all
/// refused.
pub open spec fn id_list(s: Seq<u8>) -> Option<Seq<u32>> {
    let parts = split_on(s, COMMA);
    if forall|i: int| 0 <= i < parts.len() ==> (#[trigger] decimal_u32(parts[i])) is Some {
        Some(Seq::new(parts.len(), |i: int| decimal_u32(parts[i]).unwrap()))
    } else {
        None
    }
}

/// A well-formed id list has at least one member.
pub proof fn lemma_id_list_nonempty(s: Seq<u8>)
    ensures
        id_list(s) matches Some(ids) ==> ids.len() >= 1,
{
    lemma_split_on_nonempty(s, COMMA);
}

/// Reads a comma-separated list of ids.
pub fn parse_id_list(s: &[u8]) -> (r: Option<Vec<u32>>)
    ensures
        r is Some == id_list(s@) is Some,
        r matches Some(ids) ==> Some(ids@) == id_list(s@),
{
    let parts = split(s, COMMA);
    let mut ids: Vec<u32> = Vec::new();
    let mut i: usize = 0;
    while i < parts.len()
        invariant
            0 <= i <= parts.len(),
            rows(parts@) == split_on(s@, COMMA),
            ids@.len() == i,
            forall|j: int| 0 <= j < i ==> decimal_u32(rows(parts@)[j]) == Some(#[trigger] ids@[j]),
        decreases parts.len() - i,
    {
        match parse_u32(parts[i].as_slice()) {
            Some(id) => {
                ids.push(id);
            },
            None => {
                assert(decimal_u32(rows(parts@)[i as int]) is None);
                return None;
            },
        }
        i += 1;
    }
    proof {
        let all = split_on(s@, COMMA);
        assert forall|j: int| 0 <= j < all.len() implies (#[trigger] decimal_u32(
            all[j],
        )) is Some by {
            assert(decimal_u32(rows(parts@)[j]) == Some(ids@[j]));
        }
    }
    Some(ids)
}

/// The truth value that `value` writes for the option named `key`.
///
/// `true` and `false` write themselves. Failing those, a value that merely
/// repeats its key is an option given without a value, and its presence
/// means true. Anything else writes no truth value.
pub open spec fn flag_value(key: Seq<u8>, value: Seq<u8>) -> Option<bool> {
    if value == "true".spec_bytes() {
        Some(true)
    } else if value == "false".spec_bytes() {
        Some(false)
    } else if value == key {
        Some(true)
    } else {
        None
    }
}

/// Reads the truth value of the option `key` from its `value`.
pub fn parse_flag(key: &[u8], value: &[u8]) -> (r: Option<bool>)
    ensures
        r == flag_value(key@, value@),
{
    if bytes_eq(value, "true".as_bytes()) {
        Some(true)
    } else if bytes_eq(value, "false".as_bytes()) {
        Some(false)
    } else if bytes_eq(value, key) {
        Some(true)
    } else {
        None
    }
}

/// An owned copy of `s`.
pub fn copy_bytes(s: &[u8]) -> (out: Vec<u8>)
    ensures
        out@ == s@,
{
    let out = copy_range(s, 0, s.len());
    out
}

/// Appends the bytes of `s` to `out`.
pub fn append_bytes(out: &mut Vec<u8>, s: &[u8])
    ensures
        final(out)@ == old(out)@ + s@,
{
    let mut i: usize = 0;
    while i < s.len()
        invariant
            0 <= i <= s.len(),
            out@ == old(out)@ + s@.take(i as int),
        decreases s.len() - i,
    {
        out.push(s[i]);
        i += 1;
    }
}

/// `String::from_utf8` of the standard library: the text that `bytes`
/// encode when they are well-formed UTF-8, and nothing when they are not.
#[verifier::external_body]
pub(crate) fn string_from_utf8(bytes: Vec<u8>) -> (r: Option<String>)
    ensures
        r is Some == valid_utf8(bytes@),
        r matches Some(s) ==> s@ == decode_utf8(bytes@),
{
    match String::from_utf8(bytes) {
        Ok(s) => Some(s),
        Err(_) => None,
    }
}

} // verus!
