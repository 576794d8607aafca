//! Character-level helpers shared by the rest of the crate: decimal
//! rendering and parsing, substring search, lexicographic comparison,
//! space padding, and case folding.

use vstd::prelude::*;

verus! {

/// The ten decimal digit characters.
pub open spec fn is_digit_char(c: char) -> bool {
    '0' as u32 <= c as u32 && c as u32 <= '9' as u32
}

pub open spec fn all_digits(s: Seq<char>) -> bool {
    forall|i: int| 0 <= i < s.len() ==> is_digit_char(#[trigger] s[i])
}

pub open spec fn digit_val(c: char) -> nat {
    (c as u32 - '0' as u32) as nat
}

/// The numeric value of a sequence of digit characters, most significant
/// first; the empty sequence has value zero.
pub open spec fn dec_val(s: Seq<char>) -> nat
    decreases s.len(),
{
    if s.len() == 0 {
        0
    } else {
        dec_val(s.drop_last()) * 10 + digit_val(s.last())
    }
}

/// The digit character of a value below ten.
pub open spec fn digit_char(d: nat) -> char {
    if d == 0 {
        '0'
    } else if d == 1 {
        '1'
    } else if d == 2 {
        '2'
    } else if d == 3 {
        '3'
    } else if d == 4 {
        '4'
    } else if d == 5 {
        '5'
    } else if d == 6 {
        '6'
    } else if d == 7 {
        '7'
    } else if d == 8 {
        '8'
    } else {
        '9'
    }
}

/// The canonical decimal rendering of a number (no leading zeroes; zero is
/// the single digit `0`).
pub open spec fn dec_rep(n: nat) -> Seq<char>
    decreases n,
{
    if n < 10 {
        seq![digit_char(n)]
    } else {
        dec_rep(n / 10).push(digit_char(n % 10))
    }
}

fn digit_str(d: u64) -> (r: &'static str)
    requires
        d < 10,
    ensures
        r@ == seq![digit_char(d as nat)],
{
    proof {
        reveal_strlit("0");
        reveal_strlit("1");
        reveal_strlit("2");
        reveal_strlit("3");
        reveal_strlit("4");
        reveal_strlit("5");
        reveal_strlit("6");
        reveal_strlit("7");
        reveal_strlit("8");
        reveal_strlit("9");
    }
    let r = match d {
        0 => "0",
        1 => "1",
        2 => "2",
        3 => "3",
        4 => "4",
        5 => "5",
        6 => "6",
        7 => "7",
        8 => "8",
        _ => "9",
    };
    proof {
        assert(r@ =~= seq![digit_char(d as nat)]);
    }
    r
}

/// Render a number in decimal.
pub fn u64_to_string(n: u64) -> (r: String)
    ensures
        r@ == dec_rep(n as nat),
    decreases n,
{
    if n < 10 {
        String::from_str(digit_str(n))
    } else {
        let mut s = u64_to_string(n / 10);
        s.append(digit_str(n % 10));
        proof {
            assert(s@ =~= dec_rep(n as nat));
        }
        s
    }
}

/// A prefix of a digit string never exceeds the whole string's value.
proof fn lemma_dec_val_prefix_le(s: Seq<char>, i: int)
    requires
        0 <= i <= s.len(),
    ensures
        dec_val(s.take(i)) <= dec_val(s),
    decreases s.len() - i,
{
    if i < s.len() {
        lemma_dec_val_prefix_le(s, i + 1);
        assert(s.take(i + 1).drop_last() =~= s.take(i));
        assert(dec_val(s.take(i + 1)) == dec_val(s.take(i)) * 10 + digit_val(s.take(i + 1).last()));
    } else {
        assert(s.take(i) =~= s);
    }
}

/// Parse a decimal number the way `u32` is read from a string: an optional
/// leading plus sign, then at least one digit, and the value must fit.
pub open spec fn spec_parse_u32(s: Seq<char>) -> Option<u32> {
    let t = if s.len() > 0 && s[0] == '+' {
        s.skip(1)
    } else {
        s
    };
    if t.len() > 0 && all_digits(t) && dec_val(t) <= u32::MAX {
        Some(dec_val(t) as u32)
    } else {
        None
    }
}

pub fn parse_u32(s: &str) -> (r: Option<u32>)
    ensures
        r == spec_parse_u32(s@),
{
    let len = s.unicode_len();
    let start: usize = if len > 0 && s.get_char(0) == '+' {
        1
    } else {
        0
    };
    let ghost t = if s@.len() > 0 && s@[0] == '+' {
        s@.skip(1)
    } else {
        s@
    };
    proof {
        assert(t =~= s@.skip(start as int));
    }
    if len == start {
        return None;
    }
    let mut acc: u64 = 0;
    let mut i: usize = start;
    while i < len
        invariant
            start <= i <= len,
            len == s@.len(),
            start == (if s@.len() > 0 && s@[0] == '+' {
                1int
            } else {
                0int
            }),
            t == s@.skip(start as int),
            t == (if s@.len() > 0 && s@[0] == '+' {
                s@.skip(1)
            } else {
                s@
            }),
            all_digits(t.take(i - start)),
            acc == dec_val(t.take(i - start)),
            acc <= u32::MAX,
        decreases len - i,
    {
        let c = s.get_char(i);
        let cv = c as u32;
        if cv < '0' as u32 || cv > '9' as u32 {
            proof {
                assert(t[i - start] == c);
                assert(!is_digit_char(t[i - start]));
                assert(!all_digits(t));
            }
            return None;
        }
        let d = (cv - '0' as u32) as u64;
        let next: u64 = acc * 10 + d;
        proof {
            assert(t.take(i - start + 1).drop_last() =~= t.take(i - start));
            assert(t.take(i - start + 1).last() == t[i - start] == c);
            assert(dec_val(t.take(i - start + 1)) == dec_val(t.take(i - start)) * 10 + digit_val(
                c,
            ));
            assert(all_digits(t.take(i - start + 1)));
        }
        if next > u32::MAX as u64 {
            proof {
                lemma_dec_val_prefix_le(t, i - start + 1);
                assert(dec_val(t.take(i - start + 1)) > u32::MAX);
                assert(dec_val(t) > u32::MAX);
                assert(spec_parse_u32(s@) is None);
            }
            return None;
        }
        acc = next;
        i = i + 1;
    }
    proof {
        assert(t.take(i - start) =~= t);
    }
    Some(acc as u32)
}

/// Read the digits `s[from..to]` as a decimal number, detecting overflow:
/// a value past `u64::MAX` gives `None`, as reading it into a `u64` would.
pub fn parse_digits_u64(s: &str, from: usize, to: usize) -> (r: Option<u64>)
    requires
        from <= to <= s@.len(),
        all_digits(s@.subrange(from as int, to as int)),
    ensures
        r == (if dec_val(s@.subrange(from as int, to as int)) <= u64::MAX {
            Some(dec_val(s@.subrange(from as int, to as int)) as u64)
        } else {
            None::<u64>
        }),
{
    let ghost t = s@.subrange(from as int, to as int);
    let mut acc: u128 = 0;
    let mut i: usize = from;
    proof {
        assert(t.take(0) =~= Seq::<char>::empty());
    }
    while i < to
        invariant
            from <= i <= to <= s@.len(),
            t == s@.subrange(from as int, to as int),
            all_digits(t),
            acc == dec_val(t.take(i - from)),
            acc <= u64::MAX,
        decreases to - i,
    {
        let c = s.get_char(i);
        proof {
            assert(t[i - from] == c);
            assert(is_digit_char(c));
            assert(t.take(i - from + 1).drop_last() =~= t.take(i - from));
            assert(t.take(i - from + 1).last() == t[i - from]);
        }
        let d = (c as u32 - '0' as u32) as u128;
        let next: u128 = acc * 10 + d;
        proof {
            assert(dec_val(t.take(i - from + 1)) == dec_val(t.take(i - from)) * 10 + digit_val(c));
        }
        if next > u64::MAX as u128 {
            proof {
                lemma_dec_val_prefix_le(t, i - from + 1);
            }
            return None;
        }
        acc = next;
        i = i + 1;
    }
    proof {
        assert(t.take(to - from) =~= t);
    }
    Some(acc as u64)
}

/// Character-by-character string equality.
pub fn str_eq(a: &str, b: &str) -> (r: bool)
    ensures
        r == (a@ == b@),
{
    let al = a.unicode_len();
    let bl = b.unicode_len();
    if al != bl {
        return false;
    }
    let mut i: usize = 0;
    while i < al
        invariant
            al == a@.len(),
            bl == b@.len(),
            al == bl,
            i <= al,
            forall|k: int| 0 <= k < i ==> a@[k] == b@[k],
        decreases al - i,
    {
        if a.get_char(i) != b.get_char(i) {
            return false;
        }
        i = i + 1;
    }
    proof {
        assert(a@ =~= b@);
    }
    true
}

/// `needle` occurs contiguously somewhere in `hay`.
pub open spec fn contains_seq(hay: Seq<char>, needle: Seq<char>) -> bool {
    exists|i: int|
        0 <= i <= hay.len() - needle.len() && #[trigger] hay.subrange(i, i + needle.len())
            == needle
}

/// Substring search, character by character.
pub fn contains_chars(hay: &str, needle: &str) -> (r: bool)
    ensures
        r == contains_seq(hay@, needle@),
{
    let hl = hay.unicode_len();
    let nl = needle.unicode_len();
    if nl > hl {
        return false;
    }
    if nl == 0 {
        proof {
            assert(hay@.subrange(0, 0 + needle@.len() as int) =~= needle@);
            assert(contains_seq(hay@, needle@));
        }
        return true;
    }
    let mut i: usize = 0;
    while i <= hl - nl
        invariant
            hl == hay@.len(),
            nl == needle@.len(),
            0 < nl <= hl,
            i <= hl - nl + 1,
            forall|p: int|
                0 <= p < i ==> #[trigger] hay@.subrange(p, p + needle@.len()) != needle@,
        decreases hl - nl + 1 - i,
    {
        let mut j: usize = 0;
        let mut mismatch = false;
        while j < nl
            invariant
                hl == hay@.len(),
                nl == needle@.len(),
                i + nl <= hl,
                j <= nl,
                !mismatch ==> forall|k: int| 0 <= k < j ==> hay@[i + k] == needle@[k],
                mismatch ==> hay@.subrange(i as int, i + needle@.len()) != needle@,
            decreases nl - j,
        {
            if hay.get_char(i + j) != needle.get_char(j) {
                proof {
                    assert(hay@.subrange(i as int, i + needle@.len())[j as int] == hay@[i + j]);
                }
                mismatch = true;
                j = nl;
            } else {
                j = j + 1;
            }
        }
        if !mismatch {
            proof {
                assert(hay@.subrange(i as int, i + needle@.len()) =~= needle@);
            }
            return true;
        }
        i = i + 1;
    }
    false
}

/// Lexicographic order on character sequences, by unicode scalar value; a
/// proper prefix comes first.
pub open spec fn lex_le(a: Seq<char>, b: Seq<char>) -> bool
    decreases a.len(),
{
    if a.len() == 0 {
        true
    } else if b.len() == 0 {
        false
    } else if (a[0] as u32) < (b[0] as u32) {
        true
    } else if (a[0] as u32) > (b[0] as u32) {
        false
    } else {
        lex_le(a.skip(1), b.skip(1))
    }
}

/// Any two sequences are ordered one way or the other.
pub proof fn lemma_lex_le_total(a: Seq<char>, b: Seq<char>)
    ensures
        lex_le(a, b) || lex_le(b, a),
    decreases a.len(),
{
    if a.len() > 0 && b.len() > 0 && a[0] as u32 == b[0] as u32 {
        lemma_lex_le_total(a.skip(1), b.skip(1));
    }
}

/// Lexicographic order is transitive.
pub proof fn lemma_lex_le_trans(a: Seq<char>, b: Seq<char>, c: Seq<char>)
    requires
        lex_le(a, b),
        lex_le(b, c),
    ensures
        lex_le(a, c),
    decreases a.len(),
{
    if a.len() > 0 && b.len() > 0 && c.len() > 0 && a[0] as u32 == b[0] as u32 && b[0] as u32
        == c[0] as u32 {
        lemma_lex_le_trans(a.skip(1), b.skip(1), c.skip(1));
    }
}

/// Compare two strings in the order of `lex_le`.
pub fn lex_le_str(a: &str, b: &str) -> (r: bool)
    ensures
        r == lex_le(a@, b@),
{
    let al = a.unicode_len();
    let bl = b.unicode_len();
    let min: usize = if al <= bl {
        al
    } else {
        bl
    };
    let mut i: usize = 0;
    proof {
        assert(a@.skip(0) =~= a@);
        assert(b@.skip(0) =~= b@);
    }
    while i < min
        invariant
            al == a@.len(),
            bl == b@.len(),
            min == vstd::math::min(al as int, bl as int),
            i <= min,
            lex_le(a@, b@) == lex_le(a@.skip(i as int), b@.skip(i as int)),
            lex_le(b@, a@) == lex_le(b@.skip(i as int), a@.skip(i as int)),
        decreases min - i,
    {
        let ca = a.get_char(i);
        let cb = b.get_char(i);
        proof {
            assert(a@.skip(i as int)[0] == a@[i as int]);
            assert(b@.skip(i as int)[0] == b@[i as int]);
        }
        if (ca as u32) < (cb as u32) {
            return true;
        }
        if (ca as u32) > (cb as u32) {
            return false;
        }
        proof {
            assert(a@.skip(i as int).skip(1) =~= a@.skip(i + 1));
            assert(b@.skip(i as int).skip(1) =~= b@.skip(i + 1));
        }
        i = i + 1;
    }
    al <= bl
}

/// Pad with spaces on the right up to `width` columns; a longer string is
/// left as it is.
pub open spec fn spec_pad_right(s: Seq<char>, width: nat) -> Seq<char> {
    if s.len() >= width {
        s
    } else {
        s + Seq::new((width - s.len()) as nat, |i: int| ' ')
    }
}

pub fn pad_right(s: &str, width: usize) -> (r: String)
    ensures
        r@ == spec_pad_right(s@, width as nat),
{
    proof {
        reveal_strlit(" ");
        assert(" "@ =~= seq![' ']);
    }
    let mut r = String::from_str(s);
    let mut n = s.unicode_len();
    proof {
        assert(r@ =~= s@ + Seq::new(0, |i: int| ' '));
    }
    while n < width
        invariant
            s@.len() <= n <= vstd::math::max(s@.len() as int, width as int),
            r@ == s@ + Seq::new((n - s@.len()) as nat, |i: int| ' '),
            " "@ == seq![' '],
        decreases width - n,
    {
        r.append(" ");
        n = n + 1;
        proof {
            assert(r@ =~= s@ + Seq::new((n - s@.len()) as nat, |i: int| ' '));
        }
    }
    proof {
        if s@.len() >= width {
            assert(r@ =~= s@);
        }
    }
    r
}

/// Pad with spaces on the left up to `width` columns; a longer string is
/// left as it is.
pub open spec fn spec_pad_left(s: Seq<char>, width: nat) -> Seq<char> {
    if s.len() >= width {
        s
    } else {
        Seq::new((width - s.len()) as nat, |i: int| ' ') + s
    }
}

pub fn pad_left(s: &str, width: usize) -> (r: String)
    ensures
        r@ == spec_pad_left(s@, width as nat),
{
    proof {
        reveal_strlit(" ");
        assert(" "@ =~= seq![' ']);
    }
    let len = s.unicode_len();
    let mut r = String::new();
    let mut n: usize = 0;
    proof {
        assert(r@ =~= Seq::new(0, |i: int| ' '));
    }
    while len + n < width
        invariant
            len == s@.len(),
            len + n <= vstd::math::max(len as int, width as int),
            r@ == Seq::new(n as nat, |i: int| ' '),
            " "@ == seq![' '],
        decreases width - len - n,
    {
        r.append(" ");
        n = n + 1;
        proof {
            assert(r@ =~= Seq::new(n as nat, |i: int| ' '));
        }
    }
    r.append(s);
    proof {
        if s@.len() >= width {
            assert(r@ =~= s@);
        }
    }
    r
}

/// The pieces joined with a comma and a space between each two.
pub open spec fn spec_join_comma(s: Seq<Seq<char>>) -> Seq<char>
    decreases s.len(),
{
    if s.len() == 0 {
        Seq::empty()
    } else if s.len() == 1 {
        s[0]
    } else {
        spec_join_comma(s.drop_last()) + ", "@ + s.last()
    }
}

pub fn join_comma(pieces: &Vec<String>) -> (r: String)
    ensures
        r@ == spec_join_comma(pieces.deep_view()),
{
    let ghost ps = pieces.deep_view();
    let n = pieces.len();
    let mut r = String::new();
    let mut i: usize = 0;
    while i < n
        invariant
            n == ps.len(),
            i <= n,
            ps == pieces.deep_view(),
            r@ == spec_join_comma(ps.take(i as int)),
        decreases n - i,
    {
        proof {
            assert(ps.take(i + 1).drop_last() =~~= ps.take(i as int));
            assert(ps.take(i + 1).last() == ps[i as int]);
            assert(pieces@[i as int]@ == ps[i as int]);
        }
        if i > 0 {
            r.append(", ");
        }
        r.append(pieces[i].as_str());
        proof {
            if i == 0 {
                assert(r@ =~= spec_join_comma(ps.take(1)));
            } else {
                assert(r@ =~= spec_join_comma(ps.take(i + 1)));
            }
        }
        i = i + 1;
    }
    proof {
        assert(ps.take(n as int) =~~= ps);
    }
    r
}

/// What `str::to_lowercase` returns for a given sequence of characters: it
/// depends on the characters alone.
pub uninterp spec fn lower_of(s: Seq<char>) -> Seq<char>;

/// Relies on `str::to_lowercase` of std: the lowercased text is a function
/// of the input characters alone, and an empty input gives an empty result.
#[verifier::external_body]
pub fn lowercase(s: &str) -> (r: String)
    ensures
        r@ == lower_of(s@),
        s@.len() == 0 ==> r@.len() == 0,
{
    s.to_lowercase()
}

} // verus!
