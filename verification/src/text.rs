//! Verified text building blocks: decimal rendering of integers,
//! percent-encoding, identifier validation, and string joining.

use vstd::prelude::*;
use vstd::string::StringExecFns;
use vstd::string::StrSliceExecFns;

verus! {

// ---------------------------------------------------------------------------
// Decimal rendering
// ---------------------------------------------------------------------------

/// The character for one decimal digit.
pub open spec fn digit_char(d: int) -> char
    recommends
        0 <= d < 10,
{
    if d == 0 { '0' }
    else if d == 1 { '1' }
    else if d == 2 { '2' }
    else if d == 3 { '3' }
    else if d == 4 { '4' }
    else if d == 5 { '5' }
    else if d == 6 { '6' }
    else if d == 7 { '7' }
    else if d == 8 { '8' }
    else { '9' }
}

/// The decimal digits of `n`, most significant first, no sign and no
/// leading zero (except for `n == 0` itself).
pub open spec fn dec_str(n: nat) -> Seq<char>
    decreases n,
{
    if n < 10 {
        seq![digit_char(n as int)]
    } else {
        dec_str(n / 10).push(digit_char((n % 10) as int))
    }
}

/// The decimal rendering of a possibly negative integer.
pub open spec fn int_str(i: int) -> Seq<char> {
    if i < 0 {
        seq!['-'] + dec_str((-i) as nat)
    } else {
        dec_str(i as nat)
    }
}

/// Relies on `String::push` of std: appends exactly one character.
#[verifier::external_body]
pub(crate) fn push_char(s: &mut String, c: char)
    ensures
        final(s)@ == old(s)@.push(c),
{
    s.push(c);
}

fn digit_to_char(d: u64) -> (c: char)
    requires
        d < 10,
    ensures
        c == digit_char(d as int),
{
    match d {
        0 => '0',
        1 => '1',
        2 => '2',
        3 => '3',
        4 => '4',
        5 => '5',
        6 => '6',
        7 => '7',
        8 => '8',
        _ => '9',
    }
}

/// Renders `n` in decimal.
pub fn u64_to_string(n: u64) -> (r: String)
    ensures
        r@ == dec_str(n as nat),
    decreases n,
{
    if n < 10 {
        let mut s = String::new();
        push_char(&mut s, digit_to_char(n));
        proof {
            assert(s@ =~= dec_str(n as nat));
        }
        s
    } else {
        let mut s = u64_to_string(n / 10);
        push_char(&mut s, digit_to_char(n % 10));
        s
    }
}

/// Renders `n` in decimal, with a leading `-` where `n` is negative.
pub fn i64_to_string(n: i64) -> (r: String)
    ensures
        r@ == int_str(n as int),
{
    if n >= 0 {
        u64_to_string(n as u64)
    } else {
        let wide: i128 = -(n as i128);
        let magnitude: u64 = wide as u64;
        let mut s = String::new();
        push_char(&mut s, '-');
        let digits = u64_to_string(magnitude);
        s.append(digits.as_str());
        proof {
            assert(s@ =~= int_str(n as int));
        }
        s
    }
}

// ---------------------------------------------------------------------------
// Percent-encoding
// ---------------------------------------------------------------------------

/// Characters that percent-encoding keeps as they are.
pub open spec fn is_unreserved(c: char) -> bool {
    ('a' <= c && c <= 'z') || ('A' <= c && c <= 'Z') || ('0' <= c && c <= '9')
        || c == '-' || c == '.' || c == '_' || c == '~'
}

/// The character for one hexadecimal digit, upper case.
pub open spec fn hex_char(d: int) -> char
    recommends
        0 <= d < 16,
{
    if d < 10 { digit_char(d) }
    else if d == 10 { 'A' }
    else if d == 11 { 'B' }
    else if d == 12 { 'C' }
    else if d == 13 { 'D' }
    else if d == 14 { 'E' }
    else { 'F' }
}

/// The encoding of one character: unreserved characters pass unchanged,
/// every other ASCII character becomes `%XX`, and characters beyond ASCII
/// pass unchanged (the transport encodes them when the URL is put on the
/// wire).
pub open spec fn pct_char(c: char) -> Seq<char> {
    if is_unreserved(c) {
        seq![c]
    } else if (c as int) < 128 {
        seq!['%', hex_char(c as int / 16), hex_char(c as int % 16)]
    } else {
        seq![c]
    }
}

/// Percent-encoding of a whole string, character by character.
pub open spec fn pct_encode(s: Seq<char>) -> Seq<char>
    decreases s.len(),
{
    if s.len() == 0 {
        Seq::empty()
    } else {
        pct_char(s[0]) + pct_encode(s.drop_first())
    }
}

pub proof fn lemma_pct_encode_push(s: Seq<char>, c: char)
    ensures
        pct_encode(s.push(c)) == pct_encode(s) + pct_char(c),
    decreases s.len(),
{
    if s.len() == 0 {
        assert(s.push(c).drop_first() =~= Seq::<char>::empty());
        assert(s.push(c)[0] == c);
        assert(pct_encode(Seq::<char>::empty()) =~= Seq::<char>::empty());
        assert(pct_encode(s.push(c)) =~= pct_encode(s) + pct_char(c));
    } else {
        assert(s.push(c).drop_first() =~= s.drop_first().push(c));
        lemma_pct_encode_push(s.drop_first(), c);
        assert(pct_encode(s.push(c)) =~= pct_encode(s) + pct_char(c));
    }
}

fn hex_to_char(d: u32) -> (c: char)
    requires
        d < 16,
    ensures
        c == hex_char(d as int),
{
    match d {
        0 => '0',
        1 => '1',
        2 => '2',
        3 => '3',
        4 => '4',
        5 => '5',
        6 => '6',
        7 => '7',
        8 => '8',
        9 => '9',
        10 => 'A',
        11 => 'B',
        12 => 'C',
        13 => 'D',
        14 => 'E',
        _ => 'F',
    }
}

fn is_unreserved_exec(c: char) -> (r: bool)
    ensures
        r == is_unreserved(c),
{
    ('a' <= c && c <= 'z') || ('A' <= c && c <= 'Z') || ('0' <= c && c <= '9')
        || c == '-' || c == '.' || c == '_' || c == '~'
}

/// Percent-encodes `s` as `pct_encode` describes.
pub fn percent_encode(s: &str) -> (r: String)
    ensures
        r@ == pct_encode(s@),
{
    let n = s.unicode_len();
    let mut r = String::new();
    let mut i: usize = 0;
    while i < n
        invariant
            n == s@.len(),
            i <= n,
            r@ == pct_encode(s@.take(i as int)),
        decreases n - i,
    {
        let c = s.get_char(i);
        if is_unreserved_exec(c) {
            push_char(&mut r, c);
        } else {
            let code = c as u32;
            if code < 128 {
                push_char(&mut r, '%');
                push_char(&mut r, hex_to_char(code / 16));
                push_char(&mut r, hex_to_char(code % 16));
            } else {
                push_char(&mut r, c);
            }
        }
        proof {
            lemma_pct_encode_push(s@.take(i as int), c);
            assert(s@.take(i + 1 as int) =~= s@.take(i as int).push(s@[i as int]));
            assert(r@ =~= pct_encode(s@.take(i + 1 as int)));
        }
        i = i + 1;
    }
    proof {
        assert(s@.take(n as int) =~= s@);
    }
    r
}

// ---------------------------------------------------------------------------
// Identifiers
// ---------------------------------------------------------------------------

/// A character a relation, column or schema name may contain.
pub open spec fn is_ident_char(c: char) -> bool {
    ('a' <= c && c <= 'z') || ('A' <= c && c <= 'Z') || ('0' <= c && c <= '9') || c == '_'
}

/// A legal identifier: non-empty, letters, digits and underscores only.
pub open spec fn is_ident(s: Seq<char>) -> bool {
    s.len() > 0 && (forall|i: int| 0 <= i < s.len() ==> is_ident_char(#[trigger] s[i]))
}

/// Decides `is_ident`, so that unverified callers can validate names
/// before handing them to the builder.
pub fn check_identifier(s: &str) -> (r: bool)
    ensures
        r == is_ident(s@),
{
    let n = s.unicode_len();
    if n == 0 {
        return false;
    }
    let mut i: usize = 0;
    while i < n
        invariant
            n == s@.len(),
            i <= n,
            forall|j: int| 0 <= j < i ==> is_ident_char(#[trigger] s@[j]),
        decreases n - i,
    {
        let c = s.get_char(i);
        let ok = ('a' <= c && c <= 'z') || ('A' <= c && c <= 'Z') || ('0' <= c && c <= '9')
            || c == '_';
        if !ok {
            return false;
        }
        i = i + 1;
    }
    true
}

// ---------------------------------------------------------------------------
// Joining
// ---------------------------------------------------------------------------

/// The parts joined with one separator character between neighbours.
pub open spec fn join_sep(parts: Seq<Seq<char>>, sep: char) -> Seq<char>
    decreases parts.len(),
{
    if parts.len() == 0 {
        Seq::empty()
    } else if parts.len() == 1 {
        parts[0]
    } else {
        parts[0] + seq![sep] + join_sep(parts.drop_first(), sep)
    }
}

pub proof fn lemma_join_sep_push(parts: Seq<Seq<char>>, part: Seq<char>, sep: char)
    ensures
        join_sep(parts.push(part), sep) == if parts.len() == 0 {
            part
        } else {
            join_sep(parts, sep) + seq![sep] + part
        },
    decreases parts.len(),
{
    if parts.len() == 0 {
        assert(join_sep(parts.push(part), sep) =~= part);
    } else if parts.len() == 1 {
        assert(parts.push(part).drop_first() =~= seq![part]);
        assert(parts.push(part)[0] == parts[0]);
        assert(seq![part][0] == part);
        assert(join_sep(seq![part], sep) == part);
        assert(join_sep(parts.push(part), sep) =~= parts[0] + seq![sep] + part);
        assert(join_sep(parts, sep) =~= parts[0]);
    } else {
        assert(parts.push(part).drop_first() =~= parts.drop_first().push(part));
        lemma_join_sep_push(parts.drop_first(), part, sep);
        assert(join_sep(parts.push(part), sep) =~= join_sep(parts, sep) + seq![sep] + part);
    }
}

/// The views of a sequence of owned strings.
pub open spec fn views_of(parts: Seq<String>) -> Seq<Seq<char>> {
    parts.map_values(|p: String| p@)
}

pub broadcast proof fn lemma_views_of_push(parts: Seq<String>, part: String)
    ensures
        #[trigger] views_of(parts.push(part)) == views_of(parts).push(part@),
{
    assert(views_of(parts.push(part)) =~= views_of(parts).push(part@));
}

/// Joins the strings with `sep` between neighbours.
pub fn join_strings(parts: &Vec<String>, sep: char) -> (r: String)
    ensures
        r@ == join_sep(views_of(parts@), sep),
{
    let mut r = String::new();
    let mut i: usize = 0;
    while i < parts.len()
        invariant
            i <= parts@.len(),
            r@ == join_sep(views_of(parts@.take(i as int)), sep),
        decreases parts@.len() - i,
    {
        proof {
            assert(views_of(parts@.take(i + 1 as int)) =~= views_of(parts@.take(i as int)).push(
                parts@[i as int]@,
            ));
            lemma_join_sep_push(views_of(parts@.take(i as int)), parts@[i as int]@, sep);
        }
        if i > 0 {
            push_char(&mut r, sep);
        }
        s_append(&mut r, &parts[i]);
        proof {
            if i == 0 {
                assert(views_of(parts@.take(0int)).len() == 0);
                assert(r@ =~= join_sep(views_of(parts@.take(i + 1 as int)), sep));
            } else {
                assert(views_of(parts@.take(i as int)).len() > 0);
                assert(r@ =~= join_sep(views_of(parts@.take(i + 1 as int)), sep));
            }
        }
        i = i + 1;
    }
    proof {
        assert(parts@.take(parts@.len() as int) =~= parts@);
    }
    r
}

/// Appends one owned string to another.
pub(crate) fn s_append(s: &mut String, other: &String)
    ensures
        final(s)@ == old(s)@ + other@,
{
    s.append(other.as_str());
}

} // verus!
