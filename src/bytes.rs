//! Byte streams as the backend prints them: records split on line feeds,
//! an optional carriage return at the end of each record, fields split on a
//! separator byte.

use vstd::prelude::*;
use vstd::string::is_ascii_spec_bytes;
use vstd::utf8::encode_utf8;

verus! {

/// The byte that ends a record.
pub const LINE_FEED: u8 = 0xA;

/// The byte that may stand right before a [`LINE_FEED`] and is not part of
/// the record.
pub const CARRIAGE_RETURN: u8 = 0xD;

/// The bytes of an ASCII text, one per character.
pub open spec fn ascii(s: Seq<char>) -> Seq<u8> {
    s.map_values(|c: char| c as u8)
}

/// The pieces of `s` between occurrences of `sep`, in order; there is always
/// one more piece than there are separators.
pub open spec fn split_on(s: Seq<u8>, sep: u8) -> Seq<Seq<u8>>
    decreases s.len(),
{
    if s.len() == 0 {
        seq![Seq::empty()]
    } else {
        let prev = split_on(s.drop_last(), sep);
        if s.last() == sep {
            prev.push(Seq::empty())
        } else {
            prev.update(prev.len() - 1, prev.last().push(s.last()))
        }
    }
}

/// The contents of a list of byte vectors.
pub open spec fn views(v: Seq<Vec<u8>>) -> Seq<Seq<u8>> {
    v.map_values(|x: Vec<u8>| x@)
}

/// A record without the carriage return that may end it.
pub open spec fn strip_cr(l: Seq<u8>) -> Seq<u8> {
    if l.len() > 0 && l.last() == CARRIAGE_RETURN {
        l.drop_last()
    } else {
        l
    }
}

/// The records of a byte stream.
pub open spec fn lines_of(s: Seq<u8>) -> Seq<Seq<u8>> {
    split_on(s, LINE_FEED).map_values(|l: Seq<u8>| strip_cr(l))
}

/// Splitting always gives at least one piece.
pub proof fn lemma_split_on_nonempty(s: Seq<u8>, sep: u8)
    ensures
        split_on(s, sep).len() >= 1,
    decreases s.len(),
{
    if s.len() > 0 {
        lemma_split_on_nonempty(s.drop_last(), sep);
    }
}

/// The bytes of an ASCII text.
pub(crate) fn text(s: &str) -> (r: Vec<u8>)
    requires
        s.is_ascii(),
    ensures
        r@ == ascii(s@),
{
    broadcast use is_ascii_spec_bytes;

    let r = s.as_bytes_vec();
    assert(r@ =~= ascii(s@));
    r
}

/// Splits `s` on every occurrence of `sep`.
pub fn split_fields(s: &[u8], sep: u8) -> (r: Vec<Vec<u8>>)
    ensures
        views(r@) == split_on(s@, sep),
{
    let mut r: Vec<Vec<u8>> = Vec::new();
    let mut cur: Vec<u8> = Vec::new();
    let mut i: usize = 0;
    assert(s@.subrange(0, 0) =~= Seq::<u8>::empty());
    while i < s.len()
        invariant
            i <= s@.len(),
            views(r@).push(cur@) =~= split_on(s@.subrange(0, i as int), sep),
        decreases s.len() - i,
    {
        let b = s[i];
        let ghost old_r = views(r@);
        let ghost old_cur = cur@;
        proof {
            assert(s@.subrange(0, i + 1).drop_last() =~= s@.subrange(0, i as int));
        }
        if b == sep {
            r.push(cur);
            cur = Vec::new();
            assert(views(r@) =~= old_r.push(old_cur));
        } else {
            cur.push(b);
            assert(views(r@) =~= old_r);
        }
        i += 1;
    }
    assert(s@.subrange(0, s@.len() as int) =~= s@);
    let ghost old_r = views(r@);
    r.push(cur);
    assert(views(r@) =~= old_r.push(cur@));
    r
}

/// Splits a byte stream into its records.
pub fn lines(s: &[u8]) -> (r: Vec<Vec<u8>>)
    ensures
        views(r@) == lines_of(s@),
{
    let pieces = split_fields(s, LINE_FEED);
    let mut r: Vec<Vec<u8>> = Vec::new();
    let mut i: usize = 0;
    while i < pieces.len()
        invariant
            i <= pieces@.len(),
            views(pieces@) == split_on(s@, LINE_FEED),
            views(r@) =~= views(pieces@).subrange(0, i as int).map_values(|l: Seq<u8>| strip_cr(l)),
        decreases pieces.len() - i,
    {
        let p = &pieces[i];
        let n = p.len();
        let mut line: Vec<u8> = Vec::new();
        let end: usize = if n > 0 && p[n - 1] == CARRIAGE_RETURN { n - 1 } else { n };
        let mut k: usize = 0;
        while k < end
            invariant
                k <= end <= p@.len(),
                line@ =~= p@.subrange(0, k as int),
            decreases end - k,
        {
            line.push(p[k]);
            k += 1;
        }
        assert(line@ =~= strip_cr(p@));
        let ghost old_r = views(r@);
        r.push(line);
        assert(views(r@) =~= old_r.push(strip_cr(views(pieces@)[i as int])));
        assert(views(pieces@).subrange(0, i + 1) =~= views(pieces@).subrange(0, i as int).push(views(pieces@)[i as int]));
        i += 1;
    }
    assert(views(pieces@).subrange(0, i as int) =~= views(pieces@));
    r
}

/// All pieces one after the other, with nothing between them.
pub open spec fn concat(ls: Seq<Seq<u8>>) -> Seq<u8>
    decreases ls.len(),
{
    if ls.len() == 0 {
        Seq::empty()
    } else {
        concat(ls.drop_last()) + ls.last()
    }
}

/// The records of a byte stream with the line breaks taken out.
pub fn join_lines(s: &[u8]) -> (r: Vec<u8>)
    ensures
        r@ == concat(lines_of(s@)),
{
    let ls = lines(s);
    let mut r: Vec<u8> = Vec::new();
    let mut i: usize = 0;
    while i < ls.len()
        invariant
            i <= ls@.len(),
            views(ls@) == lines_of(s@),
            r@ == concat(views(ls@).subrange(0, i as int)),
        decreases ls.len() - i,
    {
        assert(views(ls@).subrange(0, i + 1).drop_last() =~= views(ls@).subrange(0, i as int));
        let mut piece = ls[i].clone();
        r.append(&mut piece);
        i += 1;
    }
    assert(views(ls@).subrange(0, i as int) =~= views(ls@));
    r
}

/// An ASCII decimal digit.
pub open spec fn is_digit(b: u8) -> bool {
    48 <= b <= 57
}

/// Every byte is an ASCII decimal digit (the empty string included).
pub open spec fn all_digits(s: Seq<u8>) -> bool {
    forall|i: int| 0 <= i < s.len() ==> is_digit(#[trigger] s[i])
}

/// The number that a string of decimal digits writes, most significant
/// digit first; the empty string writes zero.
pub open spec fn decimal_value(s: Seq<u8>) -> nat
    decreases s.len(),
{
    if s.len() == 0 {
        0
    } else {
        decimal_value(s.drop_last()) * 10 + (s.last() - 48) as nat
    }
}

/// The shortest decimal writing of `n`.
pub open spec fn digits_of(n: nat) -> Seq<u8>
    decreases n,
{
    if n < 10 {
        seq![(48 + n) as u8]
    } else {
        digits_of(n / 10).push((48 + n % 10) as u8)
    }
}

/// Reading back the decimal writing of a number gives the number.
pub proof fn lemma_digits_round_trip(n: nat)
    ensures
        all_digits(digits_of(n)),
        digits_of(n).len() >= 1,
        decimal_value(digits_of(n)) == n,
    decreases n,
{
    if n < 10 {
        assert(digits_of(n).drop_last() =~= Seq::<u8>::empty());
        assert(decimal_value(Seq::<u8>::empty()) == 0);
    } else {
        lemma_digits_round_trip(n / 10);
        let d = digits_of(n);
        assert(d.drop_last() =~= digits_of(n / 10));
        assert(d.last() == (48 + n % 10) as u8);
        assert((d.last() - 48) as nat == n % 10);
        assert((n / 10) * 10 + n % 10 == n) by (nonlinear_arith);
        assert forall|i: int| 0 <= i < d.len() implies is_digit(#[trigger] d[i]) by {
            if i < d.len() - 1 {
                assert(d[i] == digits_of(n / 10)[i]);
            }
        }
    }
}

/// The decimal writing of `n`.
pub fn decimal_text(n: usize) -> (r: Vec<u8>)
    ensures
        r@ == digits_of(n as nat),
    decreases n,
{
    if n < 10 {
        let r = vec![48u8 + n as u8];
        assert(r@ =~= digits_of(n as nat));
        r
    } else {
        let mut r = decimal_text(n / 10);
        r.push(48u8 + (n % 10) as u8);
        r
    }
}

/// Each piece followed by a line feed.
pub open spec fn terminated(ls: Seq<Seq<u8>>) -> Seq<u8>
    decreases ls.len(),
{
    if ls.len() == 0 {
        Seq::empty()
    } else {
        terminated(ls.drop_last()) + ls.last().push(LINE_FEED)
    }
}

/// Whether two byte strings are equal.
pub fn bytes_eq(a: &[u8], b: &[u8]) -> (r: bool)
    ensures
        r == (a@ == b@),
{
    if a.len() != b.len() {
        return false;
    }
    let mut i: usize = 0;
    while i < a.len()
        invariant
            i <= a@.len() == b@.len(),
            a@.subrange(0, i as int) == b@.subrange(0, i as int),
        decreases a.len() - i,
    {
        if a[i] != b[i] {
            return false;
        }
        assert(a@.subrange(0, i + 1) =~= a@.subrange(0, i as int).push(a@[i as int]));
        assert(b@.subrange(0, i + 1) =~= b@.subrange(0, i as int).push(b@[i as int]));
        i += 1;
    }
    assert(a@ =~= a@.subrange(0, i as int));
    assert(b@ =~= b@.subrange(0, i as int));
    true
}

/// The bytes of a text.
pub(crate) fn string_bytes(s: &String) -> (r: Vec<u8>)
    ensures
        r@ == encode_utf8(s@),
{
    s.as_str().as_bytes_vec()
}

} // verus!
