//! Numbered menus and the answers that pick an entry of them.

use vstd::prelude::*;

use crate::bytes::{
    all_digits, ascii, decimal_text, decimal_value, digits_of, is_digit, lemma_digits_round_trip,
    text, views, LINE_FEED,
};

verus! {

/// A whitespace character, as Unicode's White_Space property lists them.
pub open spec fn is_whitespace(c: char) -> bool {
    let u = c as u32;
    ||| u == 0x20
    ||| 0x09 <= u && u <= 0x0D
    ||| u == 0x85
    ||| u == 0xA0
    ||| u == 0x1680
    ||| 0x2000 <= u && u <= 0x200A
    ||| u == 0x2028
    ||| u == 0x2029
    ||| u == 0x202F
    ||| u == 0x205F
    ||| u == 0x3000
}

/// `s` without the whitespace at its start.
pub open spec fn trim_start(s: Seq<char>) -> Seq<char>
    decreases s.len(),
{
    if s.len() > 0 && is_whitespace(s[0]) {
        trim_start(s.drop_first())
    } else {
        s
    }
}

/// `s` without the whitespace at its end.
pub open spec fn trim_end(s: Seq<char>) -> Seq<char>
    decreases s.len(),
{
    if s.len() > 0 && is_whitespace(s.last()) {
        trim_end(s.drop_last())
    } else {
        s
    }
}

/// `s` without the whitespace at either end.
pub open spec fn trim(s: Seq<char>) -> Seq<char> {
    trim_end(trim_start(s))
}

/// An ASCII decimal digit.
pub open spec fn is_digit_char(c: char) -> bool {
    48 <= c as u32 && c as u32 <= 57
}

/// The number that a string of decimal digit characters writes, most
/// significant digit first.
pub open spec fn digit_chars_value(d: Seq<char>) -> nat
    decreases d.len(),
{
    if d.len() == 0 {
        0
    } else {
        digit_chars_value(d.drop_last()) * 10 + (d.last() as u32 - 48) as nat
    }
}

/// The digits of a trimmed answer: what follows an optional leading `+`.
pub open spec fn unsigned_part(t: Seq<char>) -> Seq<char> {
    if t.len() > 0 && t[0] == '+' {
        t.drop_first()
    } else {
        t
    }
}

/// Every character is a decimal digit, and there is at least one.
pub open spec fn is_number(d: Seq<char>) -> bool {
    d.len() > 0 && forall|i: int| 0 <= i < d.len() ==> is_digit_char(#[trigger] d[i])
}

/// The entry number that an answer gives: without surrounding whitespace,
/// the answer must be an optional `+` and then decimal digits, with a value
/// that fits in a `usize`.
pub open spec fn answer_index(answer: Seq<char>) -> Option<nat> {
    let d = unsigned_part(trim(answer));
    if is_number(d) && digit_chars_value(d) <= usize::MAX {
        Some(digit_chars_value(d))
    } else {
        None
    }
}

/// Why a trimmed answer gives no number.
pub open spec fn answer_problem(t: Seq<char>) -> Seq<char> {
    if t.len() == 0 {
        "cannot parse integer from empty string"@
    } else if !is_number(unsigned_part(t)) {
        "invalid digit found in string"@
    } else {
        "number too large to fit in target type"@
    }
}

/// Whether `c` is whitespace.
pub fn whitespace(c: char) -> (r: bool)
    ensures
        r == is_whitespace(c),
{
    let u = c as u32;
    u == 0x20 || (0x09 <= u && u <= 0x0D) || u == 0x85 || u == 0xA0 || u == 0x1680 || (0x2000
        <= u && u <= 0x200A) || u == 0x2028 || u == 0x2029 || u == 0x202F || u == 0x205F || u
        == 0x3000
}

/// The number of characters of `s` that are left once the whitespace at
/// its end is taken out.
pub fn trimmed_end(s: &str, from: usize) -> (r: usize)
    requires
        from <= s@.len(),
    ensures
        from <= r <= s@.len(),
        trim_end(s@.subrange(from as int, s@.len() as int)) == s@.subrange(from as int, r as int),
{
    let mut hi: usize = s.unicode_len();
    assert(s@.subrange(from as int, hi as int) =~= s@.subrange(from as int, s@.len() as int));
    while hi > from
        invariant
            from <= hi <= s@.len(),
            trim_end(s@.subrange(from as int, s@.len() as int)) == trim_end(
                s@.subrange(from as int, hi as int),
            ),
        ensures
            from <= hi <= s@.len(),
            trim_end(s@.subrange(from as int, s@.len() as int)) == trim_end(
                s@.subrange(from as int, hi as int),
            ),
            hi > from ==> !is_whitespace(s@[hi - 1]),
        decreases hi,
    {
        let c = s.get_char(hi - 1);
        if !whitespace(c) {
            break;
        }
        assert(s@.subrange(from as int, hi as int).drop_last() =~= s@.subrange(
            from as int,
            hi - 1,
        ));
        hi -= 1;
    }
    proof {
        let t = s@.subrange(from as int, hi as int);
        if t.len() > 0 {
            assert(t.last() == s@[hi - 1]);
        }
    }
    hi
}

/// The position of the first character of `s` that is not whitespace, or
/// its length.
fn trimmed_start(s: &str) -> (r: usize)
    ensures
        r <= s@.len(),
        trim_start(s@) == s@.subrange(r as int, s@.len() as int),
{
    let n = s.unicode_len();
    let mut i: usize = 0;
    assert(s@.subrange(0, n as int) =~= s@);
    while i < n
        invariant
            n == s@.len(),
            i <= n,
            trim_start(s@) == trim_start(s@.subrange(i as int, n as int)),
        ensures
            i <= n,
            trim_start(s@) == trim_start(s@.subrange(i as int, n as int)),
            i < n ==> !is_whitespace(s@[i as int]),
        decreases n - i,
    {
        let c = s.get_char(i);
        if !whitespace(c) {
            break;
        }
        assert(s@.subrange(i as int, n as int).drop_first() =~= s@.subrange(i + 1, n as int));
        i += 1;
    }
    proof {
        let t = s@.subrange(i as int, n as int);
        if t.len() > 0 {
            assert(t[0] == s@[i as int]);
        }
    }
    i
}

/// Reads the entry number of an answer, or says why it gives none.
pub fn read_index(answer: &str) -> (r: Result<usize, Vec<u8>>)
    ensures
        r matches Ok(i) ==> answer_index(answer@) == Some(i as nat),
        r matches Err(m) ==> answer_index(answer@) is None && m@ == ascii(
            answer_problem(trim(answer@)),
        ),
        r is Ok <==> answer_index(answer@) is Some,
{
    let lo = trimmed_start(answer);
    let hi = trimmed_end(answer, lo);
    let ghost t = answer@.subrange(lo as int, hi as int);
    assert(trim(answer@) == t);
    if hi == lo {
        proof {
            reveal_strlit("cannot parse integer from empty string");
        }
        return Err(text("cannot parse integer from empty string"));
    }
    let start: usize = if answer.get_char(lo) == '+' { lo + 1 } else { lo };
    let ghost d = answer@.subrange(start as int, hi as int);
    assert(unsigned_part(t) =~= d);
    if start == hi {
        proof {
            reveal_strlit("invalid digit found in string");
        }
        return Err(text("invalid digit found in string"));
    }
    let mut acc: u128 = 0;
    let mut i: usize = start;
    let cap: u128 = usize::MAX as u128 + 1;
    assert(answer@.subrange(start as int, start as int) =~= Seq::<char>::empty());
    while i < hi
        invariant
            start <= i <= hi <= answer@.len(),
            d == answer@.subrange(start as int, hi as int),
            d == unsigned_part(trim(answer@)),
            d.len() > 0,
            trim(answer@).len() > 0,
            cap == usize::MAX as u128 + 1,
            forall|k: int| start <= k < i ==> is_digit_char(#[trigger] answer@[k]),
            acc <= cap,
            acc == (if digit_chars_value(answer@.subrange(start as int, i as int)) < cap {
                digit_chars_value(answer@.subrange(start as int, i as int))
            } else {
                cap as nat
            }),
        decreases hi - i,
    {
        let c = answer.get_char(i);
        let u = c as u32;
        if u < 48 || u > 57 {
            assert(d[i - start] == c);
            assert(!is_digit_char(d[i - start]));
            proof {
                reveal_strlit("invalid digit found in string");
            }
            return Err(text("invalid digit found in string"));
        }
        assert(answer@.subrange(start as int, i + 1).drop_last() =~= answer@.subrange(
            start as int,
            i as int,
        ));
        let dv: u128 = (u - 48) as u128;
        acc = if acc * 10 + dv >= cap {
            cap
        } else {
            acc * 10 + dv
        };
        i += 1;
    }
    assert(answer@.subrange(start as int, i as int) =~= d);
    assert forall|k: int| 0 <= k < d.len() implies is_digit_char(#[trigger] d[k]) by {
        assert(d[k] == answer@[start + k]);
    }
    if acc == cap {
        proof {
            reveal_strlit("number too large to fit in target type");
        }
        return Err(text("number too large to fit in target type"));
    }
    Ok(acc as usize)
}

/// One line of a menu: the entry's number in parentheses, then its label.
pub open spec fn menu_line(i: nat, label: Seq<u8>) -> Seq<u8> {
    ascii("("@) + digits_of(i) + ascii(") "@) + label + seq![LINE_FEED]
}

/// The lines of a menu, numbered from 0 in the order of `labels`.
pub open spec fn menu(labels: Seq<Seq<u8>>) -> Seq<u8>
    decreases labels.len(),
{
    if labels.len() == 0 {
        Seq::empty()
    } else {
        menu(labels.drop_last()) + menu_line((labels.len() - 1) as nat, labels.last())
    }
}

/// The lines of a menu of `labels`, numbered from 0.
pub fn numbered_menu(labels: &Vec<Vec<u8>>) -> (r: Vec<u8>)
    ensures
        r@ == menu(views(labels@)),
{
    let mut r: Vec<u8> = Vec::new();
    let mut i: usize = 0;
    while i < labels.len()
        invariant
            i <= labels@.len(),
            r@ == menu(views(labels@).subrange(0, i as int)),
        decreases labels.len() - i,
    {
        assert(views(labels@).subrange(0, i + 1).drop_last() =~= views(labels@).subrange(
            0,
            i as int,
        ));
        proof {
            reveal_strlit("(");
            reveal_strlit(") ");
        }
        let mut open = text("(");
        r.append(&mut open);
        let mut n = decimal_text(i);
        r.append(&mut n);
        let mut close = text(") ");
        r.append(&mut close);
        r.extend_from_slice(labels[i].as_slice());
        r.push(LINE_FEED);
        assert(r@ =~= menu(views(labels@).subrange(0, i + 1)));
        i += 1;
    }
    assert(views(labels@).subrange(0, i as int) =~= views(labels@));
    r
}

/// The entry of `entries` that an answer picks: `Err(Some(_))` with the
/// reason when the answer gives no number, `Err(None)` when no entry has the
/// number.
pub fn choose_entry(answer: &str, entries: &Vec<Vec<u8>>) -> (r: Result<Vec<u8>, Option<Vec<u8>>>)
    ensures
        match answer_index(answer@) {
            None => r matches Err(Some(m)) && m@ == ascii(answer_problem(trim(answer@))),
            Some(i) => if i < entries@.len() {
                r matches Ok(e) && e@ == entries@[i as int]@
            } else {
                r == Err::<Vec<u8>, Option<Vec<u8>>>(None)
            },
        },
{
    match read_index(answer) {
        Err(m) => Err(Some(m)),
        Ok(i) => {
            if i < entries.len() {
                Ok(entries[i].clone())
            } else {
                Err(None)
            }
        },
    }
}

/// Characters that spell the same digits as bytes have the same value.
proof fn lemma_digit_chars_value(s: Seq<char>, b: Seq<u8>)
    requires
        s.len() == b.len(),
        all_digits(b),
        forall|k: int| 0 <= k < s.len() ==> #[trigger] s[k] as u32 == b[k] as u32,
    ensures
        digit_chars_value(s) == decimal_value(b),
    decreases s.len(),
{
    if s.len() > 0 {
        lemma_digit_chars_value(s.drop_last(), b.drop_last());
        assert(s.last() as u32 == b.last() as u32);
        assert(is_digit(b[b.len() - 1]));
    }
}

/// Typing the number that a menu shows for an entry picks that entry: the
/// number reads back as the entry's position.
pub proof fn lemma_shown_number_picks_entry(i: usize, typed: Seq<char>)
    requires
        typed.len() == digits_of(i as nat).len(),
        forall|k: int| 0 <= k < typed.len() ==> #[trigger] typed[k] as u32 == digits_of(i as nat)[k] as u32,
    ensures
        answer_index(typed) == Some(i as nat),
{
    let d = digits_of(i as nat);
    lemma_digits_round_trip(i as nat);
    assert(is_digit(d[0]));
    assert(typed[0] as u32 == d[0] as u32);
    assert(!is_whitespace(typed[0]));
    assert(trim_start(typed) == typed);
    assert(is_digit(d[d.len() - 1]));
    assert(typed[typed.len() - 1] as u32 == d[d.len() - 1] as u32);
    assert(!is_whitespace(typed.last()));
    assert(trim_end(typed) == typed);
    assert(typed[0] != '+');
    assert(unsigned_part(typed) == typed);
    assert forall|k: int| 0 <= k < typed.len() implies is_digit_char(#[trigger] typed[k]) by {
        assert(is_digit(d[k]));
    }
    lemma_digit_chars_value(typed, d);
}

} // verus!
