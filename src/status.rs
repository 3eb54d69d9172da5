//! The lines that report the WiFi status and the active connections.

use vstd::prelude::*;

use crate::bytes::{ascii, lines, lines_of, split_fields, split_on, text, views};

verus! {

/// The line that reports a WiFi status.
pub fn status_line(status: &[u8]) -> (r: Vec<u8>)
    ensures
        r@ == ascii("wifi: "@) + status@ + ascii(" \n"@),
{
    proof {
        reveal_strlit("wifi: ");
        reveal_strlit(" \n");
    }
    let mut r = text("wifi: ");
    r.extend_from_slice(status);
    let mut tail = text(" \n");
    r.append(&mut tail);
    r
}

/// The SSID and the device of a record of the active connections: its
/// first two fields, when it is not blank and has two.
pub open spec fn pair_of(line: Seq<u8>, sep: u8) -> Option<(Seq<u8>, Seq<u8>)> {
    let f = split_on(line, sep);
    if line.len() > 0 && f.len() >= 2 {
        Some((f[0], f[1]))
    } else {
        None
    }
}

/// The SSID and device pairs of the active connections, in order.
pub open spec fn active_pairs(ls: Seq<Seq<u8>>, sep: u8) -> Seq<(Seq<u8>, Seq<u8>)> {
    ls.filter_map(|l: Seq<u8>| pair_of(l, sep))
}

/// How a pair is shown: `SSID/device`.
pub open spec fn pair_text(p: (Seq<u8>, Seq<u8>)) -> Seq<u8> {
    p.0 + ascii("/"@) + p.1
}

/// The pairs shown one after the other, separated by a comma and a space.
pub open spec fn joined(ps: Seq<(Seq<u8>, Seq<u8>)>) -> Seq<u8>
    decreases ps.len(),
{
    if ps.len() == 0 {
        Seq::empty()
    } else if ps.len() == 1 {
        pair_text(ps[0])
    } else {
        joined(ps.drop_last()) + ascii(", "@) + pair_text(ps.last())
    }
}

/// The line that reports the active connections, out of the terse
/// `SSID<sep>DEVICE` records that the backend printed.
pub fn connected_networks(pairs: &[u8], sep: u8) -> (r: Vec<u8>)
    ensures
        r@ == ascii("connected networks: "@) + joined(active_pairs(lines_of(pairs@), sep)),
{
    proof {
        reveal_strlit("connected networks: ");
    }
    let mut r = text("connected networks: ");
    let ghost head = r@;
    let ls = lines(pairs);
    let mut first = true;
    let mut i: usize = 0;
    while i < ls.len()
        invariant
            i <= ls@.len(),
            views(ls@) == lines_of(pairs@),
            head == ascii("connected networks: "@),
            r@ == head + joined(active_pairs(views(ls@).subrange(0, i as int), sep)),
            first == (active_pairs(views(ls@).subrange(0, i as int), sep).len() == 0),
        decreases ls.len() - i,
    {
        let ghost pre = views(ls@).subrange(0, i + 1);
        let ghost prev = active_pairs(views(ls@).subrange(0, i as int), sep);
        assert(pre.drop_last() =~= views(ls@).subrange(0, i as int));
        assert(pre.last() == ls@[i as int]@);
        let f = split_fields(ls[i].as_slice(), sep);
        if ls[i].len() > 0 && f.len() >= 2 {
            let ghost p = (f@[0]@, f@[1]@);
            assert(active_pairs(pre, sep) =~= prev + seq![p]);
            if !first {
                proof {
                    reveal_strlit(", ");
                }
                let mut comma = text(", ");
                r.append(&mut comma);
            }
            r.extend_from_slice(f[0].as_slice());
            proof {
                reveal_strlit("/");
            }
            let mut slash = text("/");
            r.append(&mut slash);
            r.extend_from_slice(f[1].as_slice());
            let ghost now = prev + seq![p];
            assert(now.drop_last() =~= prev);
            if first {
                assert(now.len() == 1);
                assert(r@ =~= head + joined(now));
            } else {
                assert(r@ =~= head + joined(now));
            }
            first = false;
        }
        i += 1;
    }
    assert(views(ls@).subrange(0, i as int) =~= views(ls@));
    r
}

/// Splitting `a` followed by a run `x` without separators extends the last
/// piece of `a` by `x`.
proof fn lemma_split_on_extend(a: Seq<u8>, x: Seq<u8>, sep: u8)
    requires
        !x.contains(sep),
    ensures
        split_on(a + x, sep).len() == split_on(a, sep).len(),
        split_on(a + x, sep) == split_on(a, sep).update(
            split_on(a, sep).len() - 1,
            split_on(a, sep).last() + x,
        ),
    decreases x.len(),
{
    crate::bytes::lemma_split_on_nonempty(a, sep);
    if x.len() == 0 {
        assert(a + x =~= a);
        assert(split_on(a, sep).last() + x =~= split_on(a, sep).last());
        assert(split_on(a, sep).update(split_on(a, sep).len() - 1, split_on(a, sep).last())
            =~= split_on(a, sep));
    } else {
        let y = x.drop_last();
        assert(!y.contains(sep)) by {
            if y.contains(sep) {
                let k = choose|k: int| 0 <= k < y.len() && y[k] == sep;
                assert(x[k] == sep);
            }
        }
        lemma_split_on_extend(a, y, sep);
        assert((a + x).drop_last() =~= a + y);
        assert(x.last() != sep) by {
            assert(x[x.len() - 1] == x.last());
        }
        assert(split_on(a, sep).last() + y + seq![x.last()] =~= split_on(a, sep).last() + x);
        assert((a + x).last() == x.last());
        let prev = split_on(a + y, sep);
        assert(prev.last() == split_on(a, sep).last() + y);
        assert(prev.last().push(x.last()) =~= split_on(a, sep).last() + x);
        assert(split_on(a + x, sep) == prev.update(prev.len() - 1, prev.last().push(x.last())));
        assert(split_on(a + x, sep) =~= split_on(a, sep).update(
            split_on(a, sep).len() - 1,
            split_on(a, sep).last() + x,
        ));
    }
}

/// A well-formed record of the active connections, a non-empty SSID and a
/// non-empty device joined by the field separator (neither holding it),
/// splits on that separator into exactly those two fields, and reads back
/// as that pair.
pub proof fn lemma_pair_record_fields(ssid: Seq<u8>, dev: Seq<u8>, sep: u8)
    requires
        ssid.len() > 0,
        dev.len() > 0,
        !ssid.contains(sep),
        !dev.contains(sep),
    ensures
        split_on(ssid + seq![sep] + dev, sep) == seq![ssid, dev],
        pair_of(ssid + seq![sep] + dev, sep) == Some((ssid, dev)),
{
    let e = Seq::<u8>::empty();
    lemma_split_on_extend(e, ssid, sep);
    assert(e + ssid =~= ssid);
    assert(split_on(e, sep) == seq![e]);
    assert(split_on(ssid, sep) =~= seq![ssid]);
    let a = ssid.push(sep);
    assert(a.drop_last() =~= ssid);
    assert(split_on(a, sep) =~= seq![ssid, e]);
    lemma_split_on_extend(a, dev, sep);
    assert(ssid + seq![sep] + dev =~= a + dev);
    assert(split_on(a + dev, sep) =~= seq![ssid, dev]);
}

} // verus!
