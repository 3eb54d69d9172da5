//! Choosing the network to connect to when no SSID is given, and asking for
//! its password.

use vstd::prelude::*;

use crate::api::ScanArgs;
use crate::bytes::{ascii, lines, lines_of, split_fields, split_on, text, views};
use crate::select::{
    answer_index, answer_problem, choose_entry, menu, numbered_menu, trim, trim_end, trimmed_end,
};
use vstd::utf8::encode_utf8;

verus! {

/// The errors of choosing a network and reading its password.
pub enum Error {
    /// The password could not be read; holds the reason.
    CannotReadPasswd(Vec<u8>),
    /// The answer could not be read (with the reason), gave no number (with
    /// the reason), or named no entry of the menu (without one).
    CannotReadSSID(Option<Vec<u8>>),
}

impl Error {
    /// The text shown for the error.
    pub fn message(&self) -> (r: Vec<u8>)
        ensures
            r@ == (match self {
                Error::CannotReadPasswd(e) => ascii("cannot read passwd from stdin: "@) + e@,
                Error::CannotReadSSID(Some(e)) => ascii("unable to get the SSID: "@) + e@,
                Error::CannotReadSSID(None) => ascii("the given SSID does not exist on the list"@),
            }),
    {
        proof {
            reveal_strlit("cannot read passwd from stdin: ");
            reveal_strlit("unable to get the SSID: ");
            reveal_strlit("the given SSID does not exist on the list");
        }
        match self {
            Error::CannotReadPasswd(e) => {
                let mut r = text("cannot read passwd from stdin: ");
                r.extend_from_slice(e.as_slice());
                r
            },
            Error::CannotReadSSID(Some(e)) => {
                let mut r = text("unable to get the SSID: ");
                r.extend_from_slice(e.as_slice());
                r
            },
            Error::CannotReadSSID(None) => text("the given SSID does not exist on the list"),
        }
    }
}

/// The scan whose terse output lists the networks to choose from: SSID and
/// signal of every network in range, after a fresh scan, with no floor.
pub fn ssid_scan_args() -> (r: ScanArgs)
    ensures
        r.min_strength == 0,
        r.re_scan,
        r.columns is None,
        r.get_values matches Some(v) && v@ == "SSID,SIGNAL"@,
{
    ScanArgs {
        min_strength: 0,
        re_scan: true,
        columns: None,
        get_values: Some(String::from_str("SSID,SIGNAL")),
    }
}

/// The non-empty fields, in order.
pub open spec fn nonempty_fields(fields: Seq<Seq<u8>>) -> Seq<Seq<u8>> {
    fields.filter_map(|f: Seq<u8>| if f.len() > 0 { Some(f) } else { None })
}

/// The SSID and the signal that a record of the scan offers: its first two
/// non-empty fields, when it has two.
pub open spec fn scan_entry(line: Seq<u8>, sep: u8) -> Option<(Seq<u8>, Seq<u8>)> {
    let f = nonempty_fields(split_on(line, sep));
    if f.len() >= 2 {
        Some((f[0], f[1]))
    } else {
        None
    }
}

/// The SSID and signal pairs that the menu offers, in order.
pub open spec fn scan_entries(ls: Seq<Seq<u8>>, sep: u8) -> Seq<(Seq<u8>, Seq<u8>)> {
    ls.filter_map(|l: Seq<u8>| scan_entry(l, sep))
}

/// The contents of a list of pairs of byte vectors.
pub open spec fn pair_views(v: Seq<(Vec<u8>, Vec<u8>)>) -> Seq<(Seq<u8>, Seq<u8>)> {
    v.map_values(|p: (Vec<u8>, Vec<u8>)| (p.0@, p.1@))
}

/// How the menu shows a network: its SSID, then its signal.
pub open spec fn entry_label(e: (Seq<u8>, Seq<u8>)) -> Seq<u8> {
    e.0 + ascii(" (sig: "@) + e.1 + ascii(")"@)
}

/// The fields of `line` that are not empty.
fn fields_of(line: &[u8], sep: u8) -> (r: Vec<Vec<u8>>)
    ensures
        views(r@) == nonempty_fields(split_on(line@, sep)),
{
    let all = split_fields(line, sep);
    let mut r: Vec<Vec<u8>> = Vec::new();
    let mut i: usize = 0;
    while i < all.len()
        invariant
            i <= all@.len(),
            views(all@) == split_on(line@, sep),
            views(r@) == nonempty_fields(views(all@).subrange(0, i as int)),
        decreases all.len() - i,
    {
        let ghost pre = views(all@).subrange(0, i + 1);
        assert(pre.drop_last() =~= views(all@).subrange(0, i as int));
        assert(pre.last() == all@[i as int]@);
        if all[i].len() > 0 {
            let ghost prev = views(r@);
            r.push(all[i].clone());
            assert(views(r@) =~= prev + seq![all@[i as int]@]);
        }
        i += 1;
    }
    assert(views(all@).subrange(0, i as int) =~= views(all@));
    r
}

/// The networks that the menu offers, as SSID and signal, out of the terse
/// `SSID<sep>SIGNAL` output of a scan; records without two non-empty fields
/// are left out.
pub fn scan_candidates(scan_output: &[u8], sep: u8) -> (r: Vec<(Vec<u8>, Vec<u8>)>)
    ensures
        pair_views(r@) == scan_entries(lines_of(scan_output@), sep),
{
    let ls = lines(scan_output);
    let mut r: Vec<(Vec<u8>, Vec<u8>)> = Vec::new();
    let mut i: usize = 0;
    while i < ls.len()
        invariant
            i <= ls@.len(),
            views(ls@) == lines_of(scan_output@),
            pair_views(r@) == scan_entries(views(ls@).subrange(0, i as int), sep),
        decreases ls.len() - i,
    {
        let ghost pre = views(ls@).subrange(0, i + 1);
        assert(pre.drop_last() =~= views(ls@).subrange(0, i as int));
        assert(pre.last() == ls@[i as int]@);
        let f = fields_of(ls[i].as_slice(), sep);
        if f.len() >= 2 {
            let ghost prev = pair_views(r@);
            r.push((f[0].clone(), f[1].clone()));
            assert(pair_views(r@) =~= prev + seq![(f@[0]@, f@[1]@)]);
        }
        i += 1;
    }
    assert(views(ls@).subrange(0, i as int) =~= views(ls@));
    r
}

/// The menu of networks, then the question.
pub fn connect_prompt(candidates: &Vec<(Vec<u8>, Vec<u8>)>) -> (r: Vec<u8>)
    ensures
        r@ == menu(pair_views(candidates@).map_values(|e: (Seq<u8>, Seq<u8>)| entry_label(e)))
            + ascii("Select the SSID to connect: "@),
{
    let mut labels: Vec<Vec<u8>> = Vec::new();
    let mut i: usize = 0;
    while i < candidates.len()
        invariant
            i <= candidates@.len(),
            views(labels@) =~= pair_views(candidates@).subrange(0, i as int).map_values(
                |e: (Seq<u8>, Seq<u8>)| entry_label(e),
            ),
        decreases candidates.len() - i,
    {
        proof {
            reveal_strlit(" (sig: ");
            reveal_strlit(")");
        }
        let mut label = candidates[i].0.clone();
        let mut mid = text(" (sig: ");
        label.append(&mut mid);
        label.extend_from_slice(candidates[i].1.as_slice());
        let mut close = text(")");
        label.append(&mut close);
        assert(label@ == entry_label(pair_views(candidates@)[i as int]));
        let ghost prev = views(labels@);
        labels.push(label);
        assert(views(labels@) =~= prev.push(entry_label(pair_views(candidates@)[i as int])));
        assert(pair_views(candidates@).subrange(0, i + 1) =~= pair_views(candidates@).subrange(0, i as int).push(pair_views(candidates@)[i as int]));
        i += 1;
    }
    assert(pair_views(candidates@).subrange(0, i as int) =~= pair_views(candidates@));
    let mut r = numbered_menu(&labels);
    proof {
        reveal_strlit("Select the SSID to connect: ");
    }
    let mut q = text("Select the SSID to connect: ");
    r.append(&mut q);
    r
}

/// The SSID that an answer to the menu of `candidates` picks.
pub fn select_ssid(answer: &str, candidates: &Vec<(Vec<u8>, Vec<u8>)>) -> (r: Result<Vec<u8>, Error>)
    ensures
        match answer_index(answer@) {
            None => r matches Err(Error::CannotReadSSID(Some(m))) && m@ == ascii(
                answer_problem(trim(answer@)),
            ),
            Some(i) => if i < candidates@.len() {
                r matches Ok(s) && s@ == candidates@[i as int].0@
            } else {
                r matches Err(Error::CannotReadSSID(None))
            },
        },
{
    let mut ssids: Vec<Vec<u8>> = Vec::new();
    let mut i: usize = 0;
    while i < candidates.len()
        invariant
            i <= candidates@.len(),
            ssids@.len() == i,
            forall|k: int| 0 <= k < i ==> (#[trigger] ssids@[k])@ == candidates@[k].0@,
        decreases candidates.len() - i,
    {
        ssids.push(candidates[i].0.clone());
        i += 1;
    }
    match choose_entry(answer, &ssids) {
        Ok(s) => Ok(s),
        Err(e) => Err(Error::CannotReadSSID(e)),
    }
}

/// Whether the password must be asked for: when the caller forces it, or
/// when the network has no known profile.
pub fn needs_password(force_passwd: bool, is_known_ssid: bool) -> (r: bool)
    ensures
        r == (force_passwd || !is_known_ssid),
{
    force_passwd || !is_known_ssid
}

/// The question that asks for the password of `ssid`.
pub fn password_prompt(ssid: &[u8]) -> (r: Vec<u8>)
    ensures
        r@ == ascii("Enter the password for "@) + ssid@ + ascii(": "@),
{
    proof {
        reveal_strlit("Enter the password for ");
        reveal_strlit(": ");
    }
    let mut r = text("Enter the password for ");
    r.extend_from_slice(ssid);
    let mut tail = text(": ");
    r.append(&mut tail);
    r
}

/// The password in what was typed: the input without its trailing
/// whitespace, or none when nothing is left.
pub fn password_from(input: &str) -> (r: Option<Vec<u8>>)
    ensures
        r is None <==> trim_end(input@).len() == 0,
        r matches Some(p) ==> p@ == encode_utf8(trim_end(input@)),
{
    let hi = trimmed_end(input, 0);
    assert(input@.subrange(0, input@.len() as int) =~= input@);
    if hi == 0 {
        return None;
    }
    let kept = input.substring_char(0, hi);
    Some(kept.as_bytes_vec())
}

} // verus!
