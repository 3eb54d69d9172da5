//! Choosing the connection to bring down when no SSID is given.

use vstd::prelude::*;

use crate::bytes::{ascii, bytes_eq, lines, lines_of, text, views};
use crate::select::{answer_index, answer_problem, choose_entry, menu, numbered_menu, trim};

verus! {

/// The errors of choosing an active connection.
pub enum Error {
    /// The answer could not be read (with the reason), gave no number (with
    /// the reason), or named no entry of the menu (without one).
    InvalidActiveSSID(Option<Vec<u8>>),
}

impl Error {
    /// The text shown for the error.
    pub fn message(&self) -> (r: Vec<u8>)
        ensures
            r@ == (match self {
                Error::InvalidActiveSSID(Some(e)) => ascii("unable to get the active SSID: "@) + e@,
                Error::InvalidActiveSSID(None) => ascii("unable to get the active SSID"@),
            }),
    {
        proof {
            reveal_strlit("unable to get the active SSID: ");
            reveal_strlit("unable to get the active SSID");
        }
        match self {
            Error::InvalidActiveSSID(Some(e)) => {
                let mut r = text("unable to get the active SSID: ");
                r.extend_from_slice(e.as_slice());
                r
            },
            Error::InvalidActiveSSID(None) => text("unable to get the active SSID"),
        }
    }
}

/// The name of the loopback interface, which the backend lists among the
/// active connections.
pub const LOOPBACK_INTERFACE_NAME: [u8; 2] = [108, 111];

/// The name of the loopback interface.
pub open spec fn loopback_name() -> Seq<u8> {
    LOOPBACK_INTERFACE_NAME@
}

/// A record of the active connections that the menu offers: not blank and
/// not the loopback interface.
pub open spec fn is_choice(line: Seq<u8>) -> bool {
    line.len() > 0 && line != loopback_name()
}

/// The records that the menu offers, in order.
pub open spec fn choices(ls: Seq<Seq<u8>>) -> Seq<Seq<u8>> {
    ls.filter_map(|l: Seq<u8>| if is_choice(l) { Some(l) } else { None })
}

/// The SSIDs that the menu offers, out of the active SSIDs that the backend
/// printed.
pub fn active_candidates(active_ssids: &[u8]) -> (r: Vec<Vec<u8>>)
    ensures
        views(r@) == choices(lines_of(active_ssids@)),
{
    let ls = lines(active_ssids);
    let lo = LOOPBACK_INTERFACE_NAME;
    let mut r: Vec<Vec<u8>> = Vec::new();
    let mut i: usize = 0;
    while i < ls.len()
        invariant
            i <= ls@.len(),
            lo@ == loopback_name(),
            views(ls@) == lines_of(active_ssids@),
            views(r@) == choices(views(ls@).subrange(0, i as int)),
        decreases ls.len() - i,
    {
        let ghost pre = views(ls@).subrange(0, i + 1);
        assert(pre.drop_last() =~= views(ls@).subrange(0, i as int));
        assert(pre.last() == ls@[i as int]@);
        let l = &ls[i];
        if l.len() > 0 && !bytes_eq(l.as_slice(), lo.as_slice()) {
            let ghost prev = views(r@);
            r.push(l.clone());
            assert(views(r@) =~= prev + seq![l@]);
        }
        i += 1;
    }
    assert(views(ls@).subrange(0, i as int) =~= views(ls@));
    r
}

/// The menu of active connections, then the question.
pub fn disconnect_prompt(candidates: &Vec<Vec<u8>>) -> (r: Vec<u8>)
    ensures
        r@ == menu(views(candidates@)) + ascii("Select the SSID to disconnect: "@),
{
    let mut r = numbered_menu(candidates);
    proof {
        reveal_strlit("Select the SSID to disconnect: ");
    }
    let mut q = text("Select the SSID to disconnect: ");
    r.append(&mut q);
    r
}

/// The SSID that an answer to the menu of `candidates` picks.
pub fn select_active_ssid(answer: &str, candidates: &Vec<Vec<u8>>) -> (r: Result<Vec<u8>, Error>)
    ensures
        match answer_index(answer@) {
            None => r matches Err(Error::InvalidActiveSSID(Some(m))) && m@ == ascii(
                answer_problem(trim(answer@)),
            ),
            Some(i) => if i < candidates@.len() {
                r matches Ok(s) && s@ == candidates@[i as int]@
            } else {
                r matches Err(Error::InvalidActiveSSID(None))
            },
        },
{
    match choose_entry(answer, candidates) {
        Ok(s) => Ok(s),
        Err(e) => Err(Error::InvalidActiveSSID(e)),
    }
}

} // verus!
