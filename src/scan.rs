//! Scanning for the networks in range.

use vstd::prelude::*;

use crate::adapter::{new, Step, Wl, MAX_SIGNAL_STRENGTH};
use crate::api::ScanArgs;
use crate::bytes::{ascii, digits_of, decimal_text, lemma_split_on_nonempty, lines_of, terminated, text};
use crate::nmcli::{filtered_scan, kept_rows, listing_args, row_kept, signal_reaches, Stage};

verus! {

/// The errors of a scan request.
pub enum Error {
    /// The signal strength floor is above [`MAX_SIGNAL_STRENGTH`].
    InvalidSignalStrength(u8),
}

impl Error {
    /// The text shown for the error.
    pub fn message(&self) -> (r: Vec<u8>)
        ensures
            r@ == (match self {
                Error::InvalidSignalStrength(s) => ascii("the given signal strength "@) + digits_of(
                    *s as nat,
                ) + ascii(" is not in limits (0..100)"@),
            }),
    {
        match self {
            Error::InvalidSignalStrength(s) => {
                proof {
                    reveal_strlit("the given signal strength ");
                    reveal_strlit(" is not in limits (0..100)");
                }
                let mut r = text("the given signal strength ");
                let mut n = decimal_text(*s as usize);
                r.append(&mut n);
                let mut tail = text(" is not in limits (0..100)");
                r.append(&mut tail);
                r
            },
        }
    }
}

/// Starts a scan of the networks in range.
///
/// A floor on the signal strength above [`MAX_SIGNAL_STRENGTH`] is refused
/// at once, before the backend is asked to run anything. Otherwise the first
/// step runs the listing that `args` describes; the caller goes on with
/// [`Wl::resume`] until the operation outputs the filtered listing.
pub fn scan(args: ScanArgs) -> (r: Result<Step, Error>)
    ensures
        r is Err <==> args.min_strength > MAX_SIGNAL_STRENGTH,
        r matches Err(e) ==> e == Error::InvalidSignalStrength(args.min_strength),
        r matches Ok(step) ==> {
            &&& step.runs(listing_args(args))
            &&& step->stage == (Stage::ScanListing { min_strength: args.min_strength })
        },
{
    if args.min_strength > MAX_SIGNAL_STRENGTH {
        return Err(Error::InvalidSignalStrength(args.min_strength));
    }
    let process = new();
    Ok(process.scan(&args))
}

/// The positions of the rows of a listing of `n` rows that a scan keeps, in
/// increasing order.
pub open spec fn kept_positions(n: int, signals: Seq<Seq<u8>>, min: u8) -> Seq<int>
    decreases n,
{
    if n <= 0 {
        Seq::empty()
    } else {
        let prev = kept_positions(n - 1, signals, min);
        if row_kept(signals, min, n - 1) {
            prev.push(n - 1)
        } else {
            prev
        }
    }
}

/// The rows that a scan keeps are the rows at the kept positions, which
/// increase, start with the first row, and hold every row that is kept.
proof fn lemma_kept_rows(rows: Seq<Seq<u8>>, signals: Seq<Seq<u8>>, min: u8)
    ensures
        ({
            let k = kept_rows(rows, signals, min);
            let p = kept_positions(rows.len() as int, signals, min);
            &&& k.len() == p.len()
            &&& forall|t: int| 0 <= t < p.len() ==> 0 <= #[trigger] p[t] < rows.len()
                && row_kept(signals, min, p[t]) && k[t] == rows[p[t]]
            &&& forall|s: int, t: int| 0 <= s < t < p.len() ==> #[trigger] p[s] < #[trigger] p[t]
            &&& forall|j: int| 0 <= j < rows.len() && row_kept(signals, min, j) ==> p.contains(j)
            &&& rows.len() >= 1 ==> p.len() >= 1 && p[0] == 0
        }),
    decreases rows.len(),
{
    if rows.len() > 0 {
        let pre = rows.drop_last();
        lemma_kept_rows(pre, signals, min);
        let n = rows.len() as int;
        let pp = kept_positions(n - 1, signals, min);
        let p = kept_positions(n, signals, min);
        let k = kept_rows(rows, signals, min);
        assert(pre.len() == n - 1);
        assert forall|t: int| 0 <= t < p.len() implies 0 <= #[trigger] p[t] < rows.len()
            && row_kept(signals, min, p[t]) && k[t] == rows[p[t]] by {
            if t < pp.len() {
                assert(p[t] == pp[t]);
                assert(pre[pp[t]] == rows[pp[t]]);
            }
        }
        assert forall|j: int| 0 <= j < rows.len() && row_kept(signals, min, j) implies p.contains(
            j,
        ) by {
            if j < n - 1 {
                assert(0 <= j < pre.len() && row_kept(signals, min, j));
                assert(pp.contains(j));
                let t = choose|t: int| 0 <= t < pp.len() && pp[t] == j;
                assert(p[t] == j);
            } else {
                assert(p[p.len() - 1] == j);
            }
        }
        if n == 1 {
            assert(row_kept(signals, min, 0));
            assert(pp.len() == 0);
        } else {
            assert(p[0] == pp[0]);
        }
    }
}

/// For every floor from 0 to [`MAX_SIGNAL_STRENGTH`], a filtered scan is the
/// header line of the listing followed by data lines of the listing, each
/// ended by a line feed and in the listing's order: only data lines whose
/// signal reaches the floor, and every one of them. Nothing of the signal
/// listing itself is shown.
pub proof fn lemma_scan_shows_header_and_strong_rows(listing: Seq<u8>, signals: Seq<u8>, min_strength: u8)
    requires
        min_strength <= MAX_SIGNAL_STRENGTH,
    ensures
        ({
            let rows = lines_of(listing);
            let sigs = lines_of(signals);
            let shown = kept_rows(rows, sigs, min_strength);
            let pos = kept_positions(rows.len() as int, sigs, min_strength);
            &&& filtered_scan(listing, signals, min_strength) == terminated(shown)
            &&& shown.len() == pos.len()
            &&& forall|t: int| 0 <= t < pos.len() ==> 0 <= #[trigger] pos[t] < rows.len() && shown[t]
                == rows[pos[t]]
            &&& forall|s: int, t: int| 0 <= s < t < pos.len() ==> #[trigger] pos[s] < #[trigger] pos[t]
            &&& pos.len() >= 1 && pos[0] == 0
            &&& forall|t: int| 1 <= t < pos.len() ==> 1 <= #[trigger] pos[t] <= sigs.len()
                && signal_reaches(sigs[pos[t] - 1], min_strength)
            &&& forall|j: int|
                1 <= j < rows.len() && j <= sigs.len() && signal_reaches(sigs[j - 1], min_strength)
                    ==> pos.contains(j)
        }),
{
    let rows = lines_of(listing);
    let sigs = lines_of(signals);
    lemma_split_on_nonempty(listing, 0xA);
    lemma_kept_rows(rows, sigs, min_strength);
    let pos = kept_positions(rows.len() as int, sigs, min_strength);
    assert forall|t: int| 1 <= t < pos.len() implies 1 <= #[trigger] pos[t] <= sigs.len()
        && signal_reaches(sigs[pos[t] - 1], min_strength) by {
        assert(pos[0] < pos[t]);
        assert(row_kept(sigs, min_strength, pos[t]));
    }
    assert forall|j: int|
        1 <= j < rows.len() && j <= sigs.len() && signal_reaches(sigs[j - 1], min_strength)
            implies pos.contains(j) by {
        assert(row_kept(sigs, min_strength, j));
    }
}

} // verus!
