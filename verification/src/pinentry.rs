//! The scripted exchange with the external secure-entry helper.
//!
//! The request is a fixed four-line script; the reply is scanned line by line
//! for the first data line, whose percent-escaped payload carries the secret.

use crate::assuan::decode_assuan_data;
use crate::assuan::decode_ok;
use crate::assuan::decoded_text;
use vstd::prelude::*;
use vstd::string::StringExecFns;

verus! {

/// The request script sent to the helper: set a title, a description naming
/// the URL, a prompt label, and ask for the pin.
pub open spec fn pinentry_request_text(url: Seq<char>) -> Seq<char> {
    "SETTITLE jj passphrase\nSETDESC Enter passphrase for "@ + url
        + "\nSETPROMPT Passphrase:\nGETPIN\n"@
}

/// Builds the request script for one URL.
pub fn pinentry_request(url: &str) -> (r: String)
    ensures
        r@ == pinentry_request_text(url@),
{
    let mut out = "SETTITLE jj passphrase\nSETDESC Enter passphrase for ".to_owned();
    out.append(url);
    out.append("\nSETPROMPT Passphrase:\nGETPIN\n");
    out
}

/// The position of the first line feed at or after `i`, or the end of `s`.
pub open spec fn line_end(s: Seq<u8>, i: int) -> int
    decreases s.len() - i,
{
    if i < 0 || i >= s.len() {
        s.len() as int
    } else if s[i] == 10 {
        i
    } else {
        line_end(s, i + 1)
    }
}

/// `line_end` stays within the bounds of `s`.
pub proof fn lemma_line_end_bounds(s: Seq<u8>, i: int)
    requires
        0 <= i <= s.len(),
    ensures
        i <= line_end(s, i) <= s.len(),
    decreases s.len() - i,
{
    if i < s.len() && s[i] != 10 {
        lemma_line_end_bounds(s, i + 1);
    }
}

/// `line_end(s, i)` is `e` exactly where no line feed stands in `[i, e)` and
/// `e` is the end of `s` or a line feed.
pub proof fn lemma_line_end_at(s: Seq<u8>, i: int, e: int)
    requires
        0 <= i <= e <= s.len(),
        forall|j: int| i <= j < e ==> s[j] != 10,
        e == s.len() || s[e] == 10,
    ensures
        line_end(s, i) == e,
    decreases e - i,
{
    if i < e {
        lemma_line_end_at(s, i + 1, e);
    }
}

/// The payload of the first data line (a line beginning with `D` and a
/// space) at or after position `i`, before unescaping; `None` where no line
/// from `i` on is a data line.
pub open spec fn first_data_payload(s: Seq<u8>, i: int) -> Option<Seq<u8>>
    decreases s.len() - i,
    when 0 <= i <= s.len()
    via first_data_payload_decreases
{
    let e = line_end(s, i);
    let line = s.subrange(i, e);
    if line.len() >= 2 && line[0] == 68 && line[1] == 32 {
        Some(line.skip(2))
    } else if e < s.len() {
        first_data_payload(s, e + 1)
    } else {
        None
    }
}

#[via_fn]
proof fn first_data_payload_decreases(s: Seq<u8>, i: int) {
    lemma_line_end_bounds(s, i);
}

/// The raw payload the helper's whole output carries, if any.
pub open spec fn pinentry_response(out: Seq<u8>) -> Option<Seq<u8>> {
    first_data_payload(out, 0)
}

/// Scans the helper's output for the first data line and decodes its
/// payload.
///
/// Returns the decoded secret of the first data line; `None` where no data
/// line is present, or where the first one carries a malformed payload — the
/// scan never falls through to a later data line.
pub fn scan_pinentry_output(out: &[u8]) -> (r: Option<String>)
    ensures
        match pinentry_response(out@) {
            None => r is None,
            Some(payload) => (r is Some <==> decode_ok(payload)) && (r is Some
                ==> r.unwrap()@ == decoded_text(payload)),
        },
{
    let n = out.len();
    let mut i: usize = 0;
    loop
        invariant
            0 <= i <= n,
            n == out@.len(),
            pinentry_response(out@) == first_data_payload(out@, i as int),
        decreases n - i,
    {
        let mut e: usize = i;
        while e < n && out[e] != 10
            invariant
                i <= e <= n,
                n == out@.len(),
                forall|j: int| i <= j < e ==> out@[j] != 10,
            decreases n - e,
        {
            e = e + 1;
        }
        proof {
            lemma_line_end_at(out@, i as int, e as int);
        }
        let ghost line = out@.subrange(i as int, e as int);
        if e - i >= 2 && out[i] == 68 && out[i + 1] == 32 {
            let mut payload: Vec<u8> = Vec::new();
            let mut k: usize = i + 2;
            while k < e
                invariant
                    i + 2 <= k <= e <= n,
                    n == out@.len(),
                    payload@ == out@.subrange(i + 2, k as int),
                decreases e - k,
            {
                payload.push(out[k]);
                proof {
                    assert(out@.subrange(i + 2, k + 1) =~= out@.subrange(i + 2, k as int).push(
                        out@[k as int],
                    ));
                }
                k = k + 1;
            }
            proof {
                assert(line.skip(2) =~= out@.subrange(i + 2, e as int));
            }
            return decode_assuan_data(payload.as_slice());
        }
        if e < n {
            i = e + 1;
        } else {
            return None;
        }
    }
}

} // verus!
