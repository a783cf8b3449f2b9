//! Rendering synchronization outcomes into diagnostics.
//!
//! Two independent, order-preserving summaries: an import summary naming the
//! count of abandoned commits, and an export failure summary listing each
//! failed reference with its full cause chain, with a fixed hint where a
//! reference could not be set. The exact wording is part of the user-visible
//! contract.

use crate::ssh_keys::str_views;
use vstd::prelude::*;
use vstd::string::StringExecFns;
use vstd::utf8::encode_utf8;
use vstd::utf8::encode_utf8_decode_utf8;
use vstd::utf8::encode_utf8_valid_utf8;
use vstd::utf8::is_ascii_chars;
use vstd::utf8::is_ascii_chars_encode_utf8;

verus! {

/// The decimal digit character for `d < 10`.
pub open spec fn dec_digit(d: nat) -> char {
    if d == 0 {
        '0'
    } else if d == 1 {
        '1'
    } else if d == 2 {
        '2'
    } else if d == 3 {
        '3'
    } else if d == 4 {
        '4'
    } else if d == 5 {
        '5'
    } else if d == 6 {
        '6'
    } else if d == 7 {
        '7'
    } else if d == 8 {
        '8'
    } else {
        '9'
    }
}

/// The decimal digit string of `n`, most significant digit first.
pub open spec fn dec_str(n: nat) -> Seq<char>
    decreases n,
{
    if n < 10 {
        seq![dec_digit(n)]
    } else {
        dec_str(n / 10).push(dec_digit(n % 10))
    }
}

/// The ASCII codes of the decimal digit string of `n`.
spec fn dec_bytes(n: nat) -> Seq<u8>
    decreases n,
{
    if n < 10 {
        seq![(48 + n) as u8]
    } else {
        dec_bytes(n / 10).push((48 + n % 10) as u8)
    }
}

/// Writes the decimal digits of `n`, most significant first, after whatever
/// `out` already holds.
fn push_dec_bytes(n: u64, out: &mut Vec<u8>)
    ensures
        final(out)@ == old(out)@ + dec_bytes(n as nat),
    decreases n,
{
    if n >= 10 {
        push_dec_bytes(n / 10, out);
    }
    let ghost mid = out@;
    out.push(48 + (n % 10) as u8);
    proof {
        if n < 10 {
            assert(out@ =~= old(out)@ + dec_bytes(n as nat));
        } else {
            assert(mid =~= old(out)@ + dec_bytes(n as nat / 10));
            assert(out@ =~= old(out)@ + dec_bytes(n as nat));
        }
    }
}

/// The digit string's characters are ASCII, and `dec_bytes` is exactly their
/// codes.
proof fn lemma_dec_bytes_are_digit_codes(n: nat)
    ensures
        is_ascii_chars(dec_str(n)),
        dec_bytes(n).len() == dec_str(n).len(),
        forall|i: int| 0 <= i < dec_str(n).len() ==> dec_bytes(n)[i] == dec_str(n)[i] as u8,
    decreases n,
{
    assert(forall|d: nat| d < 10 ==> dec_digit(d) as u8 == 48 + d && '\0' <= #[trigger] dec_digit(
        d,
    ) <= '\u{7f}');
    if n < 10 {
    } else {
        lemma_dec_bytes_are_digit_codes(n / 10);
        assert(dec_str(n) == dec_str(n / 10).push(dec_digit(n % 10)));
        assert(dec_bytes(n) == dec_bytes(n / 10).push((48 + n % 10) as u8));
    }
}

/// Renders `n` in decimal.
fn u64_to_string(n: u64) -> (r: String)
    ensures
        r@ == dec_str(n as nat),
{
    let mut bytes: Vec<u8> = Vec::new();
    push_dec_bytes(n, &mut bytes);
    proof {
        lemma_dec_bytes_are_digit_codes(n as nat);
        is_ascii_chars_encode_utf8(dec_str(n as nat));
        assert(bytes@ =~= encode_utf8(dec_str(n as nat)));
        encode_utf8_valid_utf8(dec_str(n as nat));
        encode_utf8_decode_utf8(dec_str(n as nat));
    }
    match crate::assuan::string_from_utf8(bytes) {
        Some(s) => s,
        None => unreached(),
    }
}

/// The import summary line for a non-zero count of abandoned commits.
pub open spec fn import_message_text(n: nat) -> Seq<char> {
    "Abandoned "@ + dec_str(n) + " commits that are no longer reachable."@
}

/// The import summary: one line naming the count of abandoned commits, and
/// nothing at all where no commit was abandoned.
pub fn import_stats_message(abandoned_commits: u64) -> (r: Option<String>)
    ensures
        r is None <==> abandoned_commits == 0,
        abandoned_commits > 0 ==> r is Some && r.unwrap()@ == import_message_text(
            abandoned_commits as nat,
        ),
{
    if abandoned_commits == 0 {
        None
    } else {
        let mut out = "Abandoned ".to_owned();
        let count = u64_to_string(abandoned_commits);
        out.append(count.as_str());
        out.append(" commits that are no longer reachable.");
        Some(out)
    }
}

/// Why the export of one reference failed: either the reference could not be
/// set on the backing store, or some other structural reason.
#[derive(Clone, Copy, Debug, PartialEq, Eq, Structural)]
pub enum ExportFailureKind {
    /// The reference could not be set; this is the kind the fixed hint is
    /// about.
    FailedToSet,
    /// Any other structural reason.
    Other,
}

/// One failed reference export: the reference name, the kind of failure, and
/// the cause chain rendered to messages — the failure's own message first,
/// then each nested cause down to the root.
#[derive(Debug, Clone)]
pub struct RefExportFailure {
    /// The reference (branch) name.
    pub name: String,
    /// The kind of failure.
    pub kind: ExportFailureKind,
    /// The rendered cause chain, outermost reason first.
    pub chain: Vec<String>,
}

/// The `": {cause}"` segments of a cause chain, in order.
pub open spec fn chain_suffix(msgs: Seq<Seq<char>>) -> Seq<char>
    decreases msgs.len(),
{
    if msgs.len() == 0 {
        Seq::empty()
    } else {
        ": "@ + msgs.first() + chain_suffix(msgs.drop_first())
    }
}

/// The rendered line for one failed reference: an indent, the name, then one
/// `": {cause}"` segment per link of the cause chain.
pub open spec fn failure_line_text(name: Seq<char>, msgs: Seq<Seq<char>>) -> Seq<char> {
    "  "@ + name + chain_suffix(msgs)
}

/// Appending one message to a chain appends exactly one `": {cause}"`
/// segment.
pub proof fn lemma_chain_suffix_snoc(msgs: Seq<Seq<char>>, m: Seq<char>)
    ensures
        chain_suffix(msgs.push(m)) == chain_suffix(msgs) + (": "@ + m),
    decreases msgs.len(),
{
    assert(chain_suffix(Seq::<Seq<char>>::empty()) =~= Seq::<char>::empty());
    assert(msgs.push(m).len() == msgs.len() + 1);
    if msgs.len() == 0 {
        assert(msgs.push(m).first() == m);
        assert(msgs.push(m).drop_first() =~= Seq::<Seq<char>>::empty());
        assert(chain_suffix(msgs.push(m)) =~= chain_suffix(msgs) + (": "@ + m));
    } else {
        lemma_chain_suffix_snoc(msgs.drop_first(), m);
        assert(msgs.push(m).first() == msgs.first());
        assert(msgs.push(m).drop_first() =~= msgs.drop_first().push(m));
        assert(chain_suffix(msgs.push(m)) =~= chain_suffix(msgs) + (": "@ + m));
    }
}

/// A cause chain of three links renders as three successive segments.
pub proof fn lemma_chain_of_three(name: Seq<char>, a: Seq<char>, b: Seq<char>, c: Seq<char>)
    ensures
        failure_line_text(name, seq![a, b, c]) == "  "@ + name + ": "@ + a + ": "@ + b + ": "@ + c,
{
    reveal_with_fuel(chain_suffix, 5);
    let msgs = seq![a, b, c];
    assert(msgs.drop_first() =~= seq![b, c]);
    assert(seq![b, c].drop_first() =~= seq![c]);
    assert(seq![c].drop_first() =~= Seq::<Seq<char>>::empty());
    assert(failure_line_text(name, msgs) =~= "  "@ + name + ": "@ + a + ": "@ + b + ": "@ + c);
}

/// Renders the line for one failed reference.
pub fn failure_line(failure: &RefExportFailure) -> (r: String)
    ensures
        r@ == failure_line_text(failure.name@, str_views(failure.chain@)),
{
    let mut out = "  ".to_owned();
    out.append(failure.name.as_str());
    let n = failure.chain.len();
    let mut i: usize = 0;
    proof {
        assert(str_views(failure.chain@.take(0)) =~= Seq::<Seq<char>>::empty());
        assert(chain_suffix(Seq::<Seq<char>>::empty()) =~= Seq::<char>::empty());
        assert(out@ =~= "  "@ + failure.name@ + chain_suffix(str_views(failure.chain@.take(0))));
    }
    while i < n
        invariant
            0 <= i <= n,
            n == failure.chain@.len(),
            out@ == "  "@ + failure.name@ + chain_suffix(str_views(failure.chain@.take(i as int))),
        decreases n - i,
    {
        let ghost pre = str_views(failure.chain@.take(i as int));
        out.append(": ");
        out.append(failure.chain[i].as_str());
        proof {
            lemma_chain_suffix_snoc(pre, failure.chain@[i as int]@);
            assert(str_views(failure.chain@.take(i + 1)) =~= pre.push(failure.chain@[i as int]@));
            assert(out@ =~= "  "@ + failure.name@ + chain_suffix(
                str_views(failure.chain@.take(i + 1)),
            ));
        }
        i = i + 1;
    }
    proof {
        assert(failure.chain@.take(n as int) =~= failure.chain@);
    }
    out
}

/// Whether any failure is of the kind the fixed hint is about.
pub open spec fn has_failed_to_set(failures: Seq<RefExportFailure>) -> bool {
    exists|i: int| 0 <= i < failures.len() && failures[i].kind is FailedToSet
}

/// The header of the export failure summary.
pub open spec fn export_header_text() -> Seq<char> {
    "Failed to export some branches:"@
}

/// The fixed hint shown where a reference could not be set.
pub open spec fn export_hint_text() -> Seq<char> {
    "Hint: Git doesn't allow a branch name that looks like a parent directory of\nanother (e.g. `foo` and `foo/bar`). Try to rename the branches that failed to\nexport or their \"parent\" branches."@
}

/// The rendered export failure summary: a header and one line per failure
/// where anything failed, and the fixed hint where some reference could not
/// be set.
pub struct ExportFailureReport {
    /// The header, present exactly where the failure list is non-empty.
    pub header: Option<String>,
    /// One rendered line per failure, in the order supplied.
    pub lines: Vec<String>,
    /// The fixed hint, present exactly where some failure is `FailedToSet`.
    pub hint: Option<String>,
}

/// Renders the export failure summary. Nothing at all is produced for an
/// empty failure list; otherwise the header, every failure in the order
/// supplied with its full cause chain, and the fixed hint exactly where some
/// reference could not be set.
pub fn export_failure_report(failures: &Vec<RefExportFailure>) -> (r: ExportFailureReport)
    ensures
        failures@.len() == 0 ==> r.header is None && r.lines@.len() == 0 && r.hint is None,
        failures@.len() > 0 ==> r.header is Some && r.header.unwrap()@ == export_header_text(),
        r.lines@.len() == failures@.len(),
        forall|i: int|
            0 <= i < failures@.len() ==> r.lines@[i]@ == failure_line_text(
                failures@[i].name@,
                str_views(failures@[i].chain@),
            ),
        r.hint is Some <==> has_failed_to_set(failures@),
        r.hint is Some ==> r.hint.unwrap()@ == export_hint_text(),
{
    let n = failures.len();
    if n == 0 {
        return ExportFailureReport { header: None, lines: Vec::new(), hint: None };
    }
    let header = Some("Failed to export some branches:".to_owned());
    let mut lines: Vec<String> = Vec::new();
    let mut any_failed_to_set = false;
    let mut i: usize = 0;
    while i < n
        invariant
            0 <= i <= n,
            n == failures@.len(),
            lines@.len() == i,
            forall|j: int|
                0 <= j < i ==> lines@[j]@ == failure_line_text(
                    failures@[j].name@,
                    str_views(failures@[j].chain@),
                ),
            any_failed_to_set == exists|j: int|
                0 <= j < i && failures@[j].kind is FailedToSet,
        decreases n - i,
    {
        lines.push(failure_line(&failures[i]));
        if let ExportFailureKind::FailedToSet = failures[i].kind {
            any_failed_to_set = true;
        }
        i = i + 1;
    }
    let hint = if any_failed_to_set {
        Some(
            "Hint: Git doesn't allow a branch name that looks like a parent directory of\nanother (e.g. `foo` and `foo/bar`). Try to rename the branches that failed to\nexport or their \"parent\" branches.".to_owned(),
        )
    } else {
        None
    };
    ExportFailureReport { header, lines, hint }
}

} // verus!
