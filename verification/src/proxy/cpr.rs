//! Cursor position reports.
//!
//! The terminal answers requests in the order in which they were made, by the proxy or by
//! a program in the shell. So the oldest request that is still open says whose a report is.

use vstd::prelude::*;

use crate::decimal::decimal;
use crate::decimal::is_digit;
use crate::decimal::law_written_number_reads_back;
use crate::decimal::lemma_decimal_digits;
use crate::decimal::push_decimal;
use crate::input::cpr_value;
use crate::input::first_key;
use crate::input::keys_of;
use crate::input::params_end;
use crate::input::position_of;
use crate::input::Key;
use crate::resize::TerminalSize;

verus! {

/// Who has asked for a report.
#[derive(Debug, Clone, Copy, PartialEq, Eq, Structural)]
pub enum CprOwner {
    Ours,
    Shell,
}

/// What to do with a report.
#[derive(Debug, Clone, Copy, PartialEq, Eq, Structural)]
pub enum CprAction {
    /// The proxy has asked for it: the cursor is there.
    SyncOurs(u16, u16),
    /// A program in the shell has asked for it.
    ForwardToPty(u16, u16),
    /// Nobody has asked for it, as far as is known: it is forwarded to be safe.
    DropEmpty(u16, u16),
}

/// What to do with a report, given the oldest open request.
pub open spec fn action_for(claimed: Option<CprOwner>, row: u16, col: u16) -> CprAction {
    match claimed {
        Some(CprOwner::Ours) => CprAction::SyncOurs(row, col),
        Some(CprOwner::Shell) => CprAction::ForwardToPty(row, col),
        None => CprAction::DropEmpty(row, col),
    }
}

/// What to do with a report, given the oldest open request.
pub fn dispatch_cpr_response(claimed: Option<CprOwner>, row: u16, col: u16) -> (action: CprAction)
    ensures
        action == action_for(claimed, row, col),
{
    match claimed {
        Some(CprOwner::Ours) => CprAction::SyncOurs(row, col),
        Some(CprOwner::Shell) => CprAction::ForwardToPty(row, col),
        None => CprAction::DropEmpty(row, col),
    }
}

/// A report as the terminal sends it.
pub open spec fn report_bytes(row: u16, col: u16) -> Seq<u8> {
    seq![0x1Bu8, 0x5Bu8] + decimal(row as nat) + seq![0x3Bu8] + decimal(col as nat) + seq![0x52u8]
}

/// The bytes of a report, to forward it.
pub fn cpr_report(row: u16, col: u16) -> (bytes: Vec<u8>)
    ensures
        bytes@ == report_bytes(row, col),
{
    let mut bytes: Vec<u8> = Vec::new();
    bytes.push(0x1B);
    bytes.push(0x5B);
    push_decimal(&mut bytes, row as u32);
    bytes.push(0x3B);
    push_decimal(&mut bytes, col as u32);
    bytes.push(0x52);
    assert(bytes@ =~= report_bytes(row, col));
    bytes
}

/// What to do with a report of our own whose position does, or does not, lie on the screen
/// as it is known.
#[derive(Debug, Clone, Copy, PartialEq, Eq, Structural)]
pub enum CprSync {
    /// The cursor is there.
    Accept,
    /// The screen has another size than was known: take it over, and look again.
    Resize(TerminalSize),
    /// The position cannot be reconciled: the scroll deficit is meaningless.
    GiveUp,
}

/// What to do with a report of our own.
pub open spec fn reconciled(
    on_screen: bool,
    known: TerminalSize,
    queried: Option<TerminalSize>,
) -> CprSync {
    if on_screen {
        CprSync::Accept
    } else {
        match queried {
            Some(size) => if size != known {
                CprSync::Resize(size)
            } else {
                CprSync::GiveUp
            },
            None => CprSync::GiveUp,
        }
    }
}

/// What to do with a report of our own. `queried` is the size of the terminal as asked for
/// anew, where it could be.
pub fn reconcile_report(
    on_screen: bool,
    known: TerminalSize,
    queried: Option<TerminalSize>,
) -> (sync: CprSync)
    ensures
        sync == reconciled(on_screen, known, queried),
{
    if on_screen {
        return CprSync::Accept;
    }
    match queried {
        Some(size) => if size.rows != known.rows || size.cols != known.cols {
            CprSync::Resize(size)
        } else {
            CprSync::GiveUp
        },
        None => CprSync::GiveUp,
    }
}

// ---- Laws ----

proof fn lemma_params_end_skips(s: Seq<u8>, from: int, to: int)
    requires
        0 <= from <= to <= s.len(),
        forall|i: int| from <= i < to ==> #[trigger] s[i] < 0x40,
        to == s.len() || s[to] >= 0x40,
    ensures
        params_end(s, from) == to,
    decreases to - from,
{
    if from < to {
        lemma_params_end_skips(s, from + 1, to);
    }
}

proof fn lemma_position_skips(s: Seq<u8>, b: u8, from: int, to: int)
    requires
        0 <= from <= to < s.len(),
        forall|i: int| from <= i < to ==> #[trigger] s[i] != b,
        s[to] == b,
    ensures
        position_of(s, b, from) == to,
    decreases to - from,
{
    if from < to {
        lemma_position_skips(s, b, from + 1, to);
    }
}

/// A program that a report is forwarded to reads the position that the terminal sent.
pub proof fn law_forwarded_report_reads_back(row: u16, col: u16)
    ensures
        keys_of(report_bytes(row, col)) == seq![Key::CursorPositionReport(row, col)],
{
    let s = report_bytes(row, col);
    let r = decimal(row as nat);
    let c = decimal(col as nat);
    let params = r + seq![0x3Bu8] + c;
    let end = 2 + params.len() as int;
    lemma_decimal_digits(row as nat);
    lemma_decimal_digits(col as nat);
    assert(s =~= seq![0x1Bu8, 0x5Bu8] + params + seq![0x52u8]);
    assert forall|i: int| 0 <= i < params.len() implies 0x30 <= #[trigger] params[i] <= 0x3B by {
        if i < r.len() {
            assert(params[i] == r[i]);
            assert(is_digit(r[i]));
        } else if i > r.len() {
            assert(params[i] == c[i - r.len() as int - 1]);
            assert(is_digit(c[i - r.len() as int - 1]));
        }
    }
    assert forall|i: int| 2 <= i < end implies #[trigger] s[i] < 0x40 by {
        assert(s[i] == params[i - 2]);
    }
    assert(s[end] == 0x52);
    lemma_params_end_skips(s, 2, end);
    assert(s.subrange(2, end) =~= params);
    assert forall|i: int| 0 <= i < r.len() implies #[trigger] params[i] != 0x3B by {
        assert(is_digit(r[i]));
    }
    assert(params[r.len() as int] == 0x3B);
    lemma_position_skips(params, 0x3B, 0, r.len() as int);
    assert(params.take(r.len() as int) =~= r);
    assert(params.skip(r.len() as int + 1) =~= c);
    law_written_number_reads_back(row as nat, u16::MAX as nat);
    law_written_number_reads_back(col as nat, u16::MAX as nat);
    assert(cpr_value(params) == Some((row, col)));
    assert(is_digit(r[0]));
    assert(s[2] == r[0]);
    assert(s[3] == params[1]);
    assert(first_key(s) == (Key::CursorPositionReport(row, col), end + 1));
    assert(s.skip(end + 1) =~= Seq::<u8>::empty());
    assert(keys_of(s.skip(end + 1)) =~= Seq::<Key>::empty());
    assert(keys_of(s) =~= seq![Key::CursorPositionReport(row, col)]);
}

/// A position on the screen is taken over. One that is not is looked at again on the screen
/// as it now is, but only where that differs from the one known, in rows or in columns.
pub proof fn law_position_off_screen_takes_new_size(
    known: TerminalSize,
    size: TerminalSize,
    queried: Option<TerminalSize>,
)
    ensures
        reconciled(true, known, queried) == CprSync::Accept,
        reconciled(false, known, None) == CprSync::GiveUp,
        reconciled(false, known, Some(known)) == CprSync::GiveUp,
        size.rows != known.rows || size.cols != known.cols ==> reconciled(false, known, Some(size))
            == CprSync::Resize(size),
{
}

} // verus!
