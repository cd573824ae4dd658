//! The options of a DHCP message, before they are decoded.
//!
//! From a fixed offset on, a message holds options one after another: a code, a length and a value,
//! or a single byte that pads or ends. Neighbours of the same code make up one option, whose value
//! is theirs joined. Of a few codes the decoder insists on the length of the value. Where the length
//! is another, the option is given a code of which it does not.

use vstd::prelude::*;

verus! {

/// Where the options of a message start.
pub const OPTIONS_OFFSET: usize = 240;

/// The code that pads.
pub const OPTION_PAD: u8 = 0;

/// The code that ends the options.
pub const OPTION_END: u8 = 255;

/// A code that stands for nothing.
pub const OPTION_UNASSIGNED: u8 = 254;

pub const OPTION_RAPID_COMMIT: u8 = 80;

pub const OPTION_CLIENT_FQDN: u8 = 81;

pub const OPTION_NETWORK_INTERFACE: u8 = 94;

/// The first of the four times of a bulk lease query.
pub const OPTION_BULK_FIRST_TIME: u8 = 152;

/// The last of them.
pub const OPTION_BULK_LAST_TIME: u8 = 155;

/// Whether the value of an option has a length that the decoder expects.
pub open spec fn length_fits(code: u8, len: int) -> bool {
    if code == OPTION_RAPID_COMMIT {
        len == 0
    } else if code == OPTION_CLIENT_FQDN {
        len >= 3
    } else if code == OPTION_NETWORK_INTERFACE {
        len == 3
    } else if OPTION_BULK_FIRST_TIME <= code <= OPTION_BULK_LAST_TIME {
        len == 4
    } else {
        true
    }
}

/// Whether the decoder finds in a value all that it reads of it, so that it would go on to the next
/// option.
pub open spec fn length_suffices(code: u8, len: int) -> bool {
    if code == OPTION_CLIENT_FQDN || code == OPTION_NETWORK_INTERFACE {
        len >= 3
    } else if OPTION_BULK_FIRST_TIME <= code <= OPTION_BULK_LAST_TIME {
        len >= 4
    } else {
        true
    }
}

/// The code is followed by a length, and the length by as many bytes.
pub open spec fn is_whole(bytes: Seq<u8>, at: int) -> bool {
    at + 1 < bytes.len() && piece_end(bytes, at) <= bytes.len()
}

/// Where the next option starts.
pub open spec fn piece_end(bytes: Seq<u8>, at: int) -> int {
    at + 2 + bytes[at + 1]
}

/// Neighbours of one code.
pub struct RunView {
    /// Where something else follows.
    pub end: int,
    /// The length of the values together.
    pub len: int,
    /// None of them is cut off by the end of the message.
    pub whole: bool,
}

/// The neighbours of a code from a place on.
pub open spec fn run_at(bytes: Seq<u8>, at: int, code: u8) -> RunView
    decreases bytes.len() - at,
{
    if at >= bytes.len() || bytes[at] != code {
        RunView { end: at, len: 0, whole: true }
    } else if !is_whole(bytes, at) {
        RunView { end: at, len: 0, whole: false }
    } else {
        let rest = run_at(bytes, piece_end(bytes, at), code);
        RunView { len: bytes[at + 1] + rest.len, ..rest }
    }
}

/// Every option from a place on has a length that the decoder expects, up to where the options end
/// or are cut off.
pub open spec fn options_fit(bytes: Seq<u8>, at: int) -> bool
    decreases bytes.len() - at,
{
    if at >= bytes.len() || bytes[at] == OPTION_END {
        true
    } else if bytes[at] == OPTION_PAD {
        options_fit(bytes, at + 1)
    } else {
        proof {
            law_run_advances(bytes, at);
        }
        let run = run_at(bytes, at, bytes[at]);
        run.whole ==> length_fits(bytes[at], run.len) && options_fit(bytes, run.end)
    }
}

/// The options up to a place are given the code that stands for nothing.
pub open spec fn recoded(bytes: Seq<u8>, at: int, end: int) -> Seq<u8>
    decreases bytes.len() - at,
{
    if at < 0 || at >= end || !is_whole(bytes, at) {
        bytes
    } else {
        recoded(bytes.update(at, OPTION_UNASSIGNED), piece_end(bytes, at), end)
    }
}

/// The bytes with every option from a place on made to fit. One that the decoder would read and go
/// on from is given the code that stands for nothing; at one that would stop it the options end.
pub open spec fn tamed_from(bytes: Seq<u8>, at: int) -> Seq<u8>
    decreases bytes.len() - at,
    via tamed_from_decreases
{
    if at >= bytes.len() || bytes[at] == OPTION_END {
        bytes
    } else if bytes[at] == OPTION_PAD {
        tamed_from(bytes, at + 1)
    } else {
        let run = run_at(bytes, at, bytes[at]);
        if !run.whole {
            bytes
        } else if length_fits(bytes[at], run.len) {
            tamed_from(bytes, run.end)
        } else if length_suffices(bytes[at], run.len) {
            tamed_from(recoded(bytes, at, run.end), run.end)
        } else {
            bytes.update(at, OPTION_END)
        }
    }
}

#[via_fn]
proof fn tamed_from_decreases(bytes: Seq<u8>, at: int) {
    if at < bytes.len() && bytes[at] != OPTION_END && bytes[at] != OPTION_PAD {
        law_run_advances(bytes, at);
        lemma_recoded_keeps_rest(bytes, at, run_at(bytes, at, bytes[at]).end);
    }
}

/// A message whose options all fit, and which otherwise is the given one.
pub open spec fn tamed(bytes: Seq<u8>) -> Seq<u8> {
    tamed_from(bytes, OPTIONS_OFFSET as int)
}

/// Options that are there lead on to a later place, within the message.
pub proof fn law_run_advances(bytes: Seq<u8>, at: int)
    requires
        at < bytes.len(),
    ensures
        ({
            let run = run_at(bytes, at, bytes[at]);
            run.whole ==> at < run.end <= bytes.len()
        }),
{
    if is_whole(bytes, at) {
        lemma_run_bounds(bytes, piece_end(bytes, at), bytes[at]);
    }
}

pub(crate) proof fn lemma_run_bounds(bytes: Seq<u8>, at: int, code: u8)
    requires
        at <= bytes.len(),
    ensures
        at <= run_at(bytes, at, code).end <= bytes.len(),
        0 <= run_at(bytes, at, code).len <= run_at(bytes, at, code).end - at,
    decreases bytes.len() - at,
{
    if at < bytes.len() && bytes[at] == code && is_whole(bytes, at) {
        lemma_run_bounds(bytes, piece_end(bytes, at), code);
    }
}

pub(crate) proof fn lemma_recoded_keeps_rest(bytes: Seq<u8>, at: int, end: int)
    ensures
        recoded(bytes, at, end).len() == bytes.len(),
        forall|i: int|
            0 <= i < at && i < bytes.len() ==> #[trigger] recoded(bytes, at, end)[i] == bytes[i],
    decreases bytes.len() - at,
{
    if 0 <= at < end && is_whole(bytes, at) {
        lemma_recoded_keeps_rest(
            bytes.update(at, OPTION_UNASSIGNED),
            piece_end(bytes, at),
            end,
        );
    }
}

pub(crate) proof fn lemma_tamed_keeps_rest(bytes: Seq<u8>, at: int)
    requires
        0 <= at,
    ensures
        tamed_from(bytes, at).len() == bytes.len(),
        forall|i: int|
            0 <= i < at && i < bytes.len() ==> #[trigger] tamed_from(bytes, at)[i] == bytes[i],
    decreases bytes.len() - at,
{
    if at < bytes.len() && bytes[at] != OPTION_END {
        if bytes[at] == OPTION_PAD {
            lemma_tamed_keeps_rest(bytes, at + 1);
        } else {
            law_run_advances(bytes, at);
            let run = run_at(bytes, at, bytes[at]);
            if run.whole {
                lemma_recoded_keeps_rest(bytes, at, run.end);
                lemma_tamed_keeps_rest(bytes, run.end);
                lemma_tamed_keeps_rest(recoded(bytes, at, run.end), run.end);
            }
        }
    }
}

/// What a place can become when the options from there on are made to fit.
proof fn lemma_tamed_first(bytes: Seq<u8>, at: int)
    requires
        0 <= at < bytes.len(),
    ensures
        ({
            let t = tamed_from(bytes, at);
            t.len() == bytes.len() && (t[at] == bytes[at] || t[at] == OPTION_UNASSIGNED || t[at]
                == OPTION_END)
        }),
{
    lemma_tamed_keeps_rest(bytes, at);
    if bytes[at] == OPTION_PAD {
        lemma_tamed_keeps_rest(bytes, at + 1);
    } else if bytes[at] != OPTION_END {
        law_run_advances(bytes, at);
        let run = run_at(bytes, at, bytes[at]);
        if run.whole {
            lemma_recoded_first(bytes, at, run.end);
            lemma_tamed_keeps_rest(bytes, run.end);
            lemma_tamed_keeps_rest(recoded(bytes, at, run.end), run.end);
        }
    }
}

pub(crate) proof fn lemma_recoded_first(bytes: Seq<u8>, at: int, end: int)
    requires
        0 <= at < end,
        at < bytes.len(),
    ensures
        recoded(bytes, at, end).len() == bytes.len(),
        is_whole(bytes, at) ==> recoded(bytes, at, end)[at] == OPTION_UNASSIGNED,
        !is_whole(bytes, at) ==> recoded(bytes, at, end) == bytes,
{
    if is_whole(bytes, at) {
        lemma_recoded_keeps_rest(
            bytes.update(at, OPTION_UNASSIGNED),
            piece_end(bytes, at),
            end,
        );
    }
}

/// Options of one code lie end to end between two places.
spec fn chained(bytes: Seq<u8>, at: int, end: int, code: u8) -> bool
    decreases bytes.len() - at,
{
    at == end || {
        &&& 0 <= at < end
        &&& is_whole(bytes, at)
        &&& bytes[at] == code
        &&& chained(bytes, piece_end(bytes, at), end, code)
    }
}

proof fn lemma_run_is_chained(bytes: Seq<u8>, at: int, code: u8)
    requires
        0 <= at <= bytes.len(),
        run_at(bytes, at, code).whole,
    ensures
        chained(bytes, at, run_at(bytes, at, code).end, code),
    decreases bytes.len() - at,
{
    lemma_run_bounds(bytes, at, code);
    if at < bytes.len() && bytes[at] == code {
        lemma_run_is_chained(bytes, piece_end(bytes, at), code);
        lemma_run_bounds(bytes, piece_end(bytes, at), code);
    }
}

proof fn lemma_chained_between(a: Seq<u8>, b: Seq<u8>, at: int, end: int, code: u8)
    requires
        chained(a, at, end, code),
        a.len() == b.len(),
        end <= a.len(),
        forall|i: int| at <= i < end ==> a[i] == b[i],
    ensures
        chained(b, at, end, code),
    decreases a.len() - at,
{
    if at != end {
        lemma_chained_advances(a, piece_end(a, at), end, code);
        assert(a[at] == b[at]);
        assert(a[at + 1] == b[at + 1]);
        lemma_chained_between(a, b, piece_end(a, at), end, code);
    }
}

proof fn lemma_chained_advances(bytes: Seq<u8>, at: int, end: int, code: u8)
    requires
        chained(bytes, at, end, code),
    ensures
        at <= end,
{
}

proof fn lemma_recoded_is_chained(bytes: Seq<u8>, at: int, end: int, code: u8)
    requires
        chained(bytes, at, end, code),
        end <= bytes.len(),
    ensures
        chained(recoded(bytes, at, end), at, end, OPTION_UNASSIGNED),
    decreases bytes.len() - at,
{
    if at != end {
        let next = piece_end(bytes, at);
        let one = bytes.update(at, OPTION_UNASSIGNED);
        lemma_chained_advances(bytes, next, end, code);
        lemma_chained_between(bytes, one, next, end, code);
        lemma_recoded_is_chained(one, next, end, code);
        lemma_recoded_keeps_rest(one, next, end);
        assert(recoded(bytes, at, end)[at + 1] == bytes[at + 1]);
    }
}

/// Options of a code that may have any length do no harm to those behind them, also where those
/// are of the same code.
proof fn lemma_chain_fits(bytes: Seq<u8>, at: int, end: int, code: u8)
    requires
        chained(bytes, at, end, code),
        options_fit(bytes, end),
        end <= bytes.len(),
        code != OPTION_END,
        code != OPTION_PAD,
        forall|len: int| #[trigger] length_fits(code, len),
    ensures
        options_fit(bytes, at),
    decreases bytes.len() - at,
{
    if at != end {
        let next = piece_end(bytes, at);
        lemma_chain_fits(bytes, next, end, code);
        let rest = run_at(bytes, next, code);
        assert(run_at(bytes, at, code) == (RunView { len: bytes[at + 1] + rest.len, ..rest }));
        assert(length_fits(code, run_at(bytes, at, code).len));
        law_run_advances(bytes, at);
        if next < bytes.len() && bytes[next] == code {
            assert(rest.whole ==> options_fit(bytes, rest.end));
        } else {
            assert(rest.end == next);
        }
    }
}

proof fn lemma_same_run(a: Seq<u8>, b: Seq<u8>, at: int, code: u8)
    requires
        0 <= at <= a.len(),
        a.len() == b.len(),
        run_at(a, at, code).whole,
        forall|i: int| at <= i < run_at(a, at, code).end ==> a[i] == b[i],
        run_at(a, at, code).end < b.len() ==> b[run_at(a, at, code).end] != code,
    ensures
        run_at(b, at, code) == run_at(a, at, code),
    decreases a.len() - at,
{
    lemma_run_bounds(a, at, code);
    if at < a.len() && a[at] == code {
        lemma_run_bounds(a, piece_end(a, at), code);
        assert(a[at] == b[at]);
        assert(a[at + 1] == b[at + 1]);
        lemma_same_run(a, b, piece_end(a, at), code);
    }
}

/// Where a run ends, another code follows.
proof fn lemma_run_ends(bytes: Seq<u8>, at: int, code: u8)
    requires
        run_at(bytes, at, code).whole,
    ensures
        ({
            let end = run_at(bytes, at, code).end;
            end < bytes.len() ==> bytes[end] != code
        }),
    decreases bytes.len() - at,
{
    if at < bytes.len() && bytes[at] == code {
        lemma_run_ends(bytes, piece_end(bytes, at), code);
    }
}

proof fn lemma_tamed_fits(bytes: Seq<u8>, at: int)
    requires
        0 <= at,
    ensures
        options_fit(tamed_from(bytes, at), at),
    decreases bytes.len() - at,
{
    let t = tamed_from(bytes, at);
    lemma_tamed_keeps_rest(bytes, at);
    if at < bytes.len() && bytes[at] != OPTION_END {
        if bytes[at] == OPTION_PAD {
            lemma_tamed_fits(bytes, at + 1);
            lemma_tamed_keeps_rest(bytes, at + 1);
        } else {
            let code = bytes[at];
            let run = run_at(bytes, at, code);
            law_run_advances(bytes, at);
            if run.whole {
                lemma_run_is_chained(bytes, at, code);
                if length_fits(code, run.len) {
                    lemma_tamed_fits(bytes, run.end);
                    lemma_tamed_keeps_rest(bytes, run.end);
                    if forall|len: int| #[trigger] length_fits(code, len) {
                        lemma_chained_between(bytes, t, at, run.end, code);
                        lemma_chain_fits(t, at, run.end, code);
                    } else {
                        lemma_run_ends(bytes, at, code);
                        if run.end < bytes.len() {
                            lemma_tamed_first(bytes, run.end);
                        }
                        lemma_same_run(bytes, t, at, code);
                    }
                } else if length_suffices(code, run.len) {
                    let x = recoded(bytes, at, run.end);
                    lemma_recoded_keeps_rest(bytes, at, run.end);
                    lemma_recoded_is_chained(bytes, at, run.end, code);
                    lemma_tamed_fits(x, run.end);
                    lemma_tamed_keeps_rest(x, run.end);
                    lemma_chained_between(x, t, at, run.end, OPTION_UNASSIGNED);
                    lemma_chain_fits(t, at, run.end, OPTION_UNASSIGNED);
                }
            }
        }
    }
}

proof fn lemma_fitting_is_kept(bytes: Seq<u8>, at: int)
    requires
        0 <= at,
        options_fit(bytes, at),
    ensures
        tamed_from(bytes, at) == bytes,
    decreases bytes.len() - at,
{
    if at < bytes.len() && bytes[at] != OPTION_END {
        if bytes[at] == OPTION_PAD {
            lemma_fitting_is_kept(bytes, at + 1);
        } else {
            law_run_advances(bytes, at);
            let run = run_at(bytes, at, bytes[at]);
            if run.whole {
                lemma_fitting_is_kept(bytes, run.end);
            }
        }
    }
}

/// Once tamed, every option fits. The message is as long as it was, and the same before its options.
pub proof fn law_tamed_fits(bytes: Seq<u8>)
    ensures
        options_fit(tamed(bytes), OPTIONS_OFFSET as int),
        tamed(bytes).len() == bytes.len(),
        forall|i: int|
            0 <= i < OPTIONS_OFFSET && i < bytes.len() ==> #[trigger] tamed(bytes)[i] == bytes[i],
{
    lemma_tamed_fits(bytes, OPTIONS_OFFSET as int);
    lemma_tamed_keeps_rest(bytes, OPTIONS_OFFSET as int);
}

/// A message whose options fit is left as it is.
pub proof fn law_fitting_message_is_kept(bytes: Seq<u8>)
    requires
        options_fit(bytes, OPTIONS_OFFSET as int),
    ensures
        tamed(bytes) == bytes,
{
    lemma_fitting_is_kept(bytes, OPTIONS_OFFSET as int);
}

/// To tame a message again changes nothing.
pub proof fn law_taming_is_idempotent(bytes: Seq<u8>)
    ensures
        tamed(tamed(bytes)) == tamed(bytes),
{
    law_tamed_fits(bytes);
    law_fitting_message_is_kept(tamed(bytes));
}

/// Neighbours of one code.
struct Run {
    end: usize,
    len: usize,
    whole: bool,
}

fn find_run(bytes: &Vec<u8>, at: usize) -> (r: Run)
    requires
        at < bytes@.len(),
    ensures
        r.whole == run_at(bytes@, at as int, bytes@[at as int]).whole,
        r.whole ==> r.end == run_at(bytes@, at as int, bytes@[at as int]).end,
        r.whole ==> r.len == run_at(bytes@, at as int, bytes@[at as int]).len,
{
    let code: u8 = bytes[at];
    let mut end: usize = at;
    let mut len: usize = 0;
    let ghost run = run_at(bytes@, at as int, code);
    while end < bytes.len() && bytes[end] == code
        invariant
            at <= end <= bytes@.len(),
            len <= end - at,
            run == run_at(bytes@, at as int, code),
            ({
                let rest = run_at(bytes@, end as int, code);
                run == (RunView { len: len + rest.len, ..rest })
            }),
        decreases bytes@.len() - end,
    {
        if bytes.len() - end < 2 || bytes.len() - end - 2 < usize::from(bytes[end + 1]) {
            return Run { end, len, whole: false };
        }
        let value_len: usize = usize::from(bytes[end + 1]);
        end = end + 2 + value_len;
        len = len + value_len;
    }
    Run { end, len, whole: true }
}

fn fits(code: u8, len: usize) -> (r: bool)
    ensures
        r == length_fits(code, len as int),
{
    if code == OPTION_RAPID_COMMIT {
        len == 0
    } else if code == OPTION_CLIENT_FQDN {
        len >= 3
    } else if code == OPTION_NETWORK_INTERFACE {
        len == 3
    } else if OPTION_BULK_FIRST_TIME <= code && code <= OPTION_BULK_LAST_TIME {
        len == 4
    } else {
        true
    }
}

fn suffices(code: u8, len: usize) -> (r: bool)
    ensures
        r == length_suffices(code, len as int),
{
    if code == OPTION_CLIENT_FQDN || code == OPTION_NETWORK_INTERFACE {
        len >= 3
    } else if OPTION_BULK_FIRST_TIME <= code && code <= OPTION_BULK_LAST_TIME {
        len >= 4
    } else {
        true
    }
}

fn recode(bytes: &mut Vec<u8>, from: usize, end: usize, code: Ghost<u8>)
    requires
        from <= end <= old(bytes)@.len(),
        chained(old(bytes)@, from as int, end as int, code@),
    ensures
        final(bytes)@ == recoded(old(bytes)@, from as int, end as int),
{
    let mut at: usize = from;
    while at < end
        invariant
            at <= end <= bytes@.len(),
            chained(bytes@, at as int, end as int, code@),
            recoded(bytes@, at as int, end as int) == recoded(old(bytes)@, from as int, end as int),
        decreases end - at,
    {
        let ghost before = bytes@;
        proof {
            lemma_chained_advances(before, piece_end(before, at as int), end as int, code@);
        }
        let next: usize = at + 2 + usize::from(bytes[at + 1]);
        bytes.set(at, OPTION_UNASSIGNED);
        proof {
            lemma_chained_between(before, bytes@, next as int, end as int, code@);
        }
        at = next;
    }
}

/// Makes every option of a message fit, so that the decoder can be handed any message.
pub fn tame(message: &[u8]) -> (r: Vec<u8>)
    ensures
        r@ == tamed(message@),
{
    let mut bytes: Vec<u8> = vstd::slice::slice_to_vec(message);
    let mut at: usize = OPTIONS_OFFSET;
    while at < bytes.len() && bytes[at] != OPTION_END
        invariant
            tamed_from(bytes@, at as int) == tamed(message@),
        decreases bytes@.len() - at,
    {
        let code: u8 = bytes[at];
        if code == OPTION_PAD {
            at = at + 1;
            continue;
        }
        let run = find_run(&bytes, at);
        proof {
            law_run_advances(bytes@, at as int);
        }
        if !run.whole {
            return bytes;
        }
        if !fits(code, run.len) {
            if !suffices(code, run.len) {
                bytes.set(at, OPTION_END);
                return bytes;
            }
            proof {
                lemma_run_is_chained(bytes@, at as int, code);
                lemma_recoded_keeps_rest(bytes@, at as int, run.end as int);
            }
            recode(&mut bytes, at, run.end, Ghost(code));
        }
        at = run.end;
    }
    bytes
}

} // verus!
