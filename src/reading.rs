//! The read side: what a poll of the port turns into. Received bytes are
//! decoded leniently, trimmed of surrounding white space and stripped of
//! line breaks; only text that is left over is reported.

use vstd::prelude::*;
use vstd::slice::slice_subrange;
use vstd::string::StrSliceExecFns;
use vstd::string::StringExecFns;
use vstd::utf8::decode_utf8;
use vstd::utf8::valid_utf8;

verus! {

/// Capacity of the buffer that each poll reads into, in bytes.
pub const READ_BUFFER_LEN: usize = 15;

/// Pause before each poll, in milliseconds.
pub const POLL_INTERVAL_MS: u64 = 100;

/// The Unicode `White_Space` property.
pub open spec fn is_white_space(c: char) -> bool {
    let v = c as u32;
    ||| 0x9 <= v <= 0xd
    ||| v == 0x20
    ||| v == 0x85
    ||| v == 0xa0
    ||| v == 0x1680
    ||| 0x2000 <= v <= 0x200a
    ||| v == 0x2028
    ||| v == 0x2029
    ||| v == 0x202f
    ||| v == 0x205f
    ||| v == 0x3000
}

pub open spec fn is_line_break(c: char) -> bool {
    c == '\r' || c == '\n'
}

/// `s` without its leading white space.
pub open spec fn trim_start(s: Seq<char>) -> Seq<char>
    decreases s.len(),
{
    if s.len() > 0 && is_white_space(s[0]) {
        trim_start(s.drop_first())
    } else {
        s
    }
}

/// `s` without its trailing white space.
pub open spec fn trim_end(s: Seq<char>) -> Seq<char>
    decreases s.len(),
{
    if s.len() > 0 && is_white_space(s.last()) {
        trim_end(s.drop_last())
    } else {
        s
    }
}

/// `s` without any carriage return or line feed.
pub open spec fn strip_line_breaks(s: Seq<char>) -> Seq<char> {
    s.filter(|c: char| !is_line_break(c))
}

/// What is left of received text once cleaned for display.
pub open spec fn cleaned(s: Seq<char>) -> Seq<char> {
    strip_line_breaks(trim_end(trim_start(s)))
}

/// The text that `String::from_utf8_lossy` makes of `bytes`.
pub uninterp spec fn utf8_lossy(bytes: Seq<u8>) -> Seq<char>;

/// Relies on `String::from_utf8_lossy`: the text depends on the bytes alone,
/// and bytes that are valid UTF-8 decode unchanged.
#[verifier::external_body]
fn decode_lossy(bytes: &[u8]) -> (r: String)
    ensures
        r@ == utf8_lossy(bytes@),
        valid_utf8(bytes@) ==> r@ == decode_utf8(bytes@),
{
    String::from_utf8_lossy(bytes).into_owned()
}

/// Whether `c` is white space.
pub fn white_space(c: char) -> (r: bool)
    ensures
        r == is_white_space(c),
{
    let v = c as u32;
    (0x9 <= v && v <= 0xd) || v == 0x20 || v == 0x85 || v == 0xa0 || v == 0x1680 || (0x2000
        <= v && v <= 0x200a) || v == 0x2028 || v == 0x2029 || v == 0x202f || v == 0x205f || v
        == 0x3000
}

/// Cleans received text: trims white space on both ends, then removes
/// every carriage return and line feed.
pub fn clean_text(s: &str) -> (r: String)
    ensures
        r@ == cleaned(s@),
{
    let n = s.unicode_len();
    let ghost full = s@;
    let mut start: usize = 0;
    assert(full.subrange(0, n as int) =~= full);
    while start < n && white_space(s.get_char(start))
        invariant
            start <= n,
            n == full.len(),
            full == s@,
            trim_start(full) == trim_start(full.subrange(start as int, n as int)),
        decreases n - start,
    {
        assert(full.subrange(start as int, n as int).drop_first() =~= full.subrange(
            start + 1,
            n as int,
        ));
        start = start + 1;
    }
    let ghost head = full.subrange(start as int, n as int);
    assert(trim_start(full) == head);
    let mut end: usize = n;
    while end > start && white_space(s.get_char(end - 1))
        invariant
            start <= end <= n,
            n == full.len(),
            full == s@,
            head == full.subrange(start as int, n as int),
            trim_end(head) == trim_end(full.subrange(start as int, end as int)),
        decreases end,
    {
        assert(full.subrange(start as int, end as int).drop_last() =~= full.subrange(
            start as int,
            end - 1,
        ));
        end = end - 1;
    }
    let ghost body = full.subrange(start as int, end as int);
    assert(trim_end(trim_start(full)) == body);
    let mut out: String = String::new();
    let mut i: usize = start;
    while i < end
        invariant
            start <= i <= end <= n,
            n == full.len(),
            full == s@,
            out@ == strip_line_breaks(full.subrange(start as int, i as int)),
        decreases end - i,
    {
        let c = s.get_char(i);
        assert(full.subrange(start as int, i + 1).drop_last() =~= full.subrange(
            start as int,
            i as int,
        ));
        proof {
            reveal(Seq::filter);
        }
        if c != '\r' && c != '\n' {
            let one = s.substring_char(i, i + 1);
            assert(one@ =~= seq![c]);
            out.append(one);
        }
        i = i + 1;
    }
    assert(full.subrange(start as int, end as int) == body);
    out
}

/// What to do when a poll times out without data.
#[derive(Clone, Copy)]
pub enum TimeoutPolicy {
    /// A quiet port is not an error: poll again.
    ContinuePolling,
    /// A timeout ends the read command like any other failure.
    TreatAsFatal,
}

/// How one poll of the port came out.
pub enum ReadOutcome {
    /// The read filled the first `n` bytes of the buffer.
    Received(usize),
    /// The read timed out with no data.
    TimedOut,
    /// The read failed.
    Failed,
}

/// What the polling loop does after one poll.
pub enum ReadAction {
    /// Nothing to show: poll again.
    Quiet,
    /// Show `text`, cleaned from `count` received bytes, and poll again.
    Report { count: usize, text: String },
    /// Report the failure and end the loop.
    Stop,
}

/// The cleaned text of the first `n` bytes of `buf`.
pub open spec fn received_text(buf: Seq<u8>, n: int) -> Seq<char> {
    cleaned(utf8_lossy(buf.subrange(0, n)))
}

/// The action owed after a poll that came out as `outcome`, reading into `buf`.
pub open spec fn read_action_spec(
    policy: TimeoutPolicy,
    outcome: ReadOutcome,
    buf: Seq<u8>,
    a: ReadAction,
) -> bool {
    match outcome {
        ReadOutcome::Received(n) => if n > 0 && received_text(buf, n as int).len() > 0 {
            match a {
                ReadAction::Report { count, text } => count == n && text@ == received_text(
                    buf,
                    n as int,
                ),
                _ => false,
            }
        } else {
            a is Quiet
        },
        ReadOutcome::TimedOut => match policy {
            TimeoutPolicy::ContinuePolling => a is Quiet,
            TimeoutPolicy::TreatAsFatal => a is Stop,
        },
        ReadOutcome::Failed => a is Stop,
    }
}

/// Decides what one poll leads to: report cleaned text, stay quiet, or stop.
pub fn read_step(policy: TimeoutPolicy, outcome: ReadOutcome, buf: &[u8]) -> (r: ReadAction)
    requires
        outcome matches ReadOutcome::Received(n) ==> n <= buf@.len(),
    ensures
        read_action_spec(policy, outcome, buf@, r),
{
    match outcome {
        ReadOutcome::Received(n) => {
            if n == 0 {
                return ReadAction::Quiet;
            }
            let text = decode_lossy(slice_subrange(buf, 0, n));
            let cleaned_text = clean_text(text.as_str());
            if cleaned_text.as_str().unicode_len() == 0 {
                ReadAction::Quiet
            } else {
                ReadAction::Report { count: n, text: cleaned_text }
            }
        },
        ReadOutcome::TimedOut => match policy {
            TimeoutPolicy::ContinuePolling => ReadAction::Quiet,
            TimeoutPolicy::TreatAsFatal => ReadAction::Stop,
        },
        ReadOutcome::Failed => ReadAction::Stop,
    }
}

proof fn lemma_trim_start_shape(s: Seq<char>) -> (k: int)
    ensures
        0 <= k <= s.len(),
        trim_start(s) == s.subrange(k, s.len() as int),
        forall|j: int| 0 <= j < k ==> is_white_space(#[trigger] s[j]),
        k < s.len() ==> !is_white_space(s[k]),
    decreases s.len(),
{
    if s.len() > 0 && is_white_space(s[0]) {
        let k1 = lemma_trim_start_shape(s.drop_first());
        assert(s.drop_first().subrange(k1, s.len() - 1) =~= s.subrange(k1 + 1, s.len() as int));
        assert forall|j: int| 0 <= j < k1 + 1 implies is_white_space(#[trigger] s[j]) by {
            if j > 0 {
                assert(s[j] == s.drop_first()[j - 1]);
            }
        }
        k1 + 1
    } else {
        assert(s.subrange(0, s.len() as int) =~= s);
        0
    }
}

proof fn lemma_trim_end_shape(s: Seq<char>) -> (m: int)
    ensures
        0 <= m <= s.len(),
        trim_end(s) == s.subrange(0, m),
        forall|j: int| m <= j < s.len() ==> is_white_space(#[trigger] s[j]),
        m > 0 ==> !is_white_space(s[m - 1]),
    decreases s.len(),
{
    if s.len() > 0 && is_white_space(s.last()) {
        let m1 = lemma_trim_end_shape(s.drop_last());
        assert(s.drop_last().subrange(0, m1) =~= s.subrange(0, m1));
        assert forall|j: int| m1 <= j < s.len() implies is_white_space(#[trigger] s[j]) by {
            if j < s.len() - 1 {
                assert(s[j] == s.drop_last()[j]);
            }
        }
        m1
    } else {
        assert(s.subrange(0, s.len() as int) =~= s);
        s.len() as int
    }
}

/// Cleaned text is empty exactly when the received text is white space
/// only (carriage returns and line feeds among it): such a read is never
/// reported.
pub proof fn lemma_cleaned_empty_iff_white(s: Seq<char>)
    ensures
        cleaned(s).len() == 0 <==> forall|i: int| 0 <= i < s.len() ==> is_white_space(#[trigger] s[i]),
{
    let k = lemma_trim_start_shape(s);
    let t = trim_start(s);
    let m = lemma_trim_end_shape(t);
    let u = trim_end(t);
    if forall|i: int| 0 <= i < s.len() ==> is_white_space(#[trigger] s[i]) {
        if k < s.len() {
            assert(is_white_space(s[k]));
        }
        assert(t.len() == 0);
        assert(u.len() == 0);
        reveal(Seq::filter);
        assert(cleaned(s).len() == 0);
    } else {
        let i = choose|i: int| 0 <= i < s.len() && !is_white_space(#[trigger] s[i]);
        assert(k <= i);
        assert(t.len() > 0);
        assert(t[0] == s[k]);
        if m == 0 {
            assert(is_white_space(t[0]));
        }
        assert(u[0] == t[0]);
        assert(!is_line_break(u[0]));
        u.lemma_filter_contains(|c: char| !is_line_break(c), 0);
        assert(cleaned(s).contains(u[0]));
    }
}

/// A poll is reported only with text that is not empty.
pub proof fn lemma_report_not_empty(
    policy: TimeoutPolicy,
    outcome: ReadOutcome,
    buf: Seq<u8>,
    a: ReadAction,
)
    requires
        read_action_spec(policy, outcome, buf, a),
    ensures
        a matches ReadAction::Report { count, text } ==> text@.len() > 0 && count > 0,
{
}

} // verus!
