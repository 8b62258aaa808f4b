//! Command-line planning: `<command> <port> <baudrate> [<data>]` turned into
//! a request, checked before any device is touched.

use vstd::prelude::*;
use vstd::string::StrSliceExecFns;
use vstd::string::StringExecFns;

verus! {

/// Why the command line cannot be carried out.
#[derive(PartialEq, Eq, Structural, Debug, Clone, Copy)]
pub enum ArgError {
    /// Fewer than three arguments after the program name.
    Usage,
    /// The baud rate is not a base-10 `u32`, or is zero.
    InvalidBaudRate,
    /// The command is neither `read` nor `write`.
    InvalidCommand,
    /// `write` was given no data to send.
    MissingData,
    /// The named port is not among the ports the system lists.
    PortNotFound,
    /// `auto` was asked for, and the system lists no port.
    NoPorts,
}

/// What to do on the port.
pub enum Command {
    Read,
    Write(String),
}

/// Which port to open.
pub enum PortChoice {
    /// The first port that the system lists.
    Auto,
    Named(String),
}

/// A command line that was understood.
pub struct Invocation {
    pub command: Command,
    pub port: PortChoice,
    pub baud_rate: u32,
}

/// The mathematical content of a `Command`.
pub enum CommandModel {
    Read,
    Write(Seq<char>),
}

/// The mathematical content of an `Invocation`; `None` for the port is `auto`.
pub struct InvocationModel {
    pub command: CommandModel,
    pub port: Option<Seq<char>>,
    pub baud_rate: u32,
}

impl Command {
    pub open spec fn model(&self) -> CommandModel {
        match self {
            Command::Read => CommandModel::Read,
            Command::Write(d) => CommandModel::Write(d@),
        }
    }
}

impl PortChoice {
    pub open spec fn model(&self) -> Option<Seq<char>> {
        match self {
            PortChoice::Auto => None,
            PortChoice::Named(p) => Some(p@),
        }
    }
}

impl Invocation {
    pub open spec fn model(&self) -> InvocationModel {
        InvocationModel { command: self.command.model(), port: self.port.model(), baud_rate: self.baud_rate }
    }
}

pub open spec fn read_word() -> Seq<char> {
    seq!['r', 'e', 'a', 'd']
}

pub open spec fn write_word() -> Seq<char> {
    seq!['w', 'r', 'i', 't', 'e']
}

pub open spec fn auto_word() -> Seq<char> {
    seq!['a', 'u', 't', 'o']
}

pub open spec fn is_digit(c: char) -> bool {
    0x30 <= (c as u32) <= 0x39
}

pub open spec fn digit_value(c: char) -> nat {
    ((c as u32) - 0x30) as nat
}

/// Value of a string of decimal digits.
pub open spec fn decimal_value(d: Seq<char>) -> nat
    decreases d.len(),
{
    if d.len() == 0 {
        0
    } else {
        decimal_value(d.drop_last()) * 10 + digit_value(d.last())
    }
}

/// The digits of an unsigned number: without one leading `+`.
pub open spec fn unsigned_digits(s: Seq<char>) -> Seq<char> {
    if s.len() > 0 && s[0] == '+' {
        s.drop_first()
    } else {
        s
    }
}

/// `s` read as a base-10 `u32`, as `u32::from_str` reads it.
pub open spec fn parsed_u32(s: Seq<char>) -> Option<u32> {
    let d = unsigned_digits(s);
    if d.len() > 0 && (forall|i: int| 0 <= i < d.len() ==> is_digit(#[trigger] d[i]))
        && decimal_value(d) <= u32::MAX {
        Some(decimal_value(d) as u32)
    } else {
        None
    }
}

/// The plan for the command line `args`, program name first.
pub open spec fn planned(args: Seq<Seq<char>>) -> Result<InvocationModel, ArgError> {
    if args.len() < 4 {
        Err(ArgError::Usage)
    } else if parsed_u32(args[3]) is None || parsed_u32(args[3])->0 == 0 {
        Err(ArgError::InvalidBaudRate)
    } else {
        let port = if args[2] == auto_word() {
            None
        } else {
            Some(args[2])
        };
        let baud_rate = parsed_u32(args[3])->0;
        if args[1] == read_word() {
            Ok(InvocationModel { command: CommandModel::Read, port, baud_rate })
        } else if args[1] == write_word() {
            if args.len() > 4 {
                Ok(InvocationModel { command: CommandModel::Write(args[4]), port, baud_rate })
            } else {
                Err(ArgError::MissingData)
            }
        } else {
            Err(ArgError::InvalidCommand)
        }
    }
}

pub open spec fn args_view(args: Seq<String>) -> Seq<Seq<char>> {
    args.map_values(|s: String| s@)
}

/// Whether `a` and `b` hold the same characters.
pub fn same_text(a: &str, b: &str) -> (r: bool)
    ensures
        r == (a@ == b@),
{
    let n = a.unicode_len();
    if n != b.unicode_len() {
        return false;
    }
    let mut i: usize = 0;
    while i < n
        invariant
            i <= n,
            n == a@.len(),
            n == b@.len(),
            forall|j: int| 0 <= j < i ==> a@[j] == b@[j],
        decreases n - i,
    {
        if a.get_char(i) != b.get_char(i) {
            return false;
        }
        i = i + 1;
    }
    assert(a@ =~= b@);
    true
}

proof fn lemma_saturated_step(v: nat, acc: nat, d: nat)
    requires
        d < 10,
        acc == if v < 0x1_0000_0000 {
            v
        } else {
            0x1_0000_0000
        },
    ensures
        (if acc * 10 + d < 0x1_0000_0000 {
            acc * 10 + d
        } else {
            0x1_0000_0000
        }) == (if v * 10 + d < 0x1_0000_0000 {
            v * 10 + d
        } else {
            0x1_0000_0000
        }),
{
    if v >= 0x1_0000_0000 {
        assert(v * 10 + d >= 0x1_0000_0000) by (nonlinear_arith)
            requires
                v >= 0x1_0000_0000,
        ;
    }
}

/// Reads `s` as a base-10 `u32`: an optional `+`, then one digit or more,
/// no larger than `u32::MAX`.
pub fn parse_baud_rate(s: &str) -> (r: Option<u32>)
    ensures
        r == parsed_u32(s@),
{
    let n = s.unicode_len();
    let first: usize = if n > 0 && s.get_char(0) == '+' {
        1
    } else {
        0
    };
    let ghost d = unsigned_digits(s@);
    assert(d =~= s@.subrange(first as int, n as int));
    if first == n {
        return None;
    }
    let mut acc: u64 = 0;
    let mut i: usize = first;
    assert(d.subrange(0, 0) =~= Seq::<char>::empty());
    while i < n
        invariant
            first <= i <= n,
            n == s@.len(),
            d == s@.subrange(first as int, n as int),
            d == unsigned_digits(s@),
            forall|j: int| 0 <= j < i - first ==> is_digit(#[trigger] d[j]),
            acc == if decimal_value(d.subrange(0, i - first)) < 0x1_0000_0000 {
                decimal_value(d.subrange(0, i - first))
            } else {
                0x1_0000_0000
            },
        decreases n - i,
    {
        let c = s.get_char(i);
        let v = c as u32;
        assert(d[i - first] == c);
        if v < 0x30 || v > 0x39 {
            assert(!is_digit(d[i - first]));
            return None;
        }
        let ghost pre = d.subrange(0, i - first + 1);
        assert(pre.drop_last() =~= d.subrange(0, i - first));
        assert(pre.last() == c);
        proof {
            lemma_saturated_step(decimal_value(d.subrange(0, i - first)), acc as nat, digit_value(c));
        }
        let next = acc * 10 + (v - 0x30) as u64;
        acc = if next < 0x1_0000_0000 {
            next
        } else {
            0x1_0000_0000
        };
        i = i + 1;
    }
    assert(d.subrange(0, n - first) =~= d);
    if acc < 0x1_0000_0000 {
        Some(acc as u32)
    } else {
        None
    }
}

/// Turns the command line `args` (program name first) into a request.
/// Nothing here touches a device: a bad baud rate or command is refused
/// before any port is listed or opened.
pub fn plan(args: &Vec<String>) -> (r: Result<Invocation, ArgError>)
    ensures
        match planned(args_view(args@)) {
            Ok(m) => r matches Ok(inv) && inv.model() == m,
            Err(e) => r == Err::<Invocation, ArgError>(e),
        },
{
    let ghost view = args_view(args@);
    if args.len() < 4 {
        return Err(ArgError::Usage);
    }
    assert(view[3] == args@[3]@);
    let baud_rate = match parse_baud_rate(args[3].as_str()) {
        Some(b) => b,
        None => {
            return Err(ArgError::InvalidBaudRate);
        },
    };
    if baud_rate == 0 {
        return Err(ArgError::InvalidBaudRate);
    }
    proof {
        reveal_strlit("auto");
        reveal_strlit("read");
        reveal_strlit("write");
    }
    assert("auto"@ =~= auto_word());
    assert("read"@ =~= read_word());
    assert("write"@ =~= write_word());
    assert(view[1] == args@[1]@);
    assert(view[2] == args@[2]@);
    let port = if same_text(args[2].as_str(), "auto") {
        PortChoice::Auto
    } else {
        PortChoice::Named(args[2].clone())
    };
    let command = if same_text(args[1].as_str(), "read") {
        Command::Read
    } else if same_text(args[1].as_str(), "write") {
        if args.len() > 4 {
            assert(view[4] == args@[4]@);
            Command::Write(args[4].clone())
        } else {
            return Err(ArgError::MissingData);
        }
    } else {
        return Err(ArgError::InvalidCommand);
    };
    Ok(Invocation { command, port, baud_rate })
}

/// A baud rate that is not a base-10 `u32`, or that is zero, refuses the
/// command line whatever its command and port, `auto` included.
pub proof fn lemma_bad_baud_rate_refused(args: Seq<Seq<char>>)
    requires
        args.len() >= 4,
        parsed_u32(args[3]) is None || parsed_u32(args[3]) == Some(0u32),
    ensures
        planned(args) == Err::<InvocationModel, ArgError>(ArgError::InvalidBaudRate),
{
}

/// A command word other than `read` or `write` refuses the command line
/// once the baud rate is good.
pub proof fn lemma_unknown_command_refused(args: Seq<Seq<char>>)
    requires
        args.len() >= 4,
        parsed_u32(args[3]) matches Some(b) && b > 0,
        args[1] != read_word(),
        args[1] != write_word(),
    ensures
        planned(args) == Err::<InvocationModel, ArgError>(ArgError::InvalidCommand),
{
}

/// Whether a timeout ends the read command, from its word: `continue` or
/// `fatal`.
pub fn parse_timeout_policy(word: &str) -> (r: Option<crate::reading::TimeoutPolicy>)
    ensures
        word@ == seq!['c', 'o', 'n', 't', 'i', 'n', 'u', 'e'] <==> r matches Some(
            crate::reading::TimeoutPolicy::ContinuePolling,
        ),
        word@ == seq!['f', 'a', 't', 'a', 'l'] <==> r matches Some(
            crate::reading::TimeoutPolicy::TreatAsFatal,
        ),
        r is None <==> (word@ != seq!['c', 'o', 'n', 't', 'i', 'n', 'u', 'e'] && word@ != seq![
            'f',
            'a',
            't',
            'a',
            'l',
        ]),
{
    proof {
        reveal_strlit("continue");
        reveal_strlit("fatal");
    }
    assert("continue"@ =~= seq!['c', 'o', 'n', 't', 'i', 'n', 'u', 'e']);
    assert("fatal"@ =~= seq!['f', 'a', 't', 'a', 'l']);
    if same_text(word, "continue") {
        Some(crate::reading::TimeoutPolicy::ContinuePolling)
    } else if same_text(word, "fatal") {
        Some(crate::reading::TimeoutPolicy::TreatAsFatal)
    } else {
        None
    }
}

} // verus!
