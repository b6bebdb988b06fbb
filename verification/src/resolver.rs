//! Address resolution: turning the configured resolver command into a
//! program invocation, and its output into a network address.
//!
//! The command text is split by shell-word rules (no shell is invoked);
//! running the program is the caller's business, and the bytes it printed
//! come back here to be decoded, trimmed and read as an address literal.

use vstd::prelude::*;

use crate::addr::{ip_of, IpAddress};

verus! {

/// Why address resolution failed.  Any of these aborts the whole cycle.
#[derive(Clone, Copy, Debug, PartialEq, Eq, Structural)]
pub enum ResolveError {
    /// The command text could not be split into shell words.
    BadCommand,
    /// Splitting the command text yielded zero words.
    EmptyCommand,
    /// The resolver program could not be executed.
    SpawnFailed,
    /// The resolver's standard output was not valid text.
    InvalidOutput,
    /// The trimmed output was not an IPv4 or IPv6 literal.
    UnparsableAddress,
}

/// The program and arguments that a resolver command names.
#[derive(Debug)]
pub struct ResolverPlan {
    pub program: String,
    pub args: Vec<String>,
}

/// The shell words that `s` splits into, or nothing when its quoting is
/// erroneous.
pub uninterp spec fn shell_words(s: Seq<char>) -> Option<Seq<Seq<char>>>;

/// Relies on shlex::split: POSIX-style shell-word splitting of the text,
/// a function of the text alone; `None` exactly on erroneous input.
#[verifier::external_body]
fn split_command(cmd: &str) -> (r: Option<Vec<String>>)
    ensures
        (r is Some) == (shell_words(cmd@) is Some),
        r matches Some(ws) ==> shell_words(cmd@) == Some(ws.deep_view()),
{
    shlex::split(cmd)
}

/// What planning an invocation from the command `cmd` must yield.
pub open spec fn plan_of(cmd: Seq<char>) -> Result<(Seq<char>, Seq<Seq<char>>), ResolveError> {
    match shell_words(cmd) {
        None => Err(ResolveError::BadCommand),
        Some(ws) => if ws.len() == 0 {
            Err(ResolveError::EmptyCommand)
        } else {
            Ok((ws[0], ws.drop_first()))
        },
    }
}

/// Splits the resolver command into the program to run and its arguments.
///
/// Fails with `BadCommand` when the text cannot be split, and with
/// `EmptyCommand` when it holds no words.
pub fn plan_resolver(cmd: &str) -> (r: Result<ResolverPlan, ResolveError>)
    ensures
        match r {
            Ok(plan) => plan_of(cmd@) == Ok::<_, ResolveError>(
                (plan.program@, plan.args.deep_view()),
            ),
            Err(e) => plan_of(cmd@) == Err::<(Seq<char>, Seq<Seq<char>>), _>(e),
        },
{
    match split_command(cmd) {
        None => Err(ResolveError::BadCommand),
        Some(mut ws) => {
            if ws.len() == 0 {
                Err(ResolveError::EmptyCommand)
            } else {
                let program = ws.remove(0);
                proof {
                    assert(ws.deep_view() =~~= shell_words(cmd@).unwrap().drop_first());
                }
                Ok(ResolverPlan { program, args: ws })
            }
        },
    }
}

/// Is `c` a white-space character, as text trimming understands it?
pub open spec fn is_space(c: char) -> bool {
    let u = c as u32;
    ||| (9 <= u && u <= 13)
    ||| u == 32
    ||| u == 0x85
    ||| u == 0xA0
    ||| u == 0x1680
    ||| (0x2000 <= u && u <= 0x200A)
    ||| u == 0x2028
    ||| u == 0x2029
    ||| u == 0x202F
    ||| u == 0x205F
    ||| u == 0x3000
}

/// `s` without its leading white space.
pub open spec fn ltrim(s: Seq<char>) -> Seq<char>
    decreases s.len(),
{
    if s.len() > 0 && is_space(s[0]) {
        ltrim(s.drop_first())
    } else {
        s
    }
}

/// `s` without its trailing white space.
pub open spec fn rtrim(s: Seq<char>) -> Seq<char>
    decreases s.len(),
{
    if s.len() > 0 && is_space(s.last()) {
        rtrim(s.drop_last())
    } else {
        s
    }
}

/// `s` without leading and trailing white space.
pub open spec fn trim_text(s: Seq<char>) -> Seq<char> {
    rtrim(ltrim(s))
}

fn is_space_char(c: char) -> (r: bool)
    ensures
        r == is_space(c),
{
    let u = c as u32;
    (9 <= u && u <= 13) || u == 32 || u == 0x85 || u == 0xA0 || u == 0x1680 || (0x2000 <= u
        && u <= 0x200A) || u == 0x2028 || u == 0x2029 || u == 0x202F || u == 0x205F
        || u == 0x3000
}

/// `v` without leading and trailing white space.
fn trim_chars(v: &Vec<char>) -> (r: Vec<char>)
    ensures
        r@ == trim_text(v@),
{
    let n = v.len();
    let mut lo: usize = 0;
    proof {
        assert(v@.skip(0) =~= v@);
    }
    while lo < n && is_space_char(v[lo])
        invariant
            n == v@.len(),
            lo <= n,
            ltrim(v@) == ltrim(v@.skip(lo as int)),
        decreases n - lo,
    {
        proof {
            assert(v@.skip(lo as int)[0] == v@[lo as int]);
            assert(v@.skip(lo as int).drop_first() =~= v@.skip(lo as int + 1));
        }
        lo = lo + 1;
    }
    proof {
        assert(ltrim(v@) == v@.skip(lo as int));
    }
    let mut hi: usize = n;
    proof {
        assert(v@.subrange(lo as int, hi as int) =~= v@.skip(lo as int));
    }
    while hi > lo && is_space_char(v[hi - 1])
        invariant
            lo <= hi <= n == v@.len(),
            rtrim(v@.skip(lo as int)) == rtrim(v@.subrange(lo as int, hi as int)),
        decreases hi,
    {
        proof {
            let cur = v@.subrange(lo as int, hi as int);
            assert(cur.last() == v@[hi - 1]);
            assert(cur.drop_last() =~= v@.subrange(lo as int, hi as int - 1));
        }
        hi = hi - 1;
    }
    proof {
        assert(rtrim(v@.subrange(lo as int, hi as int)) == v@.subrange(lo as int, hi as int));
    }
    let mut r: Vec<char> = Vec::new();
    let mut i: usize = lo;
    while i < hi
        invariant
            lo <= i <= hi <= v@.len(),
            r@ =~= v@.subrange(lo as int, i as int),
        decreases hi - i,
    {
        r.push(v[i]);
        proof {
            assert(r@ =~= v@.subrange(lo as int, i as int + 1));
        }
        i = i + 1;
    }
    proof {
        assert(r@ =~= v@.subrange(lo as int, hi as int));
    }
    r
}

/// Relies on std's String::from_utf8: succeeds exactly on valid UTF-8
/// input, and decodes it.
#[verifier::external_body]
fn decode_text(out: Vec<u8>) -> (r: Option<String>)
    ensures
        (r is Some) == vstd::utf8::valid_utf8(out@),
        r matches Some(s) ==> s@ == vstd::utf8::decode_utf8(out@),
{
    String::from_utf8(out).ok()
}

/// The address that resolver output `out` denotes, or the error that
/// reading it must raise.
pub open spec fn output_ip(out: Seq<u8>) -> Result<IpAddress, ResolveError> {
    if !vstd::utf8::valid_utf8(out) {
        Err(ResolveError::InvalidOutput)
    } else {
        match ip_of(trim_text(vstd::utf8::decode_utf8(out))) {
            Some(a) => Ok(a),
            None => Err(ResolveError::UnparsableAddress),
        }
    }
}

/// Reads the resolver's standard output: decodes it as text, trims white
/// space, and parses the remainder as an IPv4 or IPv6 literal.
pub fn parse_output(out: Vec<u8>) -> (r: Result<IpAddress, ResolveError>)
    ensures
        r == output_ip(out@),
{
    let ghost bytes = out@;
    match decode_text(out) {
        None => Err(ResolveError::InvalidOutput),
        Some(text) => {
            let chars = crate::addr::str_chars(text.as_str());
            let trimmed = trim_chars(&chars);
            match crate::addr::parse_ip_chars(&trimmed) {
                Some(a) => Ok(a),
                None => Err(ResolveError::UnparsableAddress),
            }
        },
    }
}

/// What running the planned resolver program came to: the program could
/// not be executed at all, or it ran and printed these bytes.
#[derive(Debug)]
pub enum CommandOutcome {
    SpawnFailed,
    Output(Vec<u8>),
}

/// Turns the outcome of running the resolver program into the resolved
/// address, or into the error that the cycle must abort with.
pub fn resolve_outcome(outcome: CommandOutcome) -> (r: Result<IpAddress, ResolveError>)
    ensures
        match outcome {
            CommandOutcome::SpawnFailed => r == Err::<IpAddress, _>(ResolveError::SpawnFailed),
            CommandOutcome::Output(bytes) => r == output_ip(bytes@),
        },
{
    match outcome {
        CommandOutcome::SpawnFailed => Err(ResolveError::SpawnFailed),
        CommandOutcome::Output(bytes) => parse_output(bytes),
    }
}

} // verus!
