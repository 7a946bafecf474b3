//! Commands typed at the debugger prompt, and the breakpoint location syntax.
use vstd::prelude::*;
use crate::text::str_eq;

verus! {

/// A command of the debugger's prompt.
#[derive(Debug, Clone, PartialEq, Eq)]
pub enum DebuggerCommand {
    /// Kill the tracee and leave.
    Quit,
    /// Start the target afresh with these arguments.
    Run(Vec<String>),
    /// Resume the tracee.
    Continue,
    /// Print the call stack.
    Backtrace,
    /// Set a breakpoint at the given location.
    Break(String),
}

/// `t` is one of the aliases `a` and `b`.
pub open spec fn is_word(t: Seq<char>, a: &str, b: &str) -> bool {
    t == a@ || t == b@
}

/// The command that the whitespace-separated `tokens` of a prompt line spell,
/// if they spell one.
pub open spec fn command_of(tokens: Seq<&str>, r: Option<DebuggerCommand>) -> bool {
    if tokens.len() == 0 {
        r is None
    } else {
        let t = tokens[0]@;
        if is_word(t, "q", "quit") {
            r == Some(DebuggerCommand::Quit)
        } else if is_word(t, "r", "run") {
            r is Some && r->Some_0 is Run && {
                let args = r->Some_0->Run_0@;
                &&& args.len() == tokens.len() - 1
                &&& forall|i: int| 0 <= i < args.len() ==> #[trigger] args[i]@ == tokens[i + 1]@
            }
        } else if is_word(t, "c", "cont") {
            r == Some(DebuggerCommand::Continue)
        } else if t == "bt"@ || t == "back"@ || t == "backtrace"@ {
            r == Some(DebuggerCommand::Backtrace)
        } else if is_word(t, "br", "break") {
            if tokens.len() < 2 {
                r is None
            } else {
                r is Some && r->Some_0 is Break && r->Some_0->Break_0@ == tokens[1]@
            }
        } else {
            r is None
        }
    }
}

impl DebuggerCommand {
    /// Parses the tokens of a prompt line. An empty line, an unknown command
    /// and `break` without a location give `None`; arguments past the
    /// location of `break` are ignored.
    pub fn from_tokens(tokens: &Vec<&str>) -> (r: Option<DebuggerCommand>)
        ensures
            command_of(tokens@, r),
    {
        if tokens.len() == 0 {
            return None;
        }
        let t = tokens[0];
        if str_eq(t, "q") || str_eq(t, "quit") {
            Some(DebuggerCommand::Quit)
        } else if str_eq(t, "r") || str_eq(t, "run") {
            let mut args: Vec<String> = Vec::new();
            let mut i: usize = 1;
            while i < tokens.len()
                invariant
                    1 <= i <= tokens@.len(),
                    args@.len() == i - 1,
                    forall|k: int| 0 <= k < args@.len() ==> #[trigger] args@[k]@ == tokens@[k + 1]@,
                decreases tokens@.len() - i,
            {
                args.push(tokens[i].to_owned());
                i = i + 1;
            }
            Some(DebuggerCommand::Run(args))
        } else if str_eq(t, "c") || str_eq(t, "cont") {
            Some(DebuggerCommand::Continue)
        } else if str_eq(t, "bt") || str_eq(t, "back") || str_eq(t, "backtrace") {
            Some(DebuggerCommand::Backtrace)
        } else if str_eq(t, "br") || str_eq(t, "break") {
            if tokens.len() < 2 {
                None
            } else {
                Some(DebuggerCommand::Break(tokens[1].to_owned()))
            }
        } else {
            None
        }
    }
}

/// Where a breakpoint goes, as written at the prompt.
#[derive(Debug, Clone, PartialEq, Eq)]
pub enum BreakTarget {
    /// `*0x<hex>`: a raw address.
    Address(usize),
    /// A decimal number: a line of the primary source file.
    Line(usize),
    /// Anything else: a function name.
    Function(String),
}

/// Value of `c` as a digit in `radix` (10 or 16), if it is one.
pub open spec fn digit_value(c: char, radix: nat) -> Option<nat> {
    if '0' <= c && c <= '9' {
        Some((c as nat - '0' as nat) as nat)
    } else if radix == 16 && 'a' <= c && c <= 'f' {
        Some((c as nat - 'a' as nat + 10) as nat)
    } else if radix == 16 && 'A' <= c && c <= 'F' {
        Some((c as nat - 'A' as nat + 10) as nat)
    } else {
        None
    }
}

/// Every character of `s` is a digit in `radix`.
pub open spec fn all_digits(s: Seq<char>, radix: nat) -> bool {
    forall|i: int| 0 <= i < s.len() ==> #[trigger] digit_value(s[i], radix) is Some
}

/// The number that the digits `s` spell in `radix`.
pub open spec fn digits_value(s: Seq<char>, radix: nat) -> nat
    decreases s.len(),
{
    if s.len() == 0 {
        0
    } else {
        digits_value(s.drop_last(), radix) * radix + digit_value(s.last(), radix).unwrap_or(0)
    }
}

/// `s` is a non-empty run of digits in `radix` whose value fits a `usize`.
pub open spec fn is_number(s: Seq<char>, radix: nat) -> bool {
    s.len() > 0 && all_digits(s, radix) && digits_value(s, radix) <= usize::MAX
}

/// `s` starts with `*0x` or `*0X`.
pub open spec fn has_address_prefix(s: Seq<char>) -> bool {
    s.len() >= 3 && s[0] == '*' && s[1] == '0' && (s[2] == 'x' || s[2] == 'X')
}

fn digit_of(c: char, radix: u32) -> (r: Option<u32>)
    requires
        radix == 10 || radix == 16,
    ensures
        r is Some == digit_value(c, radix as nat) is Some,
        r is Some ==> r->Some_0 as nat == digit_value(c, radix as nat)->Some_0 && r->Some_0 < radix,
{
    if '0' <= c && c <= '9' {
        Some(c as u32 - '0' as u32)
    } else if radix == 16 && 'a' <= c && c <= 'f' {
        Some(c as u32 - 'a' as u32 + 10)
    } else if radix == 16 && 'A' <= c && c <= 'F' {
        Some(c as u32 - 'A' as u32 + 10)
    } else {
        None
    }
}

/// The number that the characters `from..` of `s` spell in `radix`; `None` if
/// that part is empty, holds a non-digit, or its value does not fit a `usize`.
pub fn parse_number(s: &str, from: usize, radix: u32) -> (r: Option<usize>)
    requires
        radix == 10 || radix == 16,
        from <= s@.len(),
    ensures
        r is Some == is_number(s@.subrange(from as int, s@.len() as int), radix as nat),
        r is Some ==> r->Some_0 as nat == digits_value(
            s@.subrange(from as int, s@.len() as int),
            radix as nat,
        ),
{
    let n = s.unicode_len();
    if from >= n {
        return None;
    }
    let ghost full = s@.subrange(from as int, s@.len() as int);
    let mut acc: usize = 0;
    let mut i: usize = from;
    let mut fits = true;
    while i < n
        invariant
            n == s@.len(),
            from <= i <= n,
            full == s@.subrange(from as int, n as int),
            all_digits(s@.subrange(from as int, i as int), radix as nat),
            radix == 10 || radix == 16,
            fits ==> acc as nat == digits_value(s@.subrange(from as int, i as int), radix as nat),
            !fits ==> digits_value(s@.subrange(from as int, i as int), radix as nat) > usize::MAX,
        decreases n - i,
    {
        let c = s.get_char(i);
        let ghost prev = s@.subrange(from as int, i as int);
        let ghost next = s@.subrange(from as int, i + 1);
        assert(next.drop_last() =~= prev);
        assert(next.last() == c);
        match digit_of(c, radix) {
            None => {
                proof {
                    assert(full[i - from] == c);
                    assert(!all_digits(full, radix as nat));
                }
                return None;
            },
            Some(d) => {
                proof {
                    assert forall|k: int| 0 <= k < next.len() implies #[trigger] digit_value(
                        next[k],
                        radix as nat,
                    ) is Some by {
                        if k < prev.len() {
                            assert(next[k] == prev[k]);
                        }
                    }
                }
                if fits {
                    let limit: usize = (usize::MAX - d as usize) / radix as usize;
                    if acc <= limit {
                        proof {
                            assert(acc * radix + d <= usize::MAX) by (nonlinear_arith)
                                requires
                                    acc <= limit,
                                    limit == (usize::MAX - d) / (radix as int),
                                    radix == 10 || radix == 16,
                                    d < radix,
                            ;
                        }
                        acc = acc * radix as usize + d as usize;
                    } else {
                        proof {
                            assert(acc * radix + d > usize::MAX) by (nonlinear_arith)
                                requires
                                    acc > limit,
                                    limit == (usize::MAX - d) / (radix as int),
                                    radix == 10 || radix == 16,
                                    d < radix,
                            ;
                        }
                        fits = false;
                    }
                } else {
                    proof {
                        let v = digits_value(prev, radix as nat);
                        assert(v * radix + d > usize::MAX) by (nonlinear_arith)
                            requires
                                v > usize::MAX,
                                radix == 10 || radix == 16,
                        ;
                    }
                }
            },
        }
        i = i + 1;
    }
    assert(s@.subrange(from as int, n as int) == full);
    if fits {
        Some(acc)
    } else {
        None
    }
}

/// What a breakpoint location written as `s` names.
pub open spec fn target_of(s: Seq<char>, r: Option<BreakTarget>) -> bool {
    if has_address_prefix(s) {
        let digits = s.subrange(3, s.len() as int);
        if is_number(digits, 16) {
            r == Some(BreakTarget::Address(digits_value(digits, 16) as usize))
        } else {
            r is None
        }
    } else if is_number(s, 10) {
        r == Some(BreakTarget::Line(digits_value(s, 10) as usize))
    } else {
        r is Some && r->Some_0 is Function && r->Some_0->Function_0@ == s
    }
}

/// Reads a breakpoint location: `*0x<hex>` (either case of `x`) is a raw
/// address, a decimal number is a source line, anything else a function
/// name. A malformed raw address gives `None`.
pub fn parse_break_target(s: &str) -> (r: Option<BreakTarget>)
    ensures
        target_of(s@, r),
{
    let n = s.unicode_len();
    if n >= 3 && s.get_char(0) == '*' && s.get_char(1) == '0' && (s.get_char(2) == 'x'
        || s.get_char(2) == 'X') {
        match parse_number(s, 3, 16) {
            Some(a) => Some(BreakTarget::Address(a)),
            None => None,
        }
    } else {
        proof {
            assert(s@.subrange(0, s@.len() as int) =~= s@);
        }
        match parse_number(s, 0, 10) {
            Some(l) => Some(BreakTarget::Line(l)),
            None => Some(BreakTarget::Function(s.to_owned())),
        }
    }
}

} // verus!
