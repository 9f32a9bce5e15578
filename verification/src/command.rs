//! The textual command surface: `/add <phrase>`, `/remove <phrase>`,
//! `/print`, `/help`. A command is one message text: a `'/'`, the
//! command name (matched case-insensitively), an optional `@handle`
//! suffix, and the argument text. `print` and `help` take no argument;
//! text that fits no command parses to nothing and is ignored by the
//! caller.
use vstd::prelude::*;

use crate::text::{is_space, is_space_char, lower, region_eq_lower, trim, trimmed};

verus! {

/// One parsed operator instruction; ephemeral, living only for the
/// duration of one dispatch.
pub enum AdminCommand {
    /// Add a new blocked phrase.
    Add(String),
    /// Remove an existing blocked phrase.
    Remove(String),
    /// Print the current blocked phrases.
    Print,
    /// Show the command reference.
    Help,
}

/// The abstract value of a parsed command.
pub enum SpecCommand {
    Add(Seq<char>),
    Remove(Seq<char>),
    Print,
    Help,
}

impl View for AdminCommand {
    type V = SpecCommand;

    open spec fn view(&self) -> SpecCommand {
        match self {
            AdminCommand::Add(s) => SpecCommand::Add(s@),
            AdminCommand::Remove(s) => SpecCommand::Remove(s@),
            AdminCommand::Print => SpecCommand::Print,
            AdminCommand::Help => SpecCommand::Help,
        }
    }
}

/// The position where the command token ends: the first whitespace or
/// `'@'` at or after `i`, or the end of the text.
pub open spec fn token_end(s: Seq<char>, i: int) -> int
    decreases s.len() - i,
{
    if i < 0 || i >= s.len() {
        s.len() as int
    } else if is_space_char(s[i]) || s[i] == '@' {
        i
    } else {
        token_end(s, i + 1)
    }
}

/// The first whitespace at or after `i`, or the end of the text.
pub open spec fn space_end(s: Seq<char>, i: int) -> int
    decreases s.len() - i,
{
    if i < 0 || i >= s.len() {
        s.len() as int
    } else if is_space_char(s[i]) {
        i
    } else {
        space_end(s, i + 1)
    }
}

proof fn lemma_token_end_at(s: Seq<char>, i: int, e: int)
    requires
        0 <= i <= e <= s.len(),
        forall|k: int| i <= k < e ==> !(is_space_char(#[trigger] s[k]) || s[k] == '@'),
        e == s.len() || is_space_char(s[e]) || s[e] == '@',
    ensures
        token_end(s, i) == e,
    decreases e - i,
{
    if i < e {
        lemma_token_end_at(s, i + 1, e);
    }
}

proof fn lemma_space_end_at(s: Seq<char>, i: int, e: int)
    requires
        0 <= i <= e <= s.len(),
        forall|k: int| i <= k < e ==> !is_space_char(#[trigger] s[k]),
        e == s.len() || is_space_char(s[e]),
    ensures
        space_end(s, i) == e,
    decreases e - i,
{
    if i < e {
        lemma_space_end_at(s, i + 1, e);
    }
}

/// The command grammar. The argument keeps whatever surrounds it; the
/// dispatcher trims where the command calls for it.
pub open spec fn parse_spec(t: Seq<char>) -> Option<SpecCommand> {
    if t.len() == 0 || t[0] != '/' {
        None
    } else {
        let e = token_end(t, 1);
        let tok = lower(t.subrange(1, e));
        let rest = if e < t.len() && t[e] == '@' {
            space_end(t, e)
        } else {
            e
        };
        let arg = t.subrange(rest, t.len() as int);
        if tok == "add"@ {
            Some(SpecCommand::Add(arg))
        } else if tok == "remove"@ {
            Some(SpecCommand::Remove(arg))
        } else if tok == "print"@ {
            if trimmed(arg).len() == 0 {
                Some(SpecCommand::Print)
            } else {
                None
            }
        } else if tok == "help"@ {
            if trimmed(arg).len() == 0 {
                Some(SpecCommand::Help)
            } else {
                None
            }
        } else {
            None
        }
    }
}

/// The four command names are already lower-case.
proof fn lemma_keywords_lower()
    ensures
        lower("add"@) == "add"@,
        lower("remove"@) == "remove"@,
        lower("print"@) == "print"@,
        lower("help"@) == "help"@,
{
    reveal_strlit("add");
    reveal_strlit("remove");
    reveal_strlit("print");
    reveal_strlit("help");
    assert(lower("add"@) =~= "add"@);
    assert(lower("remove"@) =~= "remove"@);
    assert(lower("print"@) =~= "print"@);
    assert(lower("help"@) =~= "help"@);
}

/// `true` when the character at `k` ends a command token.
fn token_boundary_at(text: &str, k: usize) -> (r: bool)
    requires
        k < text@.len(),
    ensures
        r == (is_space_char(text@[k as int]) || text@[k as int] == '@'),
{
    let c = text.get_char(k);
    is_space(c) || c == '@'
}

/// Parse one message text as an operator command.
pub fn parse_command(text: &str) -> (r: Option<AdminCommand>)
    ensures
        r is Some <==> parse_spec(text@) is Some,
        r matches Some(c) ==> parse_spec(text@) == Some(c@),
{
    proof {
        lemma_keywords_lower();
    }
    let n = text.unicode_len();
    if n == 0 || text.get_char(0) != '/' {
        return None;
    }
    let mut e: usize = 1;
    while e < n && !token_boundary_at(text, e)
        invariant
            1 <= e <= n,
            n == text@.len(),
            forall|k: int|
                1 <= k < e ==> !(is_space_char(#[trigger] text@[k]) || text@[k] == '@'),
        decreases n - e,
    {
        e = e + 1;
    }
    proof {
        lemma_token_end_at(text@, 1, e as int);
    }
    let mut rest: usize = e;
    if e < n && text.get_char(e) == '@' {
        while rest < n && !is_space(text.get_char(rest))
            invariant
                e <= rest <= n,
                n == text@.len(),
                forall|k: int| e <= k < rest ==> !is_space_char(#[trigger] text@[k]),
            decreases n - rest,
        {
            rest = rest + 1;
        }
        proof {
            lemma_space_end_at(text@, e as int, rest as int);
        }
    }
    let ghost arg_view = text@.subrange(rest as int, text@.len() as int);
    let arg_str = text.substring_char(rest, n);
    if region_eq_lower(text, 1, e, "add") {
        return Some(AdminCommand::Add(arg_str.to_owned()));
    }
    if region_eq_lower(text, 1, e, "remove") {
        return Some(AdminCommand::Remove(arg_str.to_owned()));
    }
    if region_eq_lower(text, 1, e, "print") {
        let targ = trim(arg_str);
        if targ.as_str().is_empty() {
            return Some(AdminCommand::Print);
        } else {
            return None;
        }
    }
    if region_eq_lower(text, 1, e, "help") {
        let targ = trim(arg_str);
        if targ.as_str().is_empty() {
            return Some(AdminCommand::Help);
        } else {
            return None;
        }
    }
    None
}

} // verus!
