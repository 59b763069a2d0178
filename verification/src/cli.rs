//! The launch interface, complete within argv: `lsp-det -- <upstream command> [args...]`.
//! There are no flags; everything after `--` belongs to the upstream.

use vstd::prelude::*;

use crate::text::str_eq;

verus! {

/// The upstream command and its arguments.
#[derive(Debug, PartialEq, Eq)]
pub struct Args {
    pub command: String,
    pub command_args: Vec<String>,
}

/// The message for a missing upstream command.
pub open spec fn missing_command_text() -> Seq<char> {
    "missing upstream command after `--`"@
}

/// A text as Rust's `Debug` prints a `str`: quoted, with its special characters escaped.
pub uninterp spec fn debug_text(s: Seq<char>) -> Seq<char>;

/// The message for an argument in place of `--`: `unknown flag: ` and the argument as Rust's
/// `Debug` prints it.
pub open spec fn unknown_flag_text(flag: Seq<char>) -> Seq<char> {
    "unknown flag: "@ + debug_text(flag)
}

/// A text as `Debug` prints it (`format!("{:?}", s)`).
#[verifier::external_body]
fn debug_quoted(s: &str) -> (r: String)
    ensures
        r@ == debug_text(s@),
{
    format!("{s:?}")
}

/// The message for an argument in place of `--`.
fn unknown_flag_message(flag: &str) -> (r: String)
    ensures
        r@ == unknown_flag_text(flag@),
{
    let mut m = String::from_str("unknown flag: ");
    m.append(debug_quoted(flag).as_str());
    m
}

/// Reads `-- <command> [args...]`.
pub fn parse_args(argv: &[String]) -> (r: Result<Args, String>)
    ensures
        argv@.len() == 0 ==> (r matches Err(m) && m@ == missing_command_text()),
        argv@.len() > 0 && argv@[0]@ != "--"@ ==> (r matches Err(m) && m@ == unknown_flag_text(argv@[0]@)),
        argv@.len() == 1 && argv@[0]@ == "--"@ ==> (r matches Err(m) && m@ == missing_command_text()),
        argv@.len() > 1 && argv@[0]@ == "--"@ ==> (r matches Ok(a) && a.command == argv@[1]
            && a.command_args@ == argv@.skip(2)),
{
    proof {
        reveal_strlit("missing upstream command after `--`");
    }
    if argv.len() == 0 {
        return Err("missing upstream command after `--`".to_owned());
    }
    if !str_eq(argv[0].as_str(), "--") {
        return Err(unknown_flag_message(argv[0].as_str()));
    }
    if argv.len() == 1 {
        return Err("missing upstream command after `--`".to_owned());
    }
    let command = argv[1].clone();
    let mut command_args: Vec<String> = Vec::new();
    let mut i: usize = 2;
    while i < argv.len()
        invariant
            2 <= i <= argv@.len(),
            command_args@ == argv@.subrange(2, i as int),
        decreases argv@.len() - i,
    {
        command_args.push(argv[i].clone());
        assert(argv@.subrange(2, i + 1) =~= argv@.subrange(2, i as int).push(argv@[i as int]));
        i = i + 1;
    }
    assert(argv@.subrange(2, argv@.len() as int) =~= argv@.skip(2));
    Ok(Args { command, command_args })
}

} // verus!
