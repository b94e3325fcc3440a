use vstd::prelude::*;

use crate::case::{lower_of, lowercase};
use crate::config::{rules_of, Arguments, CommitMessageArguments, GlitterRc};
use crate::template::{case_warnings, resolve_spec, resolve_with_warnings, ResolveError};

verus! {

/// What an action asks to be done.
pub enum Command {
    /// Stage, commit with this message, pull and push; the names of the
    /// unknown case rules met while resolving the message come with it.
    Push(String, Vec<String>),
    /// List these action names.
    Action(Vec<String>),
}

/// A `Command` seen as plain values.
pub enum CommandView {
    Push(Seq<char>, Seq<Seq<char>>),
    Action(Seq<Seq<char>>),
}

/// Why an action could not be carried out.
#[derive(Clone, Copy, Debug, PartialEq, Eq, Structural)]
pub enum CliError {
    /// The commit message could not be resolved.
    Resolve(ResolveError),
    /// The action is not one that is known.
    InvalidAction,
}

impl Command {
    pub open spec fn view(&self) -> CommandView {
        match self {
            Command::Push(m, w) => CommandView::Push(m@, w.deep_view()),
            Command::Action(v) => CommandView::Action(v.deep_view()),
        }
    }
}

/// A dispatch result seen as plain values.
pub open spec fn command_result_view(r: Result<Command, CliError>) -> Result<CommandView, CliError> {
    match r {
        Ok(c) => Ok(c.view()),
        Err(e) => Err(e),
    }
}

/// A pattern's text with its surrounding double quotes taken off; none when
/// it is not quoted.
pub open spec fn unquote(s: Seq<char>) -> Option<Seq<char>> {
    if s.len() >= 2 && s[0] == '"' && s[s.len() - 1] == '"' {
        Some(s.subrange(1, s.len() - 1))
    } else {
        None
    }
}

/// The quoted patterns, unquoted, in order; the others are left out.
pub open spec fn unquoted(items: Seq<Seq<char>>) -> Seq<Seq<char>>
    decreases items.len(),
{
    if items.len() == 0 {
        Seq::empty()
    } else {
        let prev = unquoted(items.drop_last());
        match unquote(items.last()) {
            Some(w) => prev.push(w),
            None => prev,
        }
    }
}

/// The actions that are known.
pub open spec fn action_names() -> Seq<Seq<char>> {
    seq!["push"@, "action"@]
}

/// What the (lower-case) action word `cmd` asks for.
pub open spec fn dispatch_spec(
    cmd: Seq<char>,
    config: GlitterRc,
    args: Arguments,
) -> Result<CommandView, CliError> {
    if cmd == "push"@ {
        match resolve_spec(config.commit_message@, args.arguments.deep_view(), rules_of(config)) {
            Ok(m) => Ok(
                CommandView::Push(
                    m,
                    case_warnings(config.commit_message@, args.arguments.deep_view(), rules_of(config)),
                ),
            ),
            Err(e) => Err(CliError::Resolve(e)),
        }
    } else if cmd == "action"@ {
        Ok(CommandView::Action(action_names()))
    } else {
        Err(CliError::InvalidAction)
    }
}

/// The names among the match patterns: each quoted pattern without its
/// quotes, in order; the wildcard and other unquoted ones are left out.
pub fn action(input: Vec<&str>) -> (r: Vec<String>)
    ensures
        r.deep_view() == unquoted(input.deep_view()),
{
    let ghost items = input.deep_view();
    let mut out: Vec<String> = Vec::new();
    let mut k: usize = 0;
    while k < input.len()
        invariant
            k <= input@.len(),
            items == input.deep_view(),
            out.deep_view() == unquoted(items.subrange(0, k as int)),
        decreases input@.len() - k,
    {
        let s: &str = input[k];
        assert(items[k as int] == s@);
        assert(items.subrange(0, k as int + 1).drop_last() =~= items.subrange(0, k as int));
        let l = s.unicode_len();
        if l >= 2 && s.get_char(0) == '"' && s.get_char(l - 1) == '"' {
            let w = String::from_str(s.substring_char(1, l - 1));
            let ghost before = out.deep_view();
            out.push(w);
            assert(out.deep_view() =~= before.push(w@));
        }
        k = k + 1;
    }
    assert(items.subrange(0, input@.len() as int) =~= items);
    out
}

/// What the already lower-cased action word `cmd` asks for: `push` resolves
/// the commit message, `action` lists the known actions.
pub fn dispatch_action(cmd: &String, config: GlitterRc, args: Arguments) -> (r: Result<
    Command,
    CliError,
>)
    ensures
        command_result_view(r) == dispatch_spec(cmd@, config, args),
{
    if *cmd == String::from_str("push") {
        let empty: Vec<CommitMessageArguments> = Vec::new();
        let rules = match &config.commit_message_arguments {
            Some(v) => v,
            None => &empty,
        };
        assert(rules@ =~= rules_of(config));
        let mut warnings: Vec<String> = Vec::new();
        assert(warnings.deep_view() =~= Seq::<Seq<char>>::empty());
        let resolved = resolve_with_warnings(
            config.commit_message.as_str(),
            &args.arguments,
            rules,
            &mut warnings,
        );
        assert(warnings.deep_view() =~= case_warnings(config.commit_message@, args.arguments.deep_view(), rules_of(config)));
        match resolved {
            Ok(m) => Ok(Command::Push(m, warnings)),
            Err(e) => Err(CliError::Resolve(e)),
        }
    } else if *cmd == String::from_str("action") {
        let patterns: Vec<&str> = vec!["\"push\"", "\"action\"", "_"];
        let ghost pattern_view = patterns.deep_view();
        let names = action(patterns);
        proof {
            reveal_strlit("\"push\"");
            reveal_strlit("\"action\"");
            reveal_strlit("_");
            reveal_strlit("push");
            reveal_strlit("action");
            let items = seq!["\"push\""@, "\"action\""@, "_"@];
            assert(items.drop_last().drop_last().drop_last() =~= Seq::<Seq<char>>::empty());
            assert("\"push\""@.subrange(1, 5) =~= "push"@);
            assert("\"action\""@.subrange(1, 7) =~= "action"@);
            let first = items.drop_last().drop_last();
            assert(first =~= seq!["\"push\""@]);
            assert(unquote(first.last()) == Some("push"@));
            assert(unquoted(first.drop_last()) =~= Seq::<Seq<char>>::empty());
            assert(unquoted(first) =~= seq!["push"@]);
            assert(unquote(items.drop_last().last()) == Some("action"@));
            assert(unquote(items.last()) == None::<Seq<char>>);
            assert(unquoted(items.drop_last()) =~= seq!["push"@, "action"@]);
            assert(unquoted(items) =~= action_names());
            assert(pattern_view =~= items);
        }
        Ok(Command::Action(names))
    } else {
        Err(CliError::InvalidAction)
    }
}

/// What the command-line action asks for; the action word is matched
/// without regard to letter case.
pub fn match_cmds(args: Arguments, config: GlitterRc) -> (r: Result<Command, CliError>)
    ensures
        command_result_view(r) == dispatch_spec(lower_of(args.action@), config, args),
{
    let cmd = lowercase(args.action.as_str());
    dispatch_action(&cmd, config, args)
}

} // verus!
