use vstd::prelude::*;

use crate::config::CommitMessageArguments;
use crate::template::{
    digit_value, has_no_placeholder, is_index_digit, no_template, render_from, resolve_spec,
    ResolveError,
};

verus! {

/// Text without placeholders renders, from any position, to itself.
proof fn lemma_plain_text_renders_to_itself(
    s: Seq<char>,
    i: int,
    args: Seq<Seq<char>>,
    rules: Seq<CommitMessageArguments>,
)
    requires
        has_no_placeholder(s),
        0 <= i <= s.len(),
    ensures
        render_from(s, i, args, rules) == Ok::<Seq<char>, ResolveError>(s.subrange(i, s.len() as int)),
    decreases s.len() - i,
{
    if i < s.len() {
        lemma_plain_text_renders_to_itself(s, i + 1, args, rules);
        assert(seq![s[i]] + s.subrange(i + 1, s.len() as int) =~= s.subrange(i, s.len() as int));
    } else {
        assert(s.subrange(i, s.len() as int) =~= Seq::<char>::empty());
    }
}

/// Resolving is idempotent: a resolved message that holds no placeholder
/// (and is not the text that means "no template") resolves again to itself.
pub proof fn lemma_resolve_idempotent(
    template: Seq<char>,
    args: Seq<Seq<char>>,
    rules: Seq<CommitMessageArguments>,
)
    requires
        resolve_spec(template, args, rules) is Ok,
        has_no_placeholder(resolve_spec(template, args, rules)->Ok_0),
        resolve_spec(template, args, rules)->Ok_0 != no_template(),
    ensures
        resolve_spec(resolve_spec(template, args, rules)->Ok_0, args, rules) == resolve_spec(
            template,
            args,
            rules,
        ),
{
    let s = resolve_spec(template, args, rules)->Ok_0;
    lemma_plain_text_renders_to_itself(s, 0, args, rules);
    assert(s.subrange(0, s.len() as int) =~= s);
}

/// A rest reference `$N+` with `N` the number of arguments resolves to the
/// last argument alone.
pub proof fn lemma_rest_at_last_index(
    d: char,
    args: Seq<Seq<char>>,
    rules: Seq<CommitMessageArguments>,
)
    requires
        is_index_digit(d),
        digit_value(d) == args.len(),
    ensures
        resolve_spec(seq!['$', d, '+'], args, rules) == Ok::<Seq<char>, ResolveError>(args.last()),
{
    let t = seq!['$', d, '+'];
    reveal_strlit("$RAW_COMMIT_MSG");
    assert(t.len() != no_template().len());
    let n = digit_value(d);
    assert(args.subrange(n - 1, args.len() as int) =~= seq![args.last()]);
    assert(render_from(t, 3, args, rules) == Ok::<Seq<char>, ResolveError>(Seq::empty()));
    assert(args.last() + Seq::<char>::empty() =~= args.last());
}

/// A rest reference `$N+` with `N` one past the number of arguments fails
/// with `MissingArgument(N)`.
pub proof fn lemma_rest_past_end(d: char, args: Seq<Seq<char>>, rules: Seq<CommitMessageArguments>)
    requires
        is_index_digit(d),
        digit_value(d) == args.len() + 1,
    ensures
        resolve_spec(seq!['$', d, '+'], args, rules) == Err::<Seq<char>, ResolveError>(
            ResolveError::MissingArgument(digit_value(d) as usize),
        ),
{
    let t = seq!['$', d, '+'];
    reveal_strlit("$RAW_COMMIT_MSG");
    assert(t.len() != no_template().len());
}

/// The text that means "no template" fails with `MissingTemplate`, whatever
/// the arguments and rules.
pub proof fn lemma_no_template_fails(args: Seq<Seq<char>>, rules: Seq<CommitMessageArguments>)
    ensures
        resolve_spec(no_template(), args, rules) == Err::<Seq<char>, ResolveError>(
            ResolveError::MissingTemplate,
        ),
{
}

} // verus!
