use vstd::prelude::*;

use crate::case::{apply_rules, transform_argument, unknown_case_warning};
use crate::config::{rules_of, Arguments, CommitMessageArguments, GlitterRc};

verus! {

/// Why a template could not be resolved.
#[derive(Clone, Copy, Debug, PartialEq, Eq, Structural)]
pub enum ResolveError {
    /// The template is still the placeholder that stands for "none configured".
    MissingTemplate,
    /// A rest reference `$N+` starts past the last argument; holds `N`.
    MissingArgument(usize),
    /// A single reference `$N` names an argument that was not given; holds `N`.
    TooFewArguments(usize),
}

/// The template text that means no template was configured.
pub open spec fn no_template() -> Seq<char> {
    "$RAW_COMMIT_MSG"@
}

/// A placeholder index: one of the digits 1 to 9.
pub open spec fn is_index_digit(c: char) -> bool {
    '1' <= c && c <= '9'
}

/// The number a digit stands for.
pub open spec fn digit_value(c: char) -> int {
    c as int - '0' as int
}

/// A decimal digit.
pub open spec fn is_decimal_digit(c: char) -> bool {
    '0' <= c && c <= '9'
}

/// A placeholder starts at `i`: a `$` followed by an index digit that no
/// further digit follows (indices have one digit, so `$10` is text).
pub open spec fn placeholder_at(t: Seq<char>, i: int) -> bool {
    &&& 0 <= i
    &&& i + 1 < t.len()
    &&& t[i] == '$'
    &&& is_index_digit(t[i + 1])
    &&& !(i + 2 < t.len() && is_decimal_digit(t[i + 2]))
}

/// The placeholder at `i` is a rest reference: its digit is followed by `+`.
pub open spec fn rest_at(t: Seq<char>, i: int) -> bool {
    placeholder_at(t, i) && i + 2 < t.len() && t[i + 2] == '+'
}

/// At `i` a `$` and an index digit are followed by a further digit: the
/// index is read, but the text is no placeholder (`$1` does not stand
/// inside `$10`).
pub open spec fn overlong_at(t: Seq<char>, i: int) -> bool {
    &&& 0 <= i
    &&& i + 2 < t.len()
    &&& t[i] == '$'
    &&& is_index_digit(t[i + 1])
    &&& is_decimal_digit(t[i + 2])
}

/// Text holding no `$` followed by an index digit.
pub open spec fn has_no_placeholder(t: Seq<char>) -> bool {
    forall|i: int| 0 <= i && i + 1 < t.len() ==> !(t[i] == '$' && is_index_digit(#[trigger] t[i + 1]))
}

/// Words joined by single spaces.
pub open spec fn join_words(words: Seq<Seq<char>>) -> Seq<char>
    decreases words.len(),
{
    if words.len() == 0 {
        Seq::empty()
    } else if words.len() == 1 {
        words[0]
    } else {
        join_words(words.drop_last()) + seq![' '] + words.last()
    }
}

/// `p` put in front of a successful result; an error passes unchanged.
pub open spec fn prefixed(p: Seq<char>, r: Result<Seq<char>, ResolveError>) -> Result<
    Seq<char>,
    ResolveError,
> {
    match r {
        Ok(s) => Ok(p + s),
        Err(e) => Err(e),
    }
}

/// Putting `a` and then `b` in front is putting `a + b` in front.
proof fn lemma_prefixed_twice(a: Seq<char>, b: Seq<char>, r: Result<Seq<char>, ResolveError>)
    ensures
        prefixed(a, prefixed(b, r)) == prefixed(a + b, r),
{
    if let Ok(s) = r {
        assert(a + (b + s) =~= (a + b) + s);
    }
}

/// What the template from position `i` on resolves to. Placeholders are
/// read left to right; the first one that names a missing argument decides
/// the error. A `$` that is not followed by a digit from 1 to 9 is text; so
/// is one whose index digit another digit follows, once that index is
/// found to be in range.
pub open spec fn render_from(
    t: Seq<char>,
    i: int,
    args: Seq<Seq<char>>,
    rules: Seq<CommitMessageArguments>,
) -> Result<Seq<char>, ResolveError>
    decreases t.len() - i,
{
    if i < 0 || i >= t.len() {
        Ok(Seq::empty())
    } else if rest_at(t, i) {
        let n = digit_value(t[i + 1]);
        if n > args.len() {
            Err(ResolveError::MissingArgument(n as usize))
        } else {
            prefixed(join_words(args.subrange(n - 1, args.len() as int)), render_from(t, i + 3, args, rules))
        }
    } else if placeholder_at(t, i) {
        let n = digit_value(t[i + 1]);
        if n > args.len() {
            Err(ResolveError::TooFewArguments(n as usize))
        } else {
            prefixed(apply_rules(rules, n, args[n - 1]), render_from(t, i + 2, args, rules))
        }
    } else if overlong_at(t, i) && digit_value(t[i + 1]) > args.len() {
        Err(ResolveError::TooFewArguments(digit_value(t[i + 1]) as usize))
    } else {
        prefixed(seq![t[i]], render_from(t, i + 1, args, rules))
    }
}

/// The names of unknown case rules met while resolving from position `i`,
/// one for each single reference whose chosen rule names no known
/// transform, in order, up to the first error.
pub open spec fn warnings_from(
    t: Seq<char>,
    i: int,
    args: Seq<Seq<char>>,
    rules: Seq<CommitMessageArguments>,
) -> Seq<Seq<char>>
    decreases t.len() - i,
{
    if i < 0 || i >= t.len() {
        Seq::empty()
    } else if rest_at(t, i) {
        if digit_value(t[i + 1]) > args.len() {
            Seq::empty()
        } else {
            warnings_from(t, i + 3, args, rules)
        }
    } else if placeholder_at(t, i) {
        let n = digit_value(t[i + 1]);
        if n > args.len() {
            Seq::empty()
        } else {
            unknown_case_warning(rules, n) + warnings_from(t, i + 2, args, rules)
        }
    } else if overlong_at(t, i) && digit_value(t[i + 1]) > args.len() {
        Seq::empty()
    } else {
        warnings_from(t, i + 1, args, rules)
    }
}

/// The names of unknown case rules that resolving a template meets.
pub open spec fn case_warnings(
    t: Seq<char>,
    args: Seq<Seq<char>>,
    rules: Seq<CommitMessageArguments>,
) -> Seq<Seq<char>> {
    if t == no_template() {
        Seq::empty()
    } else {
        warnings_from(t, 0, args, rules)
    }
}

/// What a template resolves to against the arguments and the case rules.
pub open spec fn resolve_spec(
    t: Seq<char>,
    args: Seq<Seq<char>>,
    rules: Seq<CommitMessageArguments>,
) -> Result<Seq<char>, ResolveError> {
    if t == no_template() {
        Err(ResolveError::MissingTemplate)
    } else {
        render_from(t, 0, args, rules)
    }
}

/// A resolution's result seen as text.
pub open spec fn result_view(r: Result<String, ResolveError>) -> Result<Seq<char>, ResolveError> {
    match r {
        Ok(s) => Ok(s@),
        Err(e) => Err(e),
    }
}

/// The arguments from `start` (0-based) to the end, joined by single spaces.
fn join_rest(arguments: &Vec<String>, start: usize) -> (r: String)
    requires
        start <= arguments@.len(),
    ensures
        r@ == join_words(arguments.deep_view().subrange(start as int, arguments@.len() as int)),
{
    let ghost words = arguments.deep_view();
    let mut out = String::new();
    let mut k: usize = start;
    proof {
        reveal_strlit(" ");
        assert(words.subrange(start as int, start as int) =~= Seq::<Seq<char>>::empty());
    }
    while k < arguments.len()
        invariant
            start <= k <= arguments@.len(),
            words == arguments.deep_view(),
            out@ == join_words(words.subrange(start as int, k as int)),
        decreases arguments@.len() - k,
    {
        let ghost before = words.subrange(start as int, k as int);
        let ghost after = words.subrange(start as int, k as int + 1);
        proof {
            reveal_strlit(" ");
        }
        assert(after.drop_last() =~= before);
        assert(words[k as int] == arguments@[k as int]@);
        if k > start {
            out.append(" ");
        } else {
            assert(after =~= seq![words[k as int]]);
        }
        out.append(arguments[k].as_str());
        assert(out@ =~= join_words(after));
        k = k + 1;
    }
    out
}

/// Resolves `template` against `arguments` (placeholder `$N` is argument
/// `N`, counting from 1) and the case rules. `$N` becomes argument `N` after
/// the rules for `N`; `$N+` becomes arguments `N` to the last, joined by
/// single spaces, and takes no case rule.
pub fn resolve(template: &str, arguments: &Vec<String>, rules: &Vec<CommitMessageArguments>) -> (r:
    Result<String, ResolveError>)
    ensures
        result_view(r) == resolve_spec(template@, arguments.deep_view(), rules@),
        template@ == no_template() ==> r == Err::<String, ResolveError>(ResolveError::MissingTemplate),
{
    let mut warnings: Vec<String> = Vec::new();
    resolve_with_warnings(template, arguments, rules, &mut warnings)
}

/// `resolve`, which also adds to `warnings` the name of each unknown case
/// rule it meets, in order, up to the first error.
pub fn resolve_with_warnings(
    template: &str,
    arguments: &Vec<String>,
    rules: &Vec<CommitMessageArguments>,
    warnings: &mut Vec<String>,
) -> (r: Result<String, ResolveError>)
    ensures
        result_view(r) == resolve_spec(template@, arguments.deep_view(), rules@),
        template@ == no_template() ==> r == Err::<String, ResolveError>(ResolveError::MissingTemplate),
        final(warnings).deep_view() == old(warnings).deep_view() + case_warnings(
            template@,
            arguments.deep_view(),
            rules@,
        ),
{
    let ghost t = template@;
    let ghost args = arguments.deep_view();
    let ghost w0 = warnings.deep_view();
    assert(w0 + Seq::<Seq<char>>::empty() =~= w0);
    if String::from_str(template) == String::from_str("$RAW_COMMIT_MSG") {
        return Err(ResolveError::MissingTemplate);
    }
    let len = template.unicode_len();
    let mut out = String::new();
    let mut lit_start: usize = 0;
    let mut i: usize = 0;
    while i < len
        invariant
            len == t.len(),
            t == template@,
            t != no_template(),
            args == arguments.deep_view(),
            lit_start <= i <= len,
            w0 == old(warnings).deep_view(),
            w0 + warnings_from(t, 0, args, rules@) == warnings.deep_view() + warnings_from(
                t,
                i as int,
                args,
                rules@,
            ),
            render_from(t, 0, args, rules@) == prefixed(
                out@ + t.subrange(lit_start as int, i as int),
                render_from(t, i as int, args, rules@),
            ),
        decreases len - i,
    {
        let c = template.get_char(i);
        let mut placeholder = false;
        if c == '$' && i + 1 < len {
            let d = template.get_char(i + 1);
            let mut longer = false;
            if i + 2 < len {
                let e = template.get_char(i + 2);
                longer = '0' <= e && e <= '9';
            }
            let is_index = '1' <= d && d <= '9';
            let n: usize = if is_index {
                (d as u32 - '0' as u32) as usize
            } else {
                0
            };
            if is_index && longer && n > arguments.len() {
                assert(overlong_at(t, i as int) && !placeholder_at(t, i as int));
                assert(warnings_from(t, i as int, args, rules@) == Seq::<Seq<char>>::empty());
                assert(warnings.deep_view() + Seq::<Seq<char>>::empty() =~= warnings.deep_view());
                return Err(ResolveError::TooFewArguments(n));
            }
            if is_index && !longer {
                placeholder = true;
                assert(n as int == digit_value(t[i + 1]));
                let ghost done = out@ + t.subrange(lit_start as int, i as int);
                let is_rest = i + 2 < len && template.get_char(i + 2) == '+';
                if is_rest {
                    if n > arguments.len() {
                        assert(render_from(t, i as int, args, rules@) == Err::<Seq<char>, ResolveError>(ResolveError::MissingArgument(n)));
                        assert(warnings_from(t, i as int, args, rules@) == Seq::<Seq<char>>::empty());
                assert(warnings.deep_view() + Seq::<Seq<char>>::empty() =~= warnings.deep_view());
                        return Err(ResolveError::MissingArgument(n));
                    }
                    let joined = join_rest(arguments, n - 1);
                    out.append(template.substring_char(lit_start, i));
                    out.append(joined.as_str());
                    assert(out@ =~= done + joined@);
                    assert(render_from(t, i as int, args, rules@) == prefixed(joined@, render_from(t, i + 3, args, rules@)));
                    proof {
                        lemma_prefixed_twice(done, joined@, render_from(t, i + 3, args, rules@));
                    }
                    i = i + 3;
                } else {
                    if n > arguments.len() {
                        assert(render_from(t, i as int, args, rules@) == Err::<Seq<char>, ResolveError>(ResolveError::TooFewArguments(n)));
                        assert(warnings_from(t, i as int, args, rules@) == Seq::<Seq<char>>::empty());
                assert(warnings.deep_view() + Seq::<Seq<char>>::empty() =~= warnings.deep_view());
                        return Err(ResolveError::TooFewArguments(n));
                    }
                    assert(args[n - 1] == arguments@[n - 1]@);
                    let ghost w_before = warnings.deep_view();
                    let value = transform_argument(rules, n, &arguments[n - 1], warnings);
                    assert(w_before + (unknown_case_warning(rules@, n as int) + warnings_from(t, i + 2, args, rules@))
                        =~= warnings.deep_view() + warnings_from(t, i + 2, args, rules@));
                    out.append(template.substring_char(lit_start, i));
                    out.append(value.as_str());
                    assert(out@ =~= done + value@);
                    assert(render_from(t, i as int, args, rules@) == prefixed(value@, render_from(t, i + 2, args, rules@)));
                    proof {
                        lemma_prefixed_twice(done, value@, render_from(t, i + 2, args, rules@));
                    }
                    i = i + 2;
                }
                lit_start = i;
                assert(out@ + t.subrange(lit_start as int, i as int) =~= out@);
            }
        }
        if !placeholder {
            assert(render_from(t, i as int, args, rules@) == prefixed(seq![t[i as int]], render_from(t, i + 1, args, rules@)));
            proof {
                lemma_prefixed_twice(
                    out@ + t.subrange(lit_start as int, i as int),
                    seq![t[i as int]],
                    render_from(t, i + 1, args, rules@),
                );
            }
            assert(t.subrange(lit_start as int, i as int + 1) =~= t.subrange(lit_start as int, i as int) + seq![t[i as int]]);
            assert(out@ + t.subrange(lit_start as int, i as int + 1) =~= (out@ + t.subrange(lit_start as int, i as int)) + seq![t[i as int]]);
            i = i + 1;
        }
    }
    assert(warnings.deep_view() + Seq::<Seq<char>>::empty() =~= warnings.deep_view());
    out.append(template.substring_char(lit_start, len));
    assert(t.subrange(lit_start as int, len as int) =~= t.subrange(lit_start as int, i as int));
    Ok(out)
}

/// The commit message that the configured template gives for the
/// command-line arguments.
pub fn get_commit_message(config: GlitterRc, args: Arguments) -> (r: Result<String, ResolveError>)
    ensures
        result_view(r) == resolve_spec(config.commit_message@, args.arguments.deep_view(), rules_of(config)),
{
    let empty: Vec<CommitMessageArguments> = Vec::new();
    let rules = match &config.commit_message_arguments {
        Some(v) => v,
        None => &empty,
    };
    proof {
        assert(rules@ =~= rules_of(config));
    }
    resolve(config.commit_message.as_str(), &args.arguments, rules)
}

} // verus!
