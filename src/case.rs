use vstd::prelude::*;

use crate::config::CommitMessageArguments;

verus! {

/// `str::to_lowercase` of a string.
pub uninterp spec fn lower_of(s: Seq<char>) -> Seq<char>;

/// `str::to_uppercase` of a string.
pub uninterp spec fn upper_of(s: Seq<char>) -> Seq<char>;

/// Inflector's `to_snake_case` of a string.
pub uninterp spec fn snake_of(s: Seq<char>) -> Seq<char>;

/// Inflector's `to_screaming_snake_case` of a string.
pub uninterp spec fn screaming_snake_of(s: Seq<char>) -> Seq<char>;

/// Inflector's `to_kebab_case` of a string.
pub uninterp spec fn kebab_of(s: Seq<char>) -> Seq<char>;

/// Inflector's `to_train_case` of a string.
pub uninterp spec fn train_of(s: Seq<char>) -> Seq<char>;

/// Inflector's `to_sentence_case` of a string.
pub uninterp spec fn sentence_of(s: Seq<char>) -> Seq<char>;

/// Inflector's `to_title_case` of a string.
pub uninterp spec fn title_of(s: Seq<char>) -> Seq<char>;

/// Inflector's `to_pascal_case` of a string.
pub uninterp spec fn pascal_of(s: Seq<char>) -> Seq<char>;

/// Relies on `str::to_lowercase`: the result depends on the characters alone.
#[verifier::external_body]
pub(crate) fn lowercase(s: &str) -> (r: String)
    ensures
        r@ == lower_of(s@),
{
    s.to_lowercase()
}

/// Relies on `str::to_uppercase`: the result depends on the characters alone.
#[verifier::external_body]
fn uppercase(s: &str) -> (r: String)
    ensures
        r@ == upper_of(s@),
{
    s.to_uppercase()
}

/// Relies on `inflector::cases::snakecase::to_snake_case`, a function of its argument.
#[verifier::external_body]
fn snake_case(s: &str) -> (r: String)
    ensures
        r@ == snake_of(s@),
{
    inflector::cases::snakecase::to_snake_case(s)
}

/// Relies on `inflector::cases::screamingsnakecase::to_screaming_snake_case`,
/// a function of its argument.
#[verifier::external_body]
fn screaming_snake_case(s: &str) -> (r: String)
    ensures
        r@ == screaming_snake_of(s@),
{
    inflector::cases::screamingsnakecase::to_screaming_snake_case(s)
}

/// Relies on `inflector::cases::kebabcase::to_kebab_case`, a function of its argument.
#[verifier::external_body]
fn kebab_case(s: &str) -> (r: String)
    ensures
        r@ == kebab_of(s@),
{
    inflector::cases::kebabcase::to_kebab_case(s)
}

/// Relies on `inflector::cases::traincase::to_train_case`, a function of its argument.
#[verifier::external_body]
fn train_case(s: &str) -> (r: String)
    ensures
        r@ == train_of(s@),
{
    inflector::cases::traincase::to_train_case(s)
}

/// Relies on `inflector::cases::sentencecase::to_sentence_case`, a function of its argument.
#[verifier::external_body]
fn sentence_case(s: &str) -> (r: String)
    ensures
        r@ == sentence_of(s@),
{
    inflector::cases::sentencecase::to_sentence_case(s)
}

/// Relies on `inflector::cases::titlecase::to_title_case`, a function of its argument.
#[verifier::external_body]
fn title_case(s: &str) -> (r: String)
    ensures
        r@ == title_of(s@),
{
    inflector::cases::titlecase::to_title_case(s)
}

/// Relies on `inflector::cases::pascalcase::to_pascal_case`, a function of its argument.
#[verifier::external_body]
fn pascal_case(s: &str) -> (r: String)
    ensures
        r@ == pascal_of(s@),
{
    inflector::cases::pascalcase::to_pascal_case(s)
}

/// The text-case transforms a case rule can name.
#[derive(Clone, Copy, Debug, PartialEq, Eq, Structural)]
pub enum Case {
    Lower,
    Upper,
    Snake,
    ScreamingSnake,
    Kebab,
    Train,
    Sentence,
    Title,
    Pascal,
}

/// The transform a (lower-case) name stands for, if any.
pub open spec fn case_named(name: Seq<char>) -> Option<Case> {
    if name == "lower"@ {
        Some(Case::Lower)
    } else if name == "upper"@ {
        Some(Case::Upper)
    } else if name == "snake"@ {
        Some(Case::Snake)
    } else if name == "screaming-snake"@ {
        Some(Case::ScreamingSnake)
    } else if name == "kebab"@ {
        Some(Case::Kebab)
    } else if name == "train"@ {
        Some(Case::Train)
    } else if name == "sentence"@ {
        Some(Case::Sentence)
    } else if name == "title"@ {
        Some(Case::Title)
    } else if name == "pascal"@ {
        Some(Case::Pascal)
    } else {
        None
    }
}

/// A transform applied to a value.
pub open spec fn apply_case(c: Case, v: Seq<char>) -> Seq<char> {
    match c {
        Case::Lower => lower_of(v),
        Case::Upper => upper_of(v),
        Case::Snake => snake_of(v),
        Case::ScreamingSnake => screaming_snake_of(v),
        Case::Kebab => kebab_of(v),
        Case::Train => train_of(v),
        Case::Sentence => sentence_of(v),
        Case::Title => title_of(v),
        Case::Pascal => pascal_of(v),
    }
}

/// The transform named by a rule's case name; names are matched without
/// regard to letter case.
pub open spec fn rule_case(name: Seq<char>) -> Option<Case> {
    case_named(lower_of(name))
}

/// The case name of the last rule for argument `index` that names one:
/// when several rules name a case for one argument, the last one wins.
pub open spec fn chosen_case_name(rules: Seq<CommitMessageArguments>, index: int) -> Option<
    Seq<char>,
>
    decreases rules.len(),
{
    if rules.len() == 0 {
        None
    } else {
        let rule = rules.last();
        if rule.argument as int == index && rule.case is Some {
            Some(rule.case->0@)
        } else {
            chosen_case_name(rules.drop_last(), index)
        }
    }
}

/// `v`, the value of argument `index`, after the transform that the chosen
/// rule for that index names; unchanged when there is no such rule or its
/// name is not known.
pub open spec fn apply_rules(rules: Seq<CommitMessageArguments>, index: int, v: Seq<char>) -> Seq<
    char,
> {
    match chosen_case_name(rules, index) {
        Some(name) => match rule_case(name) {
            Some(c) => apply_case(c, v),
            None => v,
        },
        None => v,
    }
}

/// The warning that using argument `index` gives: the chosen rule's name
/// when it names no known transform, else nothing.
pub open spec fn unknown_case_warning(rules: Seq<CommitMessageArguments>, index: int) -> Seq<
    Seq<char>,
> {
    match chosen_case_name(rules, index) {
        Some(name) => if rule_case(name) is None {
            seq![name]
        } else {
            Seq::empty()
        },
        None => Seq::empty(),
    }
}

impl Case {
    /// The transform that an already lower-case name stands for.
    pub fn from_lowered(name: &String) -> (r: Option<Case>)
        ensures
            r == case_named(name@),
    {
        if *name == String::from_str("lower") {
            Some(Case::Lower)
        } else if *name == String::from_str("upper") {
            Some(Case::Upper)
        } else if *name == String::from_str("snake") {
            Some(Case::Snake)
        } else if *name == String::from_str("screaming-snake") {
            Some(Case::ScreamingSnake)
        } else if *name == String::from_str("kebab") {
            Some(Case::Kebab)
        } else if *name == String::from_str("train") {
            Some(Case::Train)
        } else if *name == String::from_str("sentence") {
            Some(Case::Sentence)
        } else if *name == String::from_str("title") {
            Some(Case::Title)
        } else if *name == String::from_str("pascal") {
            Some(Case::Pascal)
        } else {
            None
        }
    }

    /// The transform a rule's case name stands for, matched without regard
    /// to letter case; `None` for a name that is not known.
    pub fn parse(name: &str) -> (r: Option<Case>)
        ensures
            r == rule_case(name@),
    {
        let lowered = lowercase(name);
        Case::from_lowered(&lowered)
    }

    /// This transform applied to `v`.
    pub fn apply(self, v: &str) -> (r: String)
        ensures
            r@ == apply_case(self, v@),
    {
        match self {
            Case::Lower => lowercase(v),
            Case::Upper => uppercase(v),
            Case::Snake => snake_case(v),
            Case::ScreamingSnake => screaming_snake_case(v),
            Case::Kebab => kebab_case(v),
            Case::Train => train_case(v),
            Case::Sentence => sentence_case(v),
            Case::Title => title_case(v),
            Case::Pascal => pascal_case(v),
        }
    }
}

/// The position of the chosen rule for argument `index` (1-based): the
/// last rule for it that names a case.
pub fn case_rule_for(rules: &Vec<CommitMessageArguments>, index: usize) -> (r: Option<usize>)
    ensures
        match r {
            Some(k) => k < rules@.len() && rules@[k as int].case is Some && chosen_case_name(
                rules@,
                index as int,
            ) == Some(rules@[k as int].case->0@),
            None => chosen_case_name(rules@, index as int) is None,
        },
{
    let mut j: usize = rules.len();
    assert(rules@.subrange(0, j as int) =~= rules@);
    while j > 0
        invariant
            j <= rules@.len(),
            chosen_case_name(rules@, index as int) == chosen_case_name(
                rules@.subrange(0, j as int),
                index as int,
            ),
        decreases j,
    {
        let rule = &rules[j - 1];
        assert(rules@.subrange(0, j as int).drop_last() =~= rules@.subrange(0, j as int - 1));
        if index <= i32::MAX as usize && rule.argument == index as i32 && rule.case.is_some() {
            return Some(j - 1);
        }
        j = j - 1;
    }
    None
}

/// The value of argument `index` (1-based) after its chosen case rule; the
/// rule's name is added to `warnings` when it names no known transform.
pub fn transform_argument(
    rules: &Vec<CommitMessageArguments>,
    index: usize,
    value: &String,
    warnings: &mut Vec<String>,
) -> (r: String)
    ensures
        r@ == apply_rules(rules@, index as int, value@),
        final(warnings).deep_view() == old(warnings).deep_view() + unknown_case_warning(
            rules@,
            index as int,
        ),
{
    let ghost w0 = warnings.deep_view();
    assert(w0 + Seq::<Seq<char>>::empty() =~= w0);
    match case_rule_for(rules, index) {
        Some(k) => match &rules[k].case {
            Some(name) => match Case::parse(name.as_str()) {
                Some(c) => c.apply(value.as_str()),
                None => {
                    warnings.push(name.clone());
                    assert(warnings.deep_view() =~= w0 + seq![name@]);
                    value.clone()
                },
            },
            None => value.clone(),
        },
        None => value.clone(),
    }
}

} // verus!
