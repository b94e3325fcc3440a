use glitter::case::{case_rule_for, Case};
use glitter::cli::{action, dispatch_action, match_cmds, CliError, Command};
use glitter::config::{Arguments, CommitMessageArguments, GlitterRc};
use glitter::template::{get_commit_message, resolve, resolve_with_warnings, ResolveError};

fn strings(items: &[&str]) -> Vec<String> {
    items.iter().map(|s| s.to_string()).collect()
}

fn rule(argument: i32, case: &str) -> CommitMessageArguments {
    CommitMessageArguments { argument, case: Some(case.to_string()) }
}

fn resolve_with(template: &str, args: &[&str], rules: Vec<CommitMessageArguments>) -> Result<String, ResolveError> {
    resolve(template, &strings(args), &rules)
}

#[test]
fn basic() {
    let args = Arguments {
        action: "push".to_string(),
        arguments: vec![
            "test".to_string(),
            "a".to_string(),
            "b".to_string(),
            "c".to_string(),
        ],
    };

    let config = GlitterRc {
        commit_message: "$1($2): $3+".to_string(),
        commit_message_arguments: None,
    };

    assert_eq!(get_commit_message(config, args).unwrap(), "test(a): b c")
}

#[test]
fn reuse_arguments() {
    let args = Arguments {
        action: "push".to_string(),
        arguments: vec![
            "test".to_string(),
            "a".to_string(),
            "b".to_string(),
            "c".to_string(),
        ],
    };

    let config = GlitterRc {
        commit_message: "$1($2): $3+ : $2 | $1+".to_string(),
        commit_message_arguments: None,
    };

    assert_eq!(
        get_commit_message(config, args).unwrap(),
        "test(a): b c : a | test a b c"
    )
}

#[test]
fn less_than_needed_args() {
    let args = Arguments {
        action: "push".to_string(),
        arguments: vec!["test".to_string(), "a".to_string()],
    };

    let config = GlitterRc {
        commit_message: "$1($2): $3+".to_string(),
        commit_message_arguments: None,
    };

    assert_eq!(get_commit_message(config, args).is_err(), true)
}

#[test]
fn missing_rest_argument_names_its_index() {
    assert_eq!(
        resolve_with("$1($2): $3+", &["test", "a"], vec![]),
        Err(ResolveError::MissingArgument(3))
    );
}

#[test]
fn single_reference_past_the_end_is_too_few() {
    assert_eq!(
        resolve_with("$1 $3", &["test", "a"], vec![]),
        Err(ResolveError::TooFewArguments(3))
    );
}

#[test]
fn first_failing_reference_decides_the_error() {
    assert_eq!(
        resolve_with("$4 $3+", &["a", "b"], vec![]),
        Err(ResolveError::TooFewArguments(4))
    );
    assert_eq!(
        resolve_with("$3+ $4", &["a", "b"], vec![]),
        Err(ResolveError::MissingArgument(3))
    );
}

#[test]
fn no_template_always_fails() {
    assert_eq!(resolve_with("$RAW_COMMIT_MSG", &[], vec![]), Err(ResolveError::MissingTemplate));
    assert_eq!(
        resolve_with("$RAW_COMMIT_MSG", &["a", "b", "c"], vec![rule(1, "upper")]),
        Err(ResolveError::MissingTemplate)
    );
}

#[test]
fn upper_rule_applies_to_its_argument() {
    assert_eq!(resolve_with("$2", &["x", "hello"], vec![rule(2, "upper")]), Ok("HELLO".to_string()));
}

#[test]
fn unknown_rule_leaves_value_unchanged() {
    assert_eq!(resolve_with("$2", &["x", "hello"], vec![rule(2, "shouting")]), Ok("hello".to_string()));
    assert_eq!(Case::parse("shouting"), None);
}

#[test]
fn rule_for_another_index_does_not_apply() {
    assert_eq!(
        resolve_with("$1 $2", &["x", "hello"], vec![rule(1, "upper")]),
        Ok("X hello".to_string())
    );
}

#[test]
fn rule_without_case_does_nothing() {
    let rules = vec![CommitMessageArguments { argument: 2, case: None }];
    assert_eq!(resolve_with("$2", &["x", "Hello"], rules), Ok("Hello".to_string()));
}

#[test]
fn rule_names_ignore_letter_case() {
    assert_eq!(resolve_with("$1", &["hello"], vec![rule(1, "UpPeR")]), Ok("HELLO".to_string()));
    assert_eq!(Case::parse("KEBAB"), Some(Case::Kebab));
}

#[test]
fn rules_do_not_touch_rest_references() {
    assert_eq!(
        resolve_with("$1: $1+", &["ab", "cd"], vec![rule(1, "upper")]),
        Ok("AB: ab cd".to_string())
    );
}

#[test]
fn last_rule_for_an_index_wins() {
    assert_eq!(
        resolve_with("$1", &["fooBar"], vec![rule(1, "snake"), rule(1, "upper")]),
        Ok("FOOBAR".to_string())
    );
    assert_eq!(
        resolve_with("$1", &["fooBar"], vec![rule(1, "upper"), rule(1, "kebab")]),
        Ok("foo-bar".to_string())
    );
    assert_eq!(
        resolve_with("$1", &["hello"], vec![rule(1, "upper"), rule(1, "shouting")]),
        Ok("hello".to_string())
    );
    let rules = vec![rule(1, "upper"), CommitMessageArguments { argument: 1, case: None }];
    assert_eq!(resolve_with("$1", &["hello"], rules), Ok("HELLO".to_string()));
}

#[test]
fn chosen_rule_position() {
    let rules = vec![rule(1, "upper"), rule(2, "lower"), rule(1, "snake"), CommitMessageArguments { argument: 1, case: None }];
    assert_eq!(case_rule_for(&rules, 1), Some(2));
    assert_eq!(case_rule_for(&rules, 2), Some(1));
    assert_eq!(case_rule_for(&rules, 3), None);
}

#[test]
fn unknown_rules_met_are_reported() {
    let args = strings(&["a", "b"]);
    let rules = vec![rule(2, "shouting"), rule(1, "upper")];
    let mut warnings = Vec::new();
    assert_eq!(resolve_with_warnings("$2 $1 $2 $1+", &args, &rules, &mut warnings), Ok("b A b a b".to_string()));
    assert_eq!(warnings, strings(&["shouting", "shouting"]));
}

#[test]
fn unknown_rules_not_met_are_not_reported() {
    let args = strings(&["a", "b"]);
    let rules = vec![rule(2, "shouting")];
    let mut warnings = Vec::new();
    assert_eq!(resolve_with_warnings("$1 $2+", &args, &rules, &mut warnings), Ok("a b".to_string()));
    assert!(warnings.is_empty());
}

#[test]
fn reports_stop_at_the_first_error() {
    let args = strings(&["a", "b"]);
    let rules = vec![rule(1, "bad"), rule(2, "worse")];
    let mut warnings = Vec::new();
    assert_eq!(
        resolve_with_warnings("$1 $3 $2", &args, &rules, &mut warnings),
        Err(ResolveError::TooFewArguments(3))
    );
    assert_eq!(warnings, strings(&["bad"]));
}

#[test]
fn every_case_transform() {
    let cases = [
        ("lower", "FooBar", "foobar"),
        ("upper", "fooBar", "FOOBAR"),
        ("snake", "fooBar", "foo_bar"),
        ("screaming-snake", "fooBar", "FOO_BAR"),
        ("kebab", "fooBar", "foo-bar"),
        ("train", "fooBar", "Foo-Bar"),
        ("sentence", "fooBar", "Foo bar"),
        ("title", "fooBar", "Foo Bar"),
        ("pascal", "fooBar", "FooBar"),
    ];
    for (name, input, expected) in cases {
        assert_eq!(resolve_with("$1", &[input], vec![rule(1, name)]), Ok(expected.to_string()), "{}", name);
    }
}

#[test]
fn case_apply_changes_the_value() {
    assert_eq!(Case::Lower.apply("ABC"), "abc");
    assert_eq!(Case::Upper.apply("abc"), "ABC");
    assert_eq!(Case::Snake.apply("fooBar"), "foo_bar");
    assert_eq!(Case::Pascal.apply("foo_bar"), "FooBar");
}

#[test]
fn case_names_when_already_lowered() {
    assert_eq!(Case::from_lowered(&"screaming-snake".to_string()), Some(Case::ScreamingSnake));
    assert_eq!(Case::from_lowered(&"title".to_string()), Some(Case::Title));
    assert_eq!(Case::from_lowered(&"Title".to_string()), None);
    assert_eq!(Case::from_lowered(&"".to_string()), None);
}

#[test]
fn resolved_text_resolves_to_itself() {
    let args = ["test", "a", "b", "c"];
    let once = resolve_with("$1($2): $3+", &args, vec![]).unwrap();
    let twice = resolve_with(&once, &args, vec![]).unwrap();
    assert_eq!(once, twice);
    assert_eq!(resolve_with("fix: plain text", &args, vec![]), Ok("fix: plain text".to_string()));
}

#[test]
fn rest_reference_at_last_index() {
    assert_eq!(resolve_with("$3+", &["a", "b", "c"], vec![]), Ok("c".to_string()));
    assert_eq!(resolve_with("$4+", &["a", "b", "c"], vec![]), Err(ResolveError::MissingArgument(4)));
}

#[test]
fn empty_template_and_no_arguments() {
    assert_eq!(resolve_with("", &[], vec![]), Ok(String::new()));
    assert_eq!(resolve_with("$1+", &[], vec![]), Err(ResolveError::MissingArgument(1)));
}

#[test]
fn dollar_without_index_is_text() {
    assert_eq!(resolve_with("cost $x, $0 and $", &["a"], vec![]), Ok("cost $x, $0 and $".to_string()));
}

#[test]
fn two_digit_index_is_text() {
    assert_eq!(resolve_with("$10 $1", &["a"], vec![]), Ok("$10 a".to_string()));
}

#[test]
fn two_digit_index_still_needs_its_argument() {
    assert_eq!(resolve_with("$10", &[], vec![]), Err(ResolveError::TooFewArguments(1)));
    assert_eq!(resolve_with("$1 $25", &["a"], vec![]), Err(ResolveError::TooFewArguments(2)));
}

#[test]
fn substituted_values_are_not_read_again() {
    assert_eq!(resolve_with("$1 $2", &["$2", "b"], vec![]), Ok("$2 b".to_string()));
}

#[test]
fn non_ascii_text_is_kept() {
    assert_eq!(resolve_with("é $1 ü", &["ß"], vec![]), Ok("é ß ü".to_string()));
}

#[test]
fn case_rules_from_configuration() {
    let config = GlitterRc {
        commit_message: "$1: $2".to_string(),
        commit_message_arguments: Some(vec![rule(1, "upper")]),
    };
    let args = Arguments { action: "push".to_string(), arguments: strings(&["feat", "thing"]) };
    assert_eq!(get_commit_message(config, args), Ok("FEAT: thing".to_string()));
}

#[test]
fn action_unquotes_patterns() {
    assert_eq!(action(vec!["\"push\"", "\"action\"", "_"]), strings(&["push", "action"]));
    assert_eq!(action(vec!["\"", "\"\"", "x\""]), strings(&[""]));
}

#[test]
fn push_action_resolves_the_message() {
    let config = GlitterRc { commit_message: "$1: $2+".to_string(), commit_message_arguments: None };
    let args = Arguments { action: "PuSh".to_string(), arguments: strings(&["fix", "a", "b"]) };
    match match_cmds(args, config) {
        Ok(Command::Push(m, warnings)) => {
            assert_eq!(m, "fix: a b");
            assert!(warnings.is_empty());
        },
        _ => panic!("expected a push"),
    }
}

#[test]
fn push_action_carries_warnings() {
    let config = GlitterRc { commit_message: "$1".to_string(), commit_message_arguments: Some(vec![rule(1, "odd")]) };
    let args = Arguments { action: "push".to_string(), arguments: strings(&["fix"]) };
    match match_cmds(args, config) {
        Ok(Command::Push(m, warnings)) => {
            assert_eq!(m, "fix");
            assert_eq!(warnings, strings(&["odd"]));
        },
        _ => panic!("expected a push"),
    }
}

#[test]
fn push_action_reports_resolve_errors() {
    let config = GlitterRc { commit_message: "$RAW_COMMIT_MSG".to_string(), commit_message_arguments: None };
    let args = Arguments { action: "push".to_string(), arguments: vec![] };
    assert!(matches!(match_cmds(args, config), Err(CliError::Resolve(ResolveError::MissingTemplate))));
}

#[test]
fn action_action_lists_actions() {
    let config = GlitterRc { commit_message: "$1".to_string(), commit_message_arguments: None };
    let args = Arguments { action: "Action".to_string(), arguments: vec![] };
    match match_cmds(args, config) {
        Ok(Command::Action(names)) => assert_eq!(names, strings(&["push", "action"])),
        _ => panic!("expected the action list"),
    }
}

#[test]
fn unknown_action_is_refused() {
    let config = GlitterRc { commit_message: "$1".to_string(), commit_message_arguments: None };
    let args = Arguments { action: "pull".to_string(), arguments: vec![] };
    assert!(matches!(match_cmds(args, config), Err(CliError::InvalidAction)));
    let config = GlitterRc { commit_message: "$1".to_string(), commit_message_arguments: None };
    let args = Arguments { action: "Push".to_string(), arguments: vec![] };
    assert!(matches!(dispatch_action(&"Push".to_string(), config, args), Err(CliError::InvalidAction)));
}
