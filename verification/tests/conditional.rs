use sapio::conditional::{resolve, ConditionalCompileType, Resolution};

fn fail(messages: &[&str]) -> ConditionalCompileType {
    ConditionalCompileType::Fail(messages.iter().map(|m| m.to_string()).collect())
}

#[test]
fn failures_are_all_collected_in_order() {
    let verdicts = vec![
        fail(&["a", "b"]),
        ConditionalCompileType::Required,
        fail(&[]),
        ConditionalCompileType::Never,
        fail(&["c"]),
    ];
    assert_eq!(
        resolve(verdicts, 1),
        Resolution::Fail(vec!["a".to_string(), "b".to_string(), "c".to_string()])
    );
}

#[test]
fn failure_without_message_still_fails() {
    assert_eq!(resolve(vec![ConditionalCompileType::Nullable, fail(&[])], 0), Resolution::Fail(Vec::new()));
}

#[test]
fn required_against_never_is_a_conflict() {
    let one = vec![ConditionalCompileType::Required, ConditionalCompileType::Never];
    let other = vec![ConditionalCompileType::Never, ConditionalCompileType::Skippable, ConditionalCompileType::Required];
    assert_eq!(resolve(one, 1), Resolution::Conflict);
    assert_eq!(resolve(other, 0), Resolution::Conflict);
}

#[test]
fn failure_comes_before_conflict() {
    let verdicts = vec![ConditionalCompileType::Required, ConditionalCompileType::Never, fail(&["x"])];
    assert_eq!(resolve(verdicts, 1), Resolution::Fail(vec!["x".to_string()]));
}

#[test]
fn never_excludes() {
    assert_eq!(resolve(vec![ConditionalCompileType::Never], 3), Resolution::Exclude);
    let verdicts = vec![
        ConditionalCompileType::Nullable,
        ConditionalCompileType::Never,
        ConditionalCompileType::Skippable,
        ConditionalCompileType::NoConstraint,
    ];
    assert_eq!(resolve(verdicts, 0), Resolution::Exclude);
}

#[test]
fn required_includes_even_an_empty_branch() {
    assert_eq!(resolve(vec![ConditionalCompileType::Required], 0), Resolution::Include);
    let verdicts = vec![
        ConditionalCompileType::Skippable,
        ConditionalCompileType::Required,
        ConditionalCompileType::Nullable,
    ];
    assert_eq!(resolve(verdicts, 0), Resolution::Include);
}

#[test]
fn skippable_is_left_out_only_when_empty() {
    assert_eq!(resolve(vec![ConditionalCompileType::Skippable], 0), Resolution::Exclude);
    assert_eq!(resolve(vec![ConditionalCompileType::Skippable], 1), Resolution::Include);
}

#[test]
fn nullable_is_left_out_only_when_empty() {
    assert_eq!(resolve(vec![ConditionalCompileType::Nullable], 0), Resolution::Nullable);
    assert_eq!(resolve(vec![ConditionalCompileType::Nullable], 2), Resolution::Include);
}

#[test]
fn skippable_comes_before_nullable() {
    let verdicts = vec![ConditionalCompileType::Nullable, ConditionalCompileType::Skippable];
    assert_eq!(resolve(verdicts, 0), Resolution::Exclude);
}

#[test]
fn no_constraint_changes_nothing() {
    assert_eq!(resolve(Vec::new(), 0), Resolution::Include);
    assert_eq!(resolve(Vec::new(), 1), Resolution::Include);
    assert_eq!(resolve(vec![ConditionalCompileType::NoConstraint], 0), Resolution::Include);
    let verdicts = vec![ConditionalCompileType::NoConstraint, ConditionalCompileType::Never];
    assert_eq!(resolve(verdicts, 1), Resolution::Exclude);
    let verdicts = vec![ConditionalCompileType::NoConstraint, ConditionalCompileType::Nullable];
    assert_eq!(resolve(verdicts, 0), Resolution::Nullable);
}
