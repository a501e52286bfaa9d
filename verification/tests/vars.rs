use figura::util::PlsError;
use figura::vars::{Part, Template, Var, VarOp};
use figura::Alignment;

#[test]
fn replace_with_var() {
    let template = "{name}";
    let result = Template::parse(template);

    assert!(result.is_ok());

    let template = result.unwrap();

    assert_eq!(template.parts(), &vec![Part::Op(VarOp::Replace(Var::Name))]);
}

#[test]
fn replace_with_unknown() {
    let template = "Hello, I am {age} years old!";
    let result = Template::parse(template);

    assert!(result.is_ok());

    let template = result.unwrap();

    assert_eq!(
        template.parts(),
        &vec![
            Part::Literal("Hello, I am ".to_owned()),
            Part::Op(VarOp::Replace(Var::Unknown("age".to_owned()))),
            Part::Literal(" years old!".to_owned())
        ]
    );
}

#[test]
fn replace_with_both() {
    let template = "Hello, my name is {name} and I am {age} years old!";
    let result = Template::parse(template);

    assert!(result.is_ok());

    let template = result.unwrap();

    assert_eq!(
        template.parts(),
        &vec![
            Part::Literal("Hello, my name is ".to_owned()),
            Part::Op(VarOp::Replace(Var::Name)),
            Part::Literal(" and I am ".to_owned()),
            Part::Op(VarOp::Replace(Var::Unknown("age".to_owned()))),
            Part::Literal(" years old!".to_owned())
        ]
    );
}

#[test]
fn repeat_operation() {
    let template = "{abc:depth}";
    let result = Template::parse(template);

    assert!(result.is_ok());

    let template = result.unwrap();

    assert_eq!(
        template.parts(),
        &vec![Part::Op(VarOp::Repeat {
            pattern: Var::Unknown("abc".to_owned()),
            count_var: Var::Depth
        })]
    )
}

#[test]
fn conditional_operation() {
    let template = "Git: {git_status?git_status:-}";
    let result = Template::parse(template);

    assert!(result.is_ok());

    let template = result.unwrap();

    assert_eq!(
        template.parts(),
        &vec![
            Part::Literal("Git: ".to_owned()),
            Part::Op(VarOp::Conditional {
                condition_var: Var::GitStatus,
                true_part: Var::GitStatus,
                false_part: Var::Unknown("-".to_string())
            })
        ]
    )
}

#[test]
fn empty_template() {
    let template = "";
    let result = Template::parse(template);
    assert!(result.is_ok());
    let template = result.unwrap();
    assert_eq!(template.parts(), &vec![]);
}

#[test]
fn only_literal() {
    let template = "just text with no variables";
    let result = Template::parse(template);
    assert!(result.is_ok());
    let template = result.unwrap();
    assert_eq!(
        template.parts(),
        &vec![Part::Literal("just text with no variables".to_owned())]
    );
}

#[test]
fn escaped_brackets() {
    let template = "Literal {{ and }}";
    let result = Template::parse(template);
    assert!(result.is_ok());
    let template = result.unwrap();
    assert_eq!(
        template.parts(),
        &vec![Part::Literal("Literal { and }".to_owned())]
    );
}

#[test]
fn unclosed_bracket_should_fail() {
    let template = "text with {unclosed";
    let result = Template::parse(template);
    assert!(matches!(result, Err(PlsError::NoClosedBracket)));
}

#[test]
fn unmatched_closing_bracket_should_fail() {
    let template = "text with unmatched } bracket";
    let result = Template::parse(template);
    assert!(matches!(result, Err(PlsError::NoClosedBracket)));
}

#[test]
fn alignment_characters_affect_only_last_var() {
    let template = "{name<} - {size^}";
    let result = Template::parse(template);
    assert!(result.is_ok());
    let template = result.unwrap();
    assert_eq!(
        template.parts(),
        &vec![
            Part::Op(VarOp::Replace(Var::Name)),
            Part::Literal(" - ".to_owned()),
            Part::Op(VarOp::Replace(Var::Size))
        ]
    );
    assert_eq!(template.alignment(), Alignment::Center); // alignment set by last variable
}

#[test]
fn malformed_conditional_missing_colon() {
    let template = "{git_status?git_status}";
    let result = Template::parse(template);
    assert!(result.is_ok());
    let template = result.unwrap();

    assert_eq!(
        template.parts(),
        &vec![Part::Op(VarOp::Replace(Var::Unknown(
            "git_status?git_status".to_owned()
        )))]
    );
}

#[test]
fn variable_with_non_ascii_name() {
    let template = "{👽}";
    let result = Template::parse(template);
    assert!(result.is_ok());
    let template = result.unwrap();
    assert_eq!(
        template.parts(),
        &vec![Part::Op(VarOp::Replace(Var::Unknown("👽".to_owned())))]
    );
}

#[test]
fn multiple_escaped_sequences() {
    let template = "Escaped {{ and }} plus {name}";
    let result = Template::parse(template);
    assert!(result.is_ok());
    let template = result.unwrap();
    assert_eq!(
        template.parts(),
        &vec![
            Part::Literal("Escaped { and } plus ".to_owned()),
            Part::Op(VarOp::Replace(Var::Name))
        ]
    );
}

