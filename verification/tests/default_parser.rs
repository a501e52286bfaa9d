use figura::{Context, Template, Value};

#[test]
fn test_replace_directive() {
    let template = "Hello, {name}!";
    let template = Template::parse(template, '{', '}').unwrap();
    let mut ctx = Context::new();
    ctx.insert("name", Value::String("Alice".to_string()));

    assert_eq!(template.format(&ctx).unwrap(), "Hello, Alice!");

    let template =
        "There was a cat named {cat_name}, who was {age} years old. Its owner was {owner}.";
    let template = Template::parse(template, '{', '}').unwrap();
    let mut ctx = Context::new();
    ctx.insert("cat_name", Value::String("Whiskers".to_string()));
    ctx.insert("age", Value::Int(5));
    ctx.insert("owner", Value::String("Bob".to_string()));

    assert_eq!(
        template.format(&ctx).unwrap(),
        "There was a cat named Whiskers, who was 5 years old. Its owner was Bob."
    );
}

#[test]
fn test_repeat_directive() {
    let template = "Repeat: {word:3}";
    let template = Template::parse(template, '{', '}').unwrap();
    let mut ctx = Context::new();
    ctx.insert("word", Value::String("hi".to_string()));

    assert_eq!(template.format(&ctx).unwrap(), "Repeat: hihihi");

    // Test with a variable count
    let template = "Repeat: {word:count}";
    let template = Template::parse(template, '{', '}').unwrap();
    let mut ctx = Context::new();
    ctx.insert("word", Value::String("hi".to_string()));
    ctx.insert("count", Value::Int(3));

    assert_eq!(template.format(&ctx).unwrap(), "Repeat: hihihi");

    // Test with a non-integer count
    let template = "Repeat: {word:-1}";
    let template = Template::parse(template, '{', '}').unwrap();

    assert!(template.format(&ctx).is_err());

    // Test with a literal pattern and count
    let template = "Repeat: {hello:2}";
    let template = Template::parse(template, '{', '}').unwrap();
    let ctx = Context::new();

    assert_eq!(template.format(&ctx).unwrap(), "Repeat: hellohello");
}

#[test]
fn test_conditional_directive() {
    let template = "{is_admin?Admin Panel:User Panel}";
    let template = Template::parse(template, '{', '}').unwrap();
    let mut ctx = Context::new();
    ctx.insert("is_admin", Value::Bool(true));

    assert_eq!(template.format(&ctx).unwrap(), "Admin Panel");

    let mut ctx = Context::new();
    ctx.insert("is_admin", Value::Bool(false));
    assert_eq!(template.format(&ctx).unwrap(), "User Panel");

    let mut ctx = Context::new();
    ctx.insert("username", Value::String("Alice".to_string()));

    let template = "{username?Logged In:Guest}";
    let template = Template::parse(template, '{', '}').unwrap();

    assert_eq!(template.format(&ctx).unwrap(), "Logged In");
}
