use figura::named::Named;
use figura::util::format_template;

#[test]
fn template_basic() {
    let mut values = Named::new();
    values.insert("name", "John".to_string());
    values.insert("age", "25".to_string());
    let template = "Hello, my name is {name} and I am {age}";

    assert_eq!(
        format_template(template, &values).unwrap(),
        "Hello, my name is John and I am 25"
    );
}
