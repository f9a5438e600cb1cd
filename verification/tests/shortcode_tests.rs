use yar::shortcode::{parse, shortcode, Item, Shortcode, Value};

#[test]
fn test_parse_content() {
    let test_input = "# Hello World

this is a thing

## this is another thing

**hi**

{{! test(a=1, b=2) !}}
hello world
{{! end !}}

**more**";

    let items = parse(test_input).unwrap();
    assert_eq!(
        items,
        vec![
            Item::Text(
                "# Hello World\n\nthis is a thing\n\n## this is another thing\n\n**hi**\n\n"
                    .to_string()
            ),
            Item::Shortcode(Shortcode {
                name: "test".to_string(),
                arguments: vec![
                    ("a".to_string(), Value::Number(1)),
                    ("b".to_string(), Value::Number(2))
                ],
                body: "hello world\n".to_string()
            }),
            Item::Text("\n\n**more**".to_string())
        ]
    );
}

#[test]
fn test_parse_no_shortcodes() {
    let test_input = "# Hello World

this is a thing

## this is another thing

**hi**

**more**";

    let items = parse(test_input).unwrap();
    assert_eq!(
        items,
        vec![Item::Text(
            "# Hello World\n\nthis is a thing\n\n## this is another thing\n\n**hi**\n\n**more**"
                .to_string()
        ),]
    );
}

#[test]
fn test_parse_only_shortcode() {
    let test_input = "{{! test(a=1, b=2) !}}
hello world
{{! end !}}";

    let items = parse(test_input).unwrap();
    assert_eq!(
        items,
        vec![
            Item::Shortcode(Shortcode {
                name: "test".to_string(),
                arguments: vec![
                    ("a".to_string(), Value::Number(1)),
                    ("b".to_string(), Value::Number(2))
                ],
                body: "hello world\n".to_string()
            }),
            Item::Text(String::new())
        ]
    );
}

#[test]
fn parse_empty() {
    let test_input = "";

    let items = parse(test_input).unwrap();
    assert_eq!(items, vec![Item::Text(String::new())]);
}

#[test]
fn test_parse_shortcode_arguments() {
    let test_input = "
{{! test(a=1, b=2) !}}
hello world
{{! end !}}
        ";

    let sc = shortcode(test_input).unwrap();

    assert_eq!(
        sc,
        Shortcode {
            name: "test".to_string(),
            arguments: vec![
                ("a".to_string(), Value::Number(1)),
                ("b".to_string(), Value::Number(2))
            ],
            body: "hello world\n".to_string()
        }
    );
}

#[test]
fn test_parse_shortcode_no_arguments() {
    let test_input = r"
{{! test !}}
hello world
{{! end !}}
        ";

    let sc = shortcode(test_input).unwrap();

    assert_eq!(
        sc,
        Shortcode {
            name: "test".to_string(),
            arguments: Vec::new(),
            body: "hello world\n".to_string()
        }
    );
}

#[test]
fn test_parse_value_literals() {
    let items = parse("{{! t(a=true, b=false, c=\"hi\", d=[1, 2], e=-5) !}}x{{! end !}}").unwrap();
    let Item::Shortcode(sc) = &items[0] else {
        panic!("not a shortcode")
    };
    assert_eq!(
        sc.arguments,
        vec![
            ("a".to_string(), Value::Bool(true)),
            ("b".to_string(), Value::Bool(false)),
            ("c".to_string(), Value::String("hi".to_string())),
            ("d".to_string(), Value::List(vec![Value::Number(1), Value::Number(2)])),
            ("e".to_string(), Value::Number(-5)),
        ]
    );
}

#[test]
fn test_parse_rejects_bad_marker() {
    assert!(parse("text {{! broken").is_err());
    assert!(parse("{{! name !}}body without end").is_err());
    assert!(parse("{{! t(a=99999999999) !}}x{{! end !}}").is_err());
}
