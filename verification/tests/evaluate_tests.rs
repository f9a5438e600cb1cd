use yar::render::{evaluate_shortcode, evaluate_shortcodes};
use yar::shortcode::{parse, Item};

fn tera_with_note(template_str: &str) -> tera::Tera {
    let mut t = tera::Tera::new();
    t.add_raw_template("note.html.tera", template_str).unwrap();
    t
}

#[test]
fn test_evaluate_shortcode() {
    let template_str = r#"<div class="blog-note">
{{ body }}
</div>"#;
    let t = tera_with_note(template_str);

    let test_input = "{{! note !}}
        this is a note!
        {{! end !}}";

    let items = parse(test_input).unwrap();
    let Item::Shortcode(s) = items.first().unwrap() else {
        panic!("not a shortcode")
    };

    let evaluated = evaluate_shortcode(&t, s).unwrap();

    assert_eq!(
        evaluated,
        "<div class=\"blog-note\">\nthis is a note!\n        \n</div>"
    );
}

#[test]
fn test_evaluate_shortcode_arguments() {
    let template_str = r#"<div class="blog-note">
<h1>{{title}}</h1>
{{ body }}
</div>"#;
    let t = tera_with_note(template_str);

    let test_input = r#"{{! note(title="testing") !}}
        this is a note!
        {{! end !}}"#;

    let items = parse(test_input).unwrap();
    let Item::Shortcode(s) = items.first().unwrap() else {
        panic!("not a shortcode")
    };

    let evaluated = evaluate_shortcode(&t, s).unwrap();

    assert_eq!(
        evaluated,
        "<div class=\"blog-note\">\n<h1>testing</h1>\nthis is a note!\n        \n</div>"
    );
}

#[test]
fn test_evaluate_shortcodes() {
    let template_str = r#"<div class="blog-note">
<h1>{{title}}</h1>
{{ body }}
</div>"#;
    let t = tera_with_note(template_str);

    let test_input = r#"# Hello World

this is a thing

## this is another thing

**hi**

{{! note(title="testing") !}}
this is a note!
{{! end !}}

**more**"#;

    let evaluated = evaluate_shortcodes(&t, test_input).unwrap();

    assert_eq!(
        evaluated,
        r#"# Hello World

this is a thing

## this is another thing

**hi**

<div class="blog-note">
<h1>testing</h1>
this is a note!

</div>

**more**"#
    );
}

#[test]
fn test_unknown_template_is_error() {
    let t = tera::Tera::new();
    let result = evaluate_shortcodes(&t, "{{! missing !}}x{{! end !}}");
    assert!(result.is_err());
}

#[test]
fn test_text_without_markers_is_unchanged() {
    let t = tera::Tera::new();
    let input = "plain text, no markers at all";
    assert_eq!(evaluate_shortcodes(&t, input).unwrap(), input);
}
