use pulsync::template::{chars_of, format_plan, render_template, VariadicStringParams};

fn sorted(mut v: Vec<String>) -> Vec<String> {
    v.sort();
    v
}

#[test]
fn fields_of_a_title() {
    let names = VariadicStringParams::parse_format_string("The title is {self.title} the task is {self.status}");
    assert_eq!(sorted(names), vec![String::from("status"), String::from("title")]);
}

#[test]
fn field_without_self_prefix() {
    let names = VariadicStringParams::parse_format_string("{login} and {self.login}");
    assert_eq!(names, vec![String::from("login")]);
}

#[test]
fn empty_and_unclosed_placeholders() {
    assert!(VariadicStringParams::parse_format_string("{} {self.}").is_empty());
    assert_eq!(
        VariadicStringParams::parse_format_string("{self.a} {self.b"),
        vec![String::from("a")]
    );
    assert!(VariadicStringParams::parse_format_string("no placeholder").is_empty());
}

#[test]
fn extract_moves_past_the_brace() {
    let chars = chars_of("self.counter} rest");
    let mut pos = 0;
    let name = VariadicStringParams::extract_field_name(&chars, &mut pos);
    assert_eq!(name, Some(String::from("counter")));
    assert_eq!(pos, 13);
    let chars = chars_of("open");
    let mut pos = 0;
    assert_eq!(VariadicStringParams::extract_field_name(&chars, &mut pos), None);
    assert_eq!(pos, 4);
}

#[test]
fn parse_keeps_the_text() {
    let p = VariadicStringParams::parse(String::from("MySyncTask for {self.login}"));
    assert_eq!(p.format_str, "MySyncTask for {self.login}");
    assert_eq!(p.field_names, vec![String::from("login")]);
}

#[test]
fn format_plan_orders_arguments_by_placeholder() {
    let (text, args) = format_plan("{self.b} then {self.a} and {self.b}");
    assert_eq!(text, "{} then {} and {}");
    assert_eq!(args, vec![String::from("b"), String::from("a"), String::from("b")]);
    let (text, args) = format_plan("keep {} and {self.} and {open");
    assert_eq!(text, "keep {} and {self.} and {open");
    assert!(args.is_empty());
}

#[test]
fn titles_render_from_templates() {
    let fields = vec![
        (String::from("login"), String::from("Pierre")),
        (String::from("state"), String::from("3")),
    ];
    assert_eq!(
        render_template("MySyncTask for {self.login}", &fields),
        Some(String::from("MySyncTask for Pierre"))
    );
    assert_eq!(render_template("{self.state}", &fields), Some(String::from("3")));
    assert_eq!(
        render_template("MySyncTask state=|{self.state}|", &fields),
        Some(String::from("MySyncTask state=|3|"))
    );
    assert_eq!(render_template("{self.missing}", &fields), None);
    assert_eq!(render_template("First Task", &fields), Some(String::from("First Task")));
}
