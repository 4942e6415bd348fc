use entrusted::format::{format_positional, render_template, FormatArg};

#[test]
fn positional_placeholder_is_replaced() {
    let args = [("", "World")];
    let f = FormatArg { format_str: "Hello {0}!", args: &args };
    assert_eq!(f.to_text(), "Hello World!");
}

#[test]
fn named_placeholders_are_replaced() {
    let args = [("name", "Bob"), ("age", "7")];
    assert_eq!(render_template("{name} is {age}", &args), "Bob is 7");
}

#[test]
fn implicit_placeholders_take_arguments_in_turn() {
    let args = [("", "a"), ("", "b")];
    assert_eq!(render_template("{} and {}", &args), "a and b");
}

#[test]
fn escaped_braces_are_printed_once() {
    let args: [(&str, &str); 0] = [];
    assert_eq!(render_template("{{x}}", &args), "{x}");
}

#[test]
fn placeholder_without_argument_is_kept() {
    let args = [("", "a")];
    assert_eq!(render_template("value {5}", &args), "value {5}");
}

#[test]
fn unknown_named_placeholder_is_kept() {
    let args = [("name", "Bob")];
    assert_eq!(render_template("{unknown} here", &args), "{unknown} here");
}

#[test]
fn plain_template_is_kept() {
    let args = [("", "unused")];
    assert_eq!(render_template("no placeholder", &args), "no placeholder");
}

#[test]
fn positional_parameters_fill_numbered_placeholders() {
    assert_eq!(format_positional("Copying PDF input to {0}", &["/tmp/a.pdf"]), "Copying PDF input to /tmp/a.pdf");
    assert_eq!(format_positional("{1}-{0}", &["a", "b"]), "b-a");
}

#[test]
fn two_next_placeholders_take_the_arguments_in_turn() {
    let args = [("", "a"), ("", "b")];
    let f = FormatArg { format_str: "x {} y {} z", args: &args };
    assert_eq!(f.to_text(), "x a y b z");
}

#[test]
fn doubled_braces_around_a_placeholder_are_kept_as_text() {
    let args = [("", "a")];
    let f = FormatArg { format_str: "x {{0}} y", args: &args };
    assert_eq!(f.to_text(), "x {0} y");
}
