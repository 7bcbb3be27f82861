use pretty_assertions::assertion::str_eq_failure;
use pretty_assertions::config::Config;

#[test]
fn passes_str() {
    let a = "some value";
    assert!(str_eq_failure(&Config::new(), a, a, None).is_none());
}

#[test]
fn passes_string() {
    let a: String = "some value".to_string();
    assert!(str_eq_failure(&Config::new(), &a, &a, None).is_none());
}

#[test]
fn macros_passes_comparable_types() {
    let s0: &'static str = "foo";
    let s1: String = "foo".to_string();
    assert!(str_eq_failure(&Config::new(), s0, &s1, None).is_none());
}

struct MyString(String);

impl AsRef<str> for MyString {
    fn as_ref(&self) -> &str {
        &self.0
    }
}

#[test]
fn passes_as_ref_types() {
    let s0 = MyString("foo".to_string());
    let s1 = "foo".to_string();
    assert!(str_eq_failure(&Config::new(), s0.as_ref(), s1.as_ref(), None).is_none());
}

const FOO_BAR_BAZ: &str = "assertion failed: `(left == right)`

\u{1b}[1mDiff\u{1b}[0m \u{1b}[31m< left\u{1b}[0m / \u{1b}[32mright >\u{1b}[0m :
 foo
\u{1b}[31m<ba\u{1b}[0m\u{1b}[1;48;5;52;31mr\u{1b}[0m
\u{1b}[32m>ba\u{1b}[0m\u{1b}[1;48;5;22;32mz\u{1b}[0m

";

#[test]
fn str_eq_failure_as_ref_types() {
    let s0 = MyString("foo\nbar".to_string());
    let s1 = "foo\nbaz".to_string();
    let message = str_eq_failure(&Config::new(), s0.as_ref(), s1.as_ref(), None);
    assert_eq!(message.as_deref(), Some(FOO_BAR_BAZ));
}

#[test]
fn str_eq_failure_foo() {
    let message = str_eq_failure(&Config::new(), "foo\nbar", "foo\nbaz", None);
    assert_eq!(message.as_deref(), Some(FOO_BAR_BAZ));
}

#[test]
fn str_eq_failure_custom_message() {
    let message = str_eq_failure(&Config::new(), "666", "999", Some("custom panic message"));
    let expected = "assertion failed: `(left == right)`: custom panic message

\u{1b}[1mDiff\u{1b}[0m \u{1b}[31m< left\u{1b}[0m / \u{1b}[32mright >\u{1b}[0m :
\u{1b}[31m<\u{1b}[0m\u{1b}[1;48;5;52;31m666\u{1b}[0m
\u{1b}[32m>\u{1b}[0m\u{1b}[1;48;5;22;32m999\u{1b}[0m

";
    assert_eq!(message.as_deref(), Some(expected));
}

#[test]
fn str_eq_failure_empty_first() {
    let message = str_eq_failure(&Config::new(), "", "foo", None);
    let expected = "assertion failed: `(left == right)`

\u{1b}[1mDiff\u{1b}[0m \u{1b}[31m< left\u{1b}[0m / \u{1b}[32mright >\u{1b}[0m :
\u{1b}[32m>foo\u{1b}[0m

";
    assert_eq!(message.as_deref(), Some(expected));
}
