use pretty_assertions::config::Config;
use pretty_assertions::inline::write_inline_diff;
use pretty_assertions::printer::write_lines;

// ANSI terminal codes used in our outputs.
//
// Interpolate these into test strings to make expected values easier to read.
const RED_LIGHT: &str = "\u{1b}[31m";
const GREEN_LIGHT: &str = "\u{1b}[32m";
const RED_HEAVY: &str = "\u{1b}[1;48;5;52;31m";
const GREEN_HEAVY: &str = "\u{1b}[1;48;5;22;32m";
const RESET: &str = "\u{1b}[0m";

/// Given that both of our diff printing functions have the same
/// type signature, we can reuse the same test code for them.
fn check_printer(printer: fn(&mut String, &Config, &str, &str), left: &str, right: &str, expected: &str) {
    let mut actual = String::new();
    printer(&mut actual, &Config::new(), left, right);

    println!(
        "## left ##\n\
         {}\n\
         ## right ##\n\
         {}\n\
         ## actual diff ##\n\
         {}\n\
         ## expected diff ##\n\
         {}",
        left, right, actual, expected
    );
    assert_eq!(actual, expected);
}

#[test]
fn printer_write_inline_diff_empty() {
    let left = "";
    let right = "";
    let expected = format!(
        "{red_light}<{reset}\n\
         {green_light}>{reset}\n",
        red_light = RED_LIGHT,
        green_light = GREEN_LIGHT,
        reset = RESET,
    );

    check_printer(write_inline_diff, left, right, &expected);
}

#[test]
fn printer_write_inline_diff_added() {
    let left = "";
    let right = "polymerase";
    let expected = format!(
        "{red_light}<{reset}\n\
         {green_light}>{reset}{green_heavy}polymerase{reset}\n",
        red_light = RED_LIGHT,
        green_light = GREEN_LIGHT,
        green_heavy = GREEN_HEAVY,
        reset = RESET,
    );

    check_printer(write_inline_diff, left, right, &expected);
}

#[test]
fn printer_write_inline_diff_removed() {
    let left = "polyacrylamide";
    let right = "";
    let expected = format!(
        "{red_light}<{reset}{red_heavy}polyacrylamide{reset}\n\
         {green_light}>{reset}\n",
        red_light = RED_LIGHT,
        green_light = GREEN_LIGHT,
        red_heavy = RED_HEAVY,
        reset = RESET,
    );

    check_printer(write_inline_diff, left, right, &expected);
}

#[test]
fn printer_write_inline_diff_changed() {
    let left = "polymerase";
    let right = "polyacrylamide";
    let expected = format!(
        "{red_light}<poly{reset}{red_heavy}me{reset}{red_light}ra{reset}{red_heavy}s{reset}{red_light}e{reset}\n\
         {green_light}>poly{reset}{green_heavy}ac{reset}{green_light}r{reset}{green_heavy}yl{reset}{green_light}a{reset}{green_heavy}mid{reset}{green_light}e{reset}\n",
        red_light = RED_LIGHT,
        green_light = GREEN_LIGHT,
        red_heavy = RED_HEAVY,
        green_heavy = GREEN_HEAVY,
        reset = RESET,
    );

    check_printer(write_inline_diff, left, right, &expected);
}

/// If one of our strings is empty, it should not be shown at all in the output.
#[test]
fn printer_write_lines_empty_string() {
    let left = "";
    let right = "content";
    let expected = format!(
        "{green_light}>content{reset}\n",
        green_light = GREEN_LIGHT,
        reset = RESET,
    );

    check_printer(write_lines, left, right, &expected);
}

/// Realistic multiline struct diffing case.
#[test]
fn printer_write_lines_struct() {
    let left = r#"Some(
    Foo {
        lorem: "Hello World!",
        ipsum: 42,
        dolor: Ok(
            "hey",
        ),
    },
)"#;
    let right = r#"Some(
    Foo {
        lorem: "Hello Wrold!",
        ipsum: 42,
        dolor: Ok(
            "hey ho!",
        ),
    },
)"#;
    let expected = format!(
        r#" Some(
     Foo {{
{red_light}<        lorem: "Hello W{reset}{red_heavy}o{reset}{red_light}rld!",{reset}
{green_light}>        lorem: "Hello Wr{reset}{green_heavy}o{reset}{green_light}ld!",{reset}
         ipsum: 42,
         dolor: Ok(
{red_light}<            "hey",{reset}
{green_light}>            "hey{reset}{green_heavy} ho!{reset}{green_light}",{reset}
         ),
     }},
 )
"#,
        red_light = RED_LIGHT,
        red_heavy = RED_HEAVY,
        green_light = GREEN_LIGHT,
        green_heavy = GREEN_HEAVY,
        reset = RESET,
    );

    check_printer(write_lines, left, right, &expected);
}

/// Relistic multiple line chunks
///
/// We can't support realistic line diffing in large blocks
/// (also, it's unclear how usefult this is)
///
/// So if we have more than one line in a single removal chunk, disable inline diffing.
#[test]
fn write_lines_multiline_block() {
    let left = r#"Proboscis
Cabbage"#;
    let right = r#"Probed
Caravaggio"#;
    let expected = format!(
        r#"{red_light}<Proboscis{reset}
{red_light}<Cabbage{reset}
{green_light}>Probed{reset}
{green_light}>Caravaggio{reset}
"#,
        red_light = RED_LIGHT,
        green_light = GREEN_LIGHT,
        reset = RESET,
    );

    check_printer(write_lines, left, right, &expected);
}

/// Single deletion line, multiple insertions - no inline diffing.
#[test]
fn write_lines_multiline_insert() {
    let left = r#"Cabbage"#;
    let right = r#"Probed
Caravaggio"#;
    let expected = format!(
        r#"{red_light}<Cabbage{reset}
{green_light}>Probed{reset}
{green_light}>Caravaggio{reset}
"#,
        red_light = RED_LIGHT,
        green_light = GREEN_LIGHT,
        reset = RESET,
    );

    check_printer(write_lines, left, right, &expected);
}

/// Multiple deletion, single insertion - no inline diffing.
#[test]
fn write_lines_multiline_delete() {
    let left = r#"Proboscis
Cabbage"#;
    let right = r#"Probed"#;
    let expected = format!(
        r#"{red_light}<Proboscis{reset}
{red_light}<Cabbage{reset}
{green_light}>Probed{reset}
"#,
        red_light = RED_LIGHT,
        green_light = GREEN_LIGHT,
        reset = RESET,
    );

    check_printer(write_lines, left, right, &expected);
}

/// Regression test for multiline highlighting issue
#[test]
fn printer_write_lines_issue12() {
    let left = r#"[
    0,
    0,
    0,
    128,
    10,
    191,
    5,
    64,
]"#;
    let right = r#"[
    84,
    248,
    45,
    64,
]"#;
    let expected = format!(
        r#" [
{red_light}<    0,{reset}
{red_light}<    0,{reset}
{red_light}<    0,{reset}
{red_light}<    128,{reset}
{red_light}<    10,{reset}
{red_light}<    191,{reset}
{red_light}<    5,{reset}
{green_light}>    84,{reset}
{green_light}>    248,{reset}
{green_light}>    45,{reset}
     64,
 ]
"#,
        red_light = RED_LIGHT,
        green_light = GREEN_LIGHT,
        reset = RESET,
    );

    check_printer(write_lines, left, right, &expected);
}

    #[test]
fn both_trailing() {
    let left = "fan\n";
    let right = "mug\n";
    // Note the additional space at the bottom is caused by a trailing newline
    // adding an additional line with zero content to both sides of the diff
    let expected = format!(
        r#"{red_light}<{reset}{red_heavy}fan{reset}
{green_light}>{reset}{green_heavy}mug{reset}
 
"#,
        red_light = RED_LIGHT,
        red_heavy = RED_HEAVY,
        green_light = GREEN_LIGHT,
        green_heavy = GREEN_HEAVY,
        reset = RESET,
    );

    check_printer(write_lines, left, right, &expected);
}

#[test]
fn both_leading() {
    let left = "\nfan";
    let right = "\nmug";
    // Note the additional space at the top is caused by a leading newline
    // adding an additional line with zero content to both sides of the diff
    let expected = format!(
        r#" 
{red_light}<{reset}{red_heavy}fan{reset}
{green_light}>{reset}{green_heavy}mug{reset}
"#,
        red_light = RED_LIGHT,
        red_heavy = RED_HEAVY,
        green_light = GREEN_LIGHT,
        green_heavy = GREEN_HEAVY,
        reset = RESET,
    );

    check_printer(write_lines, left, right, &expected);
}

#[test]
fn leading_added() {
    let left = "fan";
    let right = "\nmug";
    let expected = format!(
        r#"{red_light}<fan{reset}
{green_light}>{reset}
{green_light}>mug{reset}
"#,
        red_light = RED_LIGHT,
        green_light = GREEN_LIGHT,
        reset = RESET,
    );

    check_printer(write_lines, left, right, &expected);
}

#[test]
fn leading_deleted() {
    let left = "\nfan";
    let right = "mug";
    let expected = format!(
        r#"{red_light}<{reset}
{red_light}<fan{reset}
{green_light}>mug{reset}
"#,
        red_light = RED_LIGHT,
        green_light = GREEN_LIGHT,
        reset = RESET,
    );

    check_printer(write_lines, left, right, &expected);
}

#[test]
fn trailing_added() {
    let left = "fan";
    let right = "mug\n";
    let expected = format!(
        r#"{red_light}<fan{reset}
{green_light}>mug{reset}
{green_light}>{reset}
"#,
        red_light = RED_LIGHT,
        green_light = GREEN_LIGHT,
        reset = RESET,
    );

    check_printer(write_lines, left, right, &expected);
}

/// Regression test for double abort
///
/// See: https://github.com/rust-pretty-assertions/rust-pretty-assertions/issues/96
#[test]
fn trailing_deleted() {
    // The below inputs caused an abort via double panic
    // we panicked at 'insertion followed by deletion'
    let left = "fan\n";
    let right = "mug";
    let expected = format!(
        r#"{red_light}<{reset}{red_heavy}fan{reset}
{green_light}>{reset}{green_heavy}mug{reset}
{red_light}<{reset}
"#,
        red_light = RED_LIGHT,
        red_heavy = RED_HEAVY,
        green_light = GREEN_LIGHT,
        green_heavy = GREEN_HEAVY,
        reset = RESET,
    );

    check_printer(write_lines, left, right, &expected);
}
