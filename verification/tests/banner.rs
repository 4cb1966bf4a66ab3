use cbundl::banner::{center, Banner};
use cbundl::header::{Header, HeaderSource};
use cbundl::quotes::{CustomQuote, QuotePicker, Quotes};

fn quotes(deterministic: bool) -> Quotes {
    Quotes {
        deterministic,
        picker: QuotePicker::Custom,
        custom_quotes: vec![CustomQuote {
            text: "first line\nsecond line  ".to_string(),
            author: "someone".to_string(),
        }],
    }
}

fn expected_banner(title: &str, repository: &str, date: &str, quote: &[&str], author: &str) -> String {
    let art = [
        r#"         )                (    ("#,
        r#"      ( /(    (           )\ ) )\"#,
        r#"  (   )\())  ))\   (     (()/(((_)"#,
        r#"  )\ ((_)\  /((_)  )\ )   ((_))_"#,
        r#" ((_)| |(_)(_))(  _(_/(   _| || |"#,
        r#"/ _| | '_ \| || || ' \))/ _` || |"#,
        r#"\__| |_.__/ \_,_||_||_| \__,_||_|"#,
    ];
    let width = 56.max(title.len()).max(repository.len()) + 4;
    let mut out = String::from("/**\n *\n");
    for line in art {
        out.push_str(&format!(" * {:^1$}\n", line, width));
    }
    out.push_str(" * \n");
    out.push_str(&format!(" * {:^1$}\n", title, width));
    out.push_str(&format!(" * {:^1$}\n", repository, width));
    out.push_str(" *\n");
    out.push_str(&format!(" * {:^1$}\n", format!("Generated at: {}", date), width));
    out.push_str(" *\n *\n");
    for line in quote {
        out.push_str(&format!(" * {}\n", line));
    }
    out.push_str(&format!(" *   - {}\n *\n */\n\n", author));
    out
}

#[test]
fn deterministic_banner_carries_the_first_built_in_quote() {
    let banner = Banner { quotes: quotes(false), deterministic: true };
    let mut out = String::from("x");
    banner.write_banner(&mut out, "cbundl 1.0", "https://example.org/cbundl", "Thu 01 Jan 1970");
    assert_eq!(
        out,
        format!(
            "x{}",
            expected_banner(
                "cbundl 1.0",
                "https://example.org/cbundl",
                "Thu 01 Jan 1970",
                &["Talk is cheap. Show me the code."],
                "Linus Torvalds"
            )
        )
    );
}

#[test]
fn banner_centres_the_title_in_sixty_columns() {
    let banner = Banner { quotes: quotes(true), deterministic: true };
    let out = banner.process("cbundl 1.0", "repo", "now", "int main;\n");
    let title_row = out.lines().nth(10).unwrap();
    assert_eq!(
        title_row,
        format!(" * {}cbundl 1.0{}", " ".repeat(25), " ".repeat(25))
    );
    assert!(out.ends_with(" */\n\nint main;\n"));
    assert!(out.starts_with("/**\n *\n"));
}

#[test]
fn banner_grows_with_a_long_title() {
    let title = "t".repeat(70);
    let banner = Banner { quotes: quotes(true), deterministic: true };
    let out = banner.process(&title, "repo", "now", "");
    assert_eq!(
        out,
        expected_banner(&title, "repo", "now", &["Talk is cheap. Show me the code."], "Linus Torvalds")
    );
    let repo_row = out.lines().nth(11).unwrap();
    assert_eq!(repo_row, format!(" * {}repo{}", " ".repeat(35), " ".repeat(35)));
}

#[test]
fn banner_carries_the_picked_quote_line_by_line() {
    let banner = Banner { quotes: quotes(false), deterministic: false };
    let out = banner.process("cbundl 1.0", "repo", "now", "code");
    assert_eq!(
        out,
        format!(
            "{}code",
            expected_banner("cbundl 1.0", "repo", "now", &["first line", "second line"], "someone")
        )
    );
}

#[test]
fn stages_have_their_names() {
    assert_eq!(Banner::name(), "banner");
    assert_eq!(Header::name(), "header");
}

#[test]
fn header_text_is_trimmed_and_set_off_by_an_empty_line() {
    let header = Header { source: HeaderSource::Text("/* mine */ \n\n\t".to_string()) };
    assert_eq!(header.process("ignored", "int x;\n"), "/* mine */\n\nint x;\n");
    assert_eq!(header.source.file(), None);
}

#[test]
fn header_from_a_file_uses_what_was_loaded() {
    let header = Header { source: HeaderSource::File("head.txt".to_string()) };
    assert_eq!(header.source.file(), Some(&"head.txt".to_string()));
    assert_eq!(header.process("  // loaded\n", "int x;\n"), "  // loaded\n\nint x;\n");
    assert_eq!(header.process("", ""), "\n\n");
}

#[test]
fn centring_puts_the_odd_space_at_the_right() {
    assert_eq!(center("ab", 5), " ab  ");
    assert_eq!(center("ab", 6), "  ab  ");
    assert_eq!(center("ab", 3), "ab ");
    assert_eq!(center("ab", 2), "ab");
    assert_eq!(center("ab", 0), "ab");
    assert_eq!(center("", 3), "   ");
}

#[test]
fn centring_agrees_with_the_standard_format() {
    for text in ["", "a", "ab", "abc", "ä€", "  x ", "/ _| | '_ \\| || |"] {
        for width in 0..24usize {
            assert_eq!(center(text, width), format!("{:^1$}", text, width));
        }
    }
}
