use cbundl::quotes::{CustomQuote, QuotePicker, Quotes};

fn custom(text: &str, author: &str) -> CustomQuote {
    CustomQuote { text: text.to_string(), author: author.to_string() }
}

fn lines_of(quotes: &Quotes) -> (Vec<String>, String) {
    let quote = quotes.random();
    let mut lines = Vec::new();
    let mut it = quote.lines();
    while let Some(line) = it.next() {
        lines.push(line);
    }
    (lines, quote.author().to_string())
}

const BUILT_IN_AUTHORS: [&str; 4] =
    ["Linus Torvalds", "Harold Abelson", "Donald Knuth", "Edsger W. Dijkstra"];

#[test]
fn deterministic_pick_is_the_first_built_in_quote() {
    for picker in [QuotePicker::All, QuotePicker::Builtin] {
        let quotes = Quotes {
            deterministic: true,
            picker,
            custom_quotes: vec![custom("mine", "me")],
        };
        assert_eq!(
            lines_of(&quotes),
            (vec!["Talk is cheap. Show me the code.".to_string()], "Linus Torvalds".to_string())
        );
    }
}

#[test]
fn deterministic_custom_pick_is_the_first_custom_quote() {
    let quotes = Quotes {
        deterministic: true,
        picker: QuotePicker::Custom,
        custom_quotes: vec![custom("first", "a"), custom("second", "b")],
    };
    assert_eq!(lines_of(&quotes), (vec!["first".to_string()], "a".to_string()));
}

#[test]
fn custom_pick_without_custom_quotes_is_built_in() {
    let quotes =
        Quotes { deterministic: true, picker: QuotePicker::Custom, custom_quotes: vec![] };
    assert_eq!(lines_of(&quotes).1, "Linus Torvalds");
    let quotes =
        Quotes { deterministic: false, picker: QuotePicker::Custom, custom_quotes: vec![] };
    for _ in 0..50 {
        assert!(BUILT_IN_AUTHORS.contains(&lines_of(&quotes).1.as_str()));
    }
}

#[test]
fn custom_quote_is_split_into_trimmed_lines() {
    let quotes = Quotes {
        deterministic: true,
        picker: QuotePicker::Custom,
        custom_quotes: vec![custom("  one  \r\ntwo\t\n\n three", "me")],
    };
    assert_eq!(
        lines_of(&quotes).0,
        vec!["  one".to_string(), "two".to_string(), "".to_string(), " three".to_string()]
    );
}

#[test]
fn random_built_in_pick_is_a_built_in_quote() {
    let quotes = Quotes {
        deterministic: false,
        picker: QuotePicker::Builtin,
        custom_quotes: vec![custom("mine", "me")],
    };
    for _ in 0..100 {
        assert!(BUILT_IN_AUTHORS.contains(&lines_of(&quotes).1.as_str()));
    }
}

#[test]
fn random_custom_pick_is_a_custom_quote() {
    let quotes = Quotes {
        deterministic: false,
        picker: QuotePicker::Custom,
        custom_quotes: vec![custom("x", "a"), custom("y", "b"), custom("z", "c")],
    };
    for _ in 0..100 {
        let (lines, author) = lines_of(&quotes);
        assert!(
            (lines == vec!["x".to_string()] && author == "a")
                || (lines == vec!["y".to_string()] && author == "b")
                || (lines == vec!["z".to_string()] && author == "c")
        );
    }
}

#[test]
fn random_pick_among_all_reaches_both_sorts() {
    let quotes = Quotes {
        deterministic: false,
        picker: QuotePicker::All,
        custom_quotes: vec![custom("x", "a")],
    };
    let mut built_in = 0;
    let mut own = 0;
    for _ in 0..400 {
        let author = lines_of(&quotes).1;
        if author == "a" {
            own += 1;
        } else {
            assert!(BUILT_IN_AUTHORS.contains(&author.as_str()));
            built_in += 1;
        }
    }
    assert!(built_in > 0);
    assert!(own > 0);
}

#[test]
fn quote_at_an_index_is_built_in_first_then_custom() {
    let quotes = Quotes {
        deterministic: false,
        picker: QuotePicker::All,
        custom_quotes: vec![custom("x", "a"), custom("y", "b")],
    };
    assert_eq!(quotes.any_at(0).author(), "Linus Torvalds");
    assert_eq!(quotes.any_at(3).author(), "Edsger W. Dijkstra");
    assert_eq!(quotes.any_at(4).author(), "a");
    assert_eq!(quotes.any_at(5).author(), "b");
    assert_eq!(quotes.custom_at(1).author(), "b");
    assert_eq!(Quotes::built_in_at(2).author(), "Donald Knuth");
    let second = Quotes::built_in_at(1);
    let mut it = second.lines();
    assert_eq!(it.size_hint(), (2, Some(2)));
    assert_eq!(it.next(), Some("Programs must be written for people to read,".to_string()));
    assert_eq!(it.next(), Some("and only incidentally for machines to execute.".to_string()));
    assert_eq!(it.next(), None);
}
