use cbundl::config::{
    path_is_stdio, path_not_stdio, Args, BannerSection, BundleSection, Config, ConfigSource, File,
    FormatterSection, QuoteSection,
};
use cbundl::quotes::{CustomQuote, QuotePicker};

fn bare_args(entry: &str) -> Args {
    Args {
        no_config: false,
        config: None,
        deterministic: None,
        output_file: None,
        no_banner: None,
        no_format: None,
        formatter: None,
        entry: entry.to_string(),
    }
}

fn full_file() -> File {
    File {
        bundle: Some(BundleSection {
            separators: Some(false),
            deterministic: Some(true),
            output_file: Some("out.c".to_string()),
        }),
        banner: Some(BannerSection {
            enable: Some(false),
            quote: Some(QuoteSection { enable: Some(false), picker: Some(QuotePicker::Custom) }),
        }),
        formatter: Some(FormatterSection {
            enable: Some(false),
            path: Some("indent".to_string()),
            args: Some(vec!["-kr".to_string()]),
        }),
        quotes: vec![CustomQuote { text: "t".to_string(), author: "a".to_string() }],
    }
}

#[test]
fn defaults_hold_where_nothing_is_said() {
    let config = Config::new(bare_args("main.c"), None);
    assert!(config.bundle_separators);
    assert!(!config.deterministic);
    assert_eq!(config.output_file, None);
    assert!(!config.no_banner);
    assert!(config.enable_quote);
    assert_eq!(config.quote_picker, QuotePicker::All);
    assert!(config.custom_quotes.is_empty());
    assert!(!config.no_format);
    assert_eq!(config.formatter, "clang-format");
    assert!(config.formatter_args.is_empty());
    assert_eq!(config.entry, "main.c");
}

#[test]
fn file_overrides_defaults() {
    let config = Config::new(bare_args("main.c"), Some(full_file()));
    assert!(!config.bundle_separators);
    assert!(config.deterministic);
    assert_eq!(config.output_file, Some("out.c".to_string()));
    assert!(config.no_banner);
    assert!(!config.enable_quote);
    assert_eq!(config.quote_picker, QuotePicker::Custom);
    assert_eq!(config.custom_quotes.len(), 1);
    assert_eq!(config.custom_quotes[0].author, "a");
    assert!(config.no_format);
    assert_eq!(config.formatter, "indent");
    assert_eq!(config.formatter_args, vec!["-kr".to_string()]);
    assert_eq!(config.entry, "main.c");
}

#[test]
fn empty_file_keeps_defaults() {
    let file = File { bundle: None, banner: None, formatter: None, quotes: vec![] };
    let config = Config::new(bare_args("main.c"), Some(file));
    assert!(config.bundle_separators);
    assert!(!config.deterministic);
    assert_eq!(config.output_file, None);
    assert!(!config.no_banner);
    assert!(config.enable_quote);
    assert_eq!(config.quote_picker, QuotePicker::All);
    assert!(!config.no_format);
    assert_eq!(config.formatter, "clang-format");
}

#[test]
fn command_line_overrides_file() {
    let mut args = bare_args("e.c");
    args.deterministic = Some(false);
    args.output_file = Some("cli.c".to_string());
    args.no_banner = Some(false);
    args.no_format = Some(false);
    args.formatter = Some("astyle".to_string());
    let config = Config::new(args, Some(full_file()));
    assert!(!config.deterministic);
    assert_eq!(config.output_file, Some("cli.c".to_string()));
    assert!(!config.no_banner);
    assert!(!config.no_format);
    assert_eq!(config.formatter, "astyle");
    assert!(!config.bundle_separators);
    assert!(!config.enable_quote);
    assert_eq!(config.formatter_args, vec!["-kr".to_string()]);
    assert_eq!(config.entry, "e.c");
}

#[test]
fn dash_on_the_command_line_is_the_standard_output() {
    let mut args = bare_args("e.c");
    args.output_file = Some("-".to_string());
    let config = Config::new(args, Some(full_file()));
    assert_eq!(config.output_file, None);
}

#[test]
fn stdio_path_is_a_single_dash() {
    assert!(path_is_stdio("-"));
    assert!(!path_is_stdio("--"));
    assert!(!path_is_stdio(""));
    assert!(!path_is_stdio("./-"));
    assert_eq!(path_not_stdio("-".to_string()), None);
    assert_eq!(path_not_stdio("out.c".to_string()), Some("out.c".to_string()));
}

#[test]
fn config_source_follows_the_command_line() {
    let mut args = bare_args("e.c");
    assert_eq!(args.config_source(), ConfigSource::Defaults);
    args.config = Some("my.toml".to_string());
    assert_eq!(args.config_source(), ConfigSource::Given("my.toml".to_string()));
    args.no_config = true;
    assert_eq!(args.config_source(), ConfigSource::Nothing);
}

#[test]
fn merges_layer_in_order() {
    let mut config = Config::defaults();
    full_file().merge(&mut config);
    assert!(config.deterministic);
    assert_eq!(config.entry, "");
    let mut args = bare_args("main.c");
    args.deterministic = Some(false);
    args.merge(&mut config);
    assert!(!config.deterministic);
    assert_eq!(config.formatter, "indent");
    assert_eq!(config.entry, "main.c");
}
