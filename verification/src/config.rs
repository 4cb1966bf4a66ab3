//! The settings of a run: defaults, overridden by the configuration file,
//! overridden by the command line.

use crate::quotes::{CustomQuote, QuotePicker};
use crate::text::same_text;
use vstd::prelude::*;
use vstd::string::StringExecFns;

verus! {

/// The `[bundle]` table of a configuration file.
#[derive(Debug, Clone)]
pub struct BundleSection {
    pub separators: Option<bool>,
    pub deterministic: Option<bool>,
    pub output_file: Option<String>,
}

/// The `[banner.quote]` table of a configuration file.
#[derive(Debug, Clone)]
pub struct QuoteSection {
    pub enable: Option<bool>,
    pub picker: Option<QuotePicker>,
}

/// The `[banner]` table of a configuration file.
#[derive(Debug, Clone)]
pub struct BannerSection {
    pub enable: Option<bool>,
    pub quote: Option<QuoteSection>,
}

/// The `[formatter]` table of a configuration file.
#[derive(Debug, Clone)]
pub struct FormatterSection {
    pub enable: Option<bool>,
    pub path: Option<String>,
    pub args: Option<Vec<String>>,
}

/// What a configuration file holds. A table or a key that the file leaves
/// out is `None`.
#[derive(Debug, Clone)]
pub struct File {
    pub bundle: Option<BundleSection>,
    pub banner: Option<BannerSection>,
    pub formatter: Option<FormatterSection>,
    pub quotes: Vec<CustomQuote>,
}

/// What the command line holds. An option that was not given is `None`.
#[derive(Debug, Clone)]
pub struct Args {
    /// Load no configuration file.
    pub no_config: bool,
    /// The configuration file to load in place of the default ones.
    pub config: Option<String>,
    pub deterministic: Option<bool>,
    /// Where to write the bundle; `-` is the standard output.
    pub output_file: Option<String>,
    pub no_banner: Option<bool>,
    pub no_format: Option<bool>,
    pub formatter: Option<String>,
    /// The entry source file.
    pub entry: String,
}

/// The settings of a run.
#[derive(Debug, Clone)]
pub struct Config {
    pub bundle_separators: bool,
    pub deterministic: bool,
    /// Where to write the bundle; `None` is the standard output.
    pub output_file: Option<String>,
    pub no_banner: bool,
    pub enable_quote: bool,
    pub quote_picker: QuotePicker,
    pub custom_quotes: Vec<CustomQuote>,
    pub no_format: bool,
    pub formatter: String,
    pub formatter_args: Vec<String>,
    pub entry: String,
}

/// Which configuration file a run loads.
#[derive(Debug, Clone, PartialEq, Eq)]
pub enum ConfigSource {
    /// None at all.
    Nothing,
    /// This one, which must exist.
    Given(String),
    /// The first of the default files that exists, if any does.
    Defaults,
}

/// `value`, or `fallback` where there is none.
pub open spec fn or<T>(value: Option<T>, fallback: T) -> T {
    match value {
        Some(v) => v,
        None => fallback,
    }
}

/// The negation of an optional switch.
pub open spec fn negated(value: Option<bool>) -> Option<bool> {
    match value {
        Some(v) => Some(!v),
        None => None,
    }
}

/// Whether `path` stands for the standard streams.
pub fn path_is_stdio(path: &str) -> (stdio: bool)
    ensures
        stdio == (path@ == "-"@),
{
    same_text(path, "-")
}

/// `path`, unless it stands for the standard streams.
pub fn path_not_stdio(path: String) -> (file: Option<String>)
    ensures
        file == if path@ == "-"@ {
            None
        } else {
            Some(path)
        },
{
    if path_is_stdio(path.as_str()) {
        None
    } else {
        Some(path)
    }
}

/// The `[bundle]` table's value for `separators`.
pub open spec fn bundle_separators(bundle: Option<BundleSection>) -> Option<bool> {
    match bundle {
        Some(bundle) => bundle.separators,
        None => None,
    }
}

/// The `[bundle]` table's value for `deterministic`.
pub open spec fn bundle_deterministic(bundle: Option<BundleSection>) -> Option<bool> {
    match bundle {
        Some(bundle) => bundle.deterministic,
        None => None,
    }
}

/// The `[bundle]` table's value for `output`.
pub open spec fn bundle_output(bundle: Option<BundleSection>) -> Option<String> {
    match bundle {
        Some(bundle) => bundle.output_file,
        None => None,
    }
}

/// Writes the values of the `[bundle]` table over those of `config`.
fn merge_bundle(bundle: Option<BundleSection>, config: &mut Config)
    ensures
        final(config).bundle_separators == or(
            bundle_separators(bundle),
            old(config).bundle_separators,
        ),
        final(config).deterministic == or(bundle_deterministic(bundle), old(config).deterministic),
        final(config).output_file == match bundle_output(bundle) {
            Some(path) => Some(path),
            None => old(config).output_file,
        },
        final(config).no_banner == old(config).no_banner,
        final(config).enable_quote == old(config).enable_quote,
        final(config).quote_picker == old(config).quote_picker,
        final(config).custom_quotes == old(config).custom_quotes,
        final(config).no_format == old(config).no_format,
        final(config).formatter == old(config).formatter,
        final(config).formatter_args == old(config).formatter_args,
        final(config).entry == old(config).entry,
{
    if let Some(bundle) = bundle {
        if let Some(x) = bundle.separators {
            config.bundle_separators = x;
        }
        if let Some(x) = bundle.deterministic {
            config.deterministic = x;
        }
        if let Some(x) = bundle.output_file {
            config.output_file = Some(x);
        }
    }
}

/// The `[banner]` table's value for `enable`.
pub open spec fn banner_enable(banner: Option<BannerSection>) -> Option<bool> {
    match banner {
        Some(banner) => banner.enable,
        None => None,
    }
}

/// The `[banner]` table's `quote` table.
pub open spec fn banner_quote(banner: Option<BannerSection>) -> Option<QuoteSection> {
    match banner {
        Some(banner) => banner.quote,
        None => None,
    }
}

/// The `[banner.quote]` table's value for `enable`.
pub open spec fn quote_enable(quote: Option<QuoteSection>) -> Option<bool> {
    match quote {
        Some(quote) => quote.enable,
        None => None,
    }
}

/// The `[banner.quote]` table's value for `pick`.
pub open spec fn quote_picker(quote: Option<QuoteSection>) -> Option<QuotePicker> {
    match quote {
        Some(quote) => quote.picker,
        None => None,
    }
}

/// Writes the values of the `[banner]` table over those of `config`.
fn merge_banner(banner: Option<BannerSection>, config: &mut Config)
    ensures
        final(config).no_banner == or(negated(banner_enable(banner)), old(config).no_banner),
        final(config).enable_quote == or(
            quote_enable(banner_quote(banner)),
            old(config).enable_quote,
        ),
        final(config).quote_picker == or(
            quote_picker(banner_quote(banner)),
            old(config).quote_picker,
        ),
        final(config).bundle_separators == old(config).bundle_separators,
        final(config).deterministic == old(config).deterministic,
        final(config).output_file == old(config).output_file,
        final(config).custom_quotes == old(config).custom_quotes,
        final(config).no_format == old(config).no_format,
        final(config).formatter == old(config).formatter,
        final(config).formatter_args == old(config).formatter_args,
        final(config).entry == old(config).entry,
{
    if let Some(banner) = banner {
        if let Some(x) = banner.enable {
            config.no_banner = !x;
        }
        if let Some(quote) = banner.quote {
            if let Some(x) = quote.enable {
                config.enable_quote = x;
            }
            if let Some(x) = quote.picker {
                config.quote_picker = x;
            }
        }
    }
}

/// The `[formatter]` table's value for `enable`.
pub open spec fn formatter_enable(formatter: Option<FormatterSection>) -> Option<bool> {
    match formatter {
        Some(formatter) => formatter.enable,
        None => None,
    }
}

/// The `[formatter]` table's value for `path`.
pub open spec fn formatter_path(formatter: Option<FormatterSection>) -> Option<String> {
    match formatter {
        Some(formatter) => formatter.path,
        None => None,
    }
}

/// The `[formatter]` table's value for `args`.
pub open spec fn formatter_args(formatter: Option<FormatterSection>) -> Option<Vec<String>> {
    match formatter {
        Some(formatter) => formatter.args,
        None => None,
    }
}

/// Writes the values of the `[formatter]` table over those of `config`.
fn merge_formatter(formatter: Option<FormatterSection>, config: &mut Config)
    ensures
        final(config).no_format == or(negated(formatter_enable(formatter)), old(config).no_format),
        final(config).formatter == or(formatter_path(formatter), old(config).formatter),
        final(config).formatter_args == or(formatter_args(formatter), old(config).formatter_args),
        final(config).bundle_separators == old(config).bundle_separators,
        final(config).deterministic == old(config).deterministic,
        final(config).output_file == old(config).output_file,
        final(config).no_banner == old(config).no_banner,
        final(config).enable_quote == old(config).enable_quote,
        final(config).quote_picker == old(config).quote_picker,
        final(config).custom_quotes == old(config).custom_quotes,
        final(config).entry == old(config).entry,
{
    if let Some(formatter) = formatter {
        if let Some(x) = formatter.enable {
            config.no_format = !x;
        }
        if let Some(x) = formatter.path {
            config.formatter = x;
        }
        if let Some(x) = formatter.args {
            config.formatter_args = x;
        }
    }
}

impl File {
    /// The file's value for `bundle.separators`.
    pub open spec fn separators(&self) -> Option<bool> {
        bundle_separators(self.bundle)
    }

    /// The file's value for `bundle.deterministic`.
    pub open spec fn deterministic(&self) -> Option<bool> {
        bundle_deterministic(self.bundle)
    }

    /// The file's value for `bundle.output`.
    pub open spec fn output_file(&self) -> Option<String> {
        bundle_output(self.bundle)
    }

    /// The file's value for `banner.enable`.
    pub open spec fn banner_enable(&self) -> Option<bool> {
        banner_enable(self.banner)
    }

    /// The file's `banner.quote` table.
    pub open spec fn quote(&self) -> Option<QuoteSection> {
        banner_quote(self.banner)
    }

    /// The file's value for `banner.quote.enable`.
    pub open spec fn quote_enable(&self) -> Option<bool> {
        quote_enable(self.quote())
    }

    /// The file's value for `banner.quote.pick`.
    pub open spec fn quote_picker(&self) -> Option<QuotePicker> {
        quote_picker(self.quote())
    }

    /// The file's value for `formatter.enable`.
    pub open spec fn formatter_enable(&self) -> Option<bool> {
        formatter_enable(self.formatter)
    }

    /// The file's value for `formatter.path`.
    pub open spec fn formatter_path(&self) -> Option<String> {
        formatter_path(self.formatter)
    }

    /// The file's value for `formatter.args`.
    pub open spec fn formatter_args(&self) -> Option<Vec<String>> {
        formatter_args(self.formatter)
    }

    /// Writes the file's values over those of `config`. A key that the file
    /// leaves out keeps its value in `config`; the quotes are replaced in any
    /// case; the entry file stays.
    pub fn merge(self, config: &mut Config)
        ensures
            final(config).bundle_separators == or(self.separators(), old(config).bundle_separators),
            final(config).deterministic == or(self.deterministic(), old(config).deterministic),
            final(config).output_file == match self.output_file() {
                Some(path) => Some(path),
                None => old(config).output_file,
            },
            final(config).no_banner == or(negated(self.banner_enable()), old(config).no_banner),
            final(config).enable_quote == or(self.quote_enable(), old(config).enable_quote),
            final(config).quote_picker == or(self.quote_picker(), old(config).quote_picker),
            final(config).custom_quotes == self.quotes,
            final(config).no_format == or(negated(self.formatter_enable()), old(config).no_format),
            final(config).formatter == or(self.formatter_path(), old(config).formatter),
            final(config).formatter_args == or(self.formatter_args(), old(config).formatter_args),
            final(config).entry == old(config).entry,
    {
        let File { bundle, banner, formatter, quotes } = self;
        merge_bundle(bundle, config);
        merge_banner(banner, config);
        merge_formatter(formatter, config);
        config.custom_quotes = quotes;
    }
}

impl Args {
    /// Which configuration file the command line asks for.
    pub fn config_source(&self) -> (source: ConfigSource)
        ensures
            source == if self.no_config {
                ConfigSource::Nothing
            } else {
                match self.config {
                    Some(path) => ConfigSource::Given(path),
                    None => ConfigSource::Defaults,
                }
            },
    {
        if self.no_config {
            ConfigSource::Nothing
        } else {
            match &self.config {
                Some(path) => ConfigSource::Given(path.clone()),
                None => ConfigSource::Defaults,
            }
        }
    }

    /// Writes the options of the command line over the values of `config`.
    /// An option that was not given keeps its value in `config`. An output
    /// of `-` stands for the standard output.
    pub fn merge(self, config: &mut Config)
        ensures
            final(config).deterministic == or(self.deterministic, old(config).deterministic),
            final(config).output_file == match self.output_file {
                Some(path) => if path@ == "-"@ {
                    None
                } else {
                    Some(path)
                },
                None => old(config).output_file,
            },
            final(config).no_banner == or(self.no_banner, old(config).no_banner),
            final(config).no_format == or(self.no_format, old(config).no_format),
            final(config).formatter == or(self.formatter, old(config).formatter),
            final(config).entry == self.entry,
            final(config).bundle_separators == old(config).bundle_separators,
            final(config).enable_quote == old(config).enable_quote,
            final(config).quote_picker == old(config).quote_picker,
            final(config).custom_quotes == old(config).custom_quotes,
            final(config).formatter_args == old(config).formatter_args,
    {
        let Args {
            no_config,
            config: _,
            deterministic,
            output_file,
            no_banner,
            no_format,
            formatter,
            entry,
        } = self;
        if let Some(x) = deterministic {
            config.deterministic = x;
        }
        if let Some(path) = output_file {
            config.output_file = path_not_stdio(path);
        }
        if let Some(x) = no_banner {
            config.no_banner = x;
        }
        if let Some(x) = no_format {
            config.no_format = x;
        }
        if let Some(x) = formatter {
            config.formatter = x;
        }
        config.entry = entry;
    }
}

impl Config {
    /// Whether these are the settings of a run that was told nothing: with
    /// separators, banner, quote and formatting, any quote, `clang-format`
    /// without arguments, and the bundle on the standard output.
    pub open spec fn is_default(&self) -> bool {
        &&& self.bundle_separators
        &&& !self.deterministic
        &&& self.output_file.is_none()
        &&& !self.no_banner
        &&& self.enable_quote
        &&& self.quote_picker == QuotePicker::All
        &&& self.custom_quotes@.len() == 0
        &&& !self.no_format
        &&& self.formatter@ == "clang-format"@
        &&& self.formatter_args@.len() == 0
        &&& self.entry@.len() == 0
    }

    /// The settings of a run that was told nothing.
    pub fn defaults() -> (config: Self)
        ensures
            config.is_default(),
    {
        Config {
            bundle_separators: true,
            deterministic: false,
            output_file: None,
            no_banner: false,
            enable_quote: true,
            quote_picker: QuotePicker::All,
            custom_quotes: Vec::new(),
            no_format: false,
            formatter: String::from_str("clang-format"),
            formatter_args: Vec::new(),
            entry: String::new(),
        }
    }

    /// The settings of a run: each is what the command line says, else what
    /// the configuration file says, else the default.
    pub fn new(args: Args, file: Option<File>) -> (config: Self)
        ensures
            config.entry == args.entry,
            config.deterministic == or(
                args.deterministic,
                match file {
                    Some(f) => or(f.deterministic(), false),
                    None => false,
                },
            ),
            config.no_banner == or(
                args.no_banner,
                match file {
                    Some(f) => or(negated(f.banner_enable()), false),
                    None => false,
                },
            ),
            config.no_format == or(
                args.no_format,
                match file {
                    Some(f) => or(negated(f.formatter_enable()), false),
                    None => false,
                },
            ),
            config.output_file == match args.output_file {
                Some(path) => if path@ == "-"@ {
                    None
                } else {
                    Some(path)
                },
                None => match file {
                    Some(f) => f.output_file(),
                    None => None,
                },
            },
            match args.formatter {
                Some(path) => config.formatter == path,
                None => match file {
                    Some(f) => match f.formatter_path() {
                        Some(path) => config.formatter == path,
                        None => config.formatter@ == "clang-format"@,
                    },
                    None => config.formatter@ == "clang-format"@,
                },
            },
            config.bundle_separators == match file {
                Some(f) => or(f.separators(), true),
                None => true,
            },
            config.enable_quote == match file {
                Some(f) => or(f.quote_enable(), true),
                None => true,
            },
            config.quote_picker == match file {
                Some(f) => or(f.quote_picker(), QuotePicker::All),
                None => QuotePicker::All,
            },
            match file {
                Some(f) => config.custom_quotes == f.quotes,
                None => config.custom_quotes@.len() == 0,
            },
            match file {
                Some(f) => match f.formatter_args() {
                    Some(args) => config.formatter_args == args,
                    None => config.formatter_args@.len() == 0,
                },
                None => config.formatter_args@.len() == 0,
            },
    {
        let mut config = Config::defaults();
        if let Some(file) = file {
            file.merge(&mut config);
        }
        args.merge(&mut config);
        config
    }
}

} // verus!
