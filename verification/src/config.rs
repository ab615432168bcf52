//! The configuration of a run: which list is read, in which format, and how long a
//! probe may take.

use crate::decimal::{parse_unsigned, unsigned_value};
use crate::extract::LineFormat;
use crate::text::chars_of;
use std::time::Duration;
use vstd::prelude::*;

verus! {

/// The connection timeout, in milliseconds, of a run that names none.
pub const DEFAULT_CONN_TIMEOUT: u64 = 1000;

/// The list that a run reads.
#[derive(Debug, PartialEq, Eq)]
pub enum FileType {
    /// The bridge list in the file at this path.
    Obfs4(String),
    /// The proxy list in the file at this path.
    Proxy(String),
    /// The bridge list that is built in.
    DefaultObfs4,
}

/// The configuration of a run.
#[derive(Debug, PartialEq, Eq)]
pub struct Config {
    /// The list to read.
    pub file: FileType,
    /// How long one probe may take to connect.
    pub conn_timeout: Duration,
}

/// Why there is no configuration.
#[derive(Debug, PartialEq, Eq)]
pub enum ConfigError {
    /// The command line is not one that the program takes. Holds the message to
    /// show, which for a request for help is the help text.
    Usage(String),
    /// No file type is named.
    MissingFileType,
    /// The file type named, held here, is none of those known.
    UnknownFileType(String),
    /// The file type needs the path of a file, and none is given.
    MissingFilePath,
    /// The timeout given, held here, is no number of milliseconds that fits in 64
    /// bits.
    InvalidTimeout(String),
}

/// A `FileType` as contracts see it.
pub enum FileTypeView {
    Obfs4(Seq<char>),
    Proxy(Seq<char>),
    DefaultObfs4,
}

/// A `Config` as contracts see it.
pub struct ConfigView {
    pub file: FileTypeView,
    pub conn_timeout: Duration,
}

/// A `ConfigError` as contracts see it.
pub enum ConfigErrorView {
    Usage(Seq<char>),
    MissingFileType,
    UnknownFileType(Seq<char>),
    MissingFilePath,
    InvalidTimeout(Seq<char>),
}

impl View for FileType {
    type V = FileTypeView;

    open spec fn view(&self) -> FileTypeView {
        match *self {
            FileType::Obfs4(path) => FileTypeView::Obfs4(path@),
            FileType::Proxy(path) => FileTypeView::Proxy(path@),
            FileType::DefaultObfs4 => FileTypeView::DefaultObfs4,
        }
    }
}

impl View for Config {
    type V = ConfigView;

    open spec fn view(&self) -> ConfigView {
        ConfigView { file: self.file@, conn_timeout: self.conn_timeout }
    }
}

impl View for ConfigError {
    type V = ConfigErrorView;

    open spec fn view(&self) -> ConfigErrorView {
        match *self {
            ConfigError::Usage(message) => ConfigErrorView::Usage(message@),
            ConfigError::MissingFileType => ConfigErrorView::MissingFileType,
            ConfigError::UnknownFileType(name) => ConfigErrorView::UnknownFileType(name@),
            ConfigError::MissingFilePath => ConfigErrorView::MissingFilePath,
            ConfigError::InvalidTimeout(text) => ConfigErrorView::InvalidTimeout(text@),
        }
    }
}

/// The duration that `Duration::from_millis` makes of `millis`: that many
/// milliseconds.
pub uninterp spec fn duration_of_millis(millis: u64) -> Duration;

/// Assumed of `Duration::from_millis`, not proved: what it returns depends on
/// `millis` alone, and `duration_of_millis` is the name of it.
pub assume_specification[ Duration::from_millis ](millis: u64) -> (d: Duration)
    ensures
        d == duration_of_millis(millis),
;

/// The values of the three options that a command line gives, each absent where
/// the command line does not hold the option.
struct CommandLine {
    filetype: Option<String>,
    filepath: Option<String>,
    timeout: Option<String>,
}

/// What clap makes of the command line `args`, whose first element is the name
/// that the program was called by: the values of `--filetype`, `--filepath` and
/// `--timeout` in this order, or `None` where clap refuses the command line,
/// which it also does to answer a request for help.
pub uninterp spec fn command_line_values(args: Seq<Seq<char>>) -> Option<
    (Option<Seq<char>>, Option<Seq<char>>, Option<Seq<char>>),
>;

/// Hands `args` to clap's `Command::try_get_matches_from`, for a command with the
/// three options `--filetype` (required), `--filepath` and `--timeout`, each taking
/// one value, and reads the values with `ArgMatches::get_one`.
///
/// Assumed, not proved: whether clap accepts a command line, and the values it
/// then gives, depend on the command line alone. Which command lines clap accepts
/// is not stated. The message of a refusal is clap's own and nothing is said of it.
#[verifier::external_body]
fn parse_command_line(args: &Vec<String>) -> (r: Result<CommandLine, String>)
    ensures
        match r {
            Ok(values) => command_line_values(args.deep_view()) == Some(
                (text_of(values.filetype), text_of(values.filepath), text_of(values.timeout)),
            ),
            Err(_) => command_line_values(args.deep_view()) is None,
        },
{
    let parsed = clap::Command::new("bridge_checker")
        .arg(clap::Arg::new("filetype").long("filetype").help("File type: obfs4, proxy, default").required(true))
        .arg(clap::Arg::new("filepath").long("filepath").help("Path to the file"))
        .arg(clap::Arg::new("timeout").long("timeout").help("Connection timeout in milliseconds"))
        .try_get_matches_from(args);
    match parsed {
        Ok(m) => Ok(CommandLine {
            filetype: m.get_one::<String>("filetype").cloned(),
            filepath: m.get_one::<String>("filepath").cloned(),
            timeout: m.get_one::<String>("timeout").cloned(),
        }),
        Err(e) => Err(e.to_string()),
    }
}

/// The view of what an optional string holds.
pub open spec fn text_of(value: Option<String>) -> Option<Seq<char>> {
    match value {
        Some(s) => Some(s@),
        None => None,
    }
}

/// The view of a configuration or of the reason why there is none.
pub open spec fn outcome_view(outcome: Result<Config, ConfigError>) -> Result<
    ConfigView,
    ConfigErrorView,
> {
    match outcome {
        Ok(config) => Ok(config@),
        Err(error) => Err(error@),
    }
}

/// Whether `name` names the format of bridge lines read from a file.
pub open spec fn names_bridge_file(name: Seq<char>) -> bool {
    name == "obfs4"@ || name == "legacy-bridge"@
}

/// Whether `name` names the format of proxy lines read from a file.
pub open spec fn names_proxy_file(name: Seq<char>) -> bool {
    name == "proxy"@ || name == "proxy-list"@
}

/// Whether `name` names the built-in bridge list.
pub open spec fn names_default(name: Seq<char>) -> bool {
    name == "default"@
}

/// The list that the file type `filetype` and the path `filepath` select.
pub open spec fn file_type_value(
    filetype: Option<Seq<char>>,
    filepath: Option<Seq<char>>,
) -> Result<FileTypeView, ConfigErrorView> {
    match filetype {
        None => Err(ConfigErrorView::MissingFileType),
        Some(name) => if names_default(name) {
            Ok(FileTypeView::DefaultObfs4)
        } else if names_bridge_file(name) {
            match filepath {
                Some(path) => Ok(FileTypeView::Obfs4(path)),
                None => Err(ConfigErrorView::MissingFilePath),
            }
        } else if names_proxy_file(name) {
            match filepath {
                Some(path) => Ok(FileTypeView::Proxy(path)),
                None => Err(ConfigErrorView::MissingFilePath),
            }
        } else {
            Err(ConfigErrorView::UnknownFileType(name))
        },
    }
}

/// The timeout in milliseconds that `timeout` asks for: the default where none is
/// given, else the unsigned 64-bit integer that the text denotes.
pub open spec fn timeout_value(timeout: Option<Seq<char>>) -> Result<u64, ConfigErrorView> {
    match timeout {
        None => Ok(DEFAULT_CONN_TIMEOUT),
        Some(text) => match unsigned_value(text, u64::MAX as nat) {
            Some(millis) => Ok(millis as u64),
            None => Err(ConfigErrorView::InvalidTimeout(text)),
        },
    }
}

/// The configuration that the three option values give. A fault in the file type
/// is reported before one in the timeout.
pub open spec fn config_value(
    filetype: Option<Seq<char>>,
    filepath: Option<Seq<char>>,
    timeout: Option<Seq<char>>,
) -> Result<ConfigView, ConfigErrorView> {
    match file_type_value(filetype, filepath) {
        Err(error) => Err(error),
        Ok(file) => match timeout_value(timeout) {
            Err(error) => Err(error),
            Ok(millis) => Ok(ConfigView { file, conn_timeout: duration_of_millis(millis) }),
        },
    }
}

/// Tells whether two strings hold the same characters.
fn same_text(a: &str, b: &str) -> (r: bool)
    ensures
        r == (a@ == b@),
{
    let x = String::from_str(a);
    let y = String::from_str(b);
    x == y
}

impl FileType {
    /// The format in which the lines of this list are read.
    pub open spec fn spec_format(&self) -> LineFormat {
        match *self {
            FileType::Obfs4(_) => LineFormat::LegacyBridge,
            FileType::Proxy(_) => LineFormat::ProxyList,
            FileType::DefaultObfs4 => LineFormat::LegacyBridge,
        }
    }

    /// The format in which the lines of this list are read.
    #[verifier::when_used_as_spec(spec_format)]
    pub fn format(&self) -> (r: LineFormat)
        ensures
            r == self.spec_format(),
    {
        match self {
            FileType::Obfs4(_) => LineFormat::LegacyBridge,
            FileType::Proxy(_) => LineFormat::ProxyList,
            FileType::DefaultObfs4 => LineFormat::LegacyBridge,
        }
    }

    /// The list that the file type named `filetype` and the path `filepath` select.
    pub fn from_values(filetype: Option<String>, filepath: Option<String>) -> (r: Result<
        FileType,
        ConfigError,
    >)
        ensures
            match r {
                Ok(file) => file_type_value(text_of(filetype), text_of(filepath)) == Ok::<
                    FileTypeView,
                    ConfigErrorView,
                >(file@),
                Err(error) => file_type_value(text_of(filetype), text_of(filepath)) == Err::<
                    FileTypeView,
                    ConfigErrorView,
                >(error@),
            },
    {
        match filetype {
            None => Err(ConfigError::MissingFileType),
            Some(name) => if same_text(name.as_str(), "default") {
                Ok(FileType::DefaultObfs4)
            } else if same_text(name.as_str(), "obfs4") || same_text(
                name.as_str(),
                "legacy-bridge",
            ) {
                match filepath {
                    Some(path) => Ok(FileType::Obfs4(path)),
                    None => Err(ConfigError::MissingFilePath),
                }
            } else if same_text(name.as_str(), "proxy") || same_text(name.as_str(), "proxy-list") {
                match filepath {
                    Some(path) => Ok(FileType::Proxy(path)),
                    None => Err(ConfigError::MissingFilePath),
                }
            } else {
                Err(ConfigError::UnknownFileType(name))
            },
        }
    }
}

impl Config {
    /// The configuration that the values of the three options give.
    pub fn from_values(
        filetype: Option<String>,
        filepath: Option<String>,
        timeout: Option<String>,
    ) -> (r: Result<Config, ConfigError>)
        ensures
            outcome_view(r) == config_value(text_of(filetype), text_of(filepath), text_of(timeout)),
    {
        match FileType::from_values(filetype, filepath) {
            Err(error) => Err(error),
            Ok(file) => match timeout {
                None => Ok(Config { file, conn_timeout: Duration::from_millis(DEFAULT_CONN_TIMEOUT) }),
                Some(text) => {
                    let chars = chars_of(text.as_str());
                    match parse_unsigned(chars.as_slice(), u64::MAX) {
                        Some(millis) => Ok(
                            Config { file, conn_timeout: Duration::from_millis(millis) },
                        ),
                        None => Err(ConfigError::InvalidTimeout(text)),
                    }
                },
            },
        }
    }

    /// The configuration that the command line `args` gives. The first element of
    /// `args` is the name that the program was called by.
    pub fn new(args: &Vec<String>) -> (r: Result<Config, ConfigError>)
        ensures
            match command_line_values(args.deep_view()) {
                Some(values) => outcome_view(r) == config_value(values.0, values.1, values.2),
                None => r matches Err(ConfigError::Usage(_)),
            },
    {
        match parse_command_line(args) {
            Ok(values) => Config::from_values(values.filetype, values.filepath, values.timeout),
            Err(message) => Err(ConfigError::Usage(message)),
        }
    }
}

} // verus!
