use vstd::prelude::*;
use crate::config::{
    bool_entry, check_known, has_unknown, key_name, lookup, pattern_entry, take_bool, take_pattern, take_text, text_entry, ConfigError,
    ConfigKey, ConfigValue,
};
use crate::encoder::{json_pattern, make_json_pattern, Encoder};

verus! {

/// Relies on `rand::random::<u64>`: a value drawn from the thread-local
/// generator. Nothing is promised of the value.
#[verifier::external_body]
fn random_id() -> (r: u64) {
    rand::random::<u64>()
}

/// Appender that writes to standard output from its own worker thread.
pub struct AsyncConsoleAppender;

/// Settings of a console appender.
#[derive(Debug, PartialEq, Eq)]
pub struct AsyncConsoleAppenderBuilder {
    /// The layout of the messages.
    pub encoder: Encoder,
}

/// Appender that writes to a file from its own worker thread.
pub struct AsyncFileAppender;

/// Settings of a file appender.
#[derive(Debug, PartialEq, Eq)]
pub struct AsyncFileAppenderBuilder {
    /// The file written to.
    pub path: String,
    /// The layout of the messages.
    pub encoder: Encoder,
    /// Keep what the file holds (`true`) or truncate it when opening (`false`).
    pub append: bool,
}

/// Appender that streams messages to a TCP log server, each followed by the
/// message terminator.
pub struct AsyncServerAppender;

/// Settings of a server appender.
#[derive(Debug, PartialEq, Eq)]
pub struct AsyncServerAppenderBuilder {
    /// The address of the server.
    pub server_addr: String,
    /// The layout of the messages.
    pub encoder: Encoder,
    /// Disable Nagle's algorithm on the connection.
    pub no_delay: bool,
}

/// Appender that sends each message as one binary frame to a web-socket server.
pub struct AsyncWebSockAppender;

/// Settings of a web-socket appender.
#[derive(Debug, PartialEq, Eq)]
pub struct AsyncWebSockAppenderBuilder {
    /// The URL of the server.
    pub server_url: String,
    /// The layout of the messages.
    pub encoder: Encoder,
}

impl AsyncConsoleAppender {
    /// Settings with the default layout.
    pub fn builder() -> (r: AsyncConsoleAppenderBuilder)
        ensures
            r.encoder == Encoder::Default,
    {
        AsyncConsoleAppenderBuilder { encoder: Encoder::Default }
    }
}

impl AsyncConsoleAppenderBuilder {
    /// The same settings with another layout.
    pub fn encoder(self, encoder: Encoder) -> (r: Self)
        ensures
            r.encoder == encoder,
    {
        AsyncConsoleAppenderBuilder { encoder }
    }
}

impl AsyncFileAppender {
    /// Settings for `path`: the default layout, appending to the file.
    pub fn builder(path: String) -> (r: AsyncFileAppenderBuilder)
        ensures
            r == (AsyncFileAppenderBuilder { path, encoder: Encoder::Default, append: true }),
    {
        AsyncFileAppenderBuilder { path, encoder: Encoder::Default, append: true }
    }
}

impl AsyncFileAppenderBuilder {
    /// The same settings with another layout.
    pub fn encoder(self, encoder: Encoder) -> (r: Self)
        ensures
            r == (AsyncFileAppenderBuilder { encoder, ..self }),
    {
        AsyncFileAppenderBuilder { encoder, ..self }
    }

    /// The same settings, appending to the file or truncating it.
    pub fn append(self, append: bool) -> (r: Self)
        ensures
            r == (AsyncFileAppenderBuilder { append, ..self }),
    {
        AsyncFileAppenderBuilder { append, ..self }
    }
}

impl AsyncServerAppender {
    /// Settings for the server at `server_addr`: the default layout, with
    /// Nagle's algorithm disabled.
    pub fn builder(server_addr: String) -> (r: AsyncServerAppenderBuilder)
        ensures
            r == (AsyncServerAppenderBuilder { server_addr, encoder: Encoder::Default, no_delay: true }),
    {
        AsyncServerAppenderBuilder { server_addr, encoder: Encoder::Default, no_delay: true }
    }
}

impl AsyncServerAppenderBuilder {
    /// The same settings with another layout.
    pub fn encoder(self, encoder: Encoder) -> (r: Self)
        ensures
            r == (AsyncServerAppenderBuilder { encoder, ..self }),
    {
        AsyncServerAppenderBuilder { encoder, ..self }
    }

    /// The same settings with Nagle's algorithm disabled or not.
    pub fn no_delay(self, no_delay: bool) -> (r: Self)
        ensures
            r == (AsyncServerAppenderBuilder { no_delay, ..self }),
    {
        AsyncServerAppenderBuilder { no_delay, ..self }
    }
}

impl AsyncWebSockAppender {
    /// Settings for the server at `server_url`, with the default layout.
    pub fn builder(server_url: String) -> (r: AsyncWebSockAppenderBuilder)
        ensures
            r == (AsyncWebSockAppenderBuilder { server_url, encoder: Encoder::Default }),
    {
        AsyncWebSockAppenderBuilder { server_url, encoder: Encoder::Default }
    }
}

impl AsyncWebSockAppenderBuilder {
    /// The same settings with another layout.
    pub fn encoder(self, encoder: Encoder) -> (r: Self)
        ensures
            r == (AsyncWebSockAppenderBuilder { encoder, ..self }),
    {
        AsyncWebSockAppenderBuilder { encoder, ..self }
    }
}

/// The layout that a configuration asks for, `default` where it names none.
pub open spec fn encoder_of(p: Option<Result<String, ConfigError>>, default: Encoder) -> Result<Encoder, ConfigError> {
    match p {
        None => Ok(default),
        Some(Ok(s)) => Ok(Encoder::Pattern(s)),
        Some(Err(e)) => Err(e),
    }
}

/// The keys that a console configuration takes.
pub open spec fn console_keys() -> Seq<ConfigKey> {
    seq![ConfigKey::Pattern]
}

/// The keys that a file configuration takes.
pub open spec fn file_keys() -> Seq<ConfigKey> {
    seq![ConfigKey::Path, ConfigKey::Append, ConfigKey::Pattern]
}

/// The keys that a server configuration takes.
pub open spec fn server_keys() -> Seq<ConfigKey> {
    seq![ConfigKey::ServerAddr, ConfigKey::NoDelay, ConfigKey::Pattern]
}

/// The keys that a web-socket configuration takes.
pub open spec fn web_socket_keys() -> Seq<ConfigKey> {
    seq![ConfigKey::ServerUrl, ConfigKey::Pattern]
}

/// The console settings that `config` describes: an optional `pattern`, and
/// no other key.
pub open spec fn console_config(config: ConfigValue) -> Result<AsyncConsoleAppenderBuilder, ConfigError> {
    match config {
        ConfigValue::Table(m) => match encoder_of(pattern_entry(m@), Encoder::Default) {
            Ok(encoder) => if has_unknown(m@, console_keys()) {
                Err(ConfigError::UnknownKey)
            } else {
                Ok(AsyncConsoleAppenderBuilder { encoder })
            },
            Err(e) => Err(e),
        },
        _ => Err(ConfigError::NotAMap),
    }
}

/// The file settings that `config` describes: a required `path`, an optional
/// `append` (by default `true`) and an optional `pattern`, checked in that
/// order, then no other key.
pub open spec fn file_config(config: ConfigValue) -> Result<AsyncFileAppenderBuilder, ConfigError> {
    match config {
        ConfigValue::Table(m) => match text_entry(m@, ConfigKey::Path) {
            Err(e) => Err(e),
            Ok(path) => match bool_entry(m@, ConfigKey::Append, true) {
                Err(e) => Err(e),
                Ok(append) => match encoder_of(pattern_entry(m@), Encoder::Default) {
                    Err(e) => Err(e),
                    Ok(encoder) => if has_unknown(m@, file_keys()) {
                        Err(ConfigError::UnknownKey)
                    } else {
                        Ok(AsyncFileAppenderBuilder { path, encoder, append })
                    },
                },
            },
        },
        _ => Err(ConfigError::NotAMap),
    }
}

/// The server settings that `config` describes: a required `server_addr`, an
/// optional `no_delay` (by default `true`) and an optional `pattern`, checked
/// in that order, then no other key.
pub open spec fn server_config(config: ConfigValue) -> Result<AsyncServerAppenderBuilder, ConfigError> {
    match config {
        ConfigValue::Table(m) => match text_entry(m@, ConfigKey::ServerAddr) {
            Err(e) => Err(e),
            Ok(server_addr) => match bool_entry(m@, ConfigKey::NoDelay, true) {
                Err(e) => Err(e),
                Ok(no_delay) => match encoder_of(pattern_entry(m@), Encoder::Default) {
                    Err(e) => Err(e),
                    Ok(encoder) => if has_unknown(m@, server_keys()) {
                        Err(ConfigError::UnknownKey)
                    } else {
                        Ok(AsyncServerAppenderBuilder { server_addr, encoder, no_delay })
                    },
                },
            },
        },
        _ => Err(ConfigError::NotAMap),
    }
}

/// `r` is what a web-socket configuration gives: a required `server_url`,
/// then an optional `pattern`, then no other key; without a pattern, the JSON
/// layout with `unique_id`.
pub open spec fn web_socket_config(config: ConfigValue, r: Result<AsyncWebSockAppenderBuilder, ConfigError>, unique_id: nat) -> bool {
    match config {
        ConfigValue::Table(m) => match text_entry(m@, ConfigKey::ServerUrl) {
            Err(e) => r == Err::<AsyncWebSockAppenderBuilder, ConfigError>(e),
            Ok(server_url) => match pattern_entry(m@) {
                Some(Err(e)) => r == Err::<AsyncWebSockAppenderBuilder, ConfigError>(e),
                _ if has_unknown(m@, web_socket_keys()) => r == Err::<
                    AsyncWebSockAppenderBuilder,
                    ConfigError,
                >(ConfigError::UnknownKey),
                Some(Ok(p)) => r == Ok::<AsyncWebSockAppenderBuilder, ConfigError>(
                    AsyncWebSockAppenderBuilder { server_url, encoder: Encoder::Pattern(p) },
                ),
                None => match r {
                    Ok(b) => b.server_url == server_url && (b.encoder matches Encoder::Pattern(p) && p@
                        == json_pattern(unique_id)),
                    Err(_) => false,
                },
            },
        },
        _ => r == Err::<AsyncWebSockAppenderBuilder, ConfigError>(ConfigError::NotAMap),
    }
}

fn encoder_from(p: Option<Result<String, ConfigError>>, default: Encoder) -> (r: Result<Encoder, ConfigError>)
    ensures
        r == encoder_of(p, default),
{
    match p {
        None => Ok(default),
        Some(Ok(s)) => Ok(Encoder::Pattern(s)),
        Some(Err(e)) => Err(e),
    }
}

/// Builds console appenders from configuration files.
pub struct AsyncConsoleAppenderCreator;

impl AsyncConsoleAppenderCreator {
    /// Checks `config` and returns the settings it describes.
    pub fn deserialize(&self, config: ConfigValue) -> (r: Result<AsyncConsoleAppenderBuilder, ConfigError>)
        ensures
            r == console_config(config),
    {
        match config {
            ConfigValue::Table(m) => {
                let encoder = encoder_from(take_pattern(&m), Encoder::Default)?;
                let keys = vec![ConfigKey::Pattern];
                assert(keys@ =~= console_keys());
                check_known(&m, &keys)?;
                Ok(AsyncConsoleAppender::builder().encoder(encoder))
            },
            _ => Err(ConfigError::NotAMap),
        }
    }
}

/// Builds file appenders from configuration files.
pub struct AsyncFileAppenderCreator;

impl AsyncFileAppenderCreator {
    /// Checks `config` and returns the settings it describes.
    pub fn deserialize(&self, config: ConfigValue) -> (r: Result<AsyncFileAppenderBuilder, ConfigError>)
        ensures
            r == file_config(config),
    {
        match config {
            ConfigValue::Table(m) => {
                let path = take_text(&m, ConfigKey::Path)?;
                let append = take_bool(&m, ConfigKey::Append, true)?;
                let encoder = encoder_from(take_pattern(&m), Encoder::Default)?;
                let keys = vec![ConfigKey::Path, ConfigKey::Append, ConfigKey::Pattern];
                assert(keys@ =~= file_keys());
                check_known(&m, &keys)?;
                Ok(AsyncFileAppender::builder(path).encoder(encoder).append(append))
            },
            _ => Err(ConfigError::NotAMap),
        }
    }
}

/// Builds server appenders from configuration files.
pub struct AsyncServerAppenderCreator;

impl AsyncServerAppenderCreator {
    /// Checks `config` and returns the settings it describes. Nothing is
    /// connected here: a refused configuration never reaches the network.
    pub fn deserialize(&self, config: ConfigValue) -> (r: Result<AsyncServerAppenderBuilder, ConfigError>)
        ensures
            r == server_config(config),
    {
        match config {
            ConfigValue::Table(m) => {
                let server_addr = take_text(&m, ConfigKey::ServerAddr)?;
                let no_delay = take_bool(&m, ConfigKey::NoDelay, true)?;
                let encoder = encoder_from(take_pattern(&m), Encoder::Default)?;
                let keys = vec![ConfigKey::ServerAddr, ConfigKey::NoDelay, ConfigKey::Pattern];
                assert(keys@ =~= server_keys());
                check_known(&m, &keys)?;
                Ok(AsyncServerAppender::builder(server_addr).encoder(encoder).no_delay(no_delay))
            },
            _ => Err(ConfigError::NotAMap),
        }
    }
}

/// Builds web-socket appenders from configuration files.
pub struct AsyncWebSockAppenderCreator;

impl AsyncWebSockAppenderCreator {
    /// Checks `config` and returns the settings it describes; where it names
    /// no pattern, the JSON layout carries `unique_id`.
    pub fn deserialize_with_id(&self, config: ConfigValue, unique_id: u64) -> (r: Result<AsyncWebSockAppenderBuilder, ConfigError>)
        ensures
            web_socket_config(config, r, unique_id as nat),
    {
        match config {
            ConfigValue::Table(m) => {
                let server_url = take_text(&m, ConfigKey::ServerUrl)?;
                let encoder = match take_pattern(&m) {
                    Some(p) => Encoder::Pattern(p?),
                    None => Encoder::Pattern(make_json_pattern(unique_id)),
                };
                let keys = vec![ConfigKey::ServerUrl, ConfigKey::Pattern];
                assert(keys@ =~= web_socket_keys());
                check_known(&m, &keys)?;
                Ok(AsyncWebSockAppender::builder(server_url).encoder(encoder))
            },
            _ => Err(ConfigError::NotAMap),
        }
    }

    /// Checks `config` and returns the settings it describes; where it names
    /// no pattern, the JSON layout carries a random id, drawn once here, that
    /// marks every message of the appender.
    pub fn deserialize(&self, config: ConfigValue) -> (r: Result<AsyncWebSockAppenderBuilder, ConfigError>)
        ensures
            exists|unique_id: u64| web_socket_config(config, r, unique_id as nat),
    {
        let unique_id: u64 = random_id();
        self.deserialize_with_id(config, unique_id)
    }
}

/// A file configuration whose `path` holds anything but a string is refused
/// with that error, and gives no settings to open a file with.
pub proof fn lemma_path_of_wrong_type(m: Vec<(ConfigValue, ConfigValue)>)
    requires
        lookup(m@, key_name(ConfigKey::Path)) matches Some(v) && !(v is Text),
    ensures
        file_config(ConfigValue::Table(m)) == Err::<AsyncFileAppenderBuilder, ConfigError>(
            ConfigError::WrongType(ConfigKey::Path),
        ),
{
}

/// A table holding a key that its kind of appender does not take never gives
/// settings, whatever else it holds.
pub proof fn lemma_unknown_key_refused(m: Vec<(ConfigValue, ConfigValue)>, unique_id: nat)
    ensures
        has_unknown(m@, console_keys()) ==> console_config(ConfigValue::Table(m)) is Err,
        has_unknown(m@, file_keys()) ==> file_config(ConfigValue::Table(m)) is Err,
        has_unknown(m@, server_keys()) ==> server_config(ConfigValue::Table(m)) is Err,
        forall|r: Result<AsyncWebSockAppenderBuilder, ConfigError>|
            has_unknown(m@, web_socket_keys()) && #[trigger] web_socket_config(
                ConfigValue::Table(m),
                r,
                unique_id,
            ) ==> r is Err,
{
}

/// A server configuration without `server_addr` is refused with that error,
/// and gives no settings to connect with.
pub proof fn lemma_server_addr_missing(m: Vec<(ConfigValue, ConfigValue)>)
    requires
        lookup(m@, key_name(ConfigKey::ServerAddr)) is None,
    ensures
        server_config(ConfigValue::Table(m)) == Err::<AsyncServerAppenderBuilder, ConfigError>(
            ConfigError::MissingKey(ConfigKey::ServerAddr),
        ),
{
}

} // verus!
