use vstd::prelude::*;

verus! {

/// An untyped configuration value, as a configuration file gives it.
#[derive(Debug, PartialEq, Eq)]
pub enum ConfigValue {
    /// A boolean.
    Bool(bool),
    /// A string.
    Text(String),
    /// A table of keys and values, in the file's order.
    Table(Vec<(ConfigValue, ConfigValue)>),
    /// A value of any other kind (a number, a list, ...).
    Other,
}

/// A key that an appender's configuration may hold.
#[derive(Clone, Copy, Debug, PartialEq, Eq, Structural)]
pub enum ConfigKey {
    /// `path`: the file of a file appender.
    Path,
    /// `append`: whether a file appender keeps what the file holds.
    Append,
    /// `server_addr`: the address of a log server.
    ServerAddr,
    /// `no_delay`: whether the server connection disables Nagle's algorithm.
    NoDelay,
    /// `server_url`: the URL of a web-socket log server.
    ServerUrl,
    /// `pattern`: the layout of the messages.
    Pattern,
}

/// Why a configuration was refused.
#[derive(Clone, Copy, Debug, PartialEq, Eq, Structural)]
pub enum ConfigError {
    /// The configuration is not a table.
    NotAMap,
    /// A required key is absent.
    MissingKey(ConfigKey),
    /// A key holds a value of the wrong kind.
    WrongType(ConfigKey),
    /// The table holds a key that this kind of appender does not take.
    UnknownKey,
}

/// The name of `key` in a configuration file.
pub open spec fn key_name(key: ConfigKey) -> Seq<char> {
    match key {
        ConfigKey::Path => "path"@,
        ConfigKey::Append => "append"@,
        ConfigKey::ServerAddr => "server_addr"@,
        ConfigKey::NoDelay => "no_delay"@,
        ConfigKey::ServerUrl => "server_url"@,
        ConfigKey::Pattern => "pattern"@,
    }
}

/// What the value of `key` must be, in words.
pub open spec fn expected_kind(key: ConfigKey) -> Seq<char> {
    match key {
        ConfigKey::Append => "a bool"@,
        ConfigKey::NoDelay => "a boolean"@,
        _ => "a string"@,
    }
}

/// The text that describes `e`.
pub open spec fn error_message(e: ConfigError) -> Seq<char> {
    match e {
        ConfigError::NotAMap => "config must be a map"@,
        ConfigError::UnknownKey => "config holds an unknown key"@,
        ConfigError::MissingKey(k) => "`"@ + key_name(k) + "` is required"@,
        ConfigError::WrongType(k) => "`"@ + key_name(k) + "` must be "@ + expected_kind(k),
    }
}

/// The value of the first entry of `m` whose key is the string `name`.
pub open spec fn lookup(m: Seq<(ConfigValue, ConfigValue)>, name: Seq<char>) -> Option<ConfigValue>
    decreases m.len(),
{
    if m.len() == 0 {
        None
    } else if m[0].0 matches ConfigValue::Text(s) && s@ == name {
        Some(m[0].1)
    } else {
        lookup(m.drop_first(), name)
    }
}

/// The string that `m` holds under `key`, which is required.
pub open spec fn text_entry(m: Seq<(ConfigValue, ConfigValue)>, key: ConfigKey) -> Result<String, ConfigError> {
    match lookup(m, key_name(key)) {
        Some(ConfigValue::Text(s)) => Ok(s),
        Some(_) => Err(ConfigError::WrongType(key)),
        None => Err(ConfigError::MissingKey(key)),
    }
}

/// The boolean that `m` holds under `key`, or `default` where it holds none.
pub open spec fn bool_entry(m: Seq<(ConfigValue, ConfigValue)>, key: ConfigKey, default: bool) -> Result<bool, ConfigError> {
    match lookup(m, key_name(key)) {
        Some(ConfigValue::Bool(b)) => Ok(b),
        Some(_) => Err(ConfigError::WrongType(key)),
        None => Ok(default),
    }
}

/// The pattern that `m` holds, if it holds a `pattern` key.
pub open spec fn pattern_entry(m: Seq<(ConfigValue, ConfigValue)>) -> Option<Result<String, ConfigError>> {
    match lookup(m, key_name(ConfigKey::Pattern)) {
        Some(ConfigValue::Text(s)) => Some(Ok(s)),
        Some(_) => Some(Err(ConfigError::WrongType(ConfigKey::Pattern))),
        None => None,
    }
}

/// `k` is the string name of one of `allowed`.
pub open spec fn is_known(k: ConfigValue, allowed: Seq<ConfigKey>) -> bool {
    k matches ConfigValue::Text(s) && exists|i: int| 0 <= i < allowed.len() && s@ == key_name(
        allowed[i],
    )
}

/// Some entry of `m` has a key that is not one of `allowed`.
pub open spec fn has_unknown(m: Seq<(ConfigValue, ConfigValue)>, allowed: Seq<ConfigKey>) -> bool {
    exists|j: int| 0 <= j < m.len() && !is_known(#[trigger] m[j].0, allowed)
}

impl ConfigKey {
    /// The name of the key in a configuration file.
    pub fn name(&self) -> (r: String)
        ensures
            r@ == key_name(*self),
    {
        match self {
            ConfigKey::Path => "path".to_owned(),
            ConfigKey::Append => "append".to_owned(),
            ConfigKey::ServerAddr => "server_addr".to_owned(),
            ConfigKey::NoDelay => "no_delay".to_owned(),
            ConfigKey::ServerUrl => "server_url".to_owned(),
            ConfigKey::Pattern => "pattern".to_owned(),
        }
    }
}

impl ConfigError {
    /// The text that describes the error.
    pub fn message(&self) -> (r: String)
        ensures
            r@ == error_message(*self),
    {
        match self {
            ConfigError::NotAMap => "config must be a map".to_owned(),
            ConfigError::UnknownKey => "config holds an unknown key".to_owned(),
            ConfigError::MissingKey(k) => {
                let s = "`".to_owned();
                let s = s.concat(k.name().as_str());
                s.concat("` is required")
            },
            ConfigError::WrongType(k) => {
                let s = "`".to_owned();
                let s = s.concat(k.name().as_str());
                let s = s.concat("` must be ");
                match k {
                    ConfigKey::Append => s.concat("a bool"),
                    ConfigKey::NoDelay => s.concat("a boolean"),
                    _ => s.concat("a string"),
                }
            },
        }
    }
}

/// Where the first entry of `m` keyed by `key` stands.
fn find_key(m: &Vec<(ConfigValue, ConfigValue)>, key: ConfigKey) -> (r: Option<usize>)
    ensures
        r is None ==> lookup(m@, key_name(key)) is None,
        r matches Some(i) ==> i < m.len() && lookup(m@, key_name(key)) == Some(m@[i as int].1),
{
    let name = key.name();
    let mut i: usize = 0;
    assert(m@.subrange(0, m@.len() as int) =~= m@);
    while i < m.len()
        invariant
            i <= m.len(),
            name@ == key_name(key),
            lookup(m@, key_name(key)) == lookup(m@.subrange(i as int, m@.len() as int), key_name(key)),
        decreases m.len() - i,
    {
        let ghost rest = m@.subrange(i as int, m@.len() as int);
        assert(rest.drop_first() =~= m@.subrange(i + 1, m@.len() as int));
        assert(rest[0] == m@[i as int]);
        let hit = match &m[i].0 {
            ConfigValue::Text(s) => *s == name,
            _ => false,
        };
        if hit {
            return Some(i);
        }
        i = i + 1;
    }
    None
}

/// The string under a required key.
pub(crate) fn take_text(m: &Vec<(ConfigValue, ConfigValue)>, key: ConfigKey) -> (r: Result<String, ConfigError>)
    ensures
        r == text_entry(m@, key),
{
    match find_key(m, key) {
        None => Err(ConfigError::MissingKey(key)),
        Some(i) => match &m[i].1 {
            ConfigValue::Text(s) => Ok(s.clone()),
            _ => Err(ConfigError::WrongType(key)),
        },
    }
}

/// The boolean under an optional key.
pub(crate) fn take_bool(m: &Vec<(ConfigValue, ConfigValue)>, key: ConfigKey, default: bool) -> (r: Result<bool, ConfigError>)
    ensures
        r == bool_entry(m@, key, default),
{
    match find_key(m, key) {
        None => Ok(default),
        Some(i) => match &m[i].1 {
            ConfigValue::Bool(b) => Ok(*b),
            _ => Err(ConfigError::WrongType(key)),
        },
    }
}

fn known_key(k: &ConfigValue, allowed: &Vec<ConfigKey>) -> (r: bool)
    ensures
        r == is_known(*k, allowed@),
{
    match k {
        ConfigValue::Text(s) => {
            let mut i: usize = 0;
            while i < allowed.len()
                invariant
                    i <= allowed.len(),
                    *k == ConfigValue::Text(*s),
                    forall|t: int| 0 <= t < i ==> s@ != key_name(allowed@[t]),
                decreases allowed.len() - i,
            {
                let name = allowed[i].name();
                if *s == name {
                    assert(0 <= i < allowed@.len() && s@ == key_name(allowed@[i as int]));
                    return true;
                }
                i = i + 1;
            }
            false
        },
        _ => false,
    }
}

/// Refuses a table that holds a key outside `allowed`.
pub(crate) fn check_known(m: &Vec<(ConfigValue, ConfigValue)>, allowed: &Vec<ConfigKey>) -> (r: Result<(), ConfigError>)
    ensures
        r is Err <==> has_unknown(m@, allowed@),
        r is Err ==> r == Err::<(), ConfigError>(ConfigError::UnknownKey),
{
    let mut j: usize = 0;
    while j < m.len()
        invariant
            j <= m.len(),
            forall|t: int| 0 <= t < j ==> is_known(#[trigger] m@[t].0, allowed@),
        decreases m.len() - j,
    {
        if !known_key(&m[j].0, allowed) {
            assert(!is_known(m@[j as int].0, allowed@));
            return Err(ConfigError::UnknownKey);
        }
        j = j + 1;
    }
    Ok(())
}

/// The pattern, if the configuration gives one.
pub(crate) fn take_pattern(m: &Vec<(ConfigValue, ConfigValue)>) -> (r: Option<Result<String, ConfigError>>)
    ensures
        r == pattern_entry(m@),
{
    match find_key(m, ConfigKey::Pattern) {
        None => None,
        Some(i) => match &m[i].1 {
            ConfigValue::Text(s) => Some(Ok(s.clone())),
            _ => Some(Err(ConfigError::WrongType(ConfigKey::Pattern))),
        },
    }
}

} // verus!
