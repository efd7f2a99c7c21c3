use vstd::prelude::*;
use vstd::string::StrSliceExecFns;
use log::LevelFilter;

verus! {

/// Makes `log::LevelFilter` known to the verifier, with its six variants.
#[verifier::external_type_specification]
pub struct ExLevelFilter(LevelFilter);

/// The level that modules without a level of their own log at, unless the
/// input names another.
pub const DEFAULT_LOG_LEVEL_FILTER: LevelFilter = LevelFilter::Warn;

/// The input names no level where one is needed.
#[derive(Debug, PartialEq, Eq)]
pub struct ParseLoggerError;

/// `c` with an ASCII upper-case letter made lower-case.
pub open spec fn ascii_lower(c: char) -> char {
    if 65 <= (c as u32) <= 90 {
        ((c as u32) + 32) as char
    } else {
        c
    }
}

/// `a` and `b` differ at most in the case of ASCII letters.
pub open spec fn same_ignoring_ascii_case(a: Seq<char>, b: Seq<char>) -> bool {
    a.len() == b.len() && forall|i: int| 0 <= i < a.len() ==> ascii_lower(#[trigger] a[i]) == ascii_lower(b[i])
}

/// The level that `s` names, in any case of ASCII letters.
pub open spec fn level_named(s: Seq<char>) -> Option<LevelFilter> {
    if same_ignoring_ascii_case(s, "OFF"@) {
        Some(LevelFilter::Off)
    } else if same_ignoring_ascii_case(s, "ERROR"@) {
        Some(LevelFilter::Error)
    } else if same_ignoring_ascii_case(s, "WARN"@) {
        Some(LevelFilter::Warn)
    } else if same_ignoring_ascii_case(s, "INFO"@) {
        Some(LevelFilter::Info)
    } else if same_ignoring_ascii_case(s, "DEBUG"@) {
        Some(LevelFilter::Debug)
    } else if same_ignoring_ascii_case(s, "TRACE"@) {
        Some(LevelFilter::Trace)
    } else {
        None
    }
}

/// A character with the Unicode `White_Space` property.
pub open spec fn is_white_space(c: char) -> bool {
    let u = c as u32;
    (9 <= u <= 13) || u == 32 || u == 0x85 || u == 0xA0 || u == 0x1680 || (0x2000 <= u <= 0x200A)
        || u == 0x2028 || u == 0x2029 || u == 0x202F || u == 0x205F || u == 0x3000
}

/// `s` without its leading white space.
pub open spec fn trim_start(s: Seq<char>) -> Seq<char>
    decreases s.len(),
{
    if s.len() > 0 && is_white_space(s[0]) {
        trim_start(s.drop_first())
    } else {
        s
    }
}

/// `s` without its trailing white space.
pub open spec fn trim_end(s: Seq<char>) -> Seq<char>
    decreases s.len(),
{
    if s.len() > 0 && is_white_space(s.last()) {
        trim_end(s.drop_last())
    } else {
        s
    }
}

/// `s` without leading and trailing white space.
pub open spec fn trimmed(s: Seq<char>) -> Seq<char> {
    trim_end(trim_start(s))
}

/// The first position at or after `from` where `c` stands in `s`; the
/// length of `s` where it stands nowhere after.
pub open spec fn index_of(s: Seq<char>, c: char, from: int) -> int
    decreases s.len() - from,
{
    if from >= s.len() {
        s.len() as int
    } else if s[from] == c {
        from
    } else {
        index_of(s, c, from + 1)
    }
}

/// The state of the parse: the default level, the modules waiting for a
/// level, and the modules given one so far.
pub type ParseState = (LevelFilter, Seq<Seq<char>>, Seq<(Seq<char>, LevelFilter)>);

/// Each of `modules` with `level`.
pub open spec fn with_level(modules: Seq<Seq<char>>, level: LevelFilter) -> Seq<(Seq<char>, LevelFilter)> {
    modules.map_values(|m: Seq<char>| (m, level))
}

/// One trimmed entry of the input. `module=level` gives `module`, and every
/// module waiting, that level; a bare level becomes the default; a bare
/// module waits for the next level given. An empty entry is skipped.
pub open spec fn parse_entry(st: ParseState, e: Seq<char>) -> Option<ParseState> {
    if e.len() == 0 {
        Some(st)
    } else {
        let k = index_of(e, '=', 0);
        let module = e.subrange(0, k);
        if k == e.len() {
            match level_named(module) {
                Some(level) => Some((level, st.1, st.2)),
                None => Some((st.0, st.1.push(module), st.2)),
            }
        } else {
            let level_text = e.subrange(k + 1, index_of(e, '=', k + 1));
            match level_named(level_text) {
                Some(level) => Some(
                    (st.0, Seq::empty(), st.2 + with_level(st.1, level).push((module, level))),
                ),
                None => None,
            }
        }
    }
}

/// The parse of the comma-separated entries of `s` from the entry that starts
/// at `start`, having looked at the characters before `i`.
pub open spec fn parse_from(s: Seq<char>, start: int, i: int, st: ParseState) -> Option<ParseState>
    decreases s.len() + 1 - i,
{
    if i < start || start < 0 || i > s.len() {
        None
    } else if i == s.len() {
        parse_entry(st, trimmed(s.subrange(start, i)))
    } else if s[i] == ',' {
        match parse_entry(st, trimmed(s.subrange(start, i))) {
            Some(next) => parse_from(s, i + 1, i + 1, next),
            None => None,
        }
    } else {
        parse_from(s, start, i + 1, st)
    }
}

/// What `input` sets: the default level, and the level of each module named,
/// in the order named; modules still waiting at the end get the default.
pub open spec fn parsed(input: Seq<char>) -> Option<(LevelFilter, Seq<(Seq<char>, LevelFilter)>)> {
    match parse_from(input, 0, 0, (LevelFilter::Warn, Seq::empty(), Seq::empty())) {
        Some(st) => Some((st.0, st.2 + with_level(st.1, st.0))),
        None => None,
    }
}

/// The views of module names paired with levels.
pub open spec fn logger_views(v: Seq<(String, LevelFilter)>) -> Seq<(Seq<char>, LevelFilter)> {
    v.map_values(|p: (String, LevelFilter)| (p.0@, p.1))
}

/// The views of module names.
pub open spec fn name_views(v: Seq<String>) -> Seq<Seq<char>> {
    v.map_values(|s: String| s@)
}

/// Relies on `<log::LevelFilter as FromStr>::from_str`: the level whose name,
/// one of OFF, ERROR, WARN, INFO, DEBUG and TRACE, equals `s` ignoring ASCII
/// case.
#[verifier::external_body]
fn parse_level(s: &str) -> (r: Option<LevelFilter>)
    ensures
        r == level_named(s@),
{
    s.parse::<LevelFilter>().ok()
}

fn is_white_space_char(c: char) -> (r: bool)
    ensures
        r == is_white_space(c),
{
    let u = c as u32;
    (9 <= u && u <= 13) || u == 32 || u == 0x85 || u == 0xA0 || u == 0x1680 || (0x2000 <= u && u
        <= 0x200A) || u == 0x2028 || u == 0x2029 || u == 0x202F || u == 0x205F || u == 0x3000
}

/// `s` without leading and trailing white space.
fn trim(s: &str) -> (r: &str)
    ensures
        r@ == trimmed(s@),
{
    let n = s.unicode_len();
    let mut a: usize = 0;
    assert(s@.subrange(0, n as int) =~= s@);
    while a < n && is_white_space_char(s.get_char(a))
        invariant
            a <= n,
            n == s@.len(),
            trim_start(s@) == trim_start(s@.subrange(a as int, n as int)),
        decreases n - a,
    {
        assert(s@.subrange(a as int, n as int).drop_first() =~= s@.subrange(a + 1, n as int));
        a = a + 1;
    }
    let mut b: usize = n;
    while b > a && is_white_space_char(s.get_char(b - 1))
        invariant
            a <= b <= n,
            n == s@.len(),
            trim_start(s@) == s@.subrange(a as int, n as int),
            trim_end(s@.subrange(a as int, n as int)) == trim_end(s@.subrange(a as int, b as int)),
        decreases b - a,
    {
        assert(s@.subrange(a as int, b as int).drop_last() =~= s@.subrange(a as int, b - 1));
        b = b - 1;
    }
    s.substring_char(a, b)
}

fn find_char(s: &str, c: char, from: usize) -> (r: usize)
    requires
        from <= s@.len(),
    ensures
        r == index_of(s@, c, from as int),
        from <= r <= s@.len(),
{
    let n = s.unicode_len();
    let mut i: usize = from;
    while i < n && s.get_char(i) != c
        invariant
            from <= i <= n,
            n == s@.len(),
            index_of(s@, c, from as int) == index_of(s@, c, i as int),
        decreases n - i,
    {
        i = i + 1;
    }
    i
}

fn push_with_level(loggers: &mut Vec<(String, LevelFilter)>, modules: &Vec<String>, level: LevelFilter)
    ensures
        logger_views(final(loggers)@) == logger_views(old(loggers)@) + with_level(name_views(modules@), level),
{
    let ghost start = logger_views(loggers@);
    let mut j: usize = 0;
    while j < modules.len()
        invariant
            j <= modules.len(),
            logger_views(loggers@) == start + with_level(name_views(modules@.subrange(0, j as int)), level),
        decreases modules.len() - j,
    {
        let ghost before = loggers@;
        loggers.push((modules[j].clone(), level));
        assert(logger_views(loggers@) =~= logger_views(before).push((modules@[j as int]@, level)));
        assert(name_views(modules@.subrange(0, j + 1)) =~= name_views(modules@.subrange(0, j as int)).push(modules@[j as int]@));
        assert(with_level(name_views(modules@.subrange(0, j + 1)), level) =~= with_level(name_views(modules@.subrange(0, j as int)), level).push((modules@[j as int]@, level)));
        j = j + 1;
    }
    assert(modules@.subrange(0, modules.len() as int) =~= modules@);
}

fn apply_entry(
    e: &str,
    default: &mut LevelFilter,
    grouped: &mut Vec<String>,
    loggers: &mut Vec<(String, LevelFilter)>,
) -> (ok: bool)
    ensures
        ok == parse_entry((*old(default), name_views(old(grouped)@), logger_views(old(loggers)@)), e@) is Some,
        ok ==> parse_entry((*old(default), name_views(old(grouped)@), logger_views(old(loggers)@)), e@)
            == Some((*final(default), name_views(final(grouped)@), logger_views(final(loggers)@))),
{
    let n = e.unicode_len();
    if n == 0 {
        return true;
    }
    let k = find_char(e, '=', 0);
    let module = e.substring_char(0, k);
    if k == n {
        match parse_level(module) {
            Some(level) => {
                *default = level;
            },
            None => {
                let ghost before = grouped@;
                grouped.push(module.to_owned());
                assert(name_views(grouped@) =~= name_views(before).push(module@));
            },
        }
        true
    } else {
        let m = find_char(e, '=', k + 1);
        let level_text = e.substring_char(k + 1, m);
        match parse_level(level_text) {
            Some(level) => {
                push_with_level(loggers, grouped, level);
                let ghost before = loggers@;
                loggers.push((module.to_owned(), level));
                assert(logger_views(loggers@) =~= logger_views(before).push((module@, level)));
                *grouped = Vec::new();
                assert(name_views(grouped@) =~= Seq::<Seq<char>>::empty());
                true
            },
            None => false,
        }
    }
}

/// Parses a list of per-module levels such as `info,foo::bar=warn,baz`:
/// comma-separated entries, each trimmed, empty ones skipped. `module=level`
/// sets the level of `module` and of the bare modules named since the last
/// such entry; a bare level sets the default (at first `Warn`); bare modules
/// left at the end get the default. Returns the default and the modules with
/// their levels, or an error where an entry's level is not a level name.
pub fn parse_loggers(input: &str) -> (r: Result<(LevelFilter, Vec<(String, LevelFilter)>), ParseLoggerError>)
    ensures
        r is Err <==> parsed(input@) is None,
        r matches Ok(v) ==> parsed(input@) == Some((v.0, logger_views(v.1@))),
{
    let n = input.unicode_len();
    let mut default: LevelFilter = DEFAULT_LOG_LEVEL_FILTER;
    let mut grouped: Vec<String> = Vec::new();
    let mut loggers: Vec<(String, LevelFilter)> = Vec::new();
    let ghost init: ParseState = (LevelFilter::Warn, Seq::empty(), Seq::empty());
    assert(name_views(grouped@) =~= Seq::<Seq<char>>::empty());
    assert(logger_views(loggers@) =~= Seq::<(Seq<char>, LevelFilter)>::empty());
    let mut start: usize = 0;
    let mut i: usize = 0;
    loop
        invariant_except_break
            n == input@.len(),
            init == (LevelFilter::Warn, Seq::<Seq<char>>::empty(), Seq::<(Seq<char>, LevelFilter)>::empty()),
            start <= i <= n,
            parse_from(input@, 0, 0, init) == parse_from(
                input@,
                start as int,
                i as int,
                (default, name_views(grouped@), logger_views(loggers@)),
            ),
        ensures
            init == (LevelFilter::Warn, Seq::<Seq<char>>::empty(), Seq::<(Seq<char>, LevelFilter)>::empty()),
            parse_from(input@, 0, 0, init) == Some(
                (default, name_views(grouped@), logger_views(loggers@)),
            ),
        decreases n + 1 - i,
    {
        let ghost st: ParseState = (default, name_views(grouped@), logger_views(loggers@));
        let ghost s = input@;
        if i == n || input.get_char(i) == ',' {
            let entry = trim(input.substring_char(start, i));
            let ghost e = trimmed(s.subrange(start as int, i as int));
            let ok = apply_entry(entry, &mut default, &mut grouped, &mut loggers);
            if i == n {
                assert(parse_from(s, start as int, i as int, st) == parse_entry(st, e));
            } else {
                assert(s[i as int] == ',');
                assert(parse_from(s, start as int, i as int, st) == match parse_entry(st, e) {
                    Some(next) => parse_from(s, i + 1, i + 1, next),
                    None => None,
                });
            }
            if !ok {
                return Err(ParseLoggerError);
            }
            if i == n {
                break;
            }
            start = i + 1;
        } else {
            assert(parse_from(s, start as int, i as int, st) == parse_from(s, start as int, i + 1, st));
        }
        i = i + 1;
    }
    push_with_level(&mut loggers, &grouped, default);
    Ok((default, loggers))
}

} // verus!
