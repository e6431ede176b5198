//! The server's command line: its grammar (the city folder, the mode, and
//! the options whose defaults the mode sets), the values it gives, and the
//! network settings read from them.
use vstd::prelude::*;
use crate::network::{is_known_mode, str_eq, NetworkConfig};
use crate::text::{chars_of, parse_usize, trim, usize_from_str};

verus! {

broadcast use vstd::string::group_string_axioms;

/// Why the command line was refused.
#[derive(Clone, Copy, Debug, PartialEq, Eq, Structural)]
pub enum ArgError {
    /// `--help` or `-h` was given.
    HelpRequested,
    /// `--version` or `-V` was given.
    VersionRequested,
    /// An option that the command line does not have.
    UnknownArgument,
    /// An option was given twice.
    RepeatedArgument,
    /// An option was given without its value.
    MissingValue,
    /// A second city folder was given.
    ExtraValue,
    /// The mode is not one of `local`, `lan` and `internet`.
    InvalidMode,
}

/// The network settings that the values of the mode and the two addresses
/// give as they are, and the three numbers read as `str::parse` reads a
/// `usize`.
pub open spec fn config_from_values(
    c: NetworkConfig,
    mode: Seq<char>,
    bind: Seq<char>,
    bind_sim: Seq<char>,
    batch_msg_bytes: Seq<char>,
    ok_turn_dist: Seq<char>,
    skip_ratio: Seq<char>,
) -> bool {
    &&& c.mode@ == mode
    &&& c.serve_host_port@ == bind
    &&& c.bind_sim@ == bind_sim
    &&& usize_from_str(batch_msg_bytes) == Some(c.batch_msg_bytes as nat)
    &&& usize_from_str(ok_turn_dist) == Some(c.ok_turn_dist as nat)
    &&& usize_from_str(skip_ratio) == Some(c.skip_ratio as nat)
}

/// Whether a token looks like an option rather than a value: a `'-'`
/// followed by at least one more character.
pub open spec fn flag_like(t: Seq<char>) -> bool {
    t.len() > 1 && t[0] == '-'
}

/// Whether a token is `--`, after which every token is a city folder.
pub open spec fn is_double_dash(t: Seq<char>) -> bool {
    t.len() == 2 && t[0] == '-' && t[1] == '-'
}

/// Whether a token is a long option, `--name` or `--name=value`.
pub open spec fn is_long(t: Seq<char>) -> bool {
    t.len() > 2 && t[0] == '-' && t[1] == '-'
}

/// The position of the first `c` in `s`, or the length of `s` when it has none.
pub open spec fn first_pos(s: Seq<char>, c: char) -> int
    decreases s.len(),
{
    if s.len() == 0 {
        0
    } else if s[0] == c {
        0
    } else {
        1 + first_pos(s.drop_first(), c)
    }
}

/// The number of arguments that the command line names: six options and
/// the city folder.
pub const ARG_COUNT: usize = 7;

/// Where the city folder stands among the arguments.
pub const FOLDER: usize = 6;

/// Where the option with the long flag `--name` stands among the
/// arguments, or -1 when there is no such option.
pub open spec fn long_index(name: Seq<char>) -> int {
    if name == "mode"@ {
        0
    } else if name == "bind"@ {
        1
    } else if name == "bind-sim"@ {
        2
    } else if name == "batch-msg-bytes"@ {
        3
    } else if name == "ok-turn-dist"@ {
        4
    } else if name == "skip-ratio"@ {
        5
    } else {
        -1
    }
}

/// Where the argument called `name` stands, or -1 when there is none.
pub open spec fn arg_index(name: Seq<char>) -> int {
    if name == "mode"@ {
        0
    } else if name == "bind"@ {
        1
    } else if name == "bind-sim"@ {
        2
    } else if name == "batch-msg-b"@ {
        3
    } else if name == "ok-turn-dist"@ {
        4
    } else if name == "skip-ratio"@ {
        5
    } else if name == "CITY_FOLDER"@ {
        6
    } else {
        -1
    }
}

/// Reads the tokens after the program's name, one at a time. `vals` holds
/// the value given for each argument so far; `missing` says that an option
/// came without its value; `trailing` that `--` was seen. An option that
/// stands without a value (at the end, or before another option) is noted
/// as missing and reading goes on with the next token.
pub open spec fn parse_tokens(
    toks: Seq<Seq<char>>,
    vals: Seq<Option<Seq<char>>>,
    missing: bool,
    trailing: bool,
) -> Result<(Seq<Option<Seq<char>>>, bool), ArgError>
    decreases toks.len(),
{
    if toks.len() == 0 {
        Ok((vals, missing))
    } else {
        let t = toks[0];
        let rest = toks.drop_first();
        if !trailing && is_double_dash(t) {
            parse_tokens(rest, vals, missing, true)
        } else if !trailing && is_long(t) {
            let body = t.skip(2);
            let k = first_pos(body, '=');
            let name = body.take(k);
            let i = long_index(name);
            if name == "help"@ {
                Err(ArgError::HelpRequested)
            } else if name == "version"@ {
                Err(ArgError::VersionRequested)
            } else if i < 0 {
                Err(ArgError::UnknownArgument)
            } else if vals[i] is Some {
                Err(ArgError::RepeatedArgument)
            } else if k < body.len() {
                parse_tokens(rest, vals.update(i, Some(body.skip(k + 1))), missing, trailing)
            } else if rest.len() > 0 && !flag_like(rest[0]) {
                parse_tokens(rest.drop_first(), vals.update(i, Some(rest[0])), missing, trailing)
            } else {
                parse_tokens(rest, vals.update(i, Some(Seq::empty())), true, trailing)
            }
        } else if !trailing && flag_like(t) {
            if t[1] == 'h' {
                Err(ArgError::HelpRequested)
            } else if t[1] == 'V' {
                Err(ArgError::VersionRequested)
            } else {
                Err(ArgError::UnknownArgument)
            }
        } else if vals[FOLDER as int] is Some {
            Err(ArgError::ExtraValue)
        } else {
            parse_tokens(rest, vals.update(FOLDER as int, Some(t)), missing, trailing)
        }
    }
}

/// No argument given yet.
pub open spec fn no_values() -> Seq<Option<Seq<char>>> {
    Seq::new(ARG_COUNT as nat, |i: int| None)
}

/// A given value, or the default.
pub open spec fn or_default(v: Option<Seq<char>>, default: Seq<char>) -> Seq<char> {
    match v {
        Some(x) => x,
        None => default,
    }
}

/// The default that depends on the mode.
pub open spec fn by_mode(mode: Seq<char>, local: Seq<char>, lan: Seq<char>, internet: Seq<char>) -> Seq<
    char,
> {
    if mode == "local"@ {
        local
    } else if mode == "lan"@ {
        lan
    } else {
        internet
    }
}

/// The value of every argument: the given one, or its default. The mode
/// defaults to `local`; the addresses and the acceptable turn distance
/// default by mode.
pub open spec fn with_defaults(vals: Seq<Option<Seq<char>>>) -> Seq<Seq<char>> {
    let mode = or_default(vals[0], "local"@);
    seq![
        mode,
        or_default(vals[1], by_mode(mode, "localhost:1234"@, "0.0.0.0:1234"@, "0.0.0.0:1234"@)),
        or_default(vals[2], by_mode(mode, "localhost:9999"@, "0.0.0.0:9999"@, "0.0.0.0:9999"@)),
        or_default(vals[3], "500000"@),
        or_default(vals[4], by_mode(mode, "2"@, "10"@, "30"@)),
        or_default(vals[5], "5"@),
        or_default(vals[6], "./city"@),
    ]
}

/// What a command line (the first item being the program's name) gives:
/// the value of every argument, or why the command line is refused.
pub open spec fn cli_matches(args: Seq<Seq<char>>) -> Result<Seq<Seq<char>>, ArgError> {
    let toks = if args.len() > 0 {
        args.drop_first()
    } else {
        args
    };
    match parse_tokens(toks, no_values(), false, false) {
        Err(e) => Err(e),
        Ok((vals, missing)) => if missing {
            Err(ArgError::MissingValue)
        } else if vals[0] is Some && !is_known_mode(vals[0]->0) {
            Err(ArgError::InvalidMode)
        } else {
            Ok(with_defaults(vals))
        },
    }
}

/// The characters of the string slices of a command line.
pub open spec fn args_view(args: Seq<&str>) -> Seq<Seq<char>> {
    args.map_values(|s: &str| s@)
}

/// The characters of optional strings.
pub open spec fn opt_views(v: Seq<Option<String>>) -> Seq<Option<Seq<char>>> {
    Seq::new(
        v.len(),
        |i: int|
            match v[i] {
                Some(s) => Some(s@),
                None => None,
            },
    )
}

/// Where the first `c` of `s` stands, or the length of `s`.
fn first_position(s: &Vec<char>, c: char) -> (k: usize)
    ensures
        k == first_pos(s@, c),
        k <= s@.len(),
{
    let mut k: usize = 0;
    assert(s@.skip(0) =~= s@);
    while k < s.len() && s[k] != c
        invariant
            k <= s@.len(),
            first_pos(s@, c) == k + first_pos(s@.skip(k as int), c),
        decreases s.len() - k,
    {
        assert(s@.skip(k as int).drop_first() =~= s@.skip(k + 1));
        k = k + 1;
    }
    k
}

/// Where the option with the long flag `--name` stands.
fn long_index_of(name: &str) -> (r: Option<usize>)
    ensures
        match r {
            Some(i) => long_index(name@) == i,
            None => long_index(name@) == -1,
        },
{
    if str_eq(name, "mode") {
        Some(0)
    } else if str_eq(name, "bind") {
        Some(1)
    } else if str_eq(name, "bind-sim") {
        Some(2)
    } else if str_eq(name, "batch-msg-bytes") {
        Some(3)
    } else if str_eq(name, "ok-turn-dist") {
        Some(4)
    } else if str_eq(name, "skip-ratio") {
        Some(5)
    } else {
        None
    }
}

/// Reads the tokens of a command line after the program's name.
fn read_tokens(args: &Vec<&str>) -> (r: Result<(Vec<Option<String>>, bool), ArgError>)
    ensures
        match parse_tokens(
            if args@.len() > 0 { args_view(args@).drop_first() } else { args_view(args@) },
            no_values(),
            false,
            false,
        ) {
            Ok((vals, missing)) => r matches Ok((v, m)) && opt_views(v@) == vals && m == missing,
            Err(e) => r == Err::<(Vec<Option<String>>, bool), ArgError>(e),
        },
        r matches Ok((v, m)) ==> v@.len() == ARG_COUNT,
{
    let ghost av = args_view(args@);
    let n = args.len();
    let mut i: usize = if n > 0 {
        1
    } else {
        0
    };
    let ghost toks = if args@.len() > 0 { av.drop_first() } else { av };
    assert(av.skip(i as int) =~= toks);
    let mut vals: Vec<Option<String>> = Vec::new();
    let mut j: usize = 0;
    while j < ARG_COUNT
        invariant
            j <= ARG_COUNT,
            vals@.len() == j,
            forall|q: int| 0 <= q < j ==> vals@[q] is None,
        decreases ARG_COUNT - j,
    {
        vals.push(None);
        j = j + 1;
    }
    assert(opt_views(vals@) =~= no_values());
    let mut missing = false;
    let mut trailing = false;
    while i < n
        invariant
            n == args@.len(),
            av == args_view(args@),
            toks == (if args@.len() > 0 { av.drop_first() } else { av }),
            i <= n,
            vals@.len() == ARG_COUNT,
            parse_tokens(toks, no_values(), false, false) == parse_tokens(
                av.skip(i as int),
                opt_views(vals@),
                missing,
                trailing,
            ),
        decreases n - i,
    {
        let ghost before = opt_views(vals@);
        let ghost rest = av.skip(i as int).drop_first();
        assert(av.skip(i as int)[0] == args@[i as int]@);
        assert(rest =~= av.skip(i + 1));
        let t = args[i];
        let tc = chars_of(t);
        if !trailing && tc.len() == 2 && tc[0] == '-' && tc[1] == '-' {
            trailing = true;
            i = i + 1;
        } else if !trailing && tc.len() > 2 && tc[0] == '-' && tc[1] == '-' {
            let mut body: Vec<char> = Vec::new();
            let mut q: usize = 2;
            while q < tc.len()
                invariant
                    2 <= q <= tc@.len(),
                    body@ == tc@.subrange(2, q as int),
                decreases tc.len() - q,
            {
                body.push(tc[q]);
                q = q + 1;
                assert(body@ =~= tc@.subrange(2, q as int));
            }
            assert(body@ =~= t@.skip(2));
            let k = first_position(&body, '=');
            let name = crate::text::string_of_range(&body, 0, k);
            assert(name@ =~= body@.take(k as int));
            if str_eq(name.as_str(), "help") {
                return Err(ArgError::HelpRequested);
            }
            if str_eq(name.as_str(), "version") {
                return Err(ArgError::VersionRequested);
            }
            let idx = match long_index_of(name.as_str()) {
                Some(x) => x,
                None => {
                    return Err(ArgError::UnknownArgument);
                },
            };
            if vals[idx].is_some() {
                return Err(ArgError::RepeatedArgument);
            }
            if k < body.len() {
                let value = crate::text::string_of_range(&body, k + 1, body.len());
                assert(value@ =~= body@.skip(k + 1));
                vals.set(idx, Some(value));
                assert(opt_views(vals@) =~= before.update(idx as int, Some(body@.skip(k + 1))));
                i = i + 1;
            } else if i + 1 < n && !(chars_of(args[i + 1]).len() > 1 && chars_of(args[i + 1])[0]
                == '-') {
                let next = args[i + 1];
                assert(rest[0] == next@);
                assert(rest.drop_first() =~= av.skip(i + 2));
                vals.set(idx, Some(String::from_str(next)));
                assert(opt_views(vals@) =~= before.update(idx as int, Some(next@)));
                i = i + 2;
            } else {
                vals.set(idx, Some(String::new()));
                assert(opt_views(vals@) =~= before.update(idx as int, Some(Seq::<char>::empty())));
                missing = true;
                i = i + 1;
            }
        } else if !trailing && tc.len() > 1 && tc[0] == '-' {
            if tc[1] == 'h' {
                return Err(ArgError::HelpRequested);
            } else if tc[1] == 'V' {
                return Err(ArgError::VersionRequested);
            } else {
                return Err(ArgError::UnknownArgument);
            }
        } else {
            if vals[FOLDER].is_some() {
                return Err(ArgError::ExtraValue);
            }
            vals.set(FOLDER, Some(String::from_str(t)));
            assert(opt_views(vals@) =~= before.update(FOLDER as int, Some(t@)));
            i = i + 1;
        }
    }
    assert(av.skip(i as int) =~= Seq::<Seq<char>>::empty());
    Ok((vals, missing))
}

/// The command line of the server, shown by `--version` with this version.
pub struct Cli {
    version: String,
}

impl View for Cli {
    /// The version that the command line shows.
    type V = Seq<char>;

    closed spec fn view(&self) -> Seq<char> {
        self.version@
    }
}

/// The values that a command line gives, one for each argument.
pub struct ArgMatches {
    values: Vec<String>,
}

impl View for ArgMatches {
    type V = Seq<Seq<char>>;

    closed spec fn view(&self) -> Seq<Seq<char>> {
        self.values@.map_values(|s: String| s@)
    }
}

/// The server's command line, showing the version `version` (trimmed).
pub fn build_cli(version: &str) -> (cli: Cli)
    ensures
        cli@ == trim(version@),
{
    Cli { version: String::from_str(crate::text::trim_str(version)) }
}

impl Cli {
    /// What `--version` prints: the program's name and the version.
    pub fn version_line(&self) -> (line: String)
        ensures
            line@ == "citybound "@ + self@,
    {
        let mut line = String::from_str("citybound ");
        line.append(self.version.as_str());
        line
    }

    /// Reads a command line (the first item being the program's name).
    pub fn get_matches_from_safe(&self, args: &Vec<&str>) -> (r: Result<ArgMatches, ArgError>)
        ensures
            match cli_matches(args_view(args@)) {
                Ok(values) => r matches Ok(m) && m@ == values,
                Err(e) => r == Err::<ArgMatches, ArgError>(e),
            },
    {
        let (vals, missing) = read_tokens(args)?;
        let ghost vv = opt_views(vals@);
        if missing {
            return Err(ArgError::MissingValue);
        }
        let mode_given = match &vals[0] {
            Some(m) => {
                if !(str_eq(m.as_str(), "local") || str_eq(m.as_str(), "lan") || str_eq(
                    m.as_str(),
                    "internet",
                )) {
                    return Err(ArgError::InvalidMode);
                }
                Some(m.as_str())
            },
            None => None,
        };
        let mode: &str = match mode_given {
            Some(m) => m,
            None => "local",
        };
        assert(mode@ == or_default(vv[0], "local"@));
        let local = str_eq(mode, "local");
        let lan = str_eq(mode, "lan");
        let mut values: Vec<String> = Vec::new();
        values.push(String::from_str(mode));
        values.push(
            value_or(
                &vals[1],
                if local {
                    "localhost:1234"
                } else {
                    "0.0.0.0:1234"
                },
            ),
        );
        values.push(
            value_or(
                &vals[2],
                if local {
                    "localhost:9999"
                } else {
                    "0.0.0.0:9999"
                },
            ),
        );
        values.push(value_or(&vals[3], "500000"));
        values.push(
            value_or(
                &vals[4],
                if local {
                    "2"
                } else if lan {
                    "10"
                } else {
                    "30"
                },
            ),
        );
        values.push(value_or(&vals[5], "5"));
        values.push(value_or(&vals[6], "./city"));
        let m = ArgMatches { values };
        assert(m@ =~= with_defaults(vv));
        Ok(m)
    }
}

/// The given value, or the default.
fn value_or(v: &Option<String>, default: &str) -> (s: String)
    ensures
        s@ == or_default(
            match v {
                Some(x) => Some(x@),
                None => None,
            },
            default@,
        ),
{
    match v {
        Some(x) => x.clone(),
        None => String::from_str(default),
    }
}

/// Where the argument called `name` stands.
fn arg_index_of(name: &str) -> (r: Option<usize>)
    ensures
        match r {
            Some(i) => arg_index(name@) == i,
            None => arg_index(name@) == -1,
        },
{
    if str_eq(name, "mode") {
        Some(0)
    } else if str_eq(name, "bind") {
        Some(1)
    } else if str_eq(name, "bind-sim") {
        Some(2)
    } else if str_eq(name, "batch-msg-b") {
        Some(3)
    } else if str_eq(name, "ok-turn-dist") {
        Some(4)
    } else if str_eq(name, "skip-ratio") {
        Some(5)
    } else if str_eq(name, "CITY_FOLDER") {
        Some(6)
    } else {
        None
    }
}

impl ArgMatches {
    /// The value of the argument called `name` (given, or its default), or
    /// `None` for a name that the command line does not have.
    pub fn value_of(&self, name: &str) -> (r: Option<&str>)
        requires
            self@.len() == ARG_COUNT,
        ensures
            arg_index(name@) >= 0 ==> (r matches Some(v) && v@ == self@[arg_index(name@)]),
            arg_index(name@) < 0 ==> r is None,
    {
        match arg_index_of(name) {
            Some(i) => Some(self.values[i].as_str()),
            None => None,
        }
    }
}

/// Whether the values of the three numeric options are whole numbers that
/// fit in a `usize`.
pub open spec fn numbers_read(values: Seq<Seq<char>>) -> bool {
    &&& usize_from_str(values[3]) is Some
    &&& usize_from_str(values[4]) is Some
    &&& usize_from_str(values[5]) is Some
}

/// The network settings and the city folder that the values of the
/// arguments give.
pub open spec fn settings_from(values: Seq<Seq<char>>, r: (NetworkConfig, String)) -> bool {
    &&& config_from_values(r.0, values[0], values[1], values[2], values[3], values[4], values[5])
    &&& r.1@ == values[6]
}

/// Reads a number that is known to be a whole number that fits in a `usize`.
fn read_number(s: &str) -> (n: usize)
    requires
        usize_from_str(s@) is Some,
    ensures
        usize_from_str(s@) == Some(n as nat),
{
    match parse_usize(s) {
        Some(n) => n,
        None => {
            proof {
                assert(false);
            }
            0
        },
    }
}

/// The network settings and the city folder that the values give. The
/// three numeric values must be whole numbers that fit in a `usize`.
pub fn matches_to_config(matches: &ArgMatches) -> (r: (NetworkConfig, String))
    requires
        matches@.len() == ARG_COUNT,
        numbers_read(matches@),
    ensures
        settings_from(matches@, r),
{
    let config = NetworkConfig {
        serve_host_port: String::from_str(matches.values[1].as_str()),
        bind_sim: String::from_str(matches.values[2].as_str()),
        mode: String::from_str(matches.values[0].as_str()),
        batch_msg_bytes: read_number(matches.values[3].as_str()),
        ok_turn_dist: read_number(matches.values[4].as_str()),
        skip_ratio: read_number(matches.values[5].as_str()),
    };
    (config, String::from_str(matches.values[FOLDER].as_str()))
}

/// The network settings and the city folder that a command line (the first
/// item being the program's name) gives, or why the grammar refuses it. The
/// numeric options of a command line that the grammar accepts must be whole
/// numbers that fit in a `usize`.
pub fn parse_cmd_line_args_from(version: &str, args: Vec<&str>) -> (r: Result<(NetworkConfig, String), ArgError>)
    requires
        cli_matches(args_view(args@)) matches Ok(values) ==> numbers_read(values),
    ensures
        match cli_matches(args_view(args@)) {
            Err(e) => r == Err::<(NetworkConfig, String), ArgError>(e),
            Ok(values) => r matches Ok(v) && settings_from(values, v),
        },
{
    let cli = build_cli(version);
    let matches = cli.get_matches_from_safe(&args)?;
    Ok(matches_to_config(&matches))
}

/// What every argument's value is when the command line leaves it out, and
/// that a given value always wins: the mode defaults to `local`; the two
/// addresses default to `localhost` in the local mode and to `0.0.0.0` in
/// the others, the acceptable turn distance to 2, 10 or 30 by mode; the
/// batch size (500000), the skip ratio (5) and the city folder (`./city`)
/// keep their default whatever the mode.
pub proof fn law_defaults_of_arguments(vals: Seq<Option<Seq<char>>>, other_mode: Option<Seq<char>>)
    requires
        vals.len() == ARG_COUNT,
    ensures
        with_defaults(vals).len() == ARG_COUNT,
        forall|i: int| 0 <= i < ARG_COUNT && vals[i] is Some ==> #[trigger] with_defaults(vals)[i] == vals[i]->0,
        vals[0] is None ==> with_defaults(vals)[0] == "local"@,
        vals[1] is None ==> with_defaults(vals)[1] == (if with_defaults(vals)[0] == "local"@ {
            "localhost:1234"@
        } else {
            "0.0.0.0:1234"@
        }),
        vals[2] is None ==> with_defaults(vals)[2] == (if with_defaults(vals)[0] == "local"@ {
            "localhost:9999"@
        } else {
            "0.0.0.0:9999"@
        }),
        vals[3] is None ==> with_defaults(vals)[3] == "500000"@,
        vals[4] is None && with_defaults(vals)[0] == "local"@ ==> with_defaults(vals)[4] == "2"@,
        vals[4] is None && with_defaults(vals)[0] == "lan"@ ==> with_defaults(vals)[4] == "10"@,
        vals[4] is None && with_defaults(vals)[0] == "internet"@ ==> with_defaults(vals)[4] == "30"@,
        vals[5] is None ==> with_defaults(vals)[5] == "5"@,
        vals[6] is None ==> with_defaults(vals)[6] == "./city"@,
        with_defaults(vals.update(0, other_mode))[3] == with_defaults(vals)[3],
        with_defaults(vals.update(0, other_mode))[5] == with_defaults(vals)[5],
        with_defaults(vals.update(0, other_mode))[6] == with_defaults(vals)[6],
{
    reveal_strlit("local");
    reveal_strlit("lan");
    reveal_strlit("internet");
    assert("lan"@ != "local"@ && "internet"@ != "local"@ && "internet"@ != "lan"@) by {
        assert("lan"@[1] != "local"@[1]);
        assert("internet"@[0] != "local"@[0]);
        assert("internet"@[0] != "lan"@[0]);
    }
    let w = with_defaults(vals);
    assert forall|i: int| 0 <= i < ARG_COUNT && vals[i] is Some implies #[trigger] w[i] == vals[i]->0 by {
        if i == 0 {
        } else if i == 1 {
        } else if i == 2 {
        } else if i == 3 {
        } else if i == 4 {
        } else if i == 5 {
        } else {
        }
    }
}

/// A command line that the grammar accepts and that leaves out the skip
/// ratio gives it the value 5, whatever the mode.
pub proof fn law_skip_ratio_default(args: Seq<Seq<char>>)
    ensures
        ({
            let toks = if args.len() > 0 {
                args.drop_first()
            } else {
                args
            };
            parse_tokens(toks, no_values(), false, false) matches Ok((vals, _)) && vals.len() == ARG_COUNT
                && vals[5] is None && cli_matches(args) is Ok ==> cli_matches(args)->Ok_0[5] == "5"@
        }),
{
}

} // verus!
