//! Service configuration.
//!
//! Values are resolved with a builder in a fixed precedence order: compiled defaults, then environment
//! variables, then CLI flags. Only process level concerns live here. Anything a user can change while the
//! service is running belongs in the `settings` table instead, see `models::settings`.
//!
//! Paths are held as text and joined with `/`; reading the environment and parsing the command line
//! happen outside the library, which is handed the values they produced.

use crate::audio::segment_writer::{indexed_path, segment_file_name, segment_path};
use crate::util::path::{
    below_root, below_root_chars, forward_slashes, is_absolute_path, is_plain_relative, join_chars,
    join_path, lemma_joined_path_lies_below_its_dir, lemma_trim_front_is_suffix, trim_front,
    trim_front_at,
};
use crate::util::text::{
    all_digits, chars_of, slice_chars, decimal, lemma_decimal_digits, parse_unsigned, parse_unsigned_spec,
    signed_decimal, string_from_chars, trim_bounds, trim_spec, zero_padded,
};
use crate::util::day::{day_text, is_day_text, year_text};
use vstd::prelude::*;

verus! {

pub const DEFAULT_HOST: &'static str = "0.0.0.0";

pub const DEFAULT_PORT: u16 = 8080;

pub const DEFAULT_DATA_DIR: &'static str = "./data";

pub const DEFAULT_STATIC_DIR: &'static str = "../frontend/dist";

pub const DEFAULT_LOG_LEVEL: &'static str = "info";

/// Name of the SQLite database file inside the data directory.
pub const DATABASE_FILE: &'static str = "on-air-record.sqlite";

/// Name of the directory, inside the data directory, that holds the recordings.
pub const RECORDINGS_DIR: &'static str = "recordings";

/// Command line surface. Every flag is optional so that the environment can supply it instead.
#[derive(Debug)]
pub struct CliArgs {
    /// Address to bind the HTTP server to
    pub host: Option<String>,
    /// HTTP port
    pub port: Option<u16>,
    /// Directory holding the SQLite database and the recorded segments
    pub data_dir: Option<String>,
    /// Directory holding the compiled web UI
    pub static_dir: Option<String>,
    /// Log level: error, warn, info, debug or trace
    pub log_level: Option<String>,
}

/// The `OAR_*` environment variables as they were found, `None` where a variable is not set.
#[derive(Debug, Clone)]
pub struct EnvironmentValues {
    /// `OAR_HOST`
    pub host: Option<String>,
    /// `OAR_PORT`
    pub port: Option<String>,
    /// `OAR_DATA_DIR`
    pub data_dir: Option<String>,
    /// `OAR_STATIC_DIR`
    pub static_dir: Option<String>,
    /// `OAR_LOG_LEVEL`
    pub log_level: Option<String>,
}

#[derive(Debug, Clone)]
pub struct AppConfig {
    pub host: String,
    pub port: u16,
    pub data_dir: String,
    pub static_dir: String,
    pub log_level: String,
}

/// The configuration as values.
pub struct ConfigView {
    pub host: Seq<char>,
    pub port: u16,
    pub data_dir: Seq<char>,
    pub static_dir: Seq<char>,
    pub log_level: Seq<char>,
}

impl View for AppConfig {
    type V = ConfigView;

    open spec fn view(&self) -> ConfigView {
        ConfigView {
            host: self.host@,
            port: self.port,
            data_dir: self.data_dir@,
            static_dir: self.static_dir@,
            log_level: self.log_level@,
        }
    }
}

/// The compiled defaults.
pub open spec fn default_config() -> ConfigView {
    ConfigView {
        host: DEFAULT_HOST@,
        port: DEFAULT_PORT,
        data_dir: DEFAULT_DATA_DIR@,
        static_dir: DEFAULT_STATIC_DIR@,
        log_level: DEFAULT_LOG_LEVEL@,
    }
}

/// An environment value counts when it is set and not blank; it is then taken as it stands.
pub open spec fn env_text(value: Option<String>, current: Seq<char>) -> Seq<char> {
    match value {
        Some(text) => if trim_spec(text@).len() > 0 {
            text@
        } else {
            current
        },
        None => current,
    }
}

/// The port counts when it parses as a port number once trimmed.
pub open spec fn env_port(value: Option<String>, current: u16) -> u16 {
    match value {
        Some(text) => match parse_unsigned_spec(trim_spec(text@), u16::MAX as int) {
            Some(port) => port as u16,
            None => current,
        },
        None => current,
    }
}

/// The configuration after the environment is applied: unusable values are ignored, so a typo degrades
/// to what was there rather than preventing the service from starting.
pub open spec fn with_environment_spec(config: ConfigView, env: EnvironmentValues) -> ConfigView {
    ConfigView {
        host: env_text(env.host, config.host),
        port: env_port(env.port, config.port),
        data_dir: env_text(env.data_dir, config.data_dir),
        static_dir: env_text(env.static_dir, config.static_dir),
        log_level: env_text(env.log_level, config.log_level),
    }
}

pub open spec fn flag_text(value: Option<String>, current: Seq<char>) -> Seq<char> {
    match value {
        Some(text) => text@,
        None => current,
    }
}

/// The configuration after the command line is applied: every flag given wins.
pub open spec fn with_cli_spec(config: ConfigView, args: CliArgs) -> ConfigView {
    ConfigView {
        host: flag_text(args.host, config.host),
        port: match args.port {
            Some(port) => port,
            None => config.port,
        },
        data_dir: flag_text(args.data_dir, config.data_dir),
        static_dir: flag_text(args.static_dir, config.static_dir),
        log_level: flag_text(args.log_level, config.log_level),
    }
}

/// Path of `relative` inside the data directory.
pub open spec fn data_path(data_dir: Seq<char>, relative: Seq<char>) -> Seq<char> {
    join_path(data_dir, relative)
}

/// The form the index stores a path in: relative to the data directory where it lies below it, with
/// forward slashes either way.
pub open spec fn relativised(data_dir: Seq<char>, absolute: Seq<char>) -> Seq<char> {
    forward_slashes(
        match below_root(absolute, data_dir) {
            Some(rest) => rest,
            None => absolute,
        },
    )
}

/// The data directory as the service uses it: as configured when that is absolute, otherwise placed in
/// `working_dir`, without the `.` components it started with.
pub open spec fn anchored_dir(data_dir: Seq<char>, working_dir: Seq<char>) -> Seq<char> {
    if is_absolute_path(data_dir) {
        data_dir
    } else {
        join_path(working_dir, trim_front(data_dir))
    }
}

/// The configuration with its data directory anchored at `working_dir`.
pub open spec fn anchored_config(config: ConfigView, working_dir: Seq<char>) -> ConfigView {
    ConfigView { data_dir: anchored_dir(config.data_dir, working_dir), ..config }
}

/// Anchoring at an absolute working directory always gives an absolute data directory.
pub proof fn lemma_anchored_dirs_are_absolute(data_dir: Seq<char>, working_dir: Seq<char>)
    requires
        is_absolute_path(working_dir),
    ensures
        is_absolute_path(anchored_dir(data_dir, working_dir)),
{
    if !is_absolute_path(data_dir) {
        lemma_trim_front_is_suffix(data_dir);
        let rest = trim_front(data_dir);
        assert(join_path(working_dir, rest)[0] == working_dir[0]);
    }
}

fn anchored_data_dir(data_dir: &String, working_dir: &str) -> (dir: String)
    ensures
        dir@ == anchored_dir(data_dir@, working_dir@),
{
    let chars = chars_of(data_dir.as_str());
    if chars.len() > 0 && chars[0] == '/' {
        return string_from_chars(chars.as_slice());
    }
    let from = trim_front_at(chars.as_slice(), 0);
    let rest = slice_chars(chars.as_slice(), from, chars.len());
    assert(rest@ =~= chars@.skip(from as int));
    assert(chars@.skip(0) =~= chars@);
    let working = chars_of(working_dir);
    let joined = join_chars(working.as_slice(), rest.as_slice());
    string_from_chars(joined.as_slice())
}

fn owned(text: &str) -> (owned: String)
    ensures
        owned@ == text@,
{
    let chars = chars_of(text);
    string_from_chars(chars.as_slice())
}

fn copy_string(text: &String) -> (copy: String)
    ensures
        copy@ == text@,
{
    owned(text.as_str())
}

impl Default for AppConfig {
    fn default() -> (config: Self)
        ensures
            config@ == default_config(),
    {
        AppConfig {
            host: owned(DEFAULT_HOST),
            port: DEFAULT_PORT,
            data_dir: owned(DEFAULT_DATA_DIR),
            static_dir: owned(DEFAULT_STATIC_DIR),
            log_level: owned(DEFAULT_LOG_LEVEL),
        }
    }
}

fn joined(dir: &String, name: &str) -> (path: String)
    ensures
        path@ == join_path(dir@, name@),
{
    let dir_chars = chars_of(dir.as_str());
    let name_chars = chars_of(name);
    let path = join_chars(dir_chars.as_slice(), name_chars.as_slice());
    string_from_chars(path.as_slice())
}

impl AppConfig {
    /// Resolve the effective configuration from defaults, environment, and CLI flags, with a relative
    /// data directory placed in `working_dir`, the directory the service was started from.
    pub fn resolve(args: CliArgs, environment: &EnvironmentValues, working_dir: &str) -> (config: Self)
        ensures
            config@ == anchored_config(
                with_cli_spec(with_environment_spec(default_config(), *environment), args),
                working_dir@,
            ),
            is_absolute_path(working_dir@) ==> is_absolute_path(config.data_dir@),
    {
        let mut config = AppConfigBuilder::new().with_environment(environment).with_cli(args).build();
        config.data_dir = anchored_data_dir(&config.data_dir, working_dir);
        proof {
            if is_absolute_path(working_dir@) {
                lemma_anchored_dirs_are_absolute(
                    with_cli_spec(with_environment_spec(default_config(), *environment), args).data_dir,
                    working_dir@,
                );
            }
        }
        config
    }

    /// Absolute path of the SQLite database file, inside the data directory, for a data directory
    /// that is absolute, as [`AppConfig::resolve`] makes it.
    pub fn database_path(&self) -> (path: String)
        ensures
            path@ == data_path(self.data_dir@, DATABASE_FILE@),
            is_absolute_path(self.data_dir@) ==> is_absolute_path(path@),
    {
        proof {
            reveal_strlit("on-air-record.sqlite");
        }
        joined(&self.data_dir, DATABASE_FILE)
    }

    /// Root directory of the recorded segment files.
    pub fn recordings_dir(&self) -> (path: String)
        ensures
            path@ == data_path(self.data_dir@, RECORDINGS_DIR@),
            is_absolute_path(self.data_dir@) ==> is_absolute_path(path@),
    {
        proof {
            reveal_strlit("recordings");
        }
        joined(&self.data_dir, RECORDINGS_DIR)
    }

    /// Resolve a segment path stored relative to the data directory.
    pub fn resolve_data_path(&self, relative: &str) -> (path: String)
        ensures
            path@ == data_path(self.data_dir@, relative@),
    {
        joined(&self.data_dir, relative)
    }

    /// Turn an absolute segment path back into the relative form stored in the database, so the data
    /// directory can be moved without invalidating the index.
    pub fn relativise_data_path(&self, absolute: &str) -> (relative: String)
        ensures
            relative@ == relativised(self.data_dir@, absolute@),
    {
        let path = chars_of(absolute);
        let root = chars_of(self.data_dir.as_str());
        let kept = match below_root_chars(path.as_slice(), root.as_slice()) {
            Some(rest) => rest,
            None => path,
        };
        let mut out: Vec<char> = Vec::new();
        let mut i: usize = 0;
        while i < kept.len()
            invariant
                i <= kept@.len(),
                out@ == forward_slashes(kept@.take(i as int)),
            decreases kept@.len() - i,
        {
            let c = kept[i];
            out.push(if c == '\\' { '/' } else { c });
            assert(forward_slashes(kept@.take(i + 1)) =~= forward_slashes(kept@.take(i as int)).push(
                if c == '\\' { '/' } else { c },
            ));
            i = i + 1;
        }
        assert(kept@.take(kept@.len() as int) =~= kept@);
        string_from_chars(out.as_slice())
    }
}

/// Builder that layers the configuration sources in precedence order.
#[derive(Debug)]
pub struct AppConfigBuilder {
    config: AppConfig,
}

impl View for AppConfigBuilder {
    type V = ConfigView;

    closed spec fn view(&self) -> ConfigView {
        self.config@
    }
}

fn usable_text(value: &Option<String>) -> (usable: Option<String>)
    ensures
        match *value {
            Some(text) => if trim_spec(text@).len() > 0 {
                usable matches Some(found) && found@ == text@
            } else {
                usable is None
            },
            None => usable is None,
        },
{
    match value {
        Some(text) => {
            let chars = chars_of(text.as_str());
            let (start, end) = trim_bounds(&chars);
            if end > start {
                Some(copy_string(text))
            } else {
                None
            }
        },
        None => None,
    }
}

fn usable_port(value: &Option<String>) -> (port: Option<u16>)
    ensures
        match *value {
            Some(text) => match parse_unsigned_spec(trim_spec(text@), u16::MAX as int) {
                Some(n) => port == Some(n as u16),
                None => port is None,
            },
            None => port is None,
        },
{
    match value {
        Some(text) => {
            let chars = chars_of(text.as_str());
            let (start, end) = trim_bounds(&chars);
            let trimmed = crate::util::text::slice_chars(chars.as_slice(), start, end);
            match parse_unsigned(trimmed.as_slice(), 0xffff) {
                Some(n) => Some(n as u16),
                None => None,
            }
        },
        None => None,
    }
}

impl AppConfigBuilder {
    pub fn new() -> (builder: Self)
        ensures
            builder@ == default_config(),
    {
        AppConfigBuilder { config: AppConfig::default() }
    }

    /// Apply the `OAR_*` environment variables. Unparseable values are ignored so a typo degrades to the
    /// default rather than preventing the service from starting.
    pub fn with_environment(self, environment: &EnvironmentValues) -> (builder: Self)
        ensures
            builder@ == with_environment_spec(self@, *environment),
    {
        let mut config = self.config;
        if let Some(host) = usable_text(&environment.host) {
            config.host = host;
        }
        if let Some(port) = usable_port(&environment.port) {
            config.port = port;
        }
        if let Some(data_dir) = usable_text(&environment.data_dir) {
            config.data_dir = data_dir;
        }
        if let Some(static_dir) = usable_text(&environment.static_dir) {
            config.static_dir = static_dir;
        }
        if let Some(log_level) = usable_text(&environment.log_level) {
            config.log_level = log_level;
        }
        AppConfigBuilder { config }
    }

    /// Apply CLI flags, which win over everything else.
    pub fn with_cli(self, args: CliArgs) -> (builder: Self)
        ensures
            builder@ == with_cli_spec(self@, args),
    {
        let mut config = self.config;
        let CliArgs { host, port, data_dir, static_dir, log_level } = args;
        if let Some(host) = host {
            config.host = host;
        }
        if let Some(port) = port {
            config.port = port;
        }
        if let Some(data_dir) = data_dir {
            config.data_dir = data_dir;
        }
        if let Some(static_dir) = static_dir {
            config.static_dir = static_dir;
        }
        if let Some(log_level) = log_level {
            config.log_level = log_level;
        }
        AppConfigBuilder { config }
    }

    pub fn build(self) -> (config: AppConfig)
        ensures
            config@ == self@,
    {
        self.config
    }
}

impl Default for AppConfigBuilder {
    fn default() -> (builder: Self)
        ensures
            builder@ == default_config(),
    {
        Self::new()
    }
}

/// Precedence: a flag given on the command line wins whatever the environment says, and an
/// environment value that is set and not blank wins over the compiled default.
pub proof fn lemma_flags_win_over_environment(args: CliArgs, env: EnvironmentValues)
    ensures
        args.host matches Some(h) ==> with_cli_spec(with_environment_spec(default_config(), env), args).host == h@,
        args.port matches Some(p) ==> with_cli_spec(with_environment_spec(default_config(), env), args).port == p,
        args.data_dir matches Some(d) ==> with_cli_spec(with_environment_spec(default_config(), env), args).data_dir == d@,
        args.host is None ==> (env.host matches Some(h) ==> (trim_spec(h@).len() > 0
            ==> with_cli_spec(with_environment_spec(default_config(), env), args).host == h@)),
        args.host is None && env.host is None ==> with_cli_spec(
            with_environment_spec(default_config(), env),
            args,
        ).host == DEFAULT_HOST@,
{
}

/// A path resolved inside the data directory relativises back to what was stored, for any stored
/// path that is relative, written with forward slashes, and neither starts nor ends with a separator
/// or a `.` component, whatever separators and `.` components the data directory itself is written
/// with.
pub proof fn lemma_data_paths_round_trip(data_dir: Seq<char>, relative: Seq<char>)
    requires
        is_plain_relative(relative),
        no_backslash(relative),
    ensures
        relativised(data_dir, data_path(data_dir, relative)) == relative,
{
    lemma_joined_path_lies_below_its_dir(data_dir, relative);
    assert(forward_slashes(relative) =~= relative);
}

/// Text without a backslash.
pub open spec fn no_backslash(text: Seq<char>) -> bool {
    forall|i: int| 0 <= i < text.len() ==> text[i] != '\\'
}

/// Text that does not start with a separator, so joining it never replaces what it is joined to.
pub open spec fn relative_text(text: Seq<char>) -> bool {
    text.len() == 0 || text[0] != '/'
}

proof fn lemma_join_associates(a: Seq<char>, b: Seq<char>, c: Seq<char>)
    requires
        relative_text(b),
        relative_text(c),
    ensures
        join_path(join_path(a, b), c) == join_path(a, join_path(b, c)),
        relative_text(join_path(b, c)),
{
    let ab = join_path(a, b);
    let bc = join_path(b, c);
    if b.len() > 0 {
        assert(ab.last() == b.last());
        assert(bc[0] == b[0]);
    }
    if b.len() == 0 {
        assert(bc == c);
        assert(ab.len() == 0 || ab.last() == '/');
    }
    assert(join_path(ab, c) =~= join_path(a, bc));
}

proof fn lemma_join_keeps_no_backslash(a: Seq<char>, b: Seq<char>)
    requires
        no_backslash(a),
        no_backslash(b),
    ensures
        no_backslash(join_path(a, b)),
{
    let joined = join_path(a, b);
    assert forall|i: int| 0 <= i < joined.len() implies joined[i] != '\\' by {
        if !(b.len() > 0 && b[0] == '/') && !(a.len() == 0 || a.last() == '/') {
            if i < a.len() {
                assert(joined[i] == a[i]);
            } else if i > a.len() {
                assert(joined[i] == b[i - a.len() - 1]);
            }
        } else if !(b.len() > 0 && b[0] == '/') {
            if i < a.len() {
                assert(joined[i] == a[i]);
            } else {
                assert(joined[i] == b[i - a.len()]);
            }
        }
    }
}

proof fn lemma_padded_digits(n: nat, width: nat)
    ensures
        no_backslash(zero_padded(decimal(n), width)),
        zero_padded(decimal(n), width).len() > 0,
        zero_padded(decimal(n), width)[0] != '/',
{
    lemma_decimal_digits(n);
    let digits = decimal(n);
    let padded = zero_padded(digits, width);
    assert forall|i: int| 0 <= i < padded.len() implies padded[i] != '\\' && (i == 0 ==> padded[i]
        != '/') by {
        if digits.len() >= width {
            assert(padded[i] == digits[i]);
        } else if i < width - digits.len() {
            assert(padded[i] == '0');
        } else {
            assert(padded[i] == digits[i - (width - digits.len())]);
        }
    }
}

proof fn lemma_path_parts_are_plain(session_id: int, sequence: int)
    ensures
        no_backslash(signed_decimal(session_id)),
        relative_text(signed_decimal(session_id)),
        no_backslash(segment_file_name(sequence)),
        relative_text(segment_file_name(sequence)),
{
    reveal_strlit(".pcm");
    if session_id < 0 {
        lemma_padded_digits((-session_id) as nat, 0);
        assert(zero_padded(decimal((-session_id) as nat), 0) == decimal((-session_id) as nat));
    } else {
        lemma_padded_digits(session_id as nat, 0);
        assert(zero_padded(decimal(session_id as nat), 0) == decimal(session_id as nat));
    }
    let number = if sequence < 0 {
        lemma_padded_digits((-sequence) as nat, 5);
        seq!['-'] + zero_padded(decimal((-sequence) as nat), 5)
    } else {
        lemma_padded_digits(sequence as nat, 6);
        zero_padded(decimal(sequence as nat), 6)
    };
    assert(segment_file_name(sequence) == number + ".pcm"@);
    let name = segment_file_name(sequence);
    assert forall|i: int| 0 <= i < name.len() implies name[i] != '\\' by {
        if i >= number.len() {
            assert(name[i] == ".pcm"@[i - number.len()]);
        } else {
            assert(name[i] == number[i]);
            if sequence < 0 && i > 0 {
                assert(number[i] == zero_padded(decimal((-sequence) as nat), 5)[i - 1]);
            }
        }
    }
    let sid = signed_decimal(session_id);
    assert forall|i: int| 0 <= i < sid.len() implies sid[i] != '\\' by {
        if session_id < 0 && i > 0 {
            assert(sid[i] == decimal((-session_id) as nat)[i - 1]);
        }
    }
}

/// A calendar day, as recordings are filed under it, is a plain path component: it neither starts
/// with a separator nor holds a backslash.
pub proof fn lemma_day_text_is_plain(text: Seq<char>)
    requires
        is_day_text(text),
    ensures
        relative_text(text),
        no_backslash(text),
{
    let (year, month, day) = choose|year: int, month: int, day: int|
        1 <= month <= 12 && 1 <= day <= 31 && text == #[trigger] day_text(year, month, day);
    let y = year_text(year);
    if 0 <= year && year <= 9999 {
        lemma_padded_digits(year as nat, 4);
    } else if year > 9999 {
        lemma_padded_digits(year as nat, 0);
        assert(zero_padded(decimal(year as nat), 0) == decimal(year as nat));
        assert forall|i: int| 0 <= i < y.len() implies y[i] != '\\' by {
            if i > 0 {
                assert(y[i] == decimal(year as nat)[i - 1]);
            }
        }
    } else {
        lemma_padded_digits((-year) as nat, 4);
        assert forall|i: int| 0 <= i < y.len() implies y[i] != '\\' by {
            if i > 0 {
                assert(y[i] == zero_padded(decimal((-year) as nat), 4)[i - 1]);
            }
        }
    }
    lemma_padded_digits(month as nat, 2);
    lemma_padded_digits(day as nat, 2);
    let m = zero_padded(decimal(month as nat), 2);
    let d = zero_padded(decimal(day as nat), 2);
    assert(text == y + seq!['-'] + m + seq!['-'] + d);
    assert forall|i: int| 0 <= i < text.len() implies text[i] != '\\' by {
        if i < y.len() {
            assert(text[i] == y[i]);
        } else if i == y.len() {
        } else if i < y.len() + 1 + m.len() {
            assert(text[i] == m[i - y.len() - 1]);
        } else if i == y.len() + 1 + m.len() {
        } else {
            assert(text[i] == d[i - y.len() - 2 - m.len()]);
        }
    }
    assert(y.len() > 0);
    assert(text[0] == y[0]);
}

/// A segment filed under the default layout is indexed by a path that resolves back to its file: the
/// index stores it relative to the data directory, and resolving that against the data directory gives
/// the path the file was written to. That is what keeps the data directory relocatable.
pub proof fn lemma_indexed_segments_resolve_to_their_files(
    data_dir: Seq<char>,
    day: Seq<char>,
    session_id: int,
    sequence: int,
)
    requires
        relative_text(day),
        no_backslash(day),
    ensures
        ({
            let absolute = segment_path(join_path(data_dir, RECORDINGS_DIR@), day, session_id, sequence);
            data_path(data_dir, indexed_path(absolute, Some(data_dir))) == absolute
        }),
{
    reveal_strlit("recordings");
    let recordings = RECORDINGS_DIR@;
    assert(recordings[0] == 'r');
    assert(no_backslash(recordings));
    lemma_path_parts_are_plain(session_id, sequence);
    let sid = signed_decimal(session_id);
    let file = segment_file_name(sequence);
    lemma_join_associates(data_dir, recordings, day);
    let r1 = join_path(recordings, day);
    assert(r1[0] == 'r');
    lemma_join_associates(data_dir, r1, sid);
    let r2 = join_path(r1, sid);
    assert(r2[0] == 'r');
    lemma_join_associates(data_dir, r2, file);
    let r = join_path(r2, file);
    assert(r[0] == 'r');
    reveal_strlit(".pcm");
    assert(file.last() == 'm');
    assert(file[0] != '/');
    assert(r.last() == 'm');
    assert(is_plain_relative(r));
    lemma_join_keeps_no_backslash(recordings, day);
    lemma_join_keeps_no_backslash(r1, sid);
    lemma_join_keeps_no_backslash(r2, file);
    let absolute = segment_path(join_path(data_dir, recordings), day, session_id, sequence);
    assert(absolute == join_path(data_dir, r));
    lemma_data_paths_round_trip(data_dir, r);
    assert(relativised(data_dir, join_path(data_dir, r)) == r);
    assert(below_root(absolute, data_dir) is Some);
    assert(forward_slashes(r) =~= r);
}

} // verus!
