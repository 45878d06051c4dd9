use vstd::prelude::*;

use crate::text::{chars_of, texts_of};

verus! {

/// Why the command line could not be turned into a [`Config`].
///
/// The caller shows the usage text for every one of them.
#[derive(PartialEq, Eq, Structural, Clone, Copy, Debug)]
pub enum ConfigError {
    /// `--group`, `--group-null` or `-g` came last, with no column after it.
    GroupArgumentMissing,
    /// `--compare` or `-c` came last, with no database after it.
    MissingCompareDatabase,
    /// `--help` was given.
    HelpRequested,
    /// `-h` was given inside a cluster of short flags.
    AskedForHelp,
    /// A short flag that the program does not know.
    UnknownOption(char),
    /// A second database path was given while the first one was found.
    MultiplePrimaryDatabases,
    /// No existing primary database was given.
    NoPrimaryDatabase,
}

impl ConfigError {
    /// The text by which the command line reports this error.
    pub fn message(&self) -> (m: &'static str)
        ensures
            *self == ConfigError::GroupArgumentMissing ==> m@ == "group argument missing"@,
            *self == ConfigError::MissingCompareDatabase ==> m@
                == "Missing database name for --compare"@,
            *self == ConfigError::HelpRequested ==> m@ == "Help requested"@,
            *self == ConfigError::AskedForHelp ==> m@ == "Asked for Help"@,
            *self is UnknownOption ==> m@ == "Unknown option"@,
            *self == ConfigError::MultiplePrimaryDatabases ==> m@
                == "Multiple primary databases specified"@,
            *self == ConfigError::NoPrimaryDatabase ==> m@ == "No Primary Database Specified"@,
    {
        match self {
            ConfigError::GroupArgumentMissing => "group argument missing",
            ConfigError::MissingCompareDatabase => "Missing database name for --compare",
            ConfigError::HelpRequested => "Help requested",
            ConfigError::AskedForHelp => "Asked for Help",
            ConfigError::UnknownOption(_) => "Unknown option",
            ConfigError::MultiplePrimaryDatabases => "Multiple primary databases specified",
            ConfigError::NoPrimaryDatabase => "No Primary Database Specified",
        }
    }
}

/// What the program was asked to do.
pub struct Config {
    /// The database to work on (a copy of it is processed).
    pub target_db: Option<String>,
    /// A database whose filenames are removed from the target.
    pub compare_db: Option<String>,
    /// Whether to write a database of the removed records.
    pub duplicate_db: bool,
    /// Whether to search for duplicate filenames.
    pub filename_check: bool,
    /// Whether to search for duplicates among filenames that differ only by numbered or `M`
    /// parts before the extension, such as `crash.flac` and `crash.1.flac`.
    pub deep_dive: bool,
    /// The column within whose values duplicates are searched.
    pub group_sort: Option<String>,
    /// Set by `--group-null`: rows whose group value is NULL form a group of their own.
    pub group_null: bool,
    /// Whether to remove filenames carrying processing tags.
    pub prune_tags: bool,
    /// Whether the source database is left untouched.
    pub safe: bool,
    /// Whether to ask before deleting.
    pub prompt: bool,
    /// Whether to report each deletion.
    pub verbose: bool,
}

/// The settings of a [`Config`], with its texts as character sequences.
pub struct ConfigModel {
    pub target_db: Option<Seq<char>>,
    pub compare_db: Option<Seq<char>>,
    pub duplicate_db: bool,
    pub filename_check: bool,
    pub deep_dive: bool,
    pub group_sort: Option<Seq<char>>,
    pub group_null: bool,
    pub prune_tags: bool,
    pub safe: bool,
    pub prompt: bool,
    pub verbose: bool,
}

pub open spec fn opt_text(o: Option<String>) -> Option<Seq<char>> {
    match o {
        Some(s) => Some(s@),
        None => None,
    }
}

impl View for Config {
    type V = ConfigModel;

    open spec fn view(&self) -> ConfigModel {
        ConfigModel {
            target_db: opt_text(self.target_db),
            compare_db: opt_text(self.compare_db),
            duplicate_db: self.duplicate_db,
            filename_check: self.filename_check,
            deep_dive: self.deep_dive,
            group_sort: opt_text(self.group_sort),
            group_null: self.group_null,
            prune_tags: self.prune_tags,
            safe: self.safe,
            prompt: self.prompt,
            verbose: self.verbose,
        }
    }
}

/// The settings before any argument is read.
pub open spec fn initial_model() -> ConfigModel {
    ConfigModel {
        target_db: None,
        compare_db: None,
        duplicate_db: false,
        filename_check: true,
        deep_dive: false,
        group_sort: None,
        group_null: false,
        prune_tags: false,
        safe: true,
        prompt: true,
        verbose: false,
    }
}

/// The outcome of reading the command line: the configuration or the error that stopped
/// the reading, and how many times `--generate-config-files` was read before it ended.
pub struct ParsedArgs {
    pub config: Result<Config, ConfigError>,
    pub generate_config_requests: usize,
}

pub open spec fn outcome_model(r: Result<Config, ConfigError>) -> Result<ConfigModel, ConfigError> {
    match r {
        Ok(c) => Ok(c@),
        Err(e) => Err(e),
    }
}

impl View for ParsedArgs {
    type V = (Result<ConfigModel, ConfigError>, nat);

    open spec fn view(&self) -> (Result<ConfigModel, ConfigError>, nat) {
        (outcome_model(self.config), self.generate_config_requests as nat)
    }
}

/// Where the reading of the command line stands: the settings so far, how many times the
/// configuration files were asked for, and whether a column was named by `-g`, `--group` or
/// `--group-null`, which then takes precedence over `-s` and `-l`.
pub struct Reading {
    pub cfg: ConfigModel,
    pub gen: nat,
    pub column_named: bool,
}

/// Nothing read yet.
pub open spec fn initial_reading() -> Reading {
    Reading { cfg: initial_model(), gen: 0, column_named: false }
}

/// Whether a file is found at the argument `idx` when it is read, once `gen` requests for the
/// configuration files were read: `exists[idx].0` tells whether one was found before the
/// configuration files were written, `exists[idx].1` whether one was found after.
pub open spec fn file_found(args: Seq<Seq<char>>, exists: Seq<(bool, bool)>, idx: int, gen: nat) -> bool {
    if gen > 0 {
        exists[idx].1
    } else {
        exists[idx].0
    }
}

/// The value that a database argument at `idx` leaves in the settings: the path itself if
/// a file is found there, and nothing otherwise.
pub open spec fn checked_arg(args: Seq<Seq<char>>, exists: Seq<(bool, bool)>, idx: int, gen: nat) -> Option<
    Seq<char>,
> {
    if file_found(args, exists, idx, gen) {
        Some(args[idx])
    } else {
        None
    }
}

/// The reading after a group column was named.
pub open spec fn name_column(r: Reading, column: Seq<char>) -> Reading {
    Reading { cfg: ConfigModel { group_sort: Some(column), ..r.cfg }, column_named: true, ..r }
}

/// The reading after `-s` or `-l`: the column is taken unless one was named.
pub open spec fn preset_column(r: Reading, column: Seq<char>) -> Reading {
    if r.column_named {
        r
    } else {
        Reading { cfg: ConfigModel { group_sort: Some(column), ..r.cfg }, ..r }
    }
}

/// The reading with new settings.
pub open spec fn with_cfg(r: Reading, cfg: ConfigModel) -> Reading {
    Reading { cfg, ..r }
}

/// The settings of `-a`, `--all`: every search and the duplicates database.
pub open spec fn all_searches(st: ConfigModel) -> ConfigModel {
    ConfigModel { filename_check: true, prune_tags: true, deep_dive: true, duplicate_db: true, ..st }
}

/// How reading a cluster of short flags such as `-tvd` goes on: it stops with an error, or it
/// continues, having used the given number of the arguments after it.
pub enum ClusterStep {
    Stop(ConfigError),
    Go(Reading, nat),
}

/// Reads the short flag `c` of the cluster at argument `i`, of which `k` following
/// arguments were already used as flag values.
pub open spec fn read_flag(
    args: Seq<Seq<char>>,
    exists: Seq<(bool, bool)>,
    i: int,
    k: nat,
    c: char,
    r: Reading,
) -> ClusterStep {
    let cur = i + k;
    let st = r.cfg;
    if c == 'g' {
        if cur + 1 < args.len() {
            ClusterStep::Go(name_column(r, args[cur + 1]), k + 1)
        } else {
            ClusterStep::Stop(ConfigError::GroupArgumentMissing)
        }
    } else if c == 't' {
        ClusterStep::Go(with_cfg(r, ConfigModel { prune_tags: true, ..st }), k)
    } else if c == 'n' {
        ClusterStep::Go(with_cfg(r, ConfigModel { filename_check: false, ..st }), k)
    } else if c == 's' {
        ClusterStep::Go(preset_column(r, "show"@), k)
    } else if c == 'l' {
        ClusterStep::Go(preset_column(r, "library"@), k)
    } else if c == 'y' {
        ClusterStep::Go(with_cfg(r, ConfigModel { prompt: false, ..st }), k)
    } else if c == 'u' {
        ClusterStep::Go(with_cfg(r, ConfigModel { safe: false, prompt: false, ..st }), k)
    } else if c == 'd' {
        ClusterStep::Go(with_cfg(r, ConfigModel { duplicate_db: true, ..st }), k)
    } else if c == 'v' {
        ClusterStep::Go(with_cfg(r, ConfigModel { verbose: true, ..st }), k)
    } else if c == 'a' {
        ClusterStep::Go(with_cfg(r, all_searches(st)), k)
    } else if c == 'D' {
        ClusterStep::Go(with_cfg(r, ConfigModel { deep_dive: true, ..st }), k)
    } else if c == 'h' {
        ClusterStep::Stop(ConfigError::AskedForHelp)
    } else if c == 'c' {
        if cur + 1 < args.len() {
            ClusterStep::Go(
                with_cfg(r, ConfigModel { compare_db: checked_arg(args, exists, cur + 1, r.gen), ..st }),
                k + 1,
            )
        } else {
            ClusterStep::Stop(ConfigError::MissingCompareDatabase)
        }
    } else {
        ClusterStep::Stop(ConfigError::UnknownOption(c))
    }
}

/// Reads the flags `flags[j..]` of the cluster at argument `i`, of which `k` following
/// arguments were already used as flag values.
pub open spec fn parse_cluster(
    args: Seq<Seq<char>>,
    exists: Seq<(bool, bool)>,
    i: int,
    k: nat,
    flags: Seq<char>,
    j: int,
    r: Reading,
) -> ClusterStep
    decreases flags.len() - j,
{
    if j >= flags.len() || j < 0 {
        ClusterStep::Go(r, k)
    } else {
        match read_flag(args, exists, i, k, flags[j], r) {
            ClusterStep::Stop(e) => ClusterStep::Stop(e),
            ClusterStep::Go(r2, k2) => parse_cluster(args, exists, i, k2, flags, j + 1, r2),
        }
    }
}

/// Whether an argument is a cluster of short flags: it starts with one dash, not two.
pub open spec fn is_cluster(a: Seq<char>) -> bool {
    a.len() >= 1 && a[0] == '-' && !(a.len() >= 2 && a[1] == '-')
}

/// The settings once every argument has been read.
pub open spec fn finish(st: ConfigModel) -> Result<ConfigModel, ConfigError> {
    if st.target_db is None {
        Err(ConfigError::NoPrimaryDatabase)
    } else {
        Ok(st)
    }
}

/// What reading one argument leads to: the end of the reading with an error, or the index
/// of the next argument to read with where the reading then stands.
pub enum ArgStep {
    Stop(ConfigError),
    Next(int, Reading),
}

/// Reads the argument at index `i` (with the value after it, for the options that take one).
/// `exists[idx]` tells whether a file was found at `args[idx]` before and after the
/// configuration files were written.
pub open spec fn read_arg(args: Seq<Seq<char>>, exists: Seq<(bool, bool)>, i: int, r: Reading) -> ArgStep {
    let a = args[i];
    let st = r.cfg;
    let has_next = i + 1 < args.len();
    if a == "--generate-config-files"@ {
        ArgStep::Next(i + 1, Reading { gen: r.gen + 1, ..r })
    } else if a == "--prune-tags"@ {
        ArgStep::Next(i + 1, with_cfg(r, ConfigModel { prune_tags: true, ..st }))
    } else if a == "--no-filename-check"@ {
        ArgStep::Next(i + 1, with_cfg(r, ConfigModel { filename_check: false, ..st }))
    } else if a == "--group-by-show"@ || a == "-s"@ {
        ArgStep::Next(i + 1, preset_column(r, "show"@))
    } else if a == "--group-by-library"@ || a == "-l"@ {
        ArgStep::Next(i + 1, preset_column(r, "library"@))
    } else if a == "--group"@ {
        if has_next {
            ArgStep::Next(i + 2, name_column(r, args[i + 1]))
        } else {
            ArgStep::Stop(ConfigError::GroupArgumentMissing)
        }
    } else if a == "--group-null"@ {
        if has_next {
            let named = name_column(r, args[i + 1]);
            ArgStep::Next(i + 2, with_cfg(named, ConfigModel { group_null: true, ..named.cfg }))
        } else {
            ArgStep::Stop(ConfigError::GroupArgumentMissing)
        }
    } else if a == "--compare"@ {
        if has_next {
            ArgStep::Next(
                i + 2,
                with_cfg(r, ConfigModel { compare_db: checked_arg(args, exists, i + 1, r.gen), ..st }),
            )
        } else {
            ArgStep::Stop(ConfigError::MissingCompareDatabase)
        }
    } else if a == "--no-prompt"@ || a == "--yes"@ {
        ArgStep::Next(i + 1, with_cfg(r, ConfigModel { prompt: false, ..st }))
    } else if a == "--unsafe"@ {
        ArgStep::Next(i + 1, with_cfg(r, ConfigModel { safe: false, prompt: false, ..st }))
    } else if a == "--create-duplicates-database"@ {
        ArgStep::Next(i + 1, with_cfg(r, ConfigModel { duplicate_db: true, ..st }))
    } else if a == "--verbose"@ {
        ArgStep::Next(i + 1, with_cfg(r, ConfigModel { verbose: true, ..st }))
    } else if a == "--all"@ {
        ArgStep::Next(i + 1, with_cfg(r, all_searches(st)))
    } else if a == "--deep-dive"@ {
        ArgStep::Next(i + 1, with_cfg(r, ConfigModel { deep_dive: true, ..st }))
    } else if a == "--help"@ {
        ArgStep::Stop(ConfigError::HelpRequested)
    } else if is_cluster(a) {
        match parse_cluster(args, exists, i, 0, a, 1, r) {
            ClusterStep::Stop(e) => ArgStep::Stop(e),
            ClusterStep::Go(r2, k) => ArgStep::Next(i + k + 1, r2),
        }
    } else if st.target_db is None {
        ArgStep::Next(i + 1, with_cfg(r, ConfigModel { target_db: checked_arg(args, exists, i, r.gen), ..st }))
    } else {
        ArgStep::Stop(ConfigError::MultiplePrimaryDatabases)
    }
}

/// Reads the arguments from index `i` on, from where the reading stands in `r`, giving the
/// outcome and the number of requests for the configuration files read.
pub open spec fn parse_from(args: Seq<Seq<char>>, exists: Seq<(bool, bool)>, i: int, r: Reading) -> (
    Result<ConfigModel, ConfigError>,
    nat,
)
    decreases (if i < args.len() {
        args.len() - i
    } else {
        0
    }),
{
    if i >= args.len() || i < 0 {
        (finish(r.cfg), r.gen)
    } else {
        match read_arg(args, exists, i, r) {
            ArgStep::Stop(e) => (Err(e), r.gen),
            ArgStep::Next(i2, r2) => parse_from(args, exists, i2, r2),
        }
    }
}

/// What the command line `args` (with the program's name first) asks for.
pub open spec fn parse_spec(args: Seq<Seq<char>>, exists: Seq<(bool, bool)>) -> (
    Result<ConfigModel, ConfigError>,
    nat,
) {
    parse_from(args, exists, 1, initial_reading())
}

/// Continues reading the cluster at argument `i` from flag `j` and then the arguments after it.
pub open spec fn resume_cluster(
    args: Seq<Seq<char>>,
    exists: Seq<(bool, bool)>,
    i: int,
    k: nat,
    flags: Seq<char>,
    j: int,
    r: Reading,
) -> (Result<ConfigModel, ConfigError>, nat) {
    match parse_cluster(args, exists, i, k, flags, j, r) {
        ClusterStep::Stop(e) => (Err(e), r.gen),
        ClusterStep::Go(r2, k2) => parse_from(args, exists, i + k2 + 1, r2),
    }
}

fn is_text(a: &String, lit: &str) -> (r: bool)
    ensures
        r == (a@ == lit@),
{
    crate::text::same_text(a.as_str(), lit)
}

fn checked_value(args: &[String], exists: &[(bool, bool)], idx: usize, gen: usize) -> (r: Option<String>)
    requires
        idx < args.len(),
        args.len() == exists.len(),
    ensures
        opt_text(r) == checked_arg(texts_of(args@), exists@, idx as int, gen as nat),
{
    let found = if gen > 0 {
        exists[idx].1
    } else {
        exists[idx].0
    };
    if found {
        Some(args[idx].clone())
    } else {
        None
    }
}

/// Where the reading of the command line stands, as the program holds it.
struct ReadState {
    cfg: Config,
    gen: usize,
    named: bool,
}

impl View for ReadState {
    type V = Reading;

    closed spec fn view(&self) -> Reading {
        Reading { cfg: self.cfg@, gen: self.gen as nat, column_named: self.named }
    }
}

/// Reads the short flag `c` of the cluster at argument `i`, of which `k` following
/// arguments were already used.
#[verifier::rlimit(80)]
fn read_flag_exec(args: &[String], exists: &[(bool, bool)], i: usize, k: usize, c: char, st: ReadState) -> (res:
    Result<(ReadState, usize), ConfigError>)
    requires
        args.len() == exists.len(),
        i + k < args.len(),
    ensures
        match res {
            Ok((s2, k2)) => read_flag(texts_of(args@), exists@, i as int, k as nat, c, st@)
                == ClusterStep::Go(s2@, k2 as nat) && s2.gen == st.gen,
            Err(e) => read_flag(texts_of(args@), exists@, i as int, k as nat, c, st@)
                == ClusterStep::Stop(e),
        },
{
    let ghost a_model = texts_of(args@);
    let mut st = st;
    let cur = i + k;
    if c == 'g' {
        if cur + 1 < args.len() {
            assert(a_model[cur + 1] == args@[cur + 1]@);
            st.cfg.group_sort = Some(args[cur + 1].clone());
            st.named = true;
            Ok((st, k + 1))
        } else {
            Err(ConfigError::GroupArgumentMissing)
        }
    } else if c == 't' {
        st.cfg.prune_tags = true;
        Ok((st, k))
    } else if c == 'n' {
        st.cfg.filename_check = false;
        Ok((st, k))
    } else if c == 's' {
        if !st.named {
            st.cfg.group_sort = Some(String::from_str("show"));
        }
        Ok((st, k))
    } else if c == 'l' {
        if !st.named {
            st.cfg.group_sort = Some(String::from_str("library"));
        }
        Ok((st, k))
    } else if c == 'y' {
        st.cfg.prompt = false;
        Ok((st, k))
    } else if c == 'u' {
        st.cfg.safe = false;
        st.cfg.prompt = false;
        Ok((st, k))
    } else if c == 'd' {
        st.cfg.duplicate_db = true;
        Ok((st, k))
    } else if c == 'v' {
        st.cfg.verbose = true;
        Ok((st, k))
    } else if c == 'a' {
        st.cfg.filename_check = true;
        st.cfg.prune_tags = true;
        st.cfg.deep_dive = true;
        st.cfg.duplicate_db = true;
        Ok((st, k))
    } else if c == 'D' {
        st.cfg.deep_dive = true;
        Ok((st, k))
    } else if c == 'h' {
        Err(ConfigError::AskedForHelp)
    } else if c == 'c' {
        if cur + 1 < args.len() {
            assert(a_model[cur + 1] == args@[cur + 1]@);
            st.cfg.compare_db = checked_value(args, exists, cur + 1, st.gen);
            Ok((st, k + 1))
        } else {
            Err(ConfigError::MissingCompareDatabase)
        }
    } else {
        Err(ConfigError::UnknownOption(c))
    }
}

/// Reads the cluster of short flags at argument `i`.
fn read_cluster_exec(args: &[String], exists: &[(bool, bool)], i: usize, start: ReadState) -> (res: Result<
    (ReadState, usize),
    ConfigError,
>)
    requires
        args.len() == exists.len(),
        i < args.len(),
    ensures
        res matches Ok((s2, k)) ==> parse_cluster(texts_of(args@), exists@, i as int, 0, args@[i as int]@, 1, start@)
            == ClusterStep::Go(s2@, k as nat) && s2.gen == start.gen && i + k < args.len(),
        res matches Err(e) ==> parse_cluster(texts_of(args@), exists@, i as int, 0, args@[i as int]@, 1, start@)
            == ClusterStep::Stop(e),
{
    let ghost a_model = texts_of(args@);
    let ghost st0 = start@;
    let flags = chars_of(args[i].as_str());
    let mut st = start;
    let mut k: usize = 0;
    let mut j: usize = 1;
    if flags.len() == 0 {
        return Ok((st, 0));
    }
    while j < flags.len()
        invariant
            args.len() == exists.len(),
            a_model == texts_of(args@),
            flags@ == args@[i as int]@,
            i + k < args.len(),
            1 <= j <= flags.len(),
            st.gen == st0.gen,
            st0 == start@,
            parse_cluster(a_model, exists@, i as int, 0, flags@, 1, st0) == parse_cluster(
                a_model,
                exists@,
                i as int,
                k as nat,
                flags@,
                j as int,
                st@,
            ),
        decreases flags.len() - j,
    {
        let ghost sb = st@;
        let ghost kb = k;
        match read_flag_exec(args, exists, i, k, flags[j], st) {
            Ok((s2, k2)) => {
                st = s2;
                k = k2;
            },
            Err(e) => {
                assert(parse_cluster(a_model, exists@, i as int, kb as nat, flags@, j as int, sb)
                    == ClusterStep::Stop(e));
                return Err(e);
            },
        }
        j = j + 1;
    }
    Ok((st, k))
}

/// The result of reading the argument at `i` as the spec gives it.
spec fn arg_step_matches(args: &[String], exists: &[(bool, bool)], i: usize, st: Reading, res: Result<
    (ReadState, usize),
    ConfigError,
>) -> bool {
    match res {
        Ok((s2, i2)) => read_arg(texts_of(args@), exists@, i as int, st) == ArgStep::Next(
            i2 as int,
            s2@,
        ) && i < i2 <= args.len() && s2.gen <= i2,
        Err(e) => read_arg(texts_of(args@), exists@, i as int, st) == ArgStep::Stop(e),
    }
}

/// Reads the argument at index `i`, giving where the reading then stands and the index of
/// the next argument to read.
#[verifier::spinoff_prover]
#[verifier::rlimit(100)]
fn read_arg_exec(args: &[String], exists: &[(bool, bool)], i: usize, st: ReadState) -> (res: Result<
    (ReadState, usize),
    ConfigError,
>)
    requires
        args.len() == exists.len(),
        1 <= i < args.len(),
        st.gen <= i,
    ensures
        arg_step_matches(args, exists, i, st@, res),
{
    let mut st = st;
    let a = &args[i];
    assert(texts_of(args@)[i as int] == a@);
    if i + 1 < args.len() {
        assert(texts_of(args@)[i + 1] == args@[i + 1]@);
    }
    if is_text(a, "--generate-config-files") {
        st.gen = st.gen + 1;
        Ok((st, i + 1))
    } else if is_text(a, "--prune-tags") {
        st.cfg.prune_tags = true;
        Ok((st, i + 1))
    } else if is_text(a, "--no-filename-check") {
        st.cfg.filename_check = false;
        Ok((st, i + 1))
    } else if is_text(a, "--group-by-show") || is_text(a, "-s") {
        if !st.named {
            st.cfg.group_sort = Some(String::from_str("show"));
        }
        Ok((st, i + 1))
    } else if is_text(a, "--group-by-library") || is_text(a, "-l") {
        if !st.named {
            st.cfg.group_sort = Some(String::from_str("library"));
        }
        Ok((st, i + 1))
    } else if is_text(a, "--group") {
        if i + 1 < args.len() {
            st.cfg.group_sort = Some(args[i + 1].clone());
            st.named = true;
            Ok((st, i + 2))
        } else {
            Err(ConfigError::GroupArgumentMissing)
        }
    } else if is_text(a, "--group-null") {
        if i + 1 < args.len() {
            st.cfg.group_sort = Some(args[i + 1].clone());
            st.named = true;
            st.cfg.group_null = true;
            Ok((st, i + 2))
        } else {
            Err(ConfigError::GroupArgumentMissing)
        }
    } else if is_text(a, "--compare") {
        if i + 1 < args.len() {
            st.cfg.compare_db = checked_value(args, exists, i + 1, st.gen);
            Ok((st, i + 2))
        } else {
            Err(ConfigError::MissingCompareDatabase)
        }
    } else {
        read_later_arg_exec(args, exists, i, st)
    }
}

/// Reads the argument at index `i`, which is none of the options tried first.
#[verifier::spinoff_prover]
#[verifier::rlimit(100)]
fn read_later_arg_exec(args: &[String], exists: &[(bool, bool)], i: usize, st: ReadState) -> (res: Result<
    (ReadState, usize),
    ConfigError,
>)
    requires
        args.len() == exists.len(),
        1 <= i < args.len(),
        st.gen <= i,
        args@[i as int]@ != "--generate-config-files"@,
        args@[i as int]@ != "--prune-tags"@,
        args@[i as int]@ != "--no-filename-check"@,
        args@[i as int]@ != "--group-by-show"@,
        args@[i as int]@ != "-s"@,
        args@[i as int]@ != "--group-by-library"@,
        args@[i as int]@ != "-l"@,
        args@[i as int]@ != "--group"@,
        args@[i as int]@ != "--group-null"@,
        args@[i as int]@ != "--compare"@,
    ensures
        arg_step_matches(args, exists, i, st@, res),
{
    let mut st = st;
    let a = &args[i];
    assert(texts_of(args@)[i as int] == a@);
    if is_text(a, "--no-prompt") || is_text(a, "--yes") {
        st.cfg.prompt = false;
        Ok((st, i + 1))
    } else if is_text(a, "--unsafe") {
        st.cfg.safe = false;
        st.cfg.prompt = false;
        Ok((st, i + 1))
    } else if is_text(a, "--create-duplicates-database") {
        st.cfg.duplicate_db = true;
        Ok((st, i + 1))
    } else if is_text(a, "--verbose") {
        st.cfg.verbose = true;
        Ok((st, i + 1))
    } else if is_text(a, "--all") {
        st.cfg.filename_check = true;
        st.cfg.prune_tags = true;
        st.cfg.deep_dive = true;
        st.cfg.duplicate_db = true;
        Ok((st, i + 1))
    } else if is_text(a, "--deep-dive") {
        st.cfg.deep_dive = true;
        Ok((st, i + 1))
    } else if is_text(a, "--help") {
        Err(ConfigError::HelpRequested)
    } else {
        let flags = chars_of(a.as_str());
        if flags.len() >= 1 && flags[0] == '-' && !(flags.len() >= 2 && flags[1] == '-') {
            match read_cluster_exec(args, exists, i, st) {
                Ok((s2, k)) => Ok((s2, i + k + 1)),
                Err(e) => Err(e),
            }
        } else if st.cfg.target_db.is_none() {
            st.cfg.target_db = checked_value(args, exists, i, st.gen);
            Ok((st, i + 1))
        } else {
            Err(ConfigError::MultiplePrimaryDatabases)
        }
    }
}

impl Config {
    /// Reads the command line `args`, whose first element is the program's name.
    /// `exists[i]` tells whether a file was found at the path `args[i]` before the
    /// configuration files were written and after; the second answer counts for the
    /// arguments read once `--generate-config-files` was.
    pub fn from_args(args: &[String], exists: &[(bool, bool)]) -> (res: ParsedArgs)
        requires
            args.len() == exists.len(),
        ensures
            res@ == parse_spec(texts_of(args@), exists@),
    {
        let ghost a_model = texts_of(args@);
        let mut st = ReadState {
            cfg: Config {
                target_db: None,
                compare_db: None,
                duplicate_db: false,
                filename_check: true,
                deep_dive: false,
                group_sort: None,
                group_null: false,
                prune_tags: false,
                safe: true,
                prompt: true,
                verbose: false,
            },
            gen: 0,
            named: false,
        };
        let mut i: usize = 1;
        assert(st@ == initial_reading());
        while i < args.len()
            invariant
                args.len() == exists.len(),
                a_model == texts_of(args@),
                1 <= i,
                st.gen <= i,
                parse_spec(a_model, exists@) == parse_from(a_model, exists@, i as int, st@),
            decreases args.len() - i,
        {
            let gen = st.gen;
            let ghost sb = st@;
            let res = read_arg_exec(args, exists, i, st);
            assert(arg_step_matches(args, exists, i, sb, res));
            match res {
                Ok((s2, i2)) => {
                    st = s2;
                    i = i2;
                },
                Err(e) => {
                    return ParsedArgs { config: Err(e), generate_config_requests: gen };
                },
            }
        }
        if st.cfg.target_db.is_none() {
            return ParsedArgs {
                config: Err(ConfigError::NoPrimaryDatabase),
                generate_config_requests: st.gen,
            };
        }
        ParsedArgs { config: Ok(st.cfg), generate_config_requests: st.gen }
    }
}

/// Whether something exists at the path `path`, by `std::path::Path::exists`.
///
/// The answer depends on the file system when the call is made, so no clause states it.
#[verifier::external_body]
fn path_exists(path: &str) -> bool {
    std::path::Path::new(path).exists()
}

/// The path itself when something exists there, and nothing otherwise.
///
/// Whether something exists depends on the file system; what holds either way is that a
/// returned path is the one given.
pub fn check_path(path: &str) -> (r: Option<String>)
    ensures
        r matches Some(p) ==> p@ == path@,
{
    if path_exists(path) {
        Some(String::from_str(path))
    } else {
        None
    }
}

/// For each argument, the answers found before and after the configuration files were
/// written.
pub open spec fn paired(before: Seq<bool>, after: Seq<bool>) -> Seq<(bool, bool)> {
    Seq::new(before.len(), |i: int| (before[i], after[i]))
}

/// Whether a file exists at each of the arguments, looked up on the file system now.
pub fn existing_paths(args: &[String]) -> (e: Vec<bool>)
    ensures
        e.len() == args.len(),
{
    let mut e: Vec<bool> = Vec::new();
    for i in 0..args.len()
        invariant
            e.len() == i,
    {
        e.push(check_path(args[i].as_str()).is_some());
    }
    e
}

/// Pairs the answers found before the configuration files were written with those found
/// after.
pub fn found_pairs(before: &[bool], after: &[bool]) -> (r: Vec<(bool, bool)>)
    requires
        before.len() == after.len(),
    ensures
        r@ == paired(before@, after@),
{
    let mut r: Vec<(bool, bool)> = Vec::new();
    for i in 0..before.len()
        invariant
            before.len() == after.len(),
            r.len() == i,
            forall|j: int| 0 <= j < i ==> #[trigger] r@[j] == (before@[j], after@[j]),
    {
        r.push((before[i], after[i]));
    }
    assert(r@ =~= paired(before@, after@));
    r
}

impl Config {
    /// Reads the command line `args`, whose first element is the program's name, looking
    /// up on the file system whether the database paths exist, with the file system as it is
    /// before any configuration file is written.
    pub fn new(args: &[String]) -> (res: ParsedArgs)
        ensures
            exists|e: Seq<bool>|
                e.len() == args.len() && #[trigger] parse_spec(texts_of(args@), paired(e, e)) == res@,
    {
        let e = existing_paths(args);
        let found = found_pairs(e.as_slice(), e.as_slice());
        let res = Self::from_args(args, found.as_slice());
        assert(parse_spec(texts_of(args@), paired(e@, e@)) == res@);
        res
    }
}

/// Settings in which running without the safety copy also means running without prompts.
pub open spec fn unsafe_is_quiet(st: ConfigModel) -> bool {
    !st.safe ==> !st.prompt
}

/// The path `o`, if any, is an argument after the program's name at which a file was found,
/// before or after the configuration files were written.
pub open spec fn names_found(args: Seq<Seq<char>>, exists: Seq<(bool, bool)>, o: Option<Seq<char>>) -> bool {
    o matches Some(t) ==> exists|idx: int|
        1 <= idx < args.len() && #[trigger] args[idx] == t && (exists[idx].0 || exists[idx].1)
}

/// What every reading keeps: its databases are arguments at which files are found, rows
/// with a NULL group value are grouped only where a column is set, and an unsafe run does not
/// prompt.
pub open spec fn sound_reading(args: Seq<Seq<char>>, exists: Seq<(bool, bool)>, r: Reading) -> bool {
    &&& names_found(args, exists, r.cfg.target_db)
    &&& names_found(args, exists, r.cfg.compare_db)
    &&& r.cfg.group_null ==> r.cfg.group_sort is Some
    &&& unsafe_is_quiet(r.cfg)
}

proof fn lemma_checked_arg_found(args: Seq<Seq<char>>, exists: Seq<(bool, bool)>, idx: int, gen: nat)
    requires
        1 <= idx < args.len(),
    ensures
        names_found(args, exists, checked_arg(args, exists, idx, gen)),
{
    if checked_arg(args, exists, idx, gen) is Some {
        assert(args[idx] == checked_arg(args, exists, idx, gen)->0);
    }
}

proof fn lemma_cluster_facts(
    args: Seq<Seq<char>>,
    exists: Seq<(bool, bool)>,
    i: int,
    k: nat,
    flags: Seq<char>,
    j: int,
    r: Reading,
)
    requires
        1 <= i,
    ensures
        parse_cluster(args, exists, i, k, flags, j, r) matches ClusterStep::Go(r2, _) ==> {
            &&& r2.gen == r.gen
            &&& sound_reading(args, exists, r) ==> sound_reading(args, exists, r2)
        },
    decreases flags.len() - j,
{
    if 0 <= j < flags.len() {
        let cur = i + k;
        if cur + 1 < args.len() {
            lemma_checked_arg_found(args, exists, cur + 1, r.gen);
        }
        if let ClusterStep::Go(r2, k2) = read_flag(args, exists, i, k, flags[j], r) {
            lemma_cluster_facts(args, exists, i, k2, flags, j + 1, r2);
        }
    }
}

proof fn lemma_read_arg_facts(args: Seq<Seq<char>>, exists: Seq<(bool, bool)>, i: int, r: Reading)
    requires
        1 <= i < args.len(),
    ensures
        read_arg(args, exists, i, r) matches ArgStep::Next(i2, r2) ==> {
            &&& i2 > i
            &&& r2.gen >= r.gen
            &&& sound_reading(args, exists, r) ==> sound_reading(args, exists, r2)
        },
{
    lemma_cluster_facts(args, exists, i, 0, args[i], 1, r);
    lemma_checked_arg_found(args, exists, i, r.gen);
    if i + 1 < args.len() {
        lemma_checked_arg_found(args, exists, i + 1, r.gen);
    }
}

proof fn lemma_parse_facts(args: Seq<Seq<char>>, exists: Seq<(bool, bool)>, i: int, r: Reading)
    requires
        1 <= i,
    ensures
        parse_from(args, exists, i, r).1 >= r.gen,
        sound_reading(args, exists, r) ==> (parse_from(args, exists, i, r).0 matches Ok(c) ==> {
            &&& c.target_db is Some
            &&& sound_reading(args, exists, Reading { cfg: c, ..r })
        }),
    decreases (if i < args.len() {
        args.len() - i
    } else {
        0
    }),
{
    if i < args.len() {
        lemma_read_arg_facts(args, exists, i, r);
        if let ArgStep::Next(i2, r2) = read_arg(args, exists, i, r) {
            lemma_parse_facts(args, exists, i2, r2);
        }
    }
}

/// A run that may overwrite the source database (`-u`, `--unsafe`) never stops to ask for
/// confirmation: no later flag turns prompting back on.
pub proof fn law_unsafe_runs_never_prompt(args: Seq<Seq<char>>, exists: Seq<(bool, bool)>)
    ensures
        parse_spec(args, exists).0 matches Ok(c) ==> (!c.safe ==> !c.prompt),
{
    lemma_parse_facts(args, exists, 1, initial_reading());
}

/// Every accepted command line names, as its primary database, an argument after the
/// program's name at which a file was found when it was read; so does its comparison
/// database, where it has one.
pub proof fn law_accepted_runs_name_found_databases(args: Seq<Seq<char>>, exists: Seq<(bool, bool)>)
    ensures
        parse_spec(args, exists).0 matches Ok(c) ==> {
            &&& c.target_db is Some
            &&& names_found(args, exists, c.target_db)
            &&& names_found(args, exists, c.compare_db)
        },
{
    lemma_parse_facts(args, exists, 1, initial_reading());
}

/// Rows with a NULL group value are only ever grouped together within a named column:
/// `--group-null` always comes with its column.
pub proof fn law_null_groups_come_with_a_column(args: Seq<Seq<char>>, exists: Seq<(bool, bool)>)
    ensures
        parse_spec(args, exists).0 matches Ok(c) ==> (c.group_null ==> c.group_sort is Some),
{
    lemma_parse_facts(args, exists, 1, initial_reading());
}

/// A column named by `-g`, `--group` or `--group-null` takes precedence over `-s` and `-l`:
/// once a column is named, those flags, in long or short form, alone or in a cluster, leave
/// the reading as it is.
pub proof fn law_named_column_outranks_presets(
    args: Seq<Seq<char>>,
    exists: Seq<(bool, bool)>,
    i: int,
    k: nat,
    r: Reading,
)
    requires
        0 <= i < args.len(),
        r.column_named,
    ensures
        (args[i] == "-s"@ || args[i] == "-l"@ || args[i] == "--group-by-show"@ || args[i]
            == "--group-by-library"@) ==> read_arg(args, exists, i, r) == ArgStep::Next(i + 1, r),
        read_flag(args, exists, i, k, 's', r) == ClusterStep::Go(r, k),
        read_flag(args, exists, i, k, 'l', r) == ClusterStep::Go(r, k),
{
    lemma_option_names();
}

/// The two lists agree on what was found before the configuration files were written.
pub open spec fn same_before(e1: Seq<(bool, bool)>, e2: Seq<(bool, bool)>) -> bool {
    &&& e1.len() == e2.len()
    &&& forall|idx: int| 0 <= idx < e1.len() ==> (#[trigger] e1[idx]).0 == e2[idx].0
}

proof fn lemma_cluster_same_before(
    args: Seq<Seq<char>>,
    e1: Seq<(bool, bool)>,
    e2: Seq<(bool, bool)>,
    i: int,
    k: nat,
    flags: Seq<char>,
    j: int,
    r: Reading,
)
    requires
        same_before(e1, e2),
        e1.len() == args.len(),
        r.gen == 0,
        0 <= i,
    ensures
        parse_cluster(args, e1, i, k, flags, j, r) == parse_cluster(args, e2, i, k, flags, j, r),
    decreases flags.len() - j,
{
    if 0 <= j < flags.len() {
        let cur = i + k;
        if 0 <= cur + 1 < args.len() {
            assert(e1[cur + 1].0 == e2[cur + 1].0);
        }
        assert(read_flag(args, e1, i, k, flags[j], r) == read_flag(args, e2, i, k, flags[j], r));
        if let ClusterStep::Go(r2, k2) = read_flag(args, e1, i, k, flags[j], r) {
            lemma_cluster_same_before(args, e1, e2, i, k2, flags, j + 1, r2);
        }
    }
}

proof fn lemma_reading_before_files(
    args: Seq<Seq<char>>,
    e1: Seq<(bool, bool)>,
    e2: Seq<(bool, bool)>,
    i: int,
    r: Reading,
)
    requires
        same_before(e1, e2),
        e1.len() == args.len(),
        r.gen == 0,
        1 <= i,
    ensures
        parse_from(args, e1, i, r).1 > 0 <==> parse_from(args, e2, i, r).1 > 0,
        parse_from(args, e1, i, r).1 == 0 ==> parse_from(args, e1, i, r) == parse_from(args, e2, i, r),
    decreases (if i < args.len() {
        args.len() - i
    } else {
        0
    }),
{
    if i < args.len() {
        assert(e1[i].0 == e2[i].0);
        if i + 1 < args.len() {
            assert(e1[i + 1].0 == e2[i + 1].0);
        }
        lemma_cluster_same_before(args, e1, e2, i, 0, args[i], 1, r);
        assert(read_arg(args, e1, i, r) == read_arg(args, e2, i, r));
        lemma_read_arg_facts(args, e1, i, r);
        if let ArgStep::Next(i2, r2) = read_arg(args, e1, i, r) {
            if r2.gen == 0 {
                lemma_reading_before_files(args, e1, e2, i2, r2);
            } else {
                lemma_parse_facts(args, e1, i2, r2);
                lemma_parse_facts(args, e2, i2, r2);
            }
        }
    }
}

/// Whether the configuration files are written is settled before any of them is: reading the
/// command line with the file system as it was before asks for them exactly when the reading
/// with the answers found after does, and where it does not ask for them, the two readings
/// are the same. So the program reads once, writes the files where asked, and reads again with
/// the answers found after.
pub proof fn law_files_are_asked_for_before_they_exist(
    args: Seq<Seq<char>>,
    before: Seq<bool>,
    after: Seq<bool>,
)
    requires
        before.len() == args.len(),
        after.len() == args.len(),
    ensures
        parse_spec(args, paired(before, before)).1 > 0 <==> parse_spec(args, paired(before, after)).1 > 0,
        parse_spec(args, paired(before, before)).1 == 0 ==> parse_spec(args, paired(before, before))
            == parse_spec(args, paired(before, after)),
{
    let e1 = paired(before, before);
    let e2 = paired(before, after);
    assert(same_before(e1, e2));
    lemma_reading_before_files(args, e1, e2, 1, initial_reading());
}

/// The arguments after index `i` are the same in both command lines.
pub open spec fn same_after(a1: Seq<Seq<char>>, a2: Seq<Seq<char>>, i: int) -> bool {
    &&& a1.len() == a2.len()
    &&& forall|m: int| i < m < a1.len() ==> #[trigger] a1[m] == a2[m]
}

proof fn lemma_cluster_reads_later_args(
    a1: Seq<Seq<char>>,
    a2: Seq<Seq<char>>,
    exists: Seq<(bool, bool)>,
    i: int,
    k: nat,
    flags: Seq<char>,
    j: int,
    r: Reading,
)
    requires
        same_after(a1, a2, i),
    ensures
        parse_cluster(a1, exists, i, k, flags, j, r) == parse_cluster(a2, exists, i, k, flags, j, r),
    decreases flags.len() - j,
{
    if 0 <= j < flags.len() {
        let cur = i + k;
        if cur + 1 < a1.len() {
            assert(a1[cur + 1] == a2[cur + 1]);
        }
        assert(read_flag(a1, exists, i, k, flags[j], r) == read_flag(a2, exists, i, k, flags[j], r));
        if let ClusterStep::Go(r2, k2) = read_flag(a1, exists, i, k, flags[j], r) {
            lemma_cluster_reads_later_args(a1, a2, exists, i, k2, flags, j + 1, r2);
        }
    }
}

proof fn lemma_parse_reads_later_args(
    a1: Seq<Seq<char>>,
    a2: Seq<Seq<char>>,
    exists: Seq<(bool, bool)>,
    i: int,
    r: Reading,
)
    requires
        same_after(a1, a2, i - 1),
        1 <= i,
    ensures
        parse_from(a1, exists, i, r) == parse_from(a2, exists, i, r),
    decreases (if i < a1.len() {
        a1.len() - i
    } else {
        0
    }),
{
    if i < a1.len() {
        assert(a1[i] == a2[i]);
        if i + 1 < a1.len() {
            assert(a1[i + 1] == a2[i + 1]);
        }
        lemma_cluster_reads_later_args(a1, a2, exists, i, 0, a1[i], 1, r);
        assert(read_arg(a1, exists, i, r) == read_arg(a2, exists, i, r));
        lemma_read_arg_facts(a1, exists, i, r);
        if let ArgStep::Next(i2, r2) = read_arg(a1, exists, i, r) {
            lemma_parse_reads_later_args(a1, a2, exists, i2, r2);
        }
    }
}

/// The long option that a short flag stands for, where it has one that takes the same value.
pub open spec fn long_form(c: char) -> Seq<char> {
    if c == 't' {
        "--prune-tags"@
    } else if c == 'n' {
        "--no-filename-check"@
    } else if c == 's' {
        "--group-by-show"@
    } else if c == 'l' {
        "--group-by-library"@
    } else if c == 'y' {
        "--no-prompt"@
    } else if c == 'u' {
        "--unsafe"@
    } else if c == 'd' {
        "--create-duplicates-database"@
    } else if c == 'v' {
        "--verbose"@
    } else if c == 'a' {
        "--all"@
    } else if c == 'D' {
        "--deep-dive"@
    } else if c == 'g' {
        "--group"@
    } else {
        "--compare"@
    }
}

/// The short flags that have a long form.
pub open spec fn has_long_form(c: char) -> bool {
    c == 't' || c == 'n' || c == 's' || c == 'l' || c == 'y' || c == 'u' || c == 'd' || c == 'v'
        || c == 'a' || c == 'D' || c == 'g' || c == 'c'
}

/// What reading the argument at `i` gives where it acts as the short flag `c` alone.
pub open spec fn flag_step(args: Seq<Seq<char>>, exists: Seq<(bool, bool)>, i: int, c: char, r: Reading) -> ArgStep {
    match read_flag(args, exists, i, 0, c, r) {
        ClusterStep::Stop(e) => ArgStep::Stop(e),
        ClusterStep::Go(r2, k) => ArgStep::Next(i + k + 1, r2),
    }
}

proof fn lemma_short_flag_step(args: Seq<Seq<char>>, exists: Seq<(bool, bool)>, i: int, r: Reading)
    requires
        0 <= i < args.len(),
        args[i].len() == 2,
        args[i][0] == '-',
        has_long_form(args[i][1]),
    ensures
        read_arg(args, exists, i, r) == flag_step(args, exists, i, args[i][1], r),
{
    lemma_option_names();
    let a = args[i];
    let c = a[1];
    if c == 's' {
        assert(a =~= "-s"@);
    } else if c == 'l' {
        assert(a =~= "-l"@);
    } else {
        assert(a != "-s"@) by {
            assert(a[1] != "-s"@[1]);
        }
        assert(a != "-l"@) by {
            assert(a[1] != "-l"@[1]);
        }
        assert(is_cluster(a));
        let rf = read_flag(args, exists, i, 0, c, r);
        if let ClusterStep::Go(r2, k2) = rf {
            assert(parse_cluster(args, exists, i, k2, a, 2, r2) == ClusterStep::Go(r2, k2));
        }
        assert(parse_cluster(args, exists, i, 0, a, 1, r) == match rf {
            ClusterStep::Stop(e) => ClusterStep::Stop(e),
            ClusterStep::Go(r2, k2) => parse_cluster(args, exists, i, k2, a, 2, r2),
        });
    }
}

#[verifier::rlimit(80)]
proof fn lemma_long_option_step(args: Seq<Seq<char>>, exists: Seq<(bool, bool)>, i: int, c: char, r: Reading)
    requires
        0 <= i < args.len(),
        has_long_form(c),
        args[i] == long_form(c),
    ensures
        read_arg(args, exists, i, r) == flag_step(args, exists, i, c, r),
{
    lemma_option_names();
    let a = args[i];
    assert(!is_cluster(a));
    if c == 'v' {
        assert(a != "--compare"@) by {
            assert(a[2] != "--compare"@[2]);
        }
    } else if c == 'a' {
        assert(a != "--yes"@) by {
            assert(a[2] != "--yes"@[2]);
        }
    } else if c == 'D' {
        assert(a != "--no-prompt"@) by {
            assert(a[2] != "--no-prompt"@[2]);
        }
    }
}

proof fn lemma_flag_step_reads_later_args(
    a1: Seq<Seq<char>>,
    a2: Seq<Seq<char>>,
    exists: Seq<(bool, bool)>,
    i: int,
    c: char,
    r: Reading,
)
    requires
        same_after(a1, a2, i),
    ensures
        flag_step(a1, exists, i, c, r) == flag_step(a2, exists, i, c, r),
{
    if i + 1 < a1.len() {
        assert(a1[i + 1] == a2[i + 1]);
    }
    assert(read_flag(a1, exists, i, 0, c, r) == read_flag(a2, exists, i, 0, c, r));
}

/// Where an argument is read as an option, a short flag such as `-t` and its long form such as
/// `--prune-tags` have the same effect on the rest of the reading, values included.
pub proof fn law_short_flags_act_as_long_options(
    args: Seq<Seq<char>>,
    exists: Seq<(bool, bool)>,
    i: int,
    c: char,
    r: Reading,
)
    requires
        1 <= i < args.len(),
        has_long_form(c),
    ensures
        parse_from(args.update(i, seq!['-', c]), exists, i, r) == parse_from(
            args.update(i, long_form(c)),
            exists,
            i,
            r,
        ),
{
    let short = seq!['-', c];
    let a1 = args.update(i, short);
    let a2 = args.update(i, long_form(c));
    assert(same_after(a1, a2, i));
    if i + 1 < args.len() {
        assert(a1[i + 1] == a2[i + 1]);
    }
    assert(a1[i] == short);
    lemma_short_flag_step(a1, exists, i, r);
    lemma_long_option_step(a2, exists, i, c, r);
    lemma_flag_step_reads_later_args(a1, a2, exists, i, c, r);
    lemma_read_arg_facts(a1, exists, i, r);
    if let ArgStep::Next(i2, r2) = read_arg(a1, exists, i, r) {
        lemma_parse_reads_later_args(a1, a2, exists, i2, r2);
    }
}

/// `-h` and `--help` both end the reading with an error, so the usage text is shown.
pub proof fn law_both_help_flags_stop(args: Seq<Seq<char>>, exists: Seq<(bool, bool)>, i: int, r: Reading)
    requires
        0 <= i < args.len(),
    ensures
        parse_from(args.update(i, seq!['-', 'h']), exists, i, r).0 is Err,
        parse_from(args.update(i, "--help"@), exists, i, r).0 is Err,
{
    lemma_option_names();
    let a1 = args.update(i, seq!['-', 'h']);
    assert(a1[i] == seq!['-', 'h']);
    let a2 = args.update(i, "--help"@);
    assert(a2[i] == "--help"@);
}


/// The lengths and first characters of the option names, which tell them apart.
proof fn lemma_option_names()
    ensures
        "--generate-config-files"@.len() == 23,
        "--generate-config-files"@[0] == '-',
        "--generate-config-files"@[1] == '-',
        "--generate-config-files"@[2] == 'g',
        "--prune-tags"@.len() == 12,
        "--prune-tags"@[0] == '-',
        "--prune-tags"@[1] == '-',
        "--prune-tags"@[2] == 'p',
        "--no-filename-check"@.len() == 19,
        "--no-filename-check"@[0] == '-',
        "--no-filename-check"@[1] == '-',
        "--no-filename-check"@[2] == 'n',
        "--group-by-show"@.len() == 15,
        "--group-by-show"@[0] == '-',
        "--group-by-show"@[1] == '-',
        "--group-by-show"@[2] == 'g',
        "-s"@.len() == 2,
        "-s"@[0] == '-',
        "-s"@[1] == 's',
        "--group-by-library"@.len() == 18,
        "--group-by-library"@[0] == '-',
        "--group-by-library"@[1] == '-',
        "--group-by-library"@[2] == 'g',
        "-l"@.len() == 2,
        "-l"@[0] == '-',
        "-l"@[1] == 'l',
        "--group"@.len() == 7,
        "--group"@[0] == '-',
        "--group"@[1] == '-',
        "--group"@[2] == 'g',
        "--group-null"@.len() == 12,
        "--group-null"@[0] == '-',
        "--group-null"@[1] == '-',
        "--group-null"@[2] == 'g',
        "--compare"@.len() == 9,
        "--compare"@[0] == '-',
        "--compare"@[1] == '-',
        "--compare"@[2] == 'c',
        "--no-prompt"@.len() == 11,
        "--no-prompt"@[0] == '-',
        "--no-prompt"@[1] == '-',
        "--no-prompt"@[2] == 'n',
        "--yes"@.len() == 5,
        "--yes"@[0] == '-',
        "--yes"@[1] == '-',
        "--yes"@[2] == 'y',
        "--unsafe"@.len() == 8,
        "--unsafe"@[0] == '-',
        "--unsafe"@[1] == '-',
        "--unsafe"@[2] == 'u',
        "--create-duplicates-database"@.len() == 28,
        "--create-duplicates-database"@[0] == '-',
        "--create-duplicates-database"@[1] == '-',
        "--create-duplicates-database"@[2] == 'c',
        "--verbose"@.len() == 9,
        "--verbose"@[0] == '-',
        "--verbose"@[1] == '-',
        "--verbose"@[2] == 'v',
        "--all"@.len() == 5,
        "--all"@[0] == '-',
        "--all"@[1] == '-',
        "--all"@[2] == 'a',
        "--deep-dive"@.len() == 11,
        "--deep-dive"@[0] == '-',
        "--deep-dive"@[1] == '-',
        "--deep-dive"@[2] == 'd',
        "--help"@.len() == 6,
        "--help"@[0] == '-',
        "--help"@[1] == '-',
        "--help"@[2] == 'h',
{
    reveal_strlit("--generate-config-files");
    reveal_strlit("--prune-tags");
    reveal_strlit("--no-filename-check");
    reveal_strlit("--group-by-show");
    reveal_strlit("-s");
    reveal_strlit("--group-by-library");
    reveal_strlit("-l");
    reveal_strlit("--group");
    reveal_strlit("--group-null");
    reveal_strlit("--compare");
    reveal_strlit("--no-prompt");
    reveal_strlit("--yes");
    reveal_strlit("--unsafe");
    reveal_strlit("--create-duplicates-database");
    reveal_strlit("--verbose");
    reveal_strlit("--all");
    reveal_strlit("--deep-dive");
    reveal_strlit("--help");
}

} // verus!
