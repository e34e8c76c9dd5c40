//! Command-line argument parsing. Unknown flags are ignored for forward
//! compatibility; `storage` as the first argument selects a storage subcommand.

use vstd::prelude::*;
use crate::text::opt_view;
use crate::types::{Language, OutputFormat, Sort};
use crate::text::{str_is, str_starts_with_char};

verus! {

/// `hexplorer storage <subcommand>`.
#[derive(Debug, Clone)]
pub enum StorageSubcmd {
    Status,
    Prune { yes: bool },
    Clear,
    /// `None` = show the configuration; `Some("key=value")` = change one field.
    Config(Option<String>),
}

pub enum StorageSubcmdModel {
    Status,
    Prune { yes: bool },
    Clear,
    Config(Option<Seq<char>>),
}

impl View for StorageSubcmd {
    type V = StorageSubcmdModel;

    open spec fn view(&self) -> StorageSubcmdModel {
        match self {
            StorageSubcmd::Status => StorageSubcmdModel::Status,
            StorageSubcmd::Prune { yes } => StorageSubcmdModel::Prune { yes: *yes },
            StorageSubcmd::Clear => StorageSubcmdModel::Clear,
            StorageSubcmd::Config(v) => StorageSubcmdModel::Config(opt_view(*v)),
        }
    }
}

/// The parsed command line.
#[derive(Debug)]
pub struct Args {
    pub output: Option<OutputFormat>,
    pub language: Language,
    /// `true` when `--lang` was given; otherwise the configured default applies.
    pub lang_explicit: bool,
    pub search: Option<String>,
    pub sort: Sort,
    /// Package name for `--output detail <name>`.
    pub package: Option<String>,
    /// Present when the first argument is `storage`.
    pub storage_cmd: Option<StorageSubcmd>,
}

pub struct ArgsModel {
    pub output: Option<OutputFormat>,
    pub language: Language,
    pub lang_explicit: bool,
    pub search: Option<Seq<char>>,
    pub sort: Sort,
    pub package: Option<Seq<char>>,
    pub storage_cmd: Option<StorageSubcmdModel>,
}

impl View for Args {
    type V = ArgsModel;

    open spec fn view(&self) -> ArgsModel {
        ArgsModel {
            output: self.output,
            language: self.language,
            lang_explicit: self.lang_explicit,
            search: opt_view(self.search),
            sort: self.sort,
            package: opt_view(self.package),
            storage_cmd: match self.storage_cmd {
                Some(c) => Some(c@),
                None => None,
            },
        }
    }
}

pub open spec fn default_args() -> ArgsModel {
    ArgsModel {
        output: None,
        language: Language::Gleam,
        lang_explicit: false,
        search: None,
        sort: Sort::RecentDownloads,
        package: None,
        storage_cmd: None,
    }
}

impl Default for Args {
    fn default() -> (r: Args)
        ensures
            r@ == default_args(),
    {
        Args {
            output: None,
            language: Language::Gleam,
            lang_explicit: false,
            search: None,
            sort: Sort::RecentDownloads,
            package: None,
            storage_cmd: None,
        }
    }
}

/// A flag that needs a value.
#[derive(Debug, Clone, Copy, PartialEq, Eq, Structural)]
pub enum Flag {
    Output,
    Lang,
    Sort,
}

impl Flag {
    /// The message shown when the flag's value is missing.
    pub fn missing_message(self) -> (r: &'static str)
        ensures
            r@ == match self {
                Flag::Output => "--output requires a value (json|compact|detail)"@,
                Flag::Lang => "--lang requires a value (gleam|elixir|erlang|all)"@,
                Flag::Sort => "--sort requires a value"@,
            },
    {
        match self {
            Flag::Output => "--output requires a value (json|compact|detail)",
            Flag::Lang => "--lang requires a value (gleam|elixir|erlang|all)",
            Flag::Sort => "--sort requires a value",
        }
    }
}

/// Why the command line was refused.
#[derive(Debug)]
pub enum ArgsError {
    /// A flag was the last argument.
    MissingValue(Flag),
    /// A flag's value is not one it accepts; the message says which.
    BadValue(String),
    /// `storage` followed by no known subcommand (the second argument, if any).
    UnknownStorageSubcommand(Option<String>),
}

pub enum ArgsErrorModel {
    MissingValue(Flag),
    BadValue(Seq<char>),
    UnknownStorageSubcommand(Option<Seq<char>>),
}

impl View for ArgsError {
    type V = ArgsErrorModel;

    open spec fn view(&self) -> ArgsErrorModel {
        match self {
            ArgsError::MissingValue(f) => ArgsErrorModel::MissingValue(*f),
            ArgsError::BadValue(m) => ArgsErrorModel::BadValue(m@),
            ArgsError::UnknownStorageSubcommand(s) => ArgsErrorModel::UnknownStorageSubcommand(
                opt_view(*s),
            ),
        }
    }
}

/// The flags from position `i` on, applied to `acc`.
pub open spec fn parse_flags(raw: Seq<Seq<char>>, i: int, acc: ArgsModel) -> Result<
    ArgsModel,
    ArgsErrorModel,
>
    decreases raw.len() - i,
{
    if i < 0 || i >= raw.len() {
        Ok(acc)
    } else {
        let a = raw[i];
        if a == "--output"@ || a == "-o"@ {
            if i + 1 >= raw.len() {
                Err(ArgsErrorModel::MissingValue(Flag::Output))
            } else {
                match OutputFormat::spec_parse(raw[i + 1]) {
                    None => Err(
                        ArgsErrorModel::BadValue(
                            "unknown output format: '"@ + raw[i + 1]
                                + "' (valid: json, compact, detail)"@,
                        ),
                    ),
                    Some(f) => if f == OutputFormat::Detail && i + 2 < raw.len() && !(raw[i
                        + 2].len() > 0 && raw[i + 2][0] == '-') {
                        parse_flags(
                            raw,
                            i + 3,
                            ArgsModel { output: Some(f), package: Some(raw[i + 2]), ..acc },
                        )
                    } else {
                        parse_flags(raw, i + 2, ArgsModel { output: Some(f), ..acc })
                    },
                }
            }
        } else if a == "--lang"@ || a == "-l"@ {
            if i + 1 >= raw.len() {
                Err(ArgsErrorModel::MissingValue(Flag::Lang))
            } else {
                match Language::spec_parse(raw[i + 1]) {
                    None => Err(
                        ArgsErrorModel::BadValue(
                            "unknown language: '"@ + crate::text::lowercase(raw[i + 1])
                                + "' (valid: gleam, elixir, erlang, all)"@,
                        ),
                    ),
                    Some(l) => parse_flags(
                        raw,
                        i + 2,
                        ArgsModel { language: l, lang_explicit: true, ..acc },
                    ),
                }
            }
        } else if a == "--search"@ || a == "-s"@ {
            if i + 1 < raw.len() {
                parse_flags(raw, i + 2, ArgsModel { search: Some(raw[i + 1]), ..acc })
            } else {
                Ok(acc)
            }
        } else if a == "--sort"@ {
            if i + 1 >= raw.len() {
                Err(ArgsErrorModel::MissingValue(Flag::Sort))
            } else {
                match Sort::spec_parse(raw[i + 1]) {
                    None => Err(ArgsErrorModel::BadValue("unknown sort: '"@ + raw[i + 1] + "'"@)),
                    Some(s) => parse_flags(raw, i + 2, ArgsModel { sort: s, ..acc }),
                }
            }
        } else {
            parse_flags(raw, i + 1, acc)
        }
    }
}

/// The storage subcommand named by the second argument.
pub open spec fn spec_parse_storage(raw: Seq<Seq<char>>) -> Result<
    StorageSubcmdModel,
    ArgsErrorModel,
> {
    if raw.len() > 1 && raw[1] == "status"@ {
        Ok(StorageSubcmdModel::Status)
    } else if raw.len() > 1 && raw[1] == "prune"@ {
        Ok(StorageSubcmdModel::Prune { yes: raw.contains("--yes"@) })
    } else if raw.len() > 1 && raw[1] == "clear"@ {
        Ok(StorageSubcmdModel::Clear)
    } else if raw.len() > 1 && raw[1] == "config"@ {
        Ok(StorageSubcmdModel::Config(if raw.len() > 2 { Some(raw[2]) } else { None }))
    } else {
        Err(
            ArgsErrorModel::UnknownStorageSubcommand(
                if raw.len() > 1 { Some(raw[1]) } else { None },
            ),
        )
    }
}

/// What the command line `raw` (without the program name) parses to.
pub open spec fn spec_parse_from(raw: Seq<Seq<char>>) -> Result<ArgsModel, ArgsErrorModel> {
    if raw.len() > 0 && raw[0] == "storage"@ {
        match spec_parse_storage(raw) {
            Ok(c) => Ok(ArgsModel { storage_cmd: Some(c), ..default_args() }),
            Err(e) => Err(e),
        }
    } else {
        parse_flags(raw, 0, default_args())
    }
}

pub open spec fn arg_views(raw: Seq<String>) -> Seq<Seq<char>> {
    raw.map_values(|s: String| s@)
}

fn parse_storage(raw: &[String]) -> (r: Result<StorageSubcmd, ArgsError>)
    ensures
        match r {
            Ok(c) => spec_parse_storage(arg_views(raw@)) == Ok::<StorageSubcmdModel, ArgsErrorModel>(c@),
            Err(e) => spec_parse_storage(arg_views(raw@)) == Err::<StorageSubcmdModel, ArgsErrorModel>(e@),
        },
{
    let ghost rv = arg_views(raw@);
    if raw.len() > 1 && str_is(raw[1].as_str(), "status") {
        Ok(StorageSubcmd::Status)
    } else if raw.len() > 1 && str_is(raw[1].as_str(), "prune") {
        let mut yes = false;
        let mut i: usize = 0;
        while i < raw.len()
            invariant
                i <= raw@.len(),
                rv == arg_views(raw@),
                yes == rv.take(i as int).contains("--yes"@),
            decreases raw@.len() - i,
        {
            let is_yes = str_is(raw[i].as_str(), "--yes");
            proof {
                let prev = rv.take(i as int);
                assert(rv.take(i + 1) =~= prev.push(rv[i as int]));
                if prev.push(rv[i as int]).contains("--yes"@) && !is_yes {
                    let k = choose|k: int|
                        0 <= k < prev.push(rv[i as int]).len() && prev.push(rv[i as int])[k]
                            == "--yes"@;
                    assert(prev[k] == "--yes"@);
                }
                if prev.contains("--yes"@) {
                    let k = choose|k: int| 0 <= k < prev.len() && prev[k] == "--yes"@;
                    assert(prev.push(rv[i as int])[k] == "--yes"@);
                }
                if is_yes {
                    assert(prev.push(rv[i as int])[prev.len() as int] == "--yes"@);
                }
            }
            yes = yes || is_yes;
            i = i + 1;
        }
        assert(rv.take(raw@.len() as int) =~= rv);
        Ok(StorageSubcmd::Prune { yes })
    } else if raw.len() > 1 && str_is(raw[1].as_str(), "clear") {
        Ok(StorageSubcmd::Clear)
    } else if raw.len() > 1 && str_is(raw[1].as_str(), "config") {
        let v = if raw.len() > 2 {
            Some(raw[2].clone())
        } else {
            None
        };
        Ok(StorageSubcmd::Config(v))
    } else {
        let v = if raw.len() > 1 {
            Some(raw[1].clone())
        } else {
            None
        };
        Err(ArgsError::UnknownStorageSubcommand(v))
    }
}

/// Parse the command line (without the program name).
pub fn parse_from(raw: &[String]) -> (r: Result<Args, ArgsError>)
    ensures
        match r {
            Ok(a) => spec_parse_from(arg_views(raw@)) == Ok::<ArgsModel, ArgsErrorModel>(a@),
            Err(e) => spec_parse_from(arg_views(raw@)) == Err::<ArgsModel, ArgsErrorModel>(e@),
        },
{
    let ghost rv = arg_views(raw@);
    let mut args = Args::default();
    if raw.len() > 0 && str_is(raw[0].as_str(), "storage") {
        match parse_storage(raw) {
            Ok(c) => {
                args.storage_cmd = Some(c);
                return Ok(args);
            },
            Err(e) => {
                return Err(e);
            },
        }
    }
    assert(raw@.len() > 0 ==> rv[0] == raw@[0]@);
    assert(spec_parse_from(rv) == parse_flags(rv, 0, default_args()));
    let mut i: usize = 0;
    while i < raw.len()
        invariant
            i <= raw@.len(),
            rv == arg_views(raw@),
            spec_parse_from(rv) == parse_flags(rv, 0, default_args()),
            parse_flags(rv, 0, default_args()) == parse_flags(rv, i as int, args@),
        decreases raw@.len() - i,
    {
        let a = raw[i].as_str();
        assert(rv[i as int] == a@);
        if str_is(a, "--output") || str_is(a, "-o") {
            if i + 1 >= raw.len() {
                assert(parse_flags(rv, i as int, args@) == Err::<ArgsModel, ArgsErrorModel>(
                    ArgsErrorModel::MissingValue(Flag::Output),
                ));
                return Err(ArgsError::MissingValue(Flag::Output));
            }
            assert(rv[i + 1] == raw@[i + 1]@);
            match OutputFormat::parse_name(raw[i + 1].as_str()) {
                Err(e) => {
                    assert(parse_flags(rv, i as int, args@) == Err::<ArgsModel, ArgsErrorModel>(
                        ArgsErrorModel::BadValue(e@),
                    ));
                    return Err(ArgsError::BadValue(e));
                },
                Ok(f) => {
                    if f == OutputFormat::Detail && i + 2 < raw.len()
                        && !str_starts_with_char(raw[i + 2].as_str(), '-') {
                        args.package = Some(raw[i + 2].clone());
                        i = i + 1;
                    }
                    args.output = Some(f);
                    i = i + 2;
                },
            }
        } else if str_is(a, "--lang") || str_is(a, "-l") {
            if i + 1 >= raw.len() {
                return Err(ArgsError::MissingValue(Flag::Lang));
            }
            match Language::parse_name(raw[i + 1].as_str()) {
                Err(e) => {
                    return Err(ArgsError::BadValue(e));
                },
                Ok(l) => {
                    args.language = l;
                    args.lang_explicit = true;
                    i = i + 2;
                },
            }
        } else if str_is(a, "--search") || str_is(a, "-s") {
            if i + 1 < raw.len() {
                args.search = Some(raw[i + 1].clone());
                i = i + 2;
            } else {
                i = raw.len();
            }
        } else if str_is(a, "--sort") {
            if i + 1 >= raw.len() {
                return Err(ArgsError::MissingValue(Flag::Sort));
            }
            match Sort::parse_name(raw[i + 1].as_str()) {
                Err(e) => {
                    return Err(ArgsError::BadValue(e));
                },
                Ok(s) => {
                    args.sort = s;
                    i = i + 2;
                },
            }
        } else {
            i = i + 1;
        }
    }
    Ok(args)
}

// ── Laws ─────────────────────────────────────────────────────────────────────

/// Flags read the same after anything put in front of them.
proof fn lemma_parse_flags_shift(x: Seq<Seq<char>>, r: Seq<Seq<char>>, k: int)
    requires
        0 <= k,
    ensures
        forall|acc: ArgsModel| parse_flags(x + r, x.len() + k, acc) == #[trigger] parse_flags(r, k, acc),
    decreases r.len() - k,
{
    if k < r.len() {
        lemma_parse_flags_shift(x, r, k + 1);
        if k + 2 <= r.len() {
            lemma_parse_flags_shift(x, r, k + 2);
        }
        if k + 3 <= r.len() {
            lemma_parse_flags_shift(x, r, k + 3);
        }
        let raw = x + r;
        let i = x.len() + k;
        assert(raw.len() == x.len() + r.len());
        assert(raw[i] == r[k]);
        if k + 1 < r.len() {
            assert(raw[i + 1] == r[k + 1]);
        }
        if k + 2 < r.len() {
            assert(raw[i + 2] == r[k + 2]);
        }
        assert forall|acc: ArgsModel| parse_flags(x + r, x.len() + k, acc) == #[trigger] parse_flags(
            r,
            k,
            acc,
        ) by {
            let a = r[k];
            if a == "--output"@ || a == "-o"@ {
                if k + 1 < r.len() {
                    match OutputFormat::spec_parse(r[k + 1]) {
                        Some(f) => {
                            let acc2 = ArgsModel { output: Some(f), ..acc };
                            assert(parse_flags(x + r, x.len() + (k + 2), acc2) == parse_flags(
                                r,
                                k + 2,
                                acc2,
                            ));
                            if k + 2 < r.len() {
                                let acc3 = ArgsModel { output: Some(f), package: Some(r[k + 2]), ..acc };
                                assert(parse_flags(x + r, x.len() + (k + 3), acc3) == parse_flags(
                                    r,
                                    k + 3,
                                    acc3,
                                ));
                            }
                        },
                        None => {},
                    }
                }
            } else if a == "--lang"@ || a == "-l"@ {
                if k + 1 < r.len() {
                    match Language::spec_parse(r[k + 1]) {
                        Some(l) => {
                            let acc2 = ArgsModel { language: l, lang_explicit: true, ..acc };
                            assert(parse_flags(x + r, x.len() + (k + 2), acc2) == parse_flags(
                                r,
                                k + 2,
                                acc2,
                            ));
                        },
                        None => {},
                    }
                }
            } else if a == "--search"@ || a == "-s"@ {
                if k + 1 < r.len() {
                    let acc2 = ArgsModel { search: Some(r[k + 1]), ..acc };
                    assert(parse_flags(x + r, x.len() + (k + 2), acc2) == parse_flags(r, k + 2, acc2));
                }
            } else if a == "--sort"@ {
                if k + 1 < r.len() {
                    match Sort::spec_parse(r[k + 1]) {
                        Some(so) => {
                            let acc2 = ArgsModel { sort: so, ..acc };
                            assert(parse_flags(x + r, x.len() + (k + 2), acc2) == parse_flags(
                                r,
                                k + 2,
                                acc2,
                            ));
                        },
                        None => {},
                    }
                }
            } else {
                assert(parse_flags(x + r, x.len() + (k + 1), acc) == parse_flags(r, k + 1, acc));
            }
        }
    }
}

/// The `storage` subcommand, as `parse_from` reads it (its result is
/// `spec_parse_from`): a command line starting with `storage` parses exactly
/// when its second argument is `status`, `prune`, `clear` or `config`.
/// `prune` skips the confirmation exactly when `--yes` appears anywhere, `config`
/// carries the third argument if there is one, and the rest of the command line
/// keeps its defaults; otherwise the error names the second argument, if any.
pub proof fn lemma_storage_subcommand(raw: Seq<Seq<char>>)
    requires
        raw.len() >= 1,
        raw[0] == "storage"@,
    ensures
        spec_parse_from(raw) is Ok <==> (raw.len() > 1 && (raw[1] == "status"@ || raw[1] == "prune"@
            || raw[1] == "clear"@ || raw[1] == "config"@)),
        raw.len() > 1 && raw[1] == "status"@ ==> spec_parse_from(raw) == Ok::<ArgsModel, ArgsErrorModel>(
            ArgsModel { storage_cmd: Some(StorageSubcmdModel::Status), ..default_args() },
        ),
        raw.len() > 1 && raw[1] == "prune"@ ==> spec_parse_from(raw) == Ok::<ArgsModel, ArgsErrorModel>(
            ArgsModel {
                storage_cmd: Some(StorageSubcmdModel::Prune { yes: raw.contains("--yes"@) }),
                ..default_args()
            },
        ),
        raw.len() > 1 && raw[1] == "clear"@ ==> spec_parse_from(raw) == Ok::<ArgsModel, ArgsErrorModel>(
            ArgsModel { storage_cmd: Some(StorageSubcmdModel::Clear), ..default_args() },
        ),
        raw.len() > 1 && raw[1] == "config"@ ==> spec_parse_from(raw) == Ok::<ArgsModel, ArgsErrorModel>(
            ArgsModel {
                storage_cmd: Some(
                    StorageSubcmdModel::Config(
                        if raw.len() > 2 {
                            Some(raw[2])
                        } else {
                            None
                        },
                    ),
                ),
                ..default_args()
            },
        ),
        !(spec_parse_from(raw) is Ok) ==> spec_parse_from(raw) == Err::<ArgsModel, ArgsErrorModel>(
            ArgsErrorModel::UnknownStorageSubcommand(
                if raw.len() > 1 {
                    Some(raw[1])
                } else {
                    None
                },
            ),
        ),
{
    reveal_strlit("status");
    reveal_strlit("prune");
    reveal_strlit("clear");
    reveal_strlit("config");
    assert("prune"@[0] != "status"@[0]);
    assert("clear"@[0] != "status"@[0] && "clear"@[0] != "prune"@[0]);
    assert("config"@[1] != "clear"@[1]);
}

/// Unknown flags are ignored: an argument that is no known flag (and not the
/// `storage` subcommand) can be put in front of a command line without changing
/// what it parses to.
pub proof fn lemma_unknown_flag_ignored(t: Seq<char>, rest: Seq<Seq<char>>)
    requires
        t != "--output"@ && t != "-o"@ && t != "--lang"@ && t != "-l"@ && t != "--search"@ && t
            != "-s"@ && t != "--sort"@ && t != "storage"@,
        !(rest.len() > 0 && rest[0] == "storage"@),
    ensures
        spec_parse_from(seq![t] + rest) == spec_parse_from(rest),
{
    let raw = seq![t] + rest;
    assert(raw[0] == t);
    lemma_parse_flags_shift(seq![t], rest, 0);
    assert(parse_flags(raw, 1, default_args()) == parse_flags(rest, 0, default_args()));
}

/// Whether `a` begins with `-`, as a flag does.
pub open spec fn flag_like(a: Seq<char>) -> bool {
    a.len() > 0 && a[0] == '-'
}

proof fn lemma_parse_flags_package(raw: Seq<Seq<char>>, i: int, acc: ArgsModel)
    requires
        acc.package matches Some(p) ==> !flag_like(p),
    ensures
        parse_flags(raw, i, acc) matches Ok(a) ==> (a.package matches Some(p) ==> !flag_like(p)),
    decreases raw.len() - i,
{
    if 0 <= i < raw.len() {
        let a = raw[i];
        lemma_parse_flags_package(raw, i + 1, acc);
        if i + 1 < raw.len() {
            lemma_parse_flags_package(raw, i + 2, ArgsModel { output: Some(OutputFormat::Detail), ..acc });
            lemma_parse_flags_package(raw, i + 2, ArgsModel { output: Some(OutputFormat::Json), ..acc });
            lemma_parse_flags_package(raw, i + 2, ArgsModel { output: Some(OutputFormat::Compact), ..acc });
            lemma_parse_flags_package(raw, i + 2, ArgsModel { search: Some(raw[i + 1]), ..acc });
            match Language::spec_parse(raw[i + 1]) {
                Some(l) => lemma_parse_flags_package(
                    raw,
                    i + 2,
                    ArgsModel { language: l, lang_explicit: true, ..acc },
                ),
                None => {},
            }
            match Sort::spec_parse(raw[i + 1]) {
                Some(so) => lemma_parse_flags_package(raw, i + 2, ArgsModel { sort: so, ..acc }),
                None => {},
            }
        }
        if i + 2 < raw.len() && !flag_like(raw[i + 2]) {
            lemma_parse_flags_package(
                raw,
                i + 3,
                ArgsModel { output: Some(OutputFormat::Detail), package: Some(raw[i + 2]), ..acc },
            );
        }
    }
}

/// The package `--output detail` names is never a flag: whatever the command
/// line, a package that parsing yields does not begin with `-`.
pub proof fn lemma_detail_package_is_no_flag(raw: Seq<Seq<char>>)
    ensures
        spec_parse_from(raw) matches Ok(a) ==> (a.package matches Some(p) ==> !flag_like(p)),
{
    lemma_parse_flags_package(raw, 0, default_args());
}

/// `--output detail` takes the next argument as the package only when it is no
/// flag: the rest of the command line is then read on its own, as if it stood
/// alone after `--output detail` (so `--output detail --lang elixir` sets the
/// language and names no package); otherwise the package is that argument and
/// the arguments after it are read on their own.
pub proof fn lemma_detail_then_rest(rest: Seq<Seq<char>>)
    ensures
        ({
            let raw = seq!["--output"@, "detail"@] + rest;
            let with_detail = ArgsModel { output: Some(OutputFormat::Detail), ..default_args() };
            &&& (rest.len() == 0 || flag_like(rest[0])) ==> spec_parse_from(raw) == parse_flags(
                rest,
                0,
                with_detail,
            )
            &&& (rest.len() > 0 && !flag_like(rest[0])) ==> spec_parse_from(raw) == parse_flags(
                rest.drop_first(),
                0,
                ArgsModel { package: Some(rest[0]), ..with_detail },
            )
        }),
{
    reveal_strlit("--output");
    reveal_strlit("detail");
    reveal_strlit("storage");
    reveal_strlit("json");
    reveal_strlit("compact");
    let pre = seq!["--output"@, "detail"@];
    let raw = pre + rest;
    assert(raw[0] == "--output"@);
    assert(raw[1] == "detail"@);
    assert("--output"@.len() == 8 && "storage"@.len() == 7);
    assert("detail"@.len() == 6 && "json"@.len() == 4 && "compact"@.len() == 7);
    assert(OutputFormat::spec_parse("detail"@) == Some(OutputFormat::Detail));
    let with_detail = ArgsModel { output: Some(OutputFormat::Detail), ..default_args() };
    lemma_parse_flags_shift(pre, rest, 0);
    assert(parse_flags(raw, 2, with_detail) == parse_flags(rest, 0, with_detail));
    if rest.len() > 0 {
        assert(raw[2] == rest[0]);
        let pre3 = seq!["--output"@, "detail"@, rest[0]];
        assert(raw =~= pre3 + rest.drop_first());
        lemma_parse_flags_shift(pre3, rest.drop_first(), 0);
        let acc3 = ArgsModel { package: Some(rest[0]), ..with_detail };
        assert(parse_flags(raw, 3, acc3) == parse_flags(rest.drop_first(), 0, acc3));
    }
}

/// `--output detail --lang <name>`: the language is the one named, chosen
/// explicitly, and no package is named.
pub proof fn lemma_detail_then_lang(v: Seq<char>)
    requires
        Language::spec_parse(v) is Some,
    ensures
        spec_parse_from(seq!["--output"@, "detail"@, "--lang"@, v]) == Ok::<ArgsModel, ArgsErrorModel>(
            ArgsModel {
                output: Some(OutputFormat::Detail),
                language: Language::spec_parse(v)->0,
                lang_explicit: true,
                package: None,
                ..default_args()
            },
        ),
{
    reveal_strlit("--lang");
    reveal_strlit("--output");
    assert("--lang"@.len() == 6 && "--output"@.len() == 8);
    assert("--lang"@[0] == '-');
    let rest = seq!["--lang"@, v];
    lemma_detail_then_rest(rest);
    assert(seq!["--output"@, "detail"@] + rest =~= seq!["--output"@, "detail"@, "--lang"@, v]);
    assert(rest[0] == "--lang"@);
    assert(flag_like(rest[0]));
    reveal_strlit("-o");
    assert("-o"@.len() == 2);
    assert(rest[0] != "--output"@ && rest[0] != "-o"@);
    assert(rest[1] == v);
    let l = Language::spec_parse(v)->0;
    let with_detail = ArgsModel { output: Some(OutputFormat::Detail), ..default_args() };
    assert(parse_flags(rest, 0, with_detail) == parse_flags(
        rest,
        2,
        ArgsModel { language: l, lang_explicit: true, ..with_detail },
    ));
}

/// Each flag with its value, read ahead of the rest of the command line: the
/// rest is then read as if it stood alone, from the defaults changed by that flag.
/// `--lang`/`-l` sets the language it names and marks it as chosen (an unknown
/// name is refused); `--search`/`-s` sets the search text; `--sort` sets the sort
/// it names (an unknown one is refused); `--output`/`-o` with `json` or `compact`
/// sets that output.
pub proof fn lemma_flag_then_rest(f: Seq<char>, v: Seq<char>, rest: Seq<Seq<char>>)
    ensures
        ({
            let raw = seq![f, v] + rest;
            let d = default_args();
            &&& (f == "--lang"@ || f == "-l"@) && Language::spec_parse(v) is Some ==> spec_parse_from(raw)
                == parse_flags(
                rest,
                0,
                ArgsModel { language: Language::spec_parse(v)->0, lang_explicit: true, ..d },
            )
            &&& (f == "--lang"@ || f == "-l"@) && Language::spec_parse(v) is None ==> spec_parse_from(
                raw,
            ) is Err
            &&& (f == "--search"@ || f == "-s"@) ==> spec_parse_from(raw) == parse_flags(
                rest,
                0,
                ArgsModel { search: Some(v), ..d },
            )
            &&& f == "--sort"@ && Sort::spec_parse(v) is Some ==> spec_parse_from(raw) == parse_flags(
                rest,
                0,
                ArgsModel { sort: Sort::spec_parse(v)->0, ..d },
            )
            &&& f == "--sort"@ && Sort::spec_parse(v) is None ==> spec_parse_from(raw) is Err
            &&& (f == "--output"@ || f == "-o"@) && v == "json"@ ==> spec_parse_from(raw) == parse_flags(
                rest,
                0,
                ArgsModel { output: Some(OutputFormat::Json), ..d },
            )
            &&& (f == "--output"@ || f == "-o"@) && v == "compact"@ ==> spec_parse_from(raw)
                == parse_flags(rest, 0, ArgsModel { output: Some(OutputFormat::Compact), ..d })
        }),
{
    reveal_strlit("--lang");
    reveal_strlit("-l");
    reveal_strlit("--search");
    reveal_strlit("-s");
    reveal_strlit("--sort");
    reveal_strlit("--output");
    reveal_strlit("-o");
    reveal_strlit("storage");
    reveal_strlit("json");
    reveal_strlit("compact");
    reveal_strlit("detail");
    assert("--lang"@.len() == 6 && "-l"@.len() == 2 && "--search"@.len() == 8 && "-s"@.len() == 2);
    assert("--sort"@.len() == 6 && "--output"@.len() == 8 && "-o"@.len() == 2 && "storage"@.len() == 7);
    assert("json"@.len() == 4 && "compact"@.len() == 7 && "detail"@.len() == 6);
    assert("--lang"@[2] != "--sort"@[2]);
    assert("--search"@[2] != "--output"@[2]);
    assert("-l"@[1] != "-s"@[1] && "-l"@[1] != "-o"@[1] && "-s"@[1] != "-o"@[1]);
    let pre = seq![f, v];
    let raw = pre + rest;
    assert(raw[0] == f && raw[1] == v);
    lemma_parse_flags_shift(pre, rest, 0);
    if f == "--output"@ || f == "-o"@ {
        if v == "json"@ || v == "compact"@ {
            assert(OutputFormat::spec_parse(v) != Some(OutputFormat::Detail));
        }
    }
}

} // verus!
