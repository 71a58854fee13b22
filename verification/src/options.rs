//! The command line of the search in the index of `ord`, and what the environment
//! sets for it.

use vstd::prelude::*;
use vstd::string::StringExecFns;

use crate::args::arg_value;
use crate::args::has_flag;
use crate::args::i32_or;
use crate::args::parse_i32;
use crate::args::parse_u64;
use crate::args::string_or;
use crate::args::text_or;
use crate::args::value_after;
use crate::args::InvalidNumber;
use crate::category::in_trump_window;
use crate::category::TRUMP_END_EXCLUSIVE;
use crate::category::TRUMP_START;
use crate::decimal::decimal;
use crate::decimal::decimal_string;
use crate::decimal::i32_number;
use crate::decimal::unsigned_number;
use crate::text::text_of;
use crate::text::texts;

verus! {

/// What the environment sets, where it does.
pub struct ScanEnv {
    pub db_path: Option<String>,
    pub start: Option<String>,
    pub trump_sat_start: Option<String>,
    pub trump_sat_end_exclusive: Option<String>,
    pub hits_path: Option<String>,
    pub first_path: Option<String>,
    pub first_hits_path: Option<String>,
}

/// What a scan runs with.
#[derive(Debug)]
pub struct ScanOptions {
    pub first_only: bool,
    pub max_hits: Option<u64>,
    pub db_path: String,
    pub start_n: i32,
    pub sat_start: u64,
    pub sat_end_exclusive: u64,
    pub hits_path: String,
    pub first_path: String,
    pub first_hits_path: String,
}

/// What the command line asks for.
#[derive(Debug)]
pub enum Command {
    Help,
    Scan { options: ScanOptions },
}

/// Why a command line cannot be followed.
#[derive(Debug)]
pub enum OptionsError {
    Invalid { error: InvalidNumber },
    BadRange { start: u64, end_exclusive: u64 },
}

/// [`ScanEnv`] as the proofs see it.
pub struct EnvModel {
    pub db_path: Option<Seq<char>>,
    pub start: Option<Seq<char>>,
    pub trump_sat_start: Option<Seq<char>>,
    pub trump_sat_end_exclusive: Option<Seq<char>>,
    pub hits_path: Option<Seq<char>>,
    pub first_path: Option<Seq<char>>,
    pub first_hits_path: Option<Seq<char>>,
}

impl View for ScanEnv {
    type V = EnvModel;

    open spec fn view(&self) -> EnvModel {
        EnvModel {
            db_path: text_of(self.db_path),
            start: text_of(self.start),
            trump_sat_start: text_of(self.trump_sat_start),
            trump_sat_end_exclusive: text_of(self.trump_sat_end_exclusive),
            hits_path: text_of(self.hits_path),
            first_path: text_of(self.first_path),
            first_hits_path: text_of(self.first_hits_path),
        }
    }
}

/// [`ScanOptions`] as the proofs see them.
pub struct OptionsModel {
    pub first_only: bool,
    pub max_hits: Option<u64>,
    pub db_path: Seq<char>,
    pub start_n: i32,
    pub sat_start: u64,
    pub sat_end_exclusive: u64,
    pub hits_path: Seq<char>,
    pub first_path: Seq<char>,
    pub first_hits_path: Seq<char>,
}

/// [`Command`], or why there is none, as the proofs see it.
pub enum CommandModel {
    Help,
    Scan { options: OptionsModel },
    Invalid { what: Seq<char>, text: Seq<char> },
    BadRange { start: u64, end_exclusive: u64 },
}

impl View for ScanOptions {
    type V = OptionsModel;

    open spec fn view(&self) -> OptionsModel {
        OptionsModel {
            first_only: self.first_only,
            max_hits: self.max_hits,
            db_path: self.db_path@,
            start_n: self.start_n,
            sat_start: self.sat_start,
            sat_end_exclusive: self.sat_end_exclusive,
            hits_path: self.hits_path@,
            first_path: self.first_path@,
            first_hits_path: self.first_hits_path@,
        }
    }
}

/// What parsing a command line gave, as the proofs see it.
pub open spec fn command_model(r: Result<Command, OptionsError>) -> CommandModel {
    match r {
        Ok(Command::Help) => CommandModel::Help,
        Ok(Command::Scan { options }) => CommandModel::Scan { options: options@ },
        Err(OptionsError::Invalid { error }) => CommandModel::Invalid {
            what: error.what@,
            text: error.text@,
        },
        Err(OptionsError::BadRange { start, end_exclusive }) => CommandModel::BadRange {
            start,
            end_exclusive,
        },
    }
}

/// A number that was asked for, or the name and the text of what is none.
pub enum Asked<T> {
    Number(T),
    Bad(Seq<char>, Seq<char>),
}

/// The number that `text`, given for `what`, stands for.
pub open spec fn asked_u64(text: Seq<char>, what: Seq<char>) -> Asked<u64> {
    match unsigned_number(text, u64::MAX as nat) {
        Some(n) => Asked::Number(n as u64),
        None => Asked::Bad(what, text),
    }
}

/// The largest number of hits: the one behind `--max-hits`, but one where
/// `--first-only` is given. A text that is no number is noticed in any case.
pub open spec fn asked_max_hits(args: Seq<Seq<char>>) -> Asked<Option<u64>> {
    let given = match value_after(args, "--max-hits"@) {
        Some(text) => match asked_u64(text, "--max-hits"@) {
            Asked::Number(n) => Asked::Number(Some(n)),
            Asked::Bad(what, text) => Asked::Bad(what, text),
        },
        None => Asked::Number(None),
    };
    match given {
        Asked::Number(n) => Asked::Number(
            if args.contains("--first-only"@) {
                Some(1u64)
            } else {
                n
            },
        ),
        Asked::Bad(what, text) => Asked::Bad(what, text),
    }
}

/// The number to start at: the one behind `--start`, which has to be one; or
/// the one that the environment sets, where it is one; or zero.
pub open spec fn asked_start(args: Seq<Seq<char>>, env: EnvModel) -> Asked<i32> {
    match value_after(args, "--start"@) {
        Some(text) => match i32_number(text) {
            Some(n) => Asked::Number(n),
            None => Asked::Bad("--start"@, text),
        },
        None => Asked::Number(
            match env.start {
                Some(text) => match i32_number(text) {
                    Some(n) => n,
                    None => 0,
                },
                None => 0,
            },
        ),
    }
}

/// An end of the window: the one behind `key`, or the one that the environment
/// sets under `name`, each of which has to be a number; or `default`.
pub open spec fn asked_sat(
    args: Seq<Seq<char>>,
    key: Seq<char>,
    set: Option<Seq<char>>,
    name: Seq<char>,
    default: u64,
) -> Asked<u64> {
    match value_after(args, key) {
        Some(text) => asked_u64(text, key),
        None => match set {
            Some(text) => asked_u64(text, name),
            None => Asked::Number(default),
        },
    }
}

/// A path: the one behind `key`, or the one that the environment sets, or
/// `default`.
pub open spec fn asked_path(
    args: Seq<Seq<char>>,
    key: Seq<char>,
    set: Option<Seq<char>>,
    default: Seq<char>,
) -> Seq<char> {
    match value_after(args, key) {
        Some(text) => text,
        None => text_or(set, default),
    }
}

/// What the command line asks for. Of several faults the first counts, in the
/// order in which the numbers are named here; an empty window is the last.
pub open spec fn command_of(args: Seq<Seq<char>>, env: EnvModel) -> CommandModel {
    if args.contains("--help"@) || args.contains("-h"@) {
        CommandModel::Help
    } else {
        match (
            asked_max_hits(args),
            asked_start(args, env),
            asked_sat(
                args,
                "--trump-sat-start"@,
                env.trump_sat_start,
                "TRUMPFIND_TRUMP_SAT_START"@,
                TRUMP_START,
            ),
            asked_sat(
                args,
                "--trump-sat-end-exclusive"@,
                env.trump_sat_end_exclusive,
                "TRUMPFIND_TRUMP_SAT_END_EXCLUSIVE"@,
                TRUMP_END_EXCLUSIVE,
            ),
        ) {
            (Asked::Bad(what, text), _, _, _) => CommandModel::Invalid { what, text },
            (_, Asked::Bad(what, text), _, _) => CommandModel::Invalid { what, text },
            (_, _, Asked::Bad(what, text), _) => CommandModel::Invalid { what, text },
            (_, _, _, Asked::Bad(what, text)) => CommandModel::Invalid { what, text },
            (
                Asked::Number(max_hits),
                Asked::Number(start_n),
                Asked::Number(start),
                Asked::Number(end_exclusive),
            ) => if end_exclusive <= start {
                CommandModel::BadRange { start, end_exclusive }
            } else {
                CommandModel::Scan {
                    options: OptionsModel {
                        first_only: args.contains("--first-only"@),
                        max_hits,
                        db_path: asked_path(
                            args,
                            "--db-path"@,
                            env.db_path,
                            "/var/lib/ord/index.redb"@,
                        ),
                        start_n,
                        sat_start: start,
                        sat_end_exclusive: end_exclusive,
                        hits_path: asked_path(
                            args,
                            "--hits-path"@,
                            env.hits_path,
                            "/var/lib/trumpfind/trump_hits.jsonl"@,
                        ),
                        first_path: asked_path(
                            args,
                            "--first-path"@,
                            env.first_path,
                            "/var/lib/trumpfind/trump_first.json"@,
                        ),
                        first_hits_path: asked_path(
                            args,
                            "--first-hits-path"@,
                            env.first_hits_path,
                            "trump_hits_first.jsonl"@,
                        ),
                    },
                }
            },
        }
    }
}

impl OptionsError {
    /// What is wrong, in words.
    pub fn message(&self) -> (m: String)
        ensures
            m@ == match self {
                OptionsError::Invalid { error } => "invalid "@ + error.what@ + ": "@ + error.text@,
                OptionsError::BadRange { start, end_exclusive } => "bad Trump sat range: start="@
                    + decimal(*start as nat) + " end_exclusive="@ + decimal(*end_exclusive as nat),
            },
    {
        match self {
            OptionsError::Invalid { error } => error.message(),
            OptionsError::BadRange { start, end_exclusive } => {
                let mut m = "bad Trump sat range: start=".to_owned();
                m.append(decimal_string(*start).as_str());
                m.append(" end_exclusive=");
                m.append(decimal_string(*end_exclusive).as_str());
                m
            },
        }
    }
}

fn read_sat(args: &[String], key: &str, set: Option<String>, name: &str, default: u64) -> (r:
    Result<u64, InvalidNumber>)
    ensures
        asked_sat(texts(args@), key@, text_of(set), name@, default) == match r {
            Ok(n) => Asked::Number(n),
            Err(e) => Asked::Bad(e.what@, e.text@),
        },
{
    match arg_value(args, key) {
        Some(text) => parse_u64(text.as_str(), key),
        None => match set {
            Some(text) => parse_u64(text.as_str(), name),
            None => Ok(default),
        },
    }
}

fn read_path(args: &[String], key: &str, set: Option<String>, default: &str) -> (r: String)
    ensures
        r@ == asked_path(texts(args@), key@, text_of(set), default@),
{
    match arg_value(args, key) {
        Some(text) => text,
        None => string_or(set, default),
    }
}

/// What the command line asks for, given what the environment sets.
pub fn parse_command(args: &[String], env: ScanEnv) -> (r: Result<Command, OptionsError>)
    ensures
        command_model(r) == command_of(texts(args@), env@),
{
    if has_flag(args, "--help") || has_flag(args, "-h") {
        return Ok(Command::Help);
    }
    let first_only = has_flag(args, "--first-only");
    let max_hits = match arg_value(args, "--max-hits") {
        Some(text) => match parse_u64(text.as_str(), "--max-hits") {
            Ok(n) => Some(n),
            Err(error) => {
                return Err(OptionsError::Invalid { error });
            },
        },
        None => None,
    };
    let max_hits = if first_only {
        Some(1u64)
    } else {
        max_hits
    };
    assert(asked_max_hits(texts(args@)) == Asked::Number(max_hits));
    let start_n: i32 = match arg_value(args, "--start") {
        Some(text) => match parse_i32(text.as_str(), "--start") {
            Ok(n) => n,
            Err(error) => {
                return Err(OptionsError::Invalid { error });
            },
        },
        None => i32_or(env.start, 0),
    };
    assert(asked_start(texts(args@), env@) == Asked::Number(start_n));
    let sat_start: u64 = match read_sat(
        args,
        "--trump-sat-start",
        env.trump_sat_start,
        "TRUMPFIND_TRUMP_SAT_START",
        TRUMP_START,
    ) {
        Ok(n) => n,
        Err(error) => {
            return Err(OptionsError::Invalid { error });
        },
    };
    let sat_end_exclusive: u64 = match read_sat(
        args,
        "--trump-sat-end-exclusive",
        env.trump_sat_end_exclusive,
        "TRUMPFIND_TRUMP_SAT_END_EXCLUSIVE",
        TRUMP_END_EXCLUSIVE,
    ) {
        Ok(n) => n,
        Err(error) => {
            return Err(OptionsError::Invalid { error });
        },
    };
    if sat_end_exclusive <= sat_start {
        return Err(
            OptionsError::BadRange { start: sat_start, end_exclusive: sat_end_exclusive },
        );
    }
    let options = ScanOptions {
        first_only,
        max_hits,
        db_path: read_path(args, "--db-path", env.db_path, "/var/lib/ord/index.redb"),
        start_n,
        sat_start,
        sat_end_exclusive,
        hits_path: read_path(
            args,
            "--hits-path",
            env.hits_path,
            "/var/lib/trumpfind/trump_hits.jsonl",
        ),
        first_path: read_path(
            args,
            "--first-path",
            env.first_path,
            "/var/lib/trumpfind/trump_first.json",
        ),
        first_hits_path: read_path(
            args,
            "--first-hits-path",
            env.first_hits_path,
            "trump_hits_first.jsonl",
        ),
    };
    Ok(Command::Scan { options })
}

/// Where an option is given, what the environment sets for it does not count.
pub proof fn law_arguments_win(args: Seq<Seq<char>>, a: EnvModel, b: EnvModel)
    requires
        value_after(args, "--db-path"@) is Some || a.db_path == b.db_path,
        value_after(args, "--start"@) is Some || a.start == b.start,
        value_after(args, "--trump-sat-start"@) is Some || a.trump_sat_start == b.trump_sat_start,
        value_after(args, "--trump-sat-end-exclusive"@) is Some || a.trump_sat_end_exclusive
            == b.trump_sat_end_exclusive,
        value_after(args, "--hits-path"@) is Some || a.hits_path == b.hits_path,
        value_after(args, "--first-path"@) is Some || a.first_path == b.first_path,
        value_after(args, "--first-hits-path"@) is Some || a.first_hits_path == b.first_hits_path,
    ensures
        command_of(args, a) == command_of(args, b),
{
}

/// Where neither an option nor the environment says otherwise, every inscription
/// from number zero on is looked at, every hit is taken, and the window is that
/// of the Trump Casascius category.
pub proof fn law_default_scan(args: Seq<Seq<char>>, env: EnvModel)
    requires
        !args.contains("--help"@),
        !args.contains("-h"@),
        !args.contains("--first-only"@),
        value_after(args, "--max-hits"@) is None,
        value_after(args, "--start"@) is None,
        value_after(args, "--trump-sat-start"@) is None,
        value_after(args, "--trump-sat-end-exclusive"@) is None,
        env.start is None,
        env.trump_sat_start is None,
        env.trump_sat_end_exclusive is None,
    ensures
        command_of(args, env) matches CommandModel::Scan { options } && {
            &&& !options.first_only
            &&& options.max_hits is None
            &&& options.start_n == 0
            &&& forall|sat: int|
                options.sat_start <= sat < options.sat_end_exclusive <==> #[trigger] in_trump_window(
                    sat,
                )
        },
{
}

/// Every scan that a command line asks for has a window with at least one sat,
/// and looks for at most one hit where it is to find the first only.
pub proof fn law_scans_have_a_window(args: Seq<Seq<char>>, env: EnvModel)
    ensures
        command_of(args, env) matches CommandModel::Scan { options } ==> {
            &&& options.sat_start < options.sat_end_exclusive
            &&& options.first_only ==> options.max_hits == Some(1u64)
        },
{
}

/// What is asked for on the command line is followed as it stands. Help comes
/// before everything. A text that is no number is told with what it was given
/// for, the first of several, and then a window without a sat. Without any of
/// these faults there is a scan, with every number and every path as it was
/// given, or set, or else the default; and with one hit at most where only the
/// first is looked for.
pub proof fn law_command_line_is_followed(args: Seq<Seq<char>>, env: EnvModel)
    ensures
        ({
            let max = 0xffff_ffff_ffff_ffffnat;
            let hits_text = value_after(args, "--max-hits"@);
            let start_text = value_after(args, "--start"@);
            let from_arg = value_after(args, "--trump-sat-start"@);
            let to_arg = value_after(args, "--trump-sat-end-exclusive"@);
            let from_text = if from_arg is Some {
                from_arg
            } else {
                env.trump_sat_start
            };
            let to_text = if to_arg is Some {
                to_arg
            } else {
                env.trump_sat_end_exclusive
            };
            let help = args.contains("--help"@) || args.contains("-h"@);
            let bad_hits = hits_text is Some && unsigned_number(hits_text->0, max) is None;
            let bad_start = start_text is Some && i32_number(start_text->0) is None;
            let bad_from = from_text is Some && unsigned_number(from_text->0, max) is None;
            let bad_to = to_text is Some && unsigned_number(to_text->0, max) is None;
            let from = if from_text is Some {
                unsigned_number(from_text->0, max)->0 as int
            } else {
                215_041_381_749_581
            };
            let to = if to_text is Some {
                unsigned_number(to_text->0, max)->0 as int
            } else {
                215_041_481_749_581
            };
            let r = command_of(args, env);
            &&& help <==> r is Help
            &&& !help && bad_hits ==> r == (CommandModel::Invalid {
                what: "--max-hits"@,
                text: hits_text->0,
            })
            &&& !help && !bad_hits && bad_start ==> r == (CommandModel::Invalid {
                what: "--start"@,
                text: start_text->0,
            })
            &&& !help && !bad_hits && !bad_start && bad_from ==> r == (CommandModel::Invalid {
                what: if from_arg is Some {
                    "--trump-sat-start"@
                } else {
                    "TRUMPFIND_TRUMP_SAT_START"@
                },
                text: from_text->0,
            })
            &&& !help && !bad_hits && !bad_start && !bad_from && bad_to ==> r
                == (CommandModel::Invalid {
                what: if to_arg is Some {
                    "--trump-sat-end-exclusive"@
                } else {
                    "TRUMPFIND_TRUMP_SAT_END_EXCLUSIVE"@
                },
                text: to_text->0,
            })
            &&& !help && !bad_hits && !bad_start && !bad_from && !bad_to && to <= from ==> r
                == (CommandModel::BadRange { start: from as u64, end_exclusive: to as u64 })
            &&& !help && !bad_hits && !bad_start && !bad_from && !bad_to && from < to <==> r is Scan
            &&& r matches CommandModel::Scan { options: o } ==> {
                &&& o.sat_start == from
                &&& o.sat_end_exclusive == to
                &&& o.first_only == args.contains("--first-only"@)
                &&& o.first_only ==> o.max_hits == Some(1u64)
                &&& !o.first_only && hits_text is None ==> o.max_hits is None
                &&& !o.first_only && hits_text is Some ==> (o.max_hits matches Some(m)
                    && unsigned_number(hits_text->0, 0xffff_ffff_ffff_ffff) == Some(m as nat))
                &&& start_text is Some ==> i32_number(start_text->0) == Some(o.start_n)
                &&& start_text is None && env.start is Some && i32_number(env.start->0) is Some ==> Some(
                    o.start_n,
                ) == i32_number(env.start->0)
                &&& start_text is None && (env.start is None || i32_number(env.start->0) is None)
                    ==> o.start_n == 0
                &&& o.db_path == (match value_after(args, "--db-path"@) {
                    Some(t) => t,
                    None => match env.db_path {
                        Some(t) => t,
                        None => "/var/lib/ord/index.redb"@,
                    },
                })
                &&& o.hits_path == (match value_after(args, "--hits-path"@) {
                    Some(t) => t,
                    None => match env.hits_path {
                        Some(t) => t,
                        None => "/var/lib/trumpfind/trump_hits.jsonl"@,
                    },
                })
                &&& o.first_path == (match value_after(args, "--first-path"@) {
                    Some(t) => t,
                    None => match env.first_path {
                        Some(t) => t,
                        None => "/var/lib/trumpfind/trump_first.json"@,
                    },
                })
                &&& o.first_hits_path == (match value_after(args, "--first-hits-path"@) {
                    Some(t) => t,
                    None => match env.first_hits_path {
                        Some(t) => t,
                        None => "trump_hits_first.jsonl"@,
                    },
                })
            }
        }),
{
}

/// The models of what is asked for leave nothing out and change nothing.
pub proof fn law_models_of_the_command_line(
    env: ScanEnv,
    o: ScanOptions,
    e: InvalidNumber,
    n: u64,
    m: u64,
)
    ensures
        env@.db_path == text_of(env.db_path),
        env@.start == text_of(env.start),
        env@.trump_sat_start == text_of(env.trump_sat_start),
        env@.trump_sat_end_exclusive == text_of(env.trump_sat_end_exclusive),
        env@.hits_path == text_of(env.hits_path),
        env@.first_path == text_of(env.first_path),
        env@.first_hits_path == text_of(env.first_hits_path),
        o@.first_only == o.first_only,
        o@.max_hits == o.max_hits,
        o@.db_path == o.db_path@,
        o@.start_n == o.start_n,
        o@.sat_start == o.sat_start,
        o@.sat_end_exclusive == o.sat_end_exclusive,
        o@.hits_path == o.hits_path@,
        o@.first_path == o.first_path@,
        o@.first_hits_path == o.first_hits_path@,
        command_model(Ok(Command::Help)) is Help,
        command_model(Ok(Command::Scan { options: o })) == (CommandModel::Scan { options: o@ }),
        command_model(Err(OptionsError::Invalid { error: e })) == (CommandModel::Invalid {
            what: e.what@,
            text: e.text@,
        }),
        command_model(Err(OptionsError::BadRange { start: n, end_exclusive: m }))
            == (CommandModel::BadRange { start: n, end_exclusive: m }),
{
}

} // verus!
