//! The `anime-notif` command line: argument parsing into a [`Command`],
//! the errors commands report, resolving a typed category name or prefix,
//! choosing a show among title matches, the config edits of
//! `categories add/rm` and `source add`, and what commands report.
//!
//! Per-show commands put the selector (numeric id, alias or title) first:
//! `anime-notif <selector> set category liked`.

use vstd::prelude::*;

use crate::config::{defines_category, CategoryDef, Config};
use crate::store::SeriesRow;
use crate::text::{
    append, debug_str, decimal, has_prefix, i64_to_string, joined, owned, parse_unsigned, signed_decimal,
    spec_debug_str, starts_with, str_eq, unsigned_text, usize_to_string,
};

verus! {

/// What to do to a single resolved show.
#[derive(Debug, Clone, PartialEq, Eq)]
pub enum ShowAction {
    /// `<selector> set <field> <value>`.
    SetField {
        /// `"category"` or `"alias"`.
        field: String,
        /// The new value.
        value: String,
    },
    /// `<selector> show`.
    Show,
    /// `<selector> rm`.
    Rm,
}

/// A fully parsed top-level command.
#[derive(Debug, Clone, PartialEq, Eq)]
pub enum Command {
    /// `serve`.
    Serve,
    /// `list`.
    List,
    /// `categories list`.
    CategoriesList,
    /// `categories add <name> [--notify] [--auto-download]`.
    CategoriesAdd {
        /// Category name.
        name: String,
        /// Whether new episodes notify.
        notify: bool,
        /// Whether new episodes auto-download.
        auto_download: bool,
    },
    /// `categories rm <name>`.
    CategoriesRm {
        /// Category name.
        name: String,
    },
    /// `source list`.
    SourceList,
    /// `source add <path-or-url>`.
    SourceAdd {
        /// Local path or URL to a source plugin file.
        location: String,
    },
    /// `source test <path-or-url>`.
    SourceTest {
        /// Local path or URL to a source plugin file.
        location: String,
    },
    /// `<selector> <action>`.
    Show {
        /// Numeric id, alias, or title.
        selector: String,
        /// What to do to the resolved show.
        action: ShowAction,
    },
    /// `logs [--follow|-f] [--lines|-n N] [--path]`.
    Logs {
        /// Keep printing new lines as they are appended.
        follow: bool,
        /// How many recent lines to print.
        lines: usize,
        /// Print the log file's path instead of its content.
        path_only: bool,
    },
}

/// Errors parsing arguments or executing a command.
#[derive(Debug, Clone)]
pub enum CliError {
    /// Arguments matched no known command shape.
    Usage(String),
    /// No show matches the given id/alias/name.
    NotFound(String),
    /// A name matched more than one show; nothing was changed.
    AmbiguousName(String, usize),
    /// `set <field>` named a field other than `category`/`alias`.
    UnknownField(String),
    /// `set category <value>` matched no defined category.
    UnknownCategory(String),
    /// `set category <value>` matched more than one category by prefix.
    AmbiguousCategory(String, String),
    /// A database operation failed (its message).
    Store(String),
    /// Loading or polling a source failed (its message).
    Fetch(String),
    /// Reading or writing `config.toml` failed.
    ConfigIo {
        /// Path that failed.
        path: String,
        /// The I/O error's message.
        message: String,
    },
    /// Serializing the config back to TOML failed (its message).
    ConfigSerialize(String),
    /// Reading or following the log file failed.
    LogIo {
        /// Path that failed.
        path: String,
        /// The I/O error's message.
        message: String,
    },
}

/// The text of an error.
pub open spec fn error_text(e: CliError) -> Seq<char> {
    match e {
        CliError::Usage(m) => "usage error: "@ + m@,
        CliError::NotFound(s) => "no show found matching "@ + spec_debug_str(s@),
        CliError::AmbiguousName(s, n) => spec_debug_str(s@) + " matches "@ + decimal(n as nat)
            + " shows with that name; use the numeric id or an alias instead"@,
        CliError::UnknownField(f) => "unknown field "@ + spec_debug_str(f@) + "; expected \"category\" or \"alias\""@,
        CliError::UnknownCategory(c) => "unknown category "@ + spec_debug_str(c@),
        CliError::AmbiguousCategory(c, list) => spec_debug_str(c@) + " matches multiple categories ("@ + list@
            + "); type more of the name to disambiguate"@,
        CliError::Store(m) => m@,
        CliError::Fetch(m) => m@,
        CliError::ConfigIo { path, message } => "failed to read/write config file "@ + path@ + ": "@ + message@,
        CliError::ConfigSerialize(m) => "failed to serialize config: "@ + m@,
        CliError::LogIo { path, message } => "failed to read log file "@ + path@ + ": "@ + message@,
    }
}

impl CliError {
    /// The error's text, as printed to the user.
    pub fn message(&self) -> (r: String)
        ensures
            r@ == error_text(*self),
    {
        match self {
            CliError::Usage(m) => {
                let mut out = owned("usage error: ");
                append(&mut out, m.as_str());
                out
            },
            CliError::NotFound(s) => {
                let mut out = owned("no show found matching ");
                let q = debug_str(s.as_str());
                append(&mut out, q.as_str());
                out
            },
            CliError::AmbiguousName(s, n) => {
                let mut out = debug_str(s.as_str());
                append(&mut out, " matches ");
                let k = usize_to_string(*n);
                append(&mut out, k.as_str());
                append(&mut out, " shows with that name; use the numeric id or an alias instead");
                out
            },
            CliError::UnknownField(f) => {
                let mut out = owned("unknown field ");
                let q = debug_str(f.as_str());
                append(&mut out, q.as_str());
                append(&mut out, "; expected \"category\" or \"alias\"");
                out
            },
            CliError::UnknownCategory(c) => {
                let mut out = owned("unknown category ");
                let q = debug_str(c.as_str());
                append(&mut out, q.as_str());
                out
            },
            CliError::AmbiguousCategory(c, list) => {
                let mut out = debug_str(c.as_str());
                append(&mut out, " matches multiple categories (");
                append(&mut out, list.as_str());
                append(&mut out, "); type more of the name to disambiguate");
                out
            },
            CliError::Store(m) => m.clone(),
            CliError::Fetch(m) => m.clone(),
            CliError::ConfigIo { path, message } => {
                let mut out = owned("failed to read/write config file ");
                append(&mut out, path.as_str());
                append(&mut out, ": ");
                append(&mut out, message.as_str());
                out
            },
            CliError::ConfigSerialize(m) => {
                let mut out = owned("failed to serialize config: ");
                append(&mut out, m.as_str());
                out
            },
            CliError::LogIo { path, message } => {
                let mut out = owned("failed to read log file ");
                append(&mut out, path.as_str());
                append(&mut out, ": ");
                append(&mut out, message.as_str());
                out
            },
        }
    }
}

/// A show action, as plain values.
pub enum ShowActionModel {
    /// `set <field> <value>`.
    SetField(Seq<char>, Seq<char>),
    /// `show`.
    Show,
    /// `rm`.
    Rm,
}

/// A command, as plain values.
pub enum CommandModel {
    /// `serve`.
    Serve,
    /// `list`.
    List,
    /// `categories list`.
    CategoriesList,
    /// `categories add`.
    CategoriesAdd(Seq<char>, bool, bool),
    /// `categories rm`.
    CategoriesRm(Seq<char>),
    /// `source list`.
    SourceList,
    /// `source add`.
    SourceAdd(Seq<char>),
    /// `source test`.
    SourceTest(Seq<char>),
    /// `<selector> <action>`.
    Show(Seq<char>, ShowActionModel),
    /// `logs`.
    Logs(bool, nat, bool),
}

/// The plain values of a command.
pub open spec fn command_view(c: Command) -> CommandModel {
    match c {
        Command::Serve => CommandModel::Serve,
        Command::List => CommandModel::List,
        Command::CategoriesList => CommandModel::CategoriesList,
        Command::CategoriesAdd { name, notify, auto_download } => CommandModel::CategoriesAdd(
            name@,
            notify,
            auto_download,
        ),
        Command::CategoriesRm { name } => CommandModel::CategoriesRm(name@),
        Command::SourceList => CommandModel::SourceList,
        Command::SourceAdd { location } => CommandModel::SourceAdd(location@),
        Command::SourceTest { location } => CommandModel::SourceTest(location@),
        Command::Show { selector, action } => CommandModel::Show(
            selector@,
            match action {
                ShowAction::SetField { field, value } => ShowActionModel::SetField(field@, value@),
                ShowAction::Show => ShowActionModel::Show,
                ShowAction::Rm => ShowActionModel::Rm,
            },
        ),
        Command::Logs { follow, lines, path_only } => CommandModel::Logs(follow, lines as nat, path_only),
    }
}

/// What the `logs` flags from `args` on make, given the flags so far.
pub open spec fn logs_spec(args: Seq<Seq<char>>, follow: bool, lines: nat, path_only: bool) -> Result<
    CommandModel,
    Seq<char>,
>
    decreases args.len(),
{
    if args.len() == 0 {
        Ok(CommandModel::Logs(follow, lines, path_only))
    } else {
        let a = args[0];
        if a == "--follow"@ || a == "-f"@ {
            logs_spec(args.drop_first(), true, lines, path_only)
        } else if a == "--path"@ {
            logs_spec(args.drop_first(), follow, lines, true)
        } else if a == "--lines"@ || a == "-n"@ {
            if args.len() < 2 {
                Err("logs --lines: expected a number"@)
            } else {
                match unsigned_text(args[1]) {
                    Some(v) => if v <= usize::MAX {
                        logs_spec(args.skip(2), follow, v as nat, path_only)
                    } else {
                        Err("logs --lines: invalid number "@ + spec_debug_str(args[1]))
                    },
                    None => Err("logs --lines: invalid number "@ + spec_debug_str(args[1])),
                }
            }
        } else {
            Err("logs: unknown flag "@ + spec_debug_str(a))
        }
    }
}

/// What the `categories add` flags from `args` on make.
pub open spec fn add_flags_spec(args: Seq<Seq<char>>, name: Seq<char>, notify: bool, auto: bool) -> Result<
    CommandModel,
    Seq<char>,
>
    decreases args.len(),
{
    if args.len() == 0 {
        Ok(CommandModel::CategoriesAdd(name, notify, auto))
    } else if args[0] == "--notify"@ {
        add_flags_spec(args.drop_first(), name, true, auto)
    } else if args[0] == "--auto-download"@ {
        add_flags_spec(args.drop_first(), name, notify, true)
    } else {
        Err("categories add: unknown flag "@ + spec_debug_str(args[0]))
    }
}

/// What `categories ...` makes of the arguments after `categories`.
pub open spec fn categories_spec(rest: Seq<Seq<char>>) -> Result<CommandModel, Seq<char>> {
    if rest.len() == 0 {
        Err("categories: expected list|add|rm"@)
    } else if rest[0] == "list"@ {
        Ok(CommandModel::CategoriesList)
    } else if rest[0] == "add"@ {
        if rest.len() < 2 {
            Err("categories add: expected <name>"@)
        } else {
            add_flags_spec(rest.skip(2), rest[1], false, false)
        }
    } else if rest[0] == "rm"@ {
        if rest.len() < 2 {
            Err("categories rm: expected <name>"@)
        } else {
            Ok(CommandModel::CategoriesRm(rest[1]))
        }
    } else {
        Err("categories: unknown subcommand "@ + spec_debug_str(rest[0]))
    }
}

/// What `source ...` makes of the arguments after `source`.
pub open spec fn source_spec(rest: Seq<Seq<char>>) -> Result<CommandModel, Seq<char>> {
    if rest.len() == 0 {
        Err("source: expected list|add|test"@)
    } else if rest[0] == "list"@ {
        Ok(CommandModel::SourceList)
    } else if rest[0] == "add"@ {
        if rest.len() < 2 {
            Err("source add: expected <path-or-url>"@)
        } else {
            Ok(CommandModel::SourceAdd(rest[1]))
        }
    } else if rest[0] == "test"@ {
        if rest.len() < 2 {
            Err("source test: expected <path-or-url>"@)
        } else {
            Ok(CommandModel::SourceTest(rest[1]))
        }
    } else {
        Err("source: unknown subcommand "@ + spec_debug_str(rest[0]))
    }
}

/// What `<selector> ...` makes of the arguments after the selector.
pub open spec fn show_spec(selector: Seq<char>, rest: Seq<Seq<char>>) -> Result<CommandModel, Seq<char>> {
    if rest.len() == 0 {
        Err(selector + ": expected set|show|rm"@)
    } else if rest[0] == "show"@ {
        Ok(CommandModel::Show(selector, ShowActionModel::Show))
    } else if rest[0] == "rm"@ {
        Ok(CommandModel::Show(selector, ShowActionModel::Rm))
    } else if rest[0] == "set"@ {
        if rest.len() < 2 {
            Err("set: expected <field>"@)
        } else if rest.len() < 3 {
            Err("set: expected <value>"@)
        } else {
            Ok(CommandModel::Show(selector, ShowActionModel::SetField(rest[1], rest[2])))
        }
    } else {
        Err(selector + ": unknown verb "@ + spec_debug_str(rest[0]))
    }
}

/// What the command line `args` (without the program name) parses to:
/// the command, or the usage message.
pub open spec fn parse_spec(args: Seq<Seq<char>>) -> Result<CommandModel, Seq<char>> {
    if args.len() == 0 {
        Err("no command given"@)
    } else {
        let first = args[0];
        let rest = args.drop_first();
        if first == "serve"@ {
            Ok(CommandModel::Serve)
        } else if first == "list"@ {
            Ok(CommandModel::List)
        } else if first == "categories"@ {
            categories_spec(rest)
        } else if first == "source"@ {
            source_spec(rest)
        } else if first == "logs"@ {
            logs_spec(rest, false, 200, false)
        } else {
            show_spec(first, rest)
        }
    }
}

/// The texts of a list of strings.
pub open spec fn arg_texts(args: Seq<String>) -> Seq<Seq<char>> {
    args.map_values(|a: String| a@)
}

/// A usage error with the given text.
fn usage(m: String) -> (r: CliError)
    ensures
        r == CliError::Usage(m),
{
    CliError::Usage(m)
}

/// A usage error: `<head><quoted value>`.
fn usage_quoting(head: &str, value: &str) -> (r: CliError)
    ensures
        r matches CliError::Usage(m) && m@ == head@ + spec_debug_str(value@),
{
    let mut m = owned(head);
    let q = debug_str(value);
    append(&mut m, q.as_str());
    CliError::Usage(m)
}

/// Parses the `logs` flags from position `from` on.
fn parse_logs(args: &Vec<String>, from: usize) -> (r: Result<Command, CliError>)
    requires
        from <= args@.len(),
    ensures
        match logs_spec(arg_texts(args@).skip(from as int), false, 200, false) {
            Ok(c) => r matches Ok(cmd) && command_view(cmd) == c,
            Err(m) => r matches Err(CliError::Usage(u)) && u@ == m,
        },
{
    let mut follow = false;
    let mut lines: usize = 200;
    let mut path_only = false;
    let mut i = from;
    let ghost all = arg_texts(args@);
    while i < args.len()
        invariant
            from <= i <= args@.len(),
            all == arg_texts(args@),
            logs_spec(all.skip(from as int), false, 200, false) == logs_spec(
                all.skip(i as int),
                follow,
                lines as nat,
                path_only,
            ),
        decreases args@.len() - i,
    {
        let a = args[i].as_str();
        proof {
            assert(all.skip(i as int)[0] == a@);
            assert(all.skip(i as int).drop_first() == all.skip(i + 1));
        }
        if str_eq(a, "--follow") || str_eq(a, "-f") {
            follow = true;
            i = i + 1;
        } else if str_eq(a, "--path") {
            path_only = true;
            i = i + 1;
        } else if str_eq(a, "--lines") || str_eq(a, "-n") {
            if i + 1 >= args.len() {
                return Err(usage(owned("logs --lines: expected a number")));
            }
            let value = args[i + 1].as_str();
            proof {
                assert(all.skip(i as int)[1] == value@);
                assert(all.skip(i as int).skip(2) == all.skip(i + 2));
            }
            match parse_unsigned(value, usize::MAX as u64) {
                Some(v) => {
                    lines = v as usize;
                },
                None => {
                    return Err(usage_quoting("logs --lines: invalid number ", value));
                },
            }
            i = i + 2;
        } else {
            return Err(usage_quoting("logs: unknown flag ", a));
        }
    }
    proof {
        assert(all.skip(i as int).len() == 0);
    }
    Ok(Command::Logs { follow, lines, path_only })
}

/// Parses `categories add <name> [flags]`, the flags from `from` on.
fn parse_add_flags(args: &Vec<String>, from: usize, name: String) -> (r: Result<Command, CliError>)
    requires
        from <= args@.len(),
    ensures
        match add_flags_spec(arg_texts(args@).skip(from as int), name@, false, false) {
            Ok(c) => r matches Ok(cmd) && command_view(cmd) == c,
            Err(m) => r matches Err(CliError::Usage(u)) && u@ == m,
        },
{
    let mut notify = false;
    let mut auto_download = false;
    let mut i = from;
    let ghost all = arg_texts(args@);
    while i < args.len()
        invariant
            from <= i <= args@.len(),
            all == arg_texts(args@),
            add_flags_spec(all.skip(from as int), name@, false, false) == add_flags_spec(
                all.skip(i as int),
                name@,
                notify,
                auto_download,
            ),
        decreases args@.len() - i,
    {
        let a = args[i].as_str();
        proof {
            assert(all.skip(i as int)[0] == a@);
            assert(all.skip(i as int).drop_first() == all.skip(i + 1));
        }
        if str_eq(a, "--notify") {
            notify = true;
        } else if str_eq(a, "--auto-download") {
            auto_download = true;
        } else {
            return Err(usage_quoting("categories add: unknown flag ", a));
        }
        i = i + 1;
    }
    proof {
        assert(all.skip(i as int).len() == 0);
    }
    Ok(Command::CategoriesAdd { name, notify, auto_download })
}

/// Parses CLI arguments (without the program name) into a [`Command`].
///
/// The first argument decides the shape: `serve`/`list` take no further
/// arguments; `categories`/`source` take a known subcommand; `logs` takes
/// flags; anything else is a show selector followed by `set <field>
/// <value>` / `show` / `rm`.
pub fn parse(args: &Vec<String>) -> (r: Result<Command, CliError>)
    ensures
        match parse_spec(arg_texts(args@)) {
            Ok(c) => r matches Ok(cmd) && command_view(cmd) == c,
            Err(m) => r matches Err(CliError::Usage(u)) && u@ == m,
        },
{
    let ghost all = arg_texts(args@);
    if args.len() == 0 {
        return Err(usage(owned("no command given")));
    }
    let first = args[0].as_str();
    proof {
        assert(all[0] == first@);
        assert(all.drop_first() =~= all.skip(1));
        if args@.len() >= 2 {
            assert(all.skip(1)[0] == args@[1]@);
        }
        if args@.len() >= 3 {
            assert(all.skip(1)[1] == args@[2]@);
            assert(all.skip(1).skip(2) =~= all.skip(3));
        }
        if args@.len() >= 4 {
            assert(all.skip(1)[2] == args@[3]@);
        }
    }
    if str_eq(first, "serve") {
        Ok(Command::Serve)
    } else if str_eq(first, "list") {
        Ok(Command::List)
    } else if str_eq(first, "categories") {
        if args.len() < 2 {
            return Err(usage(owned("categories: expected list|add|rm")));
        }
        let sub = args[1].as_str();
        if str_eq(sub, "list") {
            Ok(Command::CategoriesList)
        } else if str_eq(sub, "add") {
            if args.len() < 3 {
                return Err(usage(owned("categories add: expected <name>")));
            }
            parse_add_flags(args, 3, args[2].clone())
        } else if str_eq(sub, "rm") {
            if args.len() < 3 {
                return Err(usage(owned("categories rm: expected <name>")));
            }
            Ok(Command::CategoriesRm { name: args[2].clone() })
        } else {
            Err(usage_quoting("categories: unknown subcommand ", sub))
        }
    } else if str_eq(first, "source") {
        if args.len() < 2 {
            return Err(usage(owned("source: expected list|add|test")));
        }
        let sub = args[1].as_str();
        if str_eq(sub, "list") {
            Ok(Command::SourceList)
        } else if str_eq(sub, "add") {
            if args.len() < 3 {
                return Err(usage(owned("source add: expected <path-or-url>")));
            }
            Ok(Command::SourceAdd { location: args[2].clone() })
        } else if str_eq(sub, "test") {
            if args.len() < 3 {
                return Err(usage(owned("source test: expected <path-or-url>")));
            }
            Ok(Command::SourceTest { location: args[2].clone() })
        } else {
            Err(usage_quoting("source: unknown subcommand ", sub))
        }
    } else if str_eq(first, "logs") {
        parse_logs(args, 1)
    } else {
        if args.len() < 2 {
            let mut m = owned(first);
            append(&mut m, ": expected set|show|rm");
            return Err(usage(m));
        }
        let verb = args[1].as_str();
        let action = if str_eq(verb, "show") {
            ShowAction::Show
        } else if str_eq(verb, "rm") {
            ShowAction::Rm
        } else if str_eq(verb, "set") {
            if args.len() < 3 {
                return Err(usage(owned("set: expected <field>")));
            }
            if args.len() < 4 {
                return Err(usage(owned("set: expected <value>")));
            }
            ShowAction::SetField { field: args[2].clone(), value: args[3].clone() }
        } else {
            let mut m = owned(first);
            append(&mut m, ": unknown verb ");
            let q = debug_str(verb);
            append(&mut m, q.as_str());
            return Err(usage(m));
        };
        Ok(Command::Show { selector: owned(first), action })
    }
}

/// The names of the categories that start with `input`, in order.
pub open spec fn prefixed_names(categories: Seq<CategoryDef>, input: Seq<char>) -> Seq<Seq<char>>
    decreases categories.len(),
{
    if categories.len() == 0 {
        Seq::empty()
    } else {
        let rest = prefixed_names(categories.drop_last(), input);
        if has_prefix(categories.last().name@, input) {
            rest.push(categories.last().name@)
        } else {
            rest
        }
    }
}

/// Resolves `input` to a defined category's name: an exact match always
/// wins; otherwise the unique category whose name starts with `input`.
/// None: unknown category; several: ambiguous, listing them `, `-joined.
pub fn resolve_category<'a>(input: &str, categories: &'a [CategoryDef]) -> (r: Result<&'a str, CliError>)
    ensures
        defines_category(categories@, input@) ==> (r matches Ok(name) && name@ == input@),
        !defines_category(categories@, input@) ==> {
            let names = prefixed_names(categories@, input@);
            &&& names.len() == 0 ==> (r matches Err(CliError::UnknownCategory(s)) && s@ == input@)
            &&& names.len() == 1 ==> (r matches Ok(name) && name@ == names[0])
            &&& names.len() > 1 ==> (r matches Err(CliError::AmbiguousCategory(s, list)) && s@ == input@
                && list@ == joined(names, ", "@))
        },
{
    let mut j: usize = 0;
    while j < categories.len()
        invariant
            j <= categories@.len(),
            forall|m: int| 0 <= m < j ==> categories@[m].name@ != input@,
        decreases categories@.len() - j,
    {
        if str_eq(categories[j].name.as_str(), input) {
            return Ok(categories[j].name.as_str());
        }
        j = j + 1;
    }
    let mut first: Option<&'a str> = None;
    let mut count: usize = 0;
    let mut list = String::new();
    let mut k: usize = 0;
    while k < categories.len()
        invariant
            k <= categories@.len(),
            count as nat == prefixed_names(categories@.take(k as int), input@).len(),
            count <= k,
            count > 0 ==> (first matches Some(f) && f@ == prefixed_names(categories@.take(k as int), input@)[0]),
            list@ == joined(prefixed_names(categories@.take(k as int), input@), ", "@),
        decreases categories@.len() - k,
    {
        let name = categories[k].name.as_str();
        proof {
            assert(categories@.take(k + 1).drop_last() == categories@.take(k as int));
            assert(categories@.take(k + 1).last() == categories@[k as int]);
        }
        let ghost prev = prefixed_names(categories@.take(k as int), input@);
        if starts_with(name, input) {
            let ghost before = list@;
            if count > 0 {
                append(&mut list, ", ");
            } else {
                first = Some(name);
            }
            append(&mut list, name);
            count = count + 1;
            proof {
                let next = prefixed_names(categories@.take(k + 1), input@);
                assert(next == prev.push(name@));
                assert(next.drop_last() == prev);
                if prev.len() == 0 {
                    assert(list@ =~= name@);
                } else {
                    assert(list@ =~= before + ", "@ + name@);
                }
            }
        }
        k = k + 1;
    }
    proof {
        assert(categories@.take(k as int) == categories@);
    }
    if count == 0 {
        Err(CliError::UnknownCategory(owned(input)))
    } else if count == 1 {
        match first {
            Some(f) => Ok(f),
            None => Err(CliError::UnknownCategory(owned(input))),
        }
    } else {
        Err(CliError::AmbiguousCategory(owned(input), list))
    }
}

/// The edit `set <field> <value>` makes to a show.
#[derive(Debug, Clone, PartialEq, Eq)]
pub enum FieldEdit {
    /// Move the show to the named (defined) category.
    Category(String),
    /// Give the show this alias.
    Alias(String),
}

/// What `set <field> <value>` does: `category` moves the show to the
/// category `value` resolves to (as `resolve_category` resolves it),
/// `alias` sets the alias, and any other field is refused.
pub fn plan_set(field: &str, value: &str, categories: &[CategoryDef]) -> (r: Result<FieldEdit, CliError>)
    ensures
        field@ == "category"@ ==> {
            let names = prefixed_names(categories@, value@);
            &&& defines_category(categories@, value@) ==> (r matches Ok(FieldEdit::Category(n)) && n@
                == value@)
            &&& (!defines_category(categories@, value@) && names.len() == 0) ==> (r matches Err(
                CliError::UnknownCategory(s),
            ) && s@ == value@)
            &&& (!defines_category(categories@, value@) && names.len() == 1) ==> (r matches Ok(
                FieldEdit::Category(n),
            ) && n@ == names[0])
            &&& (!defines_category(categories@, value@) && names.len() > 1) ==> (r matches Err(
                CliError::AmbiguousCategory(s, list),
            ) && s@ == value@ && list@ == joined(names, ", "@))
        },
        field@ == "alias"@ ==> (r matches Ok(FieldEdit::Alias(a)) && a@ == value@),
        field@ != "category"@ && field@ != "alias"@ ==> (r matches Err(CliError::UnknownField(f)) && f@
            == field@),
{
    proof {
        reveal_strlit("category");
        reveal_strlit("alias");
        assert("category"@ != "alias"@) by {
            assert("category"@[0] != "alias"@[0]);
        }
    }
    if str_eq(field, "category") {
        match resolve_category(value, categories) {
            Ok(name) => Ok(FieldEdit::Category(owned(name))),
            Err(e) => Err(e),
        }
    } else if str_eq(field, "alias") {
        Ok(FieldEdit::Alias(owned(value)))
    } else {
        Err(CliError::UnknownField(owned(field)))
    }
}

/// The show a title selector resolves to among the shows with that title:
/// the only one; not found when there is none; ambiguous (with the count)
/// when there are several, so that nothing is changed.
pub fn choose_by_title(input: &str, matches: Vec<SeriesRow>) -> (r: Result<SeriesRow, CliError>)
    ensures
        matches@.len() == 0 ==> (r matches Err(CliError::NotFound(s)) && s@ == input@),
        matches@.len() == 1 ==> r == Ok::<SeriesRow, CliError>(matches@[0]),
        matches@.len() > 1 ==> (r matches Err(CliError::AmbiguousName(s, n)) && s@ == input@ && n
            == matches@.len()),
{
    let n = matches.len();
    if n == 0 {
        Err(CliError::NotFound(owned(input)))
    } else if n == 1 {
        let mut m = matches;
        Ok(m.remove(0))
    } else {
        Err(CliError::AmbiguousName(owned(input), n))
    }
}

/// The show a selector resolves to, given what the lookups found, tried
/// in order: the show with the selector as its numeric id, else the one
/// with it as alias, else the only show with it as title (not found when
/// there is none, ambiguous when there are several).
pub fn resolve_selected(
    input: &str,
    by_id: Option<SeriesRow>,
    by_alias: Option<SeriesRow>,
    by_title: Vec<SeriesRow>,
) -> (r: Result<SeriesRow, CliError>)
    ensures
        by_id matches Some(row) ==> r == Ok::<SeriesRow, CliError>(row),
        by_id is None && by_alias is Some ==> r == Ok::<SeriesRow, CliError>(by_alias->0),
        by_id is None && by_alias is None ==> {
            &&& by_title@.len() == 0 ==> (r matches Err(CliError::NotFound(s)) && s@ == input@)
            &&& by_title@.len() == 1 ==> r == Ok::<SeriesRow, CliError>(by_title@[0])
            &&& by_title@.len() > 1 ==> (r matches Err(CliError::AmbiguousName(s, n)) && s@ == input@ && n
                == by_title@.len())
        },
{
    if let Some(row) = by_id {
        return Ok(row);
    }
    if let Some(row) = by_alias {
        return Ok(row);
    }
    choose_by_title(input, by_title)
}

/// Adds a category definition to `config`. Refuses a name already
/// defined, leaving `config` as it was.
pub fn add_category(config: &mut Config, name: &str, notify: bool, auto_download: bool) -> (r: Result<(), CliError>)
    ensures
        defines_category(old(config).categories@, name@) ==> (r matches Err(CliError::Usage(m)) && m@
            == "category "@ + spec_debug_str(name@) + " already exists"@ && *final(config) == *old(config)),
        !defines_category(old(config).categories@, name@) ==> {
            &&& r is Ok
            &&& final(config).categories@.len() == old(config).categories@.len() + 1
            &&& final(config).categories@.drop_last() == old(config).categories@
            &&& final(config).categories@.last().name@ == name@
            &&& final(config).categories@.last().notify == notify
            &&& final(config).categories@.last().auto_download == auto_download
            &&& final(config).general == old(config).general
            &&& final(config).downloads == old(config).downloads
            &&& final(config).notifications == old(config).notifications
            &&& final(config).versions == old(config).versions
            &&& final(config).rules == old(config).rules
            &&& final(config).sources == old(config).sources
        },
{
    let mut j: usize = 0;
    while j < config.categories.len()
        invariant
            j <= config.categories@.len(),
            forall|m: int| 0 <= m < j ==> config.categories@[m].name@ != name@,
        decreases config.categories@.len() - j,
    {
        if str_eq(config.categories[j].name.as_str(), name) {
            return Err(usage_quoting_tail("category ", name, " already exists"));
        }
        j = j + 1;
    }
    config.categories.push(CategoryDef { name: owned(name), notify, auto_download });
    proof {
        assert(config.categories@.drop_last() == old(config).categories@);
    }
    Ok(())
}

/// A usage error: `<head><quoted value><tail>`.
fn usage_quoting_tail(head: &str, value: &str, tail: &str) -> (r: CliError)
    ensures
        r matches CliError::Usage(m) && m@ == head@ + spec_debug_str(value@) + tail@,
{
    let mut m = owned(head);
    let q = debug_str(value);
    append(&mut m, q.as_str());
    append(&mut m, tail);
    CliError::Usage(m)
}

/// The categories without those named `name`.
pub open spec fn without_category(categories: Seq<CategoryDef>, name: Seq<char>) -> Seq<CategoryDef> {
    categories.filter(|c: CategoryDef| c.name@ != name)
}

/// Removes the category `name` from `config`. Refuses an unknown name,
/// and removing the last remaining category (every show needs a category
/// to belong to); a refused edit leaves `config` as it was.
pub fn remove_category(config: &mut Config, name: &str) -> (r: Result<(), CliError>)
    ensures
        !defines_category(old(config).categories@, name@) ==> (r matches Err(CliError::Usage(m)) && m@
            == "no such category "@ + spec_debug_str(name@) && *final(config) == *old(config)),
        defines_category(old(config).categories@, name@) && without_category(old(config).categories@, name@).len()
            == 0 ==> (r matches Err(CliError::Usage(m)) && m@ == "cannot remove the last remaining category"@
            && *final(config) == *old(config)),
        defines_category(old(config).categories@, name@) && without_category(old(config).categories@, name@).len()
            > 0 ==> {
            &&& r is Ok
            &&& final(config).categories@ == without_category(old(config).categories@, name@)
            &&& final(config).general == old(config).general
            &&& final(config).downloads == old(config).downloads
            &&& final(config).notifications == old(config).notifications
            &&& final(config).versions == old(config).versions
            &&& final(config).rules == old(config).rules
            &&& final(config).sources == old(config).sources
        },
{
    let ghost keep = |c: CategoryDef| c.name@ != name@;
    let mut kept: Vec<CategoryDef> = Vec::new();
    let mut removed = false;
    let mut i: usize = 0;
    while i < config.categories.len()
        invariant
            i <= config.categories@.len(),
            keep == (|c: CategoryDef| c.name@ != name@),
            kept@ == config.categories@.take(i as int).filter(keep),
            removed == exists|m: int| 0 <= m < i && config.categories@[m].name@ == name@,
        decreases config.categories@.len() - i,
    {
        proof {
            reveal(Seq::filter);
            assert(config.categories@.take(i + 1).drop_last() == config.categories@.take(i as int));
            assert(config.categories@.take(i + 1).last() == config.categories@[i as int]);
        }
        let c = &config.categories[i];
        if str_eq(c.name.as_str(), name) {
            removed = true;
        } else {
            kept.push(CategoryDef { name: c.name.clone(), notify: c.notify, auto_download: c.auto_download });
            proof {
                assert(kept@.last() == config.categories@[i as int]);
            }
        }
        i = i + 1;
    }
    proof {
        assert(config.categories@.take(i as int) == config.categories@);
    }
    if !removed {
        return Err(usage_quoting("no such category ", name));
    }
    if kept.len() == 0 {
        return Err(usage(owned("cannot remove the last remaining category")));
    }
    config.categories = kept;
    Ok(())
}

/// Adds a source plugin location to `config`. Refuses one already
/// configured, leaving `config` as it was.
pub fn add_source(config: &mut Config, location: &str) -> (r: Result<(), CliError>)
    ensures
        (exists|m: int| 0 <= m < old(config).sources@.len() && old(config).sources@[m]@ == location@) ==> (r matches Err(
            CliError::Usage(msg),
        ) && msg@ == "source "@ + spec_debug_str(location@) + " is already configured"@ && *final(config)
            == *old(config)),
        !(exists|m: int| 0 <= m < old(config).sources@.len() && old(config).sources@[m]@ == location@) ==> {
            &&& r is Ok
            &&& final(config).sources@.drop_last() == old(config).sources@
            &&& final(config).sources@.len() == old(config).sources@.len() + 1
            &&& final(config).sources@.last()@ == location@
            &&& final(config).general == old(config).general
            &&& final(config).downloads == old(config).downloads
            &&& final(config).notifications == old(config).notifications
            &&& final(config).versions == old(config).versions
            &&& final(config).categories == old(config).categories
            &&& final(config).rules == old(config).rules
        },
{
    let mut j: usize = 0;
    while j < config.sources.len()
        invariant
            j <= config.sources@.len(),
            forall|m: int| 0 <= m < j ==> config.sources@[m]@ != location@,
        decreases config.sources@.len() - j,
    {
        if str_eq(config.sources[j].as_str(), location) {
            return Err(usage_quoting_tail("source ", location, " is already configured"));
        }
        j = j + 1;
    }
    config.sources.push(owned(location));
    proof {
        assert(config.sources@.drop_last() == old(config).sources@);
    }
    Ok(())
}


/// Filtering keeps a sequence whole when everything in it qualifies.
proof fn lemma_filter_all(s: Seq<CategoryDef>, p: spec_fn(CategoryDef) -> bool)
    requires
        forall|j: int| 0 <= j < s.len() ==> p(#[trigger] s[j]),
    ensures
        s.filter(p) == s,
    decreases s.len(),
{
    reveal(Seq::filter);
    if s.len() > 0 {
        assert forall|j: int| 0 <= j < s.drop_last().len() implies p(#[trigger] s.drop_last()[j]) by {
            assert(s.drop_last()[j] == s[j]);
        }
        lemma_filter_all(s.drop_last(), p);
        assert(s.drop_last().push(s.last()) =~= s);
    }
}

/// Adding a category and then removing it gives back the categories as
/// they were.
pub proof fn law_add_then_remove_category(categories: Seq<CategoryDef>, added: CategoryDef)
    requires
        !defines_category(categories, added.name@),
    ensures
        without_category(categories.push(added), added.name@) == categories,
{
    let p = |c: CategoryDef| c.name@ != added.name@;
    reveal(Seq::filter);
    assert(categories.push(added).drop_last() =~= categories);
    assert forall|j: int| 0 <= j < categories.len() implies p(#[trigger] categories[j]) by {}
    lemma_filter_all(categories, p);
}


/// What a command that changed or looked something up reports.
#[derive(Debug, Clone)]
pub enum Report {
    /// `categories add` succeeded.
    CategoryAdded {
        /// The new category.
        name: String,
        /// Whether it notifies.
        notify: bool,
        /// Whether it auto-downloads.
        auto_download: bool,
    },
    /// `categories rm` succeeded.
    CategoryRemoved {
        /// The removed category.
        name: String,
    },
    /// `source add` succeeded.
    SourceAdded {
        /// The added location.
        location: String,
    },
    /// `<selector> rm` succeeded.
    SeriesRemoved {
        /// The removed show's title.
        title: String,
        /// Its id.
        id: i64,
    },
    /// `logs` found no log file in the log directory.
    NoLogFile {
        /// The log directory.
        dir: String,
    },
    /// `logs --path`.
    LogDir {
        /// The log directory.
        dir: String,
    },
}

/// `true` or `false`, as `{}` prints a `bool`.
pub open spec fn bool_text(b: bool) -> Seq<char> {
    if b {
        "true"@
    } else {
        "false"@
    }
}

/// The text a report prints.
pub open spec fn report_text(r: Report) -> Seq<char> {
    match r {
        Report::CategoryAdded { name, notify, auto_download } => "Added category "@ + spec_debug_str(name@)
            + " (notify="@ + bool_text(notify) + ", auto_download="@ + bool_text(auto_download) + ")\n"@,
        Report::CategoryRemoved { name } => "Removed category "@ + spec_debug_str(name@) + "\n"@,
        Report::SourceAdded { location } => "Added source "@ + spec_debug_str(location@) + "\n"@,
        Report::SeriesRemoved { title, id } => "Removed "@ + spec_debug_str(title@) + " (id "@ + signed_decimal(
            id as int,
        ) + ")\n"@,
        Report::NoLogFile { dir } => "No log file found yet at "@ + dir@
            + " \u{2014} has `anime-notif serve` been run?\n"@,
        Report::LogDir { dir } => dir@ + "\n"@,
    }
}

fn bool_string(b: bool) -> (r: &'static str)
    ensures
        r@ == bool_text(b),
{
    if b {
        "true"
    } else {
        "false"
    }
}

impl Report {
    /// The text this report prints, newline-terminated.
    pub fn message(&self) -> (r: String)
        ensures
            r@ == report_text(*self),
    {
        match self {
            Report::CategoryAdded { name, notify, auto_download } => {
                let mut out = owned("Added category ");
                let q = debug_str(name.as_str());
                append(&mut out, q.as_str());
                append(&mut out, " (notify=");
                append(&mut out, bool_string(*notify));
                append(&mut out, ", auto_download=");
                append(&mut out, bool_string(*auto_download));
                append(&mut out, ")\n");
                out
            },
            Report::CategoryRemoved { name } => {
                let mut out = owned("Removed category ");
                let q = debug_str(name.as_str());
                append(&mut out, q.as_str());
                append(&mut out, "\n");
                out
            },
            Report::SourceAdded { location } => {
                let mut out = owned("Added source ");
                let q = debug_str(location.as_str());
                append(&mut out, q.as_str());
                append(&mut out, "\n");
                out
            },
            Report::SeriesRemoved { title, id } => {
                let mut out = owned("Removed ");
                let q = debug_str(title.as_str());
                append(&mut out, q.as_str());
                append(&mut out, " (id ");
                let n = i64_to_string(*id);
                append(&mut out, n.as_str());
                append(&mut out, ")\n");
                out
            },
            Report::NoLogFile { dir } => {
                let mut out = owned("No log file found yet at ");
                append(&mut out, dir.as_str());
                append(&mut out, " \u{2014} has `anime-notif serve` been run?\n");
                out
            },
            Report::LogDir { dir } => {
                let mut out = owned(dir.as_str());
                append(&mut out, "\n");
                out
            },
        }
    }
}

} // verus!
