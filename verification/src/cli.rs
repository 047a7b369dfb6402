//! The command line: which command the arguments ask for, their options, and
//! the texts the commands print.
use vstd::prelude::*;
use vstd::utf8::{decode_utf8, encode_utf8, is_char_boundary};
use crate::text::{decimal, owned, push_decimal, push_str, str_eq};

verus! {

broadcast use vstd::seq_lib::group_seq_properties;

/// What the first argument asks for.
#[derive(Debug, Clone)]
pub enum Command {
    Version,
    VersionFull,
    Help,
    ListDevices,
    ListLanguages,
    /// Export the history, to the given file or a default one.
    Export(Option<String>),
    ResetHistory,
    /// Search the history (an empty query is a usage error).
    Search(String),
    Diagnose,
    ConfigCheck,
    ListModels,
    Stats,
    /// Transcribe this file when it exists, with an optional language.
    File { path: String, language: Option<String> },
    /// No argument: the tray application.
    Tray,
}

/// The views of a list of strings.
pub open spec fn views(v: Seq<String>) -> Seq<Seq<char>> {
    v.map_values(|s: String| s@)
}

/// The argument at `i`, if there is one.
pub open spec fn arg(args: Seq<Seq<char>>, i: int) -> Option<Seq<char>> {
    if 0 <= i < args.len() { Some(args[i]) } else { None }
}

/// The view of a parsed command, with its texts as values.
pub enum CommandView {
    Version,
    VersionFull,
    Help,
    ListDevices,
    ListLanguages,
    Export(Option<Seq<char>>),
    ResetHistory,
    Search(Seq<char>),
    Diagnose,
    ConfigCheck,
    ListModels,
    Stats,
    File(Seq<char>, Option<Seq<char>>),
    Tray,
}

pub open spec fn opt_view(o: Option<String>) -> Option<Seq<char>> {
    match o { Some(s) => Some(s@), None => None }
}

pub open spec fn command_view(c: Command) -> CommandView {
    match c {
        Command::Version => CommandView::Version,
        Command::VersionFull => CommandView::VersionFull,
        Command::Help => CommandView::Help,
        Command::ListDevices => CommandView::ListDevices,
        Command::ListLanguages => CommandView::ListLanguages,
        Command::Export(p) => CommandView::Export(opt_view(p)),
        Command::ResetHistory => CommandView::ResetHistory,
        Command::Search(q) => CommandView::Search(q@),
        Command::Diagnose => CommandView::Diagnose,
        Command::ConfigCheck => CommandView::ConfigCheck,
        Command::ListModels => CommandView::ListModels,
        Command::Stats => CommandView::Stats,
        Command::File { path, language } => CommandView::File(path@, opt_view(language)),
        Command::Tray => CommandView::Tray,
    }
}

/// The command the arguments ask for: by the first argument after the
/// program name; any other first argument is a file to transcribe,
/// `--language CODE` or `-l CODE` right after it choosing the language.
pub open spec fn parsed_command(args: Seq<Seq<char>>) -> CommandView {
    match arg(args, 1) {
        None => CommandView::Tray,
        Some(a) => if a == "--version"@ || a == "-v"@ {
            CommandView::Version
        } else if a == "--version-full"@ {
            CommandView::VersionFull
        } else if a == "--help"@ || a == "-h"@ {
            CommandView::Help
        } else if a == "--list-devices"@ {
            CommandView::ListDevices
        } else if a == "--list-languages"@ {
            CommandView::ListLanguages
        } else if a == "--export"@ {
            CommandView::Export(arg(args, 2))
        } else if a == "--reset-history"@ {
            CommandView::ResetHistory
        } else if a == "--search"@ {
            CommandView::Search(match arg(args, 2) { Some(q) => q, None => seq![] })
        } else if a == "--diagnose"@ {
            CommandView::Diagnose
        } else if a == "--config-check"@ {
            CommandView::ConfigCheck
        } else if a == "--list-models"@ {
            CommandView::ListModels
        } else if a == "--stats"@ {
            CommandView::Stats
        } else {
            let lang = match arg(args, 2) {
                Some(f) => if f == "--language"@ || f == "-l"@ { arg(args, 3) } else { None },
                None => None,
            };
            CommandView::File(a, lang)
        },
    }
}

fn arg_at(args: &Vec<String>, i: usize) -> (r: Option<String>)
    ensures opt_view(r) == arg(views(args@), i as int),
{
    if i < args.len() { Some(args[i].clone()) } else { None }
}

/// Reads the command from the arguments.
pub fn parse_command(args: &Vec<String>) -> (c: Command)
    ensures command_view(c) == parsed_command(views(args@)),
{
    if args.len() < 2 {
        return Command::Tray;
    }
    let a = args[1].as_str();
    if str_eq(a, "--version") || str_eq(a, "-v") {
        Command::Version
    } else if str_eq(a, "--version-full") {
        Command::VersionFull
    } else if str_eq(a, "--help") || str_eq(a, "-h") {
        Command::Help
    } else if str_eq(a, "--list-devices") {
        Command::ListDevices
    } else if str_eq(a, "--list-languages") {
        Command::ListLanguages
    } else if str_eq(a, "--export") {
        Command::Export(arg_at(args, 2))
    } else if str_eq(a, "--reset-history") {
        Command::ResetHistory
    } else if str_eq(a, "--search") {
        Command::Search(match arg_at(args, 2) { Some(q) => q, None => String::new() })
    } else if str_eq(a, "--diagnose") {
        Command::Diagnose
    } else if str_eq(a, "--config-check") {
        Command::ConfigCheck
    } else if str_eq(a, "--list-models") {
        Command::ListModels
    } else if str_eq(a, "--stats") {
        Command::Stats
    } else {
        let language = if args.len() > 3 && (str_eq(args[2].as_str(), "--language") || str_eq(args[2].as_str(), "-l")) {
            Some(args[3].clone())
        } else {
            None
        };
        Command::File { path: args[1].clone(), language }
    }
}

/// The value after the first occurrence of `long` or `short` that has one
/// (`args.windows(2).find(..)`).
pub open spec fn option_in(args: Seq<Seq<char>>, long: Seq<char>, short: Seq<char>) -> Option<Seq<char>>
    decreases args.len(),
{
    if args.len() < 2 {
        None
    } else if args[0] == long || args[0] == short {
        Some(args[1])
    } else {
        option_in(args.drop_first(), long, short)
    }
}

/// The value of an option such as `--output PATH` / `-o PATH`.
pub fn option_value(args: &Vec<String>, long: &str, short: &str) -> (r: Option<String>)
    ensures opt_view(r) == option_in(views(args@), long@, short@),
{
    let ghost a = views(args@);
    let mut i: usize = 0;
    assert(a.skip(0) == a);
    while args.len() > 1 && i < args.len() - 1
        invariant
            i <= args@.len(),
            a == views(args@),
            option_in(a.skip(i as int), long@, short@) == option_in(a, long@, short@),
        decreases args@.len() - i,
    {
        let ghost rest = a.skip(i as int);
        assert(rest[0] == args@[i as int]@);
        assert(rest[1] == args@[i + 1]@);
        if str_eq(args[i].as_str(), long) || str_eq(args[i].as_str(), short) {
            return Some(args[i + 1].clone());
        }
        assert(rest.drop_first() == a.skip(i + 1));
        i += 1;
    }
    None
}

/// Some argument equals one of the two names.
pub open spec fn has_flag(args: Seq<Seq<char>>, a: Seq<char>, b: Seq<char>) -> bool {
    exists|i: int| 0 <= i < args.len() && (args[i] == a || args[i] == b)
}

/// Whether an argument is `a` or `b`.
pub fn flag(args: &Vec<String>, a: &str, b: &str) -> (r: bool)
    ensures r == has_flag(views(args@), a@, b@),
{
    let ghost v = views(args@);
    let mut i: usize = 0;
    while i < args.len()
        invariant
            i <= args@.len(),
            v == views(args@),
            forall|k: int| 0 <= k < i ==> !(v[k] == a@ || v[k] == b@),
        decreases args@.len() - i,
    {
        if str_eq(args[i].as_str(), a) || str_eq(args[i].as_str(), b) {
            assert(v[i as int] == args@[i as int]@);
            return true;
        }
        i += 1;
    }
    false
}

/// How a file transcription reports: `--stdout` prints only the text and
/// saves nothing; `--quiet`/`-q` prints only the text; `--no-save` saves
/// nothing.
pub struct OutputMode {
    pub quiet: bool,
    pub no_save: bool,
}

pub fn output_mode(args: &Vec<String>) -> (m: OutputMode)
    ensures
        m.quiet == (has_flag(views(args@), "--stdout"@, "--stdout"@) || has_flag(views(args@), "--quiet"@, "-q"@)),
        m.no_save == (has_flag(views(args@), "--stdout"@, "--stdout"@) || has_flag(views(args@), "--no-save"@, "--no-save"@)),
{
    let stdout_only = flag(args, "--stdout", "--stdout");
    let quiet = stdout_only || flag(args, "--quiet", "-q");
    let no_save = stdout_only || flag(args, "--no-save", "--no-save");
    OutputMode { quiet, no_save }
}

/// The message after clearing the history of `count` entries.
pub fn reset_message(count: usize) -> (r: String)
    ensures
        r@ == "Historique effacé ("@ + decimal(count as nat) + " entrée"@ + (if count > 1 { "s"@ } else { ""@ })
            + " supprimée"@ + (if count > 1 { "s"@ } else { ""@ }) + ")."@,
{
    let mut r = owned("Historique effacé (");
    push_decimal(&mut r, count as u64);
    push_str(&mut r, " entrée");
    push_str(&mut r, if count > 1 { "s" } else { "" });
    push_str(&mut r, " supprimée");
    push_str(&mut r, if count > 1 { "s" } else { "" });
    push_str(&mut r, ").");
    r
}

/// A search result as listed: beyond 100 bytes, its first 97 bytes and "...".
pub open spec fn search_preview_text(t: Seq<char>) -> Seq<char> {
    if encode_utf8(t).len() > 100 { decode_utf8(encode_utf8(t).take(97)) + "..."@ } else { t }
}

/// The preview of a search result; byte 97 of a long text must start a
/// character (it is cut there).
pub fn search_preview(t: &str) -> (r: String)
    requires encode_utf8(t@).len() > 100 ==> is_char_boundary(encode_utf8(t@), 97),
    ensures r@ == search_preview_text(t@),
{
    if t.as_bytes().len() > 100 {
        let (head, _tail) = t.split_at(97);
        proof {
            vstd::utf8::encode_utf8_decode_utf8(head@);
            assert(encode_utf8(t@).subrange(0, 97) == encode_utf8(t@).take(97));
        }
        let mut r = owned(head);
        push_str(&mut r, "...");
        r
    } else {
        owned(t)
    }
}

/// The label of a log level at start-up.
pub fn log_level_label(level: &str) -> (r: String)
    ensures
        r@ == if level@ == "error"@ {
            "🔴 error"@
        } else if level@ == "warn"@ {
            "🟡 warn"@
        } else if level@ == "info"@ {
            "🟢 info"@
        } else if level@ == "debug"@ {
            "🔵 debug"@
        } else if level@ == "trace"@ {
            "⚪ trace"@
        } else {
            level@
        },
{
    if str_eq(level, "error") {
        owned("🔴 error")
    } else if str_eq(level, "warn") {
        owned("🟡 warn")
    } else if str_eq(level, "info") {
        owned("🟢 info")
    } else if str_eq(level, "debug") {
        owned("🔵 debug")
    } else if str_eq(level, "trace") {
        owned("⚪ trace")
    } else {
        owned(level)
    }
}


/// The language codes Whisper knows (ISO 639-1), in the order listed.
pub open spec fn whisper_languages() -> Seq<Seq<char>> {
    seq![
        "af"@,
        "ar"@,
        "hy"@,
        "az"@,
        "be"@,
        "bs"@,
        "bg"@,
        "ca"@,
        "zh"@,
        "hr"@,
        "cs"@,
        "da"@,
        "nl"@,
        "en"@,
        "et"@,
        "fi"@,
        "fr"@,
        "gl"@,
        "de"@,
        "el"@,
        "he"@,
        "hi"@,
        "hu"@,
        "is"@,
        "id"@,
        "it"@,
        "ja"@,
        "kn"@,
        "kk"@,
        "ko"@,
        "lv"@,
        "lt"@,
        "mk"@,
        "ms"@,
        "mr"@,
        "mi"@,
        "ne"@,
        "no"@,
        "fa"@,
        "pl"@,
        "pt"@,
        "ro"@,
        "ru"@,
        "sr"@,
        "sk"@,
        "sl"@,
        "es"@,
        "sw"@,
        "sv"@,
        "tl"@,
        "ta"@,
        "th"@,
        "tr"@,
        "uk"@,
        "ur"@,
        "vi"@,
        "cy"@
    ]
}

/// The language codes Whisper knows.
pub fn languages() -> (r: Vec<&'static str>)
    ensures r@.map_values(|s: &'static str| s@) == whisper_languages(),
{
    let r = vec![
        "af",
        "ar",
        "hy",
        "az",
        "be",
        "bs",
        "bg",
        "ca",
        "zh",
        "hr",
        "cs",
        "da",
        "nl",
        "en",
        "et",
        "fi",
        "fr",
        "gl",
        "de",
        "el",
        "he",
        "hi",
        "hu",
        "is",
        "id",
        "it",
        "ja",
        "kn",
        "kk",
        "ko",
        "lv",
        "lt",
        "mk",
        "ms",
        "mr",
        "mi",
        "ne",
        "no",
        "fa",
        "pl",
        "pt",
        "ro",
        "ru",
        "sr",
        "sk",
        "sl",
        "es",
        "sw",
        "sv",
        "tl",
        "ta",
        "th",
        "tr",
        "uk",
        "ur",
        "vi",
        "cy"
    ];
    assert(r@.map_values(|s: &'static str| s@) =~= whisper_languages());
    r
}

/// The lines of `--list-languages`: the codes eight by eight, two spaces
/// before each line and between codes.
pub open spec fn language_lines_of(codes: Seq<Seq<char>>) -> Seq<Seq<char>>
    decreases codes.len(),
{
    if codes.len() == 0 {
        seq![]
    } else if codes.len() <= 8 {
        seq!["  "@ + crate::text::join(codes, "  "@)]
    } else {
        seq!["  "@ + crate::text::join(codes.take(8), "  "@)] + language_lines_of(codes.skip(8))
    }
}

/// The lines listing the languages.
pub fn language_lines() -> (r: Vec<String>)
    ensures r@.map_values(|s: String| s@) == language_lines_of(whisper_languages()),
{
    let codes = languages();
    let ghost all = whisper_languages();
    let mut lines: Vec<String> = Vec::new();
    let mut k: usize = 0;
    while k < codes.len()
        invariant
            k <= codes@.len(),
            codes@.len() == all.len(),
            all == whisper_languages(),
            forall|j: int| 0 <= j < all.len() ==> (#[trigger] all[j]) == codes@[j]@,
            lines@.map_values(|s: String| s@) + language_lines_of(all.skip(k as int)) == language_lines_of(all),
        decreases codes@.len() - k,
    {
        let end = if codes.len() - k <= 8 { codes.len() } else { k + 8 };
        let ghost chunk = all.subrange(k as int, end as int);
        let mut line = owned("  ");
        let mut j: usize = k;
        while j < end
            invariant
                k <= j <= end,
                end <= codes@.len(),
                codes@.len() == all.len(),
                forall|i: int| 0 <= i < all.len() ==> (#[trigger] all[i]) == codes@[i]@,
                line@ == "  "@ + crate::text::join(all.subrange(k as int, j as int), "  "@),
            decreases end - j,
        {
            proof {
                let before = all.subrange(k as int, j as int);
                assert(all.subrange(k as int, j + 1) == before.push(all[j as int]));
                crate::text::lemma_join_push(before, "  "@, all[j as int]);
            }
            if j > k {
                push_str(&mut line, "  ");
            }
            push_str(&mut line, codes[j]);
            j += 1;
        }
        proof {
            let rest = all.skip(k as int);
            if rest.len() <= 8 {
                assert(chunk == rest);
            } else {
                assert(chunk == rest.take(8));
                assert(rest.skip(8) == all.skip(end as int));
            }
        }
        let ghost before = lines@.map_values(|s: String| s@);
        lines.push(line);
        assert(lines@.map_values(|s: String| s@) == before.push(line@));
        k = end;
    }
    assert(all.skip(codes@.len() as int) == Seq::<Seq<char>>::empty());
    assert(lines@.map_values(|s: String| s@) + Seq::<Seq<char>>::empty() == lines@.map_values(|s: String| s@));
    lines
}

} // verus!
