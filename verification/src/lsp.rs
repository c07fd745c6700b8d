//! Language servers: which one speaks for which language, what is said to it,
//! and what its diagnostics mean.
//!
//! A server is spawned the first time a document of its language is opened,
//! told about that document, and asked for nothing: diagnostics arrive on
//! their own, each naming the file and perhaps the version it is about.
//! Processes and pipes are the program's business; the decisions are here.

use crate::framing::{frame, framed, message_at, what_is_framed_reads_back};
use crate::json::{
    json, jsons, member, parsed, sound, what_is_written_reads_back, written, Json, Value,
};
use crate::numbers::{a_whole_number_is_finite, double_nearest, truncated};
use crate::text::{after_prefix, chars_of, equal, owned, slice, string_of, strip_prefix};
use std::collections::{HashMap, HashSet};
use vstd::prelude::*;
use vstd::utf8::encode_utf8;

verus! {

// --- languages and their servers ---------------------------------------------

/// A language the editor recognises.
#[derive(Copy, Clone, Debug, PartialEq, Eq, Structural)]
pub enum Language {
    PlainText,
    Rust,
    Python,
    C,
    Cpp,
    CSharp,
    Go,
    JavaScript,
    TypeScript,
    Json,
    Yaml,
    Toml,
    Markdown,
    Shell,
}

/// The name of a language, as it is shown.
pub open spec fn language_name(language: Language) -> Seq<char> {
    match language {
        Language::PlainText => "Plain Text"@,
        Language::Rust => "Rust"@,
        Language::Python => "Python"@,
        Language::C => "C"@,
        Language::Cpp => "C++"@,
        Language::CSharp => "C#"@,
        Language::Go => "Go"@,
        Language::JavaScript => "JavaScript"@,
        Language::TypeScript => "TypeScript"@,
        Language::Json => "JSON"@,
        Language::Yaml => "YAML"@,
        Language::Toml => "TOML"@,
        Language::Markdown => "Markdown"@,
        Language::Shell => "Shell"@,
    }
}

/// Every language, in the order of their names.
pub open spec fn languages_by_name() -> Seq<Language> {
    seq![
        Language::C,
        Language::CSharp,
        Language::Cpp,
        Language::Go,
        Language::Json,
        Language::JavaScript,
        Language::Markdown,
        Language::PlainText,
        Language::Python,
        Language::Rust,
        Language::Shell,
        Language::Toml,
        Language::TypeScript,
        Language::Yaml,
    ]
}

impl Language {
    /// The name of the language, as it is shown.
    pub fn name(self) -> (r: &'static str)
        ensures
            r@ == language_name(self),
    {
        match self {
            Language::PlainText => "Plain Text",
            Language::Rust => "Rust",
            Language::Python => "Python",
            Language::C => "C",
            Language::Cpp => "C++",
            Language::CSharp => "C#",
            Language::Go => "Go",
            Language::JavaScript => "JavaScript",
            Language::TypeScript => "TypeScript",
            Language::Json => "JSON",
            Language::Yaml => "YAML",
            Language::Toml => "TOML",
            Language::Markdown => "Markdown",
            Language::Shell => "Shell",
        }
    }

    /// Every language, in the order of their names.
    pub fn all() -> (r: Vec<Language>)
        ensures
            r@ == languages_by_name(),
    {
        vec![
            Language::C,
            Language::CSharp,
            Language::Cpp,
            Language::Go,
            Language::Json,
            Language::JavaScript,
            Language::Markdown,
            Language::PlainText,
            Language::Python,
            Language::Rust,
            Language::Shell,
            Language::Toml,
            Language::TypeScript,
            Language::Yaml,
        ]
    }
}

/// Every language is listed.
pub proof fn every_language_is_listed(language: Language)
    ensures
        languages_by_name().contains(language),
{
    let all = languages_by_name();
    assert(all[0] == Language::C);
    assert(all[1] == Language::CSharp);
    assert(all[2] == Language::Cpp);
    assert(all[3] == Language::Go);
    assert(all[4] == Language::Json);
    assert(all[5] == Language::JavaScript);
    assert(all[6] == Language::Markdown);
    assert(all[7] == Language::PlainText);
    assert(all[8] == Language::Python);
    assert(all[9] == Language::Rust);
    assert(all[10] == Language::Shell);
    assert(all[11] == Language::Toml);
    assert(all[12] == Language::TypeScript);
    assert(all[13] == Language::Yaml);
}

/// One candidate language server: what to run, and what the protocol calls
/// files of this kind.
#[derive(Clone, Debug, PartialEq, Eq)]
pub struct ServerSpec {
    /// Executable name, looked up when it is spawned.
    pub binary: &'static str,
    /// Arguments needed to make the server speak over its standard streams.
    pub args: Vec<&'static str>,
    /// The protocol's name for the language, which is not always this
    /// editor's name for it.
    pub language_id: &'static str,
}

/// A server in contracts.
#[verifier::ext_equal]
pub struct Server {
    pub binary: Seq<char>,
    pub args: Seq<Seq<char>>,
    pub language_id: Seq<char>,
}

/// A server in contracts.
pub open spec fn server(binary: Seq<char>, args: Seq<Seq<char>>, language_id: Seq<char>) -> Server {
    Server { binary, args, language_id }
}

impl View for ServerSpec {
    type V = Server;

    open spec fn view(&self) -> Server {
        Server {
            binary: self.binary@,
            args: Seq::new(self.args@.len(), |i: int| self.args@[i]@),
            language_id: self.language_id@,
        }
    }
}

fn spec(binary: &'static str, args: Vec<&'static str>, language_id: &'static str) -> (r: ServerSpec)
    ensures
        r.binary == binary,
        r.args == args,
        r.language_id == language_id,
{
    ServerSpec { binary, args, language_id }
}

/// The servers that can speak for a language, in preference order.
pub open spec fn servers(language: Language) -> Seq<Server> {
    match language {
        Language::Rust => seq![server("rust-analyzer"@, Seq::empty(), "rust"@)],
        Language::Python => seq![
            server("pyright-langserver"@, seq!["--stdio"@], "python"@),
            server("pylsp"@, Seq::empty(), "python"@),
            server("jedi-language-server"@, Seq::empty(), "python"@),
        ],
        Language::C => seq![server("clangd"@, Seq::empty(), "c"@)],
        Language::Cpp => seq![server("clangd"@, Seq::empty(), "cpp"@)],
        Language::CSharp => seq![server("csharp-ls"@, Seq::empty(), "csharp"@)],
        Language::Go => seq![server("gopls"@, Seq::empty(), "go"@)],
        Language::JavaScript => seq![
            server("typescript-language-server"@, seq!["--stdio"@], "javascript"@),
            server("deno"@, seq!["lsp"@], "javascript"@),
        ],
        Language::TypeScript => seq![
            server("typescript-language-server"@, seq!["--stdio"@], "typescript"@),
            server("deno"@, seq!["lsp"@], "typescript"@),
        ],
        Language::Json => seq![server("vscode-json-language-server"@, seq!["--stdio"@], "json"@)],
        Language::Yaml => seq![server("yaml-language-server"@, seq!["--stdio"@], "yaml"@)],
        Language::Toml => seq![server("taplo"@, seq!["lsp"@, "stdio"@], "toml"@)],
        Language::Markdown => seq![server("marksman"@, seq!["server"@], "markdown"@)],
        Language::Shell => seq![server("bash-language-server"@, seq!["start"@], "shellscript"@)],
        Language::PlainText => Seq::empty(),
    }
}

/// What each of a row of servers is.
pub open spec fn server_views(specs: Seq<ServerSpec>) -> Seq<Server> {
    Seq::new(specs.len(), |i: int| specs[i]@)
}

/// The servers that can speak for each language, in preference order. None is
/// configured for plain text.
pub fn servers_for(language: Language) -> (r: Vec<ServerSpec>)
    ensures
        server_views(r@) == servers(language),
{
    let r = match language {
        Language::Rust => vec![spec("rust-analyzer", Vec::new(), "rust")],
        Language::Python => vec![
            spec("pyright-langserver", vec!["--stdio"], "python"),
            spec("pylsp", Vec::new(), "python"),
            spec("jedi-language-server", Vec::new(), "python"),
        ],
        Language::C => vec![spec("clangd", Vec::new(), "c")],
        Language::Cpp => vec![spec("clangd", Vec::new(), "cpp")],
        Language::CSharp => vec![spec("csharp-ls", Vec::new(), "csharp")],
        Language::Go => vec![spec("gopls", Vec::new(), "go")],
        Language::JavaScript => vec![
            spec("typescript-language-server", vec!["--stdio"], "javascript"),
            spec("deno", vec!["lsp"], "javascript"),
        ],
        Language::TypeScript => vec![
            spec("typescript-language-server", vec!["--stdio"], "typescript"),
            spec("deno", vec!["lsp"], "typescript"),
        ],
        Language::Json => vec![spec("vscode-json-language-server", vec!["--stdio"], "json")],
        Language::Yaml => vec![spec("yaml-language-server", vec!["--stdio"], "yaml")],
        Language::Toml => vec![spec("taplo", vec!["lsp", "stdio"], "toml")],
        Language::Markdown => vec![spec("marksman", vec!["server"], "markdown")],
        Language::Shell => vec![spec("bash-language-server", vec!["start"], "shellscript")],
        Language::PlainText => Vec::new(),
    };
    assert(server_views(r@) =~~= servers(language));
    r
}

/// The protocol's name for a language, if any server is configured for it.
pub open spec fn protocol_id(language: Language) -> Option<Seq<char>> {
    if servers(language).len() > 0 {
        Some(servers(language)[0].language_id)
    } else {
        None
    }
}

/// The `languageId` to report for a document, whichever candidate server ended
/// up running.
pub fn language_id_for(language: Language) -> (r: Option<&'static str>)
    ensures
        r is Some <==> protocol_id(language) is Some,
        r matches Some(id) ==> protocol_id(language) == Some(id@),
{
    let specs = servers_for(language);
    if specs.len() > 0 {
        assert(server_views(specs@)[0] == specs@[0]@);
        Some(specs[0].language_id)
    } else {
        None
    }
}

/// Every language but plain text has a server configured.
pub proof fn only_plain_text_has_no_server(language: Language)
    ensures
        servers(language).len() == 0 <==> language == Language::PlainText,
{
}

/// Every candidate for a language agrees on what the protocol calls it.
pub proof fn candidates_agree_on_the_language(language: Language, i: int)
    requires
        0 <= i < servers(language).len(),
    ensures
        protocol_id(language) == Some(servers(language)[i].language_id),
{
}

// --- paths on the wire -------------------------------------------------------

/// A text with one character put in place of another.
pub open spec fn replaced(s: Seq<char>, from: char, to: char) -> Seq<char> {
    Seq::new(
        s.len(),
        |i: int|
            if s[i] == from {
                to
            } else {
                s[i]
            },
    )
}

fn replace(v: &Vec<char>, from: char, to: char) -> (r: Vec<char>)
    ensures
        r@ == replaced(v@, from, to),
{
    let mut out: Vec<char> = Vec::new();
    for i in 0..v.len()
        invariant
            out@ == replaced(v@, from, to).take(i as int),
    {
        let c = v[i];
        out.push(if c == from { to } else { c });
        assert(replaced(v@, from, to).take(i + 1) =~= replaced(v@, from, to).take(i as int).push(
            replaced(v@, from, to)[i as int],
        ));
    }
    assert(replaced(v@, from, to).take(v.len() as int) =~= replaced(v@, from, to));
    out
}

/// The `file://` URI of a path, with forward slashes.
pub open spec fn uri(path: Seq<char>) -> Seq<char> {
    let slashed = replaced(path, '\\', '/');
    if slashed.len() > 0 && slashed[0] == '/' {
        "file://"@ + slashed
    } else {
        "file:///"@ + slashed
    }
}

/// A `file://` URI, which is what the protocol requires.
pub fn uri_for(path: &str) -> (r: String)
    ensures
        r@ == uri(path@),
{
    let slashed = replace(&chars_of(path), '\\', '/');
    let rooted = slashed.len() > 0 && slashed[0] == '/';
    let mut out = if rooted { owned("file://") } else { owned("file:///") };
    out.push_str(string_of(&slashed).as_str());
    out
}

/// Whether a path begins with a drive letter and a colon.
pub open spec fn has_drive(path: Seq<char>) -> bool {
    path.len() > 1 && (path[0] as u32) < 128 && path[1] == ':'
}

/// A text without the slash it begins with, if it begins with one.
pub open spec fn unrooted(s: Seq<char>) -> Seq<char> {
    if s.len() > 0 && s[0] == '/' {
        s.skip(1)
    } else {
        s
    }
}

/// The path that a `file://` URI names, with the platform's separator.
pub open spec fn uri_path(uri: Seq<char>, separator: char) -> Option<Seq<char>> {
    match strip_prefix(uri, "file://"@) {
        Some(rest) => {
            let name = unrooted(rest);
            Some(
                replaced(
                    if has_drive(name) {
                        name
                    } else {
                        seq!['/'] + name
                    },
                    '/',
                    separator,
                ),
            )
        },
        None => None,
    }
}

/// The path that a `file://` URI names, with the platform's separator; `None`
/// for any other URI.
pub fn path_from_uri(uri: &str, separator: char) -> (r: Option<String>)
    ensures
        r is Some <==> uri_path(uri@, separator) is Some,
        r matches Some(path) ==> uri_path(uri@, separator) == Some(path@),
{
    match after_prefix(&chars_of(uri), "file://") {
        Some(rest) => {
            let rooted = rest.len() > 0 && rest[0] == '/';
            let name = slice(&rest, if rooted { 1 } else { 0 }, rest.len());
            assert(name@ =~= unrooted(rest@));
            let drive = name.len() > 1 && (name[0] as u32) < 128 && name[1] == ':';
            if drive {
                return Some(string_of(&replace(&name, '/', separator)));
            }
            let mut full: Vec<char> = Vec::new();
            full.push('/');
            let mut tail = slice(&name, 0, name.len());
            full.append(&mut tail);
            assert(full@ =~= seq!['/'] + name@);
            Some(string_of(&replace(&full, '/', separator)))
        },
        None => None,
    }
}

/// An absolute path survives its URI: reading the URI back with forward
/// slashes gives the path with forward slashes. A path that a root slash and a
/// drive letter both begin is the one kind that does not.
pub proof fn an_absolute_path_survives_its_uri(path: Seq<char>)
    requires
        ({
            let slashed = replaced(path, '\\', '/');
            if slashed.len() > 0 && slashed[0] == '/' {
                !has_drive(slashed.skip(1))
            } else {
                has_drive(slashed)
            }
        }),
    ensures
        uri_path(uri(path), '/') == Some(replaced(path, '\\', '/')),
{
    reveal_strlit("file://");
    reveal_strlit("file:///");
    let slashed = replaced(path, '\\', '/');
    let full = uri(path);
    if slashed.len() > 0 && slashed[0] == '/' {
        assert(full.subrange(0, 7) =~= "file://"@);
        assert(full.skip(7) =~= slashed);
        assert(seq!['/'] + slashed.skip(1) =~= slashed);
        assert(replaced(slashed, '/', '/') =~= slashed);
    } else {
        assert(full.subrange(0, 7) =~= "file://"@);
        assert(full.skip(7) =~= seq!['/'] + slashed);
        assert((seq!['/'] + slashed).skip(1) =~= slashed);
        assert(replaced(slashed, '/', '/') =~= slashed);
    }
}

// --- diagnostics -------------------------------------------------------------

/// How serious a diagnostic is.
#[derive(Copy, Clone, Debug, PartialEq, Eq, Structural)]
pub enum DiagnosticSeverity {
    Error,
    Warning,
    Information,
    Hint,
}

/// One problem in a document. `T` is how the message is held.
#[derive(Clone, Debug, PartialEq, Eq)]
pub struct Diagnostic<T> {
    /// Line, counted from 0.
    pub line: usize,
    pub start_column_chars: usize,
    pub end_column_chars: usize,
    pub severity: DiagnosticSeverity,
    pub message: T,
}

/// What a server published for one file.
#[derive(Clone, Debug, PartialEq, Eq)]
pub struct Published {
    pub path: String,
    /// The document version these are for, when the server echoes one.
    pub version: Option<u64>,
    pub diagnostics: Vec<Diagnostic<String>>,
}

/// What a server published for one file, in contracts.
#[verifier::ext_equal]
pub struct Publication {
    pub path: Seq<char>,
    pub version: Option<u64>,
    pub diagnostics: Seq<Diagnostic<Seq<char>>>,
}

/// A diagnostic with its message as characters.
pub open spec fn diagnostic_view(d: Diagnostic<String>) -> Diagnostic<Seq<char>> {
    Diagnostic {
        line: d.line,
        start_column_chars: d.start_column_chars,
        end_column_chars: d.end_column_chars,
        severity: d.severity,
        message: d.message@,
    }
}

/// Diagnostics with their messages as characters.
pub open spec fn diagnostic_views(ds: Seq<Diagnostic<String>>) -> Seq<Diagnostic<Seq<char>>> {
    Seq::new(ds.len(), |i: int| diagnostic_view(ds[i]))
}

impl View for Published {
    type V = Publication;

    open spec fn view(&self) -> Publication {
        Publication {
            path: self.path@,
            version: self.version,
            diagnostics: diagnostic_views(self.diagnostics@),
        }
    }
}

/// What the protocol's number for a severity means: anything but 1, 2 and 3 is
/// a hint.
pub open spec fn severity(code: Option<u64>) -> DiagnosticSeverity {
    match code {
        Some(1) => DiagnosticSeverity::Error,
        Some(2) => DiagnosticSeverity::Warning,
        Some(3) => DiagnosticSeverity::Information,
        _ => DiagnosticSeverity::Hint,
    }
}

/// What the protocol's number for a severity means.
pub fn severity_from(code: Option<u64>) -> (r: DiagnosticSeverity)
    ensures
        r == severity(code),
{
    match code {
        Some(1) => DiagnosticSeverity::Error,
        Some(2) => DiagnosticSeverity::Warning,
        Some(3) => DiagnosticSeverity::Information,
        _ => DiagnosticSeverity::Hint,
    }
}

/// What a value that may be there is.
pub open spec fn opt(value: Option<&Value>) -> Option<Json> {
    match value {
        Some(v) => Some(json(*v)),
        None => None,
    }
}

/// What a value that may be there holds under a key.
pub open spec fn field(value: Option<Json>, key: Seq<char>) -> Option<Json> {
    match value {
        Some(v) => member(v, key),
        None => None,
    }
}

/// The whole number a value may be.
pub open spec fn whole_number(value: Option<Json>, top: int) -> Option<int> {
    match value {
        Some(Json::Number(d)) => Some(truncated(d, top)),
        _ => None,
    }
}

/// The `usize` a value may be.
pub open spec fn count_in(value: Option<Json>) -> Option<usize> {
    match whole_number(value, usize::MAX as int) {
        Some(n) => Some(n as usize),
        None => None,
    }
}

/// The `u64` a value may be.
pub open spec fn version_in(value: Option<Json>) -> Option<u64> {
    match whole_number(value, u64::MAX as int) {
        Some(n) => Some(n as u64),
        None => None,
    }
}

/// The text a value may be.
pub open spec fn text_in(value: Option<Json>) -> Option<Seq<char>> {
    match value {
        Some(Json::Text(text)) => Some(text),
        _ => None,
    }
}

fn get_in<'a>(value: Option<&'a Value>, key: &str) -> (r: Option<&'a Value>)
    ensures
        opt(r) == field(opt(value), key@),
{
    match value {
        Some(v) => v.get(key),
        None => None,
    }
}

fn usize_in(value: Option<&Value>) -> (r: Option<usize>)
    ensures
        r == count_in(opt(value)),
{
    match value {
        Some(v) => v.as_usize(),
        None => None,
    }
}

fn u64_in(value: Option<&Value>) -> (r: Option<u64>)
    ensures
        r == version_in(opt(value)),
{
    match value {
        Some(v) => v.as_u64(),
        None => None,
    }
}

fn str_in<'a>(value: Option<&'a Value>) -> (r: Option<&'a str>)
    ensures
        r is Some <==> text_in(opt(value)) is Some,
        r matches Some(text) ==> text_in(opt(value)) == Some(text@),
{
    match value {
        Some(v) => v.as_str(),
        None => None,
    }
}

/// The diagnostic that one published item is, or `None` when it lacks a part.
pub open spec fn diagnostic_in(item: Json) -> Option<Diagnostic<Seq<char>>> {
    let range = field(Some(item), "range"@);
    let start = field(range, "start"@);
    match (
        count_in(field(start, "line"@)),
        count_in(field(start, "character"@)),
        count_in(field(field(range, "end"@), "character"@)),
        text_in(field(Some(item), "message"@)),
    ) {
        (Some(line), Some(from), Some(to), Some(message)) => Some(
            Diagnostic {
                line,
                start_column_chars: from,
                end_column_chars: to,
                severity: severity(version_in(field(Some(item), "severity"@))),
                message,
            },
        ),
        _ => None,
    }
}

/// The diagnostics among the first `n` published items, in their order.
pub open spec fn diagnostics_in(items: Seq<Json>, n: int) -> Seq<Diagnostic<Seq<char>>>
    decreases n,
{
    if n <= 0 {
        Seq::empty()
    } else {
        let before = diagnostics_in(items, n - 1);
        match diagnostic_in(items[n - 1]) {
            Some(d) => before.push(d),
            None => before,
        }
    }
}

/// The items of a value that may be an array.
pub open spec fn items_in(value: Json) -> Seq<Json> {
    match value {
        Json::Array(items) => items,
        _ => Seq::empty(),
    }
}

/// What a message publishes: `None` unless it is a diagnostics notification
/// that names a file and carries a list.
pub open spec fn published(message: Json, separator: char) -> Option<Publication> {
    let params = field(Some(message), "params"@);
    let list = field(params, "diagnostics"@);
    let path = match text_in(field(params, "uri"@)) {
        Some(uri) => uri_path(uri, separator),
        None => None,
    };
    if text_in(field(Some(message), "method"@)) == Some("textDocument/publishDiagnostics"@) && path
        is Some && list is Some {
        Some(
            Publication {
                path: path->0,
                version: version_in(field(params, "version"@)),
                diagnostics: diagnostics_in(items_in(list->0), items_in(list->0).len() as int),
            },
        )
    } else {
        None
    }
}

fn read_diagnostic(item: &Value) -> (r: Option<Diagnostic<String>>)
    ensures
        match r {
            Some(d) => diagnostic_in(json(*item)) == Some(diagnostic_view(d)),
            None => diagnostic_in(json(*item)) is None,
        },
{
    let range = get_in(Some(item), "range");
    let start = get_in(range, "start");
    let line = usize_in(get_in(start, "line"));
    let from = usize_in(get_in(start, "character"));
    let to = usize_in(get_in(get_in(range, "end"), "character"));
    let message = str_in(get_in(Some(item), "message"));
    match (line, from, to, message) {
        (Some(line), Some(from), Some(to), Some(message)) => Some(
            Diagnostic {
                line,
                start_column_chars: from,
                end_column_chars: to,
                severity: severity_from(u64_in(get_in(Some(item), "severity"))),
                message: owned(message),
            },
        ),
        _ => None,
    }
}

/// Reads one `publishDiagnostics` notification; `None` for any other message.
pub fn parse_publish_diagnostics(value: &Value, separator: char) -> (r: Option<Published>)
    ensures
        match r {
            Some(p) => published(json(*value), separator) == Some(p@),
            None => published(json(*value), separator) is None,
        },
{
    let method = match str_in(get_in(Some(value), "method")) {
        Some(method) => method,
        None => {
            return None;
        },
    };
    if !equal(method, "textDocument/publishDiagnostics") {
        return None;
    }
    let params = get_in(Some(value), "params");
    let path = match str_in(get_in(params, "uri")) {
        Some(uri) => path_from_uri(uri, separator),
        None => None,
    };
    let path = match path {
        Some(path) => path,
        None => {
            return None;
        },
    };
    let version = u64_in(get_in(params, "version"));
    let list = match get_in(params, "diagnostics") {
        Some(list) => list,
        None => {
            return None;
        },
    };
    let mut diagnostics: Vec<Diagnostic<String>> = Vec::new();
    let ghost items = items_in(json(*list));
    assert(diagnostic_views(diagnostics@) =~= diagnostics_in(items, 0));
    match list.as_array() {
        Some(array) => {
            for i in 0..array.len()
                invariant
                    items == jsons(array@),
                    diagnostic_views(diagnostics@) == diagnostics_in(items, i as int),
            {
                let ghost before = diagnostics@;
                assert(items[i as int] == json(array@[i as int]));
                if let Some(d) = read_diagnostic(&array[i]) {
                    diagnostics.push(d);
                    assert(diagnostic_views(diagnostics@) =~= diagnostic_views(before).push(
                        diagnostic_view(d),
                    ));
                }
            }
        },
        None => {},
    }
    Some(Published { path, version, diagnostics })
}

// --- what is said to a server ------------------------------------------------

/// An object in contracts.
pub open spec fn pairs_view(pairs: Seq<(&'static str, Value)>) -> Seq<(Seq<char>, Json)> {
    Seq::new(pairs.len(), |i: int| (pairs[i].0@, json(pairs[i].1)))
}

/// A request.
pub open spec fn request(id: nat, method: Seq<char>, params: Json) -> Json {
    Json::Object(
        seq![
            ("jsonrpc"@, Json::Text("2.0"@)),
            ("id"@, Json::Number(double_nearest(id))),
            ("method"@, Json::Text(method)),
            ("params"@, params),
        ],
    )
}

/// A notification.
pub open spec fn notification(method: Seq<char>, params: Json) -> Json {
    Json::Object(
        seq![
            ("jsonrpc"@, Json::Text("2.0"@)),
            ("method"@, Json::Text(method)),
            ("params"@, params),
        ],
    )
}

/// What `initialize` says: where the project lies, and that diagnostics are
/// all that is wanted.
pub open spec fn initialize_params(root: Seq<char>) -> Json {
    Json::Object(
        seq![
            ("processId"@, Json::Null),
            ("rootUri"@, Json::Text(uri(root))),
            (
                "capabilities"@,
                Json::Object(
                    seq![
                        (
                            "textDocument"@,
                            Json::Object(
                                seq![
                                    (
                                        "publishDiagnostics"@,
                                        Json::Object(
                                            seq![("relatedInformation"@, Json::Bool(false))],
                                        ),
                                    ),
                                ],
                            ),
                        ),
                    ],
                ),
            ),
        ],
    )
}

/// What `textDocument/didOpen` says.
pub open spec fn opened_params(path: Seq<char>, language_id: Seq<char>, text: Seq<char>) -> Json {
    Json::Object(
        seq![
            (
                "textDocument"@,
                Json::Object(
                    seq![
                        ("uri"@, Json::Text(uri(path))),
                        ("languageId"@, Json::Text(language_id)),
                        ("version"@, Json::Number(double_nearest(1))),
                        ("text"@, Json::Text(text)),
                    ],
                ),
            ),
        ],
    )
}

/// What `textDocument/didChange` says: the whole text anew.
pub open spec fn changed_params(path: Seq<char>, version: nat, text: Seq<char>) -> Json {
    Json::Object(
        seq![
            (
                "textDocument"@,
                Json::Object(
                    seq![
                        ("uri"@, Json::Text(uri(path))),
                        ("version"@, Json::Number(double_nearest(version))),
                    ],
                ),
            ),
            (
                "contentChanges"@,
                Json::Array(seq![Json::Object(seq![("text"@, Json::Text(text))])]),
            ),
        ],
    )
}

fn object1(key: &'static str, value: Value) -> (r: Value)
    ensures
        json(r) == Json::Object(seq![(key@, json(value))]),
{
    let pairs = vec![(key, value)];
    assert(pairs_view(pairs@) =~= seq![(key@, json(value))]);
    Value::object(pairs)
}

fn make_request(id: u64, method: &str, params: Value) -> (r: Value)
    ensures
        json(r) == request(id as nat, method@, json(params)),
{
    let pairs = vec![
        ("jsonrpc", Value::text("2.0")),
        ("id", Value::integer(id)),
        ("method", Value::text(method)),
        ("params", params),
    ];
    assert(pairs_view(pairs@) =~= request(id as nat, method@, json(params))->Object_0);
    Value::object(pairs)
}

fn make_notification(method: &str, params: Value) -> (r: Value)
    ensures
        json(r) == notification(method@, json(params)),
{
    let pairs = vec![
        ("jsonrpc", Value::text("2.0")),
        ("method", Value::text(method)),
        ("params", params),
    ];
    assert(pairs_view(pairs@) =~= notification(method@, json(params))->Object_0);
    Value::object(pairs)
}

/// A message as it goes down the pipe.
pub open spec fn wire(message: Json) -> Seq<char> {
    framed(written(message))
}

fn to_wire(message: &Value) -> (r: String)
    ensures
        r@ == wire(json(*message)),
{
    frame(message.to_json_string().as_str())
}

/// The talking end of one language server: what to send it next.
#[derive(Clone, Debug)]
pub struct LspClient {
    next_id: u64,
}

impl LspClient {
    /// The id that the next request gets.
    pub closed spec fn next(&self) -> nat {
        self.next_id as nat
    }

    /// Nothing said yet.
    pub fn new() -> (r: Self)
        ensures
            r.next() == 1,
    {
        LspClient { next_id: 1 }
    }

    /// Whether another id can be given out.
    pub fn can_send(&self) -> (r: bool)
        ensures
            r == (self.next() < u64::MAX),
    {
        self.next_id < u64::MAX
    }

    /// The request that opens a session. `initialized` follows it at once:
    /// nothing here depends on the answer.
    pub fn initialize(&mut self, root: &str) -> (r: String)
        requires
            old(self).next() < u64::MAX,
        ensures
            r@ == wire(request(old(self).next(), "initialize"@, initialize_params(root@))),
            final(self).next() == old(self).next() + 1,
    {
        let id = self.next_id;
        self.next_id = id + 1;
        let publish = object1(
            "publishDiagnostics",
            object1("relatedInformation", Value::Bool(false)),
        );
        let capabilities = object1("textDocument", publish);
        let pairs = vec![
            ("processId", Value::Null),
            ("rootUri", Value::Text(uri_for(root))),
            ("capabilities", capabilities),
        ];
        assert(pairs_view(pairs@) =~= initialize_params(root@)->Object_0);
        to_wire(&make_request(id, "initialize", Value::object(pairs)))
    }

    /// The notification that a session is open.
    pub fn initialized(&self) -> (r: String)
        ensures
            r@ == wire(notification("initialized"@, Json::Object(Seq::empty()))),
    {
        let pairs: Vec<(&'static str, Value)> = Vec::new();
        assert(pairs_view(pairs@) =~= Seq::<(Seq<char>, Json)>::empty());
        to_wire(&make_notification("initialized", Value::object(pairs)))
    }

    /// What to send when a document was opened: nothing for a language without
    /// a server.
    pub fn notify_opened(&self, path: &str, language: Language, text: &str) -> (r: Option<String>)
        ensures
            match protocol_id(language) {
                Some(id) => r matches Some(s) && s@ == wire(
                    notification("textDocument/didOpen"@, opened_params(path@, id, text@)),
                ),
                None => r is None,
            },
    {
        match language_id_for(language) {
            Some(id) => {
                let pairs = vec![
                    ("uri", Value::Text(uri_for(path))),
                    ("languageId", Value::text(id)),
                    ("version", Value::integer(1)),
                    ("text", Value::text(text)),
                ];
                assert(Json::Object(pairs_view(pairs@)) =~= opened_params(
                    path@,
                    id@,
                    text@,
                )->Object_0[0].1) by {
                    assert(pairs_view(pairs@) =~= opened_params(
                        path@,
                        id@,
                        text@,
                    )->Object_0[0].1->Object_0);
                }
                let params = object1("textDocument", Value::object(pairs));
                Some(to_wire(&make_notification("textDocument/didOpen", params)))
            },
            None => None,
        }
    }

    /// What to send when a document was saved: its whole text under the next
    /// version. Once a save rather than once a keystroke.
    pub fn notify_saved(&mut self, path: &str, text: &str) -> (r: String)
        requires
            old(self).next() < u64::MAX,
        ensures
            final(self).next() == old(self).next() + 1,
            r@ == wire(
                notification(
                    "textDocument/didChange"@,
                    changed_params(path@, old(self).next() + 1, text@),
                ),
            ),
    {
        self.next_id = self.next_id + 1;
        let version = self.next_id;
        let named = vec![
            ("uri", Value::Text(uri_for(path))),
            ("version", Value::integer(version)),
        ];
        let ghost want = changed_params(path@, version as nat, text@);
        assert(pairs_view(named@) =~= want->Object_0[0].1->Object_0);
        let changes = vec![object1("text", Value::text(text))];
        assert(jsons(changes@) =~= want->Object_0[1].1->Array_0);
        let pairs = vec![
            ("textDocument", Value::object(named)),
            ("contentChanges", array(changes)),
        ];
        assert(pairs_view(pairs@) =~= want->Object_0);
        to_wire(&make_notification("textDocument/didChange", Value::object(pairs)))
    }
}

fn array(items: Vec<Value>) -> (r: Value)
    ensures
        json(r) == Json::Array(jsons(items@)),
{
    proof {
        crate::json::json_of_array(items);
    }
    Value::Array(items)
}

/// A message that is sent reads back: framing finds where it ends, whatever
/// comes before it and follows it on the pipe, and parsing finds the message
/// that was sent.
pub proof fn a_sent_message_reads_back(before: Seq<u8>, message: Json, rest: Seq<u8>)
    requires
        sound(message),
        encode_utf8(written(message)).len() <= usize::MAX,
    ensures
        ({
            let bytes = encode_utf8(wire(message));
            message_at(before + bytes + rest, before.len() as int) matches Some((body, end)) && end
                == before.len() + bytes.len() && parsed(body) == Some(message)
        }),
{
    what_is_framed_reads_back(before, written(message), rest);
    what_is_written_reads_back(message);
}

/// Everything that is ever sent can be read back: every number in it is
/// finite.
pub proof fn whatever_is_sent_is_sound(
    root: Seq<char>,
    path: Seq<char>,
    language_id: Seq<char>,
    text: Seq<char>,
    id: u64,
)
    ensures
        sound(request(id as nat, "initialize"@, initialize_params(root))),
        sound(notification("initialized"@, Json::Object(Seq::empty()))),
        sound(notification("textDocument/didOpen"@, opened_params(path, language_id, text))),
        sound(notification("textDocument/didChange"@, changed_params(path, id as nat, text))),
{
    reveal_with_fuel(sound, 8);
    a_whole_number_is_finite(id as nat);
    a_whole_number_is_finite(1);
}

// --- which servers run -------------------------------------------------------

/// How many language servers may run at once: a language server is by far the
/// largest process an editor causes to exist.
pub const MAX_SERVERS: usize = 4;

/// What to do for a document of some language.
#[derive(Copy, Clone, Debug, PartialEq, Eq, Structural)]
pub enum ServerPlan {
    /// No server for it: none is configured, none is installed, or as many run
    /// as may.
    Without,
    /// Its server is running.
    Reuse,
    /// Start one: try each candidate in turn, and report which way it went.
    Start,
}

/// One language server per language, started on first use.
#[derive(Clone, Debug)]
pub struct LspManager {
    clients: Vec<Language>,
    /// Languages whose servers are configured but not installed, so a missing
    /// one is discovered once rather than at every document.
    unavailable: Vec<Language>,
}

/// What to do for a document of a language, given the servers that run and
/// those known to be missing.
pub open spec fn plan(
    running: Seq<Language>,
    missing: Seq<Language>,
    language: Language,
) -> ServerPlan {
    if servers(language).len() == 0 || missing.contains(language) {
        ServerPlan::Without
    } else if running.contains(language) {
        ServerPlan::Reuse
    } else if running.len() >= MAX_SERVERS {
        ServerPlan::Without
    } else {
        ServerPlan::Start
    }
}

/// The languages that are not among `dead`, in their order.
pub open spec fn survivors(running: Seq<Language>, dead: Seq<Language>) -> Seq<Language>
    decreases running.len(),
{
    if running.len() == 0 {
        Seq::empty()
    } else {
        let before = survivors(running.drop_last(), dead);
        if dead.contains(running.last()) {
            before
        } else {
            before.push(running.last())
        }
    }
}

/// The languages among `running`, as they stand in `all`.
pub open spec fn listed_among(all: Seq<Language>, running: Seq<Language>) -> Seq<Language>
    decreases all.len(),
{
    if all.len() == 0 {
        Seq::empty()
    } else {
        let before = listed_among(all.drop_last(), running);
        if running.contains(all.last()) {
            before.push(all.last())
        } else {
            before
        }
    }
}

fn holds(languages: &Vec<Language>, language: Language) -> (r: bool)
    ensures
        r == languages@.contains(language),
{
    for i in 0..languages.len()
        invariant
            forall|j: int| 0 <= j < i ==> languages@[j] != language,
    {
        if languages[i] == language {
            assert(languages@[i as int] == language);
            return true;
        }
    }
    false
}

impl LspManager {
    /// The languages whose servers run, in the order they were started.
    pub closed spec fn started_order(&self) -> Seq<Language> {
        self.clients@
    }

    /// The languages whose servers are known to be missing.
    pub closed spec fn missing(&self) -> Seq<Language> {
        self.unavailable@
    }

    /// One server per language at most, and no more than may run.
    pub open spec fn wf(&self) -> bool {
        &&& self.started_order().no_duplicates()
        &&& self.started_order().len() <= MAX_SERVERS
    }

    /// Nothing started.
    pub fn new() -> (r: Self)
        ensures
            r.wf(),
            r.started_order() == Seq::<Language>::empty(),
            r.missing() == Seq::<Language>::empty(),
    {
        LspManager { clients: Vec::new(), unavailable: Vec::new() }
    }

    /// What to do for a document of this language.
    pub fn client_for(&self, language: Language) -> (r: ServerPlan)
        ensures
            r == plan(self.started_order(), self.missing(), language),
    {
        let specs = servers_for(language);
        assert(server_views(specs@).len() == specs@.len());
        if specs.len() == 0 || holds(&self.unavailable, language) {
            ServerPlan::Without
        } else if holds(&self.clients, language) {
            ServerPlan::Reuse
        } else if self.clients.len() >= MAX_SERVERS {
            ServerPlan::Without
        } else {
            ServerPlan::Start
        }
    }

    /// A server for this language started.
    pub fn started(&mut self, language: Language)
        requires
            old(self).wf(),
            plan(old(self).started_order(), old(self).missing(), language) == ServerPlan::Start,
        ensures
            final(self).wf(),
            final(self).started_order() == old(self).started_order().push(language),
            final(self).missing() == old(self).missing(),
    {
        self.clients.push(language);
    }

    /// No candidate for this language could be started.
    pub fn failed(&mut self, language: Language)
        requires
            old(self).wf(),
        ensures
            final(self).wf(),
            final(self).started_order() == old(self).started_order(),
            final(self).missing() == old(self).missing().push(language),
    {
        self.unavailable.push(language);
    }

    /// Drops the servers that have exited, so the next document of their
    /// language gets a fresh one.
    pub fn retire_dead(&mut self, dead: &Vec<Language>)
        requires
            old(self).wf(),
        ensures
            final(self).wf(),
            final(self).started_order() == survivors(old(self).started_order(), dead@),
            final(self).missing() == old(self).missing(),
    {
        let mut kept: Vec<Language> = Vec::new();
        let ghost all = self.clients@;
        assert(all.take(0) =~= Seq::<Language>::empty());
        for i in 0..self.clients.len()
            invariant
                self.clients@ == all,
                self.unavailable@ == old(self).unavailable@,
                kept@ == survivors(all.take(i as int), dead@),
        {
            let language = self.clients[i];
            assert(all.take(i + 1).drop_last() =~= all.take(i as int));
            if !holds(dead, language) {
                kept.push(language);
            }
        }
        assert(all.take(all.len() as int) =~= all);
        proof {
            survivors_are_distinct(all, dead@);
        }
        self.clients = kept;
    }

    /// Whether no server runs.
    pub fn is_empty(&self) -> (r: bool)
        ensures
            r == (self.started_order().len() == 0),
    {
        self.clients.len() == 0
    }

    /// Which languages have a server running, by name.
    pub fn running(&self) -> (r: Vec<Language>)
        ensures
            r@ == listed_among(languages_by_name(), self.started_order()),
    {
        let all = Language::all();
        let mut out: Vec<Language> = Vec::new();
        assert(all@.take(0) =~= Seq::<Language>::empty());
        for i in 0..all.len()
            invariant
                out@ == listed_among(all@.take(i as int), self.clients@),
        {
            assert(all@.take(i + 1).drop_last() =~= all@.take(i as int));
            if holds(&self.clients, all[i]) {
                out.push(all[i]);
            }
        }
        assert(all@.take(all.len() as int) =~= all@);
        out
    }
}

proof fn survivors_are_distinct(running: Seq<Language>, dead: Seq<Language>)
    requires
        running.no_duplicates(),
    ensures
        survivors(running, dead).no_duplicates(),
        survivors(running, dead).len() <= running.len(),
        forall|l: Language|
            survivors(running, dead).contains(l) <==> running.contains(l) && !dead.contains(l),
    decreases running.len(),
{
    if running.len() > 0 {
        let rest = running.drop_last();
        assert(rest.no_duplicates());
        survivors_are_distinct(rest, dead);
        let before = survivors(rest, dead);
        let last = running.last();
        let all = survivors(running, dead);
        assert(!rest.contains(last)) by {
            if rest.contains(last) {
                let i = choose|i: int| 0 <= i < rest.len() && rest[i] == last;
                assert(running[i] == running[running.len() - 1]);
            }
        }
        assert forall|l: Language| all.contains(l) <==> running.contains(l) && !dead.contains(
            l,
        ) by {
            if running.contains(l) {
                let i = choose|i: int| 0 <= i < running.len() && running[i] == l;
                if i < rest.len() {
                    assert(rest[i] == l);
                }
            }
            if rest.contains(l) {
                let i = choose|i: int| 0 <= i < rest.len() && rest[i] == l;
                assert(running[i] == l);
            }
            assert(running[running.len() - 1] == last);
            if !dead.contains(last) {
                assert(all == before.push(last));
                assert(all[before.len() as int] == last);
                if before.contains(l) {
                    let i = choose|i: int| 0 <= i < before.len() && before[i] == l;
                    assert(all[i] == l);
                }
                if all.contains(l) {
                    let i = choose|i: int| 0 <= i < all.len() && all[i] == l;
                    if i < before.len() {
                        assert(before[i] == l);
                    }
                }
            }
        }
        if !dead.contains(last) {
            assert(!before.contains(last));
            assert forall|i: int, j: int|
                0 <= i < all.len() && 0 <= j < all.len() && i != j implies all[i] != all[j] by {
                if i < before.len() && j < before.len() {
                    assert(before[i] != before[j]);
                } else if i < before.len() {
                    assert(before[i] == all[i]);
                    assert(before.contains(all[i]));
                } else {
                    assert(before[j] == all[j]);
                    assert(before.contains(all[j]));
                }
            }
        }
    }
}

/// A language whose server could not be started is never tried again.
pub proof fn a_missing_server_is_only_tried_once(
    running: Seq<Language>,
    missing: Seq<Language>,
    language: Language,
)
    ensures
        plan(running, missing.push(language), language) == ServerPlan::Without,
{
    assert(missing.push(language)[missing.len() as int] == language);
}

/// Once its server has been started, a language is served by that one and no
/// other.
pub proof fn a_started_server_is_reused(
    running: Seq<Language>,
    missing: Seq<Language>,
    language: Language,
)
    requires
        plan(running, missing, language) == ServerPlan::Start,
    ensures
        plan(running.push(language), missing, language) == ServerPlan::Reuse,
{
    assert(running.push(language)[running.len() as int] == language);
}

// --- stale answers -----------------------------------------------------------

/// Whether diagnostics for version `incoming` should replace what is applied:
/// always when the server echoes no version, and otherwise when they are not
/// older than the latest.
pub open spec fn applies(latest_applied: Option<u64>, incoming: Option<u64>) -> bool {
    match incoming {
        None => true,
        Some(version) => version >= (match latest_applied {
            Some(latest) => latest,
            None => 0,
        }),
    }
}

/// Whether an incoming diagnostics version should replace what is applied.
pub fn should_apply_lsp_diagnostics(
    latest_applied: Option<u64>,
    incoming: Option<u64>,
) -> (r: bool)
    ensures
        r == applies(latest_applied, incoming),
{
    match incoming {
        None => true,
        Some(version) => match latest_applied {
            Some(latest) => version >= latest,
            None => true,
        },
    }
}

/// The first entry for a path.
pub open spec fn lookup(entries: Seq<(String, u64)>, path: Seq<char>) -> Option<u64>
    decreases entries.len(),
{
    if entries.len() == 0 {
        None
    } else if entries[0].0@ == path {
        Some(entries[0].1)
    } else {
        lookup(entries.drop_first(), path)
    }
}

/// The highest diagnostics version applied for each file, so that an answer
/// for an older edit cannot overwrite one for a newer.
#[derive(Clone, Debug)]
pub struct AppliedVersions {
    entries: Vec<(String, u64)>,
}

/// The diagnostics among the first `n` that get past the versions already
/// applied, each raising the version for its file.
pub open spec fn screened(
    latest: spec_fn(Seq<char>) -> Option<u64>,
    updates: Seq<Publication>,
    n: int,
) -> (spec_fn(Seq<char>) -> Option<u64>, Seq<Publication>)
    decreases n,
{
    if n <= 0 {
        (latest, Seq::empty())
    } else {
        let (now, passed) = screened(latest, updates, n - 1);
        let update = updates[n - 1];
        if applies(now(update.path), update.version) {
            (raised(now, update.path, update.version), passed.push(update))
        } else {
            (now, passed)
        }
    }
}

/// The versions with one of them raised, when there is one to raise it to.
pub open spec fn raised(
    latest: spec_fn(Seq<char>) -> Option<u64>,
    path: Seq<char>,
    version: Option<u64>,
) -> spec_fn(Seq<char>) -> Option<u64> {
    |p: Seq<char>|
        if p == path && version is Some {
            version
        } else {
            latest(p)
        }
}

impl AppliedVersions {
    /// The version applied for each file.
    pub closed spec fn latest(&self) -> spec_fn(Seq<char>) -> Option<u64> {
        |path: Seq<char>| lookup(self.entries@, path)
    }

    /// Nothing applied.
    pub fn new() -> (r: Self)
        ensures
            forall|path: Seq<char>| (#[trigger] (r.latest())(path)) is None,
    {
        AppliedVersions { entries: Vec::new() }
    }

    fn find(&self, path: &str) -> (r: Option<usize>)
        ensures
            match r {
                Some(i) => i < self.entries@.len() && self.entries@[i as int].0@ == path@ && (
                forall|j: int| 0 <= j < i ==> (#[trigger] self.entries@[j]).0@ != path@),
                None => forall|j: int|
                    0 <= j < self.entries@.len() ==> (#[trigger] self.entries@[j]).0@ != path@,
            },
    {
        for i in 0..self.entries.len()
            invariant
                forall|j: int| 0 <= j < i ==> (#[trigger] self.entries@[j]).0@ != path@,
        {
            if equal(self.entries[i].0.as_str(), path) {
                return Some(i);
            }
        }
        None
    }

    /// Decides whether diagnostics for a file may be applied, and remembers
    /// their version if so.
    pub fn accept(&mut self, path: &str, version: Option<u64>) -> (r: bool)
        ensures
            r == applies((old(self).latest())(path@), version),
            final(self).latest() == (if r {
                raised(old(self).latest(), path@, version)
            } else {
                old(self).latest()
            }),
    {
        let found = self.find(path);
        let latest = match found {
            Some(i) => Some(self.entries[i].1),
            None => None,
        };
        proof {
            lookup_is(self.entries@, path@, found);
        }
        if !should_apply_lsp_diagnostics(latest, version) {
            return false;
        }
        let ghost before = self.entries@;
        match version {
            Some(version) => {
                match found {
                    Some(i) => {
                        let kept = self.entries[i].0.clone();
                        self.entries.set(i, (kept, version));
                        proof {
                            lookup_after_set(before, self.entries@, i as int, path@, version);
                        }
                    },
                    None => {
                        self.entries.push((owned(path), version));
                        proof {
                            assert(self.entries@.drop_last() =~= before);
                            lookup_after_push(before, self.entries@, path@, version);
                        }
                    },
                }
                assert(self.latest() =~= raised(old(self).latest(), path@, Some(version)));
            },
            None => {
                assert(self.latest() =~= raised(old(self).latest(), path@, version));
            },
        }
        true
    }

    /// The updates that may be applied, in their order.
    pub fn screen(&mut self, updates: Vec<Published>) -> (r: Vec<Published>)
        ensures
            ({
                let given = Seq::new(updates@.len(), |i: int| updates@[i]@);
                let got = Seq::new(r@.len(), |i: int| r@[i]@);
                (final(self).latest(), got) == screened(
                    old(self).latest(),
                    given,
                    given.len() as int,
                )
            }),
    {
        let ghost given = Seq::new(updates@.len(), |i: int| updates@[i]@);
        let ghost first = self.latest();
        let mut out: Vec<Published> = Vec::new();
        assert(Seq::new(out@.len(), |i: int| out@[i]@) =~= Seq::<Publication>::empty());
        for update in it: updates
            invariant
                it.seq().len() == given.len(),
                forall|i: int| 0 <= i < given.len() ==> #[trigger] given[i] == it.seq()[i]@,
                (self.latest(), Seq::new(out@.len(), |i: int| out@[i]@)) == screened(
                    first,
                    given,
                    it.index() as int,
                ),
        {
            let ghost before = out@;
            assert(given[it.index() as int] == update@);
            if self.accept(update.path.as_str(), update.version) {
                out.push(update);
                assert(Seq::new(out@.len(), |i: int| out@[i]@) =~= Seq::new(
                    before.len(),
                    |i: int| before[i]@,
                ).push(update@));
            }
        }
        out
    }
}

proof fn lookup_is(entries: Seq<(String, u64)>, path: Seq<char>, found: Option<usize>)
    requires
        match found {
            Some(i) => i < entries.len() && entries[i as int].0@ == path && (forall|j: int|
                0 <= j < i ==> (#[trigger] entries[j]).0@ != path),
            None => forall|j: int| 0 <= j < entries.len() ==> (#[trigger] entries[j]).0@ != path,
        },
    ensures
        lookup(entries, path) == (match found {
            Some(i) => Some(entries[i as int].1),
            None => None,
        }),
    decreases entries.len(),
{
    if entries.len() > 0 && entries[0].0@ != path {
        let rest = entries.drop_first();
        let next = match found {
            Some(i) => Some((i - 1) as usize),
            None => None,
        };
        assert forall|j: int| 0 <= j < rest.len() implies (#[trigger] rest[j]) == entries[j + 1] by {

        }
        lookup_is(rest, path, next);
    }
}

proof fn lookup_after_set(
    before: Seq<(String, u64)>,
    after: Seq<(String, u64)>,
    i: int,
    path: Seq<char>,
    version: u64,
)
    requires
        0 <= i < before.len(),
        before[i].0@ == path,
        forall|j: int| 0 <= j < i ==> (#[trigger] before[j]).0@ != path,
        after == before.update(i, after[i]),
        after[i].0@ == path,
        after[i].1 == version,
    ensures
        forall|p: Seq<char>| #[trigger]
            lookup(after, p) == (if p == path {
                Some(version)
            } else {
                lookup(before, p)
            }),
    decreases before.len(),
{
    if i == 0 {
        assert(after.drop_first() =~= before.drop_first());
    } else {
        assert(before[0] == after[0]);
        let (b, a) = (before.drop_first(), after.drop_first());
        assert(a =~= b.update(i - 1, a[i - 1]));
        assert forall|j: int| 0 <= j < i - 1 implies (#[trigger] b[j]).0@ != path by {
            assert(b[j] == before[j + 1]);
        }
        lookup_after_set(b, a, i - 1, path, version);
    }
    assert forall|p: Seq<char>| #[trigger]
        lookup(after, p) == (if p == path {
            Some(version)
        } else {
            lookup(before, p)
        }) by {
        let tail = lookup(after.drop_first(), p);
        let old_tail = lookup(before.drop_first(), p);
    }
}

proof fn lookup_after_push(
    before: Seq<(String, u64)>,
    after: Seq<(String, u64)>,
    path: Seq<char>,
    version: u64,
)
    requires
        forall|j: int| 0 <= j < before.len() ==> (#[trigger] before[j]).0@ != path,
        after.len() == before.len() + 1,
        after.drop_last() == before,
        after.last().0@ == path,
        after.last().1 == version,
    ensures
        forall|p: Seq<char>| #[trigger]
            lookup(after, p) == (if p == path {
                Some(version)
            } else {
                lookup(before, p)
            }),
    decreases before.len(),
{
    assert forall|k: int| 0 <= k < before.len() implies before[k] == after[k] by {
        assert(after.drop_last()[k] == after[k]);
    }
    if before.len() == 0 {
        assert(after.drop_first() =~= Seq::<(String, u64)>::empty());
        assert forall|p: Seq<char>| #[trigger]
            lookup(after, p) == (if p == path {
                Some(version)
            } else {
                lookup(before, p)
            }) by {
            assert(lookup(after.drop_first(), p) is None);
        }
    } else {
        let (b, a) = (before.drop_first(), after.drop_first());
        assert(a.drop_last() =~= b);
        assert forall|j: int| 0 <= j < b.len() implies (#[trigger] b[j]).0@ != path by {
            assert(b[j] == before[j + 1]);
        }
        lookup_after_push(b, a, path, version);
        assert forall|p: Seq<char>| #[trigger]
            lookup(after, p) == (if p == path {
                Some(version)
            } else {
                lookup(before, p)
            }) by {
            let tail = lookup(after.drop_first(), p);
            let old_tail = lookup(before.drop_first(), p);
        }
    }
}

/// However the updates arrive, the version applied for a file never goes down.
pub proof fn applied_versions_never_go_down(
    latest: spec_fn(Seq<char>) -> Option<u64>,
    updates: Seq<Publication>,
    n: int,
    path: Seq<char>,
)
    requires
        0 <= n <= updates.len(),
    ensures
        latest(path) matches Some(before) ==> (screened(latest, updates, n).0(path) matches Some(
            after,
        ) && after >= before),
    decreases n,
{
    if n > 0 {
        applied_versions_never_go_down(latest, updates, n - 1, path);
    }
}

// --- when a server hears about a document ------------------------------------

/// How the last save of a document went.
#[derive(Copy, Clone, Debug, PartialEq, Eq, Structural)]
pub enum PersistenceState {
    NeverSaved,
    Saving,
    SaveSucceeded,
    SaveFailed,
}

/// The active document, as far as its server is concerned.
#[derive(Copy, Clone, Debug, PartialEq, Eq, Structural)]
pub struct SyncFacts {
    pub document: u64,
    pub loading: bool,
    /// An untitled document has no path to report itself under.
    pub has_path: bool,
    pub persistence: PersistenceState,
}

/// What to tell the server.
#[derive(Copy, Clone, Debug, PartialEq, Eq, Structural)]
pub enum SyncAction {
    Quiet,
    Opened,
    Saved,
}

/// Which documents have been announced, and how each was last saved.
pub struct DocumentSync {
    opened: HashSet<u64>,
    saves: HashMap<u64, PersistenceState>,
}

/// The state last seen for a document.
pub open spec fn last_seen(saves: Map<u64, PersistenceState>, document: u64) -> Option<
    PersistenceState,
> {
    if saves.contains_key(document) {
        Some(saves[document])
    } else {
        None
    }
}

/// What to tell the server about the active document: that it was opened, once;
/// and after that, that it was saved, each time a save has just succeeded.
pub open spec fn sync_action(
    announced: bool,
    previous: Option<PersistenceState>,
    active: Option<SyncFacts>,
) -> SyncAction {
    match active {
        Some(facts) => if facts.loading || !facts.has_path {
            SyncAction::Quiet
        } else if !announced {
            SyncAction::Opened
        } else if previous != Some(facts.persistence) && facts.persistence
            == PersistenceState::SaveSucceeded {
            SyncAction::Saved
        } else {
            SyncAction::Quiet
        },
        None => SyncAction::Quiet,
    }
}

/// Whether a document is open in a language other than `retired`.
pub open spec fn open_in_another(
    documents: Seq<(u64, Language)>,
    document: u64,
    retired: Language,
) -> bool {
    exists|i: int|
        0 <= i < documents.len() && (#[trigger] documents[i]).0 == document && documents[i].1
            != retired
}

impl DocumentSync {
    /// The documents the servers have been told about.
    pub closed spec fn announced(&self) -> Set<u64> {
        self.opened@
    }

    /// How each document was last saved.
    pub closed spec fn seen(&self) -> Map<u64, PersistenceState> {
        self.saves@
    }

    /// Nothing announced.
    pub fn new() -> (r: Self)
        ensures
            r.announced() == Set::<u64>::empty(),
            r.seen() == Map::<u64, PersistenceState>::empty(),
    {
        DocumentSync { opened: HashSet::new(), saves: HashMap::new() }
    }

    /// Decides what to tell the server about the active document.
    pub fn sync(&mut self, active: Option<SyncFacts>) -> (r: SyncAction)
        ensures
            ({
                let id = match active {
                    Some(facts) => facts.document,
                    None => 0,
                };
                let told = old(self).announced().contains(id);
                &&& r == sync_action(told, last_seen(old(self).seen(), id), active)
                &&& final(self).announced() == (if r == SyncAction::Opened {
                    old(self).announced().insert(id)
                } else {
                    old(self).announced()
                })
                &&& final(self).seen() == (match active {
                    Some(facts) => if !facts.loading && facts.has_path && told {
                        old(self).seen().insert(id, facts.persistence)
                    } else {
                        old(self).seen()
                    },
                    None => old(self).seen(),
                })
            }),
    {
        broadcast use vstd::std_specs::hash::group_hash_axioms;

        match active {
            Some(facts) => {
                if facts.loading || !facts.has_path {
                    return SyncAction::Quiet;
                }
                if !self.opened.contains(&facts.document) {
                    self.opened.insert(facts.document);
                    return SyncAction::Opened;
                }
                let same = match self.saves.get(&facts.document) {
                    Some(state) => *state == facts.persistence,
                    None => false,
                };
                self.saves.insert(facts.document, facts.persistence);
                if !same && facts.persistence == PersistenceState::SaveSucceeded {
                    SyncAction::Saved
                } else {
                    SyncAction::Quiet
                }
            },
            None => SyncAction::Quiet,
        }
    }

    /// Forgets the documents that a server which is gone had been told about,
    /// given the documents that are open: those still open in another language
    /// stay announced.
    pub fn retire(&mut self, documents: &Vec<(u64, Language)>, retired: Language)
        ensures
            forall|document: u64|
                final(self).announced().contains(document) <==> (old(self).announced().contains(
                    document,
                ) && open_in_another(documents@, document, retired)),
            final(self).seen() == old(self).seen(),
    {
        broadcast use vstd::std_specs::hash::group_hash_axioms;

        let mut kept: HashSet<u64> = HashSet::new();
        for i in 0..documents.len()
            invariant
                *self == *old(self),
                forall|document: u64|
                    kept@.contains(document) <==> (self.opened@.contains(document)
                        && open_in_another(documents@.take(i as int), document, retired)),
        {
            let document = documents[i].0;
            let ghost before = kept@;
            let stays = self.opened.contains(&document) && documents[i].1 != retired;
            if stays {
                kept.insert(document);
            }
            proof {
                let (shorter, longer) = (documents@.take(i as int), documents@.take(i + 1));
                assert forall|d: u64| kept@.contains(d) <==> (self.opened@.contains(d)
                    && open_in_another(longer, d, retired)) by {
                    if open_in_another(shorter, d, retired) {
                        let k = choose|k: int|
                            0 <= k < shorter.len() && (#[trigger] shorter[k]).0 == d
                                && shorter[k].1 != retired;
                        assert(longer[k] == shorter[k]);
                    }
                    if open_in_another(longer, d, retired) {
                        let k = choose|k: int|
                            0 <= k < longer.len() && (#[trigger] longer[k]).0 == d && longer[k].1
                                != retired;
                        if k < i {
                            assert(longer[k] == shorter[k]);
                        }
                    }
                    assert(longer[i as int] == documents@[i as int]);
                }
            }
        }
        assert(documents@.take(documents.len() as int) =~= documents@);
        self.opened = kept;
    }
}

// --- what is published is what was sent --------------------------------------

/// The value that lies under a row of keys, one inside the other.
pub open spec fn under(value: Json, keys: Seq<Seq<char>>) -> Option<Json>
    decreases keys.len(),
{
    if keys.len() == 0 {
        Some(value)
    } else {
        match member(value, keys[0]) {
            Some(inner) => under(inner, keys.drop_first()),
            None => None,
        }
    }
}

/// Whether an item has everything that a diagnostic needs: where it starts and
/// ends, and what it says.
pub open spec fn complete(item: Json) -> bool {
    &&& under(item, seq!["range"@, "start"@, "line"@]) matches Some(Json::Number(_))
    &&& under(item, seq!["range"@, "start"@, "character"@]) matches Some(Json::Number(_))
    &&& under(item, seq!["range"@, "end"@, "character"@]) matches Some(Json::Number(_))
    &&& under(item, seq!["message"@]) matches Some(Json::Text(_))
}

/// The whole number under a row of keys.
pub open spec fn number_under(item: Json, keys: Seq<Seq<char>>) -> int {
    truncated(under(item, keys)->0->Number_0, usize::MAX as int)
}

/// Whether a diagnostic says what an item says.
pub open spec fn says(d: Diagnostic<String>, item: Json) -> bool {
    &&& d.line == number_under(item, seq!["range"@, "start"@, "line"@])
    &&& d.start_column_chars == number_under(item, seq!["range"@, "start"@, "character"@])
    &&& d.end_column_chars == number_under(item, seq!["range"@, "end"@, "character"@])
    &&& Some(Json::Text(d.message@)) == under(item, seq!["message"@])
    &&& match under(item, seq!["severity"@]) {
        Some(Json::Number(code)) => {
            let n = truncated(code, u64::MAX as int);
            &&& d.severity == DiagnosticSeverity::Error <==> n == 1
            &&& d.severity == DiagnosticSeverity::Warning <==> n == 2
            &&& d.severity == DiagnosticSeverity::Information <==> n == 3
        },
        _ => d.severity == DiagnosticSeverity::Hint,
    }
}

proof fn under_one(value: Json, a: Seq<char>)
    ensures
        under(value, seq![a]) == member(value, a),
{
    reveal_with_fuel(under, 2);
    assert(seq![a].drop_first() =~= Seq::<Seq<char>>::empty());
}

proof fn under_three(value: Json, a: Seq<char>, b: Seq<char>, c: Seq<char>)
    ensures
        under(value, seq![a, b, c]) == field(field(field(Some(value), a), b), c),
{
    reveal_with_fuel(under, 4);
    assert(seq![a, b, c].drop_first() =~= seq![b, c]);
    assert(seq![b, c].drop_first() =~= seq![c]);
    assert(seq![c].drop_first() =~= Seq::<Seq<char>>::empty());
}

proof fn item_parts(item: Json)
    ensures
        under(item, seq!["range"@, "start"@, "line"@]) == field(
            field(field(Some(item), "range"@), "start"@),
            "line"@,
        ),
        under(item, seq!["range"@, "start"@, "character"@]) == field(
            field(field(Some(item), "range"@), "start"@),
            "character"@,
        ),
        under(item, seq!["range"@, "end"@, "character"@]) == field(
            field(field(Some(item), "range"@), "end"@),
            "character"@,
        ),
        under(item, seq!["message"@]) == field(Some(item), "message"@),
        under(item, seq!["severity"@]) == field(Some(item), "severity"@),
        complete(item) <==> diagnostic_in(item) is Some,
{
    under_three(item, "range"@, "start"@, "line"@);
    under_three(item, "range"@, "start"@, "character"@);
    under_three(item, "range"@, "end"@, "character"@);
    under_one(item, "message"@);
    under_one(item, "severity"@);
}

proof fn truncated_fits(d: crate::numbers::Double, top: int)
    requires
        top >= 0,
    ensures
        0 <= truncated(d, top) <= top,
{
    let f = crate::floats::Format::Double;
    if !d.negative() && d.index() <= crate::floats::infinity(f) {
        crate::floats::values_grow(f, 0, d.index());
        vstd::arithmetic::power2::lemma_pow2_pos(0);
        vstd::arithmetic::power2::lemma_pow2_pos(crate::floats::unit(f));
        assert(2 * 0 * vstd::arithmetic::power2::pow2(0) == 0) by (nonlinear_arith);
        let v = crate::floats::value_at(f, d.index());
        let u = vstd::arithmetic::power2::pow2(crate::floats::unit(f)) as int;
        assert(v / u >= 0) by (nonlinear_arith)
            requires
                v >= 0,
                u > 0,
        ;
    }
}

proof fn a_diagnostic_says_its_item(d: Diagnostic<String>, item: Json)
    requires
        diagnostic_in(item) == Some(diagnostic_view(d)),
    ensures
        says(d, item),
{
    item_parts(item);
    truncated_fits(
        under(item, seq!["range"@, "start"@, "line"@])->0->Number_0,
        usize::MAX as int,
    );
    truncated_fits(
        under(item, seq!["range"@, "start"@, "character"@])->0->Number_0,
        usize::MAX as int,
    );
    truncated_fits(
        under(item, seq!["range"@, "end"@, "character"@])->0->Number_0,
        usize::MAX as int,
    );
    if let Some(Json::Number(code)) = under(item, seq!["severity"@]) {
        truncated_fits(code, u64::MAX as int);
    }
}

proof fn complete_items_all_count(items: Seq<Json>, n: int)
    requires
        0 <= n <= items.len(),
        forall|i: int| 0 <= i < n ==> complete(#[trigger] items[i]),
    ensures
        diagnostics_in(items, n).len() == n,
        forall|i: int|
            0 <= i < n ==> diagnostic_in(items[i]) == Some(#[trigger] diagnostics_in(items, n)[i]),
    decreases n,
{
    if n > 0 {
        complete_items_all_count(items, n - 1);
        assert(complete(items[n - 1]));
        item_parts(items[n - 1]);
    }
}

/// Whether a message publishes a list of items for a file: what it is called,
/// which file it names, and the list.
pub open spec fn publishes(message: Json, uri: Seq<char>, items: Seq<Json>) -> bool {
    &&& under(message, seq!["method"@]) == Some(Json::Text("textDocument/publishDiagnostics"@))
    &&& under(message, seq!["params"@, "uri"@]) == Some(Json::Text(uri))
    &&& under(message, seq!["params"@, "diagnostics"@]) == Some(Json::Array(items))
}

proof fn message_parts(message: Json)
    ensures
        under(message, seq!["method"@]) == field(Some(message), "method"@),
        under(message, seq!["params"@, "uri"@]) == field(
            field(Some(message), "params"@),
            "uri"@,
        ),
        under(message, seq!["params"@, "diagnostics"@]) == field(
            field(Some(message), "params"@),
            "diagnostics"@,
        ),
        under(message, seq!["params"@, "version"@]) == field(
            field(Some(message), "params"@),
            "version"@,
        ),
{
    under_one(message, "method"@);
    under_two(message, "params"@, "uri"@);
    under_two(message, "params"@, "diagnostics"@);
    under_two(message, "params"@, "version"@);
}

proof fn under_two(value: Json, a: Seq<char>, b: Seq<char>)
    ensures
        under(value, seq![a, b]) == field(field(Some(value), a), b),
{
    reveal_with_fuel(under, 3);
    assert(seq![a, b].drop_first() =~= seq![b]);
    assert(seq![b].drop_first() =~= Seq::<Seq<char>>::empty());
}

/// Everything that is published arrives: of a list whose items are all
/// complete there are as many diagnostics as items, and each says what the item
/// in its place says.
pub proof fn every_published_item_arrives(
    message: Json,
    uri: Seq<char>,
    items: Seq<Json>,
    separator: char,
    p: Published,
)
    requires
        publishes(message, uri, items),
        forall|i: int| 0 <= i < items.len() ==> complete(#[trigger] items[i]),
        published(message, separator) == Some(p@),
    ensures
        p.diagnostics@.len() == items.len(),
        forall|i: int| 0 <= i < items.len() ==> says(#[trigger] p.diagnostics@[i], items[i]),
{
    message_parts(message);
    complete_items_all_count(items, items.len() as int);
    let all = diagnostics_in(items, items.len() as int);
    assert(p@.diagnostics == all);
    assert(all.len() == p.diagnostics@.len());
    assert forall|i: int| 0 <= i < items.len() implies says(
        #[trigger] p.diagnostics@[i],
        items[i],
    ) by {
        assert(all[i] == diagnostic_view(p.diagnostics@[i]));
        a_diagnostic_says_its_item(p.diagnostics@[i], items[i]);
    }
}

proof fn an_incomplete_item_counts_for_nothing(items: Seq<Json>, at: int, n: int)
    requires
        0 <= at < n <= items.len(),
        !complete(items[at]),
    ensures
        diagnostics_in(items, n) == diagnostics_in(items.remove(at), n - 1),
    decreases n,
{
    let fewer = items.remove(at);
    item_parts(items[at]);
    if n - 1 == at {
        same_items_same_diagnostics(items, fewer, at);
    } else {
        an_incomplete_item_counts_for_nothing(items, at, n - 1);
        assert(fewer[n - 2] == items[n - 1]);
    }
}

proof fn same_items_same_diagnostics(a: Seq<Json>, b: Seq<Json>, n: int)
    requires
        0 <= n <= a.len(),
        n <= b.len(),
        forall|i: int| 0 <= i < n ==> a[i] == b[i],
    ensures
        diagnostics_in(a, n) == diagnostics_in(b, n),
    decreases n,
{
    if n > 0 {
        same_items_same_diagnostics(a, b, n - 1);
    }
}

/// An item that lacks a part costs only itself: what the message publishes is
/// what it would publish without that item.
pub proof fn an_incomplete_item_costs_only_itself(
    message: Json,
    shorter: Json,
    uri: Seq<char>,
    items: Seq<Json>,
    at: int,
    separator: char,
)
    requires
        0 <= at < items.len(),
        !complete(items[at]),
        publishes(message, uri, items),
        publishes(shorter, uri, items.remove(at)),
        under(message, seq!["params"@, "version"@]) == under(
            shorter,
            seq!["params"@, "version"@],
        ),
    ensures
        published(message, separator) == published(shorter, separator),
{
    message_parts(message);
    message_parts(shorter);
    an_incomplete_item_counts_for_nothing(items, at, items.len() as int);
}

/// A message that publishes nothing is told apart: it has another method, names
/// no file, or carries no list.
pub proof fn only_a_publication_publishes(message: Json, separator: char)
    requires
        ({
            ||| under(message, seq!["method"@]) != Some(
                Json::Text("textDocument/publishDiagnostics"@),
            )
            ||| !(under(message, seq!["params"@, "uri"@]) matches Some(Json::Text(_)))
            ||| under(message, seq!["params"@, "diagnostics"@]) is None
        }),
    ensures
        published(message, separator) is None,
{
    message_parts(message);
}

/// A publication names the file that its address was made from, and the version
/// it is for, if it says one.
pub proof fn a_publication_names_its_file(
    message: Json,
    path: Seq<char>,
    items: Seq<Json>,
    p: Published,
)
    requires
        path.len() > 0,
        path[0] == '/',
        forall|i: int| 0 <= i < path.len() ==> #[trigger] path[i] != '\\',
        path.len() > 2 ==> path[2] != ':',
        publishes(message, "file://"@ + path, items),
        published(message, '/') == Some(p@),
    ensures
        p.path@ == path,
        match under(message, seq!["params"@, "version"@]) {
            Some(Json::Number(d)) => p.version matches Some(v) && v == truncated(
                d,
                u64::MAX as int,
            ),
            _ => p.version is None,
        },
{
    message_parts(message);
    if let Some(Json::Number(d)) = under(message, seq!["params"@, "version"@]) {
        truncated_fits(d, u64::MAX as int);
    }
    assert(replaced(path, '\\', '/') =~= path);
    assert(uri(path) == "file://"@ + path);
    an_absolute_path_survives_its_uri(path);
}

/// The servers that stay are those that did not exit, in the order they were
/// started.
pub proof fn only_the_dead_are_retired(running: Seq<Language>, dead: Seq<Language>)
    ensures
        survivors(running, dead) == running.filter(|language: Language| !dead.contains(language)),
    decreases running.len(),
{
    reveal(Seq::filter);
    if running.len() > 0 {
        only_the_dead_are_retired(running.drop_last(), dead);
    }
}

/// What runs is listed by name, each language once, whatever the order it was
/// started in.
pub proof fn what_runs_is_listed_by_name(all: Seq<Language>, running: Seq<Language>)
    ensures
        listed_among(all, running) == all.filter(|language: Language| running.contains(language)),
    decreases all.len(),
{
    reveal(Seq::filter);
    if all.len() > 0 {
        what_runs_is_listed_by_name(all.drop_last(), running);
    }
}

/// No more than four servers run: with four running, a language without its
/// own stays without one, and one that has its own keeps it. With fewer, one
/// is started for any language that has a candidate and is not known to be
/// without it.
pub proof fn no_more_than_four_servers_run(
    running: Seq<Language>,
    missing: Seq<Language>,
    language: Language,
)
    requires
        language != Language::PlainText,
        !missing.contains(language),
    ensures
        running.contains(language) ==> plan(running, missing, language) == ServerPlan::Reuse,
        !running.contains(language) && running.len() >= 4 ==> plan(running, missing, language)
            == ServerPlan::Without,
        !running.contains(language) && running.len() < 4 ==> plan(running, missing, language)
            == ServerPlan::Start,
{
}

/// An answer for an older version than the one applied for its file is
/// dropped and changes nothing. One that is as new, or that names no version,
/// is applied, and of all files only its own version moves.
pub proof fn a_stale_answer_is_dropped(
    latest: spec_fn(Seq<char>) -> Option<u64>,
    updates: Seq<Publication>,
    n: int,
    other: Seq<char>,
)
    requires
        0 < n <= updates.len(),
        other != updates[n - 1].path,
    ensures
        ({
            let (now, passed) = screened(latest, updates, n - 1);
            let (after, all) = screened(latest, updates, n);
            let update = updates[n - 1];
            let stale = update.version is Some && now(update.path) is Some && update.version->0
                < now(update.path)->0;
            &&& stale ==> all == passed && after(update.path) == now(update.path)
            &&& !stale ==> all == passed.push(update)
            &&& !stale && update.version is Some ==> after(update.path) == update.version
            &&& update.version is None ==> after(update.path) == now(update.path)
            &&& after(other) == now(other)
        }),
{
}

/// A server hears of a document once it has loaded and has a path, and from
/// then on each time a save of it has just succeeded, and only then.
pub proof fn a_server_hears_of_opening_and_saving(
    announced: bool,
    previous: Option<PersistenceState>,
    facts: SyncFacts,
)
    ensures
        ({
            let told = sync_action(announced, previous, Some(facts));
            let ready = !facts.loading && facts.has_path;
            let saved = facts.persistence == PersistenceState::SaveSucceeded && previous != Some(
                PersistenceState::SaveSucceeded,
            );
            &&& !ready ==> told == SyncAction::Quiet
            &&& ready && !announced ==> told == SyncAction::Opened
            &&& ready && announced && saved ==> told == SyncAction::Saved
            &&& ready && announced && !saved ==> told == SyncAction::Quiet
        }),
        sync_action(announced, previous, None) == SyncAction::Quiet,
{
}

/// A path is addressed with slashes, with a root where it has none, and with
/// nothing else of it changed.
pub proof fn a_path_is_addressed_as_it_stands(path: Seq<char>)
    requires
        path.len() > 0,
        forall|i: int| 0 <= i < path.len() ==> #[trigger] path[i] != '\\',
    ensures
        path[0] == '/' ==> uri(path) == "file://"@ + path,
        path[0] != '/' ==> uri(path) == "file:///"@ + path,
{
    assert(replaced(path, '\\', '/') =~= path);
}

/// Replacing puts the one character in place of the other and leaves the rest.
pub proof fn replacing_is_character_by_character(s: Seq<char>, from: char, to: char, i: int)
    requires
        0 <= i < s.len(),
    ensures
        replaced(s, from, to).len() == s.len(),
        s[i] == from ==> replaced(s, from, to)[i] == to,
        s[i] != from ==> replaced(s, from, to)[i] == s[i],
{
}

/// One is an error, two a warning, three an information; everything else, and
/// nothing at all, is a hint.
pub proof fn a_severity_is_a_number(code: u64)
    ensures
        severity(Some(1)) == DiagnosticSeverity::Error,
        severity(Some(2)) == DiagnosticSeverity::Warning,
        severity(Some(3)) == DiagnosticSeverity::Information,
        code < 1 || code > 3 ==> severity(Some(code)) == DiagnosticSeverity::Hint,
        severity(None) == DiagnosticSeverity::Hint,
{
}

/// What is sent names its method and carries its parameters; only a request
/// carries an id.
pub proof fn a_message_names_its_method(id: nat, method: Seq<char>, params: Json)
    ensures
        under(request(id, method, params), seq!["method"@]) == Some(Json::Text(method)),
        under(request(id, method, params), seq!["params"@]) == Some(params),
        under(request(id, method, params), seq!["id"@]) == Some(
            Json::Number(double_nearest(id)),
        ),
        under(request(id, method, params), seq!["jsonrpc"@]) == Some(Json::Text("2.0"@)),
        under(notification(method, params), seq!["method"@]) == Some(Json::Text(method)),
        under(notification(method, params), seq!["params"@]) == Some(params),
        under(notification(method, params), seq!["jsonrpc"@]) == Some(Json::Text("2.0"@)),
        under(notification(method, params), seq!["id"@]) is None,
{
    reveal_strlit("jsonrpc");
    reveal_strlit("id");
    reveal_strlit("method");
    reveal_strlit("params");
    assert("jsonrpc"@.len() == 7 && "id"@.len() == 2 && "method"@.len() == 6 && "params"@.len()
        == 6);
    assert("method"@[0] != "params"@[0]);
    let asked = request(id, method, params);
    let told = notification(method, params);
    under_one(asked, "jsonrpc"@);
    under_one(asked, "id"@);
    under_one(asked, "method"@);
    under_one(asked, "params"@);
    under_one(told, "jsonrpc"@);
    under_one(told, "id"@);
    under_one(told, "method"@);
    under_one(told, "params"@);
    first_of_its_key(asked, 0);
    first_of_its_key(asked, 1);
    first_of_its_key(asked, 2);
    first_of_its_key(asked, 3);
    first_of_its_key(told, 0);
    first_of_its_key(told, 1);
    first_of_its_key(told, 2);
    crate::json::a_missing_key_finds_nothing(told, "id"@);
}

proof fn first_of_its_key(value: Json, at: int)
    requires
        value is Object,
        0 <= at < value->Object_0.len(),
        forall|i: int| 0 <= i < at ==> (#[trigger] value->Object_0[i]).0 != value->Object_0[at].0,
    ensures
        crate::json::member(value, value->Object_0[at].0) == Some(value->Object_0[at].1),
{
    crate::json::the_first_member_with_a_key_is_found(
        value->Object_0,
        value->Object_0[at].0,
        at,
    );
}

/// A document that is opened is announced under its address and its
/// language, as its first version and with its whole text.
pub proof fn an_opened_document_is_announced_whole(
    path: Seq<char>,
    language_id: Seq<char>,
    text: Seq<char>,
)
    ensures
        ({
            let params = opened_params(path, language_id, text);
            &&& under(params, seq!["textDocument"@, "uri"@]) == Some(Json::Text(uri(path)))
            &&& under(params, seq!["textDocument"@, "languageId"@]) == Some(
                Json::Text(language_id),
            )
            &&& under(params, seq!["textDocument"@, "version"@]) == Some(
                Json::Number(double_nearest(1)),
            )
            &&& under(params, seq!["textDocument"@, "text"@]) == Some(Json::Text(text))
        }),
{
    reveal_strlit("textDocument");
    reveal_strlit("uri");
    reveal_strlit("languageId");
    reveal_strlit("version");
    reveal_strlit("text");
    assert("uri"@.len() == 3 && "languageId"@.len() == 10 && "version"@.len() == 7 && "text"@.len()
        == 4);
    let params = opened_params(path, language_id, text);
    under_two(params, "textDocument"@, "uri"@);
    under_two(params, "textDocument"@, "languageId"@);
    under_two(params, "textDocument"@, "version"@);
    under_two(params, "textDocument"@, "text"@);
    first_of_its_key(params, 0);
    let document = params->Object_0[0].1;
    first_of_its_key(document, 0);
    first_of_its_key(document, 1);
    first_of_its_key(document, 2);
    first_of_its_key(document, 3);
}

/// A document that is saved is sent under its address and its new version,
/// with its whole text as the one change.
pub proof fn a_saved_document_is_sent_whole(path: Seq<char>, version: nat, text: Seq<char>)
    ensures
        ({
            let params = changed_params(path, version, text);
            let changes = under(params, seq!["contentChanges"@]);
            &&& under(params, seq!["textDocument"@, "uri"@]) == Some(Json::Text(uri(path)))
            &&& under(params, seq!["textDocument"@, "version"@]) == Some(
                Json::Number(double_nearest(version)),
            )
            &&& changes is Some
            &&& changes->0 is Array
            &&& changes->0->Array_0.len() == 1
            &&& under(changes->0->Array_0[0], seq!["text"@]) == Some(Json::Text(text))
        }),
{
    reveal_strlit("textDocument");
    reveal_strlit("contentChanges");
    reveal_strlit("uri");
    reveal_strlit("version");
    reveal_strlit("text");
    assert("textDocument"@.len() == 12 && "contentChanges"@.len() == 14);
    assert("uri"@.len() == 3 && "version"@.len() == 7);
    let params = changed_params(path, version, text);
    under_two(params, "textDocument"@, "uri"@);
    under_two(params, "textDocument"@, "version"@);
    under_one(params, "contentChanges"@);
    first_of_its_key(params, 0);
    first_of_its_key(params, 1);
    let document = params->Object_0[0].1;
    first_of_its_key(document, 0);
    first_of_its_key(document, 1);
    let change = params->Object_0[1].1->Array_0[0];
    under_one(change, "text"@);
    first_of_its_key(change, 0);
}

/// A session is opened for the root of the project.
pub proof fn a_session_is_opened_for_the_project(root: Seq<char>)
    ensures
        under(initialize_params(root), seq!["rootUri"@]) == Some(Json::Text(uri(root))),
        under(initialize_params(root), seq!["processId"@]) == Some(Json::Null),
{
    reveal_strlit("processId");
    reveal_strlit("rootUri");
    assert("processId"@.len() == 9 && "rootUri"@.len() == 7);
    let params = initialize_params(root);
    under_one(params, "rootUri"@);
    under_one(params, "processId"@);
    first_of_its_key(params, 0);
    first_of_its_key(params, 1);
}

/// A state is seen for the documents it was recorded for, and for no other.
pub proof fn a_seen_state_is_its_documents(
    saves: Map<u64, PersistenceState>,
    document: u64,
    state: PersistenceState,
)
    ensures
        last_seen(saves.insert(document, state), document) == Some(state),
        !saves.contains_key(document) ==> last_seen(saves, document) is None,
        forall|other: u64|
            other != document ==> #[trigger] last_seen(saves.insert(document, state), other)
                == last_seen(saves, other),
{
}

/// What was published and what a server is told are read as they stand.
pub proof fn a_diagnostic_is_read_as_it_stands(p: Published, i: int)
    requires
        0 <= i < p.diagnostics@.len(),
    ensures
        p@.path == p.path@,
        p@.version == p.version,
        p@.diagnostics.len() == p.diagnostics@.len(),
        p@.diagnostics[i].line == p.diagnostics@[i].line,
        p@.diagnostics[i].start_column_chars == p.diagnostics@[i].start_column_chars,
        p@.diagnostics[i].end_column_chars == p.diagnostics@[i].end_column_chars,
        p@.diagnostics[i].severity == p.diagnostics@[i].severity,
        p@.diagnostics[i].message == p.diagnostics@[i].message@,
{
}

} // verus!
