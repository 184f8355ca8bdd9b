//! Code snippets: the block info parser (language tag plus attributes such
//! as `+exec` or highlight groups), snippet contents with hidden-line
//! handling, preparation of display lines, and highlight group cycling.

use vstd::prelude::*;

use core::ops::Range;
use crate::render::{BlockLine, RenderOperation, WindowSize};
use crate::strutil::{
    all_digits, decimal_digits, decimal_string, decimal_width, digits_value, find_char,
    find_char_in, find_in, is_space, lemma_find_in, lemma_leading_spaces, lemma_trim_region,
    leading_spaces, parse_capped_region, parse_u16_region, push_char_of, region_matches,
    skip_spaces, spaces, spec_lines, spec_trim, split_str_lines, str_eq, trim_region,
};
use crate::style::{Color, Line, Text, TextStyle, display_width, str_display_width};
use crate::theme::{Alignment, CodeBlockStyle, PresentationTheme};

verus! {

/// A percentage of some dimension, between zero and one hundred.
#[derive(Clone, Copy, Debug, PartialEq, Eq, Structural)]
pub struct Percent(pub u8);

/// Why a percentage failed to parse.
#[derive(Clone, Copy, Debug, PartialEq, Eq, Structural)]
pub enum PercentParseError {
    /// Not digits followed by a percent sign.
    InvalidFormat,
    /// Over one hundred.
    OutOfRange,
}

/// What [`Percent::parse`] returns for the characters `s`: digits followed
/// by a single `%`, with a value of at most one hundred.
pub open spec fn spec_parse_percent(s: Seq<char>) -> Result<u8, PercentParseError> {
    if s.len() < 2 || s.last() != '%' || !all_digits(s.drop_last()) {
        Err(PercentParseError::InvalidFormat)
    } else if digits_value(s.drop_last()) > 100 {
        Err(PercentParseError::OutOfRange)
    } else {
        Ok(digits_value(s.drop_last()) as u8)
    }
}

impl Percent {
    /// Parses a percentage written as digits followed by `%`.
    pub fn parse(s: &str) -> (r: Result<Percent, PercentParseError>)
        ensures
            match r {
                Ok(p) => spec_parse_percent(s@) == Ok::<u8, PercentParseError>(p.0),
                Err(e) => spec_parse_percent(s@) == Err::<u8, PercentParseError>(e),
            },
    {
        let len = s.unicode_len();
        if len < 2 {
            return Err(PercentParseError::InvalidFormat);
        }
        if s.get_char(len - 1) != '%' {
            return Err(PercentParseError::InvalidFormat);
        }
        proof {
            assert(s@.subrange(0, len - 1) =~= s@.drop_last());
        }
        match parse_capped_region(s, 0, len - 1, 101) {
            None => Err(PercentParseError::InvalidFormat),
            Some(v) => {
                if v > 100 {
                    Err(PercentParseError::OutOfRange)
                } else {
                    Ok(Percent(v as u8))
                }
            },
        }
    }
}

/// Why a code block info string failed to parse.
#[derive(Clone, Debug, PartialEq, Eq)]
pub enum CodeBlockParseError {
    /// An attribute token that is not recognized; holds the token.
    InvalidToken(String),
    /// A malformed highlight group list; holds the offending text.
    InvalidHighlightedLines(String),
    /// A malformed width attribute value.
    InvalidWidth(PercentParseError),
    /// The same attribute given twice; holds its name.
    DuplicateAttribute(String),
    /// An attribute that is only valid on auto-rendered snippets; holds its
    /// name.
    NotRenderSnippet(String),
}

/// The shape of a [`CodeBlockParseError`], with text payloads as character
/// sequences.
pub enum ParseErrorKind {
    InvalidToken(Seq<char>),
    InvalidHighlightedLines(Seq<char>),
    InvalidWidth(PercentParseError),
    DuplicateAttribute(Seq<char>),
    NotRenderSnippet(Seq<char>),
}

impl CodeBlockParseError {
    /// The shape of this error.
    pub open spec fn kind(&self) -> ParseErrorKind {
        match self {
            CodeBlockParseError::InvalidToken(t) => ParseErrorKind::InvalidToken(t@),
            CodeBlockParseError::InvalidHighlightedLines(t) => ParseErrorKind::InvalidHighlightedLines(t@),
            CodeBlockParseError::InvalidWidth(e) => ParseErrorKind::InvalidWidth(*e),
            CodeBlockParseError::DuplicateAttribute(t) => ParseErrorKind::DuplicateAttribute(
                t@,
            ),
            CodeBlockParseError::NotRenderSnippet(t) => ParseErrorKind::NotRenderSnippet(t@),
        }
    }
}

/// The language of a code snippet.
#[derive(Clone, Debug, PartialEq, Eq, PartialOrd, Ord)]
pub enum SnippetLanguage {
    Ada,
    Asp,
    Awk,
    Bash,
    BatchFile,
    C,
    CMake,
    Crontab,
    CSharp,
    Clojure,
    Cpp,
    Css,
    DLang,
    Diff,
    Docker,
    Dotenv,
    Elixir,
    Elm,
    Erlang,
    File,
    Fish,
    Go,
    GraphQL,
    Haskell,
    Html,
    Java,
    JavaScript,
    Json,
    Kotlin,
    Latex,
    Lua,
    Makefile,
    Mermaid,
    Markdown,
    Nix,
    Nushell,
    OCaml,
    Perl,
    Php,
    Protobuf,
    Puppet,
    Python,
    R,
    Racket,
    Ruby,
    Rust,
    RustScript,
    Scala,
    Shell,
    Sql,
    Swift,
    Svelte,
    Tcl,
    Terraform,
    Toml,
    TypeScript,
    Typst,
    Unknown(String),
    Xml,
    Yaml,
    Verilog,
    Vue,
    Zig,
    Zsh,
}

/// The language a name denotes, or `None` for a name outside the table.
pub open spec fn known_language_of(s: Seq<char>) -> Option<SnippetLanguage> {
    if s == "ada"@ {
        Some(SnippetLanguage::Ada)
    } else if s == "asp"@ {
        Some(SnippetLanguage::Asp)
    } else if s == "awk"@ {
        Some(SnippetLanguage::Awk)
    } else if s == "bash"@ {
        Some(SnippetLanguage::Bash)
    } else if s == "c"@ {
        Some(SnippetLanguage::C)
    } else if s == "cmake"@ {
        Some(SnippetLanguage::CMake)
    } else if s == "crontab"@ {
        Some(SnippetLanguage::Crontab)
    } else if s == "csharp"@ {
        Some(SnippetLanguage::CSharp)
    } else if s == "clojure"@ {
        Some(SnippetLanguage::Clojure)
    } else if s == "cpp"@ || s == "c++"@ {
        Some(SnippetLanguage::Cpp)
    } else if s == "css"@ {
        Some(SnippetLanguage::Css)
    } else if s == "d"@ {
        Some(SnippetLanguage::DLang)
    } else if s == "diff"@ {
        Some(SnippetLanguage::Diff)
    } else if s == "docker"@ {
        Some(SnippetLanguage::Docker)
    } else if s == "dotenv"@ {
        Some(SnippetLanguage::Dotenv)
    } else if s == "elixir"@ {
        Some(SnippetLanguage::Elixir)
    } else if s == "elm"@ {
        Some(SnippetLanguage::Elm)
    } else if s == "erlang"@ {
        Some(SnippetLanguage::Erlang)
    } else if s == "file"@ {
        Some(SnippetLanguage::File)
    } else if s == "fish"@ {
        Some(SnippetLanguage::Fish)
    } else if s == "go"@ {
        Some(SnippetLanguage::Go)
    } else if s == "graphql"@ {
        Some(SnippetLanguage::GraphQL)
    } else if s == "haskell"@ {
        Some(SnippetLanguage::Haskell)
    } else if s == "html"@ {
        Some(SnippetLanguage::Html)
    } else if s == "java"@ {
        Some(SnippetLanguage::Java)
    } else if s == "javascript"@ || s == "js"@ {
        Some(SnippetLanguage::JavaScript)
    } else if s == "json"@ {
        Some(SnippetLanguage::Json)
    } else if s == "kotlin"@ {
        Some(SnippetLanguage::Kotlin)
    } else if s == "latex"@ {
        Some(SnippetLanguage::Latex)
    } else if s == "lua"@ {
        Some(SnippetLanguage::Lua)
    } else if s == "make"@ {
        Some(SnippetLanguage::Makefile)
    } else if s == "markdown"@ {
        Some(SnippetLanguage::Markdown)
    } else if s == "mermaid"@ {
        Some(SnippetLanguage::Mermaid)
    } else if s == "nix"@ {
        Some(SnippetLanguage::Nix)
    } else if s == "nushell"@ || s == "nu"@ {
        Some(SnippetLanguage::Nushell)
    } else if s == "ocaml"@ {
        Some(SnippetLanguage::OCaml)
    } else if s == "perl"@ {
        Some(SnippetLanguage::Perl)
    } else if s == "php"@ {
        Some(SnippetLanguage::Php)
    } else if s == "protobuf"@ {
        Some(SnippetLanguage::Protobuf)
    } else if s == "puppet"@ {
        Some(SnippetLanguage::Puppet)
    } else if s == "python"@ {
        Some(SnippetLanguage::Python)
    } else if s == "r"@ {
        Some(SnippetLanguage::R)
    } else if s == "racket"@ {
        Some(SnippetLanguage::Racket)
    } else if s == "ruby"@ {
        Some(SnippetLanguage::Ruby)
    } else if s == "rust"@ {
        Some(SnippetLanguage::Rust)
    } else if s == "rust-script"@ {
        Some(SnippetLanguage::RustScript)
    } else if s == "scala"@ {
        Some(SnippetLanguage::Scala)
    } else if s == "shell"@ || s == "sh"@ {
        Some(SnippetLanguage::Shell)
    } else if s == "sql"@ {
        Some(SnippetLanguage::Sql)
    } else if s == "svelte"@ {
        Some(SnippetLanguage::Svelte)
    } else if s == "swift"@ {
        Some(SnippetLanguage::Swift)
    } else if s == "tcl"@ {
        Some(SnippetLanguage::Tcl)
    } else if s == "terraform"@ {
        Some(SnippetLanguage::Terraform)
    } else if s == "toml"@ {
        Some(SnippetLanguage::Toml)
    } else if s == "typescript"@ || s == "ts"@ {
        Some(SnippetLanguage::TypeScript)
    } else if s == "typst"@ {
        Some(SnippetLanguage::Typst)
    } else if s == "xml"@ {
        Some(SnippetLanguage::Xml)
    } else if s == "yaml"@ {
        Some(SnippetLanguage::Yaml)
    } else if s == "verilog"@ {
        Some(SnippetLanguage::Verilog)
    } else if s == "vue"@ {
        Some(SnippetLanguage::Vue)
    } else if s == "zig"@ {
        Some(SnippetLanguage::Zig)
    } else if s == "zsh"@ {
        Some(SnippetLanguage::Zsh)
    } else {
        None
    }
}

/// True when `l` is the language the name `tok` denotes: the table entry
/// when the name is known, `Unknown` carrying the name otherwise.
pub open spec fn language_matches(l: SnippetLanguage, tok: Seq<char>) -> bool {
    match known_language_of(tok) {
        Some(k) => l == k,
        None => l matches SnippetLanguage::Unknown(t) && t@ == tok,
    }
}

impl SnippetLanguage {
    /// Resolves a language name; names outside the table become
    /// `Unknown`, so resolution never fails.
    #[verifier::rlimit(50)]
    pub fn from_name(s: &str) -> (r: SnippetLanguage)
        ensures
            language_matches(r, s@),
    {
        if str_eq(s, "ada") {
            SnippetLanguage::Ada
        } else if str_eq(s, "asp") {
            SnippetLanguage::Asp
        } else if str_eq(s, "awk") {
            SnippetLanguage::Awk
        } else if str_eq(s, "bash") {
            SnippetLanguage::Bash
        } else if str_eq(s, "c") {
            SnippetLanguage::C
        } else if str_eq(s, "cmake") {
            SnippetLanguage::CMake
        } else if str_eq(s, "crontab") {
            SnippetLanguage::Crontab
        } else if str_eq(s, "csharp") {
            SnippetLanguage::CSharp
        } else if str_eq(s, "clojure") {
            SnippetLanguage::Clojure
        } else if str_eq(s, "cpp") || str_eq(s, "c++") {
            SnippetLanguage::Cpp
        } else if str_eq(s, "css") {
            SnippetLanguage::Css
        } else if str_eq(s, "d") {
            SnippetLanguage::DLang
        } else if str_eq(s, "diff") {
            SnippetLanguage::Diff
        } else if str_eq(s, "docker") {
            SnippetLanguage::Docker
        } else if str_eq(s, "dotenv") {
            SnippetLanguage::Dotenv
        } else if str_eq(s, "elixir") {
            SnippetLanguage::Elixir
        } else if str_eq(s, "elm") {
            SnippetLanguage::Elm
        } else if str_eq(s, "erlang") {
            SnippetLanguage::Erlang
        } else if str_eq(s, "file") {
            SnippetLanguage::File
        } else if str_eq(s, "fish") {
            SnippetLanguage::Fish
        } else if str_eq(s, "go") {
            SnippetLanguage::Go
        } else if str_eq(s, "graphql") {
            SnippetLanguage::GraphQL
        } else if str_eq(s, "haskell") {
            SnippetLanguage::Haskell
        } else if str_eq(s, "html") {
            SnippetLanguage::Html
        } else if str_eq(s, "java") {
            SnippetLanguage::Java
        } else if str_eq(s, "javascript") || str_eq(s, "js") {
            SnippetLanguage::JavaScript
        } else if str_eq(s, "json") {
            SnippetLanguage::Json
        } else if str_eq(s, "kotlin") {
            SnippetLanguage::Kotlin
        } else if str_eq(s, "latex") {
            SnippetLanguage::Latex
        } else if str_eq(s, "lua") {
            SnippetLanguage::Lua
        } else if str_eq(s, "make") {
            SnippetLanguage::Makefile
        } else if str_eq(s, "markdown") {
            SnippetLanguage::Markdown
        } else if str_eq(s, "mermaid") {
            SnippetLanguage::Mermaid
        } else if str_eq(s, "nix") {
            SnippetLanguage::Nix
        } else if str_eq(s, "nushell") || str_eq(s, "nu") {
            SnippetLanguage::Nushell
        } else if str_eq(s, "ocaml") {
            SnippetLanguage::OCaml
        } else if str_eq(s, "perl") {
            SnippetLanguage::Perl
        } else if str_eq(s, "php") {
            SnippetLanguage::Php
        } else if str_eq(s, "protobuf") {
            SnippetLanguage::Protobuf
        } else if str_eq(s, "puppet") {
            SnippetLanguage::Puppet
        } else if str_eq(s, "python") {
            SnippetLanguage::Python
        } else if str_eq(s, "r") {
            SnippetLanguage::R
        } else if str_eq(s, "racket") {
            SnippetLanguage::Racket
        } else if str_eq(s, "ruby") {
            SnippetLanguage::Ruby
        } else if str_eq(s, "rust") {
            SnippetLanguage::Rust
        } else if str_eq(s, "rust-script") {
            SnippetLanguage::RustScript
        } else if str_eq(s, "scala") {
            SnippetLanguage::Scala
        } else if str_eq(s, "shell") || str_eq(s, "sh") {
            SnippetLanguage::Shell
        } else if str_eq(s, "sql") {
            SnippetLanguage::Sql
        } else if str_eq(s, "svelte") {
            SnippetLanguage::Svelte
        } else if str_eq(s, "swift") {
            SnippetLanguage::Swift
        } else if str_eq(s, "tcl") {
            SnippetLanguage::Tcl
        } else if str_eq(s, "terraform") {
            SnippetLanguage::Terraform
        } else if str_eq(s, "toml") {
            SnippetLanguage::Toml
        } else if str_eq(s, "typescript") || str_eq(s, "ts") {
            SnippetLanguage::TypeScript
        } else if str_eq(s, "typst") {
            SnippetLanguage::Typst
        } else if str_eq(s, "xml") {
            SnippetLanguage::Xml
        } else if str_eq(s, "yaml") {
            SnippetLanguage::Yaml
        } else if str_eq(s, "verilog") {
            SnippetLanguage::Verilog
        } else if str_eq(s, "vue") {
            SnippetLanguage::Vue
        } else if str_eq(s, "zig") {
            SnippetLanguage::Zig
        } else if str_eq(s, "zsh") {
            SnippetLanguage::Zsh
        } else {
            SnippetLanguage::Unknown(s.to_owned())
        }
    }
}

/// A highlighted set of lines.
#[derive(Debug, PartialEq, Eq)]
pub enum Highlight {
    /// Every line.
    All,
    /// One line, counted from one.
    Single(u16),
    /// A half-open range of lines.
    Range(Range<u16>),
}

impl Clone for Highlight {
    /// An equal highlight.
    fn clone(&self) -> (r: Self)
        ensures
            r == self,
    {
        match self {
            Highlight::All => Highlight::All,
            Highlight::Single(n) => Highlight::Single(*n),
            Highlight::Range(rg) => Highlight::Range(rg.start..rg.end),
        }
    }
}

/// True when the highlight `h` covers line `n`.
pub open spec fn highlight_covers(h: Highlight, n: u16) -> bool {
    match h {
        Highlight::All => true,
        Highlight::Single(m) => m == n,
        Highlight::Range(r) => r.start <= n < r.end,
    }
}

/// A group of highlights revealed together as one step.
#[derive(Clone, Debug, PartialEq, Eq)]
pub struct HighlightGroup(pub Vec<Highlight>);

impl HighlightGroup {
    /// A group made of the given highlights.
    pub fn new(highlights: Vec<Highlight>) -> (r: Self)
        ensures
            r.0 == highlights,
    {
        HighlightGroup(highlights)
    }

    /// True when some highlight of the group covers line `line_number`.
    pub fn contains(&self, line_number: u16) -> (r: bool)
        ensures
            r == exists|i: int|
                0 <= i < self.0@.len() && highlight_covers(#[trigger] self.0@[i], line_number),
    {
        let mut i: usize = 0;
        while i < self.0.len()
            invariant
                i <= self.0@.len(),
                forall|k: int| 0 <= k < i ==> !highlight_covers(#[trigger] self.0@[k], line_number),
            decreases self.0@.len() - i,
        {
            let covered = match &self.0[i] {
                Highlight::All => true,
                Highlight::Single(m) => *m == line_number,
                Highlight::Range(r) => r.start <= line_number && line_number < r.end,
            };
            if covered {
                return true;
            }
            i += 1;
        }
        false
    }
}

/// Attributes for code snippets.
#[derive(Clone, Debug, PartialEq, Eq)]
pub struct SnippetAttributes {
    /// Whether the snippet is marked as executable.
    pub execute: bool,
    /// Whether the snippet is an executable block replaced by the output of
    /// its execution.
    pub execute_replace: bool,
    /// Whether the snippet is auto rendered: transformed during parsing into
    /// some visual representation rather than shown as code.
    pub auto_render: bool,
    /// Whether the snippet shows line numbers.
    pub line_numbers: bool,
    /// The groups of lines to highlight; never empty once parsed.
    pub highlight_groups: Vec<HighlightGroup>,
    /// The width of the generated image; only valid with `auto_render`.
    pub width: Option<Percent>,
    /// Whether the snippet is drawn without a background.
    pub no_background: bool,
    /// Whether the snippet acquires the terminal when run.
    pub acquire_terminal: bool,
}

/// The mathematical content of a [`SnippetAttributes`]: highlight groups as
/// sequences and the width as a bare number.
pub struct AttrsView {
    pub execute: bool,
    pub execute_replace: bool,
    pub auto_render: bool,
    pub line_numbers: bool,
    pub highlight_groups: Seq<Seq<Highlight>>,
    pub width: Option<u8>,
    pub no_background: bool,
    pub acquire_terminal: bool,
}

impl View for SnippetAttributes {
    type V = AttrsView;

    open spec fn view(&self) -> AttrsView {
        AttrsView {
            execute: self.execute,
            execute_replace: self.execute_replace,
            auto_render: self.auto_render,
            line_numbers: self.line_numbers,
            highlight_groups: self.highlight_groups@.map_values(|g: HighlightGroup| g.0@),
            width: match self.width {
                Some(p) => Some(p.0),
                None => None,
            },
            no_background: self.no_background,
            acquire_terminal: self.acquire_terminal,
        }
    }
}

impl AttrsView {
    /// Attributes with every flag off and no highlight groups.
    pub open spec fn empty() -> AttrsView {
        AttrsView {
            execute: false,
            execute_replace: false,
            auto_render: false,
            line_numbers: false,
            highlight_groups: Seq::empty(),
            width: None,
            no_background: false,
            acquire_terminal: false,
        }
    }

    /// The invariant every parsed attribute set satisfies: a width is only
    /// present on auto-rendered snippets, and there is always at least one
    /// highlight group.
    pub open spec fn well_formed(self) -> bool {
        (self.width is Some ==> self.auto_render) && self.highlight_groups.len() >= 1
    }
}

impl Default for SnippetAttributes {
    /// Attributes with every flag off and no highlight groups.
    fn default() -> (r: Self)
        ensures
            r@ == AttrsView::empty(),
    {
        let r = SnippetAttributes {
            execute: false,
            execute_replace: false,
            auto_render: false,
            line_numbers: false,
            highlight_groups: Vec::new(),
            width: None,
            no_background: false,
            acquire_terminal: false,
        };
        proof {
            assert(r@.highlight_groups =~= AttrsView::empty().highlight_groups);
        }
        r
    }
}

/// One snippet attribute as written in a block info string.
#[derive(Clone, Debug, PartialEq, Eq)]
pub enum Attribute {
    LineNumbers,
    Exec,
    ExecReplace,
    AutoRender,
    HighlightedLines(Vec<HighlightGroup>),
    Width(Percent),
    NoBackground,
    AcquireTerminal,
}

/// The mathematical content of an [`Attribute`].
pub enum AttrValue {
    LineNumbers,
    Exec,
    ExecReplace,
    AutoRender,
    HighlightedLines(Seq<Seq<Highlight>>),
    Width(u8),
    NoBackground,
    AcquireTerminal,
}

impl View for Attribute {
    type V = AttrValue;

    open spec fn view(&self) -> AttrValue {
        match self {
            Attribute::LineNumbers => AttrValue::LineNumbers,
            Attribute::Exec => AttrValue::Exec,
            Attribute::ExecReplace => AttrValue::ExecReplace,
            Attribute::AutoRender => AttrValue::AutoRender,
            Attribute::HighlightedLines(v) => AttrValue::HighlightedLines(
                v@.map_values(|g: HighlightGroup| g.0@),
            ),
            Attribute::Width(p) => AttrValue::Width(p.0),
            Attribute::NoBackground => AttrValue::NoBackground,
            Attribute::AcquireTerminal => AttrValue::AcquireTerminal,
        }
    }
}

/// Which attribute a token names, used to reject duplicates.
#[derive(Clone, Copy, Debug, PartialEq, Eq, Structural)]
pub enum AttributeKind {
    LineNumbers,
    Exec,
    ExecReplace,
    AutoRender,
    HighlightedLines,
    Width,
    NoBackground,
    AcquireTerminal,
}

/// The kind of an attribute value.
pub open spec fn attr_kind_of(a: AttrValue) -> AttributeKind {
    match a {
        AttrValue::LineNumbers => AttributeKind::LineNumbers,
        AttrValue::Exec => AttributeKind::Exec,
        AttrValue::ExecReplace => AttributeKind::ExecReplace,
        AttrValue::AutoRender => AttributeKind::AutoRender,
        AttrValue::HighlightedLines(_) => AttributeKind::HighlightedLines,
        AttrValue::Width(_) => AttributeKind::Width,
        AttrValue::NoBackground => AttributeKind::NoBackground,
        AttrValue::AcquireTerminal => AttributeKind::AcquireTerminal,
    }
}

impl Attribute {
    /// The kind of this attribute.
    pub fn kind(&self) -> (k: AttributeKind)
        ensures
            k == attr_kind_of(self@),
    {
        match self {
            Attribute::LineNumbers => AttributeKind::LineNumbers,
            Attribute::Exec => AttributeKind::Exec,
            Attribute::ExecReplace => AttributeKind::ExecReplace,
            Attribute::AutoRender => AttributeKind::AutoRender,
            Attribute::HighlightedLines(_) => AttributeKind::HighlightedLines,
            Attribute::Width(_) => AttributeKind::Width,
            Attribute::NoBackground => AttributeKind::NoBackground,
            Attribute::AcquireTerminal => AttributeKind::AcquireTerminal,
        }
    }
}

/// The token at the head of `s`: everything up to its first space.
pub open spec fn first_ident(s: Seq<char>) -> Seq<char> {
    let j = find_in(s, ' ');
    if 0 <= j <= s.len() {
        s.take(j)
    } else {
        s
    }
}

/// The error text for highlight list text that is not a number.
pub open spec fn not_a_number_message(input: Seq<char>) -> Seq<char> {
    "not a number: '"@ + input + "'"@
}

/// The error text for a range endpoint too large for a line number.
pub open spec fn too_large_message(n: int) -> Seq<char> {
    decimal_digits(n) + " is too large"@
}

/// What parsing one number out of a highlight list yields: the text is
/// trimmed, and must then be one or more digits whose value fits in `u16`.
pub open spec fn spec_parse_num(s: Seq<char>) -> Option<u16> {
    let t = spec_trim(s);
    if t.len() >= 1 && all_digits(t) && digits_value(t) <= u16::MAX {
        Some(digits_value(t) as u16)
    } else {
        None
    }
}

/// What parsing one comma-separated piece of a highlight group yields:
/// `all`, a single line number, or a dash-separated inclusive range.
pub open spec fn spec_parse_piece(piece: Seq<char>) -> Result<Highlight, ParseErrorKind> {
    let t = spec_trim(piece);
    if t == "all"@ {
        Ok(Highlight::All)
    } else {
        let j = find_in(t, '-');
        if 0 <= j < t.len() {
            let left = t.take(j);
            let right = t.skip(j + 1);
            match spec_parse_num(left) {
                None => Err(ParseErrorKind::InvalidHighlightedLines(not_a_number_message(left))),
                Some(l) => match spec_parse_num(right) {
                    None => Err(
                        ParseErrorKind::InvalidHighlightedLines(not_a_number_message(right)),
                    ),
                    Some(r) => if r == u16::MAX {
                        Err(ParseErrorKind::InvalidHighlightedLines(too_large_message(r as int)))
                    } else {
                        Ok(Highlight::Range((l..(r + 1) as u16)))
                    },
                },
            }
        } else {
            match spec_parse_num(t) {
                None => Err(ParseErrorKind::InvalidHighlightedLines(not_a_number_message(t))),
                Some(n) => Ok(Highlight::Single(n)),
            }
        }
    }
}

/// What parsing one highlight group (comma-separated pieces) yields.
pub open spec fn spec_parse_group(s: Seq<char>) -> Result<Seq<Highlight>, ParseErrorKind>
    decreases s.len(),
{
    let j = find_in(s, ',');
    if 0 <= j < s.len() {
        match spec_parse_piece(s.take(j)) {
            Err(e) => Err(e),
            Ok(h) => match spec_parse_group(s.skip(j + 1)) {
                Err(e) => Err(e),
                Ok(rest) => Ok(seq![h] + rest),
            },
        }
    } else {
        match spec_parse_piece(s) {
            Err(e) => Err(e),
            Ok(h) => Ok(seq![h]),
        }
    }
}

/// What parsing a pipe-separated list of highlight groups yields.
pub open spec fn spec_parse_groups_list(s: Seq<char>) -> Result<
    Seq<Seq<Highlight>>,
    ParseErrorKind,
>
    decreases s.len(),
{
    let j = find_in(s, '|');
    if 0 <= j < s.len() {
        match spec_parse_group(s.take(j)) {
            Err(e) => Err(e),
            Ok(g) => match spec_parse_groups_list(s.skip(j + 1)) {
                Err(e) => Err(e),
                Ok(rest) => Ok(seq![g] + rest),
            },
        }
    } else {
        match spec_parse_group(s) {
            Err(e) => Err(e),
            Ok(g) => Ok(seq![g]),
        }
    }
}

/// What parsing a braced highlight attribute yields, given the text after
/// the opening brace: the groups, and how many characters were consumed
/// (the closing brace included).
pub open spec fn spec_parse_highlight_attr(s: Seq<char>) -> Result<
    (Seq<Seq<Highlight>>, int),
    ParseErrorKind,
> {
    let b = find_in(s, '}');
    if !(0 <= b < s.len()) {
        Err(ParseErrorKind::InvalidHighlightedLines("no enclosing '}'"@))
    } else {
        let head = spec_trim(s.take(b));
        if head.len() == 0 {
            Ok((Seq::empty(), b + 1))
        } else {
            match spec_parse_groups_list(head) {
                Err(e) => Err(e),
                Ok(gs) => Ok((gs, b + 1)),
            }
        }
    }
}

/// The outcome of parsing one attribute off the head of the remaining
/// block info text.
pub enum AttrStep {
    /// Only whitespace is left.
    End,
    /// One attribute, and how many characters it consumed.
    Found(AttrValue, int),
    /// The head is malformed.
    Fail(ParseErrorKind),
}

/// What parsing one attribute off the head of `s` yields.
pub open spec fn spec_parse_attribute(s: Seq<char>) -> AttrStep {
    let ws = leading_spaces(s);
    if !(0 <= ws < s.len()) {
        AttrStep::End
    } else if s[ws] == '+' {
        let after = s.skip(ws + 1);
        let tok = first_ident(after);
        if tok == "line_numbers"@ {
            AttrStep::Found(AttrValue::LineNumbers, ws + 1 + tok.len())
        } else if tok == "exec"@ {
            AttrStep::Found(AttrValue::Exec, ws + 1 + tok.len())
        } else if tok == "exec_replace"@ {
            AttrStep::Found(AttrValue::ExecReplace, ws + 1 + tok.len())
        } else if tok == "render"@ {
            AttrStep::Found(AttrValue::AutoRender, ws + 1 + tok.len())
        } else if tok == "no_background"@ {
            AttrStep::Found(AttrValue::NoBackground, ws + 1 + tok.len())
        } else if tok == "acquire_terminal"@ {
            AttrStep::Found(AttrValue::AcquireTerminal, ws + 1 + tok.len())
        } else if tok.len() >= 6 && tok.take(6) == "width:"@ {
            let value = after.skip(6);
            let vend = {
                let j = find_in(value, ' ');
                if 0 <= j <= value.len() {
                    j
                } else {
                    value.len() as int
                }
            };
            match spec_parse_percent(value.take(vend)) {
                Ok(p) => AttrStep::Found(AttrValue::Width(p), ws + 7 + vend),
                Err(e) => AttrStep::Fail(ParseErrorKind::InvalidWidth(e)),
            }
        } else {
            AttrStep::Fail(ParseErrorKind::InvalidToken(first_ident(s.skip(ws))))
        }
    } else if s[ws] == '{' {
        match spec_parse_highlight_attr(s.skip(ws + 1)) {
            Ok((gs, consumed)) => AttrStep::Found(
                AttrValue::HighlightedLines(gs),
                ws + 1 + consumed,
            ),
            Err(e) => AttrStep::Fail(e),
        }
    } else {
        AttrStep::Fail(ParseErrorKind::InvalidToken(first_ident(s.skip(ws))))
    }
}

/// `acc` updated with one parsed attribute.
pub open spec fn apply_attr(acc: AttrsView, a: AttrValue) -> AttrsView {
    match a {
        AttrValue::LineNumbers => AttrsView { line_numbers: true, ..acc },
        AttrValue::Exec => AttrsView { execute: true, ..acc },
        AttrValue::ExecReplace => AttrsView { execute_replace: true, ..acc },
        AttrValue::AutoRender => AttrsView { auto_render: true, ..acc },
        AttrValue::NoBackground => AttrsView { no_background: true, ..acc },
        AttrValue::AcquireTerminal => AttrsView { acquire_terminal: true, ..acc },
        AttrValue::HighlightedLines(gs) => AttrsView { highlight_groups: gs, ..acc },
        AttrValue::Width(p) => AttrsView { width: Some(p), ..acc },
    }
}

/// What parsing the rest of the attribute list yields, given the
/// attributes and attribute kinds already seen.
pub open spec fn spec_parse_attributes_rec(
    s: Seq<char>,
    acc: AttrsView,
    seen: Seq<AttributeKind>,
) -> Result<AttrsView, ParseErrorKind>
    decreases s.len(),
{
    match spec_parse_attribute(s) {
        AttrStep::End => Ok(acc),
        AttrStep::Fail(e) => Err(e),
        AttrStep::Found(a, consumed) => if seen.contains(attr_kind_of(a)) {
            Err(ParseErrorKind::DuplicateAttribute("duplicate attribute"@))
        } else if 1 <= consumed <= s.len() {
            spec_parse_attributes_rec(
                s.skip(consumed),
                apply_attr(acc, a),
                seen.push(attr_kind_of(a)),
            )
        } else {
            Err(ParseErrorKind::DuplicateAttribute("duplicate attribute"@))
        },
    }
}

/// What parsing a whole attribute list yields: the parsed attributes, with
/// one group highlighting every line when none was given.
pub open spec fn spec_parse_attributes(s: Seq<char>) -> Result<AttrsView, ParseErrorKind> {
    match spec_parse_attributes_rec(s, AttrsView::empty(), Seq::empty()) {
        Err(e) => Err(e),
        Ok(a) => Ok(
            if a.highlight_groups.len() == 0 {
                AttrsView { highlight_groups: seq![seq![Highlight::All]], ..a }
            } else {
                a
            },
        ),
    }
}

/// What parsing a whole block info string yields for the attribute part:
/// the text after the language token is parsed as attributes, and a width
/// is rejected unless the snippet is auto-rendered.
pub open spec fn spec_block_info(s: Seq<char>) -> Result<AttrsView, ParseErrorKind> {
    let rest = s.skip(first_ident(s).len() as int);
    match spec_parse_attributes(rest) {
        Err(e) => Err(e),
        Ok(a) => if a.width is Some && !a.auto_render {
            Err(ParseErrorKind::NotRenderSnippet("width"@))
        } else {
            Ok(a)
        },
    }
}

/// A code snippet.
#[derive(Clone, Debug, PartialEq, Eq)]
pub struct Snippet {
    /// The snippet itself.
    pub contents: String,
    /// The programming language this snippet is written in.
    pub language: SnippetLanguage,
    /// The attributes used for the snippet.
    pub attributes: SnippetAttributes,
}

/// The result of parsing part of a block info string.
pub type ParseResult<T> = Result<T, CodeBlockParseError>;

/// Parser for code block info strings such as `bash +exec {1-3|5}`.
pub struct CodeBlockParser;

/// True when `processed` already holds `kind`.
fn kind_seen(processed: &Vec<AttributeKind>, kind: AttributeKind) -> (r: bool)
    ensures
        r == processed@.contains(kind),
{
    let mut i: usize = 0;
    while i < processed.len()
        invariant
            i <= processed@.len(),
            forall|k: int| 0 <= k < i ==> processed@[k] != kind,
        decreases processed@.len() - i,
    {
        if processed[i] == kind {
            return true;
        }
        i += 1;
    }
    false
}

impl CodeBlockParser {
    /// Parses a block info string and snippet contents into a [`Snippet`].
    ///
    /// Succeeds exactly when the attribute part of the info string parses
    /// and its width, if any, comes with `+render`; the resulting attribute
    /// set is then well formed.
    pub fn parse(info: String, code: String) -> (r: ParseResult<Snippet>)
        ensures
            match r {
                Ok(s) => spec_block_info(info@) == Ok::<AttrsView, ParseErrorKind>(s.attributes@)
                    && language_matches(s.language, first_ident(info@)) && s.contents@ == code@
                    && s.attributes@.well_formed(),
                Err(e) => spec_block_info(info@) matches Err(k) && e.kind() == k,
            },
    {
        match Self::parse_block_info(info.as_str()) {
            Ok((language, attributes)) => Ok(Snippet { contents: code, language, attributes }),
            Err(e) => Err(e),
        }
    }

    /// Parses a block info string into its language and attributes.
    pub fn parse_block_info(input: &str) -> (r: ParseResult<(SnippetLanguage, SnippetAttributes)>)
        ensures
            match r {
                Ok((lang, attrs)) => spec_block_info(input@) == Ok::<AttrsView, ParseErrorKind>(
                    attrs@,
                ) && language_matches(lang, first_ident(input@)) && attrs@.well_formed(),
                Err(e) => spec_block_info(input@) matches Err(k) && e.kind() == k,
            },
    {
        let (language, rest) = Self::parse_language(input);
        match Self::parse_attributes(rest) {
            Err(e) => Err(e),
            Ok(attributes) => {
                if attributes.width.is_some() && !attributes.auto_render {
                    Err(CodeBlockParseError::NotRenderSnippet("width".to_owned()))
                } else {
                    Ok((language, attributes))
                }
            },
        }
    }

    /// Splits the language token off the head of a block info string and
    /// resolves it; resolution never fails.
    pub fn parse_language<'a>(input: &'a str) -> (r: (SnippetLanguage, &'a str))
        ensures
            language_matches(r.0, first_ident(input@)),
            r.1@ == input@.skip(first_ident(input@).len() as int),
    {
        let len = input.unicode_len();
        let j = match find_char(input, 0, ' ') {
            Some(j) => j,
            None => len,
        };
        proof {
            lemma_find_in(input@, ' ', j as int);
        }
        let token = input.substring_char(0, j);
        proof {
            assert(token@ =~= first_ident(input@));
        }
        let language = SnippetLanguage::from_name(token);
        let rest = input.substring_char(j, len);
        proof {
            assert(rest@ =~= input@.skip(first_ident(input@).len() as int));
        }
        (language, rest)
    }

    /// Parses the attribute list that follows the language token.
    pub fn parse_attributes(input: &str) -> (r: ParseResult<SnippetAttributes>)
        ensures
            match r {
                Ok(a) => spec_parse_attributes(input@) == Ok::<AttrsView, ParseErrorKind>(a@)
                    && a@.highlight_groups.len() >= 1,
                Err(e) => spec_parse_attributes(input@) matches Err(k) && e.kind() == k,
            },
    {
        let mut attributes = SnippetAttributes::default();
        let mut processed: Vec<AttributeKind> = Vec::new();
        let mut current: &str = input;
        loop
            invariant
                spec_parse_attributes_rec(input@, AttrsView::empty(), Seq::empty())
                    == spec_parse_attributes_rec(current@, attributes@, processed@),
            decreases current@.len(),
        {
            match Self::parse_attribute(current) {
                Err(e) => {
                    return Err(e);
                },
                Ok((maybe, rest)) => {
                    match maybe {
                        None => {
                            if attributes.highlight_groups.len() == 0 {
                                let mut hs: Vec<Highlight> = Vec::new();
                                hs.push(Highlight::All);
                                let group = HighlightGroup::new(hs);
                                let ghost before = attributes@;
                                attributes.highlight_groups.push(group);
                                proof {
                                    assert(attributes@.highlight_groups =~= seq![
                                        seq![Highlight::All],
                                    ]);
                                    assert(attributes@ =~= (AttrsView {
                                        highlight_groups: seq![seq![Highlight::All]],
                                        ..before
                                    }));
                                }
                            }
                            return Ok(attributes);
                        },
                        Some(a) => {
                            let kind = a.kind();
                            if kind_seen(&processed, kind) {
                                return Err(
                                    CodeBlockParseError::DuplicateAttribute(
                                        "duplicate attribute".to_owned(),
                                    ),
                                );
                            }
                            let ghost before = attributes@;
                            let ghost av = a@;
                            match a {
                                Attribute::LineNumbers => attributes.line_numbers = true,
                                Attribute::Exec => attributes.execute = true,
                                Attribute::ExecReplace => attributes.execute_replace = true,
                                Attribute::AutoRender => attributes.auto_render = true,
                                Attribute::NoBackground => attributes.no_background = true,
                                Attribute::AcquireTerminal => attributes.acquire_terminal = true,
                                Attribute::HighlightedLines(v) => attributes.highlight_groups = v,
                                Attribute::Width(p) => attributes.width = Some(p),
                            }
                            proof {
                                assert(attributes@ =~= apply_attr(before, av));
                            }
                            processed.push(kind);
                            current = rest;
                        },
                    }
                },
            }
        }
    }

    /// Parses one attribute off the head of the remaining input: a `+name`
    /// token, a braced highlight group list, or nothing but whitespace.
    #[verifier::rlimit(100)]
    pub fn parse_attribute<'a>(input: &'a str) -> (r: ParseResult<(Option<Attribute>, &'a str)>)
        ensures
            match r {
                Ok((maybe, rest)) => match spec_parse_attribute(input@) {
                    AttrStep::End => maybe is None,
                    AttrStep::Found(v, c) => maybe matches Some(a) && a@ == v && 1 <= c
                        <= input@.len() && rest@ == input@.skip(c),
                    AttrStep::Fail(_) => false,
                },
                Err(e) => spec_parse_attribute(input@) matches AttrStep::Fail(k) && e.kind() == k,
            },
    {
        proof {
            reveal_strlit("width:");
        }
        let len = input.unicode_len();
        let ws = skip_spaces(input, 0);
        proof {
            lemma_leading_spaces(input@, ws as int);
        }
        if ws == len {
            return Ok((None, input));
        }
        let c = input.get_char(ws);
        if c == '+' {
            let tok_end = match find_char(input, ws + 1, ' ') {
                Some(j) => j,
                None => len,
            };
            let ghost after = input@.skip(ws + 1);
            proof {
                assert forall|k: int| 0 <= k < tok_end - (ws + 1) implies after[k] != ' ' by {
                    assert(after[k] == input@[ws + 1 + k]);
                }
                if tok_end < len {
                    assert(after[tok_end - (ws + 1)] == input@[tok_end as int]);
                }
                lemma_find_in(after, ' ', tok_end - (ws + 1));
            }
            let token = input.substring_char(ws + 1, tok_end);
            proof {
                assert(token@ =~= first_ident(after));
            }
            let rest = input.substring_char(tok_end, len);
            proof {
                assert(rest@ =~= input@.skip(ws + 1 + token@.len()));
            }
            if str_eq(token, "line_numbers") {
                Ok((Some(Attribute::LineNumbers), rest))
            } else if str_eq(token, "exec") {
                Ok((Some(Attribute::Exec), rest))
            } else if str_eq(token, "exec_replace") {
                Ok((Some(Attribute::ExecReplace), rest))
            } else if str_eq(token, "render") {
                Ok((Some(Attribute::AutoRender), rest))
            } else if str_eq(token, "no_background") {
                Ok((Some(Attribute::NoBackground), rest))
            } else if str_eq(token, "acquire_terminal") {
                Ok((Some(Attribute::AcquireTerminal), rest))
            } else if tok_end - (ws + 1) >= 6 && region_matches(input, ws + 1, "width:") {
                proof {
                    assert(first_ident(after).take(6) =~= input@.subrange(
                        ws + 1,
                        ws + 1 + "width:"@.len(),
                    ));
                }
                let vstart = ws + 1 + 6;
                let vend = match find_char(input, vstart, ' ') {
                    Some(j) => j,
                    None => len,
                };
                let ghost value = after.skip(6);
                proof {
                    assert(value =~= input@.skip(vstart as int));
                    assert forall|k: int| 0 <= k < vend - vstart implies value[k] != ' ' by {
                        assert(value[k] == input@[vstart + k]);
                    }
                    if vend < len {
                        assert(value[vend - vstart] == input@[vend as int]);
                    }
                    lemma_find_in(value, ' ', vend - vstart);
                }
                let piece = input.substring_char(vstart, vend);
                proof {
                    assert(piece@ =~= value.take(vend - vstart));
                }
                match Percent::parse(piece) {
                    Ok(p) => {
                        let vrest = input.substring_char(vend, len);
                        proof {
                            assert(vrest@ =~= input@.skip(ws + 7 + (vend - vstart)));
                        }
                        Ok((Some(Attribute::Width(p)), vrest))
                    },
                    Err(e) => Err(CodeBlockParseError::InvalidWidth(e)),
                }
            } else {
                proof {
                    if tok_end - (ws + 1) >= 6 {
                        assert(first_ident(after).take(6) =~= input@.subrange(
                            ws + 1,
                            ws + 1 + "width:"@.len(),
                        ));
                    }
                }
                let tok2_end = match find_char(input, ws, ' ') {
                    Some(j) => j,
                    None => len,
                };
                let ghost from_ws = input@.skip(ws as int);
                proof {
                    assert forall|k: int| 0 <= k < tok2_end - ws implies from_ws[k] != ' ' by {
                        assert(from_ws[k] == input@[ws + k]);
                    }
                    if tok2_end < len {
                        assert(from_ws[tok2_end - ws] == input@[tok2_end as int]);
                    }
                    lemma_find_in(from_ws, ' ', tok2_end - ws);
                }
                let bad = input.substring_char(ws, tok2_end);
                proof {
                    assert(bad@ =~= first_ident(from_ws));
                }
                Err(CodeBlockParseError::InvalidToken(bad.to_owned()))
            }
        } else if c == '{' {
            let sub = input.substring_char(ws + 1, len);
            proof {
                assert(sub@ =~= input@.skip(ws + 1));
            }
            match Self::parse_highlight_groups(sub) {
                Ok((groups, rest)) => {
                    proof {
                        let consumed = spec_parse_highlight_attr(sub@)->Ok_0.1;
                        assert(sub@.skip(consumed) =~= input@.skip(ws + 1 + consumed));
                    }
                    Ok((Some(Attribute::HighlightedLines(groups)), rest))
                },
                Err(e) => Err(e),
            }
        } else {
            let tok2_end = match find_char(input, ws, ' ') {
                Some(j) => j,
                None => len,
            };
            let ghost from_ws = input@.skip(ws as int);
            proof {
                assert forall|k: int| 0 <= k < tok2_end - ws implies from_ws[k] != ' ' by {
                    assert(from_ws[k] == input@[ws + k]);
                }
                if tok2_end < len {
                    assert(from_ws[tok2_end - ws] == input@[tok2_end as int]);
                }
                lemma_find_in(from_ws, ' ', tok2_end - ws);
            }
            let bad = input.substring_char(ws, tok2_end);
            proof {
                assert(bad@ =~= first_ident(from_ws));
            }
            Err(CodeBlockParseError::InvalidToken(bad.to_owned()))
        }
    }

    /// Parses a braced highlight group list, the opening brace already
    /// consumed, and returns the groups and the text after the closing
    /// brace.
    pub fn parse_highlight_groups<'a>(input: &'a str) -> (r: ParseResult<
        (Vec<HighlightGroup>, &'a str),
    >)
        ensures
            match r {
                Ok((gs, rest)) => spec_parse_highlight_attr(input@) matches Ok((gseq, consumed))
                    && gs@.map_values(|g: HighlightGroup| g.0@) == gseq && 1 <= consumed
                    <= input@.len() && rest@ == input@.skip(consumed),
                Err(e) => spec_parse_highlight_attr(input@) matches Err(k) && e.kind() == k,
            },
    {
        let len = input.unicode_len();
        let b = match find_char(input, 0, '}') {
            Some(b) => b,
            None => {
                proof {
                    lemma_find_in(input@, '}', len as int);
                }
                return Err(
                    CodeBlockParseError::InvalidHighlightedLines("no enclosing '}'".to_owned()),
                );
            },
        };
        proof {
            lemma_find_in(input@, '}', b as int);
        }
        let (hlo, hhi) = trim_region(input, 0, b);
        let ghost head_raw = input@.take(b as int);
        let ghost head = spec_trim(head_raw);
        proof {
            assert forall|k: int| 0 <= k < hlo implies is_space(#[trigger] head_raw[k]) by {
                assert(head_raw[k] == input@[k]);
            }
            assert forall|k: int| hhi <= k < head_raw.len() implies is_space(
                #[trigger] head_raw[k],
            ) by {
                assert(head_raw[k] == input@[k]);
            }
            lemma_trim_region(head_raw, hlo as int, hhi as int);
            assert(head =~= input@.subrange(hlo as int, hhi as int));
        }
        let rest = input.substring_char(b + 1, len);
        proof {
            assert(rest@ =~= input@.skip(b + 1));
        }
        if hlo == hhi {
            let gs: Vec<HighlightGroup> = Vec::new();
            proof {
                assert(gs@.map_values(|g: HighlightGroup| g.0@) =~= Seq::<Seq<Highlight>>::empty());
            }
            return Ok((gs, rest));
        }
        let mut groups: Vec<HighlightGroup> = Vec::new();
        let mut pos = hlo;
        proof {
            assert(groups@.map_values(|g: HighlightGroup| g.0@) =~= Seq::<Seq<Highlight>>::empty());
            if spec_parse_groups_list(head) is Ok {
                let m = spec_parse_groups_list(head)->Ok_0;
                assert(Seq::<Seq<Highlight>>::empty() + m =~= m);
            }
        }
        loop
            invariant
                hlo <= pos <= hhi <= b < len,
                len == input@.len(),
                hlo < hhi,
                head == input@.subrange(hlo as int, hhi as int),
                spec_parse_groups_list(head) == (match spec_parse_groups_list(
                    input@.subrange(pos as int, hhi as int),
                ) {
                    Ok(more) => Ok::<Seq<Seq<Highlight>>, ParseErrorKind>(
                        groups@.map_values(|g: HighlightGroup| g.0@) + more,
                    ),
                    Err(e) => Err::<Seq<Seq<Highlight>>, ParseErrorKind>(e),
                }),
                spec_parse_highlight_attr(input@) == (match spec_parse_groups_list(head) {
                    Ok(gs2) => Ok::<(Seq<Seq<Highlight>>, int), ParseErrorKind>((gs2, b + 1)),
                    Err(e) => Err::<(Seq<Seq<Highlight>>, int), ParseErrorKind>(e),
                }),
                rest@ == input@.skip(b + 1),
            decreases hhi - pos,
        {
            let ghost remaining = input@.subrange(pos as int, hhi as int);
            let (gend, more) = match find_char_in(input, pos, hhi, '|') {
                Some(j) => (j, true),
                None => (hhi, false),
            };
            proof {
                assert forall|k: int| 0 <= k < gend - pos implies remaining[k] != '|' by {
                    assert(remaining[k] == input@[pos + k]);
                }
                if more {
                    assert(remaining[gend - pos] == input@[gend as int]);
                }
                lemma_find_in(remaining, '|', gend - pos);
                if !more {
                    assert(remaining.take(gend - pos) =~= remaining);
                }
            }
            let sub = input.substring_char(pos, gend);
            proof {
                assert(sub@ =~= remaining.take(gend - pos));
            }
            match Self::parse_highlight_group(sub) {
                Err(e) => {
                    return Err(e);
                },
                Ok(g) => {
                    let ghost gv = g.0@;
                    let ghost previous = groups@.map_values(|g2: HighlightGroup| g2.0@);
                    groups.push(g);
                    proof {
                        assert(groups@.map_values(|g2: HighlightGroup| g2.0@) =~= previous.push(
                            gv,
                        ));
                    }
                    if more {
                        proof {
                            let rem2 = input@.subrange(gend + 1, hhi as int);
                            assert(remaining.skip(gend + 1 - pos) =~= rem2);
                            if spec_parse_groups_list(rem2) is Ok {
                                let m = spec_parse_groups_list(rem2)->Ok_0;
                                assert(previous + (seq![gv] + m) =~= previous.push(gv) + m);
                            }
                        }
                        pos = gend + 1;
                    } else {
                        proof {
                            assert(previous + seq![gv] =~= previous.push(gv));
                        }
                        return Ok((groups, rest));
                    }
                },
            }
        }
    }

    /// Parses one highlight group: comma-separated pieces, each `all`, a
    /// line number, or a range.
    pub fn parse_highlight_group(input: &str) -> (r: ParseResult<HighlightGroup>)
        ensures
            match r {
                Ok(g) => spec_parse_group(input@) == Ok::<Seq<Highlight>, ParseErrorKind>(g.0@),
                Err(e) => spec_parse_group(input@) matches Err(k) && e.kind() == k,
            },
    {
        let len = input.unicode_len();
        let mut highlights: Vec<Highlight> = Vec::new();
        let mut pos: usize = 0;
        proof {
            assert(input@.skip(0) =~= input@);
            if spec_parse_group(input@) is Ok {
                let m = spec_parse_group(input@)->Ok_0;
                assert(highlights@ + m =~= m);
            }
        }
        loop
            invariant
                pos <= len,
                len == input@.len(),
                spec_parse_group(input@) == (match spec_parse_group(input@.skip(pos as int)) {
                    Ok(more) => Ok::<Seq<Highlight>, ParseErrorKind>(highlights@ + more),
                    Err(e) => Err::<Seq<Highlight>, ParseErrorKind>(e),
                }),
            decreases len - pos,
        {
            let ghost remaining = input@.skip(pos as int);
            let (pend, more) = match find_char(input, pos, ',') {
                Some(j) => (j, true),
                None => (len, false),
            };
            proof {
                assert forall|k: int| 0 <= k < pend - pos implies remaining[k] != ',' by {
                    assert(remaining[k] == input@[pos + k]);
                }
                if more {
                    assert(remaining[pend - pos] == input@[pend as int]);
                }
                lemma_find_in(remaining, ',', pend - pos);
                assert(remaining.take(pend - pos) =~= input@.subrange(pos as int, pend as int));
                if !more {
                    assert(remaining.take(pend - pos) =~= remaining);
                }
            }
            match Self::parse_piece(input, pos, pend) {
                Err(e) => {
                    return Err(e);
                },
                Ok(h) => {
                    let ghost hv = h;
                    let ghost previous = highlights@;
                    highlights.push(h);
                    proof {
                        assert(highlights@ =~= previous.push(hv));
                    }
                    if more {
                        proof {
                            let rem2 = input@.skip(pend + 1);
                            assert(remaining.skip(pend + 1 - pos) =~= rem2);
                            if spec_parse_group(rem2) is Ok {
                                let m = spec_parse_group(rem2)->Ok_0;
                                assert(previous + (seq![hv] + m) =~= previous.push(hv) + m);
                            }
                        }
                        pos = pend + 1;
                    } else {
                        proof {
                            assert(previous + seq![hv] =~= previous.push(hv));
                        }
                        return Ok(HighlightGroup(highlights));
                    }
                },
            }
        }
    }

    /// Parses one comma-separated piece of a highlight group, the region
    /// `[lo, hi)` of `s`.
    fn parse_piece(s: &str, lo: usize, hi: usize) -> (r: ParseResult<Highlight>)
        requires
            lo <= hi <= s@.len(),
        ensures
            match r {
                Ok(h) => spec_parse_piece(s@.subrange(lo as int, hi as int))
                    == Ok::<Highlight, ParseErrorKind>(h),
                Err(e) => spec_parse_piece(s@.subrange(lo as int, hi as int)) matches Err(k)
                    && e.kind() == k,
            },
    {
        let ghost piece = s@.subrange(lo as int, hi as int);
        let (tlo, thi) = trim_region(s, lo, hi);
        let ghost t = spec_trim(piece);
        proof {
            assert forall|k: int| 0 <= k < tlo - lo implies is_space(#[trigger] piece[k]) by {
                assert(piece[k] == s@[lo + k]);
            }
            assert forall|k: int| thi - lo <= k < piece.len() implies is_space(
                #[trigger] piece[k],
            ) by {
                assert(piece[k] == s@[lo + k]);
            }
            lemma_trim_region(piece, tlo - lo, thi - lo);
            assert(t =~= s@.subrange(tlo as int, thi as int));
        }
        let trimmed = s.substring_char(tlo, thi);
        proof {
            assert(trimmed@ =~= t);
        }
        if str_eq(trimmed, "all") {
            return Ok(Highlight::All);
        }
        let dash = find_char_in(s, tlo, thi, '-');
        match dash {
            None => {
                proof {
                    assert forall|k: int| 0 <= k < t.len() implies t[k] != '-' by {
                        assert(t[k] == s@[tlo + k]);
                    }
                    lemma_find_in(t, '-', t.len() as int);
                }
                match Self::parse_number(trimmed) {
                    Ok(n) => Ok(Highlight::Single(n)),
                    Err(e) => Err(e),
                }
            },
            Some(d) => {
                proof {
                    assert forall|k: int| 0 <= k < d - tlo implies t[k] != '-' by {
                        assert(t[k] == s@[tlo + k]);
                    }
                    assert(t[d - tlo] == s@[d as int]);
                    lemma_find_in(t, '-', d - tlo);
                }
                let left = s.substring_char(tlo, d);
                let right = s.substring_char(d + 1, thi);
                proof {
                    assert(left@ =~= t.take(d - tlo));
                    assert(right@ =~= t.skip(d - tlo + 1));
                }
                match Self::parse_number(left) {
                    Err(e) => Err(e),
                    Ok(l) => match Self::parse_number(right) {
                        Err(e) => Err(e),
                        Ok(rv) => {
                            if rv == u16::MAX {
                                let mut message = decimal_string(rv as usize);
                                message.append(" is too large");
                                Err(CodeBlockParseError::InvalidHighlightedLines(message))
                            } else {
                                Ok(Highlight::Range(l..rv + 1))
                            }
                        },
                    },
                }
            },
        }
    }

    /// Parses a line number out of a highlight group piece: the text,
    /// trimmed, must be decimal digits whose value fits in `u16`.
    pub fn parse_number(input: &str) -> (r: ParseResult<u16>)
        ensures
            match r {
                Ok(n) => spec_parse_num(input@) == Some(n),
                Err(e) => spec_parse_num(input@) is None && e.kind()
                    == ParseErrorKind::InvalidHighlightedLines(not_a_number_message(input@)),
            },
    {
        let len = input.unicode_len();
        let (lo, hi) = trim_region(input, 0, len);
        proof {
            lemma_trim_region(input@, lo as int, hi as int);
        }
        match parse_u16_region(input, lo, hi) {
            Some(v) => Ok(v),
            None => {
                let mut message = "not a number: '".to_owned();
                message.append(input);
                message.append("'");
                Err(CodeBlockParseError::InvalidHighlightedLines(message))
            },
        }
    }

    /// Parses a width percentage and returns the text after it.
    pub fn parse_width<'a>(input: &'a str) -> (r: ParseResult<(Percent, &'a str)>)
        ensures
            ({
                let vend = {
                    let j = find_in(input@, ' ');
                    if 0 <= j <= input@.len() {
                        j
                    } else {
                        input@.len() as int
                    }
                };
                match r {
                    Ok((p, rest)) => spec_parse_percent(input@.take(vend)) == Ok::<
                        u8,
                        PercentParseError,
                    >(p.0) && rest@ == input@.skip(vend),
                    Err(e) => spec_parse_percent(input@.take(vend)) matches Err(pe) && e.kind()
                        == ParseErrorKind::InvalidWidth(pe),
                }
            }),
    {
        let len = input.unicode_len();
        let end = match find_char(input, 0, ' ') {
            Some(j) => j,
            None => len,
        };
        proof {
            lemma_find_in(input@, ' ', end as int);
        }
        let value = input.substring_char(0, end);
        proof {
            assert(value@ =~= input@.take(end as int));
        }
        match Percent::parse(value) {
            Ok(p) => {
                let rest = input.substring_char(end, len);
                proof {
                    assert(rest@ =~= input@.skip(end as int));
                }
                Ok((p, rest))
            },
            Err(e) => Err(CodeBlockParseError::InvalidWidth(e)),
        }
    }

    /// The input with leading whitespace removed.
    pub fn skip_whitespace<'a>(input: &'a str) -> (r: &'a str)
        ensures
            r@ == input@.skip(leading_spaces(input@)),
    {
        let len = input.unicode_len();
        let ws = skip_spaces(input, 0);
        proof {
            lemma_leading_spaces(input@, ws as int);
            assert(input@.subrange(ws as int, len as int) =~= input@.skip(ws as int));
        }
        input.substring_char(ws, len)
    }

    /// The token at the head of the input: everything up to its first
    /// space.
    pub fn next_identifier<'a>(input: &'a str) -> (r: &'a str)
        ensures
            r@ == first_ident(input@),
    {
        let len = input.unicode_len();
        let j = match find_char(input, 0, ' ') {
            Some(j) => j,
            None => len,
        };
        proof {
            lemma_find_in(input@, ' ', j as int);
        }
        let token = input.substring_char(0, j);
        proof {
            assert(token@ =~= first_ident(input@));
        }
        token
    }
}

/// The characters of an optional prefix.
pub open spec fn prefix_view(p: Option<&str>) -> Option<Seq<char>> {
    match p {
        Some(q) => Some(q@),
        None => None,
    }
}

/// The characters of an optional owned prefix.
pub open spec fn stored_prefix_view(p: Option<String>) -> Option<Seq<char>> {
    match p {
        Some(q) => Some(q@),
        None => None,
    }
}

/// True when a line is hidden: a hidden-line prefix is set and the line
/// starts with it.
pub open spec fn line_hidden(l: Seq<char>, prefix: Option<Seq<char>>) -> bool {
    match prefix {
        Some(q) => l.len() >= q.len() && l.take(q.len() as int) == q,
        None => false,
    }
}

/// The lines among `lines` that are not hidden by `prefix`, in order.
pub open spec fn filter_visible(lines: Seq<Seq<char>>, prefix: Option<Seq<char>>) -> Seq<Seq<char>>
    decreases lines.len(),
{
    if lines.len() == 0 {
        Seq::empty()
    } else {
        let rest = filter_visible(lines.drop_last(), prefix);
        if !line_hidden(lines.last(), prefix) {
            rest.push(lines.last())
        } else {
            rest
        }
    }
}

/// The lines of `contents` that are not hidden by `prefix`.
pub open spec fn visible_lines_spec(contents: Seq<char>, prefix: Option<Seq<char>>) -> Seq<
    Seq<char>,
> {
    filter_visible(spec_lines(contents), prefix)
}

/// One hidden-line prefix stripped off the head of a line, when present.
pub open spec fn strip_line_prefix(l: Seq<char>, q: Seq<char>) -> Seq<char> {
    if l.len() >= q.len() && l.take(q.len() as int) == q {
        l.skip(q.len() as int)
    } else {
        l
    }
}

/// The lines, each with the hidden-line prefix stripped, joined with line
/// feeds, one after every line.
pub open spec fn joined_stripped(lines: Seq<Seq<char>>, q: Seq<char>) -> Seq<char>
    decreases lines.len(),
{
    if lines.len() == 0 {
        Seq::empty()
    } else {
        strip_line_prefix(lines[0], q) + seq!['\n'] + joined_stripped(lines.skip(1), q)
    }
}

impl Snippet {
    /// The lines of the snippet that are shown: every line that does not
    /// start with the hidden-line prefix.
    pub fn visible_lines(&self, hidden_line_prefix: Option<&str>) -> (r: Vec<String>)
        ensures
            r@.map_values(|x: String| x@) == visible_lines_spec(
                self.contents@,
                prefix_view(hidden_line_prefix),
            ),
            r@.len() <= self.contents@.len(),
    {
        let ghost p = prefix_view(hidden_line_prefix);
        let lines = split_str_lines(self.contents.as_str());
        let ghost lseq = lines@.map_values(|x: String| x@);
        let mut out: Vec<String> = Vec::new();
        let mut i: usize = 0;
        proof {
            assert(lseq.take(0) =~= Seq::<Seq<char>>::empty());
        }
        while i < lines.len()
            invariant
                i <= lines@.len(),
                lseq == lines@.map_values(|x: String| x@),
                out@.map_values(|x: String| x@) == filter_visible(lseq.take(i as int), p),
                out@.len() <= i,
                p == prefix_view(hidden_line_prefix),
            decreases lines@.len() - i,
        {
            let line = &lines[i];
            let hidden = match hidden_line_prefix {
                Some(q) => region_matches(line.as_str(), 0, q),
                None => false,
            };
            proof {
                assert(lseq[i as int] == line@);
                if hidden_line_prefix is Some {
                    let q = hidden_line_prefix->0;
                    if q@.len() <= line@.len() {
                        assert(line@.subrange(0, q@.len() as int) =~= line@.take(q@.len() as int));
                    }
                }
                assert(hidden == line_hidden(lseq[i as int], p));
                let taken = lseq.take(i + 1);
                assert(taken.drop_last() =~= lseq.take(i as int));
                assert(taken.last() == lseq[i as int]);
            }
            if !hidden {
                let ghost previous = out@.map_values(|x: String| x@);
                out.push(line.clone());
                proof {
                    assert(out@.map_values(|x: String| x@) =~= previous.push(line@));
                }
            }
            i += 1;
        }
        proof {
            assert(lseq.take(lines@.len() as int) =~= lseq);
        }
        out
    }

    /// The contents handed to an interpreter: every line with the
    /// hidden-line prefix stripped, or the contents unchanged when no
    /// prefix is set.
    pub fn executable_contents(&self, hidden_line_prefix: Option<&str>) -> (r: String)
        ensures
            match hidden_line_prefix {
                None => r@ == self.contents@,
                Some(q) => r@ == joined_stripped(spec_lines(self.contents@), q@),
            },
    {
        let q = match hidden_line_prefix {
            None => {
                return self.contents.clone();
            },
            Some(q) => q,
        };
        let qlen = q.unicode_len();
        let lines = split_str_lines(self.contents.as_str());
        let ghost lseq = lines@.map_values(|x: String| x@);
        let mut out = String::new();
        let mut i: usize = 0;
        proof {
            assert(lseq.skip(0) =~= lseq);
            assert(out@ + joined_stripped(lseq, q@) =~= joined_stripped(lseq, q@));
        }
        while i < lines.len()
            invariant
                i <= lines@.len(),
                lseq == lines@.map_values(|x: String| x@),
                qlen == q@.len(),
                joined_stripped(lseq, q@) == out@ + joined_stripped(lseq.skip(i as int), q@),
            decreases lines@.len() - i,
        {
            let line = &lines[i];
            let llen = line.unicode_len();
            let starts = region_matches(line.as_str(), 0, q);
            proof {
                assert(line@.subrange(0, qlen as int) =~= line@.take(qlen as int));
            }
            let ghost previous = out@;
            if starts {
                let stripped = line.substring_char(qlen, llen);
                proof {
                    assert(stripped@ =~= strip_line_prefix(lseq[i as int], q@));
                }
                out.append(stripped);
            } else {
                out.append(line.as_str());
            }
            proof {
                reveal_strlit("\n");
            }
            out.append("\n");
            proof {
                assert("\n"@ =~= seq!['\n']);
                let rest = lseq.skip(i as int);
                assert(rest[0] == lseq[i as int]);
                assert(rest.skip(1) =~= lseq.skip(i + 1));
                assert(out@ =~= previous + (strip_line_prefix(lseq[i as int], q@) + seq!['\n']));
                assert(previous + (strip_line_prefix(lseq[i as int], q@) + seq!['\n'])
                    + joined_stripped(lseq.skip(i + 1), q@) =~= previous + joined_stripped(
                    rest,
                    q@,
                ));
            }
            i += 1;
        }
        proof {
            assert(joined_stripped(lseq.skip(lines@.len() as int), q@) =~= Seq::<char>::empty());
            assert(out@ + Seq::<char>::empty() =~= out@);
        }
        out
    }
}

/// One prepared display line of a code block.
#[derive(Clone, Debug, PartialEq, Eq)]
pub struct CodeLine {
    /// What is drawn left of the code: padding, and the line number when
    /// those are shown.
    pub prefix: String,
    /// The code itself, ending in a line feed.
    pub code: String,
    /// Columns of padding on the right of the block.
    pub right_padding_length: u16,
    /// The one-based line number, absent for padding lines.
    pub line_number: Option<u16>,
}

/// The mathematical content of a [`CodeLine`].
pub struct CodeLineView {
    pub prefix: Seq<char>,
    pub code: Seq<char>,
    pub right_padding_length: u16,
    pub line_number: Option<u16>,
}

impl View for CodeLine {
    type V = CodeLineView;

    open spec fn view(&self) -> CodeLineView {
        CodeLineView {
            prefix: self.prefix@,
            code: self.code@,
            right_padding_length: self.right_padding_length,
            line_number: self.line_number,
        }
    }
}

/// A sum of widths, saturating at `usize::MAX`.
pub open spec fn sat_add_usize(a: int, b: int) -> int {
    if a + b > usize::MAX {
        usize::MAX as int
    } else {
        a + b
    }
}

/// A stand-in for a syntax highlighter: styles every line of a code block
/// with one style. Real highlighting is a collaborator concern; the
/// pipeline only needs styled lines.
#[derive(Clone, Copy, Debug, PartialEq, Eq, Structural)]
pub struct LanguageHighlighter {
    pub style: TextStyle,
}

impl LanguageHighlighter {
    /// A highlighter that applies `style`.
    pub fn new(style: TextStyle) -> (r: Self)
        ensures
            r.style == style,
    {
        LanguageHighlighter { style }
    }

    /// One line of code as a single styled span.
    pub fn highlight_line(&mut self, code: &str, _block_style: &CodeBlockStyle) -> (r: Line)
        ensures
            r.0@.len() == 1,
            r.0@[0].content@ == code@,
            r.0@[0].style == old(self).style,
            *final(self) == *old(self),
    {
        Line(vec![Text::new(code, self.style)])
    }
}

impl CodeLine {
    /// A padding line: no prefix, a bare line feed, no line number.
    pub fn empty() -> (r: Self)
        ensures
            r@.prefix.len() == 0,
            r@.code =~= seq!['\n'],
            r@.right_padding_length == 0,
            r@.line_number is None,
    {
        proof {
            reveal_strlit("");
            reveal_strlit("\n");
        }
        CodeLine {
            prefix: "".to_owned(),
            code: "\n".to_owned(),
            right_padding_length: 0,
            line_number: None,
        }
    }

    /// The display width of the line: prefix, code and right padding,
    /// saturating at `usize::MAX`.
    pub fn width(&self) -> (r: usize)
        ensures
            r == sat_add_usize(
                sat_add_usize(
                    display_width(self.prefix@) as int,
                    display_width(self.code@) as int,
                ),
                self.right_padding_length as int,
            ),
    {
        let pw = str_display_width(self.prefix.as_str());
        let cw = str_display_width(self.code.as_str());
        let first = if cw > usize::MAX - pw {
            usize::MAX
        } else {
            pw + cw
        };
        if (self.right_padding_length as usize) > usize::MAX - first {
            usize::MAX
        } else {
            first + self.right_padding_length as usize
        }
    }

    /// The code of the line, highlighted as one styled span.
    pub fn highlight(
        &self,
        code_highlighter: &mut LanguageHighlighter,
        block_style: &CodeBlockStyle,
    ) -> (r: Line)
        ensures
            r.0@.len() == 1,
            r.0@[0].content@ == self.code@,
            r.0@[0].style == old(code_highlighter).style,
            *final(code_highlighter) == *old(code_highlighter),
    {
        code_highlighter.highlight_line(self.code.as_str(), block_style)
    }

    /// The code of the line as one dimmed span.
    pub fn dim(&self, dim_style: &TextStyle) -> (r: Line)
        ensures
            r.0@.len() == 1,
            r.0@[0].content@ == self.code@,
            r.0@[0].style == dim_style,
    {
        Line(vec![Text::new(self.code.as_str(), *dim_style)])
    }

    /// The prefix of the line as one dimmed span.
    pub fn dim_prefix(&self, dim_style: &TextStyle) -> (r: Text)
        ensures
            r.content@ == self.prefix@,
            r.style == dim_style,
    {
        Text::new(self.prefix.as_str(), *dim_style)
    }
}

/// Pads line numbers on the left so all numbers up to a total line count
/// take the same width.
#[derive(Clone, Copy, Debug, PartialEq, Eq, Structural)]
pub struct NumberPadder {
    pub width: usize,
}

/// A number padded on the left with spaces to `w` characters; numbers
/// already that wide stay as they are.
pub open spec fn pad_right_spec(w: int, n: int) -> Seq<char> {
    let d = decimal_digits(n);
    if d.len() >= w {
        d
    } else {
        Seq::new((w - d.len()) as nat, |i: int| ' ') + d
    }
}

impl NumberPadder {
    /// A padder wide enough for line numbers up to `count`.
    pub fn new(count: usize) -> (r: Self)
        ensures
            r.width == decimal_digits(count as int).len(),
    {
        NumberPadder { width: decimal_width(count) }
    }

    /// `n` padded on the left to the padder's width.
    pub fn pad_right(&self, n: usize) -> (r: String)
        ensures
            r@ == pad_right_spec(self.width as int, n as int),
    {
        let d = decimal_string(n);
        let dw = decimal_width(n);
        if dw >= self.width {
            d
        } else {
            let mut s = spaces(self.width - dw);
            s.append(d.as_str());
            proof {
                assert(s@ =~= pad_right_spec(self.width as int, n as int));
            }
            s
        }
    }
}

/// Four spaces, standing in for one tab.
pub open spec fn four_spaces() -> Seq<char> {
    seq![' ', ' ', ' ', ' ']
}

/// `s` with every tab replaced by four spaces.
pub open spec fn replace_tabs_spec(s: Seq<char>) -> Seq<char>
    decreases s.len(),
{
    if s.len() == 0 {
        Seq::empty()
    } else {
        (if s[0] == '\t' {
            four_spaces()
        } else {
            seq![s[0]]
        }) + replace_tabs_spec(s.skip(1))
    }
}

/// Replaces every tab in `line` with four spaces.
fn replace_tabs(line: &str) -> (r: String)
    ensures
        r@ == replace_tabs_spec(line@),
{
    let len = line.unicode_len();
    let mut out = String::new();
    let mut i: usize = 0;
    proof {
        assert(line@.skip(0) =~= line@);
        assert(out@ + replace_tabs_spec(line@) =~= replace_tabs_spec(line@));
    }
    while i < len
        invariant
            i <= len,
            len == line@.len(),
            replace_tabs_spec(line@) == out@ + replace_tabs_spec(line@.skip(i as int)),
        decreases len - i,
    {
        let ghost previous = out@;
        let ghost rest = line@.skip(i as int);
        let c = line.get_char(i);
        if c == '\t' {
            proof {
                reveal_strlit("    ");
            }
            out.append("    ");
            proof {
                assert("    "@ =~= four_spaces());
            }
        } else {
            push_char_of(&mut out, line, i);
        }
        proof {
            assert(rest[0] == line@[i as int]);
            assert(rest.skip(1) =~= line@.skip(i + 1));
            assert(out@ =~= previous + (if line@[i as int] == '\t' {
                four_spaces()
            } else {
                seq![line@[i as int]]
            }));
            assert(previous + ((if line@[i as int] == '\t' {
                four_spaces()
            } else {
                seq![line@[i as int]]
            }) + replace_tabs_spec(line@.skip(i + 1))) =~= out@ + replace_tabs_spec(
                line@.skip(i + 1),
            ));
        }
        i += 1;
    }
    proof {
        assert(replace_tabs_spec(line@.skip(len as int)) =~= Seq::<char>::empty());
        assert(out@ + Seq::<char>::empty() =~= out@);
    }
    out
}

/// The view of one prepared code line: horizontal padding, then the line
/// number when shown, then the code with tabs replaced and a line feed.
pub open spec fn prepared_line_view(
    line: Seq<char>,
    idx: int,
    total: int,
    hpad: int,
    line_numbers: bool,
) -> CodeLineView {
    CodeLineView {
        prefix: Seq::new(hpad as nat, |i: int| ' ') + if line_numbers {
            pad_right_spec(decimal_digits(total).len() as int, idx + 1) + seq![' ']
        } else {
            Seq::empty()
        },
        code: replace_tabs_spec(line) + seq!['\n'],
        right_padding_length: hpad as u16,
        line_number: Some((idx + 1) as u16),
    }
}

/// The views of all prepared code lines of a snippet.
pub open spec fn prepared_lines_view(
    visible: Seq<Seq<char>>,
    hpad: int,
    line_numbers: bool,
) -> Seq<CodeLineView> {
    Seq::new(
        visible.len(),
        |i: int| prepared_line_view(visible[i], i, visible.len() as int, hpad, line_numbers),
    )
}

/// Prepares the lines of a snippet for display.
pub struct CodePreparer {
    pub theme: PresentationTheme,
    pub hidden_line_prefix: Option<String>,
}

impl CodePreparer {
    /// A preparer for the given theme and hidden-line prefix.
    pub fn new(theme: &PresentationTheme, hidden_line_prefix: Option<&str>) -> (r: Self)
        ensures
            r.theme == theme,
            stored_prefix_view(r.hidden_line_prefix) == prefix_view(hidden_line_prefix),
    {
        CodePreparer {
            theme: *theme,
            hidden_line_prefix: match hidden_line_prefix {
                Some(s) => Some(s.to_owned()),
                None => None,
            },
        }
    }

    /// The display lines of a snippet: its visible lines prepared, between
    /// one padding line on each side when the theme asks for vertical
    /// padding.
    pub fn prepare(&self, code: &Snippet) -> (r: Vec<CodeLine>)
        requires
            code.contents@.len() <= u16::MAX,
        ensures
            ({
                let visible = visible_lines_spec(
                    code.contents@,
                    stored_prefix_view(self.hidden_line_prefix),
                );
                let hpad = match self.theme.code.padding.horizontal {
                    Some(h) => h as int,
                    None => 0,
                };
                let vpad = match self.theme.code.padding.vertical {
                    Some(v) => v as int,
                    None => 0,
                };
                let body = prepared_lines_view(visible, hpad, code.attributes.line_numbers);
                let views = r@.map_values(|l: CodeLine| l@);
                if vpad > 0 {
                    views.len() == body.len() + 2 && views[0].prefix.len() == 0 && views[0].code
                        =~= seq!['\n'] && views[0].line_number is None && views.last().prefix.len()
                        == 0 && views.last().code =~= seq!['\n'] && views.last().line_number is None
                        && views.subrange(1, views.len() - 1) == body
                } else {
                    views == body
                }
            }),
    {
        let mut lines: Vec<CodeLine> = Vec::new();
        let horizontal_padding = match self.theme.code.padding.horizontal {
            Some(h) => h,
            None => 0,
        };
        let vertical_padding = match self.theme.code.padding.vertical {
            Some(v) => v,
            None => 0,
        };
        let ghost visible = visible_lines_spec(
            code.contents@,
            stored_prefix_view(self.hidden_line_prefix),
        );
        let ghost body = prepared_lines_view(
            visible,
            horizontal_padding as int,
            code.attributes.line_numbers,
        );
        if vertical_padding > 0 {
            let first = CodeLine::empty();
            let ghost fv = first@;
            lines.push(first);
            proof {
                assert(lines@.map_values(|l: CodeLine| l@) =~= seq![fv]);
            }
        }
        let ghost pre_views = lines@.map_values(|l: CodeLine| l@);
        self.push_lines(code, horizontal_padding, &mut lines);
        proof {
            assert(lines@.map_values(|l: CodeLine| l@) == pre_views + body);
        }
        if vertical_padding > 0 {
            let last = CodeLine::empty();
            let ghost lv = last@;
            let ghost mid_views = lines@.map_values(|l: CodeLine| l@);
            lines.push(last);
            proof {
                assert(lines@.map_values(|l: CodeLine| l@) =~= mid_views.push(lv));
            }
        }
        proof {
            let views = lines@.map_values(|l: CodeLine| l@);
            if vertical_padding > 0 {
                assert(views.len() == body.len() + 2);
                assert(views.subrange(1, views.len() - 1) =~= body);
                assert(views[0].prefix.len() == 0 && views[0].code =~= seq!['\n']
                    && views[0].line_number is None);
                assert(views.last().prefix.len() == 0 && views.last().code =~= seq!['\n']
                    && views.last().line_number is None);
            } else {
                assert(views =~= body);
            }
        }
        lines
    }

    /// Appends the prepared visible lines of `code` to `lines`.
    pub fn push_lines(&self, code: &Snippet, horizontal_padding: u8, lines: &mut Vec<CodeLine>)
        requires
            code.contents@.len() <= u16::MAX,
        ensures
            final(lines)@.map_values(|l: CodeLine| l@) == old(lines)@.map_values(|l: CodeLine| l@)
                + prepared_lines_view(
                visible_lines_spec(code.contents@, stored_prefix_view(self.hidden_line_prefix)),
                horizontal_padding as int,
                code.attributes.line_numbers,
            ),
    {
        let ghost visible_spec = visible_lines_spec(
            code.contents@,
            stored_prefix_view(self.hidden_line_prefix),
        );
        let ghost old_views = lines@.map_values(|l: CodeLine| l@);
        let prefix_ref: Option<&str> = match &self.hidden_line_prefix {
            Some(s) => Some(s.as_str()),
            None => None,
        };
        let visible = code.visible_lines(prefix_ref);
        let ghost vseq = visible@.map_values(|x: String| x@);
        let total = visible.len();
        let padder = NumberPadder::new(total);
        let padding = spaces(horizontal_padding as usize);
        let ghost body = prepared_lines_view(
            vseq,
            horizontal_padding as int,
            code.attributes.line_numbers,
        );
        let mut idx: usize = 0;
        proof {
            assert(vseq == visible_spec);
            assert(body == prepared_lines_view(
                visible_spec,
                horizontal_padding as int,
                code.attributes.line_numbers,
            ));
            assert(lines@.map_values(|l: CodeLine| l@) =~= old_views + body.take(0));
        }
        while idx < total
            invariant
                idx <= total,
                total == vseq.len(),
                total <= u16::MAX,
                vseq == visible@.map_values(|x: String| x@),
                padder.width == decimal_digits(total as int).len(),
                padding@ =~= Seq::new(horizontal_padding as nat, |i: int| ' '),
                body == prepared_lines_view(
                    vseq,
                    horizontal_padding as int,
                    code.attributes.line_numbers,
                ),
                lines@.map_values(|l: CodeLine| l@) == old_views + body.take(idx as int),
            decreases total - idx,
        {
            let mut line = replace_tabs(visible[idx].as_str());
            proof {
                reveal_strlit("\n");
            }
            line.append("\n");
            let mut prefix = padding.clone();
            if code.attributes.line_numbers {
                let line_number = idx + 1;
                let pad = padder.pad_right(line_number);
                prefix.append(pad.as_str());
                proof {
                    reveal_strlit(" ");
                }
                prefix.append(" ");
            }
            let entry = CodeLine {
                prefix,
                code: line,
                right_padding_length: horizontal_padding as u16,
                line_number: Some((idx + 1) as u16),
            };
            proof {
                assert("\n"@ =~= seq!['\n']);
                if code.attributes.line_numbers {
                    assert(" "@ =~= seq![' ']);
                }
                assert(entry@.prefix =~= prepared_line_view(
                    vseq[idx as int],
                    idx as int,
                    total as int,
                    horizontal_padding as int,
                    code.attributes.line_numbers,
                ).prefix);
                assert(entry@.code =~= replace_tabs_spec(vseq[idx as int]) + seq!['\n']);
                assert(entry@ == body[idx as int]);
            }
            let ghost previous = lines@.map_values(|l: CodeLine| l@);
            lines.push(entry);
            proof {
                assert(lines@.map_values(|l: CodeLine| l@) =~= previous.push(entry@));
                assert(body.take(idx + 1) =~= body.take(idx as int).push(body[idx as int]));
                assert(previous.push(entry@) =~= old_views + body.take(idx + 1));
            }
            idx += 1;
        }
        proof {
            assert(body.take(total as int) =~= body);
        }
    }
}

/// The highlight state a code block's lines render against: the groups,
/// and which one is active.
#[derive(Clone, Debug)]
pub struct HighlightContext {
    pub groups: Vec<HighlightGroup>,
    pub current: usize,
    pub block_length: usize,
    pub alignment: Alignment,
}

impl HighlightContext {
    /// The invariant the context keeps: the active index always names a
    /// group.
    pub open spec fn well_formed(self) -> bool {
        self.groups@.len() >= 1 && self.current < self.groups@.len()
    }
}

/// One displayed line of a highlighted code block, precomputed in both its
/// highlighted and its dimmed form.
#[derive(Clone, Debug)]
pub struct HighlightedLine {
    pub prefix: Text,
    pub right_padding_length: u16,
    pub highlighted: Line,
    pub not_highlighted: Line,
    pub line_number: Option<u16>,
    pub block_color: Option<Color>,
}

impl HighlightedLine {
    /// True when the active group of `context` covers this line.
    pub open spec fn needs_highlight(self, context: HighlightContext) -> bool {
        match self.line_number {
            Some(n) => exists|i: int|
                0 <= i < context.groups@[context.current as int].0@.len() && highlight_covers(
                    #[trigger] context.groups@[context.current as int].0@[i],
                    n,
                ),
            None => false,
        }
    }

    /// The render operations of the line: one block line holding either
    /// the highlighted or the dimmed form, as the active group decides,
    /// then a line break.
    pub fn as_render_operations(&self, context: &HighlightContext, _dimensions: &WindowSize) -> (r:
        Vec<RenderOperation>)
        requires
            context.well_formed(),
            context.block_length <= u16::MAX,
        ensures
            r@.len() == 2,
            r@[1] == RenderOperation::RenderLineBreak,
            r@[0] matches RenderOperation::RenderBlockLine(b) && b.prefix == self.prefix
                && b.right_padding_length == self.right_padding_length && !b.repeat_prefix_on_wrap
                && b.text.0@ == (if self.needs_highlight(*context) {
                self.highlighted.0@
            } else {
                self.not_highlighted.0@
            }) && b.block_length == context.block_length && b.alignment == context.alignment
                && b.block_color == self.block_color,
    {
        let group = &context.groups[context.current];
        let needs_highlight = match self.line_number {
            Some(n) => group.contains(n),
            None => false,
        };
        let text = if needs_highlight {
            self.highlighted.clone()
        } else {
            self.not_highlighted.clone()
        };
        let ops = vec![
            RenderOperation::RenderBlockLine(
                BlockLine {
                    prefix: self.prefix.clone(),
                    right_padding_length: self.right_padding_length,
                    repeat_prefix_on_wrap: false,
                    text,
                    block_length: context.block_length as u16,
                    alignment: context.alignment,
                    block_color: self.block_color,
                },
            ),
            RenderOperation::RenderLineBreak,
        ];
        ops
    }
}

/// The group index after one forward cycle among `n` groups: one further,
/// stopping at the last group.
pub open spec fn next_group_index(current: int, n: int) -> int {
    if current + 1 < n {
        current + 1
    } else {
        current
    }
}

/// The group index after one backward cycle: one back, stopping at the
/// first group.
pub open spec fn previous_group_index(current: int) -> int {
    if current > 0 {
        current - 1
    } else {
        current
    }
}

/// The group index after `steps` forward cycles among `n` groups.
pub open spec fn cycled_forward(start: int, steps: nat, n: int) -> int
    decreases steps,
{
    if steps == 0 {
        start
    } else {
        next_group_index(cycled_forward(start, (steps - 1) as nat, n), n)
    }
}

/// Law of highlight cycling: among `n` groups, cycling forward from the
/// first group reaches group `steps` after `steps` cycles until the last
/// group is reached after `n - 1` of them, and every further forward
/// cycle is a no-op. Each [`HighlightMutator::mutate_next`] call advances
/// by exactly [`next_group_index`], so this describes any such call
/// sequence.
pub proof fn lemma_highlight_cycling(steps: nat, n: int)
    requires
        n >= 1,
    ensures
        steps <= n - 1 ==> cycled_forward(0, steps, n) == steps,
        steps >= n - 1 ==> cycled_forward(0, steps, n) == n - 1,
    decreases steps,
{
    if steps > 0 {
        lemma_highlight_cycling((steps - 1) as nat, n);
    }
}

/// Steps the active highlight group of a code block back and forth as the
/// reveal advances.
#[derive(Clone, Debug)]
pub struct HighlightMutator {
    pub context: HighlightContext,
}

impl HighlightMutator {
    /// A mutator over the given context.
    pub fn new(context: HighlightContext) -> (r: Self)
        ensures
            r.context == context,
    {
        HighlightMutator { context }
    }

    /// Moves to the next group; a no-op returning false on the last one.
    pub fn mutate_next(&mut self) -> (r: bool)
        requires
            old(self).context.well_formed(),
        ensures
            r == (old(self).context.current + 1 < old(self).context.groups@.len()),
            final(self).context == (HighlightContext {
                current: next_group_index(
                    old(self).context.current as int,
                    old(self).context.groups@.len() as int,
                ) as usize,
                ..old(self).context
            }),
            final(self).context.well_formed(),
    {
        if self.context.current == self.context.groups.len() - 1 {
            false
        } else {
            self.context.current = self.context.current + 1;
            true
        }
    }

    /// Moves to the previous group; a no-op returning false on the first.
    pub fn mutate_previous(&mut self) -> (r: bool)
        requires
            old(self).context.well_formed(),
        ensures
            r == (old(self).context.current > 0),
            final(self).context == (HighlightContext {
                current: previous_group_index(old(self).context.current as int) as usize,
                ..old(self).context
            }),
            final(self).context.well_formed(),
    {
        if self.context.current == 0 {
            false
        } else {
            self.context.current = self.context.current - 1;
            true
        }
    }

    /// Moves back to the first group.
    pub fn reset_mutations(&mut self)
        ensures
            final(self).context == (HighlightContext { current: 0, ..old(self).context }),
    {
        self.context.current = 0;
    }

    /// Jumps to the last group.
    pub fn apply_all_mutations(&mut self)
        requires
            old(self).context.well_formed(),
        ensures
            final(self).context == (HighlightContext {
                current: (old(self).context.groups@.len() - 1) as usize,
                ..old(self).context
            }),
            final(self).context.well_formed(),
    {
        self.context.current = self.context.groups.len() - 1;
    }

    /// The active index and the number of groups.
    pub fn mutations(&self) -> (r: (usize, usize))
        ensures
            r.0 == self.context.current,
            r.1 == self.context.groups@.len(),
    {
        (self.context.current, self.context.groups.len())
    }
}

} // verus!
