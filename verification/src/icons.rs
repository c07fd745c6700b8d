//! Icon glyphs.
//!
//! The chrome is drawn with two bundled icon fonts: Codicons for the window's
//! own furniture, and Material Design Icons for file types.  An icon is a code
//! point in one of the two, so it can be shaped like any other text.

use crate::rich::Color;
use crate::text::{chars_of, lower, lowered, same, slice, to_lowered};
use vstd::prelude::*;

verus! {

/// Family name the chrome icon font registers itself under.
pub const ICON_FAMILY: &'static str = "codicon";

/// Family name the Material Design Icons font registers itself under.
pub const MATERIAL_ICON_FAMILY: &'static str = "Material Design Icons";

/// One drawable glyph: a code point, and which of the two bundled fonts it
/// lives in.
#[derive(Copy, Clone, Debug, PartialEq, Eq)]
pub struct Glyph {
    pub ch: char,
    pub family: &'static str,
}

/// Every icon the chrome draws.
#[derive(Copy, Clone, Debug, PartialEq, Eq, Structural)]
pub enum Icon {
    // Activity bar, top to bottom.
    Files,
    Search,
    SourceControl,
    Extensions,
    Debug,
    /// The dependency view -- which file takes which as input.
    TypeHierarchy,
    // Title bar.
    Menu,
    SettingsGear,
    Play,
    ArrowLeft,
    ArrowRight,
    // Explorer rows.
    ChevronRight,
    ChevronDown,
    Folder,
    FolderOpened,
    // Tabs.
    Close,
    CircleFilled,
    // Panels and status bar.
    Terminal,
    GitBranch,
    Error,
    Warning,
    LayoutSidebarLeft,
    LayoutPanel,
    SplitHorizontal,
    // The Search panel's own header and field controls.
    Refresh,
    ClearAll,
    NewFile,
    CollapseAll,
    Ellipsis,
    CaseSensitive,
    WholeWord,
    Regex,
    Replace,
}

/// The code point of a chrome icon.
pub open spec fn icon_char(icon: Icon) -> char {
    match icon {
        Icon::Files => '\u{eaf0}',
        Icon::Search => '\u{ea6d}',
        Icon::SourceControl => '\u{ea68}',
        Icon::Extensions => '\u{eae6}',
        Icon::Debug => '\u{eb91}',
        Icon::TypeHierarchy => '\u{ebb9}',
        Icon::Menu => '\u{eb94}',
        Icon::SettingsGear => '\u{eb51}',
        Icon::Play => '\u{eb2c}',
        Icon::ArrowLeft => '\u{ea9b}',
        Icon::ArrowRight => '\u{ea9c}',
        Icon::ChevronRight => '\u{eab6}',
        Icon::ChevronDown => '\u{eab4}',
        Icon::Folder => '\u{ea83}',
        Icon::FolderOpened => '\u{eaf7}',
        Icon::Close => '\u{ea76}',
        Icon::CircleFilled => '\u{ea71}',
        Icon::Terminal => '\u{ea85}',
        Icon::GitBranch => '\u{ec6f}',
        Icon::Error => '\u{ea87}',
        Icon::Warning => '\u{ea6c}',
        Icon::LayoutSidebarLeft => '\u{ebf3}',
        Icon::LayoutPanel => '\u{ebf2}',
        Icon::SplitHorizontal => '\u{eb56}',
        Icon::Refresh => '\u{eb37}',
        Icon::ClearAll => '\u{eabf}',
        Icon::NewFile => '\u{ea7f}',
        Icon::CollapseAll => '\u{eac5}',
        Icon::Ellipsis => '\u{ea7c}',
        Icon::CaseSensitive => '\u{eab1}',
        Icon::WholeWord => '\u{eb7e}',
        Icon::Regex => '\u{eb38}',
        Icon::Replace => '\u{eb3d}',
    }
}

impl Icon {
    /// The character this icon is drawn as, in [`ICON_FAMILY`].
    pub fn glyph(self) -> (ch: char)
        ensures
            ch == icon_char(self),
    {
        match self {
            Icon::Files => '\u{eaf0}',
            Icon::Search => '\u{ea6d}',
            Icon::SourceControl => '\u{ea68}',
            Icon::Extensions => '\u{eae6}',
            Icon::Debug => '\u{eb91}',
            Icon::TypeHierarchy => '\u{ebb9}',
            Icon::Menu => '\u{eb94}',
            Icon::SettingsGear => '\u{eb51}',
            Icon::Play => '\u{eb2c}',
            Icon::ArrowLeft => '\u{ea9b}',
            Icon::ArrowRight => '\u{ea9c}',
            Icon::ChevronRight => '\u{eab6}',
            Icon::ChevronDown => '\u{eab4}',
            Icon::Folder => '\u{ea83}',
            Icon::FolderOpened => '\u{eaf7}',
            Icon::Close => '\u{ea76}',
            Icon::CircleFilled => '\u{ea71}',
            Icon::Terminal => '\u{ea85}',
            Icon::GitBranch => '\u{ec6f}',
            Icon::Error => '\u{ea87}',
            Icon::Warning => '\u{ea6c}',
            Icon::LayoutSidebarLeft => '\u{ebf3}',
            Icon::LayoutPanel => '\u{ebf2}',
            Icon::SplitHorizontal => '\u{eb56}',
            Icon::Refresh => '\u{eb37}',
            Icon::ClearAll => '\u{eabf}',
            Icon::NewFile => '\u{ea7f}',
            Icon::CollapseAll => '\u{eac5}',
            Icon::Ellipsis => '\u{ea7c}',
            Icon::CaseSensitive => '\u{eab1}',
            Icon::WholeWord => '\u{eb7e}',
            Icon::Regex => '\u{eb38}',
            Icon::Replace => '\u{eb3d}',
        }
    }
}

/// A file-type glyph, drawn from the Material Design Icons font.
#[derive(Copy, Clone, Debug, PartialEq, Eq, Structural)]
pub enum FileIcon {
    Rust,
    Python,
    JavaScript,
    TypeScript,
    React,
    Vue,
    Go,
    Java,
    Kotlin,
    Swift,
    C,
    Cpp,
    CSharp,
    Php,
    Ruby,
    Haskell,
    R,
    Fortran,
    Lua,
    Html,
    Css,
    Sass,
    Json,
    Xml,
    Markdown,
    Shell,
    Docker,
    Git,
    License,
    Database,
    Config,
    Lock,
    Text,
    Image,
    Svg,
    Pdf,
    Archive,
    Word,
    Excel,
    PowerPoint,
    /// No more specific glyph applies -- the generic document icon.
    Generic,
}

/// The code point of a file icon.
pub open spec fn file_icon_char(icon: FileIcon) -> char {
    match icon {
        FileIcon::Rust => '\u{F1617}',
        FileIcon::Python => '\u{F0320}',
        FileIcon::JavaScript => '\u{F031E}',
        FileIcon::TypeScript => '\u{F06E6}',
        FileIcon::React => '\u{F0708}',
        FileIcon::Vue => '\u{F0844}',
        FileIcon::Go => '\u{F07D3}',
        FileIcon::Java => '\u{F0B37}',
        FileIcon::Kotlin => '\u{F1219}',
        FileIcon::Swift => '\u{F06E5}',
        FileIcon::C => '\u{F0671}',
        FileIcon::Cpp => '\u{F0672}',
        FileIcon::CSharp => '\u{F031B}',
        FileIcon::Php => '\u{F031F}',
        FileIcon::Ruby => '\u{F0D2D}',
        FileIcon::Haskell => '\u{F0C92}',
        FileIcon::R => '\u{F07D4}',
        FileIcon::Fortran => '\u{F121A}',
        FileIcon::Lua => '\u{F08B1}',
        FileIcon::Html => '\u{F031D}',
        FileIcon::Css => '\u{F031C}',
        FileIcon::Sass => '\u{F07EC}',
        FileIcon::Json => '\u{F0626}',
        FileIcon::Xml => '\u{F05C0}',
        FileIcon::Markdown => '\u{F0354}',
        FileIcon::Shell => '\u{F018D}',
        FileIcon::Docker => '\u{F0868}',
        FileIcon::Git => '\u{F02A2}',
        FileIcon::License => '\u{F0FC3}',
        FileIcon::Database => '\u{F01BC}',
        FileIcon::Config => '\u{F107C}',
        FileIcon::Lock => '\u{F1030}',
        FileIcon::Text => '\u{F09ED}',
        FileIcon::Image => '\u{F021F}',
        FileIcon::Svg => '\u{F0721}',
        FileIcon::Pdf => '\u{F0226}',
        FileIcon::Archive => '\u{F05C4}',
        FileIcon::Word => '\u{F022C}',
        FileIcon::Excel => '\u{F021B}',
        FileIcon::PowerPoint => '\u{F0227}',
        FileIcon::Generic => '\u{F0224}',
    }
}

/// The colour of a file icon.
pub open spec fn file_icon_color(icon: FileIcon) -> Color {
    match icon {
        FileIcon::Rust => (Color { r: 0xde, g: 0xa5, b: 0x84 }),
        FileIcon::Python => (Color { r: 0x35, g: 0x72, b: 0xa5 }),
        FileIcon::JavaScript => (Color { r: 0xf1, g: 0xe0, b: 0x5a }),
        FileIcon::TypeScript => (Color { r: 0x31, g: 0x78, b: 0xc6 }),
        FileIcon::React => (Color { r: 0x61, g: 0xda, b: 0xfb }),
        FileIcon::Vue => (Color { r: 0x41, g: 0xb8, b: 0x83 }),
        FileIcon::Go => (Color { r: 0x00, g: 0xad, b: 0xd8 }),
        FileIcon::Java => (Color { r: 0xb0, g: 0x72, b: 0x19 }),
        FileIcon::Kotlin => (Color { r: 0xa9, g: 0x7b, b: 0xff }),
        FileIcon::Swift => (Color { r: 0xf0, g: 0x51, b: 0x38 }),
        FileIcon::C => (Color { r: 0x55, g: 0x55, b: 0x55 }),
        FileIcon::Cpp => (Color { r: 0xf3, g: 0x4b, b: 0x7d }),
        FileIcon::CSharp => (Color { r: 0x17, g: 0x86, b: 0x00 }),
        FileIcon::Php => (Color { r: 0x4f, g: 0x5d, b: 0x95 }),
        FileIcon::Ruby => (Color { r: 0xe3, g: 0x8c, b: 0x00 }),
        FileIcon::Haskell => (Color { r: 0x5e, g: 0x50, b: 0x86 }),
        FileIcon::R => (Color { r: 0x19, g: 0x8c, b: 0xe7 }),
        FileIcon::Fortran => (Color { r: 0x73, g: 0x4f, b: 0x96 }),
        FileIcon::Lua => (Color { r: 0x00, g: 0x00, b: 0x80 }),
        FileIcon::Html => (Color { r: 0xe3, g: 0x4c, b: 0x26 }),
        FileIcon::Css => (Color { r: 0x56, g: 0x3d, b: 0x7c }),
        FileIcon::Sass => (Color { r: 0xcc, g: 0x66, b: 0x99 }),
        FileIcon::Json => (Color { r: 0xcb, g: 0xcb, b: 0x41 }),
        FileIcon::Xml => (Color { r: 0xe3, g: 0x7e, b: 0x00 }),
        FileIcon::Markdown => (Color { r: 0x51, g: 0x9a, b: 0xba }),
        FileIcon::Shell => (Color { r: 0x89, g: 0xe0, b: 0x51 }),
        FileIcon::Docker => (Color { r: 0x0d, g: 0xb7, b: 0xed }),
        FileIcon::Git => (Color { r: 0xf1, g: 0x50, b: 0x2f }),
        FileIcon::License => (Color { r: 0xdc, g: 0xc6, b: 0x6a }),
        FileIcon::Database => (Color { r: 0x4d, g: 0xb3, b: 0x3e }),
        FileIcon::Config => (Color { r: 0x8f, g: 0x8f, b: 0x8f }),
        FileIcon::Lock => (Color { r: 0x8f, g: 0x8f, b: 0x8f }),
        FileIcon::Text => (Color { r: 0xc9, g: 0xc9, b: 0xc9 }),
        FileIcon::Image => (Color { r: 0xa0, g: 0x74, b: 0xc4 }),
        FileIcon::Svg => (Color { r: 0xff, g: 0xb1, b: 0x3b }),
        FileIcon::Pdf => (Color { r: 0xe0, g: 0x3e, b: 0x3e }),
        FileIcon::Archive => (Color { r: 0xc9, g: 0xa2, b: 0x27 }),
        FileIcon::Word => (Color { r: 0x41, g: 0xa5, b: 0xee }),
        FileIcon::Excel => (Color { r: 0x21, g: 0xa3, b: 0x66 }),
        FileIcon::PowerPoint => (Color { r: 0xd2, g: 0x49, b: 0x25 }),
        FileIcon::Generic => (Color { r: 0x8f, g: 0x8f, b: 0x8f }),
    }
}

impl FileIcon {
    /// The character this icon is drawn as, in [`MATERIAL_ICON_FAMILY`].
    pub fn glyph(self) -> (ch: char)
        ensures
            ch == file_icon_char(self),
    {
        match self {
            FileIcon::Rust => '\u{F1617}',
            FileIcon::Python => '\u{F0320}',
            FileIcon::JavaScript => '\u{F031E}',
            FileIcon::TypeScript => '\u{F06E6}',
            FileIcon::React => '\u{F0708}',
            FileIcon::Vue => '\u{F0844}',
            FileIcon::Go => '\u{F07D3}',
            FileIcon::Java => '\u{F0B37}',
            FileIcon::Kotlin => '\u{F1219}',
            FileIcon::Swift => '\u{F06E5}',
            FileIcon::C => '\u{F0671}',
            FileIcon::Cpp => '\u{F0672}',
            FileIcon::CSharp => '\u{F031B}',
            FileIcon::Php => '\u{F031F}',
            FileIcon::Ruby => '\u{F0D2D}',
            FileIcon::Haskell => '\u{F0C92}',
            FileIcon::R => '\u{F07D4}',
            FileIcon::Fortran => '\u{F121A}',
            FileIcon::Lua => '\u{F08B1}',
            FileIcon::Html => '\u{F031D}',
            FileIcon::Css => '\u{F031C}',
            FileIcon::Sass => '\u{F07EC}',
            FileIcon::Json => '\u{F0626}',
            FileIcon::Xml => '\u{F05C0}',
            FileIcon::Markdown => '\u{F0354}',
            FileIcon::Shell => '\u{F018D}',
            FileIcon::Docker => '\u{F0868}',
            FileIcon::Git => '\u{F02A2}',
            FileIcon::License => '\u{F0FC3}',
            FileIcon::Database => '\u{F01BC}',
            FileIcon::Config => '\u{F107C}',
            FileIcon::Lock => '\u{F1030}',
            FileIcon::Text => '\u{F09ED}',
            FileIcon::Image => '\u{F021F}',
            FileIcon::Svg => '\u{F0721}',
            FileIcon::Pdf => '\u{F0226}',
            FileIcon::Archive => '\u{F05C4}',
            FileIcon::Word => '\u{F022C}',
            FileIcon::Excel => '\u{F021B}',
            FileIcon::PowerPoint => '\u{F0227}',
            FileIcon::Generic => '\u{F0224}',
        }
    }

    /// This icon's characteristic colour: a tree full of files reads by colour
    /// and shape before anyone reads a file name.
    pub fn color(self) -> (color: Color)
        ensures
            color == file_icon_color(self),
    {
        match self {
            FileIcon::Rust => Color::rgb(0xde, 0xa5, 0x84),
            FileIcon::Python => Color::rgb(0x35, 0x72, 0xa5),
            FileIcon::JavaScript => Color::rgb(0xf1, 0xe0, 0x5a),
            FileIcon::TypeScript => Color::rgb(0x31, 0x78, 0xc6),
            FileIcon::React => Color::rgb(0x61, 0xda, 0xfb),
            FileIcon::Vue => Color::rgb(0x41, 0xb8, 0x83),
            FileIcon::Go => Color::rgb(0x00, 0xad, 0xd8),
            FileIcon::Java => Color::rgb(0xb0, 0x72, 0x19),
            FileIcon::Kotlin => Color::rgb(0xa9, 0x7b, 0xff),
            FileIcon::Swift => Color::rgb(0xf0, 0x51, 0x38),
            FileIcon::C => Color::rgb(0x55, 0x55, 0x55),
            FileIcon::Cpp => Color::rgb(0xf3, 0x4b, 0x7d),
            FileIcon::CSharp => Color::rgb(0x17, 0x86, 0x00),
            FileIcon::Php => Color::rgb(0x4f, 0x5d, 0x95),
            FileIcon::Ruby => Color::rgb(0xe3, 0x8c, 0x00),
            FileIcon::Haskell => Color::rgb(0x5e, 0x50, 0x86),
            FileIcon::R => Color::rgb(0x19, 0x8c, 0xe7),
            FileIcon::Fortran => Color::rgb(0x73, 0x4f, 0x96),
            FileIcon::Lua => Color::rgb(0x00, 0x00, 0x80),
            FileIcon::Html => Color::rgb(0xe3, 0x4c, 0x26),
            FileIcon::Css => Color::rgb(0x56, 0x3d, 0x7c),
            FileIcon::Sass => Color::rgb(0xcc, 0x66, 0x99),
            FileIcon::Json => Color::rgb(0xcb, 0xcb, 0x41),
            FileIcon::Xml => Color::rgb(0xe3, 0x7e, 0x00),
            FileIcon::Markdown => Color::rgb(0x51, 0x9a, 0xba),
            FileIcon::Shell => Color::rgb(0x89, 0xe0, 0x51),
            FileIcon::Docker => Color::rgb(0x0d, 0xb7, 0xed),
            FileIcon::Git => Color::rgb(0xf1, 0x50, 0x2f),
            FileIcon::License => Color::rgb(0xdc, 0xc6, 0x6a),
            FileIcon::Database => Color::rgb(0x4d, 0xb3, 0x3e),
            FileIcon::Config => Color::rgb(0x8f, 0x8f, 0x8f),
            FileIcon::Lock => Color::rgb(0x8f, 0x8f, 0x8f),
            FileIcon::Text => Color::rgb(0xc9, 0xc9, 0xc9),
            FileIcon::Image => Color::rgb(0xa0, 0x74, 0xc4),
            FileIcon::Svg => Color::rgb(0xff, 0xb1, 0x3b),
            FileIcon::Pdf => Color::rgb(0xe0, 0x3e, 0x3e),
            FileIcon::Archive => Color::rgb(0xc9, 0xa2, 0x27),
            FileIcon::Word => Color::rgb(0x41, 0xa5, 0xee),
            FileIcon::Excel => Color::rgb(0x21, 0xa3, 0x66),
            FileIcon::PowerPoint => Color::rgb(0xd2, 0x49, 0x25),
            FileIcon::Generic => Color::rgb(0x8f, 0x8f, 0x8f),
        }
    }
}

impl From<Icon> for Glyph {
    fn from(icon: Icon) -> (r: Self) {
        Glyph { ch: icon.glyph(), family: ICON_FAMILY }
    }
}

impl vstd::std_specs::convert::FromSpecImpl<Icon> for Glyph {
    open spec fn obeys_from_spec() -> bool {
        true
    }

    open spec fn from_spec(icon: Icon) -> Self {
        Glyph { ch: icon_char(icon), family: ICON_FAMILY }
    }
}

impl From<FileIcon> for Glyph {
    fn from(icon: FileIcon) -> (r: Self) {
        Glyph { ch: icon.glyph(), family: MATERIAL_ICON_FAMILY }
    }
}

impl vstd::std_specs::convert::FromSpecImpl<FileIcon> for Glyph {
    open spec fn obeys_from_spec() -> bool {
        true
    }

    open spec fn from_spec(icon: FileIcon) -> Self {
        Glyph { ch: file_icon_char(icon), family: MATERIAL_ICON_FAMILY }
    }
}

/// The glyph of a chrome icon.
pub open spec fn chrome_glyph(icon: Icon) -> Glyph {
    Glyph { ch: icon_char(icon), family: ICON_FAMILY }
}

/// The glyph of a file icon.
pub open spec fn file_glyph(icon: FileIcon) -> Glyph {
    Glyph { ch: file_icon_char(icon), family: MATERIAL_ICON_FAMILY }
}

/// The icon for a whole file name, in small letters: names that carry their
/// meaning without an extension.
pub open spec fn icon_by_name(name: Seq<char>) -> Option<FileIcon> {
    if name == "dockerfile"@ {
        Some(FileIcon::Docker)
    } else if name == ".gitignore"@ || name == ".gitattributes"@ || name == ".gitmodules"@ {
        Some(FileIcon::Git)
    } else if name == "license"@ || name == "license.txt"@ || name == "licence"@ {
        Some(FileIcon::License)
    } else {
        None
    }
}

/// The icon for an extension, in small letters.
pub open spec fn icon_by_extension(extension: Seq<char>) -> FileIcon {
    if extension == "rs"@ {
        FileIcon::Rust
    } else if extension == "py"@ || extension == "pyw"@ || extension == "pyi"@ {
        FileIcon::Python
    } else if extension == "js"@ || extension == "mjs"@ || extension == "cjs"@ {
        FileIcon::JavaScript
    } else if extension == "jsx"@ {
        FileIcon::React
    } else if extension == "ts"@ || extension == "mts"@ || extension == "cts"@ {
        FileIcon::TypeScript
    } else if extension == "tsx"@ {
        FileIcon::React
    } else if extension == "vue"@ {
        FileIcon::Vue
    } else if extension == "go"@ {
        FileIcon::Go
    } else if extension == "java"@ {
        FileIcon::Java
    } else if extension == "kt"@ || extension == "kts"@ {
        FileIcon::Kotlin
    } else if extension == "swift"@ {
        FileIcon::Swift
    } else if extension == "c"@ || extension == "h"@ {
        FileIcon::C
    } else if extension == "cpp"@ || extension == "cc"@ || extension == "cxx"@
        || extension == "hpp"@ || extension == "hh"@ || extension == "hxx"@ {
        FileIcon::Cpp
    } else if extension == "cs"@ {
        FileIcon::CSharp
    } else if extension == "php"@ {
        FileIcon::Php
    } else if extension == "rb"@ {
        FileIcon::Ruby
    } else if extension == "hs"@ {
        FileIcon::Haskell
    } else if extension == "r"@ {
        FileIcon::R
    } else if extension == "f"@ || extension == "f90"@ || extension == "f95"@ {
        FileIcon::Fortran
    } else if extension == "lua"@ {
        FileIcon::Lua
    } else if extension == "html"@ || extension == "htm"@ {
        FileIcon::Html
    } else if extension == "css"@ {
        FileIcon::Css
    } else if extension == "scss"@ || extension == "sass"@ || extension == "less"@ {
        FileIcon::Sass
    } else if extension == "json"@ || extension == "jsonc"@ {
        FileIcon::Json
    } else if extension == "xml"@ {
        FileIcon::Xml
    } else if extension == "md"@ || extension == "markdown"@ {
        FileIcon::Markdown
    } else if extension == "sh"@ || extension == "bash"@ || extension == "zsh"@
        || extension == "fish"@ || extension == "ps1"@ {
        FileIcon::Shell
    } else if extension == "sql"@ {
        FileIcon::Database
    } else if extension == "toml"@ || extension == "yaml"@ || extension == "yml"@
        || extension == "ini"@ || extension == "cfg"@ || extension == "conf"@ {
        FileIcon::Config
    } else if extension == "lock"@ {
        FileIcon::Lock
    } else if extension == "txt"@ || extension == "log"@ {
        FileIcon::Text
    } else if extension == "png"@ || extension == "jpg"@ || extension == "jpeg"@
        || extension == "gif"@ || extension == "ico"@ || extension == "bmp"@
        || extension == "webp"@ {
        FileIcon::Image
    } else if extension == "svg"@ {
        FileIcon::Svg
    } else if extension == "pdf"@ {
        FileIcon::Pdf
    } else if extension == "zip"@ || extension == "tar"@ || extension == "gz"@
        || extension == "rar"@ || extension == "7z"@ || extension == "bz2"@ || extension == "xz"@ {
        FileIcon::Archive
    } else if extension == "doc"@ || extension == "docx"@ {
        FileIcon::Word
    } else if extension == "xls"@ || extension == "xlsx"@ || extension == "csv"@ {
        FileIcon::Excel
    } else if extension == "ppt"@ || extension == "pptx"@ {
        FileIcon::PowerPoint
    } else {
        FileIcon::Generic
    }
}

/// Where the last dot of a name is, or -1 when it has none.
pub open spec fn last_dot(name: Seq<char>) -> int
    decreases name.len(),
{
    if name.len() == 0 {
        -1
    } else if name.last() == '.' {
        name.len() - 1
    } else {
        last_dot(name.drop_last())
    }
}

/// What follows the last dot of a name, or nothing when it has no dot.
pub open spec fn extension(name: Seq<char>) -> Seq<char> {
    if last_dot(name) < 0 {
        Seq::empty()
    } else {
        name.skip(last_dot(name) + 1)
    }
}

/// The icon a file gets: by its whole name where that says it, by its
/// extension otherwise.
pub open spec fn file_icon(name: Seq<char>) -> FileIcon {
    match icon_by_name(lowered(name)) {
        Some(icon) => icon,
        None => icon_by_extension(lowered(extension(name))),
    }
}

fn extension_icon(extension: &Vec<char>) -> (icon: FileIcon)
    ensures
        icon == icon_by_extension(extension@),
{
    if same(extension, "rs") {
        FileIcon::Rust
    } else if same(extension, "py") || same(extension, "pyw") || same(extension, "pyi") {
        FileIcon::Python
    } else if same(extension, "js") || same(extension, "mjs") || same(extension, "cjs") {
        FileIcon::JavaScript
    } else if same(extension, "jsx") {
        FileIcon::React
    } else if same(extension, "ts") || same(extension, "mts") || same(extension, "cts") {
        FileIcon::TypeScript
    } else if same(extension, "tsx") {
        FileIcon::React
    } else if same(extension, "vue") {
        FileIcon::Vue
    } else if same(extension, "go") {
        FileIcon::Go
    } else if same(extension, "java") {
        FileIcon::Java
    } else if same(extension, "kt") || same(extension, "kts") {
        FileIcon::Kotlin
    } else if same(extension, "swift") {
        FileIcon::Swift
    } else if same(extension, "c") || same(extension, "h") {
        FileIcon::C
    } else if same(extension, "cpp") || same(extension, "cc") || same(extension, "cxx")
        || same(extension, "hpp") || same(extension, "hh") || same(extension, "hxx") {
        FileIcon::Cpp
    } else if same(extension, "cs") {
        FileIcon::CSharp
    } else if same(extension, "php") {
        FileIcon::Php
    } else if same(extension, "rb") {
        FileIcon::Ruby
    } else if same(extension, "hs") {
        FileIcon::Haskell
    } else if same(extension, "r") {
        FileIcon::R
    } else if same(extension, "f") || same(extension, "f90") || same(extension, "f95") {
        FileIcon::Fortran
    } else if same(extension, "lua") {
        FileIcon::Lua
    } else if same(extension, "html") || same(extension, "htm") {
        FileIcon::Html
    } else if same(extension, "css") {
        FileIcon::Css
    } else if same(extension, "scss") || same(extension, "sass") || same(extension, "less") {
        FileIcon::Sass
    } else if same(extension, "json") || same(extension, "jsonc") {
        FileIcon::Json
    } else if same(extension, "xml") {
        FileIcon::Xml
    } else if same(extension, "md") || same(extension, "markdown") {
        FileIcon::Markdown
    } else if same(extension, "sh") || same(extension, "bash") || same(extension, "zsh")
        || same(extension, "fish") || same(extension, "ps1") {
        FileIcon::Shell
    } else if same(extension, "sql") {
        FileIcon::Database
    } else if same(extension, "toml") || same(extension, "yaml") || same(extension, "yml")
        || same(extension, "ini") || same(extension, "cfg") || same(extension, "conf") {
        FileIcon::Config
    } else if same(extension, "lock") {
        FileIcon::Lock
    } else if same(extension, "txt") || same(extension, "log") {
        FileIcon::Text
    } else if same(extension, "png") || same(extension, "jpg") || same(extension, "jpeg")
        || same(extension, "gif") || same(extension, "ico") || same(extension, "bmp")
        || same(extension, "webp") {
        FileIcon::Image
    } else if same(extension, "svg") {
        FileIcon::Svg
    } else if same(extension, "pdf") {
        FileIcon::Pdf
    } else if same(extension, "zip") || same(extension, "tar") || same(extension, "gz")
        || same(extension, "rar") || same(extension, "7z") || same(extension, "bz2")
        || same(extension, "xz") {
        FileIcon::Archive
    } else if same(extension, "doc") || same(extension, "docx") {
        FileIcon::Word
    } else if same(extension, "xls") || same(extension, "xlsx") || same(extension, "csv") {
        FileIcon::Excel
    } else if same(extension, "ppt") || same(extension, "pptx") {
        FileIcon::PowerPoint
    } else {
        FileIcon::Generic
    }
}

/// Where the extension of a name begins: past its last dot, or at its end.
fn extension_start(name: &Vec<char>) -> (at: usize)
    ensures
        at <= name.len(),
        extension(name@) == name@.skip(at as int),
{
    let mut i: usize = name.len();
    assert(name@.take(i as int) == name@);
    while i > 0
        invariant
            i <= name.len(),
            last_dot(name@) == last_dot(name@.take(i as int)),
        decreases i,
    {
        if name[i - 1] == '.' {
            return i;
        }
        assert(name@.take(i as int).drop_last() == name@.take(i - 1));
        i = i - 1;
    }
    assert(name@.skip(name.len() as int) == Seq::<char>::empty());
    name.len()
}

/// The icon a file gets in the explorer and on its tab.
pub fn icon_for_file(name: &str) -> (icon: FileIcon)
    ensures
        icon == file_icon(name@),
{
    let chars = chars_of(name);
    let small = to_lowered(&chars);
    if same(&small, "dockerfile") {
        return FileIcon::Docker;
    }
    if same(&small, ".gitignore") || same(&small, ".gitattributes") || same(&small, ".gitmodules") {
        return FileIcon::Git;
    }
    if same(&small, "license") || same(&small, "license.txt") || same(&small, "licence") {
        return FileIcon::License;
    }
    let at = extension_start(&chars);
    let tail = slice(&chars, at, chars.len());
    assert(tail@ == extension(name@));
    extension_icon(&to_lowered(&tail))
}

/// Every chrome icon lies in the private use area that Codicons occupies.
pub proof fn icons_lie_in_the_private_use_area(icon: Icon)
    ensures
        0xE000 <= icon_char(icon) as u32 <= 0xF8FF,
{
}

/// Every file icon lies in the supplementary private use area that Material
/// Design Icons occupies.
pub proof fn file_icons_lie_in_the_supplementary_private_use_area(icon: FileIcon)
    ensures
        0xF0000 <= file_icon_char(icon) as u32 <= 0xFFFFD,
{
}

/// The letters' case makes no difference to which icon a file gets.
pub proof fn case_makes_no_difference(a: Seq<char>, b: Seq<char>)
    requires
        lowered(a) == lowered(b),
    ensures
        file_icon(a) == file_icon(b),
{
    assert(a.len() == lowered(a).len());
    assert(b.len() == lowered(b).len());
    last_dot_ignores_case(a, b);
    let at = last_dot(a);
    last_dot_bounds(a);
    if at >= 0 {
        assert(lowered(a.skip(at + 1)) =~= lowered(a).skip(at + 1));
        assert(lowered(b.skip(at + 1)) =~= lowered(b).skip(at + 1));
    }
}

proof fn last_dot_bounds(a: Seq<char>)
    ensures
        -1 <= last_dot(a) < a.len(),
    decreases a.len(),
{
    if a.len() > 0 && a.last() != '.' {
        last_dot_bounds(a.drop_last());
    }
}

proof fn last_dot_ignores_case(a: Seq<char>, b: Seq<char>)
    requires
        lowered(a) == lowered(b),
    ensures
        last_dot(a) == last_dot(b),
    decreases a.len(),
{
    assert(a.len() == lowered(a).len());
    assert(b.len() == lowered(b).len());
    if a.len() > 0 {
        assert(lowered(a).last() == lower(a.last()));
        assert(lowered(b).last() == lower(b.last()));
        assert(lowered(a.drop_last()) =~= lowered(a).drop_last());
        assert(lowered(b.drop_last()) =~= lowered(b).drop_last());
        last_dot_ignores_case(a.drop_last(), b.drop_last());
    }
}

/// No two icons look the same.
pub proof fn every_icon_has_its_own_glyph(a: Icon, b: Icon)
    requires
        icon_char(a) == icon_char(b),
    ensures
        a == b,
{
}

/// No two file types look the same.
pub proof fn every_file_type_has_its_own_glyph(a: FileIcon, b: FileIcon)
    requires
        file_icon_char(a) == file_icon_char(b),
    ensures
        a == b,
{
}

/// The extension is what follows the last dot, whatever stands before it, and
/// a name without a dot has none.
pub proof fn the_extension_follows_the_last_dot(stem: Seq<char>, tail: Seq<char>)
    requires
        !tail.contains('.'),
    ensures
        extension(stem.push('.') + tail) == tail,
        extension(tail).len() == 0,
    decreases tail.len(),
{
    let name = stem.push('.') + tail;
    dot_before(stem, tail);
    assert(name.skip((stem.len() + 1) as int) =~= tail);
    no_dot(tail);
}

proof fn no_dot(name: Seq<char>)
    requires
        !name.contains('.'),
    ensures
        last_dot(name) == -1,
    decreases name.len(),
{
    if name.len() > 0 {
        assert(name.contains(name.last()));
        assert forall|i: int| 0 <= i < name.drop_last().len() implies name.drop_last()[i] != '.' by {
            assert(name.contains(name[i]));
        }
        no_dot(name.drop_last());
    }
}

proof fn dot_before(stem: Seq<char>, tail: Seq<char>)
    requires
        !tail.contains('.'),
    ensures
        last_dot(stem.push('.') + tail) == stem.len(),
    decreases tail.len(),
{
    let name = stem.push('.') + tail;
    if tail.len() == 0 {
        assert(name.last() == '.');
    } else {
        assert(tail.contains(tail.last()));
        assert(name.last() == tail.last());
        let front = tail.drop_last();
        assert forall|i: int| 0 <= i < front.len() implies front[i] != '.' by {
            assert(tail.contains(tail[i]));
        }
        assert(name.drop_last() =~= stem.push('.') + front);
        dot_before(stem, front);
    }
}

} // verus!
