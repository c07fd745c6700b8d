use lightspeed::icons::{
    icon_for_file, FileIcon, Glyph, Icon, ICON_FAMILY, MATERIAL_ICON_FAMILY,
};

const ALL_ICONS: [Icon; 33] = [
    Icon::Files,
    Icon::Search,
    Icon::SourceControl,
    Icon::Extensions,
    Icon::Debug,
    Icon::TypeHierarchy,
    Icon::Menu,
    Icon::SettingsGear,
    Icon::Play,
    Icon::ArrowLeft,
    Icon::ArrowRight,
    Icon::ChevronRight,
    Icon::ChevronDown,
    Icon::Folder,
    Icon::FolderOpened,
    Icon::Close,
    Icon::CircleFilled,
    Icon::Terminal,
    Icon::GitBranch,
    Icon::Error,
    Icon::Warning,
    Icon::LayoutSidebarLeft,
    Icon::LayoutPanel,
    Icon::SplitHorizontal,
    Icon::Refresh,
    Icon::ClearAll,
    Icon::NewFile,
    Icon::CollapseAll,
    Icon::Ellipsis,
    Icon::CaseSensitive,
    Icon::WholeWord,
    Icon::Regex,
    Icon::Replace,
];

const ALL_FILE_ICONS: [FileIcon; 41] = [
    FileIcon::Rust,
    FileIcon::Python,
    FileIcon::JavaScript,
    FileIcon::TypeScript,
    FileIcon::React,
    FileIcon::Vue,
    FileIcon::Go,
    FileIcon::Java,
    FileIcon::Kotlin,
    FileIcon::Swift,
    FileIcon::C,
    FileIcon::Cpp,
    FileIcon::CSharp,
    FileIcon::Php,
    FileIcon::Ruby,
    FileIcon::Haskell,
    FileIcon::R,
    FileIcon::Fortran,
    FileIcon::Lua,
    FileIcon::Html,
    FileIcon::Css,
    FileIcon::Sass,
    FileIcon::Json,
    FileIcon::Xml,
    FileIcon::Markdown,
    FileIcon::Shell,
    FileIcon::Docker,
    FileIcon::Git,
    FileIcon::License,
    FileIcon::Database,
    FileIcon::Config,
    FileIcon::Lock,
    FileIcon::Text,
    FileIcon::Image,
    FileIcon::Svg,
    FileIcon::Pdf,
    FileIcon::Archive,
    FileIcon::Word,
    FileIcon::Excel,
    FileIcon::PowerPoint,
    FileIcon::Generic,
];

#[test]
fn every_icon_is_in_the_private_use_area() {
    for icon in ALL_ICONS {
        let code = icon.glyph() as u32;
        assert!(
            (0xE000..=0xF8FF).contains(&code),
            "{icon:?} maps to U+{code:04X}, outside the private use area"
        );
    }
}

#[test]
fn icons_are_distinct_where_they_need_to_be() {
    assert_ne!(Icon::ChevronRight.glyph(), Icon::ChevronDown.glyph());
    assert_ne!(Icon::Folder.glyph(), Icon::FolderOpened.glyph());
    assert_ne!(Icon::Files.glyph(), Icon::Search.glyph());
}

#[test]
fn file_types_get_their_own_icons() {
    assert_eq!(icon_for_file("main.rs"), FileIcon::Rust);
    assert_eq!(icon_for_file("component.tsx"), FileIcon::React);
    assert_eq!(icon_for_file("app.vue"), FileIcon::Vue);
    assert_eq!(icon_for_file("Cargo.toml"), FileIcon::Config);
    assert_eq!(icon_for_file("README.md"), FileIcon::Markdown);
    assert_eq!(icon_for_file("package.json"), FileIcon::Json);
    assert_eq!(icon_for_file("Dockerfile"), FileIcon::Docker);
    assert_eq!(icon_for_file(".gitignore"), FileIcon::Git);
    assert_eq!(icon_for_file("LICENSE"), FileIcon::License, "no extension, matched by name");
    assert_eq!(icon_for_file("notes.unknownext"), FileIcon::Generic);
    assert_eq!(icon_for_file("Makefile"), FileIcon::Generic, "no extension, no special name");
}

#[test]
fn case_makes_no_difference_to_an_icon() {
    assert_eq!(icon_for_file("MAIN.RS"), icon_for_file("main.rs"));
    assert_eq!(icon_for_file("dockerFILE"), FileIcon::Docker);
}

#[test]
fn every_file_icon_is_a_supplementary_private_use_codepoint() {
    for icon in ALL_FILE_ICONS {
        let code = icon.glyph() as u32;
        assert!(
            (0xF0000..=0xFFFFD).contains(&code),
            "{icon:?} maps to U+{code:04X}, outside the supplementary private use area"
        );
    }
}

#[test]
fn glyph_conversion_carries_the_right_font_family() {
    let chrome: Glyph = Icon::Search.into();
    assert_eq!(chrome.family, ICON_FAMILY);
    let file: Glyph = FileIcon::Rust.into();
    assert_eq!(file.family, MATERIAL_ICON_FAMILY);
    assert_eq!(file.ch, '\u{F1617}');
}
