use dirlist::classify::ColorCategory;
use dirlist::classify::DisplayClass;
use dirlist::classify::FileKind;
use dirlist::classify::format_name;
use dirlist::classify::get_extension_color;
use dirlist::classify::get_file_color;

#[test]
fn maps_known_extensions() {
    assert_eq!(get_extension_color("rs"), ColorCategory::SystemsLang);
    assert_eq!(get_extension_color("zig"), ColorCategory::SystemsLang);
    assert_eq!(get_extension_color("html"), ColorCategory::WebFrontend);
    assert_eq!(get_extension_color("py"), ColorCategory::Scripting);
    assert_eq!(get_extension_color("bash"), ColorCategory::Shell);
    assert_eq!(get_extension_color("toml"), ColorCategory::DataConfig);
    assert_eq!(get_extension_color("markdown"), ColorCategory::Document);
    assert_eq!(get_extension_color("jpeg"), ColorCategory::Image);
    assert_eq!(get_extension_color("7z"), ColorCategory::Archive);
    assert_eq!(get_extension_color("msi"), ColorCategory::Executable);
}

#[test]
fn unknown_extension_is_plain() {
    assert_eq!(get_extension_color("unknownext"), ColorCategory::Plain);
    assert_eq!(get_extension_color(""), ColorCategory::Plain);
}

#[test]
fn lookup_is_case_insensitive() {
    assert_eq!(get_extension_color("RS"), ColorCategory::SystemsLang);
    assert_eq!(get_extension_color("Jpeg"), ColorCategory::Image);
    assert_eq!(get_file_color("Main.RS"), get_file_color("main.rs"));
    assert_eq!(get_file_color("Main.RS"), ColorCategory::SystemsLang);
}

#[test]
fn file_color_uses_last_extension() {
    assert_eq!(get_file_color("archive.tar.gz"), ColorCategory::Archive);
    assert_eq!(get_file_color("notes.md"), ColorCategory::Document);
}

#[test]
fn no_dot_means_no_extension() {
    assert_eq!(get_file_color("README"), ColorCategory::Plain);
    assert_eq!(get_file_color("Makefile"), ColorCategory::Plain);
}

#[test]
fn leading_dot_only_means_no_extension() {
    assert_eq!(get_file_color(".gitignore"), ColorCategory::Plain);
    assert_eq!(get_file_color(".rs"), ColorCategory::Plain);
}

#[test]
fn trailing_dot_means_empty_extension() {
    assert_eq!(get_file_color("strange."), ColorCategory::Plain);
}

#[test]
fn directory_gets_separator_suffix() {
    let d = format_name("src", FileKind::Directory);
    assert_eq!(d.text, "src/");
    assert_eq!(d.class, DisplayClass::Directory);
}

#[test]
fn directory_wins_over_extension() {
    let d = format_name("archive.zip", FileKind::Directory);
    assert_eq!(d.text, "archive.zip/");
    assert_eq!(d.class, DisplayClass::Directory);
}

#[test]
fn file_keeps_bare_name_and_category() {
    let d = format_name("main.rs", FileKind::RegularFile);
    assert_eq!(d.text, "main.rs");
    assert_eq!(d.class, DisplayClass::File(ColorCategory::SystemsLang));
}

#[test]
fn other_kind_is_classified_like_a_file() {
    let d = format_name("dev.json", FileKind::Other);
    assert_eq!(d.text, "dev.json");
    assert_eq!(d.class, DisplayClass::File(ColorCategory::DataConfig));
}
