//! Classifying a directory entry for display: directories get a path
//! separator suffix and their own display class, files get a semantic
//! color category looked up, case-insensitively, from the extension
//! after the last `.` of the name.

use vstd::prelude::*;
use vstd::string::StringExecFns;
use vstd::string::StrSliceExecFns;

verus! {

/// The file-type discriminant of an entry's metadata.
#[derive(Clone, Copy, Debug, PartialEq, Eq, Structural)]
pub enum FileKind {
    Directory,
    RegularFile,
    Other,
}

/// A semantic display category, grouped by domain. `Plain` is the
/// category of names with no extension and of unmapped extensions.
#[derive(Clone, Copy, Debug, PartialEq, Eq, Structural)]
pub enum ColorCategory {
    SystemsLang,
    WebFrontend,
    Scripting,
    Shell,
    DataConfig,
    Document,
    Image,
    Archive,
    Executable,
    Plain,
}

/// How an entry is to be emphasised: as a directory, or as a file with
/// a color category.
#[derive(Clone, Copy, Debug, PartialEq, Eq, Structural)]
pub enum DisplayClass {
    Directory,
    File(ColorCategory),
}

/// A name ready for display, together with its semantic class. The
/// caller decides how (and whether) the class is painted.
pub struct DecoratedName {
    pub text: String,
    pub class: DisplayClass,
}

/// ASCII lower-casing of one character; anything but an ASCII capital
/// letter is left as it is.
pub open spec fn lower_char(c: char) -> char {
    match c {
        'A' => 'a',
        'B' => 'b',
        'C' => 'c',
        'D' => 'd',
        'E' => 'e',
        'F' => 'f',
        'G' => 'g',
        'H' => 'h',
        'I' => 'i',
        'J' => 'j',
        'K' => 'k',
        'L' => 'l',
        'M' => 'm',
        'N' => 'n',
        'O' => 'o',
        'P' => 'p',
        'Q' => 'q',
        'R' => 'r',
        'S' => 's',
        'T' => 't',
        'U' => 'u',
        'V' => 'v',
        'W' => 'w',
        'X' => 'x',
        'Y' => 'y',
        'Z' => 'z',
        _ => c,
    }
}

/// Character-wise lower-casing of a sequence.
pub open spec fn lower_seq(s: Seq<char>) -> Seq<char> {
    Seq::new(s.len(), |i: int| lower_char(s[i]))
}

fn to_lower_char(c: char) -> (r: char)
    ensures
        r == lower_char(c),
{
    match c {
        'A' => 'a',
        'B' => 'b',
        'C' => 'c',
        'D' => 'd',
        'E' => 'e',
        'F' => 'f',
        'G' => 'g',
        'H' => 'h',
        'I' => 'i',
        'J' => 'j',
        'K' => 'k',
        'L' => 'l',
        'M' => 'm',
        'N' => 'n',
        'O' => 'o',
        'P' => 'p',
        'Q' => 'q',
        'R' => 'r',
        'S' => 's',
        'T' => 't',
        'U' => 'u',
        'V' => 'v',
        'W' => 'w',
        'X' => 'x',
        'Y' => 'y',
        'Z' => 'z',
        _ => c,
    }
}

/// Whether `s`, lower-cased, reads as `lit`.
fn eq_lowered(s: &str, lit: &str) -> (r: bool)
    ensures
        r == (lower_seq(s@) == lit@),
{
    let n = s.unicode_len();
    if n != lit.unicode_len() {
        return false;
    }
    let mut i: usize = 0;
    while i < n
        invariant
            0 <= i <= n,
            n == s@.len(),
            n == lit@.len(),
            forall|j: int| 0 <= j < i ==> lower_char(s@[j]) == lit@[j],
        decreases n - i,
    {
        let c = to_lower_char(s.get_char(i));
        let d = lit.get_char(i);
        if c != d {
            proof {
                assert(lower_seq(s@)[i as int] != lit@[i as int]);
            }
            return false;
        }
        i = i + 1;
    }
    proof {
        assert(lower_seq(s@) =~= lit@);
    }
    true
}

/// The static extension table: the category of an already lower-cased
/// extension. Unmapped extensions read as `Plain`.
pub open spec fn category_of_ext(e: Seq<char>) -> ColorCategory {
    if e == "rs"@ || e == "go"@ || e == "c"@ || e == "cpp"@ || e == "cc"@ || e == "cxx"@ || e
        == "zig"@ {
        ColorCategory::SystemsLang
    } else if e == "js"@ || e == "mjs"@ || e == "ts"@ || e == "jsx"@ || e == "tsx"@ || e == "html"@
        || e == "htm"@ || e == "css"@ || e == "scss"@ || e == "sass"@ || e == "vue"@ {
        ColorCategory::WebFrontend
    } else if e == "py"@ || e == "rb"@ || e == "php"@ || e == "java"@ || e == "cs"@ || e
        == "swift"@ || e == "kt"@ || e == "scala"@ || e == "clj"@ || e == "cljs"@ {
        ColorCategory::Scripting
    } else if e == "sh"@ || e == "bash"@ || e == "zsh"@ || e == "fish"@ || e == "ps1"@ || e
        == "bat"@ || e == "cmd"@ {
        ColorCategory::Shell
    } else if e == "json"@ || e == "yaml"@ || e == "yml"@ || e == "toml"@ || e == "xml"@ || e
        == "csv"@ {
        ColorCategory::DataConfig
    } else if e == "md"@ || e == "markdown"@ || e == "txt"@ || e == "pdf"@ || e == "doc"@ || e
        == "docx"@ {
        ColorCategory::Document
    } else if e == "png"@ || e == "jpg"@ || e == "jpeg"@ || e == "gif"@ || e == "webp"@ || e
        == "svg"@ || e == "ico"@ {
        ColorCategory::Image
    } else if e == "zip"@ || e == "tar"@ || e == "gz"@ || e == "7z"@ || e == "rar"@ {
        ColorCategory::Archive
    } else if e == "exe"@ || e == "msi"@ || e == "deb"@ || e == "rpm"@ || e == "dmg"@ {
        ColorCategory::Executable
    } else {
        ColorCategory::Plain
    }
}

/// Look an extension up in the static table, lower-casing it first.
pub fn get_extension_color(ext: &str) -> (c: ColorCategory)
    ensures
        c == category_of_ext(lower_seq(ext@)),
{
    if eq_lowered(ext, "rs") || eq_lowered(ext, "go") || eq_lowered(ext, "c") || eq_lowered(
        ext,
        "cpp",
    ) || eq_lowered(ext, "cc") || eq_lowered(ext, "cxx") || eq_lowered(ext, "zig") {
        ColorCategory::SystemsLang
    } else if eq_lowered(ext, "js") || eq_lowered(ext, "mjs") || eq_lowered(ext, "ts")
        || eq_lowered(ext, "jsx") || eq_lowered(ext, "tsx") || eq_lowered(ext, "html")
        || eq_lowered(ext, "htm") || eq_lowered(ext, "css") || eq_lowered(ext, "scss")
        || eq_lowered(ext, "sass") || eq_lowered(ext, "vue") {
        ColorCategory::WebFrontend
    } else if eq_lowered(ext, "py") || eq_lowered(ext, "rb") || eq_lowered(ext, "php")
        || eq_lowered(ext, "java") || eq_lowered(ext, "cs") || eq_lowered(ext, "swift")
        || eq_lowered(ext, "kt") || eq_lowered(ext, "scala") || eq_lowered(ext, "clj")
        || eq_lowered(ext, "cljs") {
        ColorCategory::Scripting
    } else if eq_lowered(ext, "sh") || eq_lowered(ext, "bash") || eq_lowered(ext, "zsh")
        || eq_lowered(ext, "fish") || eq_lowered(ext, "ps1") || eq_lowered(ext, "bat")
        || eq_lowered(ext, "cmd") {
        ColorCategory::Shell
    } else if eq_lowered(ext, "json") || eq_lowered(ext, "yaml") || eq_lowered(ext, "yml")
        || eq_lowered(ext, "toml") || eq_lowered(ext, "xml") || eq_lowered(ext, "csv") {
        ColorCategory::DataConfig
    } else if eq_lowered(ext, "md") || eq_lowered(ext, "markdown") || eq_lowered(ext, "txt")
        || eq_lowered(ext, "pdf") || eq_lowered(ext, "doc") || eq_lowered(ext, "docx") {
        ColorCategory::Document
    } else if eq_lowered(ext, "png") || eq_lowered(ext, "jpg") || eq_lowered(ext, "jpeg")
        || eq_lowered(ext, "gif") || eq_lowered(ext, "webp") || eq_lowered(ext, "svg")
        || eq_lowered(ext, "ico") {
        ColorCategory::Image
    } else if eq_lowered(ext, "zip") || eq_lowered(ext, "tar") || eq_lowered(ext, "gz")
        || eq_lowered(ext, "7z") || eq_lowered(ext, "rar") {
        ColorCategory::Archive
    } else if eq_lowered(ext, "exe") || eq_lowered(ext, "msi") || eq_lowered(ext, "deb")
        || eq_lowered(ext, "rpm") || eq_lowered(ext, "dmg") {
        ColorCategory::Executable
    } else {
        ColorCategory::Plain
    }
}

/// The index of the last `.` in `s`, or `-1` if there is none.
pub open spec fn last_dot(s: Seq<char>) -> int
    decreases s.len(),
{
    if s.len() == 0 {
        -1
    } else if s[s.len() - 1] == '.' {
        s.len() - 1
    } else {
        last_dot(s.drop_last())
    }
}

/// The extension of a file name: the part after the last `.`, provided
/// that `.` is neither absent nor the name's first character. A name
/// with no `.`, and a name that is nothing but a leading `.` and an
/// extension-like tail, both have no extension.
pub open spec fn extension_of(s: Seq<char>) -> Option<Seq<char>> {
    if last_dot(s) <= 0 {
        None
    } else {
        Some(s.subrange(last_dot(s) + 1, s.len() as int))
    }
}

/// The color category of a file name: its extension looked up in the
/// table, or `Plain` when it has none.
pub open spec fn spec_file_color(s: Seq<char>) -> ColorCategory {
    match extension_of(s) {
        Some(e) => category_of_ext(lower_seq(e)),
        None => ColorCategory::Plain,
    }
}

pub proof fn lemma_last_dot_bounds(s: Seq<char>)
    ensures
        -1 <= last_dot(s) < s.len(),
        last_dot(s) >= 0 ==> s[last_dot(s)] == '.',
    decreases s.len(),
{
    if s.len() > 0 && s[s.len() - 1] != '.' {
        lemma_last_dot_bounds(s.drop_last());
    }
}

/// If no position at `i` or beyond holds a `.`, the last dot of `s` is
/// the last dot of its first `i` characters.
proof fn lemma_last_dot_take(s: Seq<char>, i: int)
    requires
        0 <= i <= s.len(),
        forall|j: int| i <= j < s.len() ==> s[j] != '.',
    ensures
        last_dot(s) == last_dot(s.subrange(0, i)),
    decreases s.len() - i,
{
    if i == s.len() {
        assert(s.subrange(0, i) =~= s);
    } else {
        assert(s.drop_last() =~= s.subrange(0, s.len() - 1));
        lemma_last_dot_take(s.subrange(0, s.len() - 1), i);
        assert(s.subrange(0, s.len() - 1).subrange(0, i) =~= s.subrange(0, i));
    }
}

fn last_dot_index(s: &str) -> (r: Option<usize>)
    ensures
        match r {
            Some(i) => last_dot(s@) == i as int,
            None => last_dot(s@) == -1,
        },
{
    let n = s.unicode_len();
    let mut i = n;
    loop
        invariant
            0 <= i <= n,
            n == s@.len(),
            forall|j: int| i <= j < n ==> s@[j] != '.',
        decreases i,
    {
        if i == 0 {
            proof {
                lemma_last_dot_take(s@, 0);
            }
            return None;
        }
        let ch = s.get_char(i - 1);
        if ch == '.' {
            proof {
                lemma_last_dot_take(s@, i as int);
                let sub = s@.subrange(0, i as int);
                assert(sub[sub.len() - 1] == '.');
            }
            return Some(i - 1);
        }
        i = i - 1;
    }
}

/// The color category of a file name: split off the extension,
/// lower-case it, consult the table.
pub fn get_file_color(filename: &str) -> (c: ColorCategory)
    ensures
        c == spec_file_color(filename@),
{
    proof {
        lemma_last_dot_bounds(filename@);
    }
    let n = filename.unicode_len();
    match last_dot_index(filename) {
        None => ColorCategory::Plain,
        Some(idx) => {
            if idx == 0 {
                ColorCategory::Plain
            } else {
                let ext = filename.substring_char(idx + 1, n);
                get_extension_color(ext)
            }
        },
    }
}

proof fn lemma_lower_char_idempotent(c: char)
    ensures
        lower_char(lower_char(c)) == lower_char(c),
{
}

proof fn lemma_lower_seq_idempotent(s: Seq<char>)
    ensures
        lower_seq(lower_seq(s)) == lower_seq(s),
{
    assert forall|i: int| 0 <= i < s.len() implies lower_seq(lower_seq(s))[i] == lower_seq(s)[i] by {
        lemma_lower_char_idempotent(s[i]);
    }
    assert(lower_seq(lower_seq(s)) =~= lower_seq(s));
}

proof fn lemma_last_dot_lower(s: Seq<char>)
    ensures
        last_dot(lower_seq(s)) == last_dot(s),
    decreases s.len(),
{
    if s.len() > 0 {
        assert(lower_seq(s)[s.len() - 1] == lower_char(s[s.len() - 1]));
        assert(lower_char(s[s.len() - 1]) == '.' <==> s[s.len() - 1] == '.');
        if s[s.len() - 1] != '.' {
            lemma_last_dot_lower(s.drop_last());
            assert(lower_seq(s).drop_last() =~= lower_seq(s.drop_last()));
        }
    }
}

proof fn lemma_file_color_lower(s: Seq<char>)
    ensures
        spec_file_color(lower_seq(s)) == spec_file_color(s),
{
    lemma_last_dot_lower(s);
    lemma_last_dot_bounds(s);
    let d = last_dot(s);
    if d > 0 {
        let e = s.subrange(d + 1, s.len() as int);
        assert(lower_seq(s).subrange(d + 1, s.len() as int) =~= lower_seq(e));
        lemma_lower_seq_idempotent(e);
    }
}

/// Extension lookup is case-insensitive: two file names that agree up
/// to ASCII letter case classify to the same color category.
pub proof fn lemma_lookup_case_insensitive(a: Seq<char>, b: Seq<char>)
    requires
        lower_seq(a) == lower_seq(b),
    ensures
        spec_file_color(a) == spec_file_color(b),
{
    lemma_file_color_lower(a);
    lemma_file_color_lower(b);
}

/// A name whose only `.`, if any, is its first character has no
/// extension: it classifies as `Plain`. This covers names with no `.`
/// at all and names that are nothing but a leading `.` and a tail.
pub proof fn lemma_no_extension_is_plain(s: Seq<char>)
    requires
        forall|j: int| 1 <= j < s.len() ==> s[j] != '.',
    ensures
        extension_of(s) is None,
        spec_file_color(s) == ColorCategory::Plain,
{
    if s.len() > 0 {
        lemma_last_dot_take(s, 1);
        let sub = s.subrange(0, 1);
        assert(sub.len() == 1);
        if sub[0] == '.' {
            assert(last_dot(sub) == 0);
        } else {
            assert(last_dot(sub) == last_dot(sub.drop_last()));
            assert(sub.drop_last().len() == 0);
            assert(last_dot(sub.drop_last()) == -1);
        }
    }
}

/// The display text of an entry: directories carry the path-separator
/// suffix, whatever their name looks like; other entries show the bare
/// name.
pub open spec fn decorated_text(name: Seq<char>, kind: FileKind) -> Seq<char> {
    if kind == FileKind::Directory {
        name + "/"@
    } else {
        name
    }
}

/// The display class of an entry: directories are always classed as
/// `Directory`, extension-like substrings in their name notwithstanding;
/// other entries are files with their name's color category.
pub open spec fn display_class(name: Seq<char>, kind: FileKind) -> DisplayClass {
    if kind == FileKind::Directory {
        DisplayClass::Directory
    } else {
        DisplayClass::File(spec_file_color(name))
    }
}

/// Decorate an entry name for display according to its file kind.
pub fn format_name(file_name: &str, kind: FileKind) -> (d: DecoratedName)
    ensures
        d.text@ == decorated_text(file_name@, kind),
        d.class == display_class(file_name@, kind),
{
    proof {
        reveal_strlit("/");
    }
    match kind {
        FileKind::Directory => {
            let mut text = String::from_str(file_name);
            text.append("/");
            DecoratedName { text, class: DisplayClass::Directory }
        },
        _ => {
            let color = get_file_color(file_name);
            DecoratedName { text: String::from_str(file_name), class: DisplayClass::File(color) }
        },
    }
}

} // verus!
