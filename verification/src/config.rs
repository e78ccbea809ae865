//! Settings: which ignore files apply, colours, the extensions that make a
//! file an archive, an image, source code and so on, and how sizes print.

use vstd::prelude::*;

use crate::strings::{ascii_lower, ends_with, str_to_string, to_ascii_lowercase};

verus! {

#[derive(PartialEq, Debug, Clone)]
pub struct Config {
    pub no_color: Option<bool>,
    pub gitignore: Option<bool>,
    pub hgignore: Option<bool>,
    pub dockerignore: Option<bool>,
    pub is_zip_archive: Option<Vec<String>>,
    pub is_archive: Option<Vec<String>>,
    pub is_audio: Option<Vec<String>>,
    pub is_book: Option<Vec<String>>,
    pub is_doc: Option<Vec<String>>,
    pub is_font: Option<Vec<String>>,
    pub is_image: Option<Vec<String>>,
    pub is_source: Option<Vec<String>>,
    pub is_video: Option<Vec<String>>,
    pub default_file_size_format: Option<String>,
    pub check_for_updates: Option<bool>,
    pub debug: bool,
    pub save: bool,
}

/// The texts of a list of strings.
pub open spec fn texts(v: Seq<String>) -> Seq<Seq<char>> {
    Seq::new(v.len(), |i: int| v[i]@)
}

/// Whether an optional list holds exactly the given texts, in order.
pub open spec fn list_is(o: Option<Vec<String>>, expected: Seq<Seq<char>>) -> bool {
    o matches Some(v) && texts(v@) == expected
}

/// Owned copies of a list of literals.
pub fn strings_of(items: &[&str]) -> (r: Vec<String>)
    ensures
        r@.len() == items@.len(),
        forall|i: int| 0 <= i < items@.len() ==> #[trigger] r@[i]@ == items@[i]@,
{
    let mut r: Vec<String> = Vec::new();
    let mut i: usize = 0;
    while i < items.len()
        invariant
            i <= items@.len(),
            r@.len() == i,
            forall|j: int| 0 <= j < i ==> #[trigger] r@[j]@ == items@[j]@,
        decreases items@.len() - i,
    {
        r.push(str_to_string(items[i]));
        i = i + 1;
    }
    r
}

pub open spec fn default_is_zip_archive() -> Seq<Seq<char>> {
    seq![".zip"@, ".jar"@, ".war"@, ".ear"@]
}

pub open spec fn default_is_archive() -> Seq<Seq<char>> {
    seq![".7z"@, ".bz2"@, ".bzip2"@, ".gz"@, ".gzip"@, ".lz"@, ".rar"@, ".tar"@, ".xz"@, ".zip"@]
}

pub open spec fn default_is_audio() -> Seq<Seq<char>> {
    seq![".aac"@, ".aiff"@, ".amr"@, ".flac"@, ".gsm"@, ".m4a"@, ".m4b"@, ".m4p"@, ".mp3"@, ".ogg"@, ".wav"@, ".wma"@]
}

pub open spec fn default_is_book() -> Seq<Seq<char>> {
    seq![".azw3"@, ".chm"@, ".djv"@, ".djvu"@, ".epub"@, ".fb2"@, ".mobi"@, ".pdf"@]
}

pub open spec fn default_is_doc() -> Seq<Seq<char>> {
    seq![".accdb"@, ".doc"@, ".docm"@, ".docx"@, ".dot"@, ".dotm"@, ".dotx"@, ".mdb"@, ".odp"@, ".ods"@, ".odt"@, ".pdf"@, ".potm"@, ".potx"@, ".ppt"@, ".pptm"@, ".pptx"@, ".rtf"@, ".xlm"@, ".xls"@, ".xlsm"@, ".xlsx"@, ".xlt"@, ".xltm"@, ".xltx"@, ".xps"@]
}

pub open spec fn default_is_font() -> Seq<Seq<char>> {
    seq![".eot"@, ".fon"@, ".otc"@, ".otf"@, ".ttc"@, ".ttf"@, ".woff"@, ".woff2"@]
}

pub open spec fn default_is_image() -> Seq<Seq<char>> {
    seq![".bmp"@, ".exr"@, ".gif"@, ".heic"@, ".jpeg"@, ".jpg"@, ".jxl"@, ".png"@, ".psb"@, ".psd"@, ".svg"@, ".tga"@, ".tiff"@, ".webp"@]
}

pub open spec fn default_is_source() -> Seq<Seq<char>> {
    seq![".asm"@, ".bas"@, ".c"@, ".cc"@, ".ceylon"@, ".clj"@, ".coffee"@, ".cpp"@, ".cs"@, ".d"@, ".dart"@, ".elm"@, ".erl"@, ".go"@, ".gradle"@, ".groovy"@, ".h"@, ".hh"@, ".hpp"@, ".java"@, ".jl"@, ".js"@, ".jsp"@, ".jsx"@, ".kt"@, ".kts"@, ".lua"@, ".nim"@, ".pas"@, ".php"@, ".pl"@, ".pm"@, ".py"@, ".rb"@, ".rs"@, ".scala"@, ".sol"@, ".swift"@, ".tcl"@, ".ts"@, ".tsx"@, ".vala"@, ".vb"@, ".zig"@]
}

pub open spec fn default_is_video() -> Seq<Seq<char>> {
    seq![".3gp"@, ".avi"@, ".flv"@, ".m4p"@, ".m4v"@, ".mkv"@, ".mov"@, ".mp4"@, ".mpeg"@, ".mpg"@, ".webm"@, ".wmv"@]
}

impl Config {
    /// The built-in settings: colours on, no ignore files, the standard
    /// extension lists, no update check, no debugging, saving enabled.
    pub fn default() -> (r: Config)
        ensures
            r.no_color == Some(false),
            r.gitignore == Some(false),
            r.hgignore == Some(false),
            r.dockerignore == Some(false),
            list_is(r.is_zip_archive, default_is_zip_archive()),
            list_is(r.is_archive, default_is_archive()),
            list_is(r.is_audio, default_is_audio()),
            list_is(r.is_book, default_is_book()),
            list_is(r.is_doc, default_is_doc()),
            list_is(r.is_font, default_is_font()),
            list_is(r.is_image, default_is_image()),
            list_is(r.is_source, default_is_source()),
            list_is(r.is_video, default_is_video()),
            r.default_file_size_format matches Some(f) && f@.len() == 0,
            r.check_for_updates == Some(false),
            !r.debug,
            r.save,
    {
        let is_zip_archive = strings_of(&[".zip", ".jar", ".war", ".ear"]);
        assert(texts(is_zip_archive@) =~= default_is_zip_archive());
        let is_archive = strings_of(&[".7z", ".bz2", ".bzip2", ".gz", ".gzip", ".lz", ".rar", ".tar", ".xz", ".zip"]);
        assert(texts(is_archive@) =~= default_is_archive());
        let is_audio = strings_of(&[".aac", ".aiff", ".amr", ".flac", ".gsm", ".m4a", ".m4b", ".m4p", ".mp3", ".ogg", ".wav", ".wma"]);
        assert(texts(is_audio@) =~= default_is_audio());
        let is_book = strings_of(&[".azw3", ".chm", ".djv", ".djvu", ".epub", ".fb2", ".mobi", ".pdf"]);
        assert(texts(is_book@) =~= default_is_book());
        let is_doc = strings_of(&[".accdb", ".doc", ".docm", ".docx", ".dot", ".dotm", ".dotx", ".mdb", ".odp", ".ods", ".odt", ".pdf", ".potm", ".potx", ".ppt", ".pptm", ".pptx", ".rtf", ".xlm", ".xls", ".xlsm", ".xlsx", ".xlt", ".xltm", ".xltx", ".xps"]);
        assert(texts(is_doc@) =~= default_is_doc());
        let is_font = strings_of(&[".eot", ".fon", ".otc", ".otf", ".ttc", ".ttf", ".woff", ".woff2"]);
        assert(texts(is_font@) =~= default_is_font());
        let is_image = strings_of(&[".bmp", ".exr", ".gif", ".heic", ".jpeg", ".jpg", ".jxl", ".png", ".psb", ".psd", ".svg", ".tga", ".tiff", ".webp"]);
        assert(texts(is_image@) =~= default_is_image());
        let is_source = strings_of(&[".asm", ".bas", ".c", ".cc", ".ceylon", ".clj", ".coffee", ".cpp", ".cs", ".d", ".dart", ".elm", ".erl", ".go", ".gradle", ".groovy", ".h", ".hh", ".hpp", ".java", ".jl", ".js", ".jsp", ".jsx", ".kt", ".kts", ".lua", ".nim", ".pas", ".php", ".pl", ".pm", ".py", ".rb", ".rs", ".scala", ".sol", ".swift", ".tcl", ".ts", ".tsx", ".vala", ".vb", ".zig"]);
        assert(texts(is_source@) =~= default_is_source());
        let is_video = strings_of(&[".3gp", ".avi", ".flv", ".m4p", ".m4v", ".mkv", ".mov", ".mp4", ".mpeg", ".mpg", ".webm", ".wmv"]);
        assert(texts(is_video@) =~= default_is_video());
        Config {
            no_color: Some(false),
            gitignore: Some(false),
            hgignore: Some(false),
            dockerignore: Some(false),
            is_zip_archive: Some(is_zip_archive),
            is_archive: Some(is_archive),
            is_audio: Some(is_audio),
            is_book: Some(is_book),
            is_doc: Some(is_doc),
            is_font: Some(is_font),
            is_image: Some(is_image),
            is_source: Some(is_source),
            is_video: Some(is_video),
            default_file_size_format: Some(String::new()),
            check_for_updates: Some(false),
            debug: false,
            save: true,
        }
    }
}

/// Whether the file name, lower-cased, ends with one of the extensions.
pub open spec fn spec_has_extension(name: Seq<char>, exts: Seq<Seq<char>>) -> bool {
    let low = ascii_lower(name);
    exists|i: int| 0 <= i < exts.len() && #[trigger] exts[i].len() <= low.len() && low.skip(low.len() - exts[i].len()) == exts[i]
}

/// Whether the file name, lower-cased, ends with one of the extensions.
pub fn has_extension(file_name: &str, extensions: &Vec<String>) -> (r: bool)
    ensures
        r == spec_has_extension(file_name@, texts(extensions@)),
{
    let s = to_ascii_lowercase(file_name);
    let ghost exts = texts(extensions@);
    let mut i: usize = 0;
    while i < extensions.len()
        invariant
            i <= extensions@.len(),
            s@ == ascii_lower(file_name@),
            exts == texts(extensions@),
            forall|j: int| 0 <= j < i ==> !(#[trigger] exts[j].len() <= s@.len() && s@.skip(s@.len() - exts[j].len()) == exts[j]),
        decreases extensions@.len() - i,
    {
        if ends_with(s.as_str(), extensions[i].as_str()) {
            assert(exts[i as int] == extensions@[i as int]@);
            return true;
        }
        i = i + 1;
    }
    false
}

/// Whether the file name has one of the extensions of the configured list,
/// or of the built-in list when none is configured; false when neither is set.
pub open spec fn spec_check_extension(
    name: Seq<char>,
    config_ext: Option<Vec<String>>,
    default_ext: Option<Vec<String>>,
) -> bool {
    match config_ext {
        Some(e) => spec_has_extension(name, texts(e@)),
        None => match default_ext {
            Some(e) => spec_has_extension(name, texts(e@)),
            None => false,
        },
    }
}

/// Whether the file name has one of the extensions of the configured list,
/// or of the built-in list when none is configured (see
/// `spec_check_extension`).
pub fn check_extension(
    file_name: &str,
    config_ext: &Option<Vec<String>>,
    default_ext: &Option<Vec<String>>,
) -> (r: bool)
    ensures
        r == spec_check_extension(file_name@, *config_ext, *default_ext),
{
    match config_ext {
        Some(extensions) => has_extension(file_name, extensions),
        None => match default_ext {
            Some(extensions) => has_extension(file_name, extensions),
            None => false,
        },
    }
}

} // verus!
