//! File categories for colouring the tree: by special name, then by
//! extension, compared without regard to ASCII case.
use vstd::prelude::*;

use crate::path::{extension, spec_extension};
use crate::text::{str_chars, str_eq, string_from_chars};
use crate::theme::SemanticRole;

use super::FileNode;

verus! {

#[derive(Debug, Clone, Copy, PartialEq, Eq, Structural)]
pub enum FileTypeCategory {
    Dir,
    Source,
    Script,
    Markup,
    Config,
    Data,
    Media,
    Other,
}

pub open spec fn spec_category_role(c: FileTypeCategory) -> SemanticRole {
    match c {
        FileTypeCategory::Dir => SemanticRole::FileDir,
        FileTypeCategory::Source => SemanticRole::FileSource,
        FileTypeCategory::Script => SemanticRole::FileScript,
        FileTypeCategory::Markup => SemanticRole::FileMarkup,
        FileTypeCategory::Config => SemanticRole::FileConfig,
        FileTypeCategory::Data => SemanticRole::FileData,
        FileTypeCategory::Media => SemanticRole::FileMedia,
        FileTypeCategory::Other => SemanticRole::FileOther,
    }
}

impl FileTypeCategory {
    pub fn semantic_role(self) -> (r: SemanticRole)
        ensures
            r == spec_category_role(self),
    {
        match self {
            FileTypeCategory::Dir => SemanticRole::FileDir,
            FileTypeCategory::Source => SemanticRole::FileSource,
            FileTypeCategory::Script => SemanticRole::FileScript,
            FileTypeCategory::Markup => SemanticRole::FileMarkup,
            FileTypeCategory::Config => SemanticRole::FileConfig,
            FileTypeCategory::Data => SemanticRole::FileData,
            FileTypeCategory::Media => SemanticRole::FileMedia,
            FileTypeCategory::Other => SemanticRole::FileOther,
        }
    }
}

/// `c` with ASCII capitals lowered (`char::to_ascii_lowercase`).
pub open spec fn ascii_lower_char(c: char) -> char {
    if 'A' <= c <= 'Z' {
        ((c as u32) + 32) as char
    } else {
        c
    }
}

/// `s` with ASCII capitals lowered (`str::to_ascii_lowercase`).
pub open spec fn ascii_lower(s: Seq<char>) -> Seq<char> {
    s.map_values(|c: char| ascii_lower_char(c))
}

pub fn to_ascii_lowercase(s: &str) -> (r: String)
    ensures
        r@ == ascii_lower(s@),
{
    let v = str_chars(s);
    let mut out: Vec<char> = Vec::new();
    let mut i: usize = 0;
    while i < v.len()
        invariant
            i <= v@.len(),
            v@ == s@,
            out@ == ascii_lower(s@).take(i as int),
        decreases v.len() - i,
    {
        let c = v[i];
        let l = if 'A' <= c && c <= 'Z' {
            let code = ((c as u32) + 32) as u8;
            code as char
        } else {
            c
        };
        out.push(l);
        i = i + 1;
        assert(out@ =~= ascii_lower(s@).take(i as int));
    }
    assert(ascii_lower(s@).take(i as int) =~= ascii_lower(s@));
    string_from_chars(out.as_slice())
}
/// Category of a file known by its (lower-cased) name alone.
pub open spec fn spec_category_for_name(l: Seq<char>) -> Option<FileTypeCategory> {
    if l == "dockerfile"@
        || l == "containerfile"@
        || l == "makefile"@
        || l == "gnumakefile"@
        || l == "cmakelists.txt"@ {
        Some(FileTypeCategory::Config)
    } else if l == "readme"@
        || l == "license"@
        || l == "changelog"@
        || l == "copying"@
        || l == "authors"@
        || l == "contributing"@ {
        Some(FileTypeCategory::Markup)
    } else {
        None
    }
}

fn category_for_name(name: &str) -> (r: Option<FileTypeCategory>)
    ensures
        r == spec_category_for_name(ascii_lower(name@)),
{
    let lower = to_ascii_lowercase(name);
    let l = lower.as_str();
    if str_eq(l, "dockerfile")
        || str_eq(l, "containerfile")
        || str_eq(l, "makefile")
        || str_eq(l, "gnumakefile")
        || str_eq(l, "cmakelists.txt") {
        Some(FileTypeCategory::Config)
    } else if str_eq(l, "readme")
        || str_eq(l, "license")
        || str_eq(l, "changelog")
        || str_eq(l, "copying")
        || str_eq(l, "authors")
        || str_eq(l, "contributing") {
        Some(FileTypeCategory::Markup)
    } else {
        None
    }
}

/// Category of a (lower-cased) extension.
pub open spec fn spec_extension_category(e: Seq<char>) -> Option<FileTypeCategory> {
    if e == "rs"@
        || e == "c"@
        || e == "cc"@
        || e == "cpp"@
        || e == "cxx"@
        || e == "h"@
        || e == "hpp"@
        || e == "hh"@
        || e == "go"@
        || e == "java"@
        || e == "kt"@
        || e == "kts"@
        || e == "swift"@
        || e == "cs"@
        || e == "fs"@
        || e == "fsx"@
        || e == "zig"@
        || e == "v"@
        || e == "dart"@
        || e == "scala"@
        || e == "clj"@
        || e == "cljs"@
        || e == "elm"@
        || e == "ex"@
        || e == "exs"@
        || e == "erl"@
        || e == "hrl"@
        || e == "hs"@
        || e == "ml"@
        || e == "mli"@
        || e == "r"@
        || e == "jl"@
        || e == "asm"@
        || e == "s"@
        || e == "m"@
        || e == "mm"@
        || e == "nim"@
        || e == "cr"@
        || e == "d"@
        || e == "pas"@
        || e == "vb"@
        || e == "groovy"@
        || e == "cu"@ {
        Some(FileTypeCategory::Source)
    } else if e == "py"@
        || e == "pyw"@
        || e == "pyi"@
        || e == "sh"@
        || e == "bash"@
        || e == "zsh"@
        || e == "fish"@
        || e == "rb"@
        || e == "pl"@
        || e == "pm"@
        || e == "lua"@
        || e == "js"@
        || e == "mjs"@
        || e == "cjs"@
        || e == "ts"@
        || e == "tsx"@
        || e == "jsx"@
        || e == "vue"@
        || e == "svelte"@
        || e == "php"@
        || e == "ps1"@
        || e == "awk"@
        || e == "tcl"@ {
        Some(FileTypeCategory::Script)
    } else if e == "md"@
        || e == "mdx"@
        || e == "rst"@
        || e == "tex"@
        || e == "org"@
        || e == "txt"@
        || e == "adoc"@
        || e == "wiki"@
        || e == "rtf"@ {
        Some(FileTypeCategory::Markup)
    } else if e == "toml"@
        || e == "yaml"@
        || e == "yml"@
        || e == "json"@
        || e == "jsonc"@
        || e == "ini"@
        || e == "conf"@
        || e == "cfg"@
        || e == "properties"@
        || e == "env"@
        || e == "editorconfig"@
        || e == "gitignore"@
        || e == "gitattributes"@
        || e == "npmrc"@
        || e == "nvmrc"@ {
        Some(FileTypeCategory::Config)
    } else if e == "sql"@
        || e == "csv"@
        || e == "tsv"@
        || e == "xml"@
        || e == "db"@
        || e == "sqlite"@
        || e == "parquet"@
        || e == "lock"@ {
        Some(FileTypeCategory::Data)
    } else if e == "png"@
        || e == "jpg"@
        || e == "jpeg"@
        || e == "gif"@
        || e == "svg"@
        || e == "webp"@
        || e == "ico"@
        || e == "bmp"@
        || e == "tiff"@
        || e == "tif"@
        || e == "woff"@
        || e == "woff2"@
        || e == "ttf"@
        || e == "otf"@
        || e == "eot"@
        || e == "mp3"@
        || e == "mp4"@
        || e == "wav"@
        || e == "pdf"@
        || e == "mpg"@
        || e == "mpeg"@
        || e == "mov"@
        || e == "avi"@
        || e == "mkv"@ {
        Some(FileTypeCategory::Media)
    } else {
        None
    }
}

fn extension_category(ext: Option<String>) -> (r: Option<FileTypeCategory>)
    ensures
        r == match ext {
            Some(e) => spec_extension_category(ascii_lower(e@)),
            None => None,
        },
{
    let ext = match ext {
        Some(e) => e,
        None => return None,
    };
    let lower = to_ascii_lowercase(ext.as_str());
    let e = lower.as_str();
    if str_eq(e, "rs")
        || str_eq(e, "c")
        || str_eq(e, "cc")
        || str_eq(e, "cpp")
        || str_eq(e, "cxx")
        || str_eq(e, "h")
        || str_eq(e, "hpp")
        || str_eq(e, "hh")
        || str_eq(e, "go")
        || str_eq(e, "java")
        || str_eq(e, "kt")
        || str_eq(e, "kts")
        || str_eq(e, "swift")
        || str_eq(e, "cs")
        || str_eq(e, "fs")
        || str_eq(e, "fsx")
        || str_eq(e, "zig")
        || str_eq(e, "v")
        || str_eq(e, "dart")
        || str_eq(e, "scala")
        || str_eq(e, "clj")
        || str_eq(e, "cljs")
        || str_eq(e, "elm")
        || str_eq(e, "ex")
        || str_eq(e, "exs")
        || str_eq(e, "erl")
        || str_eq(e, "hrl")
        || str_eq(e, "hs")
        || str_eq(e, "ml")
        || str_eq(e, "mli")
        || str_eq(e, "r")
        || str_eq(e, "jl")
        || str_eq(e, "asm")
        || str_eq(e, "s")
        || str_eq(e, "m")
        || str_eq(e, "mm")
        || str_eq(e, "nim")
        || str_eq(e, "cr")
        || str_eq(e, "d")
        || str_eq(e, "pas")
        || str_eq(e, "vb")
        || str_eq(e, "groovy")
        || str_eq(e, "cu") {
        Some(FileTypeCategory::Source)
    } else if str_eq(e, "py")
        || str_eq(e, "pyw")
        || str_eq(e, "pyi")
        || str_eq(e, "sh")
        || str_eq(e, "bash")
        || str_eq(e, "zsh")
        || str_eq(e, "fish")
        || str_eq(e, "rb")
        || str_eq(e, "pl")
        || str_eq(e, "pm")
        || str_eq(e, "lua")
        || str_eq(e, "js")
        || str_eq(e, "mjs")
        || str_eq(e, "cjs")
        || str_eq(e, "ts")
        || str_eq(e, "tsx")
        || str_eq(e, "jsx")
        || str_eq(e, "vue")
        || str_eq(e, "svelte")
        || str_eq(e, "php")
        || str_eq(e, "ps1")
        || str_eq(e, "awk")
        || str_eq(e, "tcl") {
        Some(FileTypeCategory::Script)
    } else if str_eq(e, "md")
        || str_eq(e, "mdx")
        || str_eq(e, "rst")
        || str_eq(e, "tex")
        || str_eq(e, "org")
        || str_eq(e, "txt")
        || str_eq(e, "adoc")
        || str_eq(e, "wiki")
        || str_eq(e, "rtf") {
        Some(FileTypeCategory::Markup)
    } else if str_eq(e, "toml")
        || str_eq(e, "yaml")
        || str_eq(e, "yml")
        || str_eq(e, "json")
        || str_eq(e, "jsonc")
        || str_eq(e, "ini")
        || str_eq(e, "conf")
        || str_eq(e, "cfg")
        || str_eq(e, "properties")
        || str_eq(e, "env")
        || str_eq(e, "editorconfig")
        || str_eq(e, "gitignore")
        || str_eq(e, "gitattributes")
        || str_eq(e, "npmrc")
        || str_eq(e, "nvmrc") {
        Some(FileTypeCategory::Config)
    } else if str_eq(e, "sql")
        || str_eq(e, "csv")
        || str_eq(e, "tsv")
        || str_eq(e, "xml")
        || str_eq(e, "db")
        || str_eq(e, "sqlite")
        || str_eq(e, "parquet")
        || str_eq(e, "lock") {
        Some(FileTypeCategory::Data)
    } else if str_eq(e, "png")
        || str_eq(e, "jpg")
        || str_eq(e, "jpeg")
        || str_eq(e, "gif")
        || str_eq(e, "svg")
        || str_eq(e, "webp")
        || str_eq(e, "ico")
        || str_eq(e, "bmp")
        || str_eq(e, "tiff")
        || str_eq(e, "tif")
        || str_eq(e, "woff")
        || str_eq(e, "woff2")
        || str_eq(e, "ttf")
        || str_eq(e, "otf")
        || str_eq(e, "eot")
        || str_eq(e, "mp3")
        || str_eq(e, "mp4")
        || str_eq(e, "wav")
        || str_eq(e, "pdf")
        || str_eq(e, "mpg")
        || str_eq(e, "mpeg")
        || str_eq(e, "mov")
        || str_eq(e, "avi")
        || str_eq(e, "mkv") {
        Some(FileTypeCategory::Media)
    } else {
        None
    }
}

/// Directories are directories; files go by special name, then by
/// extension, else "other".
pub open spec fn spec_file_type_category(node: FileNode) -> FileTypeCategory {
    if node.is_dir {
        FileTypeCategory::Dir
    } else {
        match spec_category_for_name(ascii_lower(node.name@)) {
            Some(c) => c,
            None => match spec_extension(node.path@) {
                Some(e) => match spec_extension_category(ascii_lower(e)) {
                    Some(c) => c,
                    None => FileTypeCategory::Other,
                },
                None => FileTypeCategory::Other,
            },
        }
    }
}

pub fn file_type_category(node: &FileNode) -> (r: FileTypeCategory)
    ensures
        r == spec_file_type_category(*node),
{
    if node.is_dir {
        return FileTypeCategory::Dir;
    }
    if let Some(category) = category_for_name(node.name.as_str()) {
        return category;
    }
    match extension_category(extension(node.path.as_str())) {
        Some(c) => c,
        None => FileTypeCategory::Other,
    }
}

} // verus!
