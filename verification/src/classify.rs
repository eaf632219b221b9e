//! The classifier: a pure mapping from a file name's extension to the
//! category folder the file belongs in.
//!
//! Lookup order: a caller-supplied custom category list is consulted first
//! (first match wins, flat folders); then the built-in table; a file whose
//! extension matches neither, and a file with no extension at all, lands in
//! the flat fallback bucket `Others`.  Extensions are matched after ASCII
//! lower-casing; custom category patterns are matched as written.

use vstd::prelude::*;
use crate::text::{lower_eq, spec_lower};
use crate::paths::{extension_of, lemma_join_clean, spec_extension_of, spec_join,
    spec_path_ok};

verus! {

/// A destination category: a main folder and an optional subfolder
/// (empty string = no subfolder).
pub struct Category {
    pub main_folder: String,
    pub sub_folder: String,
}

impl Category {
    /// The pair of character sequences this category stands for.
    pub open spec fn model(self) -> (Seq<char>, Seq<char>) {
        (self.main_folder@, self.sub_folder@)
    }
}

/// Build a category from two string literals.
fn cat(main: &str, sub: &str) -> (c: Category)
    ensures
        c.model() == (main@, sub@),
{
    Category { main_folder: main.to_owned(), sub_folder: sub.to_owned() }
}

/// The built-in extension table, applied to an already lower-cased
/// extension `e`; unmatched extensions fall back to `Others`.
pub open spec fn spec_builtin(e: Seq<char>) -> (Seq<char>, Seq<char>) {
    if e == "pdf"@ {
        ("Documents"@, "PDF"@)
    } else if e == "doc"@ {
        ("Documents"@, "Word"@)
    } else if e == "docx"@ {
        ("Documents"@, "Word"@)
    } else if e == "txt"@ {
        ("Documents"@, "Text"@)
    } else if e == "rtf"@ {
        ("Documents"@, "Text"@)
    } else if e == "odt"@ {
        ("Documents"@, "OpenDocument"@)
    } else if e == "xls"@ {
        ("Documents"@, "Excel"@)
    } else if e == "xlsx"@ {
        ("Documents"@, "Excel"@)
    } else if e == "csv"@ {
        ("Documents"@, "Excel"@)
    } else if e == "ppt"@ {
        ("Documents"@, "PowerPoint"@)
    } else if e == "pptx"@ {
        ("Documents"@, "PowerPoint"@)
    } else if e == "md"@ {
        ("Documents"@, "Markdown"@)
    } else if e == "epub"@ {
        ("Documents"@, "eBooks"@)
    } else if e == "mobi"@ {
        ("Documents"@, "eBooks"@)
    } else if e == "jpg"@ {
        ("Media"@, "Images"@)
    } else if e == "jpeg"@ {
        ("Media"@, "Images"@)
    } else if e == "png"@ {
        ("Media"@, "Images"@)
    } else if e == "gif"@ {
        ("Media"@, "Images"@)
    } else if e == "bmp"@ {
        ("Media"@, "Images"@)
    } else if e == "svg"@ {
        ("Media"@, "Images"@)
    } else if e == "webp"@ {
        ("Media"@, "Images"@)
    } else if e == "tiff"@ {
        ("Media"@, "Images"@)
    } else if e == "ico"@ {
        ("Media"@, "Icons"@)
    } else if e == "heic"@ {
        ("Media"@, "Images"@)
    } else if e == "mp4"@ {
        ("Media"@, "Videos"@)
    } else if e == "mkv"@ {
        ("Media"@, "Videos"@)
    } else if e == "avi"@ {
        ("Media"@, "Videos"@)
    } else if e == "mov"@ {
        ("Media"@, "Videos"@)
    } else if e == "flv"@ {
        ("Media"@, "Videos"@)
    } else if e == "wmv"@ {
        ("Media"@, "Videos"@)
    } else if e == "webm"@ {
        ("Media"@, "Videos"@)
    } else if e == "mpeg"@ {
        ("Media"@, "Videos"@)
    } else if e == "mpg"@ {
        ("Media"@, "Videos"@)
    } else if e == "mp3"@ {
        ("Media"@, "Audio"@)
    } else if e == "wav"@ {
        ("Media"@, "Audio"@)
    } else if e == "flac"@ {
        ("Media"@, "Audio"@)
    } else if e == "aac"@ {
        ("Media"@, "Audio"@)
    } else if e == "ogg"@ {
        ("Media"@, "Audio"@)
    } else if e == "wma"@ {
        ("Media"@, "Audio"@)
    } else if e == "m4a"@ {
        ("Media"@, "Audio"@)
    } else if e == "aiff"@ {
        ("Media"@, "Audio"@)
    } else if e == "zip"@ {
        ("Archives"@, ""@)
    } else if e == "rar"@ {
        ("Archives"@, ""@)
    } else if e == "7z"@ {
        ("Archives"@, ""@)
    } else if e == "tar"@ {
        ("Archives"@, ""@)
    } else if e == "gz"@ {
        ("Archives"@, ""@)
    } else if e == "bz2"@ {
        ("Archives"@, ""@)
    } else if e == "xz"@ {
        ("Archives"@, ""@)
    } else if e == "exe"@ {
        ("Applications"@, ""@)
    } else if e == "msi"@ {
        ("Applications"@, ""@)
    } else if e == "apk"@ {
        ("Applications"@, ""@)
    } else if e == "bat"@ {
        ("Applications"@, ""@)
    } else if e == "deb"@ {
        ("Applications"@, ""@)
    } else if e == "rpm"@ {
        ("Applications"@, ""@)
    } else if e == "appimage"@ {
        ("Applications"@, ""@)
    } else if e == "js"@ {
        ("Code"@, "JavaScript"@)
    } else if e == "ts"@ {
        ("Code"@, "TypeScript"@)
    } else if e == "jsx"@ {
        ("Code"@, "React"@)
    } else if e == "tsx"@ {
        ("Code"@, "React"@)
    } else if e == "html"@ {
        ("Code"@, "Web"@)
    } else if e == "css"@ {
        ("Code"@, "Web"@)
    } else if e == "scss"@ {
        ("Code"@, "Web"@)
    } else if e == "sass"@ {
        ("Code"@, "Web"@)
    } else if e == "py"@ {
        ("Code"@, "Python"@)
    } else if e == "java"@ {
        ("Code"@, "Java"@)
    } else if e == "c"@ {
        ("Code"@, "C"@)
    } else if e == "cpp"@ {
        ("Code"@, "C++"@)
    } else if e == "cs"@ {
        ("Code"@, "C#"@)
    } else if e == "go"@ {
        ("Code"@, "Go"@)
    } else if e == "rs"@ {
        ("Code"@, "Rust"@)
    } else if e == "php"@ {
        ("Code"@, "PHP"@)
    } else if e == "rb"@ {
        ("Code"@, "Ruby"@)
    } else if e == "kt"@ {
        ("Code"@, "Kotlin"@)
    } else if e == "swift"@ {
        ("Code"@, "Swift"@)
    } else if e == "json"@ {
        ("Code"@, "Config"@)
    } else if e == "yml"@ {
        ("Code"@, "Config"@)
    } else if e == "yaml"@ {
        ("Code"@, "Config"@)
    } else if e == "xml"@ {
        ("Code"@, "Config"@)
    } else if e == "toml"@ {
        ("Code"@, "Config"@)
    } else if e == "sh"@ {
        ("Code"@, "Shell"@)
    } else if e == "ps1"@ {
        ("Code"@, "Shell"@)
    } else if e == "sql"@ {
        ("Code"@, "Database"@)
    } else if e == "db"@ {
        ("Code"@, "Database"@)
    } else if e == "sqlite"@ {
        ("Code"@, "Database"@)
    } else if e == "psd"@ {
        ("Design"@, "Photoshop"@)
    } else if e == "ai"@ {
        ("Design"@, "Illustrator"@)
    } else if e == "xd"@ {
        ("Design"@, "AdobeXD"@)
    } else if e == "fig"@ {
        ("Design"@, "Figma"@)
    } else if e == "blend"@ {
        ("Design"@, "Blender"@)
    } else if e == "fbx"@ {
        ("Design"@, "3D Models"@)
    } else if e == "obj"@ {
        ("Design"@, "3D Models"@)
    } else {
        ("Others"@, Seq::empty())
    }
}

/// Look an already lower-cased extension up in the built-in table.
pub fn builtin_category(ext: &str) -> (c: Category)
    ensures
        c.model() == spec_builtin(spec_lower(ext@)),
{
    if lower_eq(ext, "pdf") {
        cat("Documents", "PDF")
    } else if lower_eq(ext, "doc") {
        cat("Documents", "Word")
    } else if lower_eq(ext, "docx") {
        cat("Documents", "Word")
    } else if lower_eq(ext, "txt") {
        cat("Documents", "Text")
    } else if lower_eq(ext, "rtf") {
        cat("Documents", "Text")
    } else if lower_eq(ext, "odt") {
        cat("Documents", "OpenDocument")
    } else if lower_eq(ext, "xls") {
        cat("Documents", "Excel")
    } else if lower_eq(ext, "xlsx") {
        cat("Documents", "Excel")
    } else if lower_eq(ext, "csv") {
        cat("Documents", "Excel")
    } else if lower_eq(ext, "ppt") {
        cat("Documents", "PowerPoint")
    } else if lower_eq(ext, "pptx") {
        cat("Documents", "PowerPoint")
    } else if lower_eq(ext, "md") {
        cat("Documents", "Markdown")
    } else if lower_eq(ext, "epub") {
        cat("Documents", "eBooks")
    } else if lower_eq(ext, "mobi") {
        cat("Documents", "eBooks")
    } else if lower_eq(ext, "jpg") {
        cat("Media", "Images")
    } else if lower_eq(ext, "jpeg") {
        cat("Media", "Images")
    } else if lower_eq(ext, "png") {
        cat("Media", "Images")
    } else if lower_eq(ext, "gif") {
        cat("Media", "Images")
    } else if lower_eq(ext, "bmp") {
        cat("Media", "Images")
    } else if lower_eq(ext, "svg") {
        cat("Media", "Images")
    } else if lower_eq(ext, "webp") {
        cat("Media", "Images")
    } else if lower_eq(ext, "tiff") {
        cat("Media", "Images")
    } else if lower_eq(ext, "ico") {
        cat("Media", "Icons")
    } else if lower_eq(ext, "heic") {
        cat("Media", "Images")
    } else if lower_eq(ext, "mp4") {
        cat("Media", "Videos")
    } else if lower_eq(ext, "mkv") {
        cat("Media", "Videos")
    } else if lower_eq(ext, "avi") {
        cat("Media", "Videos")
    } else if lower_eq(ext, "mov") {
        cat("Media", "Videos")
    } else if lower_eq(ext, "flv") {
        cat("Media", "Videos")
    } else if lower_eq(ext, "wmv") {
        cat("Media", "Videos")
    } else if lower_eq(ext, "webm") {
        cat("Media", "Videos")
    } else if lower_eq(ext, "mpeg") {
        cat("Media", "Videos")
    } else if lower_eq(ext, "mpg") {
        cat("Media", "Videos")
    } else if lower_eq(ext, "mp3") {
        cat("Media", "Audio")
    } else if lower_eq(ext, "wav") {
        cat("Media", "Audio")
    } else if lower_eq(ext, "flac") {
        cat("Media", "Audio")
    } else if lower_eq(ext, "aac") {
        cat("Media", "Audio")
    } else if lower_eq(ext, "ogg") {
        cat("Media", "Audio")
    } else if lower_eq(ext, "wma") {
        cat("Media", "Audio")
    } else if lower_eq(ext, "m4a") {
        cat("Media", "Audio")
    } else if lower_eq(ext, "aiff") {
        cat("Media", "Audio")
    } else if lower_eq(ext, "zip") {
        cat("Archives", "")
    } else if lower_eq(ext, "rar") {
        cat("Archives", "")
    } else if lower_eq(ext, "7z") {
        cat("Archives", "")
    } else if lower_eq(ext, "tar") {
        cat("Archives", "")
    } else if lower_eq(ext, "gz") {
        cat("Archives", "")
    } else if lower_eq(ext, "bz2") {
        cat("Archives", "")
    } else if lower_eq(ext, "xz") {
        cat("Archives", "")
    } else if lower_eq(ext, "exe") {
        cat("Applications", "")
    } else if lower_eq(ext, "msi") {
        cat("Applications", "")
    } else if lower_eq(ext, "apk") {
        cat("Applications", "")
    } else if lower_eq(ext, "bat") {
        cat("Applications", "")
    } else if lower_eq(ext, "deb") {
        cat("Applications", "")
    } else if lower_eq(ext, "rpm") {
        cat("Applications", "")
    } else if lower_eq(ext, "appimage") {
        cat("Applications", "")
    } else if lower_eq(ext, "js") {
        cat("Code", "JavaScript")
    } else if lower_eq(ext, "ts") {
        cat("Code", "TypeScript")
    } else if lower_eq(ext, "jsx") {
        cat("Code", "React")
    } else if lower_eq(ext, "tsx") {
        cat("Code", "React")
    } else if lower_eq(ext, "html") {
        cat("Code", "Web")
    } else if lower_eq(ext, "css") {
        cat("Code", "Web")
    } else if lower_eq(ext, "scss") {
        cat("Code", "Web")
    } else if lower_eq(ext, "sass") {
        cat("Code", "Web")
    } else if lower_eq(ext, "py") {
        cat("Code", "Python")
    } else if lower_eq(ext, "java") {
        cat("Code", "Java")
    } else if lower_eq(ext, "c") {
        cat("Code", "C")
    } else if lower_eq(ext, "cpp") {
        cat("Code", "C++")
    } else if lower_eq(ext, "cs") {
        cat("Code", "C#")
    } else if lower_eq(ext, "go") {
        cat("Code", "Go")
    } else if lower_eq(ext, "rs") {
        cat("Code", "Rust")
    } else if lower_eq(ext, "php") {
        cat("Code", "PHP")
    } else if lower_eq(ext, "rb") {
        cat("Code", "Ruby")
    } else if lower_eq(ext, "kt") {
        cat("Code", "Kotlin")
    } else if lower_eq(ext, "swift") {
        cat("Code", "Swift")
    } else if lower_eq(ext, "json") {
        cat("Code", "Config")
    } else if lower_eq(ext, "yml") {
        cat("Code", "Config")
    } else if lower_eq(ext, "yaml") {
        cat("Code", "Config")
    } else if lower_eq(ext, "xml") {
        cat("Code", "Config")
    } else if lower_eq(ext, "toml") {
        cat("Code", "Config")
    } else if lower_eq(ext, "sh") {
        cat("Code", "Shell")
    } else if lower_eq(ext, "ps1") {
        cat("Code", "Shell")
    } else if lower_eq(ext, "sql") {
        cat("Code", "Database")
    } else if lower_eq(ext, "db") {
        cat("Code", "Database")
    } else if lower_eq(ext, "sqlite") {
        cat("Code", "Database")
    } else if lower_eq(ext, "psd") {
        cat("Design", "Photoshop")
    } else if lower_eq(ext, "ai") {
        cat("Design", "Illustrator")
    } else if lower_eq(ext, "xd") {
        cat("Design", "AdobeXD")
    } else if lower_eq(ext, "fig") {
        cat("Design", "Figma")
    } else if lower_eq(ext, "blend") {
        cat("Design", "Blender")
    } else if lower_eq(ext, "fbx") {
        cat("Design", "3D Models")
    } else if lower_eq(ext, "obj") {
        cat("Design", "3D Models")
    } else {
        proof {
            reveal_strlit("");
            assert(""@ =~= Seq::<char>::empty());
        }
        cat("Others", "")
    }
}

/// Does the extension list contain exactly `e`?
pub open spec fn spec_list_has(exts: Seq<Seq<char>>, e: Seq<char>) -> bool {
    exists|i: int| 0 <= i < exts.len() && exts[i] == e
}

/// The first custom category whose extension list contains `e`, if any.
pub open spec fn spec_custom_lookup(
    cats: Seq<(Seq<char>, Seq<Seq<char>>)>,
    e: Seq<char>,
) -> Option<Seq<char>>
    decreases cats.len(),
{
    if cats.len() == 0 {
        None
    } else if spec_list_has(cats[0].1, e) {
        Some(cats[0].0)
    } else {
        spec_custom_lookup(cats.subrange(1, cats.len() as int), e)
    }
}

/// Does the list contain the lower-cased form of `ext`?
fn list_has_lowered(exts: &Vec<String>, ext: &str) -> (r: bool)
    ensures
        r == spec_list_has(exts.deep_view(), spec_lower(ext@)),
{
    let mut j: usize = 0;
    while j < exts.len()
        invariant
            j <= exts.len(),
            exts.deep_view().len() == exts@.len(),
            forall|k: int| 0 <= k < exts@.len() ==> exts.deep_view()[k] == exts@[k]@,
            forall|k: int| 0 <= k < j ==> exts.deep_view()[k] != spec_lower(ext@),
        decreases exts.len() - j,
    {
        if lower_eq(ext, exts[j].as_str()) {
            proof {
                assert(exts.deep_view()[j as int] == spec_lower(ext@));
            }
            return true;
        }
        j += 1;
    }
    false
}

/// Walk the custom category list in order and return the name of the first
/// category whose extension list contains the lower-cased `ext`.
pub fn custom_lookup(cats: &Vec<(String, Vec<String>)>, ext: &str) -> (r: Option<String>)
    ensures
        match r {
            Some(name) => spec_custom_lookup(cats.deep_view(), spec_lower(ext@)) == Some(name@),
            None => spec_custom_lookup(cats.deep_view(), spec_lower(ext@)) is None,
        },
{
    let ghost m = cats.deep_view();
    let ghost le = spec_lower(ext@);
    proof {
        assert(m.subrange(0, m.len() as int) =~= m);
    }
    let mut i: usize = 0;
    while i < cats.len()
        invariant
            i <= cats.len(),
            m == cats.deep_view(),
            le == spec_lower(ext@),
            m.len() == cats@.len(),
            forall|k: int| 0 <= k < cats@.len() ==> m[k]
                == (cats@[k].0@, cats@[k].1.deep_view()),
            spec_custom_lookup(m, le) == spec_custom_lookup(
                m.subrange(i as int, m.len() as int),
                le,
            ),
        decreases cats.len() - i,
    {
        let ghost tail = m.subrange(i as int, m.len() as int);
        proof {
            assert(tail[0] == m[i as int]);
        }
        if list_has_lowered(&cats[i].1, ext) {
            return Some(cats[i].0.clone());
        }
        proof {
            assert(tail.subrange(1, tail.len() as int)
                =~= m.subrange(i + 1, m.len() as int));
        }
        i += 1;
    }
    None
}

/// The category a file with the given (raw) extension belongs in: a custom
/// category first, then the built-in table; no extension at all goes
/// straight to `Others`.
pub open spec fn spec_classify(
    ext: Option<Seq<char>>,
    cats: Seq<(Seq<char>, Seq<Seq<char>>)>,
) -> (Seq<char>, Seq<char>) {
    match ext {
        Some(e) => {
            let le = spec_lower(e);
            match spec_custom_lookup(cats, le) {
                Some(name) => (name, Seq::empty()),
                None => spec_builtin(le),
            }
        },
        None => ("Others"@, Seq::empty()),
    }
}

/// Classify an optional raw extension against the custom list and the
/// built-in table.
pub fn classify(ext: &Option<String>, custom: &Vec<(String, Vec<String>)>) -> (c: Category)
    ensures
        c.model() == spec_classify(ext.deep_view(), custom.deep_view()),
{
    match ext {
        Some(e) => {
            match custom_lookup(custom, e.as_str()) {
                Some(name) => Category { main_folder: name, sub_folder: String::new() },
                None => builtin_category(e.as_str()),
            }
        },
        None => {
            proof {
                reveal_strlit("");
                assert(""@ =~= Seq::<char>::empty());
            }
            cat("Others", "")
        },
    }
}

/// The category a file name is sent to, extension extraction included.
pub open spec fn spec_category_for(
    name: Seq<char>,
    cats: Seq<(Seq<char>, Seq<Seq<char>>)>,
) -> (Seq<char>, Seq<char>) {
    spec_classify(spec_extension_of(name), cats)
}

/// Classify a file by its name.
pub fn category_for(name: &str, custom: &Vec<(String, Vec<String>)>) -> (c: Category)
    ensures
        c.model() == spec_category_for(name@, custom.deep_view()),
{
    let ext = extension_of(name);
    classify(&ext, custom)
}

/// The folder a category stands for, relative to the organized directory:
/// the main folder alone when there is no subfolder.
pub open spec fn spec_dest_rel(c: (Seq<char>, Seq<char>)) -> Seq<char> {
    if c.1.len() == 0 {
        c.0
    } else {
        spec_join(c.0, c.1)
    }
}

/// The folder this category stands for, relative to the organized directory.
pub fn dest_rel(c: &Category) -> (r: String)
    ensures
        r@ == spec_dest_rel(c.model()),
{
    if c.sub_folder.as_str().is_empty() {
        c.main_folder.clone()
    } else {
        crate::paths::join(c.main_folder.as_str(), c.sub_folder.as_str())
    }
}

/// Every folder name the built-in table produces is clean: free of the
/// journal's field separator and of line breaks.
pub proof fn lemma_builtin_clean(e: Seq<char>)
    ensures
        spec_path_ok(spec_builtin(e).0),
        spec_path_ok(spec_builtin(e).1),
{
    reveal_strlit("3D Models");
    reveal_strlit("AdobeXD");
    reveal_strlit("Applications");
    reveal_strlit("Archives");
    reveal_strlit("Audio");
    reveal_strlit("Blender");
    reveal_strlit("C");
    reveal_strlit("C#");
    reveal_strlit("C++");
    reveal_strlit("Code");
    reveal_strlit("Config");
    reveal_strlit("Database");
    reveal_strlit("Design");
    reveal_strlit("Documents");
    reveal_strlit("Excel");
    reveal_strlit("Figma");
    reveal_strlit("Go");
    reveal_strlit("Icons");
    reveal_strlit("Illustrator");
    reveal_strlit("Images");
    reveal_strlit("Java");
    reveal_strlit("JavaScript");
    reveal_strlit("Kotlin");
    reveal_strlit("Markdown");
    reveal_strlit("Media");
    reveal_strlit("OpenDocument");
    reveal_strlit("Others");
    reveal_strlit("PDF");
    reveal_strlit("PHP");
    reveal_strlit("Photoshop");
    reveal_strlit("PowerPoint");
    reveal_strlit("Python");
    reveal_strlit("React");
    reveal_strlit("Ruby");
    reveal_strlit("Rust");
    reveal_strlit("Shell");
    reveal_strlit("Swift");
    reveal_strlit("Text");
    reveal_strlit("TypeScript");
    reveal_strlit("Videos");
    reveal_strlit("Web");
    reveal_strlit("Word");
    reveal_strlit("eBooks");
    reveal_strlit("");
}

/// A name the custom lookup produces is the name of one of the categories.
pub proof fn lemma_custom_lookup_member(cats: Seq<(Seq<char>, Seq<Seq<char>>)>, e: Seq<char>)
    ensures
        match spec_custom_lookup(cats, e) {
            Some(n) => exists|k: int| 0 <= k < cats.len() && (#[trigger] cats[k]).0 == n,
            None => true,
        },
    decreases cats.len(),
{
    if cats.len() == 0 {
    } else if spec_list_has(cats[0].1, e) {
        assert(cats[0].0 == spec_custom_lookup(cats, e)->Some_0);
    } else {
        let tail = cats.subrange(1, cats.len() as int);
        lemma_custom_lookup_member(tail, e);
        match spec_custom_lookup(tail, e) {
            Some(n) => {
                let k = choose|k: int| 0 <= k < tail.len() && (#[trigger] tail[k]).0 == n;
                assert(cats[k + 1].0 == n);
            },
            None => {},
        }
    }
}

/// When every custom category name is clean, so is the relative destination
/// folder of every file.
pub proof fn lemma_category_clean(name: Seq<char>, cats: Seq<(Seq<char>, Seq<Seq<char>>)>)
    requires
        forall|k: int| 0 <= k < cats.len() ==> spec_path_ok((#[trigger] cats[k]).0),
    ensures
        spec_path_ok(spec_dest_rel(spec_category_for(name, cats))),
{
    reveal_strlit("Others");
    match spec_extension_of(name) {
        Some(ext) => {
            let le = spec_lower(ext);
            match spec_custom_lookup(cats, le) {
                Some(n) => {
                    lemma_custom_lookup_member(cats, le);
                },
                None => {
                    lemma_builtin_clean(le);
                    let c = spec_builtin(le);
                    if c.1.len() > 0 {
                        lemma_join_clean(c.0, c.1);
                    }
                },
            }
        },
        None => {},
    }
}

} // verus!
