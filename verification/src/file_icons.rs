//! The icons shown beside files and directories.
use vstd::prelude::*;
use crate::paths::{file_name, extension, file_name_of, extension_of};
use crate::chars::{lowercase, to_lowercase, str_to_chars};
use crate::strings::chars_eq;

verus! {

/// The icon of the first entry of `table` whose key is `key`, if any.
pub open spec fn lookup(table: Seq<(Seq<char>, Seq<char>)>, key: Seq<char>) -> Option<Seq<char>>
    decreases table.len(),
{
    if table.len() == 0 {
        None
    } else if table[0].0 == key {
        Some(table[0].1)
    } else {
        lookup(table.drop_first(), key)
    }
}

/// The views of a table of string pairs.
pub open spec fn table_view(t: Seq<(&str, &str)>) -> Seq<(Seq<char>, Seq<char>)> {
    t.map_values(|p: (&str, &str)| (p.0@, p.1@))
}

/// Icons of files known by their whole (lowercased) name.
pub open spec fn name_icons() -> Seq<(Seq<char>, Seq<char>)> {
    table_view(name_icon_pairs())
}

/// Icons of files known by their (lowercased) extension.
pub open spec fn extension_icons() -> Seq<(Seq<char>, Seq<char>)> {
    table_view(extension_icon_pairs())
}

/// Letters of files known by their (lowercased) extension.
pub open spec fn extension_letters() -> Seq<(Seq<char>, Seq<char>)> {
    table_view(extension_letter_pairs())
}

/// The pairs of `name_icons`.
pub open spec fn name_icon_pairs() -> Seq<(&'static str, &'static str)> {
    seq![
        ("readme.md", "📖"), ("readme.txt", "📖"), ("readme", "📖"),
        ("license", "📄"), ("license.txt", "📄"), ("license.md", "📄"),
        ("dockerfile", "🐳"), ("makefile", "🔨"),
        ("cargo.toml", "📦"), ("cargo.lock", "📦"),
        ("package.json", "📦"), ("package-lock.json", "📦"),
        ("yarn.lock", "🧶"), ("gemfile", "💎"), ("gemfile.lock", "💎"),
        ("pipfile", "🐍"), ("pipfile.lock", "🐍"), ("requirements.txt", "🐍"),
        ("composer.json", "🎼"), ("composer.lock", "🎼"),
        (".gitignore", "🙈"), (".gitattributes", "🙈"),
        (".env", "⚙️"), (".env.local", "⚙️"), (".env.example", "⚙️"),
    ]
}

/// The pairs of `extension_icons`.
pub open spec fn extension_icon_pairs() -> Seq<(&'static str, &'static str)> {
    seq![
        ("rs", "🦀"), ("js", "💛"), ("mjs", "💛"), ("ts", "🔷"), ("jsx", "⚛️"), ("tsx", "⚛️"),
        ("py", "🐍"), ("go", "🐹"), ("java", "☕"), ("kt", "🎯"), ("kts", "🎯"), ("swift", "🐦"),
        ("cpp", "⚡"), ("cc", "⚡"), ("cxx", "⚡"), ("c++", "⚡"), ("c", "🔧"), ("h", "📋"),
        ("hpp", "📋"), ("cs", "🔷"), ("php", "🐘"), ("rb", "💎"), ("lua", "🌙"), ("r", "📊"),
        ("dart", "🎯"), ("scala", "🔺"), ("clj", "🤖"), ("cljs", "🤖"), ("hs", "λ"),
        ("elm", "🌳"), ("ex", "💧"), ("exs", "💧"), ("erl", "☎️"), ("ml", "🐪"), ("mli", "🐪"),
        ("fs", "📘"), ("fsi", "📘"), ("fsx", "📘"), ("nim", "👑"), ("cr", "💎"), ("zig", "⚡"),
        ("html", "🌐"), ("htm", "🌐"), ("css", "🎨"), ("scss", "💅"), ("sass", "💅"),
        ("less", "📘"), ("vue", "💚"), ("svelte", "🧡"), ("angular", "🅰️"),
        ("json", "📊"), ("xml", "📄"), ("yaml", "📄"), ("yml", "📄"), ("toml", "📄"),
        ("ini", "⚙️"), ("cfg", "⚙️"), ("conf", "⚙️"), ("csv", "📊"), ("sql", "🗃️"),
        ("md", "📝"), ("markdown", "📝"), ("txt", "📄"), ("rtf", "📄"), ("pdf", "📕"),
        ("doc", "📘"), ("docx", "📘"), ("xls", "📗"), ("xlsx", "📗"), ("ppt", "📙"),
        ("pptx", "📙"),
        ("png", "🖼️"), ("jpg", "🖼️"), ("jpeg", "🖼️"), ("gif", "🖼️"), ("bmp", "🖼️"),
        ("tiff", "🖼️"), ("svg", "🎨"), ("ico", "🖼️"), ("webp", "🖼️"),
        ("mp3", "🎵"), ("wav", "🎵"), ("flac", "🎵"), ("aac", "🎵"),
        ("mp4", "🎬"), ("avi", "🎬"), ("mkv", "🎬"), ("mov", "🎬"), ("wmv", "🎬"),
        ("zip", "📦"), ("rar", "📦"), ("7z", "📦"), ("tar", "📦"), ("gz", "📦"), ("xz", "📦"),
        ("bz2", "📦"),
        ("sh", "📜"), ("bash", "📜"), ("zsh", "📜"), ("fish", "📜"), ("bat", "📜"),
        ("cmd", "📜"), ("ps1", "📜"),
        ("log", "📋"), ("lock", "🔒"), ("key", "🔑"), ("pem", "🔑"), ("crt", "🔑"),
        ("cert", "🔑"), ("tmp", "🗑️"), ("temp", "🗑️"), ("bak", "💾"), ("backup", "💾"),
    ]
}

/// The pairs of `extension_letters`.
pub open spec fn extension_letter_pairs() -> Seq<(&'static str, &'static str)> {
    seq![
        ("rs", "R"), ("js", "J"), ("mjs", "J"), ("ts", "T"), ("py", "P"), ("go", "G"),
        ("java", "J"), ("html", "H"), ("htm", "H"), ("css", "C"), ("md", "M"),
        ("markdown", "M"), ("json", "N"), ("xml", "X"), ("txt", "T"),
    ]
}

fn name_table() -> (t: Vec<(&'static str, &'static str)>)
    ensures
        t@ == name_icon_pairs(),
{
    let t = vec![
        ("readme.md", "📖"), ("readme.txt", "📖"), ("readme", "📖"),
        ("license", "📄"), ("license.txt", "📄"), ("license.md", "📄"),
        ("dockerfile", "🐳"), ("makefile", "🔨"),
        ("cargo.toml", "📦"), ("cargo.lock", "📦"),
        ("package.json", "📦"), ("package-lock.json", "📦"),
        ("yarn.lock", "🧶"), ("gemfile", "💎"), ("gemfile.lock", "💎"),
        ("pipfile", "🐍"), ("pipfile.lock", "🐍"), ("requirements.txt", "🐍"),
        ("composer.json", "🎼"), ("composer.lock", "🎼"),
        (".gitignore", "🙈"), (".gitattributes", "🙈"),
        (".env", "⚙️"), (".env.local", "⚙️"), (".env.example", "⚙️"),
    ];
    assert(t@ =~= name_icon_pairs());
    t
}

fn extension_table() -> (t: Vec<(&'static str, &'static str)>)
    ensures
        t@ == extension_icon_pairs(),
{
    let t = vec![
        ("rs", "🦀"), ("js", "💛"), ("mjs", "💛"), ("ts", "🔷"), ("jsx", "⚛️"), ("tsx", "⚛️"),
        ("py", "🐍"), ("go", "🐹"), ("java", "☕"), ("kt", "🎯"), ("kts", "🎯"), ("swift", "🐦"),
        ("cpp", "⚡"), ("cc", "⚡"), ("cxx", "⚡"), ("c++", "⚡"), ("c", "🔧"), ("h", "📋"),
        ("hpp", "📋"), ("cs", "🔷"), ("php", "🐘"), ("rb", "💎"), ("lua", "🌙"), ("r", "📊"),
        ("dart", "🎯"), ("scala", "🔺"), ("clj", "🤖"), ("cljs", "🤖"), ("hs", "λ"),
        ("elm", "🌳"), ("ex", "💧"), ("exs", "💧"), ("erl", "☎️"), ("ml", "🐪"), ("mli", "🐪"),
        ("fs", "📘"), ("fsi", "📘"), ("fsx", "📘"), ("nim", "👑"), ("cr", "💎"), ("zig", "⚡"),
        ("html", "🌐"), ("htm", "🌐"), ("css", "🎨"), ("scss", "💅"), ("sass", "💅"),
        ("less", "📘"), ("vue", "💚"), ("svelte", "🧡"), ("angular", "🅰️"),
        ("json", "📊"), ("xml", "📄"), ("yaml", "📄"), ("yml", "📄"), ("toml", "📄"),
        ("ini", "⚙️"), ("cfg", "⚙️"), ("conf", "⚙️"), ("csv", "📊"), ("sql", "🗃️"),
        ("md", "📝"), ("markdown", "📝"), ("txt", "📄"), ("rtf", "📄"), ("pdf", "📕"),
        ("doc", "📘"), ("docx", "📘"), ("xls", "📗"), ("xlsx", "📗"), ("ppt", "📙"),
        ("pptx", "📙"),
        ("png", "🖼️"), ("jpg", "🖼️"), ("jpeg", "🖼️"), ("gif", "🖼️"), ("bmp", "🖼️"),
        ("tiff", "🖼️"), ("svg", "🎨"), ("ico", "🖼️"), ("webp", "🖼️"),
        ("mp3", "🎵"), ("wav", "🎵"), ("flac", "🎵"), ("aac", "🎵"),
        ("mp4", "🎬"), ("avi", "🎬"), ("mkv", "🎬"), ("mov", "🎬"), ("wmv", "🎬"),
        ("zip", "📦"), ("rar", "📦"), ("7z", "📦"), ("tar", "📦"), ("gz", "📦"), ("xz", "📦"),
        ("bz2", "📦"),
        ("sh", "📜"), ("bash", "📜"), ("zsh", "📜"), ("fish", "📜"), ("bat", "📜"),
        ("cmd", "📜"), ("ps1", "📜"),
        ("log", "📋"), ("lock", "🔒"), ("key", "🔑"), ("pem", "🔑"), ("crt", "🔑"),
        ("cert", "🔑"), ("tmp", "🗑️"), ("temp", "🗑️"), ("bak", "💾"), ("backup", "💾"),
    ];
    assert(t@ =~= extension_icon_pairs());
    t
}

fn letter_table() -> (t: Vec<(&'static str, &'static str)>)
    ensures
        t@ == extension_letter_pairs(),
{
    let t = vec![
        ("rs", "R"), ("js", "J"), ("mjs", "J"), ("ts", "T"), ("py", "P"), ("go", "G"),
        ("java", "J"), ("html", "H"), ("htm", "H"), ("css", "C"), ("md", "M"),
        ("markdown", "M"), ("json", "N"), ("xml", "X"), ("txt", "T"),
    ];
    assert(t@ =~= extension_letter_pairs());
    t
}

/// The value of the first entry of `table` whose key has the chars of
/// `key`, if any.
fn find_in_table(table: &Vec<(&'static str, &'static str)>, key: &Vec<char>) -> (r: Option<&'static str>)
    ensures
        match lookup(table_view(table@), key@) {
            Some(v) => r is Some && r->0@ == v,
            None => r is None,
        },
{
    let mut i: usize = 0;
    assert(table_view(table@).skip(0) =~= table_view(table@));
    while i < table.len()
        invariant
            i <= table@.len(),
            lookup(table_view(table@), key@) == lookup(table_view(table@).skip(i as int), key@),
        decreases table.len() - i,
    {
        let (k, v) = table[i];
        let kc = str_to_chars(k);
        assert(table_view(table@).skip(i as int).drop_first() =~= table_view(table@).skip(i + 1));
        assert(table_view(table@).skip(i as int)[0] == (k@, v@));
        if chars_eq(&kc, key) {
            return Some(v);
        }
        i = i + 1;
    }
    None
}

/// The lowercased file name of a path, empty when it has none.
pub open spec fn lower_name(path: Seq<char>) -> Seq<char> {
    lowercase(
        match file_name_of(path) {
            Some(n) => n,
            None => Seq::empty(),
        },
    )
}

/// The lowercased extension of a path, empty when it has none.
pub open spec fn lower_extension(path: Seq<char>) -> Seq<char> {
    lowercase(
        match extension_of(path) {
            Some(n) => n,
            None => Seq::empty(),
        },
    )
}

/// The icon of a file: a folder for a directory, else by its whole name,
/// else by its extension, else a page.
pub open spec fn file_icon(path: Seq<char>, is_dir: bool) -> Seq<char> {
    if is_dir {
        "📁"@
    } else {
        match lookup(name_icons(), lower_name(path)) {
            Some(i) => i,
            None => match lookup(extension_icons(), lower_extension(path)) {
                Some(i) => i,
                None => "📄"@,
            },
        }
    }
}

fn lowered(s: Option<String>) -> (r: Vec<char>)
    ensures
        r@ == lowercase(
            match s {
                Some(n) => n@,
                None => Seq::<char>::empty(),
            },
        ),
{
    let t = match s {
        Some(n) => n,
        None => String::new(),
    };
    str_to_chars(to_lowercase(t.as_str()).as_str())
}

/// The icon of the file at `path`; `is_dir` tells whether it is a
/// directory.
pub fn get_file_icon(path: &str, is_dir: bool) -> (r: &'static str)
    ensures
        r@ == file_icon(path@, is_dir),
{
    if is_dir {
        return "📁";
    }
    let ext = lowered(extension(path));
    let name = lowered(file_name(path));
    let names = name_table();
    match find_in_table(&names, &name) {
        Some(icon) => icon,
        None => {
            let exts = extension_table();
            match find_in_table(&exts, &ext) {
                Some(icon) => icon,
                None => "📄",
            }
        },
    }
}

/// The icon of a directory: open when expanded, closed otherwise.
pub fn get_directory_icon(is_expanded: bool) -> (r: &'static str)
    ensures
        r@ == if is_expanded {
            "📂"@
        } else {
            "📁"@
        },
{
    if is_expanded {
        "📂"
    } else {
        "📁"
    }
}

/// A one-letter kind of a file, for where icons cannot be shown: "D" for a
/// directory, else by extension, else "F".
pub fn get_file_type_indicator(path: &str, is_dir: bool) -> (r: &'static str)
    ensures
        r@ == if is_dir {
            "D"@
        } else {
            match lookup(extension_letters(), lower_extension(path@)) {
                Some(l) => l,
                None => "F"@,
            }
        },
{
    if is_dir {
        return "D";
    }
    let ext = lowered(extension(path));
    let letters = letter_table();
    match find_in_table(&letters, &ext) {
        Some(l) => l,
        None => "F",
    }
}

} // verus!
