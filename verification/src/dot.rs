//! Which constellation of dots stands for a file in the file list, chosen
//! by the file's extension.

use crate::config::{all_ascii, ascii_lower_char, lowercase_text, to_lowercase};
use crate::text::str_equal;
use vstd::prelude::*;

verus! {

/// The colours of the star palette.
#[derive(Debug, Clone, Copy, PartialEq, Eq, Structural)]
pub enum StarColor {
    White,
    Blue,
    Gold,
    Green,
    Red,
}

/// The icon drawn for a file.
#[derive(Debug, Clone, Copy, PartialEq, Eq, Structural)]
pub enum IconPattern {
    /// pdf: one red dot.
    Document,
    /// Images: a blue pentagon.
    Image,
    /// Videos: a turning gold ring of six.
    Video,
    /// Audio: a green wave.
    Audio,
    /// Archives: a red grid of three by three.
    Archive,
    /// Slides: a gold octagon.
    Slides,
    /// Spreadsheets: a green cross.
    Sheet,
    /// Programs: two blue squares.
    Program,
    /// Anything else: one white dot.
    Plain,
}

/// The pattern for an extension that is already lower-cased.
pub open spec fn spec_pattern_for(ext: Seq<char>) -> IconPattern {
    if ext == "pdf"@ {
        IconPattern::Document
    } else if ext == "jpg"@ || ext == "jpeg"@ || ext == "png"@ || ext == "gif"@ || ext == "bmp"@ || ext == "webp"@ {
        IconPattern::Image
    } else if ext == "mp4"@ || ext == "avi"@ || ext == "mkv"@ || ext == "mov"@ {
        IconPattern::Video
    } else if ext == "mp3"@ || ext == "wav"@ || ext == "flac"@ || ext == "ogg"@ || ext == "m4a"@ {
        IconPattern::Audio
    } else if ext == "zip"@ || ext == "7z"@ || ext == "rar"@ || ext == "tar"@ || ext == "gz"@ {
        IconPattern::Archive
    } else if ext == "ppt"@ || ext == "pptx"@ {
        IconPattern::Slides
    } else if ext == "xls"@ || ext == "xlsx"@ || ext == "csv"@ {
        IconPattern::Sheet
    } else if ext == "exe"@ || ext == "dll"@ || ext == "msi"@ {
        IconPattern::Program
    } else {
        IconPattern::Plain
    }
}

/// The pattern for a file whose extension, if it has one, is `ext`; the
/// extension is compared without regard to case.
pub open spec fn spec_pattern_of(ext: Option<Seq<char>>) -> IconPattern {
    match ext {
        Some(e) => spec_pattern_for(lowercase_text(e)),
        None => IconPattern::Plain,
    }
}

/// The extension table, entry by entry: each listed lower-case
/// extension picks its pattern; an empty extension, an unlisted one and
/// one in capitals (before lower-casing) pick the plain dot.
#[verifier::spinoff_prover]
pub proof fn lemma_extension_table()
    ensures
        spec_pattern_for("pdf"@) == IconPattern::Document,
        spec_pattern_for("jpg"@) == IconPattern::Image,
        spec_pattern_for("jpeg"@) == IconPattern::Image,
        spec_pattern_for("png"@) == IconPattern::Image,
        spec_pattern_for("gif"@) == IconPattern::Image,
        spec_pattern_for("bmp"@) == IconPattern::Image,
        spec_pattern_for("webp"@) == IconPattern::Image,
        spec_pattern_for("mp4"@) == IconPattern::Video,
        spec_pattern_for("avi"@) == IconPattern::Video,
        spec_pattern_for("mkv"@) == IconPattern::Video,
        spec_pattern_for("mov"@) == IconPattern::Video,
        spec_pattern_for("mp3"@) == IconPattern::Audio,
        spec_pattern_for("wav"@) == IconPattern::Audio,
        spec_pattern_for("flac"@) == IconPattern::Audio,
        spec_pattern_for("ogg"@) == IconPattern::Audio,
        spec_pattern_for("m4a"@) == IconPattern::Audio,
        spec_pattern_for("zip"@) == IconPattern::Archive,
        spec_pattern_for("7z"@) == IconPattern::Archive,
        spec_pattern_for("rar"@) == IconPattern::Archive,
        spec_pattern_for("tar"@) == IconPattern::Archive,
        spec_pattern_for("gz"@) == IconPattern::Archive,
        spec_pattern_for("ppt"@) == IconPattern::Slides,
        spec_pattern_for("pptx"@) == IconPattern::Slides,
        spec_pattern_for("xls"@) == IconPattern::Sheet,
        spec_pattern_for("xlsx"@) == IconPattern::Sheet,
        spec_pattern_for("csv"@) == IconPattern::Sheet,
        spec_pattern_for("exe"@) == IconPattern::Program,
        spec_pattern_for("dll"@) == IconPattern::Program,
        spec_pattern_for("msi"@) == IconPattern::Program,
        spec_pattern_for("PDF"@) == IconPattern::Plain,
        spec_pattern_for("txt"@) == IconPattern::Plain,
        spec_pattern_for(Seq::<char>::empty()) == IconPattern::Plain,
{
    reveal_strlit("pdf");
    assert("pdf"@.len() == 3 && "pdf"@[0] == 'p' && "pdf"@[1] == 'd' && "pdf"@[2] == 'f');
    reveal_strlit("jpg");
    assert("jpg"@.len() == 3 && "jpg"@[0] == 'j' && "jpg"@[1] == 'p' && "jpg"@[2] == 'g');
    reveal_strlit("jpeg");
    assert("jpeg"@.len() == 4 && "jpeg"@[0] == 'j' && "jpeg"@[1] == 'p' && "jpeg"@[2] == 'e' && "jpeg"@[3] == 'g');
    reveal_strlit("png");
    assert("png"@.len() == 3 && "png"@[0] == 'p' && "png"@[1] == 'n' && "png"@[2] == 'g');
    reveal_strlit("gif");
    assert("gif"@.len() == 3 && "gif"@[0] == 'g' && "gif"@[1] == 'i' && "gif"@[2] == 'f');
    reveal_strlit("bmp");
    assert("bmp"@.len() == 3 && "bmp"@[0] == 'b' && "bmp"@[1] == 'm' && "bmp"@[2] == 'p');
    reveal_strlit("webp");
    assert("webp"@.len() == 4 && "webp"@[0] == 'w' && "webp"@[1] == 'e' && "webp"@[2] == 'b' && "webp"@[3] == 'p');
    reveal_strlit("mp4");
    assert("mp4"@.len() == 3 && "mp4"@[0] == 'm' && "mp4"@[1] == 'p' && "mp4"@[2] == '4');
    reveal_strlit("avi");
    assert("avi"@.len() == 3 && "avi"@[0] == 'a' && "avi"@[1] == 'v' && "avi"@[2] == 'i');
    reveal_strlit("mkv");
    assert("mkv"@.len() == 3 && "mkv"@[0] == 'm' && "mkv"@[1] == 'k' && "mkv"@[2] == 'v');
    reveal_strlit("mov");
    assert("mov"@.len() == 3 && "mov"@[0] == 'm' && "mov"@[1] == 'o' && "mov"@[2] == 'v');
    reveal_strlit("mp3");
    assert("mp3"@.len() == 3 && "mp3"@[0] == 'm' && "mp3"@[1] == 'p' && "mp3"@[2] == '3');
    reveal_strlit("wav");
    assert("wav"@.len() == 3 && "wav"@[0] == 'w' && "wav"@[1] == 'a' && "wav"@[2] == 'v');
    reveal_strlit("flac");
    assert("flac"@.len() == 4 && "flac"@[0] == 'f' && "flac"@[1] == 'l' && "flac"@[2] == 'a' && "flac"@[3] == 'c');
    reveal_strlit("ogg");
    assert("ogg"@.len() == 3 && "ogg"@[0] == 'o' && "ogg"@[1] == 'g' && "ogg"@[2] == 'g');
    reveal_strlit("m4a");
    assert("m4a"@.len() == 3 && "m4a"@[0] == 'm' && "m4a"@[1] == '4' && "m4a"@[2] == 'a');
    reveal_strlit("zip");
    assert("zip"@.len() == 3 && "zip"@[0] == 'z' && "zip"@[1] == 'i' && "zip"@[2] == 'p');
    reveal_strlit("7z");
    assert("7z"@.len() == 2 && "7z"@[0] == '7' && "7z"@[1] == 'z');
    reveal_strlit("rar");
    assert("rar"@.len() == 3 && "rar"@[0] == 'r' && "rar"@[1] == 'a' && "rar"@[2] == 'r');
    reveal_strlit("tar");
    assert("tar"@.len() == 3 && "tar"@[0] == 't' && "tar"@[1] == 'a' && "tar"@[2] == 'r');
    reveal_strlit("gz");
    assert("gz"@.len() == 2 && "gz"@[0] == 'g' && "gz"@[1] == 'z');
    reveal_strlit("ppt");
    assert("ppt"@.len() == 3 && "ppt"@[0] == 'p' && "ppt"@[1] == 'p' && "ppt"@[2] == 't');
    reveal_strlit("pptx");
    assert("pptx"@.len() == 4 && "pptx"@[0] == 'p' && "pptx"@[1] == 'p' && "pptx"@[2] == 't' && "pptx"@[3] == 'x');
    reveal_strlit("xls");
    assert("xls"@.len() == 3 && "xls"@[0] == 'x' && "xls"@[1] == 'l' && "xls"@[2] == 's');
    reveal_strlit("xlsx");
    assert("xlsx"@.len() == 4 && "xlsx"@[0] == 'x' && "xlsx"@[1] == 'l' && "xlsx"@[2] == 's' && "xlsx"@[3] == 'x');
    reveal_strlit("csv");
    assert("csv"@.len() == 3 && "csv"@[0] == 'c' && "csv"@[1] == 's' && "csv"@[2] == 'v');
    reveal_strlit("exe");
    assert("exe"@.len() == 3 && "exe"@[0] == 'e' && "exe"@[1] == 'x' && "exe"@[2] == 'e');
    reveal_strlit("dll");
    assert("dll"@.len() == 3 && "dll"@[0] == 'd' && "dll"@[1] == 'l' && "dll"@[2] == 'l');
    reveal_strlit("msi");
    assert("msi"@.len() == 3 && "msi"@[0] == 'm' && "msi"@[1] == 's' && "msi"@[2] == 'i');
    reveal_strlit("PDF");
    assert("PDF"@.len() == 3 && "PDF"@[0] == 'P' && "PDF"@[1] == 'D' && "PDF"@[2] == 'F');
    reveal_strlit("txt");
    assert("txt"@.len() == 3 && "txt"@[0] == 't' && "txt"@[1] == 'x' && "txt"@[2] == 't');
}

/// Picks the pattern for an extension that is already lower-cased.
pub fn pattern_for_extension(ext: &str) -> (r: IconPattern)
    ensures
        r == spec_pattern_for(ext@),
{
    if str_equal(ext, "pdf") {
        IconPattern::Document
    } else if str_equal(ext, "jpg") || str_equal(ext, "jpeg") || str_equal(ext, "png") || str_equal(ext, "gif")
        || str_equal(ext, "bmp") || str_equal(ext, "webp") {
        IconPattern::Image
    } else if str_equal(ext, "mp4") || str_equal(ext, "avi") || str_equal(ext, "mkv") || str_equal(ext, "mov") {
        IconPattern::Video
    } else if str_equal(ext, "mp3") || str_equal(ext, "wav") || str_equal(ext, "flac") || str_equal(ext, "ogg")
        || str_equal(ext, "m4a") {
        IconPattern::Audio
    } else if str_equal(ext, "zip") || str_equal(ext, "7z") || str_equal(ext, "rar") || str_equal(ext, "tar")
        || str_equal(ext, "gz") {
        IconPattern::Archive
    } else if str_equal(ext, "ppt") || str_equal(ext, "pptx") {
        IconPattern::Slides
    } else if str_equal(ext, "xls") || str_equal(ext, "xlsx") || str_equal(ext, "csv") {
        IconPattern::Sheet
    } else if str_equal(ext, "exe") || str_equal(ext, "dll") || str_equal(ext, "msi") {
        IconPattern::Program
    } else {
        IconPattern::Plain
    }
}

/// Picks the pattern for a file's extension as the path reports it
/// (`None` for a file without one), ignoring case.
pub fn pattern_of_extension(ext: Option<String>) -> (r: IconPattern)
    ensures
        r == spec_pattern_of(match ext {
            Some(e) => Some(e@),
            None => None,
        }),
{
    match ext {
        Some(e) => {
            let lower = to_lowercase(e.as_str());
            pattern_for_extension(lower.as_str())
        },
        None => IconPattern::Plain,
    }
}

/// The position of the last `.` in `s`, or -1 when it has none.
pub open spec fn last_dot(s: Seq<char>) -> int
    decreases s.len(),
{
    if s.len() == 0 {
        -1
    } else if s.last() == '.' {
        s.len() - 1
    } else {
        last_dot(s.drop_last())
    }
}

/// A bare file name: no separator or drive colon, and not `.` or `..`.
pub open spec fn is_bare_name(s: Seq<char>) -> bool {
    &&& !s.contains('/')
    &&& !s.contains('\\')
    &&& !s.contains(':')
    &&& s != "."@
    &&& s != ".."@
}

/// The extension of a bare file name: what follows its last `.`, unless
/// that dot is the first character (a hidden file without extension).
pub open spec fn name_extension(s: Seq<char>) -> Option<Seq<char>> {
    if last_dot(s) > 0 {
        Some(s.subrange(last_dot(s) + 1, s.len() as int))
    } else {
        None
    }
}

/// `Path::extension` (std) of the path `name`, as text. For a bare file
/// name it is the part after the last `.`, none when that dot starts the
/// name or there is none. Which part of another path is the file name
/// depends on the platform's separators, so of such a path only this is
/// stated: an extension holds no `.`, and a path without a `.` has none.
#[verifier::external_body]
fn path_extension(name: &str) -> (r: Option<String>)
    ensures
        is_bare_name(name@) ==> match r {
            Some(e) => name_extension(name@) == Some(e@),
            None => name_extension(name@) is None,
        },
        r matches Some(e) ==> !e@.contains('.'),
        !name@.contains('.') ==> r is None,
{
    std::path::Path::new(name).extension().and_then(|e| e.to_str()).map(|e| e.to_string())
}

/// The pattern for the file `name`: by its extension, ignoring case; a
/// file without an extension gets the plain dot. For a bare file name the
/// extension is the part after its last `.`; for a path, the platform
/// decides which part is the file name.
pub fn icon_pattern(name: &str) -> (r: IconPattern)
    ensures
        is_bare_name(name@) ==> r == spec_pattern_of(name_extension(name@)),
        exists|ext: Option<Seq<char>>| {
            &&& (!name@.contains('.') ==> ext is None)
            &&& (ext matches Some(e) ==> !e.contains('.'))
            &&& r == spec_pattern_of(ext)
        },
        !name@.contains('.') ==> r == IconPattern::Plain,
{
    let ext = path_extension(name);
    let ghost seen: Option<Seq<char>> = match &ext {
        Some(e) => Some(e@),
        None => None,
    };
    let r = pattern_of_extension(ext);
    assert(r == spec_pattern_of(seen));
    r
}

impl IconPattern {
    /// The colour the pattern is drawn in.
    pub fn color(self) -> (r: StarColor)
        ensures
            r == match self {
                IconPattern::Document | IconPattern::Archive => StarColor::Red,
                IconPattern::Image | IconPattern::Program => StarColor::Blue,
                IconPattern::Video | IconPattern::Slides => StarColor::Gold,
                IconPattern::Audio | IconPattern::Sheet => StarColor::Green,
                IconPattern::Plain => StarColor::White,
            },
    {
        match self {
            IconPattern::Document | IconPattern::Archive => StarColor::Red,
            IconPattern::Image | IconPattern::Program => StarColor::Blue,
            IconPattern::Video | IconPattern::Slides => StarColor::Gold,
            IconPattern::Audio | IconPattern::Sheet => StarColor::Green,
            IconPattern::Plain => StarColor::White,
        }
    }

    /// How many dots the pattern has.
    pub fn dot_count(self) -> (r: usize)
        ensures
            r == match self {
                IconPattern::Document | IconPattern::Plain => 1usize,
                IconPattern::Image | IconPattern::Audio => 5usize,
                IconPattern::Video => 6usize,
                IconPattern::Archive => 9usize,
                IconPattern::Slides | IconPattern::Sheet | IconPattern::Program => 8usize,
            },
    {
        match self {
            IconPattern::Document | IconPattern::Plain => 1,
            IconPattern::Image | IconPattern::Audio => 5,
            IconPattern::Video => 6,
            IconPattern::Archive => 9,
            IconPattern::Slides | IconPattern::Sheet | IconPattern::Program => 8,
        }
    }
}

impl StarColor {
    /// The colour's red, green and blue parts.
    pub fn rgb(self) -> (r: (u8, u8, u8))
        ensures
            r == match self {
                StarColor::White => (220u8, 230u8, 255u8),
                StarColor::Blue => (100u8, 180u8, 255u8),
                StarColor::Gold => (255u8, 200u8, 80u8),
                StarColor::Green => (80u8, 220u8, 160u8),
                StarColor::Red => (255u8, 100u8, 120u8),
            },
    {
        match self {
            StarColor::White => (220, 230, 255),
            StarColor::Blue => (100, 180, 255),
            StarColor::Gold => (255, 200, 80),
            StarColor::Green => (80, 220, 160),
            StarColor::Red => (255, 100, 120),
        }
    }
}

/// The case of an ASCII extension does not matter: it picks the pattern
/// its lower-case form picks in the table, and so does every spelling of
/// it that differs only in case. A file without an extension gets the
/// plain dot.
pub proof fn lemma_pattern_ignores_case(e: Seq<char>, f: Seq<char>)
    requires
        all_ascii(e),
        all_ascii(f),
        e.map_values(|c: char| ascii_lower_char(c)) == f.map_values(|c: char| ascii_lower_char(c)),
    ensures
        spec_pattern_of(Some(e)) == spec_pattern_for(e.map_values(|c: char| ascii_lower_char(c))),
        spec_pattern_of(Some(e)) == spec_pattern_of(Some(f)),
        spec_pattern_of(None) == IconPattern::Plain,
{
}

} // verus!
