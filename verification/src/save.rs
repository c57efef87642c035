//! Where and under which name an image is saved.
use vstd::prelude::*;

verus! {

/// The image formats that can be written.
#[derive(Clone, Copy, Debug, PartialEq, Eq, Structural)]
pub enum ImgFormats {
    PNG,
    JPEG,
    GIF,
}

/// The directory, name and format that an image is saved under.
#[derive(Debug)]
pub struct SavePath {
    /// The directory.
    pub path: String,
    /// The file name without its extension.
    pub name: String,
    /// The format, which decides the extension.
    pub format: ImgFormats,
    /// Whether the user has edited the name.
    pub user_mod_name: bool,
}

/// A character that no file name may hold.
pub open spec fn forbidden(c: char) -> bool {
    c == '\\' || c == '/' || c == ':' || c == '*' || c == '?' || c == '"' || c == '<' || c == '>'
        || c == '|'
}

/// No character of `name` is forbidden.
pub open spec fn valid_filename(name: Seq<char>) -> bool {
    forall|i: int| 0 <= i < name.len() ==> !forbidden(#[trigger] name[i])
}

/// The extension that goes with a format, with its dot.
pub open spec fn extension(format: ImgFormats) -> Seq<char> {
    match format {
        ImgFormats::PNG => ".png"@,
        ImgFormats::JPEG => ".jpeg"@,
        ImgFormats::GIF => ".gif"@,
    }
}

/// Whether `name` can be a file name: it holds none of
/// `\ / : * ? " < > |`.
pub fn check_filename(name: &str) -> (valid: bool)
    ensures
        valid == valid_filename(name@),
{
    let n = name.unicode_len();
    let mut i: usize = 0;
    while i < n
        invariant
            n == name@.len(),
            i <= n,
            forall|j: int| 0 <= j < i ==> !forbidden(#[trigger] name@[j]),
        decreases n - i,
    {
        let c = name.get_char(i);
        if c == '\\' || c == '/' || c == ':' || c == '*' || c == '?' || c == '"' || c == '<' || c
            == '>' || c == '|' {
            return false;
        }
        i += 1;
    }
    true
}

impl SavePath {
    /// The place `path`, the name `name` and the format `format`; the name
    /// counts as not edited.
    pub fn new(path: String, format: ImgFormats, name: String) -> (s: SavePath)
        ensures
            s.path == path,
            s.name == name,
            s.format == format,
            !s.user_mod_name,
    {
        SavePath { path, name, format, user_mod_name: false }
    }

    /// The file that the image is written to: the directory, a slash, the
    /// name and the extension of the format.
    pub fn file_path(&self) -> (file: String)
        ensures
            file@ == self.path@ + "/"@ + self.name@ + extension(self.format),
    {
        let mut file = self.path.clone();
        file.append("/");
        file.append(self.name.as_str());
        match self.format {
            ImgFormats::PNG => file.append(".png"),
            ImgFormats::JPEG => file.append(".jpeg"),
            ImgFormats::GIF => file.append(".gif"),
        }
        file
    }
}

} // verus!
