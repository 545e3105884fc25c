use vstd::prelude::*;

use crate::data::font::FontData;
use crate::data::map::MapData;
use crate::data::text::TextLineData;
use crate::error::Error;

pub mod font;
pub mod gfx;
pub mod map;
pub mod text;

verus! {

/// The path that `std::path::Path::join` makes of a base and a relative path.
pub uninterp spec fn joined_path(base: Seq<char>, rel: Seq<char>) -> Seq<char>;

/// The extension that `std::path::Path::extension` finds in a path.
pub uninterp spec fn path_extension(path: Seq<char>) -> Option<Seq<char>>;

/// Relies on `std::path::Path::join`: the joined path depends on the two paths
/// alone.
#[verifier::external_body]
pub(crate) fn join_as_string(base_path: &str, rel_path: &str) -> (r: String)
    ensures
        r@ == joined_path(base_path@, rel_path@),
{
    std::path::Path::new(base_path).join(rel_path).to_string_lossy().into_owned()
}

/// Relies on `std::path::Path::extension`: the extension depends on the path
/// alone.
#[verifier::external_body]
fn extension_of(path: &str) -> (r: Option<String>)
    ensures
        r is None <==> path_extension(path@) is None,
        r matches Some(e) ==> path_extension(path@) == Some(e@),
{
    match std::path::Path::new(path).extension() {
        Some(e) => Some(e.to_string_lossy().into_owned()),
        None => None,
    }
}

/// The whole game configuration.
pub struct GameConfig {
    pub font: FontData,
    pub map: MapData,
    pub text_line: Option<TextLineData>,
}

/// The encodings that configuration files come in.
#[derive(Debug, Clone, Copy, PartialEq, Eq, Structural)]
pub enum Format {
    JSON,
    BINCODE,
}

/// Data whose relative paths can be resolved against a base directory.
pub trait Data {
    fn reroot(&mut self, base_path: &str);
}

impl Data for GameConfig {
    fn reroot(&mut self, base_path: &str)
        ensures
            final(self).font.rerooted_from(old(self).font, base_path@),
            final(self).map.rerooted_from(old(self).map, base_path@),
            match (old(self).text_line, final(self).text_line) {
                (None, None) => true,
                (Some(a), Some(b)) => b.rerooted_from(a, base_path@),
                _ => false,
            },
    {
        self.font.reroot(base_path);
        self.map.reroot(base_path);
        match &mut self.text_line {
            Some(line) => line.reroot(base_path),
            None => {},
        }
    }
}

pub open spec fn spec_format_for_extension(extension: Seq<char>) -> Option<Format> {
    if extension == "json"@ {
        Some(Format::JSON)
    } else if extension == "bin"@ {
        Some(Format::BINCODE)
    } else {
        None
    }
}

/// The encoding that a file's extension names: `json` or `bin`.
pub fn format_for_extension(extension: &String) -> (r: Result<Format, Error>)
    ensures
        match spec_format_for_extension(extension@) {
            Some(f) => r == Ok::<Format, Error>(f),
            None => r is Err,
        },
{
    proof {
        reveal_strlit("json");
        reveal_strlit("bin");
    }
    if *extension == "json".to_owned() {
        Ok(Format::JSON)
    } else if *extension == "bin".to_owned() {
        Ok(Format::BINCODE)
    } else {
        Err(Error::simple("could not detect the format for this extension"))
    }
}

/// The encoding of the file at `path`, by its extension.
pub fn format_for_path(path: &str) -> (r: Result<Format, Error>)
    ensures
        match path_extension(path@) {
            Some(e) => match spec_format_for_extension(e) {
                Some(f) => r == Ok::<Format, Error>(f),
                None => r is Err,
            },
            None => r is Err,
        },
{
    match extension_of(path) {
        Some(extension) => format_for_extension(&extension),
        None => Err(Error::simple("could not find an extension")),
    }
}

} // verus!
