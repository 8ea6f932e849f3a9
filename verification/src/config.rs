//! Command-line settings that several commands share: where the databases
//! are, and how the editor renders its cards.

use vstd::prelude::*;
use crate::names::{default_editor_db, join_path, joined};
use crate::text::{chars_of, same_chars, string_of};

verus! {

/// How the editor produces its on-demand card images.
pub struct RenderCfg {
    pub assets: String,
    pub cache: String,
    pub chrome: String,
    pub backend: Option<String>,
    /// The source card database, for adding cards by name.
    pub source_db: String,
    /// The frame style: `seventh` (old frame) or `8th` (modern).
    pub frame: String,
}

/// The names that select the modern (8th Edition) frame.
pub open spec fn eighth_frame(frame: Seq<char>) -> bool {
    frame == "8th"@ || frame == "8ed"@ || frame == "8ED"@ || frame == "eighth"@
}

impl RenderCfg {
    /// Whether this editor renders the modern frame.
    pub fn is_eighth(&self) -> (b: bool)
        ensures
            b == eighth_frame(self.frame@),
    {
        let f = chars_of(self.frame.as_str());
        same_chars(&f, &chars_of("8th")) || same_chars(&f, &chars_of("8ed")) || same_chars(
            &f,
            &chars_of("8ED"),
        ) || same_chars(&f, &chars_of("eighth"))
    }
}

/// The options every render command takes.
pub struct RenderCommon {
    /// The editor database to read (default: in the data directory).
    pub editor_db: Option<String>,
    pub assets: String,
    pub cache: String,
    pub chrome: String,
    pub art_backend: Option<String>,
    /// Also render the foil variant.
    pub foil: bool,
    /// Render again even when the cached render is current.
    pub force: bool,
}

impl RenderCommon {
    /// The editor database: the one given, else the default in `data_dir`.
    pub fn editor_db_path(&self, data_dir: &str) -> (res: String)
        ensures
            res@ == match self.editor_db {
                Some(p) => p@,
                None => joined(data_dir@, "cube_editor.sqlite"@),
            },
    {
        match &self.editor_db {
            Some(p) => string_of(&chars_of(p.as_str())),
            None => default_editor_db(data_dir),
        }
    }
}

/// The card database: the one given, else `mtg.sqlite` in `data_dir`.
pub fn card_db_path(db: &Option<String>, data_dir: &str) -> (res: String)
    ensures
        res@ == match db {
            Some(p) => p@,
            None => joined(data_dir@, "mtg.sqlite"@),
        },
{
    match db {
        Some(p) => string_of(&chars_of(p.as_str())),
        None => join_path(data_dir, "mtg.sqlite"),
    }
}

} // verus!
