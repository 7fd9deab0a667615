//! The lines that show the main attributes of a track's tag.

use vstd::prelude::*;
use vstd::string::*;

use crate::text::views;
use crate::TagAttributes;

verus! {

/// A line of the tag's information: the label, ": ", and the value, or
/// "None" where the tag holds none.
pub open spec fn info_line(label: Seq<char>, value: Option<String>) -> Seq<char> {
    label + ": "@ + match value {
        Some(s) => s@,
        None => "None"@,
    }
}

fn info_line_exec(label: &str, value: &Option<String>) -> (r: String)
    ensures
        r@ == info_line(label@, *value),
{
    let mut line = String::from_str(label);
    line.append(": ");
    match value {
        Some(s) => line.append(s.as_str()),
        None => line.append("None"),
    }
    line
}

/// The lines that show a tag: a heading, then its title, artist, album,
/// album artist, genre, and its album artist once more.
pub fn tag_info_lines(tag: &TagAttributes) -> (r: Vec<String>)
    ensures
        views(r@) == seq![
            "==== Tag Info ===="@,
            info_line("Title"@, tag.title),
            info_line("Artist"@, tag.artist),
            info_line("Album"@, tag.album),
            info_line("Album Artist"@, tag.album_artist),
            info_line("Genre"@, tag.genre),
            info_line("Album Artist"@, tag.album_artist),
        ],
{
    let lines = vec![
        String::from_str("==== Tag Info ===="),
        info_line_exec("Title", &tag.title),
        info_line_exec("Artist", &tag.artist),
        info_line_exec("Album", &tag.album),
        info_line_exec("Album Artist", &tag.album_artist),
        info_line_exec("Genre", &tag.genre),
        info_line_exec("Album Artist", &tag.album_artist),
    ];
    assert(views(lines@) =~= seq![
        "==== Tag Info ===="@,
        info_line("Title"@, tag.title),
        info_line("Artist"@, tag.artist),
        info_line("Album"@, tag.album),
        info_line("Album Artist"@, tag.album_artist),
        info_line("Genre"@, tag.genre),
        info_line("Album Artist"@, tag.album_artist),
    ]);
    lines
}

} // verus!
