//! Saving text copied from a web page.

use vstd::prelude::*;
use crate::subtitle::{sanitize_filename, sanitized};
use crate::text::{lf_lines, push_str, text_lines, trim, trim_str, views};

verus! {

/// Why copied text could not be saved.
#[derive(Debug)]
pub enum NoteError {
    /// The clipboard holds nothing but white space.
    Empty,
}

/// A text to save: its file name and its content.
pub struct Note {
    pub file_name: String,
    pub content: String,
}

/// The first line that is not blank once trimmed, trimmed.
pub open spec fn first_nonblank(ls: Seq<Seq<char>>) -> Option<Seq<char>>
    decreases ls.len(),
{
    if ls.len() == 0 {
        None
    } else if trim(ls[0]).len() > 0 {
        Some(trim(ls[0]))
    } else {
        first_nonblank(ls.drop_first())
    }
}

/// The title of copied text: its first non-blank line, or `知乎文本`.
pub open spec fn note_title(text: Seq<char>) -> Seq<char> {
    match first_nonblank(lf_lines(text)) {
        Some(t) => t,
        None => "知乎文本"@,
    }
}

fn first_nonblank_of(ls: &Vec<String>) -> (r: Option<String>)
    ensures
        r is Some <==> first_nonblank(views(ls@)) is Some,
        r matches Some(t) ==> first_nonblank(views(ls@)) == Some(t@),
{
    let mut i: usize = 0;
    assert(views(ls@).subrange(0, ls@.len() as int) == views(ls@));
    while i < ls.len()
        invariant
            i <= ls@.len(),
            first_nonblank(views(ls@)) == first_nonblank(views(ls@).subrange(i as int, ls@.len() as int)),
        decreases ls.len() - i,
    {
        let ghost rest = views(ls@).subrange(i as int, ls@.len() as int);
        assert(rest.drop_first() == views(ls@).subrange(i + 1, ls@.len() as int));
        assert(rest[0] == ls@[i as int]@);
        let t = trim_str(ls[i].as_str());
        if !t.as_str().is_empty() {
            return Some(t);
        }
        i = i + 1;
    }
    None
}

/// The note made from copied text: refused when the text is blank; otherwise
/// the trimmed text, saved under its title (made usable as a file name) with
/// `.txt` appended.
pub fn clipboard_note(text: &str) -> (r: Result<Note, NoteError>)
    ensures
        trim(text@).len() == 0 <==> r is Err,
        r matches Ok(n) ==> n.content@ == trim(text@) && n.file_name@ == sanitized(
            note_title(trim(text@)),
        ) + ".txt"@,
{
    let t = trim_str(text);
    if t.as_str().is_empty() {
        return Err(NoteError::Empty);
    }
    let lines = text_lines(t.as_str());
    let title = match first_nonblank_of(&lines) {
        Some(x) => x,
        None => {
            let mut d = String::new();
            push_str(&mut d, "知乎文本");
            d
        },
    };
    let mut file_name = sanitize_filename(title.as_str());
    push_str(&mut file_name, ".txt");
    Ok(Note { file_name, content: t })
}

} // verus!
