//! The listing shown at the end of a search: one line per file, sizes padded to a common
//! width, or a fixed message when nothing was found.

use vstd::prelude::*;
use crate::error::{quote_path, quoted_path};
use crate::order::{finish, shown_for};
use crate::record::{LffConfig, LffFile};

verus! {

/// What is shown when no file was kept.
pub const NO_FILES_FOUND_STR: &'static str = "No files found for the specified arguments!";

/// The widest shown size among `s`, in characters.
pub open spec fn max_width(s: Seq<LffFile>) -> nat
    decreases s.len(),
{
    if s.len() == 0 {
        0
    } else {
        let w = max_width(s.drop_last());
        let l = s.last().formatted_size@.len();
        if l > w {
            l
        } else {
            w
        }
    }
}

/// `t`, with spaces added on the right up to `width` characters.
pub open spec fn padded(t: Seq<char>, width: nat) -> Seq<char> {
    if t.len() >= width {
        t
    } else {
        t + Seq::new((width - t.len()) as nat, |_i: int| ' ')
    }
}

/// The line that shows `f`, with sizes padded to `width`.
pub open spec fn line_of(f: LffFile, width: nat) -> Seq<char> {
    padded(f.formatted_size@, width) + "  "@ + quoted_path(f.name@)
}

/// The width of the size column for `files`.
pub fn size_column_width(files: &Vec<LffFile>) -> (r: usize)
    ensures
        r == max_width(files@),
{
    let mut w: usize = 0;
    let mut i: usize = 0;
    while i < files.len()
        invariant
            i <= files@.len(),
            w == max_width(files@.take(i as int)),
        decreases files.len() - i,
    {
        assert(files@.take(i + 1).drop_last() =~= files@.take(i as int));
        let l = files[i].formatted_size.as_str().unicode_len();
        if l > w {
            w = l;
        }
        i = i + 1;
    }
    assert(files@.take(i as int) =~= files@);
    w
}

/// The line that shows `file`, with sizes padded to `width`.
pub fn format_line(file: &LffFile, width: usize) -> (r: String)
    ensures
        r@ == line_of(*file, width as nat),
{
    let mut line = file.formatted_size.clone();
    let mut n = file.formatted_size.as_str().unicode_len();
    proof {
        reveal_strlit(" ");
    }
    let ghost t = file.formatted_size@;
    while n < width
        invariant
            n as nat >= t.len(),
            n <= width || n == t.len(),
            " "@ == seq![' '],
            line@ == t + Seq::new((n - t.len()) as nat, |_i: int| ' '),
        decreases width - n,
    {
        line.append(" ");
        n = n + 1;
        assert(line@ =~= t + Seq::new((n - t.len()) as nat, |_i: int| ' '));
    }
    proof {
        if t.len() >= width as nat {
            assert(line@ =~= t);
        }
    }
    line.append("  ");
    let q = quote_path(file.name.as_slice());
    line.append(q.as_str());
    line
}

/// The lines that show `files`, sizes padded to `width`; the fixed message if there are none.
pub fn format_lines(files: &Vec<LffFile>, width: usize) -> (r: Vec<String>)
    ensures
        lines_for(r@, files@, width as nat),
{
    let mut lines: Vec<String> = Vec::new();
    if files.len() == 0 {
        lines.push(String::from_str(NO_FILES_FOUND_STR));
        return lines;
    }
    let mut i: usize = 0;
    while i < files.len()
        invariant
            i <= files@.len(),
            lines@.len() == i,
            forall|j: int| 0 <= j < i ==> #[trigger] lines@[j]@ == line_of(files@[j], width as nat),
        decreases files.len() - i,
    {
        lines.push(format_line(&files[i], width));
        i = i + 1;
    }
    lines
}

/// `lines` show `files`, sizes padded to `width`; or they are the fixed message alone when
/// there are no files.
pub open spec fn lines_for(lines: Seq<String>, files: Seq<LffFile>, width: nat) -> bool {
    &&& files.len() == 0 ==> lines.len() == 1 && lines[0]@ == NO_FILES_FOUND_STR@
    &&& files.len() > 0 ==> lines.len() == files.len() && forall|i: int|
        0 <= i < lines.len() ==> #[trigger] lines[i]@ == line_of(files[i], width)
}

/// What a search shows for the files it kept: the files that `finish` lets through, each on a
/// line, with the size column as wide as the widest size among all the files kept, shown or
/// not; or the fixed message when none are left to show.
pub fn present(files: Vec<LffFile>, config: &LffConfig) -> (r: Vec<String>)
    ensures
        exists|shown: Seq<LffFile>|
            shown_for(shown, files@, *config) && #[trigger] lines_for(r@, shown, max_width(files@)),
{
    let ghost all = files@;
    let width = size_column_width(&files);
    let shown = finish(files, config);
    let lines = format_lines(&shown, width);
    assert(lines_for(lines@, shown@, max_width(all)));
    lines
}

} // verus!
