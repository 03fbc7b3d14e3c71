//! Article preview: a truncated rendering of an article, holding only the
//! first lines of the file, each followed by a newline.

use vstd::prelude::*;
use vstd::string::StringExecFns;
use crate::article_list::views_of;

verus! {

/// The line-count bound the accumulating loop compares against; the loop
/// keeps a line while its counter is at most this bound, so a preview
/// holds up to `PREVIEW_LINES + 1` lines.
pub const PREVIEW_LINES: usize = 9;

/// The given lines joined, each line followed by a newline.
pub open spec fn lines_text(ls: Seq<Seq<char>>) -> Seq<char>
    decreases ls.len(),
{
    if ls.len() == 0 {
        Seq::empty()
    } else {
        lines_text(ls.drop_last()) + ls.last() + seq!['\n']
    }
}

/// What a preview shows of a file with the given lines: the whole file if
/// it has at most `PREVIEW_LINES + 1` lines, else exactly the first
/// `PREVIEW_LINES + 1` of them, newline-joined.
pub open spec fn preview_text(ls: Seq<Seq<char>>) -> Seq<char> {
    if ls.len() <= PREVIEW_LINES + 1 {
        lines_text(ls)
    } else {
        lines_text(ls.take(PREVIEW_LINES + 1))
    }
}

/// Builds the preview body from a file's lines.
pub fn preview(lines: &Vec<String>) -> (r: String)
    ensures
        r@ == preview_text(views_of(lines@)),
{
    let mut buf = String::new();
    let mut i: usize = 0;
    proof {
        reveal_strlit("\n");
        assert(views_of(lines@).take(0) =~= Seq::<Seq<char>>::empty());
    }
    while i < lines.len() && i <= PREVIEW_LINES
        invariant
            i <= lines@.len(),
            i <= PREVIEW_LINES + 1,
            buf@ == lines_text(views_of(lines@).take(i as int)),
        decreases lines@.len() - i,
    {
        buf.append(lines[i].as_str());
        buf.append("\n");
        proof {
            reveal_strlit("\n");
            let lv = views_of(lines@);
            assert(lv.take(i + 1).drop_last() =~= lv.take(i as int));
            assert(lv.take(i + 1).last() == lines@[i as int]@);
            assert("\n"@ =~= seq!['\n']);
            assert(buf@ =~= lines_text(lv.take(i + 1)));
        }
        i = i + 1;
    }
    proof {
        if lines@.len() <= PREVIEW_LINES + 1 {
            assert(views_of(lines@).take(i as int) =~= views_of(lines@));
        }
    }
    buf
}

/// A file of at most `PREVIEW_LINES + 1` lines is previewed in full: the
/// preview is the whole file, newline-joined.
pub proof fn lemma_preview_short(ls: Seq<Seq<char>>)
    requires
        ls.len() <= PREVIEW_LINES + 1,
    ensures
        preview_text(ls) == lines_text(ls),
{
}

/// A longer file is previewed as exactly its first `PREVIEW_LINES + 1`
/// lines, newline-joined, and nothing more.
pub proof fn lemma_preview_long(ls: Seq<Seq<char>>)
    requires
        ls.len() > PREVIEW_LINES + 1,
    ensures
        preview_text(ls) == lines_text(ls.take(PREVIEW_LINES + 1)),
        ls.take(PREVIEW_LINES + 1).len() == PREVIEW_LINES + 1,
{
}

} // verus!
