//! The content model: a chapter's paragraphs and the two short banner
//! strings, immutable once loaded, plus the plain-text shaping done on the
//! way in — trailing-paragraph stripping and chapter-heading splitting.
use vstd::prelude::*;
use crate::text::join_sep;
use crate::text::join_with;
use crate::text::spec_words;
use crate::text::split_words;

verus! {

/// A loaded chapter: what the reading view shows. Immutable after
/// construction.
pub struct Content {
    /// The novel's title, shown in the help bar.
    pub novel_title: String,
    /// The chapter's ordinal, rendered as a banner.
    pub chapter_number: String,
    /// The chapter's name, rendered as a banner.
    pub chapter_name: String,
    /// The chapter's paragraphs, in reading order; may be empty.
    pub paragraphs: Vec<String>,
}

impl Content {
    /// Assembles a content model from the collaborator output.
    pub fn new(
        novel_title: &str,
        chapter_number: &str,
        chapter_name: &str,
        paragraphs: Vec<String>,
    ) -> (r: Content)
        ensures
            r.novel_title@ == novel_title@,
            r.chapter_number@ == chapter_number@,
            r.chapter_name@ == chapter_name@,
            r.paragraphs == paragraphs,
    {
        Content {
            novel_title: novel_title.to_owned(),
            chapter_number: chapter_number.to_owned(),
            chapter_name: chapter_name.to_owned(),
            paragraphs,
        }
    }
}

/// The text of the content panel before wrapping: the paragraphs joined
/// with one blank line between each pair of neighbours.
pub open spec fn spec_paragraph_text(paragraphs: Seq<Seq<char>>) -> Seq<char> {
    join_sep(paragraphs, seq!['\n', '\n'])
}

/// Joins the paragraphs with a blank-line separator.
pub fn join_paragraphs(paragraphs: &Vec<String>) -> (r: String)
    ensures
        r@ == spec_paragraph_text(paragraphs.deep_view()),
{
    let r = join_with(paragraphs, "\n\n");
    proof {
        reveal_strlit("\n\n");
        assert("\n\n"@ =~= seq!['\n', '\n']);
    }
    r
}

/// Drops the last `n` paragraphs — the boilerplate tail a chapter page
/// carries — keeping everything when fewer than `n` exist.
pub fn strip_trailing(paragraphs: Vec<String>, n: usize) -> (r: Vec<String>)
    ensures
        r.deep_view() == (if paragraphs.deep_view().len() >= n {
            paragraphs.deep_view().take(paragraphs.deep_view().len() - n)
        } else {
            Seq::<Seq<char>>::empty()
        }),
{
    let mut out = paragraphs;
    let keep: usize = if out.len() >= n {
        out.len() - n
    } else {
        0
    };
    let ghost before = out.deep_view();
    out.truncate(keep);
    proof {
        if before.len() >= n {
            assert(out.deep_view() =~= before.take(before.len() - n as int));
        } else {
            assert(out.deep_view() =~= Seq::<Seq<char>>::empty());
        }
    }
    out
}

/// The chapter ordinal read out of a chapter label: its second word, or
/// nothing when the label has fewer than two words.
pub open spec fn spec_heading_number(label: Seq<char>) -> Seq<char> {
    if spec_words(label).len() > 1 {
        spec_words(label)[1]
    } else {
        Seq::empty()
    }
}

/// The chapter name read out of a chapter label: its words from the third
/// on, joined with single spaces, or nothing when there are none.
pub open spec fn spec_heading_name(label: Seq<char>) -> Seq<char> {
    if spec_words(label).len() > 2 {
        join_sep(spec_words(label).skip(2), seq![' '])
    } else {
        Seq::empty()
    }
}

/// Splits a chapter label into the banner pair: the ordinal (second word)
/// and the name (the remaining words).
pub fn split_chapter_heading(label: &str) -> (r: (String, String))
    ensures
        r.0@ == spec_heading_number(label@),
        r.1@ == spec_heading_name(label@),
{
    let words = split_words(label);
    let number: String = if words.len() > 1 {
        let w: &String = &words[1];
        w.clone()
    } else {
        String::new()
    };
    let name: String = if words.len() > 2 {
        let mut tail: Vec<String> = Vec::new();
        let mut i: usize = 2;
        while i < words.len()
            invariant
                2 <= i <= words.len(),
                words.deep_view().len() == words.len(),
                tail.deep_view() == words.deep_view().subrange(2, i as int),
            decreases words.len() - i,
        {
            let w: &String = &words[i];
            let c = w.clone();
            proof {
                assert(c@ == words@[i as int]@);
                assert(words.deep_view()[i as int] == words@[i as int]@);
            }
            let ghost old_deep = tail.deep_view();
            tail.push(c);
            proof {
                assert(tail.deep_view() =~= old_deep.push(c@));
                assert(tail.deep_view() =~= words.deep_view().subrange(2, i + 1 as int));
            }
            i = i + 1;
        }
        proof {
            assert(tail.deep_view() =~= words.deep_view().skip(2));
        }
        let joined = join_with(&tail, " ");
        proof {
            reveal_strlit(" ");
            assert(" "@ =~= seq![' ']);
        }
        joined
    } else {
        String::new()
    };
    (number, name)
}

} // verus!
