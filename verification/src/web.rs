//! Shaping of collaborator output on the way into the view: the search URL
//! built from a novel name, the chapter-archive URL derived from a title,
//! and the filtering of extracted title and chapter lists.
use vstd::prelude::*;
use crate::text::chars_to_string;
use crate::text::join_sep;
use crate::text::join_with;
use crate::text::spec_trim;
use crate::text::spec_words;
use crate::text::split_words;
use crate::text::trim_spaces;

verus! {

/// What `str::to_lowercase` returns: a function of the characters alone.
pub uninterp spec fn lower_of(s: Seq<char>) -> Seq<char>;

/// Relies on str::to_lowercase: the lowercase mapping of a string depends
/// on its characters alone, and an empty string stays empty.
#[verifier::external_body]
fn to_lowercase(s: &str) -> (r: String)
    ensures
        r@ == lower_of(s@),
        s@.len() == 0 ==> r@.len() == 0,
{
    s.to_lowercase()
}

/// The search URL for a novel name: its whitespace-separated words joined
/// with `+` behind the search endpoint.
pub open spec fn spec_search_url(name: Seq<char>) -> Seq<char> {
    "https://novelbin.me/search?keyword="@ + join_sep(spec_words(name), seq!['+'])
}

/// Builds the search URL for a free-text novel name.
pub fn build_search_url(novel_name: &str) -> (r: String)
    ensures
        r@ == spec_search_url(novel_name@),
{
    let words = split_words(novel_name);
    let query = join_with(&words, "+");
    proof {
        reveal_strlit("+");
        assert("+"@ =~= seq!['+']);
    }
    let url = String::from_str("https://novelbin.me/search?keyword=").concat(query.as_str());
    url
}

/// One character of a title on its way into the URL slug: the characters
/// `(`, `)` and `:` are dropped, a space becomes a dash, the rest stay.
pub open spec fn slug_chars(s: Seq<char>) -> Seq<char>
    decreases s.len(),
{
    if s.len() == 0 {
        Seq::empty()
    } else {
        let rest = slug_chars(s.drop_last());
        let c = s.last();
        if c == '(' || c == ')' || c == ':' {
            rest
        } else if c == ' ' {
            rest.push('-')
        } else {
            rest.push(c)
        }
    }
}

/// The chapter-archive URL a title points to: the slug of its lowercase
/// form behind the archive endpoint.
pub open spec fn spec_archive_url(title: Seq<char>) -> Seq<char> {
    "https://novelbin.me/ajax/chapter-archive?novelId="@ + slug_chars(lower_of(title))
}

/// Derives the chapter-archive URL from a novel title.
pub fn archive_url_for_title(title: &str) -> (r: String)
    ensures
        r@ == spec_archive_url(title@),
{
    let lower = to_lowercase(title);
    let n = lower.as_str().unicode_len();
    let mut slug = String::new();
    let mut i: usize = 0;
    while i < n
        invariant
            n == lower@.len(),
            0 <= i <= n,
            slug@ == slug_chars(lower@.take(i as int)),
        decreases n - i,
    {
        let c = lower.as_str().get_char(i);
        if c == '(' || c == ')' || c == ':' {
        } else if c == ' ' {
            slug.append("-");
            proof {
                reveal_strlit("-");
            }
        } else {
            let mut one: Vec<char> = Vec::new();
            one.push(c);
            let piece = chars_to_string(&one);
            slug.append(piece.as_str());
        }
        proof {
            let pre = lower@.take(i as int);
            let post = lower@.take(i + 1 as int);
            assert(post.drop_last() =~= pre);
            assert(post.last() == lower@[i as int]);
        }
        i = i + 1;
    }
    proof {
        assert(lower@.take(n as int) =~= lower@);
    }
    String::from_str("https://novelbin.me/ajax/chapter-archive?novelId=").concat(slug.as_str())
}

/// The titles kept from a search-results extraction: each trimmed, the
/// empty ones dropped, order preserved.
pub open spec fn spec_kept_titles(raw: Seq<Seq<char>>) -> Seq<Seq<char>>
    decreases raw.len(),
{
    if raw.len() == 0 {
        Seq::empty()
    } else {
        let rest = spec_kept_titles(raw.drop_last());
        let t = spec_trim(raw.last());
        if t.len() == 0 {
            rest
        } else {
            rest.push(t)
        }
    }
}

/// Turns the raw title texts of a search-results page into the selection
/// list and its chapter-archive links: titles are trimmed, empty ones are
/// dropped, and each kept title yields the archive URL of its slug.
pub fn search_entries(raw_titles: &Vec<String>) -> (r: (Vec<String>, Vec<String>))
    ensures
        r.0.deep_view() == spec_kept_titles(raw_titles.deep_view()),
        r.1.deep_view() == spec_kept_titles(raw_titles.deep_view()).map_values(
            |t: Seq<char>| spec_archive_url(t),
        ),
{
    let mut titles: Vec<String> = Vec::new();
    let mut links: Vec<String> = Vec::new();
    let mut i: usize = 0;
    while i < raw_titles.len()
        invariant
            0 <= i <= raw_titles.len(),
            raw_titles.deep_view().len() == raw_titles.len(),
            titles.deep_view() == spec_kept_titles(raw_titles.deep_view().take(i as int)),
            links.deep_view() == spec_kept_titles(raw_titles.deep_view().take(i as int)).map_values(
                |t: Seq<char>| spec_archive_url(t),
            ),
        decreases raw_titles.len() - i,
    {
        proof {
            assert(raw_titles.deep_view()[i as int] == raw_titles@[i as int]@);
        }
        let title = trim_spaces(raw_titles[i].as_str());
        proof {
            let pre = raw_titles.deep_view().take(i as int);
            let post = raw_titles.deep_view().take(i + 1 as int);
            assert(post.drop_last() =~= pre);
            assert(post.last() == raw_titles.deep_view()[i as int]);
        }
        if title.as_str().unicode_len() > 0 {
            let link = archive_url_for_title(title.as_str());
            let ghost old_titles = titles.deep_view();
            let ghost old_links = links.deep_view();
            titles.push(title);
            links.push(link);
            proof {
                let post = raw_titles.deep_view().take(i + 1 as int);
                assert(titles.deep_view() =~= old_titles.push(spec_trim(post.last())));
                assert(links.deep_view() =~= old_links.push(
                    spec_archive_url(spec_trim(post.last())),
                ));
                assert(links.deep_view() =~= spec_kept_titles(post).map_values(
                    |t: Seq<char>| spec_archive_url(t),
                ));
            }
        }
        i = i + 1;
    }
    proof {
        assert(raw_titles.deep_view().take(raw_titles.deep_view().len() as int) =~= raw_titles.deep_view());
    }
    (titles, links)
}

/// The chapter entries kept from a chapter-archive extraction: a pair is
/// kept where the trimmed label is non-empty; the label is trimmed, its
/// link kept as extracted.
pub open spec fn spec_kept_chapters(labels: Seq<Seq<char>>, links: Seq<Seq<char>>) -> (Seq<
    Seq<char>,
>, Seq<Seq<char>>)
    recommends
        labels.len() == links.len(),
    decreases labels.len(),
{
    if labels.len() == 0 || links.len() == 0 {
        (Seq::empty(), Seq::empty())
    } else {
        let rest = spec_kept_chapters(labels.drop_last(), links.drop_last());
        let t = spec_trim(labels.last());
        if t.len() == 0 {
            rest
        } else {
            (rest.0.push(t), rest.1.push(links.last()))
        }
    }
}

/// Turns the raw label/link pairs of a chapter-archive page into the
/// selection list: labels are trimmed and pairs with an empty label are
/// dropped, keeping labels and links aligned.
pub fn chapter_entries(raw_labels: &Vec<String>, raw_links: &Vec<String>) -> (r: (
    Vec<String>,
    Vec<String>,
))
    requires
        raw_labels.len() == raw_links.len(),
    ensures
        (r.0.deep_view(), r.1.deep_view()) == spec_kept_chapters(
            raw_labels.deep_view(),
            raw_links.deep_view(),
        ),
{
    let mut labels: Vec<String> = Vec::new();
    let mut links: Vec<String> = Vec::new();
    let mut i: usize = 0;
    while i < raw_labels.len()
        invariant
            0 <= i <= raw_labels.len(),
            raw_labels.len() == raw_links.len(),
            raw_labels.deep_view().len() == raw_labels.len(),
            raw_links.deep_view().len() == raw_links.len(),
            (labels.deep_view(), links.deep_view()) == spec_kept_chapters(
                raw_labels.deep_view().take(i as int),
                raw_links.deep_view().take(i as int),
            ),
        decreases raw_labels.len() - i,
    {
        proof {
            assert(raw_labels.deep_view()[i as int] == raw_labels@[i as int]@);
            assert(raw_links.deep_view()[i as int] == raw_links@[i as int]@);
            let pre_a = raw_labels.deep_view().take(i as int);
            let post_a = raw_labels.deep_view().take(i + 1 as int);
            let pre_b = raw_links.deep_view().take(i as int);
            let post_b = raw_links.deep_view().take(i + 1 as int);
            assert(post_a.drop_last() =~= pre_a);
            assert(post_b.drop_last() =~= pre_b);
            assert(post_a.last() == raw_labels.deep_view()[i as int]);
            assert(post_b.last() == raw_links.deep_view()[i as int]);
        }
        let label = trim_spaces(raw_labels[i].as_str());
        if label.as_str().unicode_len() > 0 {
            let ghost old_labels = labels.deep_view();
            let ghost old_links = links.deep_view();
            labels.push(label);
            links.push(raw_links[i].clone());
            proof {
                assert(labels.deep_view() =~= old_labels.push(
                    spec_trim(raw_labels.deep_view()[i as int]),
                ));
                assert(links.deep_view() =~= old_links.push(raw_links.deep_view()[i as int]));
            }
        }
        i = i + 1;
    }
    proof {
        assert(raw_labels.deep_view().take(raw_labels.deep_view().len() as int)
            =~= raw_labels.deep_view());
        assert(raw_links.deep_view().take(raw_links.deep_view().len() as int)
            =~= raw_links.deep_view());
    }
    (labels, links)
}

} // verus!
