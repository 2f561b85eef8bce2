//! Plain-text helpers the reading view is built from: splitting a string
//! into whitespace-separated words, joining pieces with a separator,
//! trimming, splitting into lines, greedy width-bounded wrapping, and
//! rendering small decimal numbers.
use vstd::prelude::*;

verus! {

/// The whitespace characters the splitter and trimmer recognise: the
/// Unicode White_Space set, as `char::is_whitespace` and `str::trim` use
/// it — the ASCII spaces, next-line, no-break space, ogham space mark, the
/// en-quad..hair-space run, the line and paragraph separators, the narrow
/// no-break and medium mathematical spaces, and the ideographic space.
pub open spec fn is_space(c: char) -> bool {
    let u = c as u32;
    (0x09 <= u && u <= 0x0D) || u == 0x20 || u == 0x85 || u == 0xA0 || u == 0x1680 || (0x2000 <= u
        && u <= 0x200A) || u == 0x2028 || u == 0x2029 || u == 0x202F || u == 0x205F || u == 0x3000
}

/// Executable twin of `is_space`.
pub fn is_space_char(c: char) -> (r: bool)
    ensures
        r == is_space(c),
{
    let u = c as u32;
    (0x09 <= u && u <= 0x0D) || u == 0x20 || u == 0x85 || u == 0xA0 || u == 0x1680 || (0x2000 <= u
        && u <= 0x200A) || u == 0x2028 || u == 0x2029 || u == 0x202F || u == 0x205F || u == 0x3000
}

/// Index just past the word that starts at `i`: the first position at or
/// after `i` that is out of range or holds whitespace.
pub open spec fn word_end_from(s: Seq<char>, i: int) -> int
    decreases s.len() - i,
{
    if i < 0 || i >= s.len() || is_space(s[i]) {
        i
    } else {
        word_end_from(s, i + 1)
    }
}

/// `word_end_from` stays within bounds and spans only non-whitespace.
pub proof fn lemma_word_end_bounds(s: Seq<char>, i: int)
    requires
        0 <= i <= s.len(),
    ensures
        i <= word_end_from(s, i) <= s.len(),
        word_end_from(s, i) < s.len() ==> is_space(s[word_end_from(s, i)]),
        forall|k: int| i <= k < word_end_from(s, i) ==> !is_space(s[k]),
    decreases s.len() - i,
{
    if i < s.len() && !is_space(s[i]) {
        lemma_word_end_bounds(s, i + 1);
    }
}

/// The whitespace-separated words of `s`, scanning from position `i`.
pub open spec fn words_from(s: Seq<char>, i: int) -> Seq<Seq<char>>
    decreases s.len() - i,
    via words_from_dec
{
    if i < 0 || i >= s.len() {
        Seq::empty()
    } else if is_space(s[i]) {
        words_from(s, i + 1)
    } else {
        seq![s.subrange(i, word_end_from(s, i))] + words_from(s, word_end_from(s, i))
    }
}

#[via_fn]
proof fn words_from_dec(s: Seq<char>, i: int) {
    if 0 <= i < s.len() && !is_space(s[i]) {
        lemma_word_end_bounds(s, i);
    }
}

/// The whitespace-separated words of a whole string.
pub open spec fn spec_words(s: Seq<char>) -> Seq<Seq<char>> {
    words_from(s, 0)
}

/// Splits `s` into its whitespace-separated words, in order.
pub fn split_words(s: &str) -> (r: Vec<String>)
    ensures
        r.deep_view() == spec_words(s@),
{
    let n = s.unicode_len();
    let mut words: Vec<String> = Vec::new();
    let mut i: usize = 0;
    while i < n
        invariant
            n == s@.len(),
            0 <= i <= n,
            words.deep_view() + words_from(s@, i as int) == words_from(s@, 0),
        decreases n - i,
    {
        if is_space_char(s.get_char(i)) {
            i = i + 1;
        } else {
            let start = i;
            let mut j = i + 1;
            while j < n && !is_space_char(s.get_char(j))
                invariant
                    n == s@.len(),
                    start < j <= n,
                    word_end_from(s@, start as int) == word_end_from(s@, j as int),
                decreases n - j,
            {
                j = j + 1;
            }
            proof {
                assert(word_end_from(s@, j as int) == j as int);
            }
            let piece = s.substring_char(start, j).to_owned();
            let ghost old_deep = words.deep_view();
            words.push(piece);
            proof {
                assert(words.deep_view() =~= old_deep.push(s@.subrange(start as int, j as int)));
                assert(words_from(s@, start as int) =~= seq![
                    s@.subrange(start as int, word_end_from(s@, start as int)),
                ] + words_from(s@, word_end_from(s@, start as int)));
                assert(words.deep_view() + words_from(s@, j as int) =~= old_deep + words_from(
                    s@,
                    start as int,
                ));
            }
            i = j;
        }
    }
    words
}

/// The pieces joined with `sep` between each pair of neighbours.
pub open spec fn join_sep(pieces: Seq<Seq<char>>, sep: Seq<char>) -> Seq<char>
    decreases pieces.len(),
{
    if pieces.len() == 0 {
        Seq::empty()
    } else if pieces.len() == 1 {
        pieces[0]
    } else {
        join_sep(pieces.drop_last(), sep) + sep + pieces.last()
    }
}

/// Joins the pieces with `sep` between each pair of neighbours.
pub fn join_with(pieces: &Vec<String>, sep: &str) -> (r: String)
    ensures
        r@ == join_sep(pieces.deep_view(), sep@),
{
    let mut out = String::new();
    let mut i: usize = 0;
    while i < pieces.len()
        invariant
            0 <= i <= pieces.deep_view().len(),
            pieces.deep_view().len() == pieces.len(),
            out@ == join_sep(pieces.deep_view().take(i as int), sep@),
        decreases pieces.len() - i,
    {
        if i > 0 {
            out.append(sep);
        }
        out.append(pieces[i].as_str());
        proof {
            let pre = pieces.deep_view().take(i as int);
            let post = pieces.deep_view().take(i + 1 as int);
            assert(post.drop_last() =~= pre);
            assert(post.last() == pieces.deep_view()[i as int]);
            if i == 0 {
                assert(out@ =~= join_sep(post, sep@));
            }
        }
        i = i + 1;
    }
    proof {
        assert(pieces.deep_view().take(pieces.deep_view().len() as int) =~= pieces.deep_view());
    }
    out
}

/// `s` with its leading whitespace removed.
pub open spec fn trim_start(s: Seq<char>) -> Seq<char>
    decreases s.len(),
{
    if s.len() > 0 && is_space(s[0]) {
        trim_start(s.drop_first())
    } else {
        s
    }
}

/// `s` with its trailing whitespace removed.
pub open spec fn trim_end(s: Seq<char>) -> Seq<char>
    decreases s.len(),
{
    if s.len() > 0 && is_space(s.last()) {
        trim_end(s.drop_last())
    } else {
        s
    }
}

/// `s` with whitespace removed from both ends.
pub open spec fn spec_trim(s: Seq<char>) -> Seq<char> {
    trim_end(trim_start(s))
}

/// Removes leading and trailing whitespace.
pub fn trim_spaces(s: &str) -> (r: String)
    ensures
        r@ == spec_trim(s@),
{
    let n = s.unicode_len();
    proof {
        assert(s@.subrange(0, n as int) =~= s@);
    }
    let mut i: usize = 0;
    while i < n && is_space_char(s.get_char(i))
        invariant
            n == s@.len(),
            0 <= i <= n,
            trim_start(s@) == trim_start(s@.subrange(i as int, n as int)),
        decreases n - i,
    {
        proof {
            let cur = s@.subrange(i as int, n as int);
            assert(cur.drop_first() =~= s@.subrange(i + 1 as int, n as int));
        }
        i = i + 1;
    }
    proof {
        assert(trim_start(s@) == s@.subrange(i as int, n as int));
    }
    let mut j = n;
    while j > i && is_space_char(s.get_char(j - 1))
        invariant
            n == s@.len(),
            i <= j <= n,
            trim_end(s@.subrange(i as int, n as int)) == trim_end(s@.subrange(i as int, j as int)),
        decreases j,
    {
        proof {
            let cur = s@.subrange(i as int, j as int);
            assert(cur.drop_last() =~= s@.subrange(i as int, j - 1 as int));
        }
        j = j - 1;
    }
    proof {
        assert(trim_end(s@.subrange(i as int, j as int)) == s@.subrange(i as int, j as int));
    }
    s.substring_char(i, j).to_owned()
}

/// Index of the newline that ends the line starting at `i`, or the end of
/// the text where no newline follows.
pub open spec fn line_end_from(s: Seq<char>, i: int) -> int
    decreases s.len() - i,
{
    if i < 0 || i >= s.len() || s[i] == '\n' {
        i
    } else {
        line_end_from(s, i + 1)
    }
}

/// `line_end_from` stays within bounds and spans no newline.
pub proof fn lemma_line_end_bounds(s: Seq<char>, i: int)
    requires
        0 <= i <= s.len(),
    ensures
        i <= line_end_from(s, i) <= s.len(),
        line_end_from(s, i) < s.len() ==> s[line_end_from(s, i)] == '\n',
        forall|k: int| i <= k < line_end_from(s, i) ==> s[k] != '\n',
    decreases s.len() - i,
{
    if i < s.len() && s[i] != '\n' {
        lemma_line_end_bounds(s, i + 1);
    }
}

/// The newline-separated lines of `s` from position `i` on, empty lines
/// kept: a trailing newline yields a final empty line.
pub open spec fn lines_from(s: Seq<char>, i: int) -> Seq<Seq<char>>
    decreases s.len() - i,
    via lines_from_dec
{
    if i < 0 || i > s.len() {
        Seq::empty()
    } else {
        let e = line_end_from(s, i);
        if e < s.len() {
            seq![s.subrange(i, e)] + lines_from(s, e + 1)
        } else {
            seq![s.subrange(i, e)]
        }
    }
}

#[via_fn]
proof fn lines_from_dec(s: Seq<char>, i: int) {
    if 0 <= i <= s.len() {
        lemma_line_end_bounds(s, i);
    }
}

/// The newline-separated lines of a whole string.
pub open spec fn spec_lines(s: Seq<char>) -> Seq<Seq<char>> {
    lines_from(s, 0)
}

/// Splits `s` at each newline, keeping empty lines.
pub fn split_lines(s: &str) -> (r: Vec<String>)
    ensures
        r.deep_view() == spec_lines(s@),
{
    let n = s.unicode_len();
    let mut lines: Vec<String> = Vec::new();
    let mut i: usize = 0;
    loop
        invariant
            n == s@.len(),
            0 <= i <= n,
            lines.deep_view() + lines_from(s@, i as int) == lines_from(s@, 0),
        decreases n - i,
    {
        let mut j = i;
        while j < n && s.get_char(j) != '\n'
            invariant
                n == s@.len(),
                i <= j <= n,
                line_end_from(s@, i as int) == line_end_from(s@, j as int),
            decreases n - j,
        {
            j = j + 1;
        }
        proof {
            assert(line_end_from(s@, j as int) == j as int);
        }
        let piece = s.substring_char(i, j).to_owned();
        let ghost old_deep = lines.deep_view();
        lines.push(piece);
        proof {
            assert(lines.deep_view() =~= old_deep.push(s@.subrange(i as int, j as int)));
        }
        if j < n {
            proof {
                assert(lines.deep_view() + lines_from(s@, j + 1 as int) =~= old_deep + lines_from(
                    s@,
                    i as int,
                ));
            }
            i = j + 1;
        } else {
            proof {
                assert(lines_from(s@, i as int) =~= seq![s@.subrange(i as int, j as int)]);
                assert(lines.deep_view() =~= lines_from(s@, 0));
            }
            return lines;
        }
    }
}

/// Joining distributes over a piece put in front.
pub proof fn lemma_join_prepend(a: Seq<char>, pieces: Seq<Seq<char>>, sep: Seq<char>)
    requires
        pieces.len() > 0,
    ensures
        join_sep(seq![a] + pieces, sep) == a + sep + join_sep(pieces, sep),
    decreases pieces.len(),
{
    if pieces.len() == 1 {
        assert((seq![a] + pieces).drop_last() =~= seq![a]);
        assert((seq![a] + pieces).last() == pieces[0]);
        assert(join_sep(seq![a], sep) == a);
        assert(join_sep(pieces, sep) == pieces[0]);
        assert(join_sep(seq![a] + pieces, sep) =~= a + sep + join_sep(pieces, sep));
    } else {
        lemma_join_prepend(a, pieces.drop_last(), sep);
        assert((seq![a] + pieces).drop_last() =~= seq![a] + pieces.drop_last());
        assert((seq![a] + pieces).last() == pieces.last());
        assert(join_sep(seq![a] + pieces, sep) =~= a + sep + join_sep(pieces, sep));
    }
}

/// `lines_from` splits without loss: rejoined with newlines, the lines give
/// back the text from the scan position on.
pub proof fn lemma_lines_from_roundtrip(s: Seq<char>, i: int)
    requires
        0 <= i <= s.len(),
    ensures
        join_sep(lines_from(s, i), seq!['\n']) == s.subrange(i, s.len() as int),
    decreases s.len() - i,
{
    lemma_line_end_bounds(s, i);
    let e = line_end_from(s, i);
    if e < s.len() {
        lemma_lines_from_roundtrip(s, e + 1);
        assert(lines_from(s, e + 1).len() > 0);
        lemma_join_prepend(s.subrange(i, e), lines_from(s, e + 1), seq!['\n']);
        assert(s.subrange(i, e) + seq!['\n'] + s.subrange(e + 1, s.len() as int) =~= s.subrange(
            i,
            s.len() as int,
        ));
    } else {
        assert(lines_from(s, i) =~= seq![s.subrange(i, e)]);
    }
}

/// Law: splitting a text at its newlines loses nothing — the lines, joined
/// with newlines again, are the text.
pub proof fn lemma_lines_roundtrip(s: Seq<char>)
    ensures
        join_sep(spec_lines(s), seq!['\n']) == s,
    decreases s.len(),
{
    lemma_lines_from_roundtrip(s, 0);
    assert(s.subrange(0, s.len() as int) =~= s);
}

/// Position of the last whitespace character strictly before `k`, or -1.
pub open spec fn last_space_before(s: Seq<char>, k: int) -> int
    decreases k,
{
    if k <= 0 {
        -1
    } else if is_space(s[k - 1]) {
        k - 1
    } else {
        last_space_before(s, k - 1)
    }
}

/// `last_space_before` stays within bounds and names a whitespace position.
pub proof fn lemma_last_space_bounds(s: Seq<char>, k: int)
    requires
        0 <= k <= s.len(),
    ensures
        -1 <= last_space_before(s, k) < k,
        last_space_before(s, k) >= 0 ==> is_space(s[last_space_before(s, k)]),
    decreases k,
{
    if k > 0 && !is_space(s[k - 1]) {
        lemma_last_space_bounds(s, k - 1);
    }
}

/// Where a line longer than `w` breaks: after the last whitespace that fits,
/// at the width itself when the next character is whitespace anyway, or hard
/// at the width when one unbroken word fills the whole window.
pub open spec fn break_pos(s: Seq<char>, w: int) -> int {
    if is_space(s[w]) {
        w
    } else if last_space_before(s, w) >= 0 {
        last_space_before(s, w) + 1
    } else {
        w
    }
}

/// The break position of an over-long line is at least 1 and at most `w`.
pub proof fn lemma_break_pos_bounds(s: Seq<char>, w: int)
    requires
        1 <= w < s.len(),
    ensures
        1 <= break_pos(s, w) <= w,
{
    lemma_last_space_bounds(s, w);
}

/// Greedy wrap of a single newline-free line to width `w`: each piece is at
/// most `w` characters and their concatenation is exactly `s`.
pub open spec fn wrap_line(s: Seq<char>, w: int) -> Seq<Seq<char>>
    decreases s.len(),
    via wrap_line_dec
{
    if w < 1 || s.len() <= w {
        seq![s]
    } else {
        seq![s.take(break_pos(s, w))] + wrap_line(s.skip(break_pos(s, w)), w)
    }
}

#[via_fn]
proof fn wrap_line_dec(s: Seq<char>, w: int) {
    if w >= 1 && s.len() > w {
        lemma_break_pos_bounds(s, w);
    }
}

/// All the pieces, concatenated in order.
pub open spec fn concat_pieces(pieces: Seq<Seq<char>>) -> Seq<char>
    decreases pieces.len(),
{
    if pieces.len() == 0 {
        Seq::empty()
    } else {
        concat_pieces(pieces.drop_last()) + pieces.last()
    }
}

/// Concatenation distributes over a piece put in front.
pub proof fn lemma_concat_prepend(a: Seq<char>, pieces: Seq<Seq<char>>)
    ensures
        concat_pieces(seq![a] + pieces) == a + concat_pieces(pieces),
    decreases pieces.len(),
{
    if pieces.len() == 0 {
        assert((seq![a] + pieces) =~= seq![a]);
        assert(seq![a].drop_last() =~= Seq::<Seq<char>>::empty());
        assert(concat_pieces(Seq::<Seq<char>>::empty()) == Seq::<char>::empty());
        assert(Seq::<char>::empty() + a =~= a);
        assert(concat_pieces(seq![a]) =~= a + concat_pieces(pieces));
    } else {
        lemma_concat_prepend(a, pieces.drop_last());
        assert((seq![a] + pieces).drop_last() =~= seq![a] + pieces.drop_last());
        assert((seq![a] + pieces).last() == pieces.last());
        assert(concat_pieces(seq![a] + pieces) =~= a + concat_pieces(pieces));
    }
}

/// Law: wrapping loses no character — the wrapped pieces concatenate back
/// to the original line.
pub proof fn lemma_wrap_preserves(s: Seq<char>, w: int)
    ensures
        concat_pieces(wrap_line(s, w)) == s,
    decreases s.len(),
{
    if w < 1 || s.len() <= w {
        assert(seq![s].drop_last() =~= Seq::<Seq<char>>::empty());
        assert(concat_pieces(Seq::<Seq<char>>::empty()) == Seq::<char>::empty());
        assert(Seq::<char>::empty() + s =~= s);
        assert(concat_pieces(wrap_line(s, w)) =~= s);
    } else {
        lemma_break_pos_bounds(s, w);
        let b = break_pos(s, w);
        lemma_wrap_preserves(s.skip(b), w);
        lemma_concat_prepend(s.take(b), wrap_line(s.skip(b), w));
        assert(s.take(b) + s.skip(b) =~= s);
    }
}

/// Law: wrapping respects the width — every wrapped piece is at most `w`
/// characters long.
pub proof fn lemma_wrap_widths(s: Seq<char>, w: int)
    requires
        w >= 1,
    ensures
        forall|i: int|
            0 <= i < wrap_line(s, w).len() ==> (#[trigger] wrap_line(s, w)[i]).len() <= w,
    decreases s.len(),
{
    if s.len() > w {
        lemma_break_pos_bounds(s, w);
        let b = break_pos(s, w);
        lemma_wrap_widths(s.skip(b), w);
        assert forall|i: int| 0 <= i < wrap_line(s, w).len() implies (#[trigger] wrap_line(s, w)[
            i
        ]).len() <= w by {
            if i == 0 {
                assert(wrap_line(s, w)[0] == s.take(b));
            } else {
                assert(wrap_line(s, w)[i] == wrap_line(s.skip(b), w)[i - 1]);
            }
        }
    }
}

/// Wraps one newline-free line greedily to width `w`.
pub fn wrap_line_to(s: &str, w: usize) -> (r: Vec<String>)
    requires
        w >= 1,
    ensures
        r.deep_view() == wrap_line(s@, w as int),
{
    let mut pieces: Vec<String> = Vec::new();
    let mut rest: &str = s;
    let mut n = rest.unicode_len();
    while n > w
        invariant
            w >= 1,
            n == rest@.len(),
            pieces.deep_view() + wrap_line(rest@, w as int) == wrap_line(s@, w as int),
        decreases n,
    {
        let bp: usize;
        if is_space_char(rest.get_char(w)) {
            bp = w;
        } else {
            let mut k = w;
            while k > 0 && !is_space_char(rest.get_char(k - 1))
                invariant
                    n == rest@.len(),
                    w < n,
                    0 <= k <= w,
                    last_space_before(rest@, w as int) == last_space_before(rest@, k as int),
                decreases k,
            {
                k = k - 1;
            }
            if k > 0 {
                proof {
                    assert(last_space_before(rest@, k as int) == k - 1);
                }
                bp = k;
            } else {
                proof {
                    assert(last_space_before(rest@, 0int) == -1);
                }
                bp = w;
            }
        }
        proof {
            assert(bp as int == break_pos(rest@, w as int));
            lemma_break_pos_bounds(rest@, w as int);
        }
        let piece = rest.substring_char(0, bp).to_owned();
        let ghost old_deep = pieces.deep_view();
        let ghost old_rest = rest@;
        pieces.push(piece);
        rest = rest.substring_char(bp, n);
        n = n - bp;
        proof {
            assert(old_rest.subrange(0, bp as int) =~= old_rest.take(bp as int));
            assert(rest@ =~= old_rest.skip(bp as int));
            assert(pieces.deep_view() =~= old_deep.push(old_rest.take(bp as int)));
            assert(pieces.deep_view() + wrap_line(rest@, w as int) =~= old_deep + wrap_line(
                old_rest,
                w as int,
            ));
        }
    }
    let ghost old_deep = pieces.deep_view();
    pieces.push(rest.to_owned());
    proof {
        assert(wrap_line(rest@, w as int) =~= seq![rest@]);
        assert(pieces.deep_view() =~= old_deep.push(rest@));
        assert(pieces.deep_view() =~= wrap_line(s@, w as int));
    }
    pieces
}

/// Relies on String's FromIterator over char: collecting characters gives
/// the string of exactly those characters in order.
#[verifier::external_body]
pub(crate) fn chars_to_string(chars: &Vec<char>) -> (r: String)
    ensures
        r@ == chars@,
{
    chars.iter().collect()
}

/// The decimal digit characters of a non-negative number.
pub open spec fn digit_char(d: int) -> char {
    if d == 0 {
        '0'
    } else if d == 1 {
        '1'
    } else if d == 2 {
        '2'
    } else if d == 3 {
        '3'
    } else if d == 4 {
        '4'
    } else if d == 5 {
        '5'
    } else if d == 6 {
        '6'
    } else if d == 7 {
        '7'
    } else if d == 8 {
        '8'
    } else {
        '9'
    }
}

/// The decimal representation of `n`, most significant digit first.
pub open spec fn spec_decimal(n: int) -> Seq<char>
    decreases n,
{
    if n < 10 {
        seq![digit_char(n)]
    } else {
        spec_decimal(n / 10).push(digit_char(n % 10))
    }
}

/// One decimal digit as its character.
pub fn digit_of(d: u16) -> (r: char)
    requires
        d < 10,
    ensures
        r == digit_char(d as int),
{
    match d {
        0 => '0',
        1 => '1',
        2 => '2',
        3 => '3',
        4 => '4',
        5 => '5',
        6 => '6',
        7 => '7',
        8 => '8',
        _ => '9',
    }
}

/// The decimal digits of `n`, most significant first.
pub fn decimal_digits(n: u16) -> (r: Vec<char>)
    ensures
        r@ == spec_decimal(n as int),
    decreases n,
{
    if n < 10 {
        let mut v: Vec<char> = Vec::new();
        v.push(digit_of(n));
        proof {
            assert(v@ =~= spec_decimal(n as int));
        }
        v
    } else {
        let mut v = decimal_digits(n / 10);
        v.push(digit_of(n % 10));
        v
    }
}

} // verus!
