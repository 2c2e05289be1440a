//! Character-level text helpers, and queries on HTML documents.
use vstd::prelude::*;
use vstd::std_specs::iter::IteratorSpec;

verus! {

/// The characters of `s`, in order.
pub(crate) fn chars_of(s: &str) -> (r: Vec<char>)
    ensures
        r@ == s@,
{
    broadcast use vstd::string::axiom_spec_iter, vstd::string::next_postcondition;

    let mut it = s.chars();
    let mut r: Vec<char> = Vec::new();
    loop
        invariant
            r@ + it.remaining() == s@,
            it.decrease() is Some,
        ensures
            r@ == s@,
        decreases it.decrease()->0,
    {
        match it.next() {
            Some(c) => {
                r.push(c);
            },
            None => {
                assert(r@ =~= s@);
                break ;
            },
        }
    }
    r
}

/// Relies on `String::push`: appends one character.
#[verifier::external_body]
pub(crate) fn push_char(s: &mut String, c: char)
    ensures
        final(s)@ == old(s)@.push(c),
{
    s.push(c)
}

/// Whether `needle` occurs in `hay` as a run of consecutive characters.
pub open spec fn has_substring(hay: Seq<char>, needle: Seq<char>) -> bool {
    exists|i: int|
        0 <= i && i + needle.len() <= hay.len() && #[trigger] hay.subrange(i, i + needle.len())
            == needle
}

/// Whether `needle` occurs in `hay`.
pub fn contains_text(hay: &str, needle: &str) -> (r: bool)
    ensures
        r == has_substring(hay@, needle@),
{
    let h = chars_of(hay);
    let n = chars_of(needle);
    if n.len() > h.len() {
        return false;
    }
    let last = h.len() - n.len();
    let mut i: usize = 0;
    while i <= last
        invariant
            last == h.len() - n.len(),
            h@ == hay@,
            n@ == needle@,
            n.len() <= h.len(),
            i <= last + 1,
            forall|p: int| 0 <= p < i ==> #[trigger] h@.subrange(p, p + n@.len()) != n@,
        decreases h.len() - i,
    {
        let mut j: usize = 0;
        let mut same = true;
        while j < n.len()
            invariant
                h@ == hay@,
                n@ == needle@,
                i + n.len() <= h.len(),
                j <= n.len(),
                same == (forall|q: int| 0 <= q < j ==> h@[i + q] == n@[q]),
            decreases n.len() - j,
        {
            if h[i + j] != n[j] {
                same = false;
            }
            j = j + 1;
        }
        if same {
            assert(h@.subrange(i as int, i + n@.len()) =~= n@);
            return true;
        }
        assert(h@.subrange(i as int, i + n@.len()) != n@) by {
            let q = choose|q: int| 0 <= q < n.len() && h@[i + q] != n@[q];
            assert(h@.subrange(i as int, i + n@.len())[q] == h@[i + q]);
        }
        i = i + 1;
    }
    assert forall|p: int| 0 <= p && p + needle@.len() <= hay@.len() implies #[trigger] hay@.subrange(
        p,
        p + needle@.len(),
    ) != needle@ by {
        assert(p < i);
    }
    false
}

/// A no-break space becomes a plain space; every other character stays.
pub open spec fn plain_char(c: char) -> char {
    if c == '\u{a0}' {
        ' '
    } else {
        c
    }
}

pub open spec fn plain(s: Seq<char>) -> Seq<char> {
    s.map_values(|c: char| plain_char(c))
}

/// The pieces of a text joined, with no-break spaces made plain.
pub open spec fn joined_plain(pieces: Seq<Seq<char>>) -> Seq<char>
    decreases pieces.len(),
{
    if pieces.len() == 0 {
        Seq::empty()
    } else {
        joined_plain(pieces.drop_last()) + plain(pieces.last())
    }
}

pub open spec fn views_of(v: Seq<String>) -> Seq<Seq<char>> {
    v.map_values(|s: String| s@)
}

/// Joins the text pieces of an element, turning no-break spaces into spaces.
pub fn join_plain(pieces: &Vec<String>) -> (r: String)
    ensures
        r@ == joined_plain(views_of(pieces@)),
{
    let mut r = String::new();
    let mut i: usize = 0;
    while i < pieces.len()
        invariant
            i <= pieces@.len(),
            r@ == joined_plain(views_of(pieces@).subrange(0, i as int)),
        decreases pieces@.len() - i,
    {
        let cs = chars_of(pieces[i].as_str());
        let ghost start = r@;
        let mut j: usize = 0;
        while j < cs.len()
            invariant
                j <= cs@.len(),
                r@ == start + plain(cs@.subrange(0, j as int)),
            decreases cs@.len() - j,
        {
            let c = cs[j];
            let p = if c == '\u{a0}' {
                ' '
            } else {
                c
            };
            push_char(&mut r, p);
            assert(plain(cs@.subrange(0, j + 1)) =~= plain(cs@.subrange(0, j as int)).push(p));
            j = j + 1;
        }
        proof {
            let vs = views_of(pieces@);
            assert(vs.subrange(0, i + 1).drop_last() =~= vs.subrange(0, i as int));
            assert(cs@.subrange(0, cs@.len() as int) =~= vs[i as int]);
        }
        i = i + 1;
    }
    assert(views_of(pieces@).subrange(0, pieces@.len() as int) =~= views_of(pieces@));
    r
}

/// The text pieces of the first element of the HTML document `html` that
/// the CSS selector `selector` matches; `None` where none matches or the
/// selector does not parse.
pub uninterp spec fn first_match_text(html: Seq<char>, selector: Seq<char>) -> Option<Seq<Seq<char>>>;

/// Within the first element of `html` that `outer` matches, the text pieces
/// of each element that `inner` matches, in document order; `None` where
/// `outer` matches nothing or a selector does not parse.
pub uninterp spec fn nested_match_texts(html: Seq<char>, outer: Seq<char>, inner: Seq<char>) -> Option<
    Seq<Seq<Seq<char>>>,
>;

pub open spec fn nested_views(v: Seq<Vec<String>>) -> Seq<Seq<Seq<char>>> {
    v.map_values(|e: Vec<String>| views_of(e@))
}

/// Relies on scraper's `Html::parse_document`, `Selector::parse` and
/// `Html::select`: the text nodes of the first element that matches.
#[verifier::external_body]
pub(crate) fn select_first_text(html: &str, selector: &str) -> (r: Option<Vec<String>>)
    ensures
        r is Some <==> first_match_text(html@, selector@) is Some,
        r matches Some(v) ==> views_of(v@) == first_match_text(html@, selector@)->Some_0,
{
    let doc = scraper::Html::parse_document(html);
    let sel = scraper::Selector::parse(selector).ok()?;
    let first = doc.select(&sel).next()?;
    Some(first.text().map(|t| t.to_string()).collect())
}

/// Relies on scraper's `Html::parse_document`, `Selector::parse`,
/// `Html::select` and `ElementRef::select`: the text nodes of each element
/// that `inner` matches inside the first element that `outer` matches.
#[verifier::external_body]
pub(crate) fn select_nested_texts(html: &str, outer: &str, inner: &str) -> (r: Option<Vec<Vec<String>>>)
    ensures
        r is Some <==> nested_match_texts(html@, outer@, inner@) is Some,
        r matches Some(v) ==> nested_views(v@) == nested_match_texts(html@, outer@, inner@)->Some_0,
{
    let doc = scraper::Html::parse_document(html);
    let outer_sel = scraper::Selector::parse(outer).ok()?;
    let inner_sel = scraper::Selector::parse(inner).ok()?;
    let first = doc.select(&outer_sel).next()?;
    Some(first.select(&inner_sel).map(|e| e.text().map(|t| t.to_string()).collect()).collect())
}

} // verus!
