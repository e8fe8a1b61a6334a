//! Turning a chapter's HTML into the plain text the reader shows.
use vstd::prelude::*;

verus! {

/// A selector made of one ASCII-letter identifier, such as `p` or `div`:
/// a CSS type selector, which always parses.
pub open spec fn is_type_selector(selector: Seq<char>) -> bool {
    &&& selector.len() > 0
    &&& forall|i: int|
        0 <= i < selector.len() ==> {
            let c = #[trigger] selector[i];
            ('a' <= c && c <= 'z') || ('A' <= c && c <= 'Z')
        }
}

/// What scraper reads out of an HTML document for a selector: for each
/// element that matches, in document order, the concatenation of its text
/// nodes.
pub uninterp spec fn selected_texts(document: Seq<char>, selector: Seq<char>) -> Seq<Seq<char>>;

/// The views of a list of strings.
pub open spec fn string_views(strings: Seq<String>) -> Seq<Seq<char>> {
    strings.map_values(|s: String| s@)
}

/// Parses `document` with `scraper::Html::parse_document`, parses `selector`
/// with `scraper::Selector::parse`, walks `Html::select` and collects each
/// matched element's `ElementRef::text` into one string. Claimed: the result
/// is `selected_texts` of the two arguments, and a selector made of ASCII
/// letters alone parses (so the `unwrap` never fires under `requires`).
#[verifier::external_body]
fn element_texts(document: &str, selector: &str) -> (texts: Vec<String>)
    requires
        is_type_selector(selector@),
    ensures
        string_views(texts@) == selected_texts(document@, selector@),
{
    let selector = scraper::Selector::parse(selector).unwrap();
    let html = scraper::Html::parse_document(document);
    let mut texts = Vec::new();
    for element in html.select(&selector) {
        texts.push(element.text().collect::<String>());
    }
    texts
}

/// Each paragraph followed by a line break, in order.
pub open spec fn paragraph_lines(paragraphs: Seq<Seq<char>>) -> Seq<char>
    decreases paragraphs.len(),
{
    if paragraphs.len() == 0 {
        Seq::empty()
    } else {
        paragraph_lines(paragraphs.drop_last()) + paragraphs.last() + seq!['\n']
    }
}

/// The text shown for a chapter: the text of every `<p>` element of its
/// HTML, one per line.
pub open spec fn chapter_text(html: Seq<char>) -> Seq<char> {
    paragraph_lines(selected_texts(html, seq!['p']))
}

/// Writes each paragraph followed by a line break.
pub fn join_paragraphs(paragraphs: &Vec<String>) -> (text: String)
    ensures
        text@ == paragraph_lines(string_views(paragraphs@)),
{
    let mut text = String::new();
    let newline = "\n";
    proof {
        reveal_strlit("\n");
    }
    for i in 0..paragraphs.len()
        invariant
            text@ == paragraph_lines(string_views(paragraphs@.take(i as int))),
            newline@ == seq!['\n'],
    {
        text.append(paragraphs[i].as_str());
        text.append(newline);
        assert(paragraphs@.take(i + 1).drop_last() == paragraphs@.take(i as int));
        assert(string_views(paragraphs@.take(i + 1)).drop_last()
            == string_views(paragraphs@.take(i as int)));
    }
    assert(paragraphs@.take(paragraphs.len() as int) == paragraphs@);
    text
}

/// The text of every `<p>` element of a chapter's HTML, each followed by a
/// line break.
pub fn parse_chapter_content(content: String) -> (text: String)
    ensures
        text@ == chapter_text(content@),
{
    let tag = "p";
    proof {
        reveal_strlit("p");
    }
    assert(tag@ == seq!['p']);
    let paragraphs = element_texts(content.as_str(), tag);
    join_paragraphs(&paragraphs)
}

/// The number of characters that paragraphs take once each is followed by a
/// line break: the sum over the paragraphs of their length plus one.
pub open spec fn lines_len(paragraphs: Seq<Seq<char>>) -> nat
    decreases paragraphs.len(),
{
    if paragraphs.len() == 0 {
        0
    } else {
        lines_len(paragraphs.drop_first()) + paragraphs[0].len() + 1
    }
}

/// One more paragraph adds exactly that paragraph and a line break at the
/// end, however many came before it.
pub proof fn lemma_paragraph_lines_push(paragraphs: Seq<Seq<char>>, paragraph: Seq<char>)
    ensures
        paragraph_lines(paragraphs.push(paragraph)) == paragraph_lines(paragraphs) + paragraph
            + seq!['\n'],
{
    assert(paragraphs.push(paragraph).drop_last() =~= paragraphs);
}

/// The lines of two runs of paragraphs, one after the other, are the lines
/// of the first run followed by the lines of the second.
pub proof fn lemma_paragraph_lines_concat(first: Seq<Seq<char>>, second: Seq<Seq<char>>)
    ensures
        paragraph_lines(first + second) == paragraph_lines(first) + paragraph_lines(second),
    decreases second.len(),
{
    if second.len() == 0 {
        assert(first + second =~= first);
        assert(paragraph_lines(first) + paragraph_lines(second) =~= paragraph_lines(first));
    } else {
        let rest = second.drop_last();
        lemma_paragraph_lines_concat(first, rest);
        assert((first + second).drop_last() =~= first + rest);
        assert((first + second).last() == second.last());
        assert(paragraph_lines(first) + paragraph_lines(rest) + second.last() + seq!['\n']
            =~= paragraph_lines(first) + (paragraph_lines(rest) + second.last() + seq!['\n']));
    }
}

/// The text of a single paragraph is that paragraph and a line break.
pub proof fn lemma_paragraph_lines_single(paragraph: Seq<char>)
    ensures
        paragraph_lines(seq![paragraph]) == paragraph + seq!['\n'],
{
    assert(seq![paragraph].drop_last() =~= Seq::<Seq<char>>::empty());
    assert(paragraph_lines(Seq::<Seq<char>>::empty()) == Seq::<char>::empty());
    assert(Seq::<char>::empty() + paragraph + seq!['\n'] =~= paragraph + seq!['\n']);
}

/// The text is as long as all paragraphs with one line break each.
pub proof fn lemma_paragraph_lines_len(paragraphs: Seq<Seq<char>>)
    ensures
        paragraph_lines(paragraphs).len() == lines_len(paragraphs),
    decreases paragraphs.len(),
{
    if paragraphs.len() > 0 {
        let rest = paragraphs.drop_first();
        lemma_paragraph_lines_len(rest);
        assert(paragraphs =~= seq![paragraphs[0]] + rest);
        lemma_paragraph_lines_concat(seq![paragraphs[0]], rest);
        lemma_paragraph_lines_single(paragraphs[0]);
    }
}

/// `lines_len` adds up over a run of paragraphs split in two.
pub proof fn lemma_lines_len_concat(first: Seq<Seq<char>>, second: Seq<Seq<char>>)
    ensures
        lines_len(first + second) == lines_len(first) + lines_len(second),
    decreases first.len(),
{
    if first.len() > 0 {
        lemma_lines_len_concat(first.drop_first(), second);
        assert((first + second).drop_first() =~= first.drop_first() + second);
    } else {
        assert(first + second =~= second);
    }
}

/// Every paragraph, followed by a line break, stands in the text right after
/// the lines of the paragraphs before it: none is dropped, moved or changed.
pub proof fn lemma_paragraph_at_its_offset(paragraphs: Seq<Seq<char>>, k: int)
    requires
        0 <= k < paragraphs.len(),
    ensures
        paragraph_lines(paragraphs).subrange(
            lines_len(paragraphs.take(k)) as int,
            (lines_len(paragraphs.take(k)) + paragraphs[k].len() + 1) as int,
        ) == paragraphs[k] + seq!['\n'],
        lines_len(paragraphs.take(k + 1)) == lines_len(paragraphs.take(k)) + paragraphs[k].len()
            + 1,
{
    let before = paragraphs.take(k);
    let after = paragraphs.skip(k + 1);
    let p = paragraphs[k];
    assert(paragraphs =~= before + seq![p] + after);
    assert(paragraphs.take(k + 1) =~= before + seq![p]);
    lemma_paragraph_lines_concat(before + seq![p], after);
    lemma_paragraph_lines_concat(before, seq![p]);
    lemma_paragraph_lines_single(p);
    lemma_paragraph_lines_len(before);
    lemma_lines_len_concat(before, seq![p]);
    assert(seq![p].drop_first() =~= Seq::<Seq<char>>::empty());
    assert(lines_len(Seq::<Seq<char>>::empty()) == 0);
    assert(lines_len(seq![p]) == p.len() + 1);
    let whole = paragraph_lines(before) + (p + seq!['\n']) + paragraph_lines(after);
    assert(paragraph_lines(paragraphs) == whole);
    let start = paragraph_lines(before).len() as int;
    assert(whole.subrange(start, start + p.len() + 1) =~= p + seq!['\n']);
}

} // verus!
