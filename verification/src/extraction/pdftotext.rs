//! Lines with their bounding boxes, as `pdftotext -bbox-layout` writes
//! them in XML.

use crate::extraction::{
    page_views, span_views, BBox, BBoxView, LineSpan, LineSpanView, PageContent, PageView,
};
use crate::text::{first_at, holds_at, joined, lines_of, texts, trimmed};
use vstd::prelude::*;
use vstd::string::StringExecFns;

verus! {

/// A text with each occurrence of `from`, from position `at` on and from
/// left to right, replaced by `to`.
pub open spec fn replaced(s: Seq<char>, from: Seq<char>, to: Seq<char>, at: int) -> Seq<char>
    decreases s.len() - at,
{
    if at < 0 || at >= s.len() {
        Seq::empty()
    } else if from.len() > 0 && holds_at(s, from, at) {
        to + replaced(s, from, to, at + from.len())
    } else {
        seq![s[at]] + replaced(s, from, to, at + 1)
    }
}

/// A text with the five entities of XML replaced by the characters that
/// they stand for, one entity after the other: `&amp;` first, then `&lt;`,
/// `&gt;`, `&quot;` and `&apos;`.
pub open spec fn decoded(s: Seq<char>) -> Seq<char> {
    let a = replaced(s, "&amp;"@, "&"@, 0);
    let b = replaced(a, "&lt;"@, "<"@, 0);
    let c = replaced(b, "&gt;"@, ">"@, 0);
    let d = replaced(c, "&quot;"@, "\""@, 0);
    replaced(d, "&apos;"@, "'"@, 0)
}

/// Replaces each occurrence of `from` by `to`.
fn replace_all(v: &Vec<char>, from: &str, to: &str) -> (r: Vec<char>)
    ensures
        r@ == replaced(v@, from@, to@, 0),
{
    let pattern = crate::text::chars_of(from);
    let with = crate::text::chars_of(to);
    let mut out: Vec<char> = Vec::new();
    let mut i: usize = 0;
    assert(out@ + replaced(v@, from@, to@, 0) =~= replaced(v@, from@, to@, 0));
    while i < v.len()
        invariant
            pattern@ == from@,
            with@ == to@,
            replaced(v@, from@, to@, 0) == out@ + replaced(v@, from@, to@, i as int),
        decreases v.len() - i,
    {
        let ghost before = out@;
        if pattern.len() > 0 && crate::text::occurs_at(v, &pattern, i) {
            let mut k: usize = 0;
            while k < with.len()
                invariant
                    k <= with.len(),
                    out@ == before + with@.take(k as int),
                decreases with.len() - k,
            {
                out.push(with[k]);
                k += 1;
                assert(with@.take(k as int) =~= with@.take(k - 1).push(with@[k - 1]));
            }
            assert(with@.take(with.len() as int) =~= with@);
            assert(out@ + replaced(v@, from@, to@, i + pattern.len()) =~= before + (with@
                + replaced(v@, from@, to@, i + pattern.len())));
            i += pattern.len();
        } else {
            out.push(v[i]);
            assert(out@ + replaced(v@, from@, to@, i + 1) =~= before + (seq![v@[i as int]]
                + replaced(v@, from@, to@, i + 1)));
            i += 1;
        }
    }
    assert(out@ + Seq::<char>::empty() =~= out@);
    out
}

/// Replaces the entities of XML by the characters that they stand for.
pub fn decode_xml_entities(s: &str) -> (r: String)
    ensures
        r@ == decoded(s@),
{
    let v = crate::text::chars_of(s);
    crate::text::string_of(&decode_chars(&v))
}

fn decode_chars(v: &Vec<char>) -> (r: Vec<char>)
    ensures
        r@ == decoded(v@),
{
    let a = replace_all(v, "&amp;", "&");
    let b = replace_all(&a, "&lt;", "<");
    let c = replace_all(&b, "&gt;", ">");
    let d = replace_all(&c, "&quot;", "\"");
    replace_all(&d, "&apos;", "'")
}

/// The value of an attribute in a tag: what stands between `name="` and
/// the next quotation mark.
pub open spec fn attribute_of(tag: Seq<char>, name: Seq<char>) -> Option<Seq<char>> {
    match first_at(tag, name + "=\""@, 0) {
        Some(at) => match first_at(tag, "\""@, at + name.len() + "=\""@.len()) {
            Some(end) => Some(tag.subrange(at + name.len() + "=\""@.len(), end)),
            None => None,
        },
        None => None,
    }
}

/// The value of an attribute in the tag `v[from..to]`.
fn attribute(v: &Vec<char>, from: usize, to: usize, name: &str) -> (r: Option<Vec<char>>)
    requires
        from <= to <= v.len(),
    ensures
        match r {
            Some(value) => attribute_of(v@.subrange(from as int, to as int), name@) == Some(
                value@,
            ),
            None => attribute_of(v@.subrange(from as int, to as int), name@) is None,
        },
{
    let tag = crate::text::slice_of(v, from, to);
    let mut needle = crate::text::chars_of(name);
    let opening = crate::text::chars_of("=\"");
    let mut k: usize = 0;
    let ghost start = needle@;
    while k < opening.len()
        invariant
            k <= opening.len(),
            needle@ == start + opening@.take(k as int),
        decreases opening.len() - k,
    {
        needle.push(opening[k]);
        k += 1;
        assert(opening@.take(k as int) =~= opening@.take(k - 1).push(opening@[k - 1]));
    }
    assert(opening@.take(opening.len() as int) =~= opening@);
    let at = match crate::text::find_first(&tag, &needle, 0) {
        Some(at) => at,
        None => {
            return None;
        },
    };
    let quote = crate::text::chars_of("\"");
    let begin = at + needle.len();
    match crate::text::find_first(&tag, &quote, begin) {
        Some(end) => Some(crate::text::slice_of(&tag, begin, end)),
        None => None,
    }
}

/// The value of an attribute in a tag.
pub fn parse_attr(tag: &str, name: &str) -> (r: Option<String>)
    ensures
        crate::model::option_text(r) == attribute_of(tag@, name@),
{
    let v = crate::text::chars_of(tag);
    assert(v@.subrange(0, v.len() as int) == v@);
    match attribute(&v, 0, v.len(), name) {
        Some(value) => Some(crate::text::string_of(&value)),
        None => None,
    }
}

/// The number that a digit stands for.
pub open spec fn digit_value(c: char) -> Option<nat> {
    if c == '0' {
        Some(0)
    } else if c == '1' {
        Some(1)
    } else if c == '2' {
        Some(2)
    } else if c == '3' {
        Some(3)
    } else if c == '4' {
        Some(4)
    } else if c == '5' {
        Some(5)
    } else if c == '6' {
        Some(6)
    } else if c == '7' {
        Some(7)
    } else if c == '8' {
        Some(8)
    } else if c == '9' {
        Some(9)
    } else {
        None
    }
}

/// The number that a digit stands for.
fn digit_of(c: char) -> (r: Option<usize>)
    ensures
        match r {
            Some(d) => d <= 9 && digit_value(c) == Some(d as nat),
            None => digit_value(c) is None,
        },
{
    if c == '0' {
        Some(0)
    } else if c == '1' {
        Some(1)
    } else if c == '2' {
        Some(2)
    } else if c == '3' {
        Some(3)
    } else if c == '4' {
        Some(4)
    } else if c == '5' {
        Some(5)
    } else if c == '6' {
        Some(6)
    } else if c == '7' {
        Some(7)
    } else if c == '8' {
        Some(8)
    } else if c == '9' {
        Some(9)
    } else {
        None
    }
}

/// The number that the first `upto` characters denote in decimal
/// notation, where all of them are digits.
pub open spec fn digits_value(s: Seq<char>, upto: int) -> Option<nat>
    decreases upto,
{
    if upto <= 0 || upto > s.len() {
        Some(0)
    } else {
        match (digits_value(s, upto - 1), digit_value(s[upto - 1])) {
            (Some(before), Some(d)) => Some(before * 10 + d),
            _ => None,
        }
    }
}

/// The count that a text denotes: one or more digits, with or without a
/// plus sign before them, for a number that a `usize` can hold.
pub open spec fn count_of(s: Seq<char>) -> Option<nat> {
    let digits = if s.len() > 0 && s[0] == '+' {
        s.subrange(1, s.len() as int)
    } else {
        s
    };
    if digits.len() == 0 {
        None
    } else {
        match digits_value(digits, digits.len() as int) {
            Some(n) => if n <= usize::MAX {
                Some(n)
            } else {
                None
            },
            None => None,
        }
    }
}

/// The value of a number grows with each digit.
proof fn lemma_digits_value_grows(s: Seq<char>, a: int, b: int)
    requires
        0 <= a <= b <= s.len(),
        digits_value(s, b) is Some,
    ensures
        digits_value(s, a) is Some,
        digits_value(s, a)->0 <= digits_value(s, b)->0,
    decreases b - a,
{
    if a < b {
        lemma_digits_value_grows(s, a, b - 1);
    }
}

/// Once a character is no digit, no longer prefix has a value.
proof fn lemma_digits_value_stays_none(s: Seq<char>, a: int, b: int)
    requires
        0 <= a <= b <= s.len(),
        digits_value(s, a) is None,
    ensures
        digits_value(s, b) is None,
    decreases b - a,
{
    if a < b {
        lemma_digits_value_stays_none(s, a, b - 1);
    }
}

/// The count that the characters denote.
fn count_in(v: &Vec<char>) -> (r: Option<usize>)
    ensures
        match r {
            Some(n) => count_of(v@) == Some(n as nat),
            None => count_of(v@) is None,
        },
{
    let start: usize = if v.len() > 0 && v[0] == '+' {
        1
    } else {
        0
    };
    let ghost digits = v@.subrange(start as int, v.len() as int);
    proof {
        if start == 0 {
            assert(digits =~= v@);
        }
    }
    if start == v.len() {
        return None;
    }
    let mut total: usize = 0;
    let mut i: usize = start;
    while i < v.len()
        invariant
            start <= i <= v.len(),
            start < v.len(),
            digits == v@.subrange(start as int, v.len() as int),
            digits == if v@.len() > 0 && v@[0] == '+' {
                v@.subrange(1, v@.len() as int)
            } else {
                v@
            },
            digits_value(digits, i - start) == Some(total as nat),
        decreases v.len() - i,
    {
        let c = v[i];
        assert(digits[i - start] == c);
        let d = match digit_of(c) {
            Some(d) => d,
            None => {
                proof {
                    lemma_digits_value_stays_none(digits, i - start + 1, digits.len() as int);
                }
                return None;
            },
        };
        let next = match total.checked_mul(10) {
            Some(t) => t.checked_add(d),
            None => None,
        };
        match next {
            Some(n) => {
                total = n;
            },
            None => {
                proof {
                    if digits_value(digits, digits.len() as int) is Some {
                        lemma_digits_value_grows(digits, i - start + 1, digits.len() as int);
                    }
                }
                return None;
            },
        }
        i += 1;
    }
    Some(total)
}

/// The count that an attribute of a tag gives.
pub fn parse_attr_usize(tag: &str, name: &str) -> (r: Option<usize>)
    ensures
        match attribute_of(tag@, name@) {
            Some(value) => match r {
                Some(n) => count_of(value) == Some(n as nat),
                None => count_of(value) is None,
            },
            None => r is None,
        },
{
    let v = crate::text::chars_of(tag);
    assert(v@.subrange(0, v.len() as int) == v@);
    match attribute(&v, 0, v.len(), name) {
        Some(value) => count_in(&value),
        None => None,
    }
}

/// A line of a page with its box.
#[derive(Debug, Clone)]
pub struct BoxedLine {
    pub page_number: usize,
    pub text: String,
    pub bbox: BBox,
}

/// A boxed line by its contents.
pub struct BoxedLineView {
    pub page_number: usize,
    pub text: Seq<char>,
    pub bbox: BBoxView,
}

impl View for BoxedLine {
    type V = BoxedLineView;

    open spec fn view(&self) -> BoxedLineView {
        BoxedLineView { page_number: self.page_number, text: self.text@, bbox: self.bbox@ }
    }
}

/// The contents of each boxed line.
pub open spec fn boxed_views(v: Seq<BoxedLine>) -> Seq<BoxedLineView> {
    v.map_values(|l: BoxedLine| l@)
}

/// Where an element stands in a text: its opening tag at `open..=tag_end`,
/// its content up to `close`, where its closing tag begins.
pub struct Element {
    pub open: int,
    pub tag_end: int,
    pub close: int,
}

/// The first element of a kind at or after `cursor`: the first opening
/// tag, the first `>` from there, and the first closing tag after that.
pub open spec fn next_element(
    s: Seq<char>,
    opening: Seq<char>,
    closing: Seq<char>,
    cursor: int,
) -> Option<Element> {
    match first_at(s, opening, cursor) {
        Some(open) => match first_at(s, ">"@, open) {
            Some(tag_end) => match first_at(s, closing, tag_end + 1) {
                Some(close) => Some(Element { open, tag_end, close }),
                None => None,
            },
            None => None,
        },
        None => None,
    }
}

/// The position after an element; always beyond `cursor`.
pub open spec fn after_element(e: Element, closing: Seq<char>, cursor: int) -> int {
    if e.close + closing.len() > cursor {
        e.close + closing.len()
    } else {
        cursor + 1
    }
}

/// The words of a line from `cursor` on: the content of each `word`
/// element, decoded and without surrounding whitespace, unless empty.
pub open spec fn words_in(body: Seq<char>, cursor: int) -> Seq<Seq<char>>
    decreases body.len() - cursor,
{
    if cursor < 0 || cursor > body.len() {
        Seq::empty()
    } else {
        match next_element(body, "<word "@, "</word>"@, cursor) {
            Some(e) => {
                let word = trimmed(decoded(body.subrange(e.tag_end + 1, e.close)));
                (if word.len() > 0 {
                    seq![word]
                } else {
                    Seq::empty()
                }) + (if after_element(e, "</word>"@, cursor) <= body.len() {
                    words_in(body, after_element(e, "</word>"@, cursor))
                } else {
                    Seq::empty()
                })
            },
            None => Seq::empty(),
        }
    }
}

/// The boxed line that a `line` element gives: its words joined by single
/// spaces, with the four corners that its opening tag names. There is none
/// where a corner is missing or the line has no words.
pub open spec fn boxed_line(body: Seq<char>, e: Element, page_number: usize) -> Option<
    BoxedLineView,
> {
    let tag = body.subrange(e.open, e.tag_end + 1);
    let text = joined(words_in(body.subrange(e.tag_end + 1, e.close), 0), seq![' ']);
    if attribute_of(tag, "xMin"@) is Some && attribute_of(tag, "yMin"@) is Some && attribute_of(
        tag,
        "xMax"@,
    ) is Some && attribute_of(tag, "yMax"@) is Some && text.len() > 0 {
        Some(
            BoxedLineView {
                page_number,
                text,
                bbox: BBoxView {
                    x_min: attribute_of(tag, "xMin"@)->0,
                    y_min: attribute_of(tag, "yMin"@)->0,
                    x_max: attribute_of(tag, "xMax"@)->0,
                    y_max: attribute_of(tag, "yMax"@)->0,
                },
            },
        )
    } else {
        None
    }
}

/// The boxed lines of a page from `cursor` on.
pub open spec fn lines_in(body: Seq<char>, page_number: usize, cursor: int) -> Seq<BoxedLineView>
    decreases body.len() - cursor,
{
    if cursor < 0 || cursor > body.len() {
        Seq::empty()
    } else {
        match next_element(body, "<line "@, "</line>"@, cursor) {
            Some(e) => (match boxed_line(body, e, page_number) {
                Some(line) => seq![line],
                None => Seq::empty(),
            }) + (if after_element(e, "</line>"@, cursor) <= body.len() {
                lines_in(body, page_number, after_element(e, "</line>"@, cursor))
            } else {
                Seq::empty()
            }),
            None => Seq::empty(),
        }
    }
}

/// The number of a page: what its opening tag gives as `number`, or else
/// its place among the pages.
pub open spec fn page_number_of(tag: Seq<char>, place: usize) -> usize {
    match attribute_of(tag, "number"@) {
        Some(value) => match count_of(value) {
            Some(n) => n as usize,
            None => place,
        },
        None => place,
    }
}

/// The boxed lines of a document from `cursor` on, `seen` pages having
/// come before.
pub open spec fn pages_in(xml: Seq<char>, cursor: int, seen: nat) -> Seq<BoxedLineView>
    decreases xml.len() - cursor,
{
    if cursor < 0 || cursor > xml.len() {
        Seq::empty()
    } else {
        match next_element(xml, "<page "@, "</page>"@, cursor) {
            Some(e) => lines_in(
                xml.subrange(e.tag_end + 1, e.close),
                page_number_of(xml.subrange(e.open, e.tag_end + 1), (seen + 1) as usize),
                0,
            ) + (if after_element(e, "</page>"@, cursor) <= xml.len() {
                pages_in(xml, after_element(e, "</page>"@, cursor), seen + 1)
            } else {
                Seq::empty()
            }),
            None => Seq::empty(),
        }
    }
}

/// The first element of a kind at or after `cursor`.
fn find_element(v: &Vec<char>, opening: &str, closing: &str, cursor: usize) -> (r: Option<
    (usize, usize, usize),
>)
    ensures
        match r {
            Some((open, tag_end, close)) => {
                &&& cursor <= open <= tag_end < close
                &&& close + closing@.len() <= v.len()
                &&& next_element(v@, opening@, closing@, cursor as int) == Some(
                    Element { open: open as int, tag_end: tag_end as int, close: close as int },
                )
            },
            None => next_element(v@, opening@, closing@, cursor as int) is None,
        },
{
    let open = match crate::text::find_first(v, &crate::text::chars_of(opening), cursor) {
        Some(at) => at,
        None => {
            return None;
        },
    };
    let tag_end = match crate::text::find_first(v, &crate::text::chars_of(">"), open) {
        Some(at) => at,
        None => {
            return None;
        },
    };
    proof {
        reveal_strlit(">");
    }
    match crate::text::find_first(v, &crate::text::chars_of(closing), tag_end + 1) {
        Some(close) => Some((open, tag_end, close)),
        None => None,
    }
}

/// The words of a line.
fn collect_words(body: &Vec<char>) -> (words: Vec<String>)
    ensures
        texts(words@) == words_in(body@, 0),
{
    let mut words: Vec<String> = Vec::new();
    let mut cursor: usize = 0;
    assert(texts(words@) + words_in(body@, 0) =~= words_in(body@, 0));
    loop
        invariant
            cursor <= body.len(),
            words_in(body@, 0) == texts(words@) + words_in(body@, cursor as int),
        decreases body.len() - cursor,
    {
        proof {
            reveal_strlit("</word>");
        }
        match find_element(body, "<word ", "</word>", cursor) {
            Some((_, tag_end, close)) => {
                let content = decode_chars(&crate::text::slice_of(body, tag_end + 1, close));
                assert(content@.subrange(0, content.len() as int) == content@);
                let (a, b) = crate::text::trim_bounds(&content, 0, content.len());
                let ghost before = texts(words@);
                if a < b {
                    let word = crate::text::text_of(&content, a, b);
                    words.push(word);
                    assert(texts(words@) =~= before.push(word@));
                }
                let ghost rest = words_in(body@, close + 7);
                assert(texts(words@) + rest =~= before + ((if b - a > 0 {
                    seq![content@.subrange(a as int, b as int)]
                } else {
                    Seq::empty()
                }) + rest));
                cursor = close + 7;
            },
            None => {
                assert(texts(words@) + Seq::<Seq<char>>::empty() =~= texts(words@));
                return words;
            },
        }
    }
}

/// The boxed lines of a page.
fn collect_lines(body: &Vec<char>, page_number: usize, out: &mut Vec<BoxedLine>)
    ensures
        boxed_views(final(out)@) == boxed_views(old(out)@) + lines_in(body@, page_number, 0),
{
    let ghost start = boxed_views(out@);
    let mut cursor: usize = 0;
    assert(boxed_views(out@) =~= start + Seq::empty());
    let ghost mut done: Seq<BoxedLineView> = Seq::empty();
    assert(done + lines_in(body@, page_number, 0) =~= lines_in(body@, page_number, 0));
    loop
        invariant
            cursor <= body.len(),
            start == boxed_views(old(out)@),
            boxed_views(out@) == start + done,
            lines_in(body@, page_number, 0) == done + lines_in(body@, page_number, cursor as int),
        decreases body.len() - cursor,
    {
        proof {
            reveal_strlit("</line>");
        }
        match find_element(body, "<line ", "</line>", cursor) {
            Some((open, tag_end, close)) => {
                let x_min = attribute(body, open, tag_end + 1, "xMin");
                let y_min = attribute(body, open, tag_end + 1, "yMin");
                let x_max = attribute(body, open, tag_end + 1, "xMax");
                let y_max = attribute(body, open, tag_end + 1, "yMax");
                let words = collect_words(&crate::text::slice_of(body, tag_end + 1, close));
                let text = crate::text::join(&words, " ");
                proof {
                    reveal_strlit(" ");
                    assert(" "@ =~= seq![' ']);
                }
                let ghost before = boxed_views(out@);
                let ghost rest = lines_in(body@, page_number, close + 7);
                let ghost e = Element {
                    open: open as int,
                    tag_end: tag_end as int,
                    close: close as int,
                };
                match (x_min, y_min, x_max, y_max) {
                    (Some(a), Some(b), Some(c), Some(d)) => {
                        if text.as_str().unicode_len() > 0 {
                            let line = BoxedLine {
                                page_number,
                                text,
                                bbox: BBox {
                                    x_min: crate::text::string_of(&a),
                                    y_min: crate::text::string_of(&b),
                                    x_max: crate::text::string_of(&c),
                                    y_max: crate::text::string_of(&d),
                                },
                            };
                            out.push(line);
                            assert(boxed_views(out@) =~= before.push(line@));
                            assert(boxed_line(body@, e, page_number) == Some(line@));
                        }
                    },
                    _ => {},
                }
                proof {
                    let added: Seq<BoxedLineView> = match boxed_line(body@, e, page_number) {
                        Some(line) => seq![line],
                        None => Seq::empty(),
                    };
                    assert(boxed_views(out@) =~= before + added);
                    assert((done + added) + rest =~= done + (added + rest));
                    done = done + added;
                    assert(boxed_views(out@) =~= start + done);
                }
                cursor = close + 7;
            },
            None => {
                assert(done + Seq::<BoxedLineView>::empty() =~= done);
                return ;
            },
        }
    }
}

/// Reads the lines with their bounding boxes from the XML that
/// `pdftotext -bbox-layout` writes. A line counts where its tag names all
/// four corners and it has words; a page, line or word that is not closed
/// ends the reading of what holds it.
pub fn parse_bbox_xml(xml: &str) -> (r: Vec<BoxedLine>)
    ensures
        boxed_views(r@) == pages_in(xml@, 0, 0),
{
    let v = crate::text::chars_of(xml);
    let mut out: Vec<BoxedLine> = Vec::new();
    let mut cursor: usize = 0;
    let mut seen: usize = 0;
    assert(boxed_views(out@) + pages_in(v@, 0, 0) =~= pages_in(v@, 0, 0));
    loop
        invariant
            cursor <= v.len(),
            seen <= cursor,
            v@ == xml@,
            pages_in(v@, 0, 0) == boxed_views(out@) + pages_in(v@, cursor as int, seen as nat),
        decreases v.len() - cursor,
    {
        proof {
            reveal_strlit("</page>");
        }
        match find_element(&v, "<page ", "</page>", cursor) {
            Some((open, tag_end, close)) => {
                seen += 1;
                let number = match attribute(&v, open, tag_end + 1, "number") {
                    Some(value) => match count_in(&value) {
                        Some(n) => n,
                        None => seen,
                    },
                    None => seen,
                };
                let body = crate::text::slice_of(&v, tag_end + 1, close);
                let ghost before = boxed_views(out@);
                let ghost rest = pages_in(v@, close + 7, seen as nat);
                collect_lines(&body, number, &mut out);
                assert(boxed_views(out@) + rest =~= before + (lines_in(body@, number, 0) + rest));
                cursor = close + 7;
            },
            None => {
                assert(boxed_views(out@) + Seq::<BoxedLineView>::empty() =~= boxed_views(out@));
                return out;
            },
        }
    }
}

/// The character that `pdftotext` puts between pages: a form feed.
pub const PAGE_BREAK: char = '\u{c}';

/// The state of a scan for the pieces between page breaks: the pieces
/// that have ended, and where the open piece starts.
pub struct BreakScan {
    pub done: Seq<Seq<char>>,
    pub start: int,
}

/// The scan of the first `upto` characters of a text.
pub open spec fn scan_breaks(s: Seq<char>, upto: int) -> BreakScan
    decreases upto,
{
    if upto <= 0 || upto > s.len() {
        BreakScan { done: Seq::empty(), start: 0 }
    } else {
        let before = scan_breaks(s, upto - 1);
        if s[upto - 1] == PAGE_BREAK {
            BreakScan { done: before.done.push(s.subrange(before.start, upto - 1)), start: upto }
        } else {
            before
        }
    }
}

/// The pieces of a text between page breaks: one more than there are
/// breaks.
pub open spec fn page_texts(s: Seq<char>) -> Seq<Seq<char>> {
    let last = scan_breaks(s, s.len() as int);
    last.done.push(s.subrange(last.start, s.len() as int))
}

/// The pieces of a text between page breaks.
fn split_pages(text: &str) -> (r: Vec<String>)
    ensures
        texts(r@) == page_texts(text@),
        r.len() >= 1,
{
    let v = crate::text::chars_of(text);
    let mut pieces: Vec<String> = Vec::new();
    let mut start: usize = 0;
    let mut i: usize = 0;
    assert(texts(pieces@) =~= Seq::empty());
    while i < v.len()
        invariant
            i <= v.len(),
            v@ == text@,
            start <= i,
            texts(pieces@) == scan_breaks(v@, i as int).done,
            start == scan_breaks(v@, i as int).start,
        decreases v.len() - i,
    {
        if v[i] == PAGE_BREAK {
            let piece = crate::text::text_of(&v, start, i);
            let ghost before = texts(pieces@);
            pieces.push(piece);
            assert(texts(pieces@) =~= before.push(piece@));
            start = i + 1;
        }
        i += 1;
    }
    let piece = crate::text::text_of(&v, start, v.len());
    let ghost before = texts(pieces@);
    pieces.push(piece);
    assert(texts(pieces@) =~= before.push(piece@));
    pieces
}

/// The lines of a page among the first `upto` boxed lines, each with its
/// place among them.
pub open spec fn page_spans(lines: Seq<BoxedLine>, page_number: usize, upto: int) -> Seq<
    LineSpanView,
>
    decreases upto,
{
    if upto <= 0 || upto > lines.len() {
        Seq::empty()
    } else {
        let before = page_spans(lines, page_number, upto - 1);
        if lines[upto - 1].page_number == page_number {
            before.push(
                LineSpanView {
                    page_number,
                    line_index: before.len() as usize,
                    text: lines[upto - 1].text@,
                    bbox: lines[upto - 1].bbox@,
                },
            )
        } else {
            before
        }
    }
}

/// The pages that the first `upto` pieces of text give. Pages are
/// numbered from one; a page without lines counts only if it is the
/// first.
pub open spec fn pages_upto(pieces: Seq<Seq<char>>, lines: Seq<BoxedLine>, upto: int) -> Seq<
    PageView,
>
    decreases upto,
{
    if upto <= 0 || upto > pieces.len() {
        Seq::empty()
    } else {
        let before = pages_upto(pieces, lines, upto - 1);
        if lines_of(pieces[upto - 1]).len() > 0 || upto == 1 {
            before.push(
                PageView {
                    page_number: upto as usize,
                    lines: lines_of(pieces[upto - 1]),
                    line_spans: page_spans(lines, upto as usize, lines.len() as int),
                },
            )
        } else {
            before
        }
    }
}

/// The lines of a page among the boxed lines.
fn spans_of_page(lines: &[BoxedLine], page_number: usize) -> (r: Vec<LineSpan>)
    ensures
        span_views(r@) == page_spans(lines@, page_number, lines.len() as int),
{
    let mut spans: Vec<LineSpan> = Vec::new();
    let mut k: usize = 0;
    assert(span_views(spans@) =~= Seq::empty());
    while k < lines.len()
        invariant
            k <= lines.len(),
            spans.len() <= k,
            span_views(spans@) == page_spans(lines@, page_number, k as int),
        decreases lines.len() - k,
    {
        if lines[k].page_number == page_number {
            let span = LineSpan {
                page_number,
                line_index: spans.len(),
                text: lines[k].text.clone(),
                bbox: BBox {
                    x_min: lines[k].bbox.x_min.clone(),
                    y_min: lines[k].bbox.y_min.clone(),
                    x_max: lines[k].bbox.x_max.clone(),
                    y_max: lines[k].bbox.y_max.clone(),
                },
            };
            let ghost before = span_views(spans@);
            spans.push(span);
            assert(span_views(spans@) =~= before.push(span@));
        }
        k += 1;
    }
    spans
}

/// The pages of a document from the text that `pdftotext -layout` writes
/// and the boxed lines of the document. The text of each page is split
/// into its lines; the boxed lines of a page are numbered in their order.
pub fn pages_from_text(text: &str, lines: &[BoxedLine]) -> (r: Vec<PageContent>)
    ensures
        page_views(r@) == pages_upto(page_texts(text@), lines@, page_texts(text@).len() as int),
{
    let pieces = split_pages(text);
    let mut pages: Vec<PageContent> = Vec::new();
    let mut i: usize = 0;
    assert(page_views(pages@) =~= Seq::empty());
    while i < pieces.len()
        invariant
            i <= pieces.len(),
            texts(pieces@) == page_texts(text@),
            page_views(pages@) == pages_upto(texts(pieces@), lines@, i as int),
        decreases pieces.len() - i,
    {
        assert(texts(pieces@)[i as int] == pieces@[i as int]@);
        let page_lines = crate::text::text_lines(pieces[i].as_str());
        if page_lines.len() > 0 || i == 0 {
            let page = PageContent {
                page_number: i + 1,
                lines: page_lines,
                line_spans: spans_of_page(lines, i + 1),
            };
            let ghost before = page_views(pages@);
            pages.push(page);
            assert(page_views(pages@) =~= before.push(page@));
        }
        i += 1;
    }
    pages
}

} // verus!
