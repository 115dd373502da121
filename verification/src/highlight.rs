//! Display text of a result: cut to a character budget, with every
//! whole-word occurrence of the query set in bold.

use vstd::prelude::*;
use vstd::string::StringSliceAdditionalSpecFns;
use vstd::utf8::*;

verus! {

/// The number of characters of a text that are shown.
pub const TEXT_LIMIT: usize = 80;

/// Why a text could not be highlighted.
#[derive(Debug, Clone, Copy, PartialEq, Eq, Structural)]
pub enum HighlightError {
    /// The regex engine refused the pattern made from the query.
    PatternRejected,
}

/// The markup that opens a highlighted match.
pub open spec fn open_tag() -> Seq<char> {
    seq!['<', 'b', '>']
}

/// The markup that closes a highlighted match.
pub open spec fn close_tag() -> Seq<char> {
    seq!['<', '/', 'b', '>']
}

/// The marker that follows a text that was cut.
pub open spec fn ellipsis_mark() -> Seq<char> {
    seq!['.', '.', '.']
}

/// The part of a text that is shown: all of it, or its first `TEXT_LIMIT`
/// characters.
pub open spec fn display_text(text: Seq<char>) -> Seq<char> {
    if text.len() > TEXT_LIMIT {
        text.subrange(0, TEXT_LIMIT as int)
    } else {
        text
    }
}

/// What follows the shown part: the ellipsis marker if the text was cut.
pub open spec fn ellipsis(text: Seq<char>) -> Seq<char> {
    if text.len() > TEXT_LIMIT {
        ellipsis_mark()
    } else {
        Seq::empty()
    }
}

/// The characters that have a meaning of their own in a regex.
pub open spec fn is_meta_character(c: char) -> bool {
    c == '\\' || c == '.' || c == '+' || c == '*' || c == '?' || c == '(' || c == ')' || c == '|'
        || c == '[' || c == ']' || c == '{' || c == '}' || c == '^' || c == '$' || c == '#'
        || c == '&' || c == '-' || c == '~'
}

/// A text with a backslash before each of its meta characters: the regex
/// that matches the text literally.
pub open spec fn escaped(text: Seq<char>) -> Seq<char>
    decreases text.len(),
{
    if text.len() == 0 {
        Seq::empty()
    } else if is_meta_character(text.last()) {
        escaped(text.drop_last()).push('\\').push(text.last())
    } else {
        escaped(text.drop_last()).push(text.last())
    }
}

/// The regex for the query as a whole word: the literal query in a group,
/// between two word-boundary assertions.
pub open spec fn word_pattern(query: Seq<char>) -> Seq<char> {
    seq!['\\', 'b', '('] + escaped(query) + seq![')', '\\', 'b']
}

/// Whether the regex engine, with the limits that it has by default, takes
/// the pattern under the two settings: the pattern is well formed and its
/// compiled form is within the engine's size limit.
pub uninterp spec fn regex_accepts(pattern: Seq<char>, case_insensitive: bool, unicode: bool) -> bool;

/// The matches of a regex in a haystack, in the order in which the regex
/// engine reports them, each as the byte offsets of its start and its end.
pub uninterp spec fn regex_matches(
    pattern: Seq<char>,
    case_insensitive: bool,
    unicode: bool,
    haystack: Seq<char>,
) -> Seq<(usize, usize)>;

/// Spans that can be cut out of a text one after the other: each lies within
/// the text's bytes, starts and ends between two characters, and starts no
/// earlier than the one before it ends.
pub open spec fn spans_fit(text: Seq<char>, spans: Seq<(usize, usize)>) -> bool {
    let bytes = encode_utf8(text);
    &&& forall|i: int|
        0 <= i < spans.len() ==> {
            &&& (#[trigger] spans[i]).0 <= spans[i].1 <= bytes.len()
            &&& is_char_boundary(bytes, spans[i].0 as int)
            &&& is_char_boundary(bytes, spans[i].1 as int)
        }
    &&& forall|i: int, j: int|
        0 <= i < j < spans.len() ==> (#[trigger] spans[i]).1 <= (#[trigger] spans[j]).0
}

/// The characters of a text between two byte offsets.
pub open spec fn piece(text: Seq<char>, from: int, to: int) -> Seq<char> {
    decode_utf8(encode_utf8(text).subrange(from, to))
}

/// The byte offset at which the last of the spans ends; 0 if there is none.
pub open spec fn last_end(spans: Seq<(usize, usize)>) -> int {
    if spans.len() == 0 {
        0
    } else {
        spans.last().1 as int
    }
}

/// The text up to the end of the last span, with `open` before each span
/// and `close` after it.
pub open spec fn marked_prefix(
    text: Seq<char>,
    spans: Seq<(usize, usize)>,
    open: Seq<char>,
    close: Seq<char>,
) -> Seq<char>
    decreases spans.len(),
{
    if spans.len() == 0 {
        Seq::empty()
    } else {
        let before = spans.drop_last();
        let span = spans.last();
        marked_prefix(text, before, open, close) + piece(text, last_end(before), span.0 as int)
            + open + piece(text, span.0 as int, span.1 as int) + close
    }
}

/// The whole text with `open` before each span and `close` after it.
pub open spec fn marked(
    text: Seq<char>,
    spans: Seq<(usize, usize)>,
    open: Seq<char>,
    close: Seq<char>,
) -> Seq<char> {
    marked_prefix(text, spans, open, close) + piece(
        text,
        last_end(spans),
        encode_utf8(text).len() as int,
    )
}

/// What is left of a marked text when the markup is taken away.
pub open spec fn visible(text: Seq<char>, spans: Seq<(usize, usize)>) -> Seq<char> {
    marked(text, spans, Seq::empty(), Seq::empty())
}

/// The highlight of a text whose shown part has matches at `spans`: the
/// shown part with each match in bold, then the ellipsis if the text was cut.
pub open spec fn highlighted(text: Seq<char>, spans: Seq<(usize, usize)>) -> Seq<char> {
    marked(display_text(text), spans, open_tag(), close_tag()) + ellipsis(text)
}

/// A text has at least as many bytes as characters.
pub proof fn lemma_bytes_cover_chars(text: Seq<char>)
    ensures
        encode_utf8(text).len() >= text.len(),
    decreases text.len(),
{
    if text.len() > 0 {
        lemma_bytes_cover_chars(text.drop_first());
    }
}

// Between two character boundaries a valid byte string is valid, and a
// boundary of the whole that lies between them is a boundary of the part.
proof fn lemma_boundary_within(bytes: Seq<u8>, from: int, at: int, to: int)
    requires
        valid_utf8(bytes),
        0 <= from <= at <= to <= bytes.len(),
        is_char_boundary(bytes, from),
        is_char_boundary(bytes, at),
        is_char_boundary(bytes, to),
    ensures
        valid_utf8(bytes.subrange(from, to)),
        is_char_boundary(bytes.subrange(from, to), at - from),
{
    let head = bytes.subrange(0, to);
    let part = bytes.subrange(from, to);
    valid_utf8_split(bytes, to);
    assert(is_char_boundary(head, from)) by {
        if from == to {
            is_char_boundary_start_end_of_seq(head);
        } else {
            is_char_boundary_iff_not_is_continuation_byte(bytes, from);
            is_char_boundary_iff_not_is_continuation_byte(head, from);
        }
    }
    valid_utf8_split(head, from);
    assert(head.subrange(from, head.len() as int) =~= part);
    if at == to {
        is_char_boundary_start_end_of_seq(part);
    } else {
        is_char_boundary_iff_not_is_continuation_byte(bytes, at);
        is_char_boundary_iff_not_is_continuation_byte(part, at - from);
    }
}

// Two adjoining pieces of a text make up the piece that spans both.
proof fn lemma_piece_concat(text: Seq<char>, from: int, mid: int, to: int)
    requires
        0 <= from <= mid <= to <= encode_utf8(text).len(),
        is_char_boundary(encode_utf8(text), from),
        is_char_boundary(encode_utf8(text), mid),
        is_char_boundary(encode_utf8(text), to),
    ensures
        piece(text, from, mid) + piece(text, mid, to) == piece(text, from, to),
{
    let bytes = encode_utf8(text);
    encode_utf8_valid_utf8(text);
    lemma_boundary_within(bytes, from, mid, to);
    let part = bytes.subrange(from, to);
    decode_utf8_split(part, mid - from);
    assert(part.subrange(0, mid - from) =~= bytes.subrange(from, mid));
    assert(part.subrange(mid - from, part.len() as int) =~= bytes.subrange(mid, to));
}

// Without markup, the marked prefix is the text up to the end of the last span.
proof fn lemma_visible_prefix(text: Seq<char>, spans: Seq<(usize, usize)>)
    requires
        spans_fit(text, spans),
    ensures
        marked_prefix(text, spans, Seq::empty(), Seq::empty()) == piece(text, 0, last_end(spans)),
        0 <= last_end(spans) <= encode_utf8(text).len(),
        is_char_boundary(encode_utf8(text), last_end(spans)),
    decreases spans.len(),
{
    let bytes = encode_utf8(text);
    let none = Seq::<char>::empty();
    encode_utf8_valid_utf8(text);
    if spans.len() == 0 {
        assert(bytes.subrange(0, 0) =~= Seq::<u8>::empty());
        assert(piece(text, 0, 0) =~= none);
    } else {
        let before = spans.drop_last();
        let span = spans.last();
        assert(spans_fit(text, before)) by {
            assert forall|i: int| 0 <= i < before.len() implies {
                &&& (#[trigger] before[i]).0 <= before[i].1 <= bytes.len()
                &&& is_char_boundary(bytes, before[i].0 as int)
                &&& is_char_boundary(bytes, before[i].1 as int)
            } by {
                assert(before[i] == spans[i]);
            }
            assert forall|i: int, j: int| 0 <= i < j < before.len() implies (
            #[trigger] before[i]).1 <= (#[trigger] before[j]).0 by {
                assert(before[i] == spans[i]);
                assert(before[j] == spans[j]);
            }
        }
        lemma_visible_prefix(text, before);
        assert(last_end(before) <= span.0) by {
            if before.len() > 0 {
                assert(before.last() == spans[spans.len() - 2]);
                assert(span == spans[spans.len() - 1]);
            }
        }
        assert(span == spans[spans.len() - 1]);
        lemma_piece_concat(text, 0, last_end(before), span.0 as int);
        lemma_piece_concat(text, 0, span.0 as int, span.1 as int);
        assert(marked_prefix(text, spans, none, none) =~= piece(text, 0, last_end(before)) + piece(
            text,
            last_end(before),
            span.0 as int,
        ) + piece(text, span.0 as int, span.1 as int));
    }
}

/// Taking the markup away from a marked text gives the text back: marking
/// adds markup and changes nothing else.
pub proof fn lemma_visible_is_text(text: Seq<char>, spans: Seq<(usize, usize)>)
    requires
        spans_fit(text, spans),
    ensures
        visible(text, spans) == text,
{
    let bytes = encode_utf8(text);
    encode_utf8_valid_utf8(text);
    lemma_visible_prefix(text, spans);
    is_char_boundary_start_end_of_seq(bytes);
    lemma_piece_concat(text, 0, last_end(spans), bytes.len() as int);
    assert(bytes.subrange(0, bytes.len() as int) =~= bytes);
    encode_utf8_decode_utf8(text);
}

/// A marked text is longer than its visible part by the markup of each span.
pub proof fn lemma_marked_len(
    text: Seq<char>,
    spans: Seq<(usize, usize)>,
    open: Seq<char>,
    close: Seq<char>,
)
    ensures
        marked(text, spans, open, close).len() == visible(text, spans).len() + spans.len() * (
        open.len() + close.len()),
    decreases spans.len(),
{
    let none = Seq::<char>::empty();
    let each = open.len() + close.len();
    if spans.len() == 0 {
        assert(spans.len() * each == 0) by (nonlinear_arith)
            requires
                spans.len() == 0,
        ;
    } else {
        let before = spans.drop_last();
        lemma_marked_len(text, before, open, close);
        assert(spans.len() * each == before.len() * each + each) by (nonlinear_arith)
            requires
                spans.len() == before.len() + 1,
        ;
    }
}

/// A text in which nothing matched is shown without markup: the shown part,
/// then the ellipsis if the text was cut. A text within the budget comes
/// back unchanged.
pub proof fn lemma_unmatched_text_unchanged(text: Seq<char>)
    ensures
        highlighted(text, Seq::empty()) == display_text(text) + ellipsis(text),
        text.len() <= TEXT_LIMIT ==> highlighted(text, Seq::empty()) == text,
{
    let shown = display_text(text);
    let spans = Seq::<(usize, usize)>::empty();
    assert(spans_fit(shown, spans));
    lemma_visible_is_text(shown, spans);
    assert(marked(shown, spans, open_tag(), close_tag()) =~= visible(shown, spans));
    if text.len() <= TEXT_LIMIT {
        assert(shown + ellipsis(text) =~= text);
    }
}

/// The visible part of a highlight is the shown part of the text: exactly
/// `TEXT_LIMIT` characters of a longer text, followed by the ellipsis, and
/// all of a text within the budget, followed by nothing.
pub proof fn lemma_truncation(text: Seq<char>, spans: Seq<(usize, usize)>)
    requires
        spans_fit(display_text(text), spans),
    ensures
        visible(display_text(text), spans) == display_text(text),
        text.len() > TEXT_LIMIT ==> visible(display_text(text), spans).len() == TEXT_LIMIT
            && ellipsis(text) == ellipsis_mark(),
        text.len() <= TEXT_LIMIT ==> visible(display_text(text), spans) == text && ellipsis(text)
            == Seq::<char>::empty(),
        highlighted(text, spans).len() == display_text(text).len() + 7 * spans.len() + ellipsis(
            text,
        ).len(),
{
    lemma_visible_is_text(display_text(text), spans);
    lemma_marked_len(display_text(text), spans, open_tag(), close_tag());
    assert(spans.len() * (open_tag().len() + close_tag().len()) == 7 * spans.len())
        by (nonlinear_arith)
        requires
            open_tag().len() + close_tag().len() == 7,
    ;
}

/// `regex::Error`: what the regex engine says of a pattern that it refuses.
/// Nothing is read from it.
#[verifier::external_type_specification]
#[verifier::external_body]
pub struct ExRegexError(regex::Error);

/// `regex::escape`: copies the text and puts a backslash before each
/// character for which `regex_syntax::is_meta_character` holds.
#[verifier::external_body]
fn escape(text: &str) -> (quoted: String)
    ensures
        quoted@ == escaped(text@),
{
    regex::escape(text)
}

/// Compiles `pattern` with `regex::RegexBuilder` (`new`, `case_insensitive`,
/// `unicode`, `build`) and collects what `regex::Regex::find_iter` yields on
/// `haystack`, each match as (`Match::start`, `Match::end`).
///
/// Claimed of the outcome: it is the error exactly when `build` refuses the
/// pattern, which depends on the pattern and the two settings alone, the
/// engine's limits being left at their defaults. Claimed of the matches:
/// they are what the regex engine finds for these arguments; each one's
/// offsets are in order, within the haystack and on character boundaries;
/// and the matches follow each other without overlap.
#[verifier::external_body]
fn find_all(pattern: &str, case_insensitive: bool, unicode: bool, haystack: &str) -> (found: Result<
    Vec<(usize, usize)>,
    regex::Error,
>)
    ensures
        found is Ok <==> regex_accepts(pattern@, case_insensitive, unicode),
        found matches Ok(spans) ==> spans@ == regex_matches(
            pattern@,
            case_insensitive,
            unicode,
            haystack@,
        ),
        found matches Ok(spans) ==> spans_fit(haystack@, spans@),
{
    let mut builder = regex::RegexBuilder::new(pattern);
    builder.case_insensitive(case_insensitive).unicode(unicode);
    match builder.build() {
        Ok(regex) => Ok(regex.find_iter(haystack).map(|found| (found.start(), found.end())).collect()),
        Err(error) => Err(error),
    }
}

/// Cuts a text to the character budget. Returns the shown part and whether
/// anything was cut off.
pub fn limit_text(text: &str) -> (shown: (&str, bool))
    ensures
        shown.0@ == display_text(text@),
        shown.1 == (text@.len() > TEXT_LIMIT),
{
    proof {
        lemma_bytes_cover_chars(text@);
    }
    // a text of fewer bytes than the budget needs no count of its characters
    if text.as_bytes().len() < TEXT_LIMIT {
        (text, false)
    } else if text.unicode_len() > TEXT_LIMIT {
        (text.substring_char(0, TEXT_LIMIT), true)
    } else {
        (text, false)
    }
}

/// Builds the regex that matches the query as a whole word.
pub fn whole_word_pattern(query: &str) -> (pattern: String)
    ensures
        pattern@ == word_pattern(query@),
{
    proof {
        reveal_strlit("\\b(");
        reveal_strlit(")\\b");
    }
    let mut pattern = String::from_str("\\b(");
    assert(pattern@ =~= seq!['\\', 'b', '(']);
    pattern.append(escape(query).as_str());
    pattern.append(")\\b");
    assert(")\\b"@ =~= seq![')', '\\', 'b']);
    pattern
}

/// Sets each of the spans of the shown text in bold, and appends the
/// ellipsis marker if the text was cut.
pub fn mark_matches(shown: &str, spans: &Vec<(usize, usize)>, cut: bool) -> (out: String)
    requires
        spans_fit(shown@, spans@),
    ensures
        out@ == marked(shown@, spans@, open_tag(), close_tag()) + (if cut {
            ellipsis_mark()
        } else {
            Seq::empty()
        }),
{
    let ghost bytes = encode_utf8(shown@);
    proof {
        encode_utf8_valid_utf8(shown@);
        is_char_boundary_start_end_of_seq(bytes);
        reveal_strlit("<b>");
        reveal_strlit("</b>");
        reveal_strlit("...");
        assert("<b>"@ =~= open_tag());
        assert("</b>"@ =~= close_tag());
        assert("..."@ =~= ellipsis_mark());
        assert(bytes.subrange(0, bytes.len() as int) =~= bytes);
        assert(spans@.take(0) =~= Seq::<(usize, usize)>::empty());
    }
    let mut out = String::new();
    let mut rest: &str = shown;
    let mut pos: usize = 0;
    let mut k: usize = 0;
    while k < spans.len()
        invariant
            k <= spans.len(),
            spans_fit(shown@, spans@),
            bytes == encode_utf8(shown@),
            valid_utf8(bytes),
            pos as int == last_end(spans@.take(k as int)),
            pos <= bytes.len(),
            is_char_boundary(bytes, pos as int),
            rest.spec_bytes() == bytes.subrange(pos as int, bytes.len() as int),
            out@ == marked_prefix(shown@, spans@.take(k as int), open_tag(), close_tag()),
            "<b>"@ == open_tag(),
            "</b>"@ == close_tag(),
        decreases spans.len() - k,
    {
        let (start, end) = spans[k];
        let ghost done = spans@.take(k as int);
        let ghost next = spans@.take(k + 1);
        proof {
            assert(spans@[k as int] == (start, end));
            if k > 0 {
                assert(done.last() == spans@[k - 1]);
            }
            assert(pos <= start <= end <= bytes.len());
            is_char_boundary_start_end_of_seq(bytes);
            lemma_boundary_within(bytes, pos as int, start as int, bytes.len() as int);
            lemma_boundary_within(bytes, start as int, end as int, bytes.len() as int);
        }
        let (before, tail) = rest.split_at(start - pos);
        assert(tail.spec_bytes() =~= bytes.subrange(start as int, bytes.len() as int));
        let (hit, after) = tail.split_at(end - start);
        proof {
            assert(before.spec_bytes() =~= bytes.subrange(pos as int, start as int));
            assert(hit.spec_bytes() =~= bytes.subrange(start as int, end as int));
            assert(after.spec_bytes() =~= bytes.subrange(end as int, bytes.len() as int));
            encode_utf8_decode_utf8(before@);
            encode_utf8_decode_utf8(hit@);
            assert(before@ == piece(shown@, pos as int, start as int));
            assert(hit@ == piece(shown@, start as int, end as int));
            assert(next.drop_last() =~= done);
            assert(next.last() == (start, end));
        }
        out.append(before);
        out.append("<b>");
        out.append(hit);
        out.append("</b>");
        rest = after;
        pos = end;
        k += 1;
    }
    proof {
        assert(spans@.take(k as int) =~= spans@);
        encode_utf8_decode_utf8(rest@);
        assert(rest@ == piece(shown@, pos as int, bytes.len() as int));
    }
    out.append(rest);
    if cut {
        out.append("...");
    }
    out
}

/// Turns the answer of the regex engine for the shown part of a text into
/// the highlight: the matches set in bold and the ellipsis marker added if
/// the text was cut, or the error if the engine refused the pattern.
pub fn highlight_found(
    shown: &str,
    cut: bool,
    found: Result<Vec<(usize, usize)>, regex::Error>,
) -> (result: Result<String, HighlightError>)
    requires
        found matches Ok(spans) ==> spans_fit(shown@, spans@),
    ensures
        match found {
            Ok(spans) => result matches Ok(highlight) && highlight@ == marked(
                shown@,
                spans@,
                open_tag(),
                close_tag(),
            ) + (if cut {
                ellipsis_mark()
            } else {
                Seq::empty()
            }),
            Err(_) => result == Err::<String, HighlightError>(HighlightError::PatternRejected),
        },
{
    match found {
        Ok(spans) => Ok(mark_matches(shown, &spans, cut)),
        Err(_) => Err(HighlightError::PatternRejected),
    }
}

/// Gives the highlight of a text for a query: the text cut to `TEXT_LIMIT`
/// characters, every occurrence of the query as a whole word in it set in
/// bold, whatever its case, and the ellipsis marker if the text was cut.
///
/// The regex engine is asked for the matches of `word_pattern(query)` in the
/// shown part of the text, without regard to case and by characters, and
/// `highlight_found` makes the result of its answer. Apart from the markup
/// and the ellipsis the highlight holds the shown part and nothing else, so
/// a text in which nothing matched comes back without markup. The highlight
/// is given exactly when the engine takes the pattern; the text has no part
/// in that.
pub fn post_process_response_text(text: &str, query: &str) -> (result: Result<
    String,
    HighlightError,
>)
    ensures
        result is Ok <==> regex_accepts(word_pattern(query@), true, true),
        result matches Ok(highlight) ==> {
            let spans = regex_matches(word_pattern(query@), true, true, display_text(text@));
            &&& spans_fit(display_text(text@), spans)
            &&& highlight@ == highlighted(text@, spans)
            &&& highlight@.len() == display_text(text@).len() + 7 * spans.len() + ellipsis(
                text@,
            ).len()
            &&& spans.len() == 0 ==> highlight@ == display_text(text@) + ellipsis(text@)
        },
{
    let (shown, cut) = limit_text(text);
    let pattern = whole_word_pattern(query);
    let found = find_all(pattern.as_str(), true, true, shown);
    proof {
        if found is Ok {
            let spans = found->Ok_0@;
            lemma_truncation(text@, spans);
            if spans.len() == 0 {
                assert(spans =~= Seq::<(usize, usize)>::empty());
                lemma_unmatched_text_unchanged(text@);
            }
        }
    }
    highlight_found(shown, cut, found)
}

} // verus!
