use site_search::highlight::{
    highlight_found, limit_text, mark_matches, post_process_response_text, whole_word_pattern,
    HighlightError, TEXT_LIMIT,
};

fn visible(highlight: &str) -> String {
    highlight.replace("<b>", "").replace("</b>", "")
}

#[test]
fn query_as_a_word_is_set_in_bold() {
    assert_eq!(
        post_process_response_text("The cat sat.", "cat"),
        Ok("The <b>cat</b> sat.".to_string())
    );
}

#[test]
fn every_occurrence_is_set_in_bold() {
    assert_eq!(
        post_process_response_text("cat and cat, not a dog", "cat"),
        Ok("<b>cat</b> and <b>cat</b>, not a dog".to_string())
    );
}

#[test]
fn match_ignores_case_and_keeps_the_text_as_written() {
    assert_eq!(
        post_process_response_text("The Cat sat on a CAT.", "cat"),
        Ok("The <b>Cat</b> sat on a <b>CAT</b>.".to_string())
    );
}

#[test]
fn query_inside_a_word_is_not_marked() {
    assert_eq!(
        post_process_response_text("concatenate the lists", "cat"),
        Ok("concatenate the lists".to_string())
    );
}

#[test]
fn text_without_the_query_comes_back_unchanged() {
    let text = "Nothing to see here.";
    assert_eq!(post_process_response_text(text, "cat"), Ok(text.to_string()));
}

#[test]
fn long_text_without_match_is_cut_and_marked_with_ellipsis() {
    let text: String = "abcdefghij".repeat(10);
    assert_eq!(text.chars().count(), 100);
    let expected = format!("{}...", "abcdefghij".repeat(8));
    assert_eq!(post_process_response_text(&text, "zebra"), Ok(expected));
}

#[test]
fn long_text_shows_exactly_the_budget() {
    let text = format!("a cat {}", "x".repeat(120));
    let highlight = post_process_response_text(&text, "cat").unwrap();
    assert!(highlight.starts_with("a <b>cat</b> xxx"));
    assert!(highlight.ends_with("..."));
    let shown = visible(&highlight[..highlight.len() - 3]);
    assert_eq!(shown.chars().count(), TEXT_LIMIT);
    assert_eq!(shown, text.chars().take(80).collect::<String>());
}

#[test]
fn text_of_exactly_the_budget_is_not_cut() {
    let text = "y".repeat(80);
    assert_eq!(post_process_response_text(&text, "cat"), Ok(text.clone()));
}

#[test]
fn text_one_over_the_budget_is_cut() {
    let text = "y".repeat(81);
    assert_eq!(
        post_process_response_text(&text, "cat"),
        Ok(format!("{}...", "y".repeat(80)))
    );
}

#[test]
fn budget_counts_characters_not_bytes() {
    let text = "é".repeat(100);
    assert_eq!(
        post_process_response_text(&text, "cat"),
        Ok(format!("{}...", "é".repeat(80)))
    );
    let short = "é".repeat(60);
    assert_eq!(short.len(), 120);
    assert_eq!(post_process_response_text(&short, "cat"), Ok(short.clone()));
}

#[test]
fn match_beyond_the_budget_is_not_shown() {
    let text = format!("{} cat", "x".repeat(90));
    assert_eq!(
        post_process_response_text(&text, "cat"),
        Ok(format!("{}...", "x".repeat(80)))
    );
}

#[test]
fn match_in_text_of_several_bytes_per_character() {
    assert_eq!(
        post_process_response_text("größe und Maß, Größe", "größe"),
        Ok("<b>größe</b> und Maß, <b>Größe</b>".to_string())
    );
}

#[test]
fn meta_characters_of_the_query_are_taken_literally() {
    assert_eq!(
        post_process_response_text("see a.b and axb", "a.b"),
        Ok("see <b>a.b</b> and axb".to_string())
    );
    assert_eq!(
        post_process_response_text("what (is) this", "(is"),
        Ok("what (is) this".to_string())
    );
}

#[test]
fn empty_query_marks_the_word_boundaries_only() {
    let highlight = post_process_response_text("ab cd", "").unwrap();
    assert_eq!(highlight, "<b></b>ab<b></b> <b></b>cd<b></b>");
    assert_eq!(visible(&highlight), "ab cd");
}

#[test]
fn pattern_escapes_the_query_between_word_boundaries() {
    assert_eq!(whole_word_pattern("cat"), r"\b(cat)\b");
    assert_eq!(whole_word_pattern(""), r"\b()\b");
    assert_eq!(whole_word_pattern("a.b*c"), r"\b(a\.b\*c)\b");
    assert_eq!(
        whole_word_pattern(r"\.+*?()|[]{}^$#&-~"),
        r"\b(\\\.\+\*\?\(\)\|\[\]\{\}\^\$\#\&\-\~)\b"
    );
    assert_eq!(whole_word_pattern("a b%c/é"), r"\b(a b%c/é)\b");
}

#[test]
fn limit_text_cuts_after_the_budget() {
    assert_eq!(limit_text("short"), ("short", false));
    assert_eq!(limit_text(""), ("", false));
    let long = "z".repeat(200);
    let (shown, cut) = limit_text(&long);
    assert_eq!(shown, "z".repeat(80));
    assert!(cut);
    let wide = "日".repeat(81);
    let (shown, cut) = limit_text(&wide);
    assert_eq!(shown, "日".repeat(80));
    assert!(cut);
}

#[test]
fn mark_matches_wraps_the_given_spans() {
    assert_eq!(
        mark_matches("The cat sat.", &vec![(4, 7)], false),
        "The <b>cat</b> sat."
    );
    assert_eq!(
        mark_matches("The cat sat.", &vec![(0, 3), (8, 11)], true),
        "<b>The</b> cat <b>sat</b>...."
    );
    assert_eq!(mark_matches("plain", &vec![], false), "plain");
    assert_eq!(mark_matches("plain", &vec![], true), "plain...");
    assert_eq!(mark_matches("", &vec![(0, 0)], false), "<b></b>");
    assert_eq!(mark_matches("über", &vec![(0, 5)], false), "<b>über</b>");
}

#[test]
fn query_too_large_for_the_regex_engine_is_an_error() {
    let query = "a".repeat(2_000_000);
    assert_eq!(
        post_process_response_text("some text", &query),
        Err(HighlightError::PatternRejected)
    );
}

#[test]
fn answer_with_matches_becomes_the_highlight() {
    assert_eq!(
        highlight_found("The cat sat.", false, Ok(vec![(4, 7)])),
        Ok("The <b>cat</b> sat.".to_string())
    );
    assert_eq!(
        highlight_found("The cat sat", true, Ok(vec![(4, 7), (8, 11)])),
        Ok("The <b>cat</b> <b>sat</b>...".to_string())
    );
    assert_eq!(highlight_found("plain", true, Ok(vec![])), Ok("plain...".to_string()));
}

#[test]
fn refused_pattern_becomes_the_error() {
    assert_eq!(
        highlight_found("The cat sat.", false, Err(regex::Error::Syntax("refused".to_string()))),
        Err(HighlightError::PatternRejected)
    );
    assert_eq!(
        highlight_found("", true, Err(regex::Error::CompiledTooBig(10))),
        Err(HighlightError::PatternRejected)
    );
}

#[test]
fn highlight_is_given_whatever_the_text_where_the_pattern_is_taken() {
    for text in ["", "cat", "no match here", &"long ".repeat(40)] {
        assert!(post_process_response_text(text, "cat").is_ok());
        assert!(post_process_response_text(text, "").is_ok());
        assert!(post_process_response_text(text, "a.b(c)[d]").is_ok());
    }
}

#[test]
fn refusal_depends_on_the_query_alone() {
    let query = "b".repeat(2_000_000);
    assert_eq!(post_process_response_text("", &query), Err(HighlightError::PatternRejected));
    assert_eq!(
        post_process_response_text("bbb and more", &query),
        Err(HighlightError::PatternRejected)
    );
}
