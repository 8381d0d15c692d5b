use lindera_core::error::LinderaErrorKind;
use title_card::analysis::accept_pieces;
use title_card::analysis::interpret_analysis;
use title_card::analysis::resolve_tokens;
use title_card::analysis::take_analysis;
use title_card::analysis::SegmentationUnavailable;
use title_card::analysis::Segmenter;
use title_card::segment::is_space_char;
use title_card::segment::split;
use title_card::segment::Fallback;
use title_card::token::Token;

fn texts_of(tokens: &[Token]) -> Vec<String> {
    tokens.iter().map(|t| t.as_str().to_string()).collect()
}

fn strings(pieces: &[&str]) -> Vec<String> {
    pieces.iter().map(|p| p.to_string()).collect()
}

#[test]
fn split_by_characters_gives_one_token_per_character() {
    let tokens = split(Fallback::Characters, "日本語ab");
    assert_eq!(texts_of(&tokens), strings(&["日", "本", "語", "a", "b"]));
}

#[test]
fn split_by_characters_keeps_spaces_as_tokens() {
    let tokens = split(Fallback::Characters, "a b");
    assert_eq!(texts_of(&tokens), strings(&["a", " ", "b"]));
}

#[test]
fn split_by_words_breaks_after_white_space() {
    let tokens = split(Fallback::Words, "hello world  again");
    assert_eq!(texts_of(&tokens), strings(&["hello ", "world  ", "again"]));
}

#[test]
fn split_by_words_keeps_leading_and_trailing_space() {
    let tokens = split(Fallback::Words, "  a b ");
    assert_eq!(texts_of(&tokens), strings(&["  ", "a ", "b "]));
    let only_space = split(Fallback::Words, " \t ");
    assert_eq!(texts_of(&only_space), strings(&[" \t "]));
}

#[test]
fn split_by_words_leaves_unspaced_text_whole() {
    let tokens = split(Fallback::Words, "日本語のテキスト");
    assert_eq!(texts_of(&tokens), strings(&["日本語のテキスト"]));
}

#[test]
fn split_by_words_breaks_at_ideographic_space() {
    let tokens = split(Fallback::Words, "東京\u{3000}大阪\n京都");
    assert_eq!(texts_of(&tokens), strings(&["東京\u{3000}", "大阪\n", "京都"]));
}

#[test]
fn split_of_empty_text_has_no_tokens() {
    assert!(split(Fallback::Characters, "").is_empty());
    assert!(split(Fallback::Words, "").is_empty());
}

#[test]
fn split_of_one_character_is_that_character() {
    assert_eq!(texts_of(&split(Fallback::Characters, "語")), strings(&["語"]));
    assert_eq!(texts_of(&split(Fallback::Words, " ")), strings(&[" "]));
}

#[test]
fn split_tokens_join_to_the_text() {
    let samples = ["", "a", "a b  c", " 日本 語\tx\r\n", "no-spaces", "   "];
    for text in samples {
        for rule in [Fallback::Characters, Fallback::Words] {
            let tokens = split(rule, text);
            assert_eq!(texts_of(&tokens).concat(), text);
            assert!(tokens.iter().all(|t| !t.as_str().is_empty()));
        }
    }
}

#[test]
fn white_space_characters() {
    for c in [' ', '\t', '\n', '\r', '\u{b}', '\u{c}', '\u{85}', '\u{a0}', '\u{1680}', '\u{2000}'] {
        assert!(is_space_char(c));
    }
    for c in ['\u{200a}', '\u{2028}', '\u{2029}', '\u{202f}', '\u{205f}', '\u{3000}'] {
        assert!(is_space_char(c));
    }
    for c in ['a', '語', '-', '0', '\u{8}', '\u{e}', '\u{1f}', '\u{180e}', '\u{200b}', '\u{feff}'] {
        assert!(!is_space_char(c));
    }
}

#[test]
fn white_space_is_what_the_standard_library_calls_white_space() {
    for code in 0u32..=0x10ffff {
        if let Some(c) = char::from_u32(code) {
            assert_eq!(is_space_char(c), c.is_whitespace());
        }
    }
}

#[test]
fn split_by_words_breaks_after_any_white_space() {
    let tokens = split(Fallback::Words, "a\u{a0}b\u{2003}c\u{2028}d");
    assert_eq!(texts_of(&tokens), strings(&["a\u{a0}", "b\u{2003}", "c\u{2028}", "d"]));
}

#[test]
fn accept_pieces_takes_a_segmentation() {
    let pieces = strings(&["東京", "スカイツリー", "の"]);
    let tokens = accept_pieces("東京スカイツリーの", &pieces).unwrap();
    assert_eq!(texts_of(&tokens), pieces);
    let none = accept_pieces("", &Vec::new()).unwrap();
    assert!(none.is_empty());
}

#[test]
fn accept_pieces_refuses_an_empty_piece() {
    assert!(accept_pieces("ab", &strings(&["a", "", "b"])).is_none());
    assert!(accept_pieces("", &strings(&[""])).is_none());
}

#[test]
fn accept_pieces_refuses_pieces_that_are_not_the_text() {
    assert!(accept_pieces("abc", &strings(&["a", "b"])).is_none());
    assert!(accept_pieces("ab", &strings(&["a", "b", "c"])).is_none());
    assert!(accept_pieces("ab", &strings(&["b", "a"])).is_none());
    assert!(accept_pieces("a b", &strings(&["a", "b"])).is_none());
    assert!(accept_pieces("ab", &Vec::new()).is_none());
}

#[test]
fn interpret_analysis_passes_a_segmentation_on() {
    let pieces = strings(&["これ", "は", "テスト"]);
    let tokens = interpret_analysis("これはテスト", Ok(pieces.clone())).unwrap();
    assert_eq!(texts_of(&tokens), pieces);
}

#[test]
fn interpret_analysis_reports_incomplete_pieces() {
    let outcome = interpret_analysis("これはテスト", Ok(strings(&["これ", "テスト"])));
    assert_eq!(outcome.unwrap_err(), SegmentationUnavailable::AnalysisIncomplete);
}

#[test]
fn interpret_analysis_reports_a_failed_analysis() {
    let error = LinderaErrorKind::Content.with_error(std::fmt::Error);
    let outcome = interpret_analysis("これはテスト", Err(error));
    assert_eq!(outcome.unwrap_err(), SegmentationUnavailable::AnalysisFailed);
}

#[test]
fn a_term_that_the_analysis_keeps_whole_stays_one_token() {
    let text = "東京スカイツリーの最寄り駅";
    let pieces = strings(&["東京スカイツリー", "の", "最寄り駅"]);
    let tokens = interpret_analysis(text, Ok(pieces)).unwrap();
    assert_eq!(tokens.len(), 3);
    assert_eq!(tokens[0].as_str(), "東京スカイツリー");
    let by_character = split(Fallback::Characters, text);
    assert_eq!(by_character.len(), 13);
    assert_eq!(by_character[0].as_str(), "東");
}

#[test]
fn resolve_tokens_keeps_what_the_analyzer_found() {
    let found = vec![Token::new("ab"), Token::new("c")];
    let tokens = resolve_tokens("abc", Ok(found), Fallback::Characters);
    assert_eq!(texts_of(&tokens), strings(&["ab", "c"]));
}

#[test]
fn resolve_tokens_falls_back_to_the_rule() {
    for reason in [
        SegmentationUnavailable::NoAnalyzer,
        SegmentationUnavailable::AnalysisFailed,
        SegmentationUnavailable::AnalysisIncomplete,
    ] {
        let by_character = resolve_tokens("a b", Err(reason), Fallback::Characters);
        assert_eq!(texts_of(&by_character), strings(&["a", " ", "b"]));
        let by_word = resolve_tokens("a b", Err(reason), Fallback::Words);
        assert_eq!(texts_of(&by_word), strings(&["a ", "b"]));
    }
}

#[test]
fn segmenter_by_rule_splits_by_that_rule() {
    let characters = Segmenter::Rule(Fallback::Characters);
    assert_eq!(texts_of(&characters.segment("ab c", None)), strings(&["a", "b", " ", "c"]));
    let words = Segmenter::Rule(Fallback::Words);
    assert_eq!(texts_of(&words.segment("ab c", None)), strings(&["ab ", "c"]));
}

#[test]
fn segmenter_by_rule_takes_no_analysis() {
    let words = Segmenter::Rule(Fallback::Words);
    assert!(!words.asks_analyzer());
    let tokens = words.segment("ab c", Some(Ok(strings(&["a", "b c"]))));
    assert_eq!(texts_of(&tokens), strings(&["ab ", "c"]));
}

#[test]
fn segmenter_by_dictionary_takes_the_pieces_of_the_analysis() {
    let segmenter = Segmenter::Dictionary { fallback: Fallback::Characters };
    assert!(segmenter.asks_analyzer());
    let tokens = segmenter.segment("東京タワーの駅", Some(Ok(strings(&["東京タワー", "の", "駅"]))));
    assert_eq!(texts_of(&tokens), strings(&["東京タワー", "の", "駅"]));
}

#[test]
fn segmenter_by_dictionary_falls_back_to_its_rule() {
    let segmenter = Segmenter::Dictionary { fallback: Fallback::Words };
    let by_rule = strings(&["ab ", "c"]);
    assert_eq!(texts_of(&segmenter.segment("ab c", None)), by_rule);
    assert_eq!(texts_of(&segmenter.segment("ab c", Some(Ok(strings(&["ab", "c"]))))), by_rule);
    assert_eq!(texts_of(&segmenter.segment("ab c", Some(Ok(strings(&["ab ", "", "c"]))))), by_rule);
    let error = LinderaErrorKind::Content.with_error(std::fmt::Error);
    assert_eq!(texts_of(&segmenter.segment("ab c", Some(Err(error)))), by_rule);
}

#[test]
fn segmenter_takes_the_pieces_of_a_long_text() {
    let segmenter = Segmenter::Dictionary { fallback: Fallback::Characters };
    let filler = "の駅".repeat(10_000);
    let text = format!("{}東京タワー", filler);
    assert!(text.len() > 60_000);
    let pieces = vec![filler.clone(), "東京タワー".to_string()];
    let tokens = segmenter.segment(&text, Some(Ok(pieces.clone())));
    assert_eq!(texts_of(&tokens), pieces);
}

#[test]
fn segmenter_follows_whether_there_is_an_analyzer() {
    assert_eq!(
        Segmenter::with_analyzer(true, Fallback::Words),
        Segmenter::Dictionary { fallback: Fallback::Words }
    );
    assert_eq!(
        Segmenter::with_analyzer(false, Fallback::Characters),
        Segmenter::Rule(Fallback::Characters)
    );
}

#[test]
fn take_analysis_gives_each_reason() {
    let short = "ab";
    assert_eq!(take_analysis(short, None).unwrap_err(), SegmentationUnavailable::NoAnalyzer);
    let error = LinderaErrorKind::Content.with_error(std::fmt::Error);
    assert_eq!(
        take_analysis(short, Some(Err(error))).unwrap_err(),
        SegmentationUnavailable::AnalysisFailed
    );
    assert_eq!(
        take_analysis(short, Some(Ok(strings(&["a"])))).unwrap_err(),
        SegmentationUnavailable::AnalysisIncomplete
    );
    let long = "a".repeat(100_000);
    let whole = take_analysis(&long, Some(Ok(vec![long.clone()]))).unwrap();
    assert_eq!(texts_of(&whole), vec![long.clone()]);
    let tokens = take_analysis(short, Some(Ok(strings(&["a", "b"])))).unwrap();
    assert_eq!(texts_of(&tokens), strings(&["a", "b"]));
}
