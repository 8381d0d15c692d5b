use title_card::metrics::GlyphMetrics;
use title_card::metrics::VerticalMetrics;
use title_card::scale::Scale;
use title_card::segment::split;
use title_card::segment::Fallback;
use title_card::token::Line;
use title_card::token::Token;
use title_card::wrap::wrap;

fn wrap_metrics() -> GlyphMetrics {
    let vertical = VerticalMetrics::new(800, -200, 100).unwrap();
    let mut metrics = GlyphMetrics::new(vertical, 500);
    metrics.set_advance('W', 1000);
    metrics.set_advance('i', 250);
    metrics
}

fn tokens_of(texts: &[&str]) -> Vec<Token> {
    texts.iter().map(|t| Token::new(t)).collect()
}

fn lines_as_text(lines: &[Line]) -> Vec<Vec<String>> {
    lines
        .iter()
        .map(|l| l.tokens.iter().map(|t| t.as_str().to_string()).collect())
        .collect()
}

fn expected(lines: &[&[&str]]) -> Vec<Vec<String>> {
    lines.iter().map(|l| l.iter().map(|t| t.to_string()).collect()).collect()
}

#[test]
fn wrap_of_no_tokens_is_one_empty_line() {
    let metrics = wrap_metrics();
    let lines = wrap(&metrics, &Vec::new(), 630, Scale::from_pixels(80).unwrap());
    assert_eq!(lines.len(), 1);
    assert_eq!(lines[0].len(), 0);
    assert_eq!(lines[0].to_text(), "");
}

#[test]
fn wrap_packs_tokens_greedily() {
    let metrics = wrap_metrics();
    let tokens = tokens_of(&["WWW", "WWW", "WWW"]);
    let lines = wrap(&metrics, &tokens, 630, Scale::from_pixels(80).unwrap());
    assert_eq!(lines_as_text(&lines), expected(&[&["WWW", "WWW"], &["WWW"]]));
}

#[test]
fn wrap_keeps_a_token_that_fits_exactly() {
    let metrics = wrap_metrics();
    let tokens = tokens_of(&["WWW", "WWW", "i"]);
    let lines = wrap(&metrics, &tokens, 480, Scale::from_pixels(80).unwrap());
    assert_eq!(lines_as_text(&lines), expected(&[&["WWW", "WWW"], &["i"]]));
    let a_pixel_less = wrap(&metrics, &tokens, 479, Scale::from_pixels(80).unwrap());
    assert_eq!(lines_as_text(&a_pixel_less), expected(&[&["WWW"], &["WWW", "i"]]));
}

#[test]
fn wrap_puts_everything_on_one_line_when_it_fits() {
    let metrics = wrap_metrics();
    let tokens = tokens_of(&["W", "i", "W"]);
    let lines = wrap(&metrics, &tokens, 630, Scale::from_pixels(80).unwrap());
    assert_eq!(lines_as_text(&lines), expected(&[&["W", "i", "W"]]));
}

#[test]
fn a_token_wider_than_the_target_stands_alone() {
    let metrics = wrap_metrics();
    let scale = Scale::from_pixels(80).unwrap();
    let tokens = tokens_of(&["WWWWWWWW"]);
    let lines = wrap(&metrics, &tokens, 630, scale);
    assert_eq!(lines_as_text(&lines), expected(&[&[], &["WWWWWWWW"]]));
    let holding: Vec<&Line> = lines.iter().filter(|l| l.len() > 0).collect();
    assert_eq!(holding.len(), 1);
    assert_eq!(holding[0].len(), 1);
    assert_eq!(holding[0].to_text(), "WWWWWWWW");
    assert!(!metrics.fits_width(&holding[0].to_text(), scale, 630));
    assert_eq!(metrics.width("WWWWWWWW", scale), 640 * 64_000);
}

#[test]
fn a_wide_token_between_others_gets_its_own_line() {
    let metrics = wrap_metrics();
    let tokens = tokens_of(&["WW", "WWWWWWWW", "i"]);
    let lines = wrap(&metrics, &tokens, 630, Scale::from_pixels(80).unwrap());
    assert_eq!(lines_as_text(&lines), expected(&[&["WW"], &["WWWWWWWW"], &["i"]]));
}

#[test]
fn wrap_with_a_target_of_zero_gives_each_token_its_line() {
    let metrics = wrap_metrics();
    let tokens = tokens_of(&["W", "i"]);
    let lines = wrap(&metrics, &tokens, 0, Scale::from_pixels(80).unwrap());
    assert_eq!(lines_as_text(&lines), expected(&[&[], &["W"], &["i"]]));
}

#[test]
fn wrapped_lines_join_to_the_tokens() {
    let metrics = wrap_metrics();
    let text = "WiW WWi iiii WWWWWWWWWW i W";
    let tokens = split(Fallback::Words, text);
    for target in [0u32, 1, 100, 250, 630, 5000] {
        let lines = wrap(&metrics, &tokens, target, Scale::from_pixels(80).unwrap());
        let joined: String = lines.iter().map(|l| l.to_text()).collect();
        assert_eq!(joined, text);
        let count: usize = lines.iter().map(|l| l.len()).sum();
        assert_eq!(count, tokens.len());
    }
}

#[test]
fn only_a_single_token_exceeds_the_target_width() {
    let metrics = wrap_metrics();
    let text = "WiW WWi iiii WWWWWWWWWW i W WW WW WW";
    let tokens = split(Fallback::Words, text);
    for pixels in [1u32, 20, 80] {
        let scale = Scale::from_pixels(pixels).unwrap();
        for target in [0u32, 1, 100, 250, 630, 5000] {
            let lines = wrap(&metrics, &tokens, target, scale);
            assert!(!lines.is_empty());
            for (k, line) in lines.iter().enumerate() {
                if line.len() > 1 || k == 0 {
                    assert!(metrics.fits_width(&line.to_text(), scale, target));
                }
                if k > 0 {
                    assert!(line.len() >= 1);
                    let with_next = format!("{}{}", lines[k - 1].to_text(), line.tokens[0].as_str());
                    assert!(!metrics.fits_width(&with_next, scale, target));
                }
            }
        }
    }
}

#[test]
fn line_of_text_is_one_unit() {
    let line = Line::of_text("日本語");
    assert_eq!(line.len(), 1);
    assert_eq!(line.to_text(), "日本語");
    let empty = Line::of_text("");
    assert_eq!(empty.len(), 0);
    assert_eq!(empty.to_text(), "");
    assert_eq!(Line::empty().len(), 0);
}

#[test]
fn cloned_line_has_the_same_tokens() {
    let line = Line { tokens: tokens_of(&["ab", "c"]) };
    let copy = line.clone();
    assert_eq!(copy.len(), 2);
    assert_eq!(copy.to_text(), "abc");
    assert_eq!(copy.tokens[1].as_str(), "c");
}

fn fewest_lines(metrics: &GlyphMetrics, texts: &[&str], target: u32, scale: Scale) -> usize {
    let mut fewest = usize::MAX;
    let breaks = texts.len().saturating_sub(1);
    for mask in 0u32..(1 << breaks) {
        let mut lines: Vec<Vec<&str>> = vec![Vec::new()];
        for (i, text) in texts.iter().enumerate() {
            lines.last_mut().unwrap().push(text);
            if i < breaks && mask & (1 << i) != 0 {
                lines.push(Vec::new());
            }
        }
        let fits = |line: &Vec<&str>| metrics.fits_width(&line.concat(), scale, target);
        let rest_fit = lines.iter().skip(1).all(|l| l.len() < 2 || fits(l));
        if !texts.is_empty() && rest_fit && lines[0].len() < 2 && !fits(&lines[0]) {
            fewest = fewest.min(lines.len() + 1);
        }
        if rest_fit && fits(&lines[0]) {
            fewest = fewest.min(lines.len());
        }
    }
    fewest
}

#[test]
fn no_wrapping_has_fewer_lines_than_the_greedy_one() {
    let metrics = wrap_metrics();
    let samples: [&[&str]; 6] = [
        &[],
        &["W"],
        &["WWWWWWWWW", "i"],
        &["WW", "WWW", "i", "WWWW", "ii", "W", "WWWWWWWWW", "i", "i"],
        &["i", "i", "i", "i", "i", "i", "i", "i", "i", "i"],
        &["WWW", "WWW", "WWWWWWWWW", "WWW", "WWW", "WWW", "i"],
    ];
    let scale = Scale::from_pixels(80).unwrap();
    for texts in samples {
        for target in [0u32, 20, 45, 100, 250, 480, 630, 5000] {
            let lines = wrap(&metrics, &tokens_of(texts), target, scale);
            assert_eq!(lines.len(), fewest_lines(&metrics, texts, target, scale));
        }
    }
}
