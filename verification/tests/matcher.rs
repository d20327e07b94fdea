use rooster::matcher::{
    fold_char, folded_chars, is_subsequence_of, is_substring_of, occurs_at_place, score_of,
};

fn chars(s: &str) -> Vec<char> {
    s.chars().collect()
}

#[test]
fn folding_touches_ascii_capitals_only() {
    assert_eq!(fold_char('A'), 'a');
    assert_eq!(fold_char('Z'), 'z');
    assert_eq!(fold_char('M'), 'm');
    assert_eq!(fold_char('a'), 'a');
    assert_eq!(fold_char('@'), '@');
    assert_eq!(fold_char('['), '[');
    assert_eq!(fold_char('0'), '0');
    assert_eq!(fold_char('É'), 'É');
    assert_eq!(folded_chars("YouTube É"), chars("youtube É"));
    assert_eq!(folded_chars(""), Vec::<char>::new());
}

#[test]
fn subsequence_keeps_the_order() {
    assert!(is_subsequence_of(&chars("ytb"), &chars("youtube")));
    assert!(is_subsequence_of(&chars(""), &chars("youtube")));
    assert!(is_subsequence_of(&chars(""), &chars("")));
    assert!(is_subsequence_of(&chars("youtube"), &chars("youtube")));
    assert!(is_subsequence_of(&chars("ee"), &chars("eae")));
    assert!(!is_subsequence_of(&chars("bty"), &chars("youtube")));
    assert!(!is_subsequence_of(&chars("ytb"), &chars("yahoo")));
    assert!(!is_subsequence_of(&chars("a"), &chars("")));
    assert!(!is_subsequence_of(&chars("youtubee"), &chars("youtube")));
    assert!(!is_subsequence_of(&chars("uu"), &chars("u")));
}

#[test]
fn substring_is_in_one_piece() {
    assert!(is_substring_of(&chars("tube"), &chars("youtube")));
    assert!(is_substring_of(&chars("you"), &chars("youtube")));
    assert!(is_substring_of(&chars(""), &chars("youtube")));
    assert!(is_substring_of(&chars(""), &chars("")));
    assert!(is_substring_of(&chars("ab"), &chars("aab")));
    assert!(!is_substring_of(&chars("ytb"), &chars("youtube")));
    assert!(!is_substring_of(&chars("youtubes"), &chars("youtube")));
    assert!(occurs_at_place(&chars("tube"), &chars("youtube"), 3));
    assert!(!occurs_at_place(&chars("tube"), &chars("youtube"), 2));
    assert!(!occurs_at_place(&chars("tube"), &chars("youtube"), 4));
    assert!(!occurs_at_place(&chars("tube"), &chars("youtube"), usize::MAX));
    assert!(occurs_at_place(&chars(""), &chars("abc"), 3));
    assert!(!occurs_at_place(&chars(""), &chars("abc"), 4));
}

#[test]
fn scores_of_known_pairs() {
    assert_eq!(score_of("ytb", "YouTube"), Some(428));
    assert_eq!(score_of("ytb", "Yahoo"), None);
    assert_eq!(score_of("y", "Yahoo"), Some(2200));
    assert_eq!(score_of("y", "YouTube"), Some(2142));
    assert_eq!(score_of("tube", "YouTube"), Some(1571));
    assert_eq!(score_of("you", "YouTube"), Some(2428));
    assert_eq!(score_of("YOUTUBE", "youtube"), Some(3000));
    assert_eq!(score_of("YouTube", "YouTube"), Some(3000));
    assert_eq!(score_of("x", "YouTube"), None);
    assert_eq!(score_of("YouTubes", "YouTube"), None);
    assert_eq!(score_of("", "abc"), Some(2000));
    assert_eq!(score_of("", ""), Some(3000));
    assert_eq!(score_of("a", ""), None);
    assert_eq!(score_of("é", "café"), Some(1250));
    assert_eq!(score_of("É", "café"), None);
    assert_eq!(score_of("ab", "abc"), Some(2666));
    assert_eq!(score_of("bc", "abc"), Some(1666));
    assert_eq!(score_of("ac", "abc"), Some(666));
    assert_eq!(score_of("c", "abcdefghij"), Some(1100));
    assert_eq!(score_of("aj", "abcdefghij"), Some(200));
}
