use wechatbot::chunk::{can_chunk, chunk_text};

#[test]
fn short_text_is_one_chunk() {
    assert_eq!(chunk_text("hello", 2000), vec!["hello".to_string()]);
}

#[test]
fn empty_text_is_one_empty_chunk() {
    assert_eq!(chunk_text("", 10), vec![String::new()]);
}

#[test]
fn text_of_exactly_the_limit_is_not_cut() {
    assert_eq!(chunk_text("abcdefghij", 10), vec!["abcdefghij".to_string()]);
}

#[test]
fn cut_without_separators_is_at_the_limit() {
    assert_eq!(
        chunk_text("abcdefghijklmnopqrstuvwxy", 10),
        vec!["abcdefghij".to_string(), "klmnopqrst".to_string(), "uvwxy".to_string()]
    );
}

#[test]
fn cut_prefers_blank_line() {
    // window "abcde\n\nfg\n" holds a blank line at 5 and a line break at 9
    let text = "abcde\n\nfg\nhijk";
    assert_eq!(
        chunk_text(text, 10),
        vec!["abcde\n\n".to_string(), "fg\nhijk".to_string()]
    );
}

#[test]
fn cut_after_last_line_break() {
    let text = "abcd\nefgh ijklmnop";
    assert_eq!(
        chunk_text(text, 10),
        vec!["abcd\n".to_string(), "efgh ".to_string(), "ijklmnop".to_string()]
    );
}

#[test]
fn cut_after_last_space() {
    let text = "abcd efgh ijklm";
    assert_eq!(
        chunk_text(text, 10),
        vec!["abcd efgh ".to_string(), "ijklm".to_string()]
    );
}

#[test]
fn separator_too_early_is_ignored() {
    // three tenths of 10 is 3: a space at index 2 is too early to cut at
    let text = "ab cdefghijklmn";
    assert_eq!(
        chunk_text(text, 10),
        vec!["ab cdefghi".to_string(), "jklmn".to_string()]
    );
}

#[test]
fn separator_just_past_the_floor_is_used() {
    // a space at index 4 (> 3) is used
    let text = "abcd efghijklmn";
    assert_eq!(chunk_text(text, 10), vec!["abcd ".to_string(), "efghijklmn".to_string()]);
}

#[test]
fn chunks_rejoin_to_the_text() {
    let text = "first paragraph line one\nline two\n\nsecond paragraph with words and more words\nend";
    for limit in 1..40 {
        let chunks = chunk_text(text, limit);
        assert_eq!(chunks.concat(), text);
        for c in &chunks {
            assert!(!c.is_empty() && c.len() <= limit);
        }
    }
}

#[test]
fn multibyte_text_on_boundaries() {
    // each character takes three bytes: windows of 6 bytes end on boundaries
    let text = "你好世界再见";
    assert!(can_chunk(text, 6));
    assert_eq!(
        chunk_text(text, 6),
        vec!["你好".to_string(), "世界".to_string(), "再见".to_string()]
    );
}

#[test]
fn window_inside_a_character_cannot_be_chunked() {
    assert!(!can_chunk("你好世界", 4));
    assert!(can_chunk("你好", 6));
    assert!(can_chunk("", 0));
    assert!(!can_chunk("a", 0));
}

#[test]
fn default_limit_splits_long_reply() {
    let text = "x".repeat(4500);
    let chunks = chunk_text(&text, 2000);
    assert_eq!(chunks.len(), 3);
    assert_eq!(chunks[0].len(), 2000);
    assert_eq!(chunks[1].len(), 2000);
    assert_eq!(chunks[2].len(), 500);
}

#[test]
fn pieces_but_the_last_pass_three_tenths_of_the_limit() {
    let text = "a b c d e f g h i j k l m n o p q r s t u v w x y z\nand more words here";
    for limit in 1..30usize {
        let chunks = chunk_text(text, limit);
        if text.len() > limit {
            for c in &chunks[..chunks.len() - 1] {
                assert!(c.len() > limit * 3 / 10, "limit {} piece {:?}", limit, c);
            }
        }
    }
}

#[test]
fn ascii_text_is_always_chunkable() {
    let text = "plain ascii text\nwith lines\n\nand paragraphs";
    for limit in 1..60usize {
        assert!(can_chunk(text, limit));
    }
}
