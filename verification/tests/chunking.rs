use signal_rag::chunk::chunk_body;
use signal_rag::chunk::chunk_with_budget;
use signal_rag::tokens::num_tokens_from_str;
use signal_rag::words::join_words;
use signal_rag::words::split_words;

fn many_words(n: usize) -> String {
    let mut words = Vec::new();
    for i in 0..n {
        words.push(format!("word{}", i));
    }
    words.join(" ")
}

#[test]
fn count_of_empty_is_zero() {
    assert_eq!(num_tokens_from_str(""), 0);
}

#[test]
fn count_is_deterministic() {
    let text = "The quick brown fox jumps over the lazy dog.";
    assert_eq!(num_tokens_from_str(text), num_tokens_from_str(text));
}

#[test]
fn count_of_two_common_words() {
    assert_eq!(num_tokens_from_str("hello world"), 2);
}

#[test]
fn count_of_nonempty_is_positive() {
    assert!(num_tokens_from_str("x") >= 1);
    assert!(num_tokens_from_str("   ") >= 1);
}

#[test]
fn short_body_is_one_chunk() {
    let body = "one two three four five six seven eight nine ten";
    let tokens = num_tokens_from_str(body);
    assert!(tokens <= 512);
    let chunks = chunk_body(body);
    assert_eq!(chunks.len(), 1);
    assert_eq!(chunks[0].index, 0);
    assert_eq!(chunks[0].text, body);
    assert_eq!(chunks[0].tokens, tokens);
}

#[test]
fn empty_body_is_one_empty_chunk() {
    let chunks = chunk_body("");
    assert_eq!(chunks.len(), 1);
    assert_eq!(chunks[0].text, "");
    assert_eq!(chunks[0].tokens, 0);
}

#[test]
fn long_body_chunk_count_is_ceiling() {
    let body = many_words(1000);
    assert!(num_tokens_from_str(&body) > 512);
    let chunks = chunk_body(&body);
    // window = floor(512 * 3 / 4) = 384 words; ceil(1000 / 384) = 3
    assert_eq!(chunks.len(), 3);
    let word_counts: Vec<usize> = chunks
        .iter()
        .map(|c| c.text.split_whitespace().count())
        .collect();
    assert_eq!(word_counts, vec![384, 384, 232]);
    for (j, c) in chunks.iter().enumerate() {
        assert_eq!(c.index, j);
        assert_eq!(c.tokens, num_tokens_from_str(&c.text));
        assert!(c.tokens > 0);
    }
}

#[test]
fn long_body_chunks_rebuild_the_word_sequence() {
    let body = format!("  {}  \n extra trailing words", many_words(600));
    assert!(num_tokens_from_str(&body) > 512);
    let chunks = chunk_body(&body);
    let texts: Vec<String> = chunks.iter().map(|c| c.text.clone()).collect();
    let rejoined = texts.join(" ");
    let original_words: Vec<&str> = body.split_whitespace().collect();
    let rejoined_words: Vec<&str> = rejoined.split_whitespace().collect();
    assert_eq!(rejoined_words, original_words);
}

#[test]
fn small_budget_windows_are_exact() {
    let body = "a b c d e f g h i j";
    let tokens = num_tokens_from_str(body);
    assert!(tokens > 4);
    // window = floor(4 * 3 / 4) = 3 words; ceil(10 / 3) = 4
    let chunks = chunk_with_budget(body, 4);
    assert_eq!(chunks.len(), 4);
    assert_eq!(chunks[0].text, "a b c");
    assert_eq!(chunks[1].text, "d e f");
    assert_eq!(chunks[2].text, "g h i");
    assert_eq!(chunks[3].text, "j");
    for (j, c) in chunks.iter().enumerate() {
        assert_eq!(c.index, j);
        assert_eq!(c.tokens, num_tokens_from_str(&c.text));
    }
}

#[test]
fn splitter_finds_the_words() {
    assert_eq!(split_words("  one   two\tthree \n"), vec!["one", "two", "three"]);
    assert_eq!(split_words(""), Vec::<String>::new());
    assert_eq!(split_words(" \t\n\r "), Vec::<String>::new());
    assert_eq!(split_words("solo"), vec!["solo"]);
}

#[test]
fn joiner_uses_single_spaces() {
    let words = vec!["a".to_string(), "b".to_string(), "c".to_string()];
    assert_eq!(join_words(&words, 0, 3), "a b c");
    assert_eq!(join_words(&words, 1, 2), "b");
    assert_eq!(join_words(&words, 2, 2), "");
}

#[test]
fn whitespace_only_body_over_budget_yields_no_chunks() {
    let body = " \n".repeat(50);
    assert!(num_tokens_from_str(&body) > 2);
    let chunks = chunk_with_budget(&body, 2);
    assert_eq!(chunks.len(), 0);
}

#[test]
fn odd_whitespace_does_not_change_the_words() {
    let body = "a\t\tb\n\nc   d\re";
    let tokens = num_tokens_from_str(body);
    assert!(tokens > 2);
    let chunks = chunk_with_budget(body, 2);
    // window = floor(2 * 3 / 4) = 1 word; one chunk per word
    assert_eq!(chunks.len(), 5);
    let texts: Vec<&str> = chunks.iter().map(|c| c.text.as_str()).collect();
    assert_eq!(texts, vec!["a", "b", "c", "d", "e"]);
}
