use fuzzy_search::{
    distance, find_closest_str, load_corpus, split_corpus, CorpusFile, FuzzySearchError,
    FuzzySearcher,
};

fn searcher_of(text: &str) -> FuzzySearcher {
    match FuzzySearcher::new(CorpusFile::Contents(text.as_bytes().to_vec())) {
        Ok(s) => s,
        Err(e) => panic!("corpus refused: {:?}", e),
    }
}

fn strings(items: &[&str]) -> Vec<String> {
    items.iter().map(|s| s.to_string()).collect()
}

#[test]
fn it_works() {}

#[test]
fn exact_match_is_found() {
    let searcher = searcher_of("cat\ndog\ncar");
    assert_eq!(distance("cat", "cat"), 0);
    assert_eq!(distance("cat", "dog"), 3);
    assert_eq!(distance("cat", "car"), 1);
    assert_eq!(searcher.search("cat"), "cat");
}

#[test]
fn near_match_with_length_difference() {
    let searcher = searcher_of("hello\nhelp");
    assert_eq!(distance("hello", "help"), 2);
    assert_eq!(distance("hello", "hello"), 0);
    assert_eq!(searcher.search("hello"), "hello");
    assert_eq!(searcher.search("helpx"), "help");
}

#[test]
fn duplicates_give_the_first_occurrence() {
    let searcher = searcher_of("ab\nab");
    assert_eq!(searcher.search("ab"), "ab");
    assert_eq!(searcher.search("ab"), searcher.search("ab"));
    let corpus = strings(&["ab", "ab"]);
    assert_eq!(find_closest_str("ab", &corpus), "ab");
}

#[test]
fn equal_distances_go_to_the_earlier_entry() {
    let searcher = searcher_of("ax\nay\naz");
    assert_eq!(searcher.search("aq"), "ax");
    let searcher = searcher_of("zz\nbc\nbd");
    assert_eq!(searcher.search("bq"), "bc");
}

#[test]
fn no_entry_below_query_length_keeps_the_first() {
    // "qqqq" is nearer (4) than "first" (5), yet neither is below 2.
    let searcher = searcher_of("first\nqqqq");
    assert_eq!(distance("ab", "first"), 5);
    assert_eq!(distance("ab", "qqqq"), 4);
    assert_eq!(searcher.search("ab"), "first");
}

#[test]
fn distance_counts_length_difference_and_mismatches() {
    assert_eq!(distance("", ""), 0);
    assert_eq!(distance("", "abc"), 3);
    assert_eq!(distance("abc", ""), 3);
    assert_eq!(distance("abcd", "abxdef"), 3);
    assert_eq!(distance("kitten", "sitting"), 3);
    assert_eq!(distance("héllo", "hello"), 1);
    assert_eq!(distance("日本", "日本語"), 1);
}

#[test]
fn loader_splits_on_newlines() {
    let corpus = load_corpus(b"a\nb\nc".to_vec());
    assert_eq!(corpus, Ok(strings(&["a", "b", "c"])));
}

#[test]
fn loader_keeps_trailing_empty_entry() {
    let corpus = load_corpus(b"a\nb\nc\n".to_vec());
    assert_eq!(corpus, Ok(strings(&["a", "b", "c", ""])));
    assert_eq!(load_corpus(Vec::new()), Ok(strings(&[""])));
    assert_eq!(load_corpus(b"\n\n".to_vec()), Ok(strings(&["", "", ""])));
}

#[test]
fn loader_decodes_utf8() {
    let corpus = load_corpus("café\nnaïve".as_bytes().to_vec());
    assert_eq!(corpus, Ok(strings(&["café", "naïve"])));
    assert_eq!(split_corpus("x\r\ny"), strings(&["x\r", "y"]));
}

#[test]
fn loader_refuses_invalid_utf8() {
    let corpus = load_corpus(vec![b'a', 0xff, b'\n', b'b']);
    assert_eq!(corpus, Err(FuzzySearchError::UnableToReadCorpusFileToString));
}

#[test]
fn missing_file_is_an_open_error() {
    match FuzzySearcher::new(CorpusFile::Unopened) {
        Ok(_) => panic!("a searcher without a corpus"),
        Err(e) => assert_eq!(e, FuzzySearchError::UnableToOpenCorpusFile),
    }
}

#[test]
fn unreadable_file_is_a_read_error() {
    match FuzzySearcher::new(CorpusFile::Unreadable) {
        Ok(_) => panic!("a searcher without a corpus"),
        Err(e) => assert_eq!(e, FuzzySearchError::UnableToReadCorpusFileToString),
    }
    match FuzzySearcher::new(CorpusFile::Contents(vec![0xc3, 0x28])) {
        Ok(_) => panic!("a searcher over invalid text"),
        Err(e) => assert_eq!(e, FuzzySearchError::UnableToReadCorpusFileToString),
    }
}

#[test]
fn empty_query_gives_the_first_entry() {
    let searcher = searcher_of("dog\n\ncat");
    assert_eq!(searcher.search(""), "dog");
    let searcher = searcher_of("");
    assert_eq!(searcher.search(""), "");
    assert_eq!(searcher.search("word"), "");
}

#[test]
fn result_is_an_entry_of_the_corpus() {
    let searcher = searcher_of("apple\nbanana\ncherry\n");
    let entries = strings(&["apple", "banana", "cherry", ""]);
    for q in ["appel", "banan", "x", "cherries", "zzzzzz"] {
        let r = searcher.search(q);
        assert!(entries.contains(&r), "{} gave {}", q, r);
    }
    assert_eq!(searcher.search("banan"), "banana");
    assert_eq!(searcher.search("chery"), "cherry");
}
