//! Fuzzy lookup of a query string against a line-delimited corpus.

mod corpus;
mod matcher;
mod searcher;
mod text;

pub use corpus::{
    corpus_of, join_lines, lemma_split_lines_join, lemma_split_lines_nonempty, load_corpus,
    split_corpus, split_lines, CorpusFile, FuzzySearchError,
};
pub use matcher::{
    abs_diff, distance, find_closest_str, is_closest, lemma_closest_first_occurrence,
    lemma_closest_unique, mismatches, mismatches_upto, raw_distance,
};
pub use searcher::{lemma_search_deterministic, FuzzySearcher};
