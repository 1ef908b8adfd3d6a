//! A corpus loaded once and searched for the entry closest to each query.

use vstd::prelude::*;
use vstd::utf8::valid_utf8;

use crate::corpus::{
    corpus_of, lemma_split_lines_nonempty, load_corpus, CorpusFile, FuzzySearchError,
};
use crate::matcher::{find_closest_str, is_closest, lemma_closest_unique};

verus! {

/// A fuzzy searcher over a corpus that is fixed when it is made.
pub struct FuzzySearcher {
    corpus: Vec<String>,
}

impl View for FuzzySearcher {
    type V = Seq<Seq<char>>;

    /// The corpus entries, in the order of the file's lines.
    closed spec fn view(&self) -> Seq<Seq<char>> {
        self.corpus@.map_values(|s: String| s@)
    }
}

impl FuzzySearcher {
    /// A corpus always holds at least one entry.
    #[verifier::type_invariant]
    spec fn corpus_nonempty(self) -> bool {
        self.corpus@.len() > 0
    }

    /// Makes a searcher from what reading the corpus file came to: one entry
    /// per line of the file, in order.
    pub fn new(file: CorpusFile) -> (r: Result<FuzzySearcher, FuzzySearchError>)
        ensures
            file is Unopened ==> r == Err::<FuzzySearcher, _>(
                FuzzySearchError::UnableToOpenCorpusFile,
            ),
            file is Unreadable ==> r == Err::<FuzzySearcher, _>(
                FuzzySearchError::UnableToReadCorpusFileToString,
            ),
            file is Contents ==> {
                &&& r is Ok <==> valid_utf8(file->Contents_0@)
                &&& r is Ok ==> r->Ok_0@ == corpus_of(file->Contents_0@)
                &&& r is Err ==> r == Err::<FuzzySearcher, _>(
                    FuzzySearchError::UnableToReadCorpusFileToString,
                )
            },
    {
        match file {
            CorpusFile::Unopened => Err(FuzzySearchError::UnableToOpenCorpusFile),
            CorpusFile::Unreadable => Err(FuzzySearchError::UnableToReadCorpusFileToString),
            CorpusFile::Contents(bytes) => {
                let ghost b = bytes@;
                match load_corpus(bytes) {
                    Ok(corpus) => {
                        proof {
                            lemma_split_lines_nonempty(vstd::utf8::decode_utf8(b));
                            assert(corpus@.len() == corpus@.map_values(|s: String| s@).len());
                        }
                        Ok(FuzzySearcher { corpus })
                    },
                    Err(e) => Err(e),
                }
            },
        }
    }

    /// The entry of the corpus closest to `arg`: the first entry of least
    /// distance, when that distance is below the length of `arg`; else the
    /// first entry. The result is a copy, apart from the corpus.
    pub fn search(&self, arg: &str) -> (r: String)
        ensures
            exists|k: int| is_closest(arg@, self@, k) && r@ == self@[k],
            self@.contains(r@),
            arg@.len() == 0 ==> r@ == self@[0],
    {
        proof {
            use_type_invariant(self);
        }
        let r = find_closest_str(arg, self.corpus.as_slice());
        proof {
            let k = choose|k: int| is_closest(arg@, self@, k) && r@ == self@[k];
            assert(self@[k] == r@);
        }
        r
    }
}

/// Two searches of one corpus for one query give the same string.
pub proof fn lemma_search_deterministic(
    searcher: FuzzySearcher,
    query: Seq<char>,
    r1: Seq<char>,
    r2: Seq<char>,
)
    requires
        exists|k: int| is_closest(query, searcher@, k) && r1 == searcher@[k],
        exists|k: int| is_closest(query, searcher@, k) && r2 == searcher@[k],
    ensures
        r1 == r2,
{
    let k1 = choose|k: int| is_closest(query, searcher@, k) && r1 == searcher@[k];
    let k2 = choose|k: int| is_closest(query, searcher@, k) && r2 == searcher@[k];
    lemma_closest_unique(query, searcher@, k1, k2);
}

} // verus!
