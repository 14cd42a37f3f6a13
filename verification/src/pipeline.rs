//! The data model of one input line: a pipeline is an ordered sequence of
//! segments, and a segment is an ordered sequence of tokens whose first
//! token names the program.

use vstd::prelude::*;

verus! {

/// One command of a pipeline: `tokens[0]` is the program name, the remaining
/// tokens are its arguments. A segment is immutable once parsed.
pub struct Segment {
    pub tokens: Vec<String>,
}

impl View for Segment {
    type V = Seq<Seq<char>>;

    open spec fn view(&self) -> Seq<Seq<char>> {
        self.tokens@.map_values(|t: String| t@)
    }
}

impl Segment {
    /// The parsing contract guarantees that every segment that reaches the
    /// executor carries at least a program name.
    pub open spec fn wf(&self) -> bool {
        self@.len() >= 1
    }

    pub fn new(tokens: Vec<String>) -> (s: Segment)
        requires
            tokens@.len() >= 1,
        ensures
            s@ == tokens@.map_values(|t: String| t@),
            s.wf(),
    {
        let s = Segment { tokens };
        proof {
            assert(s@.len() == s.tokens@.len());
        }
        s
    }

    pub fn token_count(&self) -> (n: usize)
        ensures
            n == self@.len(),
    {
        proof {
            assert(self@.len() == self.tokens@.len());
        }
        self.tokens.len()
    }

    pub fn token(&self, i: usize) -> (t: &String)
        requires
            i < self@.len(),
        ensures
            t@ == self@[i as int],
    {
        proof {
            assert(self@[i as int] == self.tokens@.map_values(|t: String| t@)[i as int]);
        }
        &self.tokens[i]
    }

    pub fn program(&self) -> (t: &String)
        requires
            self.wf(),
        ensures
            t@ == self@[0],
    {
        self.token(0)
    }
}

} // verus!
