//! One text to be typed, with the metadata the quote service sends along.
use vstd::prelude::*;

verus! {

/// A quote: its content is the text the user types.
#[derive(Default, Debug, Clone, PartialEq)]
pub struct Quote {
    pub content: String,
    pub author: String,
    pub tags: Vec<String>,
    pub length: i64,
}

impl Quote {
    /// The content as a sequence of characters.
    pub fn content_chars(&self) -> (r: Vec<char>)
        ensures
            r@ == self.content@,
    {
        let s: &str = self.content.as_str();
        let n: usize = s.unicode_len();
        let mut r: Vec<char> = Vec::new();
        let mut i: usize = 0;
        while i < n
            invariant
                n == s@.len(),
                s@ == self.content@,
                i <= n,
                r@ == s@.take(i as int),
            decreases n - i,
        {
            r.push(s.get_char(i));
            proof {
                assert(s@.take(i + 1) =~= s@.take(i as int).push(s@[i as int]));
            }
            i = i + 1;
        }
        proof {
            assert(s@.take(n as int) =~= s@);
        }
        r
    }
}

} // verus!
