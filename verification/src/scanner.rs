//! The character-by-character scanner: it walks the source, accumulates a
//! piece of text, and emits a token whenever the accumulated piece, with its
//! surrounding whitespace trimmed away, spells one.

use crate::token::Token;
use crate::token::TokenView;
use crate::token::spec_from_string;
use vstd::prelude::*;
use vstd::string::StrSliceExecFns;
use vstd::string::StringExecFns;

verus! {

/// A failure of the scanning stage.
#[derive(Debug)]
pub enum ScannerError {
    SyntaxError,
}

impl ScannerError {
    /// The message this error prints as.
    pub fn message(&self) -> (r: &'static str)
        ensures
            r@ == "SyntaxError!"@,
    {
        "SyntaxError!"
    }
}

/// Whether a character counts as whitespace when a scanned piece of text is
/// trimmed.
pub uninterp spec fn whitespace(c: char) -> bool;

/// Relies on char::is_whitespace: whether the character has the whitespace
/// property, a property of the character alone.
#[verifier::external_body]
fn is_whitespace_char(c: char) -> (r: bool)
    ensures
        r == whitespace(c),
{
    c.is_whitespace()
}

/// The first position at or after `i` whose character is not whitespace.
pub open spec fn trim_start_idx(s: Seq<char>, i: int) -> int
    decreases s.len() - i,
        when 0 <= i <= s.len()
{
    if i < s.len() && whitespace(s[i]) {
        trim_start_idx(s, i + 1)
    } else {
        i
    }
}

/// The position after the last character at or before position `j - 1` that
/// is not whitespace.
pub open spec fn trim_end_idx(s: Seq<char>, j: int) -> int
    decreases j,
        when 0 <= j <= s.len()
{
    if j > 0 && whitespace(s[j - 1]) {
        trim_end_idx(s, j - 1)
    } else {
        j
    }
}

/// The text with its leading and trailing whitespace removed.
pub open spec fn spec_trim(s: Seq<char>) -> Seq<char> {
    let a = trim_start_idx(s, 0);
    let b = trim_end_idx(s, s.len() as int);
    if a < b {
        s.subrange(a, b)
    } else {
        Seq::empty()
    }
}

/// The tokens that scanning emits from position `i` on, with `start` the
/// beginning of the piece of text being accumulated: at each position the
/// trimmed piece up to and including it is tried as a token; a recognised
/// token is emitted and a fresh piece begins after it.
pub open spec fn spec_scan_from(
    src: Seq<char>,
    start: int,
    i: int,
    acc: Seq<TokenView>,
) -> Seq<TokenView>
    decreases src.len() - i,
        when 0 <= start <= i <= src.len()
{
    if i >= src.len() {
        acc
    } else {
        match spec_from_string(spec_trim(src.subrange(start, i + 1))) {
            Some(t) => spec_scan_from(src, i + 1, i + 1, acc.push(t)),
            None => spec_scan_from(src, start, i + 1, acc),
        }
    }
}

/// The tokens that scanning a whole source emits.
pub open spec fn spec_scan(src: Seq<char>) -> Seq<TokenView> {
    spec_scan_from(src, 0, 0, Seq::empty())
}

/// The views of a sequence of tokens.
pub open spec fn tokens_view(ts: Seq<Token>) -> Seq<TokenView> {
    Seq::new(ts.len(), |k: int| ts[k]@)
}

/// Mathematical model of a [`Scanner`].
pub struct ScannerView {
    pub source: Seq<char>,
    pub start: int,
    pub current: int,
    pub tokens: Seq<TokenView>,
}

/// Walks a source text and collects the tokens it spells.
pub struct Scanner {
    source: String,
    start: usize,
    current: usize,
    tokens: Vec<Token>,
}

impl View for Scanner {
    type V = ScannerView;

    closed spec fn view(&self) -> ScannerView {
        ScannerView {
            source: self.source@,
            start: self.start as int,
            current: self.current as int,
            tokens: tokens_view(self.tokens@),
        }
    }
}

fn trim_front(seg: &str, m: usize, i: usize) -> (r: usize)
    requires
        m == seg@.len(),
        i <= m,
    ensures
        r as int == trim_start_idx(seg@, i as int),
        i <= r <= m,
    decreases m - i,
{
    if i < m && is_whitespace_char(seg.get_char(i)) {
        trim_front(seg, m, i + 1)
    } else {
        i
    }
}

fn trim_back(seg: &str, j: usize) -> (r: usize)
    requires
        j <= seg@.len(),
    ensures
        r as int == trim_end_idx(seg@, j as int),
        r <= j,
    decreases j,
{
    if j > 0 && is_whitespace_char(seg.get_char(j - 1)) {
        trim_back(seg, j - 1)
    } else {
        j
    }
}

impl Scanner {
    /// A scanner over the given source, with no tokens found yet.
    pub fn new(source_code: &str) -> (r: Scanner)
        ensures
            r@.source == source_code@,
            r@.start == 0,
            r@.current == 0,
            r@.tokens == Seq::<TokenView>::empty(),
    {
        let r = Scanner {
            start: 0,
            current: 0,
            tokens: Vec::new(),
            source: source_code.to_owned(),
        };
        proof {
            assert(r@.tokens =~= Seq::<TokenView>::empty());
        }
        r
    }

    /// Scans the whole source, appending every recognised token to this
    /// scanner's tokens, exactly as [`spec_scan`] describes.
    pub fn scan(&mut self) -> (r: Result<(), ScannerError>)
        ensures
            final(self)@.source == old(self)@.source,
            final(self)@.start == old(self)@.start,
            final(self)@.current == old(self)@.current,
            final(self)@.tokens == old(self)@.tokens + spec_scan(old(self)@.source),
            r is Ok,
    {
        let ghost src = self.source@;
        let ghost base = tokens_view(self.tokens@);
        let ghost mut acc: Seq<TokenView> = Seq::empty();
        let n = self.source.as_str().unicode_len();
        let mut i: usize = 0;
        let mut seg_start: usize = 0;
        proof {
            assert(tokens_view(self.tokens@) =~= base + acc);
        }
        while i < n
            invariant
                n == src.len(),
                seg_start <= i <= n,
                self.source@ == src,
                self.source == old(self).source,
                self.start == old(self).start,
                self.current == old(self).current,
                tokens_view(self.tokens@) == base + acc,
                base == tokens_view(old(self).tokens@),
                spec_scan_from(src, seg_start as int, i as int, acc) == spec_scan(src),
            decreases n - i,
        {
            let seg = self.source.as_str().substring_char(seg_start, i + 1);
            let m: usize = i + 1 - seg_start;
            let a = trim_front(seg, m, 0);
            let b = trim_back(seg, m);
            let trimmed = if a < b {
                seg.substring_char(a, b)
            } else {
                seg.substring_char(0, 0)
            };
            proof {
                assert(trimmed@ == spec_trim(seg@));
            }
            match Token::from_string(trimmed) {
                Some(token) => {
                    let ghost prev = self.tokens@;
                    let ghost tok = token;
                    self.tokens.push(token);
                    proof {
                        let acc2 = acc.push(tok@);
                        assert(self.tokens@ == prev.push(tok));
                        assert(tokens_view(prev).len() == prev.len());
                        assert forall|k: int| 0 <= k < self.tokens@.len() implies tokens_view(
                            self.tokens@,
                        )[k] == (base + acc2)[k] by {
                            assert(tokens_view(self.tokens@)[k] == self.tokens@[k]@);
                            if k < prev.len() {
                                assert(self.tokens@[k] == prev[k]);
                                assert(tokens_view(prev)[k] == prev[k]@);
                                assert((base + acc)[k] == tokens_view(prev)[k]);
                                assert((base + acc2)[k] == (base + acc)[k]);
                            } else {
                                assert(self.tokens@[k] == tok);
                                assert((base + acc2)[k] == acc2[k - base.len()]);
                                assert(acc2[k - base.len()] == tok@);
                            }
                        }
                        assert(tokens_view(self.tokens@).len() == (base + acc2).len());
                        assert(tokens_view(self.tokens@) =~= base + acc2);
                        acc = acc2;
                    }
                    seg_start = i + 1;
                },
                None => {},
            }
            i = i + 1;
        }
        proof {
            assert(spec_scan_from(src, seg_start as int, n as int, acc) == acc);
            assert(final(self)@.tokens == old(self)@.tokens + spec_scan(old(self)@.source));
        }
        Ok(())
    }

    /// The tokens found so far, in order.
    pub fn tokens(&self) -> (r: &Vec<Token>)
        ensures
            tokens_view(r@) == self@.tokens,
    {
        &self.tokens
    }
}

} // verus!
