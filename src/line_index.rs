//! Line index of one document snapshot: translation between byte offsets and
//! 0-based (line, UTF-16 column) pairs.
use vstd::prelude::*;
use vstd::std_specs::iter::IteratorSpec;
use vstd::string::axiom_spec_iter;

verus! {

/// Number of bytes that `c` takes in UTF-8.
pub open spec fn utf8_len(c: char) -> nat {
    if (c as u32) < 0x80 {
        1
    } else if (c as u32) < 0x800 {
        2
    } else if (c as u32) < 0x10000 {
        3
    } else {
        4
    }
}

/// Number of UTF-16 code units that `c` takes.
pub open spec fn utf16_len(c: char) -> nat {
    if (c as u32) < 0x10000 {
        1
    } else {
        2
    }
}

/// Byte offset at which the `k`-th character of `s` starts (for `k == s.len()`,
/// the byte length of `s`).
pub open spec fn byte_offset(s: Seq<char>, k: nat) -> nat
    decreases k,
{
    if k == 0 {
        0
    } else {
        byte_offset(s, (k - 1) as nat) + utf8_len(s[k - 1])
    }
}

/// The byte length of `s`.
pub open spec fn byte_len(s: Seq<char>) -> nat {
    byte_offset(s, s.len())
}

/// 0-based line and 0-based UTF-16 column of the place before the `k`-th
/// character of `s`.
pub open spec fn line_col(s: Seq<char>, k: nat) -> (nat, nat)
    decreases k,
{
    if k == 0 {
        (0, 0)
    } else {
        let p = line_col(s, (k - 1) as nat);
        if s[k - 1] == '\n' {
            (p.0 + 1, 0)
        } else {
            (p.0, p.1 + utf16_len(s[k - 1]))
        }
    }
}

/// Strict lexicographic order on (line, column) pairs.
pub open spec fn lex_lt(a: (nat, nat), b: (nat, nat)) -> bool {
    a.0 < b.0 || (a.0 == b.0 && a.1 < b.1)
}

/// `o` is the byte offset of a character boundary of `s` (the end included).
pub open spec fn is_boundary(s: Seq<char>, o: nat) -> bool {
    exists|k: nat| k <= s.len() && byte_offset(s, k) == o
}

/// The 0-based (line, column) pair `lc` names a place in `s`.
pub open spec fn is_place(s: Seq<char>, lc: (nat, nat)) -> bool {
    exists|k: nat| k <= s.len() && line_col(s, k) == lc
}

/// 0-based (line, column) of the boundary at byte offset `o`, if there is one.
pub open spec fn line_col_at(s: Seq<char>, o: nat) -> Option<(nat, nat)> {
    if is_boundary(s, o) {
        let k = choose|k: nat| k <= s.len() && byte_offset(s, k) == o;
        Some(line_col(s, k))
    } else {
        None
    }
}

/// Byte offset of the 0-based (line, column) pair `lc`, if it names a place.
pub open spec fn offset_at(s: Seq<char>, lc: (nat, nat)) -> Option<nat> {
    if is_place(s, lc) {
        let k = choose|k: nat| k <= s.len() && line_col(s, k) == lc;
        Some(byte_offset(s, k))
    } else {
        None
    }
}

pub proof fn lemma_byte_offset_strict(s: Seq<char>, j: nat, k: nat)
    requires
        j < k,
    ensures
        byte_offset(s, j) < byte_offset(s, k),
    decreases k,
{
    if j + 1 < k {
        lemma_byte_offset_strict(s, j, (k - 1) as nat);
    }
}

pub proof fn lemma_byte_offset_mono(s: Seq<char>, j: nat, k: nat)
    requires
        j <= k,
    ensures
        byte_offset(s, j) <= byte_offset(s, k),
{
    if j < k {
        lemma_byte_offset_strict(s, j, k);
    }
}

pub proof fn lemma_line_col_strict(s: Seq<char>, j: nat, k: nat)
    requires
        j < k,
    ensures
        lex_lt(line_col(s, j), line_col(s, k)),
    decreases k,
{
    if j + 1 < k {
        lemma_line_col_strict(s, j, (k - 1) as nat);
    }
}

pub proof fn lemma_line_col_bound(s: Seq<char>, k: nat)
    ensures
        line_col(s, k).0 + line_col(s, k).1 <= byte_offset(s, k),
    decreases k,
{
    if k > 0 {
        lemma_line_col_bound(s, (k - 1) as nat);
    }
}

/// Distinct character indices give distinct byte offsets and distinct places.
pub proof fn lemma_index_unique(s: Seq<char>, j: nat, k: nat)
    requires
        byte_offset(s, j) == byte_offset(s, k) || line_col(s, j) == line_col(s, k),
    ensures
        j == k,
{
    if j < k {
        lemma_byte_offset_strict(s, j, k);
        lemma_line_col_strict(s, j, k);
    } else if k < j {
        lemma_byte_offset_strict(s, k, j);
        lemma_line_col_strict(s, k, j);
    }
}

/// A 0-based position in engine terms: line and UTF-16 column.
#[derive(Clone, Copy, Debug, PartialEq, Eq, Structural)]
pub struct LineCol {
    pub line: u32,
    pub col_utf16: u32,
}

impl LineCol {
    pub open spec fn pair(self) -> (nat, nat) {
        (self.line as nat, self.col_utf16 as nat)
    }
}

/// Why a translation between coordinate spaces failed.
#[derive(Clone, Copy, Debug, PartialEq, Eq, Structural)]
pub enum TranslateError {
    /// The position or offset lies outside the document, or between the
    /// bytes or code units of one character.
    OutOfRange,
    /// The start of a range lies after its end.
    InvertedRange,
    /// The document is too large for 32-bit offsets.
    TooLarge,
}

/// Read-only index over the characters of one document version.
pub struct LineIndex {
    chars: Vec<char>,
}

impl View for LineIndex {
    type V = Seq<char>;

    closed spec fn view(&self) -> Seq<char> {
        self.chars@
    }
}

fn char_utf8_len(c: char) -> (r: u32)
    ensures
        r as nat == utf8_len(c),
{
    let v = c as u32;
    if v < 0x80 {
        1
    } else if v < 0x800 {
        2
    } else if v < 0x10000 {
        3
    } else {
        4
    }
}

fn char_utf16_len(c: char) -> (r: u32)
    ensures
        r as nat == utf16_len(c),
{
    if (c as u32) < 0x10000 {
        1
    } else {
        2
    }
}

impl LineIndex {
    /// Every byte offset of the document, and one past it, fits in a `u32`.
    pub open spec fn wf(&self) -> bool {
        byte_len(self@) < u32::MAX
    }

    /// The index of the empty document.
    pub fn empty() -> (r: LineIndex)
        ensures
            r.wf(),
            r@ == Seq::<char>::empty(),
    {
        LineIndex { chars: Vec::new() }
    }

    /// Builds the index of `text`; fails with `TooLarge` when its byte length
    /// does not stay below `u32::MAX`.
    pub fn new(text: &str) -> (r: Result<LineIndex, TranslateError>)
        ensures
            match r {
                Ok(idx) => idx.wf() && idx@ == text@,
                Err(e) => e == TranslateError::TooLarge && byte_len(text@) >= u32::MAX,
            },
    {
        let mut it = text.chars();
        proof {
            axiom_spec_iter(text);
        }
        let mut chars: Vec<char> = Vec::new();
        let mut bytes: u32 = 0;
        loop
            invariant
                chars@ + it.remaining() == text@,
                bytes as nat == byte_offset(text@, chars@.len()),
                bytes < u32::MAX,
                it.decrease() is Some,
            ensures
                chars@ == text@,
                bytes as nat == byte_len(text@),
                bytes < u32::MAX,
            decreases it.decrease()->0,
        {
            let ghost before = it.remaining();
            match it.next() {
                Some(c) => {
                    let ghost i = chars@.len();
                    proof {
                        assert(text@[i as int] == c) by {
                            assert(text@ == chars@ + before);
                        }
                        assert(byte_offset(text@, (i + 1) as nat) == bytes + utf8_len(c));
                    }
                    let w = char_utf8_len(c);
                    if bytes >= u32::MAX - w {
                        proof {
                            lemma_byte_offset_mono(text@, (i + 1) as nat, text@.len());
                        }
                        return Err(TranslateError::TooLarge);
                    }
                    bytes = bytes + w;
                    chars.push(c);
                    proof {
                        assert(chars@ + it.remaining() =~= text@);
                    }
                },
                None => {
                    proof {
                        assert(chars@ =~= text@);
                    }
                    break;
                },
            }
        }
        Ok(LineIndex { chars })
    }

    /// The byte length of the document.
    pub fn len(&self) -> (r: u32)
        requires
            self.wf(),
        ensures
            r as nat == byte_len(self@),
    {
        let n = self.chars.len();
        let mut k: usize = 0;
        let mut bo: u32 = 0;
        while k < n
            invariant
                self.wf(),
                n == self@.len(),
                k <= n,
                bo as nat == byte_offset(self@, k as nat),
            decreases n - k,
        {
            proof {
                lemma_byte_offset_mono(self@, (k + 1) as nat, n as nat);
            }
            bo = bo + char_utf8_len(self.chars[k]);
            k = k + 1;
        }
        bo
    }

    /// 0-based line and UTF-16 column of byte offset `offset`; `OutOfRange`
    /// when `offset` is past the end or inside a character.
    pub fn line_col(&self, offset: u32) -> (r: Result<LineCol, TranslateError>)
        requires
            self.wf(),
        ensures
            match r {
                Ok(lc) => line_col_at(self@, offset as nat) == Some(lc.pair()),
                Err(e) => e == TranslateError::OutOfRange && line_col_at(self@, offset as nat)
                    is None,
            },
    {
        let ghost s = self@;
        let n = self.chars.len();
        let mut k: usize = 0;
        let mut bo: u32 = 0;
        let mut line: u32 = 0;
        let mut col: u32 = 0;
        loop
            invariant
                self.wf(),
                s == self@,
                n == s.len(),
                k <= n,
                bo as nat == byte_offset(s, k as nat),
                (line as nat, col as nat) == line_col(s, k as nat),
                forall|j: nat| j < k ==> byte_offset(s, j) < offset,
            decreases n - k,
        {
            if bo == offset {
                proof {
                    let kk = choose|kk: nat| kk <= s.len() && byte_offset(s, kk) == offset;
                    lemma_index_unique(s, kk, k as nat);
                }
                return Ok(LineCol { line, col_utf16: col });
            }
            if bo > offset || k == n {
                proof {
                    assert forall|j: nat| j <= s.len() implies byte_offset(s, j) != offset by {
                        if j > k {
                            lemma_byte_offset_mono(s, k as nat, j);
                        }
                    }
                }
                return Err(TranslateError::OutOfRange);
            }
            let c = self.chars[k];
            proof {
                lemma_byte_offset_mono(s, (k + 1) as nat, n as nat);
                lemma_line_col_bound(s, (k + 1) as nat);
            }
            bo = bo + char_utf8_len(c);
            if c == '\n' {
                line = line + 1;
                col = 0;
            } else {
                col = col + char_utf16_len(c);
            }
            k = k + 1;
        }
    }

    /// Byte offset of the 0-based place `lc`; `OutOfRange` when the line is
    /// past the last one, the column past the line's end, or inside a
    /// surrogate pair.
    pub fn offset(&self, lc: LineCol) -> (r: Result<u32, TranslateError>)
        requires
            self.wf(),
        ensures
            match r {
                Ok(o) => offset_at(self@, lc.pair()) == Some(o as nat),
                Err(e) => e == TranslateError::OutOfRange && offset_at(self@, lc.pair()) is None,
            },
    {
        let ghost s = self@;
        let n = self.chars.len();
        let mut k: usize = 0;
        let mut bo: u32 = 0;
        let mut line: u32 = 0;
        let mut col: u32 = 0;
        loop
            invariant
                self.wf(),
                s == self@,
                n == s.len(),
                k <= n,
                bo as nat == byte_offset(s, k as nat),
                (line as nat, col as nat) == line_col(s, k as nat),
                forall|j: nat| j < k ==> lex_lt(#[trigger] line_col(s, j), lc.pair()),
            decreases n - k,
        {
            if line == lc.line && col == lc.col_utf16 {
                proof {
                    let kk = choose|kk: nat| kk <= s.len() && line_col(s, kk) == lc.pair();
                    lemma_index_unique(s, kk, k as nat);
                }
                return Ok(bo);
            }
            if line > lc.line || (line == lc.line && col > lc.col_utf16) || k == n {
                proof {
                    assert forall|j: nat| j <= s.len() implies line_col(s, j) != lc.pair() by {
                        if j > k {
                            lemma_line_col_strict(s, k as nat, j);
                        } else if j < k {
                            assert(lex_lt(line_col(s, j), lc.pair()));
                        }
                    }
                }
                return Err(TranslateError::OutOfRange);
            }
            let c = self.chars[k];
            proof {
                lemma_byte_offset_mono(s, (k + 1) as nat, n as nat);
                lemma_line_col_bound(s, (k + 1) as nat);
            }
            bo = bo + char_utf8_len(c);
            if c == '\n' {
                line = line + 1;
                col = 0;
            } else {
                col = col + char_utf16_len(c);
            }
            k = k + 1;
        }
    }
}

} // verus!
