//! The token capability and two ready-made token types.
//!
//! The parser needs three things of a token: a payload-discarding
//! projection to a dispatch *kind* (so that, say, two identifiers with
//! different text share one rule), full-value equality (for `consume`),
//! and cloning. The `Token` trait bundles these, each with its
//! mathematical counterpart so that contracts can speak about them.

use vstd::prelude::*;
use vstd::string::StrSliceExecFns;

verus! {

/// The capability every token type must provide: a kind projection used
/// for rule-table lookup, structural equality, and cloning.
pub trait Token: Sized {
    /// The dispatch kind of a token, as a mathematical value. The kind
    /// discards any payload: it is the only part of a token the rule
    /// tables see.
    spec fn kind_spec(self) -> u64;

    /// Full-value equality of two tokens, as a mathematical relation.
    spec fn eq_spec(self, other: Self) -> bool;

    /// Computes the dispatch kind used for rule-table lookup.
    fn kind(&self) -> (k: u64)
        ensures
            k == self.kind_spec(),
    ;

    /// Decides full-value equality; `consume` goes by this, not by the
    /// kind alone.
    fn eq_token(&self, other: &Self) -> (r: bool)
        ensures
            r == self.eq_spec(*other),
    ;

    /// Clones the token.
    fn clone_token(&self) -> (t: Self)
        ensures
            t == *self,
    ;
}

impl Token for u64 {
    open spec fn kind_spec(self) -> u64 {
        self
    }

    open spec fn eq_spec(self, other: Self) -> bool {
        self == other
    }

    fn kind(&self) -> (k: u64)
        ensures
            k == self.kind_spec(),
    {
        *self
    }

    fn eq_token(&self, other: &Self) -> (r: bool)
        ensures
            r == self.eq_spec(*other),
    {
        *self == *other
    }

    fn clone_token(&self) -> (t: Self)
        ensures
            t == *self,
    {
        *self
    }
}

/// Whether a character is an ascii digit.
pub open spec fn is_digit_char(c: char) -> bool {
    48 <= c as u32 <= 57
}

/// Whether a character is an ascii letter.
pub open spec fn is_letter_char(c: char) -> bool {
    (65 <= c as u32 <= 90) || (97 <= c as u32 <= 122)
}

/// Whether a piece of token text consists of digits alone.
pub open spec fn all_digits(s: Seq<char>) -> bool {
    forall|i: int| 0 <= i < s.len() ==> is_digit_char(#[trigger] s[i])
}

/// Whether a piece of token text holds at least one ascii letter.
pub open spec fn has_letter(s: Seq<char>) -> bool {
    exists|i: int| 0 <= i < s.len() && is_letter_char(#[trigger] s[i])
}

/// The code a character of a literal contributes to its kind: its
/// scalar value shifted by one, so that a string too short to have the
/// character reads as zero.
pub open spec fn literal_code(s: Seq<char>, i: int) -> int {
    if i < s.len() {
        s[i] as int + 1
    } else {
        0
    }
}

/// The kind of a literal: its first three character codes packed in a
/// base just above the largest scalar value, offset past the number
/// and identifier kinds. Injective for literals of up to three
/// characters, which covers ordinary operator and punctuation text.
pub open spec fn literal_kind(s: Seq<char>) -> u64 {
    (3 + literal_code(s, 0) + literal_code(s, 1) * 0x110001 + literal_code(s, 2) * 0x110001
        * 0x110001) as u64
}

/// The dispatch kind of a piece of token text: nonempty all-digit text
/// is a number, text holding an ascii letter is an identifier, and
/// anything else is its own literal kind. Numbers and identifiers thus
/// share one rule each however their text reads.
pub open spec fn text_kind(s: Seq<char>) -> u64 {
    if s.len() > 0 && all_digits(s) {
        1
    } else if has_letter(s) {
        2
    } else {
        literal_kind(s)
    }
}

impl Token for String {
    open spec fn kind_spec(self) -> u64 {
        text_kind(self@)
    }

    open spec fn eq_spec(self, other: Self) -> bool {
        self@ == other@
    }

    fn kind(&self) -> (k: u64)
        ensures
            k == self.kind_spec(),
    {
        let s = self.as_str();
        let n = s.unicode_len();
        let mut digits = true;
        let mut letter = false;
        let mut i: usize = 0;
        while i < n
            invariant
                s@ == self@,
                n == self@.len(),
                i <= n,
                digits == (forall|j: int| 0 <= j < i ==> is_digit_char(#[trigger] self@[j])),
                letter == (exists|j: int| 0 <= j < i && is_letter_char(#[trigger] self@[j])),
            decreases n - i,
        {
            let v = s.get_char(i) as u32;
            if !(48 <= v && v <= 57) {
                digits = false;
            }
            if (65 <= v && v <= 90) || (97 <= v && v <= 122) {
                letter = true;
            }
            i = i + 1;
        }
        if n > 0 && digits {
            1
        } else if letter {
            2
        } else {
            let c0: u64 = if n > 0 {
                s.get_char(0) as u64 + 1
            } else {
                0
            };
            let c1: u64 = if n > 1 {
                s.get_char(1) as u64 + 1
            } else {
                0
            };
            let c2: u64 = if n > 2 {
                s.get_char(2) as u64 + 1
            } else {
                0
            };
            3 + c0 + c1 * 0x110001 + c2 * 0x110001 * 0x110001
        }
    }

    fn eq_token(&self, other: &Self) -> (r: bool)
        ensures
            r == self.eq_spec(*other),
    {
        <String as PartialEq>::eq(self, other)
    }

    fn clone_token(&self) -> (t: Self)
        ensures
            t == *self,
    {
        self.clone()
    }
}

} // verus!
