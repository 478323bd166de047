//! Decimal number literals, as benchmark harnesses print them.
//!
//! A literal is kept as the text that was read, so that nothing is lost
//! before the text is turned into a double.

use vstd::prelude::*;

verus! {

/// `0`
pub const ZERO: u8 = 48;

/// `9`
pub const NINE: u8 = 57;

/// `,`
pub const COMMA: u8 = 44;

/// `-`
pub const MINUS: u8 = 45;

/// `+`
pub const PLUS: u8 = 43;

/// `.`
pub const POINT: u8 = 46;

/// `e`
pub const LOWER_E: u8 = 101;

/// `E`
pub const UPPER_E: u8 = 69;

/// Whether `byte` is an ASCII digit.
pub open spec fn is_digit(byte: u8) -> bool {
    ZERO <= byte <= NINE
}

/// Whether `byte` opens the fraction or the exponent of a literal: `.`, `e`
/// or `E`.
pub open spec fn is_mark(byte: u8) -> bool {
    byte == POINT || byte == LOWER_E || byte == UPPER_E
}

/// The end of the longest run of digits that starts at `from`.
pub open spec fn digits_end(text: Seq<u8>, from: int) -> int
    decreases text.len() - from,
{
    if 0 <= from < text.len() && is_digit(text[from]) {
        digits_end(text, from + 1)
    } else {
        from
    }
}

/// The place of the first `.`, `e` or `E` at or after `from`, or the length
/// of the text if there is none.
pub open spec fn mark_at(text: Seq<u8>, from: int) -> int
    decreases text.len() - from,
{
    if 0 <= from < text.len() && !is_mark(text[from]) {
        mark_at(text, from + 1)
    } else {
        from
    }
}

/// Where the integer part of `text` starts: behind the minus sign, if there
/// is one.
pub open spec fn integer_start(text: Seq<u8>) -> int {
    if text.len() > 0 && text[0] == MINUS {
        1
    } else {
        0
    }
}

/// Where the integer part of `text` ends.
pub open spec fn integer_end(text: Seq<u8>) -> int {
    digits_end(text, integer_start(text))
}

/// Where the fraction of `text` ends: behind the digits that follow the
/// point, or at the end of the integer part if no point follows it.
pub open spec fn fraction_end(text: Seq<u8>) -> int {
    let at = integer_end(text);
    if at < text.len() && text[at] == POINT {
        digits_end(text, at + 1)
    } else {
        at
    }
}

/// Where the digits of the exponent of `text` start: behind `e` or `E` and
/// an optional sign, or at the end of the fraction if no exponent follows.
pub open spec fn exponent_start(text: Seq<u8>) -> int {
    let at = fraction_end(text);
    if at < text.len() && (text[at] == LOWER_E || text[at] == UPPER_E) {
        if at + 1 < text.len() && (text[at + 1] == PLUS || text[at + 1] == MINUS) {
            at + 2
        } else {
            at + 1
        }
    } else {
        at
    }
}

/// Whether `text` is a decimal literal: an optional minus sign, one or more
/// digits, optionally a point with one or more digits, optionally `e` or `E`
/// with an optional sign and one or more digits, and nothing else.
pub open spec fn is_literal(text: Seq<u8>) -> bool {
    let integer = integer_end(text);
    let fraction = fraction_end(text);
    let exponent = exponent_start(text);
    let end = if exponent == fraction {
        fraction
    } else {
        digits_end(text, exponent)
    };
    &&& integer > integer_start(text)
    &&& fraction == integer || fraction > integer + 1
    &&& exponent == fraction || end > exponent
    &&& end == text.len()
}

/// Whether the byte at `i` stands between two digits, before any `.`, `e` or
/// `E`.
pub open spec fn groups_digits(word: Seq<u8>, i: int) -> bool {
    &&& 0 < i < mark_at(word, 0)
    &&& i + 1 < word.len()
    &&& is_digit(word[i - 1])
    &&& is_digit(word[i + 1])
}

/// Whether every comma of `word` separates two digits of the integer part.
pub open spec fn commas_in_place(word: Seq<u8>) -> bool {
    forall|i: int| 0 <= i < word.len() && #[trigger] word[i] == COMMA ==> groups_digits(word, i)
}

/// `word` without its commas.
pub open spec fn without_commas(word: Seq<u8>) -> Seq<u8> {
    word.filter(|byte: u8| byte != COMMA)
}

/// Whether `word` is a number as a harness prints it: a decimal literal
/// whose integer part may be grouped by commas.
pub open spec fn is_number(word: Seq<u8>) -> bool {
    commas_in_place(word) && is_literal(without_commas(word))
}

/// A decimal literal.
#[derive(Debug, PartialEq, Eq)]
pub struct Literal {
    text: Vec<u8>,
}

impl View for Literal {
    type V = Seq<u8>;

    closed spec fn view(&self) -> Seq<u8> {
        self.text@
    }
}

fn scan_digits(text: &[u8], from: usize) -> (end: usize)
    requires
        from <= text.len(),
    ensures
        end == digits_end(text@, from as int),
        from <= end <= text.len(),
{
    let mut i: usize = from;
    while i < text.len() && ZERO <= text[i] && text[i] <= NINE
        invariant
            from <= i <= text.len(),
            digits_end(text@, from as int) == digits_end(text@, i as int),
        decreases text.len() - i,
    {
        i += 1;
    }
    i
}

fn scan_mark(text: &[u8], from: usize) -> (end: usize)
    requires
        from <= text.len(),
    ensures
        end == mark_at(text@, from as int),
        from <= end <= text.len(),
{
    let mut i: usize = from;
    while i < text.len() && !(text[i] == POINT || text[i] == LOWER_E || text[i] == UPPER_E)
        invariant
            from <= i <= text.len(),
            mark_at(text@, from as int) == mark_at(text@, i as int),
        decreases text.len() - i,
    {
        i += 1;
    }
    i
}

/// Whether `text` is a decimal literal.
pub fn check_literal(text: &[u8]) -> (valid: bool)
    ensures
        valid == is_literal(text@),
{
    let len = text.len();
    let start: usize = if len > 0 && text[0] == MINUS { 1 } else { 0 };
    let integer = scan_digits(text, start);
    let fraction = if integer < len && text[integer] == POINT {
        scan_digits(text, integer + 1)
    } else {
        integer
    };
    let exponent = if fraction < len && (text[fraction] == LOWER_E || text[fraction] == UPPER_E) {
        if fraction + 1 < len && (text[fraction + 1] == PLUS || text[fraction + 1] == MINUS) {
            fraction + 2
        } else {
            fraction + 1
        }
    } else {
        fraction
    };
    let end = if exponent == fraction { fraction } else { scan_digits(text, exponent) };
    integer > start && (fraction == integer || fraction > integer + 1) && (exponent == fraction
        || end > exponent) && end == len
}

/// Whether every comma of `word` separates two digits of the integer part.
pub fn check_commas(word: &[u8]) -> (valid: bool)
    ensures
        valid == commas_in_place(word@),
{
    let mark = scan_mark(word, 0);
    let mut i: usize = 0;
    while i < word.len()
        invariant
            i <= word.len(),
            mark == mark_at(word@, 0),
            forall|j: int| 0 <= j < i && #[trigger] word@[j] == COMMA ==> groups_digits(word@, j),
        decreases word.len() - i,
    {
        if word[i] == COMMA {
            let placed = 0 < i && i < mark && i + 1 < word.len() && ZERO <= word[i - 1] && word[i
                - 1] <= NINE && ZERO <= word[i + 1] && word[i + 1] <= NINE;
            if !placed {
                assert(word@[i as int] == COMMA);
                return false;
            }
        }
        i += 1;
    }
    true
}

/// `word` without its commas.
pub fn strip_commas(word: &[u8]) -> (text: Vec<u8>)
    ensures
        text@ == without_commas(word@),
{
    let ghost keep = |byte: u8| byte != COMMA;
    let mut text: Vec<u8> = Vec::new();
    let mut i: usize = 0;
    assert(word@.take(0) =~= Seq::<u8>::empty());
    assert(text@ =~= word@.take(0).filter(keep)) by {
        reveal(Seq::filter);
    }
    while i < word.len()
        invariant
            i <= word.len(),
            keep == |byte: u8| byte != COMMA,
            text@ == word@.take(i as int).filter(keep),
        decreases word.len() - i,
    {
        proof {
            let next = word@.take(i + 1);
            assert(next.drop_last() =~= word@.take(i as int));
            assert(next.last() == word@[i as int]);
            reveal(Seq::filter);
        }
        if word[i] != COMMA {
            text.push(word[i]);
        }
        i += 1;
    }
    assert(word@.take(word.len() as int) =~= word@);
    text
}

impl Literal {
    #[verifier::type_invariant]
    spec fn well_formed(self) -> bool {
        is_literal(self.text@)
    }

    /// Reads `word` as a number. Grouping commas are dropped from the
    /// literal.
    pub fn read(word: &[u8]) -> (literal: Option<Literal>)
        ensures
            literal is Some <==> is_number(word@),
            literal is Some ==> literal.unwrap()@ == without_commas(word@),
    {
        if !check_commas(word) {
            return None;
        }
        let text = strip_commas(word);
        if check_literal(text.as_slice()) {
            Some(Literal { text })
        } else {
            None
        }
    }

    /// Takes `text` as a literal, if it is one.
    pub fn exact(text: Vec<u8>) -> (literal: Option<Literal>)
        ensures
            literal is Some <==> is_literal(text@),
            literal is Some ==> literal.unwrap()@ == text@,
    {
        if check_literal(text.as_slice()) {
            Some(Literal { text })
        } else {
            None
        }
    }

    /// The text of the literal, which always is a decimal literal.
    pub fn text(&self) -> (text: &Vec<u8>)
        ensures
            text@ == self@,
            is_literal(text@),
    {
        proof {
            use_type_invariant(self);
        }
        &self.text
    }

}

impl Clone for Literal {
    fn clone(&self) -> (copy: Self)
        ensures
            copy@ == self@,
    {
        proof {
            use_type_invariant(self);
        }
        Literal { text: self.text.clone() }
    }
}

} // verus!
