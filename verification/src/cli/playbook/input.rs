//! Reading the inputs of a computation from text: one item per line, a
//! number in decimal digits or two numbers with a comma between them.

use crate::ff::Field;
use vstd::prelude::*;
use vstd::string::StrSliceExecFns;

verus! {

/// The character is a decimal digit.
pub open spec fn is_digit(c: char) -> bool {
    '0' <= c <= '9'
}

/// The number that a decimal digit stands for.
pub open spec fn digit_value(c: char) -> nat {
    (c as u32 - '0' as u32) as nat
}

/// Every character is a decimal digit.
pub open spec fn all_digits(s: Seq<char>) -> bool {
    forall|i: int| 0 <= i < s.len() ==> is_digit(#[trigger] s[i])
}

/// The number that a string of decimal digits stands for.
pub open spec fn decimal_value(s: Seq<char>) -> nat
    decreases s.len(),
{
    if s.len() == 0 {
        0
    } else {
        10 * decimal_value(s.drop_last()) + digit_value(s.last())
    }
}

/// The text without the plus sign that may stand before a number.
pub open spec fn unsigned_digits(s: Seq<char>) -> Seq<char> {
    if s.len() > 0 && s[0] == '+' {
        s.subrange(1, s.len() as int)
    } else {
        s
    }
}

/// The number that `s` stands for, if `s` is a number of at most `max`: one
/// or more decimal digits, with or without a plus sign before them, and
/// nothing else.
pub open spec fn parse_decimal(s: Seq<char>, max: nat) -> Option<nat> {
    let digits = unsigned_digits(s);
    if digits.len() > 0 && all_digits(digits) && decimal_value(digits) <= max {
        Some(decimal_value(digits))
    } else {
        None
    }
}

/// A longer string of digits stands for a number that is no smaller.
proof fn lemma_decimal_value_grows(s: Seq<char>, n: int)
    requires
        0 <= n <= s.len(),
    ensures
        decimal_value(s.subrange(0, n)) <= decimal_value(s),
    decreases s.len() - n,
{
    if n < s.len() {
        lemma_decimal_value_grows(s, n + 1);
        let longer = s.subrange(0, n + 1);
        assert(longer.drop_last() =~= s.subrange(0, n));
    } else {
        assert(s.subrange(0, n) =~= s);
    }
}

/// Reads a number of at most 128 bits.
pub fn parse_u128(s: &str) -> (r: Option<u128>)
    ensures
        match parse_decimal(s@, u128::MAX as nat) {
            Some(v) => r == Some(v as u128),
            None => r is None,
        },
{
    let len = s.unicode_len();
    let start: usize = if len > 0 && s.get_char(0) == '+' {
        1
    } else {
        0
    };
    if start == len {
        return None;
    }
    let ghost digits = unsigned_digits(s@);
    let mut value: u128 = 0;
    let mut i: usize = start;
    while i < len
        invariant
            start <= i <= len,
            len == s@.len(),
            digits == s@.subrange(start as int, len as int),
            digits == unsigned_digits(s@),
            all_digits(digits.subrange(0, i - start)),
            value == decimal_value(digits.subrange(0, i - start)),
        decreases len - i,
    {
        let c = s.get_char(i);
        let ghost seen = digits.subrange(0, i - start);
        let ghost next = digits.subrange(0, i + 1 - start);
        proof {
            assert(next.drop_last() =~= seen);
            assert(next.last() == c);
        }
        if !(c >= '0' && c <= '9') {
            proof {
                assert(!is_digit(digits[i - start]));
            }
            return None;
        }
        let digit: u128 = (c as u32 - '0' as u32) as u128;
        proof {
            assert forall|j: int| 0 <= j < next.len() implies is_digit(#[trigger] next[j]) by {
                if j < seen.len() {
                    assert(next[j] == seen[j]);
                }
            }
            lemma_decimal_value_grows(digits, i + 1 - start);
            assert(decimal_value(next) == 10 * value + digit);
        }
        if value > (u128::MAX - digit) / 10 {
            return None;
        }
        value = value * 10 + digit;
        i = i + 1;
    }
    proof {
        assert(digits.subrange(0, len - start) =~= digits);
    }
    Some(value)
}

/// An item of input that can be read from one line of text.
pub trait InputItem: Sized {
    /// The item that the text stands for, if it stands for one.
    spec fn parsed(s: Seq<char>) -> Option<Self>;

    /// Reads an item, or finds that the text is none.
    fn try_from_str(s: &str) -> (r: Option<Self>)
        ensures
            r == Self::parsed(s@),
    ;

    /// Reads an item from a text that is known to stand for one.
    fn from_str(s: &str) -> (r: Self)
        requires
            Self::parsed(s@) is Some,
        ensures
            Self::parsed(s@) == Some(r),
    {
        Self::try_from_str(s).unwrap()
    }
}

impl<F: Field> InputItem for F {
    open spec fn parsed(s: Seq<char>) -> Option<F> {
        match parse_decimal(s, u128::MAX as nat) {
            Some(v) => Some(F::truncated(v as u128)),
            None => None,
        }
    }

    fn try_from_str(s: &str) -> (r: Option<F>) {
        match parse_u128(s) {
            Some(v) => Some(F::truncate_from(v)),
            None => None,
        }
    }
}

impl InputItem for u64 {
    open spec fn parsed(s: Seq<char>) -> Option<u64> {
        match parse_decimal(s, u64::MAX as nat) {
            Some(v) => Some(v as u64),
            None => None,
        }
    }

    fn try_from_str(s: &str) -> (r: Option<u64>) {
        match parse_u128(s) {
            Some(v) => if v <= u64::MAX as u128 {
                Some(v as u64)
            } else {
                None
            },
            None => None,
        }
    }
}

/// The position of the first `c` in `s`, or the length of `s` if there is
/// none.
pub open spec fn first_index_of(s: Seq<char>, c: char) -> nat
    decreases s.len(),
{
    if s.len() == 0 || s[0] == c {
        0
    } else {
        1 + first_index_of(s.subrange(1, s.len() as int), c)
    }
}

/// The first `c` is where no `c` comes before.
proof fn lemma_first_index_of(s: Seq<char>, c: char, k: int)
    requires
        0 <= k <= s.len(),
        forall|j: int| 0 <= j < k ==> s[j] != c,
        k == s.len() || s[k] == c,
    ensures
        first_index_of(s, c) == k,
    decreases k,
{
    if k > 0 {
        let rest = s.subrange(1, s.len() as int);
        assert forall|j: int| 0 <= j < k - 1 implies rest[j] != c by {
            assert(rest[j] == s[j + 1]);
        }
        lemma_first_index_of(rest, c, k - 1);
    }
}

/// Finds the first `c` among the characters of `s` from position `from` up
/// to `len`, the number of characters of `s`.
fn find_from(s: &str, from: usize, len: usize, c: char) -> (r: usize)
    requires
        from <= len,
        len == s@.len(),
    ensures
        from <= r <= len,
        r - from == first_index_of(s@.subrange(from as int, len as int), c),
{
    let mut i = from;
    while i < len && s.get_char(i) != c
        invariant
            from <= i <= len,
            len == s@.len(),
            forall|j: int| from <= j < i ==> s@[j] != c,
        decreases len - i,
    {
        i = i + 1;
    }
    proof {
        let tail = s@.subrange(from as int, len as int);
        assert forall|j: int| 0 <= j < i - from implies tail[j] != c by {
            assert(tail[j] == s@[from + j]);
        }
        lemma_first_index_of(tail, c, i - from);
    }
    i
}

impl<I: InputItem> InputItem for (I, I) {
    /// A pair is two items with a comma between them. What follows a second
    /// comma is not looked at.
    open spec fn parsed(s: Seq<char>) -> Option<(I, I)> {
        let comma = first_index_of(s, ',');
        if comma >= s.len() {
            None
        } else {
            let rest = s.subrange(comma as int + 1, s.len() as int);
            let end = first_index_of(rest, ',');
            match (
                I::parsed(s.subrange(0, comma as int)),
                I::parsed(rest.subrange(0, end as int)),
            ) {
                (Some(left), Some(right)) => Some((left, right)),
                _ => None,
            }
        }
    }

    fn try_from_str(s: &str) -> (r: Option<(I, I)>) {
        let len = s.unicode_len();
        let comma = find_from(s, 0, len, ',');
        proof {
            assert(s@.subrange(0, len as int) =~= s@);
        }
        if comma >= len {
            return None;
        }
        let end = find_from(s, comma + 1, len, ',');
        proof {
            let rest = s@.subrange(comma + 1, len as int);
            assert(rest.subrange(0, end - (comma + 1)) =~= s@.subrange(comma + 1, end as int));
        }
        let left = I::try_from_str(s.substring_char(0, comma));
        let right = I::try_from_str(s.substring_char(comma + 1, end));
        match (left, right) {
            (Some(left), Some(right)) => Some((left, right)),
            _ => None,
        }
    }
}

/// A line without the carriage return that may end it.
pub open spec fn without_carriage_return(line: Seq<char>) -> Seq<char> {
    if line.len() > 0 && line.last() == '\r' {
        line.drop_last()
    } else {
        line
    }
}

/// The lines of a text. A line ends with a line feed, or with a carriage
/// return and a line feed, neither of which belongs to it; what follows the
/// last line feed is a line too, unless it is empty.
pub open spec fn lines_of(text: Seq<char>) -> Seq<Seq<char>>
    decreases text.len(),
{
    if text.len() == 0 {
        Seq::empty()
    } else {
        let end = first_index_of(text, '\n');
        if end >= text.len() {
            seq![text]
        } else {
            seq![without_carriage_return(text.subrange(0, end as int))] + lines_of(
                text.subrange(end as int + 1, text.len() as int),
            )
        }
    }
}

/// Inputs in text form, line by line.
pub struct InputSource {
    lines: Vec<String>,
}

impl View for InputSource {
    type V = Seq<Seq<char>>;

    /// The lines that have not been read yet.
    closed spec fn view(&self) -> Seq<Seq<char>> {
        Seq::new(self.lines@.len(), |i: int| self.lines@[i]@)
    }
}

impl InputSource {
    /// A source that holds the given lines.
    pub fn from_lines(lines: Vec<String>) -> (r: InputSource)
        ensures
            r@.len() == lines@.len(),
            forall|i: int| 0 <= i < lines@.len() ==> r@[i] == #[trigger] lines@[i]@,
    {
        InputSource { lines }
    }

    /// A source that holds the lines of a text.
    pub fn from_static_str(input: &'static str) -> (r: InputSource)
        ensures
            r@ == lines_of(input@),
    {
        let len = input.unicode_len();
        let mut lines: Vec<String> = Vec::new();
        let mut start: usize = 0;
        let ghost mut collected: Seq<Seq<char>> = Seq::empty();
        proof {
            assert(input@.subrange(0, len as int) =~= input@);
            assert(collected + lines_of(input@) =~= lines_of(input@));
        }
        while start < len
            invariant
                start <= len,
                len == input@.len(),
                collected.len() == lines@.len(),
                forall|i: int| 0 <= i < lines@.len() ==> collected[i] == #[trigger] lines@[i]@,
                lines_of(input@) == collected + lines_of(input@.subrange(start as int, len as int)),
            decreases len - start,
        {
            let end = find_from(input, start, len, '\n');
            let ghost rest = input@.subrange(start as int, len as int);
            let ghost before = collected;
            if end >= len {
                lines.push(input.substring_char(start, len).to_owned());
                proof {
                    collected = collected.push(rest);
                    assert(lines_of(rest) =~= seq![rest]);
                    assert(input@.subrange(len as int, len as int) =~= Seq::<char>::empty());
                    assert(lines_of(input@.subrange(len as int, len as int)) =~= Seq::<
                        Seq<char>,
                    >::empty());
                    assert(before + seq![rest] =~= collected + Seq::<Seq<char>>::empty());
                }
                start = len;
            } else {
                let stop = if end > start && input.get_char(end - 1) == '\r' {
                    end - 1
                } else {
                    end
                };
                lines.push(input.substring_char(start, stop).to_owned());
                proof {
                    let line = rest.subrange(0, end - start);
                    assert(line =~= input@.subrange(start as int, end as int));
                    assert(without_carriage_return(line) =~= input@.subrange(
                        start as int,
                        stop as int,
                    ));
                    assert(rest.subrange(end - start + 1, rest.len() as int) =~= input@.subrange(
                        end + 1,
                        len as int,
                    ));
                    collected = collected.push(without_carriage_return(line));
                    assert(before + (seq![without_carriage_return(line)] + lines_of(
                        input@.subrange(end + 1, len as int),
                    )) =~= collected + lines_of(input@.subrange(end + 1, len as int)));
                }
                start = end + 1;
            }
        }
        proof {
            assert(input@.subrange(len as int, len as int) =~= Seq::<char>::empty());
            assert(collected + Seq::<Seq<char>>::empty() =~= collected);
        }
        let r = InputSource { lines };
        assert(r@ =~= collected);
        r
    }

    /// Number of lines that have not been read yet.
    pub fn remaining(&self) -> (r: usize)
        ensures
            r == self@.len(),
    {
        self.lines.len()
    }

    /// Reads every line that is left as an item, if every one of them
    /// stands for an item; the source is empty afterwards. If some line
    /// stands for no item, nothing is read.
    pub fn try_iter<T: InputItem>(&mut self) -> (r: Option<Vec<T>>)
        ensures
            (forall|i: int| 0 <= i < old(self)@.len() ==> T::parsed(#[trigger] old(self)@[i]) is Some)
                ==> {
                &&& r matches Some(items)
                &&& items@.len() == old(self)@.len()
                &&& forall|i: int|
                    0 <= i < items@.len() ==> T::parsed(old(self)@[i]) == Some(#[trigger] items@[i])
                &&& final(self)@.len() == 0
            },
            (exists|i: int| 0 <= i < old(self)@.len() && T::parsed(#[trigger] old(self)@[i]) is None)
                ==> r is None && final(self)@ == old(self)@,
    {
        let mut items: Vec<T> = Vec::new();
        let mut i: usize = 0;
        while i < self.lines.len()
            invariant
                i <= self.lines@.len(),
                self.lines == old(self).lines,
                items@.len() == i,
                forall|k: int|
                    0 <= k < i ==> T::parsed(old(self)@[k]) == Some(#[trigger] items@[k]),
            decreases self.lines@.len() - i,
        {
            match T::try_from_str(self.lines[i].as_str()) {
                Some(item) => {
                    items.push(item);
                },
                None => {
                    assert(T::parsed(old(self)@[i as int]) is None);
                    return None;
                },
            }
            i = i + 1;
        }
        proof {
            assert forall|k: int| 0 <= k < old(self)@.len() implies T::parsed(
                #[trigger] old(self)@[k],
            ) is Some by {
                assert(T::parsed(old(self)@[k]) == Some(items@[k]));
            }
        }
        self.lines = Vec::new();
        Some(items)
    }

    /// Reads every line that is left as an item. The source is empty
    /// afterwards.
    pub fn iter<T: InputItem>(&mut self) -> (r: Vec<T>)
        requires
            forall|i: int| 0 <= i < old(self)@.len() ==> T::parsed(#[trigger] old(self)@[i]) is Some,
        ensures
            r@.len() == old(self)@.len(),
            forall|i: int| 0 <= i < r@.len() ==> T::parsed(old(self)@[i]) == Some(#[trigger] r@[i]),
            final(self)@.len() == 0,
    {
        self.try_iter().unwrap()
    }
}

} // verus!
