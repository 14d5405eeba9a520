//! What a prompt makes of the text typed into it: a bounded number, or a
//! file name with the canvas file suffix.

use vstd::prelude::*;

verus! {

/// Which status line a message goes to: the one that echoes what is typed,
/// or the one below the canvas that reports outcomes.
#[derive(Clone, Copy, Debug, PartialEq, Eq, Structural)]
pub enum PrintType {
    Input,
    Output,
}

impl PrintType {
    /// The terminal row of this status line, below a canvas area `area_rows` tall.
    pub open spec fn row_spec(self, area_rows: int) -> int {
        match self {
            PrintType::Input => area_rows + 1,
            PrintType::Output => area_rows,
        }
    }

    pub fn row(self, area_rows: u16) -> (r: u16)
        requires
            area_rows < u16::MAX,
        ensures
            r == self.row_spec(area_rows as int),
    {
        match self {
            PrintType::Input => area_rows + 1,
            PrintType::Output => area_rows,
        }
    }
}

pub open spec fn is_digit(c: char) -> bool {
    '0' <= c && c <= '9'
}

pub open spec fn digit_value(c: char) -> nat {
    (c as u32 - '0' as u32) as nat
}

/// The value of a string of decimal digits.
pub open spec fn digits_value(s: Seq<char>) -> nat
    decreases s.len(),
{
    if s.len() == 0 {
        0
    } else {
        digits_value(s.drop_last()) * 10 + digit_value(s.last())
    }
}

/// The digits of a number as typed: all that follows an optional `+`.
pub open spec fn number_digits(s: Seq<char>) -> Seq<char> {
    if s.len() > 0 && s[0] == '+' {
        s.drop_first()
    } else {
        s
    }
}

/// `s` is a non-negative decimal integer: an optional `+`, then one or more digits.
pub open spec fn is_number(s: Seq<char>) -> bool {
    &&& number_digits(s).len() > 0
    &&& forall|i: int| 0 <= i < number_digits(s).len() ==> is_digit(#[trigger] number_digits(s)[i])
}

/// The value of `s`, when it is a number that fits in a `usize`.
pub open spec fn parsed(s: Seq<char>) -> Option<usize> {
    if is_number(s) && digits_value(number_digits(s)) <= usize::MAX {
        Some(digits_value(number_digits(s)) as usize)
    } else {
        None
    }
}

/// Reads `s` as a non-negative decimal integer that fits in a `usize`.
pub fn parse_usize(s: &Vec<char>) -> (r: Option<usize>)
    ensures
        r == parsed(s@),
{
    let len: usize = s.len();
    let start: usize = if len > 0 && s[0] == '+' {
        1
    } else {
        0
    };
    let ghost d = number_digits(s@);
    assert(d =~= s@.subrange(start as int, len as int));
    if start == len {
        return None;
    }
    let mut value: usize = 0;
    let mut i: usize = start;
    while i < len
        invariant
            len == s@.len(),
            start <= i <= len,
            d == s@.subrange(start as int, len as int),
            d == number_digits(s@),
            forall|k: int| start <= k < i ==> is_digit(#[trigger] s@[k]),
            value == digits_value(s@.subrange(start as int, i as int)),
        decreases len - i,
    {
        let c: char = s[i];
        if !('0' <= c && c <= '9') {
            assert(d[i - start] == s@[i as int]);
            assert(!is_digit(number_digits(s@)[i - start]));
            return None;
        }
        let digit: usize = (c as u32 - '0' as u32) as usize;
        assert(s@.subrange(start as int, i + 1).drop_last() =~= s@.subrange(start as int, i as int));
        if value > (usize::MAX - digit) / 10 {
            proof {
                assert(digits_value(s@.subrange(start as int, i + 1)) > usize::MAX) by (nonlinear_arith)
                    requires
                        digits_value(s@.subrange(start as int, i + 1)) == value * 10 + digit,
                        value > (usize::MAX - digit) / 10,
                ;
                if is_number(s@) {
                    lemma_digits_value_prefix(d, (i + 1 - start) as nat);
                    assert(d.take(i + 1 - start) =~= s@.subrange(start as int, i + 1));
                }
            }
            return None;
        }
        value = value * 10 + digit;
        i += 1;
    }
    assert(s@.subrange(start as int, len as int) == d);
    Some(value)
}

/// A prefix of a digit string never has a larger value than the whole.
proof fn lemma_digits_value_prefix(s: Seq<char>, n: nat)
    requires
        n <= s.len(),
        forall|i: int| 0 <= i < s.len() ==> is_digit(#[trigger] s[i]),
    ensures
        digits_value(s.take(n as int)) <= digits_value(s),
    decreases s.len(),
{
    if n < s.len() {
        lemma_digits_value_prefix(s.drop_last(), n);
        assert(s.drop_last().take(n as int) =~= s.take(n as int));
        assert(digits_value(s.drop_last()) <= digits_value(s)) by (nonlinear_arith)
            requires
                digits_value(s) == digits_value(s.drop_last()) * 10 + digit_value(s.last()),
        ;
    } else {
        assert(s.take(n as int) =~= s);
    }
}

/// What a numeric prompt makes of its input.
#[derive(Clone, Copy, Debug, PartialEq, Eq, Structural)]
pub enum NumberInput {
    /// The prompt was abandoned.
    Canceled,
    /// A number within the bound.
    Accepted(usize),
    /// A number above the bound: the prompt asks again.
    OutOfBound(usize),
    /// Text that is no number: the prompt asks again.
    Invalid,
}

/// Judges the text committed to a numeric prompt (`None` when it was
/// abandoned) against the largest value `max` it admits.
pub fn input_usize(input: Option<Vec<char>>, max: usize) -> (r: NumberInput)
    ensures
        r == match input {
            None => NumberInput::Canceled,
            Some(s) => match parsed(s@) {
                None => NumberInput::Invalid,
                Some(n) => if n <= max {
                    NumberInput::Accepted(n)
                } else {
                    NumberInput::OutOfBound(n)
                },
            },
        },
{
    match input {
        None => NumberInput::Canceled,
        Some(s) => match parse_usize(&s) {
            None => NumberInput::Invalid,
            Some(n) => if n <= max {
                NumberInput::Accepted(n)
            } else {
                NumberInput::OutOfBound(n)
            },
        },
    }
}

/// The suffix of a canvas file's name.
pub open spec fn file_type() -> Seq<char> {
    seq!['.', 'd', 'r', 'a', 'w']
}

/// `name` with the canvas file suffix, added unless already there.
pub open spec fn with_file_type(name: Seq<char>) -> Seq<char> {
    if name.len() >= file_type().len() && name.subrange(
        name.len() - file_type().len(),
        name.len() as int,
    ) == file_type() {
        name
    } else {
        name + file_type()
    }
}

/// The file name that the text committed to a name prompt (`None` when it
/// was abandoned) stands for: the text, ending in the canvas file suffix.
pub fn input_file_name(input: Option<Vec<char>>) -> (r: Option<Vec<char>>)
    ensures
        r is None <==> input is None,
        r matches Some(n) ==> n@ == with_file_type(input->Some_0@),
{
    match input {
        None => None,
        Some(name) => {
            let suffix: Vec<char> = vec!['.', 'd', 'r', 'a', 'w'];
            assert(suffix@ =~= file_type());
            let len: usize = name.len();
            let mut ends: bool = len >= 5;
            let mut k: usize = 0;
            while ends && k < 5
                invariant
                    suffix@ == file_type(),
                    len == name@.len(),
                    ends ==> len >= 5,
                    k <= 5,
                    ends ==> forall|j: int| 0 <= j < k ==> name@[len - 5 + j] == suffix@[j],
                    !ends ==> !(len >= 5 && name@.subrange(len - 5, len as int) == file_type()),
                decreases 5 - k + (if ends { 1int } else { 0int }),
            {
                if name[len - 5 + k] != suffix[k] {
                    assert(name@.subrange(len - 5, len as int)[k as int] != file_type()[k as int]);
                    ends = false;
                } else {
                    k += 1;
                }
            }
            if ends {
                assert(name@.subrange(len - 5, len as int) =~= file_type());
                Some(name)
            } else {
                let mut full: Vec<char> = name;
                let mut j: usize = 0;
                while j < 5
                    invariant
                        suffix@ == file_type(),
                        j <= 5,
                        full@ == name@ + file_type().take(j as int),
                    decreases 5 - j,
                {
                    full.push(suffix[j]);
                    j += 1;
                    assert(full@ =~= name@ + file_type().take(j as int));
                }
                assert(file_type().take(5) =~= file_type());
                Some(full)
            }
        },
    }
}

} // verus!
