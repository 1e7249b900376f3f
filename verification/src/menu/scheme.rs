use vstd::prelude::*;
use vstd::string::StringExecFns;

use crate::menu::db::CorruptedDataError;
use crate::menu::db::DISHES_SCHEME_TABLE;
use crate::menu::period::PeriodType;
use crate::text::chars_of;
use crate::text::decimal;
use crate::text::decimal_text;
use crate::text::signed_decimal;
use crate::text::signed_decimal_text;

verus! {

/// The sign that stands between the numbers of a scheme.
pub const DISHES_SCHEME_DELIMITER: &'static str = "+";

/// The numbers written in decimal with a plus sign between each two.
pub open spec fn joined(numbers: Seq<u8>) -> Seq<char>
    decreases numbers.len(),
{
    if numbers.len() == 0 {
        Seq::empty()
    } else if numbers.len() == 1 {
        decimal(numbers[0] as nat)
    } else {
        joined(numbers.drop_last()) + seq!['+'] + decimal(numbers.last() as nat)
    }
}

/// The value of a decimal digit; none for any other character.
pub open spec fn digit_value(c: char) -> Option<int> {
    if c == '0' {
        Some(0)
    } else if c == '1' {
        Some(1)
    } else if c == '2' {
        Some(2)
    } else if c == '3' {
        Some(3)
    } else if c == '4' {
        Some(4)
    } else if c == '5' {
        Some(5)
    } else if c == '6' {
        Some(6)
    } else if c == '7' {
        Some(7)
    } else if c == '8' {
        Some(8)
    } else if c == '9' {
        Some(9)
    } else {
        None
    }
}

/// What has been read of a scheme up to some character: the numbers that
/// are complete, and of the number that is being read its value and
/// whether it has a digit yet. None once the text has gone wrong: a
/// character that is neither digit nor plus sign, a number above 255, or a
/// number without a digit.
pub open spec fn read_upto(text: Seq<char>, upto: int) -> Option<(Seq<u8>, int, bool)>
    decreases upto,
{
    if upto <= 0 {
        Some((Seq::empty(), 0, false))
    } else {
        match read_upto(text, upto - 1) {
            None => None,
            Some((numbers, value, started)) => {
                let c = text[upto - 1];
                if c == '+' {
                    if started {
                        Some((numbers.push(value as u8), 0, false))
                    } else {
                        None
                    }
                } else {
                    match digit_value(c) {
                        Some(d) => if value * 10 + d <= 255 {
                            Some((numbers, value * 10 + d, true))
                        } else {
                            None
                        },
                        None => None,
                    }
                }
            },
        }
    }
}

/// The numbers of a scheme written as text: decimal numbers of at most
/// 255 with a plus sign between each two, and nothing else. None for any
/// other text, the empty one too.
pub open spec fn scheme_of(text: Seq<char>) -> Option<Seq<u8>> {
    match read_upto(text, text.len() as int) {
        Some((numbers, value, started)) => if started {
            Some(numbers.push(value as u8))
        } else {
            None
        },
        None => None,
    }
}

/// Which dishes make a meal: the numbers of days that the dishes of the
/// meal are cooked for, and the meal.
#[derive(Debug)]
pub struct DishesScheme {
    pub scheme: Vec<u8>,
    pub period: PeriodType,
}

/// A scheme as the database holds it.
#[derive(Debug)]
pub struct DishesSchemeRow {
    pub id: i32,
    pub scheme: String,
    pub period: String,
}

impl DishesScheme {
    /// Writes the numbers of a scheme as text.
    pub fn scheme_to_string(data: Vec<u8>) -> (text: String)
        ensures
            text@ == joined(data@),
    {
        let mut text = String::new();
        let mut i: usize = 0;
        while i < data.len()
            invariant
                i <= data.len(),
                text@ == joined(data@.take(i as int)),
            decreases data.len() - i,
        {
            let ghost before = data@.take(i as int);
            let ghost next = data@.take(i + 1);
            proof {
                assert(next.drop_last() =~= before);
                assert(next.last() == data@[i as int]);
            }
            if i > 0 {
                proof {
                    reveal_strlit("+");
                    assert("+"@ =~= seq!['+']);
                }
                text.append(DISHES_SCHEME_DELIMITER);
            } else {
                assert(next[0] == data@[0]);
                assert(before =~= Seq::<u8>::empty());
            }
            let number = decimal_text(data[i] as u64);
            text.append(number.as_str());
            assert(text@ =~= joined(next));
            i = i + 1;
        }
        assert(data@.take(data.len() as int) =~= data@);
        text
    }

    /// Reads the numbers of a scheme from text. Text that is no scheme is
    /// handed back as the error.
    pub fn string_to_scheme(data: String) -> (result: Result<Vec<u8>, String>)
        ensures
            match result {
                Ok(numbers) => scheme_of(data@) == Some(numbers@),
                Err(text) => scheme_of(data@) is None && text == data,
            },
    {
        let chars = chars_of(data.as_str());
        let mut numbers: Vec<u8> = Vec::new();
        let mut value: u8 = 0;
        let mut started = false;
        let mut i: usize = 0;
        while i < chars.len()
            invariant
                i <= chars.len(),
                chars@ == data@,
                read_upto(data@, i as int) == Some((numbers@, value as int, started)),
            decreases chars.len() - i,
        {
            let c = chars[i];
            if c == '+' {
                if !started {
                    proof {
                        lemma_reading_stays_wrong(data@, i + 1, data@.len() as int);
                    }
                    return Err(data);
                }
                numbers.push(value);
                value = 0;
                started = false;
            } else {
                let digit: Option<u8> = digit_of(c);
                match digit {
                    Some(d) => {
                        if value > 25 || (value == 25 && d > 5) {
                            proof {
                                lemma_reading_stays_wrong(data@, i + 1, data@.len() as int);
                            }
                            return Err(data);
                        }
                        value = value * 10 + d;
                        started = true;
                    },
                    None => {
                        proof {
                            lemma_reading_stays_wrong(data@, i + 1, data@.len() as int);
                        }
                        return Err(data);
                    },
                }
            }
            i = i + 1;
        }
        if started {
            numbers.push(value);
            Ok(numbers)
        } else {
            Err(data)
        }
    }

    /// The scheme that a row of the database holds. The numbers are read
    /// first, then the meal; what cannot be read is reported with the
    /// row's id and the column.
    pub fn from_row(row: DishesSchemeRow) -> (result: Result<DishesScheme, CorruptedDataError>)
        ensures
            match result {
                Ok(scheme) => {
                    &&& scheme_of(row.scheme@) == Some(scheme.scheme@)
                    &&& PeriodType::with_label(row.period@) == Some(scheme.period)
                },
                Err(error) => {
                    &&& error.table@ == DISHES_SCHEME_TABLE@
                    &&& error.id@ == signed_decimal(row.id as int)
                    &&& if scheme_of(row.scheme@) is None {
                        error.column@ == "scheme"@
                    } else {
                        PeriodType::with_label(row.period@) is None && error.column@ == "period"@
                    }
                },
            },
    {
        let DishesSchemeRow { id, scheme, period } = row;
        let numbers = match DishesScheme::string_to_scheme(scheme) {
            Ok(numbers) => numbers,
            Err(_) => {
                return Err(
                    CorruptedDataError::new(
                        String::from_str(DISHES_SCHEME_TABLE),
                        signed_decimal_text(id as i64),
                        String::from_str("scheme"),
                    ),
                );
            },
        };
        match PeriodType::from_name(period.as_str()) {
            Some(period) => Ok(DishesScheme { scheme: numbers, period }),
            None => Err(
                CorruptedDataError::new(
                    String::from_str(DISHES_SCHEME_TABLE),
                    signed_decimal_text(id as i64),
                    String::from_str("period"),
                ),
            ),
        }
    }

    /// What to store of the scheme: the numbers as text and the name of
    /// the meal.
    pub fn into_row(self) -> (row: (String, String))
        ensures
            row.0@ == joined(self.scheme@),
            row.1@ == self.period.label(),
    {
        let period = String::from_str(self.period.name());
        (DishesScheme::scheme_to_string(self.scheme), period)
    }
}

fn digit_of(c: char) -> (digit: Option<u8>)
    ensures
        match digit {
            Some(d) => digit_value(c) == Some(d as int) && d <= 9,
            None => digit_value(c) is None,
        },
{
    match c {
        '0' => Some(0),
        '1' => Some(1),
        '2' => Some(2),
        '3' => Some(3),
        '4' => Some(4),
        '5' => Some(5),
        '6' => Some(6),
        '7' => Some(7),
        '8' => Some(8),
        '9' => Some(9),
        _ => None,
    }
}

proof fn lemma_reading_stays_wrong(text: Seq<char>, from: int, upto: int)
    requires
        0 <= from <= upto,
        read_upto(text, from) is None,
    ensures
        read_upto(text, upto) is None,
    decreases upto - from,
{
    if from < upto {
        lemma_reading_stays_wrong(text, from, upto - 1);
    }
}


/// What has been read after one more character (see `read_upto`).
spec fn read_on(state: Option<(Seq<u8>, int, bool)>, c: char) -> Option<(Seq<u8>, int, bool)> {
    match state {
        None => None,
        Some((numbers, value, started)) => {
            if c == '+' {
                if started {
                    Some((numbers.push(value as u8), 0, false))
                } else {
                    None
                }
            } else {
                match digit_value(c) {
                    Some(d) => if value * 10 + d <= 255 {
                        Some((numbers, value * 10 + d, true))
                    } else {
                        None
                    },
                    None => None,
                }
            }
        },
    }
}

/// What has been read after some more text.
spec fn read_through(state: Option<(Seq<u8>, int, bool)>, text: Seq<char>) -> Option<
    (Seq<u8>, int, bool),
>
    decreases text.len(),
{
    if text.len() == 0 {
        state
    } else {
        read_on(read_through(state, text.drop_last()), text.last())
    }
}

proof fn lemma_read_upto_is_read_through(text: Seq<char>, upto: int)
    requires
        0 <= upto <= text.len(),
    ensures
        read_upto(text, upto) == read_through(
            Some((Seq::<u8>::empty(), 0int, false)),
            text.take(upto),
        ),
    decreases upto,
{
    if upto > 0 {
        lemma_read_upto_is_read_through(text, upto - 1);
        assert(text.take(upto).drop_last() =~= text.take(upto - 1));
    }
}

proof fn lemma_read_through_parts(
    state: Option<(Seq<u8>, int, bool)>,
    first: Seq<char>,
    second: Seq<char>,
)
    ensures
        read_through(state, first + second) == read_through(read_through(state, first), second),
    decreases second.len(),
{
    if second.len() == 0 {
        assert(first + second =~= first);
    } else {
        lemma_read_through_parts(state, first, second.drop_last());
        assert((first + second).drop_last() =~= first + second.drop_last());
    }
}

proof fn lemma_number_reads_back(numbers: Seq<u8>, n: nat)
    requires
        n <= 255,
    ensures
        read_through(Some((numbers, 0int, false)), decimal(n)) == Some((numbers, n as int, true)),
    decreases n,
{
    let start = Some((numbers, 0int, false));
    if n < 10 {
        let one = decimal(n);
        assert(one.drop_last() =~= Seq::<char>::empty());
        assert(read_through(start, one.drop_last()) == start);
    } else {
        lemma_number_reads_back(numbers, n / 10);
        let text = decimal(n);
        assert(text.drop_last() =~= decimal(n / 10));
        assert(text.last() == crate::text::digit((n % 10) as int));
    }
}

proof fn lemma_scheme_reads_back(numbers: Seq<u8>)
    requires
        numbers.len() > 0,
    ensures
        read_through(Some((Seq::<u8>::empty(), 0int, false)), joined(numbers)) == Some(
            (numbers.drop_last(), numbers.last() as int, true),
        ),
    decreases numbers.len(),
{
    let start = Some((Seq::<u8>::empty(), 0int, false));
    if numbers.len() == 1 {
        lemma_number_reads_back(Seq::empty(), numbers[0] as nat);
        assert(numbers.drop_last() =~= Seq::<u8>::empty());
    } else {
        let front = numbers.drop_last();
        lemma_scheme_reads_back(front);
        let plus = seq!['+'];
        let last = decimal(numbers.last() as nat);
        lemma_read_through_parts(start, joined(front) + plus, last);
        lemma_read_through_parts(start, joined(front), plus);
        assert(plus.drop_last() =~= Seq::<char>::empty());
        let after_front = read_through(start, joined(front));
        assert(read_through(after_front, plus.drop_last()) == after_front);
        assert(read_through(after_front, plus) == read_on(after_front, '+'));
        assert(front.drop_last().push(front.last()) =~= front);
        lemma_number_reads_back(front, numbers.last() as nat);
    }
}

/// A scheme with a number at least is read back from its text as it was
/// written.
pub proof fn law_scheme_text_reads_back(numbers: Seq<u8>)
    requires
        numbers.len() > 0,
    ensures
        scheme_of(joined(numbers)) == Some(numbers),
{
    let text = joined(numbers);
    lemma_read_upto_is_read_through(text, text.len() as int);
    assert(text.take(text.len() as int) =~= text);
    lemma_scheme_reads_back(numbers);
    assert(numbers.drop_last().push(numbers.last()) =~= numbers);
}

} // verus!
