use vstd::prelude::*;

use crate::text::chars_of;
use crate::text::same_text;

verus! {

/// The meal of the day that a dish is for.
#[derive(Debug, Copy, Clone, PartialEq, Eq, Structural)]
pub enum PeriodType {
    Breakfast,
    Lunch,
    Dinner,
}

impl PeriodType {
    /// The name of the meal, as the database and the requests write it.
    pub open spec fn label(self) -> Seq<char> {
        match self {
            PeriodType::Breakfast => "breakfast"@,
            PeriodType::Lunch => "lunch"@,
            PeriodType::Dinner => "dinner"@,
        }
    }

    /// The meal with the given name, if there is one.
    pub open spec fn with_label(name: Seq<char>) -> Option<PeriodType> {
        if name == "breakfast"@ {
            Some(PeriodType::Breakfast)
        } else if name == "lunch"@ {
            Some(PeriodType::Lunch)
        } else if name == "dinner"@ {
            Some(PeriodType::Dinner)
        } else {
            None
        }
    }

    /// The bit that stands for the meal in a `PeriodSet`.
    pub open spec fn bit(self) -> i32 {
        match self {
            PeriodType::Breakfast => 1,
            PeriodType::Lunch => 2,
            PeriodType::Dinner => 4,
        }
    }

    /// The name of the meal.
    pub fn name(self) -> (text: &'static str)
        ensures
            text@ == self.label(),
    {
        match self {
            PeriodType::Breakfast => "breakfast",
            PeriodType::Lunch => "lunch",
            PeriodType::Dinner => "dinner",
        }
    }

    /// The meal with the given name; none for any other text.
    pub fn from_name(name: &str) -> (period: Option<PeriodType>)
        ensures
            period == PeriodType::with_label(name@),
    {
        let chars = chars_of(name);
        if same_text(chars.as_slice(), "breakfast") {
            Some(PeriodType::Breakfast)
        } else if same_text(chars.as_slice(), "lunch") {
            Some(PeriodType::Lunch)
        } else if same_text(chars.as_slice(), "dinner") {
            Some(PeriodType::Dinner)
        } else {
            None
        }
    }

    /// The meals of the day, in their order.
    pub fn all() -> (periods: Vec<PeriodType>)
        ensures
            periods@ == seq![PeriodType::Breakfast, PeriodType::Lunch, PeriodType::Dinner],
    {
        let mut periods: Vec<PeriodType> = Vec::new();
        periods.push(PeriodType::Breakfast);
        periods.push(PeriodType::Lunch);
        periods.push(PeriodType::Dinner);
        assert(periods@ =~= seq![PeriodType::Breakfast, PeriodType::Lunch, PeriodType::Dinner]);
        periods
    }
}

/// Each meal is found again by its name.
pub proof fn law_period_names_are_distinct(period: PeriodType)
    ensures
        PeriodType::with_label(period.label()) == Some(period),
{
    reveal_strlit("breakfast");
    reveal_strlit("lunch");
    reveal_strlit("dinner");
    assert("breakfast"@.len() != "lunch"@.len());
    assert("breakfast"@.len() != "dinner"@.len());
    assert("lunch"@.len() != "dinner"@.len());
}

/// The bits of all the given meals together.
pub open spec fn periods_mask(periods: Seq<PeriodType>) -> i32
    decreases periods.len(),
{
    if periods.len() == 0 {
        0
    } else {
        periods_mask(periods.drop_last()) | periods.last().bit()
    }
}

/// The meals whose bits are set in the value, in the order of the day.
/// Bits that stand for no meal are passed over.
pub open spec fn periods_in(value: i32) -> Seq<PeriodType> {
    (if value & 1 == 1 {
        seq![PeriodType::Breakfast]
    } else {
        Seq::empty()
    }) + (if (value >> 1) & 1 == 1 {
        seq![PeriodType::Lunch]
    } else {
        Seq::empty()
    }) + (if (value >> 2) & 1 == 1 {
        seq![PeriodType::Dinner]
    } else {
        Seq::empty()
    })
}

/// A set of meals, as the database stores it: one bit for each meal.
#[derive(Debug, Copy, Clone, PartialEq, Eq, Structural)]
pub struct PeriodSet(pub i32);

impl PeriodSet {
    /// The set of the given meals. A meal may be given more than once.
    pub fn from_periods(value: &[PeriodType]) -> (set: PeriodSet)
        ensures
            set.0 == periods_mask(value@),
    {
        let mut set = PeriodSet(0);
        let mut i: usize = 0;
        while i < value.len()
            invariant
                i <= value.len(),
                set.0 == periods_mask(value@.take(i as int)),
            decreases value.len() - i,
        {
            assert(value@.take(i + 1).drop_last() =~= value@.take(i as int));
            let bit: i32 = match value[i] {
                PeriodType::Breakfast => 1,
                PeriodType::Lunch => 2,
                PeriodType::Dinner => 4,
            };
            set = PeriodSet(set.0 | bit);
            i = i + 1;
        }
        assert(value@.take(value.len() as int) =~= value@);
        set
    }

    /// The meals of the set, in the order of the day.
    pub fn periods(self) -> (periods: Vec<PeriodType>)
        ensures
            periods@ == periods_in(self.0),
    {
        let start: i32 = self.0;
        let mut value: i32 = start;
        let mut res: Vec<PeriodType> = Vec::new();
        if value & 1 == 1 {
            res.push(PeriodType::Breakfast);
        }
        value = value >> 1;
        if value & 1 == 1 {
            res.push(PeriodType::Lunch);
        }
        value = value >> 1;
        if value & 1 == 1 {
            res.push(PeriodType::Dinner);
        }
        assert((start >> 1) >> 1 == start >> 2) by (bit_vector);
        assert(res@ =~= periods_in(self.0));
        res
    }
}


proof fn lemma_bits_of_periods(value: i32, mask: i32)
    by (bit_vector)
    ensures
        (value & 1 == 1) == (value & 1 != 0),
        ((value >> 1) & 1 == 1) == (value & 2 != 0),
        ((value >> 2) & 1 == 1) == (value & 4 != 0),
        (0i32 & mask) == 0,
        ((value | 1) & 1 != 0) && ((value | 2) & 2 != 0) && ((value | 4) & 4 != 0),
        ((value | 1) & 2 != 0) == (value & 2 != 0),
        ((value | 1) & 4 != 0) == (value & 4 != 0),
        ((value | 2) & 1 != 0) == (value & 1 != 0),
        ((value | 2) & 4 != 0) == (value & 4 != 0),
        ((value | 4) & 1 != 0) == (value & 1 != 0),
        ((value | 4) & 2 != 0) == (value & 2 != 0),
{
}

proof fn lemma_mask_holds_its_periods(periods: Seq<PeriodType>, period: PeriodType)
    ensures
        (periods_mask(periods) & period.bit() != 0) == periods.contains(period),
    decreases periods.len(),
{
    if periods.len() == 0 {
        lemma_bits_of_periods(0, period.bit());
    } else {
        let front = periods.drop_last();
        lemma_mask_holds_its_periods(front, period);
        lemma_bits_of_periods(periods_mask(front), 0);
        if front.contains(period) {
            let at = choose|at: int| 0 <= at < front.len() && front[at] == period;
            assert(periods[at] == period);
        }
        if periods.contains(period) && periods.last() != period {
            let at = choose|at: int| 0 <= at < periods.len() && periods[at] == period;
            assert(front[at] == period);
        }
        assert(periods[periods.len() - 1] == periods.last());
    }
}

/// A set of meals gives back the meals that it was made of: each of them
/// once, in the order of the day, and no other.
pub proof fn law_period_set_keeps_its_periods(periods: Seq<PeriodType>, period: PeriodType)
    ensures
        periods_in(periods_mask(periods)).contains(period) == periods.contains(period),
        periods_mask(periods_in(periods_mask(periods))) == periods_mask(periods),
{
    let value = periods_mask(periods);
    let back = periods_in(value);
    lemma_bits_of_periods(value, 0);
    lemma_mask_holds_its_periods(periods, PeriodType::Breakfast);
    lemma_mask_holds_its_periods(periods, PeriodType::Lunch);
    lemma_mask_holds_its_periods(periods, PeriodType::Dinner);
    lemma_periods_in_order(value);
    lemma_mask_is_a_set(back, periods);
}

proof fn lemma_periods_in_order(value: i32)
    ensures
        periods_in(value).contains(PeriodType::Breakfast) == (value & 1 == 1),
        periods_in(value).contains(PeriodType::Lunch) == ((value >> 1) & 1 == 1),
        periods_in(value).contains(PeriodType::Dinner) == ((value >> 2) & 1 == 1),
{
    let b: Seq<PeriodType> = if value & 1 == 1 {
        seq![PeriodType::Breakfast]
    } else {
        Seq::empty()
    };
    let l: Seq<PeriodType> = if (value >> 1) & 1 == 1 {
        seq![PeriodType::Lunch]
    } else {
        Seq::empty()
    };
    let d: Seq<PeriodType> = if (value >> 2) & 1 == 1 {
        seq![PeriodType::Dinner]
    } else {
        Seq::empty()
    };
    let all = b + l + d;
    assert(all == periods_in(value));
    assert forall|period: PeriodType| all.contains(period) == (b.contains(period) || l.contains(
        period,
    ) || d.contains(period)) by {
        if b.contains(period) {
            assert(all[0] == period);
        }
        if l.contains(period) {
            assert(all[b.len() as int] == period);
        }
        if d.contains(period) {
            assert(all[(b.len() + l.len()) as int] == period);
        }
        if all.contains(period) {
            let at = choose|at: int| 0 <= at < all.len() && all[at] == period;
            if at < b.len() {
                assert(b[at] == period);
            } else if at < b.len() + l.len() {
                assert(l[at - b.len()] == period);
            } else {
                assert(d[at - b.len() - l.len()] == period);
            }
        }
    }
    assert(seq![PeriodType::Breakfast][0] == PeriodType::Breakfast);
    assert(seq![PeriodType::Lunch][0] == PeriodType::Lunch);
    assert(seq![PeriodType::Dinner][0] == PeriodType::Dinner);
}

proof fn lemma_bits_make_the_mask(a: i32, b: i32)
    by (bit_vector)
    requires
        (a & 1 != 0) == (b & 1 != 0),
        (a & 2 != 0) == (b & 2 != 0),
        (a & 4 != 0) == (b & 4 != 0),
        a & !7 == 0,
        b & !7 == 0,
    ensures
        a == b,
{
}

proof fn lemma_mask_is_small(periods: Seq<PeriodType>)
    ensures
        periods_mask(periods) & !7 == 0,
    decreases periods.len(),
{
    if periods.len() == 0 {
        assert(0i32 & !7 == 0) by (bit_vector);
    } else {
        lemma_mask_is_small(periods.drop_last());
        let m = periods_mask(periods.drop_last());
        assert(m & !7 == 0 ==> (m | 1) & !7 == 0 && (m | 2) & !7 == 0 && (m | 4) & !7 == 0)
            by (bit_vector);
    }
}

proof fn lemma_mask_is_a_set(first: Seq<PeriodType>, second: Seq<PeriodType>)
    requires
        forall|period: PeriodType| first.contains(period) == second.contains(period),
    ensures
        periods_mask(first) == periods_mask(second),
{
    lemma_mask_holds_its_periods(first, PeriodType::Breakfast);
    lemma_mask_holds_its_periods(first, PeriodType::Lunch);
    lemma_mask_holds_its_periods(first, PeriodType::Dinner);
    lemma_mask_holds_its_periods(second, PeriodType::Breakfast);
    lemma_mask_holds_its_periods(second, PeriodType::Lunch);
    lemma_mask_holds_its_periods(second, PeriodType::Dinner);
    lemma_mask_is_small(first);
    lemma_mask_is_small(second);
    lemma_bits_make_the_mask(periods_mask(first), periods_mask(second));
}

} // verus!
