use vstd::prelude::*;
use vstd::string::StringExecFns;

use crate::menu::db::CorruptedDataError;
use crate::menu::db::DISH_TABLE;
use crate::menu::period::periods_in;
use crate::menu::period::periods_mask;
use crate::menu::period::PeriodSet;
use crate::menu::period::PeriodType;
use crate::text::signed_decimal;
use crate::text::signed_decimal_text;

verus! {

/// What a product is, apart from how it is stored.
pub struct ProductModel {
    pub name: Seq<char>,
    pub measure: Seq<char>,
}

/// A product that dishes are made of, and the unit it is measured in.
#[derive(Debug)]
pub struct Product {
    pub name: String,
    pub measure: String,
}

impl View for Product {
    type V = ProductModel;

    open spec fn view(&self) -> ProductModel {
        ProductModel { name: self.name@, measure: self.measure@ }
    }
}

/// The products, one for one.
pub open spec fn product_models(products: Seq<Product>) -> Seq<ProductModel> {
    Seq::new(products.len(), |i: int| products[i]@)
}

impl Product {
    /// A product of the same name and measure.
    pub fn duplicate(&self) -> (copy: Product)
        ensures
            copy@ == self@,
    {
        Product { name: self.name.clone(), measure: self.measure.clone() }
    }
}

/// Changes to a product: each part that is given replaces the product's.
#[derive(Debug)]
pub struct UpdateProduct {
    pub name: Option<String>,
    pub measure: Option<String>,
}

impl UpdateProduct {
    /// The product after the changes.
    pub fn apply(self, product: Product) -> (updated: Product)
        ensures
            updated.name == match self.name {
                Some(name) => name,
                None => product.name,
            },
            updated.measure == match self.measure {
                Some(measure) => measure,
                None => product.measure,
            },
    {
        let Product { name, measure } = product;
        Product {
            name: match self.name {
                Some(new_name) => new_name,
                None => name,
            },
            measure: match self.measure {
                Some(new_measure) => new_measure,
                None => measure,
            },
        }
    }
}

/// What a dish is, apart from how it is stored.
pub struct DishModel {
    pub name: Seq<char>,
    pub periods: Seq<PeriodType>,
    pub products: Seq<ProductModel>,
    pub amount: u8,
}

/// A dish: the meals it is for, its products, and for how many days it
/// is cooked.
#[derive(Debug)]
pub struct Dish {
    pub name: String,
    pub periods: Vec<PeriodType>,
    pub products: Vec<Product>,
    pub amount: u8,
}

impl View for Dish {
    type V = DishModel;

    open spec fn view(&self) -> DishModel {
        DishModel {
            name: self.name@,
            periods: self.periods@,
            products: product_models(self.products@),
            amount: self.amount,
        }
    }
}

/// The dishes, one for one.
pub open spec fn dish_models(dishes: Seq<Dish>) -> Seq<DishModel> {
    Seq::new(dishes.len(), |i: int| dishes[i]@)
}

/// A dish as the database holds it.
#[derive(Debug)]
pub struct DishRow {
    pub id: i32,
    pub name: String,
    pub periods: i32,
    pub amount: i32,
}

impl Dish {
    /// A dish with the same name, meals, products and amount.
    pub fn duplicate(&self) -> (copy: Dish)
        ensures
            copy@ == self@,
    {
        let mut periods: Vec<PeriodType> = Vec::new();
        let mut i: usize = 0;
        while i < self.periods.len()
            invariant
                i <= self.periods.len(),
                periods@ == self.periods@.take(i as int),
            decreases self.periods.len() - i,
        {
            periods.push(self.periods[i]);
            assert(periods@ =~= self.periods@.take(i + 1));
            i = i + 1;
        }
        assert(self.periods@.take(self.periods.len() as int) =~= self.periods@);
        let mut products: Vec<Product> = Vec::new();
        let mut j: usize = 0;
        while j < self.products.len()
            invariant
                j <= self.products.len(),
                products@.len() == j,
                forall|k: int| 0 <= k < j ==> products@[k]@ == self.products@[k]@,
            decreases self.products.len() - j,
        {
            products.push(self.products[j].duplicate());
            j = j + 1;
        }
        assert(product_models(products@) =~= product_models(self.products@));
        Dish { name: self.name.clone(), periods, products, amount: self.amount }
    }

    /// The dish that a row of the database and its products make. The
    /// meals are read from the row's bits. An amount that is no number of
    /// days from 0 to 255 is reported as corrupted.
    pub fn from_row(row: DishRow, products: Vec<Product>) -> (result: Result<
        Dish,
        CorruptedDataError,
    >)
        ensures
            match result {
                Ok(dish) => {
                    &&& 0 <= row.amount <= 255
                    &&& dish.name == row.name
                    &&& dish.periods@ == periods_in(row.periods)
                    &&& dish.products == products
                    &&& dish.amount == row.amount
                },
                Err(error) => {
                    &&& !(0 <= row.amount <= 255)
                    &&& error.table@ == DISH_TABLE@
                    &&& error.id@ == signed_decimal(row.id as int)
                    &&& error.column@ == "amount_days"@
                },
            },
    {
        let DishRow { id, name, periods, amount } = row;
        if 0 <= amount && amount <= 255 {
            Ok(Dish { name, periods: PeriodSet(periods).periods(), products, amount: amount as u8 })
        } else {
            Err(
                CorruptedDataError::new(
                    String::from_str(DISH_TABLE),
                    signed_decimal_text(id as i64),
                    String::from_str("amount_days"),
                ),
            )
        }
    }
}

/// A dish to add.
#[derive(Debug)]
pub struct CreateDish {
    pub name: String,
    pub periods: Vec<PeriodType>,
    pub amount: u8,
}

/// What is stored of a dish: its name, the bits of its meals and its
/// amount.
#[derive(Debug)]
pub struct NewDishRow {
    pub name: String,
    pub periods: i32,
    pub amount: i32,
}

impl CreateDish {
    /// What to store of the dish.
    pub fn into_row(self) -> (row: NewDishRow)
        ensures
            row.name == self.name,
            row.periods == periods_mask(self.periods@),
            row.amount == self.amount,
    {
        let period_set = PeriodSet::from_periods(self.periods.as_slice());
        NewDishRow { name: self.name, periods: period_set.0, amount: self.amount as i32 }
    }
}

/// Changes to a dish: each part that is given replaces the dish's.
#[derive(Debug)]
pub struct UpdateDish {
    pub name: Option<String>,
    pub periods: Option<Vec<PeriodType>>,
    pub amount: Option<u8>,
}

impl UpdateDish {
    /// The row of the dish after the changes.
    pub fn apply(self, row: DishRow) -> (updated: DishRow)
        ensures
            updated.id == row.id,
            updated.name == match self.name {
                Some(name) => name,
                None => row.name,
            },
            updated.periods == match self.periods {
                Some(periods) => periods_mask(periods@),
                None => row.periods,
            },
            updated.amount == match self.amount {
                Some(amount) => amount as i32,
                None => row.amount,
            },
    {
        let DishRow { id, name, periods, amount } = row;
        DishRow {
            id,
            name: match self.name {
                Some(new_name) => new_name,
                None => name,
            },
            periods: match self.periods {
                Some(new_periods) => PeriodSet::from_periods(new_periods.as_slice()).0,
                None => periods,
            },
            amount: match self.amount {
                Some(new_amount) => new_amount as i32,
                None => amount,
            },
        }
    }
}

/// How often the meal is among the given meals.
pub open spec fn times_listed(periods: Seq<PeriodType>, period: PeriodType) -> nat
    decreases periods.len(),
{
    if periods.len() == 0 {
        0
    } else if periods.last() == period {
        times_listed(periods.drop_last(), period) + 1
    } else {
        times_listed(periods.drop_last(), period)
    }
}

/// How often the dishes are for the meal, each dish counted as often as
/// it lists the meal.
pub open spec fn dishes_listed(dishes: Seq<Dish>, period: PeriodType) -> nat
    decreases dishes.len(),
{
    if dishes.len() == 0 {
        0
    } else {
        dishes_listed(dishes.drop_last(), period) + times_listed(dishes.last().periods@, period)
    }
}

/// How many dishes there are, and how many for each meal.
#[derive(Debug, Copy, Clone, PartialEq, Eq, Structural)]
pub struct DishStat {
    pub count: usize,
    pub breakfasts: usize,
    pub lunches: usize,
    pub dinners: usize,
}

impl Default for DishStat {
    fn default() -> (stat: DishStat)
        ensures
            stat == (DishStat { count: 0, breakfasts: 0, lunches: 0, dinners: 0 }),
    {
        DishStat { count: 0, breakfasts: 0, lunches: 0, dinners: 0 }
    }
}

impl DishStat {
    /// Counts the dishes, and for each meal the dishes that are for it.
    /// A count that would not fit is left at the largest number.
    pub fn of(dishes: &Vec<Dish>) -> (stat: DishStat)
        ensures
            stat.count == dishes@.len(),
            stat.breakfasts == capped(dishes_listed(dishes@, PeriodType::Breakfast)),
            stat.lunches == capped(dishes_listed(dishes@, PeriodType::Lunch)),
            stat.dinners == capped(dishes_listed(dishes@, PeriodType::Dinner)),
    {
        let mut stat = DishStat::default();
        stat.count = dishes.len();
        let mut i: usize = 0;
        while i < dishes.len()
            invariant
                i <= dishes.len(),
                stat.count == dishes@.len(),
                stat.breakfasts == capped(dishes_listed(dishes@.take(i as int), PeriodType::Breakfast)),
                stat.lunches == capped(dishes_listed(dishes@.take(i as int), PeriodType::Lunch)),
                stat.dinners == capped(dishes_listed(dishes@.take(i as int), PeriodType::Dinner)),
            decreases dishes.len() - i,
        {
            let periods = &dishes[i].periods;
            let ghost before = dishes@.take(i as int);
            assert(dishes@.take(i + 1).drop_last() =~= before);
            let mut j: usize = 0;
            while j < periods.len()
                invariant
                    j <= periods.len(),
                    stat.count == dishes@.len(),
                    stat.breakfasts == capped(
                        dishes_listed(before, PeriodType::Breakfast) + times_listed(
                            periods@.take(j as int),
                            PeriodType::Breakfast,
                        ),
                    ),
                    stat.lunches == capped(
                        dishes_listed(before, PeriodType::Lunch) + times_listed(
                            periods@.take(j as int),
                            PeriodType::Lunch,
                        ),
                    ),
                    stat.dinners == capped(
                        dishes_listed(before, PeriodType::Dinner) + times_listed(
                            periods@.take(j as int),
                            PeriodType::Dinner,
                        ),
                    ),
                decreases periods.len() - j,
            {
                assert(periods@.take(j + 1).drop_last() =~= periods@.take(j as int));
                match periods[j] {
                    PeriodType::Breakfast => {
                        stat.breakfasts = stat.breakfasts.saturating_add(1);
                    },
                    PeriodType::Lunch => {
                        stat.lunches = stat.lunches.saturating_add(1);
                    },
                    PeriodType::Dinner => {
                        stat.dinners = stat.dinners.saturating_add(1);
                    },
                }
                j = j + 1;
            }
            assert(periods@.take(periods.len() as int) =~= periods@);
            i = i + 1;
        }
        assert(dishes@.take(dishes.len() as int) =~= dishes@);
        stat
    }
}

/// A count as far as it can be held.
pub open spec fn capped(count: nat) -> usize {
    if count <= usize::MAX {
        count as usize
    } else {
        usize::MAX
    }
}

} // verus!
