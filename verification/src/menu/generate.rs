use vstd::prelude::*;
use vstd::string::StringExecFns;

use crate::menu::db::CorruptedDataError;
use crate::menu::db::DISHES_SCHEME_TABLE;
use crate::menu::dish::dish_models;
use crate::menu::dish::times_listed;
use crate::menu::dish::Dish;
use crate::menu::dish::DishModel;
use crate::menu::period::PeriodType;
use crate::menu::planner::choose_random;
use crate::menu::planner::is_choice;
use crate::menu::planner::listed_for;
use crate::menu::planner::portioned;
use crate::menu::planner::repeated;
use crate::menu::planner::scaled;
use crate::menu::planner::scheme_numbers;
use crate::menu::planner::schemes_for;
use crate::menu::planner::Menu;
use crate::menu::scheme::DishesScheme;
use crate::text::signed_decimal;
use crate::text::signed_decimal_text;

verus! {

/// The dishes that go into a menu for `amount` eaters, in their order,
/// each with the number of days that it lasts: a dish goes in if its
/// amount divides the number of eaters or is divided by it.
pub fn dishes_for(amount: u8, dishes: &Vec<Dish>) -> (kept: Vec<Dish>)
    requires
        amount > 0,
        forall|i: int| 0 <= i < dishes@.len() ==> (#[trigger] dishes@[i]).amount > 0,
    ensures
        dish_models(kept@) == portioned(dish_models(dishes@), amount),
{
    let mut kept: Vec<Dish> = Vec::new();
    let mut i: usize = 0;
    assert(dish_models(dishes@).take(0) =~= Seq::<DishModel>::empty());
    assert(dish_models(kept@) =~= Seq::<DishModel>::empty());
    while i < dishes.len()
        invariant
            i <= dishes.len(),
            amount > 0,
            forall|j: int| 0 <= j < dishes@.len() ==> (#[trigger] dishes@[j]).amount > 0,
            dish_models(kept@) == portioned(dish_models(dishes@).take(i as int), amount),
        decreases dishes.len() - i,
    {
        let ghost before = dish_models(kept@);
        let ghost models = dish_models(dishes@);
        proof {
            assert(models.take(i + 1).drop_last() =~= models.take(i as int));
            assert(models.take(i + 1).last() == dishes@[i as int]@);
        }
        let dish_amount = dishes[i].amount;
        let goes_in = if dish_amount < amount {
            amount % dish_amount == 0
        } else if dish_amount == amount {
            true
        } else {
            dish_amount % amount == 0
        };
        if goes_in {
            let mut dish = dishes[i].duplicate();
            dish.amount = if dish_amount < amount {
                1
            } else {
                dish_amount / amount
            };
            kept.push(dish);
            assert(dish_models(kept@) =~= before.push(
                DishModel { amount: scaled(dish_amount, amount), ..dishes@[i as int]@ },
            ));
        }
        i = i + 1;
    }
    assert(dish_models(dishes@).take(dishes.len() as int) =~= dish_models(dishes@));
    kept
}

/// The dishes for one meal, in their order. A dish that lists the meal
/// more than once is taken as often.
pub fn dishes_for_period(dishes: &Vec<Dish>, period: PeriodType) -> (listed: Vec<Dish>)
    ensures
        dish_models(listed@) == listed_for(dish_models(dishes@), period),
{
    let mut listed: Vec<Dish> = Vec::new();
    let mut i: usize = 0;
    assert(dish_models(dishes@).take(0) =~= Seq::<DishModel>::empty());
    assert(dish_models(listed@) =~= Seq::<DishModel>::empty());
    while i < dishes.len()
        invariant
            i <= dishes.len(),
            dish_models(listed@) == listed_for(dish_models(dishes@).take(i as int), period),
        decreases dishes.len() - i,
    {
        let ghost before = dish_models(listed@);
        let ghost models = dish_models(dishes@);
        proof {
            assert(models.take(i + 1).drop_last() =~= models.take(i as int));
            assert(models.take(i + 1).last() == dishes@[i as int]@);
        }
        let periods = &dishes[i].periods;
        let mut j: usize = 0;
        assert(before + repeated(dishes@[i as int]@, 0) =~= before);
        assert(times_listed(periods@.take(0), period) == 0);
        while j < periods.len()
            invariant
                j <= periods.len(),
                i < dishes.len(),
                periods@ == dishes@[i as int].periods@,
                dish_models(listed@) == before + repeated(
                    dishes@[i as int]@,
                    times_listed(periods@.take(j as int), period),
                ),
            decreases periods.len() - j,
        {
            assert(periods@.take(j + 1).drop_last() =~= periods@.take(j as int));
            let ghost so_far = times_listed(periods@.take(j as int), period);
            let ghost listed_before = dish_models(listed@);
            if periods[j] == period {
                listed.push(dishes[i].duplicate());
                assert(dish_models(listed@) =~= listed_before.push(dishes@[i as int]@));
                assert(listed_before.push(dishes@[i as int]@) =~= before + repeated(
                    dishes@[i as int]@,
                    so_far + 1,
                ));
            }
            j = j + 1;
        }
        assert(periods@.take(periods.len() as int) =~= periods@);
        i = i + 1;
    }
    assert(dish_models(dishes@).take(dishes.len() as int) =~= dish_models(dishes@));
    listed
}

/// The numbers of the schemes for one meal, in the schemes' order.
pub fn schemes_for_period(schemes: &Vec<DishesScheme>, period: PeriodType) -> (numbers: Vec<
    Vec<u8>,
>)
    ensures
        scheme_numbers(numbers@) == schemes_for(schemes@, period),
{
    let mut numbers: Vec<Vec<u8>> = Vec::new();
    let mut i: usize = 0;
    assert(scheme_numbers(numbers@) =~= Seq::<Seq<u8>>::empty());
    while i < schemes.len()
        invariant
            i <= schemes.len(),
            scheme_numbers(numbers@) == schemes_for(schemes@.take(i as int), period),
        decreases schemes.len() - i,
    {
        let ghost before = scheme_numbers(numbers@);
        assert(schemes@.take(i + 1).drop_last() =~= schemes@.take(i as int));
        if schemes[i].period == period {
            numbers.push(schemes[i].scheme.clone());
            assert(scheme_numbers(numbers@) =~= before.push(schemes@[i as int].scheme@));
        }
        i = i + 1;
    }
    assert(schemes@.take(schemes.len() as int) =~= schemes@);
    numbers
}

/// Makes a menu for `amount` eaters out of the dishes and schemes at
/// hand. Of the dishes those are taken that go into such a menu (see
/// `dishes_for`). Then, for each meal, the dishes for that meal that fill
/// one of the schemes for that meal are chosen by chance (see
/// `choose_random`).
pub fn generate_menu(amount: u8, dishes: &Vec<Dish>, schemes: &Vec<DishesScheme>) -> (menu: Menu)
    requires
        amount > 0,
        forall|i: int| 0 <= i < dishes@.len() ==> (#[trigger] dishes@[i]).amount > 0,
    ensures
        ({
            let kept = portioned(dish_models(dishes@), amount);
            &&& is_choice(
                dish_models(menu.breakfasts@),
                schemes_for(schemes@, PeriodType::Breakfast),
                listed_for(kept, PeriodType::Breakfast),
            )
            &&& is_choice(
                dish_models(menu.lunches@),
                schemes_for(schemes@, PeriodType::Lunch),
                listed_for(kept, PeriodType::Lunch),
            )
            &&& is_choice(
                dish_models(menu.dinners@),
                schemes_for(schemes@, PeriodType::Dinner),
                listed_for(kept, PeriodType::Dinner),
            )
        }),
{
    let kept = dishes_for(amount, dishes);
    let breakfasts = choose_random(
        schemes_for_period(schemes, PeriodType::Breakfast),
        dishes_for_period(&kept, PeriodType::Breakfast),
    );
    let lunches = choose_random(
        schemes_for_period(schemes, PeriodType::Lunch),
        dishes_for_period(&kept, PeriodType::Lunch),
    );
    let dinners = choose_random(
        schemes_for_period(schemes, PeriodType::Dinner),
        dishes_for_period(&kept, PeriodType::Dinner),
    );
    Menu { breakfasts, lunches, dinners }
}

/// The dishes of a menu in the order in which they are stored: the
/// breakfasts, then the lunches, then the dinners.
pub open spec fn stored_order(menu: Menu) -> Seq<(PeriodType, Seq<char>)> {
    Seq::new(menu.breakfasts@.len(), |i: int| (PeriodType::Breakfast, menu.breakfasts@[i].name@))
        + Seq::new(menu.lunches@.len(), |i: int| (PeriodType::Lunch, menu.lunches@[i].name@))
        + Seq::new(menu.dinners@.len(), |i: int| (PeriodType::Dinner, menu.dinners@[i].name@))
}

/// A dish of a stored menu: its place in the menu, its meal, and the
/// name of the dish.
#[derive(Debug)]
pub struct MenuItem {
    pub order: usize,
    pub period: PeriodType,
    pub dish: String,
}

fn push_items(items: &mut Vec<MenuItem>, dishes: &Vec<Dish>, period: PeriodType)
    ensures
        final(items)@.len() == old(items)@.len() + dishes@.len(),
        forall|i: int| 0 <= i < old(items)@.len() ==> final(items)@[i] == old(items)@[i],
        forall|i: int|
            0 <= i < dishes@.len() ==> {
                let item = #[trigger] final(items)@[old(items)@.len() + i];
                &&& item.order == old(items)@.len() + i
                &&& item.period == period
                &&& item.dish@ == dishes@[i].name@
            },
{
    let mut i: usize = 0;
    while i < dishes.len()
        invariant
            i <= dishes.len(),
            items@.len() == old(items)@.len() + i,
            forall|k: int| 0 <= k < old(items)@.len() ==> items@[k] == old(items)@[k],
            forall|k: int|
                0 <= k < i ==> {
                    let item = #[trigger] items@[old(items)@.len() + k];
                    &&& item.order == old(items)@.len() + k
                    &&& item.period == period
                    &&& item.dish@ == dishes@[k].name@
                },
        decreases dishes.len() - i,
    {
        let order = items.len();
        items.push(MenuItem { order, period, dish: dishes[i].name.clone() });
        i = i + 1;
    }
}

/// The items to store for a menu: one for each dish, numbered from 0 in
/// the order of storing.
pub fn menu_items(menu: &Menu) -> (items: Vec<MenuItem>)
    ensures
        items@.len() == stored_order(*menu).len(),
        forall|i: int|
            0 <= i < items@.len() ==> {
                let item = #[trigger] items@[i];
                &&& item.order == i
                &&& (item.period, item.dish@) == stored_order(*menu)[i]
            },
{
    let mut items: Vec<MenuItem> = Vec::new();
    push_items(&mut items, &menu.breakfasts, PeriodType::Breakfast);
    push_items(&mut items, &menu.lunches, PeriodType::Lunch);
    push_items(&mut items, &menu.dinners, PeriodType::Dinner);
    proof {
        let b = menu.breakfasts@.len() as int;
        let l = menu.lunches@.len() as int;
        assert forall|i: int| 0 <= i < items@.len() implies {
            let item = #[trigger] items@[i];
            &&& item.order == i
            &&& (item.period, item.dish@) == stored_order(*menu)[i]
        } by {
            if i < b {
                assert(items@[0 + i] == items@[i]);
            } else if i < b + l {
                assert(items@[b + (i - b)] == items@[i]);
            } else {
                assert(items@[b + l + (i - b - l)] == items@[i]);
            }
        }
    }
    items
}

/// What is stored of a dish of the menu: the id of the item and the name
/// of the meal.
#[derive(Debug)]
pub struct MenuItemRow {
    pub id: i32,
    pub period: String,
}

/// The place of the first item whose meal cannot be read; the number of
/// the items if all can be.
pub open spec fn first_unreadable(items: Seq<MenuItemRow>, from: int) -> int
    decreases items.len() - from,
{
    if from < 0 || from >= items.len() {
        items.len() as int
    } else if PeriodType::with_label(items[from].period@) is None {
        from
    } else {
        first_unreadable(items, from + 1)
    }
}

/// Of the first `upto` dishes those whose item names the meal, in their
/// order.
pub open spec fn served_at(
    items: Seq<MenuItemRow>,
    dishes: Seq<DishModel>,
    period: PeriodType,
    upto: int,
) -> Seq<DishModel>
    decreases upto,
{
    if upto <= 0 {
        Seq::empty()
    } else if PeriodType::with_label(items[upto - 1].period@) == Some(period) {
        served_at(items, dishes, period, upto - 1).push(dishes[upto - 1])
    } else {
        served_at(items, dishes, period, upto - 1)
    }
}

impl Menu {
    /// The menu that the stored items and their dishes make: each dish
    /// goes to the meal that its item names, in the items' order. The
    /// first item whose meal cannot be read is reported as corrupted.
    pub fn from_items(items: &Vec<MenuItemRow>, dishes: &Vec<Dish>) -> (result: Result<
        Menu,
        CorruptedDataError,
    >)
        requires
            items@.len() == dishes@.len(),
        ensures
            match result {
                Ok(menu) => {
                    let models = dish_models(dishes@);
                    let n = items@.len() as int;
                    &&& first_unreadable(items@, 0) == n
                    &&& dish_models(menu.breakfasts@) == served_at(
                        items@,
                        models,
                        PeriodType::Breakfast,
                        n,
                    )
                    &&& dish_models(menu.lunches@) == served_at(items@, models, PeriodType::Lunch, n)
                    &&& dish_models(menu.dinners@) == served_at(items@, models, PeriodType::Dinner, n)
                },
                Err(error) => {
                    let at = first_unreadable(items@, 0);
                    &&& 0 <= at < items@.len()
                    &&& error.table@ == DISHES_SCHEME_TABLE@
                    &&& error.id@ == signed_decimal(items@[at].id as int)
                    &&& error.column@ == "period"@
                },
            },
    {
        let mut menu = Menu::default();
        let ghost models = dish_models(dishes@);
        let mut i: usize = 0;
        assert(dish_models(menu.breakfasts@) =~= Seq::<DishModel>::empty());
        assert(dish_models(menu.lunches@) =~= Seq::<DishModel>::empty());
        assert(dish_models(menu.dinners@) =~= Seq::<DishModel>::empty());
        while i < items.len()
            invariant
                i <= items.len(),
                items@.len() == dishes@.len(),
                models == dish_models(dishes@),
                first_unreadable(items@, 0) == first_unreadable(items@, i as int),
                dish_models(menu.breakfasts@) == served_at(
                    items@,
                    models,
                    PeriodType::Breakfast,
                    i as int,
                ),
                dish_models(menu.lunches@) == served_at(items@, models, PeriodType::Lunch, i as int),
                dish_models(menu.dinners@) == served_at(items@, models, PeriodType::Dinner, i as int),
            decreases items.len() - i,
        {
            let ghost breakfasts = dish_models(menu.breakfasts@);
            let ghost lunches = dish_models(menu.lunches@);
            let ghost dinners = dish_models(menu.dinners@);
            match PeriodType::from_name(items[i].period.as_str()) {
                Some(PeriodType::Breakfast) => {
                    menu.breakfasts.push(dishes[i].duplicate());
                    assert(dish_models(menu.breakfasts@) =~= breakfasts.push(models[i as int]));
                },
                Some(PeriodType::Lunch) => {
                    menu.lunches.push(dishes[i].duplicate());
                    assert(dish_models(menu.lunches@) =~= lunches.push(models[i as int]));
                },
                Some(PeriodType::Dinner) => {
                    menu.dinners.push(dishes[i].duplicate());
                    assert(dish_models(menu.dinners@) =~= dinners.push(models[i as int]));
                },
                None => {
                    return Err(
                        CorruptedDataError::new(
                            String::from_str(DISHES_SCHEME_TABLE),
                            signed_decimal_text(items[i].id as i64),
                            String::from_str("period"),
                        ),
                    );
                },
            }
            i = i + 1;
        }
        Ok(menu)
    }
}

} // verus!
