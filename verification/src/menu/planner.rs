use rand::seq::SliceRandom;
use vstd::prelude::*;

use crate::menu::dish::dish_models;
use crate::menu::dish::times_listed;
use crate::menu::dish::Dish;
use crate::menu::dish::DishModel;
use crate::menu::period::PeriodType;
use crate::menu::scheme::DishesScheme;

verus! {

/// The dishes of a week, meal by meal.
#[derive(Debug)]
pub struct Menu {
    pub breakfasts: Vec<Dish>,
    pub lunches: Vec<Dish>,
    pub dinners: Vec<Dish>,
}

impl Default for Menu {
    fn default() -> (menu: Menu)
        ensures
            menu.breakfasts@.len() == 0,
            menu.lunches@.len() == 0,
            menu.dinners@.len() == 0,
    {
        Menu { breakfasts: Vec::new(), lunches: Vec::new(), dinners: Vec::new() }
    }
}

/// What a request for the menu may ask for.
#[derive(Debug, Copy, Clone, PartialEq, Eq, Structural)]
pub struct MenuQuery {
    /// Make a new menu even if there is one for this week.
    pub force: bool,
}

impl Default for MenuQuery {
    fn default() -> (query: MenuQuery)
        ensures
            !query.force,
    {
        MenuQuery { force: false }
    }
}

/// Where the menu that is handed out comes from.
#[derive(Debug, Copy, Clone, PartialEq, Eq, Structural)]
pub enum MenuPlan {
    /// A new menu is made and stored.
    Generate,
    /// The stored menu is read.
    Read,
}

/// Whether to make a new menu: if the request forces one, if none is
/// stored, or if the stored one is from a week before this one.
pub fn menu_plan(force: bool, stored_week: Option<u8>, current_week: u8) -> (plan: MenuPlan)
    ensures
        plan == if force {
            MenuPlan::Generate
        } else {
            match stored_week {
                None => MenuPlan::Generate,
                Some(week) => if current_week > week {
                    MenuPlan::Generate
                } else {
                    MenuPlan::Read
                },
            }
        },
{
    if force {
        return MenuPlan::Generate;
    }
    match stored_week {
        None => MenuPlan::Generate,
        Some(week) => if current_week > week {
            MenuPlan::Generate
        } else {
            MenuPlan::Read
        },
    }
}

/// The number of the week, by ISO 8601, of a time written as RFC 3339
/// asks, or none for other text: what the `time` crate reads out of it.
pub uninterp spec fn week_of(date_time: Seq<char>) -> Option<u8>;

/// Calls `time::PrimitiveDateTime::parse` with the `Rfc3339` format and,
/// on the time it returns, `iso_week`; none where the text is refused.
/// Both read nothing but the text.
#[verifier::external_body]
fn parse_week(date_time: &str) -> (week: Option<u8>)
    ensures
        week == week_of(date_time@),
{
    match time::PrimitiveDateTime::parse(date_time, &time::format_description::well_known::Rfc3339) {
        Ok(stamp) => Some(stamp.iso_week()),
        Err(_) => None,
    }
}

/// The week of the time that a stored menu was made at; none if the time
/// cannot be read.
pub fn stored_week(date_time: &str) -> (week: Option<u8>)
    ensures
        week == week_of(date_time@),
{
    parse_week(date_time)
}

/// Whether a dish cooked for `dish_amount` days goes into a menu for
/// `amount` eaters: one of the two numbers must divide the other.
pub open spec fn fits(dish_amount: u8, amount: u8) -> bool {
    if dish_amount < amount {
        amount % dish_amount == 0
    } else if dish_amount == amount {
        true
    } else {
        dish_amount % amount == 0
    }
}

/// For how many days a dish lasts in a menu for `amount` eaters.
pub open spec fn scaled(dish_amount: u8, amount: u8) -> u8 {
    if dish_amount < amount {
        1
    } else {
        dish_amount / amount
    }
}

/// The dishes that go into a menu for `amount` eaters, in their order,
/// each with the number of days that it lasts.
pub open spec fn portioned(dishes: Seq<DishModel>, amount: u8) -> Seq<DishModel>
    decreases dishes.len(),
{
    if dishes.len() == 0 {
        Seq::empty()
    } else if fits(dishes.last().amount, amount) {
        portioned(dishes.drop_last(), amount).push(
            DishModel { amount: scaled(dishes.last().amount, amount), ..dishes.last() },
        )
    } else {
        portioned(dishes.drop_last(), amount)
    }
}

/// The dish as often as told.
pub open spec fn repeated(dish: DishModel, times: nat) -> Seq<DishModel> {
    Seq::new(times, |i: int| dish)
}

/// The dishes for one meal, in their order; a dish that lists the meal
/// more than once stands there as often.
pub open spec fn listed_for(dishes: Seq<DishModel>, period: PeriodType) -> Seq<DishModel>
    decreases dishes.len(),
{
    if dishes.len() == 0 {
        Seq::empty()
    } else {
        listed_for(dishes.drop_last(), period) + repeated(
            dishes.last(),
            times_listed(dishes.last().periods, period),
        )
    }
}

/// The numbers of the schemes for one meal, in the schemes' order.
pub open spec fn schemes_for(schemes: Seq<DishesScheme>, period: PeriodType) -> Seq<Seq<u8>>
    decreases schemes.len(),
{
    if schemes.len() == 0 {
        Seq::empty()
    } else if schemes.last().period == period {
        schemes_for(schemes.drop_last(), period).push(schemes.last().scheme@)
    } else {
        schemes_for(schemes.drop_last(), period)
    }
}

/// The first place of a number among the numbers, looking from `from`
/// on; the count of the numbers if it is not there.
pub open spec fn first_place(numbers: Seq<u8>, wanted: u8, from: int) -> int
    decreases numbers.len() - from,
{
    if from < 0 || from >= numbers.len() {
        numbers.len() as int
    } else if numbers[from] == wanted {
        from
    } else {
        first_place(numbers, wanted, from + 1)
    }
}

/// Fills a scheme with dishes, looking at the dishes from `from` on in
/// their order: a dish is taken if its amount is still asked for, and
/// takes the first such number out of the scheme. The places of the
/// dishes taken, once no number is left; none if the dishes run out
/// before.
pub open spec fn filled_from(scheme: Seq<u8>, amounts: Seq<u8>, from: int) -> Option<Seq<int>>
    decreases amounts.len() - from,
{
    if from < 0 || from >= amounts.len() {
        None
    } else {
        let at = first_place(scheme, amounts[from], 0);
        if at < scheme.len() {
            let rest = scheme.remove(at);
            if rest.len() == 0 {
                Some(seq![from])
            } else {
                match filled_from(rest, amounts, from + 1) {
                    Some(more) => Some(seq![from] + more),
                    None => None,
                }
            }
        } else {
            filled_from(scheme, amounts, from + 1)
        }
    }
}

/// The places of the dishes that fill the first scheme, from `from` on,
/// that the dishes can fill; no place if they can fill none.
pub open spec fn picked_from(schemes: Seq<Seq<u8>>, amounts: Seq<u8>, from: int) -> Seq<int>
    decreases schemes.len() - from,
{
    if from < 0 || from >= schemes.len() {
        Seq::empty()
    } else {
        match filled_from(schemes[from], amounts, 0) {
            Some(places) => places,
            None => picked_from(schemes, amounts, from + 1),
        }
    }
}

/// The amounts of the dishes, one for one.
pub open spec fn amounts_of(dishes: Seq<DishModel>) -> Seq<u8> {
    Seq::new(dishes.len(), |i: int| dishes[i].amount)
}

/// The dishes chosen for a meal from the given schemes and dishes, in
/// the order given: those that fill the first scheme that can be filled.
pub open spec fn chosen(schemes: Seq<Seq<u8>>, dishes: Seq<DishModel>) -> Seq<DishModel> {
    let places = picked_from(schemes, amounts_of(dishes), 0);
    Seq::new(places.len(), |i: int| dishes[places[i]])
}

/// Whether one sequence holds the items of the other in some order.
pub open spec fn rearranged<T>(items: Seq<T>, of: Seq<T>) -> bool {
    items.to_multiset() == of.to_multiset()
}

/// Whether the dishes are a choice for a meal: what is chosen from the
/// schemes and the dishes taken in some order.
pub open spec fn is_choice(choice: Seq<DishModel>, schemes: Seq<Seq<u8>>, dishes: Seq<DishModel>) -> bool {
    exists|some_schemes: Seq<Seq<u8>>, some_dishes: Seq<DishModel>|
        #![auto]
        rearranged(some_schemes, schemes) && rearranged(some_dishes, dishes) && choice == chosen(
            some_schemes,
            some_dishes,
        )
}

/// Calls `rand::seq::SliceRandom::shuffle` on the items with the
/// generator of `rand::thread_rng`. The shuffle swaps items in place, so
/// that the same items are there afterwards; in which order is chance.
#[verifier::external_body]
fn shuffle<T>(items: &mut Vec<T>)
    ensures
        final(items)@.to_multiset() == old(items)@.to_multiset(),
{
    items.shuffle(&mut rand::thread_rng());
}

fn place_of(numbers: &Vec<u8>, wanted: u8) -> (at: usize)
    ensures
        at == first_place(numbers@, wanted, 0),
        at <= numbers@.len(),
{
    let mut i: usize = 0;
    while i < numbers.len() && numbers[i] != wanted
        invariant
            i <= numbers@.len(),
            first_place(numbers@, wanted, 0) == first_place(numbers@, wanted, i as int),
        decreases numbers@.len() - i,
    {
        i = i + 1;
    }
    i
}

/// Fills one scheme with dishes of the given amounts (see `filled_from`).
pub fn fill_scheme(scheme: &Vec<u8>, amounts: &Vec<u8>) -> (places: Option<Vec<usize>>)
    ensures
        match places {
            Some(found) => filled_from(scheme@, amounts@, 0) == Some(places_of(found@)),
            None => filled_from(scheme@, amounts@, 0) is None,
        },
{
    let mut remaining: Vec<u8> = scheme.clone();
    let mut found: Vec<usize> = Vec::new();
    let mut i: usize = 0;
    assert(places_of(found@) =~= Seq::<int>::empty());
    while i < amounts.len()
        invariant
            i <= amounts.len(),
            filled_from(scheme@, amounts@, 0) == match filled_from(remaining@, amounts@, i as int) {
                Some(more) => Some(places_of(found@) + more),
                None => None,
            },
        decreases amounts.len() - i,
    {
        let at = place_of(&remaining, amounts[i]);
        if at < remaining.len() {
            let ghost before = found@;
            remaining.remove(at);
            found.push(i);
            proof {
                assert(places_of(found@) =~= places_of(before) + seq![i as int]);
                if remaining@.len() > 0 {
                    match filled_from(remaining@, amounts@, i + 1) {
                        Some(more) => {
                            assert(places_of(before) + (seq![i as int] + more) =~= places_of(found@)
                                + more);
                        },
                        None => {},
                    }
                } else {
                    assert(places_of(before) + seq![i as int] =~= places_of(found@));
                }
            }
            if remaining.len() == 0 {
                return Some(found);
            }
        }
        i = i + 1;
    }
    None
}

/// The places as numbers.
pub open spec fn places_of(places: Seq<usize>) -> Seq<int> {
    Seq::new(places.len(), |i: int| places[i] as int)
}

/// The numbers of the schemes, one for one.
pub open spec fn scheme_numbers(schemes: Seq<Vec<u8>>) -> Seq<Seq<u8>> {
    Seq::new(schemes.len(), |i: int| schemes[i]@)
}

/// The places of the dishes that fill the first of the schemes that the
/// dishes can fill; no place if they can fill none.
pub fn pick_dishes(schemes: &Vec<Vec<u8>>, amounts: &Vec<u8>) -> (places: Vec<usize>)
    ensures
        places_of(places@) == picked_from(scheme_numbers(schemes@), amounts@, 0),
{
    let mut k: usize = 0;
    while k < schemes.len()
        invariant
            k <= schemes.len(),
            picked_from(scheme_numbers(schemes@), amounts@, 0) == picked_from(
                scheme_numbers(schemes@),
                amounts@,
                k as int,
            ),
        decreases schemes.len() - k,
    {
        match fill_scheme(&schemes[k], amounts) {
            Some(found) => {
                return found;
            },
            None => {},
        }
        k = k + 1;
    }
    let none: Vec<usize> = Vec::new();
    assert(places_of(none@) =~= Seq::<int>::empty());
    none
}

/// The dishes chosen for a meal from the schemes and the dishes as they
/// stand: those that fill the first scheme that can be filled, or none.
pub fn choose_in_order(schemes: &Vec<Vec<u8>>, dishes: &Vec<Dish>) -> (choice: Vec<Dish>)
    ensures
        dish_models(choice@) == chosen(scheme_numbers(schemes@), dish_models(dishes@)),
{
    let mut amounts: Vec<u8> = Vec::new();
    let mut i: usize = 0;
    while i < dishes.len()
        invariant
            i <= dishes.len(),
            amounts@.len() == i,
            forall|j: int| 0 <= j < i ==> amounts@[j] == dishes@[j].amount,
        decreases dishes.len() - i,
    {
        amounts.push(dishes[i].amount);
        i = i + 1;
    }
    assert(amounts@ =~= amounts_of(dish_models(dishes@)));
    let places = pick_dishes(schemes, &amounts);
    proof {
        lemma_picked_places_are_dishes(scheme_numbers(schemes@), amounts@, 0);
        assert forall|k: int| 0 <= k < places@.len() implies 0 <= #[trigger] places@[k]
            < dishes@.len() by {
            assert(places_of(places@)[k] == places@[k]);
        }
    }
    let mut choice: Vec<Dish> = Vec::new();
    let mut j: usize = 0;
    while j < places.len()
        invariant
            j <= places.len(),
            choice@.len() == j,
            forall|k: int| 0 <= k < places@.len() ==> 0 <= #[trigger] places@[k] < dishes@.len(),
            forall|k: int| 0 <= k < j ==> choice@[k]@ == dishes@[places@[k] as int]@,
        decreases places.len() - j,
    {
        choice.push(dishes[places[j]].duplicate());
        j = j + 1;
    }
    assert(dish_models(choice@) =~= chosen(scheme_numbers(schemes@), dish_models(dishes@)));
    choice
}

/// Chooses the dishes for a meal by chance: the schemes and the dishes
/// are shuffled, and the dishes are taken that fill the first scheme that
/// can be filled. Without such a scheme no dish is chosen.
pub fn choose_random(schemes: Vec<Vec<u8>>, dishes: Vec<Dish>) -> (choice: Vec<Dish>)
    ensures
        is_choice(dish_models(choice@), scheme_numbers(schemes@), dish_models(dishes@)),
{
    let mut schemes = schemes;
    let mut dishes = dishes;
    let ghost schemes_before = schemes@;
    let ghost dishes_before = dishes@;
    shuffle(&mut schemes);
    shuffle(&mut dishes);
    let choice = choose_in_order(&schemes, &dishes);
    proof {
        lemma_rearranged_models(schemes@, schemes_before, |scheme: Vec<u8>| scheme@);
        lemma_rearranged_models(dishes@, dishes_before, |dish: Dish| dish@);
        assert(scheme_numbers(schemes@) =~= schemes@.map_values(|scheme: Vec<u8>| scheme@));
        assert(scheme_numbers(schemes_before) =~= schemes_before.map_values(
            |scheme: Vec<u8>| scheme@,
        ));
        assert(dish_models(dishes@) =~= dishes@.map_values(|dish: Dish| dish@));
        assert(dish_models(dishes_before) =~= dishes_before.map_values(|dish: Dish| dish@));
    }
    choice
}

/// Items in another order have their models in another order.
proof fn lemma_rearranged_models<T, M>(items: Seq<T>, of: Seq<T>, model: spec_fn(T) -> M)
    requires
        items.to_multiset() == of.to_multiset(),
    ensures
        items.map_values(model).to_multiset() == of.map_values(model).to_multiset(),
    decreases items.len(),
{
    vstd::seq_lib::to_multiset_len(items);
    vstd::seq_lib::to_multiset_len(of);
    if items.len() == 0 {
        assert(items.map_values(model) =~= of.map_values(model));
    } else {
        let last = items.last();
        let front = items.drop_last();
        assert(items =~= front.push(last));
        vstd::seq_lib::to_multiset_build(front, last);
        vstd::seq_lib::to_multiset_contains(items, last);
        vstd::seq_lib::to_multiset_contains(of, last);
        assert(items.contains(last));
        let at = choose|at: int| 0 <= at < of.len() && of[at] == last;
        let others = of.remove(at);
        vstd::seq_lib::to_multiset_remove(of, at);
        assert(front.to_multiset() =~= others.to_multiset());
        lemma_rearranged_models(front, others, model);
        let item_models = items.map_values(model);
        let of_models = of.map_values(model);
        assert(item_models =~= front.map_values(model).push(model(last)));
        vstd::seq_lib::to_multiset_build(front.map_values(model), model(last));
        assert(of_models.remove(at) =~= others.map_values(model));
        vstd::seq_lib::to_multiset_remove(of_models, at);
        vstd::seq_lib::to_multiset_contains(of_models, model(last));
        assert(of_models[at] == model(last));
        assert(of_models.contains(model(last)));
        assert(of_models.to_multiset() =~= others.map_values(model).to_multiset().insert(
            model(last),
        ));
    }
}

proof fn lemma_filled_places_are_dishes(scheme: Seq<u8>, amounts: Seq<u8>, from: int)
    requires
        0 <= from,
    ensures
        match filled_from(scheme, amounts, from) {
            Some(places) => forall|k: int|
                0 <= k < places.len() ==> from <= #[trigger] places[k] < amounts.len(),
            None => true,
        },
    decreases amounts.len() - from,
{
    if from < amounts.len() {
        let at = first_place(scheme, amounts[from], 0);
        if at < scheme.len() {
            let rest = scheme.remove(at);
            lemma_filled_places_are_dishes(rest, amounts, from + 1);
            if rest.len() > 0 {
                match filled_from(rest, amounts, from + 1) {
                    Some(more) => {
                        let places = seq![from] + more;
                        assert forall|k: int| 0 <= k < places.len() implies from
                            <= #[trigger] places[k] < amounts.len() by {
                            if k > 0 {
                                assert(places[k] == more[k - 1]);
                            }
                        }
                    },
                    None => {},
                }
            }
        } else {
            lemma_filled_places_are_dishes(scheme, amounts, from + 1);
        }
    }
}

proof fn lemma_picked_places_are_dishes(schemes: Seq<Seq<u8>>, amounts: Seq<u8>, from: int)
    requires
        0 <= from,
    ensures
        ({
            let places = picked_from(schemes, amounts, from);
            forall|k: int| 0 <= k < places.len() ==> 0 <= #[trigger] places[k] < amounts.len()
        }),
    decreases schemes.len() - from,
{
    let places = picked_from(schemes, amounts, from);
    if from < schemes.len() {
        lemma_filled_places_are_dishes(schemes[from], amounts, 0);
        lemma_picked_places_are_dishes(schemes, amounts, from + 1);
        match filled_from(schemes[from], amounts, 0) {
            Some(found) => {
                assert(places == found);
            },
            None => {
                assert(places == picked_from(schemes, amounts, from + 1));
            },
        }
    } else {
        assert(places.len() == 0);
    }
}


/// The amounts at the given places.
pub open spec fn amounts_at(amounts: Seq<u8>, places: Seq<int>) -> Seq<u8> {
    Seq::new(places.len(), |i: int| amounts[places[i]])
}

proof fn lemma_first_place_holds(numbers: Seq<u8>, wanted: u8, from: int)
    requires
        0 <= from,
    ensures
        from <= first_place(numbers, wanted, from) || numbers.len() <= from,
        first_place(numbers, wanted, from) < numbers.len() ==> numbers[first_place(
            numbers,
            wanted,
            from,
        )] == wanted,
    decreases numbers.len() - from,
{
    if from < numbers.len() && numbers[from] != wanted {
        lemma_first_place_holds(numbers, wanted, from + 1);
    }
}

proof fn lemma_filled_scheme_is_used_up(scheme: Seq<u8>, amounts: Seq<u8>, from: int)
    requires
        0 <= from,
    ensures
        match filled_from(scheme, amounts, from) {
            Some(places) => amounts_at(amounts, places).to_multiset() == scheme.to_multiset(),
            None => true,
        },
    decreases amounts.len() - from,
{
    if from < amounts.len() {
        let at = first_place(scheme, amounts[from], 0);
        lemma_first_place_holds(scheme, amounts[from], 0);
        if at < scheme.len() {
            let rest = scheme.remove(at);
            vstd::seq_lib::to_multiset_remove(scheme, at);
            vstd::seq_lib::to_multiset_contains(scheme, scheme[at]);
            assert(scheme.contains(scheme[at]));
            assert(scheme.to_multiset() =~= rest.to_multiset().insert(amounts[from]));
            if rest.len() == 0 {
                let taken = amounts_at(amounts, seq![from]);
                assert(taken =~= Seq::<u8>::empty().push(amounts[from]));
                vstd::seq_lib::to_multiset_build(Seq::<u8>::empty(), amounts[from]);
                vstd::seq_lib::to_multiset_len(rest);
                vstd::seq_lib::to_multiset_len(Seq::<u8>::empty());
                assert(rest.to_multiset() =~= Seq::<u8>::empty().to_multiset());
            } else {
                lemma_filled_scheme_is_used_up(rest, amounts, from + 1);
                match filled_from(rest, amounts, from + 1) {
                    Some(more) => {
                        let places = seq![from] + more;
                        let taken = amounts_at(amounts, places);
                        let taken_more = amounts_at(amounts, more);
                        assert(taken =~= taken_more.insert(0, amounts[from]));
                        vstd::seq_lib::to_multiset_insert(taken_more, 0, amounts[from]);
                    },
                    None => {},
                }
            }
        } else {
            lemma_filled_scheme_is_used_up(scheme, amounts, from + 1);
        }
    }
}

/// The dishes chosen for a meal fill one of its schemes: if any are
/// chosen, their amounts are the numbers of one scheme, in some order.
pub proof fn law_chosen_dishes_fill_a_scheme(schemes: Seq<Seq<u8>>, amounts: Seq<u8>, from: int)
    requires
        0 <= from,
    ensures
        ({
            let places = picked_from(schemes, amounts, from);
            places.len() > 0 ==> exists|k: int|
                from <= k < schemes.len() && amounts_at(amounts, places).to_multiset()
                    == #[trigger] schemes[k].to_multiset()
        }),
    decreases schemes.len() - from,
{
    if from < schemes.len() {
        lemma_filled_scheme_is_used_up(schemes[from], amounts, 0);
        match filled_from(schemes[from], amounts, 0) {
            Some(places) => {
                assert(amounts_at(amounts, places).to_multiset() == schemes[from].to_multiset());
            },
            None => {
                law_chosen_dishes_fill_a_scheme(schemes, amounts, from + 1);
                let places = picked_from(schemes, amounts, from + 1);
                if places.len() > 0 {
                    let k = choose|k: int|
                        from + 1 <= k < schemes.len() && amounts_at(amounts, places).to_multiset()
                            == #[trigger] schemes[k].to_multiset();
                    assert(from <= k < schemes.len());
                }
            },
        }
    }
}

} // verus!
