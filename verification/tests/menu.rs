use dhe::menu::db::found;
use dhe::menu::db::linked_ids;
use dhe::menu::db::CorruptedDataError;
use dhe::menu::db::MenuError;
use dhe::menu::dish::CreateDish;
use dhe::menu::dish::Dish;
use dhe::menu::dish::DishRow;
use dhe::menu::dish::DishStat;
use dhe::menu::dish::Product;
use dhe::menu::dish::UpdateDish;
use dhe::menu::dish::UpdateProduct;
use dhe::menu::generate::dishes_for;
use dhe::menu::generate::dishes_for_period;
use dhe::menu::generate::generate_menu;
use dhe::menu::generate::menu_items;
use dhe::menu::generate::schemes_for_period;
use dhe::menu::generate::MenuItemRow;
use dhe::menu::period::PeriodSet;
use dhe::menu::period::PeriodType;
use dhe::menu::planner::choose_in_order;
use dhe::menu::planner::choose_random;
use dhe::menu::planner::fill_scheme;
use dhe::menu::planner::menu_plan;
use dhe::menu::planner::pick_dishes;
use dhe::menu::planner::stored_week;
use dhe::menu::planner::Menu;
use dhe::menu::planner::MenuPlan;
use dhe::menu::planner::MenuQuery;
use dhe::menu::scheme::DishesScheme;
use dhe::menu::scheme::DishesSchemeRow;
use dhe::menu::state::StateConfig;

use dhe::menu::period::PeriodType::Breakfast;
use dhe::menu::period::PeriodType::Dinner;
use dhe::menu::period::PeriodType::Lunch;

fn dish(name: &str, periods: &[PeriodType], amount: u8) -> Dish {
    Dish { name: name.to_string(), periods: periods.to_vec(), products: vec![], amount }
}

fn names(dishes: &[Dish]) -> Vec<&str> {
    dishes.iter().map(|dish| dish.name.as_str()).collect()
}

#[test]
fn period_names() {
    assert_eq!(Breakfast.name(), "breakfast");
    assert_eq!(Lunch.name(), "lunch");
    assert_eq!(Dinner.name(), "dinner");
    for period in PeriodType::all() {
        assert_eq!(PeriodType::from_name(period.name()), Some(period));
    }
    assert_eq!(PeriodType::from_name("Lunch"), None);
    assert_eq!(PeriodType::from_name(""), None);
    assert_eq!(PeriodType::all(), vec![Breakfast, Lunch, Dinner]);
}

#[test]
fn period_sets_are_bits() {
    assert_eq!(PeriodSet::from_periods(&[]), PeriodSet(0));
    assert_eq!(PeriodSet::from_periods(&[Breakfast]), PeriodSet(1));
    assert_eq!(PeriodSet::from_periods(&[Lunch]), PeriodSet(2));
    assert_eq!(PeriodSet::from_periods(&[Dinner]), PeriodSet(4));
    assert_eq!(PeriodSet::from_periods(&[Dinner, Breakfast, Dinner]), PeriodSet(5));
    assert_eq!(PeriodSet::from_periods(&[Lunch, Dinner, Breakfast]), PeriodSet(7));
    assert_eq!(PeriodSet(0).periods(), vec![]);
    assert_eq!(PeriodSet(5).periods(), vec![Breakfast, Dinner]);
    assert_eq!(PeriodSet(6).periods(), vec![Lunch, Dinner]);
    assert_eq!(PeriodSet(7).periods(), vec![Breakfast, Lunch, Dinner]);
    // bits that stand for no meal are passed over
    assert_eq!(PeriodSet(8).periods(), vec![]);
    assert_eq!(PeriodSet(-1).periods(), vec![Breakfast, Lunch, Dinner]);
    assert_eq!(PeriodSet(i32::MIN).periods(), vec![]);
    for bits in 0..8 {
        assert_eq!(PeriodSet::from_periods(&PeriodSet(bits).periods()), PeriodSet(bits));
    }
}

#[test]
fn scheme_to_text_and_back() {
    assert_eq!(DishesScheme::scheme_to_string(vec![1, 2, 3]), "1+2+3");
    assert_eq!(DishesScheme::scheme_to_string(vec![255]), "255");
    assert_eq!(DishesScheme::scheme_to_string(vec![0, 10]), "0+10");
    assert_eq!(DishesScheme::scheme_to_string(vec![]), "");
    assert_eq!(DishesScheme::string_to_scheme("1+2+3".to_string()), Ok(vec![1, 2, 3]));
    assert_eq!(DishesScheme::string_to_scheme("255".to_string()), Ok(vec![255]));
    assert_eq!(DishesScheme::string_to_scheme("007+0".to_string()), Ok(vec![7, 0]));
    for scheme in [vec![1u8], vec![2, 2, 3], vec![0, 255, 100, 9]] {
        let text = DishesScheme::scheme_to_string(scheme.clone());
        assert_eq!(DishesScheme::string_to_scheme(text), Ok(scheme));
    }
}

#[test]
fn text_that_is_no_scheme_is_handed_back() {
    for text in ["", "+", "1+", "+1", "1++2", "256", "1+300", "a", "1 + 2", "1+-2", "1+2 ", "١"] {
        assert_eq!(DishesScheme::string_to_scheme(text.to_string()), Err(text.to_string()));
        let numbers: Result<Vec<u8>, _> = text.split('+').map(|number| number.parse()).collect();
        assert!(numbers.is_err());
    }
}

#[test]
fn scheme_rows() {
    let row = DishesSchemeRow { id: 3, scheme: "1+2".to_string(), period: "lunch".to_string() };
    let scheme = DishesScheme::from_row(row).unwrap();
    assert_eq!(scheme.scheme, vec![1, 2]);
    assert_eq!(scheme.period, Lunch);
    assert_eq!(scheme.into_row(), ("1+2".to_string(), "lunch".to_string()));
    let row = DishesSchemeRow { id: 12, scheme: "1+x".to_string(), period: "supper".to_string() };
    let error = DishesScheme::from_row(row).unwrap_err();
    assert_eq!(
        (error.table.as_str(), error.id.as_str(), error.column.as_str()),
        ("dishes_scheme", "12", "scheme")
    );
    let row = DishesSchemeRow { id: -4, scheme: "1".to_string(), period: "supper".to_string() };
    let error = DishesScheme::from_row(row).unwrap_err();
    assert_eq!(
        (error.table.as_str(), error.id.as_str(), error.column.as_str()),
        ("dishes_scheme", "-4", "period")
    );
}

#[test]
fn corrupted_data_in_words() {
    let error = CorruptedDataError::new("dish".to_string(), "7".to_string(), "amount".to_string());
    assert_eq!(error.table, "dish");
    assert_eq!(error.id, "7");
    assert_eq!(error.column, "amount");
    assert_eq!(error.message(), "corrupted data in table dish, row id 7 column amount");
}

#[test]
fn dish_rows() {
    let products = vec![Product { name: "egg".to_string(), measure: "piece".to_string() }];
    let row = DishRow { id: 1, name: "omelette".to_string(), periods: 3, amount: 2 };
    let dish = Dish::from_row(row, products).unwrap();
    assert_eq!(dish.name, "omelette");
    assert_eq!(dish.periods, vec![Breakfast, Lunch]);
    assert_eq!(dish.amount, 2);
    assert_eq!(dish.products.len(), 1);
    assert_eq!(dish.products[0].name, "egg");
    let copy = dish.duplicate();
    assert_eq!(copy.name, "omelette");
    assert_eq!(copy.periods, vec![Breakfast, Lunch]);
    assert_eq!(copy.products[0].measure, "piece");
    assert_eq!(copy.amount, 2);
    for amount in [0, 255] {
        let row = DishRow { id: 1, name: "x".to_string(), periods: 0, amount };
        assert_eq!(Dish::from_row(row, vec![]).unwrap().amount as i32, amount);
    }
    for amount in [-1, 256, i32::MAX, i32::MIN] {
        let row = DishRow { id: 9, name: "x".to_string(), periods: 0, amount };
        let error = Dish::from_row(row, vec![]).unwrap_err();
        assert_eq!(
            (error.table.as_str(), error.id.as_str(), error.column.as_str()),
            ("dish", "9", "amount_days")
        );
    }
}

#[test]
fn new_and_changed_dishes() {
    let row = CreateDish { name: "soup".to_string(), periods: vec![Lunch, Dinner], amount: 3 }
        .into_row();
    assert_eq!((row.name.as_str(), row.periods, row.amount), ("soup", 6, 3));
    let stored = DishRow { id: 5, name: "soup".to_string(), periods: 6, amount: 3 };
    let update = UpdateDish { name: None, periods: Some(vec![Breakfast]), amount: None };
    let row = update.apply(stored);
    assert_eq!((row.id, row.name.as_str(), row.periods, row.amount), (5, "soup", 1, 3));
    let update = UpdateDish { name: Some("broth".to_string()), periods: None, amount: Some(255) };
    let row = update.apply(row);
    assert_eq!((row.id, row.name.as_str(), row.periods, row.amount), (5, "broth", 1, 255));
}

#[test]
fn changed_products() {
    let product = Product { name: "milk".to_string(), measure: "l".to_string() };
    let update = UpdateProduct { name: None, measure: Some("ml".to_string()) };
    let product = update.apply(product);
    assert_eq!((product.name.as_str(), product.measure.as_str()), ("milk", "ml"));
    let update = UpdateProduct { name: Some("cream".to_string()), measure: None };
    let product = update.apply(product);
    assert_eq!((product.name.as_str(), product.measure.as_str()), ("cream", "ml"));
    let update = UpdateProduct { name: None, measure: None };
    let product = update.apply(product);
    assert_eq!((product.name.as_str(), product.measure.as_str()), ("cream", "ml"));
}

#[test]
fn dishes_are_counted_by_meal() {
    let dishes = vec![
        dish("a", &[Breakfast, Lunch], 1),
        dish("b", &[Lunch], 1),
        dish("c", &[], 1),
        dish("d", &[Dinner, Lunch, Dinner], 1),
    ];
    assert_eq!(
        DishStat::of(&dishes),
        DishStat { count: 4, breakfasts: 1, lunches: 3, dinners: 2 }
    );
    assert_eq!(DishStat::of(&vec![]), DishStat::default());
    assert_eq!(DishStat::default(), DishStat { count: 0, breakfasts: 0, lunches: 0, dinners: 0 });
}

#[test]
fn new_menu_is_made_when_forced_missing_or_old() {
    assert_eq!(menu_plan(true, Some(10), 10), MenuPlan::Generate);
    assert_eq!(menu_plan(true, None, 10), MenuPlan::Generate);
    assert_eq!(menu_plan(false, None, 10), MenuPlan::Generate);
    assert_eq!(menu_plan(false, Some(9), 10), MenuPlan::Generate);
    assert_eq!(menu_plan(false, Some(10), 10), MenuPlan::Read);
    assert_eq!(menu_plan(false, Some(11), 10), MenuPlan::Read);
    assert_eq!(menu_plan(false, Some(52), 1), MenuPlan::Read);
    assert!(!MenuQuery::default().force);
}

#[test]
fn week_of_a_stored_time() {
    assert_eq!(stored_week("2019-10-04T12:00:00Z"), Some(40));
    assert_eq!(stored_week("2020-12-31T23:59:59+00:00"), Some(53));
    assert_eq!(stored_week("2021-01-01T00:00:00Z"), Some(53));
    assert_eq!(stored_week("2023-06-28 14:40:53"), None);
    assert_eq!(stored_week(""), None);
}

#[test]
fn dishes_that_go_into_a_menu() {
    let dishes = vec![
        dish("one", &[Lunch], 1),
        dish("two", &[Lunch], 2),
        dish("three", &[Lunch], 3),
        dish("four", &[Lunch], 4),
        dish("six", &[Lunch], 6),
        dish("eight", &[Lunch], 8),
    ];
    let kept = dishes_for(4, &dishes);
    assert_eq!(names(&kept), vec!["one", "two", "four", "eight"]);
    assert_eq!(kept.iter().map(|dish| dish.amount).collect::<Vec<_>>(), vec![1, 1, 1, 2]);
    let kept = dishes_for(1, &dishes);
    assert_eq!(kept.iter().map(|dish| dish.amount).collect::<Vec<_>>(), vec![1, 2, 3, 4, 6, 8]);
    let kept = dishes_for(3, &dishes);
    assert_eq!(names(&kept), vec!["one", "three", "six"]);
    assert_eq!(kept.iter().map(|dish| dish.amount).collect::<Vec<_>>(), vec![1, 1, 2]);
    assert!(dishes_for(5, &vec![]).is_empty());
}

#[test]
fn dishes_and_schemes_of_a_meal() {
    let dishes = vec![
        dish("a", &[Breakfast, Lunch], 1),
        dish("b", &[Lunch, Lunch], 2),
        dish("c", &[Dinner], 3),
    ];
    assert_eq!(names(&dishes_for_period(&dishes, Breakfast)), vec!["a"]);
    assert_eq!(names(&dishes_for_period(&dishes, Lunch)), vec!["a", "b", "b"]);
    assert_eq!(names(&dishes_for_period(&dishes, Dinner)), vec!["c"]);
    let schemes = vec![
        DishesScheme { scheme: vec![1, 2], period: Lunch },
        DishesScheme { scheme: vec![3], period: Dinner },
        DishesScheme { scheme: vec![2, 2], period: Lunch },
    ];
    assert_eq!(schemes_for_period(&schemes, Lunch), vec![vec![1, 2], vec![2, 2]]);
    assert_eq!(schemes_for_period(&schemes, Dinner), vec![vec![3]]);
    assert!(schemes_for_period(&schemes, Breakfast).is_empty());
}

#[test]
fn scheme_is_filled_in_the_order_of_the_dishes() {
    assert_eq!(fill_scheme(&vec![2, 1], &vec![1, 3, 2, 1]), Some(vec![0, 2]));
    assert_eq!(fill_scheme(&vec![1, 1], &vec![1, 3, 2, 1]), Some(vec![0, 3]));
    assert_eq!(fill_scheme(&vec![3], &vec![1, 3, 2, 1]), Some(vec![1]));
    assert_eq!(fill_scheme(&vec![2, 2], &vec![1, 3, 2, 1]), None);
    assert_eq!(fill_scheme(&vec![4], &vec![1, 3, 2, 1]), None);
    assert_eq!(fill_scheme(&vec![1], &vec![]), None);
    // a scheme without a number is never complete
    assert_eq!(fill_scheme(&vec![], &vec![1, 2]), None);
    assert_eq!(fill_scheme(&vec![], &vec![]), None);
}

#[test]
fn first_scheme_that_can_be_filled_is_taken() {
    let amounts = vec![1, 3, 2, 1];
    assert_eq!(pick_dishes(&vec![vec![5], vec![2, 2], vec![1, 2], vec![3]], &amounts), vec![0, 2]);
    assert_eq!(pick_dishes(&vec![vec![3], vec![1, 2]], &amounts), vec![1]);
    assert_eq!(pick_dishes(&vec![vec![5], vec![]], &amounts), Vec::<usize>::new());
    assert_eq!(pick_dishes(&vec![], &amounts), Vec::<usize>::new());
    let dishes =
        vec![dish("a", &[], 1), dish("b", &[], 3), dish("c", &[], 2), dish("d", &[], 1)];
    let choice = choose_in_order(&vec![vec![2, 2], vec![1, 1, 3]], &dishes);
    assert_eq!(names(&choice), vec!["a", "b", "d"]);
    assert!(choose_in_order(&vec![vec![4]], &dishes).is_empty());
}

#[test]
fn random_choice_fills_a_scheme() {
    for _ in 0..50 {
        let dishes = vec![
            dish("a", &[], 1),
            dish("b", &[], 3),
            dish("c", &[], 2),
            dish("d", &[], 1),
            dish("e", &[], 2),
        ];
        let schemes = vec![vec![1, 2], vec![3, 3], vec![2, 2, 1]];
        let choice = choose_random(schemes.clone(), dishes);
        let mut amounts: Vec<u8> = choice.iter().map(|dish| dish.amount).collect();
        amounts.sort();
        assert!(amounts == vec![1, 2] || amounts == vec![1, 2, 2]);
        let mut chosen = names(&choice);
        chosen.sort();
        chosen.dedup();
        assert_eq!(chosen.len(), choice.len());
    }
    assert!(choose_random(vec![vec![7]], vec![dish("a", &[], 1)]).is_empty());
    assert!(choose_random(vec![], vec![dish("a", &[], 1)]).is_empty());
    assert!(choose_random(vec![vec![1]], vec![]).is_empty());
}

#[test]
fn generated_menu_follows_the_schemes() {
    let dishes = vec![
        dish("porridge", &[Breakfast], 2),
        dish("eggs", &[Breakfast], 4),
        dish("soup", &[Lunch, Dinner], 6),
        dish("stew", &[Dinner], 2),
        dish("odd", &[Breakfast, Lunch, Dinner], 3),
    ];
    let schemes = vec![
        DishesScheme { scheme: vec![1, 2], period: Breakfast },
        DishesScheme { scheme: vec![3], period: Lunch },
        DishesScheme { scheme: vec![9], period: Dinner },
    ];
    for _ in 0..20 {
        let menu = generate_menu(2, &dishes, &schemes);
        let mut breakfasts = names(&menu.breakfasts);
        breakfasts.sort();
        assert_eq!(breakfasts, vec!["eggs", "porridge"]);
        assert_eq!(names(&menu.lunches), vec!["soup"]);
        assert_eq!(menu.lunches[0].amount, 3);
        assert!(menu.dinners.is_empty());
    }
}

#[test]
fn menu_is_stored_meal_by_meal() {
    let menu = Menu {
        breakfasts: vec![dish("a", &[Breakfast], 1), dish("b", &[Breakfast], 1)],
        lunches: vec![],
        dinners: vec![dish("c", &[Dinner], 1)],
    };
    let items = menu_items(&menu);
    let stored: Vec<(usize, PeriodType, &str)> =
        items.iter().map(|item| (item.order, item.period, item.dish.as_str())).collect();
    assert_eq!(stored, vec![(0, Breakfast, "a"), (1, Breakfast, "b"), (2, Dinner, "c")]);
    assert!(menu_items(&Menu::default()).is_empty());
}

#[test]
fn stored_menu_is_read_meal_by_meal() {
    let items = vec![
        MenuItemRow { id: 1, period: "dinner".to_string() },
        MenuItemRow { id: 2, period: "breakfast".to_string() },
        MenuItemRow { id: 3, period: "dinner".to_string() },
    ];
    let dishes = vec![dish("a", &[], 1), dish("b", &[], 2), dish("c", &[], 3)];
    let menu = Menu::from_items(&items, &dishes).unwrap();
    assert_eq!(names(&menu.breakfasts), vec!["b"]);
    assert!(menu.lunches.is_empty());
    assert_eq!(names(&menu.dinners), vec!["a", "c"]);
    let items = vec![
        MenuItemRow { id: 1, period: "dinner".to_string() },
        MenuItemRow { id: 22, period: "brunch".to_string() },
        MenuItemRow { id: 3, period: "tea".to_string() },
    ];
    let error = Menu::from_items(&items, &dishes).unwrap_err();
    assert_eq!(
        (error.table.as_str(), error.id.as_str(), error.column.as_str()),
        ("dishes_scheme", "22", "period")
    );
    let menu = Menu::from_items(&vec![], &vec![]).unwrap();
    assert!(menu.breakfasts.is_empty() && menu.lunches.is_empty() && menu.dinners.is_empty());
}

#[test]
fn database_is_in_the_home_directory() {
    assert_eq!(StateConfig::for_home(Some("/home/dhe")).db_conn_str, "sqlite:/home/dhe/dhe_menu.db");
    assert_eq!(StateConfig::for_home(None).db_conn_str, "sqlite:/dhe_menu.db");
    assert_eq!(dhe::menu::state::SERVER_ADDRESS, "0.0.0.0:3000");
}

#[test]
fn products_are_linked_to_dishes_by_id() {
    assert_eq!(linked_ids(Some(3), Some(7)).unwrap(), (3, 7));
    assert_eq!(linked_ids(Some(u64::MAX), Some(1 << 32)).unwrap(), (-1, 0));
    assert_eq!(linked_ids(Some(1 << 31), Some(0)).unwrap(), (i32::MIN, 0));
    assert!(matches!(linked_ids(None, Some(7)), Err(MenuError::NotFound)));
    assert!(matches!(linked_ids(Some(3), None), Err(MenuError::NotFound)));
    assert!(matches!(linked_ids(None, None), Err(MenuError::NotFound)));
    assert_eq!(found(Some(5)).unwrap(), 5);
    assert!(matches!(found::<u8>(None), Err(MenuError::NotFound)));
    assert_eq!(MenuError::NotFound.message(), "not found");
    let corrupted = CorruptedDataError::new("t".to_string(), "1".to_string(), "c".to_string());
    assert_eq!(
        MenuError::CorruptedData(corrupted).message(),
        "corrupted data in table t, row id 1 column c"
    );
}
