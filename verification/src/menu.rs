//! The rules of the menu service: dishes and the meals they are for,
//! schemes of dishes, and how a menu is put together and stored.

pub mod db;
pub mod dish;
pub mod generate;
pub mod period;
pub mod planner;
pub mod scheme;
pub mod state;

pub use db::CorruptedDataError;
pub use dish::Dish;
pub use dish::DishStat;
pub use dish::Product;
pub use dish::UpdateProduct;
pub use period::PeriodSet;
pub use period::PeriodType;
pub use planner::Menu;
pub use planner::MenuQuery;
pub use scheme::DishesScheme;
pub use state::StateConfig;
