use vstd::prelude::*;
use vstd::string::StringExecFns;

verus! {

/// The table of the dishes.
pub const DISH_TABLE: &'static str = "dish";

/// The table of the schemes of dishes.
pub const DISHES_SCHEME_TABLE: &'static str = "dishes_scheme";

/// A row of the database holds a value that cannot be.
#[derive(Debug)]
pub struct CorruptedDataError {
    pub table: String,
    pub id: String,
    pub column: String,
}

/// The message for corrupted data at the given place.
pub open spec fn corrupted_data_text(table: Seq<char>, id: Seq<char>, column: Seq<char>) -> Seq<
    char,
> {
    "corrupted data in table "@ + table + ", row id "@ + id + " column "@ + column
}

impl CorruptedDataError {
    /// The error for the given table, row and column.
    pub fn new(table: String, id: String, column: String) -> (error: CorruptedDataError)
        ensures
            error.table == table,
            error.id == id,
            error.column == column,
    {
        CorruptedDataError { table, id, column }
    }

    /// The error said in words.
    pub fn message(&self) -> (text: String)
        ensures
            text@ == corrupted_data_text(self.table@, self.id@, self.column@),
    {
        let mut text = String::from_str("corrupted data in table ");
        text.append(self.table.as_str());
        text.append(", row id ");
        text.append(self.id.as_str());
        text.append(" column ");
        text.append(self.column.as_str());
        text
    }
}


/// Why a request to the menu service fails, apart from failures of the
/// database itself.
#[derive(Debug)]
pub enum MenuError {
    /// A row of the database holds a value that cannot be.
    CorruptedData(CorruptedDataError),
    /// What the request names is not there.
    NotFound,
}

impl MenuError {
    /// The error said in words.
    pub fn message(&self) -> (text: String)
        ensures
            match self {
                MenuError::CorruptedData(error) => text@ == corrupted_data_text(
                    error.table@,
                    error.id@,
                    error.column@,
                ),
                MenuError::NotFound => text@ == "not found"@,
            },
    {
        match self {
            MenuError::CorruptedData(error) => error.message(),
            MenuError::NotFound => String::from_str("not found"),
        }
    }
}

/// What was looked up, or that it is not there.
pub fn found<T>(row: Option<T>) -> (result: Result<T, MenuError>)
    ensures
        match row {
            Some(value) => result == Ok::<T, MenuError>(value),
            None => result matches Err(MenuError::NotFound),
        },
{
    match row {
        Some(value) => Ok(value),
        None => Err(MenuError::NotFound),
    }
}

/// The ids under which a product is put into a dish or taken out of it,
/// as the table that links the two holds them: the low 32 bits of each id
/// that was looked up. If the dish or the product is not there, nothing
/// is linked; the dish is looked at first.
pub fn linked_ids(dish_id: Option<u64>, product_id: Option<u64>) -> (result: Result<
    (i32, i32),
    MenuError,
>)
    ensures
        match (dish_id, product_id) {
            (Some(dish), Some(product)) => result == Ok::<(i32, i32), MenuError>(
                (dish as i32, product as i32),
            ),
            _ => result matches Err(MenuError::NotFound),
        },
{
    let dish = match dish_id {
        Some(dish) => dish,
        None => {
            return Err(MenuError::NotFound);
        },
    };
    let product = match product_id {
        Some(product) => product,
        None => {
            return Err(MenuError::NotFound);
        },
    };
    Ok((#[verifier::truncate] (dish as i32), #[verifier::truncate] (product as i32)))
}

} // verus!
