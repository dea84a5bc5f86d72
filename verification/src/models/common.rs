use vstd::prelude::*;

use crate::text::{push_char, string_from};

verus! {

/// Why a model value could not be built or combined.
#[derive(Debug, Clone, PartialEq, Eq)]
pub enum ModelError {
    EmptyField(&'static str),
    InvalidDate,
    InvalidQuantity,
    CurrencyMismatch,
    ArithmeticOverflow,
}

/// The description of each model error.
pub open spec fn model_error_text(e: ModelError) -> Seq<char> {
    match e {
        ModelError::EmptyField(field) => field@ + " cannot be empty"@,
        ModelError::InvalidDate => "date is invalid"@,
        ModelError::InvalidQuantity => "quantity must be greater than zero"@,
        ModelError::CurrencyMismatch => "currencies do not match"@,
        ModelError::ArithmeticOverflow => "numeric operation overflowed"@,
    }
}

impl ModelError {
    /// The human-readable description of the error.
    pub fn message(&self) -> (r: String)
        ensures
            r@ == model_error_text(*self),
    {
        match self {
            ModelError::EmptyField(field) => {
                let mut text = String::from_str(field);
                text.append(" cannot be empty");
                text
            },
            ModelError::InvalidDate => String::from_str("date is invalid"),
            ModelError::InvalidQuantity => String::from_str("quantity must be greater than zero"),
            ModelError::CurrencyMismatch => String::from_str("currencies do not match"),
            ModelError::ArithmeticOverflow => String::from_str("numeric operation overflowed"),
        }
    }
}

#[derive(Debug, Clone, Copy, PartialEq, Eq, Hash, Structural)]
pub enum Currency {
    Irr,
    Usd,
    Eur,
}

/// An amount in the minor units of a currency.
#[derive(Debug, Clone, Copy, PartialEq, Eq, Structural)]
pub struct Money {
    pub minor_units: i64,
    pub currency: Currency,
}

pub open spec fn in_i64(v: int) -> bool {
    i64::MIN <= v <= i64::MAX
}

impl Money {
    pub fn new(minor_units: i64, currency: Currency) -> (r: Self)
        ensures
            r.minor_units == minor_units,
            r.currency == currency,
    {
        Money { minor_units, currency }
    }

    pub fn zero(currency: Currency) -> (r: Self)
        ensures
            r.minor_units == 0,
            r.currency == currency,
    {
        Self::new(0, currency)
    }

    /// The sum of two amounts of one currency.
    pub fn checked_add(self, other: Self) -> (r: Result<Self, ModelError>)
        ensures
            self.currency != other.currency ==> r == Err::<Money, ModelError>(
                ModelError::CurrencyMismatch,
            ),
            self.currency == other.currency && !in_i64(self.minor_units + other.minor_units)
                ==> r == Err::<Money, ModelError>(ModelError::ArithmeticOverflow),
            self.currency == other.currency && in_i64(self.minor_units + other.minor_units)
                ==> r == Ok::<Money, ModelError>(
                Money { minor_units: (self.minor_units + other.minor_units) as i64, currency: self.currency },
            ),
            r == money_sum(self, other),
    {
        if self.currency != other.currency {
            return Err(ModelError::CurrencyMismatch);
        }
        match self.minor_units.checked_add(other.minor_units) {
            Some(value) => Ok(Self::new(value, self.currency)),
            None => Err(ModelError::ArithmeticOverflow),
        }
    }

    /// The difference of two amounts of one currency.
    pub fn checked_sub(self, other: Self) -> (r: Result<Self, ModelError>)
        ensures
            self.currency != other.currency ==> r == Err::<Money, ModelError>(
                ModelError::CurrencyMismatch,
            ),
            self.currency == other.currency && !in_i64(self.minor_units - other.minor_units)
                ==> r == Err::<Money, ModelError>(ModelError::ArithmeticOverflow),
            self.currency == other.currency && in_i64(self.minor_units - other.minor_units)
                ==> r == Ok::<Money, ModelError>(
                Money { minor_units: (self.minor_units - other.minor_units) as i64, currency: self.currency },
            ),
            r == money_difference(self, other),
    {
        if self.currency != other.currency {
            return Err(ModelError::CurrencyMismatch);
        }
        match self.minor_units.checked_sub(other.minor_units) {
            Some(value) => Ok(Self::new(value, self.currency)),
            None => Err(ModelError::ArithmeticOverflow),
        }
    }
}

/// The sum of two amounts, or why there is none.
pub open spec fn money_sum(a: Money, b: Money) -> Result<Money, ModelError> {
    if a.currency != b.currency {
        Err(ModelError::CurrencyMismatch)
    } else if !in_i64(a.minor_units + b.minor_units) {
        Err(ModelError::ArithmeticOverflow)
    } else {
        Ok(Money { minor_units: (a.minor_units + b.minor_units) as i64, currency: a.currency })
    }
}

/// The difference of two amounts, or why there is none.
pub open spec fn money_difference(a: Money, b: Money) -> Result<Money, ModelError> {
    if a.currency != b.currency {
        Err(ModelError::CurrencyMismatch)
    } else if !in_i64(a.minor_units - b.minor_units) {
        Err(ModelError::ArithmeticOverflow)
    } else {
        Ok(Money { minor_units: (a.minor_units - b.minor_units) as i64, currency: a.currency })
    }
}

impl vstd::std_specs::ops::AddSpecImpl for Money {
    open spec fn obeys_add_spec() -> bool {
        true
    }

    open spec fn add_req(self, rhs: Money) -> bool {
        true
    }

    open spec fn add_spec(self, rhs: Money) -> Result<Money, ModelError> {
        money_sum(self, rhs)
    }
}

impl vstd::std_specs::ops::SubSpecImpl for Money {
    open spec fn obeys_sub_spec() -> bool {
        true
    }

    open spec fn sub_req(self, rhs: Money) -> bool {
        true
    }

    open spec fn sub_spec(self, rhs: Money) -> Result<Money, ModelError> {
        money_difference(self, rhs)
    }
}

impl core::ops::Add for Money {
    type Output = Result<Money, ModelError>;

    /// Same as `checked_add`.
    fn add(self, rhs: Money) -> (r: Result<Money, ModelError>)
        ensures
            r == money_sum(self, rhs),
    {
        self.checked_add(rhs)
    }
}

impl core::ops::Sub for Money {
    type Output = Result<Money, ModelError>;

    /// Same as `checked_sub`.
    fn sub(self, rhs: Money) -> (r: Result<Money, ModelError>)
        ensures
            r == money_difference(self, rhs),
    {
        self.checked_sub(rhs)
    }
}

/// Subtracting what was added gives back the amount one started from,
/// whenever the addition succeeded.
pub proof fn money_sub_undoes_add(a: Money, b: Money)
    requires
        money_sum(a, b) is Ok,
    ensures
        money_difference(money_sum(a, b)->Ok_0, b) == Ok::<Money, ModelError>(a),
{
}

/// The order of the amounts does not matter to their sum, nor to why it fails.
pub proof fn money_sum_commutes(a: Money, b: Money)
    ensures
        money_sum(a, b) == money_sum(b, a),
{
}

/// Number of milliunits in one unit of a quantity.
pub const QUANTITY_SCALE: i64 = 1000;

/// A strictly positive quantity, held in thousandths of a unit.
#[derive(Debug, Clone, Copy, PartialEq, Eq, PartialOrd, Ord)]
pub struct Quantity(i64);

impl Quantity {
    #[verifier::type_invariant]
    spec fn positive(self) -> bool {
        self.0 > 0
    }

    pub closed spec fn spec_milliunits(self) -> i64 {
        self.0
    }

    pub fn from_milliunits(value: i64) -> (r: Result<Self, ModelError>)
        ensures
            value <= 0 ==> r == Err::<Quantity, ModelError>(ModelError::InvalidQuantity),
            value > 0 ==> r is Ok && r->Ok_0.spec_milliunits() == value,
    {
        if value <= 0 {
            return Err(ModelError::InvalidQuantity);
        }
        Ok(Quantity(value))
    }

    pub fn milliunits(self) -> (r: i64)
        ensures
            r == self.spec_milliunits(),
            r > 0,
    {
        proof {
            use_type_invariant(&self);
        }
        self.0
    }
}

/// A calendar date in the proleptic Gregorian calendar.
#[derive(Debug, Clone, Copy, PartialEq, Eq, PartialOrd, Ord, Structural)]
pub struct Date {
    pub year: i32,
    pub month: u8,
    pub day: u8,
}

pub open spec fn is_leap_year(year: int) -> bool {
    year % 4 == 0 && (year % 100 != 0 || year % 400 == 0)
}

/// Days in a Gregorian month; 0 for a month number outside `1..=12`.
pub open spec fn days_in_month(year: int, month: int) -> int {
    if month == 1 || month == 3 || month == 5 || month == 7 || month == 8 || month == 10 || month
        == 12 {
        31
    } else if month == 4 || month == 6 || month == 9 || month == 11 {
        30
    } else if month == 2 {
        if is_leap_year(year) {
            29
        } else {
            28
        }
    } else {
        0
    }
}

pub open spec fn valid_date(year: int, month: int, day: int) -> bool {
    1 <= month <= 12 && 1 <= day <= days_in_month(year, month)
}

impl Date {
    pub fn new(year: i32, month: u8, day: u8) -> (r: Result<Self, ModelError>)
        ensures
            valid_date(year as int, month as int, day as int) ==> r == Ok::<Date, ModelError>(
                Date { year, month, day },
            ),
            !valid_date(year as int, month as int, day as int) ==> r == Err::<Date, ModelError>(
                ModelError::InvalidDate,
            ),
    {
        let leap = year % 4 == 0 && (year % 100 != 0 || year % 400 == 0);
        let max_day: u8 = if month == 1 || month == 3 || month == 5 || month == 7 || month == 8
            || month == 10 || month == 12 {
            31
        } else if month == 4 || month == 6 || month == 9 || month == 11 {
            30
        } else if month == 2 {
            if leap {
                29
            } else {
                28
            }
        } else {
            return Err(ModelError::InvalidDate);
        };
        if day == 0 || day > max_day {
            return Err(ModelError::InvalidDate);
        }
        Ok(Date { year, month, day })
    }
}

/// Rust's integer division, which rounds toward zero, for a positive divisor.
pub open spec fn div_trunc(a: int, b: int) -> int {
    if a >= 0 {
        a / b
    } else {
        -((-a) / b)
    }
}

} // verus!
