//! The stored records: a document's metadata row, its content row, a calendar
//! date, and a ranked search hit.
use vstd::prelude::*;

verus! {

pub open spec fn is_leap_year(year: int) -> bool {
    (year % 4 == 0 && year % 100 != 0) || year % 400 == 0
}

pub open spec fn days_in_month(year: int, month: int) -> int {
    if month == 2 {
        if is_leap_year(year) {
            29
        } else {
            28
        }
    } else if month == 4 || month == 6 || month == 9 || month == 11 {
        30
    } else {
        31
    }
}

proof fn lemma_divides_negation(x: int, m: int)
    requires
        m > 0,
    ensures
        (x % m == 0) <==> ((-x) % m == 0),
{
    if x % m == 0 {
        vstd::arithmetic::div_mod::lemma_fundamental_div_mod(x, m);
        let q = x / m;
        assert(-x == (-q) * m) by (nonlinear_arith)
            requires
                x == m * q,
        ;
        vstd::arithmetic::div_mod::lemma_mod_multiples_basic(-q, m);
    }
    if (-x) % m == 0 {
        vstd::arithmetic::div_mod::lemma_fundamental_div_mod(-x, m);
        let q = (-x) / m;
        assert(x == (-q) * m) by (nonlinear_arith)
            requires
                -x == m * q,
        ;
        vstd::arithmetic::div_mod::lemma_mod_multiples_basic(-q, m);
    }
}

/// A day of the proleptic Gregorian calendar.
#[derive(Clone, Copy, Debug, PartialEq, Eq, Structural)]
pub struct CalendarDate {
    pub year: i32,
    pub month: u32,
    pub day: u32,
}

impl CalendarDate {
    pub open spec fn is_valid(self) -> bool {
        &&& 1 <= self.month <= 12
        &&& 1 <= self.day <= days_in_month(self.year as int, self.month as int)
    }

    /// Whether this is a day of the calendar.
    pub fn check_valid(&self) -> (r: bool)
        ensures
            r == self.is_valid(),
    {
        if self.month < 1 || self.month > 12 || self.day < 1 {
            return false;
        }
        let y: i64 = if self.year < 0 {
            -(self.year as i64)
        } else {
            self.year as i64
        };
        let leap = (y % 4 == 0 && y % 100 != 0) || y % 400 == 0;
        proof {
            lemma_divides_negation(self.year as int, 4);
            lemma_divides_negation(self.year as int, 100);
            lemma_divides_negation(self.year as int, 400);
        }
        let days: u32 = if self.month == 2 {
            if leap {
                29
            } else {
                28
            }
        } else if self.month == 4 || self.month == 6 || self.month == 9 || self.month == 11 {
            30
        } else {
            31
        };
        self.day <= days
    }
}

/// The metadata row of a stored document. `_id` is assigned by the store on insert.
#[derive(Clone, Debug)]
pub struct Document {
    pub _id: i32,
    pub upload_date: CalendarDate,
    pub filepath: String,
    pub title: String,
}

/// The content row of a stored document; its `_id` is the owning document's.
#[derive(Clone, Debug)]
pub struct DocumentContent {
    pub _id: i32,
    pub content: String,
    pub summary: String,
    pub buzzwords: String,
}

/// One ranked hit of a search. `rank` is the distance of the closest matching field,
/// in millionths (0 is an exact match).
#[derive(Clone, Debug)]
pub struct SearchResult {
    pub _id: i32,
    pub title: String,
    pub upload_date: CalendarDate,
    pub rank: u32,
}

} // verus!
