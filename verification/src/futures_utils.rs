use crate::calendar::{
    add_days_in_month, date_exists, days_from_civil, days_in_month, is_weekend, lemma_weekday_shift, leap_year,
    previous_day, prev_ymd, weekday_from_monday, weekday_index, ymd_valid, CivilDate,
    MIN_CALENDAR_YEAR, MAX_CALENDAR_YEAR, date_is_after, ymd_before, local_today,
};
use vstd::prelude::*;
use vstd::string::StringExecFns;

verus! {

/// Futures contract months, in calendar order.
#[derive(Debug, Clone, Copy, PartialEq, Eq, Structural)]
pub enum ContractMonth {
    January,
    February,
    March,
    April,
    May,
    June,
    July,
    August,
    September,
    October,
    November,
    December,
}

/// Errors of the futures helpers.
#[derive(Debug, Clone, Copy, PartialEq, Eq, Structural)]
pub enum FuturesError {
    /// A month number outside 1..=12 was given.
    InvalidMonth(u32),
    /// The contract month after today is past the last representable date.
    ExpiryOutOfRange,
}

/// The calendar month (1..=12) of a contract month.
pub open spec fn month_number(c: ContractMonth) -> int {
    match c {
        ContractMonth::January => 1,
        ContractMonth::February => 2,
        ContractMonth::March => 3,
        ContractMonth::April => 4,
        ContractMonth::May => 5,
        ContractMonth::June => 6,
        ContractMonth::July => 7,
        ContractMonth::August => 8,
        ContractMonth::September => 9,
        ContractMonth::October => 10,
        ContractMonth::November => 11,
        ContractMonth::December => 12,
    }
}

/// The CME month letter of a contract month.
pub open spec fn month_code(c: ContractMonth) -> char {
    match c {
        ContractMonth::January => 'F',
        ContractMonth::February => 'G',
        ContractMonth::March => 'H',
        ContractMonth::April => 'J',
        ContractMonth::May => 'K',
        ContractMonth::June => 'M',
        ContractMonth::July => 'N',
        ContractMonth::August => 'Q',
        ContractMonth::September => 'U',
        ContractMonth::October => 'V',
        ContractMonth::November => 'X',
        ContractMonth::December => 'Z',
    }
}

impl ContractMonth {
    /// The month code used for CME contracts.
    pub fn code(&self) -> (c: char)
        ensures
            c == month_code(*self),
    {
        match self {
            ContractMonth::January => 'F',
            ContractMonth::February => 'G',
            ContractMonth::March => 'H',
            ContractMonth::April => 'J',
            ContractMonth::May => 'K',
            ContractMonth::June => 'M',
            ContractMonth::July => 'N',
            ContractMonth::August => 'Q',
            ContractMonth::September => 'U',
            ContractMonth::October => 'V',
            ContractMonth::November => 'X',
            ContractMonth::December => 'Z',
        }
    }

    /// The contract month of a month number; fails exactly outside 1..=12.
    pub fn from_month(month: u32) -> (res: Result<ContractMonth, FuturesError>)
        ensures
            (1 <= month <= 12) <==> res is Ok,
            res matches Ok(c) ==> month_number(c) == month,
            res matches Err(e) ==> e == FuturesError::InvalidMonth(month),
    {
        match month {
            1 => Ok(ContractMonth::January),
            2 => Ok(ContractMonth::February),
            3 => Ok(ContractMonth::March),
            4 => Ok(ContractMonth::April),
            5 => Ok(ContractMonth::May),
            6 => Ok(ContractMonth::June),
            7 => Ok(ContractMonth::July),
            8 => Ok(ContractMonth::August),
            9 => Ok(ContractMonth::September),
            10 => Ok(ContractMonth::October),
            11 => Ok(ContractMonth::November),
            12 => Ok(ContractMonth::December),
            _ => Err(FuturesError::InvalidMonth(month)),
        }
    }

    /// The month number (1..=12).
    pub fn to_month(&self) -> (m: u32)
        ensures
            m == month_number(*self),
            1 <= m <= 12,
    {
        match self {
            ContractMonth::January => 1,
            ContractMonth::February => 2,
            ContractMonth::March => 3,
            ContractMonth::April => 4,
            ContractMonth::May => 5,
            ContractMonth::June => 6,
            ContractMonth::July => 7,
            ContractMonth::August => 8,
            ContractMonth::September => 9,
            ContractMonth::October => 10,
            ContractMonth::November => 11,
            ContractMonth::December => 12,
        }
    }
}

/// Decimal digits of a natural number, most significant first.
pub open spec fn decimal_digits(n: nat) -> Seq<char>
    decreases n,
{
    if n < 10 {
        seq![(48 + n) as char]
    } else {
        decimal_digits(n / 10).push((48 + n % 10) as char)
    }
}

/// `format!("{:0w$}", v)`: the sign, then zeros up to width `w`, then the digits.
pub open spec fn zero_padded(v: int, w: nat) -> Seq<char> {
    let sign: Seq<char> = if v < 0 { seq!['-'] } else { Seq::empty() };
    let digits = decimal_digits((if v < 0 { -v } else { v }) as nat);
    let used = sign.len() + digits.len();
    let fill: nat = if w > used { (w - used) as nat } else { 0 };
    sign + Seq::new(fill, |i: int| '0') + digits
}

/// The decimal digit `d` as a one-character string.
fn digit_text(d: u32) -> (s: &'static str)
    requires
        d < 10,
    ensures
        s@ == seq![(48 + d) as char],
{
    match d {
        0 => {
            proof {
                reveal_strlit("0");
            }
            "0"
        },
        1 => {
            proof {
                reveal_strlit("1");
            }
            "1"
        },
        2 => {
            proof {
                reveal_strlit("2");
            }
            "2"
        },
        3 => {
            proof {
                reveal_strlit("3");
            }
            "3"
        },
        4 => {
            proof {
                reveal_strlit("4");
            }
            "4"
        },
        5 => {
            proof {
                reveal_strlit("5");
            }
            "5"
        },
        6 => {
            proof {
                reveal_strlit("6");
            }
            "6"
        },
        7 => {
            proof {
                reveal_strlit("7");
            }
            "7"
        },
        8 => {
            proof {
                reveal_strlit("8");
            }
            "8"
        },
        _ => {
            proof {
                reveal_strlit("9");
            }
            "9"
        },
    }
}

/// Appends the decimal digits of `n`.
fn push_decimal(s: &mut String, n: u32)
    ensures
        final(s)@ == old(s)@ + decimal_digits(n as nat),
    decreases n,
{
    if n >= 10 {
        push_decimal(s, n / 10);
    }
    s.append(digit_text(n % 10));
    proof {
        if n >= 10 {
            assert(decimal_digits(n as nat) == decimal_digits((n / 10) as nat).push(
                (48 + n % 10) as char,
            ));
        }
    }
}

/// Number of decimal digits of `n`.
fn decimal_len(n: u32) -> (k: usize)
    ensures
        k == decimal_digits(n as nat).len(),
        1 <= k <= 10,
    decreases n,
{
    proof {
        lemma_decimal_digits_len(n as nat);
    }
    if n < 10 {
        1
    } else {
        decimal_len(n / 10) + 1
    }
}

/// A number below `10^10` has one to ten decimal digits.
proof fn lemma_decimal_digits_len(n: nat)
    ensures
        1 <= decimal_digits(n).len(),
        n < 10_000_000_000 ==> decimal_digits(n).len() <= 10,
    decreases n,
{
    if n >= 10 {
        lemma_decimal_digits_len(n / 10);
        if n < 10_000_000_000 {
            assert(n / 10 < 1_000_000_000);
            lemma_decimal_digits_below(n / 10);
        }
    }
}

/// A number below `10^9` has at most nine decimal digits.
proof fn lemma_decimal_digits_below(n: nat)
    requires
        n < 1_000_000_000,
    ensures
        decimal_digits(n).len() <= 9,
{
    reveal_with_fuel(decimal_digits, 10);
}

/// `format!("{:0width$}", value)`: the sign, then zeros up to `width`, then the digits.
fn format_zero_padded(value: i32, width: usize) -> (s: String)
    ensures
        s@ == zero_padded(value as int, width as nat),
{
    let magnitude: u32 = if value < 0 {
        (0 - (value as i64)) as u32
    } else {
        value as u32
    };
    let mut s = String::new();
    if value < 0 {
        proof {
            reveal_strlit("-");
        }
        s.append("-");
    }
    let ghost sign = s@;
    let used: usize = s.unicode_len() + decimal_len(magnitude);
    let mut k: usize = used;
    while k < width
        invariant
            used <= k,
            k <= width || k == used,
            s@ == sign + Seq::new((k - used) as nat, |i: int| '0'),
        decreases width - k,
    {
        proof {
            reveal_strlit("0");
        }
        s.append("0");
        k = k + 1;
        assert(s@ =~= sign + Seq::new((k - used) as nat, |i: int| '0'));
    }
    push_decimal(&mut s, magnitude);
    s
}

/// `str` equality of the standard library.
#[verifier::external_body]
pub(crate) fn str_equal(a: &str, b: &str) -> (r: bool)
    ensures
        r == (a@ == b@),
{
    a == b
}

/// Gregorian leap-year rule.
pub fn is_leap_year(year: i32) -> (r: bool)
    ensures
        r == leap_year(year as int),
{
    (year % 4 == 0 && year % 100 != 0) || (year % 400 == 0)
}

/// The last day of a month; months outside 1..=12 answer 30.
pub fn get_last_day_of_month(year: i32, month: u32) -> (d: u32)
    ensures
        d == days_in_month(year as int, month as int),
        28 <= d <= 31,
{
    match month {
        1 | 3 | 5 | 7 | 8 | 10 | 12 => 31,
        4 | 6 | 9 | 11 => 30,
        2 => {
            if is_leap_year(year) {
                29
            } else {
                28
            }
        },
        _ => 30,
    }
}

/// Day of month of the third Friday of a month.
pub open spec fn third_friday_day(y: int, m: int) -> int {
    15 + (11 - weekday_index(y, m, 1)) % 7
}

/// The third Friday of a month.
pub fn get_third_friday(year: i32, month: u32) -> (date: CivilDate)
    requires
        ymd_valid(year as int, month as int, 1),
    ensures
        date.year == year,
        date.month == month,
        date.day == third_friday_day(year as int, month as int),
        date.valid(),
        15 <= date.day <= 21,
        weekday_index(year as int, month as int, date.day as int) == 4,
{
    let w = weekday_from_monday(year, month, 1);
    let days_until_friday: u32 = match w {
        0 => 4,
        1 => 3,
        2 => 2,
        3 => 1,
        4 => 0,
        5 => 6,
        _ => 5,
    };
    proof {
        lemma_weekday_shift(year as int, month as int, 1, (days_until_friday + 14) as int);
    }
    let (y, m, d) = add_days_in_month(year, month, 1, days_until_friday + 14);
    CivilDate { year: y, month: m, day: d }
}

/// The date `n` business days (Monday to Friday) before `(y, m, d)`, stepping back one
/// calendar day at a time; `None` if the steps leave the representable range.
pub open spec fn business_days_back(y: int, m: int, d: int, n: nat) -> Option<(int, int, int)>
    decreases n, y - MIN_CALENDAR_YEAR, m, d,
{
    if n == 0 {
        Some((y, m, d))
    } else {
        let p = prev_ymd(y, m, d);
        if !ymd_valid(p.0, p.1, p.2) {
            None
        } else if is_weekend(p.0, p.1, p.2) {
            business_days_back(p.0, p.1, p.2, n)
        } else {
            business_days_back(p.0, p.1, p.2, (n - 1) as nat)
        }
    }
}

/// `business_days_back` from a date that must exist first.
pub open spec fn business_days_before_spec(y: int, m: int, d: int, n: nat) -> Option<(int, int, int)> {
    if ymd_valid(y, m, d) {
        business_days_back(y, m, d, n)
    } else {
        None
    }
}

/// The date `business_days` business days before `year-month-day`; `None` when that date
/// does not exist or the result falls before the representable range.
pub fn calculate_business_days_before(year: i32, month: u32, day: u32, business_days: u32) -> (res:
    Option<CivilDate>)
    ensures
        res matches Some(r) ==> r.valid(),
        business_days_before_spec(year as int, month as int, day as int, business_days as nat)
            == optional_ymd(res),
{
    if !date_exists(year, month, day) {
        return None;
    }
    let mut cy = year;
    let mut cm = month;
    let mut cd = day;
    let mut count: u32 = 0;
    while count < business_days
        invariant
            ymd_valid(cy as int, cm as int, cd as int),
            count <= business_days,
            ymd_valid(year as int, month as int, day as int),
            business_days_back(cy as int, cm as int, cd as int, (business_days - count) as nat)
                == business_days_back(year as int, month as int, day as int, business_days as nat),
        decreases business_days - count, cy - MIN_CALENDAR_YEAR, cm, cd,
    {
        match previous_day(cy, cm, cd) {
            None => {
                return None;
            },
            Some((py, pm, pd)) => {
                cy = py;
                cm = pm;
                cd = pd;
            },
        }
        let w = weekday_from_monday(cy, cm, cd);
        if w >= 5 {
            continue;
        } else {
            count = count + 1;
        }
    }
    Some(CivilDate { year: cy, month: cm, day: cd })
}

/// The next quarterly contract month (March, June, September, December) strictly after
/// month `m`, or 0 when none remains in the year.
pub open spec fn next_quarter_month(m: int) -> int {
    if m < 3 {
        3
    } else if m < 6 {
        6
    } else if m < 9 {
        9
    } else if m < 12 {
        12
    } else {
        0
    }
}

/// Year, month and expiry date of the quarterly contract chosen on `today`.
pub open spec fn quarterly_expiry_spec(today: (int, int, int)) -> (int, int, (int, int, int)) {
    let q = next_quarter_month(today.1);
    if q != 0 {
        (today.0, q, (today.0, q, third_friday_day(today.0, q)))
    } else {
        (today.0 + 1, 3, (today.0 + 1, 3, third_friday_day(today.0 + 1, 3)))
    }
}

/// The next quarterly expiry (third Friday of March, June, September or December) in a
/// later month than `current_date`.
pub fn get_quarterly_expiry(current_date: CivilDate) -> (res: (i32, u32, CivilDate))
    requires
        current_date.valid(),
        current_date.month < 12 || current_date.year < MAX_CALENDAR_YEAR,
    ensures
        (res.0 as int, res.1 as int, res.2.ymd()) == quarterly_expiry_spec(current_date.ymd()),
        res.2.valid(),
        res.2.year == res.0 && res.2.month == res.1,
        res.1 == 3 || res.1 == 6 || res.1 == 9 || res.1 == 12,
        current_date.month < 12 ==> res.0 == current_date.year && current_date.month < res.1
            <= current_date.month + 3,
        current_date.month == 12 ==> res.0 == current_date.year + 1 && res.1 == 3,
        ymd_before(current_date.ymd(), res.2.ymd()),
        weekday_index(res.2.year as int, res.2.month as int, res.2.day as int) == 4,
        15 <= res.2.day <= 21,
{
    let quarterly_months: [u32; 4] = [3, 6, 9, 12];
    let current_year = current_date.year;
    let current_month = current_date.month;
    let mut i: usize = 0;
    while i < 4
        invariant
            0 <= i <= 4,
            current_date.valid(),
            current_year == current_date.year,
            current_month == current_date.month,
            quarterly_months@ == seq![3u32, 6u32, 9u32, 12u32],
            forall|j: int| 0 <= j < i ==> quarterly_months@[j] <= current_month,
        decreases 4 - i,
    {
        let month = quarterly_months[i];
        if month > current_month {
            let expiry = get_third_friday(current_year, month);
            if date_is_after(expiry, current_date) {
                return (current_year, month, expiry);
            }
        }
        i = i + 1;
    }
    let next_year = current_year + 1;
    let expiry = get_third_friday(next_year, 3);
    (next_year, 3, expiry)
}

/// `calculate_business_days_before` as a spec on dates.
pub open spec fn monthly_candidate(y: int, m: int, d: int, n: nat) -> Option<(int, int, int)> {
    business_days_before_spec(y, m, d, n)
}

/// The month after `(y, m)`.
pub open spec fn next_month_of(y: int, m: int) -> (int, int) {
    if m == 12 {
        (y + 1, 1)
    } else {
        (y, m + 1)
    }
}

/// Expiry chosen from the candidate dates of the current and the next month: the current
/// month's candidate if it exists and is later than `today`, else the next month's
/// candidate, else the 15th of the next month.
pub open spec fn choose_monthly_expiry(
    today: (int, int, int),
    this_month: Option<(int, int, int)>,
    next_month: Option<(int, int, int)>,
) -> (int, int, (int, int, int)) {
    let nm = next_month_of(today.0, today.1);
    if this_month is Some && ymd_before(today, this_month.unwrap()) {
        (today.0, today.1, this_month.unwrap())
    } else if next_month is Some {
        (nm.0, nm.1, next_month.unwrap())
    } else {
        (nm.0, nm.1, (nm.0, nm.1, 15))
    }
}

/// A monthly rule yields an expiry unless it would need the 15th of a month past the
/// representable range: that is, the month has a successor or its own candidate is ahead.
pub open spec fn monthly_rule_defined(today: (int, int, int), this_month: Option<(int, int, int)>) -> bool {
    ||| today.1 < 12
    ||| today.0 < MAX_CALENDAR_YEAR
    ||| (this_month is Some && ymd_before(today, this_month.unwrap()))
}

/// Expiry `business_days_before` business days before day `day_of_month` of the month.
pub open spec fn monthly_expiry_spec(today: (int, int, int), day_of_month: int, n: nat) -> (
    int,
    int,
    (int, int, int),
) {
    let nm = next_month_of(today.0, today.1);
    choose_monthly_expiry(
        today,
        monthly_candidate(today.0, today.1, day_of_month, n),
        monthly_candidate(nm.0, nm.1, day_of_month, n),
    )
}

/// Expiry `business_days_before` business days before the last day of the month.
pub open spec fn end_of_month_expiry_spec(today: (int, int, int), n: nat) -> (
    int,
    int,
    (int, int, int),
) {
    let nm = next_month_of(today.0, today.1);
    choose_monthly_expiry(
        today,
        monthly_candidate(today.0, today.1, days_in_month(today.0, today.1), n),
        monthly_candidate(nm.0, nm.1, days_in_month(nm.0, nm.1), n),
    )
}

/// The date of an optional date.
pub open spec fn optional_ymd(d: Option<CivilDate>) -> Option<(int, int, int)> {
    match d {
        Some(x) => Some(x.ymd()),
        None => None,
    }
}

/// Shared tail of the monthly expiry rules: take the current month's candidate if it is
/// still ahead, else the next month's candidate, else the 15th of the next month.
fn pick_monthly_expiry(
    current_date: CivilDate,
    this_month: Option<CivilDate>,
    next_year: i32,
    next_month: u32,
    next_candidate: Option<CivilDate>,
) -> (res: (i32, u32, CivilDate))
    requires
        current_date.valid(),
        (next_year as int, next_month as int) == next_month_of(
            current_date.year as int,
            current_date.month as int,
        ),
        ymd_valid(next_year as int, next_month as int, 15) || (this_month matches Some(t)
            && ymd_before(current_date.ymd(), t.ymd())),
        this_month matches Some(t) ==> t.valid(),
        next_candidate matches Some(t) ==> t.valid(),
    ensures
        (res.0 as int, res.1 as int, res.2.ymd()) == choose_monthly_expiry(
            current_date.ymd(),
            optional_ymd(this_month),
            optional_ymd(next_candidate),
        ),
        res.2.valid(),
{
    if let Some(expiry) = this_month {
        if date_is_after(expiry, current_date) {
            return (current_date.year, current_date.month, expiry);
        }
    }
    if let Some(expiry) = next_candidate {
        return (next_year, next_month, expiry);
    }
    (next_year, next_month, CivilDate { year: next_year, month: next_month, day: 15 })
}

/// The month after the month of `current_date`.
fn following_month(current_date: CivilDate) -> (res: (i32, u32))
    requires
        current_date.valid(),
    ensures
        (res.0 as int, res.1 as int) == next_month_of(
            current_date.year as int,
            current_date.month as int,
        ),
        current_date.month < 12 || current_date.year < MAX_CALENDAR_YEAR ==> ymd_valid(
            res.0 as int,
            res.1 as int,
            15,
        ),
{
    if current_date.month == 12 {
        (current_date.year + 1, 1)
    } else {
        (current_date.year, current_date.month + 1)
    }
}

/// Monthly expiry `business_days_before` business days before day `day_of_month`, in the
/// current month if that date is still ahead, else in the next month.
pub fn get_monthly_expiry(current_date: CivilDate, day_of_month: u32, business_days_before: u32) -> (res:
    (i32, u32, CivilDate))
    requires
        current_date.valid(),
        monthly_rule_defined(
            current_date.ymd(),
            monthly_candidate(
                current_date.year as int,
                current_date.month as int,
                day_of_month as int,
                business_days_before as nat,
            ),
        ),
    ensures
        (res.0 as int, res.1 as int, res.2.ymd()) == monthly_expiry_spec(
            current_date.ymd(),
            day_of_month as int,
            business_days_before as nat,
        ),
        res.2.valid(),
        3 * business_days_before < day_of_month <= 28 ==> res.0 == res.2.year && res.1
            == res.2.month && ymd_before(current_date.ymd(), res.2.ymd()),
{
    proof {
        if 3 * business_days_before < day_of_month <= 28 {
            law_monthly_contract_is_its_expiry_month(
                current_date.ymd(),
                day_of_month as int,
                business_days_before as nat,
            );
        }
    }
    let this_month = calculate_business_days_before(
        current_date.year,
        current_date.month,
        day_of_month,
        business_days_before,
    );
    let (next_year, next_month) = following_month(current_date);
    let next_candidate = calculate_business_days_before(
        next_year,
        next_month,
        day_of_month,
        business_days_before,
    );
    pick_monthly_expiry(current_date, this_month, next_year, next_month, next_candidate)
}

/// Monthly expiry `business_days_before` business days before the last day of the month,
/// in the current month if that date is still ahead, else in the next month.
pub fn get_monthly_expiry_end_of_month(current_date: CivilDate, business_days_before: u32) -> (res:
    (i32, u32, CivilDate))
    requires
        current_date.valid(),
        monthly_rule_defined(
            current_date.ymd(),
            monthly_candidate(
                current_date.year as int,
                current_date.month as int,
                days_in_month(current_date.year as int, current_date.month as int),
                business_days_before as nat,
            ),
        ),
    ensures
        (res.0 as int, res.1 as int, res.2.ymd()) == end_of_month_expiry_spec(
            current_date.ymd(),
            business_days_before as nat,
        ),
        res.2.valid(),
        3 * business_days_before < 28 ==> res.0 == res.2.year && res.1 == res.2.month
            && ymd_before(current_date.ymd(), res.2.ymd()),
{
    proof {
        if 3 * business_days_before < 28 {
            law_end_of_month_contract_is_its_expiry_month(
                current_date.ymd(),
                business_days_before as nat,
            );
        }
    }
    let last_day = get_last_day_of_month(current_date.year, current_date.month);
    let this_month = calculate_business_days_before(
        current_date.year,
        current_date.month,
        last_day,
        business_days_before,
    );
    let (next_year, next_month) = following_month(current_date);
    let next_last_day = get_last_day_of_month(next_year, next_month);
    let next_candidate = calculate_business_days_before(
        next_year,
        next_month,
        next_last_day,
        business_days_before,
    );
    pick_monthly_expiry(current_date, this_month, next_year, next_month, next_candidate)
}

/// Expiry (year, month, date) of the front-month contract of `symbol` on `today`:
/// crude oil ("CL") three business days before the 25th, gold ("GC") three business days
/// before the month's last day, everything else (E-mini "ES", "NQ") quarterly.
pub open spec fn front_month_expiry_spec(symbol: Seq<char>, today: (int, int, int)) -> (
    int,
    int,
    (int, int, int),
) {
    if symbol == "CL"@ {
        monthly_expiry_spec(today, 25, 3)
    } else if symbol == "GC"@ {
        end_of_month_expiry_spec(today, 3)
    } else {
        quarterly_expiry_spec(today)
    }
}

/// The front-month rule of `symbol` yields an expiry on `today`: quarterly contracts need
/// a following year in December; the monthly rules need it only when the current month's
/// candidate is already past.
pub open spec fn front_month_defined(symbol: Seq<char>, today: (int, int, int)) -> bool {
    if symbol == "CL"@ {
        monthly_rule_defined(today, monthly_candidate(today.0, today.1, 25, 3))
    } else if symbol == "GC"@ {
        monthly_rule_defined(
            today,
            monthly_candidate(today.0, today.1, days_in_month(today.0, today.1), 3),
        )
    } else {
        today.1 < 12 || today.0 < MAX_CALENDAR_YEAR
    }
}

/// Whether the front-month rule of `symbol` yields an expiry on `today`.
pub fn front_month_available(symbol: &str, today: CivilDate) -> (b: bool)
    requires
        today.valid(),
    ensures
        b == front_month_defined(symbol@, today.ymd()),
{
    if today.month < 12 || today.year < MAX_CALENDAR_YEAR {
        return true;
    }
    let candidate = if str_equal(symbol, "CL") {
        calculate_business_days_before(today.year, today.month, 25, 3)
    } else if str_equal(symbol, "GC") {
        let last_day = get_last_day_of_month(today.year, today.month);
        calculate_business_days_before(today.year, today.month, last_day, 3)
    } else {
        return false;
    };
    match candidate {
        Some(c) => date_is_after(c, today),
        None => false,
    }
}

/// The contract month as `YYYYMM`.
pub open spec fn contract_month_text(e: (int, int, (int, int, int))) -> Seq<char> {
    zero_padded(e.0, 4) + zero_padded(e.1, 2)
}

/// The expiry as `YYYYMMDD` (year and month of the contract, day of the expiry date).
pub open spec fn expiry_text(e: (int, int, (int, int, int))) -> Seq<char> {
    contract_month_text(e) + zero_padded(e.2.2, 2)
}

/// A padded decimal of a value below `10^w` has exactly `w` characters; so has a negative
/// four-character value above `-1000`, whose sign takes one of the four places.
pub proof fn lemma_zero_padded_len(v: int, w: nat)
    requires
        1 <= w <= 4,
        w < 4 ==> 0 <= v,
        w == 4 ==> -1000 < v,
        w == 1 ==> v < 10,
        w == 2 ==> v < 100,
        w == 3 ==> v < 1000,
        w == 4 ==> v < 10000,
    ensures
        zero_padded(v, w).len() == w,
{
    reveal_with_fuel(decimal_digits, 5);
    if v < 0 {
        assert(decimal_digits((-v) as nat).len() <= 3);
    } else {
        assert(decimal_digits(v as nat).len() <= w);
    }
}

/// Front-month expiry and contract month of `symbol` as of `today`.
pub fn front_month_contract_on(symbol: &str, today: CivilDate) -> (res: (String, String))
    requires
        today.valid(),
        front_month_defined(symbol@, today.ymd()),
    ensures
        res.0@ == expiry_text(front_month_expiry_spec(symbol@, today.ymd())),
        res.1@ == contract_month_text(front_month_expiry_spec(symbol@, today.ymd())),
        res.0@ == res.1@ + zero_padded(front_month_expiry_spec(symbol@, today.ymd()).2.2, 2),
        -999 <= front_month_expiry_spec(symbol@, today.ymd()).0 <= 9999 ==> res.0@.len() == 8
            && res.1@.len() == 6,
{
    let (year, month, expiry_date) = if str_equal(symbol, "CL") {
        get_monthly_expiry(today, 25, 3)
    } else if str_equal(symbol, "GC") {
        get_monthly_expiry_end_of_month(today, 3)
    } else {
        get_quarterly_expiry(today)
    };
    let year_text = format_zero_padded(year, 4);
    let month_text = format_zero_padded(month as i32, 2);
    let day_text = format_zero_padded(expiry_date.day as i32, 2);
    let contract_month = year_text.concat(month_text.as_str());
    let expiry = contract_month.clone().concat(day_text.as_str());
    proof {
        let e = front_month_expiry_spec(symbol@, today.ymd());
        assert((year as int, month as int, expiry_date.ymd()) == e);
        if -999 <= e.0 <= 9999 {
            lemma_zero_padded_len(e.0, 4);
            lemma_zero_padded_len(e.1, 2);
            lemma_zero_padded_len(e.2.2, 2);
        }
    }
    (expiry, contract_month)
}

/// Outcome of the front-month lookup of `symbol` on the date `today`: the expiry and
/// contract-month texts where the rule yields an expiry, `ExpiryOutOfRange` where it does not.
pub open spec fn front_month_outcome(
    symbol: Seq<char>,
    today: (int, int, int),
    res: Result<(String, String), FuturesError>,
) -> bool {
    &&& (res is Ok <==> front_month_defined(symbol, today))
    &&& res matches Ok(r) ==> r.0@ == expiry_text(front_month_expiry_spec(symbol, today))
        && r.1@ == contract_month_text(front_month_expiry_spec(symbol, today))
    &&& res matches Err(e) ==> e == FuturesError::ExpiryOutOfRange
}

/// Front-month expiry (`YYYYMMDD`) and contract month (`YYYYMM`) of a futures symbol as of
/// today's local date: the lookup's outcome on the date the clock gave. Fails only when the
/// next contract month is past the last representable date.
pub fn get_front_month_contract(symbol: &str) -> (res: Result<(String, String), FuturesError>)
    ensures
        exists|y: i32, m: u32, d: u32|
            ymd_valid(y as int, m as int, d as int) && #[trigger] front_month_outcome(
                symbol@,
                (y as int, m as int, d as int),
                res,
            ),
{
    let (y, m, d) = local_today();
    let today = CivilDate { year: y, month: m, day: d };
    assert(today.ymd() == (y as int, m as int, d as int));
    let res = if !front_month_available(symbol, today) {
        Err(FuturesError::ExpiryOutOfRange)
    } else {
        Ok(front_month_contract_on(symbol, today))
    };
    assert(front_month_outcome(symbol@, (y as int, m as int, d as int), res));
    res
}

/// A contract month is determined by its month number, so `from_month` undoes `to_month`
/// and `to_month` undoes `from_month`.
pub proof fn law_month_number_identifies_contract_month(a: ContractMonth, b: ContractMonth)
    ensures
        month_number(a) == month_number(b) ==> a == b,
        1 <= month_number(a) <= 12,
{
}

/// Distinct contract months have distinct CME month codes.
pub proof fn law_month_codes_are_distinct(a: ContractMonth, b: ContractMonth)
    ensures
        month_code(a) == month_code(b) ==> a == b,
{
}

/// February has 29 days exactly in leap years; every month has 28 to 31 days.
pub proof fn law_month_lengths(y: int, m: int)
    ensures
        28 <= days_in_month(y, m) <= 31,
        days_in_month(y, 2) == 29 <==> leap_year(y),
{
}

/// Stepping back business days from a date lands, after at least one step, on a
/// weekday strictly before the starting date.
pub proof fn law_business_days_back_lands_on_weekday(y: int, m: int, d: int, n: nat)
    requires
        n > 0,
        business_days_back(y, m, d, n) is Some,
    ensures
        ({
            let r = business_days_back(y, m, d, n).unwrap();
            &&& ymd_valid(r.0, r.1, r.2)
            &&& !is_weekend(r.0, r.1, r.2)
            &&& ymd_before(r, (y, m, d))
        }),
    decreases n, y - MIN_CALENDAR_YEAR, m, d,
{
    let p = prev_ymd(y, m, d);
    if is_weekend(p.0, p.1, p.2) {
        law_business_days_back_lands_on_weekday(p.0, p.1, p.2, n);
    } else if n > 1 {
        law_business_days_back_lands_on_weekday(p.0, p.1, p.2, (n - 1) as nat);
    }
}

/// From day `d` of a month, `n` business days back stay in the same month as long as
/// `d > 3n`: each business day costs at most three calendar days.
pub proof fn lemma_business_days_back_in_month(y: int, m: int, d: int, n: nat)
    requires
        ymd_valid(y, m, d),
        d > 3 * n,
    ensures
        business_days_back(y, m, d, n) is Some,
        business_days_back(y, m, d, n).unwrap().0 == y,
        business_days_back(y, m, d, n).unwrap().1 == m,
        business_days_back(y, m, d, n).unwrap().2 >= d - 3 * n,
    decreases n,
{
    if n > 0 {
        lemma_weekday_shift(y, m, d - 3, 1);
        lemma_weekday_shift(y, m, d - 3, 2);
        let w = weekday_index(y, m, d - 1);
        assert(prev_ymd(y, m, d) == (y, m, d - 1));
        if w < 5 {
            assert(business_days_back(y, m, d, n) == business_days_back(y, m, d - 1, (n - 1) as nat));
            lemma_business_days_back_in_month(y, m, d - 1, (n - 1) as nat);
        } else if w == 5 {
            assert(weekday_index(y, m, d - 2) == 4);
            assert(prev_ymd(y, m, d - 1) == (y, m, d - 2));
            assert(business_days_back(y, m, d, n) == business_days_back(y, m, d - 1, n));
            assert(business_days_back(y, m, d - 1, n) == business_days_back(y, m, d - 2, (n - 1) as nat));
            lemma_business_days_back_in_month(y, m, d - 2, (n - 1) as nat);
        } else {
            assert(weekday_index(y, m, d - 2) == 5);
            assert(weekday_index(y, m, d - 3) == 4);
            assert(prev_ymd(y, m, d - 1) == (y, m, d - 2));
            assert(prev_ymd(y, m, d - 2) == (y, m, d - 3));
            assert(business_days_back(y, m, d, n) == business_days_back(y, m, d - 1, n));
            assert(business_days_back(y, m, d - 1, n) == business_days_back(y, m, d - 2, n));
            assert(business_days_back(y, m, d - 2, n) == business_days_back(y, m, d - 3, (n - 1) as nat));
            lemma_business_days_back_in_month(y, m, d - 3, (n - 1) as nat);
        }
    }
}

/// The front-month expiry of every symbol lies strictly after the date it is computed on.
pub proof fn law_front_month_expiry_is_in_the_future(symbol: Seq<char>, today: (int, int, int))
    requires
        ymd_valid(today.0, today.1, today.2),
        front_month_defined(symbol, today),
    ensures
        ymd_before(today, front_month_expiry_spec(symbol, today).2),
{
    let nm = next_month_of(today.0, today.1);
    if today.1 < 12 || today.0 < MAX_CALENDAR_YEAR {
        assert(ymd_valid(nm.0, nm.1, 25));
        if symbol == "CL"@ {
            lemma_business_days_back_in_month(nm.0, nm.1, 25, 3);
        } else if symbol == "GC"@ {
            lemma_business_days_back_in_month(nm.0, nm.1, days_in_month(nm.0, nm.1), 3);
        }
    }
}

/// The third Friday of a month is a Friday between the 15th and the 21st.
pub proof fn lemma_third_friday_is_friday(y: int, m: int)
    ensures
        15 <= third_friday_day(y, m) <= 21,
        weekday_index(y, m, third_friday_day(y, m)) == 4,
{
    let w = weekday_index(y, m, 1);
    let k = third_friday_day(y, m) - 1;
    lemma_weekday_shift(y, m, 1, k);
    assert(days_from_civil(y, m, 1 + k) == days_from_civil(y, m, 1) + k);
    let x = days_from_civil(y, m, 1) + 3;
    assert(w == x % 7);
    assert((x + k) % 7 == 4) by {
        assert(0 <= w < 7);
        if w == 0 { assert(k == 18); }
        else if w == 1 { assert(k == 17); }
        else if w == 2 { assert(k == 16); }
        else if w == 3 { assert(k == 15); }
        else if w == 4 { assert(k == 14); }
        else if w == 5 { assert(k == 20); }
        else { assert(k == 19); }
    }
}

/// The contract of a quarterly symbol (every symbol but "CL" and "GC", so "ES" and "NQ"):
/// a `YYYYMMDD` expiry that starts with its `YYYYMM` contract month, a March, June,
/// September or December contract, and an expiry strictly after today on a Friday between
/// the 15th and the 21st of the contract month. The lengths need a four-place year, so the
/// law holds for contract years -999 to 9999.
pub proof fn law_quarterly_front_month_contract(symbol: Seq<char>, today: (int, int, int))
    requires
        ymd_valid(today.0, today.1, today.2),
        front_month_defined(symbol, today),
        symbol != "CL"@,
        symbol != "GC"@,
        -999 <= front_month_expiry_spec(symbol, today).0 <= 9999,
    ensures
        expiry_text(front_month_expiry_spec(symbol, today)).len() == 8,
        contract_month_text(front_month_expiry_spec(symbol, today)).len() == 6,
        expiry_text(front_month_expiry_spec(symbol, today)).subrange(0, 6) == contract_month_text(
            front_month_expiry_spec(symbol, today),
        ),
        ({
            let suffix = contract_month_text(front_month_expiry_spec(symbol, today)).subrange(4, 6);
            ||| suffix == seq!['0', '3']
            ||| suffix == seq!['0', '6']
            ||| suffix == seq!['0', '9']
            ||| suffix == seq!['1', '2']
        }),
        front_month_expiry_spec(symbol, today).2.0 == front_month_expiry_spec(symbol, today).0,
        front_month_expiry_spec(symbol, today).2.1 == front_month_expiry_spec(symbol, today).1,
        ymd_before(today, front_month_expiry_spec(symbol, today).2),
        15 <= front_month_expiry_spec(symbol, today).2.2 <= 21,
        weekday_index(
            front_month_expiry_spec(symbol, today).2.0,
            front_month_expiry_spec(symbol, today).2.1,
            front_month_expiry_spec(symbol, today).2.2,
        ) == 4,
{
    let e = front_month_expiry_spec(symbol, today);
    assert(e == quarterly_expiry_spec(today));
    law_front_month_expiry_is_in_the_future(symbol, today);
    lemma_third_friday_is_friday(e.0, e.1);
    lemma_zero_padded_len(e.0, 4);
    lemma_zero_padded_len(e.1, 2);
    lemma_zero_padded_len(e.2.2, 2);
    let cm = contract_month_text(e);
    assert(expiry_text(e).subrange(0, 6) =~= cm);
    assert(cm.subrange(4, 6) =~= zero_padded(e.1, 2));
    reveal_with_fuel(decimal_digits, 2);
    assert(zero_padded(3, 2) =~= seq!['0', '3']);
    assert(zero_padded(6, 2) =~= seq!['0', '6']);
    assert(zero_padded(9, 2) =~= seq!['0', '9']);
    assert(zero_padded(12, 2) =~= seq!['1', '2']);
}

/// The quarterly contract is the first of March, June, September and December after today's
/// month (March of the next year from December), and it expires on that month's third
/// Friday, strictly after today.
pub proof fn law_quarterly_contract_is_the_next_quarter_month(today: (int, int, int))
    requires
        ymd_valid(today.0, today.1, today.2),
    ensures
        quarterly_expiry_spec(today).1 % 3 == 0,
        3 <= quarterly_expiry_spec(today).1 <= 12,
        today.1 < 12 ==> quarterly_expiry_spec(today).0 == today.0 && today.1
            < quarterly_expiry_spec(today).1 <= today.1 + 3,
        today.1 == 12 ==> quarterly_expiry_spec(today).0 == today.0 + 1
            && quarterly_expiry_spec(today).1 == 3,
        quarterly_expiry_spec(today).2.0 == quarterly_expiry_spec(today).0,
        quarterly_expiry_spec(today).2.1 == quarterly_expiry_spec(today).1,
        15 <= quarterly_expiry_spec(today).2.2 <= 21,
        weekday_index(
            quarterly_expiry_spec(today).2.0,
            quarterly_expiry_spec(today).2.1,
            quarterly_expiry_spec(today).2.2,
        ) == 4,
        ymd_before(today, quarterly_expiry_spec(today).2),
{
    let e = quarterly_expiry_spec(today);
    lemma_third_friday_is_friday(e.0, e.1);
}

/// The monthly rule's choice between the candidate of today's month (business days before
/// day `d_this`) and that of the next month (before day `d_next`).
proof fn lemma_monthly_choice(today: (int, int, int), d_this: int, d_next: int, n: nat)
    requires
        ymd_valid(today.0, today.1, today.2),
        ymd_valid(today.0, today.1, d_this),
        d_this > 3 * n,
        today.1 < 12 || today.0 < MAX_CALENDAR_YEAR ==> ymd_valid(
            next_month_of(today.0, today.1).0,
            next_month_of(today.0, today.1).1,
            d_next,
        ) && d_next > 3 * n,
        monthly_rule_defined(today, business_days_before_spec(today.0, today.1, d_this, n)),
    ensures
        ({
            let nm = next_month_of(today.0, today.1);
            let this_month = business_days_before_spec(today.0, today.1, d_this, n);
            let e = choose_monthly_expiry(
                today,
                this_month,
                business_days_before_spec(nm.0, nm.1, d_next, n),
            );
            &&& e.2.0 == e.0 && e.2.1 == e.1
            &&& ymd_valid(e.2.0, e.2.1, e.2.2)
            &&& ymd_before(today, e.2)
            &&& n > 0 ==> !is_weekend(e.2.0, e.2.1, e.2.2)
            &&& (e.0 == today.0 && e.1 == today.1) || (today.1 < 12 && e.0 == today.0 && e.1
                == today.1 + 1) || (today.1 == 12 && e.0 == today.0 + 1 && e.1 == 1)
            &&& (e.0 == today.0 && e.1 == today.1) <==> ymd_before(today, this_month.unwrap())
        }),
{
    let nm = next_month_of(today.0, today.1);
    lemma_business_days_back_in_month(today.0, today.1, d_this, n);
    let c = business_days_back(today.0, today.1, d_this, n).unwrap();
    if n > 0 {
        law_business_days_back_lands_on_weekday(today.0, today.1, d_this, n);
    }
    if !ymd_before(today, c) {
        lemma_business_days_back_in_month(nm.0, nm.1, d_next, n);
        if n > 0 {
            law_business_days_back_lands_on_weekday(nm.0, nm.1, d_next, n);
        }
    }
}

/// A monthly contract (expiry `n` business days before day `day_of_month`, as crude oil's
/// 25th) is the month of its expiry date; that month is today's month while today's expiry
/// is still ahead, else the calendar month right after; the expiry is a business day after
/// today. It holds for days that every month has and that leave room for the `n` business
/// days inside the month.
pub proof fn law_monthly_contract_is_its_expiry_month(
    today: (int, int, int),
    day_of_month: int,
    n: nat,
)
    requires
        ymd_valid(today.0, today.1, today.2),
        3 * n < day_of_month <= 28,
        monthly_rule_defined(today, monthly_candidate(today.0, today.1, day_of_month, n)),
    ensures
        ({
            let e = monthly_expiry_spec(today, day_of_month, n);
            &&& e.2.0 == e.0 && e.2.1 == e.1
            &&& ymd_valid(e.2.0, e.2.1, e.2.2)
            &&& ymd_before(today, e.2)
            &&& e.2.2 <= day_of_month
            &&& n > 0 ==> e.2.2 < day_of_month
            &&& n > 0 ==> !is_weekend(e.2.0, e.2.1, e.2.2)
            &&& (e.0 == today.0 && e.1 == today.1) || (today.1 < 12 && e.0 == today.0 && e.1
                == today.1 + 1) || (today.1 == 12 && e.0 == today.0 + 1 && e.1 == 1)
            &&& (e.0 == today.0 && e.1 == today.1) <==> ymd_before(
                today,
                (today.0, today.1, business_days_back(today.0, today.1, day_of_month, n).unwrap().2),
            )
        }),
{
    let nm = next_month_of(today.0, today.1);
    lemma_monthly_choice(today, day_of_month, day_of_month, n);
    lemma_business_days_back_in_month(today.0, today.1, day_of_month, n);
    if today.1 < 12 || today.0 < MAX_CALENDAR_YEAR {
        lemma_business_days_back_in_month(nm.0, nm.1, day_of_month, n);
    }
    let e = monthly_expiry_spec(today, day_of_month, n);
    if n > 0 {
        law_business_days_back_lands_on_weekday(e.2.0, e.2.1, day_of_month, n);
    }
}

/// An end-of-month contract (expiry `n` business days before the month's last day, as gold's)
/// is the month of its expiry date; that month is today's month while today's expiry is still
/// ahead, else the calendar month right after; the expiry is a business day after today.
pub proof fn law_end_of_month_contract_is_its_expiry_month(today: (int, int, int), n: nat)
    requires
        ymd_valid(today.0, today.1, today.2),
        3 * n < 28,
        monthly_rule_defined(
            today,
            monthly_candidate(today.0, today.1, days_in_month(today.0, today.1), n),
        ),
    ensures
        ({
            let e = end_of_month_expiry_spec(today, n);
            &&& e.2.0 == e.0 && e.2.1 == e.1
            &&& ymd_valid(e.2.0, e.2.1, e.2.2)
            &&& ymd_before(today, e.2)
            &&& e.2.2 <= days_in_month(e.0, e.1)
            &&& n > 0 ==> e.2.2 < days_in_month(e.0, e.1)
            &&& n > 0 ==> !is_weekend(e.2.0, e.2.1, e.2.2)
            &&& (e.0 == today.0 && e.1 == today.1) || (today.1 < 12 && e.0 == today.0 && e.1
                == today.1 + 1) || (today.1 == 12 && e.0 == today.0 + 1 && e.1 == 1)
        }),
{
    let nm = next_month_of(today.0, today.1);
    law_month_lengths(today.0, today.1);
    law_month_lengths(nm.0, nm.1);
    lemma_monthly_choice(today, days_in_month(today.0, today.1), days_in_month(nm.0, nm.1), n);
    let e = end_of_month_expiry_spec(today, n);
    lemma_business_days_back_in_month(e.0, e.1, days_in_month(e.0, e.1), n);
    law_month_lengths(e.0, e.1);
    if n > 0 {
        law_business_days_back_lands_on_weekday(e.0, e.1, days_in_month(e.0, e.1), n);
    }
}

} // verus!
