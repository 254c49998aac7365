//! The stored records of users, guilds and members, and conversion to and from rows.
use crate::calendar::{Timestamp, is_known_zone, known_zone, utc_zone_name};
use crate::text::{
    ParseIntError, decimal, find_char, first_index, parse_id, parse_id_spec, parse_uint,
    parse_uint_radix, trim, trimmed, u64_to_decimal, lemma_decimal_digits, lemma_decimal_parses,
    lemma_find_from_first, lemma_trimmed_unchanged,
};
use vstd::prelude::*;

verus! {

/// Key under which the database connection is shared.
pub struct DBConnKey;

/// A day of the year, as a month and a day of the month.
#[derive(Debug, Clone, Copy, PartialEq, Eq, Structural)]
pub struct MonthDayDate {
    pub month: u32,
    pub day: u32,
}

/// Why a month and day do not form a date.
#[derive(Debug, Clone, Copy, PartialEq, Eq, Structural)]
pub enum MonthDayError {
    MonthOutOfRange,
    DayOutOfRange,
}

impl MonthDayError {
    /// The error's description.
    pub fn message(&self) -> (r: String)
        ensures
            r@ == month_day_error_message(*self),
    {
        match self {
            MonthDayError::MonthOutOfRange => String::from_str("Month must be between 1 and 12"),
            MonthDayError::DayOutOfRange => String::from_str("Day must be between 1 and 31"),
        }
    }
}

/// The description of each date error.
pub open spec fn month_day_error_message(e: MonthDayError) -> Seq<char> {
    match e {
        MonthDayError::MonthOutOfRange => "Month must be between 1 and 12"@,
        MonthDayError::DayOutOfRange => "Day must be between 1 and 31"@,
    }
}

/// Why a string is not a date in `MM/DD` form.
#[derive(Debug, Clone, Copy, PartialEq, Eq, Structural)]
pub enum MonthDayParseError {
    /// There is no `/` and so no day.
    MissingDay,
    /// The month is not a number.
    Month(ParseIntError),
    /// The day is not a number.
    Day(ParseIntError),
    /// The numbers are not a month in `1..=12` and a day in `1..=31`.
    OutOfRange(MonthDayError),
}

impl MonthDayParseError {
    /// The error's description.
    pub fn message(&self) -> (r: String)
        ensures
            r@ == month_day_parse_message(*self),
    {
        match self {
            MonthDayParseError::MissingDay => String::from_str("Error parsing day of MM/DD"),
            MonthDayParseError::Month(e) => e.message(),
            MonthDayParseError::Day(e) => e.message(),
            MonthDayParseError::OutOfRange(e) => e.message(),
        }
    }
}

/// The description of each date parse error.
pub open spec fn month_day_parse_message(e: MonthDayParseError) -> Seq<char> {
    match e {
        MonthDayParseError::MissingDay => "Error parsing day of MM/DD"@,
        MonthDayParseError::Month(e) => crate::text::parse_int_message(e),
        MonthDayParseError::Day(e) => crate::text::parse_int_message(e),
        MonthDayParseError::OutOfRange(e) => month_day_error_message(e),
    }
}

/// What reading `s` as `MM/DD` gives: the text is trimmed, the month is what stands before
/// the first `/`, the day what stands between it and the next `/` (or the end); both are
/// read as `u32` numbers, and then must be a month in `1..=12` and a day in `1..=31`.
pub open spec fn parse_month_day_spec(s: Seq<char>) -> Result<MonthDayDate, MonthDayParseError> {
    let t = trimmed(s);
    let p: int = first_index(t, '/');
    if p >= t.len() {
        Err(MonthDayParseError::MissingDay)
    } else {
        let rest = t.subrange(p + 1, t.len() as int);
        let q: int = first_index(rest, '/');
        match parse_uint(t.subrange(0, p), 10, u32::MAX as nat) {
            Err(e) => Err(MonthDayParseError::Month(e)),
            Ok(month) => match parse_uint(rest.subrange(0, q), 10, u32::MAX as nat) {
                Err(e) => Err(MonthDayParseError::Day(e)),
                Ok(day) => if !(1 <= month <= 12) {
                    Err(MonthDayParseError::OutOfRange(MonthDayError::MonthOutOfRange))
                } else if !(1 <= day <= 31) {
                    Err(MonthDayParseError::OutOfRange(MonthDayError::DayOutOfRange))
                } else {
                    Ok(MonthDayDate { month: month as u32, day: day as u32 })
                },
            },
        }
    }
}

/// Every date that `MonthDayDate::new` accepts, written as `M/D` in decimal, reads back
/// as that date: parsing accepts every month in `1..=12` and every day in `1..=31`.
pub proof fn lemma_month_day_roundtrip(month: u32, day: u32)
    requires
        1 <= month <= 12,
        1 <= day <= 31,
    ensures
        parse_month_day_spec(decimal(month as nat) + "/"@ + decimal(day as nat)) == Ok::<
            MonthDayDate,
            MonthDayParseError,
        >(MonthDayDate { month, day }),
{
    reveal_strlit("/");
    let dm = decimal(month as nat);
    let dd = decimal(day as nat);
    let s = dm + "/"@ + dd;
    lemma_decimal_digits(month as nat);
    lemma_decimal_digits(day as nat);
    lemma_decimal_parses(month as nat, u32::MAX as nat);
    lemma_decimal_parses(day as nat, u32::MAX as nat);
    assert(s.len() == dm.len() + 1 + dd.len());
    assert(s[0] == dm[0]);
    assert(s[s.len() - 1] == dd[dd.len() - 1]);
    lemma_trimmed_unchanged(s);
    assert forall|j: int| 0 <= j < dm.len() implies s[j] != '/' by {
        assert(s[j] == dm[j]);
    }
    assert(s[dm.len() as int] == '/');
    lemma_find_from_first(s, '/', 0, dm.len() as int);
    let rest = s.subrange(dm.len() as int + 1, s.len() as int);
    assert(rest =~= dd);
    assert(s.subrange(0, dm.len() as int) =~= dm);
    lemma_find_from_first(dd, '/', 0, dd.len() as int);
    assert(dd.subrange(0, dd.len() as int) =~= dd);
}

impl MonthDayDate {
    /// A date from a month in `1..=12` and a day in `1..=31`.
    pub fn new(month: u32, day: u32) -> (r: Result<Self, MonthDayError>)
        ensures
            !(1 <= month <= 12) ==> r == Err::<Self, MonthDayError>(MonthDayError::MonthOutOfRange),
            1 <= month <= 12 && !(1 <= day <= 31) ==> r == Err::<Self, MonthDayError>(
                MonthDayError::DayOutOfRange,
            ),
            1 <= month <= 12 && 1 <= day <= 31 ==> r == Ok::<Self, MonthDayError>(
                MonthDayDate { month, day },
            ),
    {
        if !(1 <= month && month <= 12) {
            return Err(MonthDayError::MonthOutOfRange);
        }
        if !(1 <= day && day <= 31) {
            return Err(MonthDayError::DayOutOfRange);
        }
        Ok(MonthDayDate { month, day })
    }

    /// Reads a date written as `MM/DD`.
    pub fn parse_month_day(s: &str) -> (r: Result<Self, MonthDayParseError>)
        ensures
            r == parse_month_day_spec(s@),
            r matches Ok(d) ==> 1 <= d.month <= 12 && 1 <= d.day <= 31,
    {
        let t = trim(s);
        let len: usize = t.unicode_len();
        let p: usize = find_char(t, '/');
        if p >= len {
            return Err(MonthDayParseError::MissingDay);
        }
        let rest = t.substring_char(p + 1, len);
        let q: usize = find_char(rest, '/');
        let month_str = t.substring_char(0, p);
        let day_str = rest.substring_char(0, q);
        let month: u64 = match parse_uint_radix(month_str, 10, 0xffff_ffff) {
            Ok(m) => m,
            Err(e) => return Err(MonthDayParseError::Month(e)),
        };
        let day: u64 = match parse_uint_radix(day_str, 10, 0xffff_ffff) {
            Ok(d) => d,
            Err(e) => return Err(MonthDayParseError::Day(e)),
        };
        match MonthDayDate::new(month as u32, day as u32) {
            Ok(date) => Ok(date),
            Err(e) => Err(MonthDayParseError::OutOfRange(e)),
        }
    }
}

/// Why a stored row does not make a record.
#[derive(Debug, Clone, Copy, PartialEq, Eq, Structural)]
pub enum RowError {
    /// An id is not a nonzero decimal number.
    Id(ParseIntError),
    /// The stored birthday is not a date.
    Birthday(MonthDayError),
    /// The stored time zone is not one `chrono_tz` knows.
    UnknownTimezone,
}

impl RowError {
    /// The error's description.
    pub fn message(&self) -> (r: String)
        ensures
            r@ == (match *self {
                RowError::Id(e) => crate::text::parse_int_message(e),
                RowError::Birthday(e) => month_day_error_message(e),
                RowError::UnknownTimezone => "failed to parse timezone"@,
            }),
    {
        match self {
            RowError::Id(e) => e.message(),
            RowError::Birthday(e) => e.message(),
            RowError::UnknownTimezone => String::from_str("failed to parse timezone"),
        }
    }
}

/// A Discord user as the bot remembers them.
#[derive(Debug, Clone)]
pub struct User {
    pub id: u64,
    pub birthday: Option<MonthDayDate>,
}

/// A stored `users` row.
#[derive(Debug, Clone)]
pub struct UserRow {
    pub id: String,
    pub birthday_month: Option<i64>,
    pub birthday_day: Option<i64>,
}

/// The user a row describes, or why it describes none: the id must be a nonzero decimal
/// number, and a birthday is there when both month and day are, each taken as a `u32`.
pub open spec fn user_from_row_spec(row: UserRow) -> Result<User, RowError> {
    match parse_id_spec(row.id@) {
        Err(e) => Err(RowError::Id(e)),
        Ok(id) => match (row.birthday_month, row.birthday_day) {
            (Some(m), Some(d)) => {
                let month: u32 = m as u32;
                let day: u32 = d as u32;
                if !(1 <= month <= 12) {
                    Err(RowError::Birthday(MonthDayError::MonthOutOfRange))
                } else if !(1 <= day <= 31) {
                    Err(RowError::Birthday(MonthDayError::DayOutOfRange))
                } else {
                    Ok(User { id, birthday: Some(MonthDayDate { month, day }) })
                }
            },
            _ => Ok(User { id, birthday: None }),
        },
    }
}

impl User {
    /// A user with no birthday set.
    pub fn default_with_id(id: u64) -> (r: Self)
        ensures
            r.id == id,
            r.birthday is None,
    {
        User { id, birthday: None }
    }

    /// The user a stored row describes.
    pub fn try_from_row(row: UserRow) -> (r: Result<Self, RowError>)
        ensures
            r == user_from_row_spec(row),
    {
        let id: u64 = match parse_id(row.id.as_str()) {
            Ok(id) => id,
            Err(e) => return Err(RowError::Id(e)),
        };
        let birthday = match (row.birthday_month, row.birthday_day) {
            (Some(month), Some(day)) => match MonthDayDate::new(month as u32, day as u32) {
                Ok(date) => Some(date),
                Err(e) => return Err(RowError::Birthday(e)),
            },
            _ => None,
        };
        Ok(User { id, birthday })
    }
}

impl UserRow {
    /// The row that stores `user`.
    pub fn from_user(user: User) -> (r: Self)
        ensures
            r.id@ == decimal(user.id as nat),
            r.birthday_month == (match user.birthday {
                Some(b) => Some(b.month as i64),
                None => None::<i64>,
            }),
            r.birthday_day == (match user.birthday {
                Some(b) => Some(b.day as i64),
                None => None::<i64>,
            }),
    {
        let id = u64_to_decimal(user.id);
        let (birthday_month, birthday_day) = match user.birthday {
            Some(b) => (Some(b.month as i64), Some(b.day as i64)),
            None => (None, None),
        };
        UserRow { id, birthday_month, birthday_day }
    }
}

/// The largest number of seconds a `chrono::TimeDelta` holds (`i64::MAX` milliseconds).
pub const MAX_INTERVAL_SECS: i64 = 9_223_372_036_854_775;

/// A guild's settings.
#[derive(Debug, Clone)]
pub struct Guild {
    pub id: u64,
    pub greeting_enabled: bool,
    pub birthday_enabled: bool,
    /// Least time between two greetings of a member, in seconds.
    pub greeting_interval: i64,
    /// The guild's IANA time zone, by name.
    pub timezone: String,
}

/// A stored `guilds` row.
#[derive(Debug, Clone)]
pub struct GuildRow {
    pub id: String,
    pub greeting_enabled: bool,
    pub birthday_enabled: bool,
    pub greeting_interval: i64,
    pub timezone: String,
}

impl Guild {
    /// A valid guild: a nonzero id, an interval that `chrono` can hold, a known zone.
    pub open spec fn wf(&self) -> bool {
        &&& self.id != 0
        &&& -MAX_INTERVAL_SECS <= self.greeting_interval <= MAX_INTERVAL_SECS
        &&& known_zone(self.timezone@)
    }

    /// A guild with greetings off, birthday congratulations on, a one-day greeting
    /// interval, in UTC.
    pub fn default_with_id(id: u64) -> (r: Self)
        requires
            id != 0,
        ensures
            r.wf(),
            r.id == id,
            !r.greeting_enabled,
            r.birthday_enabled,
            r.greeting_interval == 86_400,
            r.timezone@ == "UTC"@,
    {
        Guild {
            id,
            greeting_enabled: false,
            birthday_enabled: true,
            greeting_interval: 86_400,
            timezone: utc_zone_name(),
        }
    }

    /// The guild a stored row describes: the id must be a nonzero decimal number and the
    /// zone one `chrono_tz` knows. A `chrono::TimeDelta` cannot hold an interval beyond
    /// `MAX_INTERVAL_SECS` seconds, so such a row is not accepted.
    pub fn try_from_row(row: GuildRow) -> (r: Result<Self, RowError>)
        requires
            guild_row_readable(row),
        ensures
            match parse_id_spec(row.id@) {
                Err(e) => r == Err::<Guild, RowError>(RowError::Id(e)),
                Ok(id) => if !known_zone(row.timezone@) {
                    r == Err::<Guild, RowError>(RowError::UnknownTimezone)
                } else {
                    r matches Ok(g) && g.wf() && g.id == id && g.greeting_enabled
                        == row.greeting_enabled && g.birthday_enabled == row.birthday_enabled
                        && g.greeting_interval == row.greeting_interval && g.timezone@
                        == row.timezone@
                },
            },
    {
        let id: u64 = match parse_id(row.id.as_str()) {
            Ok(id) => id,
            Err(e) => return Err(RowError::Id(e)),
        };
        if !is_known_zone(row.timezone.as_str()) {
            return Err(RowError::UnknownTimezone);
        }
        Ok(
            Guild {
                id,
                greeting_enabled: row.greeting_enabled,
                birthday_enabled: row.birthday_enabled,
                greeting_interval: row.greeting_interval,
                timezone: row.timezone,
            },
        )
    }
}

/// Whether `Guild::try_from_row` can read `row`: its interval fits a `chrono::TimeDelta`
/// wherever the id and the zone are valid.
pub open spec fn guild_row_readable(row: GuildRow) -> bool {
    parse_id_spec(row.id@) is Ok && known_zone(row.timezone@) ==> -MAX_INTERVAL_SECS
        <= row.greeting_interval <= MAX_INTERVAL_SECS
}

impl Guild {
    /// `try_from_row` where it is defined; `None` for a row whose valid id and zone come
    /// with an interval that a `chrono::TimeDelta` cannot hold.
    pub fn try_from_row_checked(row: GuildRow) -> (r: Option<Result<Guild, RowError>>)
        ensures
            r is None <==> !guild_row_readable(row),
            r matches Some(res) ==> match parse_id_spec(row.id@) {
                Err(e) => res == Err::<Guild, RowError>(RowError::Id(e)),
                Ok(id) => if !known_zone(row.timezone@) {
                    res == Err::<Guild, RowError>(RowError::UnknownTimezone)
                } else {
                    res matches Ok(g) && g.wf() && g.id == id && g.greeting_enabled
                        == row.greeting_enabled && g.birthday_enabled == row.birthday_enabled
                        && g.greeting_interval == row.greeting_interval && g.timezone@
                        == row.timezone@
                },
            },
    {
        let in_range = -MAX_INTERVAL_SECS <= row.greeting_interval && row.greeting_interval <= MAX_INTERVAL_SECS;
        if !in_range && parse_id(row.id.as_str()).is_ok() && is_known_zone(row.timezone.as_str()) {
            return None;
        }
        Some(Guild::try_from_row(row))
    }
}

impl GuildRow {
    /// The row that stores `guild`.
    pub fn from_guild(guild: Guild) -> (r: Self)
        ensures
            r.id@ == decimal(guild.id as nat),
            r.greeting_enabled == guild.greeting_enabled,
            r.birthday_enabled == guild.birthday_enabled,
            r.greeting_interval == guild.greeting_interval,
            r.timezone@ == guild.timezone@,
    {
        GuildRow {
            id: u64_to_decimal(guild.id),
            greeting_enabled: guild.greeting_enabled,
            birthday_enabled: guild.birthday_enabled,
            greeting_interval: guild.greeting_interval,
            timezone: guild.timezone,
        }
    }
}

/// A user's membership in a guild.
#[derive(Debug, Clone)]
pub struct Member {
    pub user_id: u64,
    pub guild_id: u64,
    pub greeting_enabled: bool,
    pub last_greeting: Option<Timestamp>,
    pub last_birthday_congratulation: Option<Timestamp>,
}

/// A stored `members` row; its times are UTC readings.
#[derive(Debug, Clone)]
pub struct MemberRow {
    pub user_id: String,
    pub guild_id: String,
    pub greeting_enabled: bool,
    pub last_greeting: Option<Timestamp>,
    pub last_birthday_congratulation: Option<Timestamp>,
}

/// The member a row describes, or why it describes none.
pub open spec fn member_from_row_spec(row: MemberRow) -> Result<Member, RowError> {
    match (parse_id_spec(row.user_id@), parse_id_spec(row.guild_id@)) {
        (Err(e), _) => Err(RowError::Id(e)),
        (Ok(_), Err(e)) => Err(RowError::Id(e)),
        (Ok(user_id), Ok(guild_id)) => Ok(
            Member {
                user_id,
                guild_id,
                greeting_enabled: row.greeting_enabled,
                last_greeting: row.last_greeting,
                last_birthday_congratulation: row.last_birthday_congratulation,
            },
        ),
    }
}

impl Member {
    /// A member with greetings on, never greeted nor congratulated.
    pub fn default_with_ids(user_id: u64, guild_id: u64) -> (r: Self)
        ensures
            r.user_id == user_id,
            r.guild_id == guild_id,
            r.greeting_enabled,
            r.last_greeting is None,
            r.last_birthday_congratulation is None,
    {
        Member {
            user_id,
            guild_id,
            greeting_enabled: true,
            last_greeting: None,
            last_birthday_congratulation: None,
        }
    }

    /// The member a stored row describes: both ids must be nonzero decimal numbers.
    pub fn try_from_row(row: MemberRow) -> (r: Result<Self, RowError>)
        ensures
            r == member_from_row_spec(row),
    {
        let user_id: u64 = match parse_id(row.user_id.as_str()) {
            Ok(id) => id,
            Err(e) => return Err(RowError::Id(e)),
        };
        let guild_id: u64 = match parse_id(row.guild_id.as_str()) {
            Ok(id) => id,
            Err(e) => return Err(RowError::Id(e)),
        };
        Ok(
            Member {
                user_id,
                guild_id,
                greeting_enabled: row.greeting_enabled,
                last_greeting: row.last_greeting,
                last_birthday_congratulation: row.last_birthday_congratulation,
            },
        )
    }
}

impl MemberRow {
    /// The row that stores `member`.
    pub fn from_member(member: Member) -> (r: Self)
        ensures
            r.user_id@ == decimal(member.user_id as nat),
            r.guild_id@ == decimal(member.guild_id as nat),
            r.greeting_enabled == member.greeting_enabled,
            r.last_greeting == member.last_greeting,
            r.last_birthday_congratulation == member.last_birthday_congratulation,
    {
        MemberRow {
            user_id: u64_to_decimal(member.user_id),
            guild_id: u64_to_decimal(member.guild_id),
            greeting_enabled: member.greeting_enabled,
            last_greeting: member.last_greeting,
            last_birthday_congratulation: member.last_birthday_congratulation,
        }
    }
}

/// An id printed in decimal parses back to the same id.
pub proof fn lemma_id_roundtrip(id: u64)
    requires
        id != 0,
    ensures
        parse_id_spec(decimal(id as nat)) == Ok::<u64, ParseIntError>(id),
{
    crate::text::lemma_decimal_parses(id as nat, u64::MAX as nat);
}

/// Reading back the row that stores a user gives the same user, when its id is nonzero
/// and its birthday, if any, is a date.
pub proof fn lemma_user_roundtrip(user: User, row: UserRow)
    requires
        user.id != 0,
        user.birthday matches Some(b) ==> 1 <= b.month <= 12 && 1 <= b.day <= 31,
        row.id@ == decimal(user.id as nat),
        row.birthday_month == (match user.birthday {
            Some(b) => Some(b.month as i64),
            None => None::<i64>,
        }),
        row.birthday_day == (match user.birthday {
            Some(b) => Some(b.day as i64),
            None => None::<i64>,
        }),
    ensures
        user_from_row_spec(row) == Ok::<User, RowError>(user),
{
    lemma_id_roundtrip(user.id);
}

/// Reading back the row that stores a valid guild gives the same settings: its id parses
/// back, its zone is known and its interval is one a row may hold.
pub proof fn lemma_guild_roundtrip(guild: Guild, row: GuildRow)
    requires
        guild.wf(),
        row.id@ == decimal(guild.id as nat),
        row.greeting_interval == guild.greeting_interval,
        row.timezone@ == guild.timezone@,
    ensures
        parse_id_spec(row.id@) == Ok::<u64, ParseIntError>(guild.id),
        known_zone(row.timezone@),
        -MAX_INTERVAL_SECS <= row.greeting_interval <= MAX_INTERVAL_SECS,
{
    lemma_id_roundtrip(guild.id);
}

/// Reading back the row that stores a member with nonzero ids gives the same member.
pub proof fn lemma_member_roundtrip(member: Member, row: MemberRow)
    requires
        member.user_id != 0,
        member.guild_id != 0,
        row.user_id@ == decimal(member.user_id as nat),
        row.guild_id@ == decimal(member.guild_id as nat),
        row.greeting_enabled == member.greeting_enabled,
        row.last_greeting == member.last_greeting,
        row.last_birthday_congratulation == member.last_birthday_congratulation,
    ensures
        member_from_row_spec(row) == Ok::<Member, RowError>(member),
{
    lemma_id_roundtrip(member.user_id);
    lemma_id_roundtrip(member.guild_id);
}

impl std::str::FromStr for MonthDayDate {
    type Err = MonthDayParseError;

    fn from_str(s: &str) -> (r: Result<Self, Self::Err>)
        ensures
            r == parse_month_day_spec(s@),
            r matches Ok(d) ==> 1 <= d.month <= 12 && 1 <= d.day <= 31,
    {
        MonthDayDate::parse_month_day(s)
    }
}

} // verus!
