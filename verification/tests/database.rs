use schizoid::calendar::Timestamp;
use schizoid::database::{
    Guild, GuildRow, Member, MemberRow, MonthDayDate, MonthDayError, MonthDayParseError, RowError,
    User, UserRow,
};
use schizoid::text::ParseIntError;

#[test]
fn month_day_ranges() {
    assert_eq!(MonthDayDate::new(12, 31), Ok(MonthDayDate { month: 12, day: 31 }));
    assert_eq!(MonthDayDate::new(1, 1), Ok(MonthDayDate { month: 1, day: 1 }));
    assert_eq!(MonthDayDate::new(0, 5), Err(MonthDayError::MonthOutOfRange));
    assert_eq!(MonthDayDate::new(13, 40), Err(MonthDayError::MonthOutOfRange));
    assert_eq!(MonthDayDate::new(2, 0), Err(MonthDayError::DayOutOfRange));
    assert_eq!(MonthDayDate::new(2, 32), Err(MonthDayError::DayOutOfRange));
    assert_eq!(MonthDayError::MonthOutOfRange.message(), "Month must be between 1 and 12");
    assert_eq!(MonthDayError::DayOutOfRange.message(), "Day must be between 1 and 31");
}

#[test]
fn month_day_parsing() {
    let ok = |m, d| Ok(MonthDayDate { month: m, day: d });
    assert_eq!("12/25".parse::<MonthDayDate>(), ok(12, 25));
    assert_eq!("  03/07 \n".parse::<MonthDayDate>(), ok(3, 7));
    assert_eq!("12/25/2020".parse::<MonthDayDate>(), ok(12, 25));
    assert_eq!("+3/4".parse::<MonthDayDate>(), ok(3, 4));
    assert_eq!(
        "99/99".parse::<MonthDayDate>(),
        Err(MonthDayParseError::OutOfRange(MonthDayError::MonthOutOfRange))
    );
    assert_eq!(
        "13/45".parse::<MonthDayDate>(),
        Err(MonthDayParseError::OutOfRange(MonthDayError::MonthOutOfRange))
    );
    assert_eq!(
        "12/32".parse::<MonthDayDate>(),
        Err(MonthDayParseError::OutOfRange(MonthDayError::DayOutOfRange))
    );
    assert_eq!(
        "0/5".parse::<MonthDayDate>(),
        Err(MonthDayParseError::OutOfRange(MonthDayError::MonthOutOfRange))
    );
    assert_eq!("1225".parse::<MonthDayDate>(), Err(MonthDayParseError::MissingDay));
    assert_eq!("".parse::<MonthDayDate>(), Err(MonthDayParseError::MissingDay));
    assert_eq!("ab/3".parse::<MonthDayDate>(), Err(MonthDayParseError::Month(ParseIntError::InvalidDigit)));
    assert_eq!("/3".parse::<MonthDayDate>(), Err(MonthDayParseError::Month(ParseIntError::Empty)));
    assert_eq!("3/".parse::<MonthDayDate>(), Err(MonthDayParseError::Day(ParseIntError::Empty)));
    assert_eq!("3/ 4".parse::<MonthDayDate>(), Err(MonthDayParseError::Day(ParseIntError::InvalidDigit)));
    assert_eq!(MonthDayParseError::MissingDay.message(), "Error parsing day of MM/DD");
}

#[test]
fn user_rows() {
    let row = UserRow { id: "42".to_string(), birthday_month: Some(4), birthday_day: Some(1) };
    let user = User::try_from_row(row).unwrap();
    assert_eq!(user.id, 42);
    assert_eq!(user.birthday, Some(MonthDayDate { month: 4, day: 1 }));
    let back = UserRow::from_user(user);
    assert_eq!(back.id, "42");
    assert_eq!((back.birthday_month, back.birthday_day), (Some(4), Some(1)));

    let half = UserRow { id: "7".to_string(), birthday_month: Some(4), birthday_day: None };
    assert!(User::try_from_row(half).unwrap().birthday.is_none());
    let bad = UserRow { id: "7".to_string(), birthday_month: Some(13), birthday_day: Some(1) };
    assert!(matches!(User::try_from_row(bad), Err(RowError::Birthday(MonthDayError::MonthOutOfRange))));
    // The stored month is taken as a u32, so 2^32 + 5 reads as 5.
    let wide = UserRow { id: "7".to_string(), birthday_month: Some((1i64 << 32) + 5), birthday_day: Some(9) };
    assert_eq!(User::try_from_row(wide).unwrap().birthday, Some(MonthDayDate { month: 5, day: 9 }));
    let zero = UserRow { id: "0".to_string(), birthday_month: None, birthday_day: None };
    assert!(matches!(User::try_from_row(zero), Err(RowError::Id(ParseIntError::Zero))));
    let d = User::default_with_id(9);
    assert_eq!((d.id, d.birthday), (9, None));
}

#[test]
fn user_round_trip() {
    for user in [
        User { id: 1, birthday: None },
        User { id: u64::MAX, birthday: Some(MonthDayDate { month: 12, day: 31 }) },
    ] {
        let back = User::try_from_row(UserRow::from_user(user.clone())).unwrap();
        assert_eq!((back.id, back.birthday), (user.id, user.birthday));
    }
}

#[test]
fn guild_rows() {
    let g = Guild::default_with_id(5);
    assert_eq!(g.timezone, "UTC");
    assert!(!g.greeting_enabled);
    assert!(g.birthday_enabled);
    assert_eq!(g.greeting_interval, 86_400);
    let row = GuildRow::from_guild(g);
    assert_eq!(row.id, "5");
    let back = Guild::try_from_row(row).unwrap();
    assert_eq!((back.id, back.greeting_interval, back.timezone.as_str()), (5, 86_400, "UTC"));

    let berlin = GuildRow {
        id: "77".to_string(),
        greeting_enabled: true,
        birthday_enabled: false,
        greeting_interval: -5,
        timezone: "Europe/Berlin".to_string(),
    };
    let g = Guild::try_from_row(berlin.clone()).unwrap();
    assert_eq!((g.id, g.greeting_enabled, g.birthday_enabled, g.greeting_interval), (77, true, false, -5));
    let unknown = GuildRow { timezone: "europe/berlin".to_string(), ..berlin.clone() };
    assert!(matches!(Guild::try_from_row(unknown), Err(RowError::UnknownTimezone)));
    let huge = GuildRow { greeting_interval: i64::MAX, ..berlin.clone() };
    assert!(Guild::try_from_row_checked(huge).is_none());
    let huge_bad_zone = GuildRow { greeting_interval: i64::MAX, timezone: "Mars".to_string(), ..berlin };
    assert!(matches!(Guild::try_from_row_checked(huge_bad_zone), Some(Err(RowError::UnknownTimezone))));
}

#[test]
fn member_rows() {
    let t = Timestamp { secs: 1_700_000_000, nanos: 5 };
    let row = MemberRow {
        user_id: "1".to_string(),
        guild_id: "2".to_string(),
        greeting_enabled: false,
        last_greeting: Some(t),
        last_birthday_congratulation: None,
    };
    let m = Member::try_from_row(row).unwrap();
    assert_eq!((m.user_id, m.guild_id, m.greeting_enabled, m.last_greeting), (1, 2, false, Some(t)));
    let back = MemberRow::from_member(m);
    assert_eq!((back.user_id.as_str(), back.guild_id.as_str()), ("1", "2"));
    let bad = MemberRow { guild_id: "x".to_string(), ..back };
    assert!(matches!(Member::try_from_row(bad), Err(RowError::Id(ParseIntError::InvalidDigit))));
    let d = Member::default_with_ids(3, 4);
    assert!(d.greeting_enabled && d.last_greeting.is_none() && d.last_birthday_congratulation.is_none());
}
