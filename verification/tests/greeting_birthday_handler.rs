use schizoid::calendar::Timestamp;
use schizoid::database::{Guild, Member, MonthDayDate, User};
use schizoid::storage::Storage;
use schizoid::greeting_birthday_handler::{
    audio_dir_for, choose_strategy, greeting_target, should_congratulate, should_congratulate_at,
    should_congratulate_checked, should_greet,
    should_greet_at, Strategy, VoiceJoin,
};

fn guild(tz: &str) -> Guild {
    Guild {
        id: 1,
        greeting_enabled: true,
        birthday_enabled: true,
        greeting_interval: 60,
        timezone: tz.to_string(),
    }
}

fn member() -> Member {
    Member::default_with_ids(2, 1)
}

fn at(secs: i64, nanos: u32) -> Timestamp {
    Timestamp { secs, nanos }
}

#[test]
fn greets_once_per_interval() {
    let g = guild("UTC");
    let mut m = member();
    assert!(should_greet_at(&g, &m, at(1000, 0)));
    m.record_greeting(at(1000, 0));
    assert_eq!(m.last_greeting, Some(at(1000, 0)));
    assert!(!should_greet_at(&g, &m, at(1000, 0)));
    assert!(!should_greet_at(&g, &m, at(1060, 0)));
    assert!(should_greet_at(&g, &m, at(1060, 1)));
    m.last_greeting = Some(at(1000, 500));
    assert!(!should_greet_at(&g, &m, at(1060, 500)));
    assert!(should_greet_at(&g, &m, at(1060, 501)));
}

#[test]
fn greeting_switches() {
    let mut g = guild("UTC");
    let mut m = member();
    g.greeting_enabled = false;
    assert!(!should_greet_at(&g, &m, at(1000, 0)));
    g.greeting_enabled = true;
    m.greeting_enabled = false;
    assert!(!should_greet_at(&g, &m, at(1000, 0)));
    let fresh = Guild::default_with_id(1);
    assert!(!should_greet(&fresh, &member()));
    assert!(should_greet(&guild("UTC"), &member()));
}

#[test]
fn negative_interval_always_greets_later() {
    let mut g = guild("UTC");
    g.greeting_interval = -10;
    let mut m = member();
    m.last_greeting = Some(at(1000, 0));
    assert!(should_greet_at(&g, &m, at(995, 0)));
    assert!(!should_greet_at(&g, &m, at(990, 0)));
}

#[test]
fn congratulates_on_local_birthday_once_a_year() {
    // 2024-12-31T23:30:00Z is already 1 January 2025 in Berlin.
    let now = at(1_735_687_800, 0);
    let user = User { id: 2, birthday: Some(MonthDayDate { month: 1, day: 1 }) };
    let mut m = member();
    assert!(should_congratulate_at(&guild("Europe/Berlin"), &m, &user, now));
    assert!(!should_congratulate_at(&guild("UTC"), &m, &user, now));
    // Last congratulated during 2024 (UTC): due again in local year 2025.
    m.record_birthday_congratulation(at(1_704_067_200, 0));
    assert!(should_congratulate_at(&guild("Europe/Berlin"), &m, &user, now));
    // Last congratulated in 2025: not again.
    m.record_birthday_congratulation(at(1_735_700_000, 0));
    assert!(!should_congratulate_at(&guild("Europe/Berlin"), &m, &user, now));
}

#[test]
fn congratulation_switches() {
    let now = at(1_735_687_800, 0);
    let user = User { id: 2, birthday: Some(MonthDayDate { month: 12, day: 31 }) };
    let mut g = guild("UTC");
    assert!(should_congratulate_at(&g, &member(), &user, now));
    g.birthday_enabled = false;
    assert!(!should_congratulate_at(&g, &member(), &user, now));
    let nobody = User { id: 2, birthday: None };
    assert!(!should_congratulate_at(&guild("UTC"), &member(), &nobody, now));
    assert!(!should_congratulate(&guild("UTC"), &member(), &nobody));
}

#[test]
fn congratulation_wins() {
    assert_eq!(choose_strategy(true, true), Some(Strategy::Congratulation));
    assert_eq!(choose_strategy(false, true), Some(Strategy::Congratulation));
    assert_eq!(choose_strategy(true, false), Some(Strategy::Greeting));
    assert_eq!(choose_strategy(false, false), None);
}

#[test]
fn only_fresh_joins_of_users_count() {
    let join = Some(VoiceJoin { guild_id: 3, channel_id: 4, user_id: 5 });
    assert_eq!(greeting_target(false, 1, 5, Some(4), Some(3)), join);
    assert_eq!(greeting_target(true, 1, 5, Some(4), Some(3)), None);
    assert_eq!(greeting_target(false, 5, 5, Some(4), Some(3)), None);
    assert_eq!(greeting_target(false, 1, 5, None, Some(3)), None);
    assert_eq!(greeting_target(false, 1, 5, Some(4), None), None);
}

#[test]
fn playing_updates_the_right_times() {
    let t = at(5000, 7);
    let mut m = member();
    m.record_played(Strategy::Greeting, t);
    assert_eq!(m.last_greeting, Some(t));
    assert_eq!(m.last_birthday_congratulation, None);
    let t2 = at(6000, 0);
    m.record_played(Strategy::Congratulation, t2);
    assert_eq!(m.last_greeting, Some(t2));
    assert_eq!(m.last_birthday_congratulation, Some(t2));
}

#[test]
fn member_greeting_before_guild_greeting() {
    let storage = Storage::new("./assets");
    assert_eq!(
        audio_dir_for(&storage, Strategy::Greeting, 7, 9, true),
        vec!["./assets", "greetings", "7", "9"]
    );
    assert_eq!(audio_dir_for(&storage, Strategy::Greeting, 7, 9, false), vec!["./assets", "greetings", "7"]);
    assert_eq!(
        audio_dir_for(&storage, Strategy::Congratulation, 7, 9, true),
        vec!["./assets", "birthday_congratulations", "7"]
    );
    assert_eq!(
        audio_dir_for(&storage, Strategy::Congratulation, 7, 9, false),
        vec!["./assets", "birthday_congratulations", "7"]
    );
}

#[test]
fn checked_congratulation_refuses_invalid_guilds() {
    let user = User { id: 2, birthday: Some(MonthDayDate { month: 1, day: 1 }) };
    let m = member();
    assert_eq!(should_congratulate_checked(&guild("Mars/Olympus"), &m, &user), None);
    let mut zero = guild("UTC");
    zero.id = 0;
    assert_eq!(should_congratulate_checked(&zero, &m, &user), None);
    let mut far = member();
    far.last_birthday_congratulation = Some(at(i64::MAX, 0));
    assert_eq!(should_congratulate_checked(&guild("UTC"), &far, &user), None);
    assert!(should_congratulate_checked(&guild("UTC"), &m, &user).is_some());
    let no_birthday = User { id: 2, birthday: None };
    assert_eq!(should_congratulate_checked(&guild("UTC"), &m, &no_birthday), Some(false));
}
