//! When the bot greets a member who joins a voice channel, or congratulates them on their
//! birthday.
use crate::calendar::{
    is_known_zone,
    Timestamp, secs_in_range, utc_now, utc_year, utc_year_of, lemma_utc_year_unique, zoned_date, zoned_date_of,
};
use crate::database::{Guild, Member, MonthDayDate, User};
use crate::storage::{
    CONGRATULATIONS_DIR, GREETINGS_DIR, Storage, guild_dir_spec, member_dir_spec, views,
};
use vstd::prelude::*;

verus! {

/// Handler for greeting and congratulating on birthdays.
pub struct GreetingBirthdayHandler;

/// What the bot plays to a member who joins.
#[derive(Debug, Clone, Copy, PartialEq, Eq, Structural)]
pub enum Strategy {
    Greeting,
    Congratulation,
}

/// Where a voice state update asks the bot to go.
#[derive(Debug, Clone, Copy, PartialEq, Eq, Structural)]
pub struct VoiceJoin {
    pub guild_id: u64,
    pub channel_id: u64,
    pub user_id: u64,
}

/// The join a voice state update reports, if the bot should react to it: only a user
/// (not the bot) who was in no voice channel before and is now in a channel of a guild.
pub fn greeting_target(
    had_old_state: bool,
    bot_id: u64,
    user_id: u64,
    channel_id: Option<u64>,
    guild_id: Option<u64>,
) -> (r: Option<VoiceJoin>)
    ensures
        r == (if had_old_state || bot_id == user_id || channel_id is None || guild_id is None {
            None
        } else {
            Some(VoiceJoin { guild_id: guild_id->0, channel_id: channel_id->0, user_id })
        }),
{
    if had_old_state {
        return None;
    }
    if bot_id == user_id {
        return None;
    }
    let channel_id: u64 = match channel_id {
        Some(c) => c,
        None => return None,
    };
    let guild_id: u64 = match guild_id {
        Some(g) => g,
        None => return None,
    };
    Some(VoiceJoin { guild_id, channel_id, user_id })
}

/// A birthday congratulation goes before a greeting; neither, nothing is played.
pub fn choose_strategy(should_greet: bool, should_congratulate: bool) -> (r: Option<Strategy>)
    ensures
        r == (if should_congratulate {
            Some(Strategy::Congratulation)
        } else if should_greet {
            Some(Strategy::Greeting)
        } else {
            None
        }),
{
    match (should_greet, should_congratulate) {
        (_, true) => Some(Strategy::Congratulation),
        (true, false) => Some(Strategy::Greeting),
        (false, false) => None,
    }
}

/// The directory whose file is played to a joining member: the guild's congratulation for
/// a birthday; for a greeting, the member's own if they set one (their directory exists),
/// otherwise the guild's greeting.
pub fn audio_dir_for(
    storage: &Storage,
    strategy: Strategy,
    guild_id: u64,
    user_id: u64,
    member_dir_exists: bool,
) -> (r: Vec<String>)
    ensures
        strategy == Strategy::Congratulation ==> views(r@) == guild_dir_spec(
            storage.root(),
            CONGRATULATIONS_DIR@,
            guild_id,
        ),
        strategy == Strategy::Greeting && member_dir_exists ==> views(r@) == member_dir_spec(
            storage.root(),
            GREETINGS_DIR@,
            guild_id,
            user_id,
        ),
        strategy == Strategy::Greeting && !member_dir_exists ==> views(r@) == guild_dir_spec(
            storage.root(),
            GREETINGS_DIR@,
            guild_id,
        ),
{
    match strategy {
        Strategy::Congratulation => storage.guild_dir_path(CONGRATULATIONS_DIR, guild_id),
        Strategy::Greeting => storage.member_greeting_dir(guild_id, user_id, member_dir_exists),
    }
}

/// The instant `interval` seconds after `t` lies in `chrono`'s range.
pub open spec fn shift_in_range(t: Timestamp, interval: i64) -> bool {
    secs_in_range(t.secs + interval)
}

/// What `should_greet_at` decides: greetings are on for the guild and the member, and the
/// member was never greeted, or the interval has passed since (strictly).
pub open spec fn greet_spec(guild: Guild, member: Member, now: Timestamp) -> bool {
    &&& guild.greeting_enabled
    &&& member.greeting_enabled
    &&& match member.last_greeting {
        None => true,
        Some(last) => last.total_nanos() + guild.greeting_interval * 1_000_000_000
            < now.total_nanos(),
    }
}

/// The inputs on which the greeting decision is defined: `chrono` panics when the moment
/// the interval ends lies out of its range.
pub open spec fn greet_defined(guild: Guild, member: Member) -> bool {
    &&& guild.wf()
    &&& member.last_greeting matches Some(last) ==> last.wf()
    &&& guild.greeting_enabled && member.greeting_enabled && member.last_greeting is Some
        ==> shift_in_range(member.last_greeting->0, guild.greeting_interval)
}

/// Whether a member who joins at `now` is due a greeting.
pub fn should_greet_at(guild: &Guild, member: &Member, now: Timestamp) -> (r: bool)
    requires
        greet_defined(*guild, *member),
        now.wf(),
    ensures
        r == greet_spec(*guild, *member, now),
{
    if !(guild.greeting_enabled && member.greeting_enabled) {
        return false;
    }
    match member.last_greeting {
        None => true,
        Some(last) => {
            let due_secs: i64 = last.secs + guild.greeting_interval;
            due_secs < now.secs || (due_secs == now.secs && last.nanos < now.nanos)
        },
    }
}

/// Whether a member who joins now is due a greeting, by the current time.
pub fn should_greet(guild: &Guild, member: &Member) -> (r: bool)
    requires
        greet_defined(*guild, *member),
    ensures
        exists|now: Timestamp| now.wf() && r == greet_spec(*guild, *member, now),
{
    let now = utc_now();
    should_greet_at(guild, member, now)
}

/// What `should_congratulate_at` decides: congratulations are on for the guild, the user's
/// birthday is today's date in the guild's zone, and the member was never congratulated,
/// or last in an earlier year (the year of that moment in UTC, against today's local year).
pub open spec fn congratulate_spec(guild: Guild, member: Member, user: User, now: Timestamp) -> bool {
    let today = zoned_date_of(now.secs, now.nanos, guild.timezone@);
    &&& guild.birthday_enabled
    &&& user.birthday matches Some(b) && b == MonthDayDate { month: today.1, day: today.2 }
    &&& match member.last_birthday_congratulation {
        None => true,
        Some(last) => utc_year_of(last.secs as int) < today.0,
    }
}

/// Whether a member who joins at `now` is due a birthday congratulation.
pub fn should_congratulate_at(guild: &Guild, member: &Member, user: &User, now: Timestamp) -> (r: bool)
    requires
        guild.wf(),
        now.wf(),
        member.last_birthday_congratulation matches Some(last) ==> last.wf(),
    ensures
        r == congratulate_spec(*guild, *member, *user, now),
{
    if !guild.birthday_enabled {
        return false;
    }
    let birthday = match user.birthday {
        Some(b) => b,
        None => return false,
    };
    let (year, month, day): (i32, u32, u32) = zoned_date(now, guild.timezone.as_str());
    let today_date = MonthDayDate { month, day };
    if !(birthday.month == today_date.month && birthday.day == today_date.day) {
        return false;
    }
    match member.last_birthday_congratulation {
        None => true,
        Some(last) => {
            let last_year: i32 = utc_year(last);
            proof {
                lemma_utc_year_unique(last.secs as int, last_year as int);
            }
            last_year < year
        },
    }
}

/// Whether a member who joins now is due a birthday congratulation, by the current time.
pub fn should_congratulate(guild: &Guild, member: &Member, user: &User) -> (r: bool)
    requires
        guild.wf(),
        member.last_birthday_congratulation matches Some(last) ==> last.wf(),
    ensures
        exists|now: Timestamp| now.wf() && r == congratulate_spec(*guild, *member, *user, now),
{
    let now = utc_now();
    should_congratulate_at(guild, member, user, now)
}

impl Member {
    /// Notes that the member was greeted at `now` (done after every greeting or
    /// congratulation).
    pub fn record_greeting(&mut self, now: Timestamp)
        ensures
            *final(self) == (Member { last_greeting: Some(now), ..*old(self) }),
    {
        self.last_greeting = Some(now);
    }

    /// Notes what was played to the member at `now`: the greeting time is updated either
    /// way, even when the member was congratulated; the congratulation time only then.
    pub fn record_played(&mut self, strategy: Strategy, now: Timestamp)
        ensures
            final(self).last_greeting == Some(now),
            final(self).last_birthday_congratulation == (if strategy == Strategy::Congratulation {
                Some(now)
            } else {
                old(self).last_birthday_congratulation
            }),
            final(self).user_id == old(self).user_id,
            final(self).guild_id == old(self).guild_id,
            final(self).greeting_enabled == old(self).greeting_enabled,
    {
        self.record_greeting(now);
        if strategy == Strategy::Congratulation {
            self.record_birthday_congratulation(now);
        }
    }

    /// Notes that the member was congratulated at `now`.
    pub fn record_birthday_congratulation(&mut self, now: Timestamp)
        ensures
            *final(self) == (Member { last_birthday_congratulation: Some(now), ..*old(self) }),
    {
        self.last_birthday_congratulation = Some(now);
    }
}

/// Whether `t` is an instant `chrono` can represent.
fn timestamp_valid(t: Timestamp) -> (r: bool)
    ensures
        r == t.wf(),
{
    t.nanos < 1_000_000_000 && crate::calendar::MIN_TIMESTAMP_SECS <= t.secs && t.secs
        <= crate::calendar::MAX_TIMESTAMP_SECS
}

/// `should_congratulate` on a guild and member that may not be valid: `None` where the
/// guild is not (a zero id, an interval `chrono` cannot hold, or a zone `chrono_tz` does
/// not know) or the last congratulation lies outside `chrono`'s range.
pub fn should_congratulate_checked(guild: &Guild, member: &Member, user: &User) -> (r: Option<bool>)
    ensures
        r is None <==> !(guild.wf() && (member.last_birthday_congratulation matches Some(last)
            ==> last.wf())),
        r matches Some(b) ==> exists|now: Timestamp| now.wf() && b == congratulate_spec(*guild, *member, *user, now),
{
    let interval_ok = -crate::database::MAX_INTERVAL_SECS <= guild.greeting_interval
        && guild.greeting_interval <= crate::database::MAX_INTERVAL_SECS;
    if guild.id == 0 || !interval_ok || !is_known_zone(guild.timezone.as_str()) {
        return None;
    }
    if let Some(last) = member.last_birthday_congratulation {
        if !timestamp_valid(last) {
            return None;
        }
    }
    Some(should_congratulate(guild, member, user))
}

/// A member greeted at `now` is not greeted again at that instant, nor until the guild's
/// interval (if not negative) has passed.
pub proof fn lemma_no_greeting_within_interval(guild: Guild, member: Member, now: Timestamp, later: Timestamp)
    requires
        guild.greeting_interval >= 0,
        member.last_greeting == Some(now),
        later.total_nanos() <= now.total_nanos() + guild.greeting_interval * 1_000_000_000,
    ensures
        !greet_spec(guild, member, later),
{
}

/// A member congratulated at a moment whose UTC year is not before today's local year is
/// not congratulated again today.
pub proof fn lemma_congratulated_once_per_year(guild: Guild, member: Member, user: User, now: Timestamp)
    requires
        member.last_birthday_congratulation matches Some(last) && utc_year_of(last.secs as int)
            >= zoned_date_of(now.secs, now.nanos, guild.timezone@).0,
    ensures
        !congratulate_spec(guild, member, user, now),
{
}

/// Whatever the time, no greeting is due where greetings are off for the guild or the
/// member, and no congratulation where congratulations are off or no birthday is known.
pub proof fn lemma_disabled_means_silent(guild: Guild, member: Member, user: User, now: Timestamp)
    ensures
        !guild.greeting_enabled || !member.greeting_enabled ==> !greet_spec(guild, member, now),
        !guild.birthday_enabled || user.birthday is None ==> !congratulate_spec(guild, member, user, now),
{
}

/// A birthday congratulation is due exactly on the user's birthday: whenever one is due,
/// the user's birthday has the month and the day of today's local date in the guild's zone.
/// Conversely, with congratulations on and a member never congratulated, one is due on that
/// date.
pub proof fn lemma_congratulated_only_on_birthday(guild: Guild, member: Member, user: User, now: Timestamp)
    ensures
        ({
            let today = zoned_date_of(now.secs, now.nanos, guild.timezone@);
            &&& congratulate_spec(guild, member, user, now) ==> (user.birthday is Some
                && user.birthday->0.month == today.1 && user.birthday->0.day == today.2)
            &&& (guild.birthday_enabled && member.last_birthday_congratulation is None
                && user.birthday is Some && user.birthday->0.month == today.1
                && user.birthday->0.day == today.2) ==> congratulate_spec(guild, member, user, now)
        }),
{
}

/// The greeting decision does not look at birthday congratulations: two guilds that differ
/// only in that setting decide alike. With greetings on for the guild and the member, a
/// member never greeted is greeted.
pub proof fn lemma_greeting_ignores_birthdays(guild: Guild, member: Member, now: Timestamp, birthday_enabled: bool)
    ensures
        greet_spec(guild, member, now) == greet_spec(
            Guild { birthday_enabled, ..guild },
            member,
            now,
        ),
        guild.greeting_enabled && member.greeting_enabled && member.last_greeting is None
            ==> greet_spec(guild, member, now),
{
}

} // verus!
