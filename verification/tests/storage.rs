use schizoid::commands::{
    check_attachment_size, find_personal_role, parse_hex_color, personal_role_name, timezone_to_store,
};
use schizoid::config::{
    default_enabled, default_ping_interval_ms, default_ping_timeout_ms, Config,
    MinecraftServerPingConfig,
};
use schizoid::environment_variable_not_set_error;
use schizoid::storage::{
    removal_outcome, File, FileLookup, RemovalResult, Storage, CONGRATULATIONS_DIR, GREETINGS_DIR,
};
use schizoid::text::ParseIntError;

#[test]
fn directory_layout() {
    let s = Storage::new("./assets");
    assert_eq!(s.guild_dir_path(GREETINGS_DIR, 12), vec!["./assets", "greetings", "12"]);
    assert_eq!(
        s.member_dir_path(CONGRATULATIONS_DIR, 12, 34),
        vec!["./assets", "birthday_congratulations", "12", "34"]
    );
    assert_eq!(s.member_greeting_dir(1, 2, true), vec!["./assets", "greetings", "1", "2"]);
    assert_eq!(s.member_greeting_dir(1, 2, false), vec!["./assets", "greetings", "1"]);
    assert_eq!(s.root_dir_path(), "./assets");
}

#[test]
fn removal_reports() {
    assert_eq!(removal_outcome(FileLookup::Found), Some(RemovalResult::Existed));
    assert_eq!(removal_outcome(FileLookup::NotFound), Some(RemovalResult::DidNotExist));
    assert_eq!(removal_outcome(FileLookup::Failed), None);
}

#[test]
fn files() {
    let f = File::new("a.mp3", vec![1, 2, 3]);
    assert_eq!(f.get_name(), "a.mp3");
    assert_eq!(f.get_contents(), &vec![1, 2, 3]);
}

#[test]
fn hex_colors() {
    assert_eq!(parse_hex_color("#ff8800"), Ok(0xff8800));
    assert_eq!(parse_hex_color("0xFF8800"), Ok(0xff8800));
    assert_eq!(parse_hex_color("0XfF"), Ok(0xff));
    assert_eq!(parse_hex_color("ff8800"), Ok(0xff8800));
    assert_eq!(parse_hex_color("#0x0Xab"), Ok(0xab));
    assert_eq!(parse_hex_color("0X0xab"), Err(ParseIntError::InvalidDigit));
    assert_eq!(parse_hex_color("##1"), Err(ParseIntError::InvalidDigit));
    assert_eq!(parse_hex_color(""), Err(ParseIntError::Empty));
    assert_eq!(parse_hex_color("#"), Err(ParseIntError::Empty));
    assert_eq!(parse_hex_color("zz"), Err(ParseIntError::InvalidDigit));
    assert_eq!(parse_hex_color("1ffffffff"), Err(ParseIntError::PosOverflow));
    assert_eq!(parse_hex_color("+fe"), Ok(0xfe));
}

#[test]
fn attachment_limit() {
    assert!(check_attachment_size(10, 10).is_ok());
    assert!(check_attachment_size(11, 10).is_err());
    assert!(check_attachment_size(u32::MAX, u64::MAX).is_ok());
    assert_eq!(
        check_attachment_size(1, 0).unwrap_err().message(),
        "The attachment size is bigger than configured maximum!"
    );
}

#[test]
fn config_defaults_and_storage() {
    assert!(!default_enabled());
    assert_eq!(default_ping_timeout_ms(), 5_000);
    assert_eq!(default_ping_interval_ms(), 10_000);
    let c = Config {
        file_storage_path: "/srv/audio".to_string(),
        max_attachment_size: 10_000_000,
        max_attachment_count: 100,
        minecraft_server_ping: MinecraftServerPingConfig { enabled: false, ping_timeout_ms: 1, ping_interval_ms: 2 },
    };
    assert_eq!(c.storage().root_dir_path(), "/srv/audio");
    assert_eq!(environment_variable_not_set_error("DISCORD_TOKEN"), "DISCORD_TOKEN environment variable not set");
}

#[test]
fn formatted_colors_read_back() {
    for c in [0u32, 1, 0xab, 0xff8800, 0x00ff00, 0xffffff, u32::MAX] {
        assert_eq!(parse_hex_color(&format!("#{:06X}", c)), Ok(c));
        assert_eq!(parse_hex_color(&format!("0x{:x}", c)), Ok(c));
        assert_eq!(parse_hex_color(&format!("{:x}", c)), Ok(c));
        assert_eq!(parse_hex_color(&format!("#0X{:08x}", c)), Ok(c));
    }
}

#[test]
fn timezone_names_are_stored_as_given() {
    assert_eq!(timezone_to_store("Europe/Berlin"), Some("Europe/Berlin".to_string()));
    assert_eq!(timezone_to_store("UTC"), Some("UTC".to_string()));
    assert_eq!(timezone_to_store("Mars/Olympus"), None);
    assert_eq!(timezone_to_store(""), None);
    assert_eq!(timezone_to_store("europe/berlin"), None);
}

#[test]
fn personal_roles_are_named_by_user_id() {
    assert_eq!(personal_role_name(1234567890123), "1234567890123");
    assert_eq!(personal_role_name(0), "0");
    let roles = vec!["admin".to_string(), "42".to_string(), "7".to_string(), "42".to_string()];
    assert_eq!(find_personal_role(&roles, 42), Some(1));
    assert_eq!(find_personal_role(&roles, 7), Some(2));
    assert_eq!(find_personal_role(&roles, 8), None);
    assert_eq!(find_personal_role(&vec![], 8), None);
}
