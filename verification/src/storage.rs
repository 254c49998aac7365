//! Where custom audio files live: one directory per guild, and per member, under a root.
use crate::text::{decimal, u64_to_decimal};
use vstd::prelude::*;

verus! {

/// Subdirectory of greetings.
pub const GREETINGS_DIR: &'static str = "greetings";
/// Subdirectory of birthday congratulations.
pub const CONGRATULATIONS_DIR: &'static str = "birthday_congratulations";

/// The file store, rooted at a directory.
pub struct Storage<'a> {
    root_dir_path: &'a str,
}

/// An uploaded file: its name and bytes.
#[derive(Debug, Clone)]
pub struct File<'a> {
    name: &'a str,
    contents: Vec<u8>,
}

/// Whether a removed file was there.
#[derive(Debug, Clone, Copy, PartialEq, Eq, Structural)]
pub enum RemovalResult {
    Existed,
    DidNotExist,
}

/// What looking for the file in a directory found.
#[derive(Debug, Clone, Copy, PartialEq, Eq, Structural)]
pub enum FileLookup {
    /// The directory holds a file.
    Found,
    /// The directory or its file is missing.
    NotFound,
    /// The lookup failed otherwise.
    Failed,
}

/// What removing a directory reports, given what was found in it: whether a file was
/// there, or `None` when the lookup failed (the failure is passed on and nothing removed).
pub fn removal_outcome(lookup: FileLookup) -> (r: Option<RemovalResult>)
    ensures
        r == (match lookup {
            FileLookup::Found => Some(RemovalResult::Existed),
            FileLookup::NotFound => Some(RemovalResult::DidNotExist),
            FileLookup::Failed => None::<RemovalResult>,
        }),
{
    match lookup {
        FileLookup::Found => Some(RemovalResult::Existed),
        FileLookup::NotFound => Some(RemovalResult::DidNotExist),
        FileLookup::Failed => None,
    }
}

impl<'a> File<'a> {
    pub fn new(name: &'a str, contents: Vec<u8>) -> (r: Self)
        ensures
            r.name() == name@,
            r.contents() == contents@,
    {
        File { name, contents }
    }

    pub closed spec fn name(&self) -> Seq<char> {
        self.name@
    }

    pub closed spec fn contents(&self) -> Seq<u8> {
        self.contents@
    }

    /// The file's name.
    pub fn get_name(&self) -> (r: &'a str)
        ensures
            r@ == self.name(),
    {
        self.name
    }

    /// The file's bytes.
    pub fn get_contents(&self) -> (r: &Vec<u8>)
        ensures
            r@ == self.contents(),
    {
        &self.contents
    }
}

/// The path components of a guild's directory.
pub open spec fn guild_dir_spec(root: Seq<char>, subdir: Seq<char>, guild_id: u64) -> Seq<Seq<char>> {
    seq![root, subdir, decimal(guild_id as nat)]
}

/// The path components of a member's directory.
pub open spec fn member_dir_spec(root: Seq<char>, subdir: Seq<char>, guild_id: u64, user_id: u64) -> Seq<Seq<char>> {
    seq![root, subdir, decimal(guild_id as nat), decimal(user_id as nat)]
}

/// The strings' views.
pub open spec fn views(parts: Seq<String>) -> Seq<Seq<char>> {
    parts.map_values(|p: String| p@)
}

impl<'a> Storage<'a> {
    pub fn new(root_dir_path: &'a str) -> (r: Self)
        ensures
            r.root() == root_dir_path@,
    {
        Storage { root_dir_path }
    }

    /// The root directory.
    pub closed spec fn root(&self) -> Seq<char> {
        self.root_dir_path@
    }

    /// The root directory.
    pub fn root_dir_path(&self) -> (r: &'a str)
        ensures
            r@ == self.root(),
    {
        self.root_dir_path
    }

    /// The components of `root/subdir/guild_id`, joined into a path by the caller.
    pub fn guild_dir_path(&self, subdir: &str, guild_id: u64) -> (r: Vec<String>)
        ensures
            views(r@) == guild_dir_spec(self.root(), subdir@, guild_id),
    {
        let mut parts: Vec<String> = Vec::new();
        parts.push(String::from_str(self.root_dir_path));
        parts.push(String::from_str(subdir));
        parts.push(u64_to_decimal(guild_id));
        assert(views(parts@) =~= guild_dir_spec(self.root(), subdir@, guild_id));
        parts
    }

    /// The components of `root/subdir/guild_id/user_id`, joined into a path by the caller.
    pub fn member_dir_path(&self, subdir: &str, guild_id: u64, user_id: u64) -> (r: Vec<String>)
        ensures
            views(r@) == member_dir_spec(self.root(), subdir@, guild_id, user_id),
    {
        let mut parts: Vec<String> = Vec::new();
        parts.push(String::from_str(self.root_dir_path));
        parts.push(String::from_str(subdir));
        parts.push(u64_to_decimal(guild_id));
        parts.push(u64_to_decimal(user_id));
        assert(views(parts@) =~= member_dir_spec(self.root(), subdir@, guild_id, user_id));
        parts
    }

    /// Where a member's greeting is read from: their own directory if it exists, otherwise
    /// the guild's greeting directory (the guild greeting is the default for members who
    /// set none of their own).
    pub fn member_greeting_dir(&self, guild_id: u64, user_id: u64, member_dir_exists: bool) -> (r: Vec<String>)
        ensures
            member_dir_exists ==> views(r@) == member_dir_spec(self.root(), GREETINGS_DIR@, guild_id, user_id),
            !member_dir_exists ==> views(r@) == guild_dir_spec(self.root(), GREETINGS_DIR@, guild_id),
    {
        if member_dir_exists {
            self.member_dir_path(GREETINGS_DIR, guild_id, user_id)
        } else {
            self.guild_dir_path(GREETINGS_DIR, guild_id)
        }
    }
}

} // verus!
