//! Storage of connection profiles.  The library only states the capability;
//! an implementation (for instance one that keeps profiles as files) lives
//! with the program that embeds the library.

use vstd::prelude::*;
use crate::connection::Connection;

verus! {

/// A store of connection profiles and of the active-connection marker.
///
/// Implementations perform input and output and are not verified; the
/// library never promises anything about their results.
pub trait TenguRepository {
    /// Stores a new profile under its name.
    fn insert(&self, connection: &Connection);

    /// Replaces the stored profile of the same name.
    fn update(&self, connection: &Connection);

    /// Removes the profile of that name.
    fn delete(&self, name: String);

    /// Marks this profile as the active connection.
    fn activate_connection(&mut self, connection: &Connection);

    /// Where the active-connection marker lives, for a watcher to observe.
    fn active_connection_path(&self) -> String;

    /// The active profile, if one is stored and readable.
    fn get_active_connection(&self) -> Option<Connection>;

    /// Every stored profile.
    fn list(&self) -> Vec<Connection>;
}

} // verus!
