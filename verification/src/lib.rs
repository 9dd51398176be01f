//! Key issuance, hashing and journal logic of the keygen tool.
//!
//! - [`text`]: decimal and hexadecimal rendering, replacement, ASCII
//!   case-insensitive comparison, and the UTF-8 and case conversions used.
//! - [`hashers`]: hash algorithms, the built-in SHA-256 hasher and the
//!   handling of external hashing commands.
//! - [`config`]: the hasher configuration and how it becomes hashers.
//! - [`crypto`]: the master key and AES-256-GCM encryption of stored keys.
//! - [`db`]: the key journal, its decisions and its invariant.
//! - [`formatter`]: rendering the journal.
//! - [`keys`]: generating keys and checking hashers against each other.
//! - [`files`], [`output`]: file requirements and output destinations.

pub mod config;
pub mod crypto;
pub mod db;
pub mod files;
pub mod formatter;
pub mod hashers;
pub mod keys;
pub mod output;
pub mod text;
