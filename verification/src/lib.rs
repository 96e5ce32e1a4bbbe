//! Generation and textual rendering of RFC 9562 UUIDs: version 1 (time
//! based), version 3 (MD5 name based) and version 4 (random).

pub mod hex;
pub mod buffer;
pub mod clock;
pub mod error;
pub mod random;
pub mod v1;
pub mod hashing;
pub mod layout;
pub mod v3;
pub mod v4;
