//! The last known good address of the API, and what is to be kept of it on
//! disk. The file itself is read and written by the caller.

use crate::address::Endpoint;
use vstd::prelude::*;

verus! {

/// Why the cache file could not be used.
#[derive(Clone, Copy, Debug, PartialEq, Eq, Structural)]
pub enum Error {
    /// The file could not be opened.
    Open,
    /// The file could not be read.
    Read,
    /// The file does not hold an address.
    Parse,
    /// The file could not be updated.
    Write,
}

/// `c` with an ASCII capital letter turned into its small letter.
pub open spec fn ascii_lower(c: char) -> char {
    if 'A' <= c && c <= 'Z' {
        ((c as u8 + 32) as u8) as char
    } else {
        c
    }
}

/// `s` with its ASCII capital letters turned into small letters.
pub open spec fn ascii_lowercase(s: Seq<char>) -> Seq<char> {
    Seq::new(s.len(), |i: int| ascii_lower(s[i]))
}

/// `str::eq_ignore_ascii_case` compares two strings as
/// `to_ascii_lowercase` of each would compare: ASCII letters match without
/// regard to case, every other character only itself.
pub assume_specification[ str::eq_ignore_ascii_case ](a: &str, b: &str) -> (same: bool)
    ensures
        same == (ascii_lowercase(a@) == ascii_lowercase(b@)),
;

/// The address of the API host, and whether changes of it are kept on disk.
#[derive(Clone, Debug)]
pub struct AddressCache {
    hostname: String,
    address: Endpoint,
    persistent: bool,
}

impl AddressCache {
    /// The name of the host whose address this is.
    pub closed spec fn hostname(self) -> Seq<char> {
        self.hostname@
    }

    /// The address that is selected now.
    pub closed spec fn address(self) -> Endpoint {
        self.address
    }

    /// Whether changes of the address are to be written to a file.
    pub closed spec fn persistent(self) -> bool {
        self.persistent
    }

    /// The line that the cache file holds for `address`.
    pub open spec fn file_contents(address: Endpoint) -> Seq<char> {
        address.text().push('\n')
    }

    /// A cache that starts with `address` for the host `hostname`.
    pub fn new(address: Endpoint, hostname: String, persistent: bool) -> (cache: Self)
        ensures
            cache.address() == address,
            cache.hostname() == hostname@,
            cache.persistent() == persistent,
    {
        AddressCache { hostname, address, persistent }
    }

    /// A cache that starts with the address that was read from a file, if
    /// one was read.
    pub fn from_file(read: Result<Endpoint, Error>, hostname: String, persistent: bool) -> (made:
        Result<Self, Error>)
        ensures
            match (read, made) {
                (Ok(address), Ok(cache)) => cache.address() == address && cache.hostname()
                    == hostname@ && cache.persistent() == persistent,
                (Err(error), Err(same)) => same == error,
                _ => false,
            },
    {
        match read {
            Ok(address) => Ok(AddressCache::new(address, hostname, persistent)),
            Err(error) => Err(error),
        }
    }

    /// The address, where `hostname` is the name of the host apart from
    /// the case of ASCII letters.
    pub fn resolve_hostname(&self, hostname: &str) -> (found: Option<Endpoint>)
        ensures
            found == if ascii_lowercase(hostname@) == ascii_lowercase(self.hostname()) {
                Some(self.address())
            } else {
                None
            },
    {
        if hostname.eq_ignore_ascii_case(self.hostname.as_str()) {
            Some(self.get_address())
        } else {
            None
        }
    }

    /// The address that is selected now.
    pub fn get_address(&self) -> (address: Endpoint)
        ensures
            address == self.address(),
    {
        self.address
    }

    /// What is to be written to the cache file before `address` is
    /// selected: a line with its text, or nothing where the address is the
    /// selected one already or no file is kept.
    pub fn save_to_disk(&self, address: &Endpoint) -> (contents: Option<String>)
        ensures
            match contents {
                Some(line) => self.persistent() && *address != self.address() && line@
                    == Self::file_contents(*address),
                None => !self.persistent() || *address == self.address(),
            },
    {
        if !self.persistent || *address == self.address {
            None
        } else {
            let mut contents = address.to_text();
            contents.push('\n');
            Some(contents)
        }
    }

    /// Selects `address`, given what came of writing the file where
    /// `save_to_disk` asked for it. An address that is selected already
    /// stays, whatever `saved` says; where the file could not be written
    /// the address stays as it was and the failure is handed on.
    pub fn set_address(&mut self, address: Endpoint, saved: Result<(), Error>) -> (result:
        Result<(), Error>)
        ensures
            final(self).hostname() == old(self).hostname(),
            final(self).persistent() == old(self).persistent(),
            result == if address == old(self).address() {
                Ok::<(), Error>(())
            } else {
                saved
            },
            final(self).address() == if result is Ok {
                address
            } else {
                old(self).address()
            },
    {
        if address != self.address {
            if saved.is_ok() {
                self.address = address;
            }
            saved
        } else {
            Ok(())
        }
    }
}

} // verus!
