use vstd::prelude::*;

use crate::text::str_equal;

verus! {

/// Number of keys in the vocabulary.
pub const KEY_COUNT: usize = 9;

/// The closed vocabulary of configuration attributes the editor understands.
#[derive(Clone, Copy, PartialEq, Eq, Structural, Hash, Debug)]
pub enum Key {
    HostName,
    User,
    IdentityFile,
    IdentitiesOnly,
    LogLevel,
    Port,
    UserKnownHostsFile,
    PasswordAuthentication,
    StrictHostKeyChecking,
}

/// The key named `s`, if the vocabulary has one.
pub open spec fn key_named(s: Seq<char>) -> Option<Key> {
    if s == "HostName"@ {
        Some(Key::HostName)
    } else if s == "User"@ {
        Some(Key::User)
    } else if s == "IdentityFile"@ {
        Some(Key::IdentityFile)
    } else if s == "IdentitiesOnly"@ {
        Some(Key::IdentitiesOnly)
    } else if s == "LogLevel"@ {
        Some(Key::LogLevel)
    } else if s == "Port"@ {
        Some(Key::Port)
    } else if s == "UserKnownHostsFile"@ {
        Some(Key::UserKnownHostsFile)
    } else if s == "PasswordAuthentication"@ {
        Some(Key::PasswordAuthentication)
    } else if s == "StrictHostKeyChecking"@ {
        Some(Key::StrictHostKeyChecking)
    } else {
        None
    }
}

/// The key at position `i` of the canonical order.
pub open spec fn key_at(i: int) -> Key {
    if i == 0 {
        Key::HostName
    } else if i == 1 {
        Key::User
    } else if i == 2 {
        Key::IdentityFile
    } else if i == 3 {
        Key::IdentitiesOnly
    } else if i == 4 {
        Key::LogLevel
    } else if i == 5 {
        Key::Port
    } else if i == 6 {
        Key::UserKnownHostsFile
    } else if i == 7 {
        Key::PasswordAuthentication
    } else {
        Key::StrictHostKeyChecking
    }
}

impl Key {
    /// Position of the key in the canonical order.
    pub open spec fn index_of(self) -> int {
        match self {
            Key::HostName => 0,
            Key::User => 1,
            Key::IdentityFile => 2,
            Key::IdentitiesOnly => 3,
            Key::LogLevel => 4,
            Key::Port => 5,
            Key::UserKnownHostsFile => 6,
            Key::PasswordAuthentication => 7,
            Key::StrictHostKeyChecking => 8,
        }
    }

    /// The key's name as written in a configuration file.
    pub open spec fn name(self) -> Seq<char> {
        match self {
            Key::HostName => "HostName"@,
            Key::User => "User"@,
            Key::IdentityFile => "IdentityFile"@,
            Key::IdentitiesOnly => "IdentitiesOnly"@,
            Key::LogLevel => "LogLevel"@,
            Key::Port => "Port"@,
            Key::UserKnownHostsFile => "UserKnownHostsFile"@,
            Key::PasswordAuthentication => "PasswordAuthentication"@,
            Key::StrictHostKeyChecking => "StrictHostKeyChecking"@,
        }
    }

    /// Position of the key in the canonical order.
    pub fn index(&self) -> (r: usize)
        ensures
            r as int == self.index_of(),
            r < KEY_COUNT,
    {
        match self {
            Key::HostName => 0,
            Key::User => 1,
            Key::IdentityFile => 2,
            Key::IdentitiesOnly => 3,
            Key::LogLevel => 4,
            Key::Port => 5,
            Key::UserKnownHostsFile => 6,
            Key::PasswordAuthentication => 7,
            Key::StrictHostKeyChecking => 8,
        }
    }

    /// The key at position `i` of the canonical order.
    pub fn at(i: usize) -> (r: Key)
        requires
            i < KEY_COUNT,
        ensures
            r == key_at(i as int),
            r.index_of() == i,
    {
        if i == 0 {
            Key::HostName
        } else if i == 1 {
            Key::User
        } else if i == 2 {
            Key::IdentityFile
        } else if i == 3 {
            Key::IdentitiesOnly
        } else if i == 4 {
            Key::LogLevel
        } else if i == 5 {
            Key::Port
        } else if i == 6 {
            Key::UserKnownHostsFile
        } else if i == 7 {
            Key::PasswordAuthentication
        } else {
            Key::StrictHostKeyChecking
        }
    }

    /// The key's name as written in a configuration file.
    pub fn str(&self) -> (r: &'static str)
        ensures
            r@ == self.name(),
    {
        match self {
            Key::HostName => "HostName",
            Key::User => "User",
            Key::IdentityFile => "IdentityFile",
            Key::IdentitiesOnly => "IdentitiesOnly",
            Key::LogLevel => "LogLevel",
            Key::Port => "Port",
            Key::UserKnownHostsFile => "UserKnownHostsFile",
            Key::PasswordAuthentication => "PasswordAuthentication",
            Key::StrictHostKeyChecking => "StrictHostKeyChecking",
        }
    }
}

impl Key {
    /// The key whose name is `s`; names are compared case-sensitively.
    pub fn from_name(s: &str) -> (r: Option<Key>)
        ensures
            r == key_named(s@),
    {
        if str_equal(s, "HostName") {
            Some(Key::HostName)
        } else if str_equal(s, "User") {
            Some(Key::User)
        } else if str_equal(s, "IdentityFile") {
            Some(Key::IdentityFile)
        } else if str_equal(s, "IdentitiesOnly") {
            Some(Key::IdentitiesOnly)
        } else if str_equal(s, "LogLevel") {
            Some(Key::LogLevel)
        } else if str_equal(s, "Port") {
            Some(Key::Port)
        } else if str_equal(s, "UserKnownHostsFile") {
            Some(Key::UserKnownHostsFile)
        } else if str_equal(s, "PasswordAuthentication") {
            Some(Key::PasswordAuthentication)
        } else if str_equal(s, "StrictHostKeyChecking") {
            Some(Key::StrictHostKeyChecking)
        } else {
            None
        }
    }
}

/// Every key is found again from its name.
pub proof fn lemma_key_named(k: Key)
    ensures
        key_named(k.name()) == Some(k),
{
    reveal_strlit("HostName");
    reveal_strlit("User");
    reveal_strlit("IdentityFile");
    reveal_strlit("IdentitiesOnly");
    reveal_strlit("LogLevel");
    reveal_strlit("Port");
    reveal_strlit("UserKnownHostsFile");
    reveal_strlit("PasswordAuthentication");
    reveal_strlit("StrictHostKeyChecking");
    let n = k.name();
    if n == "User"@ || n == "IdentityFile"@ || n == "IdentitiesOnly"@ {
        assert(n[0] != "HostName"@[0]);
    }
    if n == "IdentitiesOnly"@ {
        assert(n[8] != "IdentityFile"@[8]);
    }
    if n == "Port"@ {
        assert(n[0] != "User"@[0]);
    }
    if n == "UserKnownHostsFile"@ || n == "PasswordAuthentication"@ || n == "StrictHostKeyChecking"@ {
        assert(n.len() != "HostName"@.len());
        assert(n.len() != "User"@.len());
        assert(n.len() != "IdentityFile"@.len());
        assert(n.len() != "IdentitiesOnly"@.len());
        assert(n.len() != "LogLevel"@.len());
        assert(n.len() != "Port"@.len());
    }
    if n == "PasswordAuthentication"@ {
        assert(n.len() != "UserKnownHostsFile"@.len());
    }
    if n == "StrictHostKeyChecking"@ {
        assert(n.len() != "UserKnownHostsFile"@.len());
        assert(n.len() != "PasswordAuthentication"@.len());
    }
    if n == "LogLevel"@ {
        assert(n[0] != "HostName"@[0]);
        assert(n.len() != "User"@.len());
    }
}

/// What a host record holds: its host pattern and a value for each key present.
pub struct RecordView {
    pub host: Seq<char>,
    pub fields: Map<Key, Seq<char>>,
}

/// One `Host` block: a host pattern and at most one value per key.
#[derive(Debug)]
pub struct Config {
    host: String,
    columns: [Option<String>; 9],
}

impl View for Config {
    type V = RecordView;

    closed spec fn view(&self) -> RecordView {
        RecordView {
            host: self.host@,
            fields: Map::new(
                |k: Key| self.columns@[k.index_of()] is Some,
                |k: Key| self.columns@[k.index_of()]->Some_0@,
            ),
        }
    }
}

/// The records that a sequence of configs holds.
pub open spec fn records(v: Seq<Config>) -> Seq<RecordView> {
    v.map_values(|c: Config| c@)
}

impl Config {
    /// A record for `host` with no field set.
    pub fn new(host: String) -> (r: Config)
        ensures
            r@.host == host@,
            r@.fields == Map::<Key, Seq<char>>::empty(),
    {
        let r = Config { host, columns: [None, None, None, None, None, None, None, None, None] };
        assert(r@.fields =~= Map::<Key, Seq<char>>::empty());
        r
    }

    /// The record's host pattern.
    pub fn host(&self) -> (r: &String)
        ensures
            r@ == self@.host,
    {
        &self.host
    }

    /// The value of field `k`, if present.
    pub fn get(&self, k: Key) -> (r: Option<&String>)
        ensures
            match r {
                Some(v) => self@.fields.contains_key(k) && self@.fields[k] == v@,
                None => !self@.fields.contains_key(k),
            },
    {
        let i = k.index();
        match &self.columns[i] {
            Some(v) => Some(v),
            None => None,
        }
    }

    /// Sets field `k` to `v`, adding it when absent and replacing it when present.
    pub fn set(&mut self, k: Key, v: String)
        ensures
            final(self)@.host == old(self)@.host,
            final(self)@.fields == old(self)@.fields.insert(k, v@),
    {
        let i = k.index();
        self.columns[i] = Some(v);
        assert(final(self)@.fields =~= old(self)@.fields.insert(k, v@));
    }

    /// Removes field `k`; a record without it is left as it is.
    pub fn remove(&mut self, k: Key)
        ensures
            final(self)@.host == old(self)@.host,
            final(self)@.fields == old(self)@.fields.remove(k),
    {
        let i = k.index();
        self.columns[i] = None;
        assert(final(self)@.fields =~= old(self)@.fields.remove(k));
    }
}

/// The sample records of `Config::mock`.
pub open spec fn mock_records() -> Seq<RecordView> {
    seq![
        RecordView {
            host: "aaa"@,
            fields: Map::empty().insert(Key::HostName, "127.0.0.1"@).insert(
                Key::User,
                "John"@,
            ),
        },
        RecordView {
            host: "bbb"@,
            fields: Map::empty().insert(Key::HostName, "127.0.1.1"@),
        },
        RecordView { host: "ccc"@, fields: Map::empty().insert(Key::User, "JJJ"@) },
        RecordView {
            host: "dddd"@,
            fields: Map::empty().insert(Key::User, "JJJ"@).insert(
                Key::IdentityFile,
                "~/.ssh/id_rsa"@,
            ),
        },
    ]
}

impl Config {
    /// A small fixed set of records, for trying the editor without a file.
    pub fn mock() -> (r: Vec<Config>)
        ensures
            records(r@) == mock_records(),
    {
        let mut a = Config::new(String::from_str("aaa"));
        a.set(Key::HostName, String::from_str("127.0.0.1"));
        a.set(Key::User, String::from_str("John"));
        let mut b = Config::new(String::from_str("bbb"));
        b.set(Key::HostName, String::from_str("127.0.1.1"));
        let mut c = Config::new(String::from_str("ccc"));
        c.set(Key::User, String::from_str("JJJ"));
        let mut d = Config::new(String::from_str("dddd"));
        d.set(Key::User, String::from_str("JJJ"));
        d.set(Key::IdentityFile, String::from_str("~/.ssh/id_rsa"));
        let r = vec![a, b, c, d];
        assert(records(r@) =~= seq![a@, b@, c@, d@]);
        r
    }
}

} // verus!
