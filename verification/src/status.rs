//! Connection status of a user as tracked by the presence index.

use vstd::prelude::*;

verus! {

/// Online state of a user behind an omikron relay.
#[derive(Clone, Copy, Debug, PartialEq, Eq, Structural)]
pub enum ConnectionType {
    Online,
    UserOffline,
    IotaOffline,
    Away,
    DoNotDisturb,
}

/// Lower-cases one ASCII character; every other character is unchanged.
pub open spec fn spec_lower_char(c: char) -> char {
    match c {
        'A' => 'a', 'B' => 'b', 'C' => 'c', 'D' => 'd', 'E' => 'e',
        'F' => 'f', 'G' => 'g', 'H' => 'h', 'I' => 'i', 'J' => 'j',
        'K' => 'k', 'L' => 'l', 'M' => 'm', 'N' => 'n', 'O' => 'o',
        'P' => 'p', 'Q' => 'q', 'R' => 'r', 'S' => 's', 'T' => 't',
        'U' => 'u', 'V' => 'v', 'W' => 'w', 'X' => 'x', 'Y' => 'y',
        'Z' => 'z', _ => c,
    }
}

/// The string with every ASCII letter lower-cased.
pub open spec fn spec_lower(s: Seq<char>) -> Seq<char> {
    s.map_values(|c: char| spec_lower_char(c))
}

fn lower_char(c: char) -> (r: char)
    ensures
        r == spec_lower_char(c),
{
    match c {
        'A' => 'a', 'B' => 'b', 'C' => 'c', 'D' => 'd', 'E' => 'e',
        'F' => 'f', 'G' => 'g', 'H' => 'h', 'I' => 'i', 'J' => 'j',
        'K' => 'k', 'L' => 'l', 'M' => 'm', 'N' => 'n', 'O' => 'o',
        'P' => 'p', 'Q' => 'q', 'R' => 'r', 'S' => 's', 'T' => 't',
        'U' => 'u', 'V' => 'v', 'W' => 'w', 'X' => 'x', 'Y' => 'y',
        'Z' => 'z', _ => c,
    }
}

/// Lower-cases every ASCII letter of the string.
pub fn lower_ascii(s: &str) -> (r: String)
    ensures
        r@ == spec_lower(s@),
{
    let n = s.unicode_len();
    let mut out = String::new();
    let mut i: usize = 0;
    while i < n
        invariant
            n == s@.len(),
            i <= n,
            out@ == spec_lower(s@.take(i as int)),
        decreases n - i,
    {
        let c = s.get_char(i);
        let l = lower_char(c);
        crate::strutil::push_char(&mut out, l);
        proof {
            assert(s@.take(i + 1) == s@.take(i as int).push(s@[i as int]));
            assert(spec_lower(s@.take(i + 1)) == spec_lower(s@.take(i as int)).push(
                spec_lower_char(s@[i as int]),
            ));
        }
        i = i + 1;
    }
    proof {
        assert(s@.take(n as int) == s@);
    }
    out
}

impl ConnectionType {
    /// The canonical wire name of this status.
    pub open spec fn spec_str(self) -> Seq<char> {
        match self {
            ConnectionType::Online => "online"@,
            ConnectionType::UserOffline => "user_offline"@,
            ConnectionType::IotaOffline => "iota_offline"@,
            ConnectionType::Away => "away"@,
            ConnectionType::DoNotDisturb => "do_not_disturb"@,
        }
    }

    pub fn to_str(&self) -> (r: &str)
        ensures
            r@ == self.spec_str(),
    {
        match self {
            ConnectionType::Online => "online",
            ConnectionType::UserOffline => "user_offline",
            ConnectionType::IotaOffline => "iota_offline",
            ConnectionType::Away => "away",
            ConnectionType::DoNotDisturb => "do_not_disturb",
        }
    }

    pub fn to_string(&self) -> (r: String)
        ensures
            r@ == self.spec_str(),
    {
        self.to_str().to_owned()
    }

    /// Which status a wire name denotes, after lower-casing.
    pub open spec fn spec_from_str(s: Seq<char>) -> Option<ConnectionType> {
        if spec_lower(s) == "online"@ {
            Some(ConnectionType::Online)
        } else if spec_lower(s) == "user_offline"@ {
            Some(ConnectionType::UserOffline)
        } else if spec_lower(s) == "iota_offline"@ {
            Some(ConnectionType::IotaOffline)
        } else if spec_lower(s) == "away"@ {
            Some(ConnectionType::Away)
        } else if spec_lower(s) == "do_not_disturb"@ {
            Some(ConnectionType::DoNotDisturb)
        } else {
            None
        }
    }

    /// Parses a status name case-insensitively.
    pub fn from_str(s: &str) -> (r: Option<ConnectionType>)
        ensures
            r == Self::spec_from_str(s@),
    {
        let lowered = lower_ascii(s);
        if crate::strutil::string_eq(&lowered, "online") {
            Some(ConnectionType::Online)
        } else if crate::strutil::string_eq(&lowered, "user_offline") {
            Some(ConnectionType::UserOffline)
        } else if crate::strutil::string_eq(&lowered, "iota_offline") {
            Some(ConnectionType::IotaOffline)
        } else if crate::strutil::string_eq(&lowered, "away") {
            Some(ConnectionType::Away)
        } else if crate::strutil::string_eq(&lowered, "do_not_disturb") {
            Some(ConnectionType::DoNotDisturb)
        } else {
            None
        }
    }
}

} // verus!
