//! Service configuration.

use crate::text::text_of;
use vstd::prelude::*;

verus! {

/// Authentication settings.
#[derive(Debug, Clone)]
pub struct AuthConfig {
    /// Whether logging in is required.
    pub enabled: bool,
    /// The password, where one is set.
    pub password: Option<String>,
    /// How long a session lasts, in seconds.
    pub session_timeout_secs: u64,
    /// The name of the session cookie.
    pub cookie_name: String,
}

/// Service settings.
#[derive(Debug, Clone)]
pub struct Config {
    /// The directory that is served and indexed.
    pub root_path: String,
    pub host: String,
    pub port: u16,
    /// The file of the durable store.
    pub database_path: String,
    /// Whether the background indexer runs.
    pub enable_indexer: bool,
    /// Seconds between two background scans.
    pub index_interval_secs: u64,
    /// The directory of the static front end.
    pub static_path: String,
    pub auth: AuthConfig,
}

/// The decimal digit for `d`, below ten.
pub open spec fn digit_char(d: nat) -> char {
    ((d + 48) as u8) as char
}

/// The decimal text of a number, without leading zeros.
pub open spec fn decimal(n: nat) -> Seq<char>
    decreases n,
{
    if n < 10 {
        seq![digit_char(n)]
    } else {
        decimal(n / 10).push(digit_char(n % 10))
    }
}

/// The decimal text of a number.
pub fn decimal_text(n: u64) -> (r: String)
    ensures
        r@ == decimal(n as nat),
{
    let mut digits: Vec<char> = Vec::new();
    let mut m: u64 = n;
    let d: u8 = (m % 10) as u8;
    digits.insert(0, (d + 48) as char);
    m = m / 10;
    while m > 0
        invariant
            m > 0 ==> decimal(n as nat) == decimal(m as nat) + digits@,
            m == 0 ==> decimal(n as nat) == digits@,
        decreases m,
    {
        let d: u8 = (m % 10) as u8;
        let ghost before = digits@;
        digits.insert(0, (d + 48) as char);
        proof {
            assert(digits@ =~= seq![digit_char((m % 10) as nat)] + before);
            if m >= 10 {
                assert(decimal(m as nat) == decimal((m / 10) as nat).push(digit_char((m % 10) as nat)));
                assert(decimal(m as nat) + before =~= decimal((m / 10) as nat) + digits@);
            } else {
                assert(decimal(m as nat) =~= seq![digit_char((m % 10) as nat)]);
            }
        }
        m = m / 10;
    }
    text_of(digits.as_slice())
}

impl Config {
    /// The address to listen on: `host:port`.
    pub fn server_addr(&self) -> (r: String)
        ensures
            r@ == self.host@ + seq![':'] + decimal(self.port as nat),
    {
        let mut out = self.host.clone();
        proof {
            reveal_strlit(":");
        }
        out.append(":");
        let port = decimal_text(self.port as u64);
        out.append(port.as_str());
        out
    }
}

} // verus!
