//! The application's settings, as plain values, and the addresses derived
//! from them. Reading them from a file and the environment happens outside.
use crate::text::push_char;
use vstd::prelude::*;

verus! {

/// All settings of the application.
#[derive(Debug, Clone)]
pub struct AppConfig {
    /// Where the server listens.
    pub listen: ListenConfig,
    /// Where the log goes.
    pub log: LogConfig,
    /// How to reach the DNS registrar.
    pub namesilo: NamesiloConfig,
}

/// Host and port that the server listens on.
#[derive(Debug, Clone)]
pub struct ListenConfig {
    pub host: String,
    pub port: u16,
}

/// Log output to a file and to the console.
#[derive(Debug, Clone)]
pub struct LogConfig {
    pub file: FileConfig,
    pub console: ConsoleConfig,
}

/// Log output to daily files.
#[derive(Debug, Clone)]
pub struct FileConfig {
    pub enabled: bool,
    pub level: String,
    pub dir: String,
    pub name_prefix: String,
}

/// Log output to the console.
#[derive(Debug, Clone)]
pub struct ConsoleConfig {
    pub enabled: bool,
    pub level: String,
}

/// Access to the registrar's API and the record that it keeps up to date.
#[derive(Debug, Clone)]
pub struct NamesiloConfig {
    /// Base URL of the API.
    pub url: String,
    /// API key.
    pub key: String,
    /// The domain whose records are managed.
    pub domain: String,
    /// Host part of the record (`www`, `@`, ...).
    pub rrhost: String,
    /// Time to live of the record.
    pub rrttl: String,
}

/// The char of a decimal digit.
pub open spec fn digit_char(d: nat) -> char {
    if d == 0 {
        '0'
    } else if d == 1 {
        '1'
    } else if d == 2 {
        '2'
    } else if d == 3 {
        '3'
    } else if d == 4 {
        '4'
    } else if d == 5 {
        '5'
    } else if d == 6 {
        '6'
    } else if d == 7 {
        '7'
    } else if d == 8 {
        '8'
    } else {
        '9'
    }
}

/// `n` written in decimal, without leading zeros.
pub open spec fn decimal(n: nat) -> Seq<char>
    decreases n,
{
    if n < 10 {
        seq![digit_char(n)]
    } else {
        decimal(n / 10).push(digit_char(n % 10))
    }
}

/// The char of digit `d`.
fn digit_of(d: u16) -> (c: char)
    requires
        d < 10,
    ensures
        c == digit_char(d as nat),
{
    if d == 0 {
        '0'
    } else if d == 1 {
        '1'
    } else if d == 2 {
        '2'
    } else if d == 3 {
        '3'
    } else if d == 4 {
        '4'
    } else if d == 5 {
        '5'
    } else if d == 6 {
        '6'
    } else if d == 7 {
        '7'
    } else if d == 8 {
        '8'
    } else {
        '9'
    }
}

/// Appends `n` in decimal.
fn push_decimal(s: &mut String, n: u16)
    ensures
        final(s)@ == old(s)@ + decimal(n as nat),
    decreases n,
{
    if n >= 10 {
        push_decimal(s, n / 10);
    }
    push_char(s, digit_of(n % 10));
    assert(n < 10 ==> decimal(n as nat) == seq![digit_char(n as nat)]);
}

/// `host:port`.
pub open spec fn addr_text(host: Seq<char>, port: nat) -> Seq<char> {
    host + seq![':'] + decimal(port)
}

impl ListenConfig {
    /// The address as `host:port`.
    pub fn get_addr(&self) -> (r: String)
        ensures
            r@ == addr_text(self.host@, self.port as nat),
    {
        let mut r = self.host.clone();
        push_char(&mut r, ':');
        push_decimal(&mut r, self.port);
        r
    }

    /// The address as `http://host:port`.
    pub fn get_http_addr(&self) -> (r: String)
        ensures
            r@ == "http://"@ + addr_text(self.host@, self.port as nat),
    {
        let mut r = String::from_str("http://");
        let a = self.get_addr();
        r.append(a.as_str());
        r
    }
}

} // verus!
