use vstd::prelude::*;
use crate::model::HostsError;

verus! {

/// The operating systems that the library tells apart.
#[derive(Clone, Copy, Debug, PartialEq, Eq, Structural)]
pub enum Platform {
    Windows,
    MacOs,
    Linux,
    Other,
}

pub open spec fn windows_hosts_path() -> Seq<char> {
    "C:\\Windows\\System32\\drivers\\etc\\hosts"@
}

pub open spec fn unix_hosts_path() -> Seq<char> {
    "/etc/hosts"@
}

/// Where the live hosts file lives on a platform, if it has a known place.
pub open spec fn hosts_path_of(platform: Platform) -> Option<Seq<char>> {
    match platform {
        Platform::Windows => Some(windows_hosts_path()),
        Platform::MacOs => Some(unix_hosts_path()),
        Platform::Linux => Some(unix_hosts_path()),
        Platform::Other => None,
    }
}

/// The path of the live hosts file; an unknown platform is a system error.
pub fn get_hosts_file_path(platform: Platform) -> (r: Result<String, HostsError>)
    ensures
        hosts_path_of(platform) matches Some(p) ==> (r matches Ok(s) && s@ == p),
        hosts_path_of(platform) is None ==> (r matches Err(e) && e is System),
{
    match platform {
        Platform::Windows => Ok(String::from_str("C:\\Windows\\System32\\drivers\\etc\\hosts")),
        Platform::MacOs => Ok(String::from_str("/etc/hosts")),
        Platform::Linux => Ok(String::from_str("/etc/hosts")),
        Platform::Other => Err(HostsError::System(String::from_str("Unsupported operating system"))),
    }
}

pub open spec fn backup_prefix() -> Seq<char> {
    "hosts_backup_"@
}

pub open spec fn backup_suffix() -> Seq<char> {
    ".txt"@
}

/// The name of a backup taken at the given time stamp.
pub fn backup_name_for(stamp: &str) -> (r: String)
    ensures
        r@ == backup_prefix() + stamp@ + backup_suffix(),
{
    let mut r = String::from_str("hosts_backup_");
    r.append(stamp);
    r.append(".txt");
    r
}

pub open spec fn is_digit(c: char) -> bool {
    '0' <= c && c <= '9'
}

/// A time stamp as `%Y%m%d_%H%M%S` writes it: the year (four digits, or a
/// sign and digits beyond 0..=9999), month, day, `_`, hour, minute, second.
pub open spec fn backup_stamp_text(s: Seq<char>) -> bool {
    &&& s.len() >= 15
    &&& s[s.len() - 7] == '_'
    &&& forall|i: int| s.len() - 6 <= i < s.len() ==> is_digit(s[i])
    &&& forall|i: int|
        0 <= i < s.len() - 7 ==> is_digit(s[i]) || (i == 0 && (s[i] == '+' || s[i] == '-'))
}

/// Relies on chrono's `Local::now` and `format("%Y%m%d_%H%M%S")`: the local
/// time to the second, the year zero-padded to four digits (with a sign
/// outside 0..=9999), then two digits each for month, day, hour, minute,
/// second, with `_` between day and hour.
#[verifier::external_body]
fn backup_stamp() -> (r: String)
    ensures
        backup_stamp_text(r@),
{
    chrono::Local::now().format("%Y%m%d_%H%M%S").to_string()
}

/// The name of a backup taken now: the fixed prefix, the local time to the
/// second, the fixed suffix.
pub fn backup_file_name() -> (r: String)
    ensures
        exists|stamp: Seq<char>|
            backup_stamp_text(stamp) && r@ == backup_prefix() + stamp + backup_suffix(),
{
    let stamp = backup_stamp();
    backup_name_for(stamp.as_str())
}

} // verus!
