use vstd::prelude::*;

verus! {

/// One confirmed finding: a successful authentication (or a target that
/// needed none), destined for the persisted output. `n/a` stands in for a
/// field that does not apply.
pub struct FoundCredential {
    pub timestamp: String,
    pub ip: String,
    pub port: String,
    pub username: String,
    pub password: String,
}

/// Relies on chrono's Utc::now and DateTime::format for the wall-clock
/// timestamp (UTC, second precision); nothing is assumed of the value,
/// which depends on the time of the call.
#[verifier::external_body]
pub(crate) fn now_timestamp() -> String {
    chrono::Utc::now().format("%Y-%m-%d %H:%M:%S").to_string()
}

/// The one-line record serialized for one finding, field order fixed.
pub open spec fn record_line_spec(
    timestamp: Seq<char>,
    ip: Seq<char>,
    port: Seq<char>,
    username: Seq<char>,
    password: Seq<char>,
) -> Seq<char> {
    "{\"timestamp\":\""@ + timestamp + "\",\"ip\":\""@ + ip + "\",\"port\":\""@ + port
        + "\",\"username\":\""@ + username + "\",\"password\":\""@ + password + "\"}"@
}

impl FoundCredential {
    /// Builds a finding for the given target and credentials, stamped with
    /// the current time.
    pub fn new(ip: &String, port: &String, username: &String, password: &String) -> (r:
        FoundCredential)
        ensures
            r.ip@ == ip@,
            r.port@ == port@,
            r.username@ == username@,
            r.password@ == password@,
    {
        FoundCredential {
            timestamp: now_timestamp(),
            ip: ip.clone(),
            port: port.clone(),
            username: username.clone(),
            password: password.clone(),
        }
    }

    /// Serializes the finding as one self-contained line, ready to be
    /// appended to the persisted output.
    pub fn format_record(&self) -> (r: String)
        ensures
            r@ == record_line_spec(
                self.timestamp@,
                self.ip@,
                self.port@,
                self.username@,
                self.password@,
            ),
    {
        let mut r = String::from_str("{\"timestamp\":\"");
        r.append(self.timestamp.as_str());
        r.append("\",\"ip\":\"");
        r.append(self.ip.as_str());
        r.append("\",\"port\":\"");
        r.append(self.port.as_str());
        r.append("\",\"username\":\"");
        r.append(self.username.as_str());
        r.append("\",\"password\":\"");
        r.append(self.password.as_str());
        r.append("\"}");
        r
    }
}

} // verus!
