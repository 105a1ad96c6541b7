use vstd::prelude::*;

verus! {

/// The diagnostic no-op exchange sent before any brute-force work.
pub fn ping_command() -> (r: String)
    ensures
        r@ == "PING\r\n"@,
{
    String::from_str("PING\r\n")
}

/// The single-argument auth command: the (already escaped) password stands
/// between single quotes, the line ends with CRLF.
pub fn auth_command(password: &String) -> (r: String)
    ensures
        r@ == "AUTH '"@ + password@ + "'\r\n"@,
{
    let mut r = String::from_str("AUTH '");
    r.append(password.as_str());
    r.append("'\r\n");
    r
}

/// The two-argument auth command of ACL mode: escaped username, then
/// escaped password, each between single quotes, ending with CRLF.
pub fn auth_command_acl(username: &String, password: &String) -> (r: String)
    ensures
        r@ == "AUTH '"@ + username@ + "' '"@ + password@ + "'\r\n"@,
{
    let mut r = String::from_str("AUTH '");
    r.append(username.as_str());
    r.append("' '");
    r.append(password.as_str());
    r.append("'\r\n");
    r
}

} // verus!
