use vstd::prelude::*;

verus! {

/// Index of the first occurrence of `c` in `s`, or `s.len()` when `c` does
/// not occur.
pub open spec fn find_first(s: Seq<char>, c: char) -> int
    decreases s.len(),
{
    if s.len() == 0 {
        0
    } else if s[0] == c {
        0
    } else {
        1 + find_first(s.drop_first(), c)
    }
}

/// The host part of a `host:port` string: everything before the first
/// colon, or the whole string when there is none.
pub open spec fn host_of(t: Seq<char>) -> Seq<char> {
    t.take(find_first(t, ':'))
}

/// The port part of a `host:port` string: the segment between the first
/// and the second colon; when no colon is present, the service's standard
/// port `6379`.
pub open spec fn port_of(t: Seq<char>) -> Seq<char> {
    let i = find_first(t, ':');
    if i == t.len() {
        "6379"@
    } else {
        let rest = t.skip(i + 1);
        rest.take(find_first(rest, ':'))
    }
}

/// A position left of the first occurrence and holding `c` (or the length,
/// when nothing left of it holds `c`) is exactly `find_first`.
proof fn lemma_find_first_at(s: Seq<char>, c: char, j: int)
    requires
        0 <= j <= s.len(),
        forall|k: int| 0 <= k < j ==> s[k] != c,
        j == s.len() || s[j] == c,
    ensures
        find_first(s, c) == j,
    decreases j,
{
    if s.len() == 0 {
    } else if j == 0 {
    } else {
        assert(s[0] != c);
        let rest = s.drop_first();
        assert(forall|k: int| 0 <= k < j - 1 ==> rest[k] == s[k + 1] && rest[k] != c);
        lemma_find_first_at(rest, c, j - 1);
    }
}

/// Splits one `host:port` target string: the host is everything before the
/// first colon; the port is the segment after it (up to a second colon), or
/// `6379` when the string holds no colon at all.
pub fn parse_target(target: &String) -> (r: (String, String))
    ensures
        r.0@ == host_of(target@),
        r.1@ == port_of(target@),
{
    let t = target.as_str();
    let len = t.unicode_len();
    let mut i: usize = 0;
    while i < len && t.get_char(i) != ':'
        invariant
            t@ == target@,
            len == t@.len(),
            i <= len,
            forall|k: int| 0 <= k < i ==> t@[k] != ':',
        decreases len - i,
    {
        i += 1;
    }
    proof {
        lemma_find_first_at(t@, ':', i as int);
    }
    let host = String::from_str(t.substring_char(0, i));
    if i == len {
        (host, String::from_str("6379"))
    } else {
        let mut j: usize = i + 1;
        while j < len && t.get_char(j) != ':'
            invariant
                t@ == target@,
                len == t@.len(),
                i < len,
                i + 1 <= j <= len,
                forall|k: int| i + 1 <= k < j ==> t@[k] != ':',
            decreases len - j,
        {
            j += 1;
        }
        let port = String::from_str(t.substring_char(i + 1, j));
        proof {
            let rest = t@.skip(i + 1);
            assert(forall|k: int| 0 <= k < j - (i + 1) ==> rest[k] == t@[k + i + 1] && rest[k]
                != ':');
            assert(j < len ==> rest[j - (i + 1)] == t@[j as int]);
            lemma_find_first_at(rest, ':', j - (i + 1));
            assert(t@.subrange(i + 1, j as int) =~= rest.take(j - (i + 1)));
        }
        (host, port)
    }
}

/// Joins host and port back into the single address a session dials.
pub fn make_addr(host: &String, port: &String) -> (r: String)
    ensures
        r@ == host@ + ":"@ + port@,
{
    let mut r = host.clone();
    r.append(":");
    r.append(port.as_str());
    r
}

} // verus!
