use vstd::prelude::*;

verus! {

/// `p` is a prefix of `r`.
pub open spec fn has_prefix(r: Seq<u8>, p: Seq<u8>) -> bool {
    p.len() <= r.len() && r.subrange(0, p.len() as int) == p
}

/// The bytes of `-NOAUTH`, the reply prefix that says authentication is
/// required.
pub open spec fn noauth_marker() -> Seq<u8> {
    seq![45u8, 78u8, 79u8, 65u8, 85u8, 84u8, 72u8]
}

/// The bytes of `+PONG`, the reply prefix that says the diagnostic command
/// went through without authentication.
pub open spec fn pong_marker() -> Seq<u8> {
    seq![43u8, 80u8, 79u8, 78u8, 71u8]
}

/// The bytes of `-ERR wrong number of arguments`, the reply prefix that
/// says the target's protocol cannot take a two-argument auth command.
pub open spec fn wrong_args_marker() -> Seq<u8> {
    seq![
        45u8, 69u8, 82u8, 82u8, 32u8, 119u8, 114u8, 111u8, 110u8, 103u8, 32u8, 110u8, 117u8,
        109u8, 98u8, 101u8, 114u8, 32u8, 111u8, 102u8, 32u8, 97u8, 114u8, 103u8, 117u8,
        109u8, 101u8, 110u8, 116u8, 115u8,
    ]
}

/// True exactly when `p` is a byte prefix of `r`.
fn has_prefix_exec(r: &Vec<u8>, p: &Vec<u8>) -> (b: bool)
    ensures
        b == has_prefix(r@, p@),
{
    if p.len() > r.len() {
        return false;
    }
    let mut i: usize = 0;
    while i < p.len()
        invariant
            i <= p@.len() <= r@.len(),
            forall|j: int| 0 <= j < i ==> r@[j] == p@[j],
        decreases p@.len() - i,
    {
        if r[i] != p[i] {
            proof {
                assert(r@.subrange(0, p@.len() as int)[i as int] == r@[i as int]);
            }
            return false;
        }
        i += 1;
    }
    proof {
        assert(r@.subrange(0, p@.len() as int) =~= p@);
    }
    true
}

/// Reads the reply to the second, ACL-support diagnostic: a two-argument
/// auth command drew a wrong-argument-count error exactly when the target
/// cannot do per-username authentication, which is fatal for an ACL run.
pub fn acl_auth_supported(reply: &Vec<u8>) -> (b: bool)
    ensures
        b == !has_prefix(reply@, wrong_args_marker()),
{
    let marker: Vec<u8> = vec![
        45u8, 69u8, 82u8, 82u8, 32u8, 119u8, 114u8, 111u8, 110u8, 103u8, 32u8, 110u8, 117u8,
        109u8, 98u8, 101u8, 114u8, 32u8, 111u8, 102u8, 32u8, 97u8, 114u8, 103u8, 117u8,
        109u8, 101u8, 110u8, 116u8, 115u8,
    ];
    proof {
        assert(marker@ =~= wrong_args_marker());
    }
    !has_prefix_exec(reply, &marker)
}

/// What a diagnostic probe reply says about one target.
#[derive(PartialEq, Eq, Structural, Debug, Clone, Copy)]
pub enum ProbeOutcome {
    /// The reply began with `-NOAUTH`: authentication is configured, so
    /// brute forcing can start.
    AuthRequired,
    /// The reply began with `+PONG`: no authentication is configured.
    NoAuth,
    /// Any other reply: neither marker was recognized.
    Ambiguous,
}

/// How one probe reply is read: `-NOAUTH` wins over `+PONG`, anything else
/// is ambiguous.
pub open spec fn classify_spec(r: Seq<u8>) -> ProbeOutcome {
    if has_prefix(r, noauth_marker()) {
        ProbeOutcome::AuthRequired
    } else if has_prefix(r, pong_marker()) {
        ProbeOutcome::NoAuth
    } else {
        ProbeOutcome::Ambiguous
    }
}

/// True exactly when `r` starts with the seven bytes of `-NOAUTH`.
fn is_noauth_reply(r: &Vec<u8>) -> (b: bool)
    ensures
        b == has_prefix(r@, noauth_marker()),
{
    if r.len() < 7 {
        proof {
            assert(!has_prefix(r@, noauth_marker()));
        }
        return false;
    }
    let b = r[0] == 45 && r[1] == 78 && r[2] == 79 && r[3] == 65 && r[4] == 85 && r[5] == 84
        && r[6] == 72;
    proof {
        if b {
            assert(r@.subrange(0, 7) =~= noauth_marker());
        } else {
            assert(r@.subrange(0, 7) == noauth_marker() ==> r@[0] == 45 && r@[1] == 78 && r@[2]
                == 79 && r@[3] == 65 && r@[4] == 85 && r@[5] == 84 && r@[6] == 72) by {
                if r@.subrange(0, 7) == noauth_marker() {
                    assert(r@.subrange(0, 7)[0] == r@[0]);
                    assert(r@.subrange(0, 7)[1] == r@[1]);
                    assert(r@.subrange(0, 7)[2] == r@[2]);
                    assert(r@.subrange(0, 7)[3] == r@[3]);
                    assert(r@.subrange(0, 7)[4] == r@[4]);
                    assert(r@.subrange(0, 7)[5] == r@[5]);
                    assert(r@.subrange(0, 7)[6] == r@[6]);
                }
            }
        }
    }
    b
}

/// True exactly when `r` starts with the five bytes of `+PONG`.
fn is_pong_reply(r: &Vec<u8>) -> (b: bool)
    ensures
        b == has_prefix(r@, pong_marker()),
{
    if r.len() < 5 {
        proof {
            assert(!has_prefix(r@, pong_marker()));
        }
        return false;
    }
    let b = r[0] == 43 && r[1] == 80 && r[2] == 79 && r[3] == 78 && r[4] == 71;
    proof {
        if b {
            assert(r@.subrange(0, 5) =~= pong_marker());
        } else {
            assert(r@.subrange(0, 5) == pong_marker() ==> r@[0] == 43 && r@[1] == 80 && r@[2]
                == 79 && r@[3] == 78 && r@[4] == 71) by {
                if r@.subrange(0, 5) == pong_marker() {
                    assert(r@.subrange(0, 5)[0] == r@[0]);
                    assert(r@.subrange(0, 5)[1] == r@[1]);
                    assert(r@.subrange(0, 5)[2] == r@[2]);
                    assert(r@.subrange(0, 5)[3] == r@[3]);
                    assert(r@.subrange(0, 5)[4] == r@[4]);
                }
            }
        }
    }
    b
}

/// Classifies the reply to the diagnostic probe, before any brute-force
/// work starts: `-NOAUTH` means authentication is required, `+PONG` means
/// none is configured, anything else (an empty or malformed reply
/// included) is ambiguous and leads to no work, never to a crash.
pub fn classify_probe_reply(reply: &Vec<u8>) -> (o: ProbeOutcome)
    ensures
        o == classify_spec(reply@),
{
    if is_noauth_reply(reply) {
        ProbeOutcome::AuthRequired
    } else if is_pong_reply(reply) {
        ProbeOutcome::NoAuth
    } else {
        ProbeOutcome::Ambiguous
    }
}

} // verus!
