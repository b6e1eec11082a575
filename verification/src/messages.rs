//! The violation messages the rules can record, each stated as a
//! specification-level character sequence and built executably to match.

use vstd::prelude::*;

verus! {

// ---------------------------------------------------------------------------
// Decimal rendering of integers, for messages that name a port number.
// ---------------------------------------------------------------------------
/// The decimal digit character for `d` (`0 <= d <= 9`).
pub open spec fn dec_digit(d: int) -> char {
    if d == 0 {
        '0'
    } else if d == 1 {
        '1'
    } else if d == 2 {
        '2'
    } else if d == 3 {
        '3'
    } else if d == 4 {
        '4'
    } else if d == 5 {
        '5'
    } else if d == 6 {
        '6'
    } else if d == 7 {
        '7'
    } else if d == 8 {
        '8'
    } else {
        '9'
    }
}

/// The decimal digits of a nonnegative integer, most significant first.
pub open spec fn dec_nat(n: nat) -> Seq<char>
    decreases n,
{
    if n < 10 {
        seq![dec_digit(n as int)]
    } else {
        dec_nat(n / 10).push(dec_digit((n % 10) as int))
    }
}

/// The decimal rendering of an integer, with a leading `'-'` when negative.
pub open spec fn dec_int(n: int) -> Seq<char> {
    if n < 0 {
        seq!['-'] + dec_nat((-n) as nat)
    } else {
        dec_nat(n as nat)
    }
}

/// The one-character string for the decimal digit `d`.
fn digit_str(d: u64) -> (r: &'static str)
    requires
        d < 10,
    ensures
        r@ == seq![dec_digit(d as int)],
{
    if d == 0 {
        proof {
            reveal_strlit("0");
            assert("0"@ =~= seq!['0']);
        }
        "0"
    } else if d == 1 {
        proof {
            reveal_strlit("1");
            assert("1"@ =~= seq!['1']);
        }
        "1"
    } else if d == 2 {
        proof {
            reveal_strlit("2");
            assert("2"@ =~= seq!['2']);
        }
        "2"
    } else if d == 3 {
        proof {
            reveal_strlit("3");
            assert("3"@ =~= seq!['3']);
        }
        "3"
    } else if d == 4 {
        proof {
            reveal_strlit("4");
            assert("4"@ =~= seq!['4']);
        }
        "4"
    } else if d == 5 {
        proof {
            reveal_strlit("5");
            assert("5"@ =~= seq!['5']);
        }
        "5"
    } else if d == 6 {
        proof {
            reveal_strlit("6");
            assert("6"@ =~= seq!['6']);
        }
        "6"
    } else if d == 7 {
        proof {
            reveal_strlit("7");
            assert("7"@ =~= seq!['7']);
        }
        "7"
    } else if d == 8 {
        proof {
            reveal_strlit("8");
            assert("8"@ =~= seq!['8']);
        }
        "8"
    } else {
        proof {
            reveal_strlit("9");
            assert("9"@ =~= seq!['9']);
        }
        "9"
    }
}

/// Appends the decimal digits of `n` to `out`.
fn push_dec_u64(out: &mut String, n: u64)
    ensures
        final(out)@ == old(out)@ + dec_nat(n as nat),
    decreases n,
{
    if n < 10 {
        out.append(digit_str(n));
    } else {
        push_dec_u64(out, n / 10);
        out.append(digit_str(n % 10));
        proof {
            assert(old(out)@ + dec_nat((n / 10) as nat) + seq![dec_digit((n % 10) as int)]
                =~= old(out)@ + dec_nat(n as nat));
        }
    }
}

/// Appends the decimal rendering of `n` to `out`.
pub fn push_dec_i64(out: &mut String, n: i64)
    ensures
        final(out)@ == old(out)@ + dec_int(n as int),
{
    if n < 0 {
        out.append("-");
        proof {
            reveal_strlit("-");
            assert("-"@ =~= seq!['-']);
        }
        let m: u64 = (-(n as i128)) as u64;
        push_dec_u64(out, m);
        proof {
            assert(old(out)@ + seq!['-'] + dec_nat(m as nat) =~= old(out)@ + (seq!['-']
                + dec_nat((-(n as int)) as nat)));
        }
    } else {
        push_dec_u64(out, n as u64);
    }
}

// ---------------------------------------------------------------------------
// Message builders over string pieces.
// ---------------------------------------------------------------------------
/// A message of the form `prefix name suffix`.
pub fn build2(prefix: &str, name: &String, suffix: &str) -> (r: String)
    ensures
        r@ == prefix@ + name@ + suffix@,
{
    let mut m = String::from_str(prefix);
    m.append(name.as_str());
    m.append(suffix);
    m
}

// ---------------------------------------------------------------------------
// The messages.
// ---------------------------------------------------------------------------
/// Recorded when the request's kind tag is not the expected one.
pub open spec fn kind_msg() -> Seq<char> {
    "request kind is not Pod; only Pod resources are evaluated"@
}

/// Recorded by the port-name rule when `spec.containers` is not a sequence.
pub open spec fn port_rule_shape_msg() -> Seq<char> {
    "port names could not be checked: spec.containers is not a sequence"@
}

/// Recorded by the duplicate-port rule when `spec.containers` is not a sequence.
pub open spec fn dup_rule_shape_msg() -> Seq<char> {
    "container ports could not be checked: spec.containers is not a sequence"@
}

/// Recorded by the privileged rule when `spec.containers` is not a sequence.
pub open spec fn priv_rule_shape_msg() -> Seq<char> {
    "privileged containers could not be checked: spec.containers is not a sequence"@
}

/// Recorded when a container entry is itself not a mapping.
pub open spec fn container_shape_msg() -> Seq<char> {
    "a container entry is not a mapping"@
}

/// Recorded when a container's `ports` field is not a sequence.
pub open spec fn ports_shape_msg(cname: Seq<char>) -> Seq<char> {
    "ports of container "@ + cname + " is not a sequence"@
}

/// Recorded when a port entry of a container is not a mapping.
pub open spec fn port_entry_shape_msg(cname: Seq<char>) -> Seq<char> {
    "a port entry of container "@ + cname + " is not a mapping"@
}

/// Recorded when a port's `name` field is not a string.
pub open spec fn port_name_type_msg(cname: Seq<char>) -> Seq<char> {
    "a port name of container "@ + cname + " is not a string"@
}

/// Recorded when a port's name has ten or more characters.
pub open spec fn long_port_name_msg(cname: Seq<char>, pname: Seq<char>) -> Seq<char> {
    "container "@ + cname + " declares port name "@ + pname
        + ", which is 10 or more characters"@
}

/// Recorded when a `containerPort` value repeats an earlier one.
pub open spec fn dup_port_msg(cname: Seq<char>, port: int) -> Seq<char> {
    "container "@ + cname + " repeats containerPort "@ + dec_int(port)
}

/// Recorded when a port's `containerPort` field is not an integer.
pub open spec fn cport_type_msg(cname: Seq<char>) -> Seq<char> {
    "containerPort of container "@ + cname + " is not an integer"@
}

/// Recorded when a container's `securityContext.privileged` lookup hits a
/// non-mapping along the way.
pub open spec fn sc_shape_msg(cname: Seq<char>) -> Seq<char> {
    "securityContext of container "@ + cname + " is malformed"@
}

/// Recorded when a container runs privileged.
pub open spec fn priv_msg(cname: Seq<char>) -> Seq<char> {
    "container "@ + cname + " is privileged"@
}

/// Recorded when a container's `securityContext.privileged` is not a boolean.
pub open spec fn priv_type_msg(cname: Seq<char>) -> Seq<char> {
    "privileged of container "@ + cname + " is not a boolean"@
}

/// Recorded when `spec.speaker` is present but not a sequence.
pub open spec fn speaker_shape_msg() -> Seq<char> {
    "spec.speaker is not a sequence"@
}

/// Recorded once per request when some speaker entry lacks `canTalk`.
pub open spec fn not_ready_msg() -> Seq<char> {
    "not all speakers are ready"@
}

/// Every message is a nonempty sentence: each begins with a nonempty
/// literal, whatever the container name, port name or port number.
pub proof fn lemma_messages_nonempty(cname: Seq<char>, pname: Seq<char>, port: int)
    ensures
        kind_msg().len() > 0,
        port_rule_shape_msg().len() > 0,
        dup_rule_shape_msg().len() > 0,
        priv_rule_shape_msg().len() > 0,
        container_shape_msg().len() > 0,
        ports_shape_msg(cname).len() > 0,
        port_entry_shape_msg(cname).len() > 0,
        port_name_type_msg(cname).len() > 0,
        long_port_name_msg(cname, pname).len() > 0,
        dup_port_msg(cname, port).len() > 0,
        cport_type_msg(cname).len() > 0,
        sc_shape_msg(cname).len() > 0,
        priv_msg(cname).len() > 0,
        priv_type_msg(cname).len() > 0,
        speaker_shape_msg().len() > 0,
        not_ready_msg().len() > 0,
{
    reveal_strlit("request kind is not Pod; only Pod resources are evaluated");
    reveal_strlit("port names could not be checked: spec.containers is not a sequence");
    reveal_strlit("container ports could not be checked: spec.containers is not a sequence");
    reveal_strlit("privileged containers could not be checked: spec.containers is not a sequence");
    reveal_strlit("a container entry is not a mapping");
    reveal_strlit("ports of container ");
    reveal_strlit("a port entry of container ");
    reveal_strlit("a port name of container ");
    reveal_strlit("container ");
    reveal_strlit("containerPort of container ");
    reveal_strlit("securityContext of container ");
    reveal_strlit("privileged of container ");
    reveal_strlit("spec.speaker is not a sequence");
    reveal_strlit("not all speakers are ready");
}

/// The long-port-name message, built executably.
pub fn build_long_port_name(cname: &String, pname: &String) -> (r: String)
    ensures
        r@ == long_port_name_msg(cname@, pname@),
{
    let mut m = String::from_str("container ");
    m.append(cname.as_str());
    m.append(" declares port name ");
    m.append(pname.as_str());
    m.append(", which is 10 or more characters");
    m
}

/// The duplicate-port message, built executably.
pub fn build_dup_port(cname: &String, port: i64) -> (r: String)
    ensures
        r@ == dup_port_msg(cname@, port as int),
{
    let mut m = String::from_str("container ");
    m.append(cname.as_str());
    m.append(" repeats containerPort ");
    push_dec_i64(&mut m, port);
    m
}

} // verus!
