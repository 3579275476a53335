//! Node addresses of the form `host:port`.
use crate::error::HashServiceError;
use crate::ring::Node;
use vstd::prelude::*;

verus! {

pub open spec fn is_digit(c: char) -> bool {
    '0' <= c && c <= '9'
}

pub open spec fn digit_value(c: char) -> nat {
    (c as nat - '0' as nat) as nat
}

/// The value of a string of decimal digits.
pub open spec fn digits_value(s: Seq<char>) -> nat
    decreases s.len(),
{
    if s.len() == 0 {
        0
    } else {
        digits_value(s.drop_last()) * 10 + digit_value(s.last())
    }
}

pub open spec fn all_digits(s: Seq<char>) -> bool {
    forall|i: int| 0 <= i < s.len() ==> is_digit(#[trigger] s[i])
}

/// `i` is the position of the first `:` in `s`.
pub open spec fn is_first_colon(s: Seq<char>, i: int) -> bool {
    &&& 0 <= i < s.len()
    &&& s[i] == ':'
    &&& forall|j: int| 0 <= j < i ==> s[j] != ':'
}

pub open spec fn has_colon(s: Seq<char>) -> bool {
    exists|i: int| is_first_colon(s, i)
}

pub open spec fn first_colon(s: Seq<char>) -> int {
    choose|i: int| is_first_colon(s, i)
}

/// The text before the first `:`.
pub open spec fn host_part(s: Seq<char>) -> Seq<char> {
    s.subrange(0, first_colon(s))
}

/// The text after the first `:`.
pub open spec fn port_part(s: Seq<char>) -> Seq<char> {
    s.subrange(first_colon(s) + 1, s.len() as int)
}

/// `s` is `host:port` with a port of one or more decimal digits below 65536.
pub open spec fn valid_address(s: Seq<char>) -> bool {
    &&& has_colon(s)
    &&& port_part(s).len() > 0
    &&& all_digits(port_part(s))
    &&& digits_value(port_part(s)) <= 65535
}

proof fn lemma_first_colon_unique(s: Seq<char>, i: int)
    requires
        is_first_colon(s, i),
    ensures
        has_colon(s),
        first_colon(s) == i,
{
    let k = first_colon(s);
    if k < i {
        assert(s[k] != ':');
    } else if i < k {
        assert(s[i] != ':');
    }
}

/// A longer string of digits has at least the value of its prefix.
pub proof fn lemma_digits_prefix(s: Seq<char>, k: int)
    requires
        0 <= k <= s.len(),
        all_digits(s),
    ensures
        digits_value(s.subrange(0, k)) <= digits_value(s),
    decreases s.len(),
{
    if k < s.len() {
        let t = s.drop_last();
        assert(all_digits(t)) by {
            assert forall|i: int| 0 <= i < t.len() implies is_digit(#[trigger] t[i]) by {
                assert(t[i] == s[i]);
            }
        }
        lemma_digits_prefix(t, k);
        assert(t.subrange(0, k) =~= s.subrange(0, k));
    } else {
        assert(s.subrange(0, k) =~= s);
    }
}

/// Reads a node from `host:port`.
pub fn parse_node(entry: &str) -> (r: Result<Node, HashServiceError>)
    ensures
        r is Ok <==> valid_address(entry@),
        r matches Ok(n) ==> n.host@ == host_part(entry@) && n.port as nat == digits_value(
            port_part(entry@),
        ),
        r matches Err(e) ==> e == HashServiceError::InvalidNodeAddress,
{
    let len = entry.unicode_len();
    let mut c: usize = 0;
    let mut found = false;
    while c < len && !found
        invariant
            len == entry@.len(),
            c <= len,
            found ==> c < len && entry@[c as int] == ':',
            forall|j: int| 0 <= j < c ==> entry@[j] != ':',
        decreases len - c + (if found { 0int } else { 1int }),
    {
        if entry.get_char(c) == ':' {
            found = true;
        } else {
            c = c + 1;
        }
    }
    if !found {
        proof {
            if has_colon(entry@) {
                let k = first_colon(entry@);
                assert(entry@[k] == ':');
            }
        }
        return Err(HashServiceError::InvalidNodeAddress);
    }
    proof {
        lemma_first_colon_unique(entry@, c as int);
    }
    let ghost port_text = port_part(entry@);
    if c + 1 == len {
        return Err(HashServiceError::InvalidNodeAddress);
    }
    let mut value: u32 = 0;
    let mut i: usize = c + 1;
    while i < len
        invariant
            len == entry@.len(),
            c < i <= len,
            first_colon(entry@) == c,
            port_text == entry@.subrange(c + 1, len as int),
            all_digits(port_text.subrange(0, i - c - 1)),
            value == digits_value(port_text.subrange(0, i - c - 1)),
            value <= 65535,
        decreases len - i,
    {
        let ch = entry.get_char(i);
        let ghost prefix = port_text.subrange(0, i - c - 1);
        let ghost next = port_text.subrange(0, i - c);
        assert(next.drop_last() =~= prefix);
        assert(next.last() == ch);
        if ch < '0' || ch > '9' {
            assert(!is_digit(port_text[i - c - 1]));
            return Err(HashServiceError::InvalidNodeAddress);
        }
        let d = (ch as u32) - ('0' as u32);
        if value * 10 + d > 65535 {
            proof {
                assert(all_digits(next));
                if all_digits(port_text) {
                    lemma_digits_prefix(port_text, i - c);
                }
            }
            return Err(HashServiceError::InvalidNodeAddress);
        }
        value = value * 10 + d;
        i = i + 1;
    }
    assert(port_text.subrange(0, len - c - 1) =~= port_text);
    let host = entry.substring_char(0, c);
    Ok(Node { host: String::from_str(host), port: value as u16 })
}

/// Reads every configured node, in order; the first entry that is not
/// `host:port` fails the whole list.
pub fn parse_hostnames(hostnames: &Vec<String>) -> (r: Result<Vec<Node>, HashServiceError>)
    ensures
        r is Ok <==> forall|i: int| 0 <= i < hostnames@.len() ==> valid_address(#[trigger] hostnames@[i]@),
        r matches Ok(nodes) ==> nodes@.len() == hostnames@.len() && forall|i: int|
            0 <= i < hostnames@.len() ==> (#[trigger] nodes@[i]).host@ == host_part(hostnames@[i]@)
                && nodes@[i].port as nat == digits_value(port_part(hostnames@[i]@)),
        r matches Err(e) ==> e == HashServiceError::InvalidNodeAddress,
{
    let mut nodes: Vec<Node> = Vec::new();
    let mut i: usize = 0;
    while i < hostnames.len()
        invariant
            i <= hostnames@.len(),
            nodes@.len() == i,
            forall|j: int| 0 <= j < i ==> valid_address(#[trigger] hostnames@[j]@),
            forall|j: int|
                0 <= j < i ==> (#[trigger] nodes@[j]).host@ == host_part(hostnames@[j]@)
                    && nodes@[j].port as nat == digits_value(port_part(hostnames@[j]@)),
        decreases hostnames@.len() - i,
    {
        match parse_node(hostnames[i].as_str()) {
            Ok(n) => nodes.push(n),
            Err(e) => return Err(e),
        }
        i = i + 1;
    }
    Ok(nodes)
}

} // verus!
