//! What a visit's request headers say about the visitor: address, language,
//! browser and kind of device.
use crate::address::{all_digits, digits_value, is_digit, lemma_digits_prefix};
use crate::textsearch::{before_first, contains, has_substring, segment_before};
use vstd::prelude::*;

verus! {

/// The lower-case form of a string.
pub uninterp spec fn lower_of(s: Seq<char>) -> Seq<char>;

/// Relies on str::to_lowercase: the lower-case form, which depends on the
/// characters alone.
#[verifier::external_body]
fn lowercase(s: &str) -> (r: String)
    ensures
        r@ == lower_of(s@),
{
    s.to_lowercase()
}

/// A string without leading and trailing white space.
pub uninterp spec fn trimmed(s: Seq<char>) -> Seq<char>;

/// `p` is a contiguous piece of `s`.
pub open spec fn is_piece_of(p: Seq<char>, s: Seq<char>) -> bool {
    exists|i: int, j: int| 0 <= i <= j <= s.len() && p == #[trigger] s.subrange(i, j)
}

/// Relies on str::trim: the text without leading and trailing white space, a
/// contiguous piece of the text; an empty text stays empty.
#[verifier::external_body]
fn trim(s: &str) -> (r: &str)
    ensures
        r@ == trimmed(s@),
        is_piece_of(r@, s@),
        s@.len() == 0 ==> r@.len() == 0,
{
    s.trim()
}

// Browsers and devices.

pub open spec fn mentions(s: Seq<char>, needle: Seq<char>) -> bool {
    has_substring(s, needle)
}

/// The browser named by a lower-case user agent, most specific first.
pub open spec fn browser_of(l: Seq<char>) -> Seq<char> {
    if mentions(l, "edg/"@) || mentions(l, "edge/"@) {
        "Microsoft Edge"@
    } else if mentions(l, "chrome/"@) && !mentions(l, "chromium/"@) {
        "Chrome"@
    } else if mentions(l, "firefox/"@) {
        "Firefox"@
    } else if mentions(l, "safari/"@) && !mentions(l, "chrome"@) {
        "Safari"@
    } else if mentions(l, "opera/"@) || mentions(l, "opr/"@) {
        "Opera"@
    } else if mentions(l, "chromium/"@) {
        "Chromium"@
    } else if mentions(l, "trident/"@) || mentions(l, "msie"@) {
        "Internet Explorer"@
    } else {
        "Unknown"@
    }
}

/// The kind of device named by a lower-case user agent.
pub open spec fn device_of(l: Seq<char>) -> Seq<char> {
    if mentions(l, "mobile"@) || mentions(l, "android"@) || mentions(l, "iphone"@) || mentions(l, "ipod"@) || mentions(
        l,
        "blackberry"@,
    ) || mentions(l, "windows phone"@) {
        "Mobile"@
    } else if mentions(l, "tablet"@) || mentions(l, "ipad"@) || mentions(l, "kindle"@) || mentions(l, "silk"@) {
        "Tablet"@
    } else if mentions(l, "smart-tv"@) || mentions(l, "googletv"@) || mentions(l, "appletv"@) || mentions(
        l,
        "hbbtv"@,
    ) {
        "Smart TV"@
    } else if mentions(l, "playstation"@) || mentions(l, "xbox"@) || mentions(l, "nintendo"@) {
        "Gaming Console"@
    } else if mentions(l, "bot"@) || mentions(l, "crawler"@) || mentions(l, "spider"@) || mentions(l, "scraper"@) {
        "Bot"@
    } else {
        "Desktop"@
    }
}

/// The browser named by a lower-case user agent.
pub fn classify_browser(l: &str) -> (r: &'static str)
    ensures
        r@ == browser_of(l@),
{
    if contains(l, "edg/") || contains(l, "edge/") {
        "Microsoft Edge"
    } else if contains(l, "chrome/") && !contains(l, "chromium/") {
        "Chrome"
    } else if contains(l, "firefox/") {
        "Firefox"
    } else if contains(l, "safari/") && !contains(l, "chrome") {
        "Safari"
    } else if contains(l, "opera/") || contains(l, "opr/") {
        "Opera"
    } else if contains(l, "chromium/") {
        "Chromium"
    } else if contains(l, "trident/") || contains(l, "msie") {
        "Internet Explorer"
    } else {
        "Unknown"
    }
}

/// The kind of device named by a lower-case user agent.
pub fn classify_device(l: &str) -> (r: &'static str)
    ensures
        r@ == device_of(l@),
{
    if contains(l, "mobile") || contains(l, "android") || contains(l, "iphone") || contains(
        l,
        "ipod",
    ) || contains(l, "blackberry") || contains(l, "windows phone") {
        "Mobile"
    } else if contains(l, "tablet") || contains(l, "ipad") || contains(l, "kindle") || contains(
        l,
        "silk",
    ) {
        "Tablet"
    } else if contains(l, "smart-tv") || contains(l, "googletv") || contains(l, "appletv")
        || contains(l, "hbbtv") {
        "Smart TV"
    } else if contains(l, "playstation") || contains(l, "xbox") || contains(l, "nintendo") {
        "Gaming Console"
    } else if contains(l, "bot") || contains(l, "crawler") || contains(l, "spider") || contains(
        l,
        "scraper",
    ) {
        "Bot"
    } else {
        "Desktop"
    }
}

/// The browser of the visitor, from the `User-Agent` header.
pub fn extract_browser(user_agent: Option<&str>) -> (r: Option<String>)
    ensures
        user_agent is None ==> r is None,
        user_agent matches Some(u) ==> r matches Some(b) && b@ == browser_of(lower_of(u@)),
{
    match user_agent {
        None => None,
        Some(u) => {
            let l = lowercase(u);
            Some(String::from_str(classify_browser(l.as_str())))
        },
    }
}

/// The kind of device of the visitor, from the `User-Agent` header.
pub fn extract_device_type(user_agent: Option<&str>) -> (r: Option<String>)
    ensures
        user_agent is None ==> r is None,
        user_agent matches Some(u) ==> r matches Some(d) && d@ == device_of(lower_of(u@)),
{
    match user_agent {
        None => None,
        Some(u) => {
            let l = lowercase(u);
            Some(String::from_str(classify_device(l.as_str())))
        },
    }
}

/// The preferred language: the first entry of the `Accept-Language` header.
pub fn extract_language(accept_language: Option<&str>) -> (r: Option<String>)
    ensures
        accept_language is None ==> r is None,
        accept_language matches Some(a) ==> r matches Some(l) && l@ == before_first(a@, ','),
{
    match accept_language {
        None => None,
        Some(a) => Some(String::from_str(segment_before(a, ','))),
    }
}

/// The text of a header, where it is present.
pub fn extract_header_text(value: Option<&str>) -> (r: Option<String>)
    ensures
        value is None ==> r is None,
        value matches Some(v) ==> r matches Some(t) && t@ == v@,
{
    match value {
        None => None,
        Some(v) => Some(String::from_str(v)),
    }
}

/// The visitor's place as `city, country`.
pub fn format_location(city: &str, country: &str) -> (r: String)
    ensures
        r@ == city@ + ", "@ + country@,
{
    let mut s = String::from_str(city);
    s.append(", ");
    s.append(country);
    s
}

// Addresses.

pub open spec fn is_hex_or_colon(c: char) -> bool {
    ('0' <= c && c <= '9') || ('a' <= c && c <= 'f') || ('A' <= c && c <= 'F') || c == ':'
}

/// How often `c` occurs in `s`.
pub open spec fn count_char(s: Seq<char>, c: char) -> nat
    decreases s.len(),
{
    if s.len() == 0 {
        0
    } else {
        count_char(s.drop_last(), c) + if s.last() == c {
            1nat
        } else {
            0nat
        }
    }
}

/// `p` reads as a byte: an optional `+`, then one or more decimal digits
/// whose value is at most 255.
pub open spec fn parses_u8(p: Seq<char>) -> bool {
    let d = if p.len() > 0 && p[0] == '+' {
        p.drop_first()
    } else {
        p
    };
    d.len() > 0 && all_digits(d) && digits_value(d) <= 255
}

/// Scans `s` split at each `.`: the number of finished parts that read as a
/// byte, and the part still open.
pub open spec fn scan_parts(s: Seq<char>) -> (nat, Seq<char>)
    decreases s.len(),
{
    if s.len() == 0 {
        (0, Seq::empty())
    } else {
        let (c, cur) = scan_parts(s.drop_last());
        if s.last() == '.' {
            (c + if parses_u8(cur) {
                1nat
            } else {
                0nat
            }, Seq::empty())
        } else {
            (c, cur.push(s.last()))
        }
    }
}

/// The number of `.`-separated parts of `s` that read as a byte.
pub open spec fn byte_part_count(s: Seq<char>) -> nat {
    scan_parts(s).0 + if parses_u8(scan_parts(s).1) {
        1nat
    } else {
        0nat
    }
}

/// An address with a `:` passes when it holds only hexadecimal digits and
/// colons, at least two of them; any other passes when exactly four of its
/// `.`-separated parts read as a byte.
pub open spec fn valid_ip(s: Seq<char>) -> bool {
    if count_char(s, ':') > 0 {
        (forall|i: int| 0 <= i < s.len() ==> is_hex_or_colon(#[trigger] s[i])) && count_char(s, ':')
            >= 2
    } else {
        byte_part_count(s) == 4
    }
}

/// Whether `p` reads as a byte.
pub fn parse_u8(p: &str) -> (r: bool)
    ensures
        r == parses_u8(p@),
{
    let len = p.unicode_len();
    let ghost d = if p@.len() > 0 && p@[0] == '+' {
        p@.drop_first()
    } else {
        p@
    };
    let start: usize = if len > 0 && p.get_char(0) == '+' {
        1
    } else {
        0
    };
    assert(d =~= p@.subrange(start as int, len as int));
    if start == len {
        return false;
    }
    let mut value: u32 = 0;
    let mut i: usize = start;
    while i < len
        invariant
            len == p@.len(),
            start <= i <= len,
            d == p@.subrange(start as int, len as int),
            d == (if p@.len() > 0 && p@[0] == '+' {
                p@.drop_first()
            } else {
                p@
            }),
            d.len() > 0,
            all_digits(d.subrange(0, i - start)),
            value == digits_value(d.subrange(0, i - start)),
            value <= 255,
        decreases len - i,
    {
        let ch = p.get_char(i);
        let ghost prefix = d.subrange(0, i - start);
        let ghost next = d.subrange(0, i - start + 1);
        assert(next.drop_last() =~= prefix);
        assert(next.last() == ch);
        if ch < '0' || ch > '9' {
            assert(!is_digit(d[i - start]));
            return false;
        }
        let v = (ch as u32) - ('0' as u32);
        if value * 10 + v > 255 {
            proof {
                assert(all_digits(next));
                if all_digits(d) {
                    lemma_digits_prefix(d, i - start + 1);
                }
            }
            return false;
        }
        value = value * 10 + v;
        i = i + 1;
    }
    assert(d.subrange(0, len - start) =~= d);
    true
}

/// Whether `ip` looks like an IPv6 or an IPv4 address.
pub fn is_valid_ip(ip: &str) -> (r: bool)
    ensures
        r == valid_ip(ip@),
{
    let len = ip.unicode_len();
    let mut colons: usize = 0;
    let mut all_hex = true;
    let mut i: usize = 0;
    while i < len
        invariant
            len == ip@.len(),
            i <= len,
            colons == count_char(ip@.subrange(0, i as int), ':'),
            colons <= i,
            all_hex == forall|j: int| 0 <= j < i ==> is_hex_or_colon(#[trigger] ip@[j]),
        decreases len - i,
    {
        let c = ip.get_char(i);
        assert(ip@.subrange(0, i + 1).drop_last() =~= ip@.subrange(0, i as int));
        if c == ':' {
            colons = colons + 1;
        }
        if !(('0' <= c && c <= '9') || ('a' <= c && c <= 'f') || ('A' <= c && c <= 'F') || c == ':') {
            all_hex = false;
        }
        i = i + 1;
    }
    assert(ip@.subrange(0, len as int) =~= ip@);
    if colons > 0 {
        return all_hex && colons >= 2;
    }
    let mut count: usize = 0;
    let mut start: usize = 0;
    let mut k: usize = 0;
    while k < len
        invariant
            len == ip@.len(),
            start <= k <= len,
            count <= k,
            scan_parts(ip@.subrange(0, k as int)) == (count as nat, ip@.subrange(start as int, k as int)),
        decreases len - k,
    {
        let c = ip.get_char(k);
        let ghost prev = ip@.subrange(0, k as int);
        assert(ip@.subrange(0, k + 1).drop_last() =~= prev);
        assert(ip@.subrange(0, k + 1).last() == c);
        if c == '.' {
            let part = ip.substring_char(start, k);
            if parse_u8(part) {
                count = count + 1;
            }
            start = k + 1;
            assert(ip@.subrange(start as int, k + 1) =~= Seq::<char>::empty());
        } else {
            assert(ip@.subrange(start as int, k + 1) =~= ip@.subrange(start as int, k as int).push(c));
        }
        k = k + 1;
    }
    let last = ip.substring_char(start, len);
    let last_ok = parse_u8(last);
    if last_ok {
        count == 3
    } else {
        count == 4
    }
}

/// The address a header gives, trimmed, where it is non-empty and looks valid.
pub open spec fn candidate(h: Option<Seq<char>>) -> Option<Seq<char>> {
    match h {
        Some(v) => if trimmed(v).len() > 0 && valid_ip(trimmed(v)) {
            Some(trimmed(v))
        } else {
            None
        },
        None => None,
    }
}

pub open spec fn text_of(h: Option<&str>) -> Option<Seq<char>> {
    match h {
        Some(v) => Some(v@),
        None => None,
    }
}

/// The first entry of a comma-separated header.
pub open spec fn first_entry(h: Option<Seq<char>>) -> Option<Seq<char>> {
    match h {
        Some(v) => Some(before_first(v, ',')),
        None => None,
    }
}

/// The visitor's address: the first usable one among the headers, most
/// trusted first; of `X-Forwarded-For` only the first entry counts.
pub open spec fn chosen_ip(
    cf_connecting_ip: Option<Seq<char>>,
    true_client_ip: Option<Seq<char>>,
    x_real_ip: Option<Seq<char>>,
    x_forwarded_for: Option<Seq<char>>,
    remote_addr: Option<Seq<char>>,
) -> Option<Seq<char>> {
    if candidate(cf_connecting_ip) is Some {
        candidate(cf_connecting_ip)
    } else if candidate(true_client_ip) is Some {
        candidate(true_client_ip)
    } else if candidate(x_real_ip) is Some {
        candidate(x_real_ip)
    } else if candidate(first_entry(x_forwarded_for)) is Some {
        candidate(first_entry(x_forwarded_for))
    } else {
        candidate(remote_addr)
    }
}

fn usable_ip(h: Option<&str>) -> (r: Option<String>)
    ensures
        match r {
            Some(s) => candidate(text_of(h)) == Some(s@),
            None => candidate(text_of(h)) is None,
        },
{
    match h {
        None => None,
        Some(v) => {
            let t = trim(v);
            if t.unicode_len() > 0 && is_valid_ip(t) {
                Some(String::from_str(t))
            } else {
                None
            }
        },
    }
}

/// The visitor's address from the request headers, most trusted first:
/// `CF-Connecting-IP`, `True-Client-IP`, `X-Real-IP`, the first entry of
/// `X-Forwarded-For`, then the remote address.
pub fn extract_ip(
    cf_connecting_ip: Option<&str>,
    true_client_ip: Option<&str>,
    x_real_ip: Option<&str>,
    x_forwarded_for: Option<&str>,
    remote_addr: Option<&str>,
) -> (r: Option<String>)
    ensures
        match r {
            Some(s) => chosen_ip(
                text_of(cf_connecting_ip),
                text_of(true_client_ip),
                text_of(x_real_ip),
                text_of(x_forwarded_for),
                text_of(remote_addr),
            ) == Some(s@),
            None => chosen_ip(
                text_of(cf_connecting_ip),
                text_of(true_client_ip),
                text_of(x_real_ip),
                text_of(x_forwarded_for),
                text_of(remote_addr),
            ) is None,
        },
{
    if let Some(ip) = usable_ip(cf_connecting_ip) {
        return Some(ip);
    }
    if let Some(ip) = usable_ip(true_client_ip) {
        return Some(ip);
    }
    if let Some(ip) = usable_ip(x_real_ip) {
        return Some(ip);
    }
    let first = match x_forwarded_for {
        Some(v) => Some(segment_before(v, ',')),
        None => None,
    };
    assert(text_of(first) == first_entry(text_of(x_forwarded_for)));
    if let Some(ip) = usable_ip(first) {
        return Some(ip);
    }
    usable_ip(remote_addr)
}

} // verus!
