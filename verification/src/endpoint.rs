//! Target endpoints and per-push options.
//!
//! An endpoint is a host and port, written `host:port`; named presets cover
//! the service's production and sandbox hosts on both of its ports. Push
//! options map one to one onto transport headers; building the header list
//! checks every caller-supplied value against the header character rules.
use vstd::prelude::*;

use crate::json::dec_seq;

verus! {

/// A push service endpoint: host and port.
pub struct Endpoint {
    pub endpoint: String,
    pub port: u16,
}

/// The canonical URL text of an endpoint.
pub open spec fn endpoint_url_text(e: Endpoint) -> Seq<char> {
    "https://"@ + e.endpoint@ + seq![':'] + dec_seq(e.port as nat)
}

/// Whether `c` is a decimal digit.
pub open spec fn is_digit(c: char) -> bool {
    48 <= c as u32 && c as u32 <= 57
}

/// Whether every character of `s` is a decimal digit.
pub open spec fn all_digits(s: Seq<char>) -> bool {
    forall|i: int| 0 <= i < s.len() ==> is_digit(#[trigger] s[i])
}

/// The numeric value of a digit string, read left to right.
pub open spec fn digits_val(s: Seq<char>) -> int
    decreases s.len(),
{
    if s.len() == 0 {
        0
    } else {
        digits_val(s.drop_last()) * 10 + (s.last() as u32 - 48)
    }
}

/// How a port number is read from text: an optional leading plus sign, then
/// at least one digit, with a value of at most 65535.
pub open spec fn parse_u16_spec(s: Seq<char>) -> Option<u16> {
    let ds = if s.len() > 0 && s[0] == '+' {
        s.subrange(1, s.len() as int)
    } else {
        s
    };
    if ds.len() > 0 && all_digits(ds) && digits_val(ds) <= 65535 {
        Some(digits_val(ds) as u16)
    } else {
        None
    }
}

/// Whether `s` holds no colon.
pub open spec fn colon_free(s: Seq<char>) -> bool {
    forall|i: int| 0 <= i < s.len() ==> (#[trigger] s[i]) != ':'
}

/// Whether `s` is a well-formed `host:port` text: exactly one colon, and
/// what follows it reads as a port number.
pub open spec fn valid_endpoint_text(s: Seq<char>) -> bool {
    exists|ci: int|
        0 <= ci < s.len() && #[trigger] s[ci] == ':' && colon_free(s.subrange(0, ci)) && colon_free(
            s.subrange(ci + 1, s.len() as int),
        ) && parse_u16_spec(s.subrange(ci + 1, s.len() as int)) is Some
}

/// A digit string has a nonnegative value.
proof fn lemma_digits_val_nonneg(s: Seq<char>)
    requires
        all_digits(s),
    ensures
        digits_val(s) >= 0,
    decreases s.len(),
{
    if s.len() > 0 {
        assert(all_digits(s.drop_last()));
        lemma_digits_val_nonneg(s.drop_last());
    }
}

/// Reading further digits never shrinks the value.
proof fn lemma_digits_val_grows(s: Seq<char>, i: int, j: int, n: int)
    requires
        0 <= i <= j <= n <= s.len(),
        all_digits(s.subrange(i, n)),
        forall|k: int| i <= k < n ==> is_digit(#[trigger] s[k]),
    ensures
        digits_val(s.subrange(i, n)) >= digits_val(s.subrange(i, j)),
    decreases n - j,
{
    if j < n {
        lemma_digits_val_grows(s, i, j + 1, n);
        assert(s.subrange(i, j + 1).drop_last() =~= s.subrange(i, j));
        assert(s.subrange(i, j + 1).last() == s[j]);
        assert(all_digits(s.subrange(i, j)));
        lemma_digits_val_nonneg(s.subrange(i, j));
        assert(digits_val(s.subrange(i, j + 1)) == digits_val(s.subrange(i, j)) * 10 + (
        s[j] as u32 - 48));
    }
}

/// Reads a port number from text, as `parse_u16_spec` says.
fn parse_port(s: &str) -> (r: Option<u16>)
    ensures
        r == parse_u16_spec(s@),
{
    let n = s.unicode_len();
    let mut i: usize = 0;
    if n > 0 && s.get_char(0) == '+' {
        i = 1;
    }
    let ghost ds = if s@.len() > 0 && s@[0] == '+' {
        s@.subrange(1, s@.len() as int)
    } else {
        s@
    };
    proof {
        assert(ds =~= s@.subrange(i as int, s@.len() as int));
    }
    if i >= n {
        return None;
    }
    let start = i;
    let mut val: u32 = 0;
    let mut j = i;
    while j < n
        invariant
            start <= j <= n,
            n == s@.len(),
            start <= 1,
            (start == 1) == (s@.len() > 0 && s@[0] == '+'),
            ds == s@.subrange(start as int, s@.len() as int),
            forall|k: int| start <= k < j ==> is_digit(#[trigger] s@[k]),
            val == digits_val(s@.subrange(start as int, j as int)),
            val <= 65535,
        decreases n - j,
    {
        let c = s.get_char(j);
        let d = c as u32;
        if d < 48 || d > 57 {
            proof {
                assert(ds[j as int - start as int] == s@[j as int]);
                assert(!all_digits(ds));
                assert(ds =~= (if s@.len() > 0 && s@[0] == '+' {
                    s@.subrange(1, s@.len() as int)
                } else {
                    s@
                }));
            }
            return None;
        }
        proof {
            assert(s@.subrange(start as int, j as int + 1).drop_last() =~= s@.subrange(
                start as int,
                j as int,
            ));
            assert(s@.subrange(start as int, j as int + 1).last() == s@[j as int]);
        }
        let nv = val * 10 + (d - 48);
        if nv > 65535 {
            proof {
                if all_digits(ds) {
                    assert forall|k: int| start <= k < n implies is_digit(#[trigger] s@[k]) by {
                        assert(ds[k - start] == s@[k]);
                        assert(is_digit(ds[k - start]));
                    }
                    assert(all_digits(s@.subrange(start as int, n as int)));
                    assert(digits_val(s@.subrange(start as int, j as int + 1)) == nv);
                    lemma_digits_val_grows(s@, start as int, j as int + 1, n as int);
                    assert(digits_val(ds) > 65535);
                }
                assert(ds.len() > 0);
                assert(ds =~= (if s@.len() > 0 && s@[0] == '+' {
                    s@.subrange(1, s@.len() as int)
                } else {
                    s@
                }));
            }
            return None;
        }
        val = nv;
        j = j + 1;
    }
    proof {
        assert(ds =~= s@.subrange(start as int, n as int));
        assert(ds =~= (if s@.len() > 0 && s@[0] == '+' {
            s@.subrange(1, s@.len() as int)
        } else {
            s@
        }));
        assert forall|k: int| 0 <= k < ds.len() implies is_digit(#[trigger] ds[k]) by {
            assert(ds[k] == s@[k + start]);
        }
        assert(all_digits(ds));
        assert(digits_val(ds) == val);
    }
    Some(val as u16)
}

impl Endpoint {
    /// The canonical URL for this endpoint.
    pub fn to_url(&self) -> (u: String)
        ensures
            u@ == endpoint_url_text(*self),
    {
        let mut u = "https://".to_owned();
        u.append(self.endpoint.as_str());
        u.append(":");
        let digits = crate::json::u64_to_string(self.port as u64);
        u.append(digits.as_str());
        proof {
            reveal_strlit(":");
            assert(":"@ =~= seq![':']);
            assert(u@ =~= endpoint_url_text(*self));
        }
        u
    }

    /// Reads an endpoint back from `host:port` text; the text must hold
    /// exactly one colon, followed by a port number.
    pub fn try_from(s: &str) -> (r: Result<Endpoint, ()>)
        ensures
            r is Ok <==> valid_endpoint_text(s@),
            r matches Ok(e) ==> exists|ci: int|
                0 <= ci < s@.len() && #[trigger] s@[ci] == ':' && e.endpoint@ == s@.subrange(0, ci)
                    && parse_u16_spec(s@.subrange(ci + 1, s@.len() as int)) == Some(e.port),
    {
        let n = s.unicode_len();
        let mut colon: Option<usize> = None;
        let mut j: usize = 0;
        while j < n
            invariant
                j <= n,
                n == s@.len(),
                match colon {
                    None => forall|k: int| 0 <= k < j ==> (#[trigger] s@[k]) != ':',
                    Some(ci) => ci < j && s@[ci as int] == ':' && (forall|k: int|
                        0 <= k < j && k != ci ==> (#[trigger] s@[k]) != ':'),
                },
            decreases n - j,
        {
            let c = s.get_char(j);
            if c == ':' {
                match colon {
                    None => {
                        colon = Some(j);
                    },
                    Some(c1) => {
                        proof {
                            assert(!valid_endpoint_text(s@)) by {
                                if valid_endpoint_text(s@) {
                                    let ci = choose|ci: int|
                                        0 <= ci < s@.len() && #[trigger] s@[ci] == ':'
                                            && colon_free(s@.subrange(0, ci)) && colon_free(
                                            s@.subrange(ci + 1, s@.len() as int),
                                        ) && parse_u16_spec(
                                            s@.subrange(ci + 1, s@.len() as int),
                                        ) is Some;
                                    if ci < j {
                                        assert(s@.subrange(ci + 1, s@.len() as int)[j - ci - 1]
                                            == s@[j as int]);
                                    } else {
                                        assert(s@.subrange(0, ci)[c1 as int] == s@[c1 as int]);
                                    }
                                }
                            }
                        }
                        return Err(());
                    },
                }
            }
            j = j + 1;
        }
        match colon {
            None => {
                proof {
                    assert(!valid_endpoint_text(s@)) by {
                        if valid_endpoint_text(s@) {
                            let ci = choose|ci: int|
                                0 <= ci < s@.len() && #[trigger] s@[ci] == ':';
                        }
                    }
                }
                Err(())
            },
            Some(ci) => {
                let host = s.substring_char(0, ci).to_owned();
                let port_str = s.substring_char(ci + 1, n);
                match parse_port(port_str) {
                    Some(p) => {
                        proof {
                            assert(valid_endpoint_text(s@)) by {
                                assert(colon_free(s@.subrange(0, ci as int)));
                                assert(colon_free(s@.subrange(ci + 1, s@.len() as int))) by {
                                    assert(forall|k: int|
                                        0 <= k < s@.len() - ci - 1 ==> #[trigger] s@.subrange(
                                            ci + 1,
                                            s@.len() as int,
                                        )[k] == s@[k + ci + 1]);
                                }
                            }
                        }
                        Ok(Endpoint { endpoint: host, port: p })
                    },
                    None => {
                        proof {
                            assert(!valid_endpoint_text(s@)) by {
                                if valid_endpoint_text(s@) {
                                    let cx = choose|cx: int|
                                        0 <= cx < s@.len() && #[trigger] s@[cx] == ':'
                                            && colon_free(s@.subrange(0, cx)) && colon_free(
                                            s@.subrange(cx + 1, s@.len() as int),
                                        ) && parse_u16_spec(
                                            s@.subrange(cx + 1, s@.len() as int),
                                        ) is Some;
                                    if cx < ci {
                                        assert(s@.subrange(cx + 1, s@.len() as int)[ci - cx - 1]
                                            == s@[ci as int]);
                                    } else if cx > ci {
                                        assert(s@.subrange(0, cx)[ci as int] == s@[ci as int]);
                                    }
                                }
                            }
                        }
                        Err(())
                    },
                }
            },
        }
    }

    /// The sandbox host on the standard port.
    pub fn development() -> (e: Endpoint)
        ensures
            e.endpoint@ == "api.sandbox.push.apple.com"@,
            e.port == 443,
    {
        Endpoint { endpoint: "api.sandbox.push.apple.com".to_owned(), port: 443 }
    }

    /// The sandbox host on the alternate port.
    pub fn development_alter() -> (e: Endpoint)
        ensures
            e.endpoint@ == "api.sandbox.push.apple.com"@,
            e.port == 2197,
    {
        Endpoint { endpoint: "api.sandbox.push.apple.com".to_owned(), port: 2197 }
    }

    /// The production host on the standard port.
    pub fn production() -> (e: Endpoint)
        ensures
            e.endpoint@ == "api.push.apple.com"@,
            e.port == 443,
    {
        Endpoint { endpoint: "api.push.apple.com".to_owned(), port: 443 }
    }

    /// The production host on the alternate port.
    pub fn production_alter() -> (e: Endpoint)
        ensures
            e.endpoint@ == "api.push.apple.com"@,
            e.port == 2197,
    {
        Endpoint { endpoint: "api.push.apple.com".to_owned(), port: 2197 }
    }
}

impl Default for Endpoint {
    /// The production endpoint.
    fn default() -> (e: Endpoint)
        ensures
            e.endpoint@ == "api.push.apple.com"@,
            e.port == 443,
    {
        Endpoint::production()
    }
}

/// Per-push options; each maps one to one onto a transport header, and all
/// but the topic are optional.
pub struct PushOption {
    pub push_type: Option<String>,
    pub id: Option<String>,
    pub expiration: Option<u128>,
    pub priority: Option<u8>,
    pub topic: String,
    pub collapse_id: Option<String>,
}

impl Default for PushOption {
    /// No options set and an empty topic.
    fn default() -> (o: PushOption)
        ensures
            o == (PushOption {
                push_type: None,
                id: None,
                expiration: None,
                priority: None,
                topic: o.topic,
                collapse_id: None,
            }),
            o.topic@ == Seq::<char>::empty(),
    {
        PushOption {
            push_type: None,
            id: None,
            expiration: None,
            priority: None,
            topic: String::new(),
            collapse_id: None,
        }
    }
}

/// Whether `c` may stand in a transport header value: horizontal tab or any
/// character from the space on, except delete.
pub open spec fn header_char_ok(c: char) -> bool {
    c == '\t' || (32 <= c as u32 && c as u32 != 127)
}

/// Whether every character of `s` may stand in a header value.
pub open spec fn header_value_ok(s: Seq<char>) -> bool {
    forall|i: int| 0 <= i < s.len() ==> header_char_ok(#[trigger] s[i])
}

/// Whether every caller-supplied option value is valid header content.
pub open spec fn push_option_valid(o: PushOption) -> bool {
    &&& (o.push_type matches Some(v) ==> header_value_ok(v@))
    &&& (o.id matches Some(v) ==> header_value_ok(v@))
    &&& (o.collapse_id matches Some(v) ==> header_value_ok(v@))
    &&& header_value_ok(o.topic@)
}

/// The header list an option set produces, in order; the topic comes last
/// and is always present.
pub open spec fn push_option_headers(o: PushOption) -> Seq<(Seq<char>, Seq<char>)> {
    (match o.push_type {
        None => Seq::empty(),
        Some(v) => seq![("apns-push-type"@, v@)],
    }) + (match o.id {
        None => Seq::empty(),
        Some(v) => seq![("apns-id"@, v@)],
    }) + (match o.expiration {
        None => Seq::empty(),
        Some(e) => seq![("apns-expiration"@, dec_seq(e as nat))],
    }) + (match o.priority {
        None => Seq::empty(),
        Some(p) => seq![("apns-priority"@, dec_seq(p as nat))],
    }) + (match o.collapse_id {
        None => Seq::empty(),
        Some(v) => seq![("apns-collapse-id"@, v@)],
    }) + seq![("apns-topic"@, o.topic@)]
}

/// The key and value texts of a built header list.
pub open spec fn header_pairs_model(hs: Seq<(String, String)>) -> Seq<(Seq<char>, Seq<char>)> {
    hs.map_values(|p: (String, String)| (p.0@, p.1@))
}

/// Checks a header value, as `header_value_ok` says.
fn check_header_value(s: &str) -> (b: bool)
    ensures
        b == header_value_ok(s@),
{
    let n = s.unicode_len();
    let mut j: usize = 0;
    while j < n
        invariant
            j <= n,
            n == s@.len(),
            forall|k: int| 0 <= k < j ==> header_char_ok(#[trigger] s@[k]),
        decreases n - j,
    {
        let c = s.get_char(j);
        let code = c as u32;
        if !(c == '\t' || (32 <= code && code != 127)) {
            return false;
        }
        j = j + 1;
    }
    true
}

/// Adds one header at the end of the list under construction.
fn push_header(hs: &mut Vec<(String, String)>, key: &str, value: String)
    ensures
        header_pairs_model(final(hs)@) == header_pairs_model(old(hs)@).push((key@, value@)),
{
    let k = key.to_owned();
    let ghost gv = value@;
    hs.push((k, value));
    proof {
        assert(header_pairs_model(final(hs)@) =~~= header_pairs_model(old(hs)@).push((key@, gv)));
    }
}

/// Builds the transport header list for an option set. Every caller-supplied
/// value is checked against the header character rules; the first invalid
/// one rejects the whole set.
#[verifier::rlimit(60)]
pub fn build_headers(o: &PushOption) -> (r: Result<Vec<(String, String)>, ()>)
    ensures
        r is Ok <==> push_option_valid(*o),
        r matches Ok(hs) ==> header_pairs_model(hs@) == push_option_headers(*o),
{
    let mut hs: Vec<(String, String)> = Vec::new();
    let ghost mut mdl: Seq<(Seq<char>, Seq<char>)> = Seq::empty();
    proof {
        assert(header_pairs_model(hs@) =~= mdl);
    }
    if let Some(v) = &o.push_type {
        if !check_header_value(v.as_str()) {
            return Err(());
        }
        push_header(&mut hs, "apns-push-type", v.clone());
    }
    proof {
        mdl = mdl + (if o.push_type is Some {
            seq![("apns-push-type"@, o.push_type->0@)]
        } else {
            Seq::empty()
        });
        assert(header_pairs_model(hs@) =~= mdl);
    }
    if let Some(v) = &o.id {
        if !check_header_value(v.as_str()) {
            return Err(());
        }
        push_header(&mut hs, "apns-id", v.clone());
    }
    proof {
        mdl = mdl + (if o.id is Some {
            seq![("apns-id"@, o.id->0@)]
        } else {
            Seq::empty()
        });
        assert(header_pairs_model(hs@) =~= mdl);
    }
    if let Some(e) = &o.expiration {
        let ev = *e;
        let digits = crate::json::u128_to_string(ev);
        push_header(&mut hs, "apns-expiration", digits);
    }
    proof {
        mdl = mdl + (match o.expiration {
            None => Seq::empty(),
            Some(e) => seq![("apns-expiration"@, dec_seq(e as nat))],
        });
        assert(header_pairs_model(hs@) =~= mdl);
    }
    if let Some(p) = &o.priority {
        let pv = *p;
        let digits = crate::json::u64_to_string(pv as u64);
        push_header(&mut hs, "apns-priority", digits);
    }
    proof {
        mdl = mdl + (match o.priority {
            None => Seq::empty(),
            Some(p) => seq![("apns-priority"@, dec_seq(p as nat))],
        });
        assert(header_pairs_model(hs@) =~= mdl);
    }
    if let Some(v) = &o.collapse_id {
        if !check_header_value(v.as_str()) {
            return Err(());
        }
        push_header(&mut hs, "apns-collapse-id", v.clone());
    }
    proof {
        mdl = mdl + (if o.collapse_id is Some {
            seq![("apns-collapse-id"@, o.collapse_id->0@)]
        } else {
            Seq::empty()
        });
        assert(header_pairs_model(hs@) =~= mdl);
    }
    if !check_header_value(o.topic.as_str()) {
        return Err(());
    }
    push_header(&mut hs, "apns-topic", o.topic.clone());
    proof {
        mdl = mdl + seq![("apns-topic"@, o.topic@)];
        assert(header_pairs_model(hs@) =~= mdl);
        assert(mdl =~= push_option_headers(*o));
    }
    Ok(hs)
}

} // verus!
