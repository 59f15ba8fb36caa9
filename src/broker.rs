use vstd::prelude::*;

use crate::text::{chars_of, split_chars, split_on, string_of};

verus! {

/// The port of a pub/sub broker address that names none.
pub const DEFAULT_MQTT_PORT: u16 = 1883;

/// The topic prefix of the log backend when none is configured.
pub const DEFAULT_TOPIC_PREFIX: &'static str = "ratatoskr";

/// Connection settings of the log backend.
pub struct KafkaAdapterConfig {
    pub brokers: String,
    pub group_id: String,
    pub consume_topic: String,
    pub produce_topic: String,
}

/// The topic inbound events are published to.
pub struct KafkaInTopic(pub String);

/// The directory images are stored in.
pub struct ImageStorageDir(pub String);

/// An outbound text command in flat form.
pub struct OutgoingKafkaMessage {
    pub chat_id: i64,
    pub text: String,
    pub buttons: Option<Vec<Vec<crate::outgoing::ButtonInfo>>>,
}

/// The "in" and "out" topics under `prefix`: `{prefix}.in` and
/// `{prefix}.out`.
pub fn topic_names(prefix: &str) -> (r: (String, String))
    ensures
        r.0@ == prefix@ + seq!['.', 'i', 'n'],
        r.1@ == prefix@ + seq!['.', 'o', 'u', 't'],
{
    let mut a = chars_of(prefix);
    let mut b = chars_of(prefix);
    a.push('.');
    a.push('i');
    a.push('n');
    b.push('.');
    b.push('o');
    b.push('u');
    b.push('t');
    assert(a@ =~= prefix@ + seq!['.', 'i', 'n']);
    assert(b@ =~= prefix@ + seq!['.', 'o', 'u', 't']);
    (string_of(a.as_slice()), string_of(b.as_slice()))
}

pub open spec fn is_digit(c: char) -> bool {
    '0' <= c <= '9'
}

pub open spec fn all_digits(d: Seq<char>) -> bool {
    forall|k: int| 0 <= k < d.len() ==> is_digit(#[trigger] d[k])
}

/// The number that a run of decimal digits spells.
pub open spec fn digits_value(s: Seq<char>) -> int
    decreases s.len(),
{
    if s.len() == 0 {
        0
    } else {
        digits_value(s.drop_last()) * 10 + (s.last() as int - '0' as int)
    }
}

/// A port as `u16::from_str` reads it: an optional `+`, then one or more
/// decimal digits, of value at most 65535.
pub open spec fn parse_port(s: Seq<char>) -> Option<u16> {
    let d = if s.len() > 0 && s[0] == '+' {
        s.skip(1)
    } else {
        s
    };
    if d.len() > 0 && all_digits(d) && digits_value(d) <= 65535 {
        Some(digits_value(d) as u16)
    } else {
        None
    }
}

/// Host and port of a `host:port` address: the host is the text before the
/// first `:`; the port is the text after it, up to a second `:`, when it
/// reads as a port, and 1883 otherwise.
pub open spec fn broker_address(s: Seq<char>) -> (Seq<char>, u16) {
    let parts = split_on(s, ':');
    (
        parts[0],
        if parts.len() >= 2 && parse_port(parts[1]) is Some {
            parse_port(parts[1])->0
        } else {
            DEFAULT_MQTT_PORT
        },
    )
}

fn read_port(s: &Vec<char>) -> (r: Option<u16>)
    ensures
        r == parse_port(s@),
{
    let start: usize = if s.len() > 0 && s[0] == '+' {
        1
    } else {
        0
    };
    let ghost d = if s@.len() > 0 && s@[0] == '+' {
        s@.skip(1)
    } else {
        s@
    };
    assert(d =~= s@.skip(start as int));
    if start >= s.len() {
        return None;
    }
    let mut value: u32 = 0;
    let mut over = false;
    let mut k: usize = start;
    while k < s.len()
        invariant
            start <= k <= s@.len(),
            d == s@.skip(start as int),
            d == (if s@.len() > 0 && s@[0] == '+' {
                s@.skip(1)
            } else {
                s@
            }),
            forall|j: int| 0 <= j < k - start ==> is_digit(#[trigger] d[j]),
            !over ==> value == digits_value(d.take(k - start)) && value <= 65535,
            over ==> digits_value(d.take(k - start)) > 65535,
            digits_value(d.take(k - start)) >= 0,
        decreases s@.len() - k,
    {
        let c = s[k];
        assert(d[k - start] == s@[k as int]);
        if !('0' <= c && c <= '9') {
            assert(!is_digit(d[k - start]));
            assert(!all_digits(d));
            return None;
        }
        let ghost prev = d.take(k - start);
        assert(d.take(k - start + 1).drop_last() =~= prev);
        assert(d.take(k - start + 1).last() == c);
        if !over {
            let digit = (c as u32) - ('0' as u32);
            value = value * 10 + digit;
            if value > 65535 {
                over = true;
            }
        }
        k = k + 1;
    }
    assert(d.take(k - start) =~= d);
    if over {
        None
    } else {
        Some(value as u16)
    }
}

/// The host and port of a pub/sub broker address; see `broker_address`.
pub fn parse_broker_address(broker: &str) -> (r: (String, u16))
    ensures
        r.0@ == broker_address(broker@).0,
        r.1 == broker_address(broker@).1,
{
    let cs = chars_of(broker);
    let parts = split_chars(&cs, ':');
    assert(parts@[0]@ == split_on(cs@, ':')[0]);
    let host = string_of(parts[0].as_slice());
    let mut port = DEFAULT_MQTT_PORT;
    if parts.len() >= 2 {
        assert(parts@[1]@ == split_on(cs@, ':')[1]);
        match read_port(&parts[1]) {
            Some(p) => {
                port = p;
            },
            None => {},
        }
    }
    (host, port)
}

} // verus!
