use vstd::prelude::*;
use vstd::string::*;

verus! {

/// Port the message service listens on when none is configured.
pub const DEFAULT_PORT: u16 = 3004;

/// A non-empty run of ASCII decimal digits.
pub open spec fn is_decimal(s: Seq<char>) -> bool {
    s.len() > 0 && forall|i: int| 0 <= i < s.len() ==> '0' <= #[trigger] s[i] && s[i] <= '9'
}

/// The number that a run of decimal digits writes.
pub open spec fn decimal_value(s: Seq<char>) -> int
    decreases s.len(),
{
    if s.len() == 0 {
        0
    } else {
        decimal_value(s.drop_last()) * 10 + (s.last() as u32 - '0' as u32)
    }
}

/// Relies on `<u16 as FromStr>::from_str`, which accepts an optional `+`
/// followed by decimal digits whose value fits in sixteen bits.
#[verifier::external_body]
fn parse_u16(s: &str) -> (r: Option<u16>)
    ensures
        is_decimal(s@) && decimal_value(s@) <= u16::MAX ==> r == Some(decimal_value(s@) as u16),
        s@.len() > 1 && s@[0] == '+' && is_decimal(s@.skip(1)) && decimal_value(s@.skip(1)) <= u16::MAX
            ==> r == Some(decimal_value(s@.skip(1)) as u16),
        r matches Some(v) ==> (is_decimal(s@) && decimal_value(s@) == v) || (s@.len() > 1 && s@[0]
            == '+' && is_decimal(s@.skip(1)) && decimal_value(s@.skip(1)) == v),
{
    s.parse::<u16>().ok()
}

/// Settings of the message service, read once at startup.
#[derive(Debug)]
pub struct Config {
    pub port: u16,
    pub mongodb_uri: String,
    pub database_name: String,
    pub redis_url: Option<String>,
    pub kafka_brokers: String,
}

/// A configured text, or the default when none is given.
fn or_default(v: Option<String>, default: &str) -> (r: String)
    ensures
        r@ == match v {
            Some(s) => s@,
            None => default@,
        },
{
    match v {
        Some(s) => s,
        None => String::from_str(default),
    }
}

impl Config {
    /// The settings made of the configured values, each absent one taking
    /// its default. A port that is not a number that fits takes the default
    /// port.
    pub fn from_values(
        port: Option<String>,
        mongodb_uri: Option<String>,
        database_name: Option<String>,
        redis_url: Option<String>,
        kafka_brokers: Option<String>,
    ) -> (r: Config)
        ensures
            port is None ==> r.port == DEFAULT_PORT,
            port matches Some(p) ==> (is_decimal(p@) && decimal_value(p@) <= u16::MAX ==> r.port
                == decimal_value(p@)),
            port matches Some(p) ==> (p@.len() > 1 && p@[0] == '+' && is_decimal(p@.skip(1))
                && decimal_value(p@.skip(1)) <= u16::MAX ==> r.port == decimal_value(p@.skip(1))),
            port matches Some(p) ==> (!(is_decimal(p@) && decimal_value(p@) <= u16::MAX) && !(p@.len()
                > 1 && p@[0] == '+' && is_decimal(p@.skip(1)) && decimal_value(p@.skip(1)) <= u16::MAX)
                ==> r.port == DEFAULT_PORT),
            r.mongodb_uri@ == match mongodb_uri {
                Some(s) => s@,
                None => "mongodb://localhost:27017"@,
            },
            r.database_name@ == match database_name {
                Some(s) => s@,
                None => "quckchat_messages"@,
            },
            r.redis_url == redis_url,
            r.kafka_brokers@ == match kafka_brokers {
                Some(s) => s@,
                None => "localhost:9092"@,
            },
    {
        let port = match port {
            Some(p) => match parse_u16(p.as_str()) {
                Some(n) => n,
                None => DEFAULT_PORT,
            },
            None => DEFAULT_PORT,
        };
        Config {
            port,
            mongodb_uri: or_default(mongodb_uri, "mongodb://localhost:27017"),
            database_name: or_default(database_name, "quckchat_messages"),
            redis_url,
            kafka_brokers: or_default(kafka_brokers, "localhost:9092"),
        }
    }
}

} // verus!
