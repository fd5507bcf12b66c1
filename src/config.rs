//! String key/value configuration, and the typed lookups the handlers make.
use vstd::prelude::*;

verus! {

/// Key of the bot's own user id; its absence is a configuration fault.
pub const BOT_ID_KEY: &'static str = "BOT_ID";

/// Key of the channel that receives join and leave notices; optional.
pub const JOIN_LOG_KEY: &'static str = "JOIN_LOG";

/// Key under which the bot's avatar URL is stored once the fleet is up.
pub const BOT_AVATAR_KEY: &'static str = "BOT_AVATAR";

pub open spec fn is_digit(c: char) -> bool {
    '0' <= c && c <= '9'
}

pub open spec fn all_digits(d: Seq<char>) -> bool {
    forall|i: int| 0 <= i < d.len() ==> is_digit(#[trigger] d[i])
}

/// Value of a string of decimal digits.
pub open spec fn digits_value(s: Seq<char>) -> nat
    decreases s.len(),
{
    if s.len() == 0 {
        0
    } else {
        digits_value(s.drop_last()) * 10 + (s.last() as nat - '0' as nat) as nat
    }
}

/// A `u64` written in decimal: an optional `+`, then one or more digits whose
/// value fits.
pub open spec fn decimal_u64(s: Seq<char>) -> Option<u64> {
    let d = if s.len() > 0 && s[0] == '+' {
        s.subrange(1, s.len() as int)
    } else {
        s
    };
    if d.len() > 0 && all_digits(d) && digits_value(d) <= u64::MAX {
        Some(digits_value(d) as u64)
    } else {
        None
    }
}

/// A run of digits is worth at least as much as any prefix of it.
proof fn lemma_digits_prefix(d: Seq<char>, k: int)
    requires
        0 <= k <= d.len(),
        all_digits(d),
    ensures
        digits_value(d.take(k)) <= digits_value(d),
    decreases d.len(),
{
    if k < d.len() {
        assert(d.drop_last().take(k) =~= d.take(k));
        lemma_digits_prefix(d.drop_last(), k);
    } else {
        assert(d.take(k) =~= d);
    }
}

/// Reads a `u64` written in decimal; it accepts the same strings as
/// `str::parse::<u64>`.
pub fn parse_u64(s: &str) -> (r: Option<u64>)
    ensures
        r == decimal_u64(s@),
{
    broadcast use vstd::string::is_ascii_spec_bytes;

    let ghost d = if s@.len() > 0 && s@[0] == '+' {
        s@.subrange(1, s@.len() as int)
    } else {
        s@
    };
    assert(decimal_u64(s@) == (if d.len() > 0 && all_digits(d) && digits_value(d) <= u64::MAX {
        Some(digits_value(d) as u64)
    } else {
        None
    }));
    if !s.is_ascii() {
        proof {
            let i = choose|i: int| 0 <= i < s@.len() && !('\0' <= #[trigger] s@[i] <= '\u{7f}');
            if s@.len() > 0 && s@[0] == '+' {
                assert(d[i - 1] == s@[i]);
                assert(!is_digit(d[i - 1]));
            } else {
                assert(d[i] == s@[i]);
                assert(!is_digit(d[i]));
            }
            assert(!all_digits(d));
        }
        return None;
    }
    let b = s.as_bytes();
    assert(b@.len() == s@.len());
    let n: usize = b.len();
    let start: usize = if n > 0 && b[0] == 43u8 {
        1
    } else {
        0
    };
    assert(start == 1 <==> (s@.len() > 0 && s@[0] == '+'));
    assert(d =~= s@.subrange(start as int, n as int));
    if start == n {
        return None;
    }
    let mut acc: u64 = 0;
    let mut i: usize = start;
    while i < n
        invariant
            start <= i <= n,
            n == s@.len(),
            b@ == Seq::new(s@.len(), |j: int| s@[j] as u8),
            vstd::string::is_ascii(s),
            d =~= s@.subrange(start as int, n as int),
            forall|j: int| 0 <= j < i - start ==> is_digit(#[trigger] d[j]),
            acc as nat == digits_value(d.take(i - start)),
            decimal_u64(s@) == (if d.len() > 0 && all_digits(d) && digits_value(d) <= u64::MAX {
                Some(digits_value(d) as u64)
            } else {
                None
            }),
        decreases n - i,
    {
        let c = b[i];
        let ghost k = i - start;
        if c < 48u8 || c > 57u8 {
            assert(!is_digit(d[k]));
            assert(!all_digits(d));
            return None;
        }
        assert(is_digit(d[k]));
        assert(d.take(k + 1).drop_last() =~= d.take(k));
        let digit: u64 = (c - 48u8) as u64;
        assert(digit == d[k] as nat - '0' as nat);
        if acc > (u64::MAX - digit) / 10 {
            proof {
                assert(digits_value(d.take(k + 1)) > u64::MAX);
                if all_digits(d) {
                    lemma_digits_prefix(d, k + 1);
                }
                assert(decimal_u64(s@) is None);
            }
            return None;
        }
        acc = acc * 10 + digit;
        i = i + 1;
    }
    assert(d.take(d.len() as int) =~= d);
    Some(acc)
}

/// The value last stored under `key`, if any.
pub open spec fn value_in(s: Seq<(Seq<char>, Seq<char>)>, key: Seq<char>) -> Option<Seq<char>>
    decreases s.len(),
{
    if s.len() == 0 {
        None
    } else if s.last().0 == key {
        Some(s.last().1)
    } else {
        value_in(s.drop_last(), key)
    }
}

/// Why a required setting could not be read.
#[derive(Clone, Copy, Debug, PartialEq, Eq)]
pub enum ConfigError {
    /// The key is not set.
    Missing,
    /// The value is not a decimal id.
    Invalid,
}

pub struct ConfigEntry {
    pub key: String,
    pub value: String,
}

/// Configuration settings; a later `set` of a key overrides earlier ones.
pub struct ConfigStore {
    entries: Vec<ConfigEntry>,
}

impl ConfigStore {
    closed spec fn pairs(&self) -> Seq<(Seq<char>, Seq<char>)> {
        self.entries@.map_values(|e: ConfigEntry| (e.key@, e.value@))
    }

    /// The value of `key`, if set.
    pub closed spec fn lookup(&self, key: Seq<char>) -> Option<Seq<char>> {
        value_in(self.pairs(), key)
    }

    /// A setting read as a decimal id.
    pub open spec fn id_setting(&self, key: Seq<char>) -> Result<u64, ConfigError> {
        match self.lookup(key) {
            None => Err(ConfigError::Missing),
            Some(v) => match decimal_u64(v) {
                Some(id) => Ok(id),
                None => Err(ConfigError::Invalid),
            },
        }
    }

    pub fn new() -> (r: ConfigStore)
        ensures
            forall|k: Seq<char>| r.lookup(k) is None,
    {
        ConfigStore { entries: Vec::new() }
    }

    pub fn set(&mut self, key: &str, value: &str)
        ensures
            final(self).lookup(key@) == Some(value@),
            forall|k: Seq<char>| k != key@ ==> #[trigger] final(self).lookup(k) == old(self).lookup(k),
    {
        let ghost before = self.pairs();
        self.entries.push(ConfigEntry { key: key.to_owned(), value: value.to_owned() });
        assert(self.pairs().drop_last() =~= before);
    }

    pub fn get(&self, key: &str) -> (r: Option<String>)
        ensures
            match r {
                Some(v) => self.lookup(key@) == Some(v@),
                None => self.lookup(key@) is None,
            },
    {
        let k = key.to_owned();
        let mut i: usize = self.entries.len();
        assert(self.pairs().take(i as int) =~= self.pairs());
        while i > 0
            invariant
                i <= self.entries.len(),
                k@ == key@,
                value_in(self.pairs().take(i as int), key@) == self.lookup(key@),
            decreases i,
        {
            assert(self.pairs().take(i as int).drop_last() =~= self.pairs().take(i - 1));
            if self.entries[i - 1].key == k {
                return Some(self.entries[i - 1].value.clone());
            }
            i = i - 1;
        }
        None
    }

    fn id_of(&self, key: &str) -> (r: Result<u64, ConfigError>)
        ensures
            r == self.id_setting(key@),
    {
        match self.get(key) {
            None => Err(ConfigError::Missing),
            Some(v) => match parse_u64(v.as_str()) {
                Some(id) => Ok(id),
                None => Err(ConfigError::Invalid),
            },
        }
    }

    /// The bot's own id, which must be configured.
    pub fn bot_id(&self) -> (r: Result<u64, ConfigError>)
        ensures
            r == self.id_setting(BOT_ID_KEY@),
    {
        self.id_of(BOT_ID_KEY)
    }

    /// The channel for join and leave notices; `None` when it is unset or not an
    /// id, and the notices are then skipped.
    pub fn join_log(&self) -> (r: Option<u64>)
        ensures
            r == self.id_setting(JOIN_LOG_KEY@).ok(),
    {
        match self.id_of(JOIN_LOG_KEY) {
            Ok(id) => Some(id),
            Err(_) => None,
        }
    }
}

} // verus!
