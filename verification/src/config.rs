use vstd::prelude::*;
use vstd::string::StrSliceExecFns;

verus! {

/// A required configuration field.
#[derive(Clone, Copy, Debug, PartialEq, Eq, Structural)]
pub enum ConfigField {
    WebsitesToCheck,
    CheckIntervalInSeconds,
    SenderEmail,
    SenderDisplayedName,
    Domain,
    ApiKey,
    RecipientEmail,
}

/// A fatal configuration fault: there is no safe default, so the caller is
/// expected to stop rather than run with an invalid configuration.
#[derive(Clone, Copy, Debug, PartialEq, Eq, Structural)]
pub enum ConfigError {
    /// The source names no value at all for this field.
    MissingField(ConfigField),
    /// The source names a value for this field, but it is empty.
    EmptyField(ConfigField),
    /// The check interval is not a positive number of seconds.
    InvalidInterval,
    /// The configuration file could not be read.
    UnreadableFile,
    /// The configuration file could not be parsed as a structured document.
    UnparseableFile,
}

/// How the notification provider is reached and who the message is from and
/// to. All fields are required and non-empty.
pub struct NotificationConfig {
    pub sender_email: String,
    pub sender_displayed_name: String,
    pub domain: String,
    pub api_key: String,
    pub recipient_email: String,
}

impl NotificationConfig {
    pub open spec fn wf(&self) -> bool {
        &&& self.sender_email@.len() > 0
        &&& self.sender_displayed_name@.len() > 0
        &&& self.domain@.len() > 0
        &&& self.api_key@.len() > 0
        &&& self.recipient_email@.len() > 0
    }
}

/// One validated configuration snapshot. Rebuilt fresh every cycle and never
/// mutated, so edits to the source take effect on the next cycle.
pub struct Config {
    pub targets: Vec<String>,
    pub check_interval_in_seconds: u64,
    pub notification: NotificationConfig,
}

impl Config {
    pub open spec fn wf(&self) -> bool {
        &&& self.targets@.len() > 0
        &&& self.check_interval_in_seconds > 0
        &&& self.notification.wf()
    }
}

/// The target list a raw websites string denotes: the segments between
/// spaces, in order, empty segments kept. Any string denotes at least one
/// segment.
pub open spec fn split_spaces(s: Seq<char>) -> Seq<Seq<char>>
    decreases s.len(),
{
    if s.len() == 0 {
        seq![Seq::<char>::empty()]
    } else {
        let rest = split_spaces(s.drop_last());
        if s.last() == ' ' {
            rest.push(Seq::<char>::empty())
        } else {
            rest.update(rest.len() - 1, rest.last().push(s.last()))
        }
    }
}

pub proof fn lemma_split_spaces_len(s: Seq<char>)
    ensures
        split_spaces(s).len() >= 1,
    decreases s.len(),
{
    if s.len() > 0 {
        lemma_split_spaces_len(s.drop_last());
    }
}

/// Cut a raw websites string at each space. The result is exactly
/// `split_spaces` of the input, so it is never empty.
pub fn split_targets(s: &str) -> (v: Vec<String>)
    ensures
        v@.map_values(|t: String| t@) == split_spaces(s@),
        v@.len() >= 1,
{
    let n = s.unicode_len();
    let mut v: Vec<String> = Vec::new();
    let mut seg_start: usize = 0;
    let mut i: usize = 0;
    proof {
        assert(s@.take(0) =~= Seq::<char>::empty());
        assert(v@.map_values(|t: String| t@).push(s@.subrange(0, 0)) =~= split_spaces(s@.take(0)));
    }
    while i < n
        invariant
            n == s@.len(),
            seg_start <= i <= n,
            split_spaces(s@.take(i as int)) == v@.map_values(|t: String| t@).push(
                s@.subrange(seg_start as int, i as int),
            ),
        decreases n - i,
    {
        let ghost prefix = s@.take(i as int);
        proof {
            assert(s@.take(i + 1).drop_last() =~= prefix);
            assert(s@.take(i + 1).last() == s@[i as int]);
        }
        let c = s.get_char(i);
        if c == ' ' {
            let segment = s.substring_char(seg_start, i).to_owned();
            v.push(segment);
            seg_start = i + 1;
            proof {
                assert(v@.map_values(|t: String| t@) =~= split_spaces(prefix));
                assert(split_spaces(s@.take(i + 1)) == split_spaces(prefix).push(
                    Seq::<char>::empty(),
                ));
                assert(s@.subrange(seg_start as int, i + 1) =~= Seq::<char>::empty());
            }
        } else {
            proof {
                lemma_split_spaces_len(prefix);
                let views = v@.map_values(|t: String| t@);
                assert(split_spaces(prefix).last() == s@.subrange(seg_start as int, i as int));
                assert(split_spaces(prefix).len() - 1 == views.len());
                assert(s@.subrange(seg_start as int, i as int).push(s@[i as int]) =~= s@.subrange(
                    seg_start as int,
                    i + 1,
                ));
                assert(split_spaces(s@.take(i + 1)) =~= views.push(
                    s@.subrange(seg_start as int, i + 1),
                ));
            }
        }
        i += 1;
    }
    let last_segment = s.substring_char(seg_start, n).to_owned();
    v.push(last_segment);
    proof {
        assert(s@.take(n as int) =~= s@);
        assert(v@.map_values(|t: String| t@) =~= split_spaces(s@));
    }
    v
}

pub open spec fn is_digit(c: char) -> bool {
    '0' <= c && c <= '9'
}

pub open spec fn digit_val(c: char) -> nat {
    (c as nat - '0' as nat) as nat
}

pub open spec fn all_digits(s: Seq<char>) -> bool {
    forall|i: int| 0 <= i < s.len() ==> is_digit(#[trigger] s[i])
}

/// The number a run of decimal digits denotes, most significant first.
pub open spec fn digits_value(s: Seq<char>) -> nat
    decreases s.len(),
{
    if s.len() == 0 {
        0
    } else {
        digits_value(s.drop_last()) * 10 + digit_val(s.last())
    }
}

/// The digit run of a numeral: everything after an optional leading `+`.
pub open spec fn spec_parse_digits(s: Seq<char>) -> Seq<char> {
    if s.len() > 0 && s[0] == '+' {
        s.drop_first()
    } else {
        s
    }
}

/// What parsing a decimal `u64` accepts: an optional leading `+`, then at
/// least one digit, denoting a value that fits in a `u64`.
pub open spec fn spec_parse_u64(s: Seq<char>) -> Option<u64> {
    let digits = spec_parse_digits(s);
    if digits.len() > 0 && all_digits(digits) && digits_value(digits) <= u64::MAX {
        Some(digits_value(digits) as u64)
    } else {
        None
    }
}

/// A longer digit prefix never denotes a smaller number.
proof fn lemma_digits_value_monotone(s: Seq<char>, i: int, j: int)
    requires
        0 <= i <= j <= s.len(),
    ensures
        digits_value(s.take(i)) <= digits_value(s.take(j)),
    decreases j - i,
{
    if i < j {
        lemma_digits_value_monotone(s, i, j - 1);
        assert(s.take(j).drop_last() =~= s.take(j - 1));
    }
}

/// Parse a non-negative decimal number, as the interval field requires:
/// an optional leading `+`, then only digits, rejecting values that do not
/// fit in a `u64`.
pub fn parse_u64(s: &str) -> (r: Option<u64>)
    ensures
        r == spec_parse_u64(s@),
{
    let n = s.unicode_len();
    let mut i: usize = 0;
    if n > 0 && s.get_char(0) == '+' {
        i = 1;
    }
    let ghost digits = spec_parse_digits(s@);
    let ghost offset = i as int;
    if i == n {
        proof {
            assert(digits.len() == 0);
        }
        return None;
    }
    let mut acc: u64 = 0;
    while i < n
        invariant
            n == s@.len(),
            0 <= offset <= i <= n,
            digits.len() == n - offset,
            forall|k: int| 0 <= k < digits.len() ==> #[trigger] digits[k] == s@[k + offset],
            digits == spec_parse_digits(s@),
            all_digits(digits.take(i - offset)),
            acc == digits_value(digits.take(i - offset)),
        decreases n - i,
    {
        let c = s.get_char(i);
        let u = c as u32;
        proof {
            assert(digits[i - offset] == s@[i as int]);
            assert(digits.take(i - offset + 1).drop_last() =~= digits.take(i - offset));
            assert(digits.take(i - offset + 1).last() == digits[i - offset]);
        }
        if u < 48 || u > 57 {
            proof {
                assert(!is_digit(digits[i - offset]));
            }
            return None;
        }
        let d = (u - 48) as u64;
        proof {
            assert(is_digit(digits[i - offset]));
            assert(d == digit_val(digits[i - offset]));
        }
        let next = match acc.checked_mul(10) {
            Some(m) => m.checked_add(d),
            None => None,
        };
        match next {
            Some(value) => {
                acc = value;
            },
            None => {
                proof {
                    assert(digits_value(digits.take(i - offset + 1)) > u64::MAX);
                    lemma_digits_value_monotone(digits, i - offset + 1, digits.len() as int);
                    assert(digits.take(digits.len() as int) =~= digits);
                }
                return None;
            },
        }
        i += 1;
    }
    proof {
        assert(digits.take(digits.len() as int) =~= digits);
    }
    Some(acc)
}

/// Validation order over the already-present field values: empty websites
/// string first, then a zero interval, then each notification field in
/// declaration order.
pub open spec fn spec_validate(
    websites: Seq<char>,
    interval: u64,
    notification: NotificationConfig,
) -> Result<(), ConfigError> {
    if websites.len() == 0 {
        Err(ConfigError::EmptyField(ConfigField::WebsitesToCheck))
    } else if interval == 0 {
        Err(ConfigError::InvalidInterval)
    } else if notification.sender_email@.len() == 0 {
        Err(ConfigError::EmptyField(ConfigField::SenderEmail))
    } else if notification.sender_displayed_name@.len() == 0 {
        Err(ConfigError::EmptyField(ConfigField::SenderDisplayedName))
    } else if notification.domain@.len() == 0 {
        Err(ConfigError::EmptyField(ConfigField::Domain))
    } else if notification.api_key@.len() == 0 {
        Err(ConfigError::EmptyField(ConfigField::ApiKey))
    } else if notification.recipient_email@.len() == 0 {
        Err(ConfigError::EmptyField(ConfigField::RecipientEmail))
    } else {
        Ok(())
    }
}

impl Config {
    /// Build a validated snapshot from typed field values, as the file form
    /// of the source yields them. Fails fast on the first invalid field, in
    /// `spec_validate` order; on success the targets are exactly the
    /// space-separated segments of the websites string.
    pub fn from_parts(
        websites_to_check: &str,
        check_interval_in_seconds: u64,
        notification: NotificationConfig,
    ) -> (r: Result<Config, ConfigError>)
        ensures
            r is Ok <==> spec_validate(websites_to_check@, check_interval_in_seconds, notification)
                is Ok,
            r matches Err(e) ==> spec_validate(
                websites_to_check@,
                check_interval_in_seconds,
                notification,
            ) == Err::<(), ConfigError>(e),
            r matches Ok(c) ==> {
                &&& c.targets@.map_values(|t: String| t@) == split_spaces(websites_to_check@)
                &&& c.check_interval_in_seconds == check_interval_in_seconds
                &&& c.notification == notification
                &&& c.wf()
            },
    {
        if websites_to_check.is_empty() {
            return Err(ConfigError::EmptyField(ConfigField::WebsitesToCheck));
        }
        if check_interval_in_seconds == 0 {
            return Err(ConfigError::InvalidInterval);
        }
        if notification.sender_email.as_str().is_empty() {
            return Err(ConfigError::EmptyField(ConfigField::SenderEmail));
        }
        if notification.sender_displayed_name.as_str().is_empty() {
            return Err(ConfigError::EmptyField(ConfigField::SenderDisplayedName));
        }
        if notification.domain.as_str().is_empty() {
            return Err(ConfigError::EmptyField(ConfigField::Domain));
        }
        if notification.api_key.as_str().is_empty() {
            return Err(ConfigError::EmptyField(ConfigField::ApiKey));
        }
        if notification.recipient_email.as_str().is_empty() {
            return Err(ConfigError::EmptyField(ConfigField::RecipientEmail));
        }
        let targets = split_targets(websites_to_check);
        Ok(Config { targets, check_interval_in_seconds, notification })
    }
}

/// Which form of the source one load reads: the file named by the indicator
/// when the indicator is set, otherwise the per-field environment values.
pub enum ConfigSource {
    FromFile(String),
    FromEnv,
}

/// Resolve the source for one load. A set file indicator always wins: the
/// whole snapshot then comes from that file and the per-field environment
/// values are ignored; only an unset indicator selects the environment form.
pub fn resolve_source(config_file_path: Option<String>) -> (s: ConfigSource)
    ensures
        config_file_path matches Some(path) ==> s == ConfigSource::FromFile(path),
        config_file_path is None ==> s == ConfigSource::FromEnv,
{
    match config_file_path {
        Some(path) => ConfigSource::FromFile(path),
        None => ConfigSource::FromEnv,
    }
}

/// The raw field values the environment form of the source yields: one
/// optional string per required field, `None` where the variable is unset.
pub struct RawConfig {
    pub websites_to_check: Option<String>,
    pub check_interval_in_seconds: Option<String>,
    pub sender_email: Option<String>,
    pub sender_displayed_name: Option<String>,
    pub domain: Option<String>,
    pub api_key: Option<String>,
    pub recipient_email: Option<String>,
}

impl RawConfig {
    /// What checking the raw values yields, in resolution order: the first
    /// absent field, then a non-numeric interval, then `spec_validate` on
    /// the present values. `Ok` carries the parsed interval.
    pub open spec fn spec_check(&self) -> Result<u64, ConfigError> {
        if self.websites_to_check is None {
            Err(ConfigError::MissingField(ConfigField::WebsitesToCheck))
        } else if self.check_interval_in_seconds is None {
            Err(ConfigError::MissingField(ConfigField::CheckIntervalInSeconds))
        } else if spec_parse_u64(self.check_interval_in_seconds->0@) is None {
            Err(ConfigError::InvalidInterval)
        } else if self.sender_email is None {
            Err(ConfigError::MissingField(ConfigField::SenderEmail))
        } else if self.sender_displayed_name is None {
            Err(ConfigError::MissingField(ConfigField::SenderDisplayedName))
        } else if self.domain is None {
            Err(ConfigError::MissingField(ConfigField::Domain))
        } else if self.api_key is None {
            Err(ConfigError::MissingField(ConfigField::ApiKey))
        } else if self.recipient_email is None {
            Err(ConfigError::MissingField(ConfigField::RecipientEmail))
        } else {
            let interval = spec_parse_u64(self.check_interval_in_seconds->0@)->0;
            let notification = NotificationConfig {
                sender_email: self.sender_email->0,
                sender_displayed_name: self.sender_displayed_name->0,
                domain: self.domain->0,
                api_key: self.api_key->0,
                recipient_email: self.recipient_email->0,
            };
            match spec_validate(self.websites_to_check->0@, interval, notification) {
                Ok(()) => Ok(interval),
                Err(e) => Err(e),
            }
        }
    }
}

/// Law: loading keeps no state between calls. Two raw sources whose field
/// values read the same are checked the same way, so the snapshot a load
/// yields is pinned by the source values handed to that one call — when the
/// source changes between two loads, the second load reflects the change.
pub proof fn lemma_load_depends_on_source_only(a: RawConfig, b: RawConfig)
    requires
        a.websites_to_check == b.websites_to_check,
        a.check_interval_in_seconds == b.check_interval_in_seconds,
        a.sender_email == b.sender_email,
        a.sender_displayed_name == b.sender_displayed_name,
        a.domain == b.domain,
        a.api_key == b.api_key,
        a.recipient_email == b.recipient_email,
    ensures
        a.spec_check() == b.spec_check(),
{
}

impl Config {
    /// Build a validated snapshot from the environment form of the source:
    /// every field must be present, the interval must be a positive decimal
    /// number, and the values must pass the same validation as the file
    /// form. Fails fast on the first fault, in `spec_check` order.
    pub fn from_env_values(raw: RawConfig) -> (r: Result<Config, ConfigError>)
        ensures
            r is Ok <==> raw.spec_check() is Ok,
            r matches Err(e) ==> raw.spec_check() == Err::<u64, ConfigError>(e),
            r matches Ok(c) ==> {
                &&& raw.spec_check() == Ok::<u64, ConfigError>(c.check_interval_in_seconds)
                &&& c.targets@.map_values(|t: String| t@) == split_spaces(
                    raw.websites_to_check->0@,
                )
                &&& c.notification.sender_email == raw.sender_email->0
                &&& c.notification.sender_displayed_name == raw.sender_displayed_name->0
                &&& c.notification.domain == raw.domain->0
                &&& c.notification.api_key == raw.api_key->0
                &&& c.notification.recipient_email == raw.recipient_email->0
                &&& c.wf()
            },
    {
        let websites_to_check = match raw.websites_to_check {
            Some(v) => v,
            None => {
                return Err(ConfigError::MissingField(ConfigField::WebsitesToCheck));
            },
        };
        let interval_text = match raw.check_interval_in_seconds {
            Some(v) => v,
            None => {
                return Err(ConfigError::MissingField(ConfigField::CheckIntervalInSeconds));
            },
        };
        let check_interval_in_seconds = match parse_u64(interval_text.as_str()) {
            Some(n) => n,
            None => {
                return Err(ConfigError::InvalidInterval);
            },
        };
        let sender_email = match raw.sender_email {
            Some(v) => v,
            None => {
                return Err(ConfigError::MissingField(ConfigField::SenderEmail));
            },
        };
        let sender_displayed_name = match raw.sender_displayed_name {
            Some(v) => v,
            None => {
                return Err(ConfigError::MissingField(ConfigField::SenderDisplayedName));
            },
        };
        let domain = match raw.domain {
            Some(v) => v,
            None => {
                return Err(ConfigError::MissingField(ConfigField::Domain));
            },
        };
        let api_key = match raw.api_key {
            Some(v) => v,
            None => {
                return Err(ConfigError::MissingField(ConfigField::ApiKey));
            },
        };
        let recipient_email = match raw.recipient_email {
            Some(v) => v,
            None => {
                return Err(ConfigError::MissingField(ConfigField::RecipientEmail));
            },
        };
        let notification = NotificationConfig {
            sender_email,
            sender_displayed_name,
            domain,
            api_key,
            recipient_email,
        };
        Config::from_parts(websites_to_check.as_str(), check_interval_in_seconds, notification)
    }
}

} // verus!
