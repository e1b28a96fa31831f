//! Proactive human alert for fatal transport failures.
//!
//! When a transport connection fails for good (bad token, disallowed intents,
//! invalid shard or version), an alert is pushed to the human Discord channel
//! over REST, and dedupe state is recorded so that a recurring failure
//! re-alerts at a bounded rate instead of once per attempt. Everything here
//! decides: which category the failure is, whether to alert now, what the
//! alert says and where it goes, and what is recorded afterwards.
use vstd::prelude::*;

use crate::http::HttpPost;
use crate::json::{at, field, int_of, str_of, JsonValue};
use crate::text::{
    ascii_lower, chars_of, concat_str, contains, contains_str, decimal, decimal_signed,
    i64_to_decimal, owned, parse_i64, parse_i64_exec, push_decimal, starts_with,
    starts_with_str, trim, trim_chars,
};

verus! {

/// Re-alert window for an unchanged failure signature, in milliseconds.
pub const ALERT_COOLDOWN_MS: i64 = 30 * 60 * 1000;

pub const DEFAULT_DISCORD_API_BASE: &'static str = "https://discord.com/api/v10";

/// The embed colour of the alert (a red).
pub const ALERT_EMBED_COLOR: i64 = 0x00ED_4245;

/// Category of fatal transport failure, derived from the entity's `last_error`.
#[derive(Debug, Clone, Copy, PartialEq, Eq, Structural)]
pub enum FatalKind {
    /// 4004 / REST 401-403 / token missing: the bot token is invalid or absent.
    BadToken,
    /// 4014: a privileged intent (e.g. Message Content) is not enabled.
    DisallowedIntents,
    /// 4013: an invalid intent value was sent.
    InvalidIntents,
    /// 4010 / 4011: invalid or required sharding.
    InvalidShard,
    /// 4012: invalid gateway API version.
    InvalidApiVersion,
    /// Any other non-retryable startup failure.
    Unknown,
}

/// The category of a failure, by what its error text (ASCII lower-cased) holds.
pub open spec fn fatal_kind_of(error: Seq<char>) -> FatalKind {
    let e = ascii_lower(error);
    if contains(e, "code=4004"@) || contains(e, "fatal auth failure"@) || contains(
        e,
        "is not configured"@,
    ) || contains(e, "check the discord bot token"@) {
        FatalKind::BadToken
    } else if contains(e, "code=4014"@) {
        FatalKind::DisallowedIntents
    } else if contains(e, "code=4013"@) {
        FatalKind::InvalidIntents
    } else if contains(e, "code=4010"@) || contains(e, "code=4011"@) {
        FatalKind::InvalidShard
    } else if contains(e, "code=4012"@) {
        FatalKind::InvalidApiVersion
    } else {
        FatalKind::Unknown
    }
}

/// Error texts that mention a rejected or missing token are bad-token
/// failures, whatever their case: an ASCII lower-cased text that contains
/// `code=4004`, `fatal auth failure`, `is not configured` or
/// `check the discord bot token` is classified `BadToken`.
pub proof fn lemma_token_phrases_are_bad_token(error: Seq<char>)
    ensures
        contains(ascii_lower(error), "code=4004"@) ==> fatal_kind_of(error) == FatalKind::BadToken,
        contains(ascii_lower(error), "fatal auth failure"@) ==> fatal_kind_of(error)
            == FatalKind::BadToken,
        contains(ascii_lower(error), "is not configured"@) ==> fatal_kind_of(error)
            == FatalKind::BadToken,
        contains(ascii_lower(error), "check the discord bot token"@) ==> fatal_kind_of(error)
            == FatalKind::BadToken,
{
}

/// A text that holds, anywhere and in any ASCII case, the advice to check the
/// Discord bot token is classified `BadToken`.
pub proof fn lemma_bot_token_advice_is_bad_token(before: Seq<char>, phrase: Seq<char>, after: Seq<char>)
    requires
        ascii_lower(phrase) == "check the discord bot token"@,
    ensures
        fatal_kind_of(before + phrase + after) == FatalKind::BadToken,
{
    crate::text::lemma_ascii_lower_concat(before + phrase, after);
    crate::text::lemma_ascii_lower_concat(before, phrase);
    crate::text::lemma_contains_embedded(
        ascii_lower(before),
        "check the discord bot token"@,
        ascii_lower(after),
    );
}

/// Where no token phrase occurs, a gateway close code in the text decides the
/// category; with none of the phrases and codes, the category is `Unknown`.
pub proof fn lemma_close_code_categories(error: Seq<char>)
    ensures
        ({
            let e = ascii_lower(error);
            let token = contains(e, "code=4004"@) || contains(e, "fatal auth failure"@) || contains(
                e,
                "is not configured"@,
            ) || contains(e, "check the discord bot token"@);
            &&& !token && contains(e, "code=4014"@) ==> fatal_kind_of(error)
                == FatalKind::DisallowedIntents
            &&& !token && !contains(e, "code=4014"@) && contains(e, "code=4013"@) ==> fatal_kind_of(
                error,
            ) == FatalKind::InvalidIntents
            &&& !token && !contains(e, "code=4014"@) && !contains(e, "code=4013"@) && (contains(
                e,
                "code=4010"@,
            ) || contains(e, "code=4011"@)) ==> fatal_kind_of(error) == FatalKind::InvalidShard
            &&& !token && !contains(e, "code=4014"@) && !contains(e, "code=4013"@) && !contains(
                e,
                "code=4010"@,
            ) && !contains(e, "code=4011"@) && contains(e, "code=4012"@) ==> fatal_kind_of(error)
                == FatalKind::InvalidApiVersion
            &&& !token && !contains(e, "code=4014"@) && !contains(e, "code=4013"@) && !contains(
                e,
                "code=4010"@,
            ) && !contains(e, "code=4011"@) && !contains(e, "code=4012"@) ==> fatal_kind_of(error)
                == FatalKind::Unknown
        }),
{
}

/// Classify the fatal error string into an actionable category.
pub fn classify_fatal(error: &str) -> (kind: FatalKind)
    ensures
        kind == fatal_kind_of(error@),
{
    let e = crate::text::to_ascii_lower(&chars_of(error));
    if contains_str(&e, "code=4004") || contains_str(&e, "fatal auth failure") || contains_str(
        &e,
        "is not configured",
    ) || contains_str(&e, "check the discord bot token") {
        FatalKind::BadToken
    } else if contains_str(&e, "code=4014") {
        FatalKind::DisallowedIntents
    } else if contains_str(&e, "code=4013") {
        FatalKind::InvalidIntents
    } else if contains_str(&e, "code=4010") || contains_str(&e, "code=4011") {
        FatalKind::InvalidShard
    } else if contains_str(&e, "code=4012") {
        FatalKind::InvalidApiVersion
    } else {
        FatalKind::Unknown
    }
}

/// The error text of a gateway close, as the transport reports it: `code=`
/// and the close code.
pub open spec fn close_code_text(code: u16) -> Seq<char> {
    "code="@ + decimal(code as nat)
}

/// Every close code on which the gateway stops reconnecting gets an
/// actionable category here: an error text that names such a code (in any
/// letter case) is never classified `Unknown`. Authentication failure maps to
/// `BadToken`, 4014 to `DisallowedIntents`, 4013 to `InvalidIntents`, 4010
/// and 4011 to `InvalidShard`, 4012 to `InvalidApiVersion`.
pub proof fn lemma_fatal_close_codes_are_categorized(code: u16, error: Seq<char>)
    requires
        crate::backoff::close_action_of(code) == crate::backoff::CloseAction::Fatal,
        contains(ascii_lower(error), close_code_text(code)),
    ensures
        fatal_kind_of(error) != FatalKind::Unknown,
        code == 4004 ==> fatal_kind_of(error) == FatalKind::BadToken,
{
    reveal_with_fuel(decimal, 5);
    let d = decimal(code as nat);
    let four = ((4 + 48) as u32) as char;
    assert(four == '4');
    let zero = ((0 + 48) as u32) as char;
    assert(zero == '0');
    let one = ((1 + 48) as u32) as char;
    assert(one == '1');
    let two = ((2 + 48) as u32) as char;
    assert(two == '2');
    let three = ((3 + 48) as u32) as char;
    assert(three == '3');
    reveal_strlit("code=");
    reveal_strlit("code=4004");
    reveal_strlit("code=4010");
    reveal_strlit("code=4011");
    reveal_strlit("code=4012");
    reveal_strlit("code=4013");
    reveal_strlit("code=4014");
    if code == 4004 {
        assert(close_code_text(code) =~= "code=4004"@);
    } else if code == 4010 {
        assert(close_code_text(code) =~= "code=4010"@);
    } else if code == 4011 {
        assert(close_code_text(code) =~= "code=4011"@);
    } else if code == 4012 {
        assert(close_code_text(code) =~= "code=4012"@);
    } else if code == 4013 {
        assert(close_code_text(code) =~= "code=4013"@);
    } else {
        assert(close_code_text(code) =~= "code=4014"@);
    }
}

/// The dedupe signature of a failure category.
pub open spec fn signature_of(kind: FatalKind) -> Seq<char> {
    match kind {
        FatalKind::BadToken => "bad_token"@,
        FatalKind::DisallowedIntents => "disallowed_intents"@,
        FatalKind::InvalidIntents => "invalid_intents"@,
        FatalKind::InvalidShard => "invalid_shard"@,
        FatalKind::InvalidApiVersion => "invalid_api_version"@,
        FatalKind::Unknown => "unknown_fatal"@,
    }
}

/// Stable dedupe signature per failure category.
pub fn alert_signature(kind: FatalKind) -> (sig: &'static str)
    ensures
        sig@ == signature_of(kind),
{
    match kind {
        FatalKind::BadToken => "bad_token",
        FatalKind::DisallowedIntents => "disallowed_intents",
        FatalKind::InvalidIntents => "invalid_intents",
        FatalKind::InvalidShard => "invalid_shard",
        FatalKind::InvalidApiVersion => "invalid_api_version",
        FatalKind::Unknown => "unknown_fatal",
    }
}

/// Distinct failure categories have distinct signatures, so a change of
/// category always counts as a new failure.
pub proof fn lemma_signatures_distinct(a: FatalKind, b: FatalKind)
    ensures
        signature_of(a) == signature_of(b) <==> a == b,
{
    reveal_strlit("bad_token");
    reveal_strlit("disallowed_intents");
    reveal_strlit("invalid_intents");
    reveal_strlit("invalid_shard");
    reveal_strlit("invalid_api_version");
    reveal_strlit("unknown_fatal");
    if signature_of(a) == signature_of(b) && a != b {
        let x = signature_of(a);
        let y = signature_of(b);
        assert(x.len() == y.len());
        assert(x[0] == y[0]);
        assert(x[x.len() - 1] == y[y.len() - 1]);
        assert(x[8] == y[8]);
    }
}

/// Whether Discord REST is expected to still work for this failure kind: a
/// bad token kills REST too; every other fatal gateway code leaves it usable.
pub fn discord_rest_alive(kind: FatalKind) -> (alive: bool)
    ensures
        alive <==> kind != FatalKind::BadToken,
{
    !matches!(kind, FatalKind::BadToken)
}

/// The remediation advice for each failure category.
pub open spec fn guidance_of(kind: FatalKind) -> Seq<char> {
    match kind {
        FatalKind::BadToken => "The Discord bot token is invalid or missing. Discord reset or rejected it. \
             Because the token is dead this Discord alert may not have been delivered \u{2014} \
             check the TemperPaw dashboard settings page (transport status) and re-enter \
             a valid bot token there."@,
        FatalKind::DisallowedIntents => "A privileged Gateway Intent is disabled. Enable the Message Content intent \
             (and other required intents) under Bot > Privileged Gateway Intents in the \
             Discord Developer Portal, then reconnect."@,
        FatalKind::InvalidIntents => "The transport requested an invalid Gateway Intent value. This is a \
             configuration bug \u{2014} review the intents sent at IDENTIFY."@,
        FatalKind::InvalidShard => "Discord rejected the shard configuration (invalid or sharding required). \
             Review the shard settings."@,
        FatalKind::InvalidApiVersion => "Discord rejected the gateway API version. The transport needs an update."@,
        FatalKind::Unknown => "The Discord transport hit a non-retryable startup failure and stopped. \
             Check the dashboard transport status and logs."@,
    }
}

fn guidance(kind: FatalKind) -> (g: &'static str)
    ensures
        g@ == guidance_of(kind),
{
    match kind {
        FatalKind::BadToken => "The Discord bot token is invalid or missing. Discord reset or rejected it. \
             Because the token is dead this Discord alert may not have been delivered \u{2014} \
             check the TemperPaw dashboard settings page (transport status) and re-enter \
             a valid bot token there.",
        FatalKind::DisallowedIntents => "A privileged Gateway Intent is disabled. Enable the Message Content intent \
             (and other required intents) under Bot > Privileged Gateway Intents in the \
             Discord Developer Portal, then reconnect.",
        FatalKind::InvalidIntents => "The transport requested an invalid Gateway Intent value. This is a \
             configuration bug \u{2014} review the intents sent at IDENTIFY.",
        FatalKind::InvalidShard => "Discord rejected the shard configuration (invalid or sharding required). \
             Review the shard settings.",
        FatalKind::InvalidApiVersion => "Discord rejected the gateway API version. The transport needs an update.",
        FatalKind::Unknown => "The Discord transport hit a non-retryable startup failure and stopped. \
             Check the dashboard transport status and logs.",
    }
}

/// The human-facing alert text.
pub open spec fn alert_message_of(kind: FatalKind, error: Seq<char>, attempt: i64) -> Seq<char> {
    "\u{26A0}\u{FE0F} Discord transport stopped (fatal, not retrying) after "@ + decimal_signed(
        attempt as int,
    ) + " attempt(s).\n\n"@ + guidance_of(kind) + "\n\nDetails: "@ + error
}

/// Build the human-facing alert message with actionable remediation.
pub fn build_alert_message(kind: FatalKind, error: &str, attempt: i64) -> (m: String)
    ensures
        m@ == alert_message_of(kind, error@, attempt),
{
    let m = owned("\u{26A0}\u{FE0F} Discord transport stopped (fatal, not retrying) after ");
    let n = i64_to_decimal(attempt);
    let m = concat_str(m, n.as_str());
    let m = concat_str(m, " attempt(s).\n\n");
    let m = concat_str(m, guidance(kind));
    let m = concat_str(m, "\n\nDetails: ");
    concat_str(m, error)
}

/// Whether the alert-rate check `should_send` can be evaluated without the
/// millisecond difference leaving the range of `i64`.
pub open spec fn send_check_in_range(
    now_ms: i64,
    last_alert_at_ms: Option<i64>,
    current_sig: Seq<char>,
    last_sig: Seq<char>,
) -> bool {
    current_sig == last_sig && last_alert_at_ms is Some ==> i64::MIN <= now_ms
        - last_alert_at_ms->0 <= i64::MAX
}

/// Whether to push an alert now, given dedupe state.
pub open spec fn should_send_spec(
    now_ms: int,
    last_alert_at_ms: Option<i64>,
    current_sig: Seq<char>,
    last_sig: Seq<char>,
    cooldown_ms: int,
) -> bool {
    current_sig != last_sig || match last_alert_at_ms {
        None => true,
        Some(last) => now_ms - last >= cooldown_ms,
    }
}

/// Decide whether to push an alert now, given dedupe state: a changed
/// signature always alerts; the same signature re-alerts only once per
/// `cooldown_ms`.
pub fn should_send(
    now_ms: i64,
    last_alert_at_ms: Option<i64>,
    current_sig: &str,
    last_sig: &str,
    cooldown_ms: i64,
) -> (send: bool)
    requires
        send_check_in_range(now_ms, last_alert_at_ms, current_sig@, last_sig@),
    ensures
        send == should_send_spec(
            now_ms as int,
            last_alert_at_ms,
            current_sig@,
            last_sig@,
            cooldown_ms as int,
        ),
{
    if !crate::text::str_eq(current_sig, last_sig) {
        return true;
    }
    match last_alert_at_ms {
        None => true,
        Some(last) => now_ms - last >= cooldown_ms,
    }
}

/// Alerts for one failure signature are rate-limited: where the signature is
/// unchanged and an alert was recorded, a new one goes out only once the
/// cooldown has passed since it. A new signature, or no recorded alert,
/// always alerts.
pub proof fn lemma_alert_rate_bounded(
    now_ms: int,
    last_alert_at_ms: Option<i64>,
    current_sig: Seq<char>,
    last_sig: Seq<char>,
    cooldown_ms: int,
)
    ensures
        current_sig == last_sig && last_alert_at_ms is Some && should_send_spec(
            now_ms,
            last_alert_at_ms,
            current_sig,
            last_sig,
            cooldown_ms,
        ) ==> now_ms >= last_alert_at_ms->0 + cooldown_ms,
        current_sig != last_sig ==> should_send_spec(
            now_ms,
            last_alert_at_ms,
            current_sig,
            last_sig,
            cooldown_ms,
        ),
        last_alert_at_ms is None ==> should_send_spec(
            now_ms,
            last_alert_at_ms,
            current_sig,
            last_sig,
            cooldown_ms,
        ),
{
}

/// With the same signature as the last alert and that alert's time on
/// record, an alert goes out exactly when at least the cooldown has passed
/// since it; and once the cooldown has passed it stays passed: a later time
/// sends whenever an earlier one does.
pub proof fn lemma_alert_once_cooldown_passed(
    now_ms: int,
    later_ms: int,
    last: i64,
    sig: Seq<char>,
    cooldown_ms: int,
)
    ensures
        should_send_spec(now_ms, Some(last), sig, sig, cooldown_ms) <==> now_ms - last
            >= cooldown_ms,
        should_send_spec(now_ms, Some(last), sig, sig, cooldown_ms) && later_ms >= now_ms
            ==> should_send_spec(later_ms, Some(last), sig, sig, cooldown_ms),
{
}

// ------------------------------------------------------------ reading state
/// The first of `keys`, from index `i` on, whose member of `v` is a string,
/// with that string.
pub open spec fn str_field_from(v: Option<JsonValue>, keys: Seq<&str>, i: int) -> Option<
    Seq<char>,
>
    decreases keys.len() - i,
{
    if i < 0 || i >= keys.len() {
        None
    } else {
        match str_of(at(v, keys[i]@)) {
            Some(s) => Some(s),
            None => str_field_from(v, keys, i + 1),
        }
    }
}

/// A member read as a number: an integer, or a string whose trimmed text
/// parses as one.
pub open spec fn num_of(v: Option<JsonValue>) -> Option<i64> {
    match int_of(v) {
        Some(n) => Some(n),
        None => match str_of(v) {
            Some(s) => parse_i64(trim(s)),
            None => None,
        },
    }
}

/// The first of `keys`, from index `i` on, whose member of `v` reads as a
/// number, with that number.
pub open spec fn num_field_from(v: Option<JsonValue>, keys: Seq<&str>, i: int) -> Option<i64>
    decreases keys.len() - i,
{
    if i < 0 || i >= keys.len() {
        None
    } else {
        match num_of(at(v, keys[i]@)) {
            Some(n) => Some(n),
            None => num_field_from(v, keys, i + 1),
        }
    }
}

/// The first string member of `value` among `keys`.
pub fn str_field(value: &JsonValue, keys: &[&str]) -> (r: Option<String>)
    ensures
        r matches Some(s) ==> str_field_from(Some(*value), keys@, 0) == Some(s@),
        r is None ==> str_field_from(Some(*value), keys@, 0) is None,
{
    let mut i: usize = 0;
    while i < keys.len()
        invariant
            i <= keys@.len(),
            str_field_from(Some(*value), keys@, 0) == str_field_from(Some(*value), keys@, i as int),
        decreases keys.len() - i,
    {
        match value.get(keys[i]) {
            Some(v) => match v.as_str() {
                Some(s) => {
                    return Some(owned(s));
                },
                None => {},
            },
            None => {},
        }
        i += 1;
    }
    None
}

/// The member read as a number: an integer, or a string whose trimmed text
/// parses as one.
pub fn num_value(v: &JsonValue) -> (r: Option<i64>)
    ensures
        r == num_of(Some(*v)),
{
    match v.as_i64() {
        Some(n) => Some(n),
        None => match v.as_str() {
            Some(s) => {
                let t = trim_chars(&chars_of(s));
                parse_i64_exec(&t)
            },
            None => None,
        },
    }
}

/// The first member of `value` among `keys` that reads as a number.
pub fn num_field(value: &JsonValue, keys: &[&str]) -> (r: Option<i64>)
    ensures
        r == num_field_from(Some(*value), keys@, 0),
{
    let mut i: usize = 0;
    while i < keys.len()
        invariant
            i <= keys@.len(),
            num_field_from(Some(*value), keys@, 0) == num_field_from(Some(*value), keys@, i as int),
        decreases keys.len() - i,
    {
        match value.get(keys[i]) {
            Some(v) => match num_value(v) {
                Some(n) => {
                    return Some(n);
                },
                None => {},
            },
            None => {},
        }
        i += 1;
    }
    None
}

// ------------------------------------------------------------ deciding
/// The keys under which the failure's error text may be stored.
pub open spec fn error_keys() -> Seq<&'static str> {
    seq!["last_error", "LastError", "error_message"]
}

/// The keys under which the attempt count may be stored.
pub open spec fn attempt_keys() -> Seq<&'static str> {
    seq!["attempt_count", "AttemptCount"]
}

/// The keys under which the time of the last alert may be stored.
pub open spec fn last_alert_at_keys() -> Seq<&'static str> {
    seq!["last_alert_at", "LastAlertAt"]
}

/// The keys under which the signature of the last alert may be stored.
pub open spec fn last_signature_keys() -> Seq<&'static str> {
    seq!["last_alert_signature", "LastAlertSignature"]
}

/// What the alert logic reads of a failed transport connection.
pub struct AlertFields {
    pub error: String,
    pub attempt: i64,
    pub last_alert_at: Option<i64>,
    pub last_signature: String,
}

pub open spec fn or_empty(s: Option<Seq<char>>) -> Seq<char> {
    match s {
        Some(t) => t,
        None => Seq::empty(),
    }
}

pub proof fn lemma_absent_fields(keys: Seq<&str>, i: int)
    ensures
        str_field_from(None, keys, i) is None,
        num_field_from(None, keys, i) is None,
    decreases keys.len() - i,
{
    if 0 <= i < keys.len() {
        lemma_absent_fields(keys, i + 1);
    }
}

/// Read the alert fields from the entity state's `fields` object; a missing
/// member reads as the empty text, attempt 0, or no previous alert.
pub fn read_alert_fields(entity_state: &JsonValue) -> (f: AlertFields)
    ensures
        ({
            let fields = field(*entity_state, "fields"@);
            &&& f.error@ == or_empty(str_field_from(fields, error_keys(), 0))
            &&& f.attempt == match num_field_from(fields, attempt_keys(), 0) {
                Some(n) => n,
                None => 0,
            }
            &&& f.last_alert_at == num_field_from(fields, last_alert_at_keys(), 0)
            &&& f.last_signature@ == or_empty(str_field_from(fields, last_signature_keys(), 0))
        }),
{
    let error_keys_list: [&str; 3] = ["last_error", "LastError", "error_message"];
    let attempt_keys_list: [&str; 2] = ["attempt_count", "AttemptCount"];
    let last_alert_at_keys_list: [&str; 2] = ["last_alert_at", "LastAlertAt"];
    let last_signature_keys_list: [&str; 2] = ["last_alert_signature", "LastAlertSignature"];
    assert(error_keys_list@ == error_keys());
    assert(attempt_keys_list@ == attempt_keys());
    assert(last_alert_at_keys_list@ == last_alert_at_keys());
    assert(last_signature_keys_list@ == last_signature_keys());
    match entity_state.get("fields") {
        Some(fields) => {
            let error = match str_field(fields, &error_keys_list) {
                Some(e) => e,
                None => String::new(),
            };
            let attempt = match num_field(fields, &attempt_keys_list) {
                Some(n) => n,
                None => 0,
            };
            let last_alert_at = num_field(fields, &last_alert_at_keys_list);
            let last_signature = match str_field(fields, &last_signature_keys_list) {
                Some(s) => s,
                None => String::new(),
            };
            AlertFields { error, attempt, last_alert_at, last_signature }
        },
        None => {
            proof {
                lemma_absent_fields(error_keys(), 0);
                lemma_absent_fields(attempt_keys(), 0);
                lemma_absent_fields(last_alert_at_keys(), 0);
                lemma_absent_fields(last_signature_keys(), 0);
            }
            AlertFields {
                error: String::new(),
                attempt: 0,
                last_alert_at: None,
                last_signature: String::new(),
            }
        },
    }
}

/// Whether deciding on `f` at `now_ms` stays clear of `i64` overflow.
pub open spec fn decision_in_range(f: AlertFields, now_ms: i64) -> bool {
    send_check_in_range(now_ms, f.last_alert_at, signature_of(fatal_kind_of(f.error@)), f.last_signature@)
}

/// Whether `decide_alert` can be called on `f` at `now_ms`.
pub fn alert_decision_in_range(f: &AlertFields, now_ms: i64) -> (r: bool)
    ensures
        r == decision_in_range(*f, now_ms),
{
    let signature = alert_signature(classify_fatal(f.error.as_str()));
    if !crate::text::str_eq(signature, f.last_signature.as_str()) {
        return true;
    }
    match f.last_alert_at {
        None => true,
        Some(last) => {
            let d = (now_ms as i128) - (last as i128);
            -9_223_372_036_854_775_808i128 <= d && d <= 9_223_372_036_854_775_807i128
        },
    }
}

/// What to do about a failed transport connection now.
pub struct AlertDecision {
    pub kind: FatalKind,
    pub signature: String,
    /// The alert text, where an alert is to go out now.
    pub message: Option<String>,
}

/// Classify the failure and decide whether to alert now, and with what text.
pub fn decide_alert(f: &AlertFields, now_ms: i64) -> (d: AlertDecision)
    requires
        decision_in_range(*f, now_ms),
    ensures
        d.kind == fatal_kind_of(f.error@),
        d.signature@ == signature_of(d.kind),
        d.message is Some <==> should_send_spec(
            now_ms as int,
            f.last_alert_at,
            d.signature@,
            f.last_signature@,
            ALERT_COOLDOWN_MS as int,
        ),
        d.message matches Some(m) ==> m@ == alert_message_of(d.kind, f.error@, f.attempt),
{
    let kind = classify_fatal(f.error.as_str());
    let signature = alert_signature(kind);
    let send = should_send(
        now_ms,
        f.last_alert_at,
        signature,
        f.last_signature.as_str(),
        ALERT_COOLDOWN_MS,
    );
    let message = if send {
        Some(build_alert_message(kind, f.error.as_str(), f.attempt))
    } else {
        None
    };
    AlertDecision { kind, signature: owned(signature), message }
}

/// How an attempted alert went.
#[derive(Debug, Clone, Copy, PartialEq, Eq, Structural)]
pub enum DeliveryOutcome {
    /// The alert was posted.
    Delivered,
    /// No feed channel or token is configured: nothing to deliver to.
    NoChannel,
    /// The post failed (expected for a bad token).
    Undeliverable,
}

/// The recorded status of an alert: `None` where none was attempted.
pub open spec fn alert_status_of(outcome: Option<DeliveryOutcome>) -> Seq<char> {
    match outcome {
        None => "suppressed"@,
        Some(DeliveryOutcome::Delivered) => "delivered"@,
        Some(DeliveryOutcome::NoChannel) => "no_channel"@,
        Some(DeliveryOutcome::Undeliverable) => "undeliverable"@,
    }
}

/// The recorded time of the last alert: any attempt (even a failed one)
/// advances it to `now_ms`, so that a doomed post is not retried every attempt.
pub open spec fn recorded_alert_at(outcome: Option<DeliveryOutcome>, last_alert_at: Option<i64>, now_ms: i64) -> i64 {
    match outcome {
        None => match last_alert_at {
            Some(t) => t,
            None => 0,
        },
        Some(_) => now_ms,
    }
}

/// The dedupe state recorded after a decision.
pub fn alert_record(
    outcome: Option<DeliveryOutcome>,
    last_alert_at: Option<i64>,
    now_ms: i64,
    signature: &str,
) -> (params: JsonValue)
    ensures
        str_of(field(params, "last_alert_at"@)) == Some(
            decimal_signed(recorded_alert_at(outcome, last_alert_at, now_ms) as int),
        ),
        str_of(field(params, "last_alert_signature"@)) == Some(signature@),
        str_of(field(params, "alert_status"@)) == Some(alert_status_of(outcome)),
        params matches JsonValue::Object(es) && es@.len() == 3,
{
    let status: &str = match outcome {
        None => "suppressed",
        Some(DeliveryOutcome::Delivered) => "delivered",
        Some(DeliveryOutcome::NoChannel) => "no_channel",
        Some(DeliveryOutcome::Undeliverable) => "undeliverable",
    };
    let at: i64 = match outcome {
        None => match last_alert_at {
            Some(t) => t,
            None => 0,
        },
        Some(_) => now_ms,
    };
    let es = vec![
        (owned("last_alert_at"), JsonValue::Str(i64_to_decimal(at))),
        (owned("last_alert_signature"), JsonValue::string(signature)),
        (owned("alert_status"), JsonValue::string(status)),
    ];
    proof {
        reveal_strlit("last_alert_at");
        reveal_strlit("last_alert_signature");
        reveal_strlit("alert_status");
        assert(es@[0].0@ == "last_alert_at"@);
        assert(es@[1].0@ == "last_alert_signature"@);
        assert("last_alert_at"@.len() != "last_alert_signature"@.len());
        assert("last_alert_at"@[0] != "alert_status"@[0]);
        assert("last_alert_signature"@[0] != "alert_status"@[0]);
        assert(crate::json::key_index_from(es@, "last_alert_signature"@, 1) == Some(1int));
        assert(crate::json::key_index_from(es@, "alert_status"@, 2) == Some(2int));
        assert(crate::json::key_index_from(es@, "alert_status"@, 1) == Some(2int));
    }
    JsonValue::Object(es)
}

/// What `alert_record` records reads back on the next run. Where the
/// `fields` that `read_alert_fields` reads carry the recorded `last_alert_at`
/// and `last_alert_signature` members, it reads the recorded time and
/// signature. So once an alert for a signature went out (or was attempted) at
/// `now_ms`, the next run sends another for that signature only at
/// `now_ms + ALERT_COOLDOWN_MS` or later.
pub proof fn lemma_cooldown_across_runs(
    fields: JsonValue,
    outcome: Option<DeliveryOutcome>,
    last_alert_at: Option<i64>,
    now_ms: i64,
    signature: Seq<char>,
    later: int,
)
    requires
        str_of(field(fields, "last_alert_at"@)) == Some(
            decimal_signed(recorded_alert_at(outcome, last_alert_at, now_ms) as int),
        ),
        str_of(field(fields, "last_alert_signature"@)) == Some(signature),
    ensures
        num_field_from(Some(fields), last_alert_at_keys(), 0) == Some(
            recorded_alert_at(outcome, last_alert_at, now_ms),
        ),
        str_field_from(Some(fields), last_signature_keys(), 0) == Some(signature),
        outcome is Some && should_send_spec(
            later,
            num_field_from(Some(fields), last_alert_at_keys(), 0),
            signature,
            or_empty(str_field_from(Some(fields), last_signature_keys(), 0)),
            ALERT_COOLDOWN_MS as int,
        ) ==> later >= now_ms + ALERT_COOLDOWN_MS,
{
    let t = recorded_alert_at(outcome, last_alert_at, now_ms);
    crate::text::lemma_decimal_parses_back(t);
    assert(last_alert_at_keys()[0]@ == "last_alert_at"@);
    assert(last_signature_keys()[0]@ == "last_alert_signature"@);
    assert(num_of(at(Some(fields), "last_alert_at"@)) == Some(t));
}

// ------------------------------------------------------------ delivering
/// The text of an optional string slice.
pub open spec fn opt_view(v: Option<&str>) -> Option<Seq<char>> {
    match v {
        Some(s) => Some(s@),
        None => None,
    }
}

/// A configuration value counts only where it is non-empty and not an
/// unresolved `{secret:...}` placeholder.
pub open spec fn usable_config(v: Option<Seq<char>>) -> Option<Seq<char>> {
    match v {
        Some(s) => if s.len() > 0 && !starts_with(s, "{secret:"@) {
            Some(s)
        } else {
            None
        },
        None => None,
    }
}

pub fn usable_config_value(v: Option<&str>) -> (r: Option<String>)
    ensures
        r matches Some(s) ==> usable_config(opt_view(v)) == Some(s@),
        r is None ==> usable_config(opt_view(v)) is None,
{
    match v {
        Some(s) => {
            let c = chars_of(s);
            if c.len() > 0 && !starts_with_str(&c, "{secret:") {
                Some(owned(s))
            } else {
                None
            }
        },
        None => None,
    }
}

/// `s` without any trailing `c`.
pub open spec fn trim_end_char(s: Seq<char>, c: char) -> Seq<char>
    decreases s.len(),
{
    if s.len() > 0 && s.last() == c {
        trim_end_char(s.drop_last(), c)
    } else {
        s
    }
}

/// `s` without any trailing `'/'`.
pub fn trim_trailing_slashes(s: &str) -> (r: String)
    ensures
        r@ == trim_end_char(s@, '/'),
{
    let v = chars_of(s);
    let mut j: usize = v.len();
    assert(v@.subrange(0, j as int) == v@);
    while j > 0 && v[j - 1] == '/'
        invariant
            j <= v@.len(),
            trim_end_char(v@, '/') == trim_end_char(v@.subrange(0, j as int), '/'),
        decreases j,
    {
        assert(v@.subrange(0, j as int).drop_last() == v@.subrange(0, j - 1));
        j -= 1;
    }
    crate::text::string_of_range(&v, 0, j)
}

/// The JSON body of an alert post: the text as content and as the
/// description of one embed.
pub open spec fn is_alert_post_body(b: JsonValue, message: Seq<char>) -> bool {
    &&& b matches JsonValue::Object(es)
    &&& es@.len() == 2
    &&& es@[0].0@ == "content"@
    &&& es@[0].1 matches JsonValue::Str(t) && t@ == message
    &&& es@[1].0@ == "embeds"@
    &&& es@[1].1 matches JsonValue::Array(embeds)
    &&& embeds@.len() == 1
    &&& embeds@[0] matches JsonValue::Object(e)
    &&& e@.len() == 3
    &&& e@[0].0@ == "title"@
    &&& e@[0].1 matches JsonValue::Str(t) && t@ == "Transport connection failed"@
    &&& e@[1].0@ == "description"@
    &&& e@[1].1 matches JsonValue::Str(t) && t@ == message
    &&& e@[2].0@ == "color"@
    &&& e@[2].1 == JsonValue::Int(ALERT_EMBED_COLOR)
}

/// The base URL of the Discord API: the configured one if usable, else the
/// default, without trailing slashes.
pub open spec fn api_base_of(api_base: Option<Seq<char>>) -> Seq<char> {
    trim_end_char(
        match usable_config(api_base) {
            Some(b) => b,
            None => DEFAULT_DISCORD_API_BASE@,
        },
        '/',
    )
}

/// The REST post of an alert to the feed channel, or `None` where no bot
/// token or no channel is configured to post to.
pub fn plan_alert_post(
    message: &str,
    bot_token: Option<&str>,
    channel_id: Option<&str>,
    api_base: Option<&str>,
) -> (r: Option<HttpPost>)
    ensures
        r is None <==> (usable_config(opt_view(bot_token)) is None || usable_config(
            opt_view(channel_id),
        ) is None),
        r matches Some(p) ==> {
            let token = usable_config(opt_view(bot_token))->0;
            let channel = usable_config(opt_view(channel_id))->0;
            &&& p.url@ == api_base_of(opt_view(api_base)) + "/channels/"@ + channel
                + "/messages"@
            &&& p.headers@.len() == 2
            &&& p.headers@[0].0@ == "content-type"@
            &&& p.headers@[0].1@ == "application/json"@
            &&& p.headers@[1].0@ == "authorization"@
            &&& p.headers@[1].1@ == "Bot "@ + token
            &&& is_alert_post_body(p.body, message@)
        },
{
    let token = match usable_config_value(bot_token) {
        Some(t) => t,
        None => {
            return None;
        },
    };
    let channel = match usable_config_value(channel_id) {
        Some(c) => c,
        None => {
            return None;
        },
    };
    let base = match usable_config_value(api_base) {
        Some(b) => trim_trailing_slashes(b.as_str()),
        None => trim_trailing_slashes(DEFAULT_DISCORD_API_BASE),
    };
    let url = concat_str(base, "/channels/");
    let url = concat_str(url, channel.as_str());
    let url = concat_str(url, "/messages");
    let headers = vec![
        (owned("content-type"), owned("application/json")),
        (owned("authorization"), concat_str(owned("Bot "), token.as_str())),
    ];
    let embed = JsonValue::Object(
        vec![
            (owned("title"), JsonValue::string("Transport connection failed")),
            (owned("description"), JsonValue::string(message)),
            (owned("color"), JsonValue::Int(ALERT_EMBED_COLOR)),
        ],
    );
    let body = JsonValue::Object(
        vec![
            (owned("content"), JsonValue::string(message)),
            (owned("embeds"), JsonValue::Array(vec![embed])),
        ],
    );
    Some(HttpPost { url, headers, body })
}

/// The error reported when the channel post is refused.
pub open spec fn post_failure_text(status: u16, body: Seq<char>) -> Seq<char> {
    "Discord channel post failed (HTTP "@ + decimal(status as nat) + "): "@ + body
}

/// The result of the channel post: delivered on a 2xx status, an error
/// naming the status and the response body otherwise.
pub fn alert_post_result(status: u16, body: &str) -> (r: Result<bool, String>)
    ensures
        200 <= status < 300 ==> r == Ok::<bool, String>(true),
        !(200 <= status < 300) ==> (r matches Err(e) && e@ == post_failure_text(status, body@)),
{
    if 200 <= status && status < 300 {
        Ok(true)
    } else {
        let mut e = owned("Discord channel post failed (HTTP ");
        push_decimal(&mut e, status as u64);
        let e = concat_str(e, "): ");
        Err(concat_str(e, body))
    }
}

} // verus!
