//! Resilient outbound-notification core: credential and message validation,
//! sliding-window rate limiting, exponential backoff, response classification,
//! delivery metrics and history, and the diagnostic pipeline.
//!
//! Everything here is pure logic over plain values.  The caller performs the
//! actual network requests and sleeps, hands the observed outcomes to these
//! functions, and obeys the waits they return.

use vstd::arithmetic::power::pow;
use vstd::prelude::*;
use vstd::string::StrSliceExecFns;
use vstd::string::StringExecFns;

use crate::text::chars_contain;
use crate::text::chars_eq_str;
use crate::text::chars_match_at;
use crate::text::chars_to_string;
use crate::text::contains_seq;
use crate::text::dec_str;
use crate::text::digit_value;
use crate::text::dec_str_signed;
use crate::text::i64_to_chars;
use crate::text::is_digit_char;
use crate::text::occurs_at;
use crate::text::push_all;
use crate::text::str_to_chars;
use crate::text::u64_to_chars;

verus! {

/// The closed error taxonomy of the delivery client.
#[derive(Debug, Clone)]
pub enum TelegramError {
    Network(String),
    InvalidToken,
    InvalidChatId(String),
    MessageTooLong(usize),
    RateLimit(u64),
    ApiError(String),
    Timeout,
    InvalidConfig(String),
    WebhookError(String),
}

/// The human-readable text of an error, one fixed phrase per variant.
pub open spec fn error_text(e: TelegramError) -> Seq<char> {
    match e {
        TelegramError::Network(m) => "Erreur réseau: "@ + m@,
        TelegramError::InvalidToken => "Token bot invalide"@,
        TelegramError::InvalidChatId(c) => "Chat ID invalide: "@ + c@,
        TelegramError::MessageTooLong(n) => "Message trop long: "@ + dec_str(n as int)
            + " caractères (max: 4096)"@,
        TelegramError::RateLimit(s) => "Rate limit atteint, retry dans "@ + dec_str(s as int)
            + "s"@,
        TelegramError::ApiError(m) => "API Telegram erreur: "@ + m@,
        TelegramError::Timeout => "Timeout de connexion"@,
        TelegramError::InvalidConfig(m) => "Configuration invalide: "@ + m@,
        TelegramError::WebhookError(m) => "Webhook erreur: "@ + m@,
    }
}

impl TelegramError {
    /// The error rendered as text, as a caller would log or display it.
    pub fn describe(&self) -> (r: String)
        ensures
            r@ == error_text(*self),
    {
        match self {
            TelegramError::Network(m) => {
                let mut s = String::from_str("Erreur réseau: ");
                s.append(m.as_str());
                s
            },
            TelegramError::InvalidToken => String::from_str("Token bot invalide"),
            TelegramError::InvalidChatId(c) => {
                let mut s = String::from_str("Chat ID invalide: ");
                s.append(c.as_str());
                s
            },
            TelegramError::MessageTooLong(n) => {
                let mut s = String::from_str("Message trop long: ");
                let digits = u64_to_chars(*n as u64);
                let ds = chars_to_string(&digits);
                s.append(ds.as_str());
                s.append(" caractères (max: 4096)");
                s
            },
            TelegramError::RateLimit(w) => {
                let mut s = String::from_str("Rate limit atteint, retry dans ");
                let digits = u64_to_chars(*w);
                let ds = chars_to_string(&digits);
                s.append(ds.as_str());
                s.append("s");
                s
            },
            TelegramError::ApiError(m) => {
                let mut s = String::from_str("API Telegram erreur: ");
                s.append(m.as_str());
                s
            },
            TelegramError::Timeout => String::from_str("Timeout de connexion"),
            TelegramError::InvalidConfig(m) => {
                let mut s = String::from_str("Configuration invalide: ");
                s.append(m.as_str());
                s
            },
            TelegramError::WebhookError(m) => {
                let mut s = String::from_str("Webhook erreur: ");
                s.append(m.as_str());
                s
            },
        }
    }
}

/// Number of occurrences of `c` in `s`.
pub open spec fn count_char(s: Seq<char>, c: char) -> nat
    decreases s.len(),
{
    if s.len() == 0 {
        0
    } else {
        count_char(s.drop_last(), c) + if s.last() == c {
            1nat
        } else {
            0nat
        }
    }
}

/// Index of the first occurrence of `c` in `s` (`s.len()` when absent).
pub open spec fn first_index_of(s: Seq<char>, c: char) -> int
    decreases s.len(),
{
    if s.len() == 0 {
        0
    } else if s[0] == c {
        0
    } else {
        1 + first_index_of(s.drop_first(), c)
    }
}

proof fn lemma_first_index_of(s: Seq<char>, c: char, k: int)
    requires
        0 <= k < s.len(),
        s[k] == c,
        forall|j: int| 0 <= j < k ==> s[j] != c,
    ensures
        first_index_of(s, c) == k,
    decreases k,
{
    if k == 0 {
    } else {
        assert(s[0] != c);
        assert(s.drop_first()[k - 1] == c);
        assert(forall|j: int| 0 <= j < k - 1 ==> s.drop_first()[j] == s[j + 1] && s[j + 1] != c);
        lemma_first_index_of(s.drop_first(), c, k - 1);
    }
}

/// A well-formed bot token: a non-empty numeric bot id, one colon, and
/// a secret of at least 35 characters after it.
pub open spec fn token_ok(s: Seq<char>) -> bool {
    &&& count_char(s, ':') == 1
    &&& {
        let i = first_index_of(s, ':');
        &&& i >= 1
        &&& forall|j: int| 0 <= j < i ==> is_digit_char(s[j])
        &&& s.len() - i - 1 >= 35
    }
}

/// Value of a sequence of decimal digits, most significant first.
pub open spec fn digits_value_seq(s: Seq<char>) -> int
    decreases s.len(),
{
    if s.len() == 0 {
        0
    } else {
        digits_value_seq(s.drop_last()) * 10 + digit_value(s.last())
    }
}

proof fn lemma_digits_value_nonneg(s: Seq<char>)
    requires
        forall|i: int| 0 <= i < s.len() ==> is_digit_char(s[i]),
    ensures
        digits_value_seq(s) >= 0,
    decreases s.len(),
{
    if s.len() > 0 {
        lemma_digits_value_nonneg(s.drop_last());
    }
}

/// The digit part of a numeric string: everything after an optional sign.
pub open spec fn i64_digits(s: Seq<char>) -> Seq<char> {
    if s.len() > 0 && (s[0] == '+' || s[0] == '-') {
        s.drop_first()
    } else {
        s
    }
}

/// A string that parses as a signed 64-bit integer: an optional sign,
/// at least one digit, and a value within the 64-bit range.
pub open spec fn is_i64_seq(s: Seq<char>) -> bool {
    &&& i64_digits(s).len() > 0
    &&& forall|i: int| 0 <= i < i64_digits(s).len() ==> is_digit_char(i64_digits(s)[i])
    &&& digits_value_seq(i64_digits(s)) <= if s.len() > 0 && s[0] == '-' {
        0x8000_0000_0000_0000int
    } else {
        0x7fff_ffff_ffff_ffffint
    }
}

/// A well-formed destination id: a signed 64-bit integer or an `@`-name.
pub open spec fn chat_id_ok(s: Seq<char>) -> bool {
    is_i64_seq(s) || (s.len() > 0 && s[0] == '@')
}

/// The numeric value of an ASCII digit, `None` for any other character.
fn try_digit(c: char) -> (r: Option<u64>)
    ensures
        match r {
            Some(d) => is_digit_char(c) && d == digit_value(c) && d < 10,
            None => !is_digit_char(c),
        },
{
    if c == '0' {
        Some(0)
    } else if c == '1' {
        Some(1)
    } else if c == '2' {
        Some(2)
    } else if c == '3' {
        Some(3)
    } else if c == '4' {
        Some(4)
    } else if c == '5' {
        Some(5)
    } else if c == '6' {
        Some(6)
    } else if c == '7' {
        Some(7)
    } else if c == '8' {
        Some(8)
    } else if c == '9' {
        Some(9)
    } else {
        None
    }
}

/// Whether the chars of `v` parse as a signed 64-bit integer.
fn chars_parse_as_i64(v: &Vec<char>) -> (b: bool)
    ensures
        b == is_i64_seq(v@),
{
    if v.len() == 0 {
        return false;
    }
    let neg = v[0] == '-';
    let has_sign = neg || v[0] == '+';
    let start: usize = if has_sign {
        1
    } else {
        0
    };
    if v.len() == start {
        return false;
    }
    let ghost digits: Seq<char> = i64_digits(v@);
    let bound: u128 = if neg {
        0x8000_0000_0000_0000
    } else {
        0x7fff_ffff_ffff_ffff
    };
    let mut acc: u128 = 0;
    let mut i: usize = start;
    let n = v.len();
    while i < n
        invariant
            start <= i <= n,
            n == v@.len(),
            start <= 1,
            (start == 1) == (v@.len() > 0 && (v@[0] == '+' || v@[0] == '-')),
            digits == i64_digits(v@),
            digits.len() == n - start,
            bound <= 0x8000_0000_0000_0000,
            forall|j: int| 0 <= j < i - start ==> is_digit_char(digits[j]),
            acc as int == if digits_value_seq(digits.subrange(0, i - start)) <= bound as int {
                digits_value_seq(digits.subrange(0, i - start))
            } else {
                bound as int + 1
            },
        decreases n - i,
    {
        let c = v[i];
        proof {
            if start == 1 {
                assert(digits[i - 1] == v@[i as int]);
            }
        }
        match try_digit(c) {
            None => {
                proof {
                    let j = i - start;
                    assert(i64_digits(v@) == digits);
                    assert(0 <= j < i64_digits(v@).len() && !is_digit_char(i64_digits(v@)[j]));
                    assert(!is_i64_seq(v@));
                }
                return false;
            },
            Some(d) => {
                proof {
                    let p = digits.subrange(0, i - start);
                    let q = digits.subrange(0, i + 1 - start);
                    assert(q.drop_last() =~= p);
                    assert(q.last() == digits[i - start]);
                    lemma_digits_value_nonneg(p);
                }
                let next = acc * 10 + (d as u128);
                if next > bound {
                    acc = bound + 1;
                } else {
                    acc = next;
                }
            },
        }
        i = i + 1;
    }
    proof {
        assert(digits.subrange(0, n - start) =~= digits);
    }
    acc <= bound
}

/// The client configuration: validated credentials plus the connection
/// and rate-limit settings used for every delivery.
#[derive(Debug, Clone)]
pub struct TelegramConfig {
    pub bot_token: String,
    pub chat_id: String,
    pub api_base_url: String,
    pub timeout_seconds: u64,
    pub max_retries: u32,
    pub rate_limit_per_second: u32,
    pub rate_limit_per_minute: u32,
}

impl TelegramConfig {
    /// Builds a configuration with the default connection settings.
    /// Fails, and builds nothing, unless both credentials are well-formed.
    pub fn new(bot_token: String, chat_id: String) -> (r: Result<TelegramConfig, TelegramError>)
        ensures
            match r {
                Ok(c) => {
                    &&& token_ok(bot_token@)
                    &&& chat_id_ok(chat_id@)
                    &&& c.bot_token@ == bot_token@
                    &&& c.chat_id@ == chat_id@
                    &&& c.api_base_url@ == "https://api.telegram.org"@
                    &&& c.timeout_seconds == 30
                    &&& c.max_retries == 3
                    &&& c.rate_limit_per_second == 30
                    &&& c.rate_limit_per_minute == 20
                },
                Err(e) => credential_error(bot_token@, chat_id@, e),
            },
    {
        match Self::validate_credentials(bot_token.as_str(), chat_id.as_str()) {
            Err(e) => Err(e),
            Ok(()) => Ok(TelegramConfig {
                bot_token,
                chat_id,
                api_base_url: String::from_str("https://api.telegram.org"),
                timeout_seconds: 30,
                max_retries: 3,
                rate_limit_per_second: 30,
                rate_limit_per_minute: 20,
            }),
        }
    }

    /// Checks both credential formats, token first.
    pub fn validate_credentials(token: &str, chat_id: &str) -> (r: Result<(), TelegramError>)
        ensures
            match r {
                Ok(()) => token_ok(token@) && chat_id_ok(chat_id@),
                Err(e) => credential_error(token@, chat_id@, e),
            },
    {
        if !Self::is_valid_token(token) {
            return Err(TelegramError::InvalidToken);
        }
        if !Self::is_valid_chat_id(chat_id) {
            return Err(TelegramError::InvalidChatId(String::from_str(chat_id)));
        }
        Ok(())
    }

    /// Whether the token splits into a non-empty numeric bot id and a
    /// secret of at least 35 characters.
    pub fn is_valid_token(token: &str) -> (b: bool)
        ensures
            b == token_ok(token@),
    {
        let v = str_to_chars(token);
        let n = v.len();
        let mut cnt: usize = 0;
        let mut first: usize = 0;
        let mut i: usize = 0;
        while i < n
            invariant
                i <= n,
                n == v@.len(),
                v@ == token@,
                cnt <= i,
                cnt as int == count_char(v@.subrange(0, i as int), ':'),
                cnt > 0 ==> first < i && v@[first as int] == ':' && (forall|j: int|
                    0 <= j < first ==> v@[j] != ':'),
                cnt == 0 ==> forall|j: int| 0 <= j < i ==> v@[j] != ':',
            decreases n - i,
        {
            proof {
                assert(v@.subrange(0, i + 1).drop_last() =~= v@.subrange(0, i as int));
                assert(v@.subrange(0, i + 1).last() == v@[i as int]);
            }
            if v[i] == ':' {
                if cnt == 0 {
                    first = i;
                }
                cnt = cnt + 1;
            }
            i = i + 1;
        }
        proof {
            assert(v@.subrange(0, n as int) =~= v@);
        }
        if cnt != 1 {
            return false;
        }
        proof {
            lemma_first_index_of(v@, ':', first as int);
        }
        if first == 0 {
            return false;
        }
        let mut k: usize = 0;
        while k < first
            invariant
                k <= first,
                first < n,
                n == v@.len(),
                v@ == token@,
                count_char(v@, ':') == 1,
                first_index_of(v@, ':') == first,
                forall|j: int| 0 <= j < k ==> is_digit_char(v@[j]),
            decreases first - k,
        {
            match try_digit(v[k]) {
                None => {
                    proof {
                        assert(0 <= k < first_index_of(v@, ':') && !is_digit_char(v@[k as int]));
                        assert(!token_ok(v@));
                    }
                    return false;
                },
                Some(_) => {},
            }
            k = k + 1;
        }
        n - first - 1 >= 35
    }

    /// Whether the destination id is a signed 64-bit integer or an `@`-name.
    pub fn is_valid_chat_id(chat_id: &str) -> (b: bool)
        ensures
            b == chat_id_ok(chat_id@),
    {
        let v = str_to_chars(chat_id);
        if v.len() > 0 {
            if v[0] == '@' {
                return true;
            }
        }
        chars_parse_as_i64(&v)
    }
}

/// Which error credential validation reports: a malformed token wins,
/// then a malformed destination id.
pub open spec fn credential_error(token: Seq<char>, chat_id: Seq<char>, e: TelegramError) -> bool {
    ||| (!token_ok(token) && e is InvalidToken)
    ||| (token_ok(token) && !chat_id_ok(chat_id) && (e matches TelegramError::InvalidChatId(c)
        && c@ == chat_id))
}

/// The structural tags the provider accepts in messages.
pub open spec fn tag_b_open() -> Seq<char> {
    seq!['<', 'b', '>']
}

pub open spec fn tag_b_close() -> Seq<char> {
    seq!['<', '/', 'b', '>']
}

pub open spec fn tag_i_open() -> Seq<char> {
    seq!['<', 'i', '>']
}

pub open spec fn tag_i_close() -> Seq<char> {
    seq!['<', '/', 'i', '>']
}

pub open spec fn tag_code_open() -> Seq<char> {
    seq!['<', 'c', 'o', 'd', 'e', '>']
}

pub open spec fn tag_code_close() -> Seq<char> {
    seq!['<', '/', 'c', 'o', 'd', 'e', '>']
}

pub open spec fn tag_pre_open() -> Seq<char> {
    seq!['<', 'p', 'r', 'e', '>']
}

pub open spec fn tag_pre_close() -> Seq<char> {
    seq!['<', '/', 'p', 'r', 'e', '>']
}

/// How one character is escaped: `&`, `<` and `>` become HTML entities,
/// everything else stands unchanged.
pub open spec fn escape_char(c: char) -> Seq<char> {
    if c == '&' {
        seq!['&', 'a', 'm', 'p', ';']
    } else if c == '<' {
        seq!['&', 'l', 't', ';']
    } else if c == '>' {
        seq!['&', 'g', 't', ';']
    } else {
        seq![c]
    }
}

/// Whether `s` begins with `p`.
pub open spec fn starts_with(s: Seq<char>, p: Seq<char>) -> bool {
    p.len() <= s.len() && s.subrange(0, p.len() as int) == p
}

/// The sanitized form of a message: each allow-listed tag is kept verbatim,
/// every other character is escaped.
pub open spec fn sanitize_spec(s: Seq<char>) -> Seq<char>
    decreases s.len(),
{
    if s.len() == 0 {
        Seq::empty()
    } else if starts_with(s, tag_b_open()) {
        tag_b_open() + sanitize_spec(s.skip(3))
    } else if starts_with(s, tag_b_close()) {
        tag_b_close() + sanitize_spec(s.skip(4))
    } else if starts_with(s, tag_i_open()) {
        tag_i_open() + sanitize_spec(s.skip(3))
    } else if starts_with(s, tag_i_close()) {
        tag_i_close() + sanitize_spec(s.skip(4))
    } else if starts_with(s, tag_code_open()) {
        tag_code_open() + sanitize_spec(s.skip(6))
    } else if starts_with(s, tag_code_close()) {
        tag_code_close() + sanitize_spec(s.skip(7))
    } else if starts_with(s, tag_pre_open()) {
        tag_pre_open() + sanitize_spec(s.skip(5))
    } else if starts_with(s, tag_pre_close()) {
        tag_pre_close() + sanitize_spec(s.skip(6))
    } else {
        escape_char(s[0]) + sanitize_spec(s.skip(1))
    }
}

proof fn lemma_occurs_skip(s: Seq<char>, p: Seq<char>, i: int)
    requires
        0 <= i <= s.len(),
    ensures
        occurs_at(s, p, i) == starts_with(s.skip(i), p),
{
    if i + p.len() <= s.len() {
        assert(s.subrange(i, i + p.len()) =~= s.skip(i).subrange(0, p.len() as int));
    }
}

fn tag_vec_b_open() -> (v: Vec<char>)
    ensures
        v@ == tag_b_open(),
{
    let v = vec!['<', 'b', '>'];
    proof {
        assert(v@ =~= tag_b_open());
    }
    v
}

fn tag_vec_b_close() -> (v: Vec<char>)
    ensures
        v@ == tag_b_close(),
{
    let v = vec!['<', '/', 'b', '>'];
    proof {
        assert(v@ =~= tag_b_close());
    }
    v
}

fn tag_vec_i_open() -> (v: Vec<char>)
    ensures
        v@ == tag_i_open(),
{
    let v = vec!['<', 'i', '>'];
    proof {
        assert(v@ =~= tag_i_open());
    }
    v
}

fn tag_vec_i_close() -> (v: Vec<char>)
    ensures
        v@ == tag_i_close(),
{
    let v = vec!['<', '/', 'i', '>'];
    proof {
        assert(v@ =~= tag_i_close());
    }
    v
}

fn tag_vec_code_open() -> (v: Vec<char>)
    ensures
        v@ == tag_code_open(),
{
    let v = vec!['<', 'c', 'o', 'd', 'e', '>'];
    proof {
        assert(v@ =~= tag_code_open());
    }
    v
}

fn tag_vec_code_close() -> (v: Vec<char>)
    ensures
        v@ == tag_code_close(),
{
    let v = vec!['<', '/', 'c', 'o', 'd', 'e', '>'];
    proof {
        assert(v@ =~= tag_code_close());
    }
    v
}

fn tag_vec_pre_open() -> (v: Vec<char>)
    ensures
        v@ == tag_pre_open(),
{
    let v = vec!['<', 'p', 'r', 'e', '>'];
    proof {
        assert(v@ =~= tag_pre_open());
    }
    v
}

fn tag_vec_pre_close() -> (v: Vec<char>)
    ensures
        v@ == tag_pre_close(),
{
    let v = vec!['<', '/', 'p', 'r', 'e', '>'];
    proof {
        assert(v@ =~= tag_pre_close());
    }
    v
}

/// The sanitized form of the chars in `v`.
fn sanitize_chars(v: &Vec<char>) -> (out: Vec<char>)
    ensures
        out@ == sanitize_spec(v@),
{
    let tb = tag_vec_b_open();
    let tbc = tag_vec_b_close();
    let ti = tag_vec_i_open();
    let tic = tag_vec_i_close();
    let tc = tag_vec_code_open();
    let tcc = tag_vec_code_close();
    let tp = tag_vec_pre_open();
    let tpc = tag_vec_pre_close();
    let amp = vec!['&', 'a', 'm', 'p', ';'];
    let lt = vec!['&', 'l', 't', ';'];
    let gt = vec!['&', 'g', 't', ';'];
    let mut out: Vec<char> = Vec::new();
    let mut i: usize = 0;
    let n = v.len();
    proof {
        assert(v@.skip(0) =~= v@);
        assert(out@ + sanitize_spec(v@.skip(0)) =~= sanitize_spec(v@));
    }
    while i < n
        invariant
            i <= n,
            n == v@.len(),
            tb@ == tag_b_open(),
            tbc@ == tag_b_close(),
            ti@ == tag_i_open(),
            tic@ == tag_i_close(),
            tc@ == tag_code_open(),
            tcc@ == tag_code_close(),
            tp@ == tag_pre_open(),
            tpc@ == tag_pre_close(),
            amp@ =~= seq!['&', 'a', 'm', 'p', ';'],
            lt@ =~= seq!['&', 'l', 't', ';'],
            gt@ =~= seq!['&', 'g', 't', ';'],
            sanitize_spec(v@) =~= out@ + sanitize_spec(v@.skip(i as int)),
        decreases n - i,
    {
        let ghost rest = v@.skip(i as int);
        proof {
            lemma_occurs_skip(v@, tag_b_open(), i as int);
            lemma_occurs_skip(v@, tag_b_close(), i as int);
            lemma_occurs_skip(v@, tag_i_open(), i as int);
            lemma_occurs_skip(v@, tag_i_close(), i as int);
            lemma_occurs_skip(v@, tag_code_open(), i as int);
            lemma_occurs_skip(v@, tag_code_close(), i as int);
            lemma_occurs_skip(v@, tag_pre_open(), i as int);
            lemma_occurs_skip(v@, tag_pre_close(), i as int);
            assert(rest.len() > 0);
        }
        if chars_match_at(v, &tb, i) {
            push_all(&mut out, &tb);
            proof {
                assert(rest.skip(3) =~= v@.skip(i + 3));
            }
            i = i + 3;
        } else if chars_match_at(v, &tbc, i) {
            push_all(&mut out, &tbc);
            proof {
                assert(rest.skip(4) =~= v@.skip(i + 4));
            }
            i = i + 4;
        } else if chars_match_at(v, &ti, i) {
            push_all(&mut out, &ti);
            proof {
                assert(rest.skip(3) =~= v@.skip(i + 3));
            }
            i = i + 3;
        } else if chars_match_at(v, &tic, i) {
            push_all(&mut out, &tic);
            proof {
                assert(rest.skip(4) =~= v@.skip(i + 4));
            }
            i = i + 4;
        } else if chars_match_at(v, &tc, i) {
            push_all(&mut out, &tc);
            proof {
                assert(rest.skip(6) =~= v@.skip(i + 6));
            }
            i = i + 6;
        } else if chars_match_at(v, &tcc, i) {
            push_all(&mut out, &tcc);
            proof {
                assert(rest.skip(7) =~= v@.skip(i + 7));
            }
            i = i + 7;
        } else if chars_match_at(v, &tp, i) {
            push_all(&mut out, &tp);
            proof {
                assert(rest.skip(5) =~= v@.skip(i + 5));
            }
            i = i + 5;
        } else if chars_match_at(v, &tpc, i) {
            push_all(&mut out, &tpc);
            proof {
                assert(rest.skip(6) =~= v@.skip(i + 6));
            }
            i = i + 6;
        } else {
            let c = v[i];
            proof {
                assert(rest[0] == v@[i as int]);
                assert(rest.skip(1) =~= v@.skip(i + 1));
            }
            if c == '&' {
                push_all(&mut out, &amp);
            } else if c == '<' {
                push_all(&mut out, &lt);
            } else if c == '>' {
                push_all(&mut out, &gt);
            } else {
                out.push(c);
                proof {
                    assert(escape_char(c) =~= seq![c]);
                }
            }
            i = i + 1;
        }
        proof {
            assert(sanitize_spec(v@) =~= out@ + sanitize_spec(v@.skip(i as int)));
        }
    }
    proof {
        assert(v@.skip(n as int) =~= Seq::<char>::empty());
        assert(sanitize_spec(v@.skip(n as int)) =~= Seq::<char>::empty());
        assert(out@ =~= sanitize_spec(v@));
    }
    out
}

/// The first allow-listed opening tag that is present without its closing
/// tag, in the fixed check order; `None` when every present tag is matched.
pub open spec fn unmatched_open_tag(s: Seq<char>) -> Option<Seq<char>> {
    if contains_seq(s, tag_b_open()) && !contains_seq(s, tag_b_close()) {
        Some(tag_b_open())
    } else if contains_seq(s, tag_i_open()) && !contains_seq(s, tag_i_close()) {
        Some(tag_i_open())
    } else if contains_seq(s, tag_code_open()) && !contains_seq(s, tag_code_close()) {
        Some(tag_code_open())
    } else if contains_seq(s, tag_pre_open()) && !contains_seq(s, tag_pre_close()) {
        Some(tag_pre_open())
    } else {
        None
    }
}

/// Every allow-listed opening tag present in `s` has its closing tag.
pub open spec fn entities_ok(s: Seq<char>) -> bool {
    unmatched_open_tag(s) is None
}

/// A message the validator accepts: non-empty, within the provider's
/// 4096-character limit, and structurally sound once sanitized.
pub open spec fn message_acceptable(s: Seq<char>) -> bool {
    0 < s.len() <= 4096 && entities_ok(sanitize_spec(s))
}

/// Enforces the length limits and sanitizes and checks markup.
#[derive(Debug, Clone)]
pub struct MessageValidator;

impl MessageValidator {
    /// Validates a raw message and returns its sanitized form.
    /// Rejects the empty message, one over 4096 characters (counted on the
    /// raw text), and one whose sanitized form has an unmatched tag.
    pub fn validate_message(message: &str) -> (r: Result<String, TelegramError>)
        ensures
            match r {
                Ok(out) => message_acceptable(message@) && out@ == sanitize_spec(message@),
                Err(e) => {
                    ||| (message@.len() == 0 && (e matches TelegramError::ApiError(m) && m@
                        == "Message vide"@))
                    ||| (message@.len() > 4096 && (e matches TelegramError::MessageTooLong(n) && n
                        == message@.len()))
                    ||| (0 < message@.len() <= 4096 && !entities_ok(sanitize_spec(message@)) && (
                    e matches TelegramError::ApiError(m)
                        && (unmatched_open_tag(sanitize_spec(message@)) matches Some(t) && m@
                        == "Balise non fermée: "@ + t)))
                },
            },
    {
        if message.is_empty() {
            return Err(TelegramError::ApiError(String::from_str("Message vide")));
        }
        let len = message.unicode_len();
        if len > 4096 {
            return Err(TelegramError::MessageTooLong(len));
        }
        let cleaned = Self::sanitize_html(message);
        match Self::validate_html_entities(cleaned.as_str()) {
            Err(e) => Err(e),
            Ok(()) => Ok(cleaned),
        }
    }

    /// Escapes `&`, `<` and `>` everywhere except in the allow-listed
    /// structural tags, which are kept verbatim.
    pub fn sanitize_html(message: &str) -> (r: String)
        ensures
            r@ == sanitize_spec(message@),
    {
        let v = str_to_chars(message);
        let out = sanitize_chars(&v);
        chars_to_string(&out)
    }

    /// Checks that every allow-listed opening tag present has its closing
    /// tag, and names the first one that does not.
    pub fn validate_html_entities(message: &str) -> (r: Result<(), TelegramError>)
        ensures
            match r {
                Ok(()) => entities_ok(message@),
                Err(e) => e matches TelegramError::ApiError(m)
                    && (unmatched_open_tag(message@) matches Some(t) && m@
                    == "Balise non fermée: "@ + t),
            },
    {
        let v = str_to_chars(message);
        let tb = tag_vec_b_open();
        let tbc = tag_vec_b_close();
        let ti = tag_vec_i_open();
        let tic = tag_vec_i_close();
        let tc = tag_vec_code_open();
        let tcc = tag_vec_code_close();
        let tp = tag_vec_pre_open();
        let tpc = tag_vec_pre_close();
        if chars_contain(&v, &tb) && !chars_contain(&v, &tbc) {
            let mut m = String::from_str("Balise non fermée: ");
            m.append("<b>");
            proof {
                reveal_strlit("<b>");
                assert("<b>"@ =~= tag_b_open());
            }
            return Err(TelegramError::ApiError(m));
        }
        if chars_contain(&v, &ti) && !chars_contain(&v, &tic) {
            let mut m = String::from_str("Balise non fermée: ");
            m.append("<i>");
            proof {
                reveal_strlit("<i>");
                assert("<i>"@ =~= tag_i_open());
            }
            return Err(TelegramError::ApiError(m));
        }
        if chars_contain(&v, &tc) && !chars_contain(&v, &tcc) {
            let mut m = String::from_str("Balise non fermée: ");
            m.append("<code>");
            proof {
                reveal_strlit("<code>");
                assert("<code>"@ =~= tag_code_open());
            }
            return Err(TelegramError::ApiError(m));
        }
        if chars_contain(&v, &tp) && !chars_contain(&v, &tpc) {
            let mut m = String::from_str("Balise non fermée: ");
            m.append("<pre>");
            proof {
                reveal_strlit("<pre>");
                assert("<pre>"@ =~= tag_pre_open());
            }
            return Err(TelegramError::ApiError(m));
        }
        Ok(())
    }
}

/// The window with every timestamp older than 60 seconds dropped from
/// the front, as the cleanup pass leaves it.
pub open spec fn drop_stale(w: Seq<u64>, now: u64) -> Seq<u64>
    decreases w.len(),
{
    if w.len() == 0 {
        w
    } else if now - w[0] > 60000 {
        drop_stale(w.drop_first(), now)
    } else {
        w
    }
}

/// How many window entries lie within the last second.
pub open spec fn recent_count(w: Seq<u64>, now: u64) -> nat
    decreases w.len(),
{
    if w.len() == 0 {
        0
    } else {
        recent_count(w.drop_last(), now) + if now - w.last() < 1000 {
            1nat
        } else {
            0nat
        }
    }
}

/// Milliseconds elapsed since `t`, zero when `t` lies in the future.
pub open spec fn elapsed_since(now: u64, t: u64) -> u64 {
    if now >= t {
        (now - t) as u64
    } else {
        0
    }
}

/// What one rate-limit check decides.
pub enum RateDecision {
    Proceed,
    PerSecondLimit,
    PerMinuteLimit { wait_ms: u64 },
}

/// The decision the limiter takes at time `now` on window `w`: first the
/// per-second cap, then the per-minute cap — a full window is always
/// denied, with the wait until its oldest entry ages out (zero when that
/// entry is exactly at the window's edge) — else the call proceeds.
pub open spec fn spec_rate_decision(w: Seq<u64>, per_second: u32, per_minute: u32, now: u64)
    -> RateDecision {
    let cw = drop_stale(w, now);
    if recent_count(cw, now) >= per_second {
        RateDecision::PerSecondLimit
    } else if cw.len() >= per_minute && cw.len() > 0 {
        RateDecision::PerMinuteLimit { wait_ms: (60000 - elapsed_since(now, cw[0])) as u64 }
    } else {
        RateDecision::Proceed
    }
}

proof fn lemma_drop_stale_front_fresh(w: Seq<u64>, now: u64)
    ensures
        drop_stale(w, now).len() > 0 ==> now - drop_stale(w, now)[0] <= 60000,
        drop_stale(w, now).len() <= w.len(),
    decreases w.len(),
{
    if w.len() > 0 && now - w[0] > 60000 {
        lemma_drop_stale_front_fresh(w.drop_first(), now);
    }
}

/// Outcome of one rate-limit check.  On an `Err` outcome the caller must
/// sleep `wait_ms` before treating the attempt as failed, so that an
/// immediate retry is likely to clear the limit.
#[derive(Debug)]
pub struct RateCheck {
    pub outcome: Result<(), TelegramError>,
    pub wait_ms: u64,
}

/// Dual sliding-window rate limiter over millisecond timestamps supplied
/// by the caller.
#[derive(Debug)]
pub struct RateLimiter {
    pub requests: Vec<u64>,
    pub max_requests_per_second: u32,
    pub max_requests_per_minute: u32,
    pub last_request: Option<u64>,
}

fn count_recent(v: &Vec<u64>, now_ms: u64) -> (c: usize)
    ensures
        c == recent_count(v@, now_ms),
{
    let mut c: usize = 0;
    let mut i: usize = 0;
    let n = v.len();
    while i < n
        invariant
            i <= n,
            n == v@.len(),
            c <= i,
            c as nat == recent_count(v@.subrange(0, i as int), now_ms),
        decreases n - i,
    {
        proof {
            assert(v@.subrange(0, i + 1).drop_last() =~= v@.subrange(0, i as int));
            assert(v@.subrange(0, i + 1).last() == v@[i as int]);
        }
        let t = v[i];
        if t > now_ms || now_ms - t < 1000 {
            c = c + 1;
        }
        i = i + 1;
    }
    proof {
        assert(v@.subrange(0, n as int) =~= v@);
    }
    c
}

impl RateLimiter {
    /// A fresh limiter with an empty window.
    pub fn new(per_second: u32, per_minute: u32) -> (r: RateLimiter)
        ensures
            r.requests@ == Seq::<u64>::empty(),
            r.max_requests_per_second == per_second,
            r.max_requests_per_minute == per_minute,
            r.last_request is None,
    {
        RateLimiter {
            requests: Vec::new(),
            max_requests_per_second: per_second,
            max_requests_per_minute: per_minute,
            last_request: None,
        }
    }

    /// Drops every window entry older than 60 seconds.
    pub fn cleanup_old_requests(&mut self, now_ms: u64)
        ensures
            final(self).requests@ == drop_stale(old(self).requests@, now_ms),
            final(self).max_requests_per_second == old(self).max_requests_per_second,
            final(self).max_requests_per_minute == old(self).max_requests_per_minute,
            final(self).last_request == old(self).last_request,
    {
        let ghost orig = self.requests@;
        loop
            invariant_except_break
                drop_stale(orig, now_ms) == drop_stale(self.requests@, now_ms),
                self.max_requests_per_second == old(self).max_requests_per_second,
                self.max_requests_per_minute == old(self).max_requests_per_minute,
                self.last_request == old(self).last_request,
            ensures
                self.requests@ == drop_stale(orig, now_ms),
                self.max_requests_per_second == old(self).max_requests_per_second,
                self.max_requests_per_minute == old(self).max_requests_per_minute,
                self.last_request == old(self).last_request,
            decreases self.requests@.len(),
        {
            if self.requests.len() == 0 {
                break ;
            }
            let front = self.requests[0];
            if front <= now_ms && now_ms - front > 60000 {
                let ghost before = self.requests@;
                self.requests.remove(0);
                proof {
                    assert(self.requests@ =~= before.drop_first());
                }
            } else {
                break ;
            }
        }
    }

    /// One rate-limit pass at time `now_ms`: cleans the window, applies
    /// the per-second cap, then denies while the window is at the
    /// per-minute cap, and on success records the request.  A denied
    /// check does not record anything.
    pub fn check_rate_limit(&mut self, now_ms: u64) -> (r: RateCheck)
        ensures
            final(self).max_requests_per_second == old(self).max_requests_per_second,
            final(self).max_requests_per_minute == old(self).max_requests_per_minute,
            ({
                let cw = drop_stale(old(self).requests@, now_ms);
                match spec_rate_decision(
                    old(self).requests@,
                    old(self).max_requests_per_second,
                    old(self).max_requests_per_minute,
                    now_ms,
                ) {
                    RateDecision::Proceed => {
                        &&& final(self).requests@ == cw.push(now_ms)
                        &&& final(self).last_request == Some(now_ms)
                        &&& r.outcome is Ok
                        &&& r.wait_ms == 0
                    },
                    RateDecision::PerSecondLimit => {
                        &&& final(self).requests@ == cw
                        &&& final(self).last_request == old(self).last_request
                        &&& r.outcome matches Err(TelegramError::RateLimit(s)) && s == 1
                        &&& r.wait_ms == 1100
                    },
                    RateDecision::PerMinuteLimit { wait_ms } => {
                        &&& final(self).requests@ == cw
                        &&& final(self).last_request == old(self).last_request
                        &&& r.outcome matches Err(TelegramError::RateLimit(s)) && s == wait_ms
                            / 1000
                        &&& r.wait_ms == wait_ms
                    },
                }
            }),
    {
        self.cleanup_old_requests(now_ms);
        let recent = count_recent(&self.requests, now_ms);
        if recent >= self.max_requests_per_second as usize {
            return RateCheck { outcome: Err(TelegramError::RateLimit(1)), wait_ms: 1100 };
        }
        if self.requests.len() >= self.max_requests_per_minute as usize && self.requests.len()
            > 0 {
            let oldest = self.requests[0];
            let elapsed = if now_ms >= oldest {
                now_ms - oldest
            } else {
                0
            };
            proof {
                lemma_drop_stale_front_fresh(old(self).requests@, now_ms);
            }
            let wait = 60000 - elapsed;
            return RateCheck {
                outcome: Err(TelegramError::RateLimit(wait / 1000)),
                wait_ms: wait,
            };
        }
        self.requests.push(now_ms);
        self.last_request = Some(now_ms);
        RateCheck { outcome: Ok(()), wait_ms: 0 }
    }
}

/// Retry policy: delays grow geometrically from `initial_delay_ms` by
/// `backoff_multiplier`, capped at `max_delay_ms`.
#[derive(Debug, Clone)]
pub struct RetryConfig {
    pub max_attempts: u32,
    pub initial_delay_ms: u64,
    pub max_delay_ms: u64,
    pub backoff_multiplier: u64,
}

/// A usable retry policy: at least one attempt, a multiplier of at least
/// one, and a cap no smaller than the initial delay.
pub open spec fn retry_config_wf(c: RetryConfig) -> bool {
    &&& c.max_attempts >= 1
    &&& c.backoff_multiplier >= 1
    &&& c.initial_delay_ms <= c.max_delay_ms
}

impl Default for RetryConfig {
    /// Three attempts, 500 ms initial delay, doubled each retry, capped
    /// at 30 seconds.
    fn default() -> (r: Self)
        ensures
            r.max_attempts == 3,
            r.initial_delay_ms == 500,
            r.max_delay_ms == 30000,
            r.backoff_multiplier == 2,
    {
        RetryConfig {
            max_attempts: 3,
            initial_delay_ms: 500,
            max_delay_ms: 30000,
            backoff_multiplier: 2,
        }
    }
}

/// The delay before the attempt after `attempt` (1-indexed):
/// `initial * multiplier^(attempt-1)`, capped at `max_delay_ms`.
pub open spec fn backoff_delay_spec(c: RetryConfig, attempt: u32) -> int {
    let raw = c.initial_delay_ms * pow(c.backoff_multiplier as int, (attempt - 1) as nat);
    if raw <= c.max_delay_ms {
        raw
    } else {
        c.max_delay_ms as int
    }
}

/// Tag attached to a history record, for display only.
#[derive(Debug, Clone)]
pub enum MessageType {
    UpdatesAvailable,
    UpdatesInstalled,
    UpdateFailed,
    SystemInfo,
    Error,
    Warning,
    Info,
    Diagnostic,
}

/// One history record per top-level send (never per retry).
#[derive(Debug, Clone)]
pub struct MessageInfo {
    pub timestamp_ms: u64,
    pub message_type: MessageType,
    pub content: String,
    pub success: bool,
    pub response_time_ms: Option<u64>,
    pub retry_count: u32,
}

/// Running delivery aggregates, updated once per terminal outcome.
#[derive(Debug, Clone)]
pub struct TelegramMetrics {
    pub total_messages: u64,
    pub successful_messages: u64,
    pub failed_messages: u64,
    pub average_response_time_ms: u64,
    pub last_error: Option<String>,
    pub rate_limit_hits: u64,
    pub retry_attempts: u64,
}

impl Default for TelegramMetrics {
    /// All counters zero, no average, no last error.
    fn default() -> (r: Self)
        ensures
            r.total_messages == 0,
            r.successful_messages == 0,
            r.failed_messages == 0,
            r.average_response_time_ms == 0,
            r.last_error is None,
            r.rate_limit_hits == 0,
            r.retry_attempts == 0,
    {
        TelegramMetrics {
            total_messages: 0,
            successful_messages: 0,
            failed_messages: 0,
            average_response_time_ms: 0,
            last_error: None,
            rate_limit_hits: 0,
            retry_attempts: 0,
        }
    }
}

/// Metrics after one successful send: totals bumped and the running mean
/// over successful sends extended by `elapsed_ms`.
pub open spec fn metrics_after_success(m: TelegramMetrics, elapsed_ms: u64) -> TelegramMetrics {
    TelegramMetrics {
        total_messages: (m.total_messages + 1) as u64,
        successful_messages: (m.successful_messages + 1) as u64,
        average_response_time_ms: ((m.average_response_time_ms * m.successful_messages
            + elapsed_ms) / (m.successful_messages + 1)) as u64,
        ..m
    }
}

/// Metrics after a send whose retries are exhausted.
pub open spec fn metrics_after_failure(m: TelegramMetrics) -> TelegramMetrics {
    TelegramMetrics {
        total_messages: (m.total_messages + 1) as u64,
        failed_messages: (m.failed_messages + 1) as u64,
        ..m
    }
}

/// Metrics after any failed attempt: the rate-limit counter moves on a
/// rate-limit error, nothing else.
pub open spec fn metrics_after_rate_limit_hit(m: TelegramMetrics, e: TelegramError)
    -> TelegramMetrics {
    if e is RateLimit {
        TelegramMetrics { rate_limit_hits: (m.rate_limit_hits + 1) as u64, ..m }
    } else {
        m
    }
}

/// Metrics after a failed attempt that a retry follows: the retry
/// counter moves too.
pub open spec fn metrics_after_attempt_error(m: TelegramMetrics, e: TelegramError)
    -> TelegramMetrics {
    TelegramMetrics {
        retry_attempts: (m.retry_attempts + 1) as u64,
        ..metrics_after_rate_limit_hit(m, e)
    }
}

/// `h1` is `h0` with one record of exactly this shape appended.
pub open spec fn history_appended(
    h0: Seq<MessageInfo>,
    h1: Seq<MessageInfo>,
    content: Seq<char>,
    mt: MessageType,
    success: bool,
    elapsed_ms: u64,
    retry_count: u32,
    now_ms: u64,
) -> bool {
    &&& h1.len() == h0.len() + 1
    &&& h1.subrange(0, h0.len() as int) == h0
    &&& h1.last().timestamp_ms == now_ms
    &&& h1.last().message_type == mt
    &&& h1.last().content@ == content
    &&& h1.last().success == success
    &&& h1.last().response_time_ms == Some(elapsed_ms)
    &&& h1.last().retry_count == retry_count
}

/// What the orchestrator does after applying one attempt's outcome:
/// either the send is finished, or the caller must sleep and try again.
#[derive(Debug)]
pub enum SendStep {
    Completed(Result<(), TelegramError>),
    RetryAfterMs(u64),
}

/// One step of the delivery state machine, relating the orchestrator
/// state before and after an attempt's outcome is applied.
pub open spec fn attempt_transition(
    m0: TelegramMetrics,
    h0: Seq<MessageInfo>,
    m1: TelegramMetrics,
    h1: Seq<MessageInfo>,
    retry: RetryConfig,
    attempt: u32,
    outcome: Result<(), TelegramError>,
    content: Seq<char>,
    elapsed_ms: u64,
    now_ms: u64,
    step: SendStep,
) -> bool {
    match outcome {
        Ok(_) => {
            &&& m1 == metrics_after_success(m0, elapsed_ms)
            &&& history_appended(
                h0,
                h1,
                content,
                MessageType::Info,
                true,
                elapsed_ms,
                (attempt - 1) as u32,
                now_ms,
            )
            &&& step matches SendStep::Completed(r) && r is Ok
        },
        Err(e) => {
            if attempt < retry.max_attempts {
                &&& m1 == metrics_after_attempt_error(m0, e)
                &&& h1 == h0
                &&& step matches SendStep::RetryAfterMs(d) && d == backoff_delay_spec(
                    retry,
                    attempt,
                )
            } else {
                &&& m1 == TelegramMetrics { last_error: m1.last_error, ..metrics_after_failure(
                    metrics_after_rate_limit_hit(m0, e),
                ) }
                &&& m1.last_error matches Some(le) && le@ == error_text(e)
                &&& history_appended(
                    h0,
                    h1,
                    content,
                    MessageType::Error,
                    false,
                    elapsed_ms,
                    (retry.max_attempts - 1) as u32,
                    now_ms,
                )
                &&& step matches SendStep::Completed(r) && (r matches Err(e2) && e2 == e)
            }
        },
    }
}

/// The delivery orchestrator: configuration, rate limiter, message
/// history and metrics.  The caller runs the retry loop, performing the
/// network call and the sleeps; every decision and all bookkeeping is
/// taken by the methods here.
#[derive(Debug)]
pub struct RobustTelegramNotifier {
    pub config: TelegramConfig,
    pub rate_limiter: RateLimiter,
    pub message_history: Vec<MessageInfo>,
    pub metrics: TelegramMetrics,
}

impl RobustTelegramNotifier {
    /// A fresh orchestrator for a validated configuration: empty history,
    /// zeroed metrics, and a rate limiter with the configured caps.
    pub fn new(config: TelegramConfig) -> (r: Result<RobustTelegramNotifier, TelegramError>)
        ensures
            r matches Ok(n) && {
                &&& n.config == config
                &&& n.rate_limiter.requests@.len() == 0
                &&& n.rate_limiter.max_requests_per_second == config.rate_limit_per_second
                &&& n.rate_limiter.max_requests_per_minute == config.rate_limit_per_minute
                &&& n.message_history@.len() == 0
                &&& n.metrics.total_messages == 0
                &&& n.metrics.successful_messages == 0
                &&& n.metrics.failed_messages == 0
                &&& n.metrics.average_response_time_ms == 0
                &&& n.metrics.last_error is None
                &&& n.metrics.rate_limit_hits == 0
                &&& n.metrics.retry_attempts == 0
            },
    {
        let rate_limiter = RateLimiter::new(
            config.rate_limit_per_second,
            config.rate_limit_per_minute,
        );
        Ok(RobustTelegramNotifier {
            config,
            rate_limiter,
            message_history: Vec::new(),
            metrics: TelegramMetrics::default(),
        })
    }

    /// The current metrics.
    pub fn get_metrics(&self) -> (r: &TelegramMetrics)
        ensures
            r == self.metrics,
    {
        &self.metrics
    }

    /// The delivery history, oldest record first.
    pub fn get_message_history(&self) -> (r: &[MessageInfo])
        ensures
            r@ == self.message_history@,
    {
        self.message_history.as_slice()
    }

    /// The delay before the attempt after `attempt`, per the policy.
    pub fn calculate_backoff_delay(&self, config: &RetryConfig, attempt: u32) -> (d: u64)
        requires
            retry_config_wf(*config),
            attempt >= 1,
        ensures
            d == backoff_delay_spec(*config, attempt),
    {
        let mult = config.backoff_multiplier;
        let max = config.max_delay_ms;
        let mut d: u64 = config.initial_delay_ms;
        let mut k: u32 = 1;
        proof {
            vstd::arithmetic::power::lemma_pow0(mult as int);
            assert(d as int == backoff_delay_spec(*config, 1));
        }
        while k < attempt && d < max
            invariant
                1 <= k <= attempt,
                mult == config.backoff_multiplier,
                max == config.max_delay_ms,
                retry_config_wf(*config),
                d <= max,
                d as int == backoff_delay_spec(*config, k),
            decreases attempt - k,
        {
            let ghost raw_k = config.initial_delay_ms * pow(mult as int, (k - 1) as nat);
            proof {
                assert(d == raw_k);
                vstd::arithmetic::power::lemma_pow1(mult as int);
                vstd::arithmetic::power::lemma_pow_adds(mult as int, (k - 1) as nat, 1nat);
                assert(pow(mult as int, k as nat) == pow(mult as int, (k - 1) as nat) * mult);
            }
            let nd: u64 = if d <= max / mult {
                proof {
                    vstd::arithmetic::div_mod::lemma_fundamental_div_mod(max as int, mult as int);
                    assert((max / mult) * mult <= max) by (nonlinear_arith)
                        requires
                            mult >= 1,
                            max >= 0,
                            (max / mult) * mult == max - (max as int % mult as int),
                            max as int % mult as int >= 0;
                    assert(d * mult <= (max / mult) * mult) by (nonlinear_arith)
                        requires
                            d <= max / mult,
                            mult >= 1,
                            d >= 0;
                }
                d * mult
            } else {
                proof {
                    vstd::arithmetic::div_mod::lemma_fundamental_div_mod(max as int, mult as int);
                    assert(d * mult > max) by (nonlinear_arith)
                        requires
                            d > max / mult,
                            mult >= 1,
                            (max / mult) * mult == max - (max as int % mult as int),
                            (max as int % mult as int) < mult;
                }
                max
            };
            proof {
                assert(raw_k * mult == config.initial_delay_ms * pow(mult as int, k as nat))
                    by (nonlinear_arith)
                    requires
                        raw_k == config.initial_delay_ms * pow(mult as int, (k - 1) as nat),
                        pow(mult as int, k as nat) == pow(mult as int, (k - 1) as nat) * mult;
                assert(nd as int == backoff_delay_spec(*config, (k + 1) as u32));
            }
            d = nd;
            k = k + 1;
        }
        proof {
            if k < attempt {
                assert(d == max);
                let raw_k = config.initial_delay_ms * pow(mult as int, (k - 1) as nat);
                let raw_a = config.initial_delay_ms * pow(mult as int, (attempt - 1) as nat);
                vstd::arithmetic::power::lemma_pow_increases(
                    mult as nat,
                    (k - 1) as nat,
                    (attempt - 1) as nat,
                );
                vstd::arithmetic::mul::lemma_mul_inequality(
                    pow(mult as int, (k - 1) as nat),
                    pow(mult as int, (attempt - 1) as nat),
                    config.initial_delay_ms as int,
                );
                assert(raw_k <= raw_a);
                assert(raw_a >= max);
                assert(d as int == backoff_delay_spec(*config, attempt));
            }
        }
        d
    }

    /// Records one successful delivery: bumps the totals, extends the
    /// running mean over successful sends, and appends a success record.
    pub fn record_message_success(
        &mut self,
        message: &str,
        response_time_ms: u64,
        retry_count: u32,
        now_ms: u64,
    )
        requires
            old(self).metrics.total_messages < u64::MAX,
            old(self).metrics.successful_messages < u64::MAX,
        ensures
            final(self).config == old(self).config,
            final(self).rate_limiter == old(self).rate_limiter,
            final(self).metrics == metrics_after_success(old(self).metrics, response_time_ms),
            history_appended(
                old(self).message_history@,
                final(self).message_history@,
                message@,
                MessageType::Info,
                true,
                response_time_ms,
                retry_count,
                now_ms,
            ),
    {
        let ghost h0 = self.message_history@;
        self.metrics.total_messages = self.metrics.total_messages + 1;
        self.metrics.successful_messages = self.metrics.successful_messages + 1;
        let s_new = self.metrics.successful_messages;
        let avg = self.metrics.average_response_time_ms;
        proof {
            assert((avg as int) * ((s_new - 1) as int) <= 0xffff_ffff_ffff_ffffint
                * 0xffff_ffff_ffff_ffffint) by (nonlinear_arith)
                requires
                    0 <= avg as int <= 0xffff_ffff_ffff_ffffint,
                    0 <= (s_new - 1) as int <= 0xffff_ffff_ffff_ffffint;
        }
        let total: u128 = (avg as u128) * ((s_new - 1) as u128) + (response_time_ms as u128);
        let new_avg: u128 = total / (s_new as u128);
        proof {
            let m: int = if avg >= response_time_ms {
                avg as int
            } else {
                response_time_ms as int
            };
            assert(total as int <= m * (s_new as int)) by (nonlinear_arith)
                requires
                    total as int == (avg as int) * (s_new as int - 1) + response_time_ms,
                    avg <= m,
                    response_time_ms as int <= m,
                    s_new >= 1;
            vstd::arithmetic::div_mod::lemma_div_is_ordered(
                total as int,
                m * (s_new as int),
                s_new as int,
            );
            vstd::arithmetic::div_mod::lemma_div_by_multiple(m, s_new as int);
            assert(new_avg as int <= m);
        }
        self.metrics.average_response_time_ms = new_avg as u64;
        self.message_history.push(
            MessageInfo {
                timestamp_ms: now_ms,
                message_type: MessageType::Info,
                content: String::from_str(message),
                success: true,
                response_time_ms: Some(response_time_ms),
                retry_count,
            },
        );
        proof {
            assert(self.message_history@.subrange(0, h0.len() as int) =~= h0);
            assert(self.metrics == metrics_after_success(old(self).metrics, response_time_ms));
        }
    }

    /// Records one delivery whose retries are exhausted: bumps the totals
    /// and appends a failure record.
    pub fn record_message_failure(
        &mut self,
        message: &str,
        response_time_ms: u64,
        retry_count: u32,
        now_ms: u64,
    )
        requires
            old(self).metrics.total_messages < u64::MAX,
            old(self).metrics.failed_messages < u64::MAX,
        ensures
            final(self).config == old(self).config,
            final(self).rate_limiter == old(self).rate_limiter,
            final(self).metrics == metrics_after_failure(old(self).metrics),
            history_appended(
                old(self).message_history@,
                final(self).message_history@,
                message@,
                MessageType::Error,
                false,
                response_time_ms,
                retry_count,
                now_ms,
            ),
    {
        let ghost h0 = self.message_history@;
        self.metrics.total_messages = self.metrics.total_messages + 1;
        self.metrics.failed_messages = self.metrics.failed_messages + 1;
        self.message_history.push(
            MessageInfo {
                timestamp_ms: now_ms,
                message_type: MessageType::Error,
                content: String::from_str(message),
                success: false,
                response_time_ms: Some(response_time_ms),
                retry_count,
            },
        );
        proof {
            assert(self.message_history@.subrange(0, h0.len() as int) =~= h0);
        }
    }

    /// Applies the outcome of one delivery attempt.  On success the send
    /// is recorded and finished.  A rate-limited attempt always counts a
    /// rate-limit hit; a failed attempt that will be retried counts a
    /// retry and returns the backoff wait; when the attempt budget is
    /// spent, the failure is recorded with the error as `last_error`.
    pub fn process_attempt(
        &mut self,
        retry: &RetryConfig,
        validated: &str,
        attempt: u32,
        outcome: Result<(), TelegramError>,
        elapsed_ms: u64,
        now_ms: u64,
    ) -> (step: SendStep)
        requires
            retry_config_wf(*retry),
            1 <= attempt <= retry.max_attempts,
            old(self).metrics.total_messages < u64::MAX,
            old(self).metrics.successful_messages < u64::MAX,
            old(self).metrics.failed_messages < u64::MAX,
            old(self).metrics.retry_attempts < u64::MAX,
            old(self).metrics.rate_limit_hits < u64::MAX,
        ensures
            final(self).config == old(self).config,
            final(self).rate_limiter == old(self).rate_limiter,
            attempt_transition(
                old(self).metrics,
                old(self).message_history@,
                final(self).metrics,
                final(self).message_history@,
                *retry,
                attempt,
                outcome,
                validated@,
                elapsed_ms,
                now_ms,
                step,
            ),
    {
        match outcome {
            Ok(_) => {
                self.record_message_success(validated, elapsed_ms, attempt - 1, now_ms);
                SendStep::Completed(Ok(()))
            },
            Err(e) => {
                if let TelegramError::RateLimit(_) = &e {
                    self.metrics.rate_limit_hits = self.metrics.rate_limit_hits + 1;
                }
                if attempt < retry.max_attempts {
                    self.metrics.retry_attempts = self.metrics.retry_attempts + 1;
                    let d = self.calculate_backoff_delay(retry, attempt);
                    SendStep::RetryAfterMs(d)
                } else {
                    self.record_message_failure(
                        validated,
                        elapsed_ms,
                        retry.max_attempts - 1,
                        now_ms,
                    );
                    let text = e.describe();
                    self.metrics.last_error = Some(text);
                    SendStep::Completed(Err(e))
                }
            },
        }
    }
}


/// Identity of the bot, as the provider reports it.
#[derive(Debug, Clone)]
pub struct BotInfo {
    pub id: i64,
    pub is_bot: bool,
    pub first_name: String,
    pub username: Option<String>,
    pub can_join_groups: Option<bool>,
    pub can_read_all_group_messages: Option<bool>,
    pub supports_inline_queries: Option<bool>,
}

/// The provider's generic response envelope.
#[derive(Debug, Clone)]
pub struct TelegramApiResponse<T> {
    pub ok: bool,
    pub result: Option<T>,
    pub description: Option<String>,
    pub error_code: Option<i32>,
}

/// The classification table for a delivery response: success for any 2xx
/// status, and one specific error for each recognised failure status.
pub open spec fn response_classified(
    status: u16,
    body: Seq<char>,
    chat_id: Seq<char>,
    r: Result<(), TelegramError>,
) -> bool {
    if 200 <= status < 300 {
        r is Ok
    } else {
        r matches Err(e) && if status == 400 {
            e matches TelegramError::ApiError(m) && m@ == "Requête invalide: "@ + body
        } else if status == 401 {
            e is InvalidToken
        } else if status == 403 {
            e matches TelegramError::ApiError(m) && m@
                == "Bot bloqué ou permissions insuffisantes"@
        } else if status == 404 {
            e matches TelegramError::InvalidChatId(c) && c@ == chat_id
        } else if status == 429 {
            e matches TelegramError::RateLimit(w) && w == 60
        } else {
            e matches TelegramError::ApiError(m) && m@ == "Erreur HTTP "@ + dec_str(status as int)
                + ": "@ + body
        }
    }
}

/// The verdict of the authentication probe: a 401 status means the token
/// is bad; a non-ok envelope surfaces the provider's description; an ok
/// envelope yields the reported identity.
pub open spec fn auth_interpreted(
    status: u16,
    response: TelegramApiResponse<BotInfo>,
    r: Result<BotInfo, TelegramError>,
) -> bool {
    if status == 401 {
        r matches Err(e) && e is InvalidToken
    } else if !response.ok {
        r matches Err(e) && (e matches TelegramError::ApiError(m) && m@ == match response
            .description {
            Some(d) => d@,
            None => Seq::<char>::empty(),
        })
    } else {
        match response.result {
            Some(b) => r matches Ok(b2) && b2 == b,
            None => r matches Err(e) && (e matches TelegramError::ApiError(m) && m@ == Seq::<
                char,
            >::empty()),
        }
    }
}

impl TelegramConfig {
    /// Classifies the authentication probe's status code and decoded
    /// envelope.  The network call itself is the caller's.
    pub fn interpret_auth_response(status: u16, response: TelegramApiResponse<BotInfo>) -> (r:
        Result<BotInfo, TelegramError>)
        ensures
            auth_interpreted(status, response, r),
    {
        if status == 401 {
            return Err(TelegramError::InvalidToken);
        }
        if !response.ok {
            let m = match response.description {
                Some(d) => d,
                None => String::new(),
            };
            return Err(TelegramError::ApiError(m));
        }
        match response.result {
            Some(b) => Ok(b),
            None => Err(TelegramError::ApiError(String::new())),
        }
    }
}

impl RobustTelegramNotifier {
    /// Maps a delivery response's status code and body to the error
    /// taxonomy, per the classification table.
    pub fn handle_api_response(&self, status: u16, body: &str) -> (r: Result<(), TelegramError>)
        ensures
            response_classified(status, body@, self.config.chat_id@, r),
    {
        if 200 <= status && status < 300 {
            return Ok(());
        }
        if status == 400 {
            let mut m = String::from_str("Requête invalide: ");
            m.append(body);
            Err(TelegramError::ApiError(m))
        } else if status == 401 {
            Err(TelegramError::InvalidToken)
        } else if status == 403 {
            Err(TelegramError::ApiError(String::from_str(
                "Bot bloqué ou permissions insuffisantes",
            )))
        } else if status == 404 {
            Err(TelegramError::InvalidChatId(self.config.chat_id.clone()))
        } else if status == 429 {
            Err(TelegramError::RateLimit(60))
        } else {
            let mut m = String::from_str("Erreur HTTP ");
            let digits = u64_to_chars(status as u64);
            let ds = chars_to_string(&digits);
            m.append(ds.as_str());
            m.append(": ");
            m.append(body);
            Err(TelegramError::ApiError(m))
        }
    }
}


/// Outcome of one diagnostic check.
#[derive(Debug)]
pub enum TestResult {
    Success(String),
    Warning(String),
    Failure(String),
}

/// Aggregated health of the whole diagnostic run.
#[derive(Debug)]
pub enum OverallStatus {
    Healthy,
    Warning,
    Critical,
    Unknown,
}

/// Whether some check failed.
pub open spec fn has_failure(tests: Seq<(String, TestResult)>) -> bool
    decreases tests.len(),
{
    if tests.len() == 0 {
        false
    } else {
        has_failure(tests.drop_last()) || tests.last().1 is Failure
    }
}

/// Whether some check warned.
pub open spec fn has_warning(tests: Seq<(String, TestResult)>) -> bool
    decreases tests.len(),
{
    if tests.len() == 0 {
        false
    } else {
        has_warning(tests.drop_last()) || tests.last().1 is Warning
    }
}

/// Status derivation: any failure is critical, else any warning warns,
/// else the system is healthy.
pub open spec fn status_of(tests: Seq<(String, TestResult)>) -> OverallStatus {
    if has_failure(tests) {
        OverallStatus::Critical
    } else if has_warning(tests) {
        OverallStatus::Warning
    } else {
        OverallStatus::Healthy
    }
}

/// The remediation lines one check contributes: a fixed hint for the
/// known checks, the failure message itself otherwise, and nothing for a
/// success.
pub open spec fn recommendation_for(name: Seq<char>, result: TestResult) -> Seq<Seq<char>> {
    match result {
        TestResult::Failure(msg) => seq![
            if name == "Connectivité Internet"@ {
                "Vérifiez votre connexion Internet"@
            } else if name == "Authentification Bot"@ {
                "Vérifiez votre token bot Telegram"@
            } else if name == "Permissions Chat"@ {
                "Vérifiez que le bot a accès au chat"@
            } else {
                "Résoudre: "@ + msg@
            },
        ],
        TestResult::Warning(msg) => seq!["Attention: "@ + msg@],
        TestResult::Success(_) => Seq::empty(),
    }
}

/// All remediation lines of a run, in check order.
pub open spec fn recs_of(tests: Seq<(String, TestResult)>) -> Seq<Seq<char>>
    decreases tests.len(),
{
    if tests.len() == 0 {
        Seq::empty()
    } else {
        recs_of(tests.drop_last()) + recommendation_for(tests.last().0@, tests.last().1)
    }
}

/// The strings in `ss` spell exactly the char sequences in `cs`.
pub open spec fn strings_match(ss: Seq<String>, cs: Seq<Seq<char>>) -> bool {
    ss.len() == cs.len() && forall|i: int| 0 <= i < ss.len() ==> ss[i]@ == cs[i]
}

/// Report of one diagnostic run: the checks in order, the derived status,
/// and the remediation hints.
#[derive(Debug)]
pub struct DiagnosticReport {
    pub tests: Vec<(String, TestResult)>,
    pub overall_status: OverallStatus,
    pub recommendations: Vec<String>,
    pub timestamp_ms: u64,
}

impl DiagnosticReport {
    /// An empty report stamped with the given time.
    pub fn new(now_ms: u64) -> (r: DiagnosticReport)
        ensures
            r.tests@.len() == 0,
            r.overall_status is Unknown,
            r.recommendations@.len() == 0,
            r.timestamp_ms == now_ms,
    {
        DiagnosticReport {
            tests: Vec::new(),
            overall_status: OverallStatus::Unknown,
            recommendations: Vec::new(),
            timestamp_ms: now_ms,
        }
    }

    /// Appends one check's outcome.
    pub fn add_test(&mut self, name: &str, result: TestResult)
        ensures
            final(self).tests@.len() == old(self).tests@.len() + 1,
            final(self).tests@.subrange(0, old(self).tests@.len() as int) == old(self).tests@,
            final(self).tests@.last().0@ == name@,
            final(self).tests@.last().1 == result,
            final(self).overall_status == old(self).overall_status,
            final(self).recommendations == old(self).recommendations,
            final(self).timestamp_ms == old(self).timestamp_ms,
    {
        let ghost t0 = self.tests@;
        self.tests.push((String::from_str(name), result));
        proof {
            assert(self.tests@.subrange(0, t0.len() as int) =~= t0);
        }
    }

    /// Derives the overall status from the recorded outcomes and appends
    /// the remediation hints.
    pub fn determine_overall_status(&mut self)
        ensures
            final(self).tests == old(self).tests,
            final(self).timestamp_ms == old(self).timestamp_ms,
            final(self).overall_status == status_of(old(self).tests@),
            final(self).recommendations@.len() == old(self).recommendations@.len() + recs_of(
                old(self).tests@,
            ).len(),
            final(self).recommendations@.subrange(0, old(self).recommendations@.len() as int)
                == old(self).recommendations@,
            strings_match(
                final(self).recommendations@.skip(old(self).recommendations@.len() as int),
                recs_of(old(self).tests@),
            ),
    {
        let mut has_fail = false;
        let mut has_warn = false;
        let mut i: usize = 0;
        let n = self.tests.len();
        while i < n
            invariant
                i <= n,
                n == self.tests@.len(),
                *self == *old(self),
                has_fail == has_failure(self.tests@.subrange(0, i as int)),
                has_warn == has_warning(self.tests@.subrange(0, i as int)),
            decreases n - i,
        {
            proof {
                assert(self.tests@.subrange(0, i + 1).drop_last() =~= self.tests@.subrange(
                    0,
                    i as int,
                ));
                assert(self.tests@.subrange(0, i + 1).last() == self.tests@[i as int]);
            }
            match &self.tests[i].1 {
                TestResult::Failure(_) => {
                    has_fail = true;
                },
                TestResult::Warning(_) => {
                    has_warn = true;
                },
                TestResult::Success(_) => {},
            }
            i = i + 1;
        }
        proof {
            assert(self.tests@.subrange(0, n as int) =~= self.tests@);
        }
        self.overall_status = if has_fail {
            OverallStatus::Critical
        } else if has_warn {
            OverallStatus::Warning
        } else {
            OverallStatus::Healthy
        };
        self.generate_recommendations();
    }

    /// Appends one remediation line per failing or warning check.
    fn generate_recommendations(&mut self)
        ensures
            final(self).tests == old(self).tests,
            final(self).timestamp_ms == old(self).timestamp_ms,
            final(self).overall_status == old(self).overall_status,
            final(self).recommendations@.len() == old(self).recommendations@.len() + recs_of(
                old(self).tests@,
            ).len(),
            final(self).recommendations@.subrange(0, old(self).recommendations@.len() as int)
                == old(self).recommendations@,
            strings_match(
                final(self).recommendations@.skip(old(self).recommendations@.len() as int),
                recs_of(old(self).tests@),
            ),
    {
        let ghost r0 = self.recommendations@;
        let mut i: usize = 0;
        let n = self.tests.len();
        while i < n
            invariant
                i <= n,
                n == self.tests@.len(),
                self.tests == old(self).tests,
                self.timestamp_ms == old(self).timestamp_ms,
                self.overall_status == old(self).overall_status,
                r0 == old(self).recommendations@,
                self.recommendations@.len() == r0.len() + recs_of(
                    self.tests@.subrange(0, i as int),
                ).len(),
                self.recommendations@.subrange(0, r0.len() as int) == r0,
                strings_match(
                    self.recommendations@.skip(r0.len() as int),
                    recs_of(self.tests@.subrange(0, i as int)),
                ),
            decreases n - i,
        {
            let ghost prefix = self.tests@.subrange(0, i as int);
            proof {
                assert(self.tests@.subrange(0, i + 1).drop_last() =~= prefix);
                assert(self.tests@.subrange(0, i + 1).last() == self.tests@[i as int]);
            }
            match &self.tests[i].1 {
                TestResult::Failure(msg) => {
                    let name_chars = str_to_chars(self.tests[i].0.as_str());
                    let line: String = if chars_eq_str(&name_chars, "Connectivité Internet") {
                        String::from_str("Vérifiez votre connexion Internet")
                    } else if chars_eq_str(&name_chars, "Authentification Bot") {
                        String::from_str("Vérifiez votre token bot Telegram")
                    } else if chars_eq_str(&name_chars, "Permissions Chat") {
                        String::from_str("Vérifiez que le bot a accès au chat")
                    } else {
                        let mut l = String::from_str("Résoudre: ");
                        l.append(msg.as_str());
                        l
                    };
                    self.recommendations.push(line);
                },
                TestResult::Warning(msg) => {
                    let mut l = String::from_str("Attention: ");
                    l.append(msg.as_str());
                    self.recommendations.push(l);
                },
                TestResult::Success(_) => {},
            }
            i = i + 1;
            proof {
                assert(self.recommendations@.subrange(0, r0.len() as int) =~= r0);
                assert(strings_match(
                    self.recommendations@.skip(r0.len() as int),
                    recs_of(self.tests@.subrange(0, i as int)),
                ));
            }
        }
        proof {
            assert(self.tests@.subrange(0, n as int) =~= self.tests@);
        }
    }
}


/// Observed outcome of one HTTP probe: the response status, or a
/// transport failure with its message.
#[derive(Debug, Clone)]
pub enum HttpProbe {
    Status(u16),
    TransportError(String),
}

/// The observations the diagnostic run classifies: one probe per
/// network-facing check, performed by the caller in this order.
#[derive(Debug)]
pub struct DiagnosticProbes {
    pub internet: HttpProbe,
    pub api: HttpProbe,
    pub auth: Result<BotInfo, TelegramError>,
    pub send_probe: HttpProbe,
}

/// Verdict of the internet-reachability check.
pub open spec fn internet_checked(probe: HttpProbe, r: TestResult) -> bool {
    match probe {
        HttpProbe::Status(_) => r matches TestResult::Success(m) && m@
            == "Connectivité Internet OK"@,
        HttpProbe::TransportError(t) => r matches TestResult::Failure(m) && m@
            == "Pas de connexion Internet: "@ + t@,
    }
}

/// Verdict of the provider-reachability check.
pub open spec fn api_checked(probe: HttpProbe, r: TestResult) -> bool {
    match probe {
        HttpProbe::Status(st) => if 200 <= st < 300 {
            r matches TestResult::Success(m) && m@ == "API Telegram accessible"@
        } else {
            r matches TestResult::Warning(m) && m@ == "API Telegram répond mais avec erreur: "@
                + dec_str(st as int)
        },
        HttpProbe::TransportError(t) => r matches TestResult::Failure(m) && m@
            == "API Telegram inaccessible: "@ + t@,
    }
}

/// Verdict of the authentication check.
pub open spec fn auth_checked(auth: Result<BotInfo, TelegramError>, r: TestResult) -> bool {
    match auth {
        Ok(b) => r matches TestResult::Success(m) && m@ == "Bot authentifié: "@ + b.first_name@
            + " (ID: "@ + dec_str_signed(b.id as int) + ")"@,
        Err(e) => if e is InvalidToken {
            r matches TestResult::Failure(m) && m@ == "Token bot invalide"@
        } else {
            r matches TestResult::Failure(m) && m@ == "Erreur authentification: "@ + error_text(
                e,
            )
        },
    }
}

/// Verdict of the destination-permission check.
pub open spec fn permissions_checked(chat_id: Seq<char>, probe: HttpProbe, r: TestResult)
    -> bool {
    match probe {
        HttpProbe::Status(st) => if 200 <= st < 300 {
            r matches TestResult::Success(m) && m@ == "Permissions chat OK - Message test envoyé"@
        } else if st == 403 {
            r matches TestResult::Failure(m) && m@ == "Bot bloqué ou permissions insuffisantes"@
        } else if st == 404 {
            r matches TestResult::Failure(m) && m@ == "Chat ID invalide: "@ + chat_id
        } else {
            r matches TestResult::Warning(m) && m@ == "Réponse inattendue: "@ + dec_str(st as int)
        },
        HttpProbe::TransportError(t) => r matches TestResult::Failure(m) && m@
            == "Erreur test permissions: "@ + t@,
    }
}

/// The fixed validation battery.
pub open spec fn sample_simple() -> Seq<char> {
    "Test simple"@
}

pub open spec fn sample_html() -> Seq<char> {
    "<b>Test</b> avec <i>HTML</i>"@
}

pub open spec fn sample_long() -> Seq<char> {
    Seq::new(4000, |i: int| 'A')
}

pub open spec fn sample_emoji() -> Seq<char> {
    "🚀 Test émojis 🎉"@
}

/// The error text validation produces for a rejected sample.
pub open spec fn validation_failure_text(s: Seq<char>) -> Seq<char> {
    if s.len() == 0 {
        "API Telegram erreur: "@ + "Message vide"@
    } else if s.len() > 4096 {
        "Message trop long: "@ + dec_str(s.len() as int) + " caractères (max: 4096)"@
    } else {
        match unmatched_open_tag(sanitize_spec(s)) {
            Some(t) => "API Telegram erreur: "@ + ("Balise non fermée: "@ + t),
            None => Seq::empty(),
        }
    }
}

/// The summary line one sample contributes.
pub open spec fn sample_line(name: Seq<char>, s: Seq<char>) -> Seq<char> {
    if message_acceptable(s) {
        "✅ "@ + name
    } else {
        "❌ "@ + name + ": "@ + validation_failure_text(s)
    }
}

/// The joined summary of the whole battery.
pub open spec fn validation_lines() -> Seq<char> {
    sample_line("Message simple"@, sample_simple()) + ", "@ + sample_line(
        "Message HTML"@,
        sample_html(),
    ) + ", "@ + sample_line("Message long"@, sample_long()) + ", "@ + sample_line(
        "Message avec émojis"@,
        sample_emoji(),
    )
}

/// Whether every battery sample passes validation.
pub open spec fn all_samples_ok() -> bool {
    &&& message_acceptable(sample_simple())
    &&& message_acceptable(sample_html())
    &&& message_acceptable(sample_long())
    &&& message_acceptable(sample_emoji())
}

/// Verdict of the message-validation self-test.
pub open spec fn validation_checked(r: TestResult) -> bool {
    if all_samples_ok() {
        r matches TestResult::Success(m) && m@ == "Validation OK: "@ + validation_lines()
    } else {
        r matches TestResult::Warning(m) && m@ == "Validation partielle: "@ + validation_lines()
    }
}

fn check_sample(name: &str, sample: &str) -> (r: (String, bool))
    ensures
        r.0@ == sample_line(name@, sample@),
        r.1 == message_acceptable(sample@),
{
    match MessageValidator::validate_message(sample) {
        Ok(_) => {
            let mut l = String::from_str("✅ ");
            l.append(name);
            (l, true)
        },
        Err(e) => {
            let mut l = String::from_str("❌ ");
            l.append(name);
            l.append(": ");
            let d = e.describe();
            l.append(d.as_str());
            proof {
                assert(l@ =~= "❌ "@ + name@ + ": "@ + error_text(e));
                assert(error_text(e) =~= validation_failure_text(sample@));
                assert(l@ =~= sample_line(name@, sample@));
            }
            (l, false)
        },
    }
}

impl RobustTelegramNotifier {
    /// Classifies the generic internet-reachability probe.
    pub fn test_internet_connectivity(&self, probe: &HttpProbe) -> (r: TestResult)
        ensures
            internet_checked(*probe, r),
    {
        match probe {
            HttpProbe::Status(_) => TestResult::Success(
                String::from_str("Connectivité Internet OK"),
            ),
            HttpProbe::TransportError(t) => {
                let mut m = String::from_str("Pas de connexion Internet: ");
                m.append(t.as_str());
                TestResult::Failure(m)
            },
        }
    }

    /// Classifies the provider-reachability probe.
    pub fn test_telegram_api(&self, probe: &HttpProbe) -> (r: TestResult)
        ensures
            api_checked(*probe, r),
    {
        match probe {
            HttpProbe::Status(st) => {
                if 200 <= *st && *st < 300 {
                    TestResult::Success(String::from_str("API Telegram accessible"))
                } else {
                    let mut m = String::from_str("API Telegram répond mais avec erreur: ");
                    let digits = u64_to_chars(*st as u64);
                    let ds = chars_to_string(&digits);
                    m.append(ds.as_str());
                    TestResult::Warning(m)
                }
            },
            HttpProbe::TransportError(t) => {
                let mut m = String::from_str("API Telegram inaccessible: ");
                m.append(t.as_str());
                TestResult::Failure(m)
            },
        }
    }

    /// Classifies the authentication probe's verdict.
    pub fn test_bot_authentication(&self, auth: &Result<BotInfo, TelegramError>) -> (r:
        TestResult)
        ensures
            auth_checked(*auth, r),
    {
        match auth {
            Ok(b) => {
                let mut m = String::from_str("Bot authentifié: ");
                m.append(b.first_name.as_str());
                m.append(" (ID: ");
                let digits = i64_to_chars(b.id);
                let ds = chars_to_string(&digits);
                m.append(ds.as_str());
                m.append(")");
                TestResult::Success(m)
            },
            Err(TelegramError::InvalidToken) => TestResult::Failure(
                String::from_str("Token bot invalide"),
            ),
            Err(e) => {
                let mut m = String::from_str("Erreur authentification: ");
                let d = e.describe();
                m.append(d.as_str());
                TestResult::Failure(m)
            },
        }
    }

    /// Classifies the destination-permission probe.
    pub fn test_chat_permissions(&self, probe: &HttpProbe) -> (r: TestResult)
        ensures
            permissions_checked(self.config.chat_id@, *probe, r),
    {
        match probe {
            HttpProbe::Status(st) => {
                if 200 <= *st && *st < 300 {
                    TestResult::Success(
                        String::from_str("Permissions chat OK - Message test envoyé"),
                    )
                } else if *st == 403 {
                    TestResult::Failure(
                        String::from_str("Bot bloqué ou permissions insuffisantes"),
                    )
                } else if *st == 404 {
                    let mut m = String::from_str("Chat ID invalide: ");
                    m.append(self.config.chat_id.as_str());
                    TestResult::Failure(m)
                } else {
                    let mut m = String::from_str("Réponse inattendue: ");
                    let digits = u64_to_chars(*st as u64);
                    let ds = chars_to_string(&digits);
                    m.append(ds.as_str());
                    TestResult::Warning(m)
                }
            },
            HttpProbe::TransportError(t) => {
                let mut m = String::from_str("Erreur test permissions: ");
                m.append(t.as_str());
                TestResult::Failure(m)
            },
        }
    }

    /// Runs the validation battery over the fixed samples.
    pub fn test_message_validation(&self) -> (r: TestResult)
        ensures
            validation_checked(r),
    {
        let (l1, ok1) = check_sample("Message simple", "Test simple");
        let (l2, ok2) = check_sample("Message HTML", "<b>Test</b> avec <i>HTML</i>");
        let mut av: Vec<char> = Vec::new();
        let mut i: usize = 0;
        while i < 4000
            invariant
                i <= 4000,
                av@ =~= Seq::new(i as nat, |j: int| 'A'),
            decreases 4000 - i,
        {
            av.push('A');
            i = i + 1;
            proof {
                assert(av@ =~= Seq::new(i as nat, |j: int| 'A'));
            }
        }
        let long_message = chars_to_string(&av);
        proof {
            assert(long_message@ =~= sample_long());
        }
        let (l3, ok3) = check_sample("Message long", long_message.as_str());
        let (l4, ok4) = check_sample("Message avec émojis", "🚀 Test émojis 🎉");
        let mut joined = l1;
        joined.append(", ");
        joined.append(l2.as_str());
        joined.append(", ");
        joined.append(l3.as_str());
        joined.append(", ");
        joined.append(l4.as_str());
        proof {
            assert(joined@ =~= validation_lines());
        }
        if ok1 && ok2 && ok3 && ok4 {
            let mut m = String::from_str("Validation OK: ");
            m.append(joined.as_str());
            TestResult::Success(m)
        } else {
            let mut m = String::from_str("Validation partielle: ");
            m.append(joined.as_str());
            TestResult::Warning(m)
        }
    }

    /// Builds the diagnostic report from the five probes, in the fixed
    /// order, and derives the overall status and the recommendations.
    pub fn run_diagnostics(&self, probes: &DiagnosticProbes, now_ms: u64) -> (r: Result<
        DiagnosticReport,
        TelegramError,
    >)
        ensures
            r matches Ok(rep) && {
                &&& rep.timestamp_ms == now_ms
                &&& rep.tests@.len() == 5
                &&& rep.tests@[0].0@ == "Connectivité Internet"@
                &&& internet_checked(probes.internet, rep.tests@[0].1)
                &&& rep.tests@[1].0@ == "API Telegram"@
                &&& api_checked(probes.api, rep.tests@[1].1)
                &&& rep.tests@[2].0@ == "Authentification Bot"@
                &&& auth_checked(probes.auth, rep.tests@[2].1)
                &&& rep.tests@[3].0@ == "Permissions Chat"@
                &&& permissions_checked(self.config.chat_id@, probes.send_probe, rep.tests@[3].1)
                &&& rep.tests@[4].0@ == "Validation Messages"@
                &&& validation_checked(rep.tests@[4].1)
                &&& rep.overall_status == status_of(rep.tests@)
                &&& strings_match(rep.recommendations@, recs_of(rep.tests@))
            },
    {
        let mut report = DiagnosticReport::new(now_ms);
        let r1 = self.test_internet_connectivity(&probes.internet);
        report.add_test("Connectivité Internet", r1);
        let r2 = self.test_telegram_api(&probes.api);
        report.add_test("API Telegram", r2);
        proof {
            assert(report.tests@[0] == report.tests@.subrange(0, 1)[0]);
        }
        let r3 = self.test_bot_authentication(&probes.auth);
        report.add_test("Authentification Bot", r3);
        proof {
            assert(report.tests@[0] == report.tests@.subrange(0, 2)[0]);
            assert(report.tests@[1] == report.tests@.subrange(0, 2)[1]);
        }
        let r4 = self.test_chat_permissions(&probes.send_probe);
        report.add_test("Permissions Chat", r4);
        proof {
            assert(report.tests@[0] == report.tests@.subrange(0, 3)[0]);
            assert(report.tests@[1] == report.tests@.subrange(0, 3)[1]);
            assert(report.tests@[2] == report.tests@.subrange(0, 3)[2]);
        }
        let r5 = self.test_message_validation();
        report.add_test("Validation Messages", r5);
        proof {
            assert(report.tests@[0] == report.tests@.subrange(0, 4)[0]);
            assert(report.tests@[1] == report.tests@.subrange(0, 4)[1]);
            assert(report.tests@[2] == report.tests@.subrange(0, 4)[2]);
            assert(report.tests@[3] == report.tests@.subrange(0, 4)[3]);
        }
        report.determine_overall_status();
        proof {
            assert(report.recommendations@.skip(0) =~= report.recommendations@);
        }
        Ok(report)
    }
}


/// The window the limiter holds after one check: the cleaned window,
/// plus the new timestamp when the check admitted the call.
pub open spec fn window_after(w: Seq<u64>, per_second: u32, per_minute: u32, now: u64) -> Seq<
    u64,
> {
    let cw = drop_stale(w, now);
    match spec_rate_decision(w, per_second, per_minute, now) {
        RateDecision::Proceed => cw.push(now),
        _ => cw,
    }
}

/// Law: a limiter capped at three calls per second admits three calls
/// and denies the fourth when all four fall within one second.
pub proof fn lemma_rate_limit_burst(t1: u64, t2: u64, t3: u64, t4: u64)
    requires
        t1 <= t2 <= t3 <= t4,
        t4 - t1 < 1000,
    ensures
        ({
            let w0 = Seq::<u64>::empty();
            let w1 = window_after(w0, 3, 10, t1);
            let w2 = window_after(w1, 3, 10, t2);
            let w3 = window_after(w2, 3, 10, t3);
            &&& spec_rate_decision(w0, 3, 10, t1) is Proceed
            &&& spec_rate_decision(w1, 3, 10, t2) is Proceed
            &&& spec_rate_decision(w2, 3, 10, t3) is Proceed
            &&& spec_rate_decision(w3, 3, 10, t4) is PerSecondLimit
        }),
{
    let w0 = Seq::<u64>::empty();
    assert(drop_stale(w0, t1) =~= w0);
    assert(recent_count(w0, t1) == 0);
    let w1 = window_after(w0, 3, 10, t1);
    assert(w1 =~= seq![t1]);
    assert(drop_stale(w1, t2) =~= w1);
    assert(recent_count(w1, t2) <= 1) by {
        assert(w1.drop_last() =~= w0);
        assert(recent_count(w0, t2) == 0);
    }
    let w2 = window_after(w1, 3, 10, t2);
    assert(w2 =~= seq![t1, t2]);
    assert(drop_stale(w2, t3) =~= w2) by {
        assert(w2[0] == t1);
    }
    assert(recent_count(w2, t3) <= 2) by {
        assert(w1.drop_last() =~= w0);
        assert(recent_count(w0, t3) == 0);
        assert(recent_count(w1, t3) <= 1);
        assert(w2.drop_last() =~= w1);
    }
    let w3 = window_after(w2, 3, 10, t3);
    assert(w3 =~= seq![t1, t2, t3]);
    assert(drop_stale(w3, t4) =~= w3) by {
        assert(w3[0] == t1);
    }
    assert(recent_count(w3, t4) == 3) by {
        assert(w1.drop_last() =~= w0);
        assert(recent_count(w0, t4) == 0);
        assert(t4 - w1.last() < 1000);
        assert(recent_count(w1, t4) == 1);
        assert(w2.drop_last() =~= w1);
        assert(t4 - w2.last() < 1000);
        assert(recent_count(w2, t4) == 2);
        assert(w3.drop_last() =~= w2);
        assert(t4 - w3.last() < 1000);
    }
}

/// Law: a send whose first two attempts fail and whose third succeeds
/// appends exactly one history record — a success with retry count two —
/// and moves the retry counter by two and the success counter by one.
pub proof fn lemma_two_failures_then_success(
    m0: TelegramMetrics,
    h0: Seq<MessageInfo>,
    m1: TelegramMetrics,
    h1: Seq<MessageInfo>,
    m2: TelegramMetrics,
    h2: Seq<MessageInfo>,
    m3: TelegramMetrics,
    h3: Seq<MessageInfo>,
    retry: RetryConfig,
    e1: TelegramError,
    e2: TelegramError,
    content: Seq<char>,
    el1: u64,
    el2: u64,
    el3: u64,
    n1: u64,
    n2: u64,
    n3: u64,
    s1: SendStep,
    s2: SendStep,
    s3: SendStep,
)
    requires
        retry.max_attempts == 3,
        m0.retry_attempts + 2 <= u64::MAX,
        m0.rate_limit_hits + 2 <= u64::MAX,
        m0.total_messages < u64::MAX,
        m0.successful_messages < u64::MAX,
        attempt_transition(m0, h0, m1, h1, retry, 1, Err(e1), content, el1, n1, s1),
        attempt_transition(m1, h1, m2, h2, retry, 2, Err(e2), content, el2, n2, s2),
        attempt_transition(m2, h2, m3, h3, retry, 3, Ok(()), content, el3, n3, s3),
    ensures
        h3.len() == h0.len() + 1,
        h3.subrange(0, h0.len() as int) == h0,
        h3.last().success == true,
        h3.last().retry_count == 2,
        h3.last().content@ == content,
        m3.retry_attempts == m0.retry_attempts + 2,
        m3.successful_messages == m0.successful_messages + 1,
        m3.total_messages == m0.total_messages + 1,
        m3.failed_messages == m0.failed_messages,
        s3 matches SendStep::Completed(r) && r is Ok,
{
}

proof fn lemma_status_bounds(tests: Seq<(String, TestResult)>)
    ensures
        has_failure(tests) <==> exists|i: int|
            0 <= i < tests.len() && tests[i].1 is Failure,
        has_warning(tests) <==> exists|i: int|
            0 <= i < tests.len() && tests[i].1 is Warning,
        has_failure(tests) ==> recs_of(tests).len() >= 1,
        has_warning(tests) ==> recs_of(tests).len() >= 1,
        (!has_failure(tests) && !has_warning(tests)) ==> recs_of(tests).len() == 0,
    decreases tests.len(),
{
    if tests.len() == 0 {
    } else {
        let dl = tests.drop_last();
        lemma_status_bounds(dl);
        assert(forall|i: int| 0 <= i < dl.len() ==> dl[i] == tests[i]);
        if has_failure(tests) {
            if tests.last().1 is Failure {
                assert(tests[tests.len() - 1].1 is Failure);
            } else {
                let i = choose|i: int| 0 <= i < dl.len() && dl[i].1 is Failure;
                assert(tests[i].1 is Failure);
            }
        }
        if exists|i: int| 0 <= i < tests.len() && tests[i].1 is Failure {
            let i = choose|i: int| 0 <= i < tests.len() && tests[i].1 is Failure;
            if i < tests.len() - 1 {
                assert(dl[i].1 is Failure);
            }
            assert(has_failure(tests));
        }
        if has_warning(tests) {
            if tests.last().1 is Warning {
                assert(tests[tests.len() - 1].1 is Warning);
            } else {
                let i = choose|i: int| 0 <= i < dl.len() && dl[i].1 is Warning;
                assert(tests[i].1 is Warning);
            }
        }
        if exists|i: int| 0 <= i < tests.len() && tests[i].1 is Warning {
            let i = choose|i: int| 0 <= i < tests.len() && tests[i].1 is Warning;
            if i < tests.len() - 1 {
                assert(dl[i].1 is Warning);
            }
            assert(has_warning(tests));
        }
    }
}

/// Law: a diagnostic run with a failing check derives a critical status
/// and at least one recommendation; a run of only successes derives a
/// healthy status and no recommendations.
pub proof fn lemma_status_derivation(tests: Seq<(String, TestResult)>)
    ensures
        (exists|i: int| 0 <= i < tests.len() && tests[i].1 is Failure) ==> status_of(tests)
            is Critical && recs_of(tests).len() >= 1,
        (forall|i: int| 0 <= i < tests.len() ==> tests[i].1 is Success) ==> status_of(tests)
            is Healthy && recs_of(tests).len() == 0,
{
    lemma_status_bounds(tests);
}


/// Timestamps in ascending order, as a window driven by a monotonic
/// clock always is.
pub open spec fn window_sorted(w: Seq<u64>) -> bool {
    forall|i: int, j: int| 0 <= i < j < w.len() ==> w[i] <= w[j]
}

/// Law: on a sorted window, a cleanup pass leaves no timestamp older
/// than 60 seconds, and leaves the window sorted.
pub proof fn lemma_cleanup_leaves_fresh(w: Seq<u64>, now: u64)
    requires
        window_sorted(w),
    ensures
        window_sorted(drop_stale(w, now)),
        forall|i: int|
            0 <= i < drop_stale(w, now).len() ==> now - drop_stale(w, now)[i] <= 60000,
    decreases w.len(),
{
    if w.len() == 0 {
    } else if now - w[0] > 60000 {
        assert(forall|i: int, j: int|
            0 <= i < j < w.drop_first().len() ==> w.drop_first()[i] <= w.drop_first()[j]);
        lemma_cleanup_leaves_fresh(w.drop_first(), now);
    } else {
        assert(forall|i: int| 0 <= i < w.len() ==> w[0] <= #[trigger] w[i]);
    }
}

/// Law: with a positive per-minute cap, a window at the cap or below
/// stays at the cap or below through one check: a call is only admitted,
/// and its timestamp recorded, while the cleaned window has room.
pub proof fn lemma_window_bounded(w: Seq<u64>, per_second: u32, per_minute: u32, now: u64)
    requires
        per_minute >= 1,
        w.len() <= per_minute,
    ensures
        window_after(w, per_second, per_minute, now).len() <= per_minute,
{
    lemma_drop_stale_front_fresh(w, now);
}


/// Text with none of the three markup characters.
pub open spec fn plain_text(s: Seq<char>) -> bool {
    forall|i: int| 0 <= i < s.len() ==> s[i] != '&' && s[i] != '<' && s[i] != '>'
}

/// Law: text without markup characters passes sanitization unchanged and
/// is structurally sound, so any non-empty plain text of at most 4096
/// characters is accepted by the validator.
pub proof fn lemma_plain_text_unchanged(s: Seq<char>)
    requires
        plain_text(s),
    ensures
        sanitize_spec(s) == s,
        entities_ok(s),
        0 < s.len() <= 4096 ==> message_acceptable(s),
    decreases s.len(),
{
    assert forall|k: int| !occurs_at(s, tag_b_open(), k) by {
        if occurs_at(s, tag_b_open(), k) {
            assert(s.subrange(k, k + 3)[0] == s[k]);
        }
    }
    assert forall|k: int| !occurs_at(s, tag_i_open(), k) by {
        if occurs_at(s, tag_i_open(), k) {
            assert(s.subrange(k, k + 3)[0] == s[k]);
        }
    }
    assert forall|k: int| !occurs_at(s, tag_code_open(), k) by {
        if occurs_at(s, tag_code_open(), k) {
            assert(s.subrange(k, k + 6)[0] == s[k]);
        }
    }
    assert forall|k: int| !occurs_at(s, tag_pre_open(), k) by {
        if occurs_at(s, tag_pre_open(), k) {
            assert(s.subrange(k, k + 5)[0] == s[k]);
        }
    }
    assert(!contains_seq(s, tag_b_open()));
    assert(!contains_seq(s, tag_i_open()));
    assert(!contains_seq(s, tag_code_open()));
    assert(!contains_seq(s, tag_pre_open()));
    if s.len() == 0 {
        assert(sanitize_spec(s) =~= s);
    } else {
        assert(!starts_with(s, tag_b_open())) by {
            if starts_with(s, tag_b_open()) {
                assert(s.subrange(0, 3)[0] == s[0]);
            }
        }
        assert(!starts_with(s, tag_b_close())) by {
            if starts_with(s, tag_b_close()) {
                assert(s.subrange(0, 4)[0] == s[0]);
            }
        }
        assert(!starts_with(s, tag_i_open())) by {
            if starts_with(s, tag_i_open()) {
                assert(s.subrange(0, 3)[0] == s[0]);
            }
        }
        assert(!starts_with(s, tag_i_close())) by {
            if starts_with(s, tag_i_close()) {
                assert(s.subrange(0, 4)[0] == s[0]);
            }
        }
        assert(!starts_with(s, tag_code_open())) by {
            if starts_with(s, tag_code_open()) {
                assert(s.subrange(0, 6)[0] == s[0]);
            }
        }
        assert(!starts_with(s, tag_code_close())) by {
            if starts_with(s, tag_code_close()) {
                assert(s.subrange(0, 7)[0] == s[0]);
            }
        }
        assert(!starts_with(s, tag_pre_open())) by {
            if starts_with(s, tag_pre_open()) {
                assert(s.subrange(0, 5)[0] == s[0]);
            }
        }
        assert(!starts_with(s, tag_pre_close())) by {
            if starts_with(s, tag_pre_close()) {
                assert(s.subrange(0, 6)[0] == s[0]);
            }
        }
        assert(escape_char(s[0]) =~= seq![s[0]]);
        assert(forall|i: int|
            0 <= i < s.skip(1).len() ==> s.skip(1)[i] == s[i + 1] && s[i + 1] != '&' && s[i + 1]
                != '<' && s[i + 1] != '>');
        lemma_plain_text_unchanged(s.skip(1));
        assert(sanitize_spec(s) =~= seq![s[0]] + s.skip(1));
        assert(seq![s[0]] + s.skip(1) =~= s);
    }
}

} // verus!
