use vstd::prelude::*;

use crate::lightning::{preimage_from_bytes, LightningError, PaymentRequest, PaymentResult, PreimageResult};

verus! {

/// Whether a character is an ASCII decimal digit.
pub open spec fn is_ascii_digit(c: char) -> bool {
    '0' <= c && c <= '9'
}

/// The value of a non-empty run of ASCII decimal digits.
pub open spec fn digits_value(digits: Seq<char>) -> int
    decreases digits.len(),
{
    if digits.len() == 0 {
        0
    } else {
        digits_value(digits.drop_last()) * 10 + (digits.last() as int - '0' as int)
    }
}

/// Whether a text is made of ASCII decimal digits only.
pub open spec fn all_digits(text: Seq<char>) -> bool {
    forall|i: int| 0 <= i < text.len() ==> is_ascii_digit(#[trigger] text[i])
}

/// The text after its sign, if it starts with `+` or `-`.
pub open spec fn unsigned_part(text: Seq<char>) -> Seq<char> {
    if text.len() > 0 && (text[0] == '-' || text[0] == '+') {
        text.skip(1)
    } else {
        text
    }
}

/// What `str::parse::<i32>` gives for a text: an optional `+` or `-`, then
/// one or more ASCII digits, whose value fits in an `i32`.
pub open spec fn parsed_i32(text: Seq<char>) -> Option<i32> {
    let digits = unsigned_part(text);
    if digits.len() == 0 || !all_digits(digits) {
        None
    } else {
        let value = if text[0] == '-' {
            -digits_value(digits)
        } else {
            digits_value(digits)
        };
        if i32::MIN <= value && value <= i32::MAX {
            Some(value as i32)
        } else {
            None
        }
    }
}

proof fn lemma_digits_value_step(digits: Seq<char>, k: int)
    requires
        0 <= k < digits.len(),
    ensures
        digits_value(digits.subrange(0, k + 1)) == digits_value(digits.subrange(0, k)) * 10 + (
        digits[k] as int - '0' as int),
{
    assert(digits.subrange(0, k + 1).drop_last() =~= digits.subrange(0, k));
}

proof fn lemma_digits_value_nonneg(digits: Seq<char>, k: int)
    requires
        0 <= k <= digits.len(),
        forall|i: int| 0 <= i < digits.len() ==> is_ascii_digit(#[trigger] digits[i]),
    ensures
        digits_value(digits.subrange(0, k)) >= 0,
    decreases k,
{
    if k == 0 {
        assert(digits.subrange(0, 0) =~= Seq::<char>::empty());
    } else {
        lemma_digits_value_nonneg(digits, k - 1);
        lemma_digits_value_step(digits, k - 1);
        assert(is_ascii_digit(digits[k - 1]));
    }
}

proof fn lemma_digits_value_grows(digits: Seq<char>, k: int, j: int)
    requires
        0 <= k <= j <= digits.len(),
        forall|i: int| 0 <= i < digits.len() ==> is_ascii_digit(#[trigger] digits[i]),
    ensures
        digits_value(digits.subrange(0, j)) >= digits_value(digits.subrange(0, k)),
    decreases j - k,
{
    if j > k {
        lemma_digits_value_grows(digits, k, j - 1);
        lemma_digits_value_step(digits, j - 1);
        lemma_digits_value_nonneg(digits, j - 1);
        assert(is_ascii_digit(digits[j - 1]));
    }
}

/// Parses a decimal `i32` as `str::parse::<i32>` does.
pub fn parse_i32(text: &str) -> (r: Option<i32>)
    ensures
        r == parsed_i32(text@),
{
    let n = text.unicode_len();
    let ghost s = text@;
    let mut start: usize = 0;
    let mut negative = false;
    if n > 0 {
        let first = text.get_char(0);
        if first == '-' {
            negative = true;
            start = 1;
        } else if first == '+' {
            start = 1;
        }
    }
    let ghost digits = if start == 1 {
        s.skip(1)
    } else {
        s
    };
    assert(digits =~= s.subrange(start as int, n as int));
    assert(negative == (s.len() > 0 && s[0] == '-'));
    assert(digits == unsigned_part(s));
    if start == n {
        return None;
    }
    let limit: i64 = if negative {
        0x8000_0000
    } else {
        0x7fff_ffff
    };
    let mut value: i64 = 0;
    let mut i: usize = start;
    proof {
        assert(digits.subrange(0, 0) =~= Seq::<char>::empty());
    }
    while i < n
        invariant
            start <= i <= n,
            n == s.len(),
            s == text@,
            start < n,
            digits =~= s.subrange(start as int, n as int),
            forall|k: int| 0 <= k < i - start ==> is_ascii_digit(#[trigger] digits[k]),
            0 <= value <= limit,
            value == digits_value(digits.subrange(0, i - start)),
            negative == (s.len() > 0 && s[0] == '-'),
            digits == unsigned_part(s),
            limit == if negative {
                0x8000_0000i64
            } else {
                0x7fff_ffffi64
            },
        decreases n - i,
    {
        let c = text.get_char(i);
        assert(c == digits[i - start]);
        if c < '0' || c > '9' {
            assert(!is_ascii_digit(digits[i - start]));
            assert(!all_digits(digits));
            return None;
        }
        let d: i64 = (c as u32 - '0' as u32) as i64;
        proof {
            lemma_digits_value_step(digits, i - start);
        }
        let next = value * 10 + d;
        if next > limit {
            proof {
                if all_digits(digits) {
                    lemma_digits_value_grows(digits, i - start + 1, digits.len() as int);
                    assert(digits.subrange(0, digits.len() as int) =~= digits);
                }
            }
            return None;
        }
        value = next;
        i = i + 1;
    }
    assert(digits.subrange(0, n - start) =~= digits);
    if negative {
        Some((-value) as i32)
    } else {
        Some(value as i32)
    }
}

/// Names what a pattern of the `regex` crate captures in a named group in
/// its leftmost match on a text: `None` where the pattern does not compile,
/// does not match, or leaves the group out of its match.
pub uninterp spec fn spec_regex_capture(pattern: Seq<char>, group: Seq<char>, text: Seq<char>) -> Option<
    Seq<char>,
>;

/// Compiles a pattern with `regex::Regex::new` and reads the named group of
/// its leftmost match on a text with `captures` and `name`; a pattern that
/// does not compile, a text that does not match and a group that the match
/// leaves out all give `None`. What the match is, is left to the name.
#[verifier::external_body]
fn regex_capture(pattern: &str, group: &str, text: &str) -> (r: Option<String>)
    ensures
        match r {
            Some(t) => spec_regex_capture(pattern@, group@, text@) == Some(t@),
            None => spec_regex_capture(pattern@, group@, text@) is None,
        },
{
    let re = regex::Regex::new(pattern).ok()?;
    let caps = re.captures(text)?;
    caps.name(group).map(|m| String::from(m.as_str()))
}

/// The error code of a cln status message, which cln writes as
/// `Some(CODE)`: the `code` group of `Some\((?<code>-?\d+)\)`, parsed.
pub open spec fn cln_error_code(message: Seq<char>) -> Option<i32> {
    match spec_regex_capture("Some\\((?<code>-?\\d+)\\)"@, "code"@, message) {
        Some(text) => parsed_i32(text),
        None => None,
    }
}

/// The error code that cln wrote into a status message, if any.
pub fn parse_cln_error(message: &str) -> (r: Option<i32>)
    ensures
        r == cln_error_code(message@),
{
    match regex_capture("Some\\((?<code>-?\\d+)\\)", "code", message) {
        Some(text) => parse_i32(text.as_str()),
        None => None,
    }
}

/// The codes of `waitsendpay` after which the other parts of a payment are
/// still worth waiting for.
pub open spec fn is_waitable_code(code: i32) -> bool {
    code == 202 || code == 203 || code == 204 || code == 208 || code == 209
}

/// What waiting for the parts of a payment does after one answer.
#[derive(Debug)]
pub enum WaitStep {
    Continue,
    Finished(Result<Option<PaymentResult>, LightningError>),
}

/// The step after one answer of `waitsendpay`: the preimage of a completed
/// part ends the wait; an answer without one waits on; an error waits on
/// only for a waitable code, and else ends the wait with that error.
pub fn wait_send_pay_step(answer: Result<Option<Vec<u8>>, String>) -> (r: WaitStep)
    ensures
        match answer {
            Ok(Some(bytes)) => match r {
                WaitStep::Finished(Ok(Some(PaymentResult::Success { preimage }))) => bytes@.len()
                    == 32 && preimage@ == bytes@,
                WaitStep::Finished(Err(e)) => bytes@.len() != 32 && e is InvalidPreimage,
                _ => false,
            },
            Ok(None) => r is Continue,
            Err(message) => match cln_error_code(message@) {
                Some(code) if is_waitable_code(code) => r is Continue,
                _ => match r {
                    WaitStep::Finished(Err(LightningError::General(m))) => m@ == message@,
                    _ => false,
                },
            },
        },
{
    match answer {
        Ok(Some(bytes)) => match preimage_from_bytes(&bytes) {
            Ok(preimage) => WaitStep::Finished(Ok(Some(PaymentResult::Success { preimage }))),
            Err(e) => WaitStep::Finished(Err(e)),
        },
        Ok(None) => WaitStep::Continue,
        Err(message) => {
            match parse_cln_error(message.as_str()) {
                Some(code) => {
                    if code == 202 || code == 203 || code == 204 || code == 208 || code == 209 {
                        return WaitStep::Continue;
                    }
                },
                None => {},
            }
            WaitStep::Finished(Err(LightningError::General(message)))
        },
    }
}

/// The outcome of the first completed part of a payment that carries a
/// preimage, if any: the preimage, or `InvalidPreimage` where it is not 32
/// bytes long.
pub fn first_completed_preimage(preimages: &Vec<Option<Vec<u8>>>) -> (r: Option<
    Result<PaymentResult, LightningError>,
>)
    ensures
        match r {
            None => forall|i: int| 0 <= i < preimages@.len() ==> (#[trigger] preimages@[i]) is None,
            Some(outcome) => exists|i: int|
                0 <= i < preimages@.len() && (#[trigger] preimages@[i]) is Some && (forall|j: int|
                    0 <= j < i ==> (#[trigger] preimages@[j]) is None) && match outcome {
                    Ok(PaymentResult::Success { preimage }) => preimages@[i]->0@.len() == 32
                        && preimage@ == preimages@[i]->0@,
                    Ok(PaymentResult::Failure { .. }) => false,
                    Err(e) => preimages@[i]->0@.len() != 32 && e is InvalidPreimage,
                },
        },
{
    let mut i: usize = 0;
    while i < preimages.len()
        invariant
            0 <= i <= preimages@.len(),
            forall|j: int| 0 <= j < i ==> (#[trigger] preimages@[j]) is None,
        decreases preimages.len() - i,
    {
        match &preimages[i] {
            Some(bytes) => {
                let outcome = match preimage_from_bytes(bytes) {
                    Ok(preimage) => Ok(PaymentResult::Success { preimage }),
                    Err(e) => Err(e),
                };
                assert(preimages@[i as int] is Some);
                return Some(outcome);
            },
            None => {},
        }
        i = i + 1;
    }
    None
}

/// The status that cln's `pay` answers with.
#[derive(Clone, Copy, Debug, PartialEq, Eq)]
pub enum ClnPayStatus {
    Complete,
    Pending,
    Failed,
}

/// What a payout over cln does after `pay` answered.
#[derive(Debug)]
pub enum ClnPayStep {
    /// Look the payment up and wait for its parts.
    WaitForPayment,
    Done(Result<PaymentResult, LightningError>),
}

/// Whether `r` is the step after `pay` answered with a status, a preimage
/// and whether it warned of a partial completion.
pub open spec fn pay_response_step_spec(
    status: ClnPayStatus,
    preimage: Seq<u8>,
    partial_completion: bool,
    r: ClnPayStep,
) -> bool {
    match status {
        ClnPayStatus::Complete => match r {
            ClnPayStep::Done(Ok(PaymentResult::Success { preimage: p })) => preimage.len() == 32
                && p@ == preimage,
            ClnPayStep::Done(Err(e)) => preimage.len() != 32 && e is InvalidPreimage,
            _ => false,
        },
        ClnPayStatus::Pending => r is WaitForPayment,
        ClnPayStatus::Failed => if partial_completion {
            r is WaitForPayment
        } else {
            match r {
                ClnPayStep::Done(Ok(PaymentResult::Failure { error })) => error@ == "unknown failure"@,
                _ => false,
            }
        },
    }
}

/// The step after `pay` answered: a complete payment yields its preimage; a
/// pending one, or a failed one with a partial completion, is waited for; any
/// other failure is an unknown failure.
pub fn pay_response_step(status: ClnPayStatus, preimage: &Vec<u8>, partial_completion: bool) -> (r:
    ClnPayStep)
    ensures
        pay_response_step_spec(status, preimage@, partial_completion, r),
{
    match status {
        ClnPayStatus::Complete => match preimage_from_bytes(preimage) {
            Ok(p) => ClnPayStep::Done(Ok(PaymentResult::Success { preimage: p })),
            Err(e) => ClnPayStep::Done(Err(e)),
        },
        ClnPayStatus::Pending => ClnPayStep::WaitForPayment,
        ClnPayStatus::Failed => if partial_completion {
            ClnPayStep::WaitForPayment
        } else {
            ClnPayStep::Done(Ok(PaymentResult::Failure { error: String::from_str("unknown failure") }))
        },
    }
}

/// The answer of cln's `pay`: its status, preimage and partial-completion
/// warning, or the text of the RPC error.
#[derive(Debug)]
pub struct ClnPayAnswer {
    pub status: ClnPayStatus,
    pub preimage: Vec<u8>,
    pub partial_completion: bool,
}

/// The step after `pay` returned: an RPC error is waited out like a pending
/// payment; an answer is read by `pay_response_step`.
pub fn pay_answer_step(answer: &Result<ClnPayAnswer, String>) -> (r: ClnPayStep)
    ensures
        match answer {
            Err(_) => r is WaitForPayment,
            Ok(a) => pay_response_step_spec(a.status, a.preimage@, a.partial_completion, r),
        },
{
    match answer {
        Err(_) => ClnPayStep::WaitForPayment,
        Ok(a) => pay_response_step(a.status, &a.preimage, a.partial_completion),
    }
}

/// The arguments of cln's `pay` for a payout.
#[derive(Debug)]
pub struct ClnPayArgs {
    pub label: String,
    pub bolt11: String,
    pub maxfee_msat: u64,
    pub retry_for: u32,
    pub maxdelay: u32,
}

/// The `pay` request of a payout: its label and invoice, the fee limit as
/// the most fee, the timeout as the time to retry for, and the delay limit
/// as the most delay.
pub fn cln_pay_args(request: &PaymentRequest) -> (r: ClnPayArgs)
    ensures
        r.label@ == request.label@,
        r.bolt11@ == request.bolt11@,
        r.maxfee_msat == request.fee_limit_msat,
        r.retry_for == request.timeout_seconds as u32,
        r.maxdelay == request.cltv_limit,
{
    ClnPayArgs {
        label: request.label.clone(),
        bolt11: request.bolt11.clone(),
        maxfee_msat: request.fee_limit_msat,
        retry_for: request.timeout_seconds as u32,
        maxdelay: request.cltv_limit,
    }
}

/// The result of a payout that had to wait for its payment: what the wait
/// found, or an unknown failure where it found nothing.
pub fn waited_payment_result(found: Option<PaymentResult>) -> (r: PaymentResult)
    ensures
        match found {
            Some(result) => r == result,
            None => match r {
                PaymentResult::Failure { error } => error@ == "unknown failure"@,
                _ => false,
            },
        },
{
    match found {
        Some(result) => result,
        None => PaymentResult::Failure { error: String::from_str("unknown failure") },
    }
}

/// A payment as cln's `listpays` reports it.
#[derive(Debug)]
pub struct ClnPay {
    pub label: Option<String>,
    pub preimage: Option<Vec<u8>>,
}

/// The preimage of the first listed payment that has one, with its label
/// (empty where it has none); `InvalidPreimage` where that preimage is not 32
/// bytes long.
pub fn first_paid_preimage(pays: &Vec<ClnPay>) -> (r: Result<Option<PreimageResult>, LightningError>)
    ensures
        match r {
            Ok(None) => forall|i: int| 0 <= i < pays@.len() ==> (#[trigger] pays@[i]).preimage is None,
            Ok(Some(found)) => exists|i: int|
                0 <= i < pays@.len() && (#[trigger] pays@[i]).preimage is Some && (forall|j: int|
                    0 <= j < i ==> (#[trigger] pays@[j]).preimage is None) && pays@[i].preimage->0@
                    == found.preimage@ && found.label@ == match pays@[i].label {
                    Some(l) => l@,
                    None => Seq::<char>::empty(),
                },
            Err(e) => e is InvalidPreimage && exists|i: int|
                0 <= i < pays@.len() && (#[trigger] pays@[i]).preimage is Some && (forall|j: int|
                    0 <= j < i ==> (#[trigger] pays@[j]).preimage is None)
                    && pays@[i].preimage->0@.len() != 32,
        },
{
    let mut i: usize = 0;
    while i < pays.len()
        invariant
            0 <= i <= pays@.len(),
            forall|j: int| 0 <= j < i ==> (#[trigger] pays@[j]).preimage is None,
        decreases pays.len() - i,
    {
        let pay = &pays[i];
        match &pay.preimage {
            Some(bytes) => {
                assert(pays@[i as int].preimage is Some);
                let preimage = preimage_from_bytes(bytes)?;
                let label = match &pay.label {
                    Some(l) => l.clone(),
                    None => String::new(),
                };
                return Ok(Some(PreimageResult { preimage, label }));
            },
            None => {},
        }
        i = i + 1;
    }
    Ok(None)
}

} // verus!
