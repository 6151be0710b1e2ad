use vstd::prelude::*;

use crate::lightning::{preimage_from_bytes, LightningError, PaymentRequest, PaymentResult};

verus! {

/// Errors of the store that keeps the labels of lnd payments.
#[derive(Debug)]
pub enum RepositoryError {
    General(String),
}

/// The store that maps payment labels to lnd payment indexes and back.
pub trait Repository {
    fn add_label(&self, label: String, payment_index: u64) -> Result<(), RepositoryError>;

    fn get_label(&self, payment_index: u64) -> Result<Option<String>, RepositoryError>;

    fn get_payment_index(&self, label: &str) -> Result<Option<u64>, RepositoryError>;
}

/// One hop of a route, identified by the short channel id of its channel.
#[derive(Clone, Copy, Debug, PartialEq, Eq)]
pub struct Hop {
    pub chan_id: u64,
}

/// The character of a decimal digit.
pub open spec fn digit_char(d: nat) -> char {
    if d == 0 {
        '0'
    } else if d == 1 {
        '1'
    } else if d == 2 {
        '2'
    } else if d == 3 {
        '3'
    } else if d == 4 {
        '4'
    } else if d == 5 {
        '5'
    } else if d == 6 {
        '6'
    } else if d == 7 {
        '7'
    } else if d == 8 {
        '8'
    } else {
        '9'
    }
}

/// The decimal notation of a natural number, without leading zeros.
pub open spec fn decimal(n: nat) -> Seq<char>
    decreases n,
{
    if n < 10 {
        seq![digit_char(n)]
    } else {
        decimal(n / 10).push(digit_char(n % 10))
    }
}

/// The block height encoded in a short channel id (its upper 24 bits).
pub open spec fn scid_block(scid: u64) -> u64 {
    (scid >> 40u64) & 0xffffffu64
}

/// The transaction index encoded in a short channel id (the next 24 bits).
pub open spec fn scid_tx_index(scid: u64) -> u64 {
    (scid >> 16u64) & 0xffffffu64
}

/// The output index encoded in a short channel id (the lower 16 bits).
pub open spec fn scid_output(scid: u64) -> u64 {
    scid & 0xffffu64
}

/// The text `BLOCKxTXxOUTPUT` of a short channel id.
pub open spec fn scid_text(scid: u64) -> Seq<char> {
    decimal(scid_block(scid) as nat) + seq!['x'] + decimal(scid_tx_index(scid) as nat) + seq!['x']
        + decimal(scid_output(scid) as nat)
}

/// The channels of a route, joined by ` -> `.
pub open spec fn hops_text(hops: Seq<Hop>) -> Seq<char>
    decreases hops.len(),
{
    if hops.len() == 0 {
        Seq::empty()
    } else if hops.len() == 1 {
        scid_text(hops[0].chan_id)
    } else {
        hops_text(hops.drop_last()) + seq![' ', '-', '>', ' '] + scid_text(hops.last().chan_id)
    }
}

/// A short channel id laid out from its block height, transaction index and
/// output index reads back as those three numbers.
pub proof fn law_scid_text_of_parts(block: u64, tx_index: u64, output: u64)
    requires
        block < 0x1000000,
        tx_index < 0x1000000,
        output < 0x10000,
    ensures
        scid_text((block << 40u64) | (tx_index << 16u64) | output) == decimal(block as nat) + seq![
            'x',
        ] + decimal(tx_index as nat) + seq!['x'] + decimal(output as nat),
{
    let scid = (block << 40u64) | (tx_index << 16u64) | output;
    assert(scid_block(scid) == block && scid_tx_index(scid) == tx_index && scid_output(scid)
        == output) by (bit_vector)
        requires
            block < 0x1000000,
            tx_index < 0x1000000,
            output < 0x10000,
            scid == (block << 40u64) | (tx_index << 16u64) | output,
    ;
}

proof fn lemma_digit_char_injective(a: nat, b: nat)
    requires
        a < 10,
        b < 10,
        digit_char(a) == digit_char(b),
    ensures
        a == b,
{
}

proof fn lemma_decimal_shape(n: nat)
    ensures
        decimal(n).len() >= 1,
        n >= 10 ==> decimal(n).len() >= 2,
        forall|i: int| 0 <= i < decimal(n).len() ==> #[trigger] decimal(n)[i] != 'x',
    decreases n,
{
    if n >= 10 {
        lemma_decimal_shape(n / 10);
        assert forall|i: int| 0 <= i < decimal(n).len() implies #[trigger] decimal(n)[i] != 'x' by {
            if i < decimal(n / 10).len() {
                assert(decimal(n)[i] == decimal(n / 10)[i]);
            }
        }
    }
}

proof fn lemma_decimal_injective(n: nat, m: nat)
    requires
        decimal(n) == decimal(m),
    ensures
        n == m,
    decreases n,
{
    lemma_decimal_shape(n);
    lemma_decimal_shape(m);
    if n < 10 && m < 10 {
        assert(decimal(n) == seq![digit_char(n)]);
        assert(decimal(m) == seq![digit_char(m)]);
        assert(decimal(n)[0] == digit_char(n));
        assert(decimal(m)[0] == digit_char(m));
        lemma_digit_char_injective(n, m);
    } else if n >= 10 && m >= 10 {
        assert(decimal(n).drop_last() == decimal(n / 10));
        assert(decimal(m).drop_last() == decimal(m / 10));
        lemma_decimal_injective(n / 10, m / 10);
        assert(decimal(n).last() == digit_char(n % 10));
        assert(decimal(m).last() == digit_char(m % 10));
        lemma_digit_char_injective(n % 10, m % 10);
    } else {
        assert(decimal(n).len() != decimal(m).len());
    }
}

/// Two texts made of a part without `x`, an `x` and a rest agree part by
/// part where they agree.
proof fn lemma_split_at_x(d1: Seq<char>, r1: Seq<char>, d2: Seq<char>, r2: Seq<char>)
    requires
        forall|i: int| 0 <= i < d1.len() ==> #[trigger] d1[i] != 'x',
        forall|i: int| 0 <= i < d2.len() ==> #[trigger] d2[i] != 'x',
        d1 + seq!['x'] + r1 == d2 + seq!['x'] + r2,
    ensures
        d1 == d2,
        r1 == r2,
{
    let t1 = d1 + seq!['x'] + r1;
    let t2 = d2 + seq!['x'] + r2;
    if d1.len() < d2.len() {
        assert(t1[d1.len() as int] == 'x');
        assert(t2[d1.len() as int] == d2[d1.len() as int]);
    } else if d2.len() < d1.len() {
        assert(t2[d2.len() as int] == 'x');
        assert(t1[d2.len() as int] == d1[d2.len() as int]);
    }
    assert(d1 =~= t1.subrange(0, d1.len() as int));
    assert(d2 =~= t2.subrange(0, d2.len() as int));
    assert(r1 =~= t1.subrange((d1.len() + 1) as int, t1.len() as int));
    assert(r2 =~= t2.subrange((d2.len() + 1) as int, t2.len() as int));
}

/// The text of a short channel id determines the id: two ids with the same
/// text are the same, so the text's three numbers read back to the id.
pub proof fn law_scid_text_determines_id(a: u64, b: u64)
    requires
        scid_text(a) == scid_text(b),
    ensures
        a == b,
{
    lemma_decimal_shape(scid_block(a) as nat);
    lemma_decimal_shape(scid_block(b) as nat);
    lemma_decimal_shape(scid_tx_index(a) as nat);
    lemma_decimal_shape(scid_tx_index(b) as nat);
    let ra = decimal(scid_tx_index(a) as nat) + seq!['x'] + decimal(scid_output(a) as nat);
    let rb = decimal(scid_tx_index(b) as nat) + seq!['x'] + decimal(scid_output(b) as nat);
    assert(scid_text(a) =~= decimal(scid_block(a) as nat) + seq!['x'] + ra);
    assert(scid_text(b) =~= decimal(scid_block(b) as nat) + seq!['x'] + rb);
    lemma_split_at_x(decimal(scid_block(a) as nat), ra, decimal(scid_block(b) as nat), rb);
    lemma_split_at_x(
        decimal(scid_tx_index(a) as nat),
        decimal(scid_output(a) as nat),
        decimal(scid_tx_index(b) as nat),
        decimal(scid_output(b) as nat),
    );
    lemma_decimal_injective(scid_block(a) as nat, scid_block(b) as nat);
    lemma_decimal_injective(scid_tx_index(a) as nat, scid_tx_index(b) as nat);
    lemma_decimal_injective(scid_output(a) as nat, scid_output(b) as nat);
    assert(a == b) by (bit_vector)
        requires
            (a >> 40u64) & 0xffffffu64 == (b >> 40u64) & 0xffffffu64,
            (a >> 16u64) & 0xffffffu64 == (b >> 16u64) & 0xffffffu64,
            a & 0xffffu64 == b & 0xffffu64,
    ;
}

/// The three decimal fields of a short channel id's text read back as the
/// id: whatever numbers the text is read as, they are the id's block
/// height, transaction index and output index, and those put together
/// again give the id.
pub proof fn law_scid_text_parses_back(scid: u64, block: nat, tx_index: nat, output: nat)
    requires
        scid_text(scid) == decimal(block) + seq!['x'] + decimal(tx_index) + seq!['x'] + decimal(output),
    ensures
        block == scid_block(scid),
        tx_index == scid_tx_index(scid),
        output == scid_output(scid),
        (scid_block(scid) << 40u64) | (scid_tx_index(scid) << 16u64) | scid_output(scid) == scid,
{
    lemma_decimal_shape(scid_block(scid) as nat);
    lemma_decimal_shape(block);
    lemma_decimal_shape(scid_tx_index(scid) as nat);
    lemma_decimal_shape(tx_index);
    let ra = decimal(scid_tx_index(scid) as nat) + seq!['x'] + decimal(scid_output(scid) as nat);
    let rb = decimal(tx_index) + seq!['x'] + decimal(output);
    assert(scid_text(scid) =~= decimal(scid_block(scid) as nat) + seq!['x'] + ra);
    assert(decimal(block) + seq!['x'] + decimal(tx_index) + seq!['x'] + decimal(output) =~= decimal(
        block,
    ) + seq!['x'] + rb);
    lemma_split_at_x(decimal(scid_block(scid) as nat), ra, decimal(block), rb);
    lemma_split_at_x(
        decimal(scid_tx_index(scid) as nat),
        decimal(scid_output(scid) as nat),
        decimal(tx_index),
        decimal(output),
    );
    lemma_decimal_injective(scid_block(scid) as nat, block);
    lemma_decimal_injective(scid_tx_index(scid) as nat, tx_index);
    lemma_decimal_injective(scid_output(scid) as nat, output);
    assert((((scid >> 40u64) & 0xffffffu64) << 40u64) | (((scid >> 16u64) & 0xffffffu64) << 16u64) | (
    scid & 0xffffu64) == scid) by (bit_vector);
}

fn digit_str(d: u64) -> (s: &'static str)
    requires
        d < 10,
    ensures
        s@ == seq![digit_char(d as nat)],
{
    if d == 0 {
        proof {
            reveal_strlit("0");
        }
        "0"
    } else if d == 1 {
        proof {
            reveal_strlit("1");
        }
        "1"
    } else if d == 2 {
        proof {
            reveal_strlit("2");
        }
        "2"
    } else if d == 3 {
        proof {
            reveal_strlit("3");
        }
        "3"
    } else if d == 4 {
        proof {
            reveal_strlit("4");
        }
        "4"
    } else if d == 5 {
        proof {
            reveal_strlit("5");
        }
        "5"
    } else if d == 6 {
        proof {
            reveal_strlit("6");
        }
        "6"
    } else if d == 7 {
        proof {
            reveal_strlit("7");
        }
        "7"
    } else if d == 8 {
        proof {
            reveal_strlit("8");
        }
        "8"
    } else {
        proof {
            reveal_strlit("9");
        }
        "9"
    }
}

/// Appends the decimal notation of `n` to `s`.
pub fn push_decimal(s: &mut String, n: u64)
    ensures
        final(s)@ == old(s)@ + decimal(n as nat),
    decreases n,
{
    if n >= 10 {
        push_decimal(s, n / 10);
    }
    s.append(digit_str(n % 10));
    assert(old(s)@ + decimal(n as nat) =~= final(s)@) by {
        if n >= 10 {
            assert(decimal(n as nat) == decimal((n / 10) as nat).push(digit_char((n % 10) as nat)));
        }
    }
}

/// The text `BLOCKxTXxOUTPUT` of a short channel id.
pub fn short_channel_id_to_string(scid: u64) -> (s: String)
    ensures
        s@ == scid_text(scid),
{
    let block = (scid >> 40u64) & 0xffffffu64;
    let tx_index = (scid >> 16u64) & 0xffffffu64;
    let outnum = scid & 0xffffu64;
    let mut s = String::new();
    push_decimal(&mut s, block);
    proof {
        reveal_strlit("x");
    }
    s.append("x");
    push_decimal(&mut s, tx_index);
    s.append("x");
    push_decimal(&mut s, outnum);
    assert(s@ =~= scid_text(scid));
    s
}

/// The channels of a route, joined by ` -> `; empty for an empty route.
pub fn hops_to_string(hops: &Vec<Hop>) -> (s: String)
    ensures
        s@ == hops_text(hops@),
{
    if hops.len() == 0 {
        return String::new();
    }
    let mut result = short_channel_id_to_string(hops[0].chan_id);
    proof {
        reveal_strlit(" -> ");
        assert(hops@.subrange(0, 1).drop_last() =~= Seq::<Hop>::empty());
        assert(result@ == hops_text(hops@.subrange(0, 1)));
    }
    let mut i: usize = 1;
    while i < hops.len()
        invariant
            1 <= i <= hops.len(),
            result@ == hops_text(hops@.subrange(0, i as int)),
        decreases hops.len() - i,
    {
        let ghost before = result@;
        proof {
            reveal_strlit(" -> ");
        }
        result.append(" -> ");
        let next = short_channel_id_to_string(hops[i].chan_id);
        result.append(next.as_str());
        proof {
            let prefix = hops@.subrange(0, i as int + 1);
            assert(prefix.drop_last() =~= hops@.subrange(0, i as int));
            assert(prefix.last() == hops@[i as int]);
            assert(hops_text(prefix) == hops_text(prefix.drop_last()) + seq![' ', '-', '>', ' ']
                + scid_text(prefix.last().chan_id));
            assert(result@ =~= before + seq![' ', '-', '>', ' '] + scid_text(hops@[i as int].chan_id));
        }
        i = i + 1;
    }
    assert(hops@.subrange(0, hops.len() as int) =~= hops@);
    result
}

/// The value of a hexadecimal digit, in either case.
pub open spec fn hex_value(c: char) -> Option<int> {
    if '0' <= c && c <= '9' {
        Some(c as int - '0' as int)
    } else if 'a' <= c && c <= 'f' {
        Some(c as int - 'a' as int + 10)
    } else if 'A' <= c && c <= 'F' {
        Some(c as int - 'A' as int + 10)
    } else {
        None
    }
}

/// The bytes that a hexadecimal text stands for: two digits per byte, the
/// high half first; `None` for an odd length or a character that is no digit.
pub open spec fn hex_decoded(text: Seq<char>) -> Option<Seq<u8>> {
    if text.len() % 2 != 0 {
        None
    } else if exists|i: int| 0 <= i < text.len() && hex_value(#[trigger] text[i]) is None {
        None
    } else {
        Some(
            Seq::new(
                text.len() / 2,
                |k: int| (hex_value(text[2 * k])->0 * 16 + hex_value(text[2 * k + 1])->0) as u8,
            ),
        )
    }
}

/// Decodes a hexadecimal text with `hex::decode`, which accepts exactly the
/// texts of even length made of the digits `0-9`, `a-f` and `A-F`, and turns
/// each pair of digits into one byte, the first digit being the high half.
#[verifier::external_body]
pub(crate) fn hex_decode(text: &String) -> (r: Option<Vec<u8>>)
    ensures
        match r {
            Some(bytes) => hex_decoded(text@) == Some(bytes@),
            None => hex_decoded(text@) is None,
        },
{
    hex::decode(text).ok()
}

/// The preimage of a payment as lnd reports it, in hexadecimal.
pub open spec fn preimage_hex_outcome(text: Seq<char>) -> Option<Seq<u8>> {
    match hex_decoded(text) {
        Some(bytes) => if bytes.len() == 32 {
            Some(bytes)
        } else {
            None
        },
        None => None,
    }
}

/// Decodes the hexadecimal preimage of a payment; `InvalidPreimage` unless it
/// stands for exactly 32 bytes.
pub fn decode_preimage(text: &String) -> (r: Result<[u8; 32], LightningError>)
    ensures
        match r {
            Ok(p) => preimage_hex_outcome(text@) == Some(p@),
            Err(e) => preimage_hex_outcome(text@) is None && e is InvalidPreimage,
        },
{
    match hex_decode(text) {
        Some(bytes) => preimage_from_bytes(&bytes),
        None => Err(LightningError::InvalidPreimage),
    }
}

/// The preimage that a tracked payment reveals: none while the text is
/// empty, else the decoded preimage.
pub fn tracked_preimage(text: &String) -> (r: Result<Option<[u8; 32]>, LightningError>)
    ensures
        text@.len() == 0 ==> r == Ok::<Option<[u8; 32]>, LightningError>(None),
        text@.len() != 0 ==> match r {
            Ok(Some(p)) => preimage_hex_outcome(text@) == Some(p@),
            Ok(None) => false,
            Err(e) => preimage_hex_outcome(text@) is None && e is InvalidPreimage,
        },
{
    if text.as_str().is_empty() {
        return Ok(None);
    }
    match decode_preimage(text) {
        Ok(p) => Ok(Some(p)),
        Err(e) => Err(e),
    }
}

/// The request that a payout hands to lnd's `send_payment_v2`.
#[derive(Debug)]
pub struct SendPaymentArgs {
    pub payment_request: String,
    pub fee_limit_msat: i64,
    pub timeout_seconds: i32,
    pub cltv_limit: i32,
}

/// The `send_payment_v2` request of a payout: the invoice, the fee limit,
/// the timeout and the delay limit, each as lnd's signed field holds it.
pub fn send_payment_args(request: &PaymentRequest) -> (r: SendPaymentArgs)
    ensures
        r.payment_request@ == request.bolt11@,
        r.fee_limit_msat == request.fee_limit_msat as i64,
        r.timeout_seconds == request.timeout_seconds as i32,
        r.cltv_limit == request.cltv_limit as i32,
{
    SendPaymentArgs {
        payment_request: request.bolt11.clone(),
        fee_limit_msat: request.fee_limit_msat as i64,
        timeout_seconds: request.timeout_seconds as i32,
        cltv_limit: request.cltv_limit as i32,
    }
}

/// The status of a payment in one update of lnd's payment stream.
#[derive(Clone, Copy, Debug, PartialEq, Eq)]
pub enum LndPaymentStatus {
    Unknown,
    InFlight,
    Succeeded,
    Failed,
    Initiated,
}

/// One update of lnd's payment stream, with what the payout reads of it.
#[derive(Debug)]
pub struct PaymentUpdate {
    pub payment_index: u64,
    /// Whether the last HTLC attempt of the update carries a route.
    pub has_routed_attempt: bool,
    pub status: LndPaymentStatus,
    pub payment_preimage: String,
    pub failure_reason: String,
}

/// What the payout does after one update: wait for the next one, or end
/// with a result.
#[derive(Debug)]
pub enum PayStep {
    Continue,
    Finished(Result<PaymentResult, LightningError>),
}

/// Whether a step is the one that an update calls for. An update whose last
/// HTLC attempt carries no route is passed over, whatever its status.
pub open spec fn pay_step_for(update: PaymentUpdate, step: PayStep) -> bool {
    if !update.has_routed_attempt {
        step is Continue
    } else {
        match update.status {
            LndPaymentStatus::Succeeded => match step {
                PayStep::Finished(Ok(PaymentResult::Success { preimage })) =>
                    preimage_hex_outcome(update.payment_preimage@) == Some(preimage@),
                PayStep::Finished(Err(e)) =>
                    preimage_hex_outcome(update.payment_preimage@) is None && e is InvalidPreimage,
                _ => false,
            },
            LndPaymentStatus::Failed => match step {
                PayStep::Finished(Ok(PaymentResult::Failure { error })) =>
                    error@ == update.failure_reason@,
                _ => false,
            },
            _ => step is Continue,
        }
    }
}

/// The state of a payout that follows lnd's payment stream.
#[derive(Debug)]
pub struct PaymentTracker {
    /// Whether the payment index was stored under the payout's label.
    pub labeled: bool,
}

impl PaymentTracker {
    pub fn new() -> (t: Self)
        ensures
            !t.labeled,
    {
        PaymentTracker { labeled: false }
    }

    /// Takes one update: returns the payment index to store under the
    /// payout's label (for the first update only) and the step that follows.
    pub fn on_update(&mut self, update: &PaymentUpdate) -> (r: (Option<u64>, PayStep))
        ensures
            final(self).labeled,
            r.0 == if old(self).labeled {
                None::<u64>
            } else {
                Some(update.payment_index)
            },
            pay_step_for(*update, r.1),
    {
        let label = if self.labeled {
            None
        } else {
            Some(update.payment_index)
        };
        self.labeled = true;
        if !update.has_routed_attempt {
            return (label, PayStep::Continue);
        }
        let step = match update.status {
            LndPaymentStatus::Succeeded => match decode_preimage(&update.payment_preimage) {
                Ok(preimage) => PayStep::Finished(Ok(PaymentResult::Success { preimage })),
                Err(e) => PayStep::Finished(Err(e)),
            },
            LndPaymentStatus::Failed => PayStep::Finished(
                Ok(PaymentResult::Failure { error: update.failure_reason.clone() }),
            ),
            _ => PayStep::Continue,
        };
        (label, step)
    }

    /// The answer of a payout whose update stream ended before any update
    /// called for a result.
    pub fn on_stream_end(&self) -> (r: Result<PaymentResult, LightningError>)
        ensures
            r matches Err(LightningError::General(m)) && m@ == "did not receive final update from payment"@,
    {
        Err(LightningError::General(String::from_str("did not receive final update from payment")))
    }
}

} // verus!
