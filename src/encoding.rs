//! The canonical byte form of a block: a JSON object whose members stand in
//! alphabetical order, with every string escaped the same way. The block's own
//! digest is not part of it.
use vstd::prelude::*;
use vstd::utf8::encode_utf8;

use crate::models::{Block, BlockView, Currency, RetailToken, Transaction, TransactionStatus};

verus! {

pub const QUOTE: u8 = 34;

pub const BACKSLASH: u8 = 92;

pub const COLON: u8 = 58;

pub const COMMA: u8 = 44;

pub const OPEN_BRACE: u8 = 123;

pub const CLOSE_BRACE: u8 = 125;

pub const OPEN_BRACKET: u8 = 91;

pub const CLOSE_BRACKET: u8 = 93;

pub const DIGIT_ZERO: u8 = 48;

/// A quote or a backslash gets a backslash in front; any other byte stands as it is.
pub open spec fn escape_byte(b: u8) -> Seq<u8> {
    if b == QUOTE || b == BACKSLASH {
        seq![BACKSLASH, b]
    } else {
        seq![b]
    }
}

pub open spec fn escaped(s: Seq<u8>) -> Seq<u8>
    decreases s.len(),
{
    if s.len() == 0 {
        seq![]
    } else {
        escaped(s.drop_last()) + escape_byte(s.last())
    }
}

/// A string: its escaped UTF-8 bytes between quotes.
pub open spec fn text(s: Seq<char>) -> Seq<u8> {
    seq![QUOTE] + escaped(encode_utf8(s)) + seq![QUOTE]
}

/// The decimal digits of a number, without leading zeros.
pub open spec fn decimal(n: nat) -> Seq<u8>
    decreases n,
{
    if n < 10 {
        seq![(DIGIT_ZERO + n) as u8]
    } else {
        decimal(n / 10) + seq![(DIGIT_ZERO + n % 10) as u8]
    }
}

/// One member of an object: its name, a colon and its value.
pub open spec fn member(name: Seq<char>, value: Seq<u8>) -> Seq<u8> {
    text(name) + seq![COLON] + value
}

pub open spec fn status_bytes(s: TransactionStatus) -> Seq<u8> {
    match s {
        TransactionStatus::Pending => text("Pending"@),
        TransactionStatus::Completed => text("Completed"@),
        TransactionStatus::Failed => text("Failed"@),
    }
}

pub open spec fn token_bytes(t: RetailToken) -> Seq<u8> {
    seq![OPEN_BRACE] + member("amount"@, text(t.amount@)) + seq![COMMA] + member(
        "loyalty_points"@,
        decimal(t.loyalty_points as nat),
    ) + seq![COMMA] + member("symbol"@, text(t.symbol@)) + seq![CLOSE_BRACE]
}

/// A plain currency is its name; the store's token is an object under the name "RETAIL".
pub open spec fn currency_bytes(c: Currency) -> Seq<u8> {
    match c {
        Currency::BTC => text("BTC"@),
        Currency::ETH => text("ETH"@),
        Currency::USDT => text("USDT"@),
        Currency::RETAIL(t) => seq![OPEN_BRACE] + member("RETAIL"@, token_bytes(t)) + seq![
            CLOSE_BRACE,
        ],
    }
}

pub open spec fn transaction_bytes(t: Transaction) -> Seq<u8> {
    seq![OPEN_BRACE] + member("amount"@, text(t.amount@)) + seq![COMMA] + member(
        "currency"@,
        currency_bytes(t.currency),
    ) + seq![COMMA] + member("from_address"@, text(t.from_address@)) + seq![COMMA] + member(
        "id"@,
        decimal(t.id as nat),
    ) + seq![COMMA] + member("status"@, status_bytes(t.status)) + seq![COMMA] + member(
        "timestamp"@,
        text(t.timestamp@),
    ) + seq![COMMA] + member("to_address"@, text(t.to_address@)) + seq![CLOSE_BRACE]
}

/// The transactions, separated by commas.
pub open spec fn transaction_items(ts: Seq<Transaction>) -> Seq<u8>
    decreases ts.len(),
{
    if ts.len() == 0 {
        seq![]
    } else if ts.len() == 1 {
        transaction_bytes(ts[0])
    } else {
        transaction_items(ts.drop_last()) + seq![COMMA] + transaction_bytes(ts.last())
    }
}

pub open spec fn transaction_list(ts: Seq<Transaction>) -> Seq<u8> {
    seq![OPEN_BRACKET] + transaction_items(ts) + seq![CLOSE_BRACKET]
}

/// The canonical bytes of a block: index, nonce, previous digest, timestamp and
/// transactions. The block's own digest is left out.
#[verifier::opaque]
pub open spec fn block_bytes(b: BlockView) -> Seq<u8> {
    seq![OPEN_BRACE] + member("index"@, decimal(b.index as nat)) + seq![COMMA] + member(
        "nonce"@,
        decimal(b.nonce as nat),
    ) + seq![COMMA] + member("previous_hash"@, text(b.previous_hash)) + seq![COMMA] + member(
        "timestamp"@,
        text(b.timestamp),
    ) + seq![COMMA] + member("transactions"@, transaction_list(b.transactions)) + seq![
        CLOSE_BRACE,
    ]
}

fn push_byte(out: &mut Vec<u8>, b: u8)
    ensures
        final(out)@ == old(out)@ + seq![b],
{
    out.push(b);
    assert(out@ =~= old(out)@ + seq![b]);
}

fn push_escaped(out: &mut Vec<u8>, s: &[u8])
    ensures
        final(out)@ == old(out)@ + escaped(s@),
{
    let mut i: usize = 0;
    while i < s.len()
        invariant
            i <= s@.len(),
            out@ == old(out)@ + escaped(s@.take(i as int)),
        decreases s@.len() - i,
    {
        let b = s[i];
        assert(s@.take(i + 1).drop_last() =~= s@.take(i as int));
        if b == QUOTE || b == BACKSLASH {
            out.push(BACKSLASH);
        }
        out.push(b);
        i += 1;
        assert(out@ =~= old(out)@ + escaped(s@.take(i as int)));
    }
    assert(s@.take(s@.len() as int) =~= s@);
}

fn text_bytes(s: &str) -> (r: Vec<u8>)
    ensures
        r@ == text(s@),
{
    let mut out: Vec<u8> = Vec::new();
    out.push(QUOTE);
    push_escaped(&mut out, s.as_bytes());
    out.push(QUOTE);
    assert(out@ =~= text(s@));
    out
}

fn push_decimal(out: &mut Vec<u8>, n: u128)
    ensures
        final(out)@ == old(out)@ + decimal(n as nat),
    decreases n,
{
    if n >= 10 {
        push_decimal(out, n / 10);
    }
    out.push(DIGIT_ZERO + (n % 10) as u8);
    assert(out@ =~= old(out)@ + decimal(n as nat));
}

fn decimal_bytes(n: u128) -> (r: Vec<u8>)
    ensures
        r@ == decimal(n as nat),
{
    let mut out: Vec<u8> = Vec::new();
    push_decimal(&mut out, n);
    assert(out@ =~= decimal(n as nat));
    out
}

fn push_member(out: &mut Vec<u8>, name: &str, value: Vec<u8>)
    ensures
        final(out)@ == old(out)@ + member(name@, value@),
{
    let mut m = text_bytes(name);
    push_byte(&mut m, COLON);
    let mut v = value;
    m.append(&mut v);
    out.append(&mut m);
}

fn status_vec(s: TransactionStatus) -> (r: Vec<u8>)
    ensures
        r@ == status_bytes(s),
{
    match s {
        TransactionStatus::Pending => text_bytes("Pending"),
        TransactionStatus::Completed => text_bytes("Completed"),
        TransactionStatus::Failed => text_bytes("Failed"),
    }
}

fn token_vec(t: &RetailToken) -> (r: Vec<u8>)
    ensures
        r@ == token_bytes(*t),
{
    let mut out: Vec<u8> = Vec::new();
    push_byte(&mut out, OPEN_BRACE);
    assert(out@ =~= seq![OPEN_BRACE]);
    push_member(&mut out, "amount", text_bytes(t.amount.as_str()));
    push_byte(&mut out, COMMA);
    push_member(&mut out, "loyalty_points", decimal_bytes(t.loyalty_points as u128));
    push_byte(&mut out, COMMA);
    push_member(&mut out, "symbol", text_bytes(t.symbol.as_str()));
    push_byte(&mut out, CLOSE_BRACE);
    out
}

fn currency_vec(c: &Currency) -> (r: Vec<u8>)
    ensures
        r@ == currency_bytes(*c),
{
    match c {
        Currency::BTC => text_bytes("BTC"),
        Currency::ETH => text_bytes("ETH"),
        Currency::USDT => text_bytes("USDT"),
        Currency::RETAIL(t) => {
            let mut out: Vec<u8> = Vec::new();
            push_byte(&mut out, OPEN_BRACE);
            assert(out@ =~= seq![OPEN_BRACE]);
            push_member(&mut out, "RETAIL", token_vec(t));
            push_byte(&mut out, CLOSE_BRACE);
            out
        },
    }
}

fn transaction_vec(t: &Transaction) -> (r: Vec<u8>)
    ensures
        r@ == transaction_bytes(*t),
{
    let mut out: Vec<u8> = Vec::new();
    push_byte(&mut out, OPEN_BRACE);
    assert(out@ =~= seq![OPEN_BRACE]);
    push_member(&mut out, "amount", text_bytes(t.amount.as_str()));
    push_byte(&mut out, COMMA);
    push_member(&mut out, "currency", currency_vec(&t.currency));
    push_byte(&mut out, COMMA);
    push_member(&mut out, "from_address", text_bytes(t.from_address.as_str()));
    push_byte(&mut out, COMMA);
    push_member(&mut out, "id", decimal_bytes(t.id));
    push_byte(&mut out, COMMA);
    push_member(&mut out, "status", status_vec(t.status));
    push_byte(&mut out, COMMA);
    push_member(&mut out, "timestamp", text_bytes(t.timestamp.as_str()));
    push_byte(&mut out, COMMA);
    push_member(&mut out, "to_address", text_bytes(t.to_address.as_str()));
    push_byte(&mut out, CLOSE_BRACE);
    out
}

fn transaction_list_vec(ts: &Vec<Transaction>) -> (r: Vec<u8>)
    ensures
        r@ == transaction_list(ts@),
{
    let mut items: Vec<u8> = Vec::new();
    let mut i: usize = 0;
    while i < ts.len()
        invariant
            i <= ts@.len(),
            items@ == transaction_items(ts@.take(i as int)),
        decreases ts@.len() - i,
    {
        let ghost prefix = ts@.take(i + 1);
        assert(prefix.drop_last() =~= ts@.take(i as int));
        let mut t = transaction_vec(&ts[i]);
        if i > 0 {
            push_byte(&mut items, COMMA);
        } else {
            assert(items@ =~= seq![]);
        }
        items.append(&mut t);
        i += 1;
        assert(items@ =~= transaction_items(prefix));
    }
    assert(ts@.take(ts@.len() as int) =~= ts@);
    let mut out: Vec<u8> = Vec::new();
    push_byte(&mut out, OPEN_BRACKET);
    assert(out@ =~= seq![OPEN_BRACKET]);
    out.append(&mut items);
    push_byte(&mut out, CLOSE_BRACKET);
    out
}

/// Blocks that differ at most in their own digest have the same bytes.
pub proof fn lemma_digest_not_encoded(a: BlockView, b: BlockView)
    requires
        a.index == b.index,
        a.timestamp == b.timestamp,
        a.transactions == b.transactions,
        a.previous_hash == b.previous_hash,
        a.nonce == b.nonce,
    ensures
        block_bytes(a) == block_bytes(b),
{
    reveal(block_bytes);
}

/// The canonical bytes of a block's hashed fields.
pub fn encode_block(b: &Block) -> (r: Vec<u8>)
    ensures
        r@ == block_bytes(b@),
{
    let mut out: Vec<u8> = Vec::new();
    push_byte(&mut out, OPEN_BRACE);
    assert(out@ =~= seq![OPEN_BRACE]);
    push_member(&mut out, "index", decimal_bytes(b.index as u128));
    push_byte(&mut out, COMMA);
    push_member(&mut out, "nonce", decimal_bytes(b.nonce as u128));
    push_byte(&mut out, COMMA);
    push_member(&mut out, "previous_hash", text_bytes(b.previous_hash.as_str()));
    push_byte(&mut out, COMMA);
    push_member(&mut out, "timestamp", text_bytes(b.timestamp.as_str()));
    push_byte(&mut out, COMMA);
    push_member(&mut out, "transactions", transaction_list_vec(&b.transactions));
    push_byte(&mut out, CLOSE_BRACE);
    proof {
        reveal(block_bytes);
    }
    out
}

} // verus!
