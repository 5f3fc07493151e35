//! The flash-loan side: the lending program's state and fee model, the
//! accounting core of its flash-loan instruction (disburse, verify repayment,
//! distribute fees), the borrower's repayment arithmetic, and the closed-form
//! round-trip simulation used to validate a candidate before execution.

use vstd::prelude::*;
use crate::codec::{
    be_bytes16, lemma_u128_be_round_trip, lemma_u64_le_round_trip, le_bytes8, push_u128_be,
    push_u64_le, read_u128_be, read_u64_le, u128_from_be_spec, u64_from_le_spec, FLASH_LOAN_TAG,
};
use crate::profit::flash_fee_spec;
use crate::keys::Key;
use crate::numeric::PPM;
use vstd::arithmetic::div_mod::lemma_div_pos_is_pos;
use vstd::arithmetic::mul::{
    lemma_mul_is_commutative, lemma_mul_nonnegative, lemma_mul_upper_bound,
};

verus! {

/// Errors of the lending program.
#[derive(Clone, Copy, Debug, PartialEq, Eq, Structural)]
pub enum LendingError {
    /// Invalid instruction data.
    InvalidInstruction,
    /// Not enough liquidity available to lend.
    InsufficientLiquidity,
    /// A zero amount was requested.
    InvalidAmount,
    /// The loan plus fees did not come back within the transaction.
    FlashLoanNotRepaid,
    /// An account is owned by the wrong program.
    InvalidAccountOwner,
    /// An account's data is malformed.
    InvalidAccountData,
    /// Fee or balance arithmetic overflowed.
    MathOverflow,
    /// The reserve does not belong to the lending market.
    InvalidReserve,
    /// The derived market authority does not match.
    InvalidLendingMarket,
}

/// Reserve fee configuration, in basis points.
#[derive(Clone, Copy, Debug, PartialEq, Eq, Structural)]
pub struct ReserveConfig {
    /// Flash-loan fee on the borrowed principal.
    pub flash_loan_fee_bps: u64,
    /// The protocol's share of that fee.
    pub protocol_flash_loan_fee_bps: u64,
}

/// Breakdown of one flash loan's fees: the protocol's share plus the host's
/// share make up the whole fee.
#[derive(Clone, Copy, Debug, PartialEq, Eq, Structural)]
pub struct FlashLoanFees {
    pub total_fee: u64,
    pub protocol_fee: u64,
    pub host_fee: u64,
}

/// The liquidity of a reserve.
#[derive(Clone, Copy, Debug, PartialEq, Eq, Structural)]
pub struct ReserveLiquidity {
    pub mint_pubkey: Key,
    pub supply_pubkey: Key,
    pub available_amount: u64,
}

/// A lending market account.
#[derive(Clone, Copy, Debug, PartialEq, Eq, Structural)]
pub struct LendingMarket {
    pub version: u8,
    pub bump_seed: u8,
    pub owner: Key,
    pub quote_currency: Key,
}

/// Parameters of a new lending market.
#[derive(Clone, Copy, Debug)]
pub struct InitLendingMarketParams {
    pub bump_seed: u8,
    pub owner: Key,
    pub quote_currency: Key,
}

impl LendingMarket {
    /// A fresh, initialized (version one) market.
    pub fn new(params: InitLendingMarketParams) -> (r: LendingMarket)
        ensures
            r.version == 1,
            r.bump_seed == params.bump_seed,
            r.owner == params.owner,
            r.quote_currency == params.quote_currency,
    {
        LendingMarket {
            version: 1,
            bump_seed: params.bump_seed,
            owner: params.owner,
            quote_currency: params.quote_currency,
        }
    }

    /// A market is initialized once its version is set.
    pub fn is_initialized(&self) -> (r: bool)
        ensures
            r == (self.version != 0),
    {
        self.version != 0
    }
}

/// A reserve account: its market, liquidity and fee configuration.
#[derive(Clone, Copy, Debug, PartialEq, Eq, Structural)]
pub struct Reserve {
    pub version: u8,
    pub lending_market: Key,
    pub liquidity: ReserveLiquidity,
    pub config: ReserveConfig,
}

/// The total flash-loan fee of a reserve on `amount`.
pub open spec fn total_fee_spec(amount: int, fee_bps: int) -> int {
    amount * fee_bps / 10_000
}

/// The protocol's share of a total fee.
pub open spec fn protocol_fee_spec(total_fee: int, protocol_bps: int) -> int {
    total_fee * protocol_bps / 10_000
}

/// When the fee computation cannot be carried in 64 bits: either product
/// overflows, or the protocol share (a rate over 100%) exceeds the total.
pub open spec fn fees_reject(cfg: ReserveConfig, amount: int) -> bool {
    ||| amount * cfg.flash_loan_fee_bps > u64::MAX
    ||| total_fee_spec(amount, cfg.flash_loan_fee_bps as int) * cfg.protocol_flash_loan_fee_bps
        > u64::MAX
    ||| protocol_fee_spec(
        total_fee_spec(amount, cfg.flash_loan_fee_bps as int),
        cfg.protocol_flash_loan_fee_bps as int,
    ) > total_fee_spec(amount, cfg.flash_loan_fee_bps as int)
}

impl Reserve {
    /// A reserve is initialized once its version is set.
    pub fn is_initialized(&self) -> (r: bool)
        ensures
            r == (self.version != 0),
    {
        self.version != 0
    }

    /// The fee breakdown of a flash loan of `amount`: the total fee on the
    /// principal, the protocol's cut of it, and the rest as host fee — so
    /// the two shares always close over the total. Errs when a product
    /// overflows 64 bits or the protocol share exceeds the total.
    pub fn calculate_flash_loan_fees(&self, amount: u64) -> (r: Result<FlashLoanFees, LendingError>)
        ensures
            r matches Ok(f) ==> f.total_fee == total_fee_spec(
                amount as int,
                self.config.flash_loan_fee_bps as int,
            ) && f.protocol_fee == protocol_fee_spec(
                f.total_fee as int,
                self.config.protocol_flash_loan_fee_bps as int,
            ) && f.host_fee == f.total_fee - f.protocol_fee && f.total_fee == f.protocol_fee
                + f.host_fee,
            r matches Err(e) ==> e == LendingError::MathOverflow,
            r is Err <==> fees_reject(self.config, amount as int),
    {
        let total_wide = match amount.checked_mul(self.config.flash_loan_fee_bps) {
            Some(v) => v,
            None => {
                return Err(LendingError::MathOverflow);
            },
        };
        let total_fee = total_wide / 10_000;
        let protocol_wide = match total_fee.checked_mul(self.config.protocol_flash_loan_fee_bps) {
            Some(v) => v,
            None => {
                return Err(LendingError::MathOverflow);
            },
        };
        let protocol_fee = protocol_wide / 10_000;
        if protocol_fee > total_fee {
            return Err(LendingError::MathOverflow);
        }
        let host_fee = total_fee - protocol_fee;
        Ok(FlashLoanFees { total_fee, protocol_fee, host_fee })
    }
}

/// The instruction processor of the lending program: its verifiable core,
/// the decisions and accounting of the flash-loan instruction. The account
/// plumbing and token transfers around it are the chain runtime's business.
pub struct Processor;

impl Processor {
    /// Dispatches raw instruction data: unpacks it and settles the flash
    /// loan it encodes against the reserve and the observed supply balances.
    pub fn process(
        instruction_data: &[u8],
        reserve: &Reserve,
        initial_supply_balance: u64,
        final_supply_balance: u64,
        host_fee_receiver_present: bool,
    ) -> (r: Result<FlashLoanSettlement, LendingError>)
        ensures
            instruction_data@.len() < 9 || instruction_data@[0] != FLASH_LOAN_TAG ==> r == Err::<
                FlashLoanSettlement,
                LendingError,
            >(LendingError::InvalidInstruction),
            instruction_data@.len() >= 9 && instruction_data@[0] == FLASH_LOAN_TAG ==> {
                let amount = crate::codec::u64_from_le_spec(instruction_data@.skip(1));
                &&& (r is Ok <==> flash_accounting_verdict(
                    *reserve,
                    amount,
                    initial_supply_balance as int,
                    final_supply_balance as int,
                ) is Ok)
                &&& (r matches Err(e) ==> Err::<(), LendingError>(e) == flash_accounting_verdict(
                    *reserve,
                    amount,
                    initial_supply_balance as int,
                    final_supply_balance as int,
                ))
                &&& (r matches Ok(st) ==> st.fees.total_fee == total_fee_spec(
                    amount,
                    reserve.config.flash_loan_fee_bps as int,
                ) && st.repay_amount == amount + st.fees.total_fee && st.fees.total_fee
                    == st.fees.protocol_fee + st.fees.host_fee)
            },
    {
        let instruction = match crate::codec::LendingInstruction::unpack(instruction_data) {
            Ok(i) => i,
            Err(e) => {
                return Err(e);
            },
        };
        let amount = match instruction {
            crate::codec::LendingInstruction::FlashLoan { amount } => amount,
        };
        process_flash_loan_accounting(
            reserve,
            amount,
            initial_supply_balance,
            final_supply_balance,
            host_fee_receiver_present,
        )
    }
}

/// What one successful flash loan does to the books.
#[derive(Clone, Copy, Debug, PartialEq, Eq, Structural)]
pub struct FlashLoanSettlement {
    /// The fee breakdown charged.
    pub fees: FlashLoanFees,
    /// Principal plus total fee, what the borrower had to return.
    pub repay_amount: u64,
    /// The reserve after the loan settled.
    pub reserve_after: Reserve,
}

/// The settlement of a flash loan, or the exact error it fails with: a zero
/// amount, then missing liquidity, then any 64-bit overflow of the fee or
/// balance arithmetic, then a supply account that did not come back with the
/// whole fee on top.
pub open spec fn flash_accounting_verdict(
    reserve: Reserve,
    amount: int,
    initial_supply_balance: int,
    final_supply_balance: int,
) -> Result<(), LendingError> {
    let total = total_fee_spec(amount, reserve.config.flash_loan_fee_bps as int);
    if amount == 0 {
        Err(LendingError::InvalidAmount)
    } else if reserve.liquidity.available_amount < amount {
        Err(LendingError::InsufficientLiquidity)
    } else if fees_reject(reserve.config, amount) || amount + total > u64::MAX
        || initial_supply_balance + total > u64::MAX {
        Err(LendingError::MathOverflow)
    } else if final_supply_balance < initial_supply_balance + total {
        Err(LendingError::FlashLoanNotRepaid)
    } else if reserve.liquidity.available_amount + total > u64::MAX {
        Err(LendingError::MathOverflow)
    } else {
        Ok(())
    }
}

/// The accounting core of the flash-loan instruction: checks the requested
/// amount and the available liquidity, charges the fees, verifies from the
/// supply account's balances that principal and fee came back, and settles
/// the reserve — the available liquidity ends at its starting point plus the
/// fee shares that stay in the pool. The token transfers themselves happen
/// outside; this decides and accounts. Succeeds or fails exactly as
/// [`flash_accounting_verdict`] says.
pub fn process_flash_loan_accounting(
    reserve: &Reserve,
    amount: u64,
    initial_supply_balance: u64,
    final_supply_balance: u64,
    host_fee_receiver_present: bool,
) -> (r: Result<FlashLoanSettlement, LendingError>)
    ensures
        r is Ok <==> flash_accounting_verdict(
            *reserve,
            amount as int,
            initial_supply_balance as int,
            final_supply_balance as int,
        ) is Ok,
        r matches Err(e) ==> Err::<(), LendingError>(e) == flash_accounting_verdict(
            *reserve,
            amount as int,
            initial_supply_balance as int,
            final_supply_balance as int,
        ),
        amount == 0 ==> r == Err::<FlashLoanSettlement, LendingError>(LendingError::InvalidAmount),
        amount > 0 && reserve.liquidity.available_amount < amount ==> r == Err::<
            FlashLoanSettlement,
            LendingError,
        >(LendingError::InsufficientLiquidity),
        r matches Ok(s) ==> {
            &&& amount > 0
            &&& reserve.liquidity.available_amount >= amount
            &&& s.fees.total_fee == total_fee_spec(
                amount as int,
                reserve.config.flash_loan_fee_bps as int,
            )
            &&& s.fees.total_fee == s.fees.protocol_fee + s.fees.host_fee
            &&& s.repay_amount == amount + s.fees.total_fee
            &&& final_supply_balance >= initial_supply_balance + s.fees.total_fee
            &&& s.reserve_after.liquidity.available_amount == reserve.liquidity.available_amount
                + s.fees.total_fee - s.fees.protocol_fee - (if host_fee_receiver_present {
                s.fees.host_fee as int
            } else {
                0int
            })
            &&& s.reserve_after.config == reserve.config
            &&& s.reserve_after.lending_market == reserve.lending_market
        },
        r matches Err(e) ==> e == LendingError::InvalidAmount || e
            == LendingError::InsufficientLiquidity || e == LendingError::MathOverflow || e
            == LendingError::FlashLoanNotRepaid,
{
    if amount == 0 {
        return Err(LendingError::InvalidAmount);
    }
    if reserve.liquidity.available_amount < amount {
        return Err(LendingError::InsufficientLiquidity);
    }
    let fees = match reserve.calculate_flash_loan_fees(amount) {
        Ok(f) => f,
        Err(e) => {
            return Err(e);
        },
    };
    let repay_amount = match amount.checked_add(fees.total_fee) {
        Some(v) => v,
        None => {
            return Err(LendingError::MathOverflow);
        },
    };
    // after disbursement the supply must come back with the fee on top
    let expected_balance = match initial_supply_balance.checked_add(fees.total_fee) {
        Some(v) => v,
        None => {
            return Err(LendingError::MathOverflow);
        },
    };
    if final_supply_balance < expected_balance {
        return Err(LendingError::FlashLoanNotRepaid);
    }
    // disburse the principal, take repayment with the fee, pay the shares out
    let after_disburse = reserve.liquidity.available_amount - amount;
    let after_repay = match after_disburse.checked_add(repay_amount) {
        Some(v) => v,
        None => {
            return Err(LendingError::MathOverflow);
        },
    };
    let after_protocol = after_repay - fees.protocol_fee;
    let final_available = if host_fee_receiver_present {
        after_protocol - fees.host_fee
    } else {
        after_protocol
    };
    let reserve_after = Reserve {
        version: reserve.version,
        lending_market: reserve.lending_market,
        liquidity: ReserveLiquidity {
            mint_pubkey: reserve.liquidity.mint_pubkey,
            supply_pubkey: reserve.liquidity.supply_pubkey,
            available_amount: final_available,
        },
        config: reserve.config,
    };
    Ok(FlashLoanSettlement { fees, repay_amount, reserve_after })
}

/// The principal behind a repayment figure under the canonical 9 bps flash
/// fee: `repay * 10000 / 10009`.
pub open spec fn borrowed_amount_spec(repay_amount: int) -> int {
    repay_amount * 10_000 / 10_009
}

/// Recovers the borrowed principal from a repayment amount that includes the
/// canonical 9 bps flash-loan fee.
pub fn calculate_borrowed_amount(repay_amount: u64) -> (r: u64)
    ensures
        r == borrowed_amount_spec(repay_amount as int),
        r <= repay_amount,
{
    proof {
        lemma_mul_upper_bound(repay_amount as int, u64::MAX as int, 10_000int, 10_000int);
        lemma_mul_nonnegative(repay_amount as int, 10_000int);
        lemma_div_pos_is_pos(repay_amount as int * 10_000, 10_009int);
        lemma_mul_is_commutative(repay_amount as int, 10_000int);
        crate::numeric::lemma_mul_div_le(10_000int, repay_amount as int, 10_009int);
    }
    ((repay_amount as u128) * 10_000 / 10_009) as u64
}

// ----------------------------------------------------------------------------
// Closed-form round-trip simulation
// ----------------------------------------------------------------------------

/// Result of simulating a flash-loan round trip under the closed-form model.
#[derive(Clone, Debug)]
pub struct SimulationResult {
    pub would_succeed: bool,
    pub loan_amount: u64,
    /// The quote received back after both swaps (gross).
    pub expected_profit: u64,
    pub flash_loan_fee: u64,
    pub swap_fees: u64,
    pub total_fees: u64,
    pub net_profit: u64,
    pub pool_a: Key,
    pub pool_b: Key,
    /// Free-form verdict.
    pub reason: String,
}

/// The quote received after the two-leg round trip under the closed-form
/// model: the loan reduced by each leg's fee, then exchanged at the two
/// prices — `L * (1-f)^2 * price_b / price_a` in integer arithmetic.
pub open spec fn closed_form_received_spec(
    loan: int,
    swap_fee_bps: int,
    price_a: int,
    price_b: int,
) -> int {
    let t1 = loan * (10_000 - swap_fee_bps) / 10_000;
    let t2 = t1 * (10_000 - swap_fee_bps) / 10_000;
    t2 * price_b / price_a
}

/// The repayment owed on a flash loan: principal plus the rate.
pub open spec fn repayment_spec(loan: int, flash_rate_ppm: int) -> int {
    loan + loan * flash_rate_ppm / 1_000_000
}

/// When the simulation overflows and reports nothing: the fee sum or the
/// received quote exceeds 64 bits, or scaling the loan by the sell price
/// exceeds 128 bits.
pub open spec fn sim_rejects(
    loan: int,
    price_a: int,
    price_b: int,
    swap_fee_bps: int,
    flash_rate_ppm: int,
) -> bool {
    let t2 = crate::numeric::fee_reduced_spec(
        crate::numeric::fee_reduced_spec(loan, swap_fee_bps),
        swap_fee_bps,
    );
    ||| (loan - t2) + flash_fee_spec(loan, flash_rate_ppm) > u64::MAX
    ||| t2 * price_b > u128::MAX
    ||| closed_form_received_spec(loan, swap_fee_bps, price_a, price_b) > u64::MAX
}

/// Simulates the round trip of `opportunity.loan_amount` through its two
/// pools under the closed-form model with the given swap fee and flash rate;
/// succeeds exactly when the quote received covers the repayment, with the
/// profit figures as the model gives them. `None` when the received quote
/// overflows 128 bits (no verdict can be trusted then).
pub fn simulate_flash_loan_detailed(
    loan_amount: u64,
    price_a: u128,
    price_b: u128,
    pool_a: Key,
    pool_b: Key,
    swap_fee_bps: u16,
    flash_rate_ppm: u64,
) -> (r: Option<SimulationResult>)
    requires
        swap_fee_bps < 10_000,
        flash_rate_ppm <= PPM,
        price_a > 0,
    ensures
        r is None <==> sim_rejects(
            loan_amount as int,
            price_a as int,
            price_b as int,
            swap_fee_bps as int,
            flash_rate_ppm as int,
        ),
        r matches Some(sim) ==> {
            let received = closed_form_received_spec(
                loan_amount as int,
                swap_fee_bps as int,
                price_a as int,
                price_b as int,
            );
            let repay = repayment_spec(loan_amount as int, flash_rate_ppm as int);
            let t2 = crate::numeric::fee_reduced_spec(
                crate::numeric::fee_reduced_spec(loan_amount as int, swap_fee_bps as int),
                swap_fee_bps as int,
            );
            &&& sim.loan_amount == loan_amount
            &&& sim.flash_loan_fee == loan_amount * flash_rate_ppm as int / 1_000_000
            &&& sim.swap_fees == loan_amount - t2
            &&& sim.total_fees == sim.swap_fees + sim.flash_loan_fee
            &&& sim.expected_profit == received
            &&& sim.would_succeed == (received > repay)
            &&& sim.would_succeed ==> sim.net_profit == received - repay && sim.net_profit > 0
            &&& !sim.would_succeed ==> sim.net_profit == 0
            &&& sim.pool_a == pool_a && sim.pool_b == pool_b
        },
{
    let t1 = crate::profit::swap_fee_complement(loan_amount, swap_fee_bps);
    let t2 = crate::profit::swap_fee_complement(t1, swap_fee_bps);
    let swap_fees = (loan_amount - t1) + (t1 - t2);
    let flash_loan_fee = crate::profit::flash_fee(loan_amount, flash_rate_ppm);
    let total_fees = match swap_fees.checked_add(flash_loan_fee) {
        Some(v) => v,
        None => {
            return None;
        },
    };
    let received_wide = match (t2 as u128).checked_mul(price_b) {
        Some(v) => v,
        None => {
            return None;
        },
    };
    let received: u128 = received_wide / price_a;
    let repay: u128 = (loan_amount as u128) + (flash_loan_fee as u128);
    let (would_succeed, net_profit, reason) = if received > repay {
        let margin: u128 = received - repay;
        if margin > u64::MAX as u128 {
            return None;
        }
        (true, margin as u64, String::from_str("profitable after fees and repayment"))
    } else {
        (false, 0u64, String::from_str("not profitable: received does not cover repayment"))
    };
    let gross: u64 = if received > u64::MAX as u128 {
        return None;
    } else {
        received as u64
    };
    Some(
        SimulationResult {
            would_succeed,
            loan_amount,
            expected_profit: gross,
            flash_loan_fee,
            swap_fees,
            total_fees,
            net_profit,
            pool_a,
            pool_b,
            reason,
        },
    )
}


// ----------------------------------------------------------------------------
// Account byte layouts
// ----------------------------------------------------------------------------

/// Serialized length of a lending market: version, bump seed, owner and quote
/// currency keys.
pub const LENDING_MARKET_LEN: usize = 66;

/// Serialized length of a reserve: version, market key, two liquidity keys,
/// the available amount and the two fee rates, and padding.
pub const RESERVE_LEN: usize = 233;

/// The sixteen-plus-sixteen big-endian bytes of a 32-byte key.
pub open spec fn key_bytes_spec(k: Key) -> Seq<u8> {
    be_bytes16(k.hi) + be_bytes16(k.lo)
}

/// The byte layout of a lending market account.
pub open spec fn lending_market_bytes_spec(m: LendingMarket) -> Seq<u8> {
    seq![m.version, m.bump_seed] + key_bytes_spec(m.owner) + key_bytes_spec(m.quote_currency)
}

/// The key at offset `off` of a serialized account.
pub open spec fn key_from_bytes_spec(s: Seq<u8>, off: int) -> Key {
    Key {
        hi: u128_from_be_spec(s.subrange(off, off + 16)) as u128,
        lo: u128_from_be_spec(s.subrange(off + 16, off + 32)) as u128,
    }
}

/// The lending market a serialized account holds.
pub open spec fn lending_market_from_bytes_spec(s: Seq<u8>) -> LendingMarket {
    LendingMarket {
        version: s[0],
        bump_seed: s[1],
        owner: key_from_bytes_spec(s, 2),
        quote_currency: key_from_bytes_spec(s, 34),
    }
}

/// Reading back a serialized key gives the key.
proof fn lemma_key_bytes_round_trip(k: Key, s: Seq<u8>, off: int)
    requires
        0 <= off,
        off + 32 <= s.len(),
        s.subrange(off, off + 32) == key_bytes_spec(k),
    ensures
        key_from_bytes_spec(s, off) == k,
{
    let w = s.subrange(off, off + 32);
    assert(forall|i: int| 0 <= i < 32 ==> w[i] == s[off + i]);
    assert(forall|i: int| 0 <= i < 16 ==> #[trigger] be_bytes16(k.hi)[i] == w[i]);
    assert(forall|i: int| 0 <= i < 16 ==> #[trigger] be_bytes16(k.lo)[i] == w[16 + i]);
    assert(s.subrange(off, off + 16) =~= be_bytes16(k.hi));
    assert(s.subrange(off + 16, off + 32) =~= be_bytes16(k.lo));
    lemma_u128_be_round_trip(k.hi);
    lemma_u128_be_round_trip(k.lo);
}

/// Unpacking a packed lending market gives the market back.
pub proof fn lemma_lending_market_round_trip(m: LendingMarket)
    ensures
        lending_market_from_bytes_spec(lending_market_bytes_spec(m)) == m,
{
    let s = lending_market_bytes_spec(m);
    assert(s.subrange(2, 34) =~= key_bytes_spec(m.owner));
    assert(s.subrange(34, 66) =~= key_bytes_spec(m.quote_currency));
    lemma_key_bytes_round_trip(m.owner, s, 2);
    lemma_key_bytes_round_trip(m.quote_currency, s, 34);
}

/// Appends the thirty-two big-endian bytes of a key.
fn push_key(buf: &mut Vec<u8>, k: Key)
    ensures
        final(buf)@ == old(buf)@ + key_bytes_spec(k),
{
    let ghost base = buf@;
    push_u128_be(buf, k.hi);
    push_u128_be(buf, k.lo);
    proof {
        assert(buf@ =~= base + key_bytes_spec(k));
    }
}

/// Reads a key at offset `off`.
fn read_key(src: &[u8], off: usize) -> (r: Key)
    requires
        off + 32 <= src@.len(),
        off + 32 <= usize::MAX,
    ensures
        r == key_from_bytes_spec(src@, off as int),
{
    let hi = read_u128_be(src, off);
    let lo = read_u128_be(src, off + 16);
    Key { hi, lo }
}

impl LendingMarket {
    /// Serializes the market into its account byte layout.
    pub fn pack_into_vec(&self) -> (r: Vec<u8>)
        ensures
            r@ == lending_market_bytes_spec(*self),
            r@.len() == LENDING_MARKET_LEN,
    {
        let mut buf: Vec<u8> = Vec::new();
        buf.push(self.version);
        buf.push(self.bump_seed);
        let ghost two = buf@;
        proof {
            assert(two =~= seq![self.version, self.bump_seed]);
        }
        push_key(&mut buf, self.owner);
        push_key(&mut buf, self.quote_currency);
        proof {
            assert(buf@ =~= lending_market_bytes_spec(*self));
        }
        buf
    }

    /// Parses an account's bytes back into a market; an account shorter than
    /// the layout is invalid.
    pub fn unpack_from_slice(src: &[u8]) -> (r: Result<LendingMarket, LendingError>)
        ensures
            src@.len() >= LENDING_MARKET_LEN ==> r == Ok::<LendingMarket, LendingError>(
                lending_market_from_bytes_spec(src@),
            ),
            src@.len() < LENDING_MARKET_LEN ==> r == Err::<LendingMarket, LendingError>(
                LendingError::InvalidAccountData,
            ),
    {
        if src.len() < LENDING_MARKET_LEN {
            return Err(LendingError::InvalidAccountData);
        }
        Ok(
            LendingMarket {
                version: src[0],
                bump_seed: src[1],
                owner: read_key(src, 2),
                quote_currency: read_key(src, 34),
            },
        )
    }
}

/// The byte layout of a reserve account: the scalar fields, then padding.
pub open spec fn reserve_bytes_spec(r: Reserve) -> Seq<u8> {
    seq![r.version] + key_bytes_spec(r.lending_market) + key_bytes_spec(r.liquidity.mint_pubkey)
        + key_bytes_spec(r.liquidity.supply_pubkey) + le_bytes8(r.liquidity.available_amount)
        + le_bytes8(r.config.flash_loan_fee_bps) + le_bytes8(r.config.protocol_flash_loan_fee_bps)
        + Seq::new(112, |i: int| 0u8)
}

/// The reserve a serialized account holds.
pub open spec fn reserve_from_bytes_spec(s: Seq<u8>) -> Reserve {
    Reserve {
        version: s[0],
        lending_market: key_from_bytes_spec(s, 1),
        liquidity: ReserveLiquidity {
            mint_pubkey: key_from_bytes_spec(s, 33),
            supply_pubkey: key_from_bytes_spec(s, 65),
            available_amount: u64_from_le_spec(s.subrange(97, 105)) as u64,
        },
        config: ReserveConfig {
            flash_loan_fee_bps: u64_from_le_spec(s.subrange(105, 113)) as u64,
            protocol_flash_loan_fee_bps: u64_from_le_spec(s.subrange(113, 121)) as u64,
        },
    }
}

/// Unpacking a packed reserve gives the reserve back.
pub proof fn lemma_reserve_round_trip(r: Reserve)
    ensures
        reserve_from_bytes_spec(reserve_bytes_spec(r)) == r,
{
    let s = reserve_bytes_spec(r);
    assert(s.subrange(1, 33) =~= key_bytes_spec(r.lending_market));
    assert(s.subrange(33, 65) =~= key_bytes_spec(r.liquidity.mint_pubkey));
    assert(s.subrange(65, 97) =~= key_bytes_spec(r.liquidity.supply_pubkey));
    assert(s.subrange(97, 105) =~= le_bytes8(r.liquidity.available_amount));
    assert(s.subrange(105, 113) =~= le_bytes8(r.config.flash_loan_fee_bps));
    assert(s.subrange(113, 121) =~= le_bytes8(r.config.protocol_flash_loan_fee_bps));
    lemma_key_bytes_round_trip(r.lending_market, s, 1);
    lemma_key_bytes_round_trip(r.liquidity.mint_pubkey, s, 33);
    lemma_key_bytes_round_trip(r.liquidity.supply_pubkey, s, 65);
    lemma_u64_le_round_trip(r.liquidity.available_amount);
    lemma_u64_le_round_trip(r.config.flash_loan_fee_bps);
    lemma_u64_le_round_trip(r.config.protocol_flash_loan_fee_bps);
}

impl Reserve {
    /// Serializes the reserve into its account byte layout.
    pub fn pack_into_vec(&self) -> (r: Vec<u8>)
        ensures
            r@ == reserve_bytes_spec(*self),
            r@.len() == RESERVE_LEN,
    {
        let mut buf: Vec<u8> = Vec::new();
        buf.push(self.version);
        proof {
            assert(buf@ =~= seq![self.version]);
        }
        push_key(&mut buf, self.lending_market);
        push_key(&mut buf, self.liquidity.mint_pubkey);
        push_key(&mut buf, self.liquidity.supply_pubkey);
        push_u64_le(&mut buf, self.liquidity.available_amount);
        push_u64_le(&mut buf, self.config.flash_loan_fee_bps);
        push_u64_le(&mut buf, self.config.protocol_flash_loan_fee_bps);
        let ghost packed = buf@;
        let mut pad: usize = 0;
        while pad < 112
            invariant
                pad <= 112,
                buf@ == packed + Seq::new(pad as nat, |i: int| 0u8),
            decreases 112 - pad,
        {
            buf.push(0u8);
            pad = pad + 1;
            proof {
                assert(buf@ =~= packed + Seq::new(pad as nat, |i: int| 0u8));
            }
        }
        proof {
            assert(buf@ =~= reserve_bytes_spec(*self));
        }
        buf
    }

    /// Parses an account's bytes back into a reserve; an account shorter than
    /// the layout is invalid.
    pub fn unpack_from_slice(src: &[u8]) -> (r: Result<Reserve, LendingError>)
        ensures
            src@.len() >= RESERVE_LEN ==> r == Ok::<Reserve, LendingError>(
                reserve_from_bytes_spec(src@),
            ),
            src@.len() < RESERVE_LEN ==> r == Err::<Reserve, LendingError>(
                LendingError::InvalidAccountData,
            ),
    {
        if src.len() < RESERVE_LEN {
            return Err(LendingError::InvalidAccountData);
        }
        Ok(
            Reserve {
                version: src[0],
                lending_market: read_key(src, 1),
                liquidity: ReserveLiquidity {
                    mint_pubkey: read_key(src, 33),
                    supply_pubkey: read_key(src, 65),
                    available_amount: read_u64_le(src, 97),
                },
                config: ReserveConfig {
                    flash_loan_fee_bps: read_u64_le(src, 105),
                    protocol_flash_loan_fee_bps: read_u64_le(src, 113),
                },
            },
        )
    }
}

} // verus!
