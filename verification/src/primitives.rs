//! Types shared by all protocol modules: currencies, trading pairs, leverages and the
//! conversions between balances and prices.
use vstd::prelude::*;
use crate::fixed::{Fixed, Price, UFixed, ACCURACY};
use crate::table::TableKey;

verus! {

/// An index to a block.
pub type BlockNumber = u32;

/// An instant or duration in time.
pub type Moment = u64;

/// Balance of an account.
pub type Balance = u128;

/// Signed version of `Balance`.
pub type Amount = i128;

/// Identifier of a liquidity pool.
pub type LiquidityPoolId = u32;

/// Identifier of an account.
pub type AccountId = u64;

pub type AuctionId = u32;

pub type Share = u128;

pub type AccountIndex = u32;

pub type Nonce = u32;

pub type EraIndex = u32;

/// The accuracy of balances: one unit is `10^18`.
pub const BALANCE_ACCURACY: u128 = 1_000_000_000_000_000_000u128;

/// Currencies known to the protocols.
#[derive(Clone, Copy, Debug, PartialEq, Eq, Structural)]
pub enum CurrencyId {
    LAMI,
    AUSD,
    FEUR,
    FJPY,
    FBTC,
    FETH,
    FAUD,
    FCAD,
    FCHF,
    FXAU,
    FOIL,
}

impl TableKey for CurrencyId {
    fn key_eq(&self, other: &Self) -> (r: bool) {
        *self == *other
    }
}

/// Trading pair.
#[derive(Clone, Copy, Debug, PartialEq, Eq, Structural)]
pub struct TradingPair {
    /// The base currency.
    pub base: CurrencyId,
    /// The quote currency.
    pub quote: CurrencyId,
}

impl TableKey for TradingPair {
    fn key_eq(&self, other: &Self) -> (r: bool) {
        *self == *other
    }
}

/// Oracle data providers.
#[derive(Clone, Copy, Debug, PartialEq, Eq, Structural)]
pub enum DataProviderId {
    Aggregated,
    Laminar,
    Band,
}

/// A leverage of a position: the direction and the multiplier.
#[derive(Clone, Copy, Debug, PartialEq, Eq, Structural)]
pub enum Leverage {
    LongTwo,
    LongThree,
    LongFive,
    LongTen,
    LongTwenty,
    LongThirty,
    LongFifty,
    LongReserved,
    ShortTwo,
    ShortThree,
    ShortFive,
    ShortTen,
    ShortTwenty,
    ShortThirty,
    ShortFifty,
    ShortReserved,
}

/// The position of a leverage in the mask, from the lowest bit.
pub open spec fn leverage_index(l: Leverage) -> nat {
    match l {
        Leverage::LongTwo => 0,
        Leverage::LongThree => 1,
        Leverage::LongFive => 2,
        Leverage::LongTen => 3,
        Leverage::LongTwenty => 4,
        Leverage::LongThirty => 5,
        Leverage::LongFifty => 6,
        Leverage::LongReserved => 7,
        Leverage::ShortTwo => 8,
        Leverage::ShortThree => 9,
        Leverage::ShortFive => 10,
        Leverage::ShortTen => 11,
        Leverage::ShortTwenty => 12,
        Leverage::ShortThirty => 13,
        Leverage::ShortFifty => 14,
        Leverage::ShortReserved => 15,
    }
}

/// The leverage at a bit position, for positions below 16.
pub open spec fn leverage_at(i: nat) -> Leverage {
    if i == 0 {
        Leverage::LongTwo
    } else if i == 1 {
        Leverage::LongThree
    } else if i == 2 {
        Leverage::LongFive
    } else if i == 3 {
        Leverage::LongTen
    } else if i == 4 {
        Leverage::LongTwenty
    } else if i == 5 {
        Leverage::LongThirty
    } else if i == 6 {
        Leverage::LongFifty
    } else if i == 7 {
        Leverage::LongReserved
    } else if i == 8 {
        Leverage::ShortTwo
    } else if i == 9 {
        Leverage::ShortThree
    } else if i == 10 {
        Leverage::ShortFive
    } else if i == 11 {
        Leverage::ShortTen
    } else if i == 12 {
        Leverage::ShortTwenty
    } else if i == 13 {
        Leverage::ShortThirty
    } else if i == 14 {
        Leverage::ShortFifty
    } else {
        Leverage::ShortReserved
    }
}

/// The flag of a leverage in a `Leverages` mask: one bit per leverage.
pub open spec fn leverage_bits(l: Leverage) -> u16 {
    (1u16 << leverage_index(l)) as u16
}

/// A leverage is short when it is one of the `Short*` variants.
pub open spec fn spec_is_short(l: Leverage) -> bool {
    leverage_index(l) >= 8
}

/// The multiplier of a leverage.
pub open spec fn spec_leverage_value(l: Leverage) -> u8 {
    match l {
        Leverage::LongTwo | Leverage::ShortTwo => 2,
        Leverage::LongThree | Leverage::ShortThree => 3,
        Leverage::LongFive | Leverage::ShortFive => 5,
        Leverage::LongTen | Leverage::ShortTen => 10,
        Leverage::LongTwenty | Leverage::ShortTwenty => 20,
        Leverage::LongThirty | Leverage::ShortThirty => 30,
        Leverage::LongFifty | Leverage::ShortFifty => 50,
        Leverage::LongReserved | Leverage::ShortReserved => 100,
    }
}

/// Errors of decoding a leverage or a leverage mask.
#[derive(Clone, Copy, Debug, PartialEq, Eq, Structural)]
pub enum DecodeError {
    /// The input ended early.
    NotEnoughData,
    /// The byte names no leverage.
    Overflow,
}

impl Leverage {
    pub fn is_short(&self) -> (r: bool)
        ensures
            r == spec_is_short(*self),
    {
        match *self {
            Leverage::ShortTwo | Leverage::ShortThree | Leverage::ShortFive | Leverage::ShortTen
            | Leverage::ShortTwenty | Leverage::ShortThirty | Leverage::ShortFifty
            | Leverage::ShortReserved => true,
            _ => false,
        }
    }

    pub fn is_long(&self) -> (r: bool)
        ensures
            r == !spec_is_short(*self),
    {
        !self.is_short()
    }

    pub fn value(&self) -> (r: u8)
        ensures
            r == spec_leverage_value(*self),
    {
        match *self {
            Leverage::LongTwo | Leverage::ShortTwo => 2,
            Leverage::LongThree | Leverage::ShortThree => 3,
            Leverage::LongFive | Leverage::ShortFive => 5,
            Leverage::LongTen | Leverage::ShortTen => 10,
            Leverage::LongTwenty | Leverage::ShortTwenty => 20,
            Leverage::LongThirty | Leverage::ShortThirty => 30,
            Leverage::LongFifty | Leverage::ShortFifty => 50,
            Leverage::LongReserved | Leverage::ShortReserved => 100,
        }
    }

    /// The bit position of this leverage in a mask: the number of trailing zeros of its flag.
    pub fn index(&self) -> (r: u8)
        ensures
            r == leverage_index(*self),
    {
        match *self {
            Leverage::LongTwo => 0,
            Leverage::LongThree => 1,
            Leverage::LongFive => 2,
            Leverage::LongTen => 3,
            Leverage::LongTwenty => 4,
            Leverage::LongThirty => 5,
            Leverage::LongFifty => 6,
            Leverage::LongReserved => 7,
            Leverage::ShortTwo => 8,
            Leverage::ShortThree => 9,
            Leverage::ShortFive => 10,
            Leverage::ShortTen => 11,
            Leverage::ShortTwenty => 12,
            Leverage::ShortThirty => 13,
            Leverage::ShortFifty => 14,
            Leverage::ShortReserved => 15,
        }
    }

    /// The flag of this leverage in a mask.
    pub fn bits(&self) -> (r: u16)
        ensures
            r == leverage_bits(*self),
    {
        let i = self.index();
        1u16 << i
    }

    /// The leverage at a bit position.
    pub fn from_index(i: u8) -> (r: Option<Leverage>)
        ensures
            i < 16 ==> r == Some(leverage_at(i as nat)),
            i >= 16 ==> r is None,
    {
        if i == 0 {
            Some(Leverage::LongTwo)
        } else if i == 1 {
            Some(Leverage::LongThree)
        } else if i == 2 {
            Some(Leverage::LongFive)
        } else if i == 3 {
            Some(Leverage::LongTen)
        } else if i == 4 {
            Some(Leverage::LongTwenty)
        } else if i == 5 {
            Some(Leverage::LongThirty)
        } else if i == 6 {
            Some(Leverage::LongFifty)
        } else if i == 7 {
            Some(Leverage::LongReserved)
        } else if i == 8 {
            Some(Leverage::ShortTwo)
        } else if i == 9 {
            Some(Leverage::ShortThree)
        } else if i == 10 {
            Some(Leverage::ShortFive)
        } else if i == 11 {
            Some(Leverage::ShortTen)
        } else if i == 12 {
            Some(Leverage::ShortTwenty)
        } else if i == 13 {
            Some(Leverage::ShortThirty)
        } else if i == 14 {
            Some(Leverage::ShortFifty)
        } else if i == 15 {
            Some(Leverage::ShortReserved)
        } else {
            None
        }
    }

    /// The encoding of a leverage: one byte, the bit position of its flag.
    pub fn encode(&self) -> (r: Vec<u8>)
        ensures
            r@ == seq![leverage_index(*self) as u8],
    {
        let mut v: Vec<u8> = Vec::new();
        v.push(self.index());
        v
    }

    /// Decodes a leverage from the first byte of `input`.
    pub fn decode(input: &[u8]) -> (r: Result<Leverage, DecodeError>)
        ensures
            input@.len() == 0 ==> r == Err::<Leverage, DecodeError>(DecodeError::NotEnoughData),
            input@.len() > 0 && input@[0] >= 16 ==> r == Err::<Leverage, DecodeError>(
                DecodeError::Overflow,
            ),
            input@.len() > 0 && input@[0] < 16 ==> r == Ok::<Leverage, DecodeError>(
                leverage_at(input@[0] as nat),
            ),
    {
        if input.len() == 0 {
            return Err(DecodeError::NotEnoughData);
        }
        let b = input[0];
        if b >= 16 {
            return Err(DecodeError::Overflow);
        }
        match Leverage::from_index(b) {
            Some(l) => Ok(l),
            None => Err(DecodeError::Overflow),
        }
    }
}

/// Decoding the encoding of a leverage gives the leverage back.
pub proof fn lemma_leverage_decode_encode(l: Leverage)
    ensures
        leverage_index(l) < 16,
        leverage_at(leverage_index(l)) == l,
{
}

/// Every leverage is either long or short, and short ones are the upper half of the mask.
pub proof fn lemma_leverage_direction(l: Leverage)
    ensures
        spec_is_short(l) <==> leverage_bits(l) >= 0x100,
        !spec_is_short(l) <==> leverage_bits(l) <= 0x80,
{
    match l {
        Leverage::LongTwo => assert((1u16 << 0u16) == 1) by (bit_vector),
        Leverage::LongThree => assert((1u16 << 1u16) == 2) by (bit_vector),
        Leverage::LongFive => assert((1u16 << 2u16) == 4) by (bit_vector),
        Leverage::LongTen => assert((1u16 << 3u16) == 8) by (bit_vector),
        Leverage::LongTwenty => assert((1u16 << 4u16) == 16) by (bit_vector),
        Leverage::LongThirty => assert((1u16 << 5u16) == 32) by (bit_vector),
        Leverage::LongFifty => assert((1u16 << 6u16) == 64) by (bit_vector),
        Leverage::LongReserved => assert((1u16 << 7u16) == 128) by (bit_vector),
        Leverage::ShortTwo => assert((1u16 << 8u16) == 256) by (bit_vector),
        Leverage::ShortThree => assert((1u16 << 9u16) == 512) by (bit_vector),
        Leverage::ShortFive => assert((1u16 << 10u16) == 1024) by (bit_vector),
        Leverage::ShortTen => assert((1u16 << 11u16) == 2048) by (bit_vector),
        Leverage::ShortTwenty => assert((1u16 << 12u16) == 4096) by (bit_vector),
        Leverage::ShortThirty => assert((1u16 << 13u16) == 8192) by (bit_vector),
        Leverage::ShortFifty => assert((1u16 << 14u16) == 16384) by (bit_vector),
        Leverage::ShortReserved => assert((1u16 << 15u16) == 32768) by (bit_vector),
    }
}

/// A set of leverages, one bit each.
#[derive(Clone, Copy, Debug, PartialEq, Eq, Structural)]
pub struct Leverages {
    pub bits: u16,
}

impl Leverages {
    /// No leverage.
    pub fn none() -> (r: Leverages)
        ensures
            r.bits == 0,
    {
        Leverages { bits: 0 }
    }

    /// All leverages.
    pub fn all() -> (r: Leverages)
        ensures
            r.bits == 0xffff,
    {
        Leverages { bits: 0xffff }
    }

    /// The set of one leverage.
    pub fn from_leverage(l: Leverage) -> (r: Leverages)
        ensures
            r.bits == leverage_bits(l),
    {
        Leverages { bits: l.bits() }
    }

    /// This set together with one more leverage.
    pub fn with(&self, l: Leverage) -> (r: Leverages)
        ensures
            r.bits == self.bits | leverage_bits(l),
    {
        Leverages { bits: self.bits | l.bits() }
    }

    /// The union of two sets.
    pub fn union(&self, other: &Leverages) -> (r: Leverages)
        ensures
            r.bits == self.bits | other.bits,
    {
        Leverages { bits: self.bits | other.bits }
    }

    /// Whether `l` is in the set.
    pub fn contains(&self, l: Leverage) -> (r: bool)
        ensures
            r == (self.bits & leverage_bits(l) != 0),
    {
        self.bits & l.bits() != 0
    }

    /// The encoding of a mask: its bits, little-endian.
    pub fn encode(&self) -> (r: Vec<u8>)
        ensures
            r@ == seq![(self.bits & 0xff) as u8, (self.bits >> 8u16) as u8],
    {
        let mut v: Vec<u8> = Vec::new();
        v.push((self.bits & 0xff) as u8);
        v.push((self.bits >> 8) as u8);
        v
    }

    /// Decodes a mask from the first two bytes of `input`.
    pub fn decode(input: &[u8]) -> (r: Result<Leverages, DecodeError>)
        ensures
            input@.len() < 2 ==> r == Err::<Leverages, DecodeError>(DecodeError::NotEnoughData),
            input@.len() >= 2 ==> r == Ok::<Leverages, DecodeError>(
                Leverages { bits: (input@[0] as u16 | ((input@[1] as u16) << 8u16)) as u16 },
            ),
    {
        if input.len() < 2 {
            return Err(DecodeError::NotEnoughData);
        }
        let lo = input[0] as u16;
        let hi = input[1] as u16;
        Ok(Leverages { bits: lo | (hi << 8) })
    }
}

/// Decoding the encoding of a mask gives the mask back.
pub proof fn lemma_leverages_decode_encode(m: Leverages)
    ensures
        ((((m.bits & 0xff) as u8) as u16) | ((((m.bits >> 8u16) as u8) as u16) << 8u16)) as u16
            == m.bits,
{
    let b = m.bits;
    assert(((((b & 0xff) as u8) as u16) | ((((b >> 8u16) as u8) as u16) << 8u16)) == b)
        by (bit_vector);
}

/// Swap accumulation configuration: accumulate every `frequency`, at `now % frequency ==
/// offset`.
#[derive(Clone, Copy, Debug, PartialEq, Eq, Structural)]
pub struct AccumulateConfig {
    /// Accumulation frequency.
    pub frequency: Moment,
    /// Accumulation time offset.
    pub offset: Moment,
}

/// A swap period.
#[derive(Clone, Copy, Debug, PartialEq, Eq, Structural)]
pub struct SwapPeriod {
    pub period: Moment,
    pub start: Moment,
}

/// Liquidity pool identity info.
#[derive(Clone, Debug, PartialEq, Eq)]
pub struct IdentityInfo {
    /// Legal name: a business entity name, or the owner's personal legal name.
    pub legal_name: Vec<u8>,
    /// Display name.
    pub display_name: Vec<u8>,
    /// Website URL.
    pub web: Vec<u8>,
    /// Email.
    pub email: Vec<u8>,
    /// Image URL.
    pub image_url: Vec<u8>,
}

/// Swap rates of the long and the short side of a trading pair.
#[derive(Clone, Copy, Debug, PartialEq, Eq, Structural)]
pub struct SwapRate {
    pub long: Fixed,
    pub short: Fixed,
}

impl SwapRate {
    pub fn zero() -> (r: SwapRate)
        ensures
            r.long.inner == 0,
            r.short.inner == 0,
    {
        SwapRate { long: Fixed::zero(), short: Fixed::zero() }
    }
}

/// Conversions between balances and prices, which share the accuracy `10^18`.
pub struct BalancePriceConverter;

impl BalancePriceConverter {
    /// A balance as a price.
    pub fn balance_to_price(balance: Balance) -> (r: Price)
        ensures
            r == spec_balance_to_price(balance),
    {
        if BALANCE_ACCURACY == ACCURACY {
            return UFixed::from_inner(balance);
        }
        match UFixed::checked_from_rational(balance, BALANCE_ACCURACY) {
            Some(p) => p,
            None => UFixed::from_inner(u128::MAX),
        }
    }

    /// A price as a balance.
    pub fn price_to_balance(price: Price) -> (r: Balance)
        ensures
            r == spec_price_to_balance(price),
    {
        let deconstructed = price.into_inner();
        if BALANCE_ACCURACY == ACCURACY {
            deconstructed
        } else if ACCURACY > BALANCE_ACCURACY {
            deconstructed / (ACCURACY / BALANCE_ACCURACY)
        } else {
            match deconstructed.checked_mul(BALANCE_ACCURACY / ACCURACY) {
                Some(v) => v,
                None => u128::MAX,
            }
        }
    }
}

/// The price a balance converts to.
pub open spec fn spec_balance_to_price(b: Balance) -> Price {
    UFixed { inner: b }
}

/// The balance a price converts to.
pub open spec fn spec_price_to_balance(p: Price) -> Balance {
    p.inner
}

/// Converting a balance to a price and back gives the balance, and the other way round.
pub proof fn lemma_balance_price_round_trip(b: Balance, p: Price)
    ensures
        spec_price_to_balance(spec_balance_to_price(b)) == b,
        spec_balance_to_price(spec_price_to_balance(p)) == p,
{
}

} // verus!
