use vstd::prelude::*;
use vstd::string::*;
use crate::encoding::{decimal_spec, decimal_string, digit_char, digit_str};

verus! {

/// Number of satoshis in one coin.
pub const SATOSHIS_PER_COIN: u64 = 100_000_000;

/// An amount of currency, counted in satoshis.
#[derive(Debug, Clone, Copy, PartialEq, Eq, Structural, PartialOrd, Ord)]
pub struct Amount(u64);

/// Why an amount could not be formed or combined.
#[derive(Debug)]
pub enum AmountError {
    Overflow,
    NonPositive,
    ParseError(String),
}

impl View for Amount {
    type V = u64;

    closed spec fn view(&self) -> u64 {
        self.0
    }
}

impl Amount {
    /// Two amounts with the same number of satoshis are the same amount.
    pub proof fn lemma_view_injective(a: Amount, b: Amount)
        ensures
            a@ == b@ <==> a == b,
    {
    }

    /// An amount of exactly `satoshis` satoshis.
    pub fn from_satoshis(satoshis: u64) -> (res: Self)
        ensures
            res@ == satoshis,
    {
        Amount(satoshis)
    }

    /// The number of satoshis in this amount.
    pub fn satoshis(&self) -> (res: u64)
        ensures
            res == self@,
    {
        self.0
    }

    pub fn is_zero(&self) -> (res: bool)
        ensures
            res == (self@ == 0),
    {
        self.0 == 0
    }

    /// The sum of two amounts, or `Overflow` where it does not fit in a `u64`.
    pub fn checked_add(&self, other: Amount) -> (res: Result<Amount, AmountError>)
        ensures
            match res {
                Ok(sum) => self@ + other@ <= u64::MAX && sum@ == self@ + other@,
                Err(e) => self@ + other@ > u64::MAX && e is Overflow,
            },
    {
        match self.0.checked_add(other.0) {
            Some(s) => Ok(Amount(s)),
            None => Err(AmountError::Overflow),
        }
    }

    /// The difference of two amounts, or `NonPositive` where `other` is larger.
    pub fn checked_sub(&self, other: Amount) -> (res: Result<Amount, AmountError>)
        ensures
            match res {
                Ok(diff) => other@ <= self@ && diff@ == self@ - other@,
                Err(e) => other@ > self@ && e is NonPositive,
            },
    {
        match self.0.checked_sub(other.0) {
            Some(d) => Ok(Amount(d)),
            None => Err(AmountError::NonPositive),
        }
    }
}


/// Ten to the power `k`.
pub open spec fn pow10(k: nat) -> nat
    decreases k,
{
    if k == 0 {
        1
    } else {
        10 * pow10((k - 1) as nat)
    }
}

proof fn lemma_pow10_positive(k: nat)
    ensures
        pow10(k) >= 1,
    decreases k,
{
    if k > 0 {
        lemma_pow10_positive((k - 1) as nat);
    }
}

/// The eight decimal digits of a fraction of a coin, `frac` satoshis.
pub open spec fn fraction_digits(frac: nat) -> Seq<char> {
    Seq::new(8, |i: int| digit_char(((frac / pow10((7 - i) as nat)) % 10) as int))
}

/// An amount in coins with eight decimals, such as "1.50000000".
pub open spec fn coin_text(satoshis: u64) -> Seq<char> {
    decimal_spec((satoshis / SATOSHIS_PER_COIN) as nat) + "."@ + fraction_digits(
        (satoshis % SATOSHIS_PER_COIN) as nat,
    )
}

/// The text of an amount error.
pub open spec fn amount_error_text(e: AmountError) -> Seq<char> {
    match e {
        AmountError::Overflow => "amount overflow"@,
        AmountError::NonPositive => "amount must be positive"@,
        AmountError::ParseError(msg) => "parse error: "@ + msg@,
    }
}

impl Amount {
    /// The amount in coins with eight decimals, such as "1.50000000".
    pub fn to_coin_string(&self) -> (res: String)
        ensures
            res@ == coin_text(self@),
    {
        let whole = self.0 / SATOSHIS_PER_COIN;
        let frac = self.0 % SATOSHIS_PER_COIN;
        let mut text = decimal_string(whole);
        text.append(".");
        let ghost prefix = text@;
        let mut divisor: u64 = 10_000_000;
        let mut i: usize = 0;
        proof {
            reveal_with_fuel(pow10, 8);
        }
        while i < 8
            invariant
                i <= 8,
                frac < SATOSHIS_PER_COIN,
                i < 8 ==> divisor == pow10((7 - i) as nat),
                prefix == decimal_spec(whole as nat) + "."@,
                text@ == prefix + fraction_digits(frac as nat).take(i as int),
            decreases 8 - i,
        {
            proof {
                lemma_pow10_positive((7 - i) as nat);
            }
            let d = (frac / divisor) % 10;
            text.append(digit_str(d));
            proof {
                assert(fraction_digits(frac as nat).take(i + 1) =~= fraction_digits(
                    frac as nat,
                ).take(i as int).push(digit_char(d as int)));
            }
            divisor = divisor / 10;
            i += 1;
        }
        proof {
            assert(fraction_digits(frac as nat).take(8) =~= fraction_digits(frac as nat));
        }
        text
    }
}

impl AmountError {
    /// The text of this error.
    pub fn message(&self) -> (res: String)
        ensures
            res@ == amount_error_text(*self),
    {
        match self {
            AmountError::Overflow => String::from_str("amount overflow"),
            AmountError::NonPositive => String::from_str("amount must be positive"),
            AmountError::ParseError(msg) => {
                let mut text = String::from_str("parse error: ");
                text.append(msg.as_str());
                text
            },
        }
    }
}

}
