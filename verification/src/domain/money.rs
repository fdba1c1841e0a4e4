use vstd::prelude::*;

verus! {

/// The largest magnitude of a decimal mantissa: 2^96 - 1.
pub const MAX_MANTISSA: i128 = 0xFFFF_FFFF_FFFF_FFFF_FFFF_FFFF;

/// The largest number of decimal places a decimal amount carries.
pub const MAX_DECIMAL_SCALE: u32 = 28;

/// 10 to the power `n`.
pub open spec fn pow10(n: nat) -> int
    decreases n,
{
    if n == 0 {
        1
    } else {
        10 * pow10((n - 1) as nat)
    }
}

/// The absolute value of an integer.
pub open spec fn abs(x: int) -> int {
    if x < 0 {
        -x
    } else {
        x
    }
}

/// A decimal `mantissa / 10^scale` that a decimal number can hold.
pub open spec fn decimal_in_range(mantissa: int, scale: int) -> bool {
    -MAX_MANTISSA <= mantissa <= MAX_MANTISSA && 0 <= scale <= MAX_DECIMAL_SCALE
}

/// The scale left once the trailing zeros of `mantissa / 10^scale` are stripped; zero has
/// scale 0.
pub open spec fn normalized_scale(mantissa: int, scale: nat) -> nat
    decreases scale,
{
    if mantissa == 0 {
        0
    } else if scale > 0 && mantissa % 10 == 0 {
        normalized_scale(mantissa / 10, (scale - 1) as nat)
    } else {
        scale
    }
}

/// What `rust_decimal` parses `text` into: `Ok((mantissa, scale))` for the number
/// `mantissa / 10^scale`, or `Err` with the text of its error.
pub uninterp spec fn decimal_parse(text: Seq<char>) -> Result<(int, int), Seq<char>>;

/// `mantissa / 10^scale` after `rust_decimal` rescales it to `new_scale` places.
pub uninterp spec fn decimal_rescale(mantissa: int, scale: int, new_scale: int) -> (int, int);

/// How `rust_decimal` displays `mantissa / 10^scale`.
pub uninterp spec fn decimal_text(mantissa: int, scale: int) -> Seq<char>;

/// The number of minor-unit decimal places of the ISO-4217 currency whose alphabetic code is
/// `code`, or `None` when `rusty_money` knows no such currency.
pub uninterp spec fn iso_currency_exponent(code: Seq<char>) -> Option<int>;

/// A decimal number `mantissa / 10^scale`.
#[derive(Clone, Copy, PartialEq, Eq, Debug, Structural)]
pub struct Amount {
    pub mantissa: i128,
    pub scale: u32,
}

impl Amount {
    /// The decimal text of this amount, as `rust_decimal` writes it.
    pub fn to_string(&self) -> (r: String)
        requires
            decimal_in_range(self.mantissa as int, self.scale as int),
        ensures
            r@ == decimal_text(self.mantissa as int, self.scale as int),
            decimal_parse(r@) is Ok && decimal_parse(r@)->Ok_0 == (
                self.mantissa as int,
                self.scale as int,
            ),
    {
        decimal_to_string(self.mantissa, self.scale)
    }
}

/// `(mantissa, scale)` can be moved to `exponent` decimal places without losing digits or
/// leaving the 96-bit range: places are dropped, or the widened mantissa still fits.
pub open spec fn representable_at(mantissa: int, scale: int, exponent: int) -> bool {
    scale >= exponent || abs(mantissa) * pow10((exponent - scale) as nat) <= MAX_MANTISSA
}

/// `money` is held at its currency's exponent and denotes the number `mantissa / 10^scale`.
pub open spec fn holds_value(money: MoneyView, mantissa: int, scale: int) -> bool {
    &&& money.scale == money.exponent
    &&& money.mantissa * pow10(scale as nat) == mantissa * pow10(money.exponent)
}

pub proof fn lemma_pow10_positive(n: nat)
    ensures
        pow10(n) > 0,
    decreases n,
{
    if n > 0 {
        lemma_pow10_positive((n - 1) as nat);
    }
}

pub proof fn lemma_pow10_add(a: nat, b: nat)
    ensures
        pow10(a + b) == pow10(a) * pow10(b),
    decreases a,
{
    if a > 0 {
        lemma_pow10_add((a - 1) as nat, b);
        assert(pow10(a + b) == 10 * pow10((a - 1 + b) as nat));
        assert(10 * (pow10((a - 1) as nat) * pow10(b)) == (10 * pow10((a - 1) as nat)) * pow10(b))
            by (nonlinear_arith);
    }
}

/// Stripping trailing zeros down to `exponent` places or fewer means the digits past
/// `exponent` places are all zero.
proof fn lemma_normalized_scale_divides(mantissa: int, scale: nat, exponent: nat)
    requires
        normalized_scale(mantissa, scale) <= exponent <= scale,
    ensures
        mantissa % pow10((scale - exponent) as nat) == 0,
    decreases scale,
{
    lemma_pow10_positive((scale - exponent) as nat);
    if exponent == scale {
        assert(pow10(0) == 1);
        vstd::arithmetic::div_mod::lemma_mod_multiples_basic(mantissa, 1);
    } else if mantissa == 0 {
        vstd::arithmetic::div_mod::lemma_mod_multiples_basic(0, pow10((scale - exponent) as nat));
    } else {
        assert(scale > 0 && mantissa % 10 == 0);
        // trailing zero stripped: mantissa = 10 * (mantissa / 10)
        let k = (scale - 1 - exponent) as nat;
        lemma_normalized_scale_divides(mantissa / 10, (scale - 1) as nat, exponent);
        lemma_pow10_positive(k);
        let q = (mantissa / 10) / pow10(k);
        assert(mantissa / 10 == q * pow10(k)) by {
            vstd::arithmetic::div_mod::lemma_fundamental_div_mod(mantissa / 10, pow10(k));
        }
        assert(mantissa == 10 * (mantissa / 10)) by {
            vstd::arithmetic::div_mod::lemma_fundamental_div_mod(mantissa, 10);
        }
        assert(pow10((scale - exponent) as nat) == 10 * pow10(k));
        assert(mantissa == q * pow10((scale - exponent) as nat)) by (nonlinear_arith)
            requires
                mantissa == 10 * (mantissa / 10),
                mantissa / 10 == q * pow10(k),
                pow10((scale - exponent) as nat) == 10 * pow10(k),
        ;
        vstd::arithmetic::div_mod::lemma_mod_multiples_basic(q, pow10((scale - exponent) as nat));
    }
}

proof fn lemma_normalized_scale_divides_when(mantissa: int, scale: nat, exponent: nat)
    requires
        normalized_scale(mantissa, scale) <= exponent,
    ensures
        exponent <= scale ==> mantissa % pow10((scale - exponent) as nat) == 0,
{
    if exponent <= scale {
        lemma_normalized_scale_divides(mantissa, scale, exponent);
    }
}

/// Dropping places that are zero, or widening a mantissa, keeps the number it denotes.
proof fn lemma_rescaled_holds_value(
    mantissa: int,
    scale: nat,
    exponent: nat,
    new_mantissa: int,
)
    requires
        normalized_scale(mantissa, scale) <= exponent,
        exponent <= scale ==> new_mantissa == mantissa / pow10((scale - exponent) as nat),
        scale < exponent ==> new_mantissa == mantissa * pow10((exponent - scale) as nat),
    ensures
        new_mantissa * pow10(scale) == mantissa * pow10(exponent),
{
    if exponent <= scale {
        let d = (scale - exponent) as nat;
        lemma_normalized_scale_divides(mantissa, scale, exponent);
        lemma_pow10_positive(d);
        lemma_pow10_add(d, exponent);
        assert(d + exponent == scale);
        vstd::arithmetic::div_mod::lemma_fundamental_div_mod(mantissa, pow10(d));
        assert(mantissa == pow10(d) * new_mantissa);
        assert(new_mantissa * pow10(scale) == new_mantissa * (pow10(d) * pow10(exponent)));
        assert(new_mantissa * (pow10(d) * pow10(exponent)) == (pow10(d) * new_mantissa) * pow10(
            exponent,
        )) by (nonlinear_arith);
    } else {
        let d = (exponent - scale) as nat;
        lemma_pow10_add(d, scale);
        assert(d + scale == exponent);
        assert((mantissa * pow10(d)) * pow10(scale) == mantissa * (pow10(d) * pow10(scale)))
            by (nonlinear_arith);
    }
}

proof fn lemma_pow10_at_least_ten(n: nat)
    requires
        n >= 1,
    ensures
        pow10(n) >= 10,
{
    lemma_pow10_positive((n - 1) as nat);
}

/// The widest scale lies between `scale` and `limit`, the mantissa fits there, and one more
/// place would not fit.
pub proof fn lemma_widest_scale(mantissa: int, scale: int, limit: int)
    requires
        scale <= limit,
        abs(mantissa) <= MAX_MANTISSA,
    ensures
        scale <= widest_scale(mantissa, scale, limit) <= limit,
        abs(mantissa) * pow10((widest_scale(mantissa, scale, limit) - scale) as nat) <= MAX_MANTISSA,
        widest_scale(mantissa, scale, limit) < limit ==> abs(mantissa) * pow10(
            (widest_scale(mantissa, scale, limit) + 1 - scale) as nat,
        ) > MAX_MANTISSA,
    decreases limit - scale,
{
    if limit == scale {
        assert(pow10(0) == 1);
    } else if abs(mantissa) * pow10((limit - scale) as nat) <= MAX_MANTISSA {
    } else {
        lemma_widest_scale(mantissa, scale, limit - 1);
    }
}

/// A mantissa that cannot take one more place stays at its scale, whatever the limit.
proof fn lemma_widest_scale_stuck(mantissa: int, scale: int, limit: int)
    requires
        scale <= limit,
        abs(mantissa) * 10 > MAX_MANTISSA,
    ensures
        widest_scale(mantissa, scale, limit) == scale,
    decreases limit - scale,
{
    if limit > scale {
        let n = (limit - scale) as nat;
        lemma_pow10_at_least_ten(n);
        assert(abs(mantissa) * pow10(n) >= abs(mantissa) * 10) by (nonlinear_arith)
            requires
                pow10(n) >= 10,
                abs(mantissa) >= 0,
        ;
        lemma_widest_scale_stuck(mantissa, scale, limit - 1);
    }
}

/// Stripping trailing zeros never adds decimal places.
pub proof fn lemma_normalized_scale_le(mantissa: int, scale: nat)
    ensures
        normalized_scale(mantissa, scale) <= scale,
    decreases scale,
{
    if mantissa != 0 && scale > 0 && mantissa % 10 == 0 {
        lemma_normalized_scale_le(mantissa / 10, (scale - 1) as nat);
    }
}

/// Two amounts that denote the same number in the same currency are the same money,
/// whatever trailing zeros they were written with.
pub proof fn lemma_same_number_same_money(
    a: MoneyView,
    b: MoneyView,
    mantissa_a: int,
    scale_a: nat,
    mantissa_b: int,
    scale_b: nat,
)
    requires
        holds_value(a, mantissa_a, scale_a as int),
        holds_value(b, mantissa_b, scale_b as int),
        a.currency_code == b.currency_code,
        a.exponent == b.exponent,
        mantissa_a * pow10(scale_b) == mantissa_b * pow10(scale_a),
    ensures
        a == b,
{
    let e = a.exponent;
    lemma_pow10_positive(scale_a);
    lemma_pow10_positive(scale_b);
    lemma_pow10_positive(e);
    let pa = pow10(scale_a);
    let pb = pow10(scale_b);
    let pe = pow10(e);
    assert(a.mantissa * pa * pb == b.mantissa * pb * pa) by (nonlinear_arith)
        requires
            a.mantissa * pa == mantissa_a * pe,
            b.mantissa * pb == mantissa_b * pe,
            mantissa_a * pb == mantissa_b * pa,
    ;
    assert(a.mantissa == b.mantissa) by (nonlinear_arith)
        requires
            a.mantissa * pa * pb == b.mantissa * pb * pa,
            pa > 0,
            pb > 0,
    ;
}

/// What a `Money` value denotes: an amount in a currency.
pub struct MoneyView {
    pub currency_code: Seq<char>,
    pub exponent: nat,
    pub mantissa: int,
    pub scale: nat,
}

/// An amount of money in an ISO-4217 currency, held at the currency's number of minor-unit
/// decimal places.
#[derive(Debug, PartialEq)]
pub struct Money {
    pub(crate) currency_code: String,
    pub(crate) exponent: u32,
    pub(crate) amount: Amount,
}

impl View for Money {
    type V = MoneyView;

    closed spec fn view(&self) -> MoneyView {
        MoneyView {
            currency_code: self.currency_code@,
            exponent: self.exponent as nat,
            mantissa: self.amount.mantissa as int,
            scale: self.amount.scale as nat,
        }
    }
}

/// How money is written: its amount, a space, and its currency code, e.g. `10.50 USD`.
pub open spec fn money_text(money: MoneyView) -> Seq<char> {
    decimal_text(money.mantissa, money.scale as int) + " "@ + money.currency_code
}

/// The text of the one-digit number `d`.
pub open spec fn digit_text(d: int) -> Seq<char> {
    seq![('0' as int + d) as char]
}

/// The largest scale from `scale` up to `limit` at which `mantissa / 10^scale` can be written
/// with a mantissa that still fits in 96 bits (`scale` itself when not even one more place fits).
pub open spec fn widest_scale(mantissa: int, scale: int, limit: int) -> int
    decreases limit - scale,
{
    if limit <= scale {
        scale
    } else if abs(mantissa) * pow10((limit - scale) as nat) <= MAX_MANTISSA {
        limit
    } else {
        widest_scale(mantissa, scale, limit - 1)
    }
}

/// The scale money of `exponent` places holds `mantissa / 10^scale` at: the exponent, or, when
/// widening the mantissa to it would leave the 96-bit range, the widest scale that still fits.
pub open spec fn held_scale(mantissa: int, scale: int, exponent: int) -> int {
    if scale >= exponent {
        exponent
    } else {
        widest_scale(mantissa, scale, exponent)
    }
}

/// `mantissa / 10^scale` written at `new_scale` decimal places: trailing places dropped, or
/// the mantissa widened.
pub open spec fn rescaled_mantissa(mantissa: int, scale: int, new_scale: int) -> int {
    if scale >= new_scale {
        mantissa / pow10((scale - new_scale) as nat)
    } else {
        mantissa * pow10((new_scale - scale) as nat)
    }
}

/// What `Money::from_decimal(code, exponent, mantissa, scale)` gives for the number
/// `mantissa / 10^scale` in the currency `code` of `exponent` minor-unit places: the money,
/// held at `held_scale`, or the text of the error when the number has more places than the
/// currency.
pub open spec fn money_from_decimal(code: Seq<char>, exponent: int, mantissa: int, scale: int) -> Result<
    MoneyView,
    Seq<char>,
> {
    if normalized_scale(mantissa, scale as nat) > exponent {
        Err(
            decimal_text(mantissa, scale) + " has more decimal places than "@ + code
                + " allows ("@ + digit_text(exponent) + ")"@,
        )
    } else {
        Ok(
            MoneyView {
                currency_code: code,
                exponent: exponent as nat,
                mantissa: rescaled_mantissa(mantissa, scale, held_scale(mantissa, scale, exponent)),
                scale: held_scale(mantissa, scale, exponent) as nat,
            },
        )
    }
}

/// What `Money::from_parts(code, text)` gives: the money, or the text of the error.
pub open spec fn money_from_parts(code: Seq<char>, text: Seq<char>) -> Result<MoneyView, Seq<char>> {
    match iso_currency_exponent(code) {
        None => Err("unknown currency code: "@ + code),
        Some(e) => match decimal_parse(text) {
            Err(msg) => Err(msg),
            Ok((m, s)) => money_from_decimal(code, e, m, s),
        },
    }
}

impl Clone for Money {
    fn clone(&self) -> (r: Money)
        ensures
            r@ == self@,
    {
        proof {
            use_type_invariant(self);
        }
        Money {
            currency_code: self.currency_code.clone(),
            exponent: self.exponent,
            amount: self.amount,
        }
    }
}

impl Money {
    #[verifier::type_invariant]
    spec fn holds_a_decimal(self) -> bool {
        &&& decimal_in_range(self.amount.mantissa as int, self.amount.scale as int)
        &&& self.exponent <= 4
        &&& iso_currency_exponent(self.currency_code@) == Some(self.exponent as int)
        &&& self.amount.scale == self.exponent || (self.amount.scale < self.exponent && abs(
            self.amount.mantissa as int,
        ) * 10 > MAX_MANTISSA)
    }

    /// Money of `amount` in the currency whose ISO-4217 code is `currency_code`.
    ///
    /// Rejects an amount with more decimal places than the currency has minor units, rather
    /// than rounding it: a silently rounded total is worse than a refused one here.
    pub fn from_parts(currency_code: &str, amount: &str) -> (r: Result<Money, String>)
        ensures
            r matches Ok(money) ==> money_from_parts(currency_code@, amount@) is Ok
                && money_from_parts(currency_code@, amount@)->Ok_0 == money@,
            r matches Err(msg) ==> money_from_parts(currency_code@, amount@) is Err
                && money_from_parts(currency_code@, amount@)->Err_0 == msg@,
            r matches Ok(money) ==> {
                let (m, s) = decimal_parse(amount@)->Ok_0;
                representable_at(m, s, money@.exponent as int) ==> holds_value(money@, m, s)
            },
    {
        let exponent = match find_iso_currency(currency_code) {
            Some(e) => e,
            None => {
                let mut msg = String::from_str("unknown currency code: ");
                msg.append(currency_code);
                return Err(msg);
            },
        };
        let (mantissa, scale) = match parse_decimal(amount) {
            Ok(parsed) => parsed,
            Err(msg) => return Err(msg),
        };
        Money::from_decimal(currency_code, exponent, mantissa, scale)
    }

    /// Money of the number `mantissa / 10^scale` in the currency `currency_code`, whose
    /// minor unit has `exponent` decimal places; the number is moved to that many places.
    /// Rejects a number with more decimal places than that, whatever its trailing zeros.
    pub fn from_decimal(currency_code: &str, exponent: u32, mantissa: i128, scale: u32) -> (r:
        Result<Money, String>)
        requires
            iso_currency_exponent(currency_code@) == Some(exponent as int),
            exponent <= 4,
            decimal_in_range(mantissa as int, scale as int),
        ensures
            r is Ok <==> money_from_decimal(
                currency_code@,
                exponent as int,
                mantissa as int,
                scale as int,
            ) is Ok,
            r matches Ok(money) ==> money@ == money_from_decimal(
                currency_code@,
                exponent as int,
                mantissa as int,
                scale as int,
            )->Ok_0,
            r matches Err(msg) ==> msg@ == money_from_decimal(
                currency_code@,
                exponent as int,
                mantissa as int,
                scale as int,
            )->Err_0,
            r matches Ok(money) ==> representable_at(mantissa as int, scale as int, exponent as int)
                ==> holds_value(money@, mantissa as int, scale as int),
    {
        if normalized_decimal_scale(mantissa, scale) > exponent {
            let mut msg = decimal_to_string(mantissa, scale);
            msg.append(" has more decimal places than ");
            msg.append(currency_code);
            msg.append(" allows (");
            msg.append(digit_str(exponent));
            msg.append(")");
            return Err(msg);
        }
        let (new_mantissa, new_scale) = rescale_decimal(mantissa, scale, exponent);
        proof {
            assert(pow10(0) == 1);
            if scale >= exponent {
                lemma_normalized_scale_divides(mantissa as int, scale as nat, exponent as nat);
            } else {
                let m = mantissa as int;
                let k = widest_scale(m, scale as int, exponent as int);
                lemma_widest_scale(m, scale as int, exponent as int);
                assert(new_scale == k);
                assert(new_mantissa == m * pow10((k - scale) as nat));
                if k == scale {
                    assert(m / 1 == m);
                    assert(m * 1 == m);
                }
                assert(new_mantissa == rescaled_mantissa(m, scale as int, k));
                if k < exponent {
                    let p = pow10((k - scale) as nat);
                    lemma_pow10_positive((k - scale) as nat);
                    assert(pow10((k + 1 - scale) as nat) == 10 * p);
                    assert(abs(m * p) * 10 == abs(m) * (10 * p)) by (nonlinear_arith)
                        requires
                            p > 0,
                    ;
                }
            }
            if representable_at(mantissa as int, scale as int, exponent as int) {
                lemma_normalized_scale_divides_when(mantissa as int, scale as nat, exponent as nat);
                lemma_rescaled_holds_value(
                    mantissa as int,
                    scale as nat,
                    exponent as nat,
                    new_mantissa as int,
                );
            }
        }
        Ok(
            Money {
                currency_code: currency_code.to_string(),
                exponent,
                amount: Amount { mantissa: new_mantissa, scale: new_scale },
            },
        )
    }

    /// The amount text and the currency code this money is written as, e.g. `("10.50",
    /// "USD")`; `Money::from_parts` reads them back into the same money.
    pub fn to_parts(&self) -> (r: (String, String))
        ensures
            r.0@ == decimal_text(self@.mantissa, self@.scale as int),
            r.1@ == self@.currency_code,
            money_from_parts(r.1@, r.0@) is Ok && money_from_parts(r.1@, r.0@)->Ok_0 == self@,
    {
        proof {
            use_type_invariant(self);
            lemma_normalized_scale_le(self.amount.mantissa as int, self.amount.scale as nat);
            assert(pow10(0) == 1);
            if self.amount.scale < self.exponent {
                lemma_widest_scale_stuck(
                    self.amount.mantissa as int,
                    self.amount.scale as int,
                    self.exponent as int,
                );
            }
        }
        let amount = decimal_to_string(self.amount.mantissa, self.amount.scale);
        let code = self.currency_code.clone();
        (amount, code)
    }

    /// The amount of this money.
    pub fn amount(&self) -> (r: Amount)
        ensures
            r.mantissa == self@.mantissa,
            r.scale == self@.scale,
    {
        self.amount
    }

    /// The ISO-4217 code of this money's currency.
    pub fn currency_code(&self) -> (r: &str)
        ensures
            r@ == self@.currency_code,
    {
        self.currency_code.as_str()
    }

    /// The amount followed by the currency code, e.g. `10.50 USD`.
    pub fn to_string(&self) -> (r: String)
        ensures
            r@ == money_text(self@),
    {
        proof {
            use_type_invariant(self);
        }
        let mut text = decimal_to_string(self.amount.mantissa, self.amount.scale);
        text.append(" ");
        text.append(self.currency_code.as_str());
        text
    }
}

/// The text of a digit below 10.
fn digit_str(d: u32) -> (r: &'static str)
    requires
        d <= 4,
    ensures
        r@ == digit_text(d as int),
{
    proof {
        reveal_strlit("0");
        reveal_strlit("1");
        reveal_strlit("2");
        reveal_strlit("3");
        reveal_strlit("4");
    }
    if d == 0 {
        "0"
    } else if d == 1 {
        "1"
    } else if d == 2 {
        "2"
    } else if d == 3 {
        "3"
    } else {
        "4"
    }
}

/// `rusty_money::iso::find`: looks the currency up by its alphabetic code, which it matches
/// exactly, and gives its exponent; every ISO currency it knows has between 0 and 4 minor-unit
/// decimal places.
#[verifier::external_body]
fn find_iso_currency(code: &str) -> (r: Option<u32>)
    ensures
        r is Some <==> iso_currency_exponent(code@) is Some,
        r matches Some(e) ==> iso_currency_exponent(code@) == Some(e as int) && e <= 4,
{
    rusty_money::iso::find(code).map(|currency| currency.exponent)
}

/// `str::parse` into `rust_decimal::Decimal`, then its `mantissa` and `scale`, or the text of
/// its error; a decimal holds at most 96 bits of mantissa and 28 decimal places.
#[verifier::external_body]
fn parse_decimal(text: &str) -> (r: Result<(i128, u32), String>)
    ensures
        r matches Ok(p) ==> decimal_parse(text@) is Ok && decimal_parse(text@)->Ok_0 == (
            p.0 as int,
            p.1 as int,
        ) && decimal_in_range(p.0 as int, p.1 as int),
        r matches Err(msg) ==> decimal_parse(text@) is Err && decimal_parse(text@)->Err_0 == msg@,
{
    match text.parse::<rust_decimal::Decimal>() {
        Ok(d) => Ok((d.mantissa(), d.scale())),
        Err(e) => Err(e.to_string()),
    }
}

/// `rust_decimal::Decimal::normalize`, then `scale`: the scale left after stripping trailing
/// zeros (zero normalizes to scale 0).
#[verifier::external_body]
fn normalized_decimal_scale(mantissa: i128, scale: u32) -> (r: u32)
    requires
        decimal_in_range(mantissa as int, scale as int),
    ensures
        r == normalized_scale(mantissa as int, scale as nat),
{
    rust_decimal::Decimal::from_i128_with_scale(mantissa, scale).normalize().scale()
}

/// `rust_decimal::Decimal::rescale`: moves the number to `new_scale` decimal places, asked only
/// for a scale a decimal can carry (above it, `rescale` would leave a scale past the limit). Dropping
/// places that are zero leaves the number unchanged. Adding places multiplies the mantissa by
/// ten as many times as it still fits in 96 bits, up to `new_scale`, and stops at the widest
/// scale that fits. What dropping non-zero places gives (rounding) is left to the name
/// `decimal_rescale`.
#[verifier::external_body]
fn rescale_decimal(mantissa: i128, scale: u32, new_scale: u32) -> (r: (i128, u32))
    requires
        decimal_in_range(mantissa as int, scale as int),
        new_scale <= MAX_DECIMAL_SCALE,
    ensures
        (r.0 as int, r.1 as int) == decimal_rescale(mantissa as int, scale as int, new_scale as int),
        decimal_in_range(r.0 as int, r.1 as int),
        new_scale <= scale && (mantissa as int) % pow10((scale - new_scale) as nat) == 0 ==> r.0
            == (mantissa as int) / pow10((scale - new_scale) as nat) && r.1 == new_scale,
        scale <= new_scale ==> r.1 == widest_scale(mantissa as int, scale as int, new_scale as int)
            && r.0 == (mantissa as int) * pow10((r.1 - scale) as nat),
{
    let mut d = rust_decimal::Decimal::from_i128_with_scale(mantissa, scale);
    d.rescale(new_scale);
    (d.mantissa(), d.scale())
}

/// `rust_decimal::Decimal`'s `Display`, for `mantissa / 10^scale`: a `-` for a negative
/// number, the integer digits, and exactly `scale` places after a `.`, so that parsing the text
/// back gives the same mantissa and scale.
#[verifier::external_body]
fn decimal_to_string(mantissa: i128, scale: u32) -> (r: String)
    requires
        decimal_in_range(mantissa as int, scale as int),
    ensures
        r@ == decimal_text(mantissa as int, scale as int),
        decimal_parse(r@) is Ok && decimal_parse(r@)->Ok_0 == (mantissa as int, scale as int),
{
    rust_decimal::Decimal::from_i128_with_scale(mantissa, scale).to_string()
}

} // verus!
