use vstd::prelude::*;

use super::{
    div_trunc, in_i64, money_sum, CatalogItemId, Currency, CustomerId, Date, ItemKind, ModelError, Money,
    Quantity, UserId,
};

verus! {

#[derive(Debug, Clone, Copy, PartialEq, Eq, Hash, Structural)]
pub struct InvoiceId(pub i64);

#[derive(Debug, Clone, Copy, PartialEq, Eq, Structural)]
pub enum InvoiceStatus {
    Draft,
    Issued,
    PartiallyPaid,
    Paid,
    Voided,
}

#[derive(Debug, Clone, PartialEq, Eq)]
pub struct InvoiceLine {
    pub item_id: Option<CatalogItemId>,
    pub item_kind: ItemKind,
    pub description: String,
    pub quantity: Quantity,
    pub unit_price: Money,
    pub discount: Money,
    pub tax_basis_points: u16,
}

/// The line's price times its quantity (in milliunits, rounded toward zero to
/// whole minor units), less the discount.
pub open spec fn line_subtotal(line: InvoiceLine) -> Result<Money, ModelError> {
    let product = line.unit_price.minor_units * line.quantity.spec_milliunits();
    if !in_i64(product) {
        Err(ModelError::ArithmeticOverflow)
    } else {
        let gross = div_trunc(product, 1000);
        if line.unit_price.currency != line.discount.currency {
            Err(ModelError::CurrencyMismatch)
        } else if !in_i64(gross - line.discount.minor_units) {
            Err(ModelError::ArithmeticOverflow)
        } else {
            Ok(
                Money {
                    minor_units: (gross - line.discount.minor_units) as i64,
                    currency: line.unit_price.currency,
                },
            )
        }
    }
}

/// The tax on the line: its subtotal times the basis points over 10000,
/// rounded toward zero.
pub open spec fn line_tax(line: InvoiceLine) -> Result<Money, ModelError> {
    match line_subtotal(line) {
        Err(e) => Err(e),
        Ok(sub) => {
            let product = sub.minor_units * line.tax_basis_points;
            if !in_i64(product) {
                Err(ModelError::ArithmeticOverflow)
            } else {
                Ok(Money { minor_units: div_trunc(product, 10000) as i64, currency: sub.currency })
            }
        },
    }
}

/// Subtotal plus tax.
pub open spec fn line_total(line: InvoiceLine) -> Result<Money, ModelError> {
    match line_subtotal(line) {
        Err(e) => Err(e),
        Ok(sub) => match line_tax(line) {
            Err(e) => Err(e),
            Ok(tax) => if !in_i64(sub.minor_units + tax.minor_units) {
                Err(ModelError::ArithmeticOverflow)
            } else {
                Ok(
                    Money {
                        minor_units: (sub.minor_units + tax.minor_units) as i64,
                        currency: sub.currency,
                    },
                )
            },
        },
    }
}

/// Adding the totals of `lines` to `acc` in order; the first failure stops it.
pub open spec fn invoice_total_from(acc: Money, lines: Seq<InvoiceLine>) -> Result<Money, ModelError>
    decreases lines.len(),
{
    if lines.len() == 0 {
        Ok(acc)
    } else {
        match line_total(lines[0]) {
            Err(e) => Err(e),
            Ok(t) => if acc.currency != t.currency {
                Err(ModelError::CurrencyMismatch)
            } else if !in_i64(acc.minor_units + t.minor_units) {
                Err(ModelError::ArithmeticOverflow)
            } else {
                invoice_total_from(
                    Money { minor_units: (acc.minor_units + t.minor_units) as i64, currency: acc.currency },
                    lines.drop_first(),
                )
            },
        }
    }
}

impl InvoiceLine {
    pub fn subtotal(&self) -> (r: Result<Money, ModelError>)
        ensures
            r == line_subtotal(*self),
    {
        let multiplied = match self.unit_price.minor_units.checked_mul(self.quantity.milliunits()) {
            Some(v) => v,
            None => {
                return Err(ModelError::ArithmeticOverflow);
            },
        };
        let subtotal = multiplied / 1000;
        Money::new(subtotal, self.unit_price.currency).checked_sub(self.discount)
    }

    pub fn tax(&self) -> (r: Result<Money, ModelError>)
        ensures
            r == line_tax(*self),
    {
        let subtotal = match self.subtotal() {
            Ok(s) => s,
            Err(e) => {
                return Err(e);
            },
        };
        let value = match subtotal.minor_units.checked_mul(self.tax_basis_points as i64) {
            Some(v) => v / 10000,
            None => {
                return Err(ModelError::ArithmeticOverflow);
            },
        };
        Ok(Money::new(value, subtotal.currency))
    }

    pub fn total(&self) -> (r: Result<Money, ModelError>)
        ensures
            r == line_total(*self),
    {
        let subtotal = match self.subtotal() {
            Ok(s) => s,
            Err(e) => {
                return Err(e);
            },
        };
        let tax = match self.tax() {
            Ok(t) => t,
            Err(e) => {
                return Err(e);
            },
        };
        subtotal.checked_add(tax)
    }
}

#[derive(Debug, Clone, PartialEq, Eq)]
pub struct Invoice {
    pub id: InvoiceId,
    pub number: String,
    pub customer_id: Option<CustomerId>,
    pub status: InvoiceStatus,
    pub issued_on: Date,
    pub due_on: Option<Date>,
    pub currency: Currency,
    pub lines: Vec<InvoiceLine>,
    pub notes: Option<String>,
    pub created_by: UserId,
}

impl Invoice {
    /// The sum of the line totals, in the invoice's currency.
    pub fn total(&self) -> (r: Result<Money, ModelError>)
        ensures
            r == invoice_total_from(Money { minor_units: 0, currency: self.currency }, self.lines@),
    {
        let mut total = Money::zero(self.currency);
        let mut i: usize = 0;
        assert(self.lines@.subrange(0, self.lines@.len() as int) =~= self.lines@);
        while i < self.lines.len()
            invariant
                i <= self.lines.len(),
                invoice_total_from(Money { minor_units: 0, currency: self.currency }, self.lines@)
                    == invoice_total_from(total, self.lines@.subrange(i as int, self.lines@.len() as int)),
            decreases self.lines.len() - i,
        {
            let ghost rest = self.lines@.subrange(i as int, self.lines@.len() as int);
            assert(rest.drop_first() =~= self.lines@.subrange(i + 1, self.lines@.len() as int));
            let line_total = match self.lines[i].total() {
                Ok(t) => t,
                Err(e) => {
                    return Err(e);
                },
            };
            total = match total.checked_add(line_total) {
                Ok(t) => t,
                Err(e) => {
                    return Err(e);
                },
            };
            i = i + 1;
        }
        Ok(total)
    }
}


/// The sum of the totals of the lines, each total taken as it succeeds.
pub open spec fn line_totals_sum(lines: Seq<InvoiceLine>) -> int
    decreases lines.len(),
{
    if lines.len() == 0 {
        0
    } else {
        line_totals_sum(lines.drop_last()) + line_total(lines.last())->Ok_0.minor_units
    }
}

/// The line's total succeeds, in this currency.
pub open spec fn line_total_in(line: InvoiceLine, currency: Currency) -> bool {
    line_total(line) matches Ok(t) && t.currency == currency
}

/// Adding a line to an invoice adds its total to the invoice's total: the
/// total of `lines` followed by `l` is the total of `lines` plus the total
/// of `l` (the first failure, in that order, is the result).
pub proof fn invoice_total_appends_line(acc: Money, lines: Seq<InvoiceLine>, l: InvoiceLine)
    ensures
        invoice_total_from(acc, lines.push(l)) == (match invoice_total_from(acc, lines) {
            Err(e) => Err(e),
            Ok(t) => match line_total(l) {
                Err(e) => Err(e),
                Ok(u) => money_sum(t, u),
            },
        }),
    decreases lines.len(),
{
    if lines.len() == 0 {
        assert(lines.push(l).drop_first() =~= Seq::<InvoiceLine>::empty());
        assert(lines.push(l)[0] == l);
        reveal_with_fuel(invoice_total_from, 2);
    } else {
        assert(lines.push(l)[0] == lines[0]);
        assert(lines.push(l).drop_first() =~= lines.drop_first().push(l));
        match line_total(lines[0]) {
            Err(e) => {},
            Ok(t) => {
                if acc.currency != t.currency {
                } else if !in_i64(acc.minor_units + t.minor_units) {
                } else {
                    invoice_total_appends_line(
                        Money {
                            minor_units: (acc.minor_units + t.minor_units) as i64,
                            currency: acc.currency,
                        },
                        lines.drop_first(),
                        l,
                    );
                }
            },
        }
    }
}

/// The invoice total is the sum of the line totals: when every line's total
/// succeeds in the invoice's currency and every running sum of them stays
/// in `i64`, the total is that sum in that currency.
pub proof fn invoice_total_is_sum_of_lines(currency: Currency, lines: Seq<InvoiceLine>)
    requires
        forall|i: int|
            0 <= i < lines.len() ==> line_total_in(#[trigger] lines[i], currency),
        forall|k: int| 0 <= k <= lines.len() ==> in_i64(#[trigger] line_totals_sum(lines.take(k))),
    ensures
        invoice_total_from(Money { minor_units: 0, currency }, lines) == Ok::<Money, ModelError>(
            Money { minor_units: line_totals_sum(lines) as i64, currency },
        ),
    decreases lines.len(),
{
    let zero = Money { minor_units: 0, currency };
    if lines.len() == 0 {
        assert(lines.take(0) =~= lines);
    } else {
        let rest = lines.drop_last();
        let l = lines.last();
        assert(rest.push(l) =~= lines);
        assert forall|i: int| 0 <= i < rest.len() implies line_total_in(#[trigger] rest[i], currency) by {
            assert(rest[i] == lines[i]);
        }
        assert forall|k: int| 0 <= k <= rest.len() implies in_i64(
            #[trigger] line_totals_sum(rest.take(k)),
        ) by {
            assert(rest.take(k) =~= lines.take(k));
            assert(in_i64(line_totals_sum(lines.take(k))));
        }
        invoice_total_is_sum_of_lines(currency, rest);
        invoice_total_appends_line(zero, rest, l);
        assert(rest.take(rest.len() as int) =~= rest);
        assert(lines.take(lines.len() as int) =~= lines);
        assert(in_i64(line_totals_sum(rest.take(rest.len() as int))));
        assert(in_i64(line_totals_sum(lines.take(lines.len() as int))));
        assert(line_total_in(lines[lines.len() - 1], currency));
    }
}


/// A discount comes off the subtotal: two lines that differ only in their
/// discount (in one currency) have subtotals that differ by the opposite
/// of the difference of their discounts.
pub proof fn line_discount_comes_off(a: InvoiceLine, b: InvoiceLine)
    requires
        a.unit_price == b.unit_price,
        a.quantity == b.quantity,
        a.discount.currency == b.discount.currency,
    ensures
        line_subtotal(a) matches Ok(sa) ==> (line_subtotal(b) matches Ok(sb) ==> sa.minor_units
            + a.discount.minor_units == sb.minor_units + b.discount.minor_units && sa.currency
            == sb.currency && sa.currency == a.unit_price.currency),
{
}

/// A line of whole units costs, before its discount, its unit price times
/// the number of units.
pub proof fn line_of_whole_units(line: InvoiceLine, units: int)
    requires
        line.quantity.spec_milliunits() == 1000 * units,
    ensures
        line_subtotal(line) matches Ok(s) ==> s.minor_units + line.discount.minor_units
            == line.unit_price.minor_units * units,
{
    let p = line.unit_price.minor_units as int;
    let product = p * line.quantity.spec_milliunits();
    assert(product == (p * units) * 1000) by (nonlinear_arith)
        requires
            product == p * line.quantity.spec_milliunits(),
            line.quantity.spec_milliunits() == 1000 * units,
    ;
    let m = p * units;
    if m >= 0 {
        assert((m * 1000) / 1000 == m) by (nonlinear_arith)
            requires
                m >= 0,
        ;
    } else {
        assert((-(m * 1000)) / 1000 == -m) by (nonlinear_arith)
            requires
                m < 0,
        ;
    }
}

/// The tax is the basis-point share of the subtotal rounded toward zero:
/// ten thousand times the tax is within ten thousand of the subtotal times
/// the basis points, on the side of zero, and the tax has the subtotal's
/// sign and currency.
pub proof fn line_tax_is_share(line: InvoiceLine)
    ensures
        line_subtotal(line) matches Ok(s) ==> (line_tax(line) matches Ok(t) ==> t.currency
            == s.currency && (s.minor_units >= 0 ==> 0 <= t.minor_units * 10000 <= s.minor_units
            * line.tax_basis_points < t.minor_units * 10000 + 10000) && (s.minor_units < 0
            ==> t.minor_units * 10000 - 10000 < s.minor_units * line.tax_basis_points
            <= t.minor_units * 10000 <= 0)),
{
    if line_subtotal(line) is Ok && line_tax(line) is Ok {
        let s = line_subtotal(line)->Ok_0.minor_units as int;
        let bp = line.tax_basis_points as int;
        let a = s * bp;
        if s >= 0 {
            assert(a >= 0) by (nonlinear_arith)
                requires
                    s >= 0,
                    bp >= 0,
                    a == s * bp,
            ;
            let q = a / 10000;
            assert(q * 10000 <= a < q * 10000 + 10000 && q >= 0) by (nonlinear_arith)
                requires
                    a >= 0,
                    q == a / 10000,
            ;
        } else {
            assert(a <= 0) by (nonlinear_arith)
                requires
                    s < 0,
                    bp >= 0,
                    a == s * bp,
            ;
            let q = (-a) / 10000;
            assert(q * 10000 <= -a < q * 10000 + 10000 && q >= 0) by (nonlinear_arith)
                requires
                    -a >= 0,
                    q == (-a) / 10000,
            ;
        }
    }
}

/// A line's total is its subtotal plus its tax, in the subtotal's currency.
pub proof fn line_total_adds_tax(line: InvoiceLine)
    ensures
        line_total(line) matches Ok(t) ==> (line_subtotal(line) matches Ok(s) && (line_tax(line)
            matches Ok(x) && t.minor_units == s.minor_units + x.minor_units && t.currency
            == s.currency)),
{
}


/// The price of a line before its discount is its unit price times its
/// quantity in milliunits over a thousand, rounded toward zero: a thousand
/// times it is within a thousand of that product, on the side of zero.
pub proof fn line_price_rounds_toward_zero(line: InvoiceLine)
    ensures
        line_subtotal(line) matches Ok(s) ==> ({
            let g = s.minor_units + line.discount.minor_units;
            let product = line.unit_price.minor_units * line.quantity.spec_milliunits();
            &&& product >= 0 ==> 0 <= g * 1000 <= product < g * 1000 + 1000
            &&& product < 0 ==> g * 1000 - 1000 < product <= g * 1000 <= 0
        }),
{
    let product = line.unit_price.minor_units * line.quantity.spec_milliunits();
    if product >= 0 {
        let q = product / 1000;
        assert(q * 1000 <= product < q * 1000 + 1000 && q >= 0) by (nonlinear_arith)
            requires
                product >= 0,
                q == product / 1000,
        ;
    } else {
        let q = (-product) / 1000;
        assert(q * 1000 <= -product < q * 1000 + 1000 && q >= 0) by (nonlinear_arith)
            requires
                -product >= 0,
                q == (-product) / 1000,
        ;
    }
}

} // verus!
