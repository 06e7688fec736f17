//! The balance of an account, computed from the transfers in its chain.

use vstd::prelude::*;
use vstd::arithmetic::power::lemma_pow_positive;
use crate::amount::{Amount, scaled, max_scale, pow10, scales_close, lemma_scaled_shift, decimal_add, decimal_sub};
use crate::models::{Account, TBlock};

verus! {

/// The block moves coin into or out of `addr`.
pub open spec fn touches(b: TBlock, addr: Seq<char>) -> bool {
    b.receiver@ == addr || b.sender@ == addr
}

/// What the block does to the balance of `addr`, counted at scale `s`: a
/// credit when `addr` receives, a debit when it (only) sends.
pub open spec fn delta(b: TBlock, addr: Seq<char>, s: int) -> int {
    if b.receiver@ == addr {
        scaled(b.amount, s)
    } else if b.sender@ == addr {
        -scaled(b.amount, s)
    } else {
        0
    }
}

/// The balance of `addr` over a chain, counted at scale `s`: the sum of
/// what it received minus the sum of what it sent.
pub open spec fn ledger(chain: Seq<TBlock>, addr: Seq<char>, s: int) -> int
    decreases chain.len(),
{
    if chain.len() == 0 {
        0
    } else {
        ledger(chain.drop_last(), addr, s) + delta(chain.last(), addr, s)
    }
}

/// The largest scale among the amounts that touch `addr` (and `0`): the
/// balance is an integer at this scale.
pub open spec fn ledger_scale(chain: Seq<TBlock>, addr: Seq<char>) -> int
    decreases chain.len(),
{
    if chain.len() == 0 {
        0
    } else {
        let p = ledger_scale(chain.drop_last(), addr);
        if touches(chain.last(), addr) && chain.last().amount.scale > p {
            chain.last().amount.scale as int
        } else {
            p
        }
    }
}

/// The scales of the amounts that touch `addr`, together with `0` (the
/// scale the balance starts at), lie within an `i64` of each other: the
/// balance can then be summed without overflow in the alignment of scales.
pub open spec fn scales_compatible(chain: Seq<TBlock>, addr: Seq<char>) -> bool {
    &&& forall|i: int|
        0 <= i < chain.len() && touches(#[trigger] chain[i], addr) ==> scales_close(
            chain[i].amount.scale as int,
            0,
        )
    &&& forall|i: int, j: int|
        0 <= i < chain.len() && 0 <= j < chain.len() && touches(#[trigger] chain[i], addr)
            && touches(#[trigger] chain[j], addr) ==> scales_close(
            chain[i].amount.scale as int,
            chain[j].amount.scale as int,
        )
}

/// `x` is `0` or the scale of an amount among the first `n` blocks that touch
/// `addr`.
pub open spec fn scale_seen(chain: Seq<TBlock>, addr: Seq<char>, n: int, x: int) -> bool {
    x == 0 || exists|k: int|
        0 <= k < n && touches(#[trigger] chain[k], addr) && chain[k].amount.scale == x
}

/// `ledger_scale` is at least `0` and at least the scale of every amount
/// that touches the address.
pub proof fn lemma_ledger_scale_bounds(chain: Seq<TBlock>, addr: Seq<char>)
    ensures
        ledger_scale(chain, addr) >= 0,
        forall|i: int|
            0 <= i < chain.len() && touches(#[trigger] chain[i], addr) ==> chain[i].amount.scale
                <= ledger_scale(chain, addr),
    decreases chain.len(),
{
    if chain.len() > 0 {
        lemma_ledger_scale_bounds(chain.drop_last(), addr);
        assert forall|i: int|
            0 <= i < chain.len() && touches(#[trigger] chain[i], addr) implies chain[i].amount.scale
            <= ledger_scale(chain, addr) by {
            if i < chain.len() - 1 {
                assert(chain[i] == chain.drop_last()[i]);
            }
        }
    }
}

/// Counting a balance at a larger scale multiplies it by the power of ten.
pub proof fn lemma_ledger_shift(chain: Seq<TBlock>, addr: Seq<char>, s: int, d: nat)
    requires
        s >= ledger_scale(chain, addr),
    ensures
        ledger(chain, addr, s + d) == ledger(chain, addr, s) * pow10(d),
    decreases chain.len(),
{
    if chain.len() > 0 {
        let dl = chain.drop_last();
        let b = chain.last();
        lemma_ledger_scale_bounds(chain, addr);
        lemma_ledger_scale_bounds(dl, addr);
        assert(ledger_scale(dl, addr) <= ledger_scale(chain, addr));
        lemma_ledger_shift(dl, addr, s, d);
        let x = ledger(dl, addr, s);
        let p = pow10(d);
        if touches(b, addr) {
            assert(b == chain[chain.len() - 1]);
            lemma_scaled_shift(b.amount, s, d);
        }
        let y = delta(b, addr, s);
        assert(delta(b, addr, s + d) == y * p) by {
            if b.receiver@ != addr && b.sender@ == addr {
                let a = scaled(b.amount, s);
                assert(-(a * p) == (-a) * p) by (nonlinear_arith);
            }
        }
        assert(x * p + y * p == (x + y) * p) by (nonlinear_arith);
    }
}

/// Adding (or subtracting) two amounts at a common scale `l` is the exact sum
/// at their larger scale, shifted up to `l`.
pub proof fn lemma_sum_at_scale(x: Amount, b: Amount, l: int, negate: bool)
    requires
        l >= max_scale(x, b),
    ensures
        (if negate { scaled(x, l) - scaled(b, l) } else { scaled(x, l) + scaled(b, l) }) == (if negate {
            scaled(x, max_scale(x, b)) - scaled(b, max_scale(x, b))
        } else {
            scaled(x, max_scale(x, b)) + scaled(b, max_scale(x, b))
        }) * pow10((l - max_scale(x, b)) as nat),
{
    let m = max_scale(x, b);
    let d = (l - m) as nat;
    lemma_scaled_shift(x, m, d);
    lemma_scaled_shift(b, m, d);
    assert(l == m + d);
    let p = pow10(d);
    let u = scaled(x, m);
    let v = scaled(b, m);
    assert(u * p + v * p == (u + v) * p) by (nonlinear_arith);
    assert(u * p - v * p == (u - v) * p) by (nonlinear_arith);
}

/// The scale of the balance that `get_balance` computes: a credit takes the
/// larger of the two scales (bigdecimal's addition); a debit keeps the
/// balance's scale when the amount is zero, takes the amount's when the
/// balance is zero, and the larger otherwise (bigdecimal's subtraction).
pub open spec fn balance_scale(chain: Seq<TBlock>, addr: Seq<char>) -> int
    decreases chain.len(),
{
    if chain.len() == 0 {
        0
    } else {
        let rest = chain.drop_last();
        let p = balance_scale(rest, addr);
        let b = chain.last();
        let m = if b.amount.scale >= p { b.amount.scale as int } else { p };
        if b.receiver@ == addr {
            m
        } else if b.sender@ == addr {
            if b.amount.mantissa() == 0 {
                p
            } else if ledger(rest, addr, ledger_scale(rest, addr)) == 0 {
                b.amount.scale as int
            } else {
                m
            }
        } else {
            p
        }
    }
}

/// `r` is the balance of `addr` over the chain, as `get_balance` computes it:
/// its scale is `balance_scale` (at most `ledger_scale`), and there its value
/// is the ledger's.
pub open spec fn balance_of(r: Amount, chain: Seq<TBlock>, addr: Seq<char>) -> bool {
    &&& r.scale <= ledger_scale(chain, addr)
    &&& r.scale == balance_scale(chain, addr)
    &&& scaled(r, ledger_scale(chain, addr)) == ledger(chain, addr, ledger_scale(chain, addr))
}

/// A balance counted at any scale at least `ledger_scale` is the ledger there.
pub proof fn lemma_balance_at_scale(r: Amount, chain: Seq<TBlock>, addr: Seq<char>, l: int)
    requires
        balance_of(r, chain, addr),
        l >= ledger_scale(chain, addr),
    ensures
        scaled(r, l) == ledger(chain, addr, l),
{
    let ls = ledger_scale(chain, addr);
    let d = (l - ls) as nat;
    assert(ls + d == l);
    lemma_scaled_shift(r, ls, d);
    lemma_ledger_shift(chain, addr, ls, d);
}

impl Account {
    /// Whether the balance can be computed from the chain (see
    /// `scales_compatible`).
    pub fn balance_computable(&self) -> (res: bool)
        ensures
            res == scales_compatible(self.chain@, self.address@),
    {
        let ghost chain = self.chain@;
        let ghost addr = self.address@;
        let mut lo: i64 = 0;
        let mut hi: i64 = 0;
        let mut i: usize = 0;
        while i < self.chain.len()
            invariant
                0 <= i <= chain.len(),
                chain == self.chain@,
                addr == self.address@,
                lo <= 0 <= hi,
                scale_seen(chain, addr, i as int, lo as int),
                scale_seen(chain, addr, i as int, hi as int),
                forall|k: int| 0 <= k < i && touches(#[trigger] chain[k], addr) ==> lo <= chain[k].amount.scale <= hi,
            decreases self.chain.len() - i,
        {
            let b = &self.chain[i];
            if b.receiver == self.address || b.sender == self.address {
                assert(touches(chain[i as int], addr));
                if b.amount.scale < lo {
                    lo = b.amount.scale;
                }
                if b.amount.scale > hi {
                    hi = b.amount.scale;
                }
            }
            i = i + 1;
        }
        let ok = hi as i128 - lo as i128 <= i64::MAX as i128;
        proof {
            if ok {
                assert forall|k: int| 0 <= k < chain.len() && touches(#[trigger] chain[k], addr) implies scales_close(chain[k].amount.scale as int, 0) by {}
            } else {
                let kl = if lo == 0 { -1 } else { choose|k: int| 0 <= k < chain.len() && touches(#[trigger] chain[k], addr) && chain[k].amount.scale == lo };
                let kh = if hi == 0 { -1 } else { choose|k: int| 0 <= k < chain.len() && touches(#[trigger] chain[k], addr) && chain[k].amount.scale == hi };
                if kl >= 0 && kh >= 0 {
                    assert(touches(chain[kl], addr) && touches(chain[kh], addr));
                } else if kl >= 0 {
                    assert(touches(chain[kl], addr));
                } else if kh >= 0 {
                    assert(touches(chain[kh], addr));
                }
            }
        }
        ok
    }

    /// Computes the balance of the account from its chain (credits where the
    /// account receives, debits where it sends), stores it in `balance` and
    /// returns it. The scales of the amounts must allow the sum (see
    /// `scales_compatible`; bigdecimal's alignment of scales overflows
    /// otherwise).
    pub fn get_balance(&mut self) -> (r: Amount)
        requires
            scales_compatible(old(self).chain@, old(self).address@),
        ensures
            balance_of(r, old(self).chain@, old(self).address@),
            final(self).balance@ == r@,
            final(self).id == old(self).id,
            final(self).address == old(self).address,
            final(self).wallet_name == old(self).wallet_name,
            final(self).public_key == old(self).public_key,
            final(self).nonce == old(self).nonce,
            final(self).chain == old(self).chain,
            final(self).created_at == old(self).created_at,
    {
        let ghost addr = self.address@;
        let ghost chain = self.chain@;
        let mut balance = Amount::zero();
        let mut i: usize = 0;
        assert(chain.take(0) =~= Seq::<TBlock>::empty());
        assert(scaled(balance, 0) == 0) by (nonlinear_arith)
            requires
                balance.mantissa() == 0,
        ;
        while i < self.chain.len()
            invariant
                0 <= i <= self.chain.len(),
                chain == self.chain@,
                addr == self.address@,
                scales_compatible(chain, addr),
                scale_seen(chain, addr, i as int, balance.scale as int),
                balance.scale == balance_scale(chain.take(i as int), addr),
                balance.scale <= ledger_scale(chain.take(i as int), addr),
                scaled(balance, ledger_scale(chain.take(i as int), addr)) == ledger(
                    chain.take(i as int),
                    addr,
                    ledger_scale(chain.take(i as int), addr),
                ),
            decreases self.chain.len() - i,
        {
            let ghost p = chain.take(i as int);
            let ghost q = chain.take(i + 1);
            let b = &self.chain[i];
            assert(q.drop_last() =~= p);
            assert(q.last() == *b);
            let ghost lp = ledger_scale(p, addr);
            let ghost lq = ledger_scale(q, addr);
            proof {
                lemma_ledger_scale_bounds(p, addr);
                assert(lq >= lp);
                lemma_ledger_shift(p, addr, lp, (lq - lp) as nat);
                assert(lp + (lq - lp) as nat == lq);
                lemma_scaled_shift(balance, lp, (lq - lp) as nat);
                if b.receiver@ == addr || b.sender@ == addr {
                    assert(touches(chain[i as int], addr));
                    if balance.scale != 0 {
                        let k = choose|k: int| 0 <= k < i && touches(#[trigger] chain[k], addr) && chain[k].amount.scale == balance.scale;
                        assert(touches(chain[k], addr));
                    }
                    assert(scales_close(b.amount.scale as int, balance.scale as int));
                }
            }
            if b.receiver == self.address {
                let ghost m = max_scale(b.amount, balance);
                proof {
                    lemma_sum_at_scale(b.amount, balance, lq, false);
                }
                let r = decimal_add(&b.amount, &balance);
                proof {
                    vstd::arithmetic::power::lemma_pow0(10);
                    assert(r.scale == m);
                    assert(((m - r.scale) as nat) == 0nat);
                    assert(pow10(0) == 1);
                    assert(scaled(r, m) == r.mantissa() * 1);
                    lemma_scaled_shift(r, m, (lq - m) as nat);
                    assert(m + (lq - m) as nat == lq);
                    if r.scale != 0 && r.scale != balance.scale {
                        assert(touches(chain[i as int], addr) && chain[i as int].amount.scale == r.scale);
                    }
                    if r.scale != 0 && r.scale == balance.scale {
                        let k = choose|k: int| 0 <= k < i && touches(#[trigger] chain[k], addr) && chain[k].amount.scale == balance.scale;
                        assert(touches(chain[k], addr));
                    }
                }
                balance = r;
            } else if b.sender == self.address {
                let ghost m = max_scale(balance, b.amount);
                proof {
                    lemma_sum_at_scale(balance, b.amount, lq, true);
                    lemma_pow_positive(10, (lp - balance.scale) as nat);
                    let x = balance.mantissa();
                    let y = pow10((lp - balance.scale) as nat);
                    assert((x * y == 0) == (x == 0)) by (nonlinear_arith)
                        requires
                            y > 0,
                    ;
                }
                let r = decimal_sub(&balance, &b.amount);
                proof {
                    lemma_scaled_shift(r, m, (lq - m) as nat);
                    assert(m + (lq - m) as nat == lq);
                    if r.scale != 0 && r.scale != balance.scale {
                        assert(touches(chain[i as int], addr) && chain[i as int].amount.scale == r.scale);
                    }
                    if r.scale != 0 && r.scale == balance.scale {
                        let k = choose|k: int| 0 <= k < i && touches(#[trigger] chain[k], addr) && chain[k].amount.scale == balance.scale;
                        assert(touches(chain[k], addr));
                    }
                }
                balance = r;
            }
            proof {
                if balance.scale != 0 {
                    let k = choose|k: int| 0 <= k < i + 1 && touches(#[trigger] chain[k], addr) && chain[k].amount.scale == balance.scale;
                    assert(touches(chain[k], addr));
                }
            }
            i = i + 1;
        }
        assert(chain.take(chain.len() as int) =~= chain);
        self.balance = balance.duplicate();
        balance
    }
}

} // verus!
