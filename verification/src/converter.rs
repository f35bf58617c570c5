//! Cross-rate conversion and rebasing of a snapshot.
//!
//! `convert_currency` computes a single pairwise conversion in O(1),
//! without rebasing the whole table; `rebase_rates` produces a whole
//! table expressed relative to another base currency.

use vstd::prelude::*;
use vstd::string::StringExecFns;
use crate::decimal::{Dec, spec_div, spec_mul, dec_checked_div, dec_checked_mul};
use crate::error::ApiError;
use crate::rate::{DailyRate, RateMap, lemma_code_idx, has_code, code_idx};
use crate::text::{upper_seq, to_upper_code};

verus! {

/// The rate of a currency relative to one unit of the snapshot's base:
/// one for the base itself, the table's entry for a listed code, and
/// nothing otherwise.
pub open spec fn rate_of(dr: DailyRate, code: Seq<char>) -> Option<Dec> {
    if code == dr.base@ {
        Some(Dec::spec_one())
    } else if dr.rates@.contains_key(code) {
        Some(dr.rates@[code])
    } else {
        None
    }
}

/// Everything `convert_currency` promises: the outcome for every input.
pub open spec fn convert_rel(
    dr: DailyRate,
    from: Seq<char>,
    to: Seq<char>,
    amount: Dec,
    r: Result<(Dec, Dec), ApiError>,
) -> bool {
    let f = upper_seq(from);
    let t = upper_seq(to);
    if f == t {
        r == Result::<(Dec, Dec), ApiError>::Ok((amount, Dec::spec_one()))
    } else {
        match (rate_of(dr, f), rate_of(dr, t)) {
            (Option::None, _) => r matches Err(ApiError::CurrencyNotFound(c)) && c@ == f,
            (Option::Some(_), Option::None) => r matches Err(ApiError::CurrencyNotFound(c)) && c@
                == t,
            (Option::Some(rf), Option::Some(rt)) => match spec_div(rt, rf) {
                Option::None => r matches Err(ApiError::CalculationError(m)) && m@
                    == "Division by zero or overflow in conversion"@,
                Option::Some(cr) => match spec_mul(amount, cr) {
                    Option::None => r matches Err(ApiError::CalculationError(m)) && m@
                        == "Overflow in amount calculation"@,
                    Option::Some(res) => r == Result::<(Dec, Dec), ApiError>::Ok((res, cr)),
                },
            },
        }
    }
}

/// Convert `amount` from one currency into another against a snapshot.
///
/// The cross-rate is `rate(to) / rate(from)`, both relative to the
/// snapshot's base; the result is `amount * cross-rate`. A currency
/// that is neither the base nor listed fails with `CurrencyNotFound`
/// naming that code; a division or multiplication that leaves the
/// decimal range fails with `CalculationError`.
pub fn convert_currency(daily_rate: &DailyRate, from: &str, to: &str, amount: Dec) -> (r: Result<
    (Dec, Dec),
    ApiError,
>)
    requires
        daily_rate.wf(),
        amount.wf(),
    ensures
        convert_rel(*daily_rate, from@, to@, amount, r),
        r matches Ok(p) ==> p.0.wf() && p.1.wf(),
{
    let from_u = to_upper_code(from);
    let to_u = to_upper_code(to);

    if from_u == to_u {
        return Ok((amount, Dec::one()));
    }
    let from_rate = if from_u == daily_rate.base {
        Dec::one()
    } else {
        match daily_rate.rates.get(&from_u) {
            Some(d) => d,
            None => {
                return Err(ApiError::CurrencyNotFound(from_u));
            },
        }
    };
    let to_rate = if to_u == daily_rate.base {
        Dec::one()
    } else {
        match daily_rate.rates.get(&to_u) {
            Some(d) => d,
            None => {
                return Err(ApiError::CurrencyNotFound(to_u));
            },
        }
    };
    let conversion_rate = match dec_checked_div(to_rate, from_rate) {
        Some(c) => c,
        None => {
            return Err(
                ApiError::CalculationError(
                    String::from_str("Division by zero or overflow in conversion"),
                ),
            );
        },
    };
    let result = match dec_checked_mul(amount, conversion_rate) {
        Some(x) => x,
        None => {
            return Err(
                ApiError::CalculationError(String::from_str("Overflow in amount calculation")),
            );
        },
    };
    Ok((result, conversion_rate))
}

/// Every division a rebase needs succeeds: one by the new base's rate,
/// and each listed rate (other than the new base's own) by it.
pub open spec fn rebase_all_ok(dr: DailyRate, nb: Seq<char>, br: Dec) -> bool {
    &&& spec_div(Dec::spec_one(), br) is Some
    &&& forall|k: Seq<char>|
        #[trigger] dr.rates@.contains_key(k) && k != nb ==> spec_div(dr.rates@[k], br) is Some
}

/// The table a successful rebase returns: the old base appears, the new
/// base does not, every other listed code keeps its place with its rate
/// divided by the new base's rate, and the old base (where it was not
/// itself listed) carries one divided by the new base's rate.
pub open spec fn rebased_map_ok(dr: DailyRate, nb: Seq<char>, br: Dec, m: Map<Seq<char>, Dec>) -> bool {
    &&& forall|k: Seq<char>| #[trigger]
        m.contains_key(k) ==> (k == dr.base@ || (dr.rates@.contains_key(k) && k != nb))
    &&& forall|k: Seq<char>| #[trigger] dr.rates@.contains_key(k) && k != nb ==> m.contains_key(k)
    &&& m.contains_key(dr.base@)
    &&& forall|k: Seq<char>| #[trigger]
        dr.rates@.contains_key(k) && k != nb ==> (spec_div(dr.rates@[k], br) matches Some(v)
            && m[k] == v)
    &&& !dr.rates@.contains_key(dr.base@) ==> (spec_div(Dec::spec_one(), br) matches Some(v)
        && m[dr.base@] == v)
}

/// Everything `rebase_rates` promises: the outcome for every input.
pub open spec fn rebase_rel(dr: DailyRate, new_base: Seq<char>, r: Result<DailyRate, ApiError>) -> bool {
    let nb = upper_seq(new_base);
    if nb == dr.base@ {
        r matches Ok(d) && d.date@ == dr.date@ && d.base@ == dr.base@ && d.rates@ == dr.rates@
    } else if !dr.rates@.contains_key(nb) {
        r matches Err(ApiError::CurrencyNotFound(c)) && c@ == nb
    } else {
        let br = dr.rates@[nb];
        if rebase_all_ok(dr, nb, br) {
            r matches Ok(d) && d.date@ == dr.date@ && d.base@ == nb && rebased_map_ok(
                dr,
                nb,
                br,
                d.rates@,
            )
        } else {
            r matches Err(ApiError::CalculationError(m)) && m@ == (if spec_div(
                Dec::spec_one(),
                br,
            ) is None {
                "Division by zero in rebase"@
            } else {
                "Division error in rebase"@
            })
        }
    }
}

/// Express a snapshot's whole rate table relative to another base.
///
/// Rebasing to the current base returns a deep copy. Otherwise the new
/// base must be listed — else `CurrencyNotFound` names it — and every
/// rate is divided by its rate; the old base currency joins the table,
/// the new base leaves it. Any division that fails ends the rebase
/// with `CalculationError`.
pub fn rebase_rates(daily_rate: &DailyRate, new_base: &str) -> (r: Result<DailyRate, ApiError>)
    requires
        daily_rate.wf(),
    ensures
        rebase_rel(*daily_rate, new_base@, r),
        r matches Ok(d) ==> d.wf(),
{
    let nb = to_upper_code(new_base);
    if nb == daily_rate.base {
        return Ok(daily_rate.duplicate());
    }
    let base_rate = match daily_rate.rates.get(&nb) {
        Some(d) => d,
        None => {
            return Err(ApiError::CurrencyNotFound(nb));
        },
    };
    let old_base_rate = match dec_checked_div(Dec::one(), base_rate) {
        Some(d) => d,
        None => {
            return Err(ApiError::CalculationError(String::from_str("Division by zero in rebase")));
        },
    };
    let mut new_rates = RateMap::new();
    new_rates.insert(daily_rate.base.clone(), old_base_rate);
    let n = daily_rate.rates.entries.len();
    let mut i: usize = 0;
    while i < n
        invariant
            daily_rate.wf(),
            n == daily_rate.rates.entries@.len(),
            i <= n,
            nb@ == upper_seq(new_base@),
            nb@ != daily_rate.base@,
            daily_rate.rates@.contains_key(nb@),
            daily_rate.rates@[nb@] == base_rate,
            base_rate.wf(),
            spec_div(Dec::spec_one(), base_rate) == Some(old_base_rate),
            new_rates.wf(),
            new_rates@.contains_key(daily_rate.base@),
            forall|k: Seq<char>| #[trigger]
                new_rates@.contains_key(k) ==> (k == daily_rate.base@ || (exists|j: int|
                    0 <= j < i && (#[trigger] daily_rate.rates.entries@[j]).0@ == k && k != nb@)),
            forall|j: int|
                0 <= j < i && (#[trigger] daily_rate.rates.entries@[j]).0@ != nb@
                    ==> new_rates@.contains_key(daily_rate.rates.entries@[j].0@),
            forall|j: int|
                0 <= j < i && (#[trigger] daily_rate.rates.entries@[j]).0@ != nb@ ==> (spec_div(
                    daily_rate.rates.entries@[j].1,
                    base_rate,
                ) matches Some(v) && new_rates@[daily_rate.rates.entries@[j].0@] == v),
            (!exists|j: int|
                0 <= j < i && (#[trigger] daily_rate.rates.entries@[j]).0@ == daily_rate.base@)
                ==> new_rates@[daily_rate.base@] == old_base_rate,
        decreases n - i,
    {
        let code = &daily_rate.rates.entries[i].0;
        let rate = daily_rate.rates.entries[i].1;
        if !(*code == nb) {
            let new_rate = match dec_checked_div(rate, base_rate) {
                Some(d) => d,
                None => {
                    proof {
                        let ghost s = daily_rate.rates.entries@;
                        let ghost k = s[i as int].0@;
                        assert(has_code(s, k));
                        assert(daily_rate.rates@.contains_key(k));
                        lemma_code_idx(s, k, i as int);
                        assert(daily_rate.rates@[k] == s[i as int].1);
                        assert(spec_div(daily_rate.rates@[k], base_rate) is None);
                        assert(!rebase_all_ok(*daily_rate, nb@, base_rate));
                    }
                    return Err(
                        ApiError::CalculationError(
                            String::from_str("Division error in rebase"),
                        ),
                    );
                },
            };
            new_rates.insert(code.clone(), new_rate);
        }
        i += 1;
    }
    proof {
        let ghost s = daily_rate.rates.entries@;
        assert forall|k: Seq<char>| #[trigger]
            daily_rate.rates@.contains_key(k) && k != nb@ implies spec_div(
            daily_rate.rates@[k],
            base_rate,
        ) is Some && new_rates@.contains_key(k) && (spec_div(
            daily_rate.rates@[k],
            base_rate,
        ) matches Some(v)
            && new_rates@[k] == v) by {
            let j = code_idx(s, k);
            assert(0 <= j < s.len() && s[j].0@ == k);
        }
        assert(rebase_all_ok(*daily_rate, nb@, base_rate));
        assert forall|k: Seq<char>| #[trigger]
            new_rates@.contains_key(k) implies (k == daily_rate.base@ || (
        daily_rate.rates@.contains_key(k) && k != nb@)) by {
            if k != daily_rate.base@ {
                let j = choose|j: int| 0 <= j < n && (#[trigger] s[j]).0@ == k && k != nb@;
                assert(has_code(s, k));
            }
        }
        if !daily_rate.rates@.contains_key(daily_rate.base@) {
            assert forall|j: int| 0 <= j < n implies (#[trigger] s[j]).0@ != daily_rate.base@ by {
                if s[j].0@ == daily_rate.base@ {
                    assert(has_code(s, daily_rate.base@));
                }
            }
            assert(new_rates@[daily_rate.base@] == old_base_rate);
        }
        assert(rebased_map_ok(*daily_rate, nb@, base_rate, new_rates@));
    }
    Ok(DailyRate { date: daily_rate.date.clone(), base: nb, rates: new_rates })
}

/// For a snapshot whose base is not itself listed in its table, a
/// successful rebase never lists the requested base in its result, and
/// a rebase to a different base always lists the old base, carrying one
/// divided by the requested base's rate.
pub proof fn lemma_rebase_excludes_new_base(
    dr: DailyRate,
    code: Seq<char>,
    r: Result<DailyRate, ApiError>,
)
    requires
        rebase_rel(dr, code, r),
        !dr.rates@.contains_key(dr.base@),
        r is Ok,
    ensures
        r matches Ok(d) && !d.rates@.contains_key(upper_seq(code)),
        upper_seq(code) != dr.base@ ==> (r matches Ok(d) && d.rates@.contains_key(dr.base@) && (
        spec_div(Dec::spec_one(), dr.rates@[upper_seq(code)]) matches Some(v) && d.rates@[dr.base@]
            == v)),
{
    let nb = upper_seq(code);
    if nb == dr.base@ {
    } else {
        let d = r->Ok_0;
        if d.rates@.contains_key(nb) {
            assert(nb == dr.base@ || (dr.rates@.contains_key(nb) && nb != nb));
        }
    }
}

/// Rebasing a snapshot to its own base is the identity: the result is a
/// deep-equal copy.
pub proof fn lemma_rebase_identity(dr: DailyRate, code: Seq<char>, r: Result<DailyRate, ApiError>)
    requires
        rebase_rel(dr, code, r),
        upper_seq(code) == dr.base@,
    ensures
        r matches Ok(d) && d.date@ == dr.date@ && d.base@ == dr.base@ && d.rates@ == dr.rates@,
{
}

/// A successful conversion between distinct currencies returns exactly
/// `amount * (rate(to) / rate(from))`, computed in exact decimal
/// arithmetic, together with that cross-rate.
pub proof fn lemma_convert_formula(
    dr: DailyRate,
    from: Seq<char>,
    to: Seq<char>,
    amount: Dec,
    r: Result<(Dec, Dec), ApiError>,
)
    requires
        convert_rel(dr, from, to, amount, r),
        upper_seq(from) != upper_seq(to),
        rate_of(dr, upper_seq(from)) matches Some(rf),
        rate_of(dr, upper_seq(to)) matches Some(rt),
        r is Ok,
    ensures
        rate_of(dr, upper_seq(from)) matches Some(rf) && (rate_of(dr, upper_seq(to)) matches Some(
            rt,
        ) && (spec_div(rt, rf) matches Some(cr) && (spec_mul(amount, cr) matches Some(res) && r
            == Result::<(Dec, Dec), ApiError>::Ok((res, cr))))),
{
}

/// A currency that the snapshot neither lists nor has as its base fails
/// a conversion with `CurrencyNotFound` naming exactly that code, the
/// `from` code checked first.
pub proof fn lemma_convert_unknown_currency(
    dr: DailyRate,
    from: Seq<char>,
    to: Seq<char>,
    amount: Dec,
    r: Result<(Dec, Dec), ApiError>,
)
    requires
        convert_rel(dr, from, to, amount, r),
        upper_seq(from) != upper_seq(to),
        rate_of(dr, upper_seq(from)) is None || rate_of(dr, upper_seq(to)) is None,
    ensures
        rate_of(dr, upper_seq(from)) is None ==> (r matches Err(ApiError::CurrencyNotFound(c))
            && c@ == upper_seq(from)),
        rate_of(dr, upper_seq(from)) is Some && rate_of(dr, upper_seq(to)) is None ==> (r matches
            Err(ApiError::CurrencyNotFound(c)) && c@ == upper_seq(to)),
{
}

/// A base that the snapshot does not list fails a rebase with
/// `CurrencyNotFound` naming exactly that code.
pub proof fn lemma_rebase_unknown_currency(
    dr: DailyRate,
    code: Seq<char>,
    r: Result<DailyRate, ApiError>,
)
    requires
        rebase_rel(dr, code, r),
        upper_seq(code) != dr.base@,
        !dr.rates@.contains_key(upper_seq(code)),
    ensures
        r matches Err(ApiError::CurrencyNotFound(c)) && c@ == upper_seq(code),
{
}

/// Converting a currency to itself returns the amount unchanged with a
/// rate of one, whether or not the snapshot lists the code.
pub proof fn lemma_convert_same_currency(
    dr: DailyRate,
    code: Seq<char>,
    amount: Dec,
    r: Result<(Dec, Dec), ApiError>,
)
    requires
        convert_rel(dr, code, code, amount, r),
    ensures
        r == Result::<(Dec, Dec), ApiError>::Ok((amount, Dec::spec_one())),
{
}

} // verus!
