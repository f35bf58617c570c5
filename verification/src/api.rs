//! The request-level decision logic: query and response shapes, input
//! validation, and what each endpoint answers for every state of the
//! cache. The surrounding application only moves these values between
//! HTTP and the cache; every decision is made here.

use vstd::prelude::*;
use vstd::string::StringExecFns;
use crate::converter::{convert_currency, convert_rel, rebase_rates, rebase_rel};
use crate::decimal::{Dec, spec_parse_dec, dec_from_str};
use crate::error::{ApiError, spec_status_code};
use crate::rate::{DailyRate, RateMap};
use crate::text::{upper_seq, to_upper_code, code_char_len};

verus! {

/// Query parameters of the latest-rates endpoint.
#[derive(Debug)]
pub struct LatestRatesQuery {
    pub base: Option<String>,
}

/// Query parameters of the conversion endpoint. The amount arrives as
/// text so that it can be parsed exactly, not through binary floating
/// point.
#[derive(Debug)]
pub struct ConvertQuery {
    pub from: String,
    pub to: String,
    pub amount: String,
}

/// Response of the latest-rates endpoint.
#[derive(Debug)]
pub struct LatestRatesResponse {
    pub date: String,
    pub base: String,
    pub rates: RateMap,
}

/// Response of the conversion endpoint.
#[derive(Debug)]
pub struct ConvertResponse {
    pub from: String,
    pub to: String,
    pub amount: Dec,
    pub result: Dec,
    pub rate: Dec,
    pub date: String,
}

/// Response of the health endpoint.
#[derive(Debug)]
pub struct HealthResponse {
    pub status: String,
    pub redis: String,
    pub last_update: Option<String>,
}

/// The amount text parses as a non-negative decimal.
pub open spec fn amount_ok(s: Seq<char>) -> bool {
    spec_parse_dec(s) matches Some(d) && !d.spec_is_negative()
}

impl ConvertQuery {
    /// Parse the amount as an exact decimal; a string that is not a
    /// decimal number or is negative is rejected.
    pub fn parse_amount(&self) -> (r: Result<Dec, String>)
        ensures
            r is Ok <==> amount_ok(self.amount@),
            r matches Ok(d) ==> spec_parse_dec(self.amount@) == Some(d) && d.wf(),
            spec_parse_dec(self.amount@) is None ==> (r matches Err(m) && m@
                == "Invalid amount format"@),
            (spec_parse_dec(self.amount@) matches Some(d) && d.spec_is_negative()) ==> (r matches
                Err(m) && m@ == "Amount must be non-negative"@),
    {
        match dec_from_str(self.amount.as_str()) {
            None => Err(String::from_str("Invalid amount format")),
            Some(d) => {
                if d.is_negative() {
                    Err(String::from_str("Amount must be non-negative"))
                } else {
                    Ok(d)
                }
            },
        }
    }
}

/// A conversion response read back as a bare conversion outcome.
pub open spec fn as_convert_result(r: Result<ConvertResponse, ApiError>) -> Result<
    (Dec, Dec),
    ApiError,
> {
    match r {
        Ok(resp) => Ok((resp.result, resp.rate)),
        Err(e) => Err(e),
    }
}

/// Everything `convert_core` promises: the outcome for every query and
/// every state of the cache.
pub open spec fn convert_core_rel(
    rates: Result<Option<DailyRate>, ApiError>,
    q: ConvertQuery,
    r: Result<ConvertResponse, ApiError>,
) -> bool {
    &&& (q.from@.len() != 3 || q.to@.len() != 3) ==> (r matches Err(ApiError::ValidationError(_)))
    &&& (q.from@.len() == 3 && q.to@.len() == 3 && !amount_ok(q.amount@)) ==> (r matches Err(
        ApiError::ValidationError(_),
    ))
    &&& (q.from@.len() == 3 && q.to@.len() == 3 && amount_ok(q.amount@)) ==> (rates matches Err(
        e0,
    ) ==> r == Result::<ConvertResponse, ApiError>::Err(e0))
    &&& (q.from@.len() == 3 && q.to@.len() == 3 && amount_ok(q.amount@) && rates == Result::<
        Option<DailyRate>,
        ApiError,
    >::Ok(None)) ==> (r matches Err(ApiError::NoRatesAvailable))
    &&& (q.from@.len() == 3 && q.to@.len() == 3 && amount_ok(q.amount@)) ==> (rates matches Ok(
        Some(dr),
    ) ==> (spec_parse_dec(q.amount@) matches Some(amount) && convert_rel(
        dr,
        q.from@,
        q.to@,
        amount,
        as_convert_result(r),
    ) && (r matches Ok(resp) ==> resp.amount == amount && resp.from@ == upper_seq(q.from@)
        && resp.to@ == upper_seq(q.to@) && resp.date@ == dr.date@)))
}

/// Answer a conversion request from the cache's answer for the current
/// snapshot.
///
/// Validation comes first, whatever the cache said: codes that are not
/// three characters, or an amount that is not a non-negative decimal,
/// are rejected with `ValidationError`. Then a cache failure is passed
/// through as it is; no cached snapshot is `NoRatesAvailable`, whatever
/// the codes; otherwise the converter decides, and its result is
/// wrapped with the normalized codes and the snapshot's date.
pub fn convert_core(rates: Result<Option<DailyRate>, ApiError>, query: &ConvertQuery) -> (r:
    Result<ConvertResponse, ApiError>)
    requires
        rates matches Ok(Some(dr)) ==> dr.wf(),
    ensures
        convert_core_rel(rates, *query, r),
        r matches Ok(resp) ==> resp.amount.wf() && resp.result.wf() && resp.rate.wf(),
{
    if code_char_len(query.from.as_str()) != 3 || code_char_len(query.to.as_str()) != 3 {
        return Err(
            ApiError::ValidationError(String::from_str("Currency codes must be 3 characters")),
        );
    }
    let amount = match query.parse_amount() {
        Ok(a) => a,
        Err(m) => {
            return Err(ApiError::ValidationError(m));
        },
    };
    let dr = match rates {
        Ok(Some(d)) => d,
        Ok(None) => {
            return Err(ApiError::NoRatesAvailable);
        },
        Err(e) => {
            return Err(e);
        },
    };
    let outcome = convert_currency(&dr, query.from.as_str(), query.to.as_str(), amount);
    match outcome {
        Ok((result, rate)) => Ok(
            ConvertResponse {
                from: to_upper_code(query.from.as_str()),
                to: to_upper_code(query.to.as_str()),
                amount,
                result,
                rate,
                date: dr.date.clone(),
            },
        ),
        Err(e) => Err(e),
    }
}

/// Without a cached snapshot, a conversion request with well-formed
/// codes and amount is answered `NoRatesAvailable`, which is surfaced
/// as HTTP 503.
pub proof fn lemma_convert_missing_rates(q: ConvertQuery, r: Result<ConvertResponse, ApiError>)
    requires
        convert_core_rel(Ok(None), q, r),
        q.from@.len() == 3,
        q.to@.len() == 3,
        amount_ok(q.amount@),
    ensures
        r matches Err(e) && e matches ApiError::NoRatesAvailable && spec_status_code(e) == 503,
{
}

/// A latest-rates response read back as a bare rebase outcome.
pub open spec fn as_latest_result(r: Result<LatestRatesResponse, ApiError>) -> Result<
    DailyRate,
    ApiError,
> {
    match r {
        Ok(resp) => Ok(DailyRate { date: resp.date, base: resp.base, rates: resp.rates }),
        Err(e) => Err(e),
    }
}

/// Everything `latest_core` promises: the outcome for every query and
/// every state of the cache.
/// The latest-rates endpoint surfaces an unknown requested base as an
/// internal failure, not as a not-found answer: the rebase's
/// `CurrencyNotFound` is wrapped as `InternalError` carrying the code,
/// and every other outcome passes through unchanged.
pub open spec fn latest_rebase_rel(
    dr: DailyRate,
    code: Seq<char>,
    r: Result<LatestRatesResponse, ApiError>,
) -> bool {
    match as_latest_result(r) {
        Err(ApiError::InternalError(c)) => rebase_rel(
            dr,
            code,
            Err(ApiError::CurrencyNotFound(c)),
        ),
        other => rebase_rel(dr, code, other) && !(other matches Err(
            ApiError::CurrencyNotFound(_),
        )),
    }
}

pub open spec fn latest_core_rel(
    rates: Result<Option<DailyRate>, ApiError>,
    q: LatestRatesQuery,
    r: Result<LatestRatesResponse, ApiError>,
) -> bool {
    match q.base {
        Some(bq) => {
            if bq@.len() != 3 {
                r matches Err(ApiError::ValidationError(_))
            } else {
                match rates {
                    Ok(None) => r matches Err(ApiError::NoRatesAvailable),
                    Ok(Some(dr)) => latest_rebase_rel(dr, bq@, r),
                    Err(e0) => r == Result::<LatestRatesResponse, ApiError>::Err(e0),
                }
            }
        },
        None => {
            match rates {
                Ok(None) => r matches Err(ApiError::NoRatesAvailable),
                Ok(Some(dr)) => r matches Ok(resp) && resp.date@ == dr.date@ && resp.base@
                    == dr.base@ && resp.rates@ == dr.rates@,
                Err(e0) => r == Result::<LatestRatesResponse, ApiError>::Err(e0),
            }
        },
    }
}

/// Answer a latest-rates request from the cache's answer for the
/// current snapshot.
///
/// Validation comes first, whatever the cache said: a requested base
/// that is not three characters is rejected with `ValidationError`.
/// Then a cache failure is passed through as it is; no cached snapshot
/// is `NoRatesAvailable`; a requested base rebases the whole table,
/// with an unknown base surfaced as `InternalError`; and no requested
/// base returns the snapshot as cached.
pub fn latest_core(rates: Result<Option<DailyRate>, ApiError>, query: &LatestRatesQuery) -> (r:
    Result<LatestRatesResponse, ApiError>)
    requires
        rates matches Ok(Some(dr)) ==> dr.wf(),
    ensures
        latest_core_rel(rates, *query, r),
        r matches Ok(resp) ==> resp.rates.wf(),
{
    match &query.base {
        Some(b) => {
            if code_char_len(b.as_str()) != 3 {
                return Err(
                    ApiError::ValidationError(
                        String::from_str("Base currency must be 3 characters"),
                    ),
                );
            }
            let dr = match rates {
                Ok(Some(d)) => d,
                Ok(None) => {
                    return Err(ApiError::NoRatesAvailable);
                },
                Err(e) => {
                    return Err(e);
                },
            };
            match rebase_rates(&dr, b.as_str()) {
                Ok(d) => Ok(LatestRatesResponse { date: d.date, base: d.base, rates: d.rates }),
                Err(ApiError::CurrencyNotFound(c)) => Err(ApiError::InternalError(c)),
                Err(e) => Err(e),
            }
        },
        None => {
            let dr = match rates {
                Ok(Some(d)) => d,
                Ok(None) => {
                    return Err(ApiError::NoRatesAvailable);
                },
                Err(e) => {
                    return Err(e);
                },
            };
            Ok(LatestRatesResponse { date: dr.date, base: dr.base, rates: dr.rates })
        },
    }
}

/// With a cached snapshot, a three-character base that the snapshot
/// neither has as its base nor lists is surfaced as an internal
/// failure carrying the code, which maps to HTTP 500 — never as a
/// not-found answer.
pub proof fn lemma_latest_unknown_base_is_500(
    dr: DailyRate,
    q: LatestRatesQuery,
    r: Result<LatestRatesResponse, ApiError>,
)
    requires
        latest_core_rel(Ok(Some(dr)), q, r),
        q.base matches Some(b) && b@.len() == 3 && upper_seq(b@) != dr.base@
            && !dr.rates@.contains_key(upper_seq(b@)),
    ensures
        r matches Err(e) && e matches ApiError::InternalError(_) && spec_status_code(e) == 500,
{
}

/// Answer a health probe. The endpoint itself never fails: the status
/// field is always `ok`, and an unreachable cache backend is reported
/// inline as `unhealthy`, not as an error.
pub fn health_core(redis_ok: bool, last_update: Option<String>) -> (r: HealthResponse)
    ensures
        r.status@ == "ok"@,
        redis_ok ==> r.redis@ == "healthy"@,
        !redis_ok ==> r.redis@ == "unhealthy"@,
        r.last_update == last_update,
{
    HealthResponse {
        status: String::from_str("ok"),
        redis: if redis_ok {
            String::from_str("healthy")
        } else {
            String::from_str("unhealthy")
        },
        last_update,
    }
}

} // verus!
