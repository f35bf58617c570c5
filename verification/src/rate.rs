//! The daily rate snapshot: a rate table keyed by currency code, the
//! snapshot itself, and its construction from the upstream feed's data.

use vstd::prelude::*;
use vstd::string::{StrSliceExecFns, StringExecFns};
use crate::decimal::{Dec, spec_parse_dec, dec_from_str};
use crate::text::{upper_seq, to_upper_code};

verus! {

/// Some entry carries the code `k`.
pub open spec fn has_code(s: Seq<(String, Dec)>, k: Seq<char>) -> bool {
    exists|i: int| 0 <= i < s.len() && (#[trigger] s[i]).0@ == k
}

/// The index of the entry carrying the code `k` (meaningful only where
/// the codes are unique and `has_code` holds).
pub open spec fn code_idx(s: Seq<(String, Dec)>, k: Seq<char>) -> int {
    choose|i: int| 0 <= i < s.len() && (#[trigger] s[i]).0@ == k
}

/// The value stored under the code `k`.
pub open spec fn value_of(s: Seq<(String, Dec)>, k: Seq<char>) -> Dec {
    s[code_idx(s, k)].1
}

/// No two entries carry the same code.
pub open spec fn unique_codes(s: Seq<(String, Dec)>) -> bool {
    forall|i: int, j: int|
        0 <= i < j < s.len() ==> (#[trigger] s[i]).0@ != (#[trigger] s[j]).0@
}

/// A table of decimal rates keyed by currency code. Codes are unique;
/// abstractly the table is a map from code to rate.
#[derive(Debug, Clone)]
pub struct RateMap {
    pub entries: Vec<(String, Dec)>,
}

impl View for RateMap {
    type V = Map<Seq<char>, Dec>;

    open spec fn view(&self) -> Map<Seq<char>, Dec> {
        Map::new(
            |k: Seq<char>| has_code(self.entries@, k),
            |k: Seq<char>| value_of(self.entries@, k),
        )
    }
}

pub proof fn lemma_code_idx(s: Seq<(String, Dec)>, k: Seq<char>, i: int)
    requires
        unique_codes(s),
        0 <= i < s.len(),
        s[i].0@ == k,
    ensures
        code_idx(s, k) == i,
{
    assert(has_code(s, k));
    let j = code_idx(s, k);
    if j != i {
        assert(s[i].0@ == s[j].0@);
        assert(false);
    }
}

impl RateMap {
    /// Codes are unique and every rate fits the decimal representation.
    pub open spec fn wf(self) -> bool {
        &&& unique_codes(self.entries@)
        &&& forall|i: int|
            0 <= i < self.entries@.len() ==> (#[trigger] self.entries@[i]).1.wf()
    }

    pub fn new() -> (r: RateMap)
        ensures
            r.wf(),
            r@ == Map::<Seq<char>, Dec>::empty(),
    {
        let r = RateMap { entries: Vec::new() };
        proof {
            assert(r@ =~= Map::<Seq<char>, Dec>::empty());
        }
        r
    }

    /// How many codes the table holds.
    pub fn len(&self) -> (n: usize)
        ensures
            n == self.entries@.len(),
    {
        self.entries.len()
    }

    /// Whether the table holds the code.
    pub fn contains(&self, code: &String) -> (r: bool)
        requires
            self.wf(),
        ensures
            r == self@.contains_key(code@),
    {
        self.get(code).is_some()
    }

    /// The rate stored under a code.
    pub fn get(&self, code: &String) -> (r: Option<Dec>)
        requires
            self.wf(),
        ensures
            r is Some <==> self@.contains_key(code@),
            r matches Some(d) ==> self@[code@] == d && d.wf(),
    {
        let n = self.entries.len();
        let mut i: usize = 0;
        while i < n
            invariant
                self.wf(),
                n == self.entries@.len(),
                i <= n,
                forall|j: int| 0 <= j < i ==> (#[trigger] self.entries@[j]).0@ != code@,
            decreases n - i,
        {
            if self.entries[i].0 == *code {
                proof {
                    lemma_code_idx(self.entries@, code@, i as int);
                }
                return Some(self.entries[i].1);
            }
            i += 1;
        }
        None
    }

    /// An entry-for-entry copy of the table.
    pub fn duplicate(&self) -> (r: RateMap)
        ensures
            r.entries@ == self.entries@,
            r@ == self@,
    {
        let n = self.entries.len();
        let mut entries: Vec<(String, Dec)> = Vec::new();
        let mut i: usize = 0;
        while i < n
            invariant
                n == self.entries@.len(),
                i <= n,
                entries@.len() == i,
                forall|j: int| 0 <= j < i ==> entries@[j] == self.entries@[j],
            decreases n - i,
        {
            entries.push((self.entries[i].0.clone(), self.entries[i].1));
            i += 1;
        }
        proof {
            assert(entries@ =~= self.entries@);
        }
        let r = RateMap { entries };
        proof {
            assert(r@ =~= self@);
        }
        r
    }

    /// Store a rate under a code, replacing any rate the code had.
    pub fn insert(&mut self, code: String, value: Dec)
        requires
            old(self).wf(),
            value.wf(),
        ensures
            final(self).wf(),
            final(self)@ == old(self)@.insert(code@, value),
    {
        let n = self.entries.len();
        let mut i: usize = 0;
        while i < n
            invariant
                self == old(self),
                self.wf(),
                value.wf(),
                n == self.entries@.len(),
                i <= n,
                forall|j: int| 0 <= j < i ==> (#[trigger] self.entries@[j]).0@ != code@,
            decreases n - i,
        {
            if self.entries[i].0 == code {
                proof {
                    lemma_code_idx(self.entries@, code@, i as int);
                }
                self.entries.set(i, (code, value));
                proof {
                    let ghost snew = self.entries@;
                    let ghost sold = old(self).entries@;
                    assert(forall|j: int|
                        0 <= j < snew.len() && j != i ==> snew[j] == #[trigger] sold[j]);
                    assert(snew[i as int].0@ == code@ && sold[i as int].0@ == code@);
                    assert forall|a: int, b: int|
                        0 <= a < b < snew.len() implies (#[trigger] snew[a]).0@ != (
                    #[trigger] snew[b]).0@ by {
                        assert(sold[a].0@ != sold[b].0@);
                    }
                    assert forall|j: int| 0 <= j < snew.len() implies (
                    #[trigger] snew[j]).1.wf() by {
                        if j == i as int {
                            assert(snew[j].1 == value);
                            assert(value.wf());
                        } else {
                            assert(sold[j].1.wf());
                        }
                    }
                    assert(self.wf());
                    assert forall|k: Seq<char>| #[trigger]
                        has_code(snew, k) implies (k == code@ || has_code(sold, k)) by {
                        let x = choose|x: int|
                            0 <= x < snew.len() && (#[trigger] snew[x]).0@ == k;
                        if x != i {
                            assert(sold[x].0@ == k);
                        }
                    }
                    assert forall|k: Seq<char>| #[trigger]
                        has_code(sold, k) implies has_code(snew, k) by {
                        let x = choose|x: int|
                            0 <= x < sold.len() && (#[trigger] sold[x]).0@ == k;
                        if x == i {
                            assert(snew[x].0@ == k);
                        } else {
                            assert(snew[x].0@ == k);
                        }
                    }
                    assert forall|k: Seq<char>| #[trigger]
                        has_code(snew, k) implies value_of(snew, k) == old(self)@.insert(
                        code@,
                        value,
                    )[k] by {
                        if k == code@ {
                            lemma_code_idx(snew, k, i as int);
                        } else {
                            let x = code_idx(snew, k);
                            assert(0 <= x < snew.len() && snew[x].0@ == k);
                            assert(x != i);
                            assert(sold[x].0@ == k);
                            lemma_code_idx(sold, k, x);
                        }
                    }
                    assert(self@ =~= old(self)@.insert(code@, value));
                }
                return ;
            }
            i += 1;
        }
        self.entries.push((code, value));
        proof {
            let ghost snew = self.entries@;
            let ghost sold = old(self).entries@;
            let ghost m = sold.len() as int;
            assert(forall|j: int| 0 <= j < m ==> #[trigger] snew[j] == sold[j]);
            assert(snew[m].0@ == code@);
            assert forall|a: int, b: int|
                0 <= a < b < snew.len() implies (#[trigger] snew[a]).0@ != (
            #[trigger] snew[b]).0@ by {
                if b < m {
                    assert(sold[a].0@ != sold[b].0@);
                } else {
                    assert(sold[a].0@ != code@);
                }
            }
            assert(self.wf());
            assert forall|k: Seq<char>| #[trigger]
                has_code(snew, k) implies (k == code@ || has_code(sold, k)) by {
                let x = choose|x: int| 0 <= x < snew.len() && (#[trigger] snew[x]).0@ == k;
                if x < m {
                    assert(sold[x].0@ == k);
                }
            }
            assert forall|k: Seq<char>| #[trigger]
                has_code(sold, k) implies has_code(snew, k) by {
                let x = choose|x: int| 0 <= x < sold.len() && (#[trigger] sold[x]).0@ == k;
                assert(snew[x].0@ == k);
            }
            assert forall|k: Seq<char>| #[trigger]
                has_code(snew, k) implies value_of(snew, k) == old(self)@.insert(
                code@,
                value,
            )[k] by {
                if k == code@ {
                    lemma_code_idx(snew, k, m);
                } else {
                    let x = code_idx(snew, k);
                    assert(0 <= x < snew.len() && snew[x].0@ == k);
                    assert(x != m);
                    assert(sold[x].0@ == k);
                    lemma_code_idx(sold, k, x);
                }
            }
            assert(self@ =~= old(self)@.insert(code@, value));
        }
    }
}

/// One daily snapshot: its date, the base currency, and the rate of
/// each listed currency relative to one unit of the base.
#[derive(Debug, Clone)]
pub struct DailyRate {
    pub date: String,
    pub base: String,
    pub rates: RateMap,
}

impl DailyRate {
    pub open spec fn wf(self) -> bool {
        self.rates.wf()
    }

    /// A deep copy of the snapshot.
    pub fn duplicate(&self) -> (r: DailyRate)
        ensures
            r.date@ == self.date@,
            r.base@ == self.base@,
            r.rates.entries@ == self.rates.entries@,
            r.rates@ == self.rates@,
    {
        DailyRate {
            date: self.date.clone(),
            base: self.base.clone(),
            rates: self.rates.duplicate(),
        }
    }

    /// Build a snapshot from the feed's reported date and its rate
    /// lines. Every rate string must parse as a non-negative decimal;
    /// the first offending line fails the whole construction with an
    /// error naming its currency code. Codes are upper-cased on
    /// insertion, and a repeated code overwrites. The base currency's
    /// implicit self-rate is never stored as an entry of its own.
    pub fn from_ecb_data(time: String, rates: Vec<EcbRate>) -> (r: Result<DailyRate, String>)
        ensures
            r is Ok <==> feed_rates_ok(rates@),
            r matches Ok(d) ==> d.wf() && d.date@ == time@ && d.base@ == "EUR"@ && d.rates@
                == feed_map(rates@),
            r matches Err(m) ==> feed_err(rates@, m@),
    {
        let mut rate_map = RateMap::new();
        let n = rates.len();
        let mut i: usize = 0;
        proof {
            assert(rates@.take(0) =~= Seq::<EcbRate>::empty());
        }
        while i < n
            invariant
                n == rates@.len(),
                i <= n,
                rate_map.wf(),
                rate_map@ == feed_map(rates@.take(i as int)),
                forall|j: int|
                    0 <= j < i ==> ((#[trigger] spec_parse_dec(rates@[j].rate@)) matches Some(d)
                        && !d.spec_is_negative()),
            decreases n - i,
        {
            let parsed = dec_from_str(rates[i].rate.as_str());
            match parsed {
                None => {
                    let msg = String::from_str("Failed to parse rate for ").concat(
                        rates[i].currency.as_str(),
                    );
                    proof {
                        assert(feed_err_at(rates@, i as int, msg@));
                        assert(feed_err(rates@, msg@));
                    }
                    return Err(msg);
                },
                Some(d) => {
                    if d.is_negative() {
                        let msg = String::from_str("Negative rate for ").concat(
                            rates[i].currency.as_str(),
                        );
                        proof {
                            assert(feed_err_at(rates@, i as int, msg@));
                            assert(feed_err(rates@, msg@));
                        }
                        return Err(msg);
                    }
                    let code = to_upper_code(rates[i].currency.as_str());
                    rate_map.insert(code, d);
                },
            }
            proof {
                let gi = i as int;
                assert(rates@.take(gi + 1).drop_last() =~= rates@.take(gi));
                assert(rates@.take(gi + 1).last() == rates@[gi]);
            }
            i += 1;
        }
        proof {
            assert(rates@.take(n as int) =~= rates@);
        }
        Ok(DailyRate { date: time, base: String::from_str("EUR"), rates: rate_map })
    }

    /// Check that the snapshot's date reads `YYYY-MM-DD` and names a
    /// real calendar day.
    pub fn validate_date(&self) -> (r: Result<(), String>)
        ensures
            r is Ok <==> valid_date_seq(self.date@),
    {
        let s = self.date.as_str();
        if s.unicode_len() != 10 {
            return Err(String::from_str("Invalid date format"));
        }
        let c0 = s.get_char(0);
        let c1 = s.get_char(1);
        let c2 = s.get_char(2);
        let c3 = s.get_char(3);
        let c4 = s.get_char(4);
        let c5 = s.get_char(5);
        let c6 = s.get_char(6);
        let c7 = s.get_char(7);
        let c8 = s.get_char(8);
        let c9 = s.get_char(9);
        if !(is_digit(c0) && is_digit(c1) && is_digit(c2) && is_digit(c3) && c4 == '-' && is_digit(
            c5,
        ) && is_digit(c6) && c7 == '-' && is_digit(c8) && is_digit(c9)) {
            return Err(String::from_str("Invalid date format"));
        }
        let y: u32 = digit(c0) * 1000 + digit(c1) * 100 + digit(c2) * 10 + digit(c3);
        let m: u32 = digit(c5) * 10 + digit(c6);
        let d: u32 = digit(c8) * 10 + digit(c9);
        if m < 1 || m > 12 {
            return Err(String::from_str("Invalid date format"));
        }
        let max_day: u32 = if m == 2 {
            if y % 4 == 0 && (y % 100 != 0 || y % 400 == 0) {
                29
            } else {
                28
            }
        } else if m == 4 || m == 6 || m == 9 || m == 11 {
            30
        } else {
            31
        };
        if d < 1 || d > max_day {
            return Err(String::from_str("Invalid date format"));
        }
        Ok(())
    }
}

/// One rate line of the upstream feed, as reported: a currency code
/// and the rate's text.
#[derive(Debug, Clone)]
pub struct EcbRate {
    pub currency: String,
    pub rate: String,
}

/// The feed's dated inner element: the reported date and its rate lines.
#[derive(Debug)]
pub struct EcbTimeCube {
    pub time: String,
    pub rates: Vec<EcbRate>,
}

/// The undated wrapper element around the dated one.
#[derive(Debug)]
pub struct EcbOuterCube {
    pub time_cube: EcbTimeCube,
}

/// The feed's envelope: the outermost document structure.
#[derive(Debug)]
pub struct EcbEnvelope {
    pub cube: EcbOuterCube,
}

/// Every rate line of the feed parses as a non-negative decimal.
pub open spec fn feed_rates_ok(rates: Seq<EcbRate>) -> bool {
    forall|i: int|
        0 <= i < rates.len() ==> ((#[trigger] spec_parse_dec(rates[i].rate@)) matches Some(d)
            && !d.spec_is_negative())
}

/// The rate table that the feed's lines build: codes upper-cased, a
/// repeated code overwritten by its later line.
pub open spec fn feed_map(rates: Seq<EcbRate>) -> Map<Seq<char>, Dec>
    decreases rates.len(),
{
    if rates.len() == 0 {
        Map::<Seq<char>, Dec>::empty()
    } else {
        let prev = feed_map(rates.drop_last());
        let e = rates.last();
        match spec_parse_dec(e.rate@) {
            Some(d) => prev.insert(upper_seq(e.currency@), d),
            None => prev,
        }
    }
}

/// Every code of the table that the feed's lines build was read from
/// some line: its key is that line's upper-cased currency code and its
/// value that line's parsed rate.
pub proof fn lemma_feed_map_from_lines(rates: Seq<EcbRate>, k: Seq<char>)
    requires
        feed_map(rates).contains_key(k),
    ensures
        exists|i: int|
            0 <= i < rates.len() && upper_seq((#[trigger] rates[i]).currency@) == k && (
            spec_parse_dec(rates[i].rate@) matches Some(d) && feed_map(rates)[k] == d),
    decreases rates.len(),
{
    if rates.len() == 0 {
        assert(!feed_map(rates).contains_key(k));
    } else {
        let prev = feed_map(rates.drop_last());
        let e = rates.last();
        let m = rates.len() - 1;
        match spec_parse_dec(e.rate@) {
            Some(d) => {
                if k == upper_seq(e.currency@) {
                    assert(rates[m] == e);
                    assert(feed_map(rates)[k] == d);
                } else {
                    assert(prev.contains_key(k));
                    lemma_feed_map_from_lines(rates.drop_last(), k);
                    let i = choose|i: int|
                        0 <= i < rates.drop_last().len() && upper_seq(
                            (#[trigger] rates.drop_last()[i]).currency@,
                        ) == k && (spec_parse_dec(rates.drop_last()[i].rate@) matches Some(d)
                            && prev[k] == d);
                    assert(rates[i] == rates.drop_last()[i]);
                    assert(feed_map(rates)[k] == prev[k]);
                }
            },
            None => {
                lemma_feed_map_from_lines(rates.drop_last(), k);
                let i = choose|i: int|
                    0 <= i < rates.drop_last().len() && upper_seq(
                        (#[trigger] rates.drop_last()[i]).currency@,
                    ) == k && (spec_parse_dec(rates.drop_last()[i].rate@) matches Some(d)
                        && prev[k] == d);
                assert(rates[i] == rates.drop_last()[i]);
            },
        }
    }
}

/// The construction failed with the message `m`: some line was the
/// first offending one.
pub open spec fn feed_err(rates: Seq<EcbRate>, m: Seq<char>) -> bool {
    exists|i: int| feed_err_at(rates, i, m)
}

/// The construction failed at line `i`, the first offending one, with
/// the message `m` naming its currency code.
pub open spec fn feed_err_at(rates: Seq<EcbRate>, i: int, m: Seq<char>) -> bool {
    &&& 0 <= i < rates.len()
    &&& forall|j: int|
        0 <= j < i ==> ((#[trigger] spec_parse_dec(rates[j].rate@)) matches Some(d)
            && !d.spec_is_negative())
    &&& match spec_parse_dec(rates[i].rate@) {
        None => m == "Failed to parse rate for "@ + rates[i].currency@,
        Some(d) => d.spec_is_negative() && m == "Negative rate for "@ + rates[i].currency@,
    }
}

/// The character is a decimal digit.
pub open spec fn spec_is_digit(c: char) -> bool {
    48 <= c as u32 <= 57
}

#[verifier::when_used_as_spec(spec_is_digit)]
pub fn is_digit(c: char) -> (r: bool)
    ensures
        r == spec_is_digit(c),
{
    let u = c as u32;
    48 <= u && u <= 57
}

/// The numeric value of a digit character.
pub open spec fn spec_digit(c: char) -> int {
    c as u32 - 48
}

pub fn digit(c: char) -> (r: u32)
    requires
        spec_is_digit(c),
    ensures
        r == spec_digit(c),
{
    c as u32 - 48
}

/// Every fourth year is a leap year, except every hundredth, except
/// every four-hundredth.
pub open spec fn leap_year(y: int) -> bool {
    y % 4 == 0 && (y % 100 != 0 || y % 400 == 0)
}

pub open spec fn days_in_month(y: int, m: int) -> int {
    if m == 2 {
        if leap_year(y) {
            29
        } else {
            28
        }
    } else if m == 4 || m == 6 || m == 9 || m == 11 {
        30
    } else {
        31
    }
}

/// The text reads `YYYY-MM-DD` and names a real calendar day of the
/// proleptic Gregorian calendar.
pub open spec fn valid_date_seq(s: Seq<char>) -> bool {
    &&& s.len() == 10
    &&& spec_is_digit(s[0]) && spec_is_digit(s[1]) && spec_is_digit(s[2]) && spec_is_digit(s[3])
    &&& s[4] == '-' && s[7] == '-'
    &&& spec_is_digit(s[5]) && spec_is_digit(s[6]) && spec_is_digit(s[8]) && spec_is_digit(s[9])
    &&& {
        let y = spec_digit(s[0]) * 1000 + spec_digit(s[1]) * 100 + spec_digit(s[2]) * 10
            + spec_digit(s[3]);
        let m = spec_digit(s[5]) * 10 + spec_digit(s[6]);
        let d = spec_digit(s[8]) * 10 + spec_digit(s[9]);
        1 <= m <= 12 && 1 <= d <= days_in_month(y, m)
    }
}

} // verus!
