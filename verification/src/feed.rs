//! Parsing the upstream feed's XML payload into a snapshot.
//!
//! The feed is a small XML document: an envelope whose `Cube` element
//! nests a dated `Cube`, which lists one self-closing `Cube` per
//! currency with `currency` and `rate` attributes. The scanner below is
//! a byte-by-byte tag machine: it walks the document's tags, collects
//! the first `time` attribute and every (`currency`, `rate`) attribute
//! pair of `Cube` elements, and refuses malformed tags. Its whole
//! behaviour is the specification machine `spec_step` folded over the
//! document's bytes, so which documents are accepted — and exactly what
//! they yield — is pinned by `spec_scan`. The snapshot is then built
//! and validated by the rate model.

use vstd::prelude::*;
use vstd::string::{StrSliceExecFns, StringExecFns, StringSliceAdditionalSpecFns};
use crate::decimal::{Dec, spec_parse_dec};
use crate::error::ApiError;
use crate::rate::{
    DailyRate, EcbEnvelope, EcbOuterCube, EcbTimeCube, EcbRate, feed_map,
    lemma_feed_map_from_lines, valid_date_seq,
};
use crate::text::{string_from_ascii, upper_seq};

verus! {

broadcast use vstd::string::group_string_axioms;

/// XML whitespace: space, tab, line feed, carriage return.
pub open spec fn spec_is_ws(c: u8) -> bool {
    c == 32 || c == 9 || c == 10 || c == 13
}

#[verifier::when_used_as_spec(spec_is_ws)]
fn is_ws(c: u8) -> (r: bool)
    ensures
        r == spec_is_ws(c),
{
    c == 32 || c == 9 || c == 10 || c == 13
}

fn parse_err(msg: &str) -> (r: ApiError)
    ensures
        r matches ApiError::ParseError(m) && m@ == msg@,
{
    ApiError::ParseError(String::from_str(msg))
}

/// The characters `t` stand verbatim at position `s` of the byte
/// sequence `b`.
pub open spec fn chars_at(t: Seq<char>, b: Seq<u8>, s: int) -> bool {
    0 <= s && s + t.len() <= b.len() && forall|q: int| 0 <= q < t.len() ==> t[q] == b[s + q] as char
}

/// The characters `t` stand verbatim somewhere in the byte sequence
/// `b`: the scanner invents no text.
pub open spec fn chars_in(t: Seq<char>, b: Seq<u8>) -> bool {
    exists|s: int| chars_at(t, b, s)
}

/// The bytes `v` stand verbatim at position `s` of `b`.
pub open spec fn bytes_at(v: Seq<u8>, b: Seq<u8>, s: int) -> bool {
    0 <= s && s + v.len() <= b.len() && forall|q: int| 0 <= q < v.len() ==> v[q] == b[s + q]
}

/// The bytes `v` stand verbatim somewhere in `b`.
pub open spec fn bytes_in(v: Seq<u8>, b: Seq<u8>) -> bool {
    exists|s: int| bytes_at(v, b, s)
}

/// The characters `t` stand verbatim at position `s` of the document
/// `x`.
pub open spec fn chars_at_doc(t: Seq<char>, x: Seq<char>, s: int) -> bool {
    0 <= s && s + t.len() <= x.len() && forall|q: int| 0 <= q < t.len() ==> t[q] == x[s + q]
}

/// The characters `t` stand verbatim somewhere in the document `x`.
pub open spec fn verbatim_in(t: Seq<char>, x: Seq<char>) -> bool {
    exists|s: int| chars_at_doc(t, x, s)
}

/// The code `k` was read from the document `x`: some verbatim piece of
/// the document upper-cases to it.
pub open spec fn code_from_document(k: Seq<char>, x: Seq<char>) -> bool {
    exists|c: Seq<char>| verbatim_in(c, x) && #[trigger] upper_seq(c) == k
}

/// The rate `val` was read from the document `x`: some verbatim piece
/// of the document parses to it.
pub open spec fn value_from_document(val: Dec, x: Seq<char>) -> bool {
    exists|v: Seq<char>| verbatim_in(v, x) && #[trigger] spec_parse_dec(v) == Some(val)
}

/// Text found among the document's ASCII bytes stands verbatim in the
/// document itself.
proof fn lemma_chars_in_doc(t: Seq<char>, b: Seq<u8>, x: Seq<char>)
    requires
        chars_in(t, b),
        b.len() == x.len(),
        forall|q: int| 0 <= q < x.len() ==> b[q] == (#[trigger] x[q]) as u8,
        forall|q: int| 0 <= q < x.len() ==> '\0' <= #[trigger] x[q] <= '\u{7f}',
    ensures
        verbatim_in(t, x),
{
    let s = choose|s: int| chars_at(t, b, s);
    assert forall|q: int| 0 <= q < t.len() implies t[q] == x[s + q] by {
        assert(t[q] == b[s + q] as char);
        assert(b[s + q] == x[s + q] as u8);
        assert('\0' <= x[s + q] <= '\u{7f}');
    }
    assert(chars_at_doc(t, x, s));
}

/// ASCII characters as their bytes.
pub open spec fn ascii_bytes(x: Seq<char>) -> Seq<u8> {
    x.map_values(|c: char| c as u8)
}

/// Bytes as the ASCII characters they spell.
pub open spec fn chars_of(v: Seq<u8>) -> Seq<char> {
    v.map_values(|b: u8| b as char)
}

/// The bytes of the element name `Cube`.
pub open spec fn cube_name() -> Seq<u8> {
    seq![67u8, 117u8, 98u8, 101u8]
}

/// The bytes of the attribute name `time`.
pub open spec fn time_name() -> Seq<u8> {
    seq![116u8, 105u8, 109u8, 101u8]
}

/// The bytes of the attribute name `currency`.
pub open spec fn currency_name() -> Seq<u8> {
    seq![99u8, 117u8, 114u8, 114u8, 101u8, 110u8, 99u8, 121u8]
}

/// The bytes of the attribute name `rate`.
pub open spec fn rate_name() -> Seq<u8> {
    seq![114u8, 97u8, 116u8, 101u8]
}

/// Where the tag machine stands within the document.
#[derive(Clone, Copy, Debug)]
pub enum ScanMode {
    /// Text between tags.
    Text,
    /// Right after `<`.
    AfterLt,
    /// Inside `<?`, `<!` or `</`: skipping to `>`.
    Bang,
    /// Reading an element name.
    Name,
    /// Inside a tag, between attributes.
    AttrSpace,
    /// Reading an attribute name.
    AttrName,
    /// After an attribute name, expecting `=`.
    PreEq,
    /// After `=`, expecting an opening quote.
    PreQuote,
    /// Inside a quoted attribute value.
    Value,
    /// After `/` inside a tag, expecting `>`.
    Slash,
}

/// The tag machine's state: its mode, the buffers it is filling, the
/// captured attributes of the current element, and everything gathered
/// so far — the first dated element's date and the (`currency`, `rate`)
/// pairs of the `Cube` elements, in document order.
pub struct ScanSt {
    pub mode: ScanMode,
    pub fail: bool,
    pub name: Seq<u8>,
    pub attr: Seq<u8>,
    pub quote: u8,
    pub value: Seq<u8>,
    pub time_v: Option<Seq<u8>>,
    pub currency_v: Option<Seq<u8>>,
    pub rate_v: Option<Seq<u8>>,
    pub date: Option<Seq<u8>>,
    pub lines: Seq<(Seq<u8>, Seq<u8>)>,
}

pub open spec fn init_st() -> ScanSt {
    ScanSt {
        mode: ScanMode::Text,
        fail: false,
        name: Seq::empty(),
        attr: Seq::empty(),
        quote: 0,
        value: Seq::empty(),
        time_v: None,
        currency_v: None,
        rate_v: None,
        date: None,
        lines: Seq::empty(),
    }
}

/// A finished attribute value is captured when the element is a `Cube`
/// and the attribute is one of the three the feed carries.
pub open spec fn spec_record(st: ScanSt) -> ScanSt {
    if st.name == cube_name() {
        if st.attr == time_name() {
            ScanSt { mode: ScanMode::AttrSpace, time_v: Some(st.value), value: Seq::empty(), ..st }
        } else if st.attr == currency_name() {
            ScanSt {
                mode: ScanMode::AttrSpace,
                currency_v: Some(st.value),
                value: Seq::empty(),
                ..st
            }
        } else if st.attr == rate_name() {
            ScanSt { mode: ScanMode::AttrSpace, rate_v: Some(st.value), value: Seq::empty(), ..st }
        } else {
            ScanSt { mode: ScanMode::AttrSpace, value: Seq::empty(), ..st }
        }
    } else {
        ScanSt { mode: ScanMode::AttrSpace, value: Seq::empty(), ..st }
    }
}

/// A closing `>`: a `Cube` element contributes its captured attributes
/// — a currency with its rate, or a failure if only one of the two is
/// present, and the first `time` seen becomes the date.
pub open spec fn spec_close(st: ScanSt) -> ScanSt {
    let cleared = ScanSt {
        mode: ScanMode::Text,
        time_v: None,
        currency_v: None,
        rate_v: None,
        ..st
    };
    if st.name == cube_name() {
        match (st.currency_v, st.rate_v) {
            (Some(cv), Some(rv)) => {
                let pushed = ScanSt { lines: st.lines.push((cv, rv)), ..cleared };
                match st.time_v {
                    Some(tv) => if st.date is None {
                        ScanSt { date: Some(tv), ..pushed }
                    } else {
                        pushed
                    },
                    None => pushed,
                }
            },
            (Some(cv), None) => ScanSt { fail: true, ..cleared },
            (None, Some(rv)) => ScanSt { fail: true, ..cleared },
            (None, None) => {
                match st.time_v {
                    Some(tv) => if st.date is None {
                        ScanSt { date: Some(tv), ..cleared }
                    } else {
                        cleared
                    },
                    None => cleared,
                }
            },
        }
    } else {
        cleared
    }
}

/// One byte of the document. A failure absorbs every later byte.
pub open spec fn spec_step(st: ScanSt, c: u8) -> ScanSt {
    if st.fail {
        st
    } else {
        match st.mode {
            ScanMode::Text => if c == 60 {
                ScanSt {
                    mode: ScanMode::AfterLt,
                    name: Seq::empty(),
                    time_v: None,
                    currency_v: None,
                    rate_v: None,
                    ..st
                }
            } else {
                st
            },
            ScanMode::AfterLt => if c == 63 || c == 33 || c == 47 {
                ScanSt { mode: ScanMode::Bang, ..st }
            } else if c == 62 {
                spec_close(st)
            } else if spec_is_ws(c) {
                ScanSt { mode: ScanMode::AttrSpace, ..st }
            } else {
                ScanSt { mode: ScanMode::Name, name: Seq::empty().push(c), ..st }
            },
            ScanMode::Bang => if c == 62 {
                ScanSt { mode: ScanMode::Text, ..st }
            } else {
                st
            },
            ScanMode::Name => if spec_is_ws(c) {
                ScanSt { mode: ScanMode::AttrSpace, ..st }
            } else if c == 62 {
                spec_close(st)
            } else if c == 47 {
                ScanSt { mode: ScanMode::Slash, ..st }
            } else {
                ScanSt { name: st.name.push(c), ..st }
            },
            ScanMode::AttrSpace => if spec_is_ws(c) {
                st
            } else if c == 62 {
                spec_close(st)
            } else if c == 47 {
                ScanSt { mode: ScanMode::Slash, ..st }
            } else if c == 61 {
                ScanSt { mode: ScanMode::PreQuote, attr: Seq::empty(), ..st }
            } else {
                ScanSt { mode: ScanMode::AttrName, attr: Seq::empty().push(c), ..st }
            },
            ScanMode::AttrName => if c == 61 {
                ScanSt { mode: ScanMode::PreQuote, ..st }
            } else if spec_is_ws(c) {
                ScanSt { mode: ScanMode::PreEq, ..st }
            } else if c == 62 || c == 47 {
                ScanSt { fail: true, ..st }
            } else {
                ScanSt { attr: st.attr.push(c), ..st }
            },
            ScanMode::PreEq => if spec_is_ws(c) {
                st
            } else if c == 61 {
                ScanSt { mode: ScanMode::PreQuote, ..st }
            } else {
                ScanSt { fail: true, ..st }
            },
            ScanMode::PreQuote => if spec_is_ws(c) {
                st
            } else if c == 34 || c == 39 {
                ScanSt { mode: ScanMode::Value, quote: c, value: Seq::empty(), ..st }
            } else {
                ScanSt { fail: true, ..st }
            },
            ScanMode::Value => if c == st.quote {
                spec_record(st)
            } else {
                ScanSt { value: st.value.push(c), ..st }
            },
            ScanMode::Slash => if c == 62 {
                spec_close(st)
            } else {
                ScanSt { fail: true, ..st }
            },
        }
    }
}

/// The machine run over the document's bytes from position `j` on.
pub open spec fn spec_run(b: Seq<u8>, j: int, st: ScanSt) -> ScanSt
    decreases b.len() - j,
{
    if j < 0 || j >= b.len() {
        st
    } else {
        spec_run(b, j + 1, spec_step(st, b[j]))
    }
}

/// The machine run over the whole document.
pub open spec fn spec_scan(b: Seq<u8>) -> ScanSt {
    spec_run(b, 0, init_st())
}

/// The scanner accepts the document: no byte failed the machine, the
/// document ends outside a tag, and some `Cube` carried a `time`.
pub open spec fn scan_ok(b: Seq<u8>) -> bool {
    &&& !spec_scan(b).fail
    &&& spec_scan(b).mode is Text
    &&& spec_scan(b).date is Some
}

spec fn ov(o: Option<Vec<u8>>) -> Option<Seq<u8>> {
    match o {
        Some(v) => Some(v@),
        None => None,
    }
}

spec fn sv(o: Option<String>) -> Option<Seq<u8>> {
    match o {
        Some(s) => Some(ascii_bytes(s@)),
        None => None,
    }
}

spec fn lev(l: Seq<EcbRate>) -> Seq<(Seq<u8>, Seq<u8>)> {
    l.map_values(|e: EcbRate| (ascii_bytes(e.currency@), ascii_bytes(e.rate@)))
}

fn is_cube_name(v: &Vec<u8>) -> (r: bool)
    ensures
        r == (v@ == cube_name()),
{
    let r = v.len() == 4 && v[0] == 67 && v[1] == 117 && v[2] == 98 && v[3] == 101;
    proof {
        if r {
            assert(v@ =~= cube_name());
        } else {
            assert(v@ != cube_name());
        }
    }
    r
}

fn is_time_name(v: &Vec<u8>) -> (r: bool)
    ensures
        r == (v@ == time_name()),
{
    let r = v.len() == 4 && v[0] == 116 && v[1] == 105 && v[2] == 109 && v[3] == 101;
    proof {
        if r {
            assert(v@ =~= time_name());
        } else {
            assert(v@ != time_name());
        }
    }
    r
}

fn is_currency_name(v: &Vec<u8>) -> (r: bool)
    ensures
        r == (v@ == currency_name()),
{
    let r = v.len() == 8 && v[0] == 99 && v[1] == 117 && v[2] == 114 && v[3] == 114 && v[4] == 101
        && v[5] == 110 && v[6] == 99 && v[7] == 121;
    proof {
        if r {
            assert(v@ =~= currency_name());
        } else {
            assert(v@ != currency_name());
        }
    }
    r
}

fn is_rate_name(v: &Vec<u8>) -> (r: bool)
    ensures
        r == (v@ == rate_name()),
{
    let r = v.len() == 4 && v[0] == 114 && v[1] == 97 && v[2] == 116 && v[3] == 101;
    proof {
        if r {
            assert(v@ =~= rate_name());
        } else {
            assert(v@ != rate_name());
        }
    }
    r
}

/// The closing `>` of a tag, on the executable side: mirrors
/// `spec_close`, building the strings of a finished rate line or of
/// the date. The element's captured attributes are consumed; the
/// caller resets them to `None` and the mode to `Text`.
fn do_close(
    b: &Vec<u8>,
    name: &Vec<u8>,
    time_v: Option<Vec<u8>>,
    currency_v: Option<Vec<u8>>,
    rate_v: Option<Vec<u8>>,
    date: &mut Option<String>,
    lines: &mut Vec<EcbRate>,
) -> (fail: bool)
    requires
        forall|k: int| 0 <= k < b@.len() ==> b@[k] < 128,
        time_v matches Some(v) ==> bytes_in(v@, b@),
        currency_v matches Some(v) ==> bytes_in(v@, b@),
        rate_v matches Some(v) ==> bytes_in(v@, b@),
    ensures
        forall|st: ScanSt|
            (!st.fail && st.name == name@ && st.time_v == ov(time_v) && st.currency_v == ov(
                currency_v,
            ) && st.rate_v == ov(rate_v) && st.date == sv(*old(date)) && st.lines == lev(
                old(lines)@,
            )) ==> {
                let post = #[trigger] spec_close(st);
                &&& post.fail == fail
                &&& post.mode is Text
                &&& post.time_v is None && post.currency_v is None && post.rate_v is None
                &&& post.date == sv(*final(date))
                &&& post.lines == lev(final(lines)@)
                &&& post.name == st.name && post.attr == st.attr && post.value == st.value
                    && post.quote == st.quote
            },
        forall|k: int| 0 <= k < old(lines)@.len() ==> final(lines)@[k] == old(lines)@[k],
        final(lines)@.len() == old(lines)@.len() || (final(lines)@.len() == old(lines)@.len() + 1
            && chars_in(final(lines)@.last().currency@, b@) && chars_in(
            final(lines)@.last().rate@,
            b@,
        )),
        *final(date) == *old(date) || (*final(date) matches Some(ds) && chars_in(ds@, b@)),
{
    if !is_cube_name(name) {
        return false;
    }
    match (currency_v, rate_v) {
        (Some(cv), Some(rv)) => {
            let ghost cvv = cv@;
            let ghost rvv = rv@;
            proof {
                let s1 = choose|s: int| bytes_at(cvv, b@, s);
                assert(forall|q: int| 0 <= q < cvv.len() ==> cvv[q] < 128);
                let s2 = choose|s: int| bytes_at(rvv, b@, s);
                assert(forall|q: int| 0 <= q < rvv.len() ==> rvv[q] < 128);
            }
            let currency = string_from_ascii(cv);
            let rate = string_from_ascii(rv);
            proof {
                assert(ascii_bytes(currency@) =~= cvv);
                assert(ascii_bytes(rate@) =~= rvv);
                let s1 = choose|s: int| bytes_at(cvv, b@, s);
                assert(chars_at(currency@, b@, s1));
                let s2 = choose|s: int| bytes_at(rvv, b@, s);
                assert(chars_at(rate@, b@, s2));
            }
            let line = EcbRate { currency, rate };
            lines.push(line);
            proof {
                assert(lev(final(lines)@) =~= lev(old(lines)@).push((cvv, rvv)));
            }
            take_date(b, time_v, date);
            false
        },
        (Some(_), None) => true,
        (None, Some(_)) => true,
        (None, None) => {
            take_date(b, time_v, date);
            false
        },
    }
}

/// The first `time` attribute seen becomes the date.
fn take_date(b: &Vec<u8>, time_v: Option<Vec<u8>>, date: &mut Option<String>)
    requires
        forall|k: int| 0 <= k < b@.len() ==> b@[k] < 128,
        time_v matches Some(v) ==> bytes_in(v@, b@),
    ensures
        ({
            match (time_v, *old(date)) {
                (Some(tv), None) => *final(date) matches Some(ds) && ascii_bytes(ds@) == tv@,
                _ => *final(date) == *old(date),
            }
        }),
        *final(date) == *old(date) || (*final(date) matches Some(ds) && chars_in(ds@, b@)),
{
    match time_v {
        Some(tv) => {
            if date.is_none() {
                let ghost tvv = tv@;
                proof {
                    let s = choose|s: int| bytes_at(tvv, b@, s);
                    assert(forall|q: int| 0 <= q < tvv.len() ==> tvv[q] < 128);
                }
                let ds = string_from_ascii(tv);
                proof {
                    assert(ascii_bytes(ds@) =~= tvv);
                    let s = choose|s: int| bytes_at(tvv, b@, s);
                    assert(chars_at(ds@, b@, s));
                }
                *date = Some(ds);
            }
        },
        None => {},
    }
}

/// Run the tag machine over the document's bytes and return the
/// envelope it gathered. The result is `Ok` exactly where `scan_ok`
/// accepts the bytes, and then carries exactly the machine's date and
/// rate lines, each read verbatim from the document.
fn scan_feed(b: &Vec<u8>) -> (r: Result<EcbEnvelope, ApiError>)
    requires
        forall|k: int| 0 <= k < b@.len() ==> b@[k] < 128,
    ensures
        r is Ok <==> scan_ok(b@),
        r matches Err(e) ==> e matches ApiError::ParseError(_),
        r matches Ok(env) ==> ({
            let st = spec_scan(b@);
            &&& st.date matches Some(dv) && env.cube.time_cube.time@ == chars_of(dv)
            &&& env.cube.time_cube.rates@.len() == st.lines.len()
            &&& (forall|k: int|
                0 <= k < st.lines.len() ==> (#[trigger] env.cube.time_cube.rates@[k]).currency@
                    == chars_of(st.lines[k].0) && env.cube.time_cube.rates@[k].rate@ == chars_of(
                    st.lines[k].1,
                ))
            &&& chars_in(env.cube.time_cube.time@, b@)
            &&& (forall|k: int|
                0 <= k < env.cube.time_cube.rates@.len() ==> chars_in(
                    (#[trigger] env.cube.time_cube.rates@[k]).currency@,
                    b@,
                ) && chars_in(env.cube.time_cube.rates@[k].rate@, b@))
        }),
{
    let n = b.len();
    let mut i: usize = 0;
    let mut mode = ScanMode::Text;
    let mut failed = false;
    let mut fail_msg: &str = "Malformed feed";
    let mut name: Vec<u8> = Vec::new();
    let mut attr: Vec<u8> = Vec::new();
    let mut quote: u8 = 0;
    let mut value: Vec<u8> = Vec::new();
    let mut v_start: usize = 0;
    let mut time_v: Option<Vec<u8>> = None;
    let mut currency_v: Option<Vec<u8>> = None;
    let mut rate_v: Option<Vec<u8>> = None;
    let mut date: Option<String> = None;
    let mut lines: Vec<EcbRate> = Vec::new();
    proof {
        assert(lev(lines@) =~= Seq::<(Seq<u8>, Seq<u8>)>::empty());
        assert(ScanSt {
            mode,
            fail: failed,
            name: name@,
            attr: attr@,
            quote,
            value: value@,
            time_v: ov(time_v),
            currency_v: ov(currency_v),
            rate_v: ov(rate_v),
            date: sv(date),
            lines: lev(lines@),
        } == init_st());
    }
    while i < n
        invariant
            n == b@.len(),
            i <= n,
            forall|k: int| 0 <= k < b@.len() ==> b@[k] < 128,
            spec_run(
                b@,
                i as int,
                ScanSt {
                    mode,
                    fail: failed,
                    name: name@,
                    attr: attr@,
                    quote,
                    value: value@,
                    time_v: ov(time_v),
                    currency_v: ov(currency_v),
                    rate_v: ov(rate_v),
                    date: sv(date),
                    lines: lev(lines@),
                },
            ) == spec_scan(b@),
            !failed && mode is Value ==> v_start <= i && value@ == b@.subrange(
                v_start as int,
                i as int,
            ),
            time_v matches Some(v) ==> bytes_in(v@, b@),
            currency_v matches Some(v) ==> bytes_in(v@, b@),
            rate_v matches Some(v) ==> bytes_in(v@, b@),
            date matches Some(ds) ==> chars_in(ds@, b@),
            forall|k: int|
                0 <= k < lines@.len() ==> chars_in((#[trigger] lines@[k]).currency@, b@)
                    && chars_in(lines@[k].rate@, b@),
        decreases n - i,
    {
        let ghost pre = ScanSt {
            mode,
            fail: failed,
            name: name@,
            attr: attr@,
            quote,
            value: value@,
            time_v: ov(time_v),
            currency_v: ov(currency_v),
            rate_v: ov(rate_v),
            date: sv(date),
            lines: lev(lines@),
        };
        let c = b[i];
        if failed {
            // a failure absorbs the rest of the document
        } else {
            match mode {
                ScanMode::Text => {
                    if c == 60 {
                        mode = ScanMode::AfterLt;
                        name = Vec::new();
                        time_v = None;
                        currency_v = None;
                        rate_v = None;
                    }
                },
                ScanMode::AfterLt => {
                    if c == 63 || c == 33 || c == 47 {
                        mode = ScanMode::Bang;
                    } else if c == 62 {
                        let f = do_close(b, &name, time_v, currency_v, rate_v, &mut date, &mut lines);
                        time_v = None;
                        currency_v = None;
                        rate_v = None;
                        mode = ScanMode::Text;
                        if f {
                            failed = true;
                            fail_msg = "Cube element missing currency or rate";
                        }
                    } else if is_ws(c) {
                        mode = ScanMode::AttrSpace;
                    } else {
                        mode = ScanMode::Name;
                        name = Vec::new();
                        name.push(c);
                    }
                },
                ScanMode::Bang => {
                    if c == 62 {
                        mode = ScanMode::Text;
                    }
                },
                ScanMode::Name => {
                    if is_ws(c) {
                        mode = ScanMode::AttrSpace;
                    } else if c == 62 {
                        let f = do_close(b, &name, time_v, currency_v, rate_v, &mut date, &mut lines);
                        time_v = None;
                        currency_v = None;
                        rate_v = None;
                        mode = ScanMode::Text;
                        if f {
                            failed = true;
                            fail_msg = "Cube element missing currency or rate";
                        }
                    } else if c == 47 {
                        mode = ScanMode::Slash;
                    } else {
                        name.push(c);
                    }
                },
                ScanMode::AttrSpace => {
                    if is_ws(c) {
                    } else if c == 62 {
                        let f = do_close(b, &name, time_v, currency_v, rate_v, &mut date, &mut lines);
                        time_v = None;
                        currency_v = None;
                        rate_v = None;
                        mode = ScanMode::Text;
                        if f {
                            failed = true;
                            fail_msg = "Cube element missing currency or rate";
                        }
                    } else if c == 47 {
                        mode = ScanMode::Slash;
                    } else if c == 61 {
                        mode = ScanMode::PreQuote;
                        attr = Vec::new();
                    } else {
                        mode = ScanMode::AttrName;
                        attr = Vec::new();
                        attr.push(c);
                    }
                },
                ScanMode::AttrName => {
                    if c == 61 {
                        mode = ScanMode::PreQuote;
                    } else if is_ws(c) {
                        mode = ScanMode::PreEq;
                    } else if c == 62 || c == 47 {
                        failed = true;
                        fail_msg = "Malformed attribute";
                    } else {
                        attr.push(c);
                    }
                },
                ScanMode::PreEq => {
                    if is_ws(c) {
                    } else if c == 61 {
                        mode = ScanMode::PreQuote;
                    } else {
                        failed = true;
                        fail_msg = "Malformed attribute";
                    }
                },
                ScanMode::PreQuote => {
                    if is_ws(c) {
                    } else if c == 34 || c == 39 {
                        mode = ScanMode::Value;
                        quote = c;
                        value = Vec::new();
                        v_start = i + 1;
                    } else {
                        failed = true;
                        fail_msg = "Malformed attribute value";
                    }
                },
                ScanMode::Value => {
                    if c == quote {
                        proof {
                            assert(bytes_at(value@, b@, v_start as int));
                        }
                        if is_cube_name(&name) {
                            if is_time_name(&attr) {
                                time_v = Some(value);
                            } else if is_currency_name(&attr) {
                                currency_v = Some(value);
                            } else if is_rate_name(&attr) {
                                rate_v = Some(value);
                            }
                        }
                        value = Vec::new();
                        mode = ScanMode::AttrSpace;
                    } else {
                        value.push(c);
                    }
                },
                ScanMode::Slash => {
                    if c == 62 {
                        let f = do_close(b, &name, time_v, currency_v, rate_v, &mut date, &mut lines);
                        time_v = None;
                        currency_v = None;
                        rate_v = None;
                        mode = ScanMode::Text;
                        if f {
                            failed = true;
                            fail_msg = "Cube element missing currency or rate";
                        }
                    } else {
                        failed = true;
                        fail_msg = "Malformed tag";
                    }
                },
            }
        }
        i += 1;
        proof {
            let gi = i as int - 1;
            let cur = ScanSt {
                mode,
                fail: failed,
                name: name@,
                attr: attr@,
                quote,
                value: value@,
                time_v: ov(time_v),
                currency_v: ov(currency_v),
                rate_v: ov(rate_v),
                date: sv(date),
                lines: lev(lines@),
            };
            assert(cur == spec_step(pre, b@[gi]));
            assert(spec_run(b@, gi, pre) == spec_run(b@, gi + 1, spec_step(pre, b@[gi])));
        }
    }
    proof {
        let cur = ScanSt {
            mode,
            fail: failed,
            name: name@,
            attr: attr@,
            quote,
            value: value@,
            time_v: ov(time_v),
            currency_v: ov(currency_v),
            rate_v: ov(rate_v),
            date: sv(date),
            lines: lev(lines@),
        };
        assert(spec_run(b@, n as int, cur) == cur);
        assert(cur == spec_scan(b@));
    }
    if failed {
        return Err(parse_err(fail_msg));
    }
    match mode {
        ScanMode::Text => {},
        ScanMode::AfterLt | ScanMode::Bang | ScanMode::Name | ScanMode::AttrSpace => {
            return Err(parse_err("Unterminated tag"));
        },
        ScanMode::AttrName | ScanMode::PreEq => {
            return Err(parse_err("Malformed attribute"));
        },
        ScanMode::PreQuote => {
            return Err(parse_err("Malformed attribute value"));
        },
        ScanMode::Value => {
            return Err(parse_err("Unterminated attribute value"));
        },
        ScanMode::Slash => {
            return Err(parse_err("Malformed tag"));
        },
    }
    match date {
        Some(time) => {
            proof {
                assert(ascii_bytes(time@) == spec_scan(b@).date->0);
                assert(chars_of(ascii_bytes(time@)) =~= time@);
                assert forall|k: int| 0 <= k < lines@.len() implies (
                #[trigger] lines@[k]).currency@ == chars_of(spec_scan(b@).lines[k].0)
                    && lines@[k].rate@ == chars_of(spec_scan(b@).lines[k].1) by {
                    assert(spec_scan(b@).lines[k] == lev(lines@)[k]);
                    assert(chars_of(ascii_bytes(lines@[k].currency@)) =~= lines@[k].currency@);
                    assert(chars_of(ascii_bytes(lines@[k].rate@)) =~= lines@[k].rate@);
                }
            }
            Ok(EcbEnvelope { cube: EcbOuterCube { time_cube: EcbTimeCube { time, rates: lines } } })
        },
        None => Err(parse_err("No dated Cube element in feed")),
    }
}

/// Every rate line the machine gathered parses as a non-negative
/// decimal.
pub open spec fn feed_lines_ok(lines: Seq<(Seq<u8>, Seq<u8>)>) -> bool {
    forall|i: int|
        0 <= i < lines.len() ==> ((#[trigger] spec_parse_dec(chars_of(lines[i].1))) matches Some(d)
            && !d.spec_is_negative())
}

/// The rate table the machine's lines build: codes upper-cased, a
/// repeated code overwritten by its later line.
pub open spec fn feed_table(lines: Seq<(Seq<u8>, Seq<u8>)>) -> Map<Seq<char>, Dec>
    decreases lines.len(),
{
    if lines.len() == 0 {
        Map::<Seq<char>, Dec>::empty()
    } else {
        let prev = feed_table(lines.drop_last());
        match spec_parse_dec(chars_of(lines.last().1)) {
            Some(d) => prev.insert(upper_seq(chars_of(lines.last().0)), d),
            None => prev,
        }
    }
}

/// A snapshot's lines and the machine's lines that spell the same text
/// build the same table.
proof fn lemma_feed_map_table(rates: Seq<EcbRate>, lines: Seq<(Seq<u8>, Seq<u8>)>)
    requires
        rates.len() == lines.len(),
        forall|k: int|
            0 <= k < rates.len() ==> (#[trigger] rates[k]).currency@ == chars_of(lines[k].0)
                && rates[k].rate@ == chars_of(lines[k].1),
    ensures
        feed_map(rates) == feed_table(lines),
    decreases rates.len(),
{
    if rates.len() == 0 {
        assert(feed_map(rates) =~= feed_table(lines));
    } else {
        lemma_feed_map_table(rates.drop_last(), lines.drop_last());
        assert(rates.last() == rates[rates.len() - 1]);
        assert(lines.last() == lines[lines.len() - 1]);
    }
}

/// The documents the parser accepts: ASCII text that the tag machine
/// scans without failure, ending outside a tag, with a dated `Cube`,
/// at least one rate line, every rate line a non-negative decimal, and
/// a date naming a real calendar day.
pub open spec fn accepts_feed(x: Seq<char>) -> bool {
    &&& vstd::utf8::is_ascii_chars(x)
    &&& scan_ok(ascii_bytes(x))
    &&& spec_scan(ascii_bytes(x)).lines.len() > 0
    &&& feed_lines_ok(spec_scan(ascii_bytes(x)).lines)
    &&& (spec_scan(ascii_bytes(x)).date matches Some(dv) && valid_date_seq(chars_of(dv)))
}

/// Parse the feed's XML into a validated snapshot.
///
/// The result is `Ok` exactly on the documents `accepts_feed`
/// describes, and then the snapshot is pinned: its base is `EUR`, its
/// date is the document's `time` text, and its table is the one built
/// from all of the document's rate lines in order. Every code and
/// every rate comes verbatim from the document, and any failure is a
/// `ParseError`.
pub fn parse_ecb_xml(xml: &str) -> (r: Result<DailyRate, ApiError>)
    ensures
        r is Ok <==> accepts_feed(xml@),
        r matches Ok(d) ==> ({
            let st = spec_scan(ascii_bytes(xml@));
            &&& d.wf()
            &&& d.base@ == "EUR"@
            &&& st.date matches Some(dv) && d.date@ == chars_of(dv)
            &&& valid_date_seq(d.date@)
            &&& d.rates@ == feed_table(st.lines)
            &&& verbatim_in(d.date@, xml@)
        }),
        r matches Ok(d) ==> (forall|k: Seq<char>| #[trigger]
            d.rates@.contains_key(k) ==> code_from_document(k, xml@) && value_from_document(
                d.rates@[k],
                xml@,
            )),
        r matches Err(e) ==> e matches ApiError::ParseError(_),
{
    if !xml.is_ascii() {
        return Err(parse_err("Non-ASCII feed content"));
    }
    let b = xml.as_bytes_vec();
    proof {
        assert forall|k: int| 0 <= k < b@.len() implies b@[k] == (#[trigger] xml@[k]) as u8 by {}
        assert forall|k: int| 0 <= k < b@.len() implies b@[k] < 128 by {
            assert('\0' <= xml@[k] <= '\u{7f}');
        }
        assert(b@ =~= ascii_bytes(xml@));
    }
    let envelope = match scan_feed(&b) {
        Ok(e) => e,
        Err(e) => {
            return Err(e);
        },
    };
    if envelope.cube.time_cube.rates.len() == 0 {
        return Err(parse_err("No currency rates in feed"));
    }
    let time_cube = envelope.cube.time_cube;
    let ghost lines_g: Seq<EcbRate> = time_cube.rates@;
    let ghost st = spec_scan(ascii_bytes(xml@));
    proof {
        assert forall|k: int|
            0 <= k < lines_g.len() implies ((#[trigger] spec_parse_dec(lines_g[k].rate@))
            == spec_parse_dec(chars_of(st.lines[k].1))) by {
            assert(lines_g[k].rate@ == chars_of(st.lines[k].1));
        }
    }
    let daily = match DailyRate::from_ecb_data(time_cube.time, time_cube.rates) {
        Ok(d) => d,
        Err(m) => {
            proof {
                assert(!feed_lines_ok(st.lines)) by {
                    if feed_lines_ok(st.lines) {
                        assert forall|k: int|
                            0 <= k < lines_g.len() implies ((#[trigger] spec_parse_dec(
                            lines_g[k].rate@,
                        )) matches Some(d) && !d.spec_is_negative()) by {
                            assert(spec_parse_dec(chars_of(st.lines[k].1)) matches Some(d)
                                && !d.spec_is_negative());
                        }
                        assert(crate::rate::feed_rates_ok(lines_g));
                    }
                }
            }
            return Err(ApiError::ParseError(m));
        },
    };
    proof {
        assert(feed_lines_ok(st.lines)) by {
            assert forall|k: int|
                0 <= k < st.lines.len() implies ((#[trigger] spec_parse_dec(
                chars_of(st.lines[k].1),
            )) matches Some(d) && !d.spec_is_negative()) by {
                assert(spec_parse_dec(lines_g[k].rate@) matches Some(d) && !d.spec_is_negative());
            }
        }
        lemma_feed_map_table(lines_g, st.lines);
    }
    match daily.validate_date() {
        Ok(_) => {},
        Err(m) => {
            return Err(ApiError::ParseError(m));
        },
    }
    proof {
        assert forall|q: int| 0 <= q < xml@.len() implies b@[q] == (#[trigger] xml@[q]) as u8 by {}
        lemma_chars_in_doc(daily.date@, b@, xml@);
        assert forall|k: Seq<char>| #[trigger]
            daily.rates@.contains_key(k) implies code_from_document(k, xml@)
            && value_from_document(daily.rates@[k], xml@) by {
            assert(feed_map(lines_g).contains_key(k));
            lemma_feed_map_from_lines(lines_g, k);
            let i = choose|i: int|
                0 <= i < lines_g.len() && upper_seq((#[trigger] lines_g[i]).currency@) == k && (
                spec_parse_dec(lines_g[i].rate@) matches Some(d) && feed_map(lines_g)[k] == d);
            assert(chars_in(lines_g[i].currency@, b@));
            assert(chars_in(lines_g[i].rate@, b@));
            lemma_chars_in_doc(lines_g[i].currency@, b@, xml@);
            lemma_chars_in_doc(lines_g[i].rate@, b@, xml@);
            assert(code_from_document(k, xml@));
            assert(value_from_document(daily.rates@[k], xml@));
        }
    }
    Ok(daily)
}

} // verus!
