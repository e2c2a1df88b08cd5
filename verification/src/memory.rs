//! Parsing of `/proc/meminfo` and `/proc/pressure/memory`, and the rates that
//! successive pressure samples give.
use vstd::prelude::*;
use crate::clock::Elapsed;
use crate::text::{
    chars_of, decimal, lines, parse_u64_from, parse_u64_spec, push_decimal, spells,
    split_lines, split_words, views, words,
};

verus! {

#[verifier::external_type_specification]
pub struct ExErrorKind(std::io::ErrorKind);

/// Why a meminfo text was refused.
#[derive(Clone, Copy, Debug, PartialEq, Eq, Structural)]
pub enum MeminfoError {
    /// A known field occurs twice, or its line is not `<key> <number> kB`.
    MalformedField,
    /// A field is absent, or MemAvailable or MemTotal is zero.
    MissingFields,
}

impl MeminfoError {
    /// Every refusal is invalid data, as an I/O error would class it.
    pub fn kind(&self) -> (k: std::io::ErrorKind)
        ensures
            k == std::io::ErrorKind::InvalidData,
    {
        std::io::ErrorKind::InvalidData
    }
}


impl MeminfoError {
    pub fn message(&self) -> (m: &'static str)
        ensures
            m@ == meminfo_error_message(*self),
    {
        match self {
            MeminfoError::MalformedField => "malformed meminfo field",
            MeminfoError::MissingFields => "missing required memory fields",
        }
    }
}

pub open spec fn meminfo_error_message(e: MeminfoError) -> Seq<char> {
    match e {
        MeminfoError::MalformedField => "malformed meminfo field"@,
        MeminfoError::MissingFields => "missing required memory fields"@,
    }
}

/// The slot of a meminfo key among (MemAvailable, MemTotal, SwapTotal, SwapFree).
pub open spec fn meminfo_slot(key: Seq<char>) -> Option<int> {
    if key == "MemAvailable:"@ {
        Some(0)
    } else if key == "MemTotal:"@ {
        Some(1)
    } else if key == "SwapTotal:"@ {
        Some(2)
    } else if key == "SwapFree:"@ {
        Some(3)
    } else {
        None
    }
}

/// A count of KiB, in bytes, where it fits in 64 bits.
pub open spec fn kib_in_bytes(word: Seq<char>) -> Option<u64> {
    match parse_u64_spec(word) {
        Some(n) => if n * 1024 <= u64::MAX {
            Some((n * 1024) as u64)
        } else {
            None
        },
        None => None,
    }
}

/// The fields after one line (given as its words), or `None` where the line is malformed.
pub open spec fn meminfo_line(f: Seq<Option<u64>>, w: Seq<Seq<char>>) -> Option<Seq<Option<u64>>> {
    let key = if w.len() > 0 {
        w[0]
    } else {
        Seq::<char>::empty()
    };
    match meminfo_slot(key) {
        None => Some(f),
        Some(i) => {
            let value = if w.len() > 1 {
                kib_in_bytes(w[1])
            } else {
                None
            };
            if f[i] is Some || value is None || !(w.len() > 2 && w[2] == "kB"@) || w.len() > 3 {
                None
            } else {
                Some(f.update(i, value))
            }
        },
    }
}

/// The fields after the given lines, or `None` once a line is malformed.
pub open spec fn meminfo_scan(ls: Seq<Seq<char>>) -> Option<Seq<Option<u64>>>
    decreases ls.len(),
{
    if ls.len() == 0 {
        Some(seq![None, None, None, None])
    } else {
        match meminfo_scan(ls.drop_last()) {
            None => None,
            Some(f) => meminfo_line(f, words(ls.last())),
        }
    }
}

/// What a meminfo text yields: (MemAvailable, MemTotal, SwapTotal, SwapFree) in bytes.
pub open spec fn meminfo_spec(text: Seq<char>) -> Result<(u64, u64, u64, u64), MeminfoError> {
    match meminfo_scan(lines(text)) {
        None => Err(MeminfoError::MalformedField),
        Some(f) => if f[0] is Some && f[1] is Some && f[2] is Some && f[3] is Some && f[0]->0 != 0
            && f[1]->0 != 0 {
            Ok((f[0]->0, f[1]->0, f[2]->0, f[3]->0))
        } else {
            Err(MeminfoError::MissingFields)
        },
    }
}

proof fn lemma_meminfo_scan_stays_failed(ls: Seq<Seq<char>>, k: int)
    requires
        0 <= k <= ls.len(),
        meminfo_scan(ls.take(k)) is None,
    ensures
        meminfo_scan(ls) is None,
    decreases ls.len() - k,
{
    if k < ls.len() {
        assert(ls.take(k + 1).drop_last() =~= ls.take(k));
        lemma_meminfo_scan_stays_failed(ls, k + 1);
    } else {
        assert(ls.take(k) =~= ls);
    }
}

fn meminfo_slot_of(key: &Vec<char>) -> (r: Option<usize>)
    ensures
        r matches Some(i) ==> meminfo_slot(key@) == Some(i as int),
        r is None ==> meminfo_slot(key@) is None,
{
    if spells(key, "MemAvailable:") {
        Some(0)
    } else if spells(key, "MemTotal:") {
        Some(1)
    } else if spells(key, "SwapTotal:") {
        Some(2)
    } else if spells(key, "SwapFree:") {
        Some(3)
    } else {
        None
    }
}

fn meminfo_line_exec(f: &mut Vec<Option<u64>>, w: &Vec<Vec<char>>) -> (ok: bool)
    requires
        old(f)@.len() == 4,
    ensures
        ok ==> meminfo_line(old(f)@, views(w@)) == Some(final(f)@),
        !ok ==> meminfo_line(old(f)@, views(w@)) is None,
        final(f)@.len() == 4,
{
    let ghost ws = views(w@);
    let empty: Vec<char> = Vec::new();
    let key = if w.len() > 0 {
        assert(ws[0] == w@[0]@);
        &w[0]
    } else {
        assert(empty@ =~= Seq::<char>::empty());
        &empty
    };
    let slot = match meminfo_slot_of(key) {
        None => {
            return true;
        },
        Some(i) => i,
    };
    let value = if w.len() > 1 {
        assert(ws[1] == w@[1]@);
        let v1 = &w[1];
        assert(v1@.skip(0) =~= v1@);
        match parse_u64_from(v1, 0) {
            Some(n) => n.checked_mul(1024),
            None => None,
        }
    } else {
        None
    };
    let unit_ok = w.len() > 2 && spells(&w[2], "kB");
    proof {
        if w.len() > 2 {
            assert(ws[2] == w@[2]@);
        }
    }
    if f[slot].is_some() || value.is_none() || !unit_ok || w.len() > 3 {
        return false;
    }
    f.set(slot, value);
    true
}

/// Reads (MemAvailable, MemTotal, SwapTotal, SwapFree), in bytes, from the text of
/// `/proc/meminfo`, whose values are in KiB.
pub fn parse_meminfo(text: &str) -> (r: Result<(u64, u64, u64, u64), MeminfoError>)
    ensures
        r == meminfo_spec(text@),
{
    let chars = chars_of(text);
    let ls = split_lines(&chars);
    let ghost lv = views(ls@);
    let mut f: Vec<Option<u64>> = vec![None, None, None, None];
    let mut i: usize = 0;
    assert(lv.take(0) =~= Seq::<Seq<char>>::empty());
    assert(f@ =~= seq![None, None, None, None]);
    while i < ls.len()
        invariant
            i <= ls@.len(),
            lv == views(ls@),
            lv == lines(text@),
            f@.len() == 4,
            meminfo_scan(lv.take(i as int)) == Some(f@),
        decreases ls@.len() - i,
    {
        let w = split_words(&ls[i]);
        assert(lv.take(i + 1).drop_last() =~= lv.take(i as int));
        assert(lv.take(i + 1).last() == ls@[i as int]@);
        if !meminfo_line_exec(&mut f, &w) {
            proof {
                lemma_meminfo_scan_stays_failed(lv, i + 1);
            }
            return Err(MeminfoError::MalformedField);
        }
        i = i + 1;
    }
    assert(lv.take(lv.len() as int) =~= lv);
    match (f[0], f[1], f[2], f[3]) {
        (Some(a), Some(t), Some(st), Some(sf)) => {
            if a == 0 || t == 0 {
                Err(MeminfoError::MissingFields)
            } else {
                Ok((a, t, st, sf))
            }
        },
        _ => Err(MeminfoError::MissingFields),
    }
}


/// Every field that a scan has read is a whole number of KiB, in bytes.
proof fn lemma_meminfo_scan_whole_kib(ls: Seq<Seq<char>>)
    ensures
        meminfo_scan(ls) matches Some(f) ==> f.len() == 4 && forall|i: int|
            0 <= i < 4 && #[trigger] f[i] is Some ==> f[i]->0 % 1024 == 0,
    decreases ls.len(),
{
    if ls.len() > 0 {
        lemma_meminfo_scan_whole_kib(ls.drop_last());
    }
}

/// The figures read from a meminfo text are whole numbers of KiB, in bytes, and
/// MemAvailable and MemTotal are never zero.
pub proof fn law_meminfo_whole_kib(text: Seq<char>)
    ensures
        meminfo_spec(text) matches Ok((a, t, st, sf)) ==> a % 1024 == 0 && t % 1024 == 0 && st
            % 1024 == 0 && sf % 1024 == 0 && a > 0 && t > 0,
{
    lemma_meminfo_scan_whole_kib(lines(text));
}

/// One stream of `/proc/pressure/memory`: the averages as whole numbers (a
/// fractional average reads as 0) and the total stall time in microseconds.
#[derive(Clone, Copy, Debug, PartialEq, Eq, Structural)]
pub struct Psi {
    pub avg10: u64,
    pub avg60: u64,
    pub avg300: u64,
    pub total_us: u64,
}

/// One sample of the memory figures.
#[derive(Clone, Debug, Default)]
pub struct Snapshot {
    pub available: u64,
    pub total: u64,
    pub swap_total: u64,
    pub swap_free: u64,
    pub psi_some: Option<Psi>,
    pub psi_full: Option<Psi>,
}

/// `x` without the leading `name`, where `x` begins with it.
pub open spec fn strip_prefix(x: Seq<char>, name: Seq<char>) -> Option<Seq<char>> {
    if name.len() <= x.len() && x.take(name.len() as int) == name {
        Some(x.skip(name.len() as int))
    } else {
        None
    }
}

/// The number in `x` after `name`, where `x` is `name` followed by a number.
pub open spec fn field_value(x: Seq<char>, name: Seq<char>) -> Option<u64> {
    match strip_prefix(x, name) {
        Some(rest) => parse_u64_spec(rest),
        None => None,
    }
}

/// The first of `values` that is `name` followed by a number, as that number.
pub open spec fn find_field(values: Seq<Seq<char>>, name: Seq<char>) -> Option<u64>
    decreases values.len(),
{
    if values.len() == 0 {
        None
    } else {
        match field_value(values[0], name) {
            Some(v) => Some(v),
            None => find_field(values.drop_first(), name),
        }
    }
}

pub open spec fn or_zero(v: Option<u64>) -> u64 {
    match v {
        Some(x) => x,
        None => 0,
    }
}

/// The streams after one line (given as its words): a line with a `total=` value
/// replaces the stream that its first word names, `some` or `full`.
pub open spec fn psi_line(out: (Option<Psi>, Option<Psi>), w: Seq<Seq<char>>) -> (
    Option<Psi>,
    Option<Psi>,
) {
    let kind = if w.len() > 0 {
        w[0]
    } else {
        Seq::<char>::empty()
    };
    let values = if w.len() > 0 {
        w.drop_first()
    } else {
        Seq::<Seq<char>>::empty()
    };
    match find_field(values, "total="@) {
        None => out,
        Some(total_us) => {
            let value = Psi {
                avg10: or_zero(find_field(values, "avg10="@)),
                avg60: or_zero(find_field(values, "avg60="@)),
                avg300: or_zero(find_field(values, "avg300="@)),
                total_us,
            };
            if kind == "some"@ {
                (Some(value), out.1)
            } else if kind == "full"@ {
                (out.0, Some(value))
            } else {
                out
            }
        },
    }
}

pub open spec fn psi_scan(ls: Seq<Seq<char>>) -> (Option<Psi>, Option<Psi>)
    decreases ls.len(),
{
    if ls.len() == 0 {
        (None, None)
    } else {
        psi_line(psi_scan(ls.drop_last()), words(ls.last()))
    }
}

/// The (some, full) streams of a pressure text.
pub open spec fn psi_spec(text: Seq<char>) -> (Option<Psi>, Option<Psi>) {
    psi_scan(lines(text))
}

fn starts_with(x: &Vec<char>, p: &Vec<char>) -> (r: bool)
    ensures
        r == (p@.len() <= x@.len() && x@.take(p@.len() as int) == p@),
{
    if p.len() > x.len() {
        return false;
    }
    let mut i: usize = 0;
    while i < p.len()
        invariant
            p@.len() <= x@.len(),
            i <= p@.len(),
            forall|j: int| 0 <= j < i ==> x@[j] == p@[j],
        decreases p@.len() - i,
    {
        if x[i] != p[i] {
            assert(x@.take(p@.len() as int)[i as int] != p@[i as int]);
            return false;
        }
        i = i + 1;
    }
    assert(x@.take(p@.len() as int) =~= p@);
    true
}

fn find_field_exec(values: &Vec<Vec<char>>, name: &str) -> (r: Option<u64>)
    ensures
        r == find_field(views(values@), name@),
{
    let p = chars_of(name);
    let ghost vs = views(values@);
    let mut i: usize = 0;
    assert(vs.skip(0) =~= vs);
    while i < values.len()
        invariant
            i <= values@.len(),
            vs == views(values@),
            p@ == name@,
            find_field(vs, name@) == find_field(vs.skip(i as int), name@),
        decreases values@.len() - i,
    {
        let x = &values[i];
        assert(vs.skip(i as int)[0] == x@);
        assert(vs.skip(i as int).drop_first() =~= vs.skip(i + 1));
        if starts_with(x, &p) {
            let r = parse_u64_from(x, p.len());
            if r.is_some() {
                return r;
            }
        }
        i = i + 1;
    }
    None
}

fn tail_of(w: &Vec<Vec<char>>) -> (r: Vec<Vec<char>>)
    requires
        w@.len() > 0,
    ensures
        views(r@) == views(w@).drop_first(),
{
    let ghost wv = views(w@);
    let mut values: Vec<Vec<char>> = Vec::new();
    let mut j: usize = 1;
    assert(views(values@) =~= wv.subrange(1, 1));
    while j < w.len()
        invariant
            1 <= j <= w@.len(),
            wv == views(w@),
            views(values@) == wv.subrange(1, j as int),
        decreases w@.len() - j,
    {
        let ghost before = views(values@);
        values.push(w[j].clone());
        assert(views(values@) =~= before.push(wv[j as int]));
        assert(wv.subrange(1, j + 1) =~= wv.subrange(1, j as int).push(wv[j as int]));
        j = j + 1;
    }
    assert(wv.subrange(1, w@.len() as int) =~= wv.drop_first());
    values
}

/// Reads the (some, full) streams from the text of `/proc/pressure/memory`.
pub fn parse_psi(text: &str) -> (r: (Option<Psi>, Option<Psi>))
    ensures
        r == psi_spec(text@),
{
    let chars = chars_of(text);
    let ls = split_lines(&chars);
    let ghost lv = views(ls@);
    let mut out: (Option<Psi>, Option<Psi>) = (None, None);
    let mut i: usize = 0;
    assert(lv.take(0) =~= Seq::<Seq<char>>::empty());
    while i < ls.len()
        invariant
            i <= ls@.len(),
            lv == views(ls@),
            lv == lines(text@),
            psi_scan(lv.take(i as int)) == out,
        decreases ls@.len() - i,
    {
        let w = split_words(&ls[i]);
        let ghost wv = views(w@);
        assert(lv.take(i + 1).drop_last() =~= lv.take(i as int));
        assert(lv.take(i + 1).last() == ls@[i as int]@);
        let values = if w.len() > 0 {
            tail_of(&w)
        } else {
            let none: Vec<Vec<char>> = Vec::new();
            assert(views(none@) =~= Seq::<Seq<char>>::empty());
            none
        };
        if let Some(total_us) = find_field_exec(&values, "total=") {
            let value = Psi {
                avg10: match find_field_exec(&values, "avg10=") {
                    Some(v) => v,
                    None => 0,
                },
                avg60: match find_field_exec(&values, "avg60=") {
                    Some(v) => v,
                    None => 0,
                },
                avg300: match find_field_exec(&values, "avg300=") {
                    Some(v) => v,
                    None => 0,
                },
                total_us,
            };
            let empty: Vec<char> = Vec::new();
            let kind = if w.len() > 0 {
                assert(wv[0] == w@[0]@);
                &w[0]
            } else {
                assert(empty@ =~= Seq::<char>::empty());
                &empty
            };
            if spells(kind, "some") {
                out = (Some(value), out.1);
            } else if spells(kind, "full") {
                out = (out.0, Some(value));
            }
        }
        i = i + 1;
    }
    assert(lv.take(lv.len() as int) =~= lv);
    out
}

/// `a * b`, or `u64::MAX` where the product does not fit.
pub open spec fn sat_mul(a: u64, b: u64) -> u64 {
    if a * b <= u64::MAX {
        (a * b) as u64
    } else {
        u64::MAX
    }
}

/// The stall rate between two samples of one stream: the growth of the total
/// stall time, times 1000, per second; `None` where a sample is missing, no time
/// passed, more than 300 s passed, or the counter went backwards.
pub open spec fn psi_delta_spec(previous: Option<Psi>, current: Option<Psi>, elapsed_secs: u64) -> Option<u64> {
    match (previous, current) {
        (Some(a), Some(b)) => if elapsed_secs == 0 || elapsed_secs > 300 || b.total_us < a.total_us {
            None
        } else {
            Some((sat_mul((b.total_us - a.total_us) as u64, 1000) / elapsed_secs) as u64)
        },
        _ => None,
    }
}

pub fn psi_delta(previous: Option<Psi>, current: Option<Psi>, elapsed_secs: u64) -> (r: Option<u64>)
    ensures
        r == psi_delta_spec(previous, current, elapsed_secs),
{
    let (a, b) = match (previous, current) {
        (Some(a), Some(b)) => (a, b),
        _ => {
            return None;
        },
    };
    if elapsed_secs == 0 || elapsed_secs > 300 || b.total_us < a.total_us {
        return None;
    }
    let grown = b.total_us - a.total_us;
    let scaled = if grown > u64::MAX / 1000 {
        u64::MAX
    } else {
        grown * 1000
    };
    Some(scaled / elapsed_secs)
}

/// Builds a sample from the text of `/proc/meminfo` and, where it could be read,
/// the text of `/proc/pressure/memory`.
pub fn read(meminfo_text: &str, pressure_text: Option<&str>) -> (r: Result<Snapshot, MeminfoError>)
    ensures
        match meminfo_spec(meminfo_text@) {
            Err(e) => r == Err::<Snapshot, MeminfoError>(e),
            Ok((a, t, st, sf)) => r matches Ok(s) && s.available == a && s.total == t
                && s.swap_total == st && s.swap_free == sf && (s.psi_some, s.psi_full) == (
            match pressure_text {
                Some(p) => psi_spec(p@),
                None => (None, None),
            }),
        },
{
    let (a, t, st, sf) = match parse_meminfo(meminfo_text) {
        Ok(v) => v,
        Err(e) => {
            return Err(e);
        },
    };
    let (some, full) = match pressure_text {
        Some(p) => parse_psi(p),
        None => (None, None),
    };
    Ok(
        Snapshot {
            available: a,
            total: t,
            swap_total: st,
            swap_free: sf,
            psi_some: some,
            psi_full: full,
        },
    )
}


/// A pressure-stall rate in parts per million of wall time (10% is 100_000).
#[derive(Clone, Copy, Debug, PartialEq, Eq, Structural)]
pub struct PsiRatePpm(pub u64);

/// A rate in tenths of a percent, rounded half up.
pub open spec fn rounded_tenths(ppm: u64) -> nat {
    (ppm / 1000 + if ppm % 1000 >= 500 {
        1nat
    } else {
        0nat
    }) as nat
}

/// A rate as a percentage with one decimal, such as `12.5%`.
pub open spec fn percent_text(ppm: u64) -> Seq<char> {
    let t = rounded_tenths(ppm);
    decimal(t / 10) + seq!['.'] + decimal(t % 10) + seq!['%']
}

impl PsiRatePpm {
    /// The rate as a percentage with one decimal, such as `12.5%`.
    pub fn to_string(&self) -> (s: String)
        ensures
            s@ == percent_text(self.0),
    {
        let ppm = self.0;
        let tenths = ppm / 1000 + if ppm % 1000 >= 500 {
            1
        } else {
            0
        };
        let mut s = String::new();
        push_decimal(&mut s, tenths / 10);
        s.append(".");
        push_decimal(&mut s, tenths % 10);
        s.append("%");
        proof {
            reveal_strlit(".");
            reveal_strlit("%");
        }
        assert(s@ =~= percent_text(self.0));
        s
    }
}


/// The stall rate between two samples of one stream, in parts per million of the
/// wall time between them (rounded down, capped at `u64::MAX`); `None` where a
/// sample is missing, no time passed, more than 300 s passed, or the counter went
/// backwards.
pub open spec fn psi_rate_spec(previous: Option<Psi>, current: Option<Psi>, elapsed_nanos: u128) -> Option<
    PsiRatePpm,
> {
    match (previous, current) {
        (Some(a), Some(b)) => if elapsed_nanos == 0 || elapsed_nanos > 300_000_000_000
            || b.total_us < a.total_us {
            None
        } else {
            let q = (b.total_us - a.total_us) * 1_000_000_000 / (elapsed_nanos as int);
            Some(
                PsiRatePpm(
                    if q > u64::MAX {
                        u64::MAX
                    } else {
                        q as u64
                    },
                ),
            )
        },
        _ => None,
    }
}

pub fn calculate_psi_rate_ppm(previous: Option<Psi>, current: Option<Psi>, elapsed: Elapsed) -> (r:
    Option<PsiRatePpm>)
    ensures
        r == psi_rate_spec(previous, current, elapsed.nanos),
{
    let (a, b) = match (previous, current) {
        (Some(a), Some(b)) => (a, b),
        _ => {
            return None;
        },
    };
    let nanos = elapsed.as_nanos();
    if nanos == 0 || nanos > 300_000_000_000 || b.total_us < a.total_us {
        return None;
    }
    // stalled microseconds * 1000 (ns per us) * 10^6 (ppm) / elapsed nanoseconds
    let stalled = (b.total_us - a.total_us) as u128 * 1_000_000_000;
    let q = stalled / nanos;
    if q > u64::MAX as u128 {
        Some(PsiRatePpm(u64::MAX))
    } else {
        Some(PsiRatePpm(q as u64))
    }
}

/// Over a whole number of seconds, the rate in ppm is `psi_delta`'s rate divided
/// by 1000 (where `psi_delta` does not saturate).
pub proof fn law_ppm_agrees_with_delta(a: Psi, b: Psi, secs: u64)
    requires
        1 <= secs <= 300,
        a.total_us <= b.total_us,
        (b.total_us - a.total_us) * 1000 <= u64::MAX,
    ensures
        psi_delta_spec(Some(a), Some(b), secs) matches Some(d) && psi_rate_spec(
            Some(a),
            Some(b),
            (secs * 1_000_000_000) as u128,
        ) == Some(PsiRatePpm(d / 1000)),
{
    let g = (b.total_us - a.total_us) as int;
    let s = secs as int;
    let k = 1_000_000_000int;
    // (g * k) / (s * k) == g / s
    vstd::arithmetic::div_mod::lemma_div_denominator(g * k, k, s);
    vstd::arithmetic::div_mod::lemma_div_multiples_vanish(g, k);
    vstd::arithmetic::mul::lemma_mul_is_commutative(g, k);
    vstd::arithmetic::mul::lemma_mul_is_commutative(s, k);
    assert(g * k / (s * k) == g / s);
    // (g * 1000) / s / 1000 == g / s
    vstd::arithmetic::div_mod::lemma_div_denominator(g * 1000, s, 1000);
    vstd::arithmetic::div_mod::lemma_div_denominator(g * 1000, 1000, s);
    vstd::arithmetic::div_mod::lemma_div_multiples_vanish(g, 1000);
    vstd::arithmetic::mul::lemma_mul_is_commutative(g, 1000);
    vstd::arithmetic::mul::lemma_mul_is_commutative(s, 1000);
    assert((g * 1000) / s / 1000 == g / s);
    assert((secs * 1_000_000_000) as u128 as int == s * k);
}


proof fn lemma_find_field_skips(values: Seq<Seq<char>>, name: Seq<char>, k: int)
    requires
        0 <= k <= values.len(),
        forall|i: int|
            0 <= i < k ==> !(name.len() <= #[trigger] values[i].len() && values[i].take(
                name.len() as int,
            ) == name),
    ensures
        find_field(values, name) == find_field(values.skip(k), name),
    decreases k,
{
    if k > 0 {
        assert(strip_prefix(values[0], name) is None);
        let rest = values.drop_first();
        assert forall|i: int| 0 <= i < k - 1 implies !(name.len() <= #[trigger] rest[i].len()
            && rest[i].take(name.len() as int) == name) by {
            assert(rest[i] == values[i + 1]);
        }
        lemma_find_field_skips(rest, name, k - 1);
        assert(rest.skip(k - 1) =~= values.skip(k));
    } else {
        assert(values.skip(0) =~= values);
    }
}

/// A pressure line sets its stream from its total, whatever the total is (0
/// included): where the last line of a text begins with `some` (or `full`) and
/// its first `total=` word is `total=N`, the text's `some` (or `full`) stream is
/// known, with `N` microseconds of stall.
pub proof fn law_psi_total_sets_stream(text: Seq<char>, j: int, n: u64)
    requires
        words(lines(text).last()).len() > 0,
        words(lines(text).last())[0] == "some"@ || words(lines(text).last())[0] == "full"@,
        1 <= j < words(lines(text).last()).len(),
        forall|i: int|
            1 <= i < j ==> !("total="@.len() <= #[trigger] words(lines(text).last())[i].len()
                && words(lines(text).last())[i].take("total="@.len() as int) == "total="@),
        words(lines(text).last())[j] == "total="@ + decimal(n as nat),
    ensures
        words(lines(text).last())[0] == "some"@ ==> (psi_spec(text).0 matches Some(p)
            && p.total_us == n),
        words(lines(text).last())[0] == "full"@ ==> (psi_spec(text).1 matches Some(p)
            && p.total_us == n),
{
    let ls = lines(text);
    let w = words(ls.last());
    let values = w.drop_first();
    let name = "total="@;
    assert forall|i: int| 0 <= i < j - 1 implies !(name.len() <= #[trigger] values[i].len()
        && values[i].take(name.len() as int) == name) by {
        assert(values[i] == w[i + 1]);
    }
    lemma_find_field_skips(values, name, j - 1);
    let x = values.skip(j - 1)[0];
    assert(x == w[j]);
    let d = decimal(n as nat);
    assert(x.take(name.len() as int) =~= name);
    assert(x.skip(name.len() as int) =~= d);
    crate::text::law_parse_reads_decimal(n);
    assert(field_value(x, name) == Some(n));
    assert(find_field(values, name) == Some(n));
    assert(ls.len() > 0);
    assert(psi_spec(text) == psi_line(psi_scan(ls.drop_last()), w));
    reveal_strlit("some");
    reveal_strlit("full");
    assert("some"@[0] != "full"@[0]);
}


/// `psi_delta` is the stall growth times 1000 per second, rounded down:
/// `d * secs <= growth * 1000 < (d + 1) * secs` where it does not saturate.
pub proof fn law_psi_delta_rounds_down(a: Psi, b: Psi, secs: u64)
    requires
        1 <= secs <= 300,
        a.total_us <= b.total_us,
        (b.total_us - a.total_us) * 1000 <= u64::MAX,
    ensures
        psi_delta_spec(Some(a), Some(b), secs) matches Some(d) && d * secs <= (b.total_us
            - a.total_us) * 1000 < (d + 1) * secs,
{
    crate::text::lemma_div_bounds((b.total_us - a.total_us) * 1000, secs as int);
}

/// The ppm rate is the stalled share of the elapsed time times 10^6, rounded
/// down: `r * n <= stall_ns * 10^6 < (r + 1) * n` where it is not capped.
pub proof fn law_psi_rate_rounds_down(a: Psi, b: Psi, elapsed_nanos: u128)
    requires
        0 < elapsed_nanos <= 300_000_000_000,
        a.total_us <= b.total_us,
        psi_rate_spec(Some(a), Some(b), elapsed_nanos) matches Some(r) && r.0 < u64::MAX,
    ensures
        psi_rate_spec(Some(a), Some(b), elapsed_nanos) matches Some(r) && r.0 * elapsed_nanos
            <= (b.total_us - a.total_us) * 1000 * 1_000_000 < (r.0 + 1) * elapsed_nanos,
{
    crate::text::lemma_div_bounds((b.total_us - a.total_us) * 1_000_000_000, elapsed_nanos as int);
}

/// The percentage text shows the rate to the nearest tenth of a percent (halves
/// up): with `t` tenths shown, `t * 1000 <= ppm + 500 < (t + 1) * 1000`.
pub proof fn law_percent_rounds_to_nearest_tenth(ppm: u64)
    ensures
        rounded_tenths(ppm) * 1000 <= ppm + 500 < (rounded_tenths(ppm) + 1) * 1000,
{
}


/// A meminfo line `<key> <n> kB` for one of the four fields records `n` KiB as
/// `n * 1024` bytes in that field's slot (MemAvailable, MemTotal, SwapTotal,
/// SwapFree), and is refused where the field was already read.
pub proof fn law_meminfo_field_in_bytes(f: Seq<Option<u64>>, n: u64)
    requires
        f.len() == 4,
        n * 1024 <= u64::MAX,
    ensures
        f[0] is None ==> meminfo_line(f, seq!["MemAvailable:"@, decimal(n as nat), "kB"@]) == Some(
            f.update(0, Some((n * 1024) as u64)),
        ),
        f[0] is Some ==> meminfo_line(f, seq!["MemAvailable:"@, decimal(n as nat), "kB"@]) is None,
        f[1] is None ==> meminfo_line(f, seq!["MemTotal:"@, decimal(n as nat), "kB"@]) == Some(
            f.update(1, Some((n * 1024) as u64)),
        ),
        f[1] is Some ==> meminfo_line(f, seq!["MemTotal:"@, decimal(n as nat), "kB"@]) is None,
        f[2] is None ==> meminfo_line(f, seq!["SwapTotal:"@, decimal(n as nat), "kB"@]) == Some(
            f.update(2, Some((n * 1024) as u64)),
        ),
        f[2] is Some ==> meminfo_line(f, seq!["SwapTotal:"@, decimal(n as nat), "kB"@]) is None,
        f[3] is None ==> meminfo_line(f, seq!["SwapFree:"@, decimal(n as nat), "kB"@]) == Some(
            f.update(3, Some((n * 1024) as u64)),
        ),
        f[3] is Some ==> meminfo_line(f, seq!["SwapFree:"@, decimal(n as nat), "kB"@]) is None,
{
    reveal_strlit("MemAvailable:");
    reveal_strlit("MemTotal:");
    reveal_strlit("SwapTotal:");
    reveal_strlit("SwapFree:");
    reveal_strlit("kB");
    assert("MemAvailable:"@.len() != "MemTotal:"@.len());
    assert("MemAvailable:"@.len() != "SwapTotal:"@.len());
    assert("MemAvailable:"@.len() != "SwapFree:"@.len());
    assert("MemTotal:"@.len() != "SwapTotal:"@.len());
    assert("MemTotal:"@[0] != "SwapFree:"@[0]);
    assert("SwapFree:"@.len() != "SwapTotal:"@.len());
    crate::text::law_parse_reads_decimal(n);
}

} // verus!
