//! Command-line settings: binary memory sizes and the checks on the settings.
use vstd::prelude::*;
use crate::memory::PsiRatePpm;
use crate::policy::Config;
use crate::text::{
    all_digits, ascii_lower, chars_of, decimal, digits_value, is_digit, is_space, lower_char,
    lowered_range, trim, trim_bounds,
};

verus! {

/// The settings of the daemon.
#[derive(Clone, Copy, Debug)]
pub struct Args {
    /// Sampling interval in seconds.
    pub interval: u64,
    /// MemAvailable threshold for Warning.
    pub warning: u64,
    /// MemAvailable threshold for Critical.
    pub critical: u64,
    /// MemAvailable above `warning` needed to recover to Normal.
    pub hysteresis: u64,
    /// Seconds before a state transition.
    pub dwell: u64,
    pub psi_some_warning: PsiRatePpm,
    pub psi_full_critical: PsiRatePpm,
    /// Decline rate for Warning.
    pub decline_warning: u64,
    /// MemAvailable below which the Warning decline rate counts.
    pub decline_warning_gate: u64,
    /// Decline rate for Critical.
    pub decline_critical: u64,
    /// MemAvailable below which the Critical decline rate counts.
    pub decline_critical_gate: u64,
    /// Warning reminder interval in seconds.
    pub warning_repeat: u64,
    /// Critical reminder interval in seconds.
    pub critical_repeat: u64,
    /// Take one sample and exit.
    pub once: bool,
    /// Log every sample.
    pub verbose: bool,
}

impl Args {
    /// The policy thresholds that the settings give.
    pub fn config(&self) -> (c: Config)
        ensures
            c == (Config {
                warning: self.warning,
                critical: self.critical,
                hysteresis: self.hysteresis,
                dwell: self.dwell,
                psi_some_warning: self.psi_some_warning,
                psi_full_critical: self.psi_full_critical,
                decline_warning_rate: self.decline_warning,
                decline_warning_gate: self.decline_warning_gate,
                decline_critical_rate: self.decline_critical,
                decline_critical_gate: self.decline_critical_gate,
            }),
    {
        Config {
            warning: self.warning,
            critical: self.critical,
            hysteresis: self.hysteresis,
            dwell: self.dwell,
            psi_some_warning: self.psi_some_warning,
            psi_full_critical: self.psi_full_critical,
            decline_warning_rate: self.decline_warning,
            decline_warning_gate: self.decline_warning_gate,
            decline_critical_rate: self.decline_critical,
            decline_critical_gate: self.decline_critical_gate,
        }
    }
}

/// The first rule that the settings break, as its message, or `None`.
pub open spec fn args_problem(a: Args) -> Option<Seq<char>> {
    if a.critical >= a.warning {
        Some("--critical must be less than --warning"@)
    } else if a.warning + a.hysteresis > u64::MAX {
        Some("--warning + --hysteresis overflows 64-bit integer"@)
    } else if a.interval == 0 {
        Some("--interval must be greater than zero"@)
    } else if a.hysteresis == 0 || a.dwell == 0 {
        Some("--hysteresis and --dwell must be greater than zero"@)
    } else if a.decline_warning == 0 || a.decline_critical == 0 {
        Some("--decline-warning and --decline-critical must be greater than zero"@)
    } else if a.decline_critical <= a.decline_warning {
        Some("--decline-critical must be greater than --decline-warning"@)
    } else if a.warning_repeat == 0 || a.critical_repeat == 0 {
        Some("--warning-repeat and --critical-repeat must be greater than zero"@)
    } else if a.decline_critical_gate > a.decline_warning_gate {
        Some("--decline-critical-gate must not be greater than --decline-warning-gate"@)
    } else {
        None
    }
}

pub fn validate_args(a: &Args) -> (r: Result<(), &'static str>)
    ensures
        match r {
            Ok(()) => args_problem(*a) is None,
            Err(m) => args_problem(*a) == Some(m@),
        },
{
    if a.critical >= a.warning {
        return Err("--critical must be less than --warning");
    }
    if a.warning.checked_add(a.hysteresis).is_none() {
        return Err("--warning + --hysteresis overflows 64-bit integer");
    }
    if a.interval == 0 {
        return Err("--interval must be greater than zero");
    }
    if a.hysteresis == 0 || a.dwell == 0 {
        return Err("--hysteresis and --dwell must be greater than zero");
    }
    if a.decline_warning == 0 || a.decline_critical == 0 {
        return Err("--decline-warning and --decline-critical must be greater than zero");
    }
    if a.decline_critical <= a.decline_warning {
        return Err("--decline-critical must be greater than --decline-warning");
    }
    if a.warning_repeat == 0 || a.critical_repeat == 0 {
        return Err("--warning-repeat and --critical-repeat must be greater than zero");
    }
    if a.decline_critical_gate > a.decline_warning_gate {
        return Err("--decline-critical-gate must not be greater than --decline-warning-gate");
    }
    Ok(())
}


/// What `{:?}` renders for a string: the text in double quotes, with escapes.
pub uninterp spec fn debug_text(s: Seq<char>) -> Seq<char>;

/// `<str as Debug>::fmt` on the string of the given characters.
#[verifier::external_body]
fn debug_quoted(chars: &Vec<char>) -> (r: String)
    ensures
        r@ == debug_text(chars@),
{
    let s: String = chars.iter().collect();
    format!("{:?}", s)
}

/// The number of leading ASCII digits.
pub open spec fn leading_digits(s: Seq<char>) -> nat
    decreases s.len(),
{
    if s.len() > 0 && is_digit(s[0]) {
        1 + leading_digits(s.drop_first())
    } else {
        0
    }
}

/// The factor of a (lower-case) size suffix: none, K/Ki/KiB, M/Mi/MiB or G/Gi/GiB.
pub open spec fn size_multiplier(suffix: Seq<char>) -> Option<u64> {
    if suffix == ""@ {
        Some(1)
    } else if suffix == "k"@ || suffix == "ki"@ || suffix == "kib"@ {
        Some(1024)
    } else if suffix == "m"@ || suffix == "mi"@ || suffix == "mib"@ {
        Some(1_048_576u64)
    } else if suffix == "g"@ || suffix == "gi"@ || suffix == "gib"@ {
        Some(1_073_741_824u64)
    } else {
        None
    }
}

pub open spec fn unknown_suffix_message(suffix: Seq<char>) -> Seq<char> {
    "unknown size suffix "@ + debug_text(suffix) + "; use K, M, G, KiB, MiB, or GiB"@
}

/// What a memory-size argument denotes: decimal bytes, optionally followed by a
/// binary suffix in any case, surrounding whitespace ignored; the size must be
/// positive and fit in 64 bits. Otherwise the error message.
pub open spec fn size_spec(value: Seq<char>) -> Result<u64, Seq<char>> {
    let t = trim(value);
    let k = leading_digits(t) as int;
    if k == 0 {
        Err("expected a positive byte value or binary size such as 768M or 3GiB"@)
    } else if digits_value(t.take(k)) > u64::MAX {
        Err("size number is too large"@)
    } else {
        let n = digits_value(t.take(k));
        let suffix = ascii_lower(t.skip(k));
        match size_multiplier(suffix) {
            None => Err(unknown_suffix_message(suffix)),
            Some(m) => if n * m > u64::MAX || n * m == 0 {
                Err("size must be greater than zero and fit in an unsigned 64-bit value"@)
            } else {
                Ok((n * m) as u64)
            },
        }
    }
}

fn spells_any(v: &Vec<char>, a: &str, b: &str, c: &str) -> (r: bool)
    ensures
        r == (v@ == a@ || v@ == b@ || v@ == c@),
{
    crate::text::spells(v, a) || crate::text::spells(v, b) || crate::text::spells(v, c)
}

fn size_multiplier_of(suffix: &Vec<char>) -> (r: Option<u64>)
    ensures
        r == size_multiplier(suffix@),
{
    if crate::text::spells(suffix, "") {
        Some(1)
    } else if spells_any(suffix, "k", "ki", "kib") {
        Some(1024)
    } else if spells_any(suffix, "m", "mi", "mib") {
        Some(1024 * 1024)
    } else if spells_any(suffix, "g", "gi", "gib") {
        Some(1024 * 1024 * 1024)
    } else {
        None
    }
}

/// Parses a memory size such as `4096`, `768M` or `3GiB` into bytes.
pub fn parse_memory_size(value: &str) -> (r: Result<u64, String>)
    ensures
        match r {
            Ok(n) => size_spec(value@) == Ok::<u64, Seq<char>>(n),
            Err(e) => size_spec(value@) == Err::<u64, Seq<char>>(e@),
        },
{
    let v = chars_of(value);
    let (lo, hi) = trim_bounds(&v);
    let ghost t = v@.subrange(lo as int, hi as int);
    let mut i = lo;
    assert(t.skip(0) =~= t);
    assert(t.take(0) =~= Seq::<char>::empty());
    while i < hi && '0' <= v[i] && v[i] <= '9'
        invariant
            lo <= i <= hi <= v@.len(),
            t == v@.subrange(lo as int, hi as int),
            leading_digits(t) == (i - lo) + leading_digits(t.skip(i - lo)),
            all_digits(t.take(i - lo)),
        decreases hi - i,
    {
        let ghost k = i - lo;
        assert(t.skip(k)[0] == v@[i as int]);
        assert(t.skip(k).drop_first() =~= t.skip(k + 1));
        assert(all_digits(t.take(k + 1))) by {
            assert forall|j: int| 0 <= j < t.take(k + 1).len() implies is_digit(
                #[trigger] t.take(k + 1)[j],
            ) by {
                if j < k {
                    assert(t.take(k)[j] == t.take(k + 1)[j]);
                }
            }
        }
        i = i + 1;
    }
    let split = i - lo;
    proof {
        if i < hi {
            assert(t.skip(split as int)[0] == v@[i as int]);
        }
        assert(leading_digits(t.skip(split as int)) == 0);
    }
    if split == 0 {
        return Err(String::from_str("expected a positive byte value or binary size such as 768M or 3GiB"));
    }
    assert(t.take(split as int) =~= v@.subrange(lo as int, i as int));
    proof {
        crate::text::lemma_digits_value_nonneg(t.take(split as int));
    }
    let number = match parse_digits(&v, lo, i) {
        Some(n) => n,
        None => {
            return Err(String::from_str("size number is too large"));
        },
    };
    let suffix = lowered_range(&v, i, hi);
    assert(t.skip(split as int) =~= v@.subrange(i as int, hi as int));
    let multiplier = match size_multiplier_of(&suffix) {
        Some(m) => m,
        None => {
            let mut msg = String::from_str("unknown size suffix ");
            let quoted = debug_quoted(&suffix);
            msg.append(quoted.as_str());
            msg.append("; use K, M, G, KiB, MiB, or GiB");
            return Err(msg);
        },
    };
    match number.checked_mul(multiplier) {
        Some(size) => {
            if size > 0 {
                Ok(size)
            } else {
                Err(String::from_str("size must be greater than zero and fit in an unsigned 64-bit value"))
            }
        },
        None => Err(String::from_str("size must be greater than zero and fit in an unsigned 64-bit value")),
    }
}

/// The value of the ASCII digits of `v` from `lo` to `hi`, where it fits in 64 bits.
fn parse_digits(v: &Vec<char>, lo: usize, hi: usize) -> (r: Option<u64>)
    requires
        lo <= hi <= v@.len(),
        all_digits(v@.subrange(lo as int, hi as int)),
    ensures
        r == (if digits_value(v@.subrange(lo as int, hi as int)) <= u64::MAX {
            Some(digits_value(v@.subrange(lo as int, hi as int)) as u64)
        } else {
            None
        }),
{
    let ghost d = v@.subrange(lo as int, hi as int);
    let mut acc: u64 = 0;
    let mut i = lo;
    assert(d.take(0) =~= Seq::<char>::empty());
    while i < hi
        invariant
            lo <= i <= hi <= v@.len(),
            d == v@.subrange(lo as int, hi as int),
            all_digits(d),
            acc == digits_value(d.take(i - lo)),
        decreases hi - i,
    {
        let ghost k = i - lo;
        assert(d.take(k + 1).drop_last() =~= d.take(k));
        assert(d[k] == v@[i as int]);
        assert(is_digit(d[k]));
        let digit = (v[i] as u32 - '0' as u32) as u64;
        if acc > (u64::MAX - digit) / 10 {
            proof {
                crate::text::lemma_digits_value_grows(d, k + 1);
            }
            return None;
        }
        acc = acc * 10 + digit;
        i = i + 1;
    }
    assert(d.take(d.len() as int) =~= d);
    Some(acc)
}


proof fn lemma_leading_digits_shape(t: Seq<char>)
    ensures
        leading_digits(t) <= t.len(),
        all_digits(t.take(leading_digits(t) as int)),
        leading_digits(t) < t.len() ==> !is_digit(t[leading_digits(t) as int]),
    decreases t.len(),
{
    if t.len() > 0 && is_digit(t[0]) {
        let r = t.drop_first();
        lemma_leading_digits_shape(r);
        let k = leading_digits(r) as int;
        assert forall|i: int| 0 <= i < k + 1 implies is_digit(#[trigger] t.take(k + 1)[i]) by {
            if i > 0 {
                assert(t.take(k + 1)[i] == r.take(k)[i - 1]);
            }
        }
        if k + 1 < t.len() {
            assert(t[k + 1] == r[k]);
        }
    }
}

proof fn lemma_leading_digits_lower(t: Seq<char>)
    ensures
        leading_digits(ascii_lower(t)) == leading_digits(t),
    decreases t.len(),
{
    if t.len() > 0 {
        crate::text::lemma_lower_char(t[0]);
        assert(ascii_lower(t).drop_first() =~= ascii_lower(t.drop_first()));
        lemma_leading_digits_lower(t.drop_first());
    }
}

proof fn lemma_leading_digits_concat(d: Seq<char>, x: Seq<char>)
    requires
        all_digits(d),
        x.len() == 0 || !is_digit(x[0]),
    ensures
        leading_digits(d + x) == d.len(),
    decreases d.len(),
{
    if d.len() > 0 {
        assert((d + x).drop_first() =~= d.drop_first() + x);
        assert(is_digit(d[0]));
        assert(all_digits(d.drop_first())) by {
            assert forall|i: int| 0 <= i < d.drop_first().len() implies is_digit(
                #[trigger] d.drop_first()[i],
            ) by {
                assert(is_digit(d[i + 1]));
            }
        }
        lemma_leading_digits_concat(d.drop_first(), x);
    } else {
        assert(d + x =~= x);
    }
}

/// Size suffixes are read case-insensitively: a memory-size argument means the
/// same, and fails with the same message, in any mix of upper and lower case.
pub proof fn law_size_case_insensitive(value: Seq<char>)
    ensures
        size_spec(ascii_lower(value)) == size_spec(value),
{
    let t = trim(value);
    crate::text::lemma_trim_lower(value);
    let lt = ascii_lower(t);
    assert(trim(ascii_lower(value)) == lt);
    lemma_leading_digits_lower(t);
    lemma_leading_digits_shape(t);
    let k = leading_digits(t) as int;
    assert(lt.take(k) =~= t.take(k)) by {
        assert forall|i: int| 0 <= i < k implies #[trigger] lt.take(k)[i] == t.take(k)[i] by {
            assert(is_digit(t.take(k)[i]));
            crate::text::lemma_lower_char(t[i]);
        }
    }
    assert(lt.skip(k) =~= ascii_lower(t.skip(k)));
    crate::text::lemma_lower_idempotent(t.skip(k));
}

proof fn lemma_suffix_letters(l: Seq<char>)
    requires
        size_multiplier(l) is Some,
    ensures
        forall|i: int| 0 <= i < l.len() ==> 'a' <= #[trigger] l[i] && l[i] <= 'z',
{
    reveal_strlit("");
    reveal_strlit("k");
    reveal_strlit("ki");
    reveal_strlit("kib");
    reveal_strlit("m");
    reveal_strlit("mi");
    reveal_strlit("mib");
    reveal_strlit("g");
    reveal_strlit("gi");
    reveal_strlit("gib");
}

/// A positive number of bytes written in decimal, followed by any accepted suffix
/// (in any case), reads back as that number times the suffix's factor, wherever
/// the product fits in 64 bits.
pub proof fn law_size_reads_decimal(n: u64, suffix: Seq<char>, m: u64)
    requires
        n > 0,
        size_multiplier(ascii_lower(suffix)) == Some(m),
        n * m <= u64::MAX,
    ensures
        size_spec(decimal(n as nat) + suffix) == Ok::<u64, Seq<char>>((n * m) as u64),
{
    let d = decimal(n as nat);
    crate::text::lemma_decimal_digits(n as nat);
    let l = ascii_lower(suffix);
    lemma_suffix_letters(l);
    // every character of an accepted suffix is a letter
    assert forall|i: int| 0 <= i < suffix.len() implies !is_digit(#[trigger] suffix[i]) && !is_space(
        suffix[i],
    ) by {
        assert(l[i] == lower_char(suffix[i]));
        assert('a' <= l[i] && l[i] <= 'z');
        crate::text::lemma_lower_char(suffix[i]);
    }
    let s = d + suffix;
    assert(is_digit(d[0]));
    assert(s[0] == d[0]);
    if suffix.len() > 0 {
        assert(s.last() == suffix.last());
    } else {
        assert(s.last() == d.last());
        assert(is_digit(d[d.len() - 1]));
    }
    crate::text::lemma_trim_unchanged(s);
    lemma_leading_digits_concat(d, suffix);
    assert(s.take(d.len() as int) =~= d);
    assert(s.skip(d.len() as int) =~= suffix);
    assert(m > 0);
    assert(n * m > 0) by (nonlinear_arith)
        requires
            n > 0,
            m > 0,
    ;
    assert(trim(s) == s);
    assert(leading_digits(s) == d.len());
    assert(digits_value(s.take(d.len() as int)) == n);
}


/// Each documented suffix has its binary factor, in either case: a positive
/// number followed by no suffix is bytes, by K/Ki/KiB KiB (1024 bytes), by
/// M/Mi/MiB MiB (1024^2 bytes), by G/Gi/GiB GiB (1024^3 bytes), wherever the
/// product fits in 64 bits.
pub proof fn law_size_suffix_factors(n: u64)
    requires
        n > 0,
    ensures
        n * 1u64 <= u64::MAX ==> size_spec(decimal(n as nat) + ""@) == Ok::<u64, Seq<char>>((n * 1u64) as u64),
        n * 1024u64 <= u64::MAX ==> size_spec(decimal(n as nat) + "k"@) == Ok::<u64, Seq<char>>((n * 1024u64) as u64),
        n * 1024u64 <= u64::MAX ==> size_spec(decimal(n as nat) + "ki"@) == Ok::<u64, Seq<char>>((n * 1024u64) as u64),
        n * 1024u64 <= u64::MAX ==> size_spec(decimal(n as nat) + "kib"@) == Ok::<u64, Seq<char>>((n * 1024u64) as u64),
        n * 1_048_576u64 <= u64::MAX ==> size_spec(decimal(n as nat) + "m"@) == Ok::<u64, Seq<char>>((n * 1_048_576u64) as u64),
        n * 1_048_576u64 <= u64::MAX ==> size_spec(decimal(n as nat) + "mi"@) == Ok::<u64, Seq<char>>((n * 1_048_576u64) as u64),
        n * 1_048_576u64 <= u64::MAX ==> size_spec(decimal(n as nat) + "mib"@) == Ok::<u64, Seq<char>>((n * 1_048_576u64) as u64),
        n * 1_073_741_824u64 <= u64::MAX ==> size_spec(decimal(n as nat) + "g"@) == Ok::<u64, Seq<char>>((n * 1_073_741_824u64) as u64),
        n * 1_073_741_824u64 <= u64::MAX ==> size_spec(decimal(n as nat) + "gi"@) == Ok::<u64, Seq<char>>((n * 1_073_741_824u64) as u64),
        n * 1_073_741_824u64 <= u64::MAX ==> size_spec(decimal(n as nat) + "gib"@) == Ok::<u64, Seq<char>>((n * 1_073_741_824u64) as u64),
        n * 1024u64 <= u64::MAX ==> size_spec(decimal(n as nat) + "K"@) == Ok::<u64, Seq<char>>((n * 1024u64) as u64),
        n * 1024u64 <= u64::MAX ==> size_spec(decimal(n as nat) + "Ki"@) == Ok::<u64, Seq<char>>((n * 1024u64) as u64),
        n * 1024u64 <= u64::MAX ==> size_spec(decimal(n as nat) + "KiB"@) == Ok::<u64, Seq<char>>((n * 1024u64) as u64),
        n * 1_048_576u64 <= u64::MAX ==> size_spec(decimal(n as nat) + "M"@) == Ok::<u64, Seq<char>>((n * 1_048_576u64) as u64),
        n * 1_048_576u64 <= u64::MAX ==> size_spec(decimal(n as nat) + "Mi"@) == Ok::<u64, Seq<char>>((n * 1_048_576u64) as u64),
        n * 1_048_576u64 <= u64::MAX ==> size_spec(decimal(n as nat) + "MiB"@) == Ok::<u64, Seq<char>>((n * 1_048_576u64) as u64),
        n * 1_073_741_824u64 <= u64::MAX ==> size_spec(decimal(n as nat) + "G"@) == Ok::<u64, Seq<char>>((n * 1_073_741_824u64) as u64),
        n * 1_073_741_824u64 <= u64::MAX ==> size_spec(decimal(n as nat) + "Gi"@) == Ok::<u64, Seq<char>>((n * 1_073_741_824u64) as u64),
        n * 1_073_741_824u64 <= u64::MAX ==> size_spec(decimal(n as nat) + "GiB"@) == Ok::<u64, Seq<char>>((n * 1_073_741_824u64) as u64),
{
    reveal_strlit("");
    reveal_strlit("k");
    reveal_strlit("ki");
    reveal_strlit("kib");
    reveal_strlit("m");
    reveal_strlit("mi");
    reveal_strlit("mib");
    reveal_strlit("g");
    reveal_strlit("gi");
    reveal_strlit("gib");
    reveal_strlit("K");
    reveal_strlit("Ki");
    reveal_strlit("KiB");
    reveal_strlit("M");
    reveal_strlit("Mi");
    reveal_strlit("MiB");
    reveal_strlit("G");
    reveal_strlit("Gi");
    reveal_strlit("GiB");
    assert(""@.len() != "k"@.len());
    assert(""@.len() != "ki"@.len());
    assert(""@.len() != "kib"@.len());
    assert(""@.len() != "m"@.len());
    assert(""@.len() != "mi"@.len());
    assert(""@.len() != "mib"@.len());
    assert(""@.len() != "g"@.len());
    assert(""@.len() != "gi"@.len());
    assert(""@.len() != "gib"@.len());
    assert(ascii_lower(""@) =~= ""@);
    assert(size_multiplier(""@) == Some(1u64));
    if n * 1u64 <= u64::MAX {
        law_size_reads_decimal(n, ""@, 1u64);
    }
    assert("k"@.len() != ""@.len());
    assert("k"@.len() != "ki"@.len());
    assert("k"@.len() != "kib"@.len());
    assert("k"@[0] != "m"@[0]);
    assert("k"@.len() != "mi"@.len());
    assert("k"@.len() != "mib"@.len());
    assert("k"@[0] != "g"@[0]);
    assert("k"@.len() != "gi"@.len());
    assert("k"@.len() != "gib"@.len());
    assert(ascii_lower("k"@) =~= "k"@);
    assert(size_multiplier("k"@) == Some(1024u64));
    if n * 1024u64 <= u64::MAX {
        law_size_reads_decimal(n, "k"@, 1024u64);
    }
    assert("ki"@.len() != ""@.len());
    assert("ki"@.len() != "k"@.len());
    assert("ki"@.len() != "kib"@.len());
    assert("ki"@.len() != "m"@.len());
    assert("ki"@[0] != "mi"@[0]);
    assert("ki"@.len() != "mib"@.len());
    assert("ki"@.len() != "g"@.len());
    assert("ki"@[0] != "gi"@[0]);
    assert("ki"@.len() != "gib"@.len());
    assert(ascii_lower("ki"@) =~= "ki"@);
    assert(size_multiplier("ki"@) == Some(1024u64));
    if n * 1024u64 <= u64::MAX {
        law_size_reads_decimal(n, "ki"@, 1024u64);
    }
    assert("kib"@.len() != ""@.len());
    assert("kib"@.len() != "k"@.len());
    assert("kib"@.len() != "ki"@.len());
    assert("kib"@.len() != "m"@.len());
    assert("kib"@.len() != "mi"@.len());
    assert("kib"@[0] != "mib"@[0]);
    assert("kib"@.len() != "g"@.len());
    assert("kib"@.len() != "gi"@.len());
    assert("kib"@[0] != "gib"@[0]);
    assert(ascii_lower("kib"@) =~= "kib"@);
    assert(size_multiplier("kib"@) == Some(1024u64));
    if n * 1024u64 <= u64::MAX {
        law_size_reads_decimal(n, "kib"@, 1024u64);
    }
    assert("m"@.len() != ""@.len());
    assert("m"@[0] != "k"@[0]);
    assert("m"@.len() != "ki"@.len());
    assert("m"@.len() != "kib"@.len());
    assert("m"@.len() != "mi"@.len());
    assert("m"@.len() != "mib"@.len());
    assert("m"@[0] != "g"@[0]);
    assert("m"@.len() != "gi"@.len());
    assert("m"@.len() != "gib"@.len());
    assert(ascii_lower("m"@) =~= "m"@);
    assert(size_multiplier("m"@) == Some(1_048_576u64));
    if n * 1_048_576u64 <= u64::MAX {
        law_size_reads_decimal(n, "m"@, 1_048_576u64);
    }
    assert("mi"@.len() != ""@.len());
    assert("mi"@.len() != "k"@.len());
    assert("mi"@[0] != "ki"@[0]);
    assert("mi"@.len() != "kib"@.len());
    assert("mi"@.len() != "m"@.len());
    assert("mi"@.len() != "mib"@.len());
    assert("mi"@.len() != "g"@.len());
    assert("mi"@[0] != "gi"@[0]);
    assert("mi"@.len() != "gib"@.len());
    assert(ascii_lower("mi"@) =~= "mi"@);
    assert(size_multiplier("mi"@) == Some(1_048_576u64));
    if n * 1_048_576u64 <= u64::MAX {
        law_size_reads_decimal(n, "mi"@, 1_048_576u64);
    }
    assert("mib"@.len() != ""@.len());
    assert("mib"@.len() != "k"@.len());
    assert("mib"@.len() != "ki"@.len());
    assert("mib"@[0] != "kib"@[0]);
    assert("mib"@.len() != "m"@.len());
    assert("mib"@.len() != "mi"@.len());
    assert("mib"@.len() != "g"@.len());
    assert("mib"@.len() != "gi"@.len());
    assert("mib"@[0] != "gib"@[0]);
    assert(ascii_lower("mib"@) =~= "mib"@);
    assert(size_multiplier("mib"@) == Some(1_048_576u64));
    if n * 1_048_576u64 <= u64::MAX {
        law_size_reads_decimal(n, "mib"@, 1_048_576u64);
    }
    assert("g"@.len() != ""@.len());
    assert("g"@[0] != "k"@[0]);
    assert("g"@.len() != "ki"@.len());
    assert("g"@.len() != "kib"@.len());
    assert("g"@[0] != "m"@[0]);
    assert("g"@.len() != "mi"@.len());
    assert("g"@.len() != "mib"@.len());
    assert("g"@.len() != "gi"@.len());
    assert("g"@.len() != "gib"@.len());
    assert(ascii_lower("g"@) =~= "g"@);
    assert(size_multiplier("g"@) == Some(1_073_741_824u64));
    if n * 1_073_741_824u64 <= u64::MAX {
        law_size_reads_decimal(n, "g"@, 1_073_741_824u64);
    }
    assert("gi"@.len() != ""@.len());
    assert("gi"@.len() != "k"@.len());
    assert("gi"@[0] != "ki"@[0]);
    assert("gi"@.len() != "kib"@.len());
    assert("gi"@.len() != "m"@.len());
    assert("gi"@[0] != "mi"@[0]);
    assert("gi"@.len() != "mib"@.len());
    assert("gi"@.len() != "g"@.len());
    assert("gi"@.len() != "gib"@.len());
    assert(ascii_lower("gi"@) =~= "gi"@);
    assert(size_multiplier("gi"@) == Some(1_073_741_824u64));
    if n * 1_073_741_824u64 <= u64::MAX {
        law_size_reads_decimal(n, "gi"@, 1_073_741_824u64);
    }
    assert("gib"@.len() != ""@.len());
    assert("gib"@.len() != "k"@.len());
    assert("gib"@.len() != "ki"@.len());
    assert("gib"@[0] != "kib"@[0]);
    assert("gib"@.len() != "m"@.len());
    assert("gib"@.len() != "mi"@.len());
    assert("gib"@[0] != "mib"@[0]);
    assert("gib"@.len() != "g"@.len());
    assert("gib"@.len() != "gi"@.len());
    assert(ascii_lower("gib"@) =~= "gib"@);
    assert(size_multiplier("gib"@) == Some(1_073_741_824u64));
    if n * 1_073_741_824u64 <= u64::MAX {
        law_size_reads_decimal(n, "gib"@, 1_073_741_824u64);
    }
    assert(ascii_lower("K"@) =~= "k"@);
    if n * 1024u64 <= u64::MAX {
        law_size_reads_decimal(n, "K"@, 1024u64);
    }
    assert(ascii_lower("Ki"@) =~= "ki"@);
    if n * 1024u64 <= u64::MAX {
        law_size_reads_decimal(n, "Ki"@, 1024u64);
    }
    assert(ascii_lower("KiB"@) =~= "kib"@);
    if n * 1024u64 <= u64::MAX {
        law_size_reads_decimal(n, "KiB"@, 1024u64);
    }
    assert(ascii_lower("M"@) =~= "m"@);
    if n * 1_048_576u64 <= u64::MAX {
        law_size_reads_decimal(n, "M"@, 1_048_576u64);
    }
    assert(ascii_lower("Mi"@) =~= "mi"@);
    if n * 1_048_576u64 <= u64::MAX {
        law_size_reads_decimal(n, "Mi"@, 1_048_576u64);
    }
    assert(ascii_lower("MiB"@) =~= "mib"@);
    if n * 1_048_576u64 <= u64::MAX {
        law_size_reads_decimal(n, "MiB"@, 1_048_576u64);
    }
    assert(ascii_lower("G"@) =~= "g"@);
    if n * 1_073_741_824u64 <= u64::MAX {
        law_size_reads_decimal(n, "G"@, 1_073_741_824u64);
    }
    assert(ascii_lower("Gi"@) =~= "gi"@);
    if n * 1_073_741_824u64 <= u64::MAX {
        law_size_reads_decimal(n, "Gi"@, 1_073_741_824u64);
    }
    assert(ascii_lower("GiB"@) =~= "gib"@);
    if n * 1_073_741_824u64 <= u64::MAX {
        law_size_reads_decimal(n, "GiB"@, 1_073_741_824u64);
    }
}


/// Settings pass validation exactly when Critical lies below Warning, the
/// recovery margin fits in 64 bits, and the interval, hysteresis, dwell, both
/// decline rates and both repeat intervals are positive, the Critical decline
/// rate exceeds the Warning one, and the Critical gate is not above the Warning gate.
pub proof fn law_valid_settings(a: Args)
    ensures
        (args_problem(a) is None) == (a.critical < a.warning && a.warning + a.hysteresis
            <= u64::MAX && a.interval > 0 && a.hysteresis > 0 && a.dwell > 0 && a.decline_warning
            > 0 && a.decline_critical > 0 && a.decline_warning < a.decline_critical
            && a.warning_repeat > 0 && a.critical_repeat > 0 && a.decline_critical_gate
            <= a.decline_warning_gate),
{
}

} // verus!
