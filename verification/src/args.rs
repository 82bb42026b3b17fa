//! Command-line arguments: retention durations such as `30d`, integer
//! parsing as the standard library does it, and the flags of the program.

use vstd::prelude::*;
use crate::text::str_eq;
use crate::format::strs_view;

verus! {

/// Unicode `White_Space`, the characters that `str::trim` removes.
pub open spec fn is_white_space(c: char) -> bool {
    ('\t' <= c && c <= '\r') || c == ' ' || c == '\u{85}' || c == '\u{a0}' || c == '\u{1680}'
        || ('\u{2000}' <= c && c <= '\u{200a}') || c == '\u{2028}' || c == '\u{2029}'
        || c == '\u{202f}' || c == '\u{205f}' || c == '\u{3000}'
}

pub(crate) fn white_space(c: char) -> (res: bool)
    ensures
        res == is_white_space(c),
{
    ('\t' <= c && c <= '\r') || c == ' ' || c == '\u{85}' || c == '\u{a0}' || c == '\u{1680}'
        || ('\u{2000}' <= c && c <= '\u{200a}') || c == '\u{2028}' || c == '\u{2029}'
        || c == '\u{202f}' || c == '\u{205f}' || c == '\u{3000}'
}

/// `s` without leading white space.
pub open spec fn trim_start(s: Seq<char>) -> Seq<char>
    decreases s.len(),
{
    if s.len() > 0 && is_white_space(s[0]) {
        trim_start(s.drop_first())
    } else {
        s
    }
}

/// `s` without trailing white space.
pub open spec fn trim_end(s: Seq<char>) -> Seq<char>
    decreases s.len(),
{
    if s.len() > 0 && is_white_space(s.last()) {
        trim_end(s.drop_last())
    } else {
        s
    }
}

/// `s` without leading and trailing white space.
pub open spec fn trim(s: Seq<char>) -> Seq<char> {
    trim_end(trim_start(s))
}

/// `s[i..j]` without leading and trailing white space.
pub(crate) fn trim_range(cs: &Vec<char>, i: usize, j: usize) -> (res: (usize, usize))
    requires
        i <= j <= cs@.len(),
    ensures
        i <= res.0 <= res.1 <= j,
        cs@.subrange(res.0 as int, res.1 as int) == trim(cs@.subrange(i as int, j as int)),
{
    let ghost s = cs@.subrange(i as int, j as int);
    let mut a = i;
    assert(cs@.subrange(a as int, j as int) =~= s);
    while a < j && white_space(cs[a])
        invariant
            i <= a <= j <= cs@.len(),
            s == cs@.subrange(i as int, j as int),
            trim_start(cs@.subrange(a as int, j as int)) == trim_start(s),
        decreases j - a,
    {
        assert(cs@.subrange(a as int, j as int).drop_first() =~= cs@.subrange(a + 1, j as int));
        a = a + 1;
    }
    let mut b = j;
    assert(trim_start(s) == cs@.subrange(a as int, j as int));
    while b > a && white_space(cs[b - 1])
        invariant
            i <= a <= b <= j <= cs@.len(),
            s == cs@.subrange(i as int, j as int),
            trim_end(cs@.subrange(a as int, b as int)) == trim(s),
        decreases b - a,
    {
        assert(cs@.subrange(a as int, b as int).drop_last() =~= cs@.subrange(a as int, b - 1));
        b = b - 1;
    }
    (a, b)
}

/// Whether every character of `ds` is an ASCII digit.
pub open spec fn all_digits(ds: Seq<char>) -> bool {
    forall|j: int| 0 <= j < ds.len() ==> '0' <= #[trigger] ds[j] && ds[j] <= '9'
}

/// The number written by the decimal digits `ds`.
pub open spec fn digits_value(ds: Seq<char>) -> nat
    decreases ds.len(),
{
    if ds.len() == 0 {
        0
    } else {
        digits_value(ds.drop_last()) * 10 + ((ds.last() as int - 48) as nat)
    }
}

/// `s` without one leading `+`.
pub open spec fn without_plus(s: Seq<char>) -> Seq<char> {
    if s.len() > 0 && s[0] == '+' { s.drop_first() } else { s }
}

/// `u64`'s reading of a decimal text: an optional `+`, then one or more
/// digits, the value within range.
pub open spec fn parse_u64_spec(s: Seq<char>) -> Option<u64> {
    let ds = without_plus(s);
    if ds.len() > 0 && all_digits(ds) && digits_value(ds) <= u64::MAX {
        Some(digits_value(ds) as u64)
    } else {
        None
    }
}

/// `i64`'s reading of a decimal text: an optional `+` or `-`, then one or
/// more digits, the value within range.
pub open spec fn parse_i64_spec(s: Seq<char>) -> Option<i64> {
    if s.len() > 0 && s[0] == '-' {
        let ds = s.drop_first();
        if ds.len() > 0 && all_digits(ds) && digits_value(ds) <= 0x8000_0000_0000_0000 {
            Some((-(digits_value(ds) as int)) as i64)
        } else {
            None
        }
    } else {
        let ds = without_plus(s);
        if ds.len() > 0 && all_digits(ds) && digits_value(ds) <= i64::MAX {
            Some(digits_value(ds) as i64)
        } else {
            None
        }
    }
}

proof fn lemma_digits_prefix(ds: Seq<char>, k: int)
    requires
        0 <= k <= ds.len(),
    ensures
        digits_value(ds.take(k)) <= digits_value(ds),
    decreases ds.len() - k,
{
    if k < ds.len() {
        lemma_digits_prefix(ds, k + 1);
        assert(ds.take(k + 1).drop_last() =~= ds.take(k));
    } else {
        assert(ds.take(k) =~= ds);
    }
}

/// The value of the digits `cs[i..j]`, if they are all digits and the
/// value is at most `max`.
fn digits_in(cs: &Vec<char>, i: usize, j: usize, max: u64) -> (res: Option<u64>)
    requires
        i <= j <= cs@.len(),
        max >= 9,
    ensures
        res == (if all_digits(cs@.subrange(i as int, j as int))
            && digits_value(cs@.subrange(i as int, j as int)) <= max {
            Some(digits_value(cs@.subrange(i as int, j as int)) as u64)
        } else {
            None::<u64>
        }),
{
    let ghost ds = cs@.subrange(i as int, j as int);
    let mut k = i;
    while k < j
        invariant
            i <= k <= j <= cs@.len(),
            ds == cs@.subrange(i as int, j as int),
            forall|t: int| 0 <= t < k - i ==> '0' <= #[trigger] ds[t] && ds[t] <= '9',
        decreases j - k,
    {
        if !('0' <= cs[k] && cs[k] <= '9') {
            assert(ds[k - i] == cs@[k as int]);
            return None;
        }
        k = k + 1;
    }
    let mut acc: u64 = 0;
    let mut k = i;
    assert(ds.take(0) =~= Seq::<char>::empty());
    while k < j
        invariant
            i <= k <= j <= cs@.len(),
            ds == cs@.subrange(i as int, j as int),
            all_digits(ds),
            acc as nat == digits_value(ds.take(k - i)),
            acc <= max,
            max >= 9,
        decreases j - k,
    {
        assert(ds.take(k - i + 1).drop_last() =~= ds.take(k - i));
        assert(ds.take(k - i + 1).last() == cs@[k as int]);
        assert(ds[k - i] == cs@[k as int]);
        assert('0' <= cs@[k as int] && cs@[k as int] <= '9');
        let d = (cs[k] as u32 - 48) as u64;
        proof { lemma_digits_prefix(ds, k - i + 1); }
        if acc > (max - d) / 10 {
            assert(digits_value(ds.take(k - i + 1)) > max) by (nonlinear_arith)
                requires
                    digits_value(ds.take(k - i + 1)) == acc * 10 + d,
                    acc > (max - d) / 10,
                    d <= max || d > max,
            {
            }
            return None;
        }
        assert(acc * 10 + d <= max) by (nonlinear_arith)
            requires
                acc <= (max - d) / 10,
                d <= max,
        {
        }
        acc = acc * 10 + d;
        k = k + 1;
    }
    assert(ds.take(j - i) =~= ds);
    Some(acc)
}

/// Reads `cs[i..j]` as `u64` does.
fn parse_u64_in(cs: &Vec<char>, i: usize, j: usize) -> (res: Option<u64>)
    requires
        i <= j <= cs@.len(),
    ensures
        res == parse_u64_spec(cs@.subrange(i as int, j as int)),
{
    let mut a = i;
    if a < j && cs[a] == '+' {
        a = a + 1;
        assert(cs@.subrange(i as int, j as int).drop_first() =~= cs@.subrange(a as int, j as int));
    }
    if a == j {
        return None;
    }
    digits_in(cs, a, j, u64::MAX)
}

/// `u32`'s reading of a decimal text: an optional `+`, then one or more
/// digits, the value within range.
pub open spec fn parse_u32_spec(s: Seq<char>) -> Option<u32> {
    let ds = without_plus(s);
    if ds.len() > 0 && all_digits(ds) && digits_value(ds) <= u32::MAX {
        Some(digits_value(ds) as u32)
    } else {
        None
    }
}

/// Reads `cs[i..j]` as `u32` does.
pub fn parse_u32_in(cs: &Vec<char>, i: usize, j: usize) -> (res: Option<u32>)
    requires
        i <= j <= cs@.len(),
    ensures
        res == parse_u32_spec(cs@.subrange(i as int, j as int)),
{
    let mut a = i;
    if a < j && cs[a] == '+' {
        a = a + 1;
        assert(cs@.subrange(i as int, j as int).drop_first() =~= cs@.subrange(a as int, j as int));
    }
    if a == j {
        return None;
    }
    match digits_in(cs, a, j, u32::MAX as u64) {
        Some(v) => Some(v as u32),
        None => None,
    }
}

/// Reads a text as `u64` does: an optional `+`, then digits.
pub fn parse_u64(s: &str) -> (res: Option<u64>)
    ensures
        res == parse_u64_spec(s@),
{
    let cs = crate::text::chars_of(s);
    assert(cs@.subrange(0, cs@.len() as int) =~= s@);
    parse_u64_in(&cs, 0, cs.len())
}

/// Reads a text as `i64` does: an optional `+` or `-`, then digits.
pub fn parse_i64(s: &str) -> (res: Option<i64>)
    ensures
        res == parse_i64_spec(s@),
{
    let cs = crate::text::chars_of(s);
    let n = cs.len();
    if n > 0 && cs[0] == '-' {
        assert(s@.drop_first() =~= cs@.subrange(1, n as int));
        if n == 1 {
            return None;
        }
        match digits_in(&cs, 1, n, 0x8000_0000_0000_0000u64) {
            Some(v) => {
                if v == 0x8000_0000_0000_0000u64 {
                    Some(i64::MIN)
                } else {
                    Some(-(v as i64))
                }
            },
            None => None,
        }
    } else {
        let mut a: usize = 0;
        if n > 0 && cs[0] == '+' {
            a = 1;
            assert(s@.drop_first() =~= cs@.subrange(1, n as int));
        } else {
            assert(s@ =~= cs@.subrange(0, n as int));
        }
        if a == n {
            return None;
        }
        match digits_in(&cs, a, n, i64::MAX as u64) {
            Some(v) => Some(v as i64),
            None => None,
        }
    }
}

/// The seconds in one unit of a duration suffix (`s`, `m`, `h`, `d`, `w`).
pub open spec fn unit_secs(c: char) -> Option<u64> {
    if c == 's' { Some(1) }
    else if c == 'm' { Some(60) }
    else if c == 'h' { Some(3600) }
    else if c == 'd' { Some(86400) }
    else if c == 'w' { Some(604800) }
    else { None }
}

/// A retention duration in seconds: a count of seconds, or a count followed
/// by `s`, `m`, `h`, `d` or `w`, with white space around the text and around
/// the count allowed; none when the text is malformed or the product does not
/// fit in `u64`.
pub open spec fn duration_secs(s: Seq<char>) -> Option<u64> {
    let t = trim(s);
    if t.len() == 0 {
        None
    } else {
        let (num, mult) = match unit_secs(t.last()) {
            Some(m) => (t.drop_last(), m),
            None => (t, 1u64),
        };
        match parse_u64_spec(trim(num)) {
            Some(v) => if v * mult <= u64::MAX { Some((v * mult) as u64) } else { None },
            None => None,
        }
    }
}

/// Parses a retention duration: bare seconds or an `s`/`m`/`h`/`d`/`w`
/// suffix (e.g. `30d`, `12h`, `4w`, `604800`); see [`duration_secs`].
pub fn parse_duration(s: &str) -> (res: Option<u64>)
    ensures
        res == duration_secs(s@),
{
    let cs = crate::text::chars_of(s);
    let n = cs.len();
    assert(cs@.subrange(0, n as int) =~= s@);
    let (a, b) = trim_range(&cs, 0, n);
    if a == b {
        return None;
    }
    let ghost t = cs@.subrange(a as int, b as int);
    let last = cs[b - 1];
    let mult: u64 = if last == 's' { 1 } else if last == 'm' { 60 } else if last == 'h' { 3600 }
        else if last == 'd' { 86400 } else if last == 'w' { 604800 } else { 0 };
    let end = if mult == 0 { b } else { b - 1 };
    let mult = if mult == 0 { 1 } else { mult };
    proof {
        if end < b {
            assert(t.drop_last() =~= cs@.subrange(a as int, end as int));
        }
    }
    let (c, d) = trim_range(&cs, a, end);
    match parse_u64_in(&cs, c, d) {
        Some(v) => v.checked_mul(mult),
        None => None,
    }
}

/// The flags and format lines given on the command line.
pub struct Args {
    pub lines: Vec<String>,
    pub now: Option<i64>,
    pub no_color: bool,
    pub debug: bool,
    pub passthrough: bool,
    pub prune: Option<u64>,
}

/// What the command line asks for.
pub enum ArgsOutcome {
    /// Print the help text and exit.
    Help,
    /// Print the version and exit.
    Version,
    /// Render with these settings.
    Run(Args),
}

/// The model of [`Args`].
pub struct ArgsModel {
    pub lines: Seq<Seq<char>>,
    pub now: Option<i64>,
    pub no_color: bool,
    pub debug: bool,
    pub passthrough: bool,
    pub prune: Option<u64>,
}

/// The model of [`ArgsOutcome`].
pub enum OutcomeModel {
    Help,
    Version,
    Run(ArgsModel),
}

/// The model of parsed arguments.
pub open spec fn args_model(a: Args) -> ArgsModel {
    ArgsModel {
        lines: strs_view(a.lines@),
        now: a.now,
        no_color: a.no_color,
        debug: a.debug,
        passthrough: a.passthrough,
        prune: a.prune,
    }
}

/// The model of an outcome.
pub open spec fn outcome_model(o: ArgsOutcome) -> OutcomeModel {
    match o {
        ArgsOutcome::Help => OutcomeModel::Help,
        ArgsOutcome::Version => OutcomeModel::Version,
        ArgsOutcome::Run(a) => OutcomeModel::Run(args_model(a)),
    }
}

/// Whether `s` starts with `p`.
pub open spec fn starts_with(s: Seq<char>, p: Seq<char>) -> bool {
    p.len() <= s.len() && s.take(p.len() as int) == p
}

/// Reads the arguments from index `i` on, into `acc`: `-h`/`--help` and
/// `-V`/`--version` stop at once; `--no-color`, `--debug`, `--passthrough`
/// set their flags; `--now <n>` / `--now=<n>` set the time (none when `n` is
/// not an `i64`), `--prune <d>` / `--prune=<d>` the retention; a flag without
/// its value at the end is ignored; anything else is a format line.
pub open spec fn args_from(args: Seq<Seq<char>>, i: int, acc: ArgsModel) -> OutcomeModel
    decreases args.len() - i,
{
    if !(0 <= i < args.len()) {
        OutcomeModel::Run(acc)
    } else {
        let a = args[i];
        if a == "-h"@ || a == "--help"@ {
            OutcomeModel::Help
        } else if a == "-V"@ || a == "--version"@ {
            OutcomeModel::Version
        } else if a == "--no-color"@ {
            args_from(args, i + 1, ArgsModel { no_color: true, ..acc })
        } else if a == "--debug"@ {
            args_from(args, i + 1, ArgsModel { debug: true, ..acc })
        } else if a == "--passthrough"@ {
            args_from(args, i + 1, ArgsModel { passthrough: true, ..acc })
        } else if a == "--now"@ {
            if i + 1 < args.len() {
                args_from(args, i + 2, ArgsModel { now: parse_i64_spec(args[i + 1]), ..acc })
            } else {
                args_from(args, i + 1, acc)
            }
        } else if starts_with(a, "--now="@) {
            args_from(args, i + 1, ArgsModel { now: parse_i64_spec(a.skip(6)), ..acc })
        } else if a == "--prune"@ {
            if i + 1 < args.len() {
                args_from(args, i + 2, ArgsModel { prune: duration_secs(args[i + 1]), ..acc })
            } else {
                args_from(args, i + 1, acc)
            }
        } else if starts_with(a, "--prune="@) {
            args_from(args, i + 1, ArgsModel { prune: duration_secs(a.skip(8)), ..acc })
        } else {
            args_from(args, i + 1, ArgsModel { lines: acc.lines.push(a), ..acc })
        }
    }
}

/// What the arguments (the program name left out) ask for.
pub open spec fn args_outcome(args: Seq<Seq<char>>) -> OutcomeModel {
    args_from(args, 0, ArgsModel {
        lines: Seq::empty(),
        now: None,
        no_color: false,
        debug: false,
        passthrough: false,
        prune: None,
    })
}

fn starts_with_exec(s: &str, p: &str) -> (res: bool)
    ensures
        res == starts_with(s@, p@),
{
    let n = s.unicode_len();
    let m = p.unicode_len();
    if m > n {
        return false;
    }
    let mut k: usize = 0;
    while k < m
        invariant
            n == s@.len(),
            m == p@.len(),
            m <= n,
            k <= m,
            forall|j: int| 0 <= j < k ==> s@[j] == p@[j],
        decreases m - k,
    {
        if s.get_char(k) != p.get_char(k) {
            assert(s@.take(m as int)[k as int] == s@[k as int]);
            return false;
        }
        k = k + 1;
    }
    assert(s@.take(m as int) =~= p@);
    true
}

/// Reads the command-line arguments (the program name left out).
pub fn parse_args(args: &[String]) -> (res: ArgsOutcome)
    ensures
        outcome_model(res) == args_outcome(strs_view(args@)),
{
    let ghost all = strs_view(args@);
    let mut out = Args {
        lines: Vec::new(),
        now: None,
        no_color: false,
        debug: false,
        passthrough: false,
        prune: None,
    };
    assert(strs_view(out.lines@) =~= Seq::<Seq<char>>::empty());
    let mut i: usize = 0;
    let n = args.len();
    while i < n
        invariant
            n == args@.len(),
            all == strs_view(args@),
            i <= n,
            args_from(all, i as int, args_model(out)) == args_outcome(all),
        decreases n - i,
    {
        let a = args[i].as_str();
        assert(a@ == all[i as int]);
        if str_eq(a, "-h") || str_eq(a, "--help") {
            return ArgsOutcome::Help;
        } else if str_eq(a, "-V") || str_eq(a, "--version") {
            return ArgsOutcome::Version;
        } else if str_eq(a, "--no-color") {
            out.no_color = true;
            i = i + 1;
        } else if str_eq(a, "--debug") {
            out.debug = true;
            i = i + 1;
        } else if str_eq(a, "--passthrough") {
            out.passthrough = true;
            i = i + 1;
        } else if str_eq(a, "--now") {
            if i + 1 < n {
                assert(args[i + 1 as usize]@ == all[i + 1]);
                out.now = parse_i64(args[i + 1].as_str());
                i = i + 2;
            } else {
                i = i + 1;
            }
        } else if starts_with_exec(a, "--now=") {
            proof { reveal_strlit("--now="); }
            let len = a.unicode_len();
            let rest = a.substring_char(6, len);
            out.now = parse_i64(rest);
            i = i + 1;
        } else if str_eq(a, "--prune") {
            if i + 1 < n {
                assert(args[i + 1 as usize]@ == all[i + 1]);
                out.prune = parse_duration(args[i + 1].as_str());
                i = i + 2;
            } else {
                i = i + 1;
            }
        } else if starts_with_exec(a, "--prune=") {
            proof { reveal_strlit("--prune="); }
            let len = a.unicode_len();
            let rest = a.substring_char(8, len);
            out.prune = parse_duration(rest);
            i = i + 1;
        } else {
            let ghost prev = out.lines@;
            out.lines.push(args[i].clone());
            assert(strs_view(out.lines@) =~= strs_view(prev).push(a@));
            i = i + 1;
        }
    }
    ArgsOutcome::Run(out)
}

proof fn lemma_args_from_same_rest(a: Seq<Seq<char>>, i: int, b: Seq<Seq<char>>, j: int, acc: ArgsModel)
    requires
        0 <= i <= a.len(),
        0 <= j <= b.len(),
        a.skip(i) == b.skip(j),
    ensures
        args_from(a, i, acc) == args_from(b, j, acc),
    decreases a.len() - i,
{
    assert(a.skip(i).len() == b.skip(j).len());
    assert(a.skip(i).len() == a.len() - i);
    assert(b.skip(j).len() == b.len() - j);
    if i < a.len() {
        assert(a[i] == a.skip(i)[0]);
        assert(b[j] == b.skip(j)[0]);
        if i + 1 < a.len() {
            assert(a[i + 1] == a.skip(i)[1]);
            assert(b[j + 1] == b.skip(j)[1]);
        }
        assert(a.skip(i + 1) =~= a.skip(i).skip(1));
        assert(b.skip(j + 1) =~= b.skip(j).skip(1));
        assert(a.skip(i + 1) == b.skip(j + 1));
        if i + 2 <= a.len() {
            assert(a.skip(i + 2) =~= a.skip(i).skip(2));
            assert(b.skip(j + 2) =~= b.skip(j).skip(2));
            lemma_args_from_same_rest(a, i + 2, b, j + 2, ArgsModel { now: parse_i64_spec(a[i + 1]), ..acc });
            lemma_args_from_same_rest(a, i + 2, b, j + 2, ArgsModel { prune: duration_secs(a[i + 1]), ..acc });
        }
        let a0 = a[i];
        lemma_args_from_same_rest(a, i + 1, b, j + 1, acc);
        lemma_args_from_same_rest(a, i + 1, b, j + 1, ArgsModel { no_color: true, ..acc });
        lemma_args_from_same_rest(a, i + 1, b, j + 1, ArgsModel { debug: true, ..acc });
        lemma_args_from_same_rest(a, i + 1, b, j + 1, ArgsModel { passthrough: true, ..acc });
        lemma_args_from_same_rest(a, i + 1, b, j + 1, ArgsModel { now: parse_i64_spec(a0.skip(6)), ..acc });
        lemma_args_from_same_rest(a, i + 1, b, j + 1, ArgsModel { prune: duration_secs(a0.skip(8)), ..acc });
        lemma_args_from_same_rest(a, i + 1, b, j + 1, ArgsModel { lines: acc.lines.push(a0), ..acc });
    } else {
        assert(b.skip(j).len() == 0);
    }
}

/// `--now=<value>` means the same as `--now <value>`, and `--prune=<value>`
/// the same as `--prune <value>`, whatever the value and the arguments after.
/// Either form sets the time to the value read as `i64` (the retention to
/// the value read as a duration) unless a later argument changes it.
pub proof fn law_flag_equals_forms(x: Seq<char>, rest: Seq<Seq<char>>)
    ensures
        args_outcome(seq!["--now="@ + x] + rest) == args_outcome(seq!["--now"@, x] + rest),
        args_outcome(seq!["--prune="@ + x] + rest) == args_outcome(seq!["--prune"@, x] + rest),
        args_outcome(seq!["--now="@ + x]) == OutcomeModel::Run(ArgsModel {
            lines: Seq::empty(),
            now: parse_i64_spec(x),
            no_color: false,
            debug: false,
            passthrough: false,
            prune: None,
        }),
{
    reveal_strlit("--now=");
    reveal_strlit("--now");
    reveal_strlit("--prune=");
    reveal_strlit("--prune");
    reveal_strlit("-h");
    reveal_strlit("--help");
    reveal_strlit("-V");
    reveal_strlit("--version");
    reveal_strlit("--no-color");
    reveal_strlit("--debug");
    reveal_strlit("--passthrough");
    let init = ArgsModel {
        lines: Seq::empty(),
        now: None,
        no_color: false,
        debug: false,
        passthrough: false,
        prune: None,
    };
    let na = "--now="@ + x;
    let pa = "--prune="@ + x;
    assert(na.skip(6) =~= x);
    assert(pa.skip(8) =~= x);
    assert(starts_with(na, "--now="@)) by {
        assert(na.take(6) =~= "--now="@);
    }
    assert(starts_with(pa, "--prune="@)) by {
        assert(pa.take(8) =~= "--prune="@);
    }
    assert(na != "-h"@ && na != "--help"@ && na != "-V"@ && na != "--version"@) by {
        assert(na[2] == 'n');
        assert(na.len() >= 6);
    }
    assert(na != "--no-color"@ && na != "--debug"@ && na != "--passthrough"@ && na != "--now"@) by {
        assert(na[5] == '=');
        assert(na[2] == 'n' && na[3] == 'o' && na[4] == 'w');
    }
    assert(pa != "-h"@ && pa != "--help"@ && pa != "-V"@ && pa != "--version"@ && pa != "--no-color"@
        && pa != "--debug"@ && pa != "--passthrough"@ && pa != "--now"@ && pa != "--prune"@) by {
        assert(pa[2] == 'p' && pa[3] == 'r' && pa[7] == '=');
        assert(pa.len() >= 8);
    }
    assert(!starts_with(pa, "--now="@)) by {
        assert(pa.take(6)[2] == 'p');
    }
    let a = seq![na] + rest;
    let b = seq!["--now"@, x] + rest;
    assert(a[0] == na);
    assert(b[0] == "--now"@ && b[1] == x);
    assert(a.skip(1) =~= b.skip(2));
    lemma_args_from_same_rest(a, 1, b, 2, ArgsModel { now: parse_i64_spec(x), ..init });
    let pr = "--prune"@;
    assert(pr.len() == 7 && pr[2] == 'p');
    assert(pr != "-h"@ && pr != "--help"@ && pr != "-V"@ && pr != "--version"@ && pr != "--no-color"@
        && pr != "--debug"@ && pr != "--passthrough"@ && pr != "--now"@) by {
        assert("--help"@[2] == 'h' && "--debug"@[2] == 'd' && "--now"@.len() == 5);
    }
    assert(!starts_with(pr, "--now="@)) by {
        assert(pr.take(6)[2] == 'p');
    }
    let c = seq![pa] + rest;
    let d = seq!["--prune"@, x] + rest;
    assert(c[0] == pa);
    assert(d[0] == "--prune"@ && d[1] == x);
    assert(c.skip(1) =~= d.skip(2));
    lemma_args_from_same_rest(c, 1, d, 2, ArgsModel { prune: duration_secs(x), ..init });
    let e = seq![na];
    assert(e[0] == na);
    let m = ArgsModel { now: parse_i64_spec(x), ..init };
    assert(args_from(e, 1, m) == OutcomeModel::Run(m));
    assert(args_from(e, 0, init) == args_from(e, 1, m));
}

} // verus!
