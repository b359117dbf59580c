//! A strict JSON codec for the persisted configuration document.
//!
//! The writer emits one canonical form: a single object, fields in a
//! fixed order, no whitespace, strings without escape sequences. The
//! reader accepts exactly that form. Round-tripping a configuration
//! through the two is proved to give back the same values.

use vstd::prelude::*;

verus! {

use vstd::string::{StringExecFns, StrSliceExecFns};
use vstd::arithmetic::div_mod::lemma_fundamental_div_mod;

/// Decimal digit, as a character code.
pub open spec fn is_digit(c: char) -> bool {
    48 <= c as u32 <= 57
}

/// Numeric value of a digit character.
pub open spec fn dval(c: char) -> int {
    c as u32 - 48
}

/// The character for a single decimal digit.
pub open spec fn digit_char(d: int) -> char {
    if d == 0 {
        '0'
    } else if d == 1 {
        '1'
    } else if d == 2 {
        '2'
    } else if d == 3 {
        '3'
    } else if d == 4 {
        '4'
    } else if d == 5 {
        '5'
    } else if d == 6 {
        '6'
    } else if d == 7 {
        '7'
    } else if d == 8 {
        '8'
    } else {
        '9'
    }
}

/// Decimal rendering of a number, most significant digit first.
pub open spec fn dec_digits(n: nat) -> Seq<char>
    decreases n,
{
    if n < 10 {
        seq![digit_char(n as int)]
    } else {
        dec_digits(n / 10).push(digit_char((n % 10) as int))
    }
}

/// Value accumulated while reading digits left to right.
pub open spec fn val_acc(acc: int, ds: Seq<char>) -> int
    decreases ds.len(),
{
    if ds.len() == 0 {
        acc
    } else {
        val_acc(acc * 10 + dval(ds.first()), ds.drop_first())
    }
}

/// Longest digit run from position `i`, folded into a value.
pub open spec fn munch(s: Seq<char>, i: int, acc: int) -> (int, int)
    decreases s.len() - i,
{
    if 0 <= i < s.len() && is_digit(s[i]) {
        munch(s, i + 1, acc * 10 + dval(s[i]))
    } else {
        (acc, i)
    }
}

/// A number at position `i`: at least one digit, the whole maximal run,
/// and a value that fits in a `u64`.
pub open spec fn parse_u64_spec(s: Seq<char>, i: int) -> Option<(u64, int)> {
    if 0 <= i < s.len() && is_digit(s[i]) {
        let vj = munch(s, i, 0);
        if vj.0 <= u64::MAX {
            Some((vj.0 as u64, vj.1))
        } else {
            None
        }
    } else {
        None
    }
}

/// The literal `lit` stands at position `i` of `s`.
pub open spec fn expect_ok(s: Seq<char>, i: int, lit: Seq<char>) -> bool {
    &&& 0 <= i
    &&& i + lit.len() <= s.len()
    &&& s.subrange(i, i + lit.len()) == lit
}

/// A JSON boolean at position `i`.
pub open spec fn parse_bool_spec(s: Seq<char>, i: int) -> Option<(bool, int)> {
    if expect_ok(s, i, "true"@) {
        Some((true, i + "true"@.len()))
    } else if expect_ok(s, i, "false"@) {
        Some((false, i + "false"@.len()))
    } else {
        None
    }
}

/// Rendering of a boolean.
pub open spec fn bool_chars(b: bool) -> Seq<char> {
    if b {
        "true"@
    } else {
        "false"@
    }
}

/// A character the codec stores verbatim inside a JSON string: not a
/// quote, not a backslash, not a control character.
pub open spec fn is_clean_char(c: char) -> bool {
    c != '"' && c != '\\' && c as u32 >= 32
}

/// A string the codec can embed without escaping.
pub open spec fn clean_string(s: Seq<char>) -> bool {
    forall|i: int| 0 <= i < s.len() ==> is_clean_char(#[trigger] s[i])
}

/// A successful scan stops inside the string, at or after its start.
pub proof fn lemma_scan_string_range(s: Seq<char>, i: int)
    requires
        0 <= i,
    ensures
        scan_string(s, i) == -1 || i <= scan_string(s, i) < s.len(),
    decreases s.len() - i,
{
    if 0 <= i < s.len() && s[i] != '"' && is_clean_char(s[i]) {
        lemma_scan_string_range(s, i + 1);
    }
}

/// Position of the closing quote of a string body starting at `i`, or
/// -1 when the string runs out or holds a character needing an escape.
pub open spec fn scan_string(s: Seq<char>, i: int) -> int
    decreases s.len() - i,
{
    if !(0 <= i < s.len()) {
        -1
    } else if s[i] == '"' {
        i
    } else if !is_clean_char(s[i]) {
        -1
    } else {
        scan_string(s, i + 1)
    }
}

// ---------------------------------------------------------------------
// Facts about the decimal rendering and the digit reader.
// ---------------------------------------------------------------------

/// Every character of a decimal rendering is a digit, and there is at
/// least one.
pub proof fn lemma_dec_digits_are_digits(n: nat)
    ensures
        dec_digits(n).len() >= 1,
        forall|k: int| 0 <= k < dec_digits(n).len() ==> is_digit(#[trigger] dec_digits(n)[k]),
    decreases n,
{
    if n >= 10 {
        lemma_dec_digits_are_digits(n / 10);
    }
}

/// Reading one more digit on the right multiplies the value by ten.
pub proof fn lemma_val_acc_push(acc: int, ds: Seq<char>, d: char)
    ensures
        val_acc(acc, ds.push(d)) == val_acc(acc, ds) * 10 + dval(d),
    decreases ds.len(),
{
    if ds.len() == 0 {
        assert(ds.push(d).first() == d);
        assert(ds.push(d).drop_first() =~= Seq::<char>::empty());
        assert(val_acc(acc, ds.push(d)) == val_acc(acc * 10 + dval(d), ds.push(d).drop_first()));
        assert(val_acc(acc * 10 + dval(d), Seq::<char>::empty()) == acc * 10 + dval(d));
    } else {
        assert(ds.push(d).first() == ds.first());
        assert(ds.push(d).drop_first() =~= ds.drop_first().push(d));
        lemma_val_acc_push(acc * 10 + dval(ds.first()), ds.drop_first(), d);
    }
}

/// Reading back a decimal rendering gives the number.
pub proof fn lemma_dec_digits_val(n: nat)
    ensures
        val_acc(0, dec_digits(n)) == n,
    decreases n,
{
    if n < 10 {
        let one = seq![digit_char(n as int)];
        assert(one.first() == digit_char(n as int));
        assert(one.drop_first() =~= Seq::<char>::empty());
        assert(val_acc(0, one) == val_acc(dval(one.first()), one.drop_first()));
        assert(val_acc(dval(digit_char(n as int)), Seq::<char>::empty()) == dval(
            digit_char(n as int),
        ));
        assert(dval(digit_char(n as int)) == n);
    } else {
        lemma_dec_digits_val(n / 10);
        lemma_val_acc_push(0, dec_digits(n / 10), digit_char((n % 10) as int));
        assert(dval(digit_char((n % 10) as int)) == n % 10);
        lemma_fundamental_div_mod(n as int, 10);
    }
}

/// The folded value never shrinks below the accumulator.
pub proof fn lemma_munch_ge(s: Seq<char>, i: int, acc: int)
    requires
        acc >= 0,
    ensures
        munch(s, i, acc).0 >= acc,
        munch(s, i, acc).1 >= i,
        munch(s, i, acc).1 <= s.len() || munch(s, i, acc).1 == i,
    decreases s.len() - i,
{
    if 0 <= i < s.len() && is_digit(s[i]) {
        assert(acc * 10 + dval(s[i]) >= acc);
        lemma_munch_ge(s, i + 1, acc * 10 + dval(s[i]));
    }
}

/// Over a digit run ending at the first non-digit, `munch` folds exactly
/// the run.
pub proof fn lemma_munch_run(s: Seq<char>, i: int, j: int, acc: int)
    requires
        0 <= i <= j <= s.len(),
        forall|k: int| i <= k < j ==> is_digit(#[trigger] s[k]),
        j == s.len() || !is_digit(s[j]),
    ensures
        munch(s, i, acc) == (val_acc(acc, s.subrange(i, j)), j),
    decreases j - i,
{
    if i == j {
        assert(s.subrange(i, j) =~= Seq::<char>::empty());
    } else {
        assert(is_digit(s[i]));
        assert(s.subrange(i, j).first() == s[i]);
        assert(s.subrange(i, j).drop_first() =~= s.subrange(i + 1, j));
        lemma_munch_run(s, i + 1, j, acc * 10 + dval(s[i]));
    }
}

/// A decimal rendering followed by a non-digit parses back to its number.
pub proof fn lemma_parse_u64_at(s: Seq<char>, i: int, n: u64)
    requires
        0 <= i,
        i + dec_digits(n as nat).len() <= s.len(),
        s.subrange(i, i + dec_digits(n as nat).len()) == dec_digits(n as nat),
        i + dec_digits(n as nat).len() == s.len() || !is_digit(
            s[i + dec_digits(n as nat).len()],
        ),
    ensures
        parse_u64_spec(s, i) == Some((n, i + dec_digits(n as nat).len())),
{
    let dd = dec_digits(n as nat);
    let j = i + dd.len();
    lemma_dec_digits_are_digits(n as nat);
    assert(forall|k: int| i <= k < j ==> is_digit(#[trigger] s[k])) by {
        assert(forall|k: int|
            i <= k < j ==> #[trigger] s[k] == s.subrange(i, j)[k - i] && s.subrange(i, j)[k - i]
                == dd[k - i]);
    }
    assert(is_digit(s[i]));
    lemma_munch_run(s, i, j, 0);
    lemma_dec_digits_val(n as nat);
    assert(val_acc(0, s.subrange(i, j)) == n);
}

/// A clean string body followed by a quote scans to that quote.
pub proof fn lemma_scan_clean(s: Seq<char>, i: int, j: int)
    requires
        0 <= i <= j < s.len(),
        forall|k: int| i <= k < j ==> is_clean_char(#[trigger] s[k]),
        forall|k: int| i <= k < j ==> #[trigger] s[k] != '"',
        s[j] == '"',
    ensures
        scan_string(s, i) == j,
    decreases j - i,
{
    if i < j {
        lemma_scan_clean(s, i + 1, j);
    }
}

// ---------------------------------------------------------------------
// Executable rendering.
// ---------------------------------------------------------------------

/// The one-character string for a decimal digit.
fn digit_str(d: u64) -> (r: &'static str)
    requires
        d < 10,
    ensures
        r@ == seq![digit_char(d as int)],
{
    proof {
        reveal_strlit("0");
        reveal_strlit("1");
        reveal_strlit("2");
        reveal_strlit("3");
        reveal_strlit("4");
        reveal_strlit("5");
        reveal_strlit("6");
        reveal_strlit("7");
        reveal_strlit("8");
        reveal_strlit("9");
    }
    let r = match d {
        0 => "0",
        1 => "1",
        2 => "2",
        3 => "3",
        4 => "4",
        5 => "5",
        6 => "6",
        7 => "7",
        8 => "8",
        _ => "9",
    };
    proof {
        assert(r@ =~= seq![digit_char(d as int)]);
    }
    r
}

/// The values carried by a configuration document.
pub struct ConfigModel {
    pub pause_ping_during_speedtest: bool,
    pub graph_history_length: usize,
    pub ping_interval_ms: u64,
    pub show_jitter_panel: bool,
    pub show_history_panel: bool,
    pub speedtest_provider: Seq<char>,
}

/// The values a `Config` carries.
pub open spec fn config_model(c: crate::config::Config) -> ConfigModel {
    ConfigModel {
        pause_ping_during_speedtest: c.pause_ping_during_speedtest,
        graph_history_length: c.graph_history_length,
        ping_interval_ms: c.ping_interval_ms,
        show_jitter_panel: c.show_jitter_panel,
        show_history_panel: c.show_history_panel,
        speedtest_provider: c.speedtest_provider@,
    }
}

/// The canonical document for a configuration: one object, fields in
/// this order, no whitespace.
pub open spec fn json_of_config(m: ConfigModel) -> Seq<char> {
    "{\"pause_ping_during_speedtest\":"@ + bool_chars(m.pause_ping_during_speedtest)
        + ",\"graph_history_length\":"@ + dec_digits(m.graph_history_length as nat)
        + ",\"ping_interval_ms\":"@ + dec_digits(m.ping_interval_ms as nat)
        + ",\"show_jitter_panel\":"@ + bool_chars(m.show_jitter_panel)
        + ",\"show_history_panel\":"@ + bool_chars(m.show_history_panel)
        + ",\"speedtest_provider\":\""@ + m.speedtest_provider + "\"}"@
}

/// The strict reader: succeeds exactly on the canonical form, with
/// nothing before or after the object.
pub open spec fn parse_config_spec(s: Seq<char>) -> Option<ConfigModel> {
    let k1 = "{\"pause_ping_during_speedtest\":"@;
    if !expect_ok(s, 0, k1) {
        None
    } else {
        match parse_bool_spec(s, k1.len() as int) {
            None => None,
            Some((pause, p2)) => {
                let k2 = ",\"graph_history_length\":"@;
                if !expect_ok(s, p2, k2) {
                    None
                } else {
                    match parse_u64_spec(s, p2 + k2.len()) {
                        None => None,
                        Some((graph, p3)) => {
                            if graph > usize::MAX as u64 {
                                None
                            } else {
                                let k3 = ",\"ping_interval_ms\":"@;
                                if !expect_ok(s, p3, k3) {
                                    None
                                } else {
                                    match parse_u64_spec(s, p3 + k3.len()) {
                                        None => None,
                                        Some((ping, p4)) => {
                                            let k4 = ",\"show_jitter_panel\":"@;
                                            if !expect_ok(s, p4, k4) {
                                                None
                                            } else {
                                                match parse_bool_spec(s, p4 + k4.len()) {
                                                    None => None,
                                                    Some((jit, p5)) => {
                                                        let k5 = ",\"show_history_panel\":"@;
                                                        if !expect_ok(s, p5, k5) {
                                                            None
                                                        } else {
                                                            match parse_bool_spec(
                                                                s,
                                                                p5 + k5.len(),
                                                            ) {
                                                                None => None,
                                                                Some((hist, p6)) => {
                                                                    parse_config_tail(
                                                                        s,
                                                                        p6,
                                                                        pause,
                                                                        graph as usize,
                                                                        ping,
                                                                        jit,
                                                                        hist,
                                                                    )
                                                                },
                                                            }
                                                        }
                                                    },
                                                }
                                            }
                                        },
                                    }
                                }
                            }
                        },
                    }
                }
            },
        }
    }
}

/// The provider field and the closing of the object.
pub open spec fn parse_config_tail(
    s: Seq<char>,
    p6: int,
    pause: bool,
    graph: usize,
    ping: u64,
    jit: bool,
    hist: bool,
) -> Option<ConfigModel> {
    let k6 = ",\"speedtest_provider\":\""@;
    if !expect_ok(s, p6, k6) {
        None
    } else {
        let body = p6 + k6.len();
        let q = scan_string(s, body);
        if q < 0 {
            None
        } else {
            if expect_ok(s, q, "\"}"@) && q + "\"}"@.len() == s.len() {
                Some(
                    ConfigModel {
                        pause_ping_during_speedtest: pause,
                        graph_history_length: graph,
                        ping_interval_ms: ping,
                        show_jitter_panel: jit,
                        show_history_panel: hist,
                        speedtest_provider: s.subrange(body, q),
                    },
                )
            } else {
                None
            }
        }
    }
}

/// Decimal rendering of a `u64`.
pub fn u64_to_string(n: u64) -> (r: String)
    ensures
        r@ == dec_digits(n as nat),
    decreases n,
{
    if n < 10 {
        String::from_str(digit_str(n))
    } else {
        proof {
            assert(n / 10 < n) by (nonlinear_arith)
                requires
                    n >= 10u64,
            ;
        }
        let mut s = u64_to_string(n / 10);
        s.append(digit_str(n % 10));
        proof {
            assert(dec_digits((n / 10) as nat) + seq![digit_char((n % 10) as int)] =~= dec_digits(
                (n / 10) as nat,
            ).push(digit_char((n % 10) as int)));
        }
        s
    }
}

/// Rendering of a boolean.
fn bool_str(b: bool) -> (r: &'static str)
    ensures
        r@ == bool_chars(b),
{
    if b {
        "true"
    } else {
        "false"
    }
}

/// Whether every character can be embedded verbatim in a JSON string.
pub fn is_clean_str(s: &str) -> (r: bool)
    ensures
        r == clean_string(s@),
{
    let n = s.unicode_len();
    let mut j: usize = 0;
    while j < n
        invariant
            j <= n,
            n == s@.len(),
            forall|t: int| 0 <= t < j ==> is_clean_char(#[trigger] s@[t]),
        decreases n - j,
    {
        let c = s.get_char(j);
        if c == '"' || c == '\\' || (c as u32) < 32 {
            return false;
        }
        j = j + 1;
    }
    true
}

/// Writes the canonical document for a configuration, or nothing when
/// the provider string would need escaping.
pub fn encode_config(c: &crate::config::Config) -> (r: Option<String>)
    ensures
        clean_string(c.speedtest_provider@) ==> r is Some && r->Some_0@ == json_of_config(
            config_model(*c),
        ),
        !clean_string(c.speedtest_provider@) ==> r is None,
{
    if !is_clean_str(c.speedtest_provider.as_str()) {
        return None;
    }
    let mut out = String::from_str("{\"pause_ping_during_speedtest\":");
    out.append(bool_str(c.pause_ping_during_speedtest));
    out.append(",\"graph_history_length\":");
    let graph = u64_to_string(c.graph_history_length as u64);
    out.append(graph.as_str());
    out.append(",\"ping_interval_ms\":");
    let ping = u64_to_string(c.ping_interval_ms);
    out.append(ping.as_str());
    out.append(",\"show_jitter_panel\":");
    out.append(bool_str(c.show_jitter_panel));
    out.append(",\"show_history_panel\":");
    out.append(bool_str(c.show_history_panel));
    out.append(",\"speedtest_provider\":\"");
    out.append(c.speedtest_provider.as_str());
    out.append("\"}");
    proof {
        assert(out@ =~= json_of_config(config_model(*c)));
    }
    Some(out)
}

/// The literal `lit` at position `i`, returning the position after it.
fn expect_at(s: &str, i: usize, lit: &str) -> (r: Option<usize>)
    ensures
        (r is Some) == expect_ok(s@, i as int, lit@),
        r is Some ==> r->Some_0 == i + lit@.len(),
{
    let n = s.unicode_len();
    let m = lit.unicode_len();
    if i > n || m > n - i {
        return None;
    }
    let mut k: usize = 0;
    while k < m
        invariant
            k <= m,
            i + m <= n,
            n == s@.len(),
            m == lit@.len(),
            forall|t: int| 0 <= t < k ==> s@[i + t] == lit@[t],
        decreases m - k,
    {
        let a = s.get_char(i + k);
        let b = lit.get_char(k);
        if a != b {
            proof {
                assert(!expect_ok(s@, i as int, lit@)) by {
                    if expect_ok(s@, i as int, lit@) {
                        assert(s@.subrange(i as int, i + lit@.len())[k as int] == lit@[k as int]);
                    }
                }
            }
            return None;
        }
        k = k + 1;
    }
    proof {
        assert(s@.subrange(i as int, i + lit@.len()) =~= lit@);
    }
    Some(i + m)
}

/// A JSON boolean at position `i`.
fn parse_bool_at(s: &str, i: usize) -> (r: Option<(bool, usize)>)
    ensures
        (r is Some) == (parse_bool_spec(s@, i as int) is Some),
        r is Some ==> parse_bool_spec(s@, i as int)->Some_0.0 == r->Some_0.0
            && parse_bool_spec(s@, i as int)->Some_0.1 == r->Some_0.1,
{
    match expect_at(s, i, "true") {
        Some(j) => Some((true, j)),
        None => {
            match expect_at(s, i, "false") {
                Some(j) => Some((false, j)),
                None => None,
            }
        },
    }
}

/// A decimal number at position `i`.
fn parse_u64_at(s: &str, i: usize) -> (r: Option<(u64, usize)>)
    ensures
        (r is Some) == (parse_u64_spec(s@, i as int) is Some),
        r is Some ==> parse_u64_spec(s@, i as int)->Some_0.0 == r->Some_0.0 && parse_u64_spec(
            s@,
            i as int,
        )->Some_0.1 == r->Some_0.1,
{
    let n = s.unicode_len();
    if i >= n {
        return None;
    }
    let c0 = s.get_char(i);
    if (c0 as u32) < 48 || (c0 as u32) > 57 {
        return None;
    }
    let mut acc: u64 = 0;
    let mut j: usize = i;
    let mut stop = false;
    while j < n && !stop
        invariant
            i <= j <= n,
            n == s@.len(),
            munch(s@, i as int, 0) == munch(s@, j as int, acc as int),
            stop ==> !is_digit(s@[j as int]),
            stop ==> j < n,
        decreases n - j + (if stop {
            0int
        } else {
            1int
        }),
    {
        let c = s.get_char(j);
        if (c as u32) >= 48 && (c as u32) <= 57 {
            let d: u64 = (c as u32) as u64 - 48;
            if acc > (u64::MAX - d) / 10 {
                proof {
                    lemma_fundamental_div_mod(u64::MAX - d, 10);
                    assert(acc * 10 + d > u64::MAX);
                    assert(munch(s@, j as int, acc as int) == munch(
                        s@,
                        j + 1,
                        acc * 10 + dval(s@[j as int]),
                    ));
                    lemma_munch_ge(s@, j + 1, acc * 10 + d);
                }
                return None;
            }
            acc = acc * 10 + d;
            j = j + 1;
        } else {
            stop = true;
        }
    }
    proof {
        assert(munch(s@, j as int, acc as int) == (acc as int, j as int));
    }
    Some((acc, j))
}

/// Position of the closing quote of a string body starting at `i`.
fn scan_string_at(s: &str, i: usize) -> (r: Option<usize>)
    ensures
        (r is Some) == (scan_string(s@, i as int) >= 0),
        r is Some ==> r->Some_0 == scan_string(s@, i as int),
{
    let n = s.unicode_len();
    let mut j: usize = i;
    while j < n
        invariant
            i <= j,
            n == s@.len(),
            scan_string(s@, i as int) == scan_string(s@, j as int),
        decreases n - j,
    {
        let c = s.get_char(j);
        if c == '"' {
            return Some(j);
        }
        if c == '\\' || (c as u32) < 32 {
            return None;
        }
        j = j + 1;
    }
    None
}

/// Reads the canonical document back; `None` on anything else.
pub fn parse_config(s: &str) -> (r: Option<crate::config::Config>)
    ensures
        (r is Some) == (parse_config_spec(s@) is Some),
        r is Some ==> config_model(r->Some_0) == parse_config_spec(s@)->Some_0,
{
    let p1 = match expect_at(s, 0, "{\"pause_ping_during_speedtest\":") {
        Some(p) => p,
        None => {
            return None;
        },
    };
    let (pause, p2) = match parse_bool_at(s, p1) {
        Some(v) => v,
        None => {
            return None;
        },
    };
    let p2k = match expect_at(s, p2, ",\"graph_history_length\":") {
        Some(p) => p,
        None => {
            return None;
        },
    };
    let (graph64, p3) = match parse_u64_at(s, p2k) {
        Some(v) => v,
        None => {
            return None;
        },
    };
    if graph64 > usize::MAX as u64 {
        return None;
    }
    let p3k = match expect_at(s, p3, ",\"ping_interval_ms\":") {
        Some(p) => p,
        None => {
            return None;
        },
    };
    let (ping, p4) = match parse_u64_at(s, p3k) {
        Some(v) => v,
        None => {
            return None;
        },
    };
    let p4k = match expect_at(s, p4, ",\"show_jitter_panel\":") {
        Some(p) => p,
        None => {
            return None;
        },
    };
    let (jit, p5) = match parse_bool_at(s, p4k) {
        Some(v) => v,
        None => {
            return None;
        },
    };
    let p5k = match expect_at(s, p5, ",\"show_history_panel\":") {
        Some(p) => p,
        None => {
            return None;
        },
    };
    let (hist, p6) = match parse_bool_at(s, p5k) {
        Some(v) => v,
        None => {
            return None;
        },
    };
    let body = match expect_at(s, p6, ",\"speedtest_provider\":\"") {
        Some(p) => p,
        None => {
            return None;
        },
    };
    let q = match scan_string_at(s, body) {
        Some(q) => q,
        None => {
            return None;
        },
    };
    let after = match expect_at(s, q, "\"}") {
        Some(p) => p,
        None => {
            return None;
        },
    };
    if after != s.unicode_len() {
        return None;
    }
    proof {
        lemma_scan_string_range(s@, body as int);
    }
    let provider = s.substring_char(body, q).to_owned();
    Some(
        crate::config::Config {
            pause_ping_during_speedtest: pause,
            graph_history_length: graph64 as usize,
            ping_interval_ms: ping,
            show_jitter_panel: jit,
            show_history_panel: hist,
            speedtest_provider: provider,
        },
    )
}

/// Writing a configuration and reading it back yields the same values,
/// for every configuration whose provider needs no escaping.
#[verifier::rlimit(100)]
pub proof fn lemma_config_round_trip(m: ConfigModel)
    requires
        clean_string(m.speedtest_provider),
    ensures
        parse_config_spec(json_of_config(m)) == Some(m),
{
    reveal_strlit("{\"pause_ping_during_speedtest\":");
    reveal_strlit(",\"graph_history_length\":");
    reveal_strlit(",\"ping_interval_ms\":");
    reveal_strlit(",\"show_jitter_panel\":");
    reveal_strlit(",\"show_history_panel\":");
    reveal_strlit(",\"speedtest_provider\":\"");
    reveal_strlit("\"}");
    reveal_strlit("true");
    reveal_strlit("false");
    let s = json_of_config(m);
    let k1 = "{\"pause_ping_during_speedtest\":"@;
    let k2 = ",\"graph_history_length\":"@;
    let k3 = ",\"ping_interval_ms\":"@;
    let k4 = ",\"show_jitter_panel\":"@;
    let k5 = ",\"show_history_panel\":"@;
    let k6 = ",\"speedtest_provider\":\""@;
    let k7 = "\"}"@;
    let b1 = bool_chars(m.pause_ping_during_speedtest);
    let d2 = dec_digits(m.graph_history_length as nat);
    let d3 = dec_digits(m.ping_interval_ms as nat);
    let b4 = bool_chars(m.show_jitter_panel);
    let b5 = bool_chars(m.show_history_panel);
    let pv = m.speedtest_provider;
    lemma_dec_digits_are_digits(m.graph_history_length as nat);
    lemma_dec_digits_are_digits(m.ping_interval_ms as nat);
    let p1 = k1.len() as int;
    let p2 = p1 + b1.len();
    let p2k = p2 + k2.len();
    let p3 = p2k + d2.len();
    let p3k = p3 + k3.len();
    let p4 = p3k + d3.len();
    let p4k = p4 + k4.len();
    let p5 = p4k + b4.len();
    let p5k = p5 + k5.len();
    let p6 = p5k + b5.len();
    let body = p6 + k6.len();
    let q = body + pv.len();
    assert(s.len() == q + k7.len());
    assert(s.subrange(0, p1) =~= k1);
    assert(s.subrange(p1, p2) =~= b1);
    assert(s.subrange(p2, p2k) =~= k2);
    assert(s.subrange(p2k, p3) =~= d2);
    assert(s.subrange(p3, p3k) =~= k3);
    assert(s.subrange(p3k, p4) =~= d3);
    assert(s.subrange(p4, p4k) =~= k4);
    assert(s.subrange(p4k, p5) =~= b4);
    assert(s.subrange(p5, p5k) =~= k5);
    assert(s.subrange(p5k, p6) =~= b5);
    assert(s.subrange(p6, body) =~= k6);
    assert(s.subrange(body, q) =~= pv);
    assert(s.subrange(q, q + k7.len()) =~= k7);
    // Opening key.
    assert(expect_ok(s, 0, k1));
    // First boolean.
    lemma_parse_bool_at_rendering(s, p1, m.pause_ping_during_speedtest);
    assert(parse_bool_spec(s, p1) == Some((m.pause_ping_during_speedtest, p2)));
    // Second key, then the history length.
    assert(expect_ok(s, p2, k2));
    assert(s[p3] == k3[0]);
    assert(!is_digit(s[p3]));
    lemma_parse_u64_at(s, p2k, m.graph_history_length as u64);
    assert(parse_u64_spec(s, p2k) == Some((m.graph_history_length as u64, p3)));
    // Third key, then the interval.
    assert(expect_ok(s, p3, k3));
    assert(s[p4] == k4[0]);
    assert(!is_digit(s[p4]));
    lemma_parse_u64_at(s, p3k, m.ping_interval_ms);
    assert(parse_u64_spec(s, p3k) == Some((m.ping_interval_ms, p4)));
    // Two more booleans.
    assert(expect_ok(s, p4, k4));
    lemma_parse_bool_at_rendering(s, p4k, m.show_jitter_panel);
    assert(expect_ok(s, p5, k5));
    lemma_parse_bool_at_rendering(s, p5k, m.show_history_panel);
    // Provider body and closing.
    assert(expect_ok(s, p6, k6));
    assert(s[q] == k7[0]);
    assert(s[q] == '"');
    assert(forall|t: int| body <= t < q ==> #[trigger] s[t] == pv[t - body]);
    assert(forall|t: int| body <= t < q ==> is_clean_char(#[trigger] s[t]));
    assert(forall|t: int| body <= t < q ==> #[trigger] s[t] != '"');
    lemma_scan_clean(s, body, q);
    assert(expect_ok(s, q, k7));
    assert(parse_config_spec(s) == Some(m));
}

/// The rendering of a boolean at position `i` parses back to it.
proof fn lemma_parse_bool_at_rendering(s: Seq<char>, i: int, b: bool)
    requires
        0 <= i,
        i + bool_chars(b).len() <= s.len(),
        s.subrange(i, i + bool_chars(b).len()) == bool_chars(b),
    ensures
        parse_bool_spec(s, i) == Some((b, i + bool_chars(b).len())),
{
    reveal_strlit("true");
    reveal_strlit("false");
    if b {
        assert(expect_ok(s, i, "true"@));
    } else {
        assert(expect_ok(s, i, "false"@));
        assert(!expect_ok(s, i, "true"@)) by {
            if expect_ok(s, i, "true"@) {
                assert(s.subrange(i, i + "true"@.len())[0] == 't');
                assert(s.subrange(i, i + "false"@.len())[0] == 'f');
            }
        }
    }
}

} // verus!

