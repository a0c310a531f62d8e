//! The wire codec: one JSON document per message, no framing.
//!
//! The encoder emits a canonical text for each envelope: object members in a
//! fixed order, no whitespace, strings without escape sequences, numbers in
//! decimal without leading zeros, and the `payload` member omitted when the
//! envelope carries none.  The decoder accepts that canonical text and, in
//! addition, an explicit `"payload":null` member, which decodes the same as
//! an absent payload.

use vstd::prelude::*;

use crate::events::EnvelopeModel;
use crate::events::plain_char;
use crate::events::plain_str;
use crate::events::wf_envelope;
use crate::events::wf_payload;
use crate::events::Payload;
use crate::events::PayloadModel;
use crate::events::Request;
use crate::events::Response;

verus! {

/// The decimal digit character for `d`.
pub open spec fn digit_char(d: int) -> char {
    if d == 0 {
        '0'
    } else if d == 1 {
        '1'
    } else if d == 2 {
        '2'
    } else if d == 3 {
        '3'
    } else if d == 4 {
        '4'
    } else if d == 5 {
        '5'
    } else if d == 6 {
        '6'
    } else if d == 7 {
        '7'
    } else if d == 8 {
        '8'
    } else {
        '9'
    }
}

/// Decimal encoding of a non-negative integer: most significant digit first,
/// no leading zeros (`0` itself is the single digit `0`).
pub open spec fn enc_u32(n: int) -> Seq<char>
    decreases n,
{
    if n < 10 {
        seq![digit_char(n)]
    } else {
        enc_u32(n / 10).push(digit_char(n % 10))
    }
}

/// Encoding of an optional number: `null` when absent.
pub open spec fn enc_opt_u32(o: Option<u32>) -> Seq<char> {
    match o {
        Option::None => seq!['n', 'u', 'l', 'l'],
        Option::Some(n) => enc_u32(n as int),
    }
}

/// Encoding of a string value: the characters between two quotes, verbatim.
pub open spec fn enc_str(s: Seq<char>) -> Seq<char> {
    seq!['"'] + s + seq!['"']
}

/// Encoding of the elements of a name array after the first: a comma before
/// each further string.
pub open spec fn enc_names_rest(ns: Seq<Seq<char>>) -> Seq<char>
    decreases ns.len(),
{
    if ns.len() == 0 {
        seq![]
    } else {
        seq![','] + enc_str(ns[0]) + enc_names_rest(ns.skip(1))
    }
}

/// Encoding of a name array.
pub open spec fn enc_names(ns: Seq<Seq<char>>) -> Seq<char> {
    if ns.len() == 0 {
        seq!['[', ']']
    } else {
        seq!['['] + enc_str(ns[0]) + enc_names_rest(ns.skip(1)) + seq![']']
    }
}

/// Encoding of a payload value.
pub open spec fn enc_payload(p: PayloadModel) -> Seq<char> {
    match p {
        PayloadModel::List { user_id } => seq!['{', '"', 'u', 's', 'e', 'r', '_', 'i', 'd', '"', ':']
            + enc_opt_u32(user_id) + seq!['}'],
        PayloadModel::Create { user_id, name, recreate } => seq!['{', '"', 'u', 's', 'e', 'r', '_', 'i', 'd', '"', ':']
            + enc_opt_u32(user_id) + seq![',', '"', 'n', 'a', 'm', 'e', '"', ':'] + enc_str(name)
            + seq![',', '"', 'r', 'e', 'c', 'r', 'e', 'a', 't', 'e', '"', ':'] + (if recreate {
            seq!['t', 'r', 'u', 'e']
        } else {
            seq!['f', 'a', 'l', 's', 'e']
        }) + seq!['}'],
        PayloadModel::Names(ns) => enc_names(ns),
    }
}

/// Canonical encoding of an envelope.
pub open spec fn enc_envelope(e: EnvelopeModel) -> Seq<char> {
    seq!['{', '"', 'e', 'v', 'e', 'n', 't', '"', ':'] + enc_str(e.event) + (match e.payload {
        Option::None => seq![],
        Option::Some(p) => seq![',', '"', 'p', 'a', 'y', 'l', 'o', 'a', 'd', '"', ':']
            + enc_payload(p),
    }) + seq!['}']
}

/// Whether `c` is a decimal digit.
pub open spec fn is_digit(c: char) -> bool {
    48 <= c as u32 && c as u32 <= 57
}

/// The value of the digit `c`.
pub open spec fn digit_val(c: char) -> int {
    c as u32 - 48
}

/// The literal `lit` stands in `s` at position `i`.
pub open spec fn at_lit(s: Seq<char>, i: int, lit: Seq<char>) -> bool {
    0 <= i && i + lit.len() <= s.len() && s.subrange(i, i + lit.len()) == lit
}

/// Scans the body of a string value from `i` up to the closing quote.
/// Returns the body and the position just past the quote.  Fails on a
/// non-plain character or an unterminated string.
pub open spec fn scan_string(s: Seq<char>, i: int) -> Option<(Seq<char>, int)>
    decreases s.len() - i,
    when 0 <= i <= s.len()
{
    if i >= s.len() {
        Option::None
    } else if s[i] == '"' {
        Option::Some((seq![], i + 1))
    } else if plain_char(s[i]) {
        match scan_string(s, i + 1) {
            Option::None => Option::None,
            Option::Some((t, j)) => Option::Some((seq![s[i]] + t, j)),
        }
    } else {
        Option::None
    }
}

/// Parses a string value: an opening quote, then its body.
pub open spec fn parse_string(s: Seq<char>, i: int) -> Option<(Seq<char>, int)> {
    if 0 <= i && i < s.len() && s[i] == '"' {
        scan_string(s, i + 1)
    } else {
        Option::None
    }
}

/// Scans a run of digits, folding them onto `acc`.  Stops at the first
/// non-digit (or the end); fails if the value would not fit in 32 bits.
pub open spec fn scan_u32(s: Seq<char>, i: int, acc: int) -> Option<(int, int)>
    decreases s.len() - i,
    when 0 <= i <= s.len()
{
    if i < s.len() && is_digit(s[i]) {
        if acc * 10 + digit_val(s[i]) <= u32::MAX {
            scan_u32(s, i + 1, acc * 10 + digit_val(s[i]))
        } else {
            Option::None
        }
    } else {
        Option::Some((acc, i))
    }
}

/// Parses a decimal number that fits in 32 bits.
pub open spec fn parse_u32(s: Seq<char>, i: int) -> Option<(int, int)> {
    if 0 <= i && i < s.len() && is_digit(s[i]) {
        scan_u32(s, i, 0)
    } else {
        Option::None
    }
}

/// Parses an optional number: the literal `null`, or a decimal number.
pub open spec fn parse_opt_u32(s: Seq<char>, i: int) -> Option<(Option<u32>, int)> {
    if at_lit(s, i, seq!['n', 'u', 'l', 'l']) {
        Option::Some((Option::None, i + 4))
    } else {
        match parse_u32(s, i) {
            Option::None => Option::None,
            Option::Some((n, j)) => Option::Some((Option::Some(n as u32), j)),
        }
    }
}

/// Parses a boolean literal.
pub open spec fn parse_bool(s: Seq<char>, i: int) -> Option<(bool, int)> {
    if at_lit(s, i, seq!['t', 'r', 'u', 'e']) {
        Option::Some((true, i + 4))
    } else if at_lit(s, i, seq!['f', 'a', 'l', 's', 'e']) {
        Option::Some((false, i + 5))
    } else {
        Option::None
    }
}

/// Scans the elements of a non-empty name array, starting at the first
/// string, up to the closing bracket.
pub open spec fn scan_names(s: Seq<char>, i: int) -> Option<(Seq<Seq<char>>, int)>
    decreases s.len() - i,
    when 0 <= i <= s.len()
{
    match parse_string(s, i) {
        Option::None => Option::None,
        Option::Some((nm, j)) => if !(i < j && j <= s.len()) {
            Option::None
        } else if j < s.len() && s[j] == ']' {
            Option::Some((seq![nm], j + 1))
        } else if j < s.len() && s[j] == ',' {
            match scan_names(s, j + 1) {
                Option::None => Option::None,
                Option::Some((rest, k)) => Option::Some((seq![nm] + rest, k)),
            }
        } else {
            Option::None
        },
    }
}

/// Parses a name array.
pub open spec fn parse_names(s: Seq<char>, i: int) -> Option<(Seq<Seq<char>>, int)> {
    if 0 <= i && i < s.len() && s[i] == '[' {
        if i + 1 < s.len() && s[i + 1] == ']' {
            Option::Some((seq![], i + 2))
        } else {
            scan_names(s, i + 1)
        }
    } else {
        Option::None
    }
}

/// Parses a payload value: `null` (an absent payload), a list or create
/// object, or a name array.
pub open spec fn parse_payload(s: Seq<char>, i: int) -> Option<(Option<PayloadModel>, int)> {
    if at_lit(s, i, seq!['n', 'u', 'l', 'l']) {
        Option::Some((Option::None, i + 4))
    } else if at_lit(s, i, seq!['{', '"', 'u', 's', 'e', 'r', '_', 'i', 'd', '"', ':']) {
        match parse_opt_u32(s, i + 11) {
            Option::None => Option::None,
            Option::Some((uid, j)) => if j < s.len() && s[j] == '}' {
                Option::Some((Option::Some(PayloadModel::List { user_id: uid }), j + 1))
            } else if at_lit(s, j, seq![',', '"', 'n', 'a', 'm', 'e', '"', ':']) {
                match parse_string(s, j + 8) {
                    Option::None => Option::None,
                    Option::Some((name, k)) => if at_lit(
                        s,
                        k,
                        seq![',', '"', 'r', 'e', 'c', 'r', 'e', 'a', 't', 'e', '"', ':'],
                    ) {
                        match parse_bool(s, k + 12) {
                            Option::None => Option::None,
                            Option::Some((b, m)) => if m < s.len() && s[m] == '}' {
                                Option::Some(
                                    (
                                        Option::Some(
                                            PayloadModel::Create {
                                                user_id: uid,
                                                name: name,
                                                recreate: b,
                                            },
                                        ),
                                        m + 1,
                                    ),
                                )
                            } else {
                                Option::None
                            },
                        }
                    } else {
                        Option::None
                    },
                }
            } else {
                Option::None
            },
        }
    } else {
        match parse_names(s, i) {
            Option::None => Option::None,
            Option::Some((ns, j)) => Option::Some(
                (Option::Some(PayloadModel::Names(ns)), j),
            ),
        }
    }
}

/// Parses a whole envelope: the entire input must be one envelope object.
pub open spec fn parse_envelope(s: Seq<char>) -> Option<EnvelopeModel> {
    if at_lit(s, 0, seq!['{', '"', 'e', 'v', 'e', 'n', 't', '"', ':']) {
        match parse_string(s, 9) {
            Option::None => Option::None,
            Option::Some((ev, j)) => if j < s.len() && s[j] == '}' && j + 1 == s.len() {
                Option::Some(EnvelopeModel { event: ev, payload: Option::None })
            } else if at_lit(s, j, seq![',', '"', 'p', 'a', 'y', 'l', 'o', 'a', 'd', '"', ':']) {
                match parse_payload(s, j + 11) {
                    Option::None => Option::None,
                    Option::Some((pl, k)) => if k < s.len() && s[k] == '}' && k + 1 == s.len() {
                        Option::Some(EnvelopeModel { event: ev, payload: pl })
                    } else {
                        Option::None
                    },
                }
            } else {
                Option::None
            },
        }
    } else {
        Option::None
    }
}

/// A successful string scan lands strictly past its start, within bounds,
/// and yields a plain body: the characters between the start and the quote.
pub proof fn lemma_scan_string_bounds(s: Seq<char>, i: int)
    requires
        0 <= i <= s.len(),
        scan_string(s, i) is Some,
    ensures
        i < scan_string(s, i)->Some_0.1 <= s.len(),
        scan_string(s, i)->Some_0.0 =~= s.subrange(i, scan_string(s, i)->Some_0.1 - 1),
        plain_str(scan_string(s, i)->Some_0.0),
    decreases s.len() - i,
{
    if s[i] == '"' {
    } else {
        lemma_scan_string_bounds(s, i + 1);
    }
}

/// A string scan can be split at any point inside the body: the characters
/// already passed are plain and unquoted, so they are a prefix of whatever
/// the scan from the split point yields.
pub proof fn lemma_scan_string_prefix(s: Seq<char>, i: int, k: int)
    requires
        0 <= i <= k <= s.len(),
        forall|m: int| i <= m < k ==> plain_char(#[trigger] s[m]) && s[m] != '"',
    ensures
        scan_string(s, i) == (match scan_string(s, k) {
            Option::None => Option::None::<(Seq<char>, int)>,
            Option::Some((t, j)) => Option::Some((s.subrange(i, k) + t, j)),
        }),
    decreases k - i,
{
    if i == k {
        match scan_string(s, k) {
            Option::None => {
            },
            Option::Some((t, j)) => {
                assert(s.subrange(i, k) + t =~= t);
            },
        }
    } else {
        lemma_scan_string_prefix(s, i + 1, k);
        match scan_string(s, k) {
            Option::None => {
            },
            Option::Some((t, j)) => {
                assert(seq![s[i]] + (s.subrange(i + 1, k) + t) =~= s.subrange(i, k) + t);
            },
        }
    }
}

/// Reads whether the literal `lit` stands in `s` at character position `i`.
fn expect_lit(s: &str, i: usize, lit: &str) -> (r: bool)
    ensures
        r == at_lit(s@, i as int, lit@),
{
    let n = s.unicode_len();
    let ln = lit.unicode_len();
    if ln > n || i > n - ln {
        return false;
    }
    let mut k: usize = 0;
    while k < ln
        invariant
            0 <= k <= ln,
            n == s@.len(),
            ln == lit@.len(),
            i + ln <= n,
            forall|m: int| 0 <= m < k ==> s@[i + m] == lit@[m],
        decreases ln - k,
    {
        if s.get_char(i + k) != lit.get_char(k) {
            proof {
                assert(s@.subrange(i as int, i + lit@.len())[k as int] == s@[i + k]);
            }
            return false;
        }
        k = k + 1;
    }
    proof {
        assert(s@.subrange(i as int, i + lit@.len()) =~= lit@);
    }
    true
}

/// Reads a string value at character position `i`: the executable face of
/// `parse_string`.
fn read_string(s: &str, i: usize) -> (r: Option<(String, usize)>)
    ensures
        match parse_string(s@, i as int) {
            Option::None => r is None,
            Option::Some((t, j)) => r matches Option::Some(p) && p.0@ == t && p.1 == j,
        },
{
    let n = s.unicode_len();
    if i >= n {
        return Option::None;
    }
    if s.get_char(i) != '"' {
        return Option::None;
    }
    let mut k: usize = i + 1;
    loop
        invariant
            i + 1 <= k <= n,
            n == s@.len(),
            i < n,
            s@[i as int] == '"',
            forall|m: int| i + 1 <= m < k ==> plain_char(#[trigger] s@[m]) && s@[m] != '"',
        decreases n - k,
    {
        if k >= n {
            proof {
                lemma_scan_string_prefix(s@, i + 1, k as int);
            }
            return Option::None;
        }
        let c = s.get_char(k);
        if c == '"' {
            let body = s.substring_char(i + 1, k);
            let owned = body.to_owned();
            proof {
                lemma_scan_string_prefix(s@, i + 1, k as int);
                assert(scan_string(s@, k as int) == Option::Some(
                    (Seq::<char>::empty(), k + 1 as int),
                ));
                assert(s@.subrange(i + 1, k as int) + Seq::<char>::empty() =~= s@.subrange(
                    i + 1,
                    k as int,
                ));
            }
            return Option::Some((owned, k + 1));
        }
        if c == '\\' || (c as u32) < 0x20 {
            proof {
                lemma_scan_string_prefix(s@, i + 1, k as int);
                assert(!plain_char(s@[k as int]));
            }
            return Option::None;
        }
        k = k + 1;
    }
}

/// Reads a decimal number at character position `i`: the executable face of
/// `parse_u32`.
pub(crate) fn read_u32(s: &str, i: usize) -> (r: Option<(u32, usize)>)
    ensures
        match parse_u32(s@, i as int) {
            Option::None => r is None,
            Option::Some((v, j)) => r matches Option::Some(p) && p.0 as int == v && p.1 == j,
        },
{
    let n = s.unicode_len();
    if i >= n {
        return Option::None;
    }
    let c0 = s.get_char(i) as u32;
    if !(48 <= c0 && c0 <= 57) {
        return Option::None;
    }
    let mut acc: u32 = 0;
    let mut k: usize = i;
    loop
        invariant
            i <= k <= n,
            n == s@.len(),
            i < n,
            is_digit(s@[i as int]),
            scan_u32(s@, i as int, 0) == scan_u32(s@, k as int, acc as int),
        decreases n - k,
    {
        if k >= n {
            return Option::Some((acc, k));
        }
        let c = s.get_char(k) as u32;
        if !(48 <= c && c <= 57) {
            return Option::Some((acc, k));
        }
        let v: u64 = acc as u64 * 10 + (c - 48) as u64;
        if v > u32::MAX as u64 {
            return Option::None;
        }
        acc = v as u32;
        k = k + 1;
    }
}

/// Reads `null` or a decimal number at `i`: the executable face of
/// `parse_opt_u32`.
fn read_opt_u32(s: &str, i: usize) -> (r: Option<(Option<u32>, usize)>)
    ensures
        match parse_opt_u32(s@, i as int) {
            Option::None => r is None,
            Option::Some((o, j)) => r matches Option::Some(p) && p.0 == o && p.1 == j,
        },
{
    let ghost lit_null = seq!['n', 'u', 'l', 'l'];
    proof {
        reveal_strlit("null");
        assert("null"@ =~= lit_null);
    }
    let n = s.unicode_len();
    if expect_lit(s, i, "null") {
        proof {
            assert(i + 4 <= n);
        }
        return Option::Some((Option::None, i + 4));
    }
    match read_u32(s, i) {
        Option::None => Option::None,
        Option::Some((v, j)) => Option::Some((Option::Some(v), j)),
    }
}

/// Reads a boolean literal at `i`: the executable face of `parse_bool`.
fn read_bool(s: &str, i: usize) -> (r: Option<(bool, usize)>)
    ensures
        match parse_bool(s@, i as int) {
            Option::None => r is None,
            Option::Some((b, j)) => r matches Option::Some(p) && p.0 == b && p.1 == j,
        },
{
    proof {
        reveal_strlit("true");
        reveal_strlit("false");
        assert("true"@ =~= seq!['t', 'r', 'u', 'e']);
        assert("false"@ =~= seq!['f', 'a', 'l', 's', 'e']);
    }
    let n = s.unicode_len();
    if expect_lit(s, i, "true") {
        proof {
            assert(i + 4 <= n);
        }
        return Option::Some((true, i + 4));
    }
    if expect_lit(s, i, "false") {
        proof {
            assert(i + 5 <= n);
        }
        return Option::Some((false, i + 5));
    }
    Option::None
}

/// Reads a name array at `i`: the executable face of `parse_names`.
fn read_names(s: &str, i: usize) -> (r: Option<(Vec<String>, usize)>)
    ensures
        match parse_names(s@, i as int) {
            Option::None => r is None,
            Option::Some((ns, j)) => r matches Option::Some(p) && p.0.deep_view() == ns && p.1 == j,
        },
{
    let n = s.unicode_len();
    if i >= n {
        return Option::None;
    }
    if s.get_char(i) != '[' {
        return Option::None;
    }
    if i + 1 < n && s.get_char(i + 1) == ']' {
        let empty: Vec<String> = Vec::new();
        proof {
            assert(empty.deep_view() =~= Seq::<Seq<char>>::empty());
        }
        return Option::Some((empty, i + 2));
    }
    let ghost start = i + 1 as int;
    let mut acc: Vec<String> = Vec::new();
    let mut cur: usize = i + 1;
    proof {
        assert(acc.deep_view() =~= Seq::<Seq<char>>::empty());
    }
    loop
        invariant
            start == i + 1,
            i + 1 <= cur <= n,
            n == s@.len(),
            i < n,
            s@[i as int] == '[',
            !(i + 1 < n && s@[i + 1] == ']'),
            match scan_names(s@, cur as int) {
                Option::None => scan_names(s@, start) is None,
                Option::Some((t, j)) => scan_names(s@, start) == Option::Some(
                    (acc.deep_view() + t, j),
                ),
            },
        decreases n - cur,
    {
        let ghost old_dv = acc.deep_view();
        match read_string(s, cur) {
            Option::None => {
                return Option::None;
            },
            Option::Some((nm, j)) => {
                proof {
                    lemma_scan_string_bounds(s@, cur + 1);
                }
                if j < n && s.get_char(j) == ']' {
                    acc.push(nm);
                    proof {
                        assert(scan_names(s@, cur as int) == Option::Some(
                            (seq![nm@], j + 1 as int),
                        ));
                        assert(old_dv + seq![nm@] =~= acc.deep_view());
                    }
                    return Option::Some((acc, j + 1));
                } else if j < n && s.get_char(j) == ',' {
                    acc.push(nm);
                    proof {
                        match scan_names(s@, j + 1 as int) {
                            Option::None => {
                            },
                            Option::Some((t, j2)) => {
                                assert(scan_names(s@, cur as int) == Option::Some(
                                    (seq![nm@] + t, j2),
                                ));
                                assert(old_dv + (seq![nm@] + t) =~= acc.deep_view() + t);
                            },
                        }
                    }
                    cur = j + 1;
                } else {
                    return Option::None;
                }
            },
        }
    }
}

/// Reads a payload value at `i`: the executable face of `parse_payload`.
fn read_payload(s: &str, i: usize) -> (r: Option<(Option<Payload>, usize)>)
    ensures
        match parse_payload(s@, i as int) {
            Option::None => r is None,
            Option::Some((pl, j)) => r matches Option::Some(res) && res.1 == j && (match (
                res.0,
                pl,
            ) {
                (Option::None, Option::None) => true,
                (Option::Some(p), Option::Some(pm)) => p@ == pm,
                _ => false,
            }),
        },
{
    let ghost lit_null = seq!['n', 'u', 'l', 'l'];
    let ghost lit_uid = seq!['{', '"', 'u', 's', 'e', 'r', '_', 'i', 'd', '"', ':'];
    let ghost lit_name = seq![',', '"', 'n', 'a', 'm', 'e', '"', ':'];
    let ghost lit_recreate = seq![',', '"', 'r', 'e', 'c', 'r', 'e', 'a', 't', 'e', '"', ':'];
    proof {
        reveal_strlit("null");
        reveal_strlit("{\"user_id\":");
        reveal_strlit(",\"name\":");
        reveal_strlit(",\"recreate\":");
        assert("null"@ =~= lit_null);
        assert("{\"user_id\":"@ =~= lit_uid);
        assert(",\"name\":"@ =~= lit_name);
        assert(",\"recreate\":"@ =~= lit_recreate);
    }
    let n = s.unicode_len();
    if expect_lit(s, i, "null") {
        return Option::Some((Option::None, i + 4));
    }
    if expect_lit(s, i, "{\"user_id\":") {
        let (uid, j) = match read_opt_u32(s, i + 11) {
            Option::None => {
                return Option::None;
            },
            Option::Some(p) => p,
        };
        if j < n && s.get_char(j) == '}' {
            return Option::Some(
                (Option::Some(Payload::List(crate::events::List { user_id: uid })), j + 1),
            );
        }
        if !expect_lit(s, j, ",\"name\":") {
            return Option::None;
        }
        let (name, k) = match read_string(s, j + 8) {
            Option::None => {
                return Option::None;
            },
            Option::Some(p) => p,
        };
        if !expect_lit(s, k, ",\"recreate\":") {
            return Option::None;
        }
        let (b, m) = match read_bool(s, k + 12) {
            Option::None => {
                return Option::None;
            },
            Option::Some(p) => p,
        };
        if m < n && s.get_char(m) == '}' {
            return Option::Some(
                (
                    Option::Some(
                        Payload::Create(
                            crate::events::Create { user_id: uid, name: name, recreate: b },
                        ),
                    ),
                    m + 1,
                ),
            );
        }
        return Option::None;
    }
    match read_names(s, i) {
        Option::None => Option::None,
        Option::Some((ns, j)) => Option::Some((Option::Some(Payload::Names(ns)), j)),
    }
}

/// Reads a whole envelope from the wire text.  Returns its parts, or `None`
/// when the text is not one well-formed envelope.
fn read_envelope(s: &str) -> (r: Option<(String, Option<Payload>)>)
    ensures
        match parse_envelope(s@) {
            Option::None => r is None,
            Option::Some(e) => r matches Option::Some(res) && res.0@ == e.event && (match (
                res.1,
                e.payload,
            ) {
                (Option::None, Option::None) => true,
                (Option::Some(p), Option::Some(pm)) => p@ == pm,
                _ => false,
            }),
        },
{
    let ghost lit_event = seq!['{', '"', 'e', 'v', 'e', 'n', 't', '"', ':'];
    let ghost lit_payload = seq![',', '"', 'p', 'a', 'y', 'l', 'o', 'a', 'd', '"', ':'];
    proof {
        reveal_strlit("{\"event\":");
        reveal_strlit(",\"payload\":");
        assert("{\"event\":"@ =~= lit_event);
        assert(",\"payload\":"@ =~= lit_payload);
    }
    let n = s.unicode_len();
    if !expect_lit(s, 0, "{\"event\":") {
        return Option::None;
    }
    let (ev, j) = match read_string(s, 9) {
        Option::None => {
            return Option::None;
        },
        Option::Some(p) => p,
    };
    if j < n && s.get_char(j) == '}' && j + 1 == n {
        return Option::Some((ev, Option::None));
    }
    if !expect_lit(s, j, ",\"payload\":") {
        return Option::None;
    }
    let (pl, k) = match read_payload(s, j + 11) {
        Option::None => {
            return Option::None;
        },
        Option::Some(p) => p,
    };
    if k < n && s.get_char(k) == '}' && k + 1 == n {
        return Option::Some((ev, pl));
    }
    Option::None
}

/// Decodes a request envelope from its wire text.
pub fn decode_request(s: &str) -> (r: Option<Request>)
    ensures
        match parse_envelope(s@) {
            Option::None => r is None,
            Option::Some(e) => r is Some && r->0@ == e,
        },
{
    match read_envelope(s) {
        Option::None => Option::None,
        Option::Some((ev, pl)) => Option::Some(Request { event: ev, payload: pl }),
    }
}

/// Decodes a response envelope from its wire text.
pub fn decode_response(s: &str) -> (r: Option<Response>)
    ensures
        match parse_envelope(s@) {
            Option::None => r is None,
            Option::Some(e) => r is Some && r->0@ == e,
        },
{
    match read_envelope(s) {
        Option::None => Option::None,
        Option::Some((ev, pl)) => Option::Some(Response { event: ev, payload: pl }),
    }
}

/// An established subrange equality gives each single character.
pub proof fn lemma_sub_index(s: Seq<char>, i: int, w: Seq<char>, a: int)
    requires
        0 <= i,
        i + w.len() <= s.len(),
        s.subrange(i, i + w.len()) == w,
        0 <= a < w.len(),
    ensures
        s[i + a] == w[a],
{
    assert(s.subrange(i, i + w.len())[a] == w[a]);
}

/// An established subrange equality gives each of its pieces.
pub proof fn lemma_sub_piece(s: Seq<char>, i: int, w: Seq<char>, a: int, b: int)
    requires
        0 <= i,
        i + w.len() <= s.len(),
        s.subrange(i, i + w.len()) == w,
        0 <= a <= b <= w.len(),
    ensures
        s.subrange(i + a, i + b) == w.subrange(a, b),
{
    assert forall|m: int| 0 <= m < b - a implies s.subrange(i + a, i + b)[m] == w.subrange(a, b)[m]
        by {
        assert(s.subrange(i, i + w.len())[a + m] == w[a + m]);
    }
    assert(s.subrange(i + a, i + b) =~= w.subrange(a, b));
}

/// Every character of a decimal encoding is a digit, and folding the digits
/// back recovers the value they were made from.
pub proof fn lemma_enc_u32_digits(n: int)
    requires
        0 <= n,
    ensures
        enc_u32(n).len() >= 1,
        forall|i: int| 0 <= i < enc_u32(n).len() ==> is_digit(#[trigger] enc_u32(n)[i]),
    decreases n,
{
    if n < 10 {
    } else {
        lemma_enc_u32_digits(n / 10);
    }
}

/// Folds a digit run onto an accumulator, front to back: the value the
/// digit scan computes.
pub open spec fn val_from(ds: Seq<char>, acc: int) -> int
    decreases ds.len(),
{
    if ds.len() == 0 {
        acc
    } else {
        val_from(ds.skip(1), acc * 10 + digit_val(ds[0]))
    }
}

/// Appending a digit multiplies the folded value by ten and adds the digit.
pub proof fn lemma_val_from_push(ds: Seq<char>, d: char, acc: int)
    ensures
        val_from(ds.push(d), acc) == val_from(ds, acc) * 10 + digit_val(d),
    decreases ds.len(),
{
    if ds.len() == 0 {
        assert(ds.push(d).len() == 1);
        assert(ds.push(d)[0] == d);
        assert(ds.push(d).skip(1) =~= Seq::<char>::empty());
        assert(val_from(ds.push(d), acc) == val_from(
            Seq::<char>::empty(),
            acc * 10 + digit_val(d),
        ));
        assert(val_from(Seq::<char>::empty(), acc * 10 + digit_val(d)) == acc * 10 + digit_val(d));
        assert(val_from(ds, acc) == acc);
    } else {
        let acc2 = acc * 10 + digit_val(ds[0]);
        assert(ds.push(d).len() == ds.len() + 1);
        assert(ds.push(d)[0] == ds[0]);
        assert(ds.push(d).skip(1) =~= ds.skip(1).push(d));
        assert(val_from(ds.push(d), acc) == val_from(ds.skip(1).push(d), acc2));
        lemma_val_from_push(ds.skip(1), d, acc2);
        assert(val_from(ds, acc) == val_from(ds.skip(1), acc2));
    }
}

/// The folded value never falls below the accumulator it started from.
pub proof fn lemma_val_from_lb(ds: Seq<char>, acc: int)
    requires
        0 <= acc,
        forall|i: int| 0 <= i < ds.len() ==> is_digit(#[trigger] ds[i]),
    ensures
        acc <= val_from(ds, acc),
    decreases ds.len(),
{
    if ds.len() > 0 {
        lemma_val_from_lb(ds.skip(1), acc * 10 + digit_val(ds[0]));
    }
}

/// Folding the decimal encoding of `n` from zero yields `n` again.
pub proof fn lemma_val_from_enc(n: int)
    requires
        0 <= n,
    ensures
        val_from(enc_u32(n), 0) == n,
    decreases n,
{
    if n < 10 {
        assert(enc_u32(n) == seq![digit_char(n)]);
        assert(enc_u32(n)[0] == digit_char(n));
        assert(enc_u32(n).skip(1) =~= Seq::<char>::empty());
        assert(digit_val(digit_char(n)) == n);
        assert(val_from(enc_u32(n), 0) == val_from(Seq::<char>::empty(), 0 * 10 + n));
        assert(val_from(Seq::<char>::empty(), n) == n);
    } else {
        lemma_val_from_enc(n / 10);
        lemma_val_from_push(enc_u32(n / 10), digit_char(n % 10), 0);
        assert(digit_val(digit_char(n % 10)) == n % 10);
        assert(enc_u32(n) == enc_u32(n / 10).push(digit_char(n % 10)));
        assert(val_from(enc_u32(n), 0) == (n / 10) * 10 + n % 10);
    }
}

/// A digit scan over a run of digits that a non-digit (or the end) closes
/// off computes the folded value and stops right after the run.
pub proof fn lemma_scan_digits(s: Seq<char>, i: int, ds: Seq<char>, acc: int)
    requires
        0 <= i,
        i + ds.len() <= s.len(),
        forall|m: int| 0 <= m < ds.len() ==> is_digit(#[trigger] ds[m]),
        s.subrange(i, i + ds.len()) == ds,
        i + ds.len() == s.len() || !is_digit(s[i + ds.len()]),
        0 <= acc,
        val_from(ds, acc) <= u32::MAX,
    ensures
        scan_u32(s, i, acc) == Option::Some((val_from(ds, acc), i + ds.len())),
    decreases ds.len(),
{
    if ds.len() == 0 {
    } else {
        assert(s[i] == ds[0]);
        let acc2 = acc * 10 + digit_val(ds[0]);
        lemma_val_from_lb(ds.skip(1), acc2);
        assert(s.subrange(i + 1, i + ds.len()) =~= ds.skip(1));
        lemma_scan_digits(s, i + 1, ds.skip(1), acc2);
    }
}

/// Parsing at the start of a closed-off decimal encoding of `n` yields `n`.
pub proof fn lemma_parse_u32_enc(s: Seq<char>, i: int, n: int)
    requires
        0 <= i,
        0 <= n <= u32::MAX,
        i + enc_u32(n).len() <= s.len(),
        s.subrange(i, i + enc_u32(n).len()) == enc_u32(n),
        i + enc_u32(n).len() == s.len() || !is_digit(s[i + enc_u32(n).len()]),
    ensures
        parse_u32(s, i) == Option::Some((n, i + enc_u32(n).len())),
{
    lemma_enc_u32_digits(n);
    lemma_val_from_enc(n);
    assert(s[i] == enc_u32(n)[0]);
    lemma_scan_digits(s, i, enc_u32(n), 0);
}

/// Parsing at the start of a closed-off optional-number encoding yields the
/// value it was made from.
pub proof fn lemma_parse_opt_u32_enc(s: Seq<char>, i: int, o: Option<u32>)
    requires
        0 <= i,
        i + enc_opt_u32(o).len() <= s.len(),
        s.subrange(i, i + enc_opt_u32(o).len()) == enc_opt_u32(o),
        i + enc_opt_u32(o).len() == s.len() || !is_digit(s[i + enc_opt_u32(o).len()]),
    ensures
        parse_opt_u32(s, i) == Option::Some((o, i + enc_opt_u32(o).len())),
{
    match o {
        Option::None => {
            assert(at_lit(s, i, seq!['n', 'u', 'l', 'l']));
        },
        Option::Some(n) => {
            lemma_enc_u32_digits(n as int);
            assert(s[i] == enc_u32(n as int)[0]);
            assert(is_digit(s[i]));
            assert(!at_lit(s, i, seq!['n', 'u', 'l', 'l'])) by {
                if at_lit(s, i, seq!['n', 'u', 'l', 'l']) {
                    assert(s.subrange(i, i + 4)[0] == 'n');
                }
            }
            lemma_parse_u32_enc(s, i, n as int);
        },
    }
}

/// Parsing at the start of an embedded string encoding yields its body.
pub proof fn lemma_parse_string_enc(s: Seq<char>, i: int, body: Seq<char>)
    requires
        0 <= i,
        plain_str(body),
        i + body.len() + 2 <= s.len(),
        s.subrange(i, i + body.len() + 2) == enc_str(body),
    ensures
        parse_string(s, i) == Option::Some((body, i + body.len() + 2)),
{
    let w = enc_str(body);
    lemma_sub_index(s, i, w, 0);
    let k = i + 1 + body.len();
    lemma_sub_index(s, i, w, body.len() as int + 1);
    assert(s[k] == '"');
    assert forall|m: int| i + 1 <= m < k implies plain_char(#[trigger] s[m]) && s[m] != '"' by {
        lemma_sub_index(s, i, w, m - i);
        assert(w[m - i] == body[m - i - 1]);
    }
    lemma_scan_string_prefix(s, i + 1, k);
    assert(scan_string(s, k) == Option::Some((Seq::<char>::empty(), k + 1)));
    lemma_sub_piece(s, i, w, 1, 1 + body.len() as int);
    assert(w.subrange(1, 1 + body.len() as int) =~= body);
    assert(s.subrange(i + 1, k) + Seq::<char>::empty() =~= body);
}

/// Parsing at the start of an embedded non-empty name-array body yields the
/// names it was made from.
pub proof fn lemma_scan_names_enc(s: Seq<char>, i: int, ns: Seq<Seq<char>>)
    requires
        0 <= i,
        ns.len() >= 1,
        forall|m: int| 0 <= m < ns.len() ==> plain_str(#[trigger] ns[m]),
        i + enc_str(ns[0]).len() + enc_names_rest(ns.skip(1)).len() + 1 <= s.len(),
        s.subrange(i, i + enc_str(ns[0]).len() + enc_names_rest(ns.skip(1)).len() + 1)
            == enc_str(ns[0]) + enc_names_rest(ns.skip(1)) + seq![']'],
    ensures
        scan_names(s, i) == Option::Some(
            (ns, i + enc_str(ns[0]).len() + enc_names_rest(ns.skip(1)).len() + 1),
        ),
    decreases ns.len(),
{
    let w = enc_str(ns[0]) + enc_names_rest(ns.skip(1)) + seq![']'];
    let sl = ns[0].len() as int;
    lemma_sub_piece(s, i, w, 0, sl + 2);
    assert(w.subrange(0, sl + 2) =~= enc_str(ns[0]));
    lemma_parse_string_enc(s, i, ns[0]);
    let j = i + sl + 2;
    if ns.len() == 1 {
        assert(enc_names_rest(ns.skip(1)) =~= Seq::<char>::empty());
        lemma_sub_index(s, i, w, sl + 2);
        assert(s[j] == ']');
        assert(seq![ns[0]] =~= ns);
    } else {
        let tail = ns.skip(1);
        assert(tail.len() >= 1);
        assert(enc_names_rest(tail) == seq![','] + enc_str(tail[0]) + enc_names_rest(tail.skip(1)));
        lemma_sub_index(s, i, w, sl + 2);
        assert(s[j] == ',');
        assert(s[j] != ']');
        let w2 = enc_str(tail[0]) + enc_names_rest(tail.skip(1)) + seq![']'];
        assert(tail.skip(1) =~= ns.skip(2));
        assert(w =~= enc_str(ns[0]) + seq![','] + w2);
        lemma_sub_piece(s, i, w, sl + 3, w.len() as int);
        assert(w.subrange(sl + 3, w.len() as int) =~= w2);
        lemma_scan_names_enc(s, j + 1, tail);
        assert(seq![ns[0]] + tail =~= ns);
    }
}

/// Parsing at the start of a closed-off name-array encoding yields the
/// names it was made from.
pub proof fn lemma_parse_names_enc(s: Seq<char>, i: int, ns: Seq<Seq<char>>)
    requires
        0 <= i,
        forall|m: int| 0 <= m < ns.len() ==> plain_str(#[trigger] ns[m]),
        i + enc_names(ns).len() <= s.len(),
        s.subrange(i, i + enc_names(ns).len()) == enc_names(ns),
    ensures
        parse_names(s, i) == Option::Some((ns, i + enc_names(ns).len())),
{
    lemma_sub_index(s, i, enc_names(ns), 0);
    assert(s[i] == '[');
    if ns.len() == 0 {
        lemma_sub_index(s, i, enc_names(ns), 1);
        assert(s[i + 1] == ']');
    } else {
        lemma_sub_index(s, i, enc_names(ns), 1);
        assert(s[i + 1] == '"');
        assert(s[i + 1] != ']');
        let w = enc_str(ns[0]) + enc_names_rest(ns.skip(1)) + seq![']'];
        assert(enc_names(ns) =~= seq!['['] + w);
        lemma_sub_piece(s, i, enc_names(ns), 1, enc_names(ns).len() as int);
        assert(enc_names(ns).subrange(1, enc_names(ns).len() as int) =~= w);
        lemma_scan_names_enc(s, i + 1, ns);
    }
}

/// Parsing at the start of a closed-off payload encoding yields the payload
/// it was made from.
#[verifier::rlimit(60)]
pub proof fn lemma_parse_payload_enc(s: Seq<char>, i: int, p: PayloadModel)
    requires
        0 <= i,
        wf_payload(p),
        i + enc_payload(p).len() <= s.len(),
        s.subrange(i, i + enc_payload(p).len()) == enc_payload(p),
        i + enc_payload(p).len() == s.len() || s[i + enc_payload(p).len()] == '}',
    ensures
        parse_payload(s, i) == Option::Some((Option::Some(p), i + enc_payload(p).len())),
{
    let w = enc_payload(p);
    let endpos = i + w.len();
    assert(s[i] == w[0]);
    assert(!at_lit(s, i, seq!['n', 'u', 'l', 'l'])) by {
        if at_lit(s, i, seq!['n', 'u', 'l', 'l']) {
            assert(s.subrange(i, i + 4)[0] == 'n');
        }
    }
    match p {
        PayloadModel::List { user_id } => {
            let lit = seq!['{', '"', 'u', 's', 'e', 'r', '_', 'i', 'd', '"', ':'];
            let u = enc_opt_u32(user_id);
            let ul = u.len() as int;
            lemma_sub_piece(s, i, w, 0, 11);
            assert(w.subrange(0, 11) =~= lit);
            assert(at_lit(s, i, lit));
            lemma_sub_piece(s, i, w, 11, 11 + ul);
            assert(w.subrange(11, 11 + ul) =~= u);
            lemma_sub_index(s, i, w, 11 + ul);
            assert(s[i + 11 + ul] == '}');
            lemma_parse_opt_u32_enc(s, i + 11, user_id);
        },
        PayloadModel::Create { user_id, name, recreate } => {
            let lit = seq!['{', '"', 'u', 's', 'e', 'r', '_', 'i', 'd', '"', ':'];
            let u = enc_opt_u32(user_id);
            let lit_name = seq![',', '"', 'n', 'a', 'm', 'e', '"', ':'];
            let lit_rec = seq![',', '"', 'r', 'e', 'c', 'r', 'e', 'a', 't', 'e', '"', ':'];
            let bv = if recreate {
                seq!['t', 'r', 'u', 'e']
            } else {
                seq!['f', 'a', 'l', 's', 'e']
            };
            let ul = u.len() as int;
            let nl = name.len() as int;
            assert(w =~= lit + u + lit_name + enc_str(name) + lit_rec + bv + seq!['}']);
            lemma_sub_piece(s, i, w, 0, 11);
            assert(w.subrange(0, 11) =~= lit);
            assert(at_lit(s, i, lit));
            lemma_sub_piece(s, i, w, 11, 11 + ul);
            assert(w.subrange(11, 11 + ul) =~= u);
            let j = i + 11 + ul;
            lemma_sub_index(s, i, w, 11 + ul);
            assert(s[j] == ',');
            lemma_parse_opt_u32_enc(s, i + 11, user_id);
            lemma_sub_piece(s, i, w, 11 + ul, 11 + ul + 8);
            assert(w.subrange(11 + ul, 11 + ul + 8) =~= lit_name);
            assert(at_lit(s, j, lit_name));
            lemma_sub_piece(s, i, w, 11 + ul + 8, 11 + ul + 8 + nl + 2);
            assert(w.subrange(11 + ul + 8, 11 + ul + 8 + nl + 2) =~= enc_str(name));
            lemma_parse_string_enc(s, j + 8, name);
            let k = j + 8 + nl + 2;
            lemma_sub_piece(s, i, w, 11 + ul + 8 + nl + 2, 11 + ul + 8 + nl + 2 + 12);
            assert(w.subrange(11 + ul + 8 + nl + 2, 11 + ul + 8 + nl + 2 + 12) =~= lit_rec);
            assert(at_lit(s, k, lit_rec));
            let bpos = 11 + ul + 8 + nl + 2 + 12;
            lemma_sub_piece(s, i, w, bpos, bpos + bv.len() as int);
            lemma_sub_index(s, i, w, bpos + bv.len() as int);
            if recreate {
                assert(w.subrange(bpos, bpos + 4) =~= seq!['t', 'r', 'u', 'e']);
                assert(at_lit(s, k + 12, seq!['t', 'r', 'u', 'e']));
                assert(s[k + 16] == '}');
            } else {
                assert(w.subrange(bpos, bpos + 5) =~= seq!['f', 'a', 'l', 's', 'e']);
                assert(at_lit(s, k + 12, seq!['f', 'a', 'l', 's', 'e']));
                assert(!at_lit(s, k + 12, seq!['t', 'r', 'u', 'e'])) by {
                    if at_lit(s, k + 12, seq!['t', 'r', 'u', 'e']) {
                        assert(s.subrange(k + 12, k + 16)[0] == 't');
                        assert(s[k + 12] == 'f');
                    }
                }
                assert(s[k + 17] == '}');
            }
        },
        PayloadModel::Names(ns) => {
            lemma_sub_index(s, i, w, 0);
            assert(s[i] == '[');
            assert(!at_lit(s, i, seq!['{', '"', 'u', 's', 'e', 'r', '_', 'i', 'd', '"', ':']))
                by {
                if at_lit(s, i, seq!['{', '"', 'u', 's', 'e', 'r', '_', 'i', 'd', '"', ':']) {
                    assert(s.subrange(i, i + 11)[0] == '{');
                }
            }
            lemma_parse_names_enc(s, i, ns);
        },
    }
}

/// Round trip: parsing the canonical encoding of a well-formed envelope
/// yields that envelope again.
pub proof fn lemma_parse_enc_envelope(e: EnvelopeModel)
    requires
        wf_envelope(e),
    ensures
        parse_envelope(enc_envelope(e)) == Option::Some(e),
{
    let s = enc_envelope(e);
    let lit_event = seq!['{', '"', 'e', 'v', 'e', 'n', 't', '"', ':'];
    let lit_payload = seq![',', '"', 'p', 'a', 'y', 'l', 'o', 'a', 'd', '"', ':'];
    assert(s.subrange(0, s.len() as int) =~= s);
    lemma_sub_piece(s, 0, s, 0, 9);
    assert(s.subrange(0, 9) =~= lit_event);
    assert(at_lit(s, 0, lit_event));
    let el = e.event.len() as int;
    lemma_sub_piece(s, 0, s, 9, 9 + el + 2);
    assert(s.subrange(9, 9 + el + 2) =~= enc_str(e.event));
    lemma_parse_string_enc(s, 9, e.event);
    let j = 9 + el + 2;
    match e.payload {
        Option::None => {
            lemma_sub_index(s, 0, s, j);
            assert(s[j] == '}');
            assert(j + 1 == s.len());
        },
        Option::Some(p) => {
            let w = enc_payload(p);
            lemma_sub_index(s, 0, s, j);
            assert(s[j] == ',');
            lemma_sub_piece(s, 0, s, j, j + 11);
            assert(s.subrange(j, j + 11) =~= lit_payload);
            assert(at_lit(s, j, lit_payload));
            lemma_sub_piece(s, 0, s, j + 11, j + 11 + w.len() as int);
            assert(s.subrange(j + 11, j + 11 + w.len() as int) =~= w);
            lemma_sub_index(s, 0, s, j + 11 + w.len() as int);
            assert(s[j + 11 + w.len()] == '}');
            lemma_parse_payload_enc(s, j + 11, p);
            assert(j + 11 + w.len() + 1 == s.len());
        },
    }
}

/// The decimal digit literal for `d`.
fn digit_lit(d: u32) -> (s: &'static str)
    requires
        d < 10,
    ensures
        s@ == seq![digit_char(d as int)],
{
    let s: &'static str = if d == 0 {
        "0"
    } else if d == 1 {
        "1"
    } else if d == 2 {
        "2"
    } else if d == 3 {
        "3"
    } else if d == 4 {
        "4"
    } else if d == 5 {
        "5"
    } else if d == 6 {
        "6"
    } else if d == 7 {
        "7"
    } else if d == 8 {
        "8"
    } else {
        "9"
    };
    proof {
        reveal_strlit("0");
        reveal_strlit("1");
        reveal_strlit("2");
        reveal_strlit("3");
        reveal_strlit("4");
        reveal_strlit("5");
        reveal_strlit("6");
        reveal_strlit("7");
        reveal_strlit("8");
        reveal_strlit("9");
        assert(s@ =~= seq![digit_char(d as int)]);
    }
    s
}

/// Appends the decimal encoding of `n`.
fn append_u32(out: &mut String, n: u32)
    ensures
        final(out)@ == old(out)@ + enc_u32(n as int),
    decreases n,
{
    if n >= 10 {
        append_u32(out, n / 10);
        out.append(digit_lit(n % 10));
        assert(final(out)@ =~= old(out)@ + enc_u32(n as int));
    } else {
        out.append(digit_lit(n));
        assert(final(out)@ =~= old(out)@ + enc_u32(n as int));
    }
}

/// Appends the encoding of an optional number.
fn append_opt_u32(out: &mut String, o: &Option<u32>)
    ensures
        final(out)@ == old(out)@ + enc_opt_u32(*o),
{
    match o {
        Option::None => {
            out.append("null");
            proof {
                reveal_strlit("null");
                assert(final(out)@ =~= old(out)@ + enc_opt_u32(*o));
            }
        },
        Option::Some(n) => {
            append_u32(out, *n);
        },
    }
}

/// Appends a quoted string value.
fn append_quoted(out: &mut String, s: &String)
    ensures
        final(out)@ == old(out)@ + enc_str(s@),
{
    out.append("\"");
    out.append(s.as_str());
    out.append("\"");
    proof {
        reveal_strlit("\"");
        assert(final(out)@ =~= old(out)@ + enc_str(s@));
    }
}

/// Appends the encoding of a name array.
fn append_names(out: &mut String, ns: &Vec<String>)
    ensures
        final(out)@ == old(out)@ + enc_names(ns.deep_view()),
{
    let ghost dv = ns.deep_view();
    if ns.len() == 0 {
        out.append("[]");
        proof {
            reveal_strlit("[]");
            assert(final(out)@ =~= old(out)@ + enc_names(dv));
        }
        return ;
    }
    out.append("[");
    append_quoted(out, &ns[0]);
    proof {
        reveal_strlit("[");
    }
    let ghost start = out@;
    let mut i: usize = 1;
    while i < ns.len()
        invariant
            1 <= i <= ns.len(),
            dv == ns.deep_view(),
            dv.len() == ns.len(),
            start + enc_names_rest(dv.skip(1)) == out@ + enc_names_rest(dv.skip(i as int)),
        decreases ns.len() - i,
    {
        out.append(",");
        append_quoted(out, &ns[i]);
        proof {
            reveal_strlit(",");
            assert(dv.skip(i as int).len() > 0);
            assert(dv.skip(i as int)[0] == dv[i as int]);
            assert(dv.skip(i as int).skip(1) =~= dv.skip(i as int + 1));
            assert(enc_names_rest(dv.skip(i as int)) == seq![','] + enc_str(dv[i as int])
                + enc_names_rest(dv.skip(i as int + 1)));
            assert(start + enc_names_rest(dv.skip(1)) =~= out@ + enc_names_rest(
                dv.skip(i as int + 1),
            ));
        }
        i = i + 1;
    }
    out.append("]");
    proof {
        reveal_strlit("]");
        assert(enc_names_rest(dv.skip(ns.len() as int)) =~= Seq::<char>::empty());
        assert(final(out)@ =~= old(out)@ + enc_names(dv));
    }
}

/// Appends the encoding of a payload value.
fn append_payload(out: &mut String, p: &Payload)
    ensures
        final(out)@ == old(out)@ + enc_payload(p@),
{
    match p {
        Payload::List(l) => {
            out.append("{\"user_id\":");
            append_opt_u32(out, &l.user_id);
            out.append("}");
            proof {
                reveal_strlit("{\"user_id\":");
                reveal_strlit("}");
                assert(final(out)@ =~= old(out)@ + enc_payload(p@));
            }
        },
        Payload::Create(c) => {
            out.append("{\"user_id\":");
            append_opt_u32(out, &c.user_id);
            out.append(",\"name\":");
            append_quoted(out, &c.name);
            out.append(",\"recreate\":");
            if c.recreate {
                out.append("true");
            } else {
                out.append("false");
            }
            out.append("}");
            proof {
                reveal_strlit("{\"user_id\":");
                reveal_strlit(",\"name\":");
                reveal_strlit(",\"recreate\":");
                reveal_strlit("true");
                reveal_strlit("false");
                reveal_strlit("}");
                assert(final(out)@ =~= old(out)@ + enc_payload(p@));
            }
        },
        Payload::Names(ns) => {
            append_names(out, ns);
        },
    }
}

/// Builds the canonical text of the envelope with the given parts.
fn encode_parts(event: &String, payload: &Option<Payload>) -> (out: String)
    ensures
        out@ == enc_envelope(
            EnvelopeModel {
                event: event@,
                payload: match payload {
                    Option::None => Option::None,
                    Option::Some(p) => Option::Some(p@),
                },
            },
        ),
{
    let mut out = String::new();
    out.append("{\"event\":");
    append_quoted(&mut out, event);
    match payload {
        Option::None => {
        },
        Option::Some(p) => {
            out.append(",\"payload\":");
            append_payload(&mut out, p);
        },
    }
    out.append("}");
    proof {
        reveal_strlit("{\"event\":");
        reveal_strlit(",\"payload\":");
        reveal_strlit("}");
        assert(out@ =~= enc_envelope(
            EnvelopeModel {
                event: event@,
                payload: match payload {
                    Option::None => Option::None,
                    Option::Some(p) => Option::Some(p@),
                },
            },
        ));
    }
    out
}

/// Encodes a request envelope as its canonical wire text.
pub fn encode_request(r: &Request) -> (out: String)
    ensures
        out@ == enc_envelope(r@),
{
    encode_parts(&r.event, &r.payload)
}

/// Encodes a response envelope as its canonical wire text.
pub fn encode_response(r: &Response) -> (out: String)
    ensures
        out@ == enc_envelope(r@),
{
    encode_parts(&r.event, &r.payload)
}

} // verus!
