//! Character-level text utilities with exact specifications: whitespace as
//! `char::is_whitespace` defines it, splitting, trimming, ordering and
//! decimal rendering.

use vstd::prelude::*;
use vstd::string::StrSliceExecFns;
use vstd::string::StringExecFns;

verus! {

broadcast use vstd::string::group_string_axioms;

/// The Unicode `White_Space` property, which `char::is_whitespace` tests.
pub open spec fn is_space(c: char) -> bool {
    let u = c as u32;
    ||| 0x9 <= u <= 0xD
    ||| u == 0x20
    ||| u == 0x85
    ||| u == 0xA0
    ||| u == 0x1680
    ||| 0x2000 <= u <= 0x200A
    ||| u == 0x2028
    ||| u == 0x2029
    ||| u == 0x202F
    ||| u == 0x205F
    ||| u == 0x3000
}

/// Whether `c` is Unicode whitespace.
pub fn is_space_char(c: char) -> (r: bool)
    ensures
        r == is_space(c),
{
    let u = c as u32;
    (0x9 <= u && u <= 0xD) || u == 0x20 || u == 0x85 || u == 0xA0 || u == 0x1680 || (0x2000 <= u
        && u <= 0x200A) || u == 0x2028 || u == 0x2029 || u == 0x202F || u == 0x205F || u == 0x3000
}

/// An optional string as the contracts see it.
pub open spec fn opt_view(s: Option<String>) -> Option<Seq<char>> {
    match s {
        Some(x) => Some(x@),
        None => None,
    }
}

/// The characters of `s`, in order.
pub fn chars_of(s: &str) -> (v: Vec<char>)
    ensures
        v@ == s@,
{
    let mut v: Vec<char> = Vec::new();
    for c in it: s.chars()
        invariant
            it.seq() == s@,
            v@ == it.seq().take(it.index() as int),
    {
        v.push(c);
    }
    v
}

/// An owned copy of the characters `from..to` of `s`.
pub fn substring(s: &str, from: usize, to: usize) -> (r: String)
    requires
        from <= to <= s@.len(),
    ensures
        r@ == s@.subrange(from as int, to as int),
{
    s.substring_char(from, to).to_owned()
}

/// Whether two strings hold the same characters.
pub fn str_eq(a: &str, b: &str) -> (r: bool)
    ensures
        r == (a@ == b@),
{
    let x = chars_of(a);
    let y = chars_of(b);
    if x.len() != y.len() {
        return false;
    }
    let mut i: usize = 0;
    while i < x.len()
        invariant
            x@ == a@,
            y@ == b@,
            x.len() == y.len(),
            i <= x.len(),
            forall|k: int| 0 <= k < i ==> x@[k] == y@[k],
        decreases x.len() - i,
    {
        if x[i] != y[i] {
            return false;
        }
        i = i + 1;
    }
    assert(x@ =~= y@);
    true
}

/// The maximal runs of non-whitespace characters of `s` that follow the
/// partial run `cur`, as `str::split_whitespace` yields them.
pub open spec fn words_from(s: Seq<char>, cur: Seq<char>) -> Seq<Seq<char>>
    decreases s.len(),
{
    if s.len() == 0 {
        if cur.len() > 0 {
            seq![cur]
        } else {
            seq![]
        }
    } else if is_space(s[0]) {
        (if cur.len() > 0 {
            seq![cur]
        } else {
            seq![]
        }) + words_from(s.drop_first(), seq![])
    } else {
        words_from(s.drop_first(), cur.push(s[0]))
    }
}

/// The whitespace-separated words of `s`, without empty ones.
pub open spec fn words(s: Seq<char>) -> Seq<Seq<char>> {
    words_from(s, seq![])
}

/// The whitespace-separated words of `s`, in order.
pub fn split_words(s: &str) -> (r: Vec<String>)
    ensures
        r.deep_view() == words(s@),
{
    let cs = chars_of(s);
    let n = cs.len();
    let mut r: Vec<String> = Vec::new();
    let mut start: usize = 0;
    let mut i: usize = 0;
    assert(cs@.skip(0) =~= cs@);
    assert(cs@.subrange(0, 0) =~= Seq::<char>::empty());
    while i < n
        invariant
            cs@ == s@,
            n == cs@.len(),
            start <= i <= n,
            words(s@) == r.deep_view() + words_from(cs@.skip(i as int), cs@.subrange(
                start as int,
                i as int,
            )),
        decreases n - i,
    {
        let ghost rest = cs@.skip(i as int);
        let ghost cur = cs@.subrange(start as int, i as int);
        assert(rest.drop_first() =~= cs@.skip(i + 1));
        assert(rest[0] == cs@[i as int]);
        if is_space_char(cs[i]) {
            if start < i {
                let w = substring(s, start, i);
                let ghost old_r = r.deep_view();
                r.push(w);
                assert(r.deep_view() =~= old_r + seq![cur]);
                assert(old_r + seq![cur] + words_from(cs@.skip(i + 1), seq![]) =~= old_r + (seq![cur]
                    + words_from(cs@.skip(i + 1), seq![])));
            } else {
                assert(cur.len() == 0);
                assert(seq![] + words_from(cs@.skip(i + 1), seq![]) =~= words_from(
                    cs@.skip(i + 1),
                    seq![],
                ));
            }
            i = i + 1;
            start = i;
            assert(cs@.subrange(start as int, i as int) =~= Seq::<char>::empty());
        } else {
            assert(cur.push(cs@[i as int]) =~= cs@.subrange(start as int, i + 1));
            i = i + 1;
        }
    }
    let ghost cur = cs@.subrange(start as int, n as int);
    assert(cs@.skip(n as int).len() == 0);
    if start < n {
        let w = substring(s, start, n);
        let ghost old_r = r.deep_view();
        r.push(w);
        assert(r.deep_view() =~= old_r + seq![cur]);
    } else {
        assert(r.deep_view() + seq![] =~= r.deep_view());
    }
    r
}

/// The pieces of `s` around each occurrence of `sep` that follow the
/// partial piece `cur`, as `str::split` with a character yields them.
pub open spec fn pieces_from(s: Seq<char>, sep: char, cur: Seq<char>) -> Seq<Seq<char>>
    decreases s.len(),
{
    if s.len() == 0 {
        seq![cur]
    } else if s[0] == sep {
        seq![cur] + pieces_from(s.drop_first(), sep, seq![])
    } else {
        pieces_from(s.drop_first(), sep, cur.push(s[0]))
    }
}

/// The pieces of `s` around each occurrence of `sep`, empty ones included.
pub open spec fn pieces(s: Seq<char>, sep: char) -> Seq<Seq<char>> {
    pieces_from(s, sep, seq![])
}

/// Splitting `a`, `sep` and `b` written one after another gives the pieces
/// of `a` followed by the pieces of `b`.
pub proof fn lemma_pieces_around_separator(a: Seq<char>, b: Seq<char>, sep: char, cur: Seq<char>)
    ensures
        pieces_from(a + seq![sep] + b, sep, cur) == pieces_from(a, sep, cur) + pieces(b, sep),
    decreases a.len(),
{
    let s = a + seq![sep] + b;
    if a.len() == 0 {
        assert(s.drop_first() =~= b);
        assert(s[0] == sep);
    } else {
        assert(s.drop_first() =~= a.drop_first() + seq![sep] + b);
        assert(s[0] == a[0]);
        if a[0] == sep {
            lemma_pieces_around_separator(a.drop_first(), b, sep, seq![]);
            assert(seq![cur] + (pieces_from(a.drop_first(), sep, seq![]) + pieces(b, sep)) =~= (seq![
                cur,
            ] + pieces_from(a.drop_first(), sep, seq![])) + pieces(b, sep));
        } else {
            lemma_pieces_around_separator(a.drop_first(), b, sep, cur.push(a[0]));
        }
    }
}

/// Text without `sep` is a single piece.
pub proof fn lemma_pieces_without_separator(a: Seq<char>, sep: char, cur: Seq<char>)
    requires
        !a.contains(sep),
    ensures
        pieces_from(a, sep, cur) == seq![cur + a],
    decreases a.len(),
{
    if a.len() == 0 {
        assert(cur + a =~= cur);
    } else {
        assert(a[0] != sep) by {
            if a[0] == sep {
                assert(a.contains(a[0]));
            }
        }
        assert(!a.drop_first().contains(sep)) by {
            if a.drop_first().contains(sep) {
                let k = choose|k: int| 0 <= k < a.drop_first().len() && a.drop_first()[k] == sep;
                assert(a[k + 1] == sep);
            }
        }
        lemma_pieces_without_separator(a.drop_first(), sep, cur.push(a[0]));
        assert(cur.push(a[0]) + a.drop_first() =~= cur + a);
    }
}

/// The pieces of `s` around each occurrence of `sep`, in order.
pub fn split_on(s: &str, sep: char) -> (r: Vec<String>)
    ensures
        r.deep_view() == pieces(s@, sep),
{
    let cs = chars_of(s);
    let n = cs.len();
    let mut r: Vec<String> = Vec::new();
    let mut start: usize = 0;
    let mut i: usize = 0;
    assert(cs@.skip(0) =~= cs@);
    assert(cs@.subrange(0, 0) =~= Seq::<char>::empty());
    while i < n
        invariant
            cs@ == s@,
            n == cs@.len(),
            start <= i <= n,
            pieces(s@, sep) == r.deep_view() + pieces_from(
                cs@.skip(i as int),
                sep,
                cs@.subrange(start as int, i as int),
            ),
        decreases n - i,
    {
        let ghost rest = cs@.skip(i as int);
        let ghost cur = cs@.subrange(start as int, i as int);
        assert(rest.drop_first() =~= cs@.skip(i + 1));
        assert(rest[0] == cs@[i as int]);
        if cs[i] == sep {
            let w = substring(s, start, i);
            let ghost old_r = r.deep_view();
            r.push(w);
            assert(r.deep_view() =~= old_r + seq![cur]);
            assert(old_r + seq![cur] + pieces_from(cs@.skip(i + 1), sep, seq![]) =~= old_r + (
            seq![cur] + pieces_from(cs@.skip(i + 1), sep, seq![])));
            i = i + 1;
            start = i;
            assert(cs@.subrange(start as int, i as int) =~= Seq::<char>::empty());
        } else {
            assert(cur.push(cs@[i as int]) =~= cs@.subrange(start as int, i + 1));
            i = i + 1;
        }
    }
    let ghost cur = cs@.subrange(start as int, n as int);
    assert(cs@.skip(n as int).len() == 0);
    let w = substring(s, start, n);
    let ghost old_r = r.deep_view();
    r.push(w);
    assert(r.deep_view() =~= old_r + seq![cur]);
    r
}

/// `s` without its leading whitespace.
pub open spec fn trim_start(s: Seq<char>) -> Seq<char>
    decreases s.len(),
{
    if s.len() > 0 && is_space(s[0]) {
        trim_start(s.drop_first())
    } else {
        s
    }
}

/// `s` without its trailing whitespace.
pub open spec fn trim_end(s: Seq<char>) -> Seq<char>
    decreases s.len(),
{
    if s.len() > 0 && is_space(s.last()) {
        trim_end(s.drop_last())
    } else {
        s
    }
}

/// `s` without leading and trailing whitespace, as `str::trim` gives it.
pub open spec fn trim(s: Seq<char>) -> Seq<char> {
    trim_end(trim_start(s))
}

proof fn lemma_trim_start_bound(s: Seq<char>) -> (lo: int)
    ensures
        0 <= lo <= s.len(),
        trim_start(s) == s.skip(lo),
        forall|k: int| 0 <= k < lo ==> is_space(#[trigger] s[k]),
        lo < s.len() ==> !is_space(s[lo]),
    decreases s.len(),
{
    if s.len() > 0 && is_space(s[0]) {
        let l = lemma_trim_start_bound(s.drop_first());
        assert(s.drop_first().skip(l) =~= s.skip(l + 1));
        assert forall|k: int| 0 <= k < l + 1 implies is_space(#[trigger] s[k]) by {
            if k > 0 {
                assert(s[k] == s.drop_first()[k - 1]);
            }
        }
        assert(l + 1 < s.len() ==> s[l + 1] == s.drop_first()[l]);
        l + 1
    } else {
        assert(s.skip(0) =~= s);
        0
    }
}

proof fn lemma_trim_end_bound(s: Seq<char>) -> (hi: int)
    ensures
        0 <= hi <= s.len(),
        trim_end(s) == s.take(hi),
        forall|k: int| hi <= k < s.len() ==> is_space(#[trigger] s[k]),
        hi > 0 ==> !is_space(s[hi - 1]),
    decreases s.len(),
{
    if s.len() > 0 && is_space(s.last()) {
        let h = lemma_trim_end_bound(s.drop_last());
        assert(s.drop_last().take(h) =~= s.take(h));
        assert forall|k: int| h <= k < s.len() implies is_space(#[trigger] s[k]) by {
            if k < s.len() - 1 {
                assert(s[k] == s.drop_last()[k]);
            }
        }
        assert(h > 0 ==> s[h - 1] == s.drop_last()[h - 1]);
        h
    } else {
        assert(s.take(s.len() as int) =~= s);
        s.len() as int
    }
}

/// Trimming keeps a contiguous part of the text and drops only whitespace
/// around it: what it keeps neither starts nor ends with whitespace.
pub proof fn law_trim_drops_only_surrounding_space(s: Seq<char>)
    ensures
        exists|lo: int, hi: int|
            #![trigger s.subrange(lo, hi)]
            {
                &&& 0 <= lo <= hi <= s.len()
                &&& trim(s) == s.subrange(lo, hi)
                &&& forall|k: int| 0 <= k < lo ==> is_space(#[trigger] s[k])
                &&& forall|k: int| hi <= k < s.len() ==> is_space(#[trigger] s[k])
                &&& lo < hi ==> !is_space(s[lo]) && !is_space(s[hi - 1])
            },
{
    let lo = lemma_trim_start_bound(s);
    let t = s.skip(lo);
    let h = lemma_trim_end_bound(t);
    let hi = lo + h;
    assert(t.take(h) =~= s.subrange(lo, hi));
    assert forall|k: int| hi <= k < s.len() implies is_space(#[trigger] s[k]) by {
        assert(s[k] == t[k - lo]);
    }
    if lo < hi {
        assert(s[hi - 1] == t[h - 1]);
    }
}

/// The bounds `(lo, hi)` of the trimmed part of the characters
/// `from..to` of `cs`.
pub fn trim_bounds(cs: &Vec<char>, from: usize, to: usize) -> (r: (usize, usize))
    requires
        from <= to <= cs@.len(),
    ensures
        from <= r.0 <= r.1 <= to,
        cs@.subrange(r.0 as int, r.1 as int) == trim(cs@.subrange(from as int, to as int)),
{
    let ghost part = cs@.subrange(from as int, to as int);
    let mut lo: usize = from;
    assert(part =~= cs@.subrange(lo as int, to as int));
    while lo < to && is_space_char(cs[lo])
        invariant
            from <= lo <= to <= cs@.len(),
            part == cs@.subrange(from as int, to as int),
            trim_start(part) == trim_start(cs@.subrange(lo as int, to as int)),
        decreases to - lo,
    {
        assert(cs@.subrange(lo as int, to as int).drop_first() =~= cs@.subrange(lo + 1, to as int));
        lo = lo + 1;
    }
    assert(trim_start(part) == cs@.subrange(lo as int, to as int));
    let mut hi: usize = to;
    while hi > lo && is_space_char(cs[hi - 1])
        invariant
            from <= lo <= hi <= to <= cs@.len(),
            part == cs@.subrange(from as int, to as int),
            trim(part) == trim_end(cs@.subrange(lo as int, hi as int)),
        decreases hi - lo,
    {
        assert(cs@.subrange(lo as int, hi as int).drop_last() =~= cs@.subrange(
            lo as int,
            hi - 1,
        ));
        hi = hi - 1;
    }
    (lo, hi)
}

/// Strict lexicographic order on character sequences, by code point; on
/// `str` this is the order of `Ord`, which compares the UTF-8 bytes.
pub open spec fn lex_lt(a: Seq<char>, b: Seq<char>) -> bool
    decreases a.len(),
{
    if b.len() == 0 {
        false
    } else if a.len() == 0 {
        true
    } else if (a[0] as u32) < (b[0] as u32) {
        true
    } else if a[0] == b[0] {
        lex_lt(a.drop_first(), b.drop_first())
    } else {
        false
    }
}

/// No sequence precedes itself.
pub proof fn lemma_lex_lt_irreflexive(a: Seq<char>)
    ensures
        !lex_lt(a, a),
    decreases a.len(),
{
    if a.len() > 0 {
        lemma_lex_lt_irreflexive(a.drop_first());
    }
}

/// Of two distinct sequences, one precedes the other, and never both.
pub proof fn lemma_lex_lt_total(a: Seq<char>, b: Seq<char>)
    ensures
        a != b ==> lex_lt(a, b) || lex_lt(b, a),
        !(lex_lt(a, b) && lex_lt(b, a)),
    decreases a.len(),
{
    if a.len() > 0 && b.len() > 0 {
        lemma_lex_lt_total(a.drop_first(), b.drop_first());
        if a[0] == b[0] && a != b {
            assert(a =~= seq![a[0]] + a.drop_first());
            assert(b =~= seq![b[0]] + b.drop_first());
        }
        let ua = a[0] as u32;
        let ub = b[0] as u32;
        if ua == ub {
            vstd::utf8::char_u32_cast(a[0], ua);
            vstd::utf8::char_u32_cast(b[0], ub);
        }
    } else if a.len() == 0 && b.len() == 0 {
        assert(a =~= b);
    }
}

/// The order is transitive.
pub proof fn lemma_lex_lt_transitive(a: Seq<char>, b: Seq<char>, c: Seq<char>)
    requires
        lex_lt(a, b),
        lex_lt(b, c),
    ensures
        lex_lt(a, c),
    decreases a.len(),
{
    if a.len() > 0 && b.len() > 0 && c.len() > 0 {
        if a[0] == b[0] && b[0] == c[0] {
            lemma_lex_lt_transitive(a.drop_first(), b.drop_first(), c.drop_first());
        }
    }
}

/// Whether `a` precedes `b` in the order of `str`'s `Ord`.
pub fn str_lt(a: &str, b: &str) -> (r: bool)
    ensures
        r == lex_lt(a@, b@),
{
    let x = chars_of(a);
    let y = chars_of(b);
    let mut i: usize = 0;
    assert(x@.skip(0) =~= x@);
    assert(y@.skip(0) =~= y@);
    loop
        invariant
            x@ == a@,
            y@ == b@,
            i <= x.len(),
            i <= y.len(),
            lex_lt(a@, b@) == lex_lt(x@.skip(i as int), y@.skip(i as int)),
        decreases x.len() - i,
    {
        if i == y.len() {
            return false;
        }
        if i == x.len() {
            return true;
        }
        let ca = x[i] as u32;
        let cb = y[i] as u32;
        if ca < cb {
            return true;
        }
        if ca != cb {
            return false;
        }
        assert(x@.skip(i as int).drop_first() =~= x@.skip(i + 1));
        assert(y@.skip(i as int).drop_first() =~= y@.skip(i + 1));
        proof {
            vstd::utf8::char_u32_cast(x@[i as int], ca);
            vstd::utf8::char_u32_cast(y@[i as int], cb);
        }
        i = i + 1;
    }
}

/// What `{:?}` writes for a string: the string in double quotes, with the
/// characters escaped as `char::escape_debug` escapes them.
pub uninterp spec fn debug_text(s: Seq<char>) -> Seq<char>;

/// Calls `format!("{:?}", s)`, std's `Debug` for `str`; the contract names
/// its result `debug_text` and says nothing of how the escaping is done.
#[verifier::external_body]
pub(crate) fn debug_quoted(s: &str) -> (r: String)
    ensures
        r@ == debug_text(s@),
{
    format!("{:?}", s)
}

/// The decimal digit `d` as a character.
pub open spec fn digit(d: nat) -> char {
    (48 + d) as char
}

/// The decimal digits of `n`, most significant first, without leading zeros.
pub open spec fn decimal(n: nat) -> Seq<char>
    decreases n,
{
    if n < 10 {
        seq![digit(n)]
    } else {
        decimal(n / 10).push(digit(n % 10))
    }
}

/// The decimal form of `i`, with a leading `-` when negative, as `Display`
/// writes an integer.
pub open spec fn signed_decimal(i: int) -> Seq<char> {
    if i < 0 {
        seq!['-'] + decimal((-i) as nat)
    } else {
        decimal(i as nat)
    }
}

/// The decimal digit `d` as a one-character string.
fn digit_string(d: u64) -> (r: String)
    requires
        d < 10,
    ensures
        r@ == seq![digit(d as nat)],
{
    let digits = "0123456789";
    proof {
        reveal_strlit("0123456789");
    }
    let i = d as usize;
    let r = substring(digits, i, i + 1);
    assert(r@ =~= seq![digits@[i as int]]);
    r
}

/// The decimal form of `n`.
pub fn u64_decimal(n: u64) -> (r: String)
    ensures
        r@ == decimal(n as nat),
    decreases n,
{
    if n < 10 {
        digit_string(n)
    } else {
        let mut r = u64_decimal(n / 10);
        let d = digit_string(n % 10);
        r.append(d.as_str());
        r
    }
}

/// The decimal form of `i`, as `Display` writes it.
pub fn i64_decimal(i: i64) -> (r: String)
    ensures
        r@ == signed_decimal(i as int),
        i >= 0 ==> numeral_of(r@, i as int),
        i < 0 ==> r@[0] == '-' && numeral_of(r@.drop_first(), -i),
{
    proof {
        law_signed_decimal_reads_back(i as int);
    }
    if i < 0 {
        let m: u64 = if i == i64::MIN {
            9223372036854775808u64
        } else {
            (-i) as u64
        };
        let mut r = String::from_str("-");
        proof {
            reveal_strlit("-");
        }
        let d = u64_decimal(m);
        r.append(d.as_str());
        r
    } else {
        u64_decimal(i as u64)
    }
}

/// Whether `c` is one of the ASCII digits `0` to `9`.
pub open spec fn is_decimal_digit(c: char) -> bool {
    48 <= (c as u32) <= 57
}

/// The number that a string of ASCII digits denotes, read in base ten.
pub open spec fn digits_value(s: Seq<char>) -> int
    decreases s.len(),
{
    if s.len() == 0 {
        0
    } else {
        10 * digits_value(s.drop_last()) + ((s.last() as u32) - 48)
    }
}

/// Whether `s` is a decimal numeral of `n`: one or more ASCII digits, with
/// no leading zero, that read back as `n`.
pub open spec fn numeral_of(s: Seq<char>, n: int) -> bool {
    &&& s.len() > 0
    &&& forall|k: int| 0 <= k < s.len() ==> is_decimal_digit(#[trigger] s[k])
    &&& (s.len() > 1 ==> s[0] != '0')
    &&& digits_value(s) == n
}

proof fn lemma_decimal_numeral(n: nat)
    ensures
        numeral_of(decimal(n), n as int),
    decreases n,
{
    let s = decimal(n);
    if n < 10 {
        assert(s.drop_last() =~= Seq::<char>::empty());
        assert(digits_value(s.drop_last()) == 0);
        assert((s.last() as u32) == 48 + n);
    } else {
        let t = decimal(n / 10);
        lemma_decimal_numeral(n / 10);
        assert(s.drop_last() =~= t);
        assert(s[0] == t[0]);
        assert((s.last() as u32) - 48 == n % 10);
        assert(digits_value(s) == 10 * (n / 10) + n % 10);
        assert(forall|k: int| 0 <= k < s.len() ==> is_decimal_digit(#[trigger] s[k])) by {
            assert forall|k: int| 0 <= k < s.len() implies is_decimal_digit(#[trigger] s[k]) by {
                if k < t.len() {
                    assert(s[k] == t[k]);
                }
            }
        }
        if t.len() == 1 {
            assert(digits_value(t) == (t[0] as u32) - 48) by {
                assert(t.drop_last() =~= Seq::<char>::empty());
                assert(digits_value(t.drop_last()) == 0);
            }
            assert(n / 10 > 0);
        }
    }
}

/// The decimal form of an integer reads back as that integer: a
/// non-negative integer is written as its digits alone, with no sign and
/// no leading zero, and a negative one as `-` followed by the digits of its
/// magnitude.
pub proof fn law_signed_decimal_reads_back(i: int)
    ensures
        i >= 0 ==> numeral_of(signed_decimal(i), i),
        i >= 0 ==> !signed_decimal(i).contains('-'),
        i < 0 ==> signed_decimal(i)[0] == '-' && numeral_of(signed_decimal(i).drop_first(), -i),
{
    if i >= 0 {
        lemma_decimal_numeral(i as nat);
        let s = signed_decimal(i);
        if s.contains('-') {
            let k = choose|k: int| 0 <= k < s.len() && s[k] == '-';
            assert(is_decimal_digit(s[k]));
        }
    } else {
        lemma_decimal_numeral((-i) as nat);
        assert(signed_decimal(i).drop_first() =~= decimal((-i) as nat));
    }
}

/// `a` followed by `b`.
pub fn concat_strs(a: &str, b: &str) -> (r: String)
    ensures
        r@ == a@ + b@,
{
    let mut r = String::from_str(a);
    r.append(b);
    r
}

/// The parts written one after another with `sep` between each two.
pub open spec fn joined(parts: Seq<Seq<char>>, sep: Seq<char>) -> Seq<char>
    decreases parts.len(),
{
    if parts.len() == 0 {
        seq![]
    } else if parts.len() == 1 {
        parts[0]
    } else {
        joined(parts.drop_last(), sep) + sep + parts.last()
    }
}

/// The parts joined by `sep`, as `slice::join` does it.
pub fn join(parts: &Vec<String>, sep: &str) -> (r: String)
    ensures
        r@ == joined(parts.deep_view(), sep@),
{
    let ghost all = parts.deep_view();
    let mut r = String::new();
    let mut i: usize = 0;
    assert(all.take(0) =~= Seq::<Seq<char>>::empty());
    while i < parts.len()
        invariant
            all == parts.deep_view(),
            i <= parts.len(),
            r@ == joined(all.take(i as int), sep@),
        decreases parts.len() - i,
    {
        assert(all.take(i + 1).drop_last() =~= all.take(i as int));
        assert(all.take(i + 1).last() == parts[i as int]@);
        if i > 0 {
            r.append(sep);
        } else {
            assert(all.take(1) =~= seq![parts[0]@]);
        }
        r.append(parts[i].as_str());
        i = i + 1;
    }
    assert(all.take(i as int) =~= all);
    r
}

/// The code point of `c` with ASCII upper-case letters mapped to lower case.
pub open spec fn ascii_lower(c: char) -> u32 {
    if 65 <= (c as u32) <= 90 {
        ((c as u32) + 32) as u32
    } else {
        c as u32
    }
}

/// Whether `a` and `b` are equal up to ASCII case, as
/// `str::eq_ignore_ascii_case` decides.
pub open spec fn eq_ignoring_ascii_case(a: Seq<char>, b: Seq<char>) -> bool {
    &&& a.len() == b.len()
    &&& forall|i: int| 0 <= i < a.len() ==> ascii_lower(#[trigger] a[i]) == ascii_lower(b[i])
}

fn lower_code(c: char) -> (r: u32)
    ensures
        r == ascii_lower(c),
{
    let u = c as u32;
    if 65 <= u && u <= 90 {
        u + 32
    } else {
        u
    }
}

/// Whether `a` and `b` are equal up to ASCII case.
pub fn eq_ignore_case(a: &str, b: &str) -> (r: bool)
    ensures
        r == eq_ignoring_ascii_case(a@, b@),
{
    let x = chars_of(a);
    let y = chars_of(b);
    if x.len() != y.len() {
        return false;
    }
    let mut i: usize = 0;
    while i < x.len()
        invariant
            x@ == a@,
            y@ == b@,
            x.len() == y.len(),
            i <= x.len(),
            forall|k: int| 0 <= k < i ==> ascii_lower(#[trigger] x@[k]) == ascii_lower(y@[k]),
        decreases x.len() - i,
    {
        let lx = lower_code(x[i]);
        let ly = lower_code(y[i]);
        if lx != ly {
            return false;
        }
        i = i + 1;
    }
    true
}

} // verus!
