//! Character-level text operations on which the launcher's parsing rests:
//! whitespace trimming, prefix tests, substitution and comparison.
use vstd::prelude::*;

verus! {

/// Unicode `White_Space`, the property behind `char::is_whitespace`.
pub open spec fn is_white_space(c: char) -> bool {
    let u = c as u32;
    ||| 0x9 <= u <= 0xd
    ||| u == 0x20
    ||| u == 0x85
    ||| u == 0xa0
    ||| u == 0x1680
    ||| 0x2000 <= u <= 0x200a
    ||| u == 0x2028
    ||| u == 0x2029
    ||| u == 0x202f
    ||| u == 0x205f
    ||| u == 0x3000
}

/// The text with its leading whitespace removed.
pub open spec fn trim_start(s: Seq<char>) -> Seq<char>
    decreases s.len(),
{
    if s.len() > 0 && is_white_space(s[0]) {
        trim_start(s.drop_first())
    } else {
        s
    }
}

/// The text with its trailing whitespace removed.
pub open spec fn trim_end(s: Seq<char>) -> Seq<char>
    decreases s.len(),
{
    if s.len() > 0 && is_white_space(s.last()) {
        trim_end(s.drop_last())
    } else {
        s
    }
}

/// The text with leading and trailing whitespace removed (`str::trim`).
pub open spec fn trim(s: Seq<char>) -> Seq<char> {
    trim_end(trim_start(s))
}

/// `p` is a prefix of `s`.
pub open spec fn starts_with(s: Seq<char>, p: Seq<char>) -> bool {
    p.len() <= s.len() && s.take(p.len() as int) == p
}

/// `p` occurs in `s` at some position.
pub open spec fn contains(s: Seq<char>, p: Seq<char>) -> bool {
    exists|i: int| 0 <= i <= s.len() - p.len() && #[trigger] s.subrange(i, i + p.len()) == p
}

/// Every non-overlapping occurrence of `pat`, scanned from the left, replaced
/// by `rep` (`str::replace` with a non-empty pattern).
pub open spec fn replace_all(s: Seq<char>, pat: Seq<char>, rep: Seq<char>) -> Seq<char>
    decreases s.len(),
{
    if s.len() == 0 {
        Seq::empty()
    } else if pat.len() > 0 && starts_with(s, pat) {
        rep + replace_all(s.skip(pat.len() as int), pat, rep)
    } else {
        seq![s[0]] + replace_all(s.skip(1), pat, rep)
    }
}

pub fn is_whitespace_char(c: char) -> (b: bool)
    ensures
        b == is_white_space(c),
{
    let u = c as u32;
    (0x9 <= u && u <= 0xd) || u == 0x20 || u == 0x85 || u == 0xa0 || u == 0x1680 || (0x2000 <= u
        && u <= 0x200a) || u == 0x2028 || u == 0x2029 || u == 0x202f || u == 0x205f || u == 0x3000
}

/// The characters of a string slice, in order.
pub fn chars_of(s: &str) -> (v: Vec<char>)
    ensures
        v@ == s@,
{
    let mut v: Vec<char> = Vec::new();
    for c in it: s.chars()
        invariant
            v@ == it.seq().take(it.index() as int),
            it.seq() == s@,
    {
        v.push(c);
    }
    v
}

/// Collects characters into a `String` (`String::from_iter`).
#[verifier::external_body]
pub(crate) fn string_from_chars(v: Vec<char>) -> (s: String)
    ensures
        s@ == v@,
{
    String::from_iter(v)
}

/// Equality of two character sequences held in vectors.
pub fn chars_equal(a: &Vec<char>, b: &Vec<char>) -> (r: bool)
    ensures
        r == (a@ == b@),
{
    if a.len() != b.len() {
        return false;
    }
    let mut i: usize = 0;
    while i < a.len()
        invariant
            a.len() == b.len(),
            i <= a.len(),
            forall|k: int| 0 <= k < i ==> a@[k] == b@[k],
        decreases a.len() - i,
    {
        if a[i] != b[i] {
            return false;
        }
        i = i + 1;
    }
    assert(a@ =~= b@);
    true
}

/// Equality of two string slices by their characters.
pub fn str_equal(a: &str, b: &str) -> (r: bool)
    ensures
        r == (a@ == b@),
{
    let va = chars_of(a);
    let vb = chars_of(b);
    chars_equal(&va, &vb)
}

/// Whether `p` occurs in `s` starting at position `at`.
pub fn matches_at(s: &Vec<char>, at: usize, p: &Vec<char>) -> (r: bool)
    requires
        at <= s.len(),
    ensures
        r == (p.len() <= s.len() - at && s@.subrange(at as int, at + p.len()) == p@),
{
    if p.len() > s.len() - at {
        return false;
    }
    let mut k: usize = 0;
    while k < p.len()
        invariant
            at + p.len() <= s.len(),
            k <= p.len(),
            forall|j: int| 0 <= j < k ==> s@[at + j] == p@[j],
        decreases p.len() - k,
    {
        if s[at + k] != p[k] {
            assert(s@.subrange(at as int, at + p.len())[k as int] != p@[k as int]);
            return false;
        }
        k = k + 1;
    }
    assert(s@.subrange(at as int, at + p.len()) =~= p@);
    true
}

proof fn lemma_trim_start_skip(s: Seq<char>, i: int)
    requires
        0 <= i <= s.len(),
        forall|k: int| 0 <= k < i ==> is_white_space(#[trigger] s[k]),
    ensures
        trim_start(s) == trim_start(s.skip(i)),
    decreases i,
{
    if i == 0 {
        assert(s.skip(0) =~= s);
    } else {
        assert(is_white_space(s[0]));
        let t = s.drop_first();
        assert forall|k: int| 0 <= k < i - 1 implies is_white_space(#[trigger] t[k]) by {
            assert(t[k] == s[k + 1]);
        }
        lemma_trim_start_skip(t, i - 1);
        assert(t.skip(i - 1) =~= s.skip(i));
    }
}

proof fn lemma_trim_end_take(s: Seq<char>, j: int)
    requires
        0 <= j <= s.len(),
        forall|k: int| j <= k < s.len() ==> is_white_space(#[trigger] s[k]),
    ensures
        trim_end(s) == trim_end(s.take(j)),
    decreases s.len() - j,
{
    if j == s.len() {
        assert(s.take(j) =~= s);
    } else {
        assert(is_white_space(s[s.len() - 1]));
        let t = s.drop_last();
        assert forall|k: int| j <= k < t.len() implies is_white_space(#[trigger] t[k]) by {
            assert(t[k] == s[k]);
        }
        lemma_trim_end_take(t, j);
        assert(t.take(j) =~= s.take(j));
    }
}

proof fn lemma_trim_start_shape(s: Seq<char>)
    ensures
        trim_start(s).len() == 0 || !is_white_space(trim_start(s)[0]),
        exists|i: int| 0 <= i <= s.len() && trim_start(s) == s.skip(i),
    decreases s.len(),
{
    if s.len() > 0 && is_white_space(s[0]) {
        lemma_trim_start_shape(s.drop_first());
        let i = choose|i: int|
            0 <= i <= s.drop_first().len() && trim_start(s.drop_first()) == s.drop_first().skip(i);
        assert(s.drop_first().skip(i) =~= s.skip(i + 1));
    } else {
        assert(s.skip(0) =~= s);
    }
}

pub(crate) proof fn lemma_trim_end_shape(s: Seq<char>)
    ensures
        trim_end(s).len() == 0 || !is_white_space(trim_end(s).last()),
        trim_end(s).len() <= s.len(),
        trim_end(s) == s.take(trim_end(s).len() as int),
    decreases s.len(),
{
    if s.len() > 0 && is_white_space(s.last()) {
        lemma_trim_end_shape(s.drop_last());
        let t = trim_end(s.drop_last());
        assert(s.drop_last().take(t.len() as int) =~= s.take(t.len() as int));
    } else {
        assert(s.take(s.len() as int) =~= s);
    }
}

/// Trimming the end leaves nothing exactly when every character is
/// whitespace.
pub(crate) proof fn lemma_trim_end_empty(s: Seq<char>)
    ensures
        trim_end(s).len() == 0 <==> forall|k: int| 0 <= k < s.len() ==> is_white_space(#[trigger] s[k]),
    decreases s.len(),
{
    if s.len() > 0 {
        lemma_trim_end_empty(s.drop_last());
        if is_white_space(s.last()) {
            assert forall|k: int| 0 <= k < s.drop_last().len() implies #[trigger] s.drop_last()[k]
                == s[k] by {}
            if trim_end(s).len() == 0 {
                assert forall|k: int| 0 <= k < s.len() implies is_white_space(#[trigger] s[k]) by {
                    if k < s.len() - 1 {
                        assert(s.drop_last()[k] == s[k]);
                    }
                }
            }
        } else {
            assert(!is_white_space(s[s.len() - 1]));
        }
    }
}

/// Trimming the end of a text that ends in something other than whitespace
/// only trims what follows its front part.
pub(crate) proof fn lemma_trim_end_append(a: Seq<char>, b: Seq<char>)
    requires
        trim_end(b).len() > 0,
    ensures
        trim_end(a + b) == a + trim_end(b),
    decreases b.len(),
{
    if b.len() > 0 && is_white_space(b.last()) {
        assert((a + b).drop_last() =~= a + b.drop_last());
        lemma_trim_end_append(a, b.drop_last());
    } else {
        assert(b.len() > 0);
        assert((a + b).last() == b.last());
    }
}

/// Trimming the start and trimming the end can be done in either order.
pub(crate) proof fn lemma_trim_ends_commute(s: Seq<char>)
    ensures
        trim_start(trim_end(s)) == trim_end(trim_start(s)),
    decreases s.len(),
{
    if s.len() > 0 {
        let rest = s.drop_first();
        lemma_trim_end_empty(s);
        lemma_trim_end_empty(rest);
        if is_white_space(s[0]) {
            lemma_trim_ends_commute(rest);
            if trim_end(rest).len() == 0 {
                assert forall|k: int| 0 <= k < s.len() implies is_white_space(#[trigger] s[k]) by {
                    if k > 0 {
                        assert(rest[k - 1] == s[k]);
                    }
                }
            } else {
                assert(s =~= seq![s[0]] + rest);
                lemma_trim_end_append(seq![s[0]], rest);
                assert((seq![s[0]] + trim_end(rest)).drop_first() =~= trim_end(rest));
            }
        } else {
            lemma_trim_end_shape(s);
            let m = trim_end(s).len();
            if m == 0 {
                assert(is_white_space(s[0]));
            }
            assert(trim_end(s)[0] == s[0]);
        }
    }
}

/// Trimming twice is trimming once.
pub proof fn lemma_trim_idempotent(s: Seq<char>)
    ensures
        trim(trim(s)) == trim(s),
{
    let u = trim_start(s);
    lemma_trim_start_shape(s);
    let t = trim_end(u);
    lemma_trim_end_shape(u);
    // t is a prefix of u, so it starts as u does
    if t.len() > 0 {
        assert(t[0] == u[0]);
        assert(!is_white_space(t[0]));
    }
    assert(trim_start(t) == t);
    lemma_trim_end_shape(t);
    if t.len() > 0 {
        assert(trim_end(t) == t);
    }
}

/// Removes leading and trailing whitespace (`str::trim`).
pub fn trim_str(s: &str) -> (r: &str)
    ensures
        r@ == trim(s@),
{
    let v = chars_of(s);
    let n = v.len();
    let mut i: usize = 0;
    while i < n && is_whitespace_char(v[i])
        invariant
            n == v.len(),
            v@ == s@,
            i <= n,
            forall|k: int| 0 <= k < i ==> is_white_space(#[trigger] v@[k]),
        decreases n - i,
    {
        i = i + 1;
    }
    let mut j: usize = n;
    while j > i && is_whitespace_char(v[j - 1])
        invariant
            n == v.len(),
            v@ == s@,
            i <= j <= n,
            forall|k: int| j <= k < n ==> is_white_space(#[trigger] v@[k]),
        decreases j,
    {
        j = j - 1;
    }
    proof {
        let sv = s@;
        lemma_trim_start_skip(sv, i as int);
        let t = sv.skip(i as int);
        assert(trim_start(t) == t);
        assert forall|k: int| j - i <= k < t.len() implies is_white_space(#[trigger] t[k]) by {
            assert(t[k] == sv[k + i]);
        }
        lemma_trim_end_take(t, j - i);
        let u = t.take(j - i);
        assert(u =~= sv.subrange(i as int, j as int));
        if j > i {
            assert(u.last() == sv[j - 1]);
        }
        assert(trim_end(u) == u);
    }
    s.substring_char(i, j)
}

proof fn lemma_replace_all_step(s: Seq<char>, i: int, pat: Seq<char>, rep: Seq<char>)
    requires
        0 <= i < s.len(),
        pat.len() > 0,
    ensures
        starts_with(s.skip(i), pat) ==> replace_all(s.skip(i), pat, rep) == rep + replace_all(
            s.skip(i + pat.len()),
            pat,
            rep,
        ),
        !starts_with(s.skip(i), pat) ==> replace_all(s.skip(i), pat, rep) == seq![s[i]]
            + replace_all(s.skip(i + 1), pat, rep),
{
    let t = s.skip(i);
    if starts_with(t, pat) {
        assert(t.skip(pat.len() as int) =~= s.skip(i + pat.len()));
    } else {
        assert(t.skip(1) =~= s.skip(i + 1));
    }
}

/// Replaces every non-overlapping occurrence of `pat` in `s`, scanned from
/// the left, by `rep` (`str::replace`).
pub fn replace_all_str(s: &str, pat: &str, rep: &str) -> (r: String)
    requires
        pat@.len() > 0,
    ensures
        r@ == replace_all(s@, pat@, rep@),
{
    let sv = chars_of(s);
    let pv = chars_of(pat);
    let rv = chars_of(rep);
    let n = sv.len();
    let mut out: Vec<char> = Vec::new();
    let mut i: usize = 0;
    assert(s@.skip(0) =~= s@);
    assert(out@ + replace_all(s@, pat@, rep@) =~= replace_all(s@, pat@, rep@));
    while i < n
        invariant
            n == sv.len(),
            sv@ == s@,
            pv@ == pat@,
            rv@ == rep@,
            pv@.len() > 0,
            i <= n,
            replace_all(s@, pat@, rep@) == out@ + replace_all(s@.skip(i as int), pat@, rep@),
        decreases n - i,
    {
        let hit = matches_at(&sv, i, &pv);
        proof {
            lemma_replace_all_step(s@, i as int, pat@, rep@);
            let t = s@.skip(i as int);
            if pv.len() <= n - i {
                assert(t.take(pat@.len() as int) =~= s@.subrange(i as int, i + pat@.len()));
            }
        }
        if hit {
            let ghost before = out@;
            let mut k: usize = 0;
            while k < rv.len()
                invariant
                    k <= rv.len(),
                    out@ == before + rv@.take(k as int),
                decreases rv.len() - k,
            {
                out.push(rv[k]);
                k = k + 1;
                assert(rv@.take(k as int) =~= rv@.take(k - 1).push(rv@[k - 1]));
            }
            assert(rv@.take(rv.len() as int) =~= rv@);
            assert(out@ + replace_all(s@.skip(i + pv.len()), pat@, rep@) =~= before + (rep@
                + replace_all(s@.skip(i + pv.len()), pat@, rep@)));
            i = i + pv.len();
        } else {
            let ghost before = out@;
            out.push(sv[i]);
            assert(out@ + replace_all(s@.skip(i + 1), pat@, rep@) =~= before + (seq![s@[i as int]]
                + replace_all(s@.skip(i + 1), pat@, rep@)));
            i = i + 1;
        }
    }
    assert(s@.skip(n as int) =~= Seq::<char>::empty());
    assert(out@ + Seq::<char>::empty() =~= out@);
    string_from_chars(out)
}

/// The lower-case form of a text under Unicode's case mapping
/// (`str::to_lowercase`).
pub uninterp spec fn lowercase(s: Seq<char>) -> Seq<char>;

/// `str::to_lowercase`: the text lower-cased under the Unicode Derived Core
/// Property `Lowercase`; the result is a function of the text alone, named
/// `lowercase` here, since the Unicode tables behind it are not restated.
#[verifier::external_body]
pub(crate) fn to_lowercase(s: &str) -> (r: String)
    ensures
        r@ == lowercase(s@),
{
    s.to_lowercase()
}

/// Whether `p` occurs in `s` (`str::contains` with a string pattern).
pub fn contains_str(s: &Vec<char>, p: &Vec<char>) -> (r: bool)
    ensures
        r == contains(s@, p@),
{
    if p.len() > s.len() {
        return false;
    }
    let last = s.len() - p.len();
    let mut i: usize = 0;
    loop
        invariant
            last == s.len() - p.len(),
            p.len() <= s.len(),
            i <= last,
            forall|k: int| 0 <= k < i ==> #[trigger] s@.subrange(k, k + p.len()) != p@,
        decreases last - i,
    {
        if matches_at(s, i, p) {
            return true;
        }
        if i == last {
            return false;
        }
        i = i + 1;
    }
}

/// A lower-case hexadecimal digit.
pub open spec fn hex_lower(d: nat) -> char {
    if d < 10 {
        (0x30 + d) as char
    } else {
        (0x61 + d - 10) as char
    }
}

/// The lowest `width` hexadecimal digits of `n`, most significant first
/// (`{:0width$x}` for a number below `16^width`).
pub open spec fn hex_digits(n: nat, width: nat) -> Seq<char>
    decreases width,
{
    if width == 0 {
        Seq::empty()
    } else {
        hex_digits(n / 16, (width - 1) as nat).push(hex_lower(n % 16))
    }
}

/// The hexadecimal digits of `n` without leading zeros (`{:x}`).
pub open spec fn hex_minimal(n: nat) -> Seq<char>
    decreases n,
{
    if n < 16 {
        seq![hex_lower(n)]
    } else {
        hex_minimal(n / 16).push(hex_lower(n % 16))
    }
}

/// Zero-padded hexadecimal has exactly the width asked for, all digits.
pub proof fn hex_digits_have_the_width(n: nat, width: nat)
    ensures
        hex_digits(n, width).len() == width,
        forall|i: int|
            0 <= i < width ==> {
                let c = #[trigger] hex_digits(n, width)[i];
                ('0' <= c <= '9') || ('a' <= c <= 'f')
            },
    decreases width,
{
    if width > 0 {
        hex_digits_have_the_width(n / 16, (width - 1) as nat);
        let d = n % 16;
        assert(hex_digits(n, width).last() == hex_lower(d));
        assert forall|i: int| 0 <= i < width implies {
            let c = #[trigger] hex_digits(n, width)[i];
            ('0' <= c <= '9') || ('a' <= c <= 'f')
        } by {
            if i < width - 1 {
                assert(hex_digits(n, width)[i] == hex_digits(n / 16, (width - 1) as nat)[i]);
            }
        }
    }
}

fn hex_digit_char(d: u64) -> (c: char)
    requires
        d < 16,
    ensures
        c == hex_lower(d as nat),
{
    if d < 10 {
        (d as u8 + 0x30) as char
    } else {
        (d as u8 - 10 + 0x61) as char
    }
}

fn hex_digits_vec(n: u64, width: usize) -> (v: Vec<char>)
    ensures
        v@ == hex_digits(n as nat, width as nat),
    decreases width,
{
    if width == 0 {
        Vec::new()
    } else {
        let mut v = hex_digits_vec(n / 16, width - 1);
        v.push(hex_digit_char(n % 16));
        v
    }
}

fn hex_minimal_vec(n: u64) -> (v: Vec<char>)
    ensures
        v@ == hex_minimal(n as nat),
    decreases n,
{
    if n < 16 {
        vec![hex_digit_char(n)]
    } else {
        let mut v = hex_minimal_vec(n / 16);
        v.push(hex_digit_char(n % 16));
        v
    }
}

/// `n` as sixteen lower-case hexadecimal digits, zero-padded (`{:016x}`).
pub fn hex16(n: u64) -> (s: String)
    ensures
        s@ == hex_digits(n as nat, 16),
{
    string_from_chars(hex_digits_vec(n, 16))
}

/// `n` in lower-case hexadecimal without leading zeros (`{:x}`).
pub fn hex_lower_string(n: u64) -> (s: String)
    ensures
        s@ == hex_minimal(n as nat),
{
    string_from_chars(hex_minimal_vec(n))
}

/// An ASCII decimal digit.
pub open spec fn is_digit(c: char) -> bool {
    0x30 <= (c as u32) <= 0x39
}

/// The value of a string of decimal digits.
pub open spec fn digits_value(d: Seq<char>) -> int
    decreases d.len(),
{
    if d.len() == 0 {
        0
    } else {
        10 * digits_value(d.drop_last()) + ((d.last() as u32) - 0x30)
    }
}

/// The text has a leading sign.
pub open spec fn has_sign(s: Seq<char>) -> bool {
    s.len() > 0 && (s[0] == '-' || s[0] == '+')
}

/// The text after its sign, if any.
pub open spec fn unsigned_part(s: Seq<char>) -> Seq<char> {
    if has_sign(s) {
        s.skip(1)
    } else {
        s
    }
}

/// Every character is a decimal digit.
pub open spec fn all_digits(d: Seq<char>) -> bool {
    forall|i: int| 0 <= i < d.len() ==> is_digit(#[trigger] d[i])
}

/// The `i32` that the text spells (`str::parse::<i32>`): an optional `+` or
/// `-`, then one or more decimal digits, in range.
pub open spec fn parse_i32(s: Seq<char>) -> Option<i32> {
    let d = unsigned_part(s);
    if d.len() == 0 || !all_digits(d) {
        None
    } else {
        let v = if s[0] == '-' {
            -digits_value(d)
        } else {
            digits_value(d)
        };
        if i32::MIN <= v <= i32::MAX {
            Some(v as i32)
        } else {
            None
        }
    }
}

proof fn lemma_digits_value_nonneg(d: Seq<char>)
    requires
        forall|i: int| 0 <= i < d.len() ==> is_digit(#[trigger] d[i]),
    ensures
        digits_value(d) >= 0,
    decreases d.len(),
{
    if d.len() > 0 {
        assert forall|i: int| 0 <= i < d.drop_last().len() implies is_digit(
            #[trigger] d.drop_last()[i],
        ) by {
            assert(d.drop_last()[i] == d[i]);
        }
        lemma_digits_value_nonneg(d.drop_last());
        assert(is_digit(d[d.len() - 1]));
    }
}

/// Parses an `i32` as `str::parse::<i32>` does.
pub fn parse_i32_str(s: &str) -> (r: Option<i32>)
    ensures
        r == parse_i32(s@),
{
    let v = chars_of(s);
    let n = v.len();
    let neg = n > 0 && v[0] == '-';
    let signed = n > 0 && (v[0] == '-' || v[0] == '+');
    let start: usize = if signed {
        1
    } else {
        0
    };
    let ghost d = if signed {
        s@.skip(1)
    } else {
        s@
    };
    assert(d =~= s@.skip(start as int));
    if start == n {
        return None;
    }
    let cap: i64 = 0x8000_0001;
    let mut acc: i64 = 0;
    let mut i: usize = start;
    while i < n
        invariant
            v@ == s@,
            n == v@.len(),
            start <= i <= n,
            cap == 0x8000_0001,
            signed == (s@.len() > 0 && (s@[0] == '-' || s@[0] == '+')),
            neg == (s@.len() > 0 && s@[0] == '-'),
            start == (if signed {
                1usize
            } else {
                0usize
            }),
            d == s@.skip(start as int),
            forall|k: int| start <= k < i ==> is_digit(#[trigger] v@[k]),
            0 <= acc <= cap,
            acc == (if digits_value(d.take(i - start)) < cap {
                digits_value(d.take(i - start))
            } else {
                cap as int
            }),
        decreases n - i,
    {
        let c = v[i];
        let cu = c as u32;
        assert(d[i - start] == c);
        if !(0x30 <= cu && cu <= 0x39) {
            assert(!is_digit(d[i - start]));
            assert(!all_digits(d));
            return None;
        }
        let dig = (cu - 0x30) as i64;
        proof {
            let p = d.take(i - start);
            let p1 = d.take(i + 1 - start);
            assert(p1.drop_last() =~= p);
            assert(p1.last() == c);
            assert forall|k: int| 0 <= k < p.len() implies is_digit(#[trigger] p[k]) by {
                assert(p[k] == v@[k + start]);
            }
            lemma_digits_value_nonneg(p);
        }
        acc = if acc >= cap {
            cap
        } else {
            let next = acc * 10 + dig;
            if next >= cap {
                cap
            } else {
                next
            }
        };
        i = i + 1;
    }
    proof {
        assert(d.take(n - start) =~= d);
        assert forall|k: int| 0 <= k < d.len() implies is_digit(#[trigger] d[k]) by {
            assert(d[k] == v@[k + start]);
        }
    }
    let value: i64 = if neg {
        -acc
    } else {
        acc
    };
    if -0x8000_0000 <= value && value <= 0x7fff_ffff {
        Some(value as i32)
    } else {
        None
    }
}

} // verus!
