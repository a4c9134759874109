//! Search shortcuts — type `!g query` to search Google, `!y query` for YouTube, etc.
//!
//! The bang prefix must appear at the start of the input (leading whitespace is trimmed).
use vstd::prelude::*;

use crate::text::{
    chars_of, is_white_space, is_whitespace_char, matches_at, replace_all, replace_all_str,
    starts_with, trim, trim_end, trim_start, trim_str,
};

verus! {

/// A search shortcut: the prefix typed, the site's name, and the URL into
/// which the query is put in place of `{}`.
#[derive(Clone, Copy, Debug)]
pub struct Bang {
    pub prefix: &'static str,
    pub name: &'static str,
    pub url_template: &'static str,
}

/// A bang as text.
pub struct BangView {
    pub prefix: Seq<char>,
    pub name: Seq<char>,
    pub url_template: Seq<char>,
}

impl View for Bang {
    type V = BangView;

    open spec fn view(&self) -> BangView {
        BangView { prefix: self.prefix@, name: self.name@, url_template: self.url_template@ }
    }
}

/// The known bangs, in the order in which a prefix is tried.
pub open spec fn bang_table() -> Seq<BangView> {
    seq![
        BangView { prefix: "!g"@, name: "Google"@, url_template: "https://google.com/search?q={}"@ },
        BangView {
            prefix: "!y"@,
            name: "YouTube"@,
            url_template: "https://youtube.com/results?search_query={}"@,
        },
        BangView {
            prefix: "!w"@,
            name: "Wikipedia"@,
            url_template: "https://en.wikipedia.org/wiki/Special:Search?search={}"@,
        },
        BangView { prefix: "!gh"@, name: "GitHub"@, url_template: "https://github.com/search?q={}"@ },
        BangView {
            prefix: "!r"@,
            name: "Reddit"@,
            url_template: "https://www.reddit.com/search/?q={}"@,
        },
        BangView { prefix: "!a"@, name: "Amazon"@, url_template: "https://www.amazon.com/s?k={}"@ },
        BangView {
            prefix: "!s"@,
            name: "Stack Overflow"@,
            url_template: "https://stackoverflow.com/search?q={}"@,
        },
        BangView {
            prefix: "!m"@,
            name: "MDN"@,
            url_template: "https://developer.mozilla.org/en-US/search?q={}"@,
        },
        BangView { prefix: "!x"@, name: "X / Twitter"@, url_template: "https://x.com/search?q={}"@ },
    ]
}

/// The known bangs.
pub fn all_bangs() -> (v: Vec<Bang>)
    ensures
        v@.len() == bang_table().len(),
        forall|k: int| 0 <= k < v@.len() ==> #[trigger] v@[k]@ == bang_table()[k],
{
    vec![
        Bang { prefix: "!g", name: "Google", url_template: "https://google.com/search?q={}" },
        Bang {
            prefix: "!y",
            name: "YouTube",
            url_template: "https://youtube.com/results?search_query={}",
        },
        Bang {
            prefix: "!w",
            name: "Wikipedia",
            url_template: "https://en.wikipedia.org/wiki/Special:Search?search={}",
        },
        Bang { prefix: "!gh", name: "GitHub", url_template: "https://github.com/search?q={}" },
        Bang { prefix: "!r", name: "Reddit", url_template: "https://www.reddit.com/search/?q={}" },
        Bang { prefix: "!a", name: "Amazon", url_template: "https://www.amazon.com/s?k={}" },
        Bang {
            prefix: "!s",
            name: "Stack Overflow",
            url_template: "https://stackoverflow.com/search?q={}",
        },
        Bang {
            prefix: "!m",
            name: "MDN",
            url_template: "https://developer.mozilla.org/en-US/search?q={}",
        },
        Bang { prefix: "!x", name: "X / Twitter", url_template: "https://x.com/search?q={}" },
    ]
}

/// The query that follows `prefix` at the start of the trimmed text `t`,
/// itself trimmed, when it is not empty.
pub open spec fn bang_query(t: Seq<char>, prefix: Seq<char>) -> Option<Seq<char>> {
    if starts_with(t, prefix) && trim(t.skip(prefix.len() as int)).len() > 0 {
        Some(trim(t.skip(prefix.len() as int)))
    } else {
        None
    }
}

/// The bang at index `k` matches `t`, and no bang that matches `t` has a
/// longer prefix.
pub open spec fn is_longest_match(t: Seq<char>, k: int) -> bool {
    &&& 0 <= k < bang_table().len()
    &&& bang_query(t, bang_table()[k].prefix) is Some
    &&& forall|j: int|
        0 <= j < bang_table().len() && (#[trigger] bang_query(t, bang_table()[j].prefix)) is Some
            ==> bang_table()[j].prefix.len() <= bang_table()[k].prefix.len()
}

/// What `parse_bang` finds in `input`: among the bangs whose prefix starts
/// the trimmed input and leaves a non-empty query, the one with the longest
/// prefix (so `!gh` wins over `!g`), as its index in the table and the query.
pub open spec fn parsed_bang(input: Seq<char>) -> Option<(int, Seq<char>)> {
    let t = trim(input);
    if exists|k: int| is_longest_match(t, k) {
        let k = choose|k: int| is_longest_match(t, k);
        Some((k, bang_query(t, bang_table()[k].prefix)->0))
    } else {
        None
    }
}

/// Two longest matches are the same bang.
proof fn lemma_longest_match_unique(t: Seq<char>, a: int, b: int)
    requires
        is_longest_match(t, a),
        is_longest_match(t, b),
    ensures
        a == b,
{
    bang_prefixes_unique();
    let pa = bang_table()[a].prefix;
    let pb = bang_table()[b].prefix;
    assert(pa.len() == pb.len());
    assert(pa =~= t.take(pa.len() as int));
    assert(pb =~= t.take(pb.len() as int));
    if a < b {
    } else if b < a {
    }
}

/// Returns the matching `Bang` and the query string, or `None` if the input
/// doesn't start with any known bang prefix.
pub fn parse_bang(input: &str) -> (r: Option<(Bang, &str)>)
    ensures
        match parsed_bang(input@) {
            None => r is None,
            Some((k, q)) => r matches Some((b, qs)) && b@ == bang_table()[k] && qs@ == q,
        },
{
    let t = trim_str(input);
    let tv = chars_of(t);
    let table = all_bangs();
    let mut best: Option<(usize, &str)> = None;
    let mut k: usize = 0;
    while k < table.len()
        invariant
            tv@ == t@,
            t@ == trim(input@),
            table@.len() == bang_table().len(),
            forall|j: int| 0 <= j < table@.len() ==> #[trigger] table@[j]@ == bang_table()[j],
            k <= table@.len(),
            match best {
                Some((b, q)) => {
                    &&& b < k
                    &&& bang_query(t@, bang_table()[b as int].prefix) == Some(q@)
                    &&& forall|j: int|
                        0 <= j < k && (#[trigger] bang_query(t@, bang_table()[j].prefix)) is Some
                            ==> bang_table()[j].prefix.len() <= bang_table()[b as int].prefix.len()
                },
                None => forall|j: int|
                    0 <= j < k ==> (#[trigger] bang_query(t@, bang_table()[j].prefix)) is None,
            },
        decreases table.len() - k,
    {
        let b = table[k];
        let pv = chars_of(b.prefix);
        assert(table@[k as int]@ == bang_table()[k as int]);
        if matches_at(&tv, 0, &pv) {
            assert(tv@.subrange(0, pv@.len() as int) =~= tv@.take(pv@.len() as int));
            let rest = t.substring_char(pv.len(), tv.len());
            assert(rest@ =~= t@.skip(pv@.len() as int));
            let q = trim_str(rest);
            if !q.is_empty() {
                assert(bang_query(t@, bang_table()[k as int].prefix) == Some(q@));
                let longer = match best {
                    Some((bi, _)) => {
                        let bv = chars_of(table[bi].prefix);
                        assert(table@[bi as int]@ == bang_table()[bi as int]);
                        pv.len() > bv.len()
                    },
                    None => true,
                };
                if longer {
                    best = Some((k, q));
                }
            } else {
                assert(bang_query(t@, bang_table()[k as int].prefix) is None);
            }
        } else {
            assert(bang_query(t@, pv@) is None) by {
                if starts_with(t@, pv@) {
                    assert(tv@.subrange(0, pv@.len() as int) =~= tv@.take(pv@.len() as int));
                }
            }
        }
        k = k + 1;
    }
    match best {
        Some((bi, q)) => {
            proof {
                assert(is_longest_match(t@, bi as int));
                let c = choose|c: int| is_longest_match(t@, c);
                lemma_longest_match_unique(t@, c, bi as int);
            }
            Some((table[bi], q))
        },
        None => {
            proof {
                assert forall|c: int| !is_longest_match(t@, c) by {}
            }
            None
        },
    }
}

/// Bytes that URL encoding keeps as they are: ASCII letters and digits and
/// `-`, `.`, `_`, `~`.
pub open spec fn is_unreserved(b: u8) -> bool {
    ||| 0x30 <= b <= 0x39
    ||| 0x41 <= b <= 0x5a
    ||| 0x61 <= b <= 0x7a
    ||| b == 0x2d
    ||| b == 0x2e
    ||| b == 0x5f
    ||| b == 0x7e
}

/// An upper-case hexadecimal digit.
pub open spec fn hex_upper(d: u8) -> char {
    if d < 10 {
        (0x30 + d) as char
    } else {
        (0x41 - 10 + d) as char
    }
}

/// Percent-encoding of a byte string: every byte but the unreserved ones
/// becomes `%` and two upper-case hexadecimal digits.
pub open spec fn percent_encode(bytes: Seq<u8>) -> Seq<char>
    decreases bytes.len(),
{
    if bytes.len() == 0 {
        Seq::empty()
    } else {
        let b = bytes[0];
        (if is_unreserved(b) {
            seq![b as char]
        } else {
            seq!['%', hex_upper(b / 16), hex_upper(b % 16)]
        }) + percent_encode(bytes.drop_first())
    }
}

/// An ASCII letter or digit, or one of `-`, `.`, `_`, `~`.
pub open spec fn is_url_safe_char(c: char) -> bool {
    ||| '0' <= c <= '9'
    ||| 'A' <= c <= 'Z'
    ||| 'a' <= c <= 'z'
    ||| c == '-'
    ||| c == '.'
    ||| c == '_'
    ||| c == '~'
}

/// A single byte is encoded by itself exactly when it is an ASCII letter or
/// digit or one of `-._~`; any other byte (`+`, `&`, `=`, a space, every
/// non-ASCII byte) becomes `%` and its two upper-case hexadecimal digits,
/// high digit first.
pub proof fn percent_encoding_of_a_byte(b: u8)
    ensures
        is_url_safe_char(b as char) ==> percent_encode(seq![b]) == seq![b as char],
        !is_url_safe_char(b as char) ==> {
            let e = percent_encode(seq![b]);
            &&& e.len() == 3
            &&& e[0] == '%'
            &&& e[1] == (if b / 16 < 10 {
                ('0' as u32 + b / 16) as char
            } else {
                ('A' as u32 + b / 16 - 10) as char
            })
            &&& e[2] == (if b % 16 < 10 {
                ('0' as u32 + b % 16) as char
            } else {
                ('A' as u32 + b % 16 - 10) as char
            })
        },
{
    assert(seq![b].drop_first() =~= Seq::<u8>::empty());
    assert(percent_encode(Seq::<u8>::empty()) =~= Seq::<char>::empty());
    assert(seq![b][0] == b);
    assert(is_unreserved(b) <==> is_url_safe_char(b as char));
    if is_unreserved(b) {
        assert(seq![b as char] + Seq::<char>::empty() =~= seq![b as char]);
    } else {
        let e = seq!['%', hex_upper(b / 16), hex_upper(b % 16)];
        assert(e + Seq::<char>::empty() =~= e);
    }
}

/// Encoding a concatenation encodes each part in turn.
pub proof fn percent_encoding_concatenates(a: Seq<u8>, b: Seq<u8>)
    ensures
        percent_encode(a + b) == percent_encode(a) + percent_encode(b),
    decreases a.len(),
{
    if a.len() == 0 {
        assert(a + b =~= b);
        assert(percent_encode(a) =~= Seq::<char>::empty());
        assert(Seq::<char>::empty() + percent_encode(b) =~= percent_encode(b));
    } else {
        assert((a + b)[0] == a[0]);
        assert((a + b).drop_first() =~= a.drop_first() + b);
        percent_encoding_concatenates(a.drop_first(), b);
        let h = if is_unreserved(a[0]) {
            seq![a[0] as char]
        } else {
            seq!['%', hex_upper(a[0] / 16), hex_upper(a[0] % 16)]
        };
        assert(h + (percent_encode(a.drop_first()) + percent_encode(b)) =~= (h + percent_encode(
            a.drop_first(),
        )) + percent_encode(b));
    }
}

/// An encoded query holds only ASCII letters, digits, `-._~` and `%`: no
/// `+`, space, `&` or `=` is left that a site would read otherwise.
pub proof fn encoded_text_is_url_safe(bytes: Seq<u8>)
    ensures
        forall|i: int|
            0 <= i < percent_encode(bytes).len() ==> is_url_safe_char(#[trigger] percent_encode(bytes)[i])
                || percent_encode(bytes)[i] == '%',
    decreases bytes.len(),
{
    if bytes.len() > 0 {
        encoded_text_is_url_safe(bytes.drop_first());
        let b = bytes[0];
        let h = if is_unreserved(b) {
            seq![b as char]
        } else {
            seq!['%', hex_upper(b / 16), hex_upper(b % 16)]
        };
        assert(is_unreserved(b) ==> is_url_safe_char(b as char));
        assert(is_url_safe_char(hex_upper(b / 16)));
        assert(is_url_safe_char(hex_upper(b % 16)));
        let r = percent_encode(bytes.drop_first());
        assert(percent_encode(bytes) == h + r);
        assert forall|i: int| 0 <= i < (h + r).len() implies is_url_safe_char(#[trigger] (h + r)[i])
            || (h + r)[i] == '%' by {
            if i >= h.len() {
                assert((h + r)[i] == r[i - h.len()]);
            }
        }
    }
}

/// `urlencoding::encode`: percent-encodes the UTF-8 bytes of `data`, every
/// byte but ASCII letters, digits and `-._~` (the crate's documented rule,
/// which its `encode_into` carries out byte by byte).
#[verifier::external_body]
fn url_encode(data: &str) -> (r: String)
    ensures
        r@ == percent_encode(vstd::utf8::encode_utf8(data@)),
{
    urlencoding::encode(data).into_owned()
}

/// The URL that a search with `bang` for `query` opens.
pub open spec fn spec_search_url(template: Seq<char>, query: Seq<char>) -> Seq<char> {
    replace_all(template, "{}"@, percent_encode(vstd::utf8::encode_utf8(query)))
}

/// Build the full search URL by inserting the URL-encoded query into the
/// bang's template.
pub fn search_url(bang: &Bang, query: &str) -> (r: String)
    ensures
        r@ == spec_search_url(bang.url_template@, query@),
{
    let encoded = url_encode(query);
    proof {
        reveal_strlit("{}");
    }
    replace_all_str(bang.url_template, "{}", encoded.as_str())
}

/// No two bangs share a prefix.
pub proof fn bang_prefixes_unique()
    ensures
        forall|a: int, b: int|
            0 <= a < b < bang_table().len() ==> bang_table()[a].prefix != bang_table()[b].prefix,
{
    reveal_strlit("!g");
    reveal_strlit("!y");
    reveal_strlit("!w");
    reveal_strlit("!gh");
    reveal_strlit("!r");
    reveal_strlit("!a");
    reveal_strlit("!s");
    reveal_strlit("!m");
    reveal_strlit("!x");
    assert forall|a: int, b: int| 0 <= a < b < bang_table().len() implies bang_table()[a].prefix
        != bang_table()[b].prefix by {
        let pa = bang_table()[a].prefix;
        let pb = bang_table()[b].prefix;
        if pa == pb {
            assert(pa.len() == pb.len());
            assert(pa[1] == pb[1]);
        }
    }
}

/// Text without an opening brace is left as it is by the substitution of `{}`.
proof fn lemma_replace_braces_prefix(a: Seq<char>, rest: Seq<char>, rep: Seq<char>)
    requires
        forall|i: int| 0 <= i < a.len() ==> #[trigger] a[i] != '{',
    ensures
        replace_all(a + rest, "{}"@, rep) == a + replace_all(rest, "{}"@, rep),
    decreases a.len(),
{
    reveal_strlit("{}");
    if a.len() > 0 {
        let s = a + rest;
        assert(s[0] == a[0]);
        assert(!starts_with(s, "{}"@)) by {
            if starts_with(s, "{}"@) {
                assert(s.take(2)[0] == '{');
            }
        }
        let a1 = a.skip(1);
        assert forall|i: int| 0 <= i < a1.len() implies #[trigger] a1[i] != '{' by {
            assert(a1[i] == a[i + 1]);
        }
        lemma_replace_braces_prefix(a1, rest, rep);
        assert(s.skip(1) =~= a1 + rest);
        assert(seq![a[0]] + (a1 + rest) =~= a + rest);
        assert(seq![a[0]] + (a1 + replace_all(rest, "{}"@, rep)) =~= a + replace_all(
            rest,
            "{}"@,
            rep,
        ));
    } else {
        assert(a + rest =~= rest);
        assert(a + replace_all(rest, "{}"@, rep) =~= replace_all(rest, "{}"@, rep));
    }
}

/// A template that is a brace-free text followed by `{}` becomes that text
/// followed by the replacement.
proof fn lemma_template_ending_in_braces(t: Seq<char>, a: Seq<char>, rep: Seq<char>)
    requires
        t == a + "{}"@,
        forall|i: int| 0 <= i < a.len() ==> #[trigger] a[i] != '{',
    ensures
        replace_all(t, "{}"@, rep) == a + rep,
{
    reveal_strlit("{}");
    lemma_replace_braces_prefix(a, "{}"@, rep);
    let b = "{}"@;
    assert(starts_with(b, b)) by {
        assert(b.take(2) =~= b);
    }
    assert(b.skip(2) =~= Seq::<char>::empty());
    assert(replace_all(b, b, rep) == rep + replace_all(Seq::<char>::empty(), b, rep));
    assert(rep + Seq::<char>::empty() =~= rep);
}

/// The fixed part of each bang's URL, before the query.
pub open spec fn url_head(k: int) -> Seq<char> {
    if k == 0 {
        "https://google.com/search?q="@
    } else if k == 1 {
        "https://youtube.com/results?search_query="@
    } else if k == 2 {
        "https://en.wikipedia.org/wiki/Special:Search?search="@
    } else if k == 3 {
        "https://github.com/search?q="@
    } else if k == 4 {
        "https://www.reddit.com/search/?q="@
    } else if k == 5 {
        "https://www.amazon.com/s?k="@
    } else if k == 6 {
        "https://stackoverflow.com/search?q="@
    } else if k == 7 {
        "https://developer.mozilla.org/en-US/search?q="@
    } else {
        "https://x.com/search?q="@
    }
}

proof fn lemma_url_head(k: int)
    requires
        0 <= k < bang_table().len(),
    ensures
        bang_table()[k].url_template == url_head(k) + "{}"@,
        forall|i: int| 0 <= i < url_head(k).len() ==> #[trigger] url_head(k)[i] != '{',
        starts_with(url_head(k), "https://"@),
        "https://"@.len() == 8,
        url_head(k).len() >= 8,
{
    reveal_strlit("{}");
    reveal_strlit("https://");
    if k == 0 {
        reveal_strlit("https://google.com/search?q=");
        reveal_strlit("https://google.com/search?q={}");
    } else if k == 1 {
        reveal_strlit("https://youtube.com/results?search_query=");
        reveal_strlit("https://youtube.com/results?search_query={}");
    } else if k == 2 {
        reveal_strlit("https://en.wikipedia.org/wiki/Special:Search?search=");
        reveal_strlit("https://en.wikipedia.org/wiki/Special:Search?search={}");
    } else if k == 3 {
        reveal_strlit("https://github.com/search?q=");
        reveal_strlit("https://github.com/search?q={}");
    } else if k == 4 {
        reveal_strlit("https://www.reddit.com/search/?q=");
        reveal_strlit("https://www.reddit.com/search/?q={}");
    } else if k == 5 {
        reveal_strlit("https://www.amazon.com/s?k=");
        reveal_strlit("https://www.amazon.com/s?k={}");
    } else if k == 6 {
        reveal_strlit("https://stackoverflow.com/search?q=");
        reveal_strlit("https://stackoverflow.com/search?q={}");
    } else if k == 7 {
        reveal_strlit("https://developer.mozilla.org/en-US/search?q=");
        reveal_strlit("https://developer.mozilla.org/en-US/search?q={}");
    } else {
        reveal_strlit("https://x.com/search?q=");
        reveal_strlit("https://x.com/search?q={}");
    }
    assert(bang_table()[k].url_template =~= url_head(k) + "{}"@);
    assert(url_head(k).take(8) =~= "https://"@);
}

/// Every bang's search URL is an `https://` URL that holds the encoded query:
/// the fixed part of the bang's URL followed by the percent-encoded query.
pub proof fn bang_urls_hold_the_query(k: int, query: Seq<char>)
    requires
        0 <= k < bang_table().len(),
    ensures
        spec_search_url(bang_table()[k].url_template, query) == url_head(k) + percent_encode(
            vstd::utf8::encode_utf8(query),
        ),
        starts_with(spec_search_url(bang_table()[k].url_template, query), "https://"@),
        crate::text::contains(
            spec_search_url(bang_table()[k].url_template, query),
            percent_encode(vstd::utf8::encode_utf8(query)),
        ),
{
    lemma_url_head(k);
    let rep = percent_encode(vstd::utf8::encode_utf8(query));
    lemma_template_ending_in_braces(bang_table()[k].url_template, url_head(k), rep);
    let u = url_head(k) + rep;
    assert(u.take(8) =~= url_head(k).take(8));
    let i = url_head(k).len() as int;
    assert(u.subrange(i, i + rep.len()) =~= rep);
}

/// The query of a parsed bang is non-empty and already trimmed.
pub proof fn parsed_query_is_trimmed(input: Seq<char>)
    ensures
        parsed_bang(input) matches Some((k, q)) ==> 0 <= k < bang_table().len() && q.len() > 0
            && trim(q) == q,
{
    if let Some((k, q)) = parsed_bang(input) {
        let t = trim(input);
        crate::text::lemma_trim_idempotent(t.skip(bang_table()[k].prefix.len() as int));
    }
}

proof fn lemma_prefixes_have_no_whitespace()
    ensures
        forall|k: int| 0 <= k < bang_table().len() ==> #[trigger] bang_table()[k].prefix.len() > 0,
        forall|k: int, i: int|
            0 <= k < bang_table().len() && 0 <= i < bang_table()[k].prefix.len() ==> !is_white_space(
                #[trigger] bang_table()[k].prefix[i],
            ),
{
    reveal_strlit("!g");
    reveal_strlit("!y");
    reveal_strlit("!w");
    reveal_strlit("!gh");
    reveal_strlit("!r");
    reveal_strlit("!a");
    reveal_strlit("!s");
    reveal_strlit("!m");
    reveal_strlit("!x");
}

/// The bang that `parse_bang` finds matches the trimmed input with exactly
/// the query it returns, and every other bang that matches has a shorter
/// prefix; when it finds none, no bang matches at all.
pub proof fn parsed_bang_is_the_longest_match(input: Seq<char>)
    ensures
        match parsed_bang(input) {
            Some((k, q)) => {
                &&& bang_query(trim(input), bang_table()[k].prefix) == Some(q)
                &&& forall|j: int|
                    0 <= j < bang_table().len() && j != k && (#[trigger] bang_query(
                        trim(input),
                        bang_table()[j].prefix,
                    )) is Some ==> bang_table()[j].prefix.len() < bang_table()[k].prefix.len()
            },
            None => forall|j: int|
                0 <= j < bang_table().len() ==> (#[trigger] bang_query(
                    trim(input),
                    bang_table()[j].prefix,
                )) is None,
        },
{
    let t = trim(input);
    bang_prefixes_unique();
    if let Some((k, q)) = parsed_bang(input) {
        assert forall|j: int|
            0 <= j < bang_table().len() && j != k && (#[trigger] bang_query(
                t,
                bang_table()[j].prefix,
            )) is Some implies bang_table()[j].prefix.len() < bang_table()[k].prefix.len() by {
            let pj = bang_table()[j].prefix;
            let pk = bang_table()[k].prefix;
            if pj.len() == pk.len() {
                assert(pj =~= t.take(pj.len() as int));
                assert(pk =~= t.take(pk.len() as int));
            }
        }
    } else {
        // a matching bang would make some bang the longest match
        assert forall|j: int| 0 <= j < bang_table().len() implies (#[trigger] bang_query(
            t,
            bang_table()[j].prefix,
        )) is None by {
            if bang_query(t, bang_table()[j].prefix) is Some {
                lemma_longest_exists(t, j, 0);
            }
        }
    }
}

/// When the bang at `j` matches, some bang is the longest match: the search
/// from `i` on keeps the longest prefix seen.
proof fn lemma_longest_exists(t: Seq<char>, j: int, i: int)
    requires
        0 <= j < bang_table().len(),
        0 <= i <= bang_table().len(),
        bang_query(t, bang_table()[j].prefix) is Some,
        forall|m: int|
            0 <= m < i && (#[trigger] bang_query(t, bang_table()[m].prefix)) is Some
                ==> bang_table()[m].prefix.len() <= bang_table()[j].prefix.len(),
    ensures
        exists|k: int| is_longest_match(t, k),
    decreases bang_table().len() - i,
{
    if i == bang_table().len() {
        assert(is_longest_match(t, j));
    } else if bang_query(t, bang_table()[i].prefix) is Some && bang_table()[i].prefix.len()
        > bang_table()[j].prefix.len() {
        lemma_longest_exists(t, i, i + 1);
    } else {
        lemma_longest_exists(t, j, i + 1);
    }
}

/// Every bang is reached by its own prefix: the prefix, a space and a
/// non-blank query are read as a search with that bang for the trimmed
/// query, whatever the order of the table.
pub proof fn bang_then_query_is_parsed(k: int, q: Seq<char>)
    requires
        0 <= k < bang_table().len(),
        trim(q).len() > 0,
    ensures
        parsed_bang(bang_table()[k].prefix + seq![' '] + q) == Some((k, trim(q))),
{
    lemma_prefixes_have_no_whitespace();
    let p = bang_table()[k].prefix;
    let s = p + seq![' '] + q;
    assert(p.len() > 0);
    assert(s[0] == p[0]);
    assert(!is_white_space(p[0]));
    assert(trim_start(s) == s);
    // the query keeps something other than whitespace at its end
    crate::text::lemma_trim_ends_commute(q);
    if trim_end(q).len() == 0 {
        assert(trim_end(q) =~= Seq::<char>::empty());
        assert(trim_start(trim_end(q)) =~= Seq::<char>::empty());
    }
    crate::text::lemma_trim_end_append(p + seq![' '], q);
    let t = p + seq![' '] + trim_end(q);
    assert(trim(s) == t);
    // the bang's own prefix matches, leaving the trimmed query
    assert(t.take(p.len() as int) =~= p);
    assert(t[p.len() as int] == ' ');
    let rest = t.skip(p.len() as int);
    assert(rest =~= seq![' '] + trim_end(q));
    assert(rest.drop_first() =~= trim_end(q));
    assert(trim_start(rest) == trim_start(trim_end(q)));
    assert(trim(rest) == trim_end(trim(q)));
    crate::text::lemma_trim_end_shape(trim_start(q));
    assert(trim_end(trim(q)) == trim(q));
    assert(bang_query(t, p) == Some(trim(q)));
    // a longer prefix would have to hold the space
    assert forall|j: int|
        0 <= j < bang_table().len() && (#[trigger] bang_query(t, bang_table()[j].prefix)) is Some
            implies bang_table()[j].prefix.len() <= p.len() by {
        let pj = bang_table()[j].prefix;
        if pj.len() > p.len() {
            assert(t.take(pj.len() as int)[p.len() as int] == pj[p.len() as int]);
            assert(!is_white_space(pj[p.len() as int]));
        }
    }
    assert(is_longest_match(t, k));
    let c = choose|c: int| is_longest_match(t, c);
    lemma_longest_match_unique(t, c, k);
}

} // verus!
