//! The web tools' logic: URL domain extraction, the search-engine-URL
//! refusal, the network allowlist, and the HTML-to-text extraction with its
//! entity decoding and whitespace collapsing. The HTTP fetch and the DNS
//! resolution happen outside the library.

use vstd::prelude::*;

use crate::text;

verus! {

/// The prefix of `s` before the first occurrence of `c`, or all of `s`.
pub open spec fn prefix_to(s: Seq<char>, c: char) -> Seq<char>
    decreases s.len(),
{
    if s.len() == 0 {
        Seq::empty()
    } else if s[0] == c {
        Seq::empty()
    } else {
        seq![s[0]] + prefix_to(s.drop_first(), c)
    }
}

/// The prefix of `v` before the first occurrence of `c`.
pub fn take_until(v: &Vec<char>, c: char) -> (r: Vec<char>)
    ensures
        r@ == prefix_to(v@, c),
{
    match text::find_char(v, c) {
        Some(i) => {
            let r = text::subrange_chars(v, 0, i);
            proof {
                lemma_prefix_to_found(v@, c, i as int);
            }
            r
        },
        None => {
            let r = text::subrange_chars(v, 0, v.len());
            proof {
                lemma_prefix_to_absent(v@, c);
                assert(r@ =~= v@);
            }
            r
        },
    }
}

proof fn lemma_prefix_to_found(s: Seq<char>, c: char, i: int)
    requires
        0 <= i < s.len(),
        s[i] == c,
        forall|j: int| 0 <= j < i ==> s[j] != c,
    ensures
        prefix_to(s, c) == s.subrange(0, i),
    decreases i,
{
    if i == 0 {
        assert(prefix_to(s, c) =~= s.subrange(0, 0));
    } else {
        lemma_prefix_to_found(s.drop_first(), c, i - 1);
        assert(prefix_to(s, c) =~= s.subrange(0, i));
    }
}

proof fn lemma_prefix_to_absent(s: Seq<char>, c: char)
    requires
        forall|j: int| 0 <= j < s.len() ==> s[j] != c,
    ensures
        prefix_to(s, c) == s,
    decreases s.len(),
{
    if s.len() > 0 {
        lemma_prefix_to_absent(s.drop_first(), c);
        assert(prefix_to(s, c) =~= s);
    }
}

/// The URL with its scheme stripped: what follows `https://` or `http://`.
pub open spec fn without_scheme(url: Seq<char>) -> Seq<char> {
    if url.len() >= 8 && url.subrange(0, 8) == "https://"@ {
        url.skip(8)
    } else if url.len() >= 7 && url.subrange(0, 7) == "http://"@ {
        url.skip(7)
    } else {
        url
    }
}

/// The domain of a URL: what stands after the scheme, before any path or
/// port, lowercased.
pub open spec fn spec_domain(url: Seq<char>) -> Seq<char> {
    text::lower_seq(prefix_to(prefix_to(without_scheme(url), '/'), ':'))
}

/// Extract the domain from a URL string.
pub fn extract_domain(url: &str) -> (r: String)
    ensures
        r@ == spec_domain(url@),
{
    let chars = text::str_chars(url);
    let https = text::str_chars("https://");
    let http = text::str_chars("http://");
    proof {
        reveal_strlit("https://");
        reveal_strlit("http://");
    }
    let rest = if text::starts_with_chars(&chars, &https) {
        text::subrange_chars(&chars, 8, chars.len())
    } else if text::starts_with_chars(&chars, &http) {
        text::subrange_chars(&chars, 7, chars.len())
    } else {
        text::subrange_chars(&chars, 0, chars.len())
    };
    proof {
        assert(rest@ =~= without_scheme(url@));
    }
    let before_path = take_until(&rest, '/');
    let before_port = take_until(&before_path, ':');
    let lowered = text::to_lower_chars(&before_port);
    text::chars_to_string(&lowered)
}

/// The hosts whose result pages must go through the search tool instead.
pub open spec fn spec_search_hosts() -> Seq<Seq<char>> {
    seq![
        "google.com"@,
        "www.google.com"@,
        "bing.com"@,
        "www.bing.com"@,
        "duckduckgo.com"@,
        "www.duckduckgo.com"@,
        "search.yahoo.com"@,
        "yandex.com"@,
        "www.yandex.com"@,
        "baidu.com"@,
        "www.baidu.com"@,
    ]
}

/// `domain` is a known search host or a subdomain of one.
pub open spec fn spec_known_search_host(domain: Seq<char>) -> bool {
    exists|i: int|
        {
            &&& 0 <= i < spec_search_hosts().len()
            &&& ({
                let h = #[trigger] spec_search_hosts()[i];
                domain == h || (domain.len() > h.len() + 1 && domain.skip(
                    domain.len() - h.len() - 1,
                ) == seq!['.'] + h)
            })
        }
}

/// A URL that must be refused by the fetch tool: a known search host with a
/// query marker in the (lowercased) URL.
pub open spec fn spec_search_query_url(url: Seq<char>, domain: Seq<char>) -> bool {
    spec_known_search_host(domain) && (text::contains_seq(text::lower_seq(url), "/search?"@)
        || text::contains_seq(text::lower_seq(url), "?q="@) || text::contains_seq(
        text::lower_seq(url),
        "&q="@,
    ))
}

fn search_hosts() -> (r: Vec<&'static str>)
    ensures
        r@.len() == spec_search_hosts().len(),
        forall|i: int| 0 <= i < r@.len() ==> r@[i]@ == spec_search_hosts()[i],
{
    let mut v: Vec<&'static str> = Vec::new();
    v.push("google.com");
    v.push("www.google.com");
    v.push("bing.com");
    v.push("www.bing.com");
    v.push("duckduckgo.com");
    v.push("www.duckduckgo.com");
    v.push("search.yahoo.com");
    v.push("yandex.com");
    v.push("www.yandex.com");
    v.push("baidu.com");
    v.push("www.baidu.com");
    v
}

/// Is this URL a search-engine result page (which the fetch tool refuses)?
pub fn is_search_engine_query_url(url: &str, domain: &str) -> (r: bool)
    ensures
        r == spec_search_query_url(url@, domain@),
{
    let d = text::str_chars(domain);
    let hosts = search_hosts();
    let mut known = false;
    let n = hosts.len();
    for i in 0..n
        invariant
            n == hosts@.len(),
            n == spec_search_hosts().len(),
            forall|j: int| 0 <= j < n ==> hosts@[j]@ == spec_search_hosts()[j],
            d@ == domain@,
            known ==> spec_known_search_host(domain@),
            !known ==> (forall|j: int|
                0 <= j < i ==> !({
                    let h = #[trigger] spec_search_hosts()[j];
                    domain@ == h || (domain@.len() > h.len() + 1 && domain@.skip(
                        domain@.len() - h.len() - 1,
                    ) == seq!['.'] + h)
                })),
    {
        let h = text::str_chars(hosts[i]);
        if text::chars_eq(&d, &h) {
            known = true;
        } else if d.len() >= 2 && h.len() <= d.len() - 2 {
            let tail = text::subrange_chars(&d, d.len() - h.len() - 1, d.len());
            let mut dotted: Vec<char> = Vec::new();
            dotted.push('.');
            text::push_all(&mut dotted, &h);
            if text::chars_eq(&tail, &dotted) {
                proof {
                    assert(domain@.skip(domain@.len() - spec_search_hosts()[i as int].len() - 1)
                        =~= tail@);
                }
                known = true;
            }
        }
    }
    if !known {
        proof {
            if spec_known_search_host(domain@) {
                let w = choose|w: int|
                    {
                        &&& 0 <= w < spec_search_hosts().len()
                        &&& ({
                            let h = #[trigger] spec_search_hosts()[w];
                            domain@ == h || (domain@.len() > h.len() + 1 && domain@.skip(
                                domain@.len() - h.len() - 1,
                            ) == seq!['.'] + h)
                        })
                    };
                assert(false);
            }
        }
        return false;
    }
    let lower = text::to_lower_chars(&text::str_chars(url));
    let m1 = text::str_chars("/search?");
    let m2 = text::str_chars("?q=");
    let m3 = text::str_chars("&q=");
    text::contains_chars(&lower, &m1) || text::contains_chars(&lower, &m2) || text::contains_chars(
        &lower,
        &m3,
    )
}

/// Is the domain admitted by the allowlist? An empty list admits
/// everything; else some listed suffix must end the domain.
pub fn domain_allowed(allowlist: &Vec<String>, domain: &str) -> (r: bool)
    ensures
        allowlist@.len() == 0 ==> r,
        allowlist@.len() > 0 ==> r == (exists|i: int|
            {
                &&& 0 <= i < allowlist@.len()
                &&& ({
                    let s = (#[trigger] allowlist@[i])@;
                    s.len() <= domain@.len() && domain@.skip(domain@.len() - s.len()) == s
                })
            }),
{
    if allowlist.len() == 0 {
        return true;
    }
    let d = text::str_chars(domain);
    let n = allowlist.len();
    for i in 0..n
        invariant
            n == allowlist@.len(),
            d@ == domain@,
            forall|j: int|
                0 <= j < i ==> !({
                    let s = (#[trigger] allowlist@[j])@;
                    s.len() <= domain@.len() && domain@.skip(domain@.len() - s.len()) == s
                }),
    {
        let s = text::str_chars(allowlist[i].as_str());
        if s.len() <= d.len() {
            let tail = text::subrange_chars(&d, d.len() - s.len(), d.len());
            if text::chars_eq(&tail, &s) {
                proof {
                    assert(domain@.skip(domain@.len() - allowlist@[i as int]@.len()) =~= tail@);
                }
                return true;
            }
            proof {
                assert(domain@.skip(domain@.len() - allowlist@[i as int]@.len()) =~= tail@);
            }
        }
    }
    false
}

/// Tag stripping, one character at a time: text outside angle brackets is
/// kept, each whole tag becomes one space.
pub open spec fn strip_tags_from(s: Seq<char>, in_tag: bool) -> Seq<char>
    decreases s.len(),
{
    if s.len() == 0 {
        Seq::empty()
    } else if in_tag {
        if s[0] == '>' {
            strip_tags_from(s.drop_first(), false)
        } else {
            strip_tags_from(s.drop_first(), true)
        }
    } else {
        if s[0] == '<' {
            seq![' '] + strip_tags_from(s.drop_first(), true)
        } else {
            seq![s[0]] + strip_tags_from(s.drop_first(), false)
        }
    }
}

/// Whitespace collapsing, one character at a time: runs of whitespace
/// between words become one space; leading and trailing whitespace is
/// dropped. `emitted` says whether a word went out already; `pending` that
/// a separating space is owed.
pub open spec fn collapse_ws_from(s: Seq<char>, emitted: bool, pending: bool) -> Seq<char>
    decreases s.len(),
{
    if s.len() == 0 {
        Seq::empty()
    } else if text::is_ws_char(s[0]) {
        collapse_ws_from(s.drop_first(), emitted, emitted)
    } else {
        (if pending {
            seq![' ']
        } else {
            Seq::empty()
        }) + seq![s[0]] + collapse_ws_from(s.drop_first(), true, false)
    }
}

/// The text extracted from HTML: tags stripped to spaces, whitespace
/// collapsed and trimmed. Character entities are left as written, so that
/// extraction is idempotent.
pub open spec fn spec_html_text(html: Seq<char>) -> Seq<char> {
    collapse_ws_from(strip_tags_from(html, false), false, false)
}

/// Extract the readable text of an HTML document.
pub fn html_to_text(html: &str) -> (r: String)
    ensures
        r@ == spec_html_text(html@),
{
    let chars = text::str_chars(html);
    let n = chars.len();
    // Strip tags.
    let mut stripped: Vec<char> = Vec::new();
    let mut in_tag = false;
    proof {
        assert(chars@.skip(0) =~= chars@);
    }
    for i in 0..n
        invariant
            n == chars@.len(),
            chars@ == html@,
            stripped@ + strip_tags_from(chars@.skip(i as int), in_tag) == strip_tags_from(
                html@,
                false,
            ),
    {
        let c = chars[i];
        proof {
            assert(chars@.skip(i as int).drop_first() =~= chars@.skip(i + 1));
            assert(chars@.skip(i as int)[0] == c);
        }
        if in_tag {
            if c == '>' {
                in_tag = false;
            }
        } else {
            if c == '<' {
                stripped.push(' ');
                in_tag = true;
            } else {
                stripped.push(c);
            }
        }
        proof {
            assert(stripped@ + strip_tags_from(chars@.skip(i + 1), in_tag) =~= strip_tags_from(
                html@,
                false,
            ));
        }
    }
    proof {
        assert(chars@.skip(n as int) =~= Seq::<char>::empty());
        assert(stripped@ =~= strip_tags_from(html@, false));
    }
    // Collapse whitespace.
    let collapsed = collapse_ws(&stripped);
    text::chars_to_string(&collapsed)
}

/// Collapse whitespace runs to single spaces and trim both ends.
fn collapse_ws(v: &Vec<char>) -> (r: Vec<char>)
    ensures
        r@ == collapse_ws_from(v@, false, false),
{
    let mut out: Vec<char> = Vec::new();
    let mut emitted = false;
    let mut pending = false;
    let n = v.len();
    proof {
        assert(v@.skip(0) =~= v@);
    }
    for i in 0..n
        invariant
            n == v@.len(),
            out@ + collapse_ws_from(v@.skip(i as int), emitted, pending) == collapse_ws_from(
                v@,
                false,
                false,
            ),
    {
        let c = v[i];
        proof {
            assert(v@.skip(i as int).drop_first() =~= v@.skip(i + 1));
            assert(v@.skip(i as int)[0] == c);
        }
        if c == ' ' || c == '\t' || c == '\n' || c == '\r' {
            pending = emitted;
        } else {
            if pending {
                out.push(' ');
            }
            out.push(c);
            emitted = true;
            pending = false;
        }
        proof {
            assert(out@ + collapse_ws_from(v@.skip(i + 1), emitted, pending)
                =~= collapse_ws_from(v@, false, false));
        }
    }
    proof {
        assert(v@.skip(n as int) =~= Seq::<char>::empty());
        assert(out@ =~= collapse_ws_from(v@, false, false));
    }
    out
}

/// Extraction is idempotent: extracting the readable text of an already
/// extracted text changes nothing.
pub proof fn lemma_html_text_idempotent(s: Seq<char>)
    ensures
        spec_html_text(spec_html_text(s)) == spec_html_text(s),
{
    let stripped = strip_tags_from(s, false);
    let t = spec_html_text(s);
    lemma_strip_tagfree(s, false);
    lemma_collapse_keeps_charfree(stripped, false, false, '<');
    lemma_collapse_form(stripped, false, false);
    lemma_strip_identity(t);
    lemma_collapse_identity(t, false, false);
}

proof fn lemma_strip_identity(s: Seq<char>)
    requires
        forall|i: int| 0 <= i < s.len() ==> s[i] != '<',
    ensures
        strip_tags_from(s, false) == s,
    decreases s.len(),
{
    if s.len() > 0 {
        lemma_strip_identity(s.drop_first());
        assert(strip_tags_from(s, false) =~= s);
    }
}

/// Tag stripping never leaves an opening bracket behind.
proof fn lemma_strip_tagfree(s: Seq<char>, in_tag: bool)
    ensures
        forall|i: int|
            0 <= i < strip_tags_from(s, in_tag).len() ==> #[trigger] strip_tags_from(
                s,
                in_tag,
            )[i] != '<',
    decreases s.len(),
{
    if s.len() > 0 {
        lemma_strip_tagfree(s.drop_first(), true);
        lemma_strip_tagfree(s.drop_first(), false);
        assert forall|i: int|
            0 <= i < strip_tags_from(s, in_tag).len() implies #[trigger] strip_tags_from(
            s,
            in_tag,
        )[i] != '<' by {
            if in_tag {
                if s[0] == '>' {
                    assert(strip_tags_from(s, in_tag)[i] == strip_tags_from(
                        s.drop_first(),
                        false,
                    )[i]);
                } else {
                    assert(strip_tags_from(s, in_tag)[i] == strip_tags_from(
                        s.drop_first(),
                        true,
                    )[i]);
                }
            } else {
                if s[0] == '<' {
                    if i == 0 {
                        assert(strip_tags_from(s, in_tag)[0] == ' ');
                    } else {
                        assert(strip_tags_from(s, in_tag)[i] == strip_tags_from(
                            s.drop_first(),
                            true,
                        )[i - 1]);
                    }
                } else {
                    if i == 0 {
                        assert(strip_tags_from(s, in_tag)[0] == s[0]);
                    } else {
                        assert(strip_tags_from(s, in_tag)[i] == strip_tags_from(
                            s.drop_first(),
                            false,
                        )[i - 1]);
                    }
                }
            }
        }
    }
}

/// Whitespace collapsing emits only spaces and characters of its input.
proof fn lemma_collapse_keeps_charfree(s: Seq<char>, e: bool, p: bool, c: char)
    requires
        c != ' ',
        forall|i: int| 0 <= i < s.len() ==> s[i] != c,
    ensures
        forall|i: int|
            0 <= i < collapse_ws_from(s, e, p).len() ==> #[trigger] collapse_ws_from(s, e, p)[i]
                != c,
    decreases s.len(),
{
    if s.len() > 0 {
        if text::is_ws_char(s[0]) {
            lemma_collapse_keeps_charfree(s.drop_first(), e, e, c);
            assert forall|i: int|
                0 <= i < collapse_ws_from(s, e, p).len() implies #[trigger] collapse_ws_from(
                s,
                e,
                p,
            )[i] != c by {
                assert(collapse_ws_from(s, e, p)[i] == collapse_ws_from(
                    s.drop_first(),
                    e,
                    e,
                )[i]);
            }
        } else {
            lemma_collapse_keeps_charfree(s.drop_first(), true, false, c);
            let tail = collapse_ws_from(s.drop_first(), true, false);
            let head: Seq<char> = if p {
                seq![' ', s[0]]
            } else {
                seq![s[0]]
            };
            assert(collapse_ws_from(s, e, p) =~= head + tail);
            assert forall|i: int|
                0 <= i < collapse_ws_from(s, e, p).len() implies #[trigger] collapse_ws_from(
                s,
                e,
                p,
            )[i] != c by {
                if i >= head.len() {
                    assert(collapse_ws_from(s, e, p)[i] == tail[i - head.len()]);
                } else if p && i == 0 {
                    assert(collapse_ws_from(s, e, p)[i] == ' ');
                } else {
                    assert(collapse_ws_from(s, e, p)[i] == s[0]);
                }
            }
        }
    }
}

/// The collapsed output is in normal form/// The collapsed output is in normal form: every whitespace character is a
/// single space with a word right after it, and (from the starting state)
/// the text opens with a word.
proof fn lemma_collapse_form(s: Seq<char>, e: bool, p: bool)
    requires
        p ==> e,
    ensures
        ({
            let o = collapse_ws_from(s, e, p);
            &&& (forall|i: int|
                0 <= i < o.len() && text::is_ws_char(#[trigger] o[i]) ==> (o[i] == ' ' && i + 1
                    < o.len() && !text::is_ws_char(o[i + 1])))
            &&& (!e && !p && o.len() > 0 ==> !text::is_ws_char(o[0]))
        }),
    decreases s.len(),
{
    if s.len() == 0 {
    } else if text::is_ws_char(s[0]) {
        lemma_collapse_form(s.drop_first(), e, e);
        assert(collapse_ws_from(s, e, p) == collapse_ws_from(s.drop_first(), e, e));
        if !e && !p {
            assert(collapse_ws_from(s.drop_first(), e, e).len() > 0 ==> !text::is_ws_char(
                collapse_ws_from(s.drop_first(), e, e)[0],
            ));
        }
    } else {
        lemma_collapse_form(s.drop_first(), true, false);
        let tail = collapse_ws_from(s.drop_first(), true, false);
        let o = collapse_ws_from(s, e, p);
        let head: Seq<char> = if p {
            seq![' ', s[0]]
        } else {
            seq![s[0]]
        };
        assert(o =~= head + tail);
        assert forall|i: int|
            0 <= i < o.len() && text::is_ws_char(#[trigger] o[i]) implies (o[i] == ' ' && i + 1
            < o.len() && !text::is_ws_char(o[i + 1])) by {
            if i < head.len() {
                if p && i == 0 {
                    assert(o[0] == ' ' && o[1] == s[0]);
                } else {
                    assert(o[i] == s[0]);
                }
            } else {
                assert(o[i] == tail[i - head.len()]);
                assert(i + 1 - head.len() < tail.len());
                assert(o[i + 1] == tail[i + 1 - head.len()]);
            }
        }
    }
}

proof fn lemma_collapse_identity(s: Seq<char>, emitted: bool, pending: bool)
    requires
        forall|i: int|
            0 <= i < s.len() && text::is_ws_char(#[trigger] s[i]) ==> (s[i] == ' ' && i + 1
                < s.len() && !text::is_ws_char(s[i + 1])),
        s.len() > 0 && text::is_ws_char(s[0]) ==> emitted,
        !pending,
    ensures
        collapse_ws_from(s, emitted, pending) == s,
    decreases s.len(),
{
    if s.len() == 0 {
    } else if text::is_ws_char(s[0]) {
        // A single separating space: the machine owes it and pays it back
        // at the next character.
        let t = s.drop_first();
        assert(t.len() > 0 && !text::is_ws_char(t[0]));
        let u = t.drop_first();
        assert forall|i: int|
            0 <= i < u.len() && text::is_ws_char(#[trigger] u[i]) implies (u[i] == ' ' && i + 1
            < u.len() && !text::is_ws_char(u[i + 1])) by {
            assert(s[i + 2] == u[i]);
            if i + 3 < s.len() {
                assert(s[i + 3] == u[i + 1]);
            }
        }
        lemma_collapse_identity(u, true, false);
        assert(collapse_ws_from(s, emitted, pending) == collapse_ws_from(t, emitted, emitted));
        assert(collapse_ws_from(t, emitted, true) == seq![' '] + seq![t[0]] + collapse_ws_from(
            t.drop_first(),
            true,
            false,
        ));
        assert(s[0] == ' ');
        assert(collapse_ws_from(s, emitted, pending) =~= s);
    } else {
        let t = s.drop_first();
        assert forall|i: int|
            0 <= i < t.len() && text::is_ws_char(#[trigger] t[i]) implies (t[i] == ' ' && i + 1
            < t.len() && !text::is_ws_char(t[i + 1])) by {
            assert(s[i + 1] == t[i]);
            if i + 2 < s.len() {
                assert(s[i + 2] == t[i + 1]);
            }
        }
        lemma_collapse_identity(t, true, false);
        assert(collapse_ws_from(s, emitted, pending) =~= s);
    }
}

} // verus!
