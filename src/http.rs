use vstd::prelude::*;
use crate::text::{string_of, chars_of};

verus! {

/// The text that lossy UTF-8 decoding makes of `b`: invalid sequences
/// become U+FFFD.
pub uninterp spec fn lossy_text(b: Seq<u8>) -> Seq<char>;

/// Relies on `String::from_utf8_lossy`: the decoded text depends on the
/// bytes alone.
#[verifier::external_body]
fn utf8_lossy(b: &[u8]) -> (r: String)
    ensures
        r@ == lossy_text(b@),
{
    String::from_utf8_lossy(b).into_owned()
}

/// TCP flags of a segment.
#[derive(Clone, Copy, Debug, PartialEq, Eq, Structural)]
pub struct TcpFlags {
    pub syn: bool,
    pub ack: bool,
    pub fin: bool,
    pub rst: bool,
    pub psh: bool,
    pub urg: bool,
}

/// The flags held in a TCP flags byte.
pub open spec fn flags_of(flags: u8) -> TcpFlags {
    TcpFlags {
        syn: flags & 0x02 != 0,
        ack: flags & 0x10 != 0,
        fin: flags & 0x01 != 0,
        rst: flags & 0x04 != 0,
        psh: flags & 0x08 != 0,
        urg: flags & 0x20 != 0,
    }
}

/// The flags held in a TCP flags byte.
pub fn parse_tcp_flags(flags: u8) -> (r: TcpFlags)
    ensures
        r == flags_of(flags),
{
    TcpFlags {
        syn: flags & 0x02 != 0,
        ack: flags & 0x10 != 0,
        fin: flags & 0x01 != 0,
        rst: flags & 0x04 != 0,
        psh: flags & 0x08 != 0,
        urg: flags & 0x20 != 0,
    }
}

/// What an HTTP request line and headers say.
#[derive(Clone, Debug)]
pub struct HttpInfo {
    pub method: Option<String>,
    pub host: Option<String>,
    pub path: Option<String>,
    pub user_agent: Option<String>,
}

/// `char::is_whitespace`: the Unicode White_Space characters.
pub open spec fn is_ws(c: char) -> bool {
    ('\u{9}' <= c && c <= '\u{d}') || c == ' ' || c == '\u{85}' || c == '\u{a0}' || c == '\u{1680}'
        || ('\u{2000}' <= c && c <= '\u{200a}') || c == '\u{2028}' || c == '\u{2029}' || c == '\u{202f}'
        || c == '\u{205f}' || c == '\u{3000}'
}

fn ws(c: char) -> (r: bool)
    ensures
        r == is_ws(c),
{
    ('\u{9}' <= c && c <= '\u{d}') || c == ' ' || c == '\u{85}' || c == '\u{a0}' || c == '\u{1680}'
        || ('\u{2000}' <= c && c <= '\u{200a}') || c == '\u{2028}' || c == '\u{2029}' || c == '\u{202f}'
        || c == '\u{205f}' || c == '\u{3000}'
}

/// `t` split at every `'\n'`, the last piece included even when empty.
pub open spec fn raw_split(t: Seq<char>) -> Seq<Seq<char>>
    decreases t.len(),
{
    if t.len() == 0 {
        seq![Seq::empty()]
    } else {
        let r = raw_split(t.drop_last());
        if t.last() == '\n' {
            r.push(Seq::empty())
        } else {
            r.update(r.len() - 1, r.last().push(t.last()))
        }
    }
}

proof fn lemma_raw_split_len(t: Seq<char>)
    ensures
        raw_split(t).len() >= 1,
    decreases t.len(),
{
    if t.len() > 0 {
        lemma_raw_split_len(t.drop_last());
    }
}

pub open spec fn strip_cr(l: Seq<char>) -> Seq<char> {
    if l.len() > 0 && l.last() == '\r' { l.drop_last() } else { l }
}

/// `str::lines`: pieces ended by `'\n'` lose that and one `'\r'` before it;
/// a last, unterminated piece is kept as it is unless empty.
pub open spec fn text_lines(t: Seq<char>) -> Seq<Seq<char>> {
    let raw = raw_split(t);
    let body = Seq::new((raw.len() - 1) as nat, |i: int| strip_cr(raw[i]));
    if raw.last().len() == 0 { body } else { body.push(raw.last()) }
}

/// First index from `i` on that holds no whitespace (or the length).
pub open spec fn skip_ws(l: Seq<char>, i: int) -> int
    decreases l.len() - i,
{
    if i < 0 || i >= l.len() { l.len() as int } else if is_ws(l[i]) { skip_ws(l, i + 1) } else { i }
}

/// First index from `i` on that holds whitespace (or the length).
pub open spec fn token_end(l: Seq<char>, i: int) -> int
    decreases l.len() - i,
{
    if i < 0 || i >= l.len() { l.len() as int } else if !is_ws(l[i]) { token_end(l, i + 1) } else { i }
}

pub open spec fn starts_with(l: Seq<char>, p: Seq<char>) -> bool {
    l.len() >= p.len() && l.subrange(0, p.len() as int) == p
}

/// The rest of the last line of `ls` that starts with `p`.
pub open spec fn header_value(ls: Seq<Seq<char>>, p: Seq<char>) -> Option<Seq<char>>
    decreases ls.len(),
{
    if ls.len() == 0 {
        None
    } else if starts_with(ls.last(), p) {
        Some(ls.last().subrange(p.len() as int, ls.last().len() as int))
    } else {
        header_value(ls.drop_last(), p)
    }
}

pub open spec fn host_prefix() -> Seq<char> {
    seq!['H', 'o', 's', 't', ':', ' ']
}

pub open spec fn agent_prefix() -> Seq<char> {
    seq!['U', 's', 'e', 'r', '-', 'A', 'g', 'e', 'n', 't', ':', ' ']
}

/// Method, path, host and user agent of a request text: it must start with
/// `GET` or `POST`, its first line must hold two whitespace-separated tokens
/// (method and path), and the host and user agent come from the last
/// `Host: ` and `User-Agent: ` lines after the first.
pub open spec fn request_fields(t: Seq<char>) -> Option<(Seq<char>, Seq<char>, Option<Seq<char>>, Option<Seq<char>>)> {
    if !starts_with(t, seq!['G', 'E', 'T']) && !starts_with(t, seq!['P', 'O', 'S', 'T']) {
        None
    } else {
        let ls = text_lines(t);
        let first = ls[0];
        let a = skip_ws(first, 0);
        let b = token_end(first, a);
        let c = skip_ws(first, b);
        let d = token_end(first, c);
        if ls.len() == 0 || a >= first.len() || c >= first.len() {
            None
        } else {
            let rest = ls.subrange(1, ls.len() as int);
            Some((first.subrange(a, b), first.subrange(c, d), header_value(rest, host_prefix()), header_value(rest, agent_prefix())))
        }
    }
}

/// `r` is what the request in `payload` says, or `None` when it is none.
pub open spec fn http_parsed(r: Option<HttpInfo>, payload: Seq<u8>) -> bool {
    text_parsed(r, lossy_text(payload))
}

pub open spec fn view_opt(o: Option<String>) -> Option<Seq<char>> {
    match o {
        Some(s) => Some(s@),
        None => None,
    }
}

fn strip_cr_vec(l: Vec<char>) -> (r: Vec<char>)
    ensures
        r@ == strip_cr(l@),
{
    let mut l = l;
    if l.len() > 0 && l[l.len() - 1] == '\r' {
        l.pop();
    }
    l
}

/// The lines of `t`, as `str::lines` gives them.
fn split_lines(t: &Vec<char>) -> (r: Vec<Vec<char>>)
    ensures
        r@.len() == text_lines(t@).len(),
        forall|k: int| 0 <= k < r@.len() ==> (#[trigger] r@[k])@ == text_lines(t@)[k],
{
    let mut segs: Vec<Vec<char>> = Vec::new();
    let mut cur: Vec<char> = Vec::new();
    let mut i: usize = 0;
    while i < t.len()
        invariant
            0 <= i <= t@.len(),
            segs@.len() + 1 == raw_split(t@.subrange(0, i as int)).len(),
            forall|k: int| 0 <= k < segs@.len() ==> (#[trigger] segs@[k])@ == raw_split(t@.subrange(0, i as int))[k],
            cur@ == raw_split(t@.subrange(0, i as int)).last(),
        decreases t@.len() - i,
    {
        let c = t[i];
        proof {
            assert(t@.subrange(0, i as int + 1).drop_last() =~= t@.subrange(0, i as int));
            lemma_raw_split_len(t@.subrange(0, i as int));
        }
        if c == '\n' {
            let done = cur;
            segs.push(done);
            cur = Vec::new();
        } else {
            cur.push(c);
        }
        i = i + 1;
    }
    let ghost raw = raw_split(t@);
    assert(t@.subrange(0, t@.len() as int) =~= t@);
    let mut r: Vec<Vec<char>> = Vec::new();
    let n = segs.len();
    let mut k: usize = 0;
    while k < n
        invariant
            n == segs@.len(),
            n + 1 == raw.len(),
            raw == raw_split(t@),
            forall|j: int| 0 <= j < segs@.len() ==> (#[trigger] segs@[j])@ == raw[j],
            0 <= k <= n,
            r@.len() == k,
            forall|j: int| 0 <= j < k ==> (#[trigger] r@[j])@ == strip_cr(raw[j]),
        decreases n - k,
    {
        let seg = copy_chars(&segs[k]);
        r.push(strip_cr_vec(seg));
        k = k + 1;
    }
    if cur.len() > 0 {
        r.push(cur);
    }
    proof {
        let body = Seq::new((raw.len() - 1) as nat, |i: int| strip_cr(raw[i]));
        assert forall|j: int| 0 <= j < r@.len() implies (#[trigger] r@[j])@ == text_lines(t@)[j] by {
            if j < n {
                assert(text_lines(t@)[j] == body[j]);
            }
        }
    }
    r
}

fn copy_chars(v: &Vec<char>) -> (r: Vec<char>)
    ensures
        r@ == v@,
{
    let mut r: Vec<char> = Vec::new();
    let mut i: usize = 0;
    while i < v.len()
        invariant
            0 <= i <= v@.len(),
            r@ == v@.subrange(0, i as int),
        decreases v@.len() - i,
    {
        r.push(v[i]);
        i = i + 1;
    }
    assert(r@ =~= v@);
    r
}

fn slice_chars(v: &Vec<char>, a: usize, b: usize) -> (r: Vec<char>)
    requires
        a <= b <= v@.len(),
    ensures
        r@ == v@.subrange(a as int, b as int),
{
    let mut r: Vec<char> = Vec::new();
    let mut i: usize = a;
    while i < b
        invariant
            a <= i <= b <= v@.len(),
            r@ == v@.subrange(a as int, i as int),
        decreases b - i,
    {
        r.push(v[i]);
        i = i + 1;
    }
    r
}

fn has_prefix(l: &Vec<char>, p: &Vec<char>) -> (r: bool)
    ensures
        r == starts_with(l@, p@),
{
    if l.len() < p.len() {
        return false;
    }
    let mut i: usize = 0;
    while i < p.len()
        invariant
            p@.len() <= l@.len(),
            0 <= i <= p@.len(),
            l@.subrange(0, i as int) == p@.subrange(0, i as int),
        decreases p@.len() - i,
    {
        if l[i] != p[i] {
            assert(l@.subrange(0, p@.len() as int)[i as int] != p@[i as int]);
            return false;
        }
        assert(l@.subrange(0, i as int + 1) =~= p@.subrange(0, i as int + 1));
        i = i + 1;
    }
    assert(p@.subrange(0, p@.len() as int) =~= p@);
    true
}

fn skip_ws_from(l: &Vec<char>, i: usize) -> (r: usize)
    requires
        i <= l@.len(),
    ensures
        r == skip_ws(l@, i as int),
{
    let mut j = i;
    while j < l.len() && ws(l[j])
        invariant
            i <= j <= l@.len(),
            skip_ws(l@, j as int) == skip_ws(l@, i as int),
        decreases l@.len() - j,
    {
        j = j + 1;
    }
    j
}

fn token_end_from(l: &Vec<char>, i: usize) -> (r: usize)
    requires
        i <= l@.len(),
    ensures
        r == token_end(l@, i as int),
        i <= r <= l@.len(),
{
    let mut j = i;
    while j < l.len() && !ws(l[j])
        invariant
            i <= j <= l@.len(),
            token_end(l@, j as int) == token_end(l@, i as int),
        decreases l@.len() - j,
    {
        j = j + 1;
    }
    j
}

proof fn lemma_skip_ws_bounds(l: Seq<char>, i: int)
    requires
        0 <= i <= l.len(),
    ensures
        i <= skip_ws(l, i) <= l.len(),
    decreases l.len() - i,
{
    if i < l.len() && is_ws(l[i]) {
        lemma_skip_ws_bounds(l, i + 1);
    }
}

/// The rest of the last line among `lines[1..]` that starts with `p`.
fn find_header(lines: &Vec<Vec<char>>, p: &Vec<char>) -> (r: Option<Vec<char>>)
    requires
        lines@.len() >= 1,
    ensures
        match r {
            Some(v) => header_value(lines@.map_values(|l: Vec<char>| l@).subrange(1, lines@.len() as int), p@) == Some(v@),
            None => header_value(lines@.map_values(|l: Vec<char>| l@).subrange(1, lines@.len() as int), p@) is None,
        },
{
    let ghost ls = lines@.map_values(|l: Vec<char>| l@);
    let mut found: Option<Vec<char>> = None;
    let mut k: usize = 1;
    while k < lines.len()
        invariant
            1 <= k <= lines@.len(),
            ls == lines@.map_values(|l: Vec<char>| l@),
            match found {
                Some(v) => header_value(ls.subrange(1, k as int), p@) == Some(v@),
                None => header_value(ls.subrange(1, k as int), p@) is None,
            },
        decreases lines@.len() - k,
    {
        assert(ls.subrange(1, k as int + 1).drop_last() =~= ls.subrange(1, k as int));
        assert(ls.subrange(1, k as int + 1).last() == lines@[k as int]@);
        if has_prefix(&lines[k], p) {
            found = Some(slice_chars(&lines[k], p.len(), lines[k].len()));
        }
        k = k + 1;
    }
    found
}

/// Method, path, host and user agent of an HTTP request carried in a TCP
/// payload (decoded as lossy UTF-8); `None` when it is not a `GET` or `POST`
/// request with a method and a path.
pub fn parse_http_request(tcp_payload: &[u8]) -> (r: Option<HttpInfo>)
    ensures
        http_parsed(r, tcp_payload@),
{
    let text = utf8_lossy(tcp_payload);
    parse_http_text(text.as_str())
}

/// `r` is what the request text `t` says, or `None` when it is none.
pub open spec fn text_parsed(r: Option<HttpInfo>, t: Seq<char>) -> bool {
    match request_fields(t) {
        Some((m, p, h, u)) => r is Some && view_opt(r.unwrap().method) == Some(m)
            && view_opt(r.unwrap().path) == Some(p) && view_opt(r.unwrap().host) == h
            && view_opt(r.unwrap().user_agent) == u,
        None => r is None,
    }
}

/// Method, path, host and user agent of an HTTP request text; `None` when
/// it is not a `GET` or `POST` request with a method and a path.
pub fn parse_http_text(text: &str) -> (r: Option<HttpInfo>)
    ensures
        text_parsed(r, text@),
{
    let t = chars_of(text);
    let get = vec!['G', 'E', 'T'];
    let post = vec!['P', 'O', 'S', 'T'];
    assert(get@ == seq!['G', 'E', 'T']);
    assert(post@ == seq!['P', 'O', 'S', 'T']);
    if !has_prefix(&t, &get) && !has_prefix(&t, &post) {
        return None;
    }
    let lines = split_lines(&t);
    let ghost ls = text_lines(t@);
    if lines.len() == 0 {
        return None;
    }
    let first = &lines[0];
    let a = skip_ws_from(first, 0);
    proof { lemma_skip_ws_bounds(first@, 0); }
    if a >= first.len() {
        return None;
    }
    let b = token_end_from(first, a);
    let c = skip_ws_from(first, b);
    proof { lemma_skip_ws_bounds(first@, b as int); }
    if c >= first.len() {
        return None;
    }
    let d = token_end_from(first, c);
    let method = string_of(&slice_chars(first, a, b));
    let path = string_of(&slice_chars(first, c, d));
    let hp = vec!['H', 'o', 's', 't', ':', ' '];
    let up = vec!['U', 's', 'e', 'r', '-', 'A', 'g', 'e', 'n', 't', ':', ' '];
    assert(hp@ == host_prefix());
    assert(up@ == agent_prefix());
    proof {
        assert(lines@.map_values(|l: Vec<char>| l@) =~= ls);
    }
    let host = match find_header(&lines, &hp) {
        Some(v) => Some(string_of(&v)),
        None => None,
    };
    let user_agent = match find_header(&lines, &up) {
        Some(v) => Some(string_of(&v)),
        None => None,
    };
    Some(HttpInfo { method: Some(method), host, path: Some(path), user_agent })
}

} // verus!
