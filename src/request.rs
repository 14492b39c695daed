use vstd::prelude::*;
use vstd::string::{StrSliceExecFns, StringExecFns};
use crate::cli::{
    Args, ArgError, ArgsModel, Flag, HttpMethod, parse_args, args_match, words, flag_index, opt_seq,
};

verus! {

/// Lowest or highest TLS version allowed.
#[derive(Debug, Clone, Copy, PartialEq, Eq)]
pub enum TlsVersion {
    Tls10,
    Tls11,
    Tls12,
    Tls13,
}

/// HTTP version to speak.
#[derive(Debug, Clone, Copy, PartialEq, Eq)]
pub enum HttpVersion {
    Http10,
    Http11,
    Http2,
    Http3,
}

/// Why no request could be made of a command line.
#[derive(Debug, Clone, Copy, PartialEq, Eq)]
pub enum BuildError {
    /// The command line itself was refused.
    Args(ArgError),
    /// The target does not parse as a URL.
    InvalidUrl,
    /// `--tls-max` is none of `1.0`, `1.1`, `1.2`, `1.3`.
    InvalidTlsMax,
    /// The header at this position of the header list has no `:`.
    MalformedHeader { index: usize },
}

/// Whether `s` parses as an absolute URL. It depends on the text alone.
pub uninterp spec fn parses_as_url(s: Seq<char>) -> bool;

/// `s` without leading and trailing whitespace.
pub uninterp spec fn trimmed(s: Seq<char>) -> Seq<char>;

/// Relies on reqwest::Url::parse (the url crate's parser): whether it accepts
/// the text.
#[verifier::external_body]
fn url_parses(s: &str) -> (r: bool)
    ensures
        r == parses_as_url(s@),
{
    reqwest::Url::parse(s).is_ok()
}

/// Relies on str::trim: the text without leading and trailing whitespace.
#[verifier::external_body]
fn trim(s: &str) -> (r: String)
    ensures
        r@ == trimmed(s@),
{
    s.trim().to_string()
}

/// Whether `://` stands at position `i` of `s`.
pub open spec fn sep_at(s: Seq<char>, i: int) -> bool {
    0 <= i && i + 3 <= s.len() && s[i] == ':' && s[i + 1] == '/' && s[i + 2] == '/'
}

/// Whether `s` holds `://`.
pub open spec fn has_scheme_sep(s: Seq<char>) -> bool {
    exists|i: int| #[trigger] sep_at(s, i)
}

/// The target with `http://` put in front when it names no scheme.
pub open spec fn normalized_url(u: Seq<char>) -> Seq<char> {
    if has_scheme_sep(u) {
        u
    } else {
        "http://"@ + u
    }
}

/// Position of the first `:` in `s` at or after `from`, or the length of `s`.
pub open spec fn find_colon(s: Seq<char>, from: int) -> int
    decreases s.len() - from,
{
    if from >= s.len() {
        s.len() as int
    } else if s[from] == ':' {
        from
    } else {
        find_colon(s, from + 1)
    }
}

/// The text before the first `:` of a header line and the text between it
/// and the next `:` (or the end); none without a `:`.
pub open spec fn header_parts(row: Seq<char>) -> Option<(Seq<char>, Seq<char>)> {
    let c1 = find_colon(row, 0);
    if c1 >= row.len() {
        None
    } else {
        let c2 = find_colon(row, c1 + 1);
        Some((row.subrange(0, c1), row.subrange(c1 + 1, c2)))
    }
}

/// The version that a `--tls-max` value names.
pub open spec fn tls_version_named(v: Seq<char>) -> Option<TlsVersion> {
    if v == seq!['1', '.', '0'] {
        Some(TlsVersion::Tls10)
    } else if v == seq!['1', '.', '1'] {
        Some(TlsVersion::Tls11)
    } else if v == seq!['1', '.', '2'] {
        Some(TlsVersion::Tls12)
    } else if v == seq!['1', '.', '3'] {
        Some(TlsVersion::Tls13)
    } else {
        None
    }
}

/// Lowest TLS version: the highest of those asked for.
pub open spec fn min_tls_of(m: ArgsModel) -> Option<TlsVersion> {
    if m.flags[flag_index(Flag::Tlsv13)] {
        Some(TlsVersion::Tls13)
    } else if m.flags[flag_index(Flag::Tlsv12)] {
        Some(TlsVersion::Tls12)
    } else if m.flags[flag_index(Flag::Tlsv11)] {
        Some(TlsVersion::Tls11)
    } else if m.flags[flag_index(Flag::Tlsv1)] || m.flags[flag_index(Flag::Tlsv10)] {
        Some(TlsVersion::Tls10)
    } else {
        None
    }
}

/// HTTP version: the highest of those asked for.
pub open spec fn version_of(m: ArgsModel) -> Option<HttpVersion> {
    if m.flags[flag_index(Flag::Http3)] {
        Some(HttpVersion::Http3)
    } else if m.flags[flag_index(Flag::Http2)] {
        Some(HttpVersion::Http2)
    } else if m.flags[flag_index(Flag::Http11)] {
        Some(HttpVersion::Http11)
    } else if m.flags[flag_index(Flag::Http10)] {
        Some(HttpVersion::Http10)
    } else {
        None
    }
}

/// Position of the first header line without a `:`, or the number of lines.
pub open spec fn first_malformed(rows: Seq<Seq<char>>, from: int) -> int
    decreases rows.len() - from,
{
    if from >= rows.len() {
        rows.len() as int
    } else if header_parts(rows[from]) is None {
        from
    } else {
        first_malformed(rows, from + 1)
    }
}

/// What an already read set of options amounts to, as plain values.
pub open spec fn args_view(a: Args) -> ArgsModel {
    ArgsModel {
        url: Some(a.url@),
        data: opt_seq(a.data),
        user_agent: opt_seq(a.user_agent),
        method: Some(a.method),
        header: a.header@.map_values(|h: String| h@),
        flags: seq![
            a.insecure,
            a.http09,
            a.http10,
            a.http11,
            a.http2,
            a.http3,
            a.tlsv1,
            a.tlsv10,
            a.tlsv11,
            a.tlsv12,
            a.tlsv13,
        ],
        tls_max: opt_seq(a.tls_max),
    }
}

/// Everything needed to issue one request, resolved from a command line.
#[derive(Debug, Clone)]
pub struct WebClient {
    pub url: String,
    pub method: HttpMethod,
    pub user_agent: Option<String>,
    pub insecure: bool,
    pub http09_responses: bool,
    pub min_tls: Option<TlsVersion>,
    pub max_tls: Option<TlsVersion>,
    pub version: Option<HttpVersion>,
    pub body: Option<String>,
    /// `(name, value)` of each extra header, in order.
    pub headers: Vec<(String, String)>,
}

/// `w` is the request that the options `m` describe.
pub open spec fn resolves_to(m: ArgsModel, w: WebClient) -> bool {
    &&& Some(w.url@) == match m.url {
        Some(u) => Some(normalized_url(u)),
        None => None,
    }
    &&& w.method == match m.method {
        Some(x) => x,
        None => HttpMethod::Get,
    }
    &&& opt_seq(w.user_agent) == m.user_agent
    &&& w.insecure == m.flags[flag_index(Flag::Insecure)]
    &&& w.http09_responses == m.flags[flag_index(Flag::Http09)]
    &&& w.min_tls == min_tls_of(m)
    &&& w.max_tls == match m.tls_max {
        Some(v) => tls_version_named(v),
        None => None,
    }
    &&& w.version == version_of(m)
    &&& opt_seq(w.body) == m.data
    &&& w.headers@.len() == m.header.len()
    &&& forall|k: int|
        0 <= k < m.header.len() ==> {
            let p = header_parts(#[trigger] m.header[k])->Some_0;
            w.headers@[k].0@ == trimmed(p.0) && w.headers@[k].1@ == trimmed(p.1)
        }
}

/// Which error, if any, resolving the options `m` meets first.
pub open spec fn resolve_error(m: ArgsModel) -> Option<BuildError> {
    if !parses_as_url(normalized_url(m.url->Some_0)) {
        Some(BuildError::InvalidUrl)
    } else if m.tls_max is Some && tls_version_named(m.tls_max->Some_0) is None {
        Some(BuildError::InvalidTlsMax)
    } else if first_malformed(m.header, 0) < m.header.len() {
        Some(BuildError::MalformedHeader { index: first_malformed(m.header, 0) as usize })
    } else {
        None
    }
}

fn has_scheme_separator(s: &str) -> (r: bool)
    ensures
        r == has_scheme_sep(s@),
{
    let n = s.unicode_len();
    let mut i: usize = 0;
    while n >= 3 && i <= n - 3
        invariant
            n == s@.len(),
            i <= n,
            forall|j: int| j < i ==> !#[trigger] sep_at(s@, j),
        decreases n - i,
    {
        if s.get_char(i) == ':' && s.get_char(i + 1) == '/' && s.get_char(i + 2) == '/' {
            assert(sep_at(s@, i as int));
            return true;
        }
        i = i + 1;
    }
    assert forall|j: int| !#[trigger] sep_at(s@, j) by {
        if j >= i {
            assert(j + 3 > n);
        }
    }
    false
}

fn find_colon_from(s: &str, from: usize) -> (r: usize)
    requires
        from <= s@.len(),
    ensures
        r == find_colon(s@, from as int),
        from <= r <= s@.len(),
{
    let n = s.unicode_len();
    let mut k = from;
    while k < n && s.get_char(k) != ':'
        invariant
            n == s@.len(),
            from <= k <= n,
            find_colon(s@, from as int) == find_colon(s@, k as int),
        decreases n - k,
    {
        k = k + 1;
    }
    k
}

/// The target with `http://` put in front when it names no scheme.
pub fn normalize_url(u: &str) -> (r: String)
    ensures
        r@ == normalized_url(u@),
{
    if has_scheme_separator(u) {
        u.to_owned()
    } else {
        String::from_str("http://").concat(u)
    }
}

/// The version that a `--tls-max` value names, if any.
pub fn parse_tls_version(v: &str) -> (r: Option<TlsVersion>)
    ensures
        r == tls_version_named(v@),
{
    if v.unicode_len() != 3 || v.get_char(0) != '1' || v.get_char(1) != '.' {
        assert(v@ != seq!['1', '.', '0'] && v@ != seq!['1', '.', '1'] && v@ != seq!['1', '.', '2']
            && v@ != seq!['1', '.', '3']);
        return None;
    }
    let c = v.get_char(2);
    if c == '0' {
        assert(v@ =~= seq!['1', '.', '0']);
        Some(TlsVersion::Tls10)
    } else if c == '1' {
        assert(v@ =~= seq!['1', '.', '1']);
        Some(TlsVersion::Tls11)
    } else if c == '2' {
        assert(v@ =~= seq!['1', '.', '2']);
        Some(TlsVersion::Tls12)
    } else if c == '3' {
        assert(v@ =~= seq!['1', '.', '3']);
        Some(TlsVersion::Tls13)
    } else {
        assert(v@ != seq!['1', '.', '0'] && v@ != seq!['1', '.', '1'] && v@ != seq!['1', '.', '2']
            && v@ != seq!['1', '.', '3']);
        None
    }
}

/// Splits a header line into its trimmed name and value; none without a `:`.
pub fn split_header(row: &str) -> (r: Option<(String, String)>)
    ensures
        header_parts(row@) is None ==> r is None,
        header_parts(row@) is Some ==> r is Some && r->Some_0.0@ == trimmed(
            header_parts(row@)->Some_0.0,
        ) && r->Some_0.1@ == trimmed(header_parts(row@)->Some_0.1),
{
    let n = row.unicode_len();
    let c1 = find_colon_from(row, 0);
    if c1 >= n {
        return None;
    }
    let c2 = find_colon_from(row, c1 + 1);
    let name = trim(row.substring_char(0, c1));
    let value = trim(row.substring_char(c1 + 1, c2));
    Some((name, value))
}

impl WebClient {
    /// Resolves read options into the request they describe.
    pub fn from_args(a: &Args) -> (r: Result<WebClient, BuildError>)
        ensures
            match resolve_error(args_view(*a)) {
                Some(e) => r == Err::<WebClient, BuildError>(e),
                None => r is Ok && resolves_to(args_view(*a), r->Ok_0),
            },
    {
        let ghost m = args_view(*a);
        let url = normalize_url(a.url.as_str());
        if !url_parses(url.as_str()) {
            return Err(BuildError::InvalidUrl);
        }
        let max_tls = match &a.tls_max {
            Some(v) => match parse_tls_version(v.as_str()) {
                Some(t) => Some(t),
                None => {
                    return Err(BuildError::InvalidTlsMax);
                },
            },
            None => None,
        };
        let mut headers: Vec<(String, String)> = Vec::new();
        let mut k: usize = 0;
        while k < a.header.len()
            invariant
                m == args_view(*a),
                k <= a.header@.len(),
                url@ == normalized_url(m.url->Some_0),
                parses_as_url(normalized_url(m.url->Some_0)),
                max_tls == match m.tls_max {
                    Some(v) => tls_version_named(v),
                    None => None,
                },
                !(m.tls_max is Some && tls_version_named(m.tls_max->Some_0) is None),
                first_malformed(m.header, 0) == first_malformed(m.header, k as int),
                headers@.len() == k,
                forall|j: int|
                    0 <= j < k ==> {
                        let p = header_parts(#[trigger] m.header[j])->Some_0;
                        header_parts(m.header[j]) is Some && headers@[j].0@ == trimmed(p.0)
                            && headers@[j].1@ == trimmed(p.1)
                    },
            decreases a.header@.len() - k,
        {
            match split_header(a.header[k].as_str()) {
                Some(h) => {
                    headers.push(h);
                },
                None => {
                    assert(m.header[k as int] == a.header@[k as int]@);
                    assert(header_parts(m.header[k as int]) is None);
                    assert(first_malformed(m.header, k as int) == k);
                    assert(k < m.header.len());
                    return Err(BuildError::MalformedHeader { index: k });
                },
            }
            k = k + 1;
        }
        let min_tls = if a.tlsv13 {
            Some(TlsVersion::Tls13)
        } else if a.tlsv12 {
            Some(TlsVersion::Tls12)
        } else if a.tlsv11 {
            Some(TlsVersion::Tls11)
        } else if a.tlsv1 || a.tlsv10 {
            Some(TlsVersion::Tls10)
        } else {
            None
        };
        let version = if a.http3 {
            Some(HttpVersion::Http3)
        } else if a.http2 {
            Some(HttpVersion::Http2)
        } else if a.http11 {
            Some(HttpVersion::Http11)
        } else if a.http10 {
            Some(HttpVersion::Http10)
        } else {
            None
        };
        Ok(WebClient {
            url,
            method: a.method,
            user_agent: a.user_agent.clone(),
            insecure: a.insecure,
            http09_responses: a.http09,
            min_tls,
            max_tls,
            version,
            body: a.data.clone(),
            headers,
        })
    }

    /// Reads a curl-style command line, whose first word is the program name,
    /// into the request it describes.
    pub fn build(args: &Vec<String>) -> (r: Result<WebClient, BuildError>)
        ensures
            match parse_args(words(args@)) {
                Err(e) => r == Err::<WebClient, BuildError>(BuildError::Args(e)),
                Ok(m) => match resolve_error(m) {
                    Some(e) => r == Err::<WebClient, BuildError>(e),
                    None => r is Ok && resolves_to(m, r->Ok_0),
                },
            },
    {
        match Args::try_parse_from(args) {
            Err(e) => Err(BuildError::Args(e)),
            Ok(a) => {
                let r = WebClient::from_args(&a);
                proof {
                    lemma_resolve_same(a, parse_args(words(args@))->Ok_0);
                }
                r
            },
        }
    }
}

/// Options read from a command line resolve as the command line's reading
/// does.
proof fn lemma_resolve_same(a: Args, m: ArgsModel)
    requires
        args_match(a, m),
    ensures
        resolve_error(args_view(a)) == resolve_error(m),
        forall|w: WebClient| resolves_to(args_view(a), w) <==> resolves_to(m, w),
{
    let v = args_view(a);
    assert(v.header == m.header);
    assert(v.url == m.url);
    assert(v.tls_max == m.tls_max);
    assert(v.data == m.data);
    assert(v.user_agent == m.user_agent);
}

} // verus!
