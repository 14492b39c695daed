use vstd::prelude::*;
use vstd::string::StrSliceExecFns;

verus! {

/// Request methods that can be asked for with `-X` / `--request`.
#[derive(Debug, Clone, Copy, PartialEq, Eq, PartialOrd, Ord, Hash)]
pub enum HttpMethod {
    Options,
    Get,
    Post,
    Put,
    Delete,
    Head,
    Trace,
    Connect,
    Patch,
}

/// Options that take a value.
#[derive(Debug, Clone, Copy, PartialEq, Eq)]
pub enum ValueOpt {
    Data,
    UserAgent,
    Request,
    Header,
    TlsMax,
}

/// Options that are switched on by their presence.
#[derive(Debug, Clone, Copy, PartialEq, Eq)]
pub enum Flag {
    Insecure,
    Http09,
    Http10,
    Http11,
    Http2,
    Http3,
    Tlsv1,
    Tlsv10,
    Tlsv11,
    Tlsv12,
    Tlsv13,
}

/// Number of switches.
pub const FLAG_COUNT: usize = 11;

/// Why a command line was refused. `index` is the position of the offending
/// word, the program name being at `0`.
#[derive(Debug, Clone, Copy, PartialEq, Eq)]
pub enum ArgError {
    /// The word names no option.
    UnknownArgument { index: usize },
    /// The option at `index` ends the command line without its value.
    MissingValue { index: usize },
    /// The value is not one that the option accepts.
    InvalidValue { index: usize },
    /// The option was already given.
    Repeated { index: usize },
    /// A second target was given.
    UnexpectedPositional { index: usize },
    /// No target was given.
    MissingUrl,
    /// Help was asked for.
    HelpRequested,
}

pub open spec fn flag_index(f: Flag) -> int {
    match f {
        Flag::Insecure => 0,
        Flag::Http09 => 1,
        Flag::Http10 => 2,
        Flag::Http11 => 3,
        Flag::Http2 => 4,
        Flag::Http3 => 5,
        Flag::Tlsv1 => 6,
        Flag::Tlsv10 => 7,
        Flag::Tlsv11 => 8,
        Flag::Tlsv12 => 9,
        Flag::Tlsv13 => 10,
    }
}

pub open spec fn long_value_opt(name: Seq<char>) -> Option<ValueOpt> {
    if name == "data"@ {
        Some(ValueOpt::Data)
    } else if name == "user-agent"@ {
        Some(ValueOpt::UserAgent)
    } else if name == "request"@ {
        Some(ValueOpt::Request)
    } else if name == "header"@ {
        Some(ValueOpt::Header)
    } else if name == "tls-max"@ {
        Some(ValueOpt::TlsMax)
    } else {
        None
    }
}

pub open spec fn long_flag(name: Seq<char>) -> Option<Flag> {
    if name == "insecure"@ {
        Some(Flag::Insecure)
    } else if name == "http0.9"@ {
        Some(Flag::Http09)
    } else if name == "http1.0"@ {
        Some(Flag::Http10)
    } else if name == "http1.1"@ {
        Some(Flag::Http11)
    } else if name == "http2"@ {
        Some(Flag::Http2)
    } else if name == "http3"@ {
        Some(Flag::Http3)
    } else if name == "tlsv1"@ {
        Some(Flag::Tlsv1)
    } else if name == "tlsv1.0"@ {
        Some(Flag::Tlsv10)
    } else if name == "tlsv1.1"@ {
        Some(Flag::Tlsv11)
    } else if name == "tlsv1.2"@ {
        Some(Flag::Tlsv12)
    } else if name == "tlsv1.3"@ {
        Some(Flag::Tlsv13)
    } else {
        None
    }
}

pub open spec fn short_value_opt(c: char) -> Option<ValueOpt> {
    if c == 'd' {
        Some(ValueOpt::Data)
    } else if c == 'A' {
        Some(ValueOpt::UserAgent)
    } else if c == 'X' {
        Some(ValueOpt::Request)
    } else if c == 'H' {
        Some(ValueOpt::Header)
    } else {
        None
    }
}

pub open spec fn short_flag(c: char) -> Option<Flag> {
    if c == 'k' {
        Some(Flag::Insecure)
    } else if c == '0' {
        Some(Flag::Http10)
    } else if c == '1' {
        Some(Flag::Tlsv1)
    } else {
        None
    }
}

/// The method that a `--request` value names.
pub open spec fn method_named(v: Seq<char>) -> Option<HttpMethod> {
    if v == "options"@ {
        Some(HttpMethod::Options)
    } else if v == "get"@ {
        Some(HttpMethod::Get)
    } else if v == "post"@ {
        Some(HttpMethod::Post)
    } else if v == "put"@ {
        Some(HttpMethod::Put)
    } else if v == "delete"@ {
        Some(HttpMethod::Delete)
    } else if v == "head"@ {
        Some(HttpMethod::Head)
    } else if v == "trace"@ {
        Some(HttpMethod::Trace)
    } else if v == "connect"@ {
        Some(HttpMethod::Connect)
    } else if v == "patch"@ {
        Some(HttpMethod::Patch)
    } else {
        None
    }
}

/// What has been read of a command line so far.
pub struct ArgsModel {
    pub url: Option<Seq<char>>,
    pub data: Option<Seq<char>>,
    pub user_agent: Option<Seq<char>>,
    pub method: Option<HttpMethod>,
    pub header: Seq<Seq<char>>,
    pub flags: Seq<bool>,
    pub tls_max: Option<Seq<char>>,
}

/// The reader's state between two words.
pub struct ParseState {
    pub model: ArgsModel,
    /// An option whose value is the next word.
    pub pending: Option<ValueOpt>,
    /// Set after `--`: every later word is a target.
    pub only_positional: bool,
}

pub open spec fn initial_state() -> ParseState {
    ParseState {
        model: ArgsModel {
            url: None,
            data: None,
            user_agent: None,
            method: None,
            header: Seq::empty(),
            flags: Seq::new(FLAG_COUNT as nat, |i: int| false),
            tls_max: None,
        },
        pending: None,
        only_positional: false,
    }
}

pub open spec fn is_set(m: ArgsModel, o: ValueOpt) -> bool {
    match o {
        ValueOpt::Data => m.data is Some,
        ValueOpt::UserAgent => m.user_agent is Some,
        ValueOpt::Request => m.method is Some,
        ValueOpt::Header => false,
        ValueOpt::TlsMax => m.tls_max is Some,
    }
}

pub open spec fn set_value(m: ArgsModel, o: ValueOpt, v: Seq<char>, i: int) -> Result<
    ArgsModel,
    ArgError,
> {
    match o {
        ValueOpt::Data => Ok(ArgsModel { data: Some(v), ..m }),
        ValueOpt::UserAgent => Ok(ArgsModel { user_agent: Some(v), ..m }),
        ValueOpt::Request => match method_named(v) {
            Some(x) => Ok(ArgsModel { method: Some(x), ..m }),
            None => Err(ArgError::InvalidValue { index: i as usize }),
        },
        ValueOpt::Header => Ok(ArgsModel { header: m.header.push(v), ..m }),
        ValueOpt::TlsMax => Ok(ArgsModel { tls_max: Some(v), ..m }),
    }
}

pub open spec fn take_option(st: ParseState, o: ValueOpt, inline: Option<Seq<char>>, i: int) -> Result<
    ParseState,
    ArgError,
> {
    if is_set(st.model, o) {
        Err(ArgError::Repeated { index: i as usize })
    } else {
        match inline {
            Some(v) => match set_value(st.model, o, v, i) {
                Ok(m) => Ok(ParseState { model: m, ..st }),
                Err(e) => Err(e),
            },
            None => Ok(ParseState { pending: Some(o), ..st }),
        }
    }
}

pub open spec fn take_flag(st: ParseState, f: Flag, i: int) -> Result<ParseState, ArgError> {
    if st.model.flags[flag_index(f)] {
        Err(ArgError::Repeated { index: i as usize })
    } else {
        Ok(
            ParseState {
                model: ArgsModel { flags: st.model.flags.update(flag_index(f), true), ..st.model },
                ..st
            },
        )
    }
}

/// Position of the first `=` in `s` at or after `from`, or the length of `s`.
pub open spec fn find_eq(s: Seq<char>, from: int) -> int
    decreases s.len() - from,
{
    if from >= s.len() {
        s.len() as int
    } else if s[from] == '=' {
        from
    } else {
        find_eq(s, from + 1)
    }
}

/// Reads `--name` or `--name=value` at position `i`.
pub open spec fn long_step(st: ParseState, tok: Seq<char>, i: int) -> Result<ParseState, ArgError> {
    let e = find_eq(tok, 2);
    let name = tok.subrange(2, e);
    let inline = if e < tok.len() {
        Some(tok.subrange(e + 1, tok.len() as int))
    } else {
        None
    };
    if name == "help"@ {
        Err(ArgError::HelpRequested)
    } else {
        match long_value_opt(name) {
            Some(o) => take_option(st, o, inline, i),
            None => match long_flag(name) {
                Some(f) => if inline is Some {
                    Err(ArgError::InvalidValue { index: i as usize })
                } else {
                    take_flag(st, f, i)
                },
                None => Err(ArgError::UnknownArgument { index: i as usize }),
            },
        }
    }
}

/// Reads `-c` or `-cvalue` at position `i`.
pub open spec fn short_step(st: ParseState, tok: Seq<char>, i: int) -> Result<ParseState, ArgError> {
    let c = tok[1];
    let rest = tok.subrange(2, tok.len() as int);
    if c == 'h' {
        Err(ArgError::HelpRequested)
    } else {
        match short_value_opt(c) {
            Some(o) => take_option(
                st,
                o,
                if rest.len() > 0 {
                    Some(rest)
                } else {
                    None
                },
                i,
            ),
            None => match short_flag(c) {
                Some(f) => if rest.len() > 0 {
                    Err(ArgError::UnknownArgument { index: i as usize })
                } else {
                    take_flag(st, f, i)
                },
                None => Err(ArgError::UnknownArgument { index: i as usize }),
            },
        }
    }
}

/// Reads the word `tok` at position `i`.
pub open spec fn parse_step(st: ParseState, tok: Seq<char>, i: int) -> Result<ParseState, ArgError> {
    match st.pending {
        Some(o) => match set_value(st.model, o, tok, i) {
            Ok(m) => Ok(ParseState { model: m, pending: None, ..st }),
            Err(e) => Err(e),
        },
        None => if st.only_positional || tok.len() <= 1 || tok[0] != '-' {
            if st.model.url is Some {
                Err(ArgError::UnexpectedPositional { index: i as usize })
            } else {
                Ok(ParseState { model: ArgsModel { url: Some(tok), ..st.model }, ..st })
            }
        } else if tok[1] == '-' {
            if tok.len() == 2 {
                Ok(ParseState { only_positional: true, ..st })
            } else {
                long_step(st, tok, i)
            }
        } else {
            short_step(st, tok, i)
        },
    }
}

/// The end of the command line after `n` words.
pub open spec fn finish(st: ParseState, n: int) -> Result<ArgsModel, ArgError> {
    if st.pending is Some {
        Err(ArgError::MissingValue { index: (n - 1) as usize })
    } else if st.model.url is None {
        Err(ArgError::MissingUrl)
    } else {
        Ok(st.model)
    }
}

pub open spec fn parse_from(toks: Seq<Seq<char>>, i: int, st: ParseState) -> Result<
    ArgsModel,
    ArgError,
>
    decreases toks.len() - i,
{
    if i >= toks.len() {
        finish(st, toks.len() as int)
    } else {
        match parse_step(st, toks[i], i) {
            Ok(s) => parse_from(toks, i + 1, s),
            Err(e) => Err(e),
        }
    }
}

/// What a command line reads as; its first word is the program name.
pub open spec fn parse_args(toks: Seq<Seq<char>>) -> Result<ArgsModel, ArgError> {
    parse_from(toks, 1, initial_state())
}

/// Whether two texts are the same.
pub fn same_text(a: &str, b: &str) -> (r: bool)
    ensures
        r == (a@ == b@),
{
    let n = a.unicode_len();
    if n != b.unicode_len() {
        return false;
    }
    let mut i: usize = 0;
    while i < n
        invariant
            n == a@.len(),
            n == b@.len(),
            i <= n,
            forall|j: int| 0 <= j < i ==> a@[j] == b@[j],
        decreases n - i,
    {
        if a.get_char(i) != b.get_char(i) {
            return false;
        }
        i = i + 1;
    }
    assert(a@ =~= b@);
    true
}

impl Flag {
    pub fn index(&self) -> (r: usize)
        ensures
            r == flag_index(*self),
            r < FLAG_COUNT,
    {
        match self {
            Flag::Insecure => 0,
            Flag::Http09 => 1,
            Flag::Http10 => 2,
            Flag::Http11 => 3,
            Flag::Http2 => 4,
            Flag::Http3 => 5,
            Flag::Tlsv1 => 6,
            Flag::Tlsv10 => 7,
            Flag::Tlsv11 => 8,
            Flag::Tlsv12 => 9,
            Flag::Tlsv13 => 10,
        }
    }
}

fn lookup_long_value_opt(name: &str) -> (r: Option<ValueOpt>)
    ensures
        r == long_value_opt(name@),
{
    if same_text(name, "data") {
        Some(ValueOpt::Data)
    } else if same_text(name, "user-agent") {
        Some(ValueOpt::UserAgent)
    } else if same_text(name, "request") {
        Some(ValueOpt::Request)
    } else if same_text(name, "header") {
        Some(ValueOpt::Header)
    } else if same_text(name, "tls-max") {
        Some(ValueOpt::TlsMax)
    } else {
        None
    }
}

fn lookup_long_flag(name: &str) -> (r: Option<Flag>)
    ensures
        r == long_flag(name@),
{
    if same_text(name, "insecure") {
        Some(Flag::Insecure)
    } else if same_text(name, "http0.9") {
        Some(Flag::Http09)
    } else if same_text(name, "http1.0") {
        Some(Flag::Http10)
    } else if same_text(name, "http1.1") {
        Some(Flag::Http11)
    } else if same_text(name, "http2") {
        Some(Flag::Http2)
    } else if same_text(name, "http3") {
        Some(Flag::Http3)
    } else if same_text(name, "tlsv1") {
        Some(Flag::Tlsv1)
    } else if same_text(name, "tlsv1.0") {
        Some(Flag::Tlsv10)
    } else if same_text(name, "tlsv1.1") {
        Some(Flag::Tlsv11)
    } else if same_text(name, "tlsv1.2") {
        Some(Flag::Tlsv12)
    } else if same_text(name, "tlsv1.3") {
        Some(Flag::Tlsv13)
    } else {
        None
    }
}

fn lookup_short_value_opt(c: char) -> (r: Option<ValueOpt>)
    ensures
        r == short_value_opt(c),
{
    if c == 'd' {
        Some(ValueOpt::Data)
    } else if c == 'A' {
        Some(ValueOpt::UserAgent)
    } else if c == 'X' {
        Some(ValueOpt::Request)
    } else if c == 'H' {
        Some(ValueOpt::Header)
    } else {
        None
    }
}

fn lookup_short_flag(c: char) -> (r: Option<Flag>)
    ensures
        r == short_flag(c),
{
    if c == 'k' {
        Some(Flag::Insecure)
    } else if c == '0' {
        Some(Flag::Http10)
    } else if c == '1' {
        Some(Flag::Tlsv1)
    } else {
        None
    }
}

impl HttpMethod {
    /// The method that a `--request` value names: its name in lower case.
    pub fn from_name(v: &str) -> (r: Option<HttpMethod>)
        ensures
            r == method_named(v@),
    {
        if same_text(v, "options") {
            Some(HttpMethod::Options)
        } else if same_text(v, "get") {
            Some(HttpMethod::Get)
        } else if same_text(v, "post") {
            Some(HttpMethod::Post)
        } else if same_text(v, "put") {
            Some(HttpMethod::Put)
        } else if same_text(v, "delete") {
            Some(HttpMethod::Delete)
        } else if same_text(v, "head") {
            Some(HttpMethod::Head)
        } else if same_text(v, "trace") {
            Some(HttpMethod::Trace)
        } else if same_text(v, "connect") {
            Some(HttpMethod::Connect)
        } else if same_text(v, "patch") {
            Some(HttpMethod::Patch)
        } else {
            None
        }
    }
}

fn find_eq_from(tok: &str, from: usize) -> (r: usize)
    requires
        from <= tok@.len(),
    ensures
        r == find_eq(tok@, from as int),
        from <= r <= tok@.len(),
{
    let n = tok.unicode_len();
    let mut k = from;
    while k < n && tok.get_char(k) != '='
        invariant
            n == tok@.len(),
            from <= k <= n,
            find_eq(tok@, from as int) == find_eq(tok@, k as int),
        decreases n - k,
    {
        k = k + 1;
    }
    k
}

/// A command line being read.
pub struct ArgParser {
    pub url: Option<String>,
    pub data: Option<String>,
    pub user_agent: Option<String>,
    pub method: Option<HttpMethod>,
    pub header: Vec<String>,
    pub flags: Vec<bool>,
    pub tls_max: Option<String>,
    pub pending: Option<ValueOpt>,
    pub only_positional: bool,
}

pub open spec fn opt_seq(o: Option<String>) -> Option<Seq<char>> {
    match o {
        Some(s) => Some(s@),
        None => None,
    }
}

impl ArgParser {
    pub open spec fn model(&self) -> ArgsModel {
        ArgsModel {
            url: opt_seq(self.url),
            data: opt_seq(self.data),
            user_agent: opt_seq(self.user_agent),
            method: self.method,
            header: self.header@.map_values(|h: String| h@),
            flags: self.flags@,
            tls_max: opt_seq(self.tls_max),
        }
    }

    pub open spec fn state(&self) -> ParseState {
        ParseState { model: self.model(), pending: self.pending, only_positional: self.only_positional }
    }

    pub fn new() -> (r: ArgParser)
        ensures
            r.state() == initial_state(),
    {
        let mut flags: Vec<bool> = Vec::new();
        let mut k: usize = 0;
        while k < FLAG_COUNT
            invariant
                k <= FLAG_COUNT,
                flags@.len() == k,
                forall|j: int| 0 <= j < k ==> !flags@[j],
            decreases FLAG_COUNT - k,
        {
            flags.push(false);
            k = k + 1;
        }
        let r = ArgParser {
            url: None,
            data: None,
            user_agent: None,
            method: None,
            header: Vec::new(),
            flags,
            tls_max: None,
            pending: None,
            only_positional: false,
        };
        assert(r.model().header =~= Seq::<Seq<char>>::empty());
        assert(r.model().flags =~= initial_state().model.flags);
        r
    }

    fn is_set(&self, o: ValueOpt) -> (r: bool)
        ensures
            r == is_set(self.model(), o),
    {
        match o {
            ValueOpt::Data => self.data.is_some(),
            ValueOpt::UserAgent => self.user_agent.is_some(),
            ValueOpt::Request => self.method.is_some(),
            ValueOpt::Header => false,
            ValueOpt::TlsMax => self.tls_max.is_some(),
        }
    }

    fn set_value(&mut self, o: ValueOpt, v: &str, i: usize) -> (r: Result<(), ArgError>)
        ensures
            match set_value(old(self).model(), o, v@, i as int) {
                Ok(m) => r is Ok && final(self).model() == m,
                Err(e) => r == Err::<(), ArgError>(e),
            },
            final(self).pending == old(self).pending,
            final(self).only_positional == old(self).only_positional,
            final(self).flags == old(self).flags,
    {
        match o {
            ValueOpt::Data => {
                self.data = Some(v.to_owned());
            },
            ValueOpt::UserAgent => {
                self.user_agent = Some(v.to_owned());
            },
            ValueOpt::Request => {
                match HttpMethod::from_name(v) {
                    Some(x) => {
                        self.method = Some(x);
                    },
                    None => {
                        return Err(ArgError::InvalidValue { index: i });
                    },
                }
            },
            ValueOpt::Header => {
                let ghost before = self.header@;
                self.header.push(v.to_owned());
                assert(self.header@.map_values(|h: String| h@) =~= before.map_values(
                    |h: String| h@,
                ).push(v@));
            },
            ValueOpt::TlsMax => {
                self.tls_max = Some(v.to_owned());
            },
        }
        Ok(())
    }

    fn take_option(&mut self, o: ValueOpt, inline: Option<&str>, i: usize) -> (r: Result<(), ArgError>)
        ensures
            match take_option(
                old(self).state(),
                o,
                match inline {
                    Some(v) => Some(v@),
                    None => None,
                },
                i as int,
            ) {
                Ok(s) => r is Ok && final(self).state() == s,
                Err(e) => r == Err::<(), ArgError>(e),
            },
            final(self).flags == old(self).flags,
    {
        if self.is_set(o) {
            return Err(ArgError::Repeated { index: i });
        }
        match inline {
            Some(v) => self.set_value(o, v, i),
            None => {
                self.pending = Some(o);
                Ok(())
            },
        }
    }

    fn take_flag(&mut self, f: Flag, i: usize) -> (r: Result<(), ArgError>)
        requires
            old(self).flags@.len() == FLAG_COUNT,
        ensures
            match take_flag(old(self).state(), f, i as int) {
                Ok(s) => r is Ok && final(self).state() == s,
                Err(e) => r == Err::<(), ArgError>(e),
            },
            final(self).flags@.len() == FLAG_COUNT,
    {
        let k = f.index();
        if self.flags[k] {
            return Err(ArgError::Repeated { index: i });
        }
        self.flags[k] = true;
        Ok(())
    }

    fn long_step(&mut self, tok: &str, i: usize) -> (r: Result<(), ArgError>)
        requires
            old(self).flags@.len() == FLAG_COUNT,
            tok@.len() > 2,
        ensures
            match long_step(old(self).state(), tok@, i as int) {
                Ok(s) => r is Ok && final(self).state() == s,
                Err(e) => r == Err::<(), ArgError>(e),
            },
            final(self).flags@.len() == FLAG_COUNT,
    {
        let n = tok.unicode_len();
        let e = find_eq_from(tok, 2);
        let name = tok.substring_char(2, e);
        let inline = if e < n {
            Some(tok.substring_char(e + 1, n))
        } else {
            None
        };
        if same_text(name, "help") {
            return Err(ArgError::HelpRequested);
        }
        match lookup_long_value_opt(name) {
            Some(o) => self.take_option(o, inline, i),
            None => match lookup_long_flag(name) {
                Some(f) => {
                    if inline.is_some() {
                        Err(ArgError::InvalidValue { index: i })
                    } else {
                        self.take_flag(f, i)
                    }
                },
                None => Err(ArgError::UnknownArgument { index: i }),
            },
        }
    }

    fn short_step(&mut self, tok: &str, i: usize) -> (r: Result<(), ArgError>)
        requires
            old(self).flags@.len() == FLAG_COUNT,
            tok@.len() > 1,
        ensures
            match short_step(old(self).state(), tok@, i as int) {
                Ok(s) => r is Ok && final(self).state() == s,
                Err(e) => r == Err::<(), ArgError>(e),
            },
            final(self).flags@.len() == FLAG_COUNT,
    {
        let n = tok.unicode_len();
        let c = tok.get_char(1);
        let rest = tok.substring_char(2, n);
        if c == 'h' {
            return Err(ArgError::HelpRequested);
        }
        match lookup_short_value_opt(c) {
            Some(o) => {
                let inline = if n > 2 {
                    Some(rest)
                } else {
                    None
                };
                self.take_option(o, inline, i)
            },
            None => match lookup_short_flag(c) {
                Some(f) => {
                    if n > 2 {
                        Err(ArgError::UnknownArgument { index: i })
                    } else {
                        self.take_flag(f, i)
                    }
                },
                None => Err(ArgError::UnknownArgument { index: i }),
            },
        }
    }

    /// Reads the word `tok` at position `i` of the command line.
    pub fn step(&mut self, tok: &str, i: usize) -> (r: Result<(), ArgError>)
        requires
            old(self).flags@.len() == FLAG_COUNT,
        ensures
            match parse_step(old(self).state(), tok@, i as int) {
                Ok(s) => r is Ok && final(self).state() == s,
                Err(e) => r == Err::<(), ArgError>(e),
            },
            final(self).flags@.len() == FLAG_COUNT,
    {
        match self.pending {
            Some(o) => {
                let res = self.set_value(o, tok, i);
                if res.is_ok() {
                    self.pending = None;
                }
                res
            },
            None => {
                let n = tok.unicode_len();
                if self.only_positional || n <= 1 || tok.get_char(0) != '-' {
                    if self.url.is_some() {
                        Err(ArgError::UnexpectedPositional { index: i })
                    } else {
                        self.url = Some(tok.to_owned());
                        Ok(())
                    }
                } else if tok.get_char(1) == '-' {
                    if n == 2 {
                        self.only_positional = true;
                        Ok(())
                    } else {
                        self.long_step(tok, i)
                    }
                } else {
                    self.short_step(tok, i)
                }
            },
        }
    }
}

/// The options of one request, as given on a curl-style command line.
#[derive(Debug, Clone)]
pub struct Args {
    /// Target of the request.
    pub url: String,
    /// Body to send (`-d`, `--data`).
    pub data: Option<String>,
    /// User agent to send (`-A`, `--user-agent`).
    pub user_agent: Option<String>,
    /// Request method (`-X`, `--request`); `Get` when not given.
    pub method: HttpMethod,
    /// Extra headers, `name: value` each (`-H`, `--header`).
    pub header: Vec<String>,
    /// Accept invalid certificates (`-k`, `--insecure`).
    pub insecure: bool,
    /// Accept HTTP/0.9 responses (`--http0.9`).
    pub http09: bool,
    /// Use HTTP/1.0 (`-0`, `--http1.0`).
    pub http10: bool,
    /// Use HTTP/1.1 (`--http1.1`).
    pub http11: bool,
    /// Use HTTP/2 (`--http2`).
    pub http2: bool,
    /// Use HTTP/3 (`--http3`).
    pub http3: bool,
    /// TLS 1.0 or later (`-1`, `--tlsv1`).
    pub tlsv1: bool,
    /// TLS 1.0 or later (`--tlsv1.0`).
    pub tlsv10: bool,
    /// TLS 1.1 or later (`--tlsv1.1`).
    pub tlsv11: bool,
    /// TLS 1.2 or later (`--tlsv1.2`).
    pub tlsv12: bool,
    /// TLS 1.3 or later (`--tlsv1.3`).
    pub tlsv13: bool,
    /// Highest TLS version allowed (`--tls-max`), as given.
    pub tls_max: Option<String>,
}

/// `a` holds what the command line read as `m`.
pub open spec fn args_match(a: Args, m: ArgsModel) -> bool {
    &&& m.url == Some(a.url@)
    &&& m.data == opt_seq(a.data)
    &&& m.user_agent == opt_seq(a.user_agent)
    &&& a.method == match m.method {
        Some(x) => x,
        None => HttpMethod::Get,
    }
    &&& a.header@.map_values(|h: String| h@) == m.header
    &&& a.insecure == m.flags[flag_index(Flag::Insecure)]
    &&& a.http09 == m.flags[flag_index(Flag::Http09)]
    &&& a.http10 == m.flags[flag_index(Flag::Http10)]
    &&& a.http11 == m.flags[flag_index(Flag::Http11)]
    &&& a.http2 == m.flags[flag_index(Flag::Http2)]
    &&& a.http3 == m.flags[flag_index(Flag::Http3)]
    &&& a.tlsv1 == m.flags[flag_index(Flag::Tlsv1)]
    &&& a.tlsv10 == m.flags[flag_index(Flag::Tlsv10)]
    &&& a.tlsv11 == m.flags[flag_index(Flag::Tlsv11)]
    &&& a.tlsv12 == m.flags[flag_index(Flag::Tlsv12)]
    &&& a.tlsv13 == m.flags[flag_index(Flag::Tlsv13)]
    &&& m.tls_max == opt_seq(a.tls_max)
}

pub open spec fn words(args: Seq<String>) -> Seq<Seq<char>> {
    args.map_values(|s: String| s@)
}

impl Args {
    /// Reads a command line whose first word is the program name.
    pub fn try_parse_from(args: &Vec<String>) -> (r: Result<Args, ArgError>)
        ensures
            match parse_args(words(args@)) {
                Ok(m) => r is Ok && args_match(r->Ok_0, m),
                Err(e) => r == Err::<Args, ArgError>(e),
            },
    {
        let ghost toks = words(args@);
        let mut p = ArgParser::new();
        let mut i: usize = 1;
        while i < args.len()
            invariant
                toks == words(args@),
                1 <= i,
                i <= args@.len() || args@.len() == 0,
                p.flags@.len() == FLAG_COUNT,
                parse_args(toks) == parse_from(toks, i as int, p.state()),
            decreases args@.len() - i,
        {
            let res = p.step(args[i].as_str(), i);
            match res {
                Ok(()) => {},
                Err(e) => {
                    return Err(e);
                },
            }
            i = i + 1;
        }
        match p.pending {
            Some(_) => {
                return Err(ArgError::MissingValue { index: args.len() - 1 });
            },
            None => {},
        }
        let url = match p.url {
            Some(u) => u,
            None => {
                return Err(ArgError::MissingUrl);
            },
        };
        let method = match p.method {
            Some(x) => x,
            None => HttpMethod::Get,
        };
        let a = Args {
            url,
            data: p.data,
            user_agent: p.user_agent,
            method,
            header: p.header,
            insecure: p.flags[0],
            http09: p.flags[1],
            http10: p.flags[2],
            http11: p.flags[3],
            http2: p.flags[4],
            http3: p.flags[5],
            tlsv1: p.flags[6],
            tlsv10: p.flags[7],
            tlsv11: p.flags[8],
            tlsv12: p.flags[9],
            tlsv13: p.flags[10],
            tls_max: p.tls_max,
        };
        Ok(a)
    }
}

} // verus!
