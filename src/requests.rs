//! Endpoints, the fixed registry of them, and the request codec.
use vstd::prelude::*;
use crate::text::{
    lemma_has_char_concat, lemma_join_no_char, lemma_split_concat, lemma_split_join,
    lemma_split_no_sep, lemma_take_until_concat, lemma_take_until_prefix, append_chars, chars_of, find_char, push_char_str, sub_chars, take_until_chars, has_char, join, join_chars, split, split_chars, string_of,
    string_views, take_until, views,
};

verus! {

/// The byte that ends every request and every response on the wire.
pub const REQUEST_TERMINATOR: u8 = 4;

/// `REQUEST_TERMINATOR` as a character.
pub const TERMINATOR_CHAR: char = '\x04';

/// Parameter names in insertion order, each with its ordered list of values.
pub type QueryPVMap = Vec<(String, Vec<String>)>;

/// A parameter name with its values, as mathematical text.
pub type ParamView = (Seq<char>, Seq<Seq<char>>);

/// A URI with its parameters, as mathematical text.
pub type RequestView = (Seq<char>, Seq<ParamView>);

/// A request type and its parameters; the registry's entries list the legal
/// parameter names, each with no values.
#[derive(Debug, Clone)]
pub struct Endpoint {
    pub uri: String,
    pub query_pv_map: QueryPVMap,
}

/// Why a wire request could not be decoded.
#[derive(Debug, Clone, Copy, PartialEq, Eq, Structural)]
pub enum ParseError {
    /// The first line has no path, or the path does not begin with `/`.
    MalformedRequestLine,
    /// The URI is not in the registry.
    UnknownEndpoint,
    /// A query entry does not hold exactly one `=`.
    MalformedParameter,
    /// A query entry names a parameter that the endpoint does not take.
    UnknownParameter,
}

impl ParseError {
    /// A one-line description of the cause.
    pub fn message(&self) -> (r: &'static str)
        ensures
            r@ == self.message_spec(),
    {
        match self {
            ParseError::MalformedRequestLine => "malformed request line",
            ParseError::UnknownEndpoint => "no such endpoint",
            ParseError::MalformedParameter => "malformed query parameter",
            ParseError::UnknownParameter => "unknown query parameter",
        }
    }

    pub open spec fn message_spec(&self) -> Seq<char> {
        match self {
            ParseError::MalformedRequestLine => "malformed request line"@,
            ParseError::UnknownEndpoint => "no such endpoint"@,
            ParseError::MalformedParameter => "malformed query parameter"@,
            ParseError::UnknownParameter => "unknown query parameter"@,
        }
    }
}

/// The text view of a parameter map.
pub open spec fn pv_view(m: Seq<(String, Vec<String>)>) -> Seq<ParamView> {
    m.map_values(|e: (String, Vec<String>)| (e.0@, string_views(e.1@)))
}

impl View for Endpoint {
    type V = RequestView;

    open spec fn view(&self) -> RequestView {
        (self.uri@, pv_view(self.query_pv_map@))
    }
}

/// The names of a parameter map, in order.
pub open spec fn param_names(m: Seq<ParamView>) -> Seq<Seq<char>> {
    m.map_values(|p: ParamView| p.0)
}

/// No name occurs twice.
pub open spec fn unique_names(m: Seq<ParamView>) -> bool {
    forall|i: int, j: int| 0 <= i < j < m.len() ==> m[i].0 != m[j].0
}

/// The registry: each URI with its legal parameter names.
pub open spec fn registry() -> Seq<(Seq<char>, Seq<Seq<char>>)> {
    seq![
        ("get-player"@, seq!["player_id"@, "statistics"@]),
        ("get-all-players"@, seq!["name"@]),
    ]
}

/// A registry entry as an endpoint whose parameters have no values.
pub open spec fn authority_view(entry: (Seq<char>, Seq<Seq<char>>)) -> RequestView {
    (entry.0, entry.1.map_values(|n: Seq<char>| (n, Seq::<Seq<char>>::empty())))
}

/// The first entry of `reg` with this URI.
pub open spec fn find_entry(reg: Seq<(Seq<char>, Seq<Seq<char>>)>, uri: Seq<char>) -> Option<
    (Seq<char>, Seq<Seq<char>>),
>
    decreases reg.len(),
{
    if reg.len() == 0 {
        None
    } else if reg[0].0 == uri {
        Some(reg[0])
    } else {
        find_entry(reg.drop_first(), uri)
    }
}

/// The registry's endpoint for `uri`, if there is one.
pub open spec fn lookup(uri: Seq<char>) -> Option<RequestView> {
    match find_entry(registry(), uri) {
        Some(e) => Some(authority_view(e)),
        None => None,
    }
}

/// The legal parameter names for `uri` (none where it is unknown).
pub open spec fn legal_names(uri: Seq<char>) -> Seq<Seq<char>> {
    match find_entry(registry(), uri) {
        Some(e) => e.1,
        None => Seq::empty(),
    }
}

/// A request that the registry allows: a known URI, and parameter names
/// that are legal for it and unique.
pub open spec fn valid_request(r: RequestView) -> bool {
    &&& lookup(r.0) is Some
    &&& unique_names(r.1)
    &&& forall|i: int| 0 <= i < r.1.len() ==> legal_names(r.0).contains(#[trigger] r.1[i].0)
}

// ---------------------------------------------------------------- encoding

/// The parameters that have at least one value, in order.
pub open spec fn valued(m: Seq<ParamView>) -> Seq<ParamView>
    decreases m.len(),
{
    if m.len() == 0 {
        Seq::empty()
    } else if m.last().1.len() > 0 {
        valued(m.drop_last()).push(m.last())
    } else {
        valued(m.drop_last())
    }
}

/// `name=v1,v2,...`
pub open spec fn pair_text(p: ParamView) -> Seq<char> {
    p.0 + seq!['='] + join(p.1, ',')
}

/// The `name=values` text of each parameter.
pub open spec fn pair_texts(m: Seq<ParamView>) -> Seq<Seq<char>> {
    m.map_values(|p: ParamView| pair_text(p))
}

/// The `&`-joined pairs of the valued parameters.
pub open spec fn query_text(m: Seq<ParamView>) -> Seq<char> {
    join(pair_texts(valued(m)), '&')
}

/// `/<uri>` where no parameter has a value, else `/<uri>?<query>`.
pub open spec fn valued_uri(uri: Seq<char>, m: Seq<ParamView>) -> Seq<char> {
    if valued(m).len() == 0 {
        seq!['/'] + uri
    } else {
        seq!['/'] + uri + seq!['?'] + query_text(m)
    }
}

/// The lines that follow the request line.
pub open spec fn header_lines() -> Seq<char> {
    "User-Agent: crabbysoccer/1.0.0\nHost: 127.0.0.1:7878\n"@
}

/// The whole wire request for a path, terminator included.
pub open spec fn request_text(path: Seq<char>) -> Seq<char> {
    "GET"@ + seq![' '] + path + seq![' '] + "HTTP/1.1"@ + seq!['\n'] + header_lines() + seq!['\n']
        + seq![TERMINATOR_CHAR]
}

/// The wire request for an endpoint.
pub open spec fn encode(r: RequestView) -> Seq<char> {
    request_text(valued_uri(r.0, r.1))
}

// ---------------------------------------------------------------- decoding

/// The position of `name` in `m`, or -1.
pub open spec fn param_index(m: Seq<ParamView>, name: Seq<char>) -> int
    decreases m.len(),
{
    if m.len() == 0 {
        -1
    } else if m[0].0 == name {
        0
    } else {
        let k = param_index(m.drop_first(), name);
        if k < 0 {
            -1
        } else {
            k + 1
        }
    }
}

/// `m` with `p` set: it replaces the entry of the same name, or comes last.
pub open spec fn insert_param(m: Seq<ParamView>, p: ParamView) -> Seq<ParamView> {
    let k = param_index(m, p.0);
    if k < 0 {
        m.push(p)
    } else {
        m.update(k, p)
    }
}

/// One `name=v1,v2` entry of a query string.
pub open spec fn decode_entry(entry: Seq<char>, legal: Seq<Seq<char>>) -> Result<
    ParamView,
    ParseError,
> {
    let parts = split(entry, '=');
    if parts.len() != 2 {
        Err(ParseError::MalformedParameter)
    } else if !legal.contains(parts[0]) {
        Err(ParseError::UnknownParameter)
    } else {
        Ok((parts[0], split(parts[1], ',')))
    }
}

/// The entries in order, each set into the map; the first bad entry decides the error.
pub open spec fn decode_entries(entries: Seq<Seq<char>>, legal: Seq<Seq<char>>) -> Result<
    Seq<ParamView>,
    ParseError,
>
    decreases entries.len(),
{
    if entries.len() == 0 {
        Ok(Seq::empty())
    } else {
        match decode_entries(entries.drop_last(), legal) {
            Err(e) => Err(e),
            Ok(m) => match decode_entry(entries.last(), legal) {
                Err(e) => Err(e),
                Ok(p) => Ok(insert_param(m, p)),
            },
        }
    }
}

/// The path: the second space-separated token of the first line.
pub open spec fn request_path(t: Seq<char>) -> Option<Seq<char>> {
    let tokens = split(take_until(t, '\n'), ' ');
    if tokens.len() < 2 || tokens[1].len() == 0 || tokens[1][0] != '/' {
        None
    } else {
        Some(tokens[1])
    }
}

/// A wire request decoded and checked against the registry.
pub open spec fn decode(t: Seq<char>) -> Result<RequestView, ParseError> {
    match request_path(t) {
        None => Err(ParseError::MalformedRequestLine),
        Some(path) => {
            let rest = path.drop_first();
            let uri = take_until(rest, '?');
            if lookup(uri) is None {
                Err(ParseError::UnknownEndpoint)
            } else if !has_char(rest, '?') {
                Ok((uri, Seq::empty()))
            } else {
                let query = rest.subrange(uri.len() + 1 as int, rest.len() as int);
                match decode_entries(split(query, '&'), legal_names(uri)) {
                    Ok(m) => Ok((uri, m)),
                    Err(e) => Err(e),
                }
            }
        },
    }
}

// ---------------------------------------------------------------- registry

/// No two registry entries share a URI, so a lookup never meets two.
pub proof fn lemma_registry_uris_distinct()
    ensures
        forall|i: int, j: int|
            0 <= i < j < registry().len() ==> registry()[i].0 != registry()[j].0,
{
    reveal_strlit("get-player");
    reveal_strlit("get-all-players");
    assert("get-player"@.len() != "get-all-players"@.len());
}

/// The entry that `find_entry` gives is the registry's entry with that URI.
proof fn lemma_find_entry_registry(uri: Seq<char>)
    ensures
        find_entry(registry(), uri) == (if uri == registry()[0].0 {
            Some(registry()[0])
        } else if uri == registry()[1].0 {
            Some(registry()[1])
        } else {
            None::<(Seq<char>, Seq<Seq<char>>)>
        }),
{
    let r = registry();
    let r1 = r.drop_first();
    let r2 = r1.drop_first();
    assert(r1[0] == r[1]);
    assert(r2.len() == 0);
    assert(find_entry(r2, uri) is None);
    assert(find_entry(r1, uri) == (if r1[0].0 == uri {
        Some(r1[0])
    } else {
        find_entry(r2, uri)
    }));
}

impl Endpoint {
    /// An endpoint from its parts.
    pub fn new(uri: &str, query_pv_map: QueryPVMap) -> (r: Endpoint)
        ensures
            r.uri@ == uri@,
            r.query_pv_map == query_pv_map,
    {
        Endpoint { uri: uri.to_owned(), query_pv_map }
    }

    /// An endpoint whose parameters are `query_parameters`, each with no values.
    fn new_authority(uri: &str, query_parameters: &[&str]) -> (r: Endpoint)
        ensures
            r@ == (uri@, query_parameters@.map_values(
                |n: &str| (n@, Seq::<Seq<char>>::empty()),
            )),
    {
        let mut map: QueryPVMap = Vec::new();
        let mut i: usize = 0;
        while i < query_parameters.len()
            invariant
                i <= query_parameters@.len(),
                map@.len() == i,
                forall|k: int|
                    0 <= k < i ==> (#[trigger] map@[k]).0@ == query_parameters@[k]@
                        && string_views(map@[k].1@).len() == 0,
            decreases query_parameters.len() - i,
        {
            let name = query_parameters[i].to_owned();
            let none: Vec<String> = Vec::new();
            assert(string_views(none@) =~= Seq::<Seq<char>>::empty());
            map.push((name, none));
            i = i + 1;
        }
        assert(pv_view(map@) =~= query_parameters@.map_values(
            |n: &str| (n@, Seq::<Seq<char>>::empty()),
        )) by {
            assert forall|k: int| 0 <= k < map@.len() implies string_views(map@[k].1@)
                =~= Seq::<Seq<char>>::empty() by {}
        }
        Endpoint { uri: uri.to_owned(), query_pv_map: map }
    }
}

/// A copy of a list of strings.
pub fn clone_strings(v: &Vec<String>) -> (r: Vec<String>)
    ensures
        string_views(r@) == string_views(v@),
{
    let mut r: Vec<String> = Vec::new();
    let mut i: usize = 0;
    while i < v.len()
        invariant
            i <= v@.len(),
            r@.len() == i,
            forall|k: int| 0 <= k < i ==> (#[trigger] r@[k])@ == v@[k]@,
        decreases v.len() - i,
    {
        r.push(v[i].clone());
        i = i + 1;
    }
    assert(string_views(r@) =~= string_views(v@));
    r
}

/// The number of registry entries.
pub const REGISTRY_LEN: usize = 2;

/// The registry's entry at `i`, as an endpoint.
fn registry_entry(i: usize) -> (r: Endpoint)
    requires
        i < REGISTRY_LEN,
    ensures
        r@ == authority_view(registry()[i as int]),
{
    let ghost reg = registry();
    if i == 0 {
        let r = Endpoint::new_authority("get-player", &["player_id", "statistics"]);
        assert(r@.1 =~= authority_view(reg[0]).1);
        r
    } else {
        let r = Endpoint::new_authority("get-all-players", &["name"]);
        assert(r@.1 =~= authority_view(reg[1]).1);
        r
    }
}

/// The registry: every endpoint the server answers, with its legal parameters.
#[allow(non_snake_case)]
pub fn AUTHORITATIVE_ENDPOINTS() -> (r: [Endpoint; 2])
    ensures
        r@.len() == registry().len(),
        forall|i: int| 0 <= i < 2 ==> (#[trigger] r@[i])@ == authority_view(registry()[i]),
{
    [registry_entry(0), registry_entry(1)]
}

/// The registry's endpoint for `uri`, or `None` where no entry has that URI.
pub fn clone_authoritative_endpoint_by_uri(uri: &str) -> (r: Option<Endpoint>)
    ensures
        match r {
            Some(e) => lookup(uri@) == Some(e@),
            None => lookup(uri@) is None,
        },
{
    proof {
        lemma_find_entry_registry(uri@);
    }
    let key = uri.to_owned();
    let mut i: usize = 0;
    while i < REGISTRY_LEN
        invariant
            key@ == uri@,
            i <= REGISTRY_LEN,
            forall|k: int| 0 <= k < i ==> registry()[k].0 != uri@,
        decreases REGISTRY_LEN - i,
    {
        let e = registry_entry(i);
        assert(i == 0 || i == 1);
        if e.uri == key {
            assert(registry()[i as int].0 == uri@);
            proof {
                lemma_find_entry_registry(uri@);
            }
            return Some(e);
        }
        i = i + 1;
    }
    None
}

// ---------------------------------------------------------------- encoding, executable

/// The characters of each string.
fn chars_of_all(v: &Vec<String>) -> (r: Vec<Vec<char>>)
    ensures
        views(r@) == string_views(v@),
{
    let mut r: Vec<Vec<char>> = Vec::new();
    let mut i: usize = 0;
    while i < v.len()
        invariant
            i <= v@.len(),
            r@.len() == i,
            forall|k: int| 0 <= k < i ==> (#[trigger] r@[k])@ == v@[k]@,
        decreases v.len() - i,
    {
        r.push(chars_of(v[i].as_str()));
        i = i + 1;
    }
    assert(views(r@) =~= string_views(v@));
    r
}

/// `name=v1,v2,...` as characters.
fn pair_chars(name: &String, vals: &Vec<String>) -> (r: Vec<char>)
    ensures
        r@ == pair_text((name@, string_views(vals@))),
{
    let mut r = chars_of(name.as_str());
    r.push('=');
    let joined = join_chars(&chars_of_all(vals), ',');
    append_chars(&mut r, joined.as_slice());
    r
}

/// `join` over one more piece.
proof fn lemma_join_push(parts: Seq<Seq<char>>, last: Seq<char>, sep: char)
    ensures
        join(parts.push(last), sep) == (if parts.len() == 0 {
            last
        } else {
            join(parts, sep) + seq![sep] + last
        }),
{
    assert(parts.push(last).drop_last() =~= parts);
}

impl Endpoint {
    /// The request path: `/<uri>` where no parameter has a value, else
    /// `/<uri>?<p1>=<v1,v2,...>&<p2>=...` over the valued parameters in order.
    pub fn get_valued_uri(&self) -> (r: Result<String, &'static str>)
        ensures
            r matches Ok(s) && s@ == valued_uri(self@.0, self@.1),
    {
        let ghost m = self@.1;
        let mut out: Vec<char> = Vec::new();
        out.push('/');
        append_chars(&mut out, chars_of(self.uri.as_str()).as_slice());
        let mut any = false;
        let mut i: usize = 0;
        assert(m.subrange(0, 0) =~= Seq::<ParamView>::empty());
        while i < self.query_pv_map.len()
            invariant
                m == self@.1,
                i <= m.len(),
                m.len() == self.query_pv_map@.len(),
                any == (valued(m.subrange(0, i as int)).len() > 0),
                out@ == valued_uri(self.uri@, m.subrange(0, i as int)),
            decreases self.query_pv_map.len() - i,
        {
            let ghost before = m.subrange(0, i as int);
            let ghost sub = m.subrange(0, i + 1);
            assert(sub.drop_last() =~= before);
            assert(sub.last() == m[i as int]);
            let entry = &self.query_pv_map[i];
            if entry.1.len() > 0 {
                let ghost old_out = out@;
                let ghost p = m[i as int];
                assert(valued(sub) == valued(before).push(p));
                assert(pair_texts(valued(sub)) =~= pair_texts(valued(before)).push(pair_text(p)));
                proof {
                    lemma_join_push(pair_texts(valued(before)), pair_text(p), '&');
                }
                if any {
                    out.push('&');
                } else {
                    out.push('?');
                }
                append_chars(&mut out, pair_chars(&entry.0, &entry.1).as_slice());
                any = true;
                assert(out@ =~= valued_uri(self.uri@, sub));
            } else {
                assert(valued(sub) == valued(before));
            }
            i = i + 1;
        }
        assert(m.subrange(0, m.len() as int) =~= m);
        Ok(string_of(out.as_slice()))
    }

    /// The wire request: the request line with the valued path, the header
    /// lines, a blank line and the terminator.
    pub fn get_request_string(&self) -> (r: String)
        ensures
            r@ == encode(self@),
    {
        let path = match self.get_valued_uri() {
            Ok(p) => p,
            Err(_) => String::new(),
        };
        let mut r = "GET".to_owned();
        push_char_str(&mut r, ' ');
        r.append(path.as_str());
        push_char_str(&mut r, ' ');
        r.append("HTTP/1.1");
        push_char_str(&mut r, '\n');
        r.append("User-Agent: crabbysoccer/1.0.0\nHost: 127.0.0.1:7878\n");
        push_char_str(&mut r, '\n');
        push_char_str(&mut r, TERMINATOR_CHAR);
        r
    }
}

// ---------------------------------------------------------------- decoding, executable

/// `param_index` is the first position with that name.
proof fn lemma_param_index(m: Seq<ParamView>, name: Seq<char>, k: int)
    requires
        0 <= k <= m.len(),
        k < m.len() ==> m[k].0 == name,
        forall|j: int| 0 <= j < k ==> m[j].0 != name,
    ensures
        param_index(m, name) == (if k < m.len() {
            k
        } else {
            -1
        }),
    decreases m.len(),
{
    if m.len() > 0 && k > 0 {
        lemma_param_index(m.drop_first(), name, k - 1);
    }
}

/// Sets `name` to `vals` in `map`: replaces the entry of that name, or appends.
pub fn insert_param_exec(map: &mut QueryPVMap, name: String, vals: Vec<String>)
    ensures
        pv_view(final(map)@) == insert_param(pv_view(old(map)@), (name@, string_views(vals@))),
{
    let ghost m = pv_view(map@);
    let ghost p = (name@, string_views(vals@));
    let mut i: usize = 0;
    while i < map.len()
        invariant
            m == pv_view(map@),
            m == pv_view(old(map)@),
            p == (name@, string_views(vals@)),
            i <= map@.len(),
            forall|j: int| 0 <= j < i ==> m[j].0 != name@,
        decreases map.len() - i,
    {
        if map[i].0 == name {
            proof {
                lemma_param_index(m, name@, i as int);
            }
            let ghost before = map@;
            let entry = (name, vals);
            assert(entry.0@ == p.0 && string_views(entry.1@) == p.1);
            let _ = map.remove(i);
            map.insert(i, entry);
            assert(map@ =~= before.update(i as int, entry));
            assert(pv_view(map@) =~= m.update(i as int, p));
            return;
        }
        i = i + 1;
    }
    proof {
        lemma_param_index(m, name@, m.len() as int);
    }
    map.push((name, vals));
    assert(pv_view(map@) =~= m.push(p));
}

/// An error in a prefix of the entries is the error of them all.
proof fn lemma_decode_entries_err(entries: Seq<Seq<char>>, k: int, legal: Seq<Seq<char>>)
    requires
        0 <= k <= entries.len(),
        decode_entries(entries.subrange(0, k), legal) is Err,
    ensures
        decode_entries(entries, legal) == decode_entries(entries.subrange(0, k), legal),
    decreases entries.len() - k,
{
    if k == entries.len() {
        assert(entries.subrange(0, k) =~= entries);
    } else {
        assert(entries.subrange(0, k + 1).drop_last() =~= entries.subrange(0, k));
        lemma_decode_entries_err(entries, k + 1, legal);
    }
}

/// Strings from character vectors.
fn strings_of(v: &Vec<Vec<char>>) -> (r: Vec<String>)
    ensures
        string_views(r@) == views(v@),
{
    let mut r: Vec<String> = Vec::new();
    let mut i: usize = 0;
    while i < v.len()
        invariant
            i <= v@.len(),
            r@.len() == i,
            forall|k: int| 0 <= k < i ==> (#[trigger] r@[k])@ == v@[k]@,
        decreases v.len() - i,
    {
        r.push(string_of(v[i].as_slice()));
        i = i + 1;
    }
    assert(string_views(r@) =~= views(v@));
    r
}

/// The registry's endpoint for a URI has that URI, and its parameter names
/// are the legal ones.
pub proof fn lemma_legal_names(uri: Seq<char>)
    requires
        lookup(uri) is Some,
    ensures
        lookup(uri).unwrap().0 == uri,
        param_names(lookup(uri).unwrap().1) == legal_names(uri),
{
    lemma_find_entry_registry(uri);
    let e = find_entry(registry(), uri).unwrap();
    assert(param_names(authority_view(e).1) =~= e.1);
}

/// Whether `name` is a parameter of `ep`.
fn has_param(ep: &Endpoint, name: &String) -> (r: bool)
    ensures
        r == param_names(ep@.1).contains(name@),
{
    let mut i: usize = 0;
    while i < ep.query_pv_map.len()
        invariant
            i <= ep.query_pv_map@.len(),
            forall|j: int| 0 <= j < i ==> param_names(ep@.1)[j] != name@,
        decreases ep.query_pv_map.len() - i,
    {
        if ep.query_pv_map[i].0 == *name {
            assert(param_names(ep@.1)[i as int] == name@);
            return true;
        }
        i = i + 1;
    }
    false
}

/// Decodes one `name=v1,v2` entry against the parameters of `ep`.
fn parse_entry(ep: &Endpoint, entry: &Vec<char>) -> (r: Result<(String, Vec<String>), ParseError>)
    ensures
        match r {
            Ok(p) => decode_entry(entry@, param_names(ep@.1)) == Ok::<ParamView, ParseError>(
                (p.0@, string_views(p.1@)),
            ),
            Err(e) => decode_entry(entry@, param_names(ep@.1)) == Err::<ParamView, ParseError>(e),
        },
{
    let parts = split_chars(entry.as_slice(), '=');
    if parts.len() != 2 {
        return Err(ParseError::MalformedParameter);
    }
    let name = string_of(parts[0].as_slice());
    if !has_param(ep, &name) {
        return Err(ParseError::UnknownParameter);
    }
    let vals = strings_of(&split_chars(parts[1].as_slice(), ','));
    Ok((name, vals))
}

/// Decodes `name=v1,v2` entries in order against the parameters of `ep`,
/// each set into the map; the first bad entry gives the error.
pub fn parse_entries(ep: &Endpoint, entries: &Vec<Vec<char>>) -> (r: Result<QueryPVMap, ParseError>)
    ensures
        match r {
            Ok(m) => decode_entries(views(entries@), param_names(ep@.1)) == Ok::<
                Seq<ParamView>,
                ParseError,
            >(pv_view(m@)),
            Err(e) => decode_entries(views(entries@), param_names(ep@.1)) == Err::<
                Seq<ParamView>,
                ParseError,
            >(e),
        },
{
    let ghost es = views(entries@);
    let ghost legal = param_names(ep@.1);
    let mut map: QueryPVMap = Vec::new();
    let mut k: usize = 0;
    assert(es.subrange(0, 0) =~= Seq::<Seq<char>>::empty());
    assert(pv_view(map@) =~= Seq::<ParamView>::empty());
    while k < entries.len()
        invariant
            es == views(entries@),
            k <= es.len(),
            legal == param_names(ep@.1),
            decode_entries(es.subrange(0, k as int), legal) == Ok::<Seq<ParamView>, ParseError>(
                pv_view(map@),
            ),
        decreases entries.len() - k,
    {
        assert(es.subrange(0, k + 1).drop_last() =~= es.subrange(0, k as int));
        assert(es.subrange(0, k + 1).last() == entries@[k as int]@);
        match parse_entry(ep, &entries[k]) {
            Ok(p) => {
                insert_param_exec(&mut map, p.0, p.1);
            },
            Err(e) => {
                proof {
                    lemma_decode_entries_err(es, k + 1, legal);
                }
                return Err(e);
            },
        }
        k = k + 1;
    }
    assert(es.subrange(0, es.len() as int) =~= es);
    Ok(map)
}

/// Decodes a wire request: the path is the second space-separated token of
/// the first line; it splits at its first `?` into the URI, which must be in
/// the registry, and the query, whose `&`-separated entries must each hold
/// exactly one `=` and name a legal parameter; values split at `,`.
pub fn parse_request(request: &str) -> (r: Result<Endpoint, ParseError>)
    ensures
        match r {
            Ok(e) => decode(request@) == Ok::<RequestView, ParseError>(e@),
            Err(err) => decode(request@) == Err::<RequestView, ParseError>(err),
        },
{
    let text = chars_of(request);
    let line = take_until_chars(text.as_slice(), '\n');
    let tokens = split_chars(line.as_slice(), ' ');
    if tokens.len() < 2 || tokens[1].len() == 0 || tokens[1][0] != '/' {
        return Err(ParseError::MalformedRequestLine);
    }
    let path = &tokens[1];
    assert(views(tokens@)[1] == path@);
    assert(request_path(request@) == Some(path@));
    let rest = sub_chars(path.as_slice(), 1, path.len());
    assert(rest@ =~= path@.drop_first());
    let uri_chars = take_until_chars(rest.as_slice(), '?');
    let uri = string_of(uri_chars.as_slice());
    let ep = match clone_authoritative_endpoint_by_uri(uri.as_str()) {
        Some(e) => e,
        None => return Err(ParseError::UnknownEndpoint),
    };
    proof {
        lemma_legal_names(uri@);
    }
    match find_char(rest.as_slice(), '?') {
        None => {
            let map: QueryPVMap = Vec::new();
            assert(pv_view(map@) =~= Seq::<ParamView>::empty());
            Ok(Endpoint { uri, query_pv_map: map })
        },
        Some(q) => {
            proof {
                lemma_take_until_prefix(rest@, '?', q as int);
            }
            assert(has_char(rest@, '?'));
            assert(uri@.len() == q);
            let query = sub_chars(rest.as_slice(), q + 1, rest.len());
            let entries = split_chars(query.as_slice(), '&');
            assert(decode(request@) == match decode_entries(views(entries@), legal_names(uri@)) {
                Ok(m) => Ok::<RequestView, ParseError>((uri@, m)),
                Err(e) => Err(e),
            });
            let map = parse_entries(&ep, &entries)?;
            Ok(Endpoint { uri, query_pv_map: map })
        },
    }
}

// ---------------------------------------------------------------- laws

/// A value that survives the wire: it holds none of the characters that
/// separate values, entries, names, tokens or lines.
pub open spec fn plain_value(v: Seq<char>) -> bool {
    &&& !has_char(v, ',')
    &&& !has_char(v, '&')
    &&& !has_char(v, '=')
    &&& !has_char(v, ' ')
    &&& !has_char(v, '\n')
}

/// Every value of every parameter is plain.
pub open spec fn plain_values(m: Seq<ParamView>) -> bool {
    forall|i: int, j: int|
        0 <= i < m.len() && 0 <= j < m[i].1.len() ==> plain_value(#[trigger] m[i].1[j])
}

/// Registry URIs and parameter names are plain, and URIs hold no `?`.
proof fn lemma_registry_plain(uri: Seq<char>)
    requires
        lookup(uri) is Some,
    ensures
        plain_value(uri),
        !has_char(uri, '?'),
        forall|n: Seq<char>| legal_names(uri).contains(n) ==> plain_value(n),
{
    lemma_find_entry_registry(uri);
    reveal_strlit("get-player");
    reveal_strlit("get-all-players");
    reveal_strlit("player_id");
    reveal_strlit("statistics");
    reveal_strlit("name");
    let names = legal_names(uri);
    assert forall|n: Seq<char>| names.contains(n) implies plain_value(n) by {
        let k = choose|k: int| 0 <= k < names.len() && names[k] == n;
        if uri == registry()[0].0 {
            assert(k == 0 || k == 1);
        } else {
            assert(k == 0);
        }
    }
}

/// Each parameter that `valued` keeps comes from the map and has a value;
/// names stay unique.
proof fn lemma_valued(m: Seq<ParamView>)
    ensures
        forall|i: int|
            0 <= i < valued(m).len() ==> m.contains(#[trigger] valued(m)[i]) && valued(
                m,
            )[i].1.len() > 0,
        unique_names(m) ==> unique_names(valued(m)),
    decreases m.len(),
{
    if m.len() > 0 {
        let init = m.drop_last();
        lemma_valued(init);
        let v = valued(init);
        assert forall|i: int| 0 <= i < v.len() implies m.contains(#[trigger] v[i]) by {
            let k = choose|k: int| 0 <= k < init.len() && init[k] == v[i];
            assert(m[k] == v[i]);
        }
        assert(m[m.len() - 1] == m.last());
        if unique_names(m) {
            assert(unique_names(init)) by {
                assert forall|i: int, j: int| 0 <= i < j < init.len() implies init[i].0
                    != init[j].0 by {
                    assert(m[i] == init[i] && m[j] == init[j]);
                }
            }
            if m.last().1.len() > 0 {
                let w = v.push(m.last());
                assert forall|i: int, j: int| 0 <= i < j < w.len() implies w[i].0
                    != w[j].0 by {
                    if j == w.len() - 1 {
                        let k = choose|k: int| 0 <= k < init.len() && init[k] == v[i];
                        assert(m[k] == init[k]);
                    }
                }
            }
        }
    }
}

/// A pair text is plain where its name and values are, but for `=` and `,`.
proof fn lemma_pair_text_chars(p: ParamView, c: char)
    requires
        c != '=',
        c != ',',
        !has_char(p.0, c),
        forall|j: int| 0 <= j < p.1.len() ==> !has_char(#[trigger] p.1[j], c),
    ensures
        !has_char(pair_text(p), c),
{
    lemma_join_no_char(p.1, ',', c);
    lemma_has_char_concat(p.0, seq!['='], c);
    lemma_has_char_concat(p.0 + seq!['='], join(p.1, ','), c);
}

/// A legal parameter with plain values decodes from its pair text.
proof fn lemma_decode_pair(p: ParamView, legal: Seq<Seq<char>>)
    requires
        legal.contains(p.0),
        plain_value(p.0),
        p.1.len() > 0,
        forall|j: int| 0 <= j < p.1.len() ==> plain_value(#[trigger] p.1[j]),
    ensures
        decode_entry(pair_text(p), legal) == Ok::<ParamView, ParseError>(p),
{
    assert forall|j: int| 0 <= j < p.1.len() implies !has_char(#[trigger] p.1[j], '=') by {
        assert(plain_value(p.1[j]));
    }
    assert forall|j: int| 0 <= j < p.1.len() implies !has_char(#[trigger] p.1[j], ',') by {
        assert(plain_value(p.1[j]));
    }
    lemma_join_no_char(p.1, ',', '=');
    lemma_split_concat(p.0, join(p.1, ','), '=');
    lemma_split_no_sep(p.0, '=');
    lemma_split_no_sep(join(p.1, ','), '=');
    lemma_split_join(p.1, ',');
    assert(split(pair_text(p), '=') =~= seq![p.0, join(p.1, ',')]);
}

/// The pair texts of distinct legal parameters with plain values decode to
/// those parameters, in order.
proof fn lemma_decode_pairs(v: Seq<ParamView>, legal: Seq<Seq<char>>)
    requires
        unique_names(v),
        forall|i: int| 0 <= i < v.len() ==> legal.contains(#[trigger] v[i].0),
        forall|n: Seq<char>| legal.contains(n) ==> plain_value(n),
        forall|i: int| 0 <= i < v.len() ==> (#[trigger] v[i]).1.len() > 0,
        plain_values(v),
    ensures
        decode_entries(pair_texts(v), legal) == Ok::<Seq<ParamView>, ParseError>(v),
    decreases v.len(),
{
    if v.len() == 0 {
        assert(pair_texts(v).len() == 0);
        assert(v =~= Seq::<ParamView>::empty());
    } else {
        let init = v.drop_last();
        let p = v.last();
        assert(v[v.len() - 1] == p);
        assert(unique_names(init));
        assert(forall|i: int| 0 <= i < init.len() ==> init[i] == v[i]);
        lemma_decode_pairs(init, legal);
        assert(pair_texts(v).drop_last() =~= pair_texts(init));
        assert(pair_texts(v).last() == pair_text(p));
        assert forall|j: int| 0 <= j < p.1.len() implies plain_value(#[trigger] p.1[j]) by {
            assert(plain_value(v[v.len() - 1].1[j]));
        }
        lemma_decode_pair(p, legal);
        assert forall|j: int| 0 <= j < init.len() implies init[j].0 != p.0 by {
            assert(v[j].0 != v[v.len() - 1].0);
        }
        lemma_param_index(init, p.0, init.len() as int);
        assert(init.push(p) =~= v);
    }
}

/// The pair texts of parameters with plain names and values hold none of
/// the reserved characters but `=` and `,`.
proof fn lemma_pair_texts_no_char(v: Seq<ParamView>, c: char)
    requires
        c == ' ' || c == '\n' || c == '&',
        forall|i: int| 0 <= i < v.len() ==> plain_value(#[trigger] v[i].0),
        plain_values(v),
    ensures
        forall|i: int| 0 <= i < v.len() ==> !has_char(#[trigger] pair_texts(v)[i], c),
{
    assert forall|i: int| 0 <= i < v.len() implies !has_char(#[trigger] pair_texts(v)[i], c) by {
        let p = v[i];
        assert(plain_value(p.0));
        assert forall|j: int| 0 <= j < p.1.len() implies !has_char(#[trigger] p.1[j], c) by {
            assert(plain_value(v[i].1[j]));
        }
        lemma_pair_text_chars(p, c);
    }
}

/// Encoding a request that the registry allows and decoding the result gives
/// back its URI and its parameters that have values, in order, each with
/// its values in order; the law holds where no value holds a character
/// that the wire reserves (`,` `&` `=` space, newline).
pub proof fn lemma_round_trip(r: RequestView)
    requires
        valid_request(r),
        plain_values(r.1),
    ensures
        decode(encode(r)) == Ok::<RequestView, ParseError>((r.0, valued(r.1))),
{
    let uri = r.0;
    let m = r.1;
    let v = valued(m);
    let legal = legal_names(uri);
    lemma_registry_plain(uri);
    lemma_valued(m);
    assert forall|i: int| 0 <= i < v.len() implies legal.contains(#[trigger] v[i].0)
        && plain_value(v[i].0) by {
        let k = choose|k: int| 0 <= k < m.len() && m[k] == v[i];
        assert(legal.contains(m[k].0));
    }
    assert(plain_values(v)) by {
        assert forall|i: int, j: int| 0 <= i < v.len() && 0 <= j < v[i].1.len() implies
            plain_value(#[trigger] v[i].1[j]) by {
            let k = choose|k: int| 0 <= k < m.len() && m[k] == v[i];
            assert(plain_value(m[k].1[j]));
        }
    }
    let texts = pair_texts(v);
    let q = join(texts, '&');
    // the pairs hold no space, no newline and no `&`
    lemma_pair_texts_no_char(v, ' ');
    lemma_pair_texts_no_char(v, '\n');
    lemma_pair_texts_no_char(v, '&');
    let path = valued_uri(uri, m);
    assert(!has_char(path, ' ') && !has_char(path, '\n')) by {
        lemma_has_char_concat(seq!['/'], uri, ' ');
        lemma_has_char_concat(seq!['/'], uri, '\n');
        if v.len() > 0 {
            lemma_join_no_char(texts, '&', ' ');
            lemma_join_no_char(texts, '&', '\n');
            lemma_has_char_concat(seq!['/'] + uri, seq!['?'], ' ');
            lemma_has_char_concat(seq!['/'] + uri, seq!['?'], '\n');
            lemma_has_char_concat(seq!['/'] + uri + seq!['?'], q, ' ');
            lemma_has_char_concat(seq!['/'] + uri + seq!['?'], q, '\n');
        }
    }
    // the first line, and its tokens
    reveal_strlit("GET");
    reveal_strlit("HTTP/1.1");
    let get = "GET"@;
    let http = "HTTP/1.1"@;
    let line = get + seq![' '] + path + seq![' '] + http;
    let t = encode(r);
    assert(t =~= line + seq!['\n'] + (header_lines() + seq!['\n'] + seq![TERMINATOR_CHAR]));
    assert(!has_char(line, '\n')) by {
        lemma_has_char_concat(get, seq![' '], '\n');
        lemma_has_char_concat(get + seq![' '], path, '\n');
        lemma_has_char_concat(get + seq![' '] + path, seq![' '], '\n');
        lemma_has_char_concat(get + seq![' '] + path + seq![' '], http, '\n');
    }
    lemma_take_until_concat(line, header_lines() + seq!['\n'] + seq![TERMINATOR_CHAR], '\n');
    assert(line =~= get + seq![' '] + (path + seq![' '] + http));
    lemma_split_concat(get, path + seq![' '] + http, ' ');
    lemma_split_concat(path, http, ' ');
    lemma_split_no_sep(get, ' ');
    lemma_split_no_sep(path, ' ');
    lemma_split_no_sep(http, ' ');
    assert(split(line, ' ') =~= seq![get, path, http]);
    assert(request_path(t) == Some(path));
    let rest = path.drop_first();
    if v.len() == 0 {
        assert(rest =~= uri);
        lemma_take_until_prefix(rest, '?', rest.len() as int);
        assert(rest.subrange(0, rest.len() as int) =~= rest);
        assert(v =~= Seq::<ParamView>::empty());
    } else {
        assert(rest =~= uri + seq!['?'] + q);
        lemma_take_until_concat(uri, q, '?');
        assert(rest[uri.len() as int] == '?');
        assert(rest.subrange(uri.len() + 1 as int, rest.len() as int) =~= q);
        lemma_split_join(texts, '&');
        lemma_decode_pairs(v, legal);
    }
}

/// A request line whose path has no `?` decodes to the path without its
/// leading `/` as URI and no parameters, where that URI is in the registry.
pub proof fn lemma_decode_without_query(t: Seq<char>)
    requires
        request_path(t) is Some,
        !has_char(request_path(t).unwrap(), '?'),
        lookup(request_path(t).unwrap().drop_first()) is Some,
    ensures
        decode(t) == Ok::<RequestView, ParseError>(
            (request_path(t).unwrap().drop_first(), Seq::empty()),
        ),
{
    let path = request_path(t).unwrap();
    let rest = path.drop_first();
    assert(!has_char(rest, '?')) by {
        if has_char(rest, '?') {
            let i = choose|i: int| 0 <= i < rest.len() && rest[i] == '?';
            assert(path[i + 1] == '?');
        }
    }
    lemma_take_until_prefix(rest, '?', rest.len() as int);
    assert(rest.subrange(0, rest.len() as int) =~= rest);
}

/// A query entry without exactly one `=` makes decoding fail with an error,
/// whatever the other entries hold.
pub proof fn lemma_malformed_entry_rejected(entries: Seq<Seq<char>>, legal: Seq<Seq<char>>, k: int)
    requires
        0 <= k < entries.len(),
        split(entries[k], '=').len() != 2,
    ensures
        decode_entries(entries, legal) is Err,
{
    let pre = entries.subrange(0, k + 1);
    assert(pre.drop_last() =~= entries.subrange(0, k));
    assert(pre.last() == entries[k]);
    lemma_decode_entries_err(entries, k + 1, legal);
}

/// A request whose URI is known and whose query holds an entry without
/// exactly one `=` fails to decode.
pub proof fn lemma_malformed_query_rejected(t: Seq<char>, k: int)
    requires
        request_path(t) is Some,
        lookup(take_until(request_path(t).unwrap().drop_first(), '?')) is Some,
        has_char(request_path(t).unwrap().drop_first(), '?'),
        ({
            let rest = request_path(t).unwrap().drop_first();
            let uri = take_until(rest, '?');
            let entries = split(rest.subrange(uri.len() + 1 as int, rest.len() as int), '&');
            0 <= k < entries.len() && split(entries[k], '=').len() != 2
        }),
    ensures
        decode(t) is Err,
{
    let rest = request_path(t).unwrap().drop_first();
    let uri = take_until(rest, '?');
    let entries = split(rest.subrange(uri.len() + 1 as int, rest.len() as int), '&');
    lemma_malformed_entry_rejected(entries, legal_names(uri), k);
}

/// A request line `GET /<uri>?<query> HTTP/1.1` for a registry URI, whose
/// query holds an entry without exactly one `=` (none, or two and more),
/// fails to decode with an error, whatever lines follow; the law holds where
/// the query holds no space or newline, which would end the path or the line
/// before that entry.
pub proof fn lemma_malformed_entry_in_request(
    uri: Seq<char>,
    query: Seq<char>,
    after: Seq<char>,
    k: int,
)
    requires
        lookup(uri) is Some,
        !has_char(query, ' '),
        !has_char(query, '\n'),
        0 <= k < split(query, '&').len(),
        split(split(query, '&')[k], '=').len() != 2,
    ensures
        decode(
            "GET"@ + seq![' '] + seq!['/'] + uri + seq!['?'] + query + seq![' '] + "HTTP/1.1"@
                + seq!['\n'] + after,
        ) is Err,
{
    lemma_registry_plain(uri);
    reveal_strlit("GET");
    reveal_strlit("HTTP/1.1");
    let get = "GET"@;
    let http = "HTTP/1.1"@;
    let path = seq!['/'] + uri + seq!['?'] + query;
    let line = get + seq![' '] + path + seq![' '] + http;
    let t = get + seq![' '] + seq!['/'] + uri + seq!['?'] + query + seq![' '] + http + seq!['\n']
        + after;
    assert(t =~= line + seq!['\n'] + after);
    assert(!has_char(path, ' ') && !has_char(path, '\n')) by {
        lemma_has_char_concat(seq!['/'], uri, ' ');
        lemma_has_char_concat(seq!['/'], uri, '\n');
        lemma_has_char_concat(seq!['/'] + uri, seq!['?'], ' ');
        lemma_has_char_concat(seq!['/'] + uri, seq!['?'], '\n');
        lemma_has_char_concat(seq!['/'] + uri + seq!['?'], query, ' ');
        lemma_has_char_concat(seq!['/'] + uri + seq!['?'], query, '\n');
    }
    assert(!has_char(line, '\n')) by {
        lemma_has_char_concat(get, seq![' '], '\n');
        lemma_has_char_concat(get + seq![' '], path, '\n');
        lemma_has_char_concat(get + seq![' '] + path, seq![' '], '\n');
        lemma_has_char_concat(get + seq![' '] + path + seq![' '], http, '\n');
    }
    lemma_take_until_concat(line, after, '\n');
    assert(line =~= get + seq![' '] + (path + seq![' '] + http));
    lemma_split_concat(get, path + seq![' '] + http, ' ');
    lemma_split_concat(path, http, ' ');
    lemma_split_no_sep(get, ' ');
    lemma_split_no_sep(path, ' ');
    lemma_split_no_sep(http, ' ');
    assert(split(line, ' ') =~= seq![get, path, http]);
    assert(request_path(t) == Some(path));
    let rest = path.drop_first();
    assert(rest =~= uri + seq!['?'] + query);
    lemma_take_until_concat(uri, query, '?');
    assert(rest[uri.len() as int] == '?');
    assert(has_char(rest, '?'));
    assert(rest.subrange(uri.len() + 1 as int, rest.len() as int) =~= query);
    lemma_malformed_entry_rejected(split(query, '&'), legal_names(uri), k);
}

} // verus!
