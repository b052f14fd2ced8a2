//! Substituters of the user's Nix configuration and the configured Attic
//! servers they belong to: a substituter URL that lies directly under
//! exactly one server's endpoint gets that server's `server:cache` alias.

use vstd::prelude::*;
use vstd::string::StringExecFns;

use crate::sorting::{keyed, lemma_sort_is_ascending, lemma_sort_is_permutation, lemma_sort_map, sort_by_key_string, sorted_by_key, keys_ascending};
use crate::text::{opt_view, chars_of, concat_strs, split_words, str_eq, substring, words};

verus! {

broadcast use vstd::string::group_string_axioms;

/// The parts of a parsed URL that decide where it points.
#[derive(Debug)]
pub struct UrlParts {
    pub scheme: String,
    pub username: String,
    pub password: Option<String>,
    pub host: Option<String>,
    /// The port, or the scheme's default port when none is written.
    pub port: Option<u16>,
    pub path: String,
    pub fragment: Option<String>,
}

/// A parsed URL as the contracts see it.
pub struct UrlView {
    pub scheme: Seq<char>,
    pub username: Seq<char>,
    pub password: Option<Seq<char>>,
    pub host: Option<Seq<char>>,
    pub port: Option<u16>,
    pub path: Seq<char>,
    pub fragment: Option<Seq<char>>,
}

impl View for UrlParts {
    type V = UrlView;

    open spec fn view(&self) -> UrlView {
        UrlView {
            scheme: self.scheme@,
            username: self.username@,
            password: opt_view(self.password),
            host: opt_view(self.host),
            port: self.port,
            path: self.path@,
            fragment: opt_view(self.fragment),
        }
    }
}

/// What `url::Url::parse` makes of a string: `None` where it refuses it.
/// The WHATWG URL rules it follows are not restated here.
pub uninterp spec fn parsed_url(input: Seq<char>) -> Option<UrlView>;

/// Calls `reqwest::Url::parse` (the `url` crate's `Url::parse`) and reads
/// the parts of the URL through its accessors; the contract names the
/// result `parsed_url`. Of the parsing rules it claims one: a parsed URL
/// has a fragment exactly when the input holds a `#` (the parser starts the
/// fragment at the first `#` wherever it stands, and `Url::fragment` is
/// `Some` exactly when a fragment was started); what the fragment holds
/// after its percent-encoding is left unsaid.
#[verifier::external_body]
fn parse_url(input: &str) -> (r: Option<UrlParts>)
    ensures
        match r {
            Some(u) => parsed_url(input@) == Some(u@),
            None => parsed_url(input@) is None,
        },
        r matches Some(u) ==> (u.fragment is Some <==> input@.contains('#')),
{
    let url = reqwest::Url::parse(input).ok()?;
    Some(UrlParts {
        scheme: url.scheme().to_owned(),
        username: url.username().to_owned(),
        password: url.password().map(str::to_owned),
        host: url.host_str().map(str::to_owned),
        port: url.port_or_known_default(),
        path: url.path().to_owned(),
        fragment: url.fragment().map(str::to_owned),
    })
}

/// Whether `c` is an ASCII letter or digit.
pub open spec fn is_ascii_alphanumeric(c: char) -> bool {
    let u = c as u32;
    (48 <= u <= 57) || (65 <= u <= 90) || (97 <= u <= 122)
}

/// Whether `name` is a valid cache name: 1 to 50 characters, an ASCII
/// letter or digit first, then ASCII letters, digits, `-`, `_` and `+`.
pub open spec fn valid_cache_name(name: Seq<char>) -> bool {
    &&& 1 <= name.len() <= 50
    &&& is_ascii_alphanumeric(name[0])
    &&& forall|i: int|
        1 <= i < name.len() ==> is_ascii_alphanumeric(#[trigger] name[i]) || name[i] == '-'
            || name[i] == '_' || name[i] == '+'
}

fn is_alphanumeric_char(c: char) -> (r: bool)
    ensures
        r == is_ascii_alphanumeric(c),
{
    let u = c as u32;
    (48 <= u && u <= 57) || (65 <= u && u <= 90) || (97 <= u && u <= 122)
}

/// Whether `name` is a valid cache name.
pub fn is_valid_cache_name(name: &str) -> (r: bool)
    ensures
        r == valid_cache_name(name@),
{
    let cs = chars_of(name);
    if cs.len() < 1 || cs.len() > 50 || !is_alphanumeric_char(cs[0]) {
        return false;
    }
    let mut i: usize = 1;
    while i < cs.len()
        invariant
            cs@ == name@,
            1 <= i <= cs.len() <= 50,
            forall|k: int|
                1 <= k < i ==> is_ascii_alphanumeric(#[trigger] cs@[k]) || cs@[k] == '-' || cs@[k]
                    == '_' || cs@[k] == '+',
        decreases cs.len() - i,
    {
        let c = cs[i];
        if !(is_alphanumeric_char(c) || c == '-' || c == '_' || c == '+') {
            return false;
        }
        i = i + 1;
    }
    true
}

/// `path` without its trailing slashes.
pub open spec fn without_trailing_slashes(path: Seq<char>) -> Seq<char>
    decreases path.len(),
{
    if path.len() > 0 && path.last() == '/' {
        without_trailing_slashes(path.drop_last())
    } else {
        path
    }
}

/// Whether two URLs have the same scheme, host, port (defaults included),
/// user name and password.
pub open spec fn same_authority(a: UrlView, b: UrlView) -> bool {
    &&& a.scheme == b.scheme
    &&& a.host == b.host
    &&& a.port == b.port
    &&& a.username == b.username
    &&& a.password == b.password
}

/// The cache that the substituter URL names under the server endpoint: the
/// single valid cache name that follows the endpoint's path (trailing
/// slashes left out) and a slash, when both URLs share their authority and
/// the substituter has no fragment.
pub open spec fn cache_name_under(substituter: UrlView, endpoint: UrlView) -> Option<Seq<char>> {
    let base = without_trailing_slashes(endpoint.path);
    let path = substituter.path;
    if !same_authority(substituter, endpoint) || substituter.fragment is Some {
        None
    } else if !(base.len() <= path.len() && path.take(base.len() as int) == base) {
        None
    } else if !(base.len() < path.len() && path[base.len() as int] == '/') {
        None
    } else {
        let name = path.skip(base.len() as int + 1);
        if name.contains('/') || !valid_cache_name(name) {
            None
        } else {
            Some(name)
        }
    }
}

fn opt_eq(a: &Option<String>, b: &Option<String>) -> (r: bool)
    ensures
        r == (opt_view(*a) == opt_view(*b)),
{
    match (a, b) {
        (Some(x), Some(y)) => str_eq(x.as_str(), y.as_str()),
        (None, None) => true,
        _ => false,
    }
}

/// The name of the cache that `substituter` points to under the server
/// `endpoint`, if it points to one.
#[verifier::loop_isolation(false)]
pub fn cache_name_from_url(substituter: &UrlParts, endpoint: &UrlParts) -> (r: Option<String>)
    ensures
        opt_view(r) == cache_name_under(substituter@, endpoint@),
{
    let same = str_eq(substituter.scheme.as_str(), endpoint.scheme.as_str()) && opt_eq(
        &substituter.host,
        &endpoint.host,
    ) && substituter.port == endpoint.port && str_eq(
        substituter.username.as_str(),
        endpoint.username.as_str(),
    ) && opt_eq(&substituter.password, &endpoint.password);
    if !same || substituter.fragment.is_some() {
        return None;
    }
    let ep = chars_of(endpoint.path.as_str());
    let mut base_len = ep.len();
    assert(ep@.take(base_len as int) =~= ep@);
    while base_len > 0 && ep[base_len - 1] == '/'
        invariant
            ep@ == endpoint.path@,
            base_len <= ep.len(),
            without_trailing_slashes(endpoint.path@) == without_trailing_slashes(
                ep@.take(base_len as int),
            ),
        decreases base_len,
    {
        assert(ep@.take(base_len as int).drop_last() =~= ep@.take(base_len - 1));
        base_len = base_len - 1;
    }
    let ghost base = ep@.take(base_len as int);
    assert(without_trailing_slashes(endpoint.path@) == base);
    let sp = chars_of(substituter.path.as_str());
    if base_len > sp.len() {
        return None;
    }
    let mut i: usize = 0;
    while i < base_len
        invariant
            i <= base_len <= sp.len(),
            base_len <= ep.len(),
            forall|k: int| 0 <= k < i ==> sp@[k] == ep@[k],
        decreases base_len - i,
    {
        if sp[i] != ep[i] {
            assert(sp@.take(base_len as int)[i as int] != ep@.take(base_len as int)[i as int]);
            return None;
        }
        i = i + 1;
    }
    assert(sp@.take(base_len as int) =~= ep@.take(base_len as int));
    if !(base_len < sp.len() && sp[base_len] == '/') {
        return None;
    }
    let name = substring(substituter.path.as_str(), base_len + 1, sp.len());
    assert(name@ =~= substituter.path@.skip(base_len + 1));
    let nc = chars_of(name.as_str());
    let mut j: usize = 0;
    while j < nc.len()
        invariant
            nc@ == name@,
            j <= nc.len(),
            forall|k: int| 0 <= k < j ==> nc@[k] != '/',
        decreases nc.len() - j,
    {
        if nc[j] == '/' {
            assert(name@.contains('/')) by {
                assert(name@[j as int] == '/');
            }
            return None;
        }
        j = j + 1;
    }
    assert(!name@.contains('/'));
    if !is_valid_cache_name(name.as_str()) {
        return None;
    }
    Some(name)
}

/// A configured server: its name and API endpoint.
#[derive(Debug)]
pub struct ServerEndpoint {
    pub name: String,
    pub endpoint: String,
}

/// Servers as the contracts see them: name and endpoint.
pub open spec fn servers_model(servers: Seq<ServerEndpoint>) -> Seq<(Seq<char>, Seq<char>)> {
    servers.map_values(|s: ServerEndpoint| (s.name@, s.endpoint@))
}

/// A configured server with its endpoint already parsed, `None` where the
/// endpoint is not a URL.
#[derive(Debug)]
pub struct ParsedServer {
    pub name: String,
    pub endpoint: Option<UrlParts>,
}

/// Parsed servers as the contracts see them.
pub open spec fn parsed_servers_model(servers: Seq<ParsedServer>) -> Seq<(Seq<char>, Option<UrlView>)> {
    servers.map_values(
        |s: ParsedServer|
            (
                s.name@,
                match s.endpoint {
                    Some(e) => Some(e@),
                    None => None,
                },
            ),
    )
}

/// The `server:cache` aliases that the substituter has under the parsed
/// servers, one for each server whose endpoint contains it.
pub open spec fn candidates(
    substituter: UrlView,
    servers: Seq<(Seq<char>, Option<UrlView>)>,
) -> Seq<Seq<char>>
    decreases servers.len(),
{
    if servers.len() == 0 {
        seq![]
    } else {
        let head = match servers[0].1 {
            Some(endpoint) => match cache_name_under(substituter, endpoint) {
                Some(name) => seq![servers[0].0 + ":"@ + name],
                None => seq![],
            },
            None => seq![],
        };
        head + candidates(substituter, servers.drop_first())
    }
}

/// The only element of `c`, if it has exactly one.
pub open spec fn only(c: Seq<Seq<char>>) -> Option<Seq<char>> {
    if c.len() == 1 {
        Some(c[0])
    } else {
        None
    }
}

/// The servers with their endpoints parsed as `url::Url::parse` does.
pub open spec fn parse_servers(servers: Seq<(Seq<char>, Seq<char>)>) -> Seq<(Seq<char>, Option<UrlView>)> {
    servers.map_values(|s: (Seq<char>, Seq<char>)| (s.0, parsed_url(s.1)))
}

/// The alias of the substituter `url`: the only candidate when there is
/// exactly one, and none when the URL does not parse, no server or more
/// than one server contains it.
pub open spec fn alias_of(url: Seq<char>, servers: Seq<(Seq<char>, Seq<char>)>) -> Option<Seq<char>> {
    match parsed_url(url) {
        Some(substituter) => only(candidates(substituter, parse_servers(servers))),
        None => None,
    }
}

proof fn lemma_candidates_append(
    sub: UrlView,
    a: Seq<(Seq<char>, Option<UrlView>)>,
    b: Seq<(Seq<char>, Option<UrlView>)>,
)
    ensures
        candidates(sub, a + b) == candidates(sub, a) + candidates(sub, b),
    decreases a.len(),
{
    if a.len() == 0 {
        assert(a + b =~= b);
        assert(candidates(sub, a) + candidates(sub, b) =~= candidates(sub, b));
    } else {
        lemma_candidates_append(sub, a.drop_first(), b);
        assert((a + b).drop_first() =~= a.drop_first() + b);
        assert((a + b)[0] == a[0]);
        assert(candidates(sub, a + b) =~= candidates(sub, a) + candidates(sub, b));
    }
}

proof fn lemma_candidates_step(sub: UrlView, servers: Seq<(Seq<char>, Option<UrlView>)>, i: int)
    requires
        0 <= i < servers.len(),
    ensures
        candidates(sub, servers.take(i + 1)) == candidates(sub, servers.take(i)) + candidates(
            sub,
            seq![servers[i]],
        ),
        candidates(sub, servers) == candidates(sub, servers.take(i + 1)) + candidates(
            sub,
            servers.skip(i + 1),
        ),
{
    assert(servers.take(i + 1) =~= servers.take(i) + seq![servers[i]]);
    lemma_candidates_append(sub, servers.take(i), seq![servers[i]]);
    assert(servers =~= servers.take(i + 1) + servers.skip(i + 1));
    lemma_candidates_append(sub, servers.take(i + 1), servers.skip(i + 1));
}

/// Whether `alias` is `server:cache` for the server, with `cache` the valid
/// cache name that the substituter has under the server's endpoint.
pub open spec fn alias_for_server(
    substituter: UrlView,
    server: (Seq<char>, Option<UrlView>),
    alias: Seq<char>,
) -> bool {
    match server.1 {
        Some(endpoint) => match cache_name_under(substituter, endpoint) {
            Some(name) => valid_cache_name(name) && alias == server.0 + ":"@ + name,
            None => false,
        },
        None => false,
    }
}

/// Whether `alias` is the alias of the substituter for one of the servers.
pub open spec fn names_cache_of_server(
    substituter: UrlView,
    servers: Seq<(Seq<char>, Option<UrlView>)>,
    alias: Seq<char>,
) -> bool {
    exists|i: int| 0 <= i < servers.len() && alias_for_server(substituter, #[trigger] servers[i], alias)
}

/// Every candidate alias names a valid cache under one of the servers.
pub proof fn lemma_candidates_name_caches(
    substituter: UrlView,
    servers: Seq<(Seq<char>, Option<UrlView>)>,
)
    ensures
        forall|k: int|
            0 <= k < candidates(substituter, servers).len() ==> names_cache_of_server(
                substituter,
                servers,
                #[trigger] candidates(substituter, servers)[k],
            ),
    decreases servers.len(),
{
    if servers.len() > 0 {
        let t = servers.drop_first();
        lemma_candidates_name_caches(substituter, t);
        let c = candidates(substituter, servers);
        let ct = candidates(substituter, t);
        assert forall|k: int| 0 <= k < c.len() implies names_cache_of_server(
            substituter,
            servers,
            #[trigger] c[k],
        ) by {
            let head_len = c.len() - ct.len();
            if k < head_len {
                assert(alias_for_server(substituter, servers[0], c[k]));
            } else {
                assert(c[k] == ct[k - head_len]);
                assert(names_cache_of_server(substituter, t, ct[k - head_len]));
                let i = choose|i: int|
                    0 <= i < t.len() && alias_for_server(substituter, #[trigger] t[i], ct[k - head_len]);
                assert(servers[i + 1] == t[i]);
            }
        }
    }
}

/// An alias, when there is one, is `server:cache` for a server whose
/// endpoint contains the substituter and a valid cache name under it.
pub proof fn lemma_alias_names_a_cache(
    substituter: UrlView,
    servers: Seq<(Seq<char>, Option<UrlView>)>,
)
    ensures
        only(candidates(substituter, servers)) matches Some(alias) ==> names_cache_of_server(
            substituter,
            servers,
            alias,
        ),
{
    lemma_candidates_name_caches(substituter, servers);
    if candidates(substituter, servers).len() == 1 {
        assert(names_cache_of_server(substituter, servers, candidates(substituter, servers)[0]));
    }
}

/// The alias of the substituter among servers whose endpoints are parsed.
pub fn alias_among(substituter: &UrlParts, servers: &[ParsedServer]) -> (r: Option<String>)
    ensures
        opt_view(r) == only(candidates(substituter@, parsed_servers_model(servers@))),
{
    let ghost sm = parsed_servers_model(servers@);
    let mut found: Option<String> = None;
    let mut i: usize = 0;
    assert(candidates(substituter@, sm.take(0)) =~= Seq::<Seq<char>>::empty());
    while i < servers.len()
        invariant
            sm == parsed_servers_model(servers@),
            i <= servers.len(),
            candidates(substituter@, sm.take(i as int)).len() <= 1,
            match found {
                Some(a) => candidates(substituter@, sm.take(i as int)) == seq![a@],
                None => candidates(substituter@, sm.take(i as int)).len() == 0,
            },
        decreases servers.len() - i,
    {
        proof {
            lemma_candidates_step(substituter@, sm, i as int);
        }
        let ghost one = candidates(substituter@, seq![sm[i as int]]);
        assert(candidates(substituter@, seq![sm[i as int]].drop_first()) =~= Seq::<
            Seq<char>,
        >::empty()) by {
            assert(seq![sm[i as int]].drop_first().len() == 0);
        }
        let server = &servers[i];
        if let Some(endpoint) = &server.endpoint {
            assert(sm[i as int] == (server.name@, Some(endpoint@)));
            if let Some(name) = cache_name_from_url(substituter, endpoint) {
                let mut alias = concat_strs(server.name.as_str(), ":");
                alias.append(name.as_str());
                proof {
                    reveal_strlit(":");
                }
                assert(one =~= seq![alias@]);
                if found.is_some() {
                    return None;
                }
                found = Some(alias);
            } else {
                assert(one =~= Seq::<Seq<char>>::empty());
            }
        } else {
            assert(sm[i as int].1 is None);
            assert(one =~= Seq::<Seq<char>>::empty());
        }
        i = i + 1;
    }
    assert(sm.take(i as int) =~= sm);
    found
}

/// The alias of the substituter `url` among the configured servers. A URL
/// parses with a fragment, and so is refused for one, only when it holds a
/// `#`: a query string alone keeps the alias.
pub fn find_cache_alias(url: &str, servers: &[ServerEndpoint]) -> (r: Option<String>)
    ensures
        opt_view(r) == alias_of(url@, servers_model(servers@)),
        parsed_url(url@) matches Some(u) ==> (u.fragment is None <==> !url@.contains('#')),
{
    let substituter = match parse_url(url) {
        Some(u) => u,
        None => return None,
    };
    let mut parsed: Vec<ParsedServer> = Vec::new();
    let mut i: usize = 0;
    while i < servers.len()
        invariant
            i <= servers.len(),
            parsed@.len() == i,
            forall|k: int|
                0 <= k < i ==> parsed_servers_model(parsed@)[k] == parse_servers(
                    servers_model(servers@),
                )[k],
        decreases servers.len() - i,
    {
        let server = &servers[i];
        let endpoint = parse_url(server.endpoint.as_str());
        let ghost before = parsed@;
        parsed.push(ParsedServer { name: server.name.clone(), endpoint });
        assert forall|k: int|
            0 <= k < i + 1 implies parsed_servers_model(parsed@)[k] == parse_servers(
            servers_model(servers@),
        )[k] by {
            if k < i {
                assert(parsed@[k] == before[k]);
                assert(parsed_servers_model(before)[k] == parse_servers(servers_model(servers@))[k]);
                assert(parsed_servers_model(parsed@)[k] == parsed_servers_model(before)[k]);
            } else {
                assert(servers_model(servers@)[k] == (server.name@, server.endpoint@));
                assert(parsed@[k].name@ == server.name@);
                assert(parsed@[k].endpoint == endpoint);
                if endpoint is Some {
                    assert(parsed_url(server.endpoint@) == Some(endpoint->0@));
                } else {
                    assert(parsed_url(server.endpoint@) is None);
                }
                assert(parse_servers(servers_model(servers@))[k] == (
                    server.name@,
                    parsed_url(server.endpoint@),
                ));
            }
        }
        i = i + 1;
    }
    assert(parsed_servers_model(parsed@) =~= parse_servers(servers_model(servers@)));
    alias_among(&substituter, parsed.as_slice())
}

/// A substituter of the effective Nix configuration, with its alias when it
/// has one.
#[derive(Debug)]
pub struct EnabledCache {
    pub url: String,
    pub alias: Option<String>,
}

impl EnabledCache {
    /// The URL and alias.
    pub open spec fn model(self) -> (Seq<char>, Option<Seq<char>>) {
        (self.url@, opt_view(self.alias))
    }
}

/// How a substituter is shown: `alias (url)` when it has an alias, else the
/// URL.
pub open spec fn display_of(url: Seq<char>, alias: Option<Seq<char>>) -> Seq<char> {
    match alias {
        Some(a) => a + " ("@ + url + ")"@,
        None => url,
    }
}

/// How a substituter is shown.
pub fn enabled_cache_display(cache: &EnabledCache) -> (r: String)
    ensures
        r@ == display_of(cache.url@, opt_view(cache.alias)),
{
    match &cache.alias {
        Some(alias) => {
            let mut r = concat_strs(alias.as_str(), " (");
            r.append(cache.url.as_str());
            r.append(")");
            r
        },
        None => cache.url.clone(),
    }
}

/// The substituters of a list, each with its display key and its URL and
/// alias, in the order of the list.
pub open spec fn listed_entries(
    urls: Seq<Seq<char>>,
    servers: Seq<(Seq<char>, Seq<char>)>,
) -> Seq<(Seq<char>, (Seq<char>, Option<Seq<char>>))> {
    urls.map_values(
        |u: Seq<char>| (display_of(u, alias_of(u, servers)), (u, alias_of(u, servers))),
    )
}

/// The substituters listed in `substituters`, whitespace-separated, each with
/// its alias, ordered by how they are shown (stably, so equal ones keep
/// their order).
pub open spec fn enabled_list(
    substituters: Seq<char>,
    servers: Seq<(Seq<char>, Seq<char>)>,
) -> Seq<(Seq<char>, Option<Seq<char>>)> {
    sorted_by_key(listed_entries(words(substituters), servers)).map_values(
        |p: (Seq<char>, (Seq<char>, Option<Seq<char>>))| p.1,
    )
}

/// The enabled caches: the substituters that `substituters` lists, as `nix
/// config show substituters` prints them, each with its alias among the
/// configured servers, sorted by how they are shown.
pub fn enabled_caches(substituters: &str, servers: &[ServerEndpoint]) -> (r: Vec<EnabledCache>)
    ensures
        r@.map_values(|c: EnabledCache| c.model()) == enabled_list(
            substituters@,
            servers_model(servers@),
        ),
{
    let urls = split_words(substituters);
    let ghost sm = servers_model(servers@);
    let ghost ws = words(substituters@);
    let mut items: Vec<(String, EnabledCache)> = Vec::new();
    let mut i: usize = 0;
    while i < urls.len()
        invariant
            urls.deep_view() == ws,
            sm == servers_model(servers@),
            i <= urls.len(),
            items@.len() == i,
            forall|k: int|
                0 <= k < i ==> (#[trigger] items@[k]).0@ == listed_entries(ws, sm)[k].0
                    && items@[k].1.model() == listed_entries(ws, sm)[k].1,
        decreases urls.len() - i,
    {
        let url = &urls[i];
        assert(ws[i as int] == url@);
        let alias = find_cache_alias(url.as_str(), servers);
        let cache = EnabledCache { url: url.clone(), alias };
        let key = enabled_cache_display(&cache);
        items.push((key, cache));
        i = i + 1;
    }
    let ghost entries = keyed(items@);
    let ghost f = |c: EnabledCache| c.model();
    assert(entries.map_values(|p: (Seq<char>, EnabledCache)| (p.0, f(p.1))) =~= listed_entries(
        ws,
        sm,
    ));
    let sorted = sort_by_key_string(items);
    proof {
        lemma_sort_map(entries, f);
    }
    let mut sorted = sorted;
    let ghost sk = keyed(sorted@);
    let ghost total = sorted@.len();
    let mut r: Vec<EnabledCache> = Vec::new();
    while sorted.len() > 0
        invariant
            sk.len() == total,
            r@.len() + sorted@.len() == total,
            forall|k: int| 0 <= k < sorted@.len() ==> (#[trigger] sorted@[k]).1 == sk[r@.len() + k].1,
            forall|k: int| 0 <= k < r@.len() ==> #[trigger] r@[k] == sk[k].1,
        decreases sorted.len(),
    {
        let ghost before = sorted@;
        let (_, c) = sorted.remove(0);
        assert(c == sk[r@.len() as int].1);
        assert forall|k: int| 0 <= k < sorted@.len() implies (#[trigger] sorted@[k]).1 == sk[r@.len()
            + 1 + k].1 by {
            assert(sorted@[k] == before[k + 1]);
        }
        r.push(c);
    }
    assert(r@.map_values(|c: EnabledCache| c.model()) =~= sk.map_values(
        |p: (Seq<char>, EnabledCache)| (p.0, f(p.1)),
    ).map_values(|p: (Seq<char>, (Seq<char>, Option<Seq<char>>))| p.1));
    r
}

/// The enabled caches are a reordering of the listed substituters, each
/// shown as `display_of` says, in ascending order of how they are shown.
pub proof fn lemma_enabled_list_ordered(substituters: Seq<char>, servers: Seq<(Seq<char>, Seq<char>)>)
    ensures
        ({
            let e = listed_entries(words(substituters), servers);
            let s = sorted_by_key(e);
            &&& enabled_list(substituters, servers) == s.map_values(
                |p: (Seq<char>, (Seq<char>, Option<Seq<char>>))| p.1,
            )
            &&& s.to_multiset() == e.to_multiset()
            &&& keys_ascending(s)
            &&& forall|i: int| 0 <= i < s.len() ==> (#[trigger] s[i]).0 == display_of(s[i].1.0, s[i].1.1)
        }),
{
    broadcast use vstd::seq_lib::group_to_multiset_ensures;

    let e = listed_entries(words(substituters), servers);
    let s = sorted_by_key(e);
    lemma_sort_is_permutation(e);
    lemma_sort_is_ascending(e);
    assert forall|i: int| 0 <= i < s.len() implies (#[trigger] s[i]).0 == display_of(
        s[i].1.0,
        s[i].1.1,
    ) by {
        assert(s.contains(s[i]));
        assert(s.to_multiset().count(s[i]) > 0);
        assert(e.contains(s[i]));
        let k = choose|k: int| 0 <= k < e.len() && e[k] == s[i];
    }
}

} // verus!
