//! Decisions of the HTTP API: how parse requests are served, how the
//! configuration is updated, how the core's API is addressed, the CORS
//! policy, static asset lookup and log tailing.
use vstd::prelude::*;
use crate::text::{
    split, trim, starts_with, seqs_of, chars_of, split_chars, trim_chars, string_of, push_str,
    push_chars, starts_with_str, eq_str, lines, lines_chars,
};
use crate::config::{Config, MihomoConfig, CorsConfig};
use crate::converter::types::strs;

verus! {

/// A request to parse proxies from a subscription URL, a share link or
/// pasted subscription content.
pub struct ParseRequest {
    pub url: String,
    pub content: String,
}

/// How a parse request is served.
#[derive(Debug, Clone, Copy, PartialEq, Eq, Structural)]
pub enum ParseRoute {
    /// Parse the pasted content as a subscription.
    Content,
    /// Download the subscription at the URL and parse it.
    Fetch,
    /// Parse the URL as a single share link.
    Link,
    /// Neither a URL nor content was given.
    Missing,
    /// The URL is neither http(s) nor a share link.
    BadUrl,
}

/// How a parse request is served: pasted content (other than the
/// placeholder `string`) first, then an http(s) URL, then a share link.
pub open spec fn parse_route(url: Seq<char>, content: Seq<char>) -> ParseRoute {
    if content.len() > 0 && content != "string"@ {
        ParseRoute::Content
    } else if url.len() > 0 {
        if starts_with(url, "http://"@) || starts_with(url, "https://"@) {
            ParseRoute::Fetch
        } else if starts_with(url, "vmess://"@) || starts_with(url, "vless://"@) || starts_with(
            url,
            "trojan://"@,
        ) || starts_with(url, "ss://"@) {
            ParseRoute::Link
        } else {
            ParseRoute::BadUrl
        }
    } else {
        ParseRoute::Missing
    }
}

/// How requests are routed: non-placeholder content is parsed as a
/// subscription whatever the URL; otherwise an `http://` or `https://` URL
/// is fetched, a `vmess://`, `vless://`, `trojan://` or `ss://` URL is
/// parsed as one share link, any other URL is refused, and a request with
/// neither is refused as incomplete.
pub proof fn lemma_parse_routes(url: Seq<char>, content: Seq<char>)
    ensures
        content.len() > 0 && content != "string"@ ==> parse_route(url, content) == ParseRoute::Content,
        (content.len() == 0 || content == "string"@) && (starts_with(url, "http://"@) || starts_with(url, "https://"@))
            ==> parse_route(url, content) == ParseRoute::Fetch,
        (content.len() == 0 || content == "string"@) && (starts_with(url, "vmess://"@) || starts_with(url, "vless://"@)
            || starts_with(url, "trojan://"@) || starts_with(url, "ss://"@)) ==> parse_route(url, content)
            == ParseRoute::Link,
        (content.len() == 0 || content == "string"@) && url.len() == 0 ==> parse_route(url, content)
            == ParseRoute::Missing,
{
    reveal_strlit("http://");
    reveal_strlit("https://");
    reveal_strlit("vmess://");
    reveal_strlit("vless://");
    reveal_strlit("trojan://");
    reveal_strlit("ss://");
    if starts_with(url, "vmess://"@) || starts_with(url, "vless://"@) || starts_with(url, "trojan://"@) || starts_with(
        url,
        "ss://"@,
    ) {
        assert(url.len() > 0);
        assert(url.take(1)[0] == url[0]);
        if starts_with(url, "http://"@) {
            assert(url.take(7)[0] == url[0]);
        }
        if starts_with(url, "https://"@) {
            assert(url.take(8)[0] == url[0]);
        }
        if starts_with(url, "vmess://"@) {
            assert(url.take(8)[0] == url[0]);
        }
        if starts_with(url, "vless://"@) {
            assert(url.take(8)[0] == url[0]);
        }
        if starts_with(url, "trojan://"@) {
            assert(url.take(9)[0] == url[0]);
        }
        if starts_with(url, "ss://"@) {
            assert(url.take(5)[0] == url[0]);
        }
    }
}

impl ParseRequest {
    /// How this request is served.
    pub fn route(&self) -> (r: ParseRoute)
        ensures
            r == parse_route(self.url@, self.content@),
    {
        let c = chars_of(self.content.as_str());
        let u = chars_of(self.url.as_str());
        if c.len() > 0 && !eq_str(&c, "string") {
            ParseRoute::Content
        } else if u.len() > 0 {
            if starts_with_str(&u, "http://") || starts_with_str(&u, "https://") {
                ParseRoute::Fetch
            } else if starts_with_str(&u, "vmess://") || starts_with_str(&u, "vless://")
                || starts_with_str(&u, "trojan://") || starts_with_str(&u, "ss://") {
                ParseRoute::Link
            } else {
                ParseRoute::BadUrl
            }
        } else {
            ParseRoute::Missing
        }
    }
}

/// The error text of a request that cannot be served.
pub fn parse_route_error(route: ParseRoute) -> (r: Option<String>)
    ensures
        route == ParseRoute::Missing ==> (r matches Some(e) && e@ == "either 'url' or 'content' is required"@),
        route == ParseRoute::BadUrl ==> (r matches Some(e) && e@
            == "invalid URL: must be http(s):// subscription or vmess/vless/trojan/ss link"@),
        route != ParseRoute::Missing && route != ParseRoute::BadUrl ==> r is None,
{
    match route {
        ParseRoute::Missing => Some(String::from_str("either 'url' or 'content' is required")),
        ParseRoute::BadUrl => Some(
            String::from_str("invalid URL: must be http(s):// subscription or vmess/vless/trojan/ss link"),
        ),
        _ => None,
    }
}

/// A request to resolve a domain name.
pub struct LookupRequest {
    pub domain: String,
}

/// The domain a lookup request names, trimmed; `None` when blank.
pub open spec fn lookup_domain_of(domain: Seq<char>) -> Option<Seq<char>> {
    if trim(domain).len() == 0 {
        None
    } else {
        Some(trim(domain))
    }
}

impl LookupRequest {
    /// The trimmed domain to resolve, or `None` when it is blank.
    pub fn domain_name(&self) -> (r: Option<String>)
        ensures
            match r {
                Some(d) => lookup_domain_of(self.domain@) == Some(d@),
                None => lookup_domain_of(self.domain@) is None,
            },
    {
        let t = trim_chars(&chars_of(self.domain.as_str()));
        if t.len() == 0 {
            None
        } else {
            Some(string_of(&t))
        }
    }
}

/// The `host:port` handed to the resolver for a domain (port 0).
pub fn lookup_target(domain: &str) -> (r: String)
    ensures
        r@ == domain@ + ":0"@,
{
    let mut v = chars_of(domain);
    push_str(&mut v, ":0");
    string_of(&v)
}

/// A list of addresses with an address added unless already present.
pub open spec fn with_unique(list: Seq<Seq<char>>, addr: Seq<char>) -> Seq<Seq<char>> {
    if list.contains(addr) {
        list
    } else {
        list.push(addr)
    }
}

/// No address occurs twice.
pub open spec fn no_repeats(list: Seq<Seq<char>>) -> bool {
    forall|i: int, j: int| 0 <= i < j < list.len() ==> list[i] != list[j]
}

/// Adding addresses one by one never lists one twice, and the added
/// address is listed afterwards.
pub proof fn lemma_unique_addresses(list: Seq<Seq<char>>, addr: Seq<char>)
    requires
        no_repeats(list),
    ensures
        no_repeats(with_unique(list, addr)),
        with_unique(list, addr).contains(addr),
{
    if !list.contains(addr) {
        let l2 = list.push(addr);
        assert(l2[list.len() as int] == addr);
        assert forall|i: int, j: int| 0 <= i < j < l2.len() implies l2[i] != l2[j] by {
            if j == list.len() {
                assert(list[i] == l2[i]);
            }
        }
    }
}

/// Adds an address unless it is listed already.
pub fn push_unique(list: &mut Vec<String>, addr: String)
    ensures
        strs(final(list)@) == with_unique(strs(old(list)@), addr@),
{
    let mut i: usize = 0;
    while i < list.len()
        invariant
            i <= list@.len(),
            list@ == old(list)@,
            forall|j: int| 0 <= j < i ==> strs(list@)[j] != addr@,
        decreases list@.len() - i,
    {
        if list[i] == addr {
            assert(strs(list@)[i as int] == addr@);
            return;
        }
        i = i + 1;
    }
    let ghost before = strs(list@);
    list.push(addr);
    assert(strs(list@) =~= before.push(addr@));
}

/// Log level part of a configuration update.
pub struct UpdateConfigLogging {
    pub level: Option<String>,
}

/// A configuration update: a new core section and/or a new log level.
pub struct UpdateConfigRequest {
    pub mihomo: Option<MihomoConfig>,
    pub logging: Option<UpdateConfigLogging>,
}

/// Whether a configuration change restarts the core: automatic restarts
/// are on and the core is running.
pub fn restart_wanted(auto_restart: bool, running: bool) -> (r: bool)
    ensures
        r == (auto_restart && running),
{
    auto_restart && running
}

/// Applies an update: a given core section replaces the current one, a
/// given non-empty log level replaces the current level. Tells whether
/// the core is to be restarted: a core section was given with automatic
/// restarts on while the core runs.
pub fn apply_update(cfg: &mut Config, req: UpdateConfigRequest, running: bool) -> (restart: bool)
    ensures
        restart == (req.mihomo matches Some(m) && m.auto_restart && running),
        req.mihomo is None ==> final(cfg).mihomo == old(cfg).mihomo,
        req.mihomo matches Some(m) ==> final(cfg).mihomo == m,
        (req.logging matches Some(l) && l.level matches Some(v) && v@.len() > 0) ==> final(cfg).logging.level@
            == req.logging->0.level->0@,
        !(req.logging matches Some(l) && l.level matches Some(v) && v@.len() > 0) ==> final(cfg).logging.level
            == old(cfg).logging.level,
        final(cfg).server == old(cfg).server,
        final(cfg).api == old(cfg).api,
        final(cfg).logging.file == old(cfg).logging.file,
{
    let mut restart = false;
    if let Some(m) = req.mihomo {
        restart = restart_wanted(m.auto_restart, running);
        cfg.mihomo = m;
    }
    if let Some(l) = req.logging {
        if let Some(lvl) = l.level {
            if !lvl.as_str().is_empty() {
                cfg.logging.level = lvl;
            }
        }
    }
    restart
}

/// Drops trailing `/` characters (`str::trim_end_matches('/')`).
pub open spec fn trim_slashes(s: Seq<char>) -> Seq<char>
    decreases s.len(),
{
    if s.len() > 0 && s.last() == '/' {
        trim_slashes(s.drop_last())
    } else {
        s
    }
}

/// Port of the core's API for the dashboard: the third `:`-separated
/// piece of the API URL without trailing slashes, else `9090`.
pub open spec fn dashboard_port_of(api_url: Seq<char>) -> Seq<char> {
    if api_url.len() > 0 && split(api_url, ':').len() >= 3 {
        trim_slashes(split(api_url, ':')[2])
    } else {
        "9090"@
    }
}

/// Port of the core's API shown to the dashboard.
pub fn dashboard_port(api_url: &str) -> (r: String)
    ensures
        r@ == dashboard_port_of(api_url@),
{
    let u = chars_of(api_url);
    if u.len() > 0 {
        let parts = split_chars(&u, ':');
        if parts.len() >= 3 {
            let p = &parts[2];
            assert(seqs_of(parts@)[2] == p@);
            let mut n = p.len();
            assert(p@.take(n as int) =~= p@);
            while n > 0 && p[n - 1] == '/'
                invariant
                    n <= p@.len(),
                    trim_slashes(p@) == trim_slashes(p@.take(n as int)),
                decreases n,
            {
                assert(p@.take(n as int).drop_last() =~= p@.take(n - 1));
                n = n - 1;
            }
            let t = crate::text::slice_chars(p, 0, n);
            assert(t@ =~= p@.take(n as int));
            return string_of(&t);
        }
    }
    String::from_str("9090")
}

/// Address of a request to the core's API: the API URL followed by the
/// path, with a leading `/` added when missing.
pub open spec fn api_target_of(api_url: Seq<char>, path: Seq<char>) -> Seq<char> {
    if starts_with(path, "/"@) {
        api_url + path
    } else {
        api_url + "/"@ + path
    }
}

/// Address of a request to the core's API.
pub fn api_target(api_url: &str, path: &str) -> (r: String)
    ensures
        r@ == api_target_of(api_url@, path@),
{
    let mut v = chars_of(api_url);
    let pc = chars_of(path);
    if !starts_with_str(&pc, "/") {
        push_str(&mut v, "/");
    }
    push_chars(&mut v, &pc);
    string_of(&v)
}

/// `Authorization` header value for the core's API: a bearer token when
/// a secret is set.
pub fn bearer_header(secret: &str) -> (r: Option<String>)
    ensures
        secret@.len() == 0 ==> r is None,
        secret@.len() > 0 ==> (r matches Some(h) && h@ == "Bearer "@ + secret@),
{
    if secret.is_empty() {
        None
    } else {
        let mut v = chars_of("Bearer ");
        push_str(&mut v, secret);
        Some(string_of(&v))
    }
}

/// The CORS policy to install.
pub struct CorsPlan {
    /// Allow everything (CORS handling switched off).
    pub permissive: bool,
    /// Any origin is allowed.
    pub any_origin: bool,
    /// The allowed origins, when not any.
    pub origins: Vec<String>,
    pub methods: Vec<String>,
    pub headers: Vec<String>,
    pub expose: Vec<String>,
    /// Credentials are allowed.
    pub credentials: bool,
    /// Preflight cache time in seconds, when positive.
    pub max_age: Option<u64>,
}

fn copy_strings(v: &Vec<String>) -> (r: Vec<String>)
    ensures
        strs(r@) == strs(v@),
{
    let mut out: Vec<String> = Vec::new();
    let mut i: usize = 0;
    while i < v.len()
        invariant
            i <= v@.len(),
            strs(out@) == strs(v@).take(i as int),
        decreases v@.len() - i,
    {
        let ghost before = strs(out@);
        out.push(v[i].clone());
        assert(strs(out@) =~= before.push(v@[i as int]@));
        assert(strs(v@).take(i + 1) =~= strs(v@).take(i as int).push(v@[i as int]@));
        i = i + 1;
    }
    assert(strs(v@).take(v@.len() as int) =~= strs(v@));
    out
}

fn has_star(v: &Vec<String>) -> (r: bool)
    ensures
        r == strs(v@).contains("*"@),
{
    let star = String::from_str("*");
    let mut i: usize = 0;
    while i < v.len()
        invariant
            i <= v@.len(),
            star@ == "*"@,
            forall|j: int| 0 <= j < i ==> strs(v@)[j] != "*"@,
        decreases v@.len() - i,
    {
        if v[i] == star {
            assert(strs(v@)[i as int] == "*"@);
            return true;
        }
        i = i + 1;
    }
    false
}

/// The CORS policy of a configuration: permissive when disabled; any
/// origin when `*` is listed (and then no credentials); the listed
/// methods and headers; a cache time when positive.
pub fn cors_plan(cfg: &CorsConfig) -> (r: CorsPlan)
    ensures
        r.permissive == !cfg.enabled,
        !cfg.enabled ==> !r.any_origin && r.origins@.len() == 0 && r.methods@.len() == 0 && r.headers@.len() == 0
            && r.expose@.len() == 0 && !r.credentials && r.max_age is None,
        cfg.enabled ==> {
            &&& r.any_origin == strs(cfg.allowed_origins@).contains("*"@)
            &&& !r.any_origin ==> strs(r.origins@) == strs(cfg.allowed_origins@)
            &&& strs(r.methods@) == strs(cfg.allowed_methods@)
            &&& strs(r.headers@) == strs(cfg.allowed_headers@)
            &&& strs(r.expose@) == strs(cfg.expose_headers@)
            &&& r.credentials == (cfg.allow_credentials && !strs(cfg.allowed_origins@).contains("*"@))
            &&& r.max_age == if cfg.max_age > 0 {
                Some(cfg.max_age as u64)
            } else {
                None::<u64>
            }
        },
{
    if !cfg.enabled {
        return CorsPlan {
            permissive: true,
            any_origin: false,
            origins: Vec::new(),
            methods: Vec::new(),
            headers: Vec::new(),
            expose: Vec::new(),
            credentials: false,
            max_age: None,
        };
    }
    let any = has_star(&cfg.allowed_origins);
    CorsPlan {
        permissive: false,
        any_origin: any,
        origins: if any {
            Vec::new()
        } else {
            copy_strings(&cfg.allowed_origins)
        },
        methods: copy_strings(&cfg.allowed_methods),
        headers: copy_strings(&cfg.allowed_headers),
        expose: copy_strings(&cfg.expose_headers),
        credentials: cfg.allow_credentials && !any,
        max_age: if cfg.max_age > 0 {
            Some(cfg.max_age as u64)
        } else {
            None
        },
    }
}

/// Drops leading `/` characters (`str::trim_start_matches('/')`).
pub open spec fn trim_leading_slashes(s: Seq<char>) -> Seq<char>
    decreases s.len(),
{
    if s.len() > 0 && s[0] == '/' {
        trim_leading_slashes(s.drop_first())
    } else {
        s
    }
}

/// Embedded asset a request path names: the path without leading
/// slashes, or `index.html` for the root.
pub open spec fn asset_path_of(uri_path: Seq<char>) -> Seq<char> {
    let p = trim_leading_slashes(uri_path);
    if p.len() == 0 {
        "index.html"@
    } else {
        p
    }
}

/// Embedded asset a request path names.
pub fn asset_path(uri_path: &str) -> (r: String)
    ensures
        r@ == asset_path_of(uri_path@),
{
    let v = chars_of(uri_path);
    let mut k: usize = 0;
    assert(v@.skip(0) =~= v@);
    while k < v.len() && v[k] == '/'
        invariant
            k <= v@.len(),
            trim_leading_slashes(v@) == trim_leading_slashes(v@.skip(k as int)),
        decreases v@.len() - k,
    {
        assert(v@.skip(k as int).drop_first() =~= v@.skip(k + 1));
        k = k + 1;
    }
    if k == v.len() {
        String::from_str("index.html")
    } else {
        let t = crate::text::slice_chars(&v, k, v.len());
        assert(t@ =~= v@.skip(k as int));
        string_of(&t)
    }
}

/// Unknown paths outside the API and the docs are served the
/// single-page application's `index.html`.
pub fn spa_fallback(uri_path: &str) -> (r: bool)
    ensures
        r == (!starts_with(uri_path@, "/api/"@) && !starts_with(uri_path@, "/docs"@)),
{
    let v = chars_of(uri_path);
    !starts_with_str(&v, "/api/") && !starts_with_str(&v, "/docs")
}

/// Whether a docs path asks for the API description itself.
pub fn is_swagger_json(uri_path: &str) -> (r: bool)
    ensures
        r == (uri_path@ == "/docs/swagger.json"@ || uri_path@ == "/docs/swagger.json/"@),
{
    let v = chars_of(uri_path);
    eq_str(&v, "/docs/swagger.json") || eq_str(&v, "/docs/swagger.json/")
}

/// Name of a backup archive made at `timestamp`.
pub fn backup_filename(timestamp: &str) -> (r: String)
    ensures
        r@ == "fusiontunx-backup-"@ + timestamp@ + ".tar.gz"@,
{
    let mut v = chars_of("fusiontunx-backup-");
    push_str(&mut v, timestamp);
    push_str(&mut v, ".tar.gz");
    string_of(&v)
}

/// `Content-Disposition` value offering a download under `filename`.
pub fn content_disposition(filename: &str) -> (r: String)
    ensures
        r@ == "attachment; filename=\""@ + filename@ + "\""@,
{
    let mut v = chars_of("attachment; filename=\"");
    push_str(&mut v, filename);
    push_str(&mut v, "\"");
    string_of(&v)
}

/// Where the first read of a log starts: its last 4096 bytes.
pub fn tail_start(size: u64) -> (r: u64)
    ensures
        r == if size > 4096 {
            (size - 4096) as u64
        } else {
            0u64
        },
{
    if size > 4096 {
        size - 4096
    } else {
        0
    }
}

/// What a log follower reads next after seeing the file's size.
#[derive(Debug, Clone, Copy, PartialEq, Eq, Structural)]
pub enum FollowStep {
    /// Nothing new: wait for the next tick.
    Wait,
    /// Read `len` bytes from offset `start`.
    Read { start: u64, len: u64 },
}

/// Position of a log follower: the offset up to which the file was sent.
pub struct LogFollow {
    pos: u64,
}

impl LogFollow {
    /// The offset sent so far.
    pub closed spec fn sent(&self) -> nat {
        self.pos as nat
    }

    /// A follower that has sent the file up to `size`.
    pub fn new(size: u64) -> (r: Self)
        ensures
            r.sent() == size,
    {
        LogFollow { pos: size }
    }

    /// The offset sent so far.
    pub fn position(&self) -> (r: u64)
        ensures
            r == self.sent(),
    {
        self.pos
    }

    /// Takes the file's current size: a file that shrank was truncated and
    /// is followed again from its start; then the bytes past the sent
    /// offset, if any, are to be read.
    pub fn on_size(&mut self, size: u64) -> (r: FollowStep)
        ensures
            final(self).sent() == if size < old(self).sent() {
                0
            } else {
                old(self).sent()
            },
            size == final(self).sent() ==> r == FollowStep::Wait,
            size != final(self).sent() ==> r == (FollowStep::Read {
                start: final(self).sent() as u64,
                len: (size - final(self).sent()) as u64,
            }),
    {
        if size < self.pos {
            self.pos = 0;
        }
        if size == self.pos {
            FollowStep::Wait
        } else {
            FollowStep::Read { start: self.pos, len: size - self.pos }
        }
    }

    /// Records that `n` more bytes were read and sent.
    pub fn advance(&mut self, n: u64)
        requires
            old(self).sent() + n <= u64::MAX,
        ensures
            final(self).sent() == old(self).sent() + n,
    {
        self.pos = self.pos + n;
    }
}

/// The messages sent for a piece of log text: its trimmed non-empty
/// `\n`-separated lines, without the first one when it is cut.
pub open spec fn log_messages(pieces: Seq<Seq<char>>, skip_first: bool) -> Seq<Seq<char>>
    decreases pieces.len(),
{
    if pieces.len() == 0 {
        seq![]
    } else if pieces.len() == 1 && skip_first {
        seq![]
    } else {
        let t = trim(pieces.last());
        let rest = log_messages(pieces.drop_last(), skip_first);
        if t.len() > 0 {
            rest.push(t)
        } else {
            rest
        }
    }
}

/// The messages to send for a piece of log text (split at `\n`).
pub fn log_lines(text: &str, skip_first: bool) -> (r: Vec<String>)
    ensures
        strs(r@) == log_messages(split(text@, '\n'), skip_first),
{
    let pieces = split_chars(&chars_of(text), '\n');
    let ghost ps = seqs_of(pieces@);
    let mut out: Vec<String> = Vec::new();
    let mut i: usize = 0;
    assert(ps.take(0) =~= Seq::<Seq<char>>::empty());
    assert(strs(out@) =~= log_messages(ps.take(0), skip_first));
    while i < pieces.len()
        invariant
            i <= pieces@.len(),
            ps == seqs_of(pieces@),
            ps == split(text@, '\n'),
            strs(out@) == log_messages(ps.take(i as int), skip_first),
        decreases pieces@.len() - i,
    {
        let ghost tk = ps.take(i + 1);
        assert(tk.drop_last() =~= ps.take(i as int));
        assert(tk.last() == pieces@[i as int]@);
        if !(i == 0 && skip_first) {
            let t = trim_chars(&pieces[i]);
            if t.len() > 0 {
                let ghost before = strs(out@);
                out.push(string_of(&t));
                assert(strs(out@) =~= before.push(t@));
            }
        } else {
            assert(tk.len() == 1);
        }
        i = i + 1;
    }
    assert(ps.take(pieces@.len() as int) =~= ps);
    out
}

/// The trimmed non-empty lines of a chunk of streamed text.
pub open spec fn stream_messages(ls: Seq<Seq<char>>) -> Seq<Seq<char>>
    decreases ls.len(),
{
    if ls.len() == 0 {
        seq![]
    } else {
        let t = trim(ls.last());
        if t.len() > 0 {
            stream_messages(ls.drop_last()).push(t)
        } else {
            stream_messages(ls.drop_last())
        }
    }
}

/// The messages to send for a chunk of streamed text (split into lines).
pub fn stream_lines(text: &str) -> (r: Vec<String>)
    ensures
        strs(r@) == stream_messages(lines(text@)),
{
    let ls = lines_chars(&chars_of(text));
    let ghost all = seqs_of(ls@);
    let mut out: Vec<String> = Vec::new();
    let mut i: usize = 0;
    assert(all.take(0) =~= Seq::<Seq<char>>::empty());
    assert(strs(out@) =~= stream_messages(all.take(0)));
    while i < ls.len()
        invariant
            i <= ls@.len(),
            all == seqs_of(ls@),
            all == lines(text@),
            strs(out@) == stream_messages(all.take(i as int)),
        decreases ls@.len() - i,
    {
        let ghost tk = all.take(i + 1);
        assert(tk.drop_last() =~= all.take(i as int));
        assert(tk.last() == ls@[i as int]@);
        let t = trim_chars(&ls[i]);
        if t.len() > 0 {
            let ghost before = strs(out@);
            out.push(string_of(&t));
            assert(strs(out@) =~= before.push(t@));
        }
        i = i + 1;
    }
    assert(all.take(ls@.len() as int) =~= all);
    out
}

} // verus!
