//! The serve agent's logic: reading its command line, naming the served
//! files, the download page, and how a request is answered.
use crate::builds::extension_of;
use crate::store::strings_view;
use crate::text::{
    decimal, decimal_string, last_segment, name_ext, name_stem, portable_path, str_equals,
};
use vstd::prelude::*;

verus! {

/// Index `i` holds the first argument equal to `key`.
pub open spec fn first_arg(args: Seq<Seq<char>>, key: Seq<char>, i: int) -> bool {
    &&& 0 <= i < args.len()
    &&& args[i] == key
    &&& forall|j: int| 0 <= j < i ==> args[j] != key
}

/// The value given for `key`: the argument after its first occurrence.
pub open spec fn arg_value(args: Seq<Seq<char>>, key: Seq<char>) -> Option<Seq<char>> {
    if exists|i: int| first_arg(args, key, i) {
        let i = choose|i: int| first_arg(args, key, i);
        if i + 1 < args.len() {
            Some(args[i + 1])
        } else {
            None
        }
    } else {
        None
    }
}

proof fn lemma_first_arg_unique(args: Seq<Seq<char>>, key: Seq<char>, i: int)
    requires
        first_arg(args, key, i),
    ensures
        (choose|k: int| first_arg(args, key, k)) == i,
{
    let c = choose|k: int| first_arg(args, key, k);
    if c < i {
        assert(args[c] == key);
    } else if i < c {
        assert(args[i] == key);
    }
}

/// The argument after the first occurrence of `key`, if any.
pub fn get_arg_value(args: &Vec<String>, key: &str) -> (r: Option<String>)
    ensures
        crate::models::opt_view(r) == arg_value(strings_view(args@), key@),
{
    let ghost av = strings_view(args@);
    let mut i: usize = 0;
    while i < args.len()
        invariant
            i <= args.len(),
            av == strings_view(args@),
            forall|j: int| 0 <= j < i ==> av[j] != key@,
        decreases args.len() - i,
    {
        if str_equals(args[i].as_str(), key) {
            proof {
                assert(first_arg(av, key@, i as int));
                lemma_first_arg_unique(av, key@, i as int);
            }
            if i + 1 < args.len() {
                return Some(args[i + 1].clone());
            } else {
                return None;
            }
        }
        i = i + 1;
    }
    proof {
        if exists|k: int| first_arg(av, key@, k) {
            let k = choose|k: int| first_arg(av, key@, k);
            assert(av[k] == key@);
        }
    }
    None
}

pub open spec fn is_digit(c: char) -> bool {
    '0' <= c && c <= '9'
}

/// The number the decimal digits `s` write.
pub open spec fn digits_value(s: Seq<char>) -> nat
    decreases s.len(),
{
    if s.len() == 0 {
        0
    } else {
        digits_value(s.drop_last()) * 10 + ((s.last() as u32) - 48) as nat
    }
}

/// What `str::parse::<u16>` accepts: an optional `+`, then one or more
/// decimal digits whose value fits in 16 bits.
pub open spec fn all_digits(d: Seq<char>) -> bool {
    forall|k: int| 0 <= k < d.len() ==> is_digit(#[trigger] d[k])
}

pub open spec fn unsigned_part(s: Seq<char>) -> Seq<char> {
    if s.len() > 0 && s[0] == '+' {
        s.drop_first()
    } else {
        s
    }
}

pub open spec fn parse_u16(s: Seq<char>) -> Option<u16> {
    let d = unsigned_part(s);
    if d.len() > 0 && all_digits(d) && digits_value(d) <= 65535 {
        Some(digits_value(d) as u16)
    } else {
        None
    }
}

/// `str::parse::<u16>`, as an option.
pub fn parse_port(s: &str) -> (r: Option<u16>)
    ensures
        r == parse_u16(s@),
{
    let n = s.unicode_len();
    let mut i: usize = 0;
    if n > 0 && s.get_char(0) == '+' {
        i = 1;
    }
    let ghost d = unsigned_part(s@);
    assert(d =~= s@.skip(i as int));
    if i == n {
        return None;
    }
    let start = i;
    let mut value: u32 = 0;
    while i < n
        invariant
            n == s@.len(),
            start <= i <= n,
            start < n,
            d == s@.skip(start as int),
            d == unsigned_part(s@),
            forall|k: int| start <= k < i ==> is_digit(#[trigger] s@[k]),
            value as nat == digits_value(s@.subrange(start as int, i as int)),
            value <= 65535,
        decreases n - i,
    {
        let c = s.get_char(i);
        proof {
            assert(s@.subrange(start as int, i + 1).drop_last() =~= s@.subrange(start as int, i as int));
            assert(d[i - start] == c);
        }
        if !('0' <= c && c <= '9') {
            assert(!is_digit(d[i - start]));
            assert(!all_digits(d));
            assert(parse_u16(s@) is None);
            return None;
        }
        let digit: u32 = (c as u32) - 48;
        if value > 6553 || (value == 6553 && digit > 5) {
            proof {
                let m = i - start;
                let p = d.subrange(0, m + 1);
                assert(p.drop_last() =~= s@.subrange(start as int, i as int));
                assert(p.last() == c);
                assert(digits_value(p) == value * 10 + digit);
                lemma_digits_grow(d, (i - start + 1) as int);
                assert(d.subrange(0, i - start + 1) =~= s@.subrange(start as int, i + 1));
            }
            return None;
        }
        value = value * 10 + digit;
        i = i + 1;
    }
    proof {
        assert(s@.subrange(start as int, n as int) =~= d);
        assert forall|k: int| 0 <= k < d.len() implies is_digit(#[trigger] d[k]) by {
            assert(d[k] == s@[start + k]);
        }
        assert(all_digits(d));
    }
    Some(value as u16)
}

proof fn lemma_digits_prefix_le(d: Seq<char>, k: int)
    requires
        0 <= k <= d.len(),
    ensures
        digits_value(d.subrange(0, k)) <= digits_value(d),
    decreases d.len() - k,
{
    if k < d.len() {
        lemma_digits_prefix_le(d, k + 1);
        let p = d.subrange(0, k + 1);
        assert(p.drop_last() =~= d.subrange(0, k));
        assert(digits_value(p) >= digits_value(d.subrange(0, k)) * 10) by (nonlinear_arith)
            requires
                digits_value(p) == digits_value(p.drop_last()) * 10 + ((p.last() as u32) - 48) as nat,
                p.drop_last() == d.subrange(0, k),
        {
        }
        assert(digits_value(d.subrange(0, k)) <= digits_value(d.subrange(0, k)) * 10) by (nonlinear_arith);
    } else {
        assert(d.subrange(0, k) =~= d);
    }
}

proof fn lemma_digits_grow(d: Seq<char>, k: int)
    requires
        0 < k <= d.len(),
        digits_value(d.subrange(0, k)) > 65535,
    ensures
        digits_value(d) > 65535,
{
    lemma_digits_prefix_le(d, k);
}

/// The command line of the serve agent: `--projects`, `--project`,
/// `--port` (8080 when absent or not a port number), `--bind` (`0.0.0.0`
/// when absent) and `--host` (the bind address when absent).
pub struct AgentArgs {
    pub projects_path: String,
    pub project_name: String,
    pub port: u16,
    pub bind: String,
    pub host: String,
}

pub open spec fn or_empty(o: Option<Seq<char>>) -> Seq<char> {
    match o {
        Some(s) => s,
        None => Seq::empty(),
    }
}

pub fn parse_agent_args(args: &Vec<String>) -> (r: AgentArgs)
    ensures
        r.projects_path@ == or_empty(arg_value(strings_view(args@), "--projects"@)),
        r.project_name@ == or_empty(arg_value(strings_view(args@), "--project"@)),
        r.port == match arg_value(strings_view(args@), "--port"@) {
            Some(v) => match parse_u16(v) {
                Some(p) => p,
                None => 8080,
            },
            None => 8080,
        },
        r.bind@ == match arg_value(strings_view(args@), "--bind"@) {
            Some(v) => v,
            None => "0.0.0.0"@,
        },
        r.host@ == match arg_value(strings_view(args@), "--host"@) {
            Some(v) => v,
            None => r.bind@,
        },
{
    let projects_path = match get_arg_value(args, "--projects") {
        Some(v) => v,
        None => String::new(),
    };
    let project_name = match get_arg_value(args, "--project") {
        Some(v) => v,
        None => String::new(),
    };
    let port = match get_arg_value(args, "--port") {
        Some(v) => match parse_port(v.as_str()) {
            Some(p) => p,
            None => 8080,
        },
        None => 8080,
    };
    let bind = match get_arg_value(args, "--bind") {
        Some(v) => v,
        None => "0.0.0.0".to_string(),
    };
    let host = match get_arg_value(args, "--host") {
        Some(v) => v,
        None => bind.clone(),
    };
    AgentArgs { projects_path, project_name, port, bind, host }
}

/// The characters kept in served file names; others become `_`.
pub open spec fn safe_char(c: char) -> char {
    if ('a' <= c && c <= 'z') || ('A' <= c && c <= 'Z') || ('0' <= c && c <= '9') || c == '.'
        || c == '-' || c == '_' {
        c
    } else {
        '_'
    }
}

pub open spec fn sanitized(s: Seq<char>) -> Seq<char> {
    s.map_values(|c: char| safe_char(c))
}

/// Replaces every character other than ASCII letters, digits, `.`, `-` and
/// `_` by `_`.
pub fn sanitize_segment(value: &str) -> (r: String)
    ensures
        r@ == sanitized(value@),
{
    let n = value.unicode_len();
    let mut out = String::new();
    let mut i: usize = 0;
    while i < n
        invariant
            n == value@.len(),
            i <= n,
            out@ == sanitized(value@.subrange(0, i as int)),
        decreases n - i,
    {
        let c = value.get_char(i);
        let k = if ('a' <= c && c <= 'z') || ('A' <= c && c <= 'Z') || ('0' <= c && c <= '9') || c
            == '.' || c == '-' || c == '_' {
            c
        } else {
            '_'
        };
        out.push(k);
        proof {
            assert(value@.subrange(0, i + 1) =~= value@.subrange(0, i as int).push(c));
            assert(sanitized(value@.subrange(0, i + 1)) =~= sanitized(value@.subrange(0, i as int)).push(k));
        }
        i = i + 1;
    }
    assert(value@.subrange(0, n as int) =~= value@);
    out
}

/// Served file names only hold ASCII letters, digits, `.`, `-` and `_`, and
/// sanitizing one changes nothing.
pub proof fn sanitized_is_safe(s: Seq<char>)
    ensures
        sanitized(s).len() == s.len(),
        forall|i: int| 0 <= i < s.len() ==> #[trigger] safe_char(sanitized(s)[i]) == sanitized(s)[i],
        sanitized(sanitized(s)) == sanitized(s),
{
    assert(sanitized(sanitized(s)) =~= sanitized(s));
}

/// The HTML escape of one character.
pub open spec fn escape_char(c: char) -> Seq<char> {
    if c == '&' {
        "&amp;"@
    } else if c == '<' {
        "&lt;"@
    } else if c == '>' {
        "&gt;"@
    } else if c == '"' {
        "&quot;"@
    } else {
        seq![c]
    }
}

pub open spec fn escaped(s: Seq<char>) -> Seq<char>
    decreases s.len(),
{
    if s.len() == 0 {
        Seq::empty()
    } else {
        escaped(s.drop_last()) + escape_char(s.last())
    }
}

/// Escapes `&`, `<`, `>` and `"` for HTML (the first is done first, so the
/// others' entities are not escaped again).
pub fn escape_html(input: &str) -> (r: String)
    ensures
        r@ == escaped(input@),
{
    let n = input.unicode_len();
    let mut out = String::new();
    let mut i: usize = 0;
    while i < n
        invariant
            n == input@.len(),
            i <= n,
            out@ == escaped(input@.subrange(0, i as int)),
        decreases n - i,
    {
        let c = input.get_char(i);
        proof {
            assert(input@.subrange(0, i + 1).drop_last() =~= input@.subrange(0, i as int));
        }
        if c == '&' {
            out.append("&amp;");
        } else if c == '<' {
            out.append("&lt;");
        } else if c == '>' {
            out.append("&gt;");
        } else if c == '"' {
            out.append("&quot;");
        } else {
            let ghost before = out@;
            out.push(c);
            assert(out@ =~= before + seq![c]);
        }
        i = i + 1;
    }
    assert(input@.subrange(0, n as int) =~= input@);
    out
}

proof fn lemma_escaped_safe(s: Seq<char>)
    ensures
        !escaped(s).contains('<'),
        !escaped(s).contains('>'),
        !escaped(s).contains('"'),
    decreases s.len(),
{
    reveal_strlit("&amp;");
    reveal_strlit("&lt;");
    reveal_strlit("&gt;");
    reveal_strlit("&quot;");
    if s.len() > 0 {
        lemma_escaped_safe(s.drop_last());
        let a = escaped(s.drop_last());
        let b = escape_char(s.last());
        assert forall|c: char| c == '<' || c == '>' || c == '"' implies !(a + b).contains(c) by {
            if (a + b).contains(c) {
                let k = choose|k: int| 0 <= k < (a + b).len() && (a + b)[k] == c;
                if k < a.len() {
                    assert(a[k] == c);
                } else {
                    assert(b[k - a.len()] == c);
                }
            }
        }
    }
}

/// Escaped text holds no `<`, `>` or `"`, so it cannot open or close a tag
/// or an attribute value.
pub proof fn escaped_has_no_markup(s: Seq<char>)
    ensures
        !escaped(s).contains('<'),
        !escaped(s).contains('>'),
        !escaped(s).contains('"'),
{
    lemma_escaped_safe(s);
}

/// The path part of a request URL: what comes before the first `?`.
pub open spec fn url_path(url: Seq<char>) -> Seq<char> {
    if url.contains('?') {
        url.subrange(0, choose|k: int| 0 <= k < url.len() && url[k] == '?' && forall|j: int| 0 <= j < k ==> url[j] != '?')
    } else {
        url
    }
}

pub fn split_url(url: &str) -> (r: String)
    ensures
        r@ == url_path(url@),
        !r@.contains('?'),
{
    let n = url.unicode_len();
    let mut i: usize = 0;
    while i < n && url.get_char(i) != '?'
        invariant
            n == url@.len(),
            i <= n,
            forall|j: int| 0 <= j < i ==> url@[j] != '?',
        decreases n - i,
    {
        i = i + 1;
    }
    proof {
        if i < n {
            let c = choose|k: int| 0 <= k < url@.len() && url@[k] == '?' && forall|j: int| 0 <= j < k ==> url@[j] != '?';
            assert(url@[i as int] == '?');
            if c < i {
                assert(url@[c] != '?');
            } else if i < c {
                assert(url@[i as int] != '?');
            }
        } else {
            assert(url@.subrange(0, n as int) =~= url@);
        }
    }
    crate::text::substring(url, 0, i)
}

/// How the agent answers a request.
pub enum Route {
    /// A CORS preflight (`OPTIONS`): empty, status 204.
    Preflight,
    /// The download page.
    Index,
    /// A served file, by the name asked for (after `/files/`).
    File { name: String },
    /// Anything else: status 404.
    NotFound,
}

pub fn route_request(is_options: bool, url: &str) -> (r: Route)
    ensures
        is_options ==> r is Preflight,
        !is_options ==> {
            let path = url_path(url@);
            if path == "/"@ {
                r is Index
            } else if crate::text::has_prefix(path, "/files/"@) {
                r matches Route::File { name } && name@ == path.skip(7)
            } else {
                r is NotFound
            }
        },
{
    if is_options {
        return Route::Preflight;
    }
    let path = split_url(url);
    if str_equals(path.as_str(), "/") {
        Route::Index
    } else if crate::text::starts_with(path.as_str(), "/files/") {
        proof { reveal_strlit("/files/"); }
        let n = path.as_str().unicode_len();
        let name = crate::text::substring(path.as_str(), 7, n);
        assert(name@ =~= path@.skip(7));
        Route::File { name }
    } else {
        Route::NotFound
    }
}

/// The content type a served file is sent with: APKs as Android packages,
/// anything else as bytes.
pub open spec fn content_type(ext: Option<Seq<char>>) -> Seq<char> {
    if ext == Some("apk"@) {
        "application/vnd.android.package-archive"@
    } else {
        "application/octet-stream"@
    }
}

pub fn content_type_for_extension(ext: &Option<String>) -> (r: &'static str)
    ensures
        r@ == content_type(crate::models::opt_view(*ext)),
{
    let is_apk = match ext {
        Some(e) => str_equals(e.as_str(), "apk"),
        None => false,
    };
    if is_apk {
        "application/vnd.android.package-archive"
    } else {
        "application/octet-stream"
    }
}

/// The content type of a served file, from its name's extension as the
/// platform reads it.
pub fn content_type_for(file_name: &str) -> (r: &'static str)
    ensures
        r@ == "application/vnd.android.package-archive"@ || r@ == "application/octet-stream"@,
        portable_path(file_name@) ==> r@ == content_type(name_ext(last_segment(file_name@))),
{
    let ext = extension_of(file_name);
    content_type_for_extension(&ext)
}

/// One file offered on the download page.
pub struct ArtifactItem {
    pub label: String,
    pub file_name: String,
    pub size: u64,
}

pub struct ArtifactItemView {
    pub label: Seq<char>,
    pub file_name: Seq<char>,
    pub size: nat,
}

impl View for ArtifactItem {
    type V = ArtifactItemView;

    open spec fn view(&self) -> ArtifactItemView {
        ArtifactItemView { label: self.label@, file_name: self.file_name@, size: self.size as nat }
    }
}

pub open spec fn items_view(v: Seq<ArtifactItem>) -> Seq<ArtifactItemView> {
    v.map_values(|x: ArtifactItem| x@)
}

pub open spec fn page_head() -> Seq<char> {
    "<!doctype html><html><head><meta charset=\"utf-8\">"@ + "<title>BuildBridge Serve</title>"@
        + "<meta name=\"viewport\" content=\"width=device-width, initial-scale=1\">"@
        + "<style>body{font-family:Arial,sans-serif;margin:24px;background-color:#f5f5f5;}\n"@
        + ".card{background:white;padding:16px;border-radius:8px;box-shadow:0 2px 4px rgba(0,0,0,0.1);}\n"@
        + ".item{margin-bottom:12px;padding:8px;border-bottom:1px solid #eee;}\n"@
        + "a{color:#1565c0;text-decoration:none;font-weight:bold;font-size:1.1em;}\n"@
        + "small{color:#666;}</style>"@ + "</head><body><div class=\"card\">"@
}

/// The entry of one file on the page: a download link and its size.
pub open spec fn item_html(it: ArtifactItemView) -> Seq<char> {
    "<div class=\"item\">"@ + "<a href=\""@ + escaped("files/"@ + it.file_name) + "\" download>"@
        + escaped(it.label) + "</a><br><small>Size: "@ + decimal(it.size) + " bytes</small>"@
        + "</div>"@
}

pub open spec fn items_html(items: Seq<ArtifactItemView>) -> Seq<char>
    decreases items.len(),
{
    if items.len() == 0 {
        Seq::empty()
    } else {
        items_html(items.drop_last()) + item_html(items.last())
    }
}

/// The download page of a project.
pub open spec fn index_html(project_name: Seq<char>, items: Seq<ArtifactItemView>) -> Seq<char> {
    page_head() + "<h2>"@ + escaped(project_name) + "</h2>"@ + (if items.len() == 0 {
        "<p>No artifacts available.</p>"@
    } else {
        "<div>"@ + items_html(items) + "</div>"@
    }) + "</div></body></html>"@
}

pub fn build_index_html(project_name: &str, items: &Vec<ArtifactItem>) -> (r: String)
    ensures
        r@ == index_html(project_name@, items_view(items@)),
{
    let mut html = String::new();
    html.append("<!doctype html><html><head><meta charset=\"utf-8\">");
    html.append("<title>BuildBridge Serve</title>");
    html.append("<meta name=\"viewport\" content=\"width=device-width, initial-scale=1\">");
    html.append("<style>body{font-family:Arial,sans-serif;margin:24px;background-color:#f5f5f5;}\n");
    html.append(".card{background:white;padding:16px;border-radius:8px;box-shadow:0 2px 4px rgba(0,0,0,0.1);}\n");
    html.append(".item{margin-bottom:12px;padding:8px;border-bottom:1px solid #eee;}\n");
    html.append("a{color:#1565c0;text-decoration:none;font-weight:bold;font-size:1.1em;}\n");
    html.append("small{color:#666;}</style>");
    html.append("</head><body><div class=\"card\">");
    assert(html@ =~= page_head());
    html.append("<h2>");
    let name = escape_html(project_name);
    html.append(name.as_str());
    html.append("</h2>");
    let ghost head = html@;
    if items.len() == 0 {
        html.append("<p>No artifacts available.</p>");
    } else {
        html.append("<div>");
        let ghost start = html@;
        let mut i: usize = 0;
        while i < items.len()
            invariant
                i <= items.len(),
                html@ == start + items_html(items_view(items@).subrange(0, i as int)),
            decreases items.len() - i,
        {
            let it = &items[i];
            let ghost before = html@;
            html.append("<div class=\"item\">");
            let link = crate::text::concat2("files/", it.file_name.as_str());
            let el = escape_html(link.as_str());
            let ll = escape_html(it.label.as_str());
            let sz = decimal_string(it.size);
            html.append("<a href=\"");
            html.append(el.as_str());
            html.append("\" download>");
            html.append(ll.as_str());
            html.append("</a><br><small>Size: ");
            html.append(sz.as_str());
            html.append(" bytes</small>");
            html.append("</div>");
            proof {
                let iv = items_view(items@);
                assert(iv.subrange(0, i + 1).drop_last() =~= iv.subrange(0, i as int));
                assert(iv[i as int] == it@);
                assert(html@ =~= before + item_html(it@));
            }
            i = i + 1;
        }
        assert(items_view(items@).subrange(0, items@.len() as int) =~= items_view(items@));
        html.append("</div>");
    }
    html.append("</div></body></html>");
    html
}

/// The candidates for a file's name in the served folder: the name itself,
/// then `stem-1.ext`, `stem-2.ext`, ... (`stem-k` when there is no
/// extension).
pub open spec fn candidate(file_name: Seq<char>, stem: Seq<char>, ext: Option<Seq<char>>, k: nat) -> Seq<char> {
    if k == 0 {
        file_name
    } else {
        match ext {
            Some(e) => stem + "-"@ + decimal(k) + "."@ + e,
            None => stem + "-"@ + decimal(k),
        }
    }
}

/// The name a copied file gets: the first candidate (of the name and
/// indices 1 to 999) not already taken, or the one of index 999 when all are.
pub open spec fn chosen_name(
    file_name: Seq<char>,
    stem: Seq<char>,
    ext: Option<Seq<char>>,
    taken: Seq<Seq<char>>,
) -> Seq<char> {
    if exists|k: nat| k < 1000 && !taken.contains(candidate(file_name, stem, ext, k)) {
        candidate(
            file_name,
            stem,
            ext,
            choose|k: nat|
                k < 1000 && !taken.contains(candidate(file_name, stem, ext, k)) && forall|j: nat|
                    j < k ==> taken.contains(candidate(file_name, stem, ext, j)),
        )
    } else {
        candidate(file_name, stem, ext, 999)
    }
}

fn candidate_exec(file_name: &str, stem: &str, ext: &Option<String>, k: u64) -> (r: String)
    ensures
        r@ == candidate(file_name@, stem@, crate::models::opt_view(*ext), k as nat),
{
    if k == 0 {
        file_name.to_string()
    } else {
        let num = decimal_string(k);
        match ext {
            Some(e) => {
                let mut s = crate::text::concat3(stem, "-", num.as_str());
                s.append(".");
                s.append(e.as_str());
                s
            },
            None => crate::text::concat3(stem, "-", num.as_str()),
        }
    }
}

fn contains_text(v: &Vec<String>, s: &str) -> (r: bool)
    ensures
        r == strings_view(v@).contains(s@),
{
    let mut i: usize = 0;
    while i < v.len()
        invariant
            i <= v.len(),
            forall|j: int| 0 <= j < i ==> v@[j]@ != s@,
        decreases v.len() - i,
    {
        if str_equals(v[i].as_str(), s) {
            assert(strings_view(v@)[i as int] == s@);
            return true;
        }
        i = i + 1;
    }
    proof {
        if strings_view(v@).contains(s@) {
            let j = choose|j: int| 0 <= j < v@.len() && strings_view(v@)[j] == s@;
            assert(v@[j]@ == s@);
        }
    }
    false
}

/// The name a copied file gets in a folder where the names `taken` exist,
/// given the file name's stem and extension.
pub fn unique_destination_from(
    file_name: &str,
    stem: &str,
    ext: &Option<String>,
    taken: &Vec<String>,
) -> (r: String)
    ensures
        r@ == chosen_name(file_name@, stem@, crate::models::opt_view(*ext), strings_view(taken@)),
{
    let ghost tv = strings_view(taken@);
    let ghost ev = crate::models::opt_view(*ext);
    let mut k: u64 = 0;
    while k < 1000
        invariant
            k <= 1000,
            tv == strings_view(taken@),
            ev == crate::models::opt_view(*ext),
            forall|j: nat| j < k ==> tv.contains(candidate(file_name@, stem@, ev, j)),
        decreases 1000 - k,
    {
        let c = candidate_exec(file_name, stem, ext, k);
        if !contains_text(taken, c.as_str()) {
            proof {
                let w = choose|w: nat|
                    w < 1000 && !tv.contains(candidate(file_name@, stem@, ev, w)) && forall|j: nat|
                        j < w ==> tv.contains(candidate(file_name@, stem@, ev, j));
                assert(k < 1000 && !tv.contains(candidate(file_name@, stem@, ev, k as nat)) && forall|j: nat|
                    j < k ==> tv.contains(candidate(file_name@, stem@, ev, j)));
                if w < k {
                    assert(tv.contains(candidate(file_name@, stem@, ev, w)));
                } else if k < w {
                    assert(tv.contains(candidate(file_name@, stem@, ev, k as nat)));
                }
            }
            return c;
        }
        k = k + 1;
    }
    proof {
        assert forall|w: nat| w < 1000 implies tv.contains(candidate(file_name@, stem@, ev, w)) by {
            assert(w < k);
        }
    }
    candidate_exec(file_name, stem, ext, 999)
}

/// Calls `Path::file_stem` on a file name and returns the stem as text.
/// For a path that every platform splits the same way (`portable_path`) it
/// is the stem that the documentation gives for the text after the last
/// `/`; for other paths which part is the file name depends on the
/// platform and is left unsaid.
#[verifier::external_body]
pub fn file_stem_of(file_name: &str) -> (r: Option<String>)
    ensures
        portable_path(file_name@) ==> crate::models::opt_view(r) == Some(
            name_stem(last_segment(file_name@)),
        ),
{
    std::path::Path::new(file_name).file_stem().and_then(|s| s.to_str()).map(|s| s.to_owned())
}

/// The name a copied file gets in a folder where the names `taken` exist:
/// the name itself when it is free, else as `unique_destination_from`
/// chooses with the stem (`file` when there is none) and extension that the
/// platform reads from the name; for a name that every platform reads the
/// same way, those are the name's own stem and extension.
pub fn unique_destination(file_name: &str, taken: &Vec<String>) -> (r: String)
    ensures
        !strings_view(taken@).contains(file_name@) ==> r@ == file_name@,
        portable_path(file_name@) ==> r@ == chosen_name(
            file_name@,
            name_stem(last_segment(file_name@)),
            name_ext(last_segment(file_name@)),
            strings_view(taken@),
        ),
        exists|stem: Seq<char>, ext: Option<Seq<char>>|
            r@ == chosen_name(file_name@, stem, ext, strings_view(taken@)),
{
    let stem = match file_stem_of(file_name) {
        Some(s) => s,
        None => "file".to_string(),
    };
    let ext = extension_of(file_name);
    let r = unique_destination_from(file_name, stem.as_str(), &ext, taken);
    proof {
        let tv = strings_view(taken@);
        let ev = crate::models::opt_view(ext);
        if !tv.contains(file_name@) {
            let w = choose|w: nat|
                w < 1000 && !tv.contains(candidate(file_name@, stem@, ev, w)) && forall|j: nat|
                    j < w ==> tv.contains(candidate(file_name@, stem@, ev, j));
            assert(!tv.contains(candidate(file_name@, stem@, ev, 0)));
            if w > 0 {
                assert(tv.contains(candidate(file_name@, stem@, ev, 0)));
            }
        }
    }
    r
}

/// A lower-case hexadecimal digit.
pub open spec fn hex_char(d: nat) -> char {
    if d < 10 {
        ((d + 48) as u32) as char
    } else {
        ((d + 87) as u32) as char
    }
}

/// The lower-case hexadecimal digits of `n`, as `{:x}` writes them.
pub open spec fn hex(n: nat) -> Seq<char>
    decreases n,
{
    if n < 16 {
        seq![hex_char(n)]
    } else {
        hex(n / 16).push(hex_char(n % 16))
    }
}

fn hex_string(n: u64) -> (r: String)
    ensures
        r@ == hex(n as nat),
    decreases n,
{
    let d = n % 16;
    let c: char = if d < 10 {
        ((d as u8) + 48) as char
    } else {
        ((d as u8) + 87) as char
    };
    assert(c == hex_char(d as nat));
    if n < 16 {
        let mut s = String::new();
        s.push(c);
        assert(s@ =~= seq![hex_char(n as nat)]);
        s
    } else {
        let mut s = hex_string(n / 16);
        s.push(c);
        s
    }
}

/// The serve token for a moment given as whole seconds and nanoseconds
/// since the Unix epoch: both in lower-case hexadecimal, one after the
/// other.
pub fn generate_token(secs: u64, nanos: u32) -> (r: String)
    ensures
        r@ == hex(secs as nat) + hex(nanos as nat),
{
    let a = hex_string(secs);
    let b = hex_string(nanos as u64);
    crate::text::concat2(a.as_str(), b.as_str())
}

/// A copied file never overwrites one that is there, as long as one of the
/// candidate names is free.
pub proof fn chosen_name_is_free(
    file_name: Seq<char>,
    stem: Seq<char>,
    ext: Option<Seq<char>>,
    taken: Seq<Seq<char>>,
)
    requires
        exists|k: nat| k < 1000 && !taken.contains(candidate(file_name, stem, ext, k)),
    ensures
        !taken.contains(chosen_name(file_name, stem, ext, taken)),
{
    let w = choose|k: nat| k < 1000 && !taken.contains(candidate(file_name, stem, ext, k));
    lemma_least_free(file_name, stem, ext, taken, w);
}

proof fn lemma_least_free(
    file_name: Seq<char>,
    stem: Seq<char>,
    ext: Option<Seq<char>>,
    taken: Seq<Seq<char>>,
    w: nat,
)
    requires
        w < 1000,
        !taken.contains(candidate(file_name, stem, ext, w)),
    ensures
        exists|k: nat|
            k < 1000 && !taken.contains(candidate(file_name, stem, ext, k)) && forall|j: nat|
                j < k ==> taken.contains(candidate(file_name, stem, ext, j)),
    decreases w,
{
    if forall|j: nat| j < w ==> taken.contains(candidate(file_name, stem, ext, j)) {
    } else {
        let v = choose|j: nat| j < w && !taken.contains(candidate(file_name, stem, ext, j));
        lemma_least_free(file_name, stem, ext, taken, v);
    }
}

/// The value of an option is the argument right after the option's first
/// occurrence: none when the option is absent or is the last argument.
pub proof fn option_value_follows_key(args: Seq<Seq<char>>, key: Seq<char>, i: int)
    requires
        0 <= i < args.len(),
        args[i] == key,
        forall|j: int| 0 <= j < i ==> args[j] != key,
    ensures
        i + 1 < args.len() ==> arg_value(args, key) == Some(args[i + 1]),
        i + 1 == args.len() ==> arg_value(args, key) is None,
{
    assert(first_arg(args, key, i));
    lemma_first_arg_unique(args, key, i);
}

/// An option that does not occur has no value.
pub proof fn absent_option_has_no_value(args: Seq<Seq<char>>, key: Seq<char>)
    requires
        !args.contains(key),
    ensures
        arg_value(args, key) is None,
{
    if exists|i: int| first_arg(args, key, i) {
        let i = choose|i: int| first_arg(args, key, i);
        assert(args[i] == key);
    }
}

/// The path of a request URL is the URL up to its first `?`: a prefix of
/// the URL without `?`, which is the whole URL when it has no `?` and is
/// followed by a `?` otherwise.
pub proof fn url_path_is_before_query(url: Seq<char>)
    ensures
        url_path(url).len() <= url.len(),
        url_path(url) == url.subrange(0, url_path(url).len() as int),
        !url_path(url).contains('?'),
        !url.contains('?') ==> url_path(url) == url,
        url.contains('?') ==> url[url_path(url).len() as int] == '?',
{
    if url.contains('?') {
        let w = choose|k: int| 0 <= k < url.len() && url[k] == '?';
        lemma_first_mark(url, w);
        let k = choose|k: int| 0 <= k < url.len() && url[k] == '?' && forall|j: int| 0 <= j < k ==> url[j] != '?';
        let p = url_path(url);
        assert(p == url.subrange(0, k));
        assert forall|j: int| 0 <= j < p.len() implies p[j] != '?' by {
            assert(p[j] == url[j]);
        }
    }
}

proof fn lemma_first_mark(url: Seq<char>, w: int)
    requires
        0 <= w < url.len(),
        url[w] == '?',
    ensures
        exists|k: int| 0 <= k < url.len() && url[k] == '?' && forall|j: int| 0 <= j < k ==> url[j] != '?',
    decreases w,
{
    if forall|j: int| 0 <= j < w ==> url[j] != '?' {
    } else {
        let v = choose|j: int| 0 <= j < w && url[j] == '?';
        lemma_first_mark(url, v);
    }
}

/// HTML escaping works character by character: `&`, `<`, `>` and `"`
/// become `&amp;`, `&lt;`, `&gt;` and `&quot;`, every other character stays,
/// and the escape of joined texts is the join of their escapes.
pub proof fn escaping_rules(a: Seq<char>, b: Seq<char>, c: char)
    ensures
        escaped(seq!['&']) == "&amp;"@,
        escaped(seq!['<']) == "&lt;"@,
        escaped(seq!['>']) == "&gt;"@,
        escaped(seq!['"']) == "&quot;"@,
        c != '&' && c != '<' && c != '>' && c != '"' ==> escaped(seq![c]) == seq![c],
        escaped(a + b) == escaped(a) + escaped(b),
    decreases b.len(),
{
    assert(escaped(Seq::<char>::empty()) == Seq::<char>::empty());
    assert(seq!['&'].drop_last() =~= Seq::<char>::empty());
    assert(escaped(seq!['&']) == escaped(Seq::<char>::empty()) + escape_char('&'));
    assert(seq!['<'].drop_last() =~= Seq::<char>::empty());
    assert(escaped(seq!['<']) == escaped(Seq::<char>::empty()) + escape_char('<'));
    assert(seq!['>'].drop_last() =~= Seq::<char>::empty());
    assert(seq!['"'].drop_last() =~= Seq::<char>::empty());
    assert(seq![c].drop_last() =~= Seq::<char>::empty());
    assert(Seq::<char>::empty() + "&amp;"@ =~= "&amp;"@);
    assert(Seq::<char>::empty() + "&lt;"@ =~= "&lt;"@);
    assert(Seq::<char>::empty() + "&gt;"@ =~= "&gt;"@);
    assert(Seq::<char>::empty() + "&quot;"@ =~= "&quot;"@);
    assert(Seq::<char>::empty() + seq![c] =~= seq![c]);
    if b.len() == 0 {
        assert(a + b =~= a);
        assert(escaped(a) + escaped(b) =~= escaped(a));
    } else {
        escaping_rules(a, b.drop_last(), c);
        assert((a + b).drop_last() =~= a + b.drop_last());
        assert((a + b).last() == b.last());
    }
}

/// Sanitising keeps ASCII letters, digits, `.`, `-` and `_`, and turns
/// every other character into `_`, position by position.
pub proof fn sanitizing_rules(s: Seq<char>, i: int)
    requires
        0 <= i < s.len(),
    ensures
        sanitized(s).len() == s.len(),
        ('a' <= s[i] <= 'z') || ('A' <= s[i] <= 'Z') || ('0' <= s[i] <= '9') || s[i] == '.'
            || s[i] == '-' || s[i] == '_' ==> sanitized(s)[i] == s[i],
        !(('a' <= s[i] <= 'z') || ('A' <= s[i] <= 'Z') || ('0' <= s[i] <= '9') || s[i] == '.'
            || s[i] == '-' || s[i] == '_') ==> sanitized(s)[i] == '_',
{
}

} // verus!
