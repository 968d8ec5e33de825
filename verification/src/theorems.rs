//! What the parser does on texts of the usual shapes, proved for every text
//! of each shape.

use crate::pattern::{lemma_split_first_absent, lemma_split_first_joined, split_first};
use crate::url::{outcome, parse_url, URLError, UrlView, URL};
use vstd::prelude::*;

verus! {

/// The components of an accepted URL: the scheme is `http`.
pub open spec fn http_view(
    host: Seq<char>,
    port: Seq<char>,
    path: Seq<char>,
    search_part: Seq<char>,
) -> UrlView {
    UrlView { scheme: "http"@, host, port, path, search_part }
}

/// A text that can stand as the host of an authority and be read back from
/// it: not empty, and without the `/` that ends the authority and the `:`
/// that begins the port.
pub open spec fn is_plain_host(host: Seq<char>) -> bool {
    &&& host.len() > 0
    &&& !host.contains('/')
    &&& !host.contains(':')
}

/// What the delimiters hold, and that `http` holds no `:`.
proof fn lemma_literals()
    ensures
        "http://"@ =~= "http"@ + "://"@,
        "://"@.len() == 3 && "://"@[0] == ':',
        "/"@.len() == 1 && "/"@[0] == '/',
        ":"@.len() == 1 && ":"@[0] == ':',
        "?"@.len() == 1 && "?"@[0] == '?',
        "#"@.len() == 1 && "#"@[0] == '#',
        !"http"@.contains(':'),
{
    reveal_strlit("http://");
    reveal_strlit("http");
    reveal_strlit("://");
    reveal_strlit("/");
    reveal_strlit(":");
    reveal_strlit("?");
    reveal_strlit("#");
}

/// The scheme delimiter that follows `http` is the first in the text.
proof fn lemma_scheme_split(rest: Seq<char>)
    ensures
        split_first("http://"@ + rest, "://"@, Seq::empty()) == ("http"@, rest),
{
    lemma_literals();
    assert("http://"@ + rest =~= "http"@ + "://"@ + rest);
    lemma_split_first_joined("http"@, "://"@, rest, Seq::empty());
}

/// A bare host is accepted whole, with the port `80` and nothing else.
pub proof fn lemma_parse_host(host: Seq<char>)
    requires
        is_plain_host(host),
    ensures
        parse_url("http://"@ + host) == Ok::<UrlView, URLError>(
            http_view(host, "80"@, Seq::empty(), Seq::empty()),
        ),
{
    lemma_literals();
    lemma_scheme_split(host);
    lemma_split_first_absent(host, "/"@, Seq::empty());
    lemma_split_first_absent(host, ":"@, "80"@);
    lemma_split_first_absent(Seq::empty(), "?"@, Seq::empty());
    lemma_split_first_absent(Seq::empty(), "#"@, Seq::empty());
}

/// A port that is written after the host is kept as it stands, digits or
/// not, up to the end of the text; the host is what stood before the `:`.
pub proof fn lemma_parse_host_port(host: Seq<char>, port: Seq<char>)
    requires
        is_plain_host(host),
        !port.contains('/'),
    ensures
        parse_url("http://"@ + host + ":"@ + port) == Ok::<UrlView, URLError>(
            http_view(host, port, Seq::empty(), Seq::empty()),
        ),
{
    lemma_literals();
    let authority = host + ":"@ + port;
    assert("http://"@ + host + ":"@ + port =~= "http://"@ + authority);
    lemma_scheme_split(authority);
    assert(!authority.contains('/')) by {
        if authority.contains('/') {
            let i = choose|i: int| 0 <= i < authority.len() && authority[i] == '/';
            if i < host.len() {
                assert(host[i] == '/');
            } else if i > host.len() {
                assert(port[i - host.len() - 1] == '/');
            }
        }
    }
    lemma_split_first_absent(authority, "/"@, Seq::empty());
    lemma_split_first_joined(host, ":"@, port, "80"@);
    lemma_split_first_absent(Seq::empty(), "?"@, Seq::empty());
    lemma_split_first_absent(Seq::empty(), "#"@, Seq::empty());
}

/// A path is kept as it stands, with every `/` inside it, as long as it holds
/// no `?`.
pub proof fn lemma_parse_host_path(host: Seq<char>, path: Seq<char>)
    requires
        is_plain_host(host),
        !path.contains('?'),
    ensures
        parse_url("http://"@ + host + "/"@ + path) == Ok::<UrlView, URLError>(
            http_view(host, "80"@, path, Seq::empty()),
        ),
{
    lemma_literals();
    assert("http://"@ + host + "/"@ + path =~= "http://"@ + (host + "/"@ + path));
    lemma_scheme_split(host + "/"@ + path);
    lemma_split_first_joined(host, "/"@, path, Seq::empty());
    lemma_split_first_absent(host, ":"@, "80"@);
    lemma_split_first_absent(path, "?"@, Seq::empty());
    lemma_split_first_absent(Seq::empty(), "#"@, Seq::empty());
}

/// A query is kept as it stands, with every `&`, `=` and `?` inside it, as
/// long as it holds no `#`; the path before it is kept as well.
pub proof fn lemma_parse_host_path_query(host: Seq<char>, path: Seq<char>, query: Seq<char>)
    requires
        is_plain_host(host),
        !path.contains('?'),
        !query.contains('#'),
    ensures
        parse_url("http://"@ + host + "/"@ + path + "?"@ + query) == Ok::<UrlView, URLError>(
            http_view(host, "80"@, path, query),
        ),
{
    lemma_literals();
    let tail = path + "?"@ + query;
    assert("http://"@ + host + "/"@ + path + "?"@ + query =~= "http://"@ + (host + "/"@ + tail));
    lemma_scheme_split(host + "/"@ + tail);
    lemma_split_first_joined(host, "/"@, tail, Seq::empty());
    lemma_split_first_absent(host, ":"@, "80"@);
    lemma_split_first_joined(path, "?"@, query, Seq::empty());
    lemma_split_first_absent(query, "#"@, Seq::empty());
}

/// Parsing is a function of the text alone: whatever `URL::new` returns on
/// two equal texts, the two results are equal, component by component or
/// error by error.
pub proof fn lemma_parse_deterministic(
    first_input: Seq<char>,
    second_input: Seq<char>,
    first: Result<URL, URLError>,
    second: Result<URL, URLError>,
)
    requires
        first_input == second_input,
        outcome(first) == parse_url(first_input),
        outcome(second) == parse_url(second_input),
    ensures
        outcome(first) == outcome(second),
        first is Ok <==> second is Ok,
        first is Ok ==> first->Ok_0@ == second->Ok_0@,
        first is Err ==> first->Err_0 == second->Err_0,
{
}

} // verus!
