use vstd::prelude::*;
use vstd::string::StringExecFns;

verus! {

/// The JSON string literal that serde_json writes for a text: quoted, with
/// the characters that JSON requires escaped.
pub uninterp spec fn json_quoted(s: Seq<char>) -> Seq<char>;

/// The entries, in order of their keys, of the JSON object of string values
/// that a text holds; `None` when the text is no such object.
pub uninterp spec fn json_params(s: Seq<char>) -> Option<Seq<(Seq<char>, Seq<char>)>>;

/// Relies on `serde_json::to_string` applied to a `str`: it writes the JSON
/// string literal of the text, and cannot fail since it writes into memory.
#[verifier::external_body]
fn json_string(s: &str) -> (r: String)
    ensures
        r@ == json_quoted(s@),
{
    serde_json::to_string(s).unwrap_or_default()
}

/// Relies on `serde_json::from_str` into a `BTreeMap<String, String>`: it
/// accepts exactly a JSON object whose values are all strings, and its map
/// lists the entries in order of their keys.
#[verifier::external_body]
fn parse_params(s: &str) -> (r: Option<Vec<(String, String)>>)
    ensures
        r is Some <==> json_params(s@) is Some,
        r matches Some(v) ==> {
            &&& v@.len() == json_params(s@)->0.len()
            &&& forall|i: int|
                0 <= i < v@.len() ==> #[trigger] v@[i].0@ == json_params(s@)->0[i].0 && v@[i].1@
                    == json_params(s@)->0[i].1
        },
{
    match serde_json::from_str::<std::collections::BTreeMap<String, String>>(s) {
        Ok(m) => Some(m.into_iter().collect()),
        Err(_) => None,
    }
}

/// Request parameters: the parsed object, or none at all when the text is not
/// a JSON object of strings.
pub open spec fn params_of(s: Seq<char>) -> Seq<(Seq<char>, Seq<char>)> {
    match json_params(s) {
        Some(p) => p,
        None => Seq::empty(),
    }
}

/// The body of the hello route.
pub open spec fn hello_json() -> Seq<char> {
    "{\"message\":"@ + json_quoted("World"@) + "}"@
}

/// The body of the greet route for `name`.
pub open spec fn greet_json(name: Seq<char>) -> Seq<char> {
    "{\"greeting\":"@ + json_quoted("Hello"@) + ",\"name\":"@ + json_quoted(name) + "}"@
}

/// The JSON array of the route names.
pub open spec fn routes_json() -> Seq<char> {
    "["@ + json_quoted("/hello"@) + ","@ + json_quoted("/greet/{name}"@) + "]"@
}

/// The application-level error body for a route that does not exist.
pub open spec fn not_found_json() -> Seq<char> {
    "{"@ + json_quoted("error"@) + ":"@ + json_quoted("Not Found"@) + "}"@
}

/// The members of a JSON object for the entries `p`, comma separated.
pub open spec fn members_json(p: Seq<(Seq<char>, Seq<char>)>) -> Seq<char>
    decreases p.len(),
{
    if p.len() == 0 {
        Seq::empty()
    } else {
        let front = members_json(p.drop_last());
        let sep = if p.len() > 1 { ","@ } else { Seq::empty() };
        front + sep + json_quoted(p.last().0) + ":"@ + json_quoted(p.last().1)
    }
}

/// The JSON object for the entries `p`.
pub open spec fn object_json(p: Seq<(Seq<char>, Seq<char>)>) -> Seq<char> {
    "{"@ + members_json(p) + "}"@
}

/// The value of the first entry of `p` whose key is `key`.
pub open spec fn lookup(p: Seq<(Seq<char>, Seq<char>)>, key: Seq<char>) -> Option<Seq<char>>
    decreases p.len(),
{
    if p.len() == 0 {
        None
    } else {
        match lookup(p.drop_last(), key) {
            Some(v) => Some(v),
            None => if p.last().0 == key {
                Some(p.last().1)
            } else {
                None
            },
        }
    }
}

/// The name that the greet route greets: the `name` parameter, else `Guest`.
pub open spec fn greet_name(p: Seq<(Seq<char>, Seq<char>)>) -> Seq<char> {
    match lookup(p, "name"@) {
        Some(v) => v,
        None => "Guest"@,
    }
}

/// The response to `route` with the parameter text `params`.
pub open spec fn response(route: Seq<char>, params: Seq<char>) -> Seq<char> {
    if route == "/hello"@ {
        hello_json()
    } else if route == "/greet/{name}"@ {
        let p = params_of(params);
        "source: "@ + route + " params: "@ + object_json(p) + " result: "@ + greet_json(
            greet_name(p),
        )
    } else {
        not_found_json()
    }
}

/// Whether two texts are equal.
fn same_text(a: &str, b: &str) -> (r: bool)
    ensures
        r == (a@ == b@),
{
    String::from_str(a) == String::from_str(b)
}

/// The body of the hello route.
pub fn hello_endpoint() -> (r: String)
    ensures
        r@ == hello_json(),
{
    let mut r = String::from_str("{\"message\":");
    r.append(json_string("World").as_str());
    r.append("}");
    r
}

/// The body of the greet route for `name`.
pub fn greet_endpoint(name: &str) -> (r: String)
    ensures
        r@ == greet_json(name@),
{
    let mut r = String::from_str("{\"greeting\":");
    r.append(json_string("Hello").as_str());
    r.append(",\"name\":");
    r.append(json_string(name).as_str());
    r.append("}");
    r
}

/// The JSON array of the route names.
pub fn get_routes() -> (r: String)
    ensures
        r@ == routes_json(),
{
    let mut r = String::from_str("[");
    r.append(json_string("/hello").as_str());
    r.append(",");
    r.append(json_string("/greet/{name}").as_str());
    r.append("]");
    r
}

/// The JSON object for the entries `p`.
pub fn params_to_json(p: &Vec<(String, String)>) -> (r: String)
    ensures
        r@ == object_json(p@.map_values(|e: (String, String)| (e.0@, e.1@))),
{
    let ghost views = p@.map_values(|e: (String, String)| (e.0@, e.1@));
    let mut body = String::new();
    let mut i: usize = 0;
    while i < p.len()
        invariant
            i <= p@.len(),
            views == p@.map_values(|e: (String, String)| (e.0@, e.1@)),
            body@ == members_json(views.take(i as int)),
        decreases p@.len() - i,
    {
        proof {
            let t = views.take(i + 1);
            assert(t.drop_last() =~= views.take(i as int));
            assert(t.last() == views[i as int]);
        }
        if i > 0 {
            body.append(",");
        }
        body.append(json_string(p[i].0.as_str()).as_str());
        body.append(":");
        body.append(json_string(p[i].1.as_str()).as_str());
        i = i + 1;
    }
    assert(views.take(p@.len() as int) =~= views);
    let mut r = String::from_str("{");
    r.append(body.as_str());
    r.append("}");
    r
}

/// A prefix in which `key` occurs keeps its lookup when extended.
proof fn lemma_lookup_extend(p: Seq<(Seq<char>, Seq<char>)>, key: Seq<char>, i: int)
    requires
        0 <= i <= p.len(),
        lookup(p.take(i), key) is Some,
    ensures
        lookup(p, key) == lookup(p.take(i), key),
    decreases p.len() - i,
{
    if i < p.len() {
        let t = p.take(i + 1);
        assert(t.drop_last() =~= p.take(i));
        lemma_lookup_extend(p, key, i + 1);
    } else {
        assert(p.take(i) =~= p);
    }
}

/// The value of the first entry of `p` whose key is `key`.
pub fn find_param(p: &Vec<(String, String)>, key: &str) -> (r: Option<String>)
    ensures
        r is Some <==> lookup(p@.map_values(|e: (String, String)| (e.0@, e.1@)), key@) is Some,
        r matches Some(v) ==> Some(v@) == lookup(
            p@.map_values(|e: (String, String)| (e.0@, e.1@)),
            key@,
        ),
{
    let ghost views = p@.map_values(|e: (String, String)| (e.0@, e.1@));
    let mut i: usize = 0;
    while i < p.len()
        invariant
            i <= p@.len(),
            views == p@.map_values(|e: (String, String)| (e.0@, e.1@)),
            lookup(views.take(i as int), key@) is None,
        decreases p@.len() - i,
    {
        let t = Ghost(views.take(i + 1));
        assert(t@.drop_last() =~= views.take(i as int));
        if same_text(p[i].0.as_str(), key) {
            proof {
                lemma_lookup_extend(views, key@, i + 1);
            }
            return Some(p[i].1.clone());
        }
        i = i + 1;
    }
    assert(views.take(p@.len() as int) =~= views);
    None
}

/// Answers a request: `/hello` greets the world, `/greet/{name}` greets the
/// `name` parameter (else `Guest`) and echoes the request, and any other route
/// gets a JSON error object. Parameters that are not a JSON object of strings
/// count as no parameters.
pub fn handle_request(route: &str, params: &str) -> (r: String)
    ensures
        r@ == response(route@, params@),
{
    let parsed = match parse_params(params) {
        Some(p) => p,
        None => Vec::new(),
    };
    let ghost views = parsed@.map_values(|e: (String, String)| (e.0@, e.1@));
    assert(views =~= params_of(params@));
    if same_text(route, "/hello") {
        hello_endpoint()
    } else if same_text(route, "/greet/{name}") {
        let name = match find_param(&parsed, "name") {
            Some(v) => v,
            None => String::from_str("Guest"),
        };
        let mut r = String::from_str("source: ");
        r.append(route);
        r.append(" params: ");
        r.append(params_to_json(&parsed).as_str());
        r.append(" result: ");
        r.append(greet_endpoint(name.as_str()).as_str());
        r
    } else {
        let mut r = String::from_str("{");
        r.append(json_string("error").as_str());
        r.append(":");
        r.append(json_string("Not Found").as_str());
        r.append("}");
        r
    }
}

} // verus!
