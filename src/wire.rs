use vstd::prelude::*;

verus! {

pub open spec fn opt_text(o: Option<String>) -> Option<Seq<char>> {
    match o {
        Some(s) => Some(s@),
        None => None,
    }
}

pub open spec fn texts_view(v: Seq<String>) -> Seq<Seq<char>> {
    v.map_values(|s: String| s@)
}

pub open spec fn opt_texts(o: Option<Vec<String>>) -> Option<Seq<Seq<char>>> {
    match o {
        Some(v) => Some(texts_view(v@)),
        None => None,
    }
}

pub open spec fn opt_pairs(o: Option<Vec<(String, String)>>) -> Option<Seq<(Seq<char>, Seq<char>)>> {
    match o {
        Some(v) => Some(v@.map_values(|p: (String, String)| (p.0@, p.1@))),
        None => None,
    }
}

/// The path segments of a URL, or `None` when it does not parse or has no
/// hierarchical path.
pub uninterp spec fn url_segments(url: Seq<char>) -> Option<Seq<Seq<char>>>;

/// The host of a URL, or `None` when it does not parse or has no host.
pub uninterp spec fn url_host(url: Seq<char>) -> Option<Seq<char>>;

/// The string member `key` of the JSON object written in `text`.
pub uninterp spec fn json_member_text(text: Seq<char>, key: Seq<char>) -> Option<Seq<char>>;

/// The boolean member `key` of the JSON object written in `text`.
pub uninterp spec fn json_member_bool(text: Seq<char>, key: Seq<char>) -> Option<bool>;

/// The entries of the object member `key` of the JSON object written in
/// `text`, each value written back as JSON text. serde_json's default map
/// keeps members in ascending order of name, not in the order written.
pub uninterp spec fn json_object_entries(text: Seq<char>, key: Seq<char>) -> Option<
    Seq<(Seq<char>, Seq<char>)>,
>;

/// The items of the JSON array written in `text`, each written back as JSON text.
pub uninterp spec fn json_array_texts(text: Seq<char>) -> Option<Seq<Seq<char>>>;

/// The JSON string literal that stands for `s`, quotes included.
pub uninterp spec fn json_quoted(s: Seq<char>) -> Seq<char>;

/// The lower-case form of `s`.
pub uninterp spec fn lower_of(s: Seq<char>) -> Seq<char>;

/// Relies on `url::Url::parse` and `Url::path_segments`. The segments are the
/// path after its leading `/` split on `/`, so there is at least one.
#[verifier::external_body]
pub(crate) fn url_path_segments(url: &str) -> (r: Option<Vec<String>>)
    ensures
        opt_texts(r) == url_segments(url@),
        r matches Some(v) ==> v@.len() >= 1,
{
    match url::Url::parse(url) {
        Ok(u) => u.path_segments().map(|s| s.map(String::from).collect()),
        Err(_) => None,
    }
}

/// Relies on `url::Url::parse` and `Url::host_str`.
#[verifier::external_body]
pub(crate) fn url_host_str(url: &str) -> (r: Option<String>)
    ensures
        opt_text(r) == url_host(url@),
{
    match url::Url::parse(url) {
        Ok(u) => u.host_str().map(String::from),
        Err(_) => None,
    }
}

/// Relies on `serde_json::from_str`, `Value::get` and `Value::as_str`.
#[verifier::external_body]
pub(crate) fn json_member_str(text: &str, key: &str) -> (r: Option<String>)
    ensures
        opt_text(r) == json_member_text(text@, key@),
{
    match serde_json::from_str::<serde_json::Value>(text) {
        Ok(v) => v.get(key).and_then(serde_json::Value::as_str).map(String::from),
        Err(_) => None,
    }
}

/// Relies on `serde_json::from_str`, `Value::get` and `Value::as_bool`.
#[verifier::external_body]
pub(crate) fn json_member_flag(text: &str, key: &str) -> (r: Option<bool>)
    ensures
        r == json_member_bool(text@, key@),
{
    match serde_json::from_str::<serde_json::Value>(text) {
        Ok(v) => v.get(key).and_then(serde_json::Value::as_bool),
        Err(_) => None,
    }
}

/// Relies on `serde_json::from_str`, `Value::get`, `Value::as_object` and the
/// `Display` of `Value`, which writes a value back as JSON text.
#[verifier::external_body]
pub(crate) fn json_member_entries(text: &str, key: &str) -> (r: Option<Vec<(String, String)>>)
    ensures
        opt_pairs(r) == json_object_entries(text@, key@),
{
    match serde_json::from_str::<serde_json::Value>(text) {
        Ok(v) => v.get(key).and_then(serde_json::Value::as_object).map(
            |m| m.iter().map(|(k, x)| (k.clone(), x.to_string())).collect(),
        ),
        Err(_) => None,
    }
}

/// Relies on `serde_json::from_str` into a `Vec<Value>` and the `Display` of
/// `Value`, which writes a value back as JSON text.
#[verifier::external_body]
pub(crate) fn json_array_items(text: &str) -> (r: Option<Vec<String>>)
    ensures
        opt_texts(r) == json_array_texts(text@),
{
    match serde_json::from_str::<Vec<serde_json::Value>>(text) {
        Ok(items) => Some(items.iter().map(|x| x.to_string()).collect()),
        Err(_) => None,
    }
}

/// Relies on `rustc_serialize::json::encode` of a `str`: a quoted, escaped
/// JSON string. Encoding into a `String` has no way to fail.
#[verifier::external_body]
pub(crate) fn json_quote(s: &str) -> (r: String)
    ensures
        r@ == json_quoted(s@),
{
    match rustc_serialize::json::encode(&s) {
        Ok(t) => t,
        Err(_) => String::new(),
    }
}

/// Relies on `str::to_lowercase`: the result depends on the characters alone.
#[verifier::external_body]
pub(crate) fn lowercase(s: &str) -> (r: String)
    ensures
        r@ == lower_of(s@),
{
    s.to_lowercase()
}

/// Relies on collecting characters into a `String`, which keeps them in order.
#[verifier::external_body]
pub(crate) fn string_from_chars(v: &Vec<char>) -> (r: String)
    ensures
        r@ == v@,
{
    v.iter().collect()
}

} // verus!
