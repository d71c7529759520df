use crate::cache::{quote_views, QuoteView, RawQuote};
use crate::errors::FetchError;
use crate::price::text_view;
use crate::util::same_text;
use vstd::prelude::*;

verus! {

/// A JSON value, with each number kept as its decimal text and each object
/// as its members in order.
#[derive(Debug)]
pub enum Json {
    Null,
    Bool(bool),
    Number(String),
    Str(String),
    Array(Vec<Json>),
    Object(Vec<(String, Json)>),
}

#[verifier::external_type_specification]
#[verifier::external_body]
pub struct ExValue(serde_json::Value);

/// The JSON value that `text` holds, `None` where it holds none.
pub uninterp spec fn json_of(text: Seq<char>) -> Option<Json>;

/// Relies on serde_json::from_str: the JSON value that `text` holds, which
/// depends on the text alone; where `text` is not JSON, the message of
/// serde_json's error.
#[verifier::external_body]
fn parse_json(text: &str) -> (r: Result<Json, String>)
    ensures
        (r is Ok) == (json_of(text@) is Some),
        r is Ok ==> json_of(text@) == Some(r->Ok_0),
{
    match serde_json::from_str::<serde_json::Value>(text) {
        Ok(v) => Ok(json_from_value(v)),
        Err(e) => Err(e.to_string()),
    }
}

/// Relies on serde_json::Value's variants and serde_json::Number's `Display`:
/// the same value, each number as its decimal text, each object's members in
/// the map's order.
#[verifier::external_body]
fn json_from_value(v: serde_json::Value) -> Json {
    match v {
        serde_json::Value::Null => Json::Null,
        serde_json::Value::Bool(b) => Json::Bool(b),
        serde_json::Value::Number(n) => Json::Number(n.to_string()),
        serde_json::Value::String(s) => Json::Str(s),
        serde_json::Value::Array(a) => Json::Array(a.into_iter().map(json_from_value).collect()),
        serde_json::Value::Object(m) => Json::Object(
            m.into_iter().map(|(k, x)| (k, json_from_value(x))).collect(),
        ),
    }
}

/// The value of the first member named `key`.
pub open spec fn member_of(fields: Seq<(String, Json)>, key: Seq<char>) -> Option<Json>
    decreases fields.len(),
{
    if fields.len() == 0 {
        None
    } else if fields[0].0@ == key {
        Some(fields[0].1)
    } else {
        member_of(fields.drop_first(), key)
    }
}

/// The member `key` of `v`; `None` where `v` is no object or has no such member.
pub open spec fn field(v: Json, key: Seq<char>) -> Option<Json> {
    match v {
        Json::Object(f) => member_of(f@, key),
        _ => None,
    }
}

/// The text of a price: a string as it is, a number as its decimal text.
pub open spec fn price_text(v: Option<Json>) -> Option<Seq<char>> {
    match v {
        Some(Json::Str(s)) => Some(s@),
        Some(Json::Number(t)) => Some(t@),
        _ => None,
    }
}

/// The text of a string, and the empty text for anything else.
pub open spec fn text_or_empty(v: Option<Json>) -> Seq<char> {
    match v {
        Some(Json::Str(s)) => s@,
        _ => Seq::empty(),
    }
}

/// The entries of an object that maps each symbol to an object with its
/// price under `price_key`.
pub open spec fn keyed_entries(fields: Seq<(String, Json)>, price_key: Seq<char>) -> Seq<QuoteView> {
    fields.map_values(|p: (String, Json)| (p.0@, price_text(field(p.1, price_key))))
}

/// The entries of a list of objects with the symbol under `symbol_key` and
/// the price under `price_key`.
pub open spec fn listed_entries(items: Seq<Json>, symbol_key: Seq<char>, price_key: Seq<char>) -> Seq<
    QuoteView,
> {
    items.map_values(
        |it: Json| (text_or_empty(field(it, symbol_key)), price_text(field(it, price_key))),
    )
}

/// The symbols of a list of objects with the symbol under `symbol_key`.
pub open spec fn listed_symbols(items: Seq<Json>, symbol_key: Seq<char>) -> Seq<Seq<char>> {
    items.map_values(|it: Json| text_or_empty(field(it, symbol_key)))
}

fn find_member(fields: &Vec<(String, Json)>, key: &str) -> (r: Option<usize>)
    ensures
        match r {
            Some(i) => i < fields@.len() && member_of(fields@, key@) == Some(fields@[i as int].1),
            None => member_of(fields@, key@) is None,
        },
{
    let mut i: usize = 0;
    assert(fields@.skip(0) =~= fields@);
    while i < fields.len()
        invariant
            0 <= i <= fields@.len(),
            member_of(fields@, key@) == member_of(fields@.skip(i as int), key@),
        decreases fields@.len() - i,
    {
        assert(fields@.skip(i as int)[0] == fields@[i as int]);
        if same_text(fields[i].0.as_str(), key) {
            return Some(i);
        }
        assert(fields@.skip(i as int).drop_first() =~= fields@.skip(i + 1));
        i = i + 1;
    }
    assert(fields@.skip(i as int).len() == 0);
    None
}

fn price_text_in(v: &Json, key: &str) -> (r: Option<String>)
    ensures
        text_view(r) == price_text(field(*v, key@)),
{
    match v {
        Json::Object(f) => match find_member(f, key) {
            Some(i) => match &f[i].1 {
                Json::Str(s) => Some(s.clone()),
                Json::Number(t) => Some(t.clone()),
                _ => None,
            },
            None => None,
        },
        _ => None,
    }
}

fn text_in(v: &Json, key: &str) -> (r: String)
    ensures
        r@ == text_or_empty(field(*v, key@)),
{
    match v {
        Json::Object(f) => match find_member(f, key) {
            Some(i) => match &f[i].1 {
                Json::Str(s) => s.clone(),
                _ => String::new(),
            },
            None => String::new(),
        },
        _ => String::new(),
    }
}

/// Decodes a response that maps each native symbol to an object with the
/// price under `price_key`. Text that is not JSON is an error; JSON that is
/// no object gives `None`.
pub fn decode_keyed_quotes(body: &str, price_key: &str) -> (r: Result<
    Option<Vec<RawQuote>>,
    FetchError,
>)
    ensures
        match json_of(body@) {
            None => r is Err && r->Err_0 is JSON,
            Some(Json::Object(f)) => r is Ok && r->Ok_0 is Some && quote_views(r->Ok_0->Some_0@)
                == keyed_entries(f@, price_key@),
            Some(_) => r == Ok::<Option<Vec<RawQuote>>, FetchError>(None),
        },
{
    let v = match parse_json(body) {
        Ok(v) => v,
        Err(msg) => return Err(FetchError::JSON(msg)),
    };
    let members = match &v {
        Json::Object(m) => m,
        _ => return Ok(None),
    };
    let mut out: Vec<RawQuote> = Vec::new();
    let mut i: usize = 0;
    while i < members.len()
        invariant
            0 <= i <= members@.len(),
            quote_views(out@) == keyed_entries(members@.take(i as int), price_key@),
        decreases members@.len() - i,
    {
        let symbol = members[i].0.clone();
        let price = price_text_in(&members[i].1, price_key);
        let ghost before = out@;
        out.push(RawQuote { symbol, price });
        assert(quote_views(out@) =~= quote_views(before).push(out@[i as int]@));
        assert(keyed_entries(members@.take(i + 1), price_key@) =~= keyed_entries(
            members@.take(i as int),
            price_key@,
        ).push((members@[i as int].0@, price_text(field(members@[i as int].1, price_key@)))));
        i = i + 1;
    }
    assert(members@.take(members@.len() as int) =~= members@);
    Ok(Some(out))
}

/// Decodes a response that lists objects, each with its native symbol under
/// `symbol_key` and its price under `price_key`; a symbol that is no string
/// reads as empty. Text that is not JSON is an error; JSON that is no array
/// gives `None`.
pub fn decode_listed_quotes(body: &str, symbol_key: &str, price_key: &str) -> (r: Result<
    Option<Vec<RawQuote>>,
    FetchError,
>)
    ensures
        match json_of(body@) {
            None => r is Err && r->Err_0 is JSON,
            Some(Json::Array(a)) => r is Ok && r->Ok_0 is Some && quote_views(r->Ok_0->Some_0@)
                == listed_entries(a@, symbol_key@, price_key@),
            Some(_) => r == Ok::<Option<Vec<RawQuote>>, FetchError>(None),
        },
{
    let v = match parse_json(body) {
        Ok(v) => v,
        Err(msg) => return Err(FetchError::JSON(msg)),
    };
    let items = match &v {
        Json::Array(a) => a,
        _ => return Ok(None),
    };
    let mut out: Vec<RawQuote> = Vec::new();
    let mut i: usize = 0;
    while i < items.len()
        invariant
            0 <= i <= items@.len(),
            quote_views(out@) == listed_entries(items@.take(i as int), symbol_key@, price_key@),
        decreases items@.len() - i,
    {
        let symbol = text_in(&items[i], symbol_key);
        let price = price_text_in(&items[i], price_key);
        let ghost before = out@;
        out.push(RawQuote { symbol, price });
        assert(quote_views(out@) =~= quote_views(before).push(out@[i as int]@));
        assert(listed_entries(items@.take(i + 1), symbol_key@, price_key@) =~= listed_entries(
            items@.take(i as int),
            symbol_key@,
            price_key@,
        ).push(
            (
                text_or_empty(field(items@[i as int], symbol_key@)),
                price_text(field(items@[i as int], price_key@)),
            ),
        ));
        i = i + 1;
    }
    assert(items@.take(items@.len() as int) =~= items@);
    Ok(Some(out))
}

/// Decodes a response that lists objects, each with a native symbol under
/// `symbol_key`: the symbols, in order, with an empty one where the member is
/// missing or no string. Text that is not JSON is an error; JSON that is no
/// array gives `None`.
pub fn decode_symbols(body: &str, symbol_key: &str) -> (r: Result<Option<Vec<String>>, FetchError>)
    ensures
        match json_of(body@) {
            None => r is Err && r->Err_0 is JSON,
            Some(Json::Array(a)) => r is Ok && r->Ok_0 is Some && r->Ok_0->Some_0@.map_values(
                |s: String| s@,
            ) == listed_symbols(a@, symbol_key@),
            Some(_) => r == Ok::<Option<Vec<String>>, FetchError>(None),
        },
{
    let v = match parse_json(body) {
        Ok(v) => v,
        Err(msg) => return Err(FetchError::JSON(msg)),
    };
    let items = match &v {
        Json::Array(a) => a,
        _ => return Ok(None),
    };
    let mut out: Vec<String> = Vec::new();
    let mut i: usize = 0;
    while i < items.len()
        invariant
            0 <= i <= items@.len(),
            out@.map_values(|s: String| s@) == listed_symbols(items@.take(i as int), symbol_key@),
        decreases items@.len() - i,
    {
        let ghost before = out@;
        out.push(text_in(&items[i], symbol_key));
        assert(out@.map_values(|s: String| s@) =~= before.map_values(|s: String| s@).push(
            out@[i as int]@,
        ));
        assert(listed_symbols(items@.take(i + 1), symbol_key@) =~= listed_symbols(
            items@.take(i as int),
            symbol_key@,
        ).push(text_or_empty(field(items@[i as int], symbol_key@))));
        i = i + 1;
    }
    assert(items@.take(items@.len() as int) =~= items@);
    Ok(Some(out))
}

} // verus!
