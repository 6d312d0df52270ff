//! HTTP headers and responses, as the `http` crate holds them.
//!
//! A header map is modelled as a map from each header name, in lower case, to the values
//! of that name in the order in which they were appended. The order in which the `http`
//! crate walks different names is its own affair: no contract here speaks of it.

use vstd::prelude::*;
use vstd::string::*;
use vstd::utf8::*;
use crate::text;

verus! {

/// Declares `http::HeaderMap`.
#[verifier::external_type_specification]
#[verifier::external_body]
#[verifier::reject_recursive_types(T)]
pub struct ExHeaderMap<T>(http::HeaderMap<T>);

/// Declares `http::HeaderName`.
#[verifier::external_type_specification]
#[verifier::external_body]
pub struct ExHeaderName(http::HeaderName);

/// Declares `http::HeaderValue`.
#[verifier::external_type_specification]
#[verifier::external_body]
pub struct ExHeaderValue(http::HeaderValue);

/// Declares `http::header::InvalidHeaderName`.
#[verifier::external_type_specification]
#[verifier::external_body]
pub struct ExInvalidHeaderName(http::header::InvalidHeaderName);

/// Declares `http::header::InvalidHeaderValue`.
#[verifier::external_type_specification]
#[verifier::external_body]
pub struct ExInvalidHeaderValue(http::header::InvalidHeaderValue);

/// Declares `http::header::MaxSizeReached`.
#[verifier::external_type_specification]
#[verifier::external_body]
pub struct ExMaxSizeReached(http::header::MaxSizeReached);

/// Declares `http::response::Builder`.
#[verifier::external_type_specification]
#[verifier::external_body]
pub struct ExBuilder(http::response::Builder);

/// Declares `http::Response`.
#[verifier::external_type_specification]
#[verifier::external_body]
#[verifier::reject_recursive_types(T)]
pub struct ExResponse<T>(http::Response<T>);

/// Declares `http::Error`.
#[verifier::external_type_specification]
#[verifier::external_body]
pub struct ExHttpError(http::Error);

/// The characters of a header name.
pub uninterp spec fn header_name_text(name: http::HeaderName) -> Seq<char>;

/// The bytes of a header value.
pub uninterp spec fn header_value_bytes(value: http::HeaderValue) -> Seq<u8>;

/// The values that a header map holds under each name, in the order they were appended.
pub uninterp spec fn header_values(map: http::HeaderMap) -> Map<Seq<char>, Seq<Seq<u8>>>;

/// The characters that a header name may be made of: the `tchar` of RFC 9110.
pub open spec fn is_token_char(c: char) -> bool {
    ||| '0' <= c <= '9'
    ||| 'A' <= c <= 'Z'
    ||| 'a' <= c <= 'z'
    ||| c == '!' || c == '#' || c == '$' || c == '%' || c == '&' || c == '\'' || c == '*'
    ||| c == '+' || c == '-' || c == '.' || c == '^' || c == '_' || c == '`' || c == '|' || c == '~'
}

/// Whether `s` can name a header.
pub open spec fn is_header_name(s: Seq<char>) -> bool {
    &&& 1 <= s.len() <= 65535
    &&& forall|i: int| 0 <= i < s.len() ==> is_token_char(#[trigger] s[i])
}

/// Whether `bytes` can be a header value: no control byte but the tab.
pub open spec fn is_header_value(bytes: Seq<u8>) -> bool {
    forall|i: int|
        0 <= i < bytes.len() ==> (#[trigger] bytes[i] >= 32 && bytes[i] != 127) || bytes[i] == 9
}

/// Whether a map with these names takes one more without reaching the size limit of the
/// `http` crate, whatever its names hash to.
pub open spec fn has_room(values: Map<Seq<char>, Seq<Seq<u8>>>) -> bool {
    values.dom().finite() && values.dom().len() * 5 < 32768
}

/// `values` with `value` appended under `name`.
pub open spec fn appended(
    values: Map<Seq<char>, Seq<Seq<u8>>>,
    name: Seq<char>,
    value: Seq<u8>,
) -> Map<Seq<char>, Seq<Seq<u8>>> {
    let present = if values.contains_key(name) {
        values[name]
    } else {
        Seq::empty()
    };
    values.insert(name, present.push(value))
}

/// Calls `http::HeaderName::from_bytes` on the bytes of `src`. Claimed of it: it accepts
/// one to 65535 token characters, and puts ASCII letters in lower case.
#[verifier::external_body]
pub(crate) fn header_name(src: &str) -> (r: Result<http::HeaderName, http::header::InvalidHeaderName>)
    ensures
        r is Ok <==> is_header_name(src@),
        r matches Ok(name) ==> header_name_text(name) == text::ascii_lower(src@),
{
    http::HeaderName::from_bytes(src.as_bytes())
}

/// Calls `http::HeaderValue::from_str`. Claimed of it: it accepts a text whose bytes can
/// be a header value, and keeps those bytes.
#[verifier::external_body]
pub(crate) fn header_value(src: &str) -> (r: Result<http::HeaderValue, http::header::InvalidHeaderValue>)
    ensures
        r is Ok <==> is_header_value(encode_utf8(src@)),
        r matches Ok(value) ==> header_value_bytes(value) == encode_utf8(src@),
{
    http::HeaderValue::from_str(src)
}

/// Calls `http::HeaderMap::try_insert`. Claimed of it: it makes `value` the only value of
/// `name` and returns the first value that `name` had, or it leaves the map's contents as
/// they were and fails; it does not fail on a map with room. On which larger maps it
/// fails depends on the hashes of their names, and is left unsaid.
#[verifier::external_body]
pub(crate) fn try_insert_header(
    map: &mut http::HeaderMap,
    name: http::HeaderName,
    value: http::HeaderValue,
) -> (r: Result<Option<http::HeaderValue>, http::header::MaxSizeReached>)
    ensures
        has_room(header_values(*old(map))) ==> r is Ok,
        r is Err ==> header_values(*final(map)) == header_values(*old(map)),
        r matches Ok(previous) ==> {
            &&& header_values(*final(map)) == header_values(*old(map)).insert(
                header_name_text(name),
                seq![header_value_bytes(value)],
            )
            &&& previous is Some <==> header_values(*old(map)).contains_key(header_name_text(name))
            &&& previous matches Some(first) ==> header_value_bytes(first) == header_values(
                *old(map),
            )[header_name_text(name)][0]
        },
{
    map.try_insert(name, value)
}

/// The values that `pairs` lists under `name`, in order.
pub open spec fn values_of(pairs: Seq<(Seq<char>, Seq<u8>)>, name: Seq<char>) -> Seq<Seq<u8>> {
    pairs.filter(|pair: (Seq<char>, Seq<u8>)| pair.0 == name).map_values(
        |pair: (Seq<char>, Seq<u8>)| pair.1,
    )
}

/// Whether `pairs` lists what `values` holds: every value of every name, those of one
/// name in their order, and nothing else.
pub open spec fn lists(
    pairs: Seq<(Seq<char>, Seq<u8>)>,
    values: Map<Seq<char>, Seq<Seq<u8>>>,
) -> bool {
    forall|name: Seq<char>| #[trigger]
        values_of(pairs, name) == (if values.contains_key(name) {
            values[name]
        } else {
            Seq::empty()
        })
}

/// Walks a header map with `http::HeaderMap::iter`, and copies each name and value.
/// Claimed of it: the walk gives every value of every name once, the values of one name
/// in the order they were appended, and names come in lower case.
#[verifier::external_body]
pub(crate) fn header_pairs(map: &http::HeaderMap) -> (r: Vec<(String, Vec<u8>)>)
    ensures
        lists(r.deep_view(), header_values(*map)),
        forall|i: int|
            0 <= i < r@.len() ==> text::ascii_lower((#[trigger] r@[i]).0@) == r@[i].0@,
{
    map.iter().map(|(name, value)| (name.to_string(), value.as_bytes().to_vec())).collect()
}

/// Status and headers of a response that is being built; nothing once a part was invalid.
pub uninterp spec fn builder_head(
    builder: http::response::Builder,
) -> Option<(u16, Map<Seq<char>, Seq<Seq<u8>>>)>;

/// Status and headers of a response.
pub uninterp spec fn response_head(
    response: http::Response<Vec<u8>>,
) -> (u16, Map<Seq<char>, Seq<Seq<u8>>>);

/// The body of a response.
pub uninterp spec fn response_body(response: http::Response<Vec<u8>>) -> Seq<u8>;

/// Calls `http::Response::builder`. Claimed of it: it starts with status 200 and no header.
#[verifier::external_body]
pub(crate) fn response_builder() -> (r: http::response::Builder)
    ensures
        builder_head(r) == Some((200u16, Map::<Seq<char>, Seq<Seq<u8>>>::empty())),
{
    http::Response::builder()
}

/// Calls `http::response::Builder::status`. Claimed of it: it sets a status of 100 to 999,
/// and spoils the builder on any other.
#[verifier::external_body]
pub(crate) fn builder_status(builder: http::response::Builder, status: u16) -> (r:
    http::response::Builder)
    ensures
        builder_head(r) == match builder_head(builder) {
            Some((_, values)) if 100 <= status <= 999 => Some((status, values)),
            _ => None,
        },
{
    builder.status(status)
}

/// Calls `http::response::Builder::header`. Claimed of it: it appends the value under the
/// name in lower case; it spoils the builder on an invalid name or value, and otherwise at
/// most on a builder whose headers leave no room.
#[verifier::external_body]
pub(crate) fn builder_header(builder: http::response::Builder, name: &str, value: &[u8]) -> (r:
    http::response::Builder)
    ensures
        builder_head(r) matches Some((status, values)) ==> {
            &&& builder_head(builder) matches Some((status_before, before))
            &&& is_header_name(name@)
            &&& is_header_value(value@)
            &&& status == status_before
            &&& values == appended(before, text::ascii_lower(name@), value@)
        },
        builder_head(builder) matches Some((_, before)) ==> has_room(before) && is_header_name(name@)
            && is_header_value(value@) ==> builder_head(r) is Some,
{
    builder.header(name, value)
}

/// Calls `http::response::Builder::body`. Claimed of it: it succeeds unless the builder was
/// spoiled, and keeps status, headers and body.
#[verifier::external_body]
pub(crate) fn builder_body(builder: http::response::Builder, body: Vec<u8>) -> (r: Result<
    http::Response<Vec<u8>>,
    http::Error,
>)
    ensures
        r is Ok <==> builder_head(builder) is Some,
        r matches Ok(response) ==> {
            &&& builder_head(builder) == Some(response_head(response))
            &&& response_body(response) == body@
        },
{
    builder.body(body)
}

/// Header to inject into an outbound request.
#[derive(Debug, PartialEq)]
pub struct CredentialHeader {
    pub name: String,
    pub value: String,
}

/// The model of a [`CredentialHeader`].
#[verifier::ext_equal]
pub struct CredentialHeaderModel {
    pub name: Seq<char>,
    pub value: Seq<char>,
}

impl View for CredentialHeader {
    type V = CredentialHeaderModel;

    open spec fn view(&self) -> CredentialHeaderModel {
        CredentialHeaderModel { name: self.name@, value: self.value@ }
    }
}

impl DeepView for CredentialHeader {
    type V = CredentialHeaderModel;

    open spec fn deep_view(&self) -> CredentialHeaderModel {
        self.view()
    }
}

impl Clone for CredentialHeader {
    fn clone(&self) -> (r: Self)
        ensures
            r@ == self@,
    {
        CredentialHeader { name: self.name.clone(), value: self.value.clone() }
    }
}

/// A header map holds as many names as it can.
#[derive(Debug, Clone, Copy, PartialEq, Eq, Structural)]
pub struct HeaderLimitReached;

/// Whether `header` has a valid name and a valid value.
pub open spec fn injectable(header: CredentialHeaderModel) -> bool {
    is_header_name(header.name) && is_header_value(encode_utf8(header.value))
}

/// What the headers of a request are once `header` was injected. A header with an invalid
/// name or value is passed over.
pub open spec fn injected(
    values: Map<Seq<char>, Seq<Seq<u8>>>,
    header: Option<CredentialHeaderModel>,
) -> Map<Seq<char>, Seq<Seq<u8>>> {
    match header {
        Some(h) if injectable(h) => values.insert(text::ascii_lower(h.name), seq![encode_utf8(h.value)]),
        _ => values,
    }
}

/// Sets the credential header of a request, in place of any that the request had under
/// that name. Fails, with the headers as they were, only where the map has no room.
pub fn inject_credential(headers: &mut http::HeaderMap, header: &Option<CredentialHeader>) -> (r:
    Result<(), HeaderLimitReached>)
    ensures
        r is Ok ==> header_values(*final(headers)) == injected(
            header_values(*old(headers)),
            header.deep_view(),
        ),
        r is Err ==> header_values(*final(headers)) == header_values(*old(headers)),
        has_room(header_values(*old(headers))) || !(header.deep_view() matches Some(h)
            && injectable(h)) ==> r is Ok,
{
    if let Some(h) = header {
        if let Ok(name) = header_name(h.name.as_str()) {
            if let Ok(value) = header_value(h.value.as_str()) {
                return match try_insert_header(headers, name, value) {
                    Ok(_) => Ok(()),
                    Err(_) => Err(HeaderLimitReached),
                };
            }
        }
    }
    Ok(())
}

/// An injected credential is the only value of its header, and no other header changes.
pub proof fn law_injection_touches_one_header(
    values: Map<Seq<char>, Seq<Seq<u8>>>,
    header: CredentialHeaderModel,
    other: Seq<char>,
)
    ensures
        injectable(header) ==> injected(values, Some(header)).contains_key(
            text::ascii_lower(header.name),
        ) && injected(values, Some(header))[text::ascii_lower(header.name)] == seq![
            encode_utf8(header.value),
        ],
        other != text::ascii_lower(header.name) || !injectable(header) ==> {
            &&& injected(values, Some(header)).contains_key(other) <==> values.contains_key(other)
            &&& values.contains_key(other) ==> injected(values, Some(header))[other]
                == values[other]
        },
{
}

/// A credential is injected whenever its header's name and value are valid, whatever headers
/// the request had; with an invalid name or value, or without a credential, nothing changes.
pub proof fn law_valid_credential_is_injected(
    values: Map<Seq<char>, Seq<Seq<u8>>>,
    header: CredentialHeaderModel,
)
    ensures
        is_header_name(header.name) && is_header_value(encode_utf8(header.value)) ==> injected(
            values,
            Some(header),
        ).contains_pair(text::ascii_lower(header.name), seq![encode_utf8(header.value)]),
        is_header_name(header.name) && is_header_value(encode_utf8(header.value)) ==> injected(
            values,
            Some(header),
        ).remove(text::ascii_lower(header.name)) == values.remove(text::ascii_lower(header.name)),
        !is_header_name(header.name) || !is_header_value(encode_utf8(header.value)) ==> injected(
            values,
            Some(header),
        ) == values,
        injected(values, None) == values,
{
    let name = text::ascii_lower(header.name);
    assert(values.insert(name, seq![encode_utf8(header.value)]).remove(name) =~= values.remove(
        name,
    ));
}

/// Whether every entry has a valid name and a valid value.
pub open spec fn valid_entries(entries: Seq<(Seq<char>, Seq<u8>)>) -> bool {
    forall|i: int|
        0 <= i < entries.len() ==> is_header_name((#[trigger] entries[i]).0) && is_header_value(
            entries[i].1,
        )
}

/// The headers that result from appending `entries` in order.
pub open spec fn appended_all(entries: Seq<(Seq<char>, Seq<u8>)>) -> Map<
    Seq<char>,
    Seq<Seq<u8>>,
>
    decreases entries.len(),
{
    if entries.len() == 0 {
        Map::empty()
    } else {
        appended(
            appended_all(entries.drop_last()),
            text::ascii_lower(entries.last().0),
            entries.last().1,
        )
    }
}

/// The first `n` entries make no names but those that all of them make.
proof fn lemma_appended_all_names(entries: Seq<(Seq<char>, Seq<u8>)>, n: int)
    requires
        0 <= n <= entries.len(),
    ensures
        appended_all(entries).dom().finite(),
        appended_all(entries.take(n)).dom().subset_of(appended_all(entries).dom()),
    decreases entries.len(),
{
    if n == entries.len() {
        assert(entries.take(n) == entries);
    }
    if entries.len() > 0 {
        let front = entries.drop_last();
        if n < entries.len() {
            assert(front.take(n) == entries.take(n));
            lemma_appended_all_names(front, n);
        } else {
            lemma_appended_all_names(front, front.len() as int);
        }
    }
}

/// Where all entries together leave room, so do the first `n` of them.
proof fn lemma_room_for_first(entries: Seq<(Seq<char>, Seq<u8>)>, n: int)
    requires
        0 <= n <= entries.len(),
        has_room(appended_all(entries)),
    ensures
        has_room(appended_all(entries.take(n))),
{
    lemma_appended_all_names(entries, n);
    lemma_appended_all_names(entries.take(n), n);
    vstd::set_lib::lemma_len_subset(
        appended_all(entries.take(n)).dom(),
        appended_all(entries).dom(),
    );
}

/// Builds the response that a host reported: its status, its header entries in order, and
/// its body. Fails on a status outside 100 to 999 and on an invalid header, and otherwise at
/// most where the names of the headers leave no room.
pub fn build_response(status: u16, entries: &Vec<(String, Vec<u8>)>, body: Vec<u8>) -> (r: Result<
    http::Response<Vec<u8>>,
    http::Error,
>)
    ensures
        r matches Ok(response) ==> {
            &&& 100 <= status <= 999
            &&& valid_entries(entries.deep_view())
            &&& response_head(response) == (status, appended_all(entries.deep_view()))
            &&& response_body(response) == body@
        },
        100 <= status <= 999 && valid_entries(entries.deep_view()) && has_room(
            appended_all(entries.deep_view()),
        ) ==> r is Ok,
{
    let ghost all = entries.deep_view();
    let mut builder = builder_status(response_builder(), status);
    for i in 0..entries.len()
        invariant
            all == entries.deep_view(),
            builder_head(builder) matches Some((s, values)) ==> {
                &&& s == status
                &&& 100 <= status <= 999
                &&& valid_entries(all.take(i as int))
                &&& values == appended_all(all.take(i as int))
            },
            100 <= status <= 999 && valid_entries(all) && has_room(appended_all(all))
                ==> builder_head(builder) is Some,
    {
        proof {
            if has_room(appended_all(all)) {
                lemma_room_for_first(all, i as int);
            }
            assert(all.take(i + 1).drop_last() == all.take(i as int));
            assert(all.take(i + 1).last() == all[i as int]);
            assert(all[i as int] == (entries@[i as int].0@, entries@[i as int].1@));
        }
        builder = builder_header(builder, entries[i].0.as_str(), entries[i].1.as_slice());
    }
    assert(all.take(entries@.len() as int) == all);
    builder_body(builder, body)
}

/// A list of entries is valid exactly where each part of it is, and a single one exactly
/// where its name and its value are.
pub proof fn law_entries_are_valid_one_by_one(
    a: Seq<(Seq<char>, Seq<u8>)>,
    b: Seq<(Seq<char>, Seq<u8>)>,
    entry: (Seq<char>, Seq<u8>),
)
    ensures
        valid_entries(Seq::empty()),
        valid_entries(seq![entry]) <==> is_header_name(entry.0) && is_header_value(entry.1),
        valid_entries(a + b) <==> valid_entries(a) && valid_entries(b),
{
    assert(seq![entry][0] == entry);
    assert forall|i: int| 0 <= i < a.len() implies #[trigger] a[i] == (a + b)[i] by {}
    assert forall|i: int| 0 <= i < b.len() implies #[trigger] b[i] == (a + b)[a.len() + i] by {}
    if valid_entries(a + b) {
        assert forall|i: int| 0 <= i < a.len() implies is_header_name((#[trigger] a[i]).0)
            && is_header_value(a[i].1) by {
            assert(is_header_name((a + b)[i].0));
        }
        assert forall|i: int| 0 <= i < b.len() implies is_header_name((#[trigger] b[i]).0)
            && is_header_value(b[i].1) by {
            assert(is_header_name((a + b)[a.len() + i].0));
        }
    }
}

/// A response has exactly the names of its entries, in lower case, and under each of them
/// all values that the entries give it, in their order.
pub proof fn law_response_has_every_header(entries: Seq<(Seq<char>, Seq<u8>)>, name: Seq<char>)
    ensures
        ({
            let given = entries.filter(
                |entry: (Seq<char>, Seq<u8>)| text::ascii_lower(entry.0) == name,
            ).map_values(|entry: (Seq<char>, Seq<u8>)| entry.1);
            &&& appended_all(entries).contains_key(name) <==> given.len() > 0
            &&& given.len() > 0 ==> appended_all(entries)[name] == given
        }),
    decreases entries.len(),
{
    reveal(Seq::filter);
    if entries.len() > 0 {
        let front = entries.drop_last();
        let last = entries.last();
        law_response_has_every_header(front, name);
        let named = |entry: (Seq<char>, Seq<u8>)| text::ascii_lower(entry.0) == name;
        let value = |entry: (Seq<char>, Seq<u8>)| entry.1;
        let before = front.filter(named);
        assert(before.push(last).map_values(value) == before.map_values(value).push(last.1));
        if text::ascii_lower(last.0) == name && before.len() == 0 {
            assert(before.map_values(value) == Seq::<Seq<u8>>::empty());
        }
    }
}

/// Two credential headers have the same model only where they have the same name and value.
pub proof fn law_header_model_leaves_nothing_out(a: CredentialHeader, b: CredentialHeader)
    ensures
        a.deep_view() == b.deep_view() <==> a.name@ == b.name@ && a.value@ == b.value@,
{
}

} // verus!
