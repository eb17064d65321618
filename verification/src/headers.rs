//! Headers that a proxy may pass on.

use vstd::prelude::*;
use axum::http::{HeaderMap, HeaderName, HeaderValue};
use crate::outside;
use crate::outside::ValueView;
use crate::text;

verus! {

// ---------------------------------------------------------------------------
// Hop-by-hop headers
// ---------------------------------------------------------------------------

/// The headers that are hop-by-hop by their name alone, which a proxy must not forward (RFC 9113
/// section 8.2.2 and RFC 7230 section 6.1).
pub open spec fn is_hop_by_hop_name(name: Seq<char>) -> bool {
    ||| name == "connection"@
    ||| name == "keep-alive"@
    ||| name == "proxy-connection"@
    ||| name == "transfer-encoding"@
    ||| name == "host"@
    ||| name == "proxy-authenticate"@
    ||| name == "proxy-authorization"@
    ||| name == "te"@
    ||| name == "trailer"@
    ||| name == "upgrade"@
}

/// A character of a token in lower case.
pub open spec fn is_name_char(c: char) -> bool {
    ||| 'a' <= c <= 'z'
    ||| '0' <= c <= '9'
    ||| c == '!' || c == '#' || c == '$' || c == '%' || c == '&' || c == '\'' || c == '*'
    ||| c == '+' || c == '-' || c == '.' || c == '^' || c == '_' || c == '`' || c == '|' || c == '~'
}

/// The text of a header name in lower case that is a token, as HTTP has it.
pub open spec fn is_header_name(name: Seq<char>) -> bool {
    &&& name.len() > 0
    &&& forall|i: int| 0 <= i < name.len() ==> is_name_char(#[trigger] name[i])
}

/// The bytes that can stand in a header value: no control character but the tab.
pub open spec fn is_header_value(value: Seq<u8>) -> bool {
    forall|i: int|
        0 <= i < value.len() ==> (#[trigger] value[i] >= 32 && value[i] != 127 || value[i] == 9)
}

/// A space or a tab.
pub open spec fn is_space(b: u8) -> bool {
    b == 32 || b == 9
}

/// An ASCII letter in lower case; any other byte as it is.
pub open spec fn lower_byte(b: u8) -> u8 {
    if 65 <= b <= 90 {
        (b + 32) as u8
    } else {
        b
    }
}

/// An element of a list with commas can begin here: between the comma in front, or the start of
/// the list, and this place there is nothing but white space.
pub open spec fn opens_at(value: Seq<u8>, at: int) -> bool
    decreases at,
{
    at <= 0 || value[at - 1] == 44 || (is_space(value[at - 1]) && opens_at(value, at - 1))
}

/// An element of a list with commas can end here: between this place and the next comma, or the
/// end of the list, there is nothing but white space.
pub open spec fn closes_at(value: Seq<u8>, at: int) -> bool
    decreases value.len() - at,
{
    at >= value.len() || value[at] == 44 || (is_space(value[at]) && closes_at(value, at + 1))
}

/// The value spells the name here, in upper or lower case.
pub open spec fn spells_at(value: Seq<u8>, at: int, name: Seq<char>) -> bool {
    &&& 0 <= at
    &&& at + name.len() <= value.len()
    &&& forall|k: int|
        0 <= k < name.len() ==> #[trigger] name[k] == lower_byte(value[at + k]) as char
}

/// An element of the list that begins here is the name.
pub open spec fn option_at(value: Seq<u8>, at: int, name: Seq<char>) -> bool {
    spells_at(value, at, name) && opens_at(value, at) && closes_at(value, at + name.len())
}

/// A value of a `Connection` header lists the name, among names that commas part.
pub open spec fn lists_name(value: Seq<u8>, name: Seq<char>) -> bool {
    exists|at: int| option_at(value, at, name)
}

/// The name is a header name that one of these values of a `Connection` header lists.
pub open spec fn is_listed(options: Seq<Seq<u8>>, name: Seq<char>) -> bool {
    is_header_name(name) && exists|i: int|
        0 <= i < options.len() && lists_name(#[trigger] options[i], name)
}

/// The bytes of each of a list of values.
pub open spec fn bytes_of(list: Seq<ValueView>) -> Seq<Seq<u8>> {
    list.map_values(|value: ValueView| value.bytes)
}

/// The values of the `Connection` header, as bytes.
pub open spec fn connection_options(values: Map<Seq<char>, Seq<ValueView>>) -> Seq<Seq<u8>> {
    if values.contains_key("connection"@) {
        bytes_of(values["connection"@])
    } else {
        Seq::empty()
    }
}

/// A header is hop-by-hop by its name, or because the `Connection` header lists it.
pub open spec fn is_hop_by_hop_in(values: Map<Seq<char>, Seq<ValueView>>, name: Seq<char>) -> bool {
    is_hop_by_hop_name(name) || is_listed(connection_options(values), name)
}

/// Whether a header, named in lower case, is hop-by-hop by its name alone.
pub fn is_hop_by_hop(name: &str) -> (hop_by_hop: bool)
    ensures
        hop_by_hop == is_hop_by_hop_name(name@),
        hop_by_hop == (name@ == "connection"@ || name@ == "keep-alive"@ || name@ == "proxy-connection"@
            || name@ == "transfer-encoding"@ || name@ == "host"@ || name@ == "proxy-authenticate"@
            || name@ == "proxy-authorization"@ || name@ == "te"@ || name@ == "trailer"@ || name@
            == "upgrade"@),
{
    text::same_text(name, "connection") || text::same_text(name, "keep-alive")
        || text::same_text(name, "proxy-connection") || text::same_text(name, "transfer-encoding")
        || text::same_text(name, "host") || text::same_text(name, "proxy-authenticate")
        || text::same_text(name, "proxy-authorization") || text::same_text(name, "te")
        || text::same_text(name, "trailer") || text::same_text(name, "upgrade")
}

fn opens(value: &[u8], at: usize) -> (open: bool)
    requires
        at <= value@.len(),
    ensures
        open == opens_at(value@, at as int),
{
    let mut i: usize = at;
    while i > 0
        invariant
            i <= at <= value@.len(),
            opens_at(value@, at as int) == opens_at(value@, i as int),
        decreases i,
    {
        let b = value[i - 1];
        if b == 44 {
            return true;
        }
        if b != 32 && b != 9 {
            return false;
        }
        i = i - 1;
    }
    true
}

fn closes(value: &[u8], at: usize) -> (closed: bool)
    requires
        at <= value@.len(),
    ensures
        closed == closes_at(value@, at as int),
{
    let mut i: usize = at;
    while i < value.len()
        invariant
            i <= value@.len(),
            closes_at(value@, at as int) == closes_at(value@, i as int),
        decreases value@.len() - i,
    {
        let b = value[i];
        if b == 44 {
            return true;
        }
        if b != 32 && b != 9 {
            return false;
        }
        i = i + 1;
    }
    true
}

fn spells(value: &[u8], at: usize, name: &Vec<char>) -> (spelled: bool)
    requires
        at + name@.len() <= value@.len(),
    ensures
        spelled == spells_at(value@, at as int, name@),
{
    let total: usize = value.len();
    let mut k: usize = 0;
    while k < name.len()
        invariant
            k <= name@.len(),
            total == value@.len(),
            at + name@.len() <= total,
            forall|j: int| 0 <= j < k ==> #[trigger] name@[j] == lower_byte(value@[at + j]) as char,
        decreases name@.len() - k,
    {
        let b = value[at + k];
        let lower: u8 = if 65 <= b && b <= 90 {
            b + 32
        } else {
            b
        };
        if name[k] != lower as char {
            assert(name@[k as int] != lower_byte(value@[at + k]) as char);
            return false;
        }
        k = k + 1;
    }
    true
}

fn lists(value: &[u8], name: &Vec<char>) -> (listed: bool)
    ensures
        listed == lists_name(value@, name@),
{
    let total: usize = value.len();
    if name.len() > total {
        return false;
    }
    let last: usize = total - name.len();
    let mut at: usize = 0;
    loop
        invariant
            at <= last,
            total == value@.len(),
            last + name@.len() == total,
            forall|a: int| 0 <= a < at ==> !#[trigger] option_at(value@, a, name@),
        decreases last - at,
    {
        if spells(value, at, name) && opens(value, at) && closes(value, at + name.len()) {
            assert(option_at(value@, at as int, name@));
            return true;
        }
        if at == last {
            return false;
        }
        at = at + 1;
    }
}

/// Whether a value of a `Connection` header lists a header, named in lower case.
pub fn connection_lists(value: &[u8], name: &str) -> (listed: bool)
    ensures
        listed == lists_name(value@, name@),
{
    lists(value, &text::characters(name))
}

/// The values of the `Connection` header in a list of fields.
fn options_of(fields: &Vec<(HeaderName, HeaderValue)>) -> (options: Vec<Vec<u8>>)
    ensures
        outside::each_bytes(options@) == bytes_of(outside::values_of(fields@, "connection"@)),
{
    let mut options: Vec<Vec<u8>> = Vec::new();
    let mut i: usize = 0;
    assert(outside::each_bytes(options@) =~= bytes_of(outside::values_of(fields@.take(0), "connection"@)));
    while i < fields.len()
        invariant
            i <= fields@.len(),
            outside::each_bytes(options@) == bytes_of(
                outside::values_of(fields@.take(i as int), "connection"@),
            ),
        decreases fields@.len() - i,
    {
        let ghost seen = outside::values_of(fields@.take(i as int), "connection"@);
        assert(fields@.take(i + 1).drop_last() == fields@.take(i as int));
        if text::same_text(outside::name_str(&fields[i].0), "connection") {
            let bytes = outside::value_vec(&fields[i].1);
            let ghost before = options@;
            options.push(bytes);
            assert(outside::each_bytes(options@) =~= outside::each_bytes(before).push(bytes@));
            assert(bytes_of(seen.push(outside::value_view(fields@[i as int].1))) =~= bytes_of(seen).push(
                bytes@,
            ));
        }
        i = i + 1;
    }
    assert(fields@.take(i as int) == fields@);
    options
}

/// Whether a row of characters is the text of a header name that is a token.
fn is_token(spelling: &Vec<char>) -> (token: bool)
    ensures
        token == is_header_name(spelling@),
{
    let mut k: usize = 0;
    while k < spelling.len()
        invariant
            k <= spelling@.len(),
            forall|j: int| 0 <= j < k ==> is_name_char(#[trigger] spelling@[j]),
        decreases spelling@.len() - k,
    {
        let c = spelling[k];
        let letter = ('a' <= c && c <= 'z') || ('0' <= c && c <= '9');
        if !letter && c != '!' && c != '#' && c != '$' && c != '%' && c != '&' && c != '\'' && c != '*'
            && c != '+' && c != '-' && c != '.' && c != '^' && c != '_' && c != '`' && c != '|' && c
            != '~' {
            assert(!is_name_char(spelling@[k as int]));
            return false;
        }
        k = k + 1;
    }
    spelling.len() > 0
}

/// Whether a header is hop-by-hop, given the values of the `Connection` header.
fn is_dropped(options: &Vec<Vec<u8>>, name: &str) -> (dropped: bool)
    ensures
        dropped == (is_hop_by_hop_name(name@) || is_listed(outside::each_bytes(options@), name@)),
{
    if is_hop_by_hop(name) {
        return true;
    }
    let spelling = text::characters(name);
    if !is_token(&spelling) {
        return false;
    }
    let ghost all = outside::each_bytes(options@);
    let mut i: usize = 0;
    while i < options.len()
        invariant
            i <= options@.len(),
            spelling@ == name@,
            !is_hop_by_hop_name(name@),
            is_header_name(name@),
            all == outside::each_bytes(options@),
            forall|j: int| 0 <= j < i ==> !lists_name(#[trigger] all[j], name@),
        decreases options@.len() - i,
    {
        assert(all[i as int] == options@[i as int]@);
        if lists(options[i].as_slice(), &spelling) {
            return true;
        }
        i = i + 1;
    }
    false
}

// ---------------------------------------------------------------------------
// What is passed on
// ---------------------------------------------------------------------------

/// The headers that are not hop-by-hop, each with all its values.
pub open spec fn end_to_end(values: Map<Seq<char>, Seq<ValueView>>) -> Map<Seq<char>, Seq<ValueView>> {
    values.filter_keys(|name: Seq<char>| !is_hop_by_hop_in(values, name))
}

/// The headers that are not hop-by-hop, each with its last value alone.
pub open spec fn end_to_end_last(values: Map<Seq<char>, Seq<ValueView>>) -> Map<Seq<char>, Seq<ValueView>> {
    end_to_end(values).map_values(|of_name: Seq<ValueView>| seq![of_name.last()])
}

/// The headers without the hop-by-hop ones among a list of fields.
spec fn without_listed(
    values: Map<Seq<char>, Seq<ValueView>>,
    fields: Seq<(HeaderName, HeaderValue)>,
) -> Map<Seq<char>, Seq<ValueView>> {
    values.filter_keys(
        |name: Seq<char>|
            !(is_hop_by_hop_in(values, name) && outside::values_of(fields, name).len() > 0),
    )
}

/// A list of the fields of a header map gives the values of its `Connection` header.
proof fn lemma_options(fields: Seq<(HeaderName, HeaderValue)>, values: Map<Seq<char>, Seq<ValueView>>)
    requires
        outside::lists_headers(fields, values),
    ensures
        bytes_of(outside::values_of(fields, "connection"@)) == connection_options(values),
{
    assert(values.contains_key("connection"@) <==> outside::values_of(fields, "connection"@).len() > 0);
    if values.contains_key("connection"@) {
        assert(values["connection"@] == outside::values_of(fields, "connection"@));
    } else {
        assert(bytes_of(outside::values_of(fields, "connection"@)) =~= Seq::empty());
    }
}

/// A copy of `headers` with all hop-by-hop headers removed, the ones that its `Connection` header
/// lists among them.
pub fn filter_headers(headers: &HeaderMap<HeaderValue>) -> (filtered: HeaderMap<HeaderValue>)
    ensures
        outside::header_values(filtered) == end_to_end(outside::header_values(*headers)),
{
    let fields = outside::header_fields(headers);
    let options = options_of(&fields);
    let ghost values = outside::header_values(*headers);
    proof {
        lemma_options(fields@, values);
    }
    let mut filtered = outside::clone_headers(headers);
    let mut i: usize = 0;
    assert(outside::header_values(filtered) =~= without_listed(values, fields@.take(0)));
    while i < fields.len()
        invariant
            i <= fields@.len(),
            outside::lists_headers(fields@, values),
            outside::each_bytes(options@) == connection_options(values),
            outside::header_values(filtered) == without_listed(values, fields@.take(i as int)),
        decreases fields@.len() - i,
    {
        let ghost before = without_listed(values, fields@.take(i as int));
        assert(fields@.take(i + 1).drop_last() == fields@.take(i as int));
        let name = outside::name_str(&fields[i].0);
        if is_dropped(&options, name) {
            outside::remove_header(&mut filtered, &fields[i].0);
            assert(before.remove(name@) =~= without_listed(values, fields@.take(i + 1)));
        } else {
            assert(before =~= without_listed(values, fields@.take(i + 1)));
        }
        i = i + 1;
    }
    proof {
        assert(fields@.take(i as int) == fields@);
        assert forall|name: Seq<char>| #[trigger] values.contains_key(name) implies outside::values_of(
            fields@,
            name,
        ).len() > 0 by {}
        assert(outside::header_values(filtered) =~= end_to_end(values));
    }
    filtered
}

/// The headers of a list of fields that are not hop-by-hop, a later field replacing an earlier
/// one of the same name.
spec fn last_fields(
    values: Map<Seq<char>, Seq<ValueView>>,
    fields: Seq<(HeaderName, HeaderValue)>,
) -> Map<Seq<char>, Seq<ValueView>>
    decreases fields.len(),
{
    if fields.len() == 0 {
        Map::empty()
    } else if is_hop_by_hop_in(values, outside::name_text(fields.last().0)) {
        last_fields(values, fields.drop_last())
    } else {
        last_fields(values, fields.drop_last()).insert(outside::name_text(fields.last().0), seq![outside::value_view(fields.last().1)])
    }
}

/// Replacing earlier fields by later ones leaves each header its last value.
proof fn lemma_last_fields(values: Map<Seq<char>, Seq<ValueView>>, fields: Seq<(HeaderName, HeaderValue)>)
    ensures
        last_fields(values, fields).dom().finite(),
        forall|name: Seq<char>| #[trigger]
            last_fields(values, fields).contains_key(name) <==> !is_hop_by_hop_in(values, name)
                && outside::values_of(fields, name).len() > 0,
        forall|name: Seq<char>|
            last_fields(values, fields).contains_key(name) ==> #[trigger] last_fields(values, fields)[name]
                == seq![outside::values_of(fields, name).last()],
    decreases fields.len(),
{
    if fields.len() > 0 {
        lemma_last_fields(values, fields.drop_last());
        let before = last_fields(values, fields.drop_last());
        let last = fields.last();
        assert forall|name: Seq<char>| #[trigger]
            last_fields(values, fields).contains_key(name) <==> !is_hop_by_hop_in(values, name)
                && outside::values_of(fields, name).len() > 0 by {
            assert(before.contains_key(name) <==> !is_hop_by_hop_in(values, name) && outside::values_of(
                fields.drop_last(),
                name,
            ).len() > 0);
        }
        assert forall|name: Seq<char>|
            last_fields(values, fields).contains_key(name) implies #[trigger] last_fields(values, fields)[name]
            == seq![outside::values_of(fields, name).last()] by {
            if name != outside::name_text(last.0) {
                assert(before.contains_key(name));
                assert(before[name] == seq![outside::values_of(fields.drop_last(), name).last()]);
            }
        }
    }
}

/// The headers after more of the fields are no fewer.
proof fn lemma_last_fields_grow(
    values: Map<Seq<char>, Seq<ValueView>>,
    fields: Seq<(HeaderName, HeaderValue)>,
    i: int,
)
    requires
        0 <= i <= fields.len(),
    ensures
        last_fields(values, fields.take(i)).dom().subset_of(last_fields(values, fields).dom()),
    decreases fields.len(),
{
    if i == fields.len() {
        assert(fields.take(i) == fields);
    } else {
        lemma_last_fields_grow(values, fields.drop_last(), i);
        assert(fields.drop_last().take(i) == fields.take(i));
    }
}

/// A name that a list of fields gives a value is the name of one of them.
proof fn lemma_field_of_name(fields: Seq<(HeaderName, HeaderValue)>, name: Seq<char>) -> (i: int)
    requires
        outside::values_of(fields, name).len() > 0,
    ensures
        0 <= i < fields.len(),
        outside::name_text(fields[i].0) == name,
    decreases fields.len(),
{
    if outside::name_text(fields.last().0) == name {
        fields.len() - 1
    } else {
        lemma_field_of_name(fields.drop_last(), name)
    }
}

/// A header map has finitely many names.
proof fn lemma_finite_names(fields: Seq<(HeaderName, HeaderValue)>, values: Map<Seq<char>, Seq<ValueView>>)
    requires
        outside::lists_headers(fields, values),
    ensures
        values.dom().finite(),
{
    let names = fields.map_values(|field: (HeaderName, HeaderValue)| outside::name_text(field.0));
    assert forall|name: Seq<char>| #[trigger] values.dom().contains(name) implies names.to_set().contains(
        name,
    ) by {
        assert(values.contains_key(name));
        let i = lemma_field_of_name(fields, name);
        assert(names[i] == name);
    }
    vstd::seq_lib::seq_to_set_is_finite(names);
    vstd::set_lib::lemma_set_subset_finite(names.to_set(), values.dom());
}

/// The headers of an upstream's answer that are passed on: the hop-by-hop headers are left out,
/// and a header that occurs several times keeps its last value.
///
/// `None` comes only of more headers than a header map is sure to take.
pub fn relay_headers(headers: &HeaderMap<HeaderValue>) -> (relayed: Option<HeaderMap<HeaderValue>>)
    ensures
        match relayed {
            Some(kept) => outside::header_values(kept) == end_to_end_last(outside::header_values(*headers)),
            None => {
                &&& end_to_end(outside::header_values(*headers)).dom().len() > outside::ROOMY
                &&& outside::header_values(*headers).dom().len() > outside::ROOMY
            },
        },
{
    let fields = outside::header_fields(headers);
    let options = options_of(&fields);
    let ghost values = outside::header_values(*headers);
    proof {
        lemma_options(fields@, values);
        lemma_last_fields(values, fields@);
        assert forall|name: Seq<char>| end_to_end(values).contains_key(name) == #[trigger] last_fields(
            values,
            fields@,
        ).contains_key(name) by {
            assert(values.contains_key(name) <==> outside::values_of(fields@, name).len() > 0);
        }
        assert(end_to_end(values).dom() =~= last_fields(values, fields@).dom());
    }
    let mut kept = outside::new_header_map();
    let mut i: usize = 0;
    assert(outside::header_values(kept) =~= last_fields(values, fields@.take(0)));
    while i < fields.len()
        invariant
            i <= fields@.len(),
            values == outside::header_values(*headers),
            outside::lists_headers(fields@, values),
            outside::each_bytes(options@) == connection_options(values),
            end_to_end(values).dom() == last_fields(values, fields@).dom(),
            outside::header_values(kept) == last_fields(values, fields@.take(i as int)),
        decreases fields@.len() - i,
    {
        assert(fields@.take(i + 1).drop_last() == fields@.take(i as int));
        if !is_dropped(&options, outside::name_str(&fields[i].0)) {
            if !outside::insert_header(&mut kept, &fields[i].0, &fields[i].1) {
                proof {
                    lemma_last_fields_grow(values, fields@, i as int);
                    lemma_last_fields(values, fields@);
                    vstd::set_lib::lemma_len_subset(
                        last_fields(values, fields@.take(i as int)).dom(),
                        last_fields(values, fields@).dom(),
                    );
                    lemma_finite_names(fields@, values);
                    vstd::set_lib::lemma_len_subset(end_to_end(values).dom(), values.dom());
                }
                return None;
            }
        }
        i = i + 1;
    }
    proof {
        assert(fields@.take(i as int) == fields@);
        lemma_last_fields(values, fields@);
        assert forall|name: Seq<char>|
            #[trigger] last_fields(values, fields@).contains_key(name) implies last_fields(values, fields@)[name]
            == end_to_end_last(values)[name] by {
            assert(values.contains_key(name));
            assert(values[name] == outside::values_of(fields@, name));
        }
        assert(outside::header_values(kept) =~= end_to_end_last(values));
    }
    Some(kept)
}

// ---------------------------------------------------------------------------
// Laws
// ---------------------------------------------------------------------------

/// No hop-by-hop header is forwarded, to the upstream or back, be it one by its name or one that
/// the `Connection` header lists.
pub proof fn law_no_hop_by_hop_header(values: Map<Seq<char>, Seq<ValueView>>, name: Seq<char>)
    requires
        is_hop_by_hop_in(values, name),
    ensures
        !end_to_end(values).contains_key(name),
        !end_to_end_last(values).contains_key(name),
{
}

/// Every other header of a request is forwarded as it is; every other header of an answer is
/// passed back with its last value.
pub proof fn law_other_headers_pass(values: Map<Seq<char>, Seq<ValueView>>, name: Seq<char>)
    requires
        !is_hop_by_hop_in(values, name),
    ensures
        end_to_end(values).contains_key(name) == values.contains_key(name),
        end_to_end_last(values).contains_key(name) == values.contains_key(name),
        values.contains_key(name) ==> end_to_end(values)[name] == values[name],
        values.contains_key(name) ==> end_to_end_last(values)[name] == seq![values[name].last()],
{
}

/// Without a `Connection` header, the hop-by-hop headers are those that are so by their name.
pub proof fn law_hop_by_hop_without_connection(values: Map<Seq<char>, Seq<ValueView>>, name: Seq<char>)
    requires
        !values.contains_key("connection"@),
    ensures
        is_hop_by_hop_in(values, name) == is_hop_by_hop_name(name),
{
}

/// What was filtered once is not changed by filtering it again.
pub proof fn law_filtering_twice(values: Map<Seq<char>, Seq<ValueView>>)
    ensures
        end_to_end(end_to_end(values)) == end_to_end(values),
        end_to_end_last(end_to_end_last(values)) == end_to_end_last(values),
{
    assert(end_to_end(end_to_end(values)) =~= end_to_end(values));
    assert(end_to_end_last(end_to_end_last(values)) =~= end_to_end_last(values));
}

/// An element can begin behind white space that follows a comma or the start.
proof fn lemma_opens(value: Seq<u8>, start: int, at: int)
    requires
        0 <= start <= at <= value.len(),
        start == 0 || value[start - 1] == 44,
        forall|j: int| start <= j < at ==> (#[trigger] value[j] == 32 || value[j] == 9),
    ensures
        opens_at(value, at),
    decreases at - start,
{
    if start < at {
        lemma_opens(value, start, at - 1);
        assert(value[at - 1] == 32 || value[at - 1] == 9);
    }
}

/// An element can end before white space that a comma or the end follows.
proof fn lemma_closes(value: Seq<u8>, at: int, end: int)
    requires
        0 <= at <= end <= value.len(),
        end == value.len() || value[end] == 44,
        forall|j: int| at <= j < end ==> (#[trigger] value[j] == 32 || value[j] == 9),
    ensures
        closes_at(value, at),
    decreases end - at,
{
    if at < end {
        lemma_closes(value, at + 1, end);
        assert(value[at] == 32 || value[at] == 9);
    }
}

/// Where an element can begin, white space leads back to a comma or the start.
proof fn lemma_opened(value: Seq<u8>, at: int) -> (start: int)
    requires
        0 <= at <= value.len(),
        opens_at(value, at),
    ensures
        0 <= start <= at,
        start == 0 || value[start - 1] == 44,
        forall|j: int| start <= j < at ==> (#[trigger] value[j] == 32 || value[j] == 9),
    decreases at,
{
    if at == 0 || value[at - 1] == 44 {
        at
    } else {
        lemma_opened(value, at - 1)
    }
}

/// Where an element can end, white space leads on to a comma or the end.
proof fn lemma_closed(value: Seq<u8>, at: int) -> (end: int)
    requires
        0 <= at <= value.len(),
        closes_at(value, at),
    ensures
        at <= end <= value.len(),
        end == value.len() || value[end] == 44,
        forall|j: int| at <= j < end ==> (#[trigger] value[j] == 32 || value[j] == 9),
    decreases value.len() - at,
{
    if at == value.len() || value[at] == 44 {
        at
    } else {
        lemma_closed(value, at + 1)
    }
}

/// A word between commas, with spaces and tabs around it, lists the header of its name, be it in
/// upper or lower case.
pub proof fn law_listed_word_counts(
    front: Seq<u8>,
    before: Seq<u8>,
    word: Seq<u8>,
    behind: Seq<u8>,
    back: Seq<u8>,
    name: Seq<char>,
)
    requires
        front.len() == 0 || front.last() == 44,
        back.len() == 0 || back[0] == 44,
        forall|j: int| 0 <= j < before.len() ==> (#[trigger] before[j] == 32 || before[j] == 9),
        forall|j: int| 0 <= j < behind.len() ==> (#[trigger] behind[j] == 32 || behind[j] == 9),
        word.len() == name.len(),
        forall|k: int|
            0 <= k < name.len() ==> 'a' <= #[trigger] name[k] <= 'z' && word[k] == name[k] as int - 32
                || !('A' <= name[k] <= 'Z') && word[k] as char == name[k],
    ensures
        lists_name(front + before + word + behind + back, name),
{
    let value = front + before + word + behind + back;
    let at = front.len() + before.len();
    let end = at + word.len() + behind.len();
    assert forall|j: int| front.len() <= j < at implies (#[trigger] value[j] == 32 || value[j] == 9) by {
        assert(value[j] == before[j - front.len()]);
    }
    lemma_opens(value, front.len() as int, at as int);
    assert forall|j: int| at + word.len() <= j < end implies (#[trigger] value[j] == 32 || value[j] == 9) by {
        assert(value[j] == behind[j - at - word.len()]);
    }
    lemma_closes(value, (at + word.len()) as int, end as int);
    assert forall|k: int| 0 <= k < name.len() implies #[trigger] name[k] == lower_byte(value[at + k]) as char by {
        assert(value[at + k] == word[k]);
    }
    assert(option_at(value, at as int, name));
}

/// A value of a `Connection` header that lists a name holds it as a word: behind it and before it
/// there is nothing but spaces and tabs up to a comma or an end of the value.
pub proof fn law_only_words_are_listed(value: Seq<u8>, name: Seq<char>) -> (found: (int, int, int))
    requires
        lists_name(value, name),
    ensures
        0 <= found.0 <= found.1,
        found.1 + name.len() <= found.2 <= value.len(),
        found.0 == 0 || value[found.0 - 1] == 44,
        found.2 == value.len() || value[found.2] == 44,
        forall|j: int| found.0 <= j < found.1 ==> (#[trigger] value[j] == 32 || value[j] == 9),
        forall|j: int|
            found.1 + name.len() <= j < found.2 ==> (#[trigger] value[j] == 32 || value[j] == 9),
        forall|k: int|
            0 <= k < name.len() ==> 'a' <= #[trigger] name[k] <= 'z' && value[found.1 + k] == name[k] as int
                - 32 || value[found.1 + k] as char == name[k],
{
    let at = choose|at: int| option_at(value, at, name);
    let start = lemma_opened(value, at);
    let end = lemma_closed(value, (at + name.len()) as int);
    assert forall|k: int| 0 <= k < name.len() implies 'a' <= #[trigger] name[k] <= 'z' && value[at + k]
        == name[k] as int - 32 || value[at + k] as char == name[k] by {
        assert(name[k] == lower_byte(value[at + k]) as char);
    }
    (start, at, end)
}

/// A name is a token exactly where it is not empty and consists of small letters, digits and the
/// signs of a token.
pub proof fn law_tokens(name: Seq<char>)
    ensures
        is_header_name(name) <==> name.len() > 0 && forall|i: int|
            0 <= i < name.len() ==> {
                ||| 'a' <= #[trigger] name[i] <= 'z'
                ||| '0' <= name[i] <= '9'
                ||| seq!['!', '#', '$', '%', '&', '\'', '*', '+', '-', '.', '^', '_', '`', '|', '~'].contains(
                    name[i],
                )
            },
{
    let signs = seq!['!', '#', '$', '%', '&', '\'', '*', '+', '-', '.', '^', '_', '`', '|', '~'];
    assert(signs[0] == '!' && signs[1] == '#' && signs[2] == '$' && signs[3] == '%' && signs[4] == '&');
    assert(signs[5] == '\'' && signs[6] == '*' && signs[7] == '+' && signs[8] == '-' && signs[9] == '.');
    assert(signs[10] == '^' && signs[11] == '_' && signs[12] == '`' && signs[13] == '|' && signs[14] == '~');
    assert forall|c: char| is_name_char(c) <==> 'a' <= c <= 'z' || '0' <= c <= '9' || #[trigger] signs.contains(
        c,
    ) by {}
    if is_header_name(name) {
        assert forall|i: int| 0 <= i < name.len() implies 'a' <= #[trigger] name[i] <= 'z' || '0' <= name[i]
            <= '9' || signs.contains(name[i]) by {
            assert(is_name_char(name[i]));
        }
    }
}

/// The connection, the keep-alive, the proxy's own connection and credentials, the transfer coding,
/// the host, the trailers and the upgrade are between two hops, and never passed on.
pub proof fn law_ten_names_are_dropped(values: Map<Seq<char>, Seq<ValueView>>, name: Seq<char>)
    requires
        ({
            ||| name == "connection"@
            ||| name == "keep-alive"@
            ||| name == "proxy-connection"@
            ||| name == "transfer-encoding"@
            ||| name == "host"@
            ||| name == "proxy-authenticate"@
            ||| name == "proxy-authorization"@
            ||| name == "te"@
            ||| name == "trailer"@
            ||| name == "upgrade"@
        }),
    ensures
        !end_to_end(values).contains_key(name),
        !end_to_end_last(values).contains_key(name),
{
}

/// A header that a value of the `Connection` header lists is not passed on either.
pub proof fn law_listed_names_are_dropped(values: Map<Seq<char>, Seq<ValueView>>, name: Seq<char>, i: int)
    requires
        is_header_name(name),
        values.contains_key("connection"@),
        0 <= i < values["connection"@].len(),
        lists_name(values["connection"@][i].bytes, name),
    ensures
        !end_to_end(values).contains_key(name),
        !end_to_end_last(values).contains_key(name),
{
    assert(connection_options(values)[i] == values["connection"@][i].bytes);
}

/// Any header that is not one of these names, and that no value of the `Connection` header lists, is
/// passed on: to the upstream with the values that it had, and to the client with the last of them.
pub proof fn law_no_other_name_is_dropped(values: Map<Seq<char>, Seq<ValueView>>, name: Seq<char>)
    requires
        name != "connection"@,
        name != "keep-alive"@,
        name != "proxy-connection"@,
        name != "transfer-encoding"@,
        name != "host"@,
        name != "proxy-authenticate"@,
        name != "proxy-authorization"@,
        name != "te"@,
        name != "trailer"@,
        name != "upgrade"@,
        values.contains_key("connection"@) ==> forall|i: int|
            0 <= i < values["connection"@].len() ==> !lists_name(
                (#[trigger] values["connection"@][i]).bytes,
                name,
            ),
    ensures
        end_to_end(values).contains_key(name) == values.contains_key(name),
        end_to_end_last(values).contains_key(name) == values.contains_key(name),
        values.contains_key(name) ==> end_to_end(values)[name] == values[name],
        values.contains_key(name) ==> end_to_end_last(values)[name] == seq![values[name].last()],
{
    let options = connection_options(values);
    assert forall|i: int| 0 <= i < options.len() implies !lists_name(#[trigger] options[i], name) by {
        assert(options[i] == values["connection"@][i].bytes);
    }
}

/// A field more in a list adds its value, with its bytes and its mark, behind those of its name, and
/// changes nothing for any other name.
pub proof fn law_fields_add_up(
    fields: Seq<(HeaderName, HeaderValue)>,
    field: (HeaderName, HeaderValue),
    other: Seq<char>,
)
    requires
        other != outside::name_text(field.0),
    ensures
        ({
            let name = outside::name_text(field.0);
            let values = outside::values_of(fields.push(field), name);
            &&& values.len() == outside::values_of(fields, name).len() + 1
            &&& values.drop_last() == outside::values_of(fields, name)
            &&& values.last().bytes == outside::value_bytes(field.1)
            &&& values.last().sensitive == outside::value_is_sensitive(field.1)
        }),
        outside::values_of(fields.push(field), other) == outside::values_of(fields, other),
        outside::values_of(Seq::empty(), other) == Seq::<ValueView>::empty(),
{
    assert(fields.push(field).drop_last() =~= fields);
    let name = outside::name_text(field.0);
    assert(outside::values_of(fields.push(field), name).drop_last() =~= outside::values_of(fields, name));
}

} // verus!
