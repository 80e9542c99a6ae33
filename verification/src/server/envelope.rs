//! The request envelope: the JSON document that describes an inbound request
//! to the decision service.
//!
//! Its members are `body`, `headers`, `method` and `path`, in this order. The
//! headers are a mapping: each name once, with the value of its last
//! occurrence, the names in the order of strings.

use crate::json::{json_quoted, quote};
use crate::server::{pairs_view, HeaderSeq};
use crate::text::{
    lemma_text_less_asymmetric, lemma_text_less_irreflexive, lemma_text_less_total,
    lemma_text_less_transitive, precedes, text_less,
};
use vstd::prelude::*;
use vstd::string::*;

verus! {

/// The mapping that a header list stands for: each name to the value of its
/// last occurrence.
pub open spec fn mapping(headers: HeaderSeq) -> Map<Seq<char>, Seq<char>>
    decreases headers.len(),
{
    if headers.len() == 0 {
        Map::empty()
    } else {
        mapping(headers.drop_last()).insert(headers.last().0, headers.last().1)
    }
}

/// Whether a header of the list has exactly the name `name`.
pub open spec fn names(headers: HeaderSeq, name: Seq<char>) -> bool {
    exists|i: int| 0 <= i < headers.len() && (#[trigger] headers[i]).0 == name
}

/// Whether the names of a list stand in the strict order of strings.
pub open spec fn ascending(entries: HeaderSeq) -> bool {
    forall|i: int, j: int|
        0 <= i < j < entries.len() ==> text_less(
            (#[trigger] entries[i]).0,
            (#[trigger] entries[j]).0,
        )
}

/// The entries of a mapping, its names ascending.
pub open spec fn entries_of(m: Map<Seq<char>, Seq<char>>) -> HeaderSeq {
    choose|entries: HeaderSeq| ascending(entries) && mapping(entries) == m
}

/// Each name and value in its quoted form.
pub open spec fn quoted_pairs(entries: HeaderSeq) -> HeaderSeq {
    Seq::new(entries.len(), |i: int| (json_quoted(entries[i].0), json_quoted(entries[i].1)))
}

/// The members of a JSON object, each given by the literal of its name and
/// the text of its value, with a colon between the two and commas between the
/// members.
pub open spec fn members_text(members: HeaderSeq) -> Seq<char>
    decreases members.len(),
{
    if members.len() == 0 {
        Seq::empty()
    } else if members.len() == 1 {
        members[0].0 + ":"@ + members[0].1
    } else {
        members_text(members.drop_last()) + ","@ + members.last().0 + ":"@ + members.last().1
    }
}

/// The text of a JSON object with the given members.
pub open spec fn object_text(members: HeaderSeq) -> Seq<char> {
    "{"@ + members_text(members) + "}"@
}

/// The envelope, from the texts of its four members.
pub open spec fn envelope_document(
    method_literal: Seq<char>,
    headers_object: Seq<char>,
    body: Seq<char>,
    path_literal: Seq<char>,
) -> Seq<char> {
    "{\"body\":"@ + body + ",\"headers\":"@ + headers_object + ",\"method\":"@ + method_literal
        + ",\"path\":"@ + path_literal + "}"@
}

/// The envelope of a request: `body` is the JSON text of its body.
pub open spec fn envelope(
    method: Seq<char>,
    headers: HeaderSeq,
    body: Seq<char>,
    path: Seq<char>,
) -> Seq<char> {
    envelope_document(
        json_quoted(method),
        object_text(quoted_pairs(entries_of(mapping(headers)))),
        body,
        json_quoted(path),
    )
}

/// A mapping holds exactly the names of its list.
pub proof fn lemma_mapping_names(headers: HeaderSeq)
    ensures
        forall|name: Seq<char>| mapping(headers).contains_key(name) <==> names(headers, name),
    decreases headers.len(),
{
    if headers.len() > 0 {
        let rest = headers.drop_last();
        lemma_mapping_names(rest);
        assert forall|name: Seq<char>| mapping(headers).contains_key(name) implies names(
            headers,
            name,
        ) by {
            if name == headers.last().0 {
                assert(headers[headers.len() - 1].0 == name);
            } else {
                assert(names(rest, name));
                let i = choose|i: int| 0 <= i < rest.len() && (#[trigger] rest[i]).0 == name;
                assert(headers[i].0 == name);
            }
        }
        assert forall|name: Seq<char>| names(headers, name) implies mapping(headers).contains_key(
            name,
        ) by {
            let i = choose|i: int| 0 <= i < headers.len() && (#[trigger] headers[i]).0 == name;
            if i < headers.len() - 1 {
                assert(rest[i].0 == name);
                assert(names(rest, name));
            }
        }
    }
}

/// A new name put into a list, before entries that do not have it, adds its
/// entry to the mapping.
pub proof fn lemma_mapping_insert_at(headers: HeaderSeq, at: int, entry: (Seq<char>, Seq<char>))
    requires
        0 <= at <= headers.len(),
        forall|j: int| at <= j < headers.len() ==> (#[trigger] headers[j]).0 != entry.0,
    ensures
        mapping(headers.insert(at, entry)) == mapping(headers).insert(entry.0, entry.1),
    decreases headers.len() - at,
{
    let grown = headers.insert(at, entry);
    if at == headers.len() {
        assert(grown.drop_last() =~= headers);
    } else {
        assert(grown.last() == headers.last());
        assert(grown.drop_last() =~= headers.drop_last().insert(at, entry));
        lemma_mapping_insert_at(headers.drop_last(), at, entry);
        assert(headers[headers.len() - 1].0 != entry.0);
        assert(mapping(grown) =~= mapping(headers).insert(entry.0, entry.1));
    }
}

/// A new value for an entry whose name does not occur again after it replaces
/// the name's value in the mapping.
pub proof fn lemma_mapping_update(headers: HeaderSeq, at: int, value: Seq<char>)
    requires
        0 <= at < headers.len(),
        forall|j: int| at < j < headers.len() ==> (#[trigger] headers[j]).0 != headers[at].0,
    ensures
        mapping(headers.update(at, (headers[at].0, value))) == mapping(headers).insert(
            headers[at].0,
            value,
        ),
    decreases headers.len(),
{
    let name = headers[at].0;
    let changed = headers.update(at, (name, value));
    if at == headers.len() - 1 {
        assert(changed.drop_last() =~= headers.drop_last());
        assert(mapping(changed) =~= mapping(headers).insert(name, value));
    } else {
        assert(changed.last() == headers.last());
        assert(changed.drop_last() =~= headers.drop_last().update(at, (name, value)));
        lemma_mapping_update(headers.drop_last(), at, value);
        assert(headers[headers.len() - 1].0 != name);
        assert(mapping(changed) =~= mapping(headers).insert(name, value));
    }
}

/// A mapping has one list of entries with ascending names.
pub proof fn lemma_ascending_unique(a: HeaderSeq, b: HeaderSeq)
    requires
        ascending(a),
        ascending(b),
        mapping(a) == mapping(b),
    ensures
        a == b,
    decreases a.len(),
{
    lemma_mapping_names(a);
    lemma_mapping_names(b);
    if a.len() == 0 || b.len() == 0 {
        if a.len() > 0 {
            assert(a[a.len() - 1].0 == a.last().0);
            assert(names(a, a.last().0));
            assert(mapping(b).contains_key(a.last().0));
        }
        if b.len() > 0 {
            assert(b[b.len() - 1].0 == b.last().0);
            assert(names(b, b.last().0));
            assert(mapping(a).contains_key(b.last().0));
        }
        assert(a =~= b);
    } else {
        let top_a = a.last().0;
        let top_b = b.last().0;
        assert(a[a.len() - 1].0 == top_a);
        assert(b[b.len() - 1].0 == top_b);
        assert(names(a, top_a));
        assert(names(b, top_b));
        assert(names(b, top_a));
        assert(names(a, top_b));
        let i = choose|i: int| 0 <= i < a.len() && (#[trigger] a[i]).0 == top_b;
        let j = choose|j: int| 0 <= j < b.len() && (#[trigger] b[j]).0 == top_a;
        if top_a != top_b {
            assert(i < a.len() - 1);
            assert(j < b.len() - 1);
            assert(text_less(a[i].0, a[a.len() - 1].0));
            assert(text_less(b[j].0, b[b.len() - 1].0));
            lemma_text_less_asymmetric(top_a, top_b);
        }
        assert(mapping(a)[top_a] == a.last().1);
        assert(mapping(b)[top_b] == b.last().1);
        let rest_a = a.drop_last();
        let rest_b = b.drop_last();
        lemma_mapping_names(rest_a);
        lemma_mapping_names(rest_b);
        assert(!names(rest_a, top_a)) by {
            if names(rest_a, top_a) {
                let m = choose|m: int| 0 <= m < rest_a.len() && (#[trigger] rest_a[m]).0 == top_a;
                assert(text_less(a[m].0, a[a.len() - 1].0));
                lemma_text_less_irreflexive(top_a);
            }
        }
        assert(!names(rest_b, top_b)) by {
            if names(rest_b, top_b) {
                let m = choose|m: int| 0 <= m < rest_b.len() && (#[trigger] rest_b[m]).0 == top_b;
                assert(text_less(b[m].0, b[b.len() - 1].0));
                lemma_text_less_irreflexive(top_b);
            }
        }
        assert(mapping(rest_a) =~= mapping(a).remove(top_a));
        assert(mapping(rest_b) =~= mapping(b).remove(top_b));
        assert(ascending(rest_a)) by {
            assert forall|x: int, y: int| 0 <= x < y < rest_a.len() implies text_less(
                (#[trigger] rest_a[x]).0,
                (#[trigger] rest_a[y]).0,
            ) by {
                assert(text_less(a[x].0, a[y].0));
            }
        }
        assert(ascending(rest_b)) by {
            assert forall|x: int, y: int| 0 <= x < y < rest_b.len() implies text_less(
                (#[trigger] rest_b[x]).0,
                (#[trigger] rest_b[y]).0,
            ) by {
                assert(text_less(b[x].0, b[y].0));
            }
        }
        lemma_ascending_unique(rest_a, rest_b);
        assert(a =~= rest_a.push(a.last()));
        assert(b =~= rest_b.push(b.last()));
    }
}

/// A list with ascending names is the list of entries of its own mapping.
pub proof fn lemma_entries_of_mapping(entries: HeaderSeq)
    requires
        ascending(entries),
    ensures
        entries_of(mapping(entries)) == entries,
{
    let chosen = entries_of(mapping(entries));
    assert(ascending(entries) && mapping(entries) == mapping(entries));
    lemma_ascending_unique(chosen, entries);
}

/// Where `name` belongs among entries with ascending names: the entries
/// before the place come before the name, the one at the place does not.
fn place_of(sorted: &Vec<(String, String)>, name: &str) -> (at: usize)
    ensures
        at <= sorted.len(),
        forall|i: int| 0 <= i < at ==> text_less((#[trigger] sorted@[i]).0@, name@),
        at < sorted.len() ==> !text_less(sorted@[at as int].0@, name@),
{
    let mut at: usize = 0;
    while at < sorted.len()
        invariant
            at <= sorted.len(),
            forall|i: int| 0 <= i < at ==> text_less((#[trigger] sorted@[i]).0@, name@),
        decreases sorted.len() - at,
    {
        if !precedes(sorted[at].0.as_str(), name) {
            return at;
        }
        at = at + 1;
    }
    at
}

/// The entries of the mapping that a header list stands for, the names
/// ascending.
pub fn header_mapping(headers: &Vec<(String, String)>) -> (sorted: Vec<(String, String)>)
    ensures
        ascending(pairs_view(sorted@)),
        mapping(pairs_view(sorted@)) == mapping(pairs_view(headers@)),
        pairs_view(sorted@) == entries_of(mapping(pairs_view(headers@))),
{
    let ghost all = pairs_view(headers@);
    let mut sorted: Vec<(String, String)> = Vec::new();
    let mut i: usize = 0;
    proof {
        assert(all.take(0) =~= Seq::<(Seq<char>, Seq<char>)>::empty());
        assert(pairs_view(sorted@) =~= Seq::<(Seq<char>, Seq<char>)>::empty());
    }
    while i < headers.len()
        invariant
            i <= headers.len(),
            all == pairs_view(headers@),
            ascending(pairs_view(sorted@)),
            mapping(pairs_view(sorted@)) == mapping(all.take(i as int)),
        decreases headers.len() - i,
    {
        let name = headers[i].0.clone();
        let value = headers[i].1.clone();
        let at = place_of(&sorted, name.as_str());
        let ghost before = pairs_view(sorted@);
        let ghost entry = (name@, value@);
        proof {
            assert(all.take(i + 1).drop_last() =~= all.take(i as int));
            assert(all.take(i + 1).last() == entry);
            assert forall|j: int| at < j < before.len() implies text_less(
                before[at as int].0,
                (#[trigger] before[j]).0,
            ) by {}
        }
        if at < sorted.len() && sorted[at].0 == name {
            proof {
                assert(before[at as int].0 == name@);
                assert forall|j: int| at < j < before.len() implies (#[trigger] before[j]).0
                    != before[at as int].0 by {
                    lemma_text_less_irreflexive(before[j].0);
                }
                lemma_mapping_update(before, at as int, value@);
            }
            sorted.set(at, (name, value));
            proof {
                assert(pairs_view(sorted@) =~= before.update(at as int, entry));
                assert forall|x: int, y: int| 0 <= x < y < sorted@.len() implies text_less(
                    (#[trigger] pairs_view(sorted@)[x]).0,
                    (#[trigger] pairs_view(sorted@)[y]).0,
                ) by {
                    assert(text_less(before[x].0, before[y].0));
                }
            }
        } else {
            proof {
                assert forall|j: int| at <= j < before.len() implies text_less(
                    name@,
                    (#[trigger] before[j]).0,
                ) by {
                    assert(before[at as int].0 == sorted@[at as int].0@);
                    lemma_text_less_total(before[at as int].0, name@);
                    if j > at {
                        lemma_text_less_transitive(name@, before[at as int].0, before[j].0);
                    }
                }
                assert forall|j: int| at <= j < before.len() implies (#[trigger] before[j]).0
                    != entry.0 by {
                    lemma_text_less_irreflexive(name@);
                }
                lemma_mapping_insert_at(before, at as int, entry);
            }
            sorted.insert(at, (name, value));
            proof {
                assert(pairs_view(sorted@) =~= before.insert(at as int, entry));
                assert forall|x: int, y: int| 0 <= x < y < sorted@.len() implies text_less(
                    (#[trigger] pairs_view(sorted@)[x]).0,
                    (#[trigger] pairs_view(sorted@)[y]).0,
                ) by {
                    let grown = before.insert(at as int, entry);
                    if y < at {
                        assert(text_less(before[x].0, before[y].0));
                    } else if y == at {
                        assert(grown[x] == before[x]);
                        assert(before[x].0 == sorted@[x].0@) by {
                            assert(pairs_view(sorted@)[x] == grown[x]);
                        }
                    } else if x < at {
                        assert(grown[y] == before[y - 1]);
                        assert(grown[x] == before[x]);
                        if y - 1 > x {
                            assert(text_less(before[x].0, before[y - 1].0));
                        }
                    } else if x == at {
                        assert(grown[y] == before[y - 1]);
                        assert(text_less(name@, before[y - 1].0));
                    } else {
                        assert(grown[x] == before[x - 1]);
                        assert(grown[y] == before[y - 1]);
                        assert(text_less(before[x - 1].0, before[y - 1].0));
                    }
                }
            }
        }
        i = i + 1;
    }
    proof {
        assert(all.take(headers.len() as int) =~= all);
        lemma_entries_of_mapping(pairs_view(sorted@));
    }
    sorted
}

/// Each name and value in its quoted form.
pub fn quote_pairs(entries: &Vec<(String, String)>) -> (literals: Vec<(String, String)>)
    ensures
        pairs_view(literals@) == quoted_pairs(pairs_view(entries@)),
{
    let mut literals: Vec<(String, String)> = Vec::new();
    let mut i: usize = 0;
    while i < entries.len()
        invariant
            i <= entries.len(),
            literals.len() == i,
            forall|j: int|
                0 <= j < i ==> (#[trigger] literals@[j]).0@ == json_quoted(entries@[j].0@)
                    && literals@[j].1@ == json_quoted(entries@[j].1@),
        decreases entries.len() - i,
    {
        literals.push((quote(entries[i].0.as_str()), quote(entries[i].1.as_str())));
        i = i + 1;
    }
    proof {
        assert(pairs_view(literals@) =~= quoted_pairs(pairs_view(entries@)));
    }
    literals
}

/// The text of a JSON object whose members are given by the literal of the
/// name and the text of the value.
pub fn write_object(members: &Vec<(String, String)>) -> (text: String)
    ensures
        text@ == object_text(pairs_view(members@)),
{
    let ghost all = pairs_view(members@);
    let mut text = "{".to_owned();
    let mut i: usize = 0;
    proof {
        assert(all.take(0) =~= Seq::<(Seq<char>, Seq<char>)>::empty());
        assert(text@ =~= "{"@ + members_text(all.take(0)));
    }
    while i < members.len()
        invariant
            i <= members.len(),
            all == pairs_view(members@),
            text@ == "{"@ + members_text(all.take(i as int)),
        decreases members.len() - i,
    {
        proof {
            assert(all.take(i + 1).drop_last() =~= all.take(i as int));
            assert(all.take(i + 1).last() == (members@[i as int].0@, members@[i as int].1@));
            assert(all.take(i + 1)[0] == all[0]);
        }
        if i > 0 {
            text.append(",");
        }
        text.append(members[i].0.as_str());
        text.append(":");
        text.append(members[i].1.as_str());
        proof {
            assert(text@ =~= "{"@ + members_text(all.take(i + 1)));
        }
        i = i + 1;
    }
    proof {
        assert(all.take(members.len() as int) =~= all);
    }
    text.append("}");
    text
}

/// The envelope, from the texts of its four members.
pub fn write_envelope(
    method_literal: &str,
    headers_object: &str,
    body: &str,
    path_literal: &str,
) -> (document: String)
    ensures
        document@ == envelope_document(method_literal@, headers_object@, body@, path_literal@),
{
    let mut document = "{\"body\":".to_owned();
    document.append(body);
    document.append(",\"headers\":");
    document.append(headers_object);
    document.append(",\"method\":");
    document.append(method_literal);
    document.append(",\"path\":");
    document.append(path_literal);
    document.append("}");
    document
}

/// The envelope of a request: `body` is the JSON text of its body.
pub fn request_envelope(
    method: &str,
    headers: &Vec<(String, String)>,
    body: &str,
    path: &str,
) -> (document: String)
    ensures
        document@ == envelope(method@, pairs_view(headers@), body@, path@),
{
    let entries = header_mapping(headers);
    let literals = quote_pairs(&entries);
    let object = write_object(&literals);
    let method_literal = quote(method);
    let path_literal = quote(path);
    write_envelope(method_literal.as_str(), object.as_str(), body, path_literal.as_str())
}

} // verus!
