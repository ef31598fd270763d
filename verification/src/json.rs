//! JSON text for the values the plugin prints: string literals as
//! serde_json writes them, arrays of strings, and object members.

use vstd::prelude::*;

verus! {

/// What serde_json writes for the string `s`: a JSON string literal.
pub uninterp spec fn json_string_text(s: Seq<char>) -> Seq<char>;

/// Serialises `s` with `serde_json::to_string`.
/// Trusted: the result is named `json_string_text` (serialising a string
/// into memory does not fail).
#[verifier::external_body]
fn json_string(s: &str) -> (r: String)
    ensures
        r@ == json_string_text(s@),
{
    serde_json::to_string(s).unwrap_or_default()
}

/// A JSON string literal holding `s`.
pub open spec fn quoted(s: Seq<char>) -> Seq<char> {
    json_string_text(s)
}

/// The elements of a JSON array, each already in JSON, separated by commas.
pub open spec fn joined(items: Seq<Seq<char>>) -> Seq<char>
    decreases items.len(),
{
    if items.len() == 0 {
        Seq::empty()
    } else if items.len() == 1 {
        items[0]
    } else {
        joined(items.drop_last()) + seq![','] + items.last()
    }
}

/// A JSON array of strings.
pub open spec fn string_array(items: Seq<Seq<char>>) -> Seq<char> {
    seq!['['] + joined(items.map_values(|s: Seq<char>| quoted(s))) + seq![']']
}

/// A JSON object member `"name":value`.
pub open spec fn member(name: Seq<char>, value: Seq<char>) -> Seq<char> {
    quoted(name) + seq![':'] + value
}

/// Appends the JSON string literal of `s` to `out`.
pub fn push_quoted(out: &mut String, s: &str)
    ensures
        final(out)@ == old(out)@ + quoted(s@),
{
    let literal = json_string(s);
    out.append(literal.as_str());
}

/// Appends the JSON array of the strings `items` to `out`.
pub fn push_string_array(out: &mut String, items: &Vec<String>)
    ensures
        final(out)@ == old(out)@ + string_array(items@.map_values(|s: String| s@)),
{
    proof {
        reveal_strlit("[");
        reveal_strlit("]");
        reveal_strlit(",");
    }
    let ghost start = out@;
    let ghost quoted_items = items@.map_values(|s: String| s@).map_values(|s: Seq<char>| quoted(s));
    out.append("[");
    let n = items.len();
    let mut i: usize = 0;
    while i < n
        invariant
            n == items@.len(),
            i <= n,
            quoted_items == items@.map_values(|s: String| s@).map_values(|s: Seq<char>| quoted(s)),
            out@ == start + seq!['['] + joined(quoted_items.subrange(0, i as int)),
        decreases n - i,
    {
        let ghost before = out@;
        proof {
            reveal_strlit(",");
        }
        if i > 0 {
            out.append(",");
        }
        push_quoted(out, items[i].as_str());
        proof {
            let sub = quoted_items.subrange(0, i + 1);
            assert(sub.drop_last() =~= quoted_items.subrange(0, i as int));
            assert(sub.last() == quoted(items@[i as int]@));
            if i == 0 {
                assert(sub.len() == 1);
                assert(joined(sub) == sub[0]);
                assert(joined(quoted_items.subrange(0, 0)) =~= Seq::<char>::empty());
            } else {
                assert(joined(sub) == joined(sub.drop_last()) + seq![','] + sub.last());
            }
            assert(out@ =~= start + seq!['['] + joined(sub));
        }
        i = i + 1;
    }
    out.append("]");
    proof {
        assert(quoted_items.subrange(0, n as int) =~= quoted_items);
        assert(out@ =~= start + string_array(items@.map_values(|s: String| s@)));
    }
}

/// Adding an element to a list adds it after a comma, or alone.
pub proof fn lemma_joined_push(items: Seq<Seq<char>>, x: Seq<char>)
    ensures
        joined(items.push(x)) == if items.len() == 0 {
            x
        } else {
            joined(items) + seq![','] + x
        },
{
    assert(items.push(x).drop_last() =~= items);
    if items.len() == 0 {
        assert(items.push(x).len() == 1);
        assert(items.push(x)[0] == x);
    }
}

/// Appending a member's name and then its value to the text of a list of
/// members gives the text of the longer list.
pub proof fn lemma_member_appended(prefix: Seq<char>, members: Seq<Seq<char>>, name: Seq<char>, value: Seq<char>)
    ensures
        prefix + joined(members) + (if members.len() == 0 { Seq::<char>::empty() } else { seq![','] })
            + quoted(name) + seq![':'] + value == prefix + joined(members.push(member(name, value))),
{
    lemma_joined_push(members, member(name, value));
    if members.len() == 0 {
        assert(prefix + joined(members) + Seq::<char>::empty() + quoted(name) + seq![':'] + value
            =~= prefix + member(name, value));
    } else {
        assert(prefix + joined(members) + seq![','] + quoted(name) + seq![':'] + value
            =~= prefix + (joined(members) + seq![','] + member(name, value)));
    }
}

/// Appends the start of an object member, `"name":`, after a comma unless it is the first.
pub fn push_member_name(out: &mut String, name: &str, first: bool)
    ensures
        final(out)@ == old(out)@ + (if first { Seq::<char>::empty() } else { seq![','] }) + quoted(name@) + seq![':'],
{
    proof {
        reveal_strlit(",");
        reveal_strlit(":");
    }
    let ghost start = out@;
    if !first {
        out.append(",");
    }
    push_quoted(out, name);
    out.append(":");
    proof {
        assert(out@ =~= start + (if first { Seq::<char>::empty() } else { seq![','] }) + quoted(name@) + seq![':']);
    }
}

} // verus!
