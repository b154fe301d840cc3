//! Pieces of JSON text: quoted strings (written by `serde_json`) and the
//! framing of arrays and objects around them.
use crate::text::push_str;
use vstd::prelude::*;

verus! {

/// The JSON text that `serde_json::to_string` writes for the string `s`:
/// the quoted and escaped string.
pub uninterp spec fn json_string_text(s: Seq<char>) -> Seq<char>;

/// Calls `serde_json::to_string` on a string slice. Claimed: the result is
/// the text named by [`json_string_text`]. Serialising a `str` into the
/// in-memory buffer of `to_string` has no failing path in the source (a
/// string has no map keys, and writing to a `Vec<u8>` does not fail), so the
/// error arm is never taken.
#[verifier::external_body]
fn json_quote(s: &str) -> (r: String)
    ensures
        r@ == json_string_text(s@),
{
    match serde_json::to_string(s) {
        Ok(text) => text,
        Err(_) => String::new(),
    }
}

/// Appends the JSON string for `s` to `out`.
pub fn push_json_string(out: &mut Vec<char>, s: &str)
    ensures
        final(out)@ == old(out)@ + json_string_text(s@),
{
    let quoted = json_quote(s);
    push_str(out, quoted.as_str());
}

/// The items joined by `sep`.
pub open spec fn join(items: Seq<Seq<char>>, sep: Seq<char>) -> Seq<char>
    decreases items.len(),
{
    if items.len() == 0 {
        Seq::empty()
    } else if items.len() == 1 {
        items[0]
    } else {
        join(items.drop_last(), sep) + sep + items.last()
    }
}

/// A JSON array of the already written `items`.
pub open spec fn json_array(items: Seq<Seq<char>>) -> Seq<char> {
    seq!['['] + join(items, seq![',']) + seq![']']
}

/// The JSON strings of `strings`.
pub open spec fn json_strings(strings: Seq<Seq<char>>) -> Seq<Seq<char>> {
    strings.map_values(|s: Seq<char>| json_string_text(s))
}

/// One more item after the joined `items`.
pub proof fn lemma_join_push(items: Seq<Seq<char>>, sep: Seq<char>, item: Seq<char>)
    ensures
        join(items.push(item), sep) == if items.len() == 0 {
            item
        } else {
            join(items, sep) + sep + item
        },
{
    assert(items.push(item).drop_last() == items);
}

/// Appends the JSON array of the strings `strings` to `out`.
pub fn push_json_string_array(out: &mut Vec<char>, strings: &Vec<String>)
    ensures
        final(out)@ == old(out)@ + json_array(
            json_strings(strings@.map_values(|s: String| s@)),
        ),
{
    let ghost start = out@;
    let ghost texts = json_strings(strings@.map_values(|s: String| s@));
    out.push('[');
    let mut i: usize = 0;
    while i < strings.len()
        invariant
            i <= strings.len(),
            texts == json_strings(strings@.map_values(|s: String| s@)),
            texts.len() == strings.len(),
            out@ == start + seq!['['] + join(texts.take(i as int), seq![',']),
        decreases strings.len() - i,
    {
        let ghost before = out@;
        if i > 0 {
            out.push(',');
        }
        push_json_string(out, strings[i].as_str());
        proof {
            assert(texts[i as int] == json_string_text(strings@[i as int]@));
            assert(texts.take(i + 1) == texts.take(i as int).push(texts[i as int]));
            lemma_join_push(texts.take(i as int), seq![','], texts[i as int]);
        }
        i += 1;
    }
    assert(texts.take(strings.len() as int) == texts);
    out.push(']');
}

} // verus!
