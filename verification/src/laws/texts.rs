//! What numerals, names and messages say.

use std::collections::HashMap;

use qdrant_client::qdrant::Value;
use vstd::prelude::*;

use crate::arrow::extractor::id_text_of;
use crate::error::MalformedMultiVector;
use crate::payload::{is_json_of, renders};
use crate::qdrant::point_id::PointIdOptions;
use crate::qdrant::{id_view, PointId};
use crate::text::{decimal, opt_text, without_suffix};

verus! {

/// The number that decimal digits denote, read from left to right.
pub open spec fn numeral_value(text: Seq<char>) -> int
    decreases text.len(),
{
    if text.len() == 0 {
        0
    } else {
        numeral_value(text.drop_last()) * 10 + (text.last() as int - '0' as int)
    }
}

/// Whether a text is a decimal numeral: digits only, at least one, and no zero in front of others.
pub open spec fn is_numeral(text: Seq<char>) -> bool {
    &&& text.len() > 0
    &&& text.len() > 1 ==> text[0] != '0'
    &&& forall|i: int|
        0 <= i < text.len() ==> '0' as int <= (#[trigger] text[i]) as int <= '9' as int
}

/// A number is written as a decimal numeral, and reading its digits gives the number back.
pub proof fn law_numerals_read_back(n: nat)
    ensures
        is_numeral(decimal(n)),
        numeral_value(decimal(n)) == n,
        n > 0 ==> decimal(n)[0] != '0',
    decreases n,
{
    if n < 10 {
        let text = decimal(n);
        assert(text.drop_last() =~= Seq::<char>::empty());
        assert(numeral_value(text.drop_last()) == 0);
    } else {
        law_numerals_read_back(n / 10);
        assert(decimal(n).drop_last() =~= decimal(n / 10));
    }
}

/// A decimal numeral is the only way to write its number.
pub proof fn law_numerals_are_unique(text: Seq<char>)
    requires
        is_numeral(text),
    ensures
        numeral_value(text) >= 0,
        text == decimal(numeral_value(text) as nat),
        text[0] != '0' ==> numeral_value(text) > 0,
    decreases text.len(),
{
    let front = text.drop_last();
    let d = text.last() as int - '0' as int;
    if front.len() == 0 {
        assert(numeral_value(front) == 0);
        assert(text =~= seq![text.last()]);
    } else {
        assert(front[0] == text[0]);
        assert forall|i: int| 0 <= i < front.len() implies '0' as int <= (
        #[trigger] front[i]) as int <= '9' as int by {
            assert(front[i] == text[i]);
        }
        law_numerals_are_unique(front);
        let n = numeral_value(text);
        assert(n == numeral_value(front) * 10 + d);
        assert(n / 10 == numeral_value(front) && n % 10 == d);
        assert(text =~= front.push(text.last()));
    }
}

/// The text of an identifier: the decimal numeral of a number, a UUID letter for letter, and
/// nothing for an identifier that is neither or that is missing.
pub proof fn law_id_text(id: Option<PointId>, text: Option<String>)
    requires
        opt_text(text) == id_text_of(id_view(id)),
    ensures
        match id {
            Some(PointId { point_id_options: Some(PointIdOptions::Num(n)) }) => {
                &&& text is Some
                &&& is_numeral(text->0@)
                &&& numeral_value(text->0@) == n
            },
            Some(PointId { point_id_options: Some(PointIdOptions::Uuid(uuid)) }) => {
                &&& text is Some
                &&& text->0@ == uuid@
            },
            _ => text is None,
        },
{
    if let Some(PointId { point_id_options: Some(PointIdOptions::Num(n)) }) = id {
        law_numerals_read_back(n as nat);
    }
}

/// A payload is written exactly where it is not empty, and what is written is its JSON.
pub proof fn law_payload_text(payload: HashMap<String, Value>, json: Option<String>)
    requires
        renders(payload@, opt_text(json)),
    ensures
        json is None <==> payload@.dom() =~= Set::empty(),
        json is Some ==> is_json_of(payload@, json->0@),
        json is Some ==> json->0@.len() >= 2,
        json is Some ==> json->0@[0] == '{',
        json is Some ==> json->0@.last() == '}',
{
}

/// The message names the length of the data and the count, each as a decimal numeral.
pub proof fn law_message_names_both_numbers(error: MalformedMultiVector)
    ensures
        exists|len: Seq<char>, count: Seq<char>|
            {
                &&& is_numeral(len)
                &&& is_numeral(count)
                &&& #[trigger] numeral_value(len) == error.data_len
                &&& #[trigger] numeral_value(count) == error.vectors_count
                &&& error.text() == "Malformed multi vector: data length "@ + len
                    + " is not divisible by vectors count "@ + count
            },
{
    law_numerals_read_back(error.data_len as nat);
    law_numerals_read_back(error.vectors_count as nat);
    let len = decimal(error.data_len as nat);
    let count = decimal(error.vectors_count as nat);
    assert(numeral_value(len) == error.data_len);
    assert(numeral_value(count) == error.vectors_count);
}

/// Taking a suffix off undoes putting it on, and changes nothing where the suffix is not there.
pub proof fn law_suffix_comes_off_once(name: Seq<char>, suffix: Seq<char>)
    ensures
        without_suffix(name + suffix, suffix) == name,
        !suffix.is_suffix_of(name) ==> without_suffix(name, suffix) == name,
{
    let whole = name + suffix;
    assert(whole.subrange(whole.len() - suffix.len(), whole.len() as int) =~= suffix);
    assert(whole.take(whole.len() - suffix.len()) =~= name);
}

} // verus!
