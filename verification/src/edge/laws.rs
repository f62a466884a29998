//! What header text, forwarded addresses and request rules mean, byte by byte.
use http::HeaderMap;

use vstd::prelude::*;
use vstd::utf8::encode_utf8;

use super::ascii::{before, lower, trim, trim_end, trim_start};
use super::forwarded::{
    address_texts, effective_peer_ip, first_address, for_parameter, forwarded_peer_texts, forwarded_texts,
    x_forwarded_texts,
};
use super::headers::{first_value, header_fields, lemma_ascii_bytes};
use super::policy::{
    byte_texts, folded_host, host_is_allowed, lemma_first_value_push, no_rules, total_header_bytes,
    with_missing, HttpRejection, HttpRequestHead, NacelleHttpPolicy, PolicyRules,
};
use crate::address::IpAddr;

verus! {

/// Whether `part` is `text` without the bytes `first` and `second` around it: it
/// lies between such bytes, and neither begins nor ends with one.
pub open spec fn is_stripped(text: Seq<u8>, part: Seq<u8>, first: u8, second: u8) -> bool {
    &&& part.len() > 0 ==> part[0] != first && part[0] != second && part.last() != first
        && part.last() != second
    &&& exists|from: int, to: int|
        {
            &&& 0 <= from <= to <= text.len()
            &&& part == #[trigger] text.subrange(from, to)
            &&& forall|i: int| 0 <= i < from ==> #[trigger] text[i] == first || text[i] == second
            &&& forall|i: int|
                to <= i < text.len() ==> #[trigger] text[i] == first || text[i] == second
        }
}

/// Whether `part` is what `text` holds in front of its first `mark`, or all of it.
pub open spec fn is_first_part(text: Seq<u8>, mark: u8, part: Seq<u8>) -> bool {
    &&& part.is_prefix_of(text)
    &&& !part.contains(mark)
    &&& part.len() < text.len() ==> text[part.len() as int] == mark
}

/// Cutting at the start takes leading bytes only, and all of them.
pub proof fn law_leading_bytes_are_cut(text: Seq<u8>, first: u8, second: u8)
    ensures
        ({
            let part = trim_start(text, first, second);
            let cut = text.len() - part.len();
            &&& part.len() <= text.len()
            &&& part == text.skip(cut)
            &&& forall|i: int| 0 <= i < cut ==> #[trigger] text[i] == first || text[i] == second
            &&& part.len() > 0 ==> part[0] != first && part[0] != second
        }),
    decreases text.len(),
{
    let part = trim_start(text, first, second);
    if text.len() > 0 && (text[0] == first || text[0] == second) {
        let rest = text.skip(1);
        law_leading_bytes_are_cut(rest, first, second);
        let cut = text.len() - part.len();
        assert(rest.skip(cut - 1) =~= text.skip(cut));
        assert forall|i: int| 0 <= i < cut implies #[trigger] text[i] == first || text[i]
            == second by {
            if i > 0 {
                assert(rest[i - 1] == text[i]);
            }
        }
    } else {
        assert(text.skip(0) =~= text);
    }
}

/// Cutting at the end takes trailing bytes only, and all of them.
pub proof fn law_trailing_bytes_are_cut(text: Seq<u8>, first: u8, second: u8)
    ensures
        ({
            let part = trim_end(text, first, second);
            &&& part.len() <= text.len()
            &&& part == text.take(part.len() as int)
            &&& forall|i: int|
                part.len() <= i < text.len() ==> #[trigger] text[i] == first || text[i] == second
            &&& part.len() > 0 ==> part.last() != first && part.last() != second
        }),
    decreases text.len(),
{
    let part = trim_end(text, first, second);
    if text.len() > 0 && (text.last() == first || text.last() == second) {
        let rest = text.drop_last();
        law_trailing_bytes_are_cut(rest, first, second);
        assert(rest.take(part.len() as int) =~= text.take(part.len() as int));
        assert forall|i: int| part.len() <= i < text.len() implies #[trigger] text[i] == first
            || text[i] == second by {
            if i < rest.len() {
                assert(rest[i] == text[i]);
            }
        }
    } else {
        assert(text.take(text.len() as int) =~= text);
    }
}

/// Cutting both ends leaves the text between the bytes that are cut.
pub proof fn law_both_ends_are_cut(text: Seq<u8>, first: u8, second: u8)
    ensures
        is_stripped(text, trim_end(trim_start(text, first, second), first, second), first, second),
{
    let start = trim_start(text, first, second);
    let part = trim_end(start, first, second);
    law_leading_bytes_are_cut(text, first, second);
    law_trailing_bytes_are_cut(start, first, second);
    let from = text.len() - start.len();
    let to = from + part.len();
    assert(part =~= text.subrange(from, to));
    assert forall|i: int| to <= i < text.len() implies #[trigger] text[i] == first || text[i]
        == second by {
        assert(start[i - from] == text[i]);
    }
    if part.len() > 0 {
        assert(part[0] == start[0]);
    }
}

/// Trimmed text lacks the blanks and tabs around it and nothing else; trimming
/// it once more changes nothing.
pub proof fn law_trimming_takes_blanks_alone(text: Seq<u8>)
    ensures
        is_stripped(text, trim(text), 32, 9),
        trim(trim(text)) == trim(text),
        text.len() > 0 && text[0] != 32 && text[0] != 9 && text.last() != 32 && text.last() != 9
            ==> trim(text) == text,
{
    law_both_ends_are_cut(text, 32, 9);
    let part = trim(text);
    assert(trim_start(part, 32, 9) == part);
    assert(trim_end(part, 32, 9) == part);
}

/// What stands before a mark is the longest beginning without it.
pub proof fn law_text_is_cut_at_its_first_mark(text: Seq<u8>, mark: u8)
    ensures
        is_first_part(text, mark, before(text, mark)),
        forall|part: Seq<u8>|
            #[trigger] is_first_part(text, mark, part) ==> part == before(text, mark),
{
    text.index_of_first_ensures(mark);
    let cut = before(text, mark);
    assert forall|part: Seq<u8>| #[trigger] is_first_part(text, mark, part) implies part
        == cut by {
        if part.len() < cut.len() {
            assert(cut[part.len() as int] == text[part.len() as int]);
            assert(cut.contains(mark));
        }
        if cut.len() < part.len() {
            assert(part[cut.len() as int] == text[cut.len() as int]);
            assert(part.contains(mark));
        }
        assert(part =~= cut);
    }
}

/// Folding turns the capitals A to Z into small letters, each into its own, and
/// leaves every other byte as it is.
pub proof fn law_folding_changes_capitals_alone(text: Seq<u8>)
    ensures
        lower(text).len() == text.len(),
        forall|i: int|
            0 <= i < text.len() && 65 <= text[i] <= 90 ==> #[trigger] lower(text)[i] == text[i]
                + 32,
        forall|i: int|
            0 <= i < text.len() && !(65 <= text[i] <= 90) ==> #[trigger] lower(text)[i] == text[i],
{
}

/// The value of a field is that of the first field of its name.
pub proof fn law_the_first_field_of_a_name_counts(
    fields: Seq<(Seq<u8>, Seq<u8>)>,
    name: Seq<u8>,
    index: int,
)
    ensures
        first_value(fields, name) is None <==> forall|i: int|
            0 <= i < fields.len() ==> (#[trigger] fields[i]).0 != name,
        0 <= index < fields.len() && fields[index].0 == name && (forall|i: int|
            0 <= i < index ==> (#[trigger] fields[i]).0 != name) ==> first_value(fields, name)
            == Some(fields[index].1),
    decreases fields.len(),
{
    if fields.len() > 0 {
        let rest = fields.skip(1);
        law_the_first_field_of_a_name_counts(rest, name, index - 1);
        if fields[0].0 != name {
            if first_value(fields, name) is None {
                assert forall|i: int| 0 <= i < fields.len() implies (#[trigger] fields[i]).0
                    != name by {
                    if i > 0 {
                        assert(rest[i - 1] == fields[i]);
                    }
                }
            }
            if forall|i: int| 0 <= i < fields.len() ==> (#[trigger] fields[i]).0 != name {
                assert forall|i: int| 0 <= i < rest.len() implies (#[trigger] rest[i]).0
                    != name by {
                    assert(rest[i] == fields[i + 1]);
                }
            }
            if 0 < index < fields.len() && fields[index].0 == name && (forall|i: int|
                0 <= i < index ==> (#[trigger] fields[i]).0 != name) {
                assert(rest[index - 1] == fields[index]);
                assert forall|i: int| 0 <= i < index - 1 implies (#[trigger] rest[i]).0
                    != name by {
                    assert(rest[i] == fields[i + 1]);
                }
            }
        } else {
            assert(fields[0].0 == name);
        }
    }
}

/// The first text that is tried for an address is the given one without the blanks
/// around it, whatever it holds. A second one is tried where the first has an
/// opening bracket at its front and a closing one later: what stands between
/// them. Without such brackets it is what stands before the colon, where there
/// is exactly one.
pub proof fn law_addresses_are_tried_whole_first(text: Seq<u8>)
    ensures
        ({
            let texts = address_texts(text);
            let address = texts[0];
            let bracketed = address.len() > 0 && address[0] == 91 && address.contains(93);
            &&& 1 <= texts.len() <= 2
            &&& is_stripped(text, address, 32, 9)
            &&& bracketed ==> texts.len() == 2 && is_first_part(address.skip(1), 93, texts[1])
            &&& !bracketed ==> (texts.len() == 2 <==> exists|place: int|
                0 <= place < address.len() && #[trigger] address[place] == 58 && forall|i: int|
                    0 <= i < address.len() && i != place ==> #[trigger] address[i] != 58)
            &&& !bracketed && texts.len() == 2 ==> is_first_part(address, 58, texts[1])
        }),
{
    law_trimming_takes_blanks_alone(text);
    let address = trim(text);
    let texts = address_texts(text);
    let inside = address.skip(1);
    let bracketed = address.len() > 0 && address[0] == 91 && address.contains(93);
    inside.index_of_first_ensures(93);
    if bracketed {
        let at = choose|i: int| 0 <= i < address.len() && address[i] == 93;
        assert(inside[at - 1] == 93);
        assert(inside.contains(93));
        law_text_is_cut_at_its_first_mark(inside, 93);
    } else {
        if address.len() > 0 && address[0] == 91 && inside.contains(93) {
            let at = choose|i: int| 0 <= i < inside.len() && inside[i] == 93;
            assert(address[at + 1] == 93);
        }
        address.index_of_last_ensures(58);
        match address.index_of_last(58) {
            None => {
                assert(!address.contains(58));
                assert forall|i: int| 0 <= i < address.len() implies #[trigger] address[i]
                    != 58 by {
                    assert(address.contains(address[i]));
                }
            },
            Some(last) => {
                let front = address.take(last);
                assert(address[last] == 58);
                if front.contains(58) {
                    let at = choose|i: int| 0 <= i < front.len() && front[i] == 58;
                    assert(address[at] == 58 && at != last);
                    assert forall|place: int|
                        0 <= place < address.len() && #[trigger] address[place] == 58 implies !(
                    forall|i: int|
                        0 <= i < address.len() && i != place ==> #[trigger] address[i] != 58) by {
                        if place == at {
                            assert(address[last] == 58);
                        } else {
                            assert(address[at] == 58);
                        }
                    }
                } else {
                    assert forall|i: int| 0 <= i < address.len() && i != last implies #[trigger] address[i]
                        != 58 by {
                        if i < last {
                            assert(front[i] == address[i]);
                            assert(front.contains(front[i]));
                        }
                    }
                    assert(is_first_part(address, 58, front));
                }
            },
        }
    }
}

/// Whenever `X-Forwarded-For` is visible text, the first text tried from it is its
/// first element, up to the comma, without the blanks around it, whatever
/// characters the element holds. A value that is not visible offers nothing.
pub proof fn law_the_first_forwarded_element_is_tried(
    fields: Seq<(Seq<u8>, Seq<u8>)>,
    value: Seq<u8>,
    element: Seq<u8>,
)
    requires
        first_value(fields, encode_utf8("x-forwarded-for"@)) == Some(value),
        is_first_part(value, 44, element),
    ensures
        (forall|i: int| 0 <= i < value.len() ==> 32 <= #[trigger] value[i] <= 126 || value[i] == 9)
            ==> x_forwarded_texts(fields).len() > 0 && is_stripped(
            element,
            x_forwarded_texts(fields)[0],
            32,
            9,
        ),
        (exists|i: int|
            0 <= i < value.len() && value[i] != 9 && !(32 <= #[trigger] value[i] <= 126))
            ==> x_forwarded_texts(fields).len() == 0,
{
    law_text_is_cut_at_its_first_mark(value, 44);
    law_trimming_takes_blanks_alone(element);
    law_addresses_are_tried_whole_first(trim(element));
}

/// Whenever `Forwarded` is visible text and its first element, up to the comma,
/// has a `for` parameter, the first text tried from it is the value of that
/// parameter without the blanks around it, whatever characters it holds.
pub proof fn law_the_forwarded_value_is_tried(
    fields: Seq<(Seq<u8>, Seq<u8>)>,
    value: Seq<u8>,
    element: Seq<u8>,
)
    requires
        first_value(fields, encode_utf8("forwarded"@)) == Some(value),
        is_first_part(value, 44, element),
    ensures
        (forall|i: int| 0 <= i < value.len() ==> 32 <= #[trigger] value[i] <= 126 || value[i] == 9)
            ==> match for_parameter(trim(element)) {
            Some(text) => forwarded_texts(fields).len() > 0 && is_stripped(
                text,
                forwarded_texts(fields)[0],
                32,
                9,
            ),
            None => forwarded_texts(fields).len() == 0,
        },
        (exists|i: int|
            0 <= i < value.len() && value[i] != 9 && !(32 <= #[trigger] value[i] <= 126))
            ==> forwarded_texts(fields).len() == 0,
{
    law_text_is_cut_at_its_first_mark(value, 44);
    if for_parameter(trim(element)) is Some {
        law_addresses_are_tried_whole_first(for_parameter(trim(element))->0);
    }
}

/// A request without the header offers no texts.
pub proof fn law_absent_headers_offer_nothing(fields: Seq<(Seq<u8>, Seq<u8>)>)
    ensures
        first_value(fields, encode_utf8("forwarded"@)) is None ==> forwarded_texts(fields).len()
            == 0,
        first_value(fields, encode_utf8("x-forwarded-for"@)) is None ==> x_forwarded_texts(
            fields,
        ).len() == 0,
{
}

/// Whether a name is `for`, in capitals or small letters.
pub open spec fn spells_for(name: Seq<u8>) -> bool {
    &&& name.len() == 3
    &&& name[0] == 102 || name[0] == 70
    &&& name[1] == 111 || name[1] == 79
    &&& name[2] == 114 || name[2] == 82
}

/// In an element `name=value`, with whatever parameters behind a semicolon and with
/// whatever blanks around name and value, a name that spells `for` gives the value
/// without the quotes around it. Behind another name the search goes on with the next
/// parameter, and without an equals sign it ends.
pub proof fn law_for_parameters_are_found(
    name: Seq<u8>,
    value: Seq<u8>,
    others: Seq<u8>,
)
    requires
        !name.contains(61),
        !name.contains(59),
        !value.contains(59),
    ensures
        ({
            let alone = name + seq![61u8] + value;
            let followed = alone + seq![59u8] + others;
            &&& spells_for(trim(name)) ==> {
                &&& for_parameter(alone) is Some
                &&& is_stripped(trim(value), for_parameter(alone)->0, 34, 34)
                &&& for_parameter(followed) == for_parameter(alone)
            }
            &&& !spells_for(trim(name)) ==> {
                &&& for_parameter(alone) is None
                &&& for_parameter(followed) == for_parameter(others)
            }
            &&& for_parameter(name) is None
            &&& for_parameter(name + seq![59u8] + others) is None
        }),
{
    let alone = name + seq![61u8] + value;
    let followed = alone + seq![59u8] + others;
    let short = name + seq![59u8] + others;
    law_both_ends_are_cut(trim(value), 34, 34);
    assert forall|i: int| 0 <= i < alone.len() implies #[trigger] alone[i] != 59 by {
        if i < name.len() {
            assert(name.contains(name[i]));
        } else if i > name.len() {
            assert(value.contains(value[i - name.len() - 1]));
        }
    }
    lemma_cut_at(alone, 59, seq![]);
    lemma_cut_at(alone, 59, seq![59u8] + others);
    assert(alone + seq![] =~= alone);
    assert(alone + (seq![59u8] + others) =~= followed);
    assert(followed.skip(alone.len() as int + 1) =~= others);
    lemma_parameter(alone, name, value);
    lemma_parameter(followed, name, value);
    assert forall|i: int| 0 <= i < name.len() implies #[trigger] name[i] != 59 by {
        assert(name.contains(name[i]));
    }
    lemma_cut_at(name, 59, seq![]);
    lemma_cut_at(name, 59, seq![59u8] + others);
    assert(name + seq![] =~= name);
    assert(name + (seq![59u8] + others) =~= short);
    let part = trim(name);
    part.index_of_first_ensures(61);
    law_trimming_takes_blanks_alone(name);
    assert(!part.contains(61)) by {
        lemma_part_holds(name, part, 61);
    }
}

/// Where a text without a mark ends, followed by nothing or by the mark.
proof fn lemma_cut_at(text: Seq<u8>, mark: u8, tail: Seq<u8>)
    requires
        forall|i: int| 0 <= i < text.len() ==> #[trigger] text[i] != mark,
        tail.len() > 0 ==> tail[0] == mark,
    ensures
        before(text + tail, mark) == text,
        (text + tail).index_of_first(mark) == if tail.len() > 0 {
            Some(text.len() as int)
        } else {
            None
        },
{
    let all = text + tail;
    assert(text.is_prefix_of(all));
    assert(is_first_part(all, mark, text));
    law_text_is_cut_at_its_first_mark(all, mark);
    all.index_of_first_ensures(mark);
    if tail.len() > 0 {
        assert(all[text.len() as int] == mark);
        assert(all.contains(mark));
        let place = all.index_of_first(mark)->0;
        if place < text.len() {
            assert(all[place] == text[place]);
        }
    } else {
        assert(all =~= text);
        assert(!all.contains(mark));
    }
}

/// What lies between blanks is part of the text.
proof fn lemma_part_holds(text: Seq<u8>, part: Seq<u8>, byte: u8)
    requires
        is_stripped(text, part, 32, 9),
        !text.contains(byte),
    ensures
        !part.contains(byte),
{
    let (from, to) = choose|from: int, to: int|
        0 <= from <= to <= text.len() && part == #[trigger] text.subrange(from, to);
    if part.contains(byte) {
        let at = choose|i: int| 0 <= i < part.len() && part[i] == byte;
        assert(text[from + at] == byte);
    }
}

/// Blanks before a mark that is none are cut at the start alone.
proof fn lemma_start_of_pair(name: Seq<u8>, mark: u8, value: Seq<u8>)
    requires
        mark != 32,
        mark != 9,
    ensures
        trim_start(name + seq![mark] + value, 32, 9) == trim_start(name, 32, 9) + seq![mark] + value,
    decreases name.len(),
{
    let pair = name + seq![mark] + value;
    if name.len() > 0 && (name[0] == 32 || name[0] == 9) {
        assert(pair[0] == name[0]);
        assert(pair.skip(1) =~= name.skip(1) + seq![mark] + value);
        lemma_start_of_pair(name.skip(1), mark, value);
    } else if name.len() > 0 {
        assert(pair[0] == name[0]);
    } else {
        assert(pair[0] == mark);
    }
}

/// Blanks behind a mark that is none are cut at the end alone.
proof fn lemma_end_of_pair(name: Seq<u8>, mark: u8, value: Seq<u8>)
    requires
        mark != 32,
        mark != 9,
    ensures
        trim_end(name + seq![mark] + value, 32, 9) == name + seq![mark] + trim_end(value, 32, 9),
    decreases value.len(),
{
    let pair = name + seq![mark] + value;
    if value.len() > 0 && (value.last() == 32 || value.last() == 9) {
        assert(pair.last() == value.last());
        assert(pair.drop_last() =~= name + seq![mark] + value.drop_last());
        lemma_end_of_pair(name, mark, value.drop_last());
    } else if value.len() > 0 {
        assert(pair.last() == value.last());
    } else {
        assert(pair.last() == mark);
    }
}

/// Cutting an end first does not change what is left.
proof fn lemma_trim_after_cutting(text: Seq<u8>)
    ensures
        trim(trim_start(text, 32, 9)) == trim(text),
        trim(trim_end(text, 32, 9)) == trim(text),
{
    let start = trim_start(text, 32, 9);
    law_leading_bytes_are_cut(text, 32, 9);
    assert(trim_start(start, 32, 9) == start);
    lemma_trim_after_end(text);
}

/// Cutting the end first does not change what is left.
proof fn lemma_trim_after_end(text: Seq<u8>)
    ensures
        trim(trim_end(text, 32, 9)) == trim(text),
    decreases text.len(),
{
    if text.len() > 0 && (text.last() == 32 || text.last() == 9) {
        let front = text.drop_last();
        lemma_trim_after_end(front);
        lemma_start_of_front(front, text.last());
        assert(text =~= front.push(text.last()));
        let start = trim_start(text, 32, 9);
        if trim_start(front, 32, 9).len() > 0 {
            assert(start.drop_last() =~= trim_start(front, 32, 9));
            assert(start.last() == text.last());
        }
    }
}

/// Cutting the start of a text that gets one more byte at its end.
proof fn lemma_start_of_front(front: Seq<u8>, last: u8)
    requires
        last == 32 || last == 9,
    ensures
        trim_start(front.push(last), 32, 9) == if trim_start(front, 32, 9).len() == 0 {
            Seq::empty()
        } else {
            trim_start(front, 32, 9).push(last)
        },
    decreases front.len(),
{
    let text = front.push(last);
    if front.len() == 0 {
        reveal_with_fuel(trim_start, 2);
        assert(text[0] == last);
        assert(text.skip(1) =~= Seq::empty());
    } else if front[0] == 32 || front[0] == 9 {
        assert(text[0] == front[0]);
        assert(text.skip(1) =~= front.skip(1).push(last));
        lemma_start_of_front(front.skip(1), last);
    } else {
        assert(text[0] == front[0]);
    }
}

/// What is made of an element whose first parameter is `name=value`.
proof fn lemma_parameter(element: Seq<u8>, name: Seq<u8>, value: Seq<u8>)
    requires
        before(element, 59) == name + seq![61u8] + value,
        !name.contains(61),
    ensures
        for_parameter(element) == if spells_for(trim(name)) {
            Some(trim_end(trim_start(trim(value), 34, 34), 34, 34))
        } else {
            match element.index_of_first(59) {
                Some(end) if 0 <= end < element.len() => for_parameter(element.skip(end + 1)),
                _ => None,
            }
        },
{
    let own = trim_start(name, 32, 9);
    let given = trim_end(value, 32, 9);
    let part = own + seq![61u8] + given;
    assert(trim(name + seq![61u8] + value) == part) by {
        lemma_start_of_pair(name, 61, value);
        lemma_end_of_pair(own, 61, value);
    }
    let place = own.len() as int;
    assert(part.index_of_first(61) == Some(place)) by {
        law_leading_bytes_are_cut(name, 32, 9);
        assert forall|i: int| 0 <= i < own.len() implies #[trigger] own[i] != 61 by {
            assert(own[i] == name[name.len() - own.len() + i]);
            assert(name.contains(own[i]));
        }
        lemma_cut_at(own, 61, seq![61u8] + given);
        assert(own + (seq![61u8] + given) =~= part);
    }
    assert(part.take(place) =~= own);
    assert(part.skip(place + 1) =~= given);
    lemma_trim_after_cutting(name);
    lemma_trim_after_cutting(value);
    lemma_spelling(trim(name));
    assert(trim(before(element, 59)) == part);
    assert(lower(trim(part.take(place))) == lower(trim(name)));
    assert(trim(part.skip(place + 1)) == trim(value));
}

/// Folding recognises every spelling of `for`.
proof fn lemma_spelling(name: Seq<u8>)
    ensures
        lower(name) == encode_utf8("for"@) <==> spells_for(name),
{
    reveal_strlit("for");
    lemma_ascii_bytes("for"@);
    let word = encode_utf8("for"@);
    assert(word[0] == 102 && word[1] == 111 && word[2] == 114);
    law_folding_changes_capitals_alone(name);
    if spells_for(name) {
        assert(lower(name) =~= word);
    }
    if lower(name) == word {
        assert(lower(name)[0] == word[0] && lower(name)[1] == word[1] && lower(name)[2] == word[2]);
    }
}

/// Of parsed texts the first that is an address counts.
pub proof fn law_the_first_address_counts(parsed: Seq<Option<IpAddr>>, index: int)
    ensures
        first_address(parsed) is None <==> forall|i: int|
            0 <= i < parsed.len() ==> (#[trigger] parsed[i]) is None,
        0 <= index < parsed.len() && parsed[index] is Some && (forall|i: int|
            0 <= i < index ==> (#[trigger] parsed[i]) is None) ==> first_address(parsed)
            == parsed[index],
    decreases parsed.len(),
{
    if parsed.len() > 0 {
        let rest = parsed.skip(1);
        law_the_first_address_counts(rest, index - 1);
        if parsed[0] is None {
            assert forall|i: int| 0 <= i < rest.len() implies rest[i] == #[trigger] parsed[i
                + 1] by {}
            if first_address(parsed) is None {
                assert forall|i: int| 0 <= i < parsed.len() implies (
                #[trigger] parsed[i]) is None by {
                    if i > 0 {
                        assert(rest[i - 1] == parsed[i]);
                    }
                }
            }
            if forall|i: int| 0 <= i < parsed.len() ==> (#[trigger] parsed[i]) is None {
                assert forall|i: int| 0 <= i < rest.len() implies (
                #[trigger] rest[i]) is None by {
                    assert(rest[i] == parsed[i + 1]);
                }
            }
            if 0 < index < parsed.len() && parsed[index] is Some && (forall|i: int|
                0 <= i < index ==> (#[trigger] parsed[i]) is None) {
                assert(rest[index - 1] == parsed[index]);
                assert forall|i: int| 0 <= i < index - 1 implies (
                #[trigger] rest[i]) is None by {
                    assert(rest[i] == parsed[i + 1]);
                }
            }
        } else {
            assert(parsed[0] is Some);
        }
    }
}

/// A trusted proxy is believed: the request counts as the first address that it
/// names, and as the proxy's own where it names none. Without a socket's peer
/// nobody is believed.
pub proof fn law_trusted_proxies_are_believed(
    rules: PolicyRules,
    peer: IpAddr,
    parsed: Seq<Option<IpAddr>>,
    index: int,
)
    requires
        rules.trusted_proxies is Some,
        rules.trusted_proxies->0.contains(peer),
    ensures
        0 <= index < parsed.len() && parsed[index] is Some && (forall|i: int|
            0 <= i < index ==> (#[trigger] parsed[i]) is None) ==> rules.effective_peer(
            Some(peer),
            parsed,
        ) == parsed[index],
        (forall|i: int| 0 <= i < parsed.len() ==> (#[trigger] parsed[i]) is None)
            ==> rules.effective_peer(Some(peer), parsed) == Some(peer),
        rules.effective_peer(None, parsed) is None,
{
    law_the_first_address_counts(parsed, index);
}

/// Where the target has a limit, a request whose path comes with a query is
/// rejected with 414 exactly if path and query together have more bytes than
/// that, whatever its path is; only a request without them is measured by its
/// path. Without a limit no target is too long.
pub proof fn law_targets_are_measured_with_their_query(
    rules: PolicyRules,
    head: HttpRequestHead,
    fields: Seq<(Seq<u8>, Seq<u8>)>,
)
    ensures
        ({
            let verdict = rules.verdict(head, fields);
            let too_long = verdict is Some && verdict->0.status == 414;
            &&& rules.max_uri_len is None ==> !too_long
            &&& rules.max_uri_len matches Some(max) ==> {
                &&& head.path_and_query matches Some(target) ==> (too_long <==> encode_utf8(
                    target@,
                ).len() > max)
                &&& head.path_and_query is None ==> (too_long <==> encode_utf8(head.path@).len()
                    > max)
            }
            &&& too_long ==> verdict->0.reason@ == "uri_too_long"@
        }),
{
}

/// Where methods are listed, a request whose target is short enough is rejected
/// with 405 exactly if its method is none of them, letter by letter.
pub proof fn law_unlisted_methods_are_rejected(
    rules: PolicyRules,
    head: HttpRequestHead,
    fields: Seq<(Seq<u8>, Seq<u8>)>,
)
    requires
        !(rules.verdict(head, fields) matches Some(rejection) && rejection.status == 414),
    ensures
        ({
            let verdict = rules.verdict(head, fields);
            let unlisted = verdict is Some && verdict->0.status == 405;
            &&& rules.methods is None ==> !unlisted
            &&& rules.methods matches Some(methods) ==> (unlisted <==> forall|i: int|
                0 <= i < methods.len() ==> #[trigger] methods[i] != head.method@)
            &&& unlisted ==> verdict->0.reason@ == "method_not_allowed"@
        }),
{
    if rules.methods is Some {
        let methods = rules.methods->0;
        if forall|i: int| 0 <= i < methods.len() ==> #[trigger] methods[i] != head.method@ {
            assert(!methods.contains(head.method@));
        }
        if !methods.contains(head.method@) {
            assert forall|i: int| 0 <= i < methods.len() implies #[trigger] methods[i]
                != head.method@ by {
                assert(methods.contains(methods[i]));
            }
        }
    }
}

/// A request that passes the rules on target and method is rejected with 431
/// exactly if it has more headers than are allowed, or more bytes in them; the
/// number is looked at first.
pub proof fn law_large_headers_are_rejected(
    rules: PolicyRules,
    head: HttpRequestHead,
    fields: Seq<(Seq<u8>, Seq<u8>)>,
)
    requires
        !(rules.verdict(head, fields) matches Some(rejection) && (rejection.status == 414
            || rejection.status == 405)),
    ensures
        ({
            let verdict = rules.verdict(head, fields);
            let many = rules.max_header_count is Some && fields.len() > rules.max_header_count->0;
            let large = rules.max_header_bytes is Some && total_header_bytes(fields)
                > rules.max_header_bytes->0;
            &&& (verdict is Some && verdict->0.status == 431) <==> many || large
            &&& many ==> verdict->0.reason@ == "header_count"@
            &&& large && !many ==> verdict->0.reason@ == "header_bytes"@
        }),
{
}

/// A request that passes the other rules is rejected with 421 exactly if hosts are
/// listed and it names none of them; all that is left is let through.
pub proof fn law_strange_hosts_are_rejected(
    rules: PolicyRules,
    head: HttpRequestHead,
    fields: Seq<(Seq<u8>, Seq<u8>)>,
)
    requires
        !(rules.verdict(head, fields) matches Some(rejection) && (rejection.status == 414
            || rejection.status == 405 || rejection.status == 431)),
    ensures
        rules.hosts is None ==> rules.verdict(head, fields) is None,
        rules.hosts matches Some(hosts) ==> if host_is_allowed(hosts, fields) {
            rules.verdict(head, fields) is None
        } else {
            rules.verdict(head, fields) matches Some(rejection) && rejection.status == 421
                && rejection.reason@ == "host"@
        },
{
}

/// The bytes of headers are those of every name and every value, added up.
pub proof fn law_header_bytes_add_up(
    fields: Seq<(Seq<u8>, Seq<u8>)>,
    name: Seq<u8>,
    value: Seq<u8>,
    others: Seq<(Seq<u8>, Seq<u8>)>,
)
    ensures
        total_header_bytes(Seq::empty()) == 0,
        total_header_bytes(fields.push((name, value))) == total_header_bytes(fields) + name.len()
            + value.len(),
        total_header_bytes(fields + others) == total_header_bytes(fields) + total_header_bytes(
            others,
        ),
    decreases others.len(),
{
    assert(fields.push((name, value)).drop_last() =~= fields);
    if others.len() == 0 {
        assert(fields + others =~= fields);
    } else {
        law_header_bytes_add_up(fields, name, value, others.drop_last());
        assert((fields + others).drop_last() =~= fields + others.drop_last());
    }
}

/// Whether two bytes are the same, letters compared without case.
pub open spec fn same_letter(left: u8, right: u8) -> bool {
    ||| left == right
    ||| 65 <= left <= 90 && right == left + 32
    ||| 65 <= right <= 90 && left == right + 32
}

/// Hosts are compared without case and without the dots at their ends, and by
/// nothing less.
pub proof fn law_hosts_are_compared_without_case(left: Seq<u8>, right: Seq<u8>, dots: Seq<u8>)
    requires
        left.len() > 0 ==> left.last() != 46,
        right.len() > 0 ==> right.last() != 46,
        forall|i: int| 0 <= i < dots.len() ==> #[trigger] dots[i] == 46,
    ensures
        folded_host(left + dots) == folded_host(left),
        folded_host(left) == folded_host(right) <==> left.len() == right.len() && forall|i: int|
            0 <= i < left.len() ==> same_letter(#[trigger] left[i], right[i]),
{
    lemma_dots(left, dots);
    law_folding_changes_capitals_alone(left);
    law_folding_changes_capitals_alone(right);
    assert(folded_host(left) == lower(left));
    assert(folded_host(right) == lower(right));
    if lower(left) == lower(right) {
        assert forall|i: int| 0 <= i < left.len() implies same_letter(
            #[trigger] left[i],
            right[i],
        ) by {
            assert(lower(left)[i] == lower(right)[i]);
        }
    }
    if left.len() == right.len() && forall|i: int|
        0 <= i < left.len() ==> same_letter(#[trigger] left[i], right[i]) {
        assert forall|i: int| 0 <= i < left.len() implies lower(left)[i] == lower(right)[i] by {
            assert(same_letter(left[i], right[i]));
        }
        assert(lower(left) =~= lower(right));
    }
}

/// Dots at the end are cut.
proof fn lemma_dots(text: Seq<u8>, dots: Seq<u8>)
    requires
        text.len() > 0 ==> text.last() != 46,
        forall|i: int| 0 <= i < dots.len() ==> #[trigger] dots[i] == 46,
    ensures
        trim_end(text + dots, 46, 46) == text,
    decreases dots.len(),
{
    if dots.len() == 0 {
        assert(text + dots =~= text);
    } else {
        assert((text + dots).last() == dots.last());
        assert((text + dots).drop_last() =~= text + dots.drop_last());
        lemma_dots(text, dots.drop_last());
    }
}

/// A request is for an allowed host if its first `Host` field names one of them,
/// alone or before a colon and a port. One without that field, or with a value
/// that is not visible text, is for none.
pub proof fn law_allowed_hosts_may_have_a_port(
    hosts: Seq<Seq<u8>>,
    fields: Seq<(Seq<u8>, Seq<u8>)>,
    value: Seq<u8>,
    name: Seq<u8>,
)
    requires
        first_value(fields, encode_utf8("host"@)) == Some(value),
        is_first_part(folded_host(value), 58, name),
    ensures
        (exists|i: int|
            0 <= i < value.len() && value[i] != 9 && !(32 <= #[trigger] value[i] <= 126))
            ==> !host_is_allowed(hosts, fields),
        (forall|i: int| 0 <= i < value.len() ==> 32 <= #[trigger] value[i] <= 126 || value[i] == 9)
            ==> (host_is_allowed(hosts, fields) <==> exists|i: int|
            0 <= i < hosts.len() && (#[trigger] hosts[i] == folded_host(value) || hosts[i]
                == name)),
        forall|others: Seq<(Seq<u8>, Seq<u8>)>|
            first_value(others, encode_utf8("host"@)) is None ==> !(
            #[trigger] host_is_allowed(hosts, others)),
{
    law_text_is_cut_at_its_first_mark(folded_host(value), 58);
    let whole = folded_host(value);
    if forall|i: int| 0 <= i < value.len() ==> 32 <= #[trigger] value[i] <= 126 || value[i] == 9 {
        if host_is_allowed(hosts, fields) {
            if hosts.contains(whole) {
                let i = choose|i: int| 0 <= i < hosts.len() && hosts[i] == whole;
                assert(hosts[i] == whole);
            } else {
                let i = choose|i: int| 0 <= i < hosts.len() && hosts[i] == name;
                assert(hosts[i] == name);
            }
        }
        if exists|i: int|
            0 <= i < hosts.len() && (#[trigger] hosts[i] == whole || hosts[i] == name) {
            let i = choose|i: int|
                0 <= i < hosts.len() && (#[trigger] hosts[i] == whole || hosts[i] == name);
            assert(hosts.contains(hosts[i]));
        }
    }
}

/// What is added to a response is exactly what it lacks: a name that it has keeps
/// its value, any other gets the value that the policy gives it first, and no name
/// is added twice.
pub proof fn law_only_missing_headers_are_added(
    fields: Seq<(Seq<u8>, Seq<u8>)>,
    headers: Seq<(Seq<u8>, Seq<u8>)>,
    name: Seq<u8>,
)
    ensures
        first_value(with_missing(fields, headers), name) == match first_value(fields, name) {
            Some(value) => Some(value),
            None => first_value(headers, name),
        },
        fields.len() <= with_missing(fields, headers).len() <= fields.len() + headers.len(),
        forall|i: int|
            0 <= i < fields.len() ==> #[trigger] with_missing(fields, headers)[i] == fields[i],
        forall|i: int, j: int|
            fields.len() <= j < with_missing(fields, headers).len() && 0 <= i < j ==> (
            #[trigger] with_missing(fields, headers)[i]).0 != (
            #[trigger] with_missing(fields, headers)[j]).0,
    decreases headers.len(),
{
    if headers.len() > 0 {
        let last = headers.last();
        let earlier = with_missing(fields, headers.drop_last());
        let all = with_missing(fields, headers);
        law_only_missing_headers_are_added(fields, headers.drop_last(), name);
        law_only_missing_headers_are_added(fields, headers.drop_last(), last.0);
        lemma_first_value_push(headers.drop_last(), last, name);
        lemma_first_value_push(headers.drop_last(), last, last.0);
        assert(headers.drop_last().push(last) =~= headers);
        lemma_first_value_push(earlier, last, name);
        if first_value(earlier, last.0) is None {
            law_the_first_field_of_a_name_counts(earlier, last.0, 0);
            assert(all == earlier.push(last));
            assert forall|i: int| 0 <= i < fields.len() implies #[trigger] all[i] == fields[i] by {
                assert(all[i] == earlier[i]);
            }
            assert forall|i: int, j: int|
                fields.len() <= j < all.len() && 0 <= i < j implies (#[trigger] all[i]).0 != (
            #[trigger] all[j]).0 by {
                assert(all[i] == earlier[i]);
                if j < earlier.len() {
                    assert(all[j] == earlier[j]);
                }
            }
        }
    }
}

/// A policy with a limit on targets rejects a request with 414 exactly if its path
/// with the query has more bytes than that, or its path where it has no more than
/// that; one without such a limit never does. One that demands nothing lets every
/// request pass.
pub proof fn law_policies_measure_whole_targets(
    policy: NacelleHttpPolicy,
    max: usize,
    limited: NacelleHttpPolicy,
    head: HttpRequestHead,
    headers: HeaderMap,
    rejection: Option<HttpRejection>,
)
    requires
        call_ensures(NacelleHttpPolicy::with_max_uri_len, (policy, max), limited),
        call_ensures(
            NacelleHttpPolicy::validate_http_policy,
            (&limited, &head, &headers),
            rejection,
        ),
    ensures
        head.path_and_query matches Some(target) ==> ((rejection is Some && rejection->0.status
            == 414) <==> encode_utf8(target@).len() > max),
        head.path_and_query is None ==> ((rejection is Some && rejection->0.status == 414)
            <==> encode_utf8(head.path@).len() > max),
        no_rules().verdict(head, header_fields(headers)) is None,
{
    law_targets_are_measured_with_their_query(limited@, head, header_fields(headers));
}

/// Each setting of a policy sets its own demand and leaves the others alone.
pub proof fn law_policies_keep_their_other_demands(
    policy: NacelleHttpPolicy,
    max: usize,
    counted: NacelleHttpPolicy,
    sized: NacelleHttpPolicy,
    rated: NacelleHttpPolicy,
    bounded: NacelleHttpPolicy,
    target: NacelleHttpPolicy,
)
    requires
        call_ensures(NacelleHttpPolicy::with_max_header_count, (policy, max), counted),
        call_ensures(NacelleHttpPolicy::with_max_header_bytes, (policy, max), sized),
        call_ensures(
            NacelleHttpPolicy::with_max_requests_per_peer_per_second,
            (policy, max),
            rated,
        ),
        call_ensures(
            NacelleHttpPolicy::with_peer_rate_limit_table_capacity,
            (policy, max),
            bounded,
        ),
        call_ensures(NacelleHttpPolicy::with_max_uri_len, (policy, max), target),
    ensures
        counted@.max_header_count == Some(max),
        counted@ == (PolicyRules { max_header_count: Some(max), ..policy@ }),
        sized@.max_header_bytes == Some(max),
        sized@ == (PolicyRules { max_header_bytes: Some(max), ..policy@ }),
        target@.max_uri_len == Some(max),
        target@ == (PolicyRules { max_uri_len: Some(max), ..policy@ }),
        rated@.max_requests_per_peer_per_second is Some,
        max > 0 ==> rated@.max_requests_per_peer_per_second == Some(max),
        max == 0 ==> rated@.max_requests_per_peer_per_second == Some(1usize),
        rated@ == (PolicyRules {
            max_requests_per_peer_per_second: rated@.max_requests_per_peer_per_second,
            ..policy@
        }),
        max > 0 ==> bounded@.peer_rate_limit_table_capacity == max,
        max == 0 ==> bounded@.peer_rate_limit_table_capacity == 1,
        bounded@ == (PolicyRules {
            peer_rate_limit_table_capacity: bounded@.peer_rate_limit_table_capacity,
            ..policy@
        }),
{
}

/// A request for a host that was allowed passes the rule on hosts, in whatever case
/// either is written and with or without dots at its end.
pub proof fn law_allowed_hosts_pass(
    policy: NacelleHttpPolicy,
    hosts: Vec<String>,
    limited: NacelleHttpPolicy,
    index: int,
    fields: Seq<(Seq<u8>, Seq<u8>)>,
    value: Seq<u8>,
)
    requires
        call_ensures(NacelleHttpPolicy::with_allowed_hosts, (policy, hosts), limited),
        0 <= index < hosts@.len(),
        first_value(fields, encode_utf8("host"@)) == Some(value),
        folded_host(value) == folded_host(encode_utf8(hosts@[index]@)),
        forall|i: int| 0 <= i < value.len() ==> 32 <= #[trigger] value[i] <= 126 || value[i] == 9,
    ensures
        limited@.hosts is Some,
        host_is_allowed(limited@.hosts->0, fields),
        limited@ == (PolicyRules { hosts: limited@.hosts, ..policy@ }),
{
    assert(limited@.hosts->0[index] == folded_host(encode_utf8(hosts@[index]@)));
    assert(limited@.hosts->0.contains(folded_host(value)));
}

/// What a proxy says is tried in order: what `Forwarded` offers before what
/// `X-Forwarded-For` does. Where the request has no `Forwarded` header and a visible
/// `X-Forwarded-For`, the first text is the first element of that, without the
/// blanks around it.
pub proof fn law_forwarded_texts_are_tried_in_order(
    headers: HeaderMap,
    texts: Vec<Vec<u8>>,
    value: Seq<u8>,
    element: Seq<u8>,
)
    requires
        call_ensures(forwarded_peer_texts, (&headers,), texts),
    ensures
        texts@.len() == forwarded_texts(header_fields(headers)).len() + x_forwarded_texts(
            header_fields(headers),
        ).len(),
        forall|i: int|
            0 <= i < forwarded_texts(header_fields(headers)).len() ==> (#[trigger] texts@[i])@
                == forwarded_texts(header_fields(headers))[i],
        first_value(header_fields(headers), encode_utf8("forwarded"@)) is None && first_value(
            header_fields(headers),
            encode_utf8("x-forwarded-for"@),
        ) == Some(value) && is_first_part(value, 44, element) && (forall|i: int|
            0 <= i < value.len() ==> 32 <= #[trigger] value[i] <= 126 || value[i] == 9)
            ==> texts@.len() > 0 && is_stripped(element, texts@[0]@, 32, 9),
{
    let fields = header_fields(headers);
    let views = byte_texts(texts@);
    assert(forall|i: int| 0 <= i < views.len() ==> #[trigger] views[i] == texts@[i]@);
    assert(views == forwarded_texts(fields) + x_forwarded_texts(fields));
    assert(views.len() == texts@.len());
    law_absent_headers_offer_nothing(fields);
    assert forall|i: int| 0 <= i < forwarded_texts(fields).len() implies (#[trigger] texts@[i])@
        == forwarded_texts(fields)[i] by {
        assert(views[i] == texts@[i]@);
    }
    if first_value(fields, encode_utf8("forwarded"@)) is None && first_value(
        fields,
        encode_utf8("x-forwarded-for"@),
    ) == Some(value) && is_first_part(value, 44, element) && (forall|i: int|
        0 <= i < value.len() ==> 32 <= #[trigger] value[i] <= 126 || value[i] == 9) {
        law_the_first_forwarded_element_is_tried(fields, value, element);
        assert(views[0] == x_forwarded_texts(fields)[0]);
    }
}

/// The peer of a request is that of its socket, unless that is trusted and names
/// another.
pub proof fn law_only_trusted_peers_name_another(
    policy: NacelleHttpPolicy,
    ips: Vec<IpAddr>,
    trusting: NacelleHttpPolicy,
    socket_peer: Option<IpAddr>,
    parsed: Vec<Option<IpAddr>>,
    peer: Option<IpAddr>,
    index: int,
)
    requires
        call_ensures(NacelleHttpPolicy::with_trusted_proxy_ips, (policy, ips), trusting),
        call_ensures(effective_peer_ip, (&trusting, socket_peer, &parsed), peer),
    ensures
        socket_peer is None ==> peer is None,
        socket_peer matches Some(own) ==> {
            let trusted = exists|i: int| 0 <= i < ips@.len() && #[trigger] ips@[i] == own;
            &&& !trusted ==> peer == Some(own)
            &&& trusted && 0 <= index < parsed@.len() && parsed@[index] is Some && (forall|i: int|
                0 <= i < index ==> (#[trigger] parsed@[i]) is None) ==> peer == parsed@[index]
            &&& trusted && (forall|i: int|
                0 <= i < parsed@.len() ==> (#[trigger] parsed@[i]) is None) ==> peer == Some(own)
        },
        trusting@ == (PolicyRules { trusted_proxies: trusting@.trusted_proxies, ..policy@ }),
{
    if let Some(own) = socket_peer {
        if exists|i: int| 0 <= i < ips@.len() && #[trigger] ips@[i] == own {
            assert(ips@.contains(own));
            law_trusted_proxies_are_believed(trusting@, own, parsed@, index);
        } else {
            assert(!ips@.contains(own));
        }
    }
}

/// Whenever `Forwarded` is visible text whose first element begins with a `for`
/// parameter, alone or with others behind a semicolon, the first text tried from it
/// is the parameter's value without blanks and quotes around it, whatever characters
/// it holds.
pub proof fn law_forwarded_for_values_are_tried(
    fields: Seq<(Seq<u8>, Seq<u8>)>,
    header: Seq<u8>,
    name: Seq<u8>,
    value: Seq<u8>,
    others: Option<Seq<u8>>,
)
    requires
        first_value(fields, encode_utf8("forwarded"@)) == Some(header),
        forall|i: int|
            0 <= i < header.len() ==> 32 <= #[trigger] header[i] <= 126 || header[i] == 9,
        is_first_part(
            header,
            44,
            match others {
                Some(others) => name + seq![61u8] + value + seq![59u8] + others,
                None => name + seq![61u8] + value,
            },
        ),
        spells_for(trim(name)),
        !name.contains(61),
        !name.contains(59),
        !value.contains(59),
    ensures
        forwarded_texts(fields).len() > 0,
        exists|unquoted: Seq<u8>| #[trigger]
            is_stripped(trim(value), unquoted, 34, 34) && is_stripped(
                unquoted,
                forwarded_texts(fields)[0],
                32,
                9,
            ),
{
    let element = match others {
        Some(others) => name + seq![61u8] + value + seq![59u8] + others,
        None => name + seq![61u8] + value,
    };
    match others {
        Some(others) => {
            lemma_followed_parameter(name, value, others);
        },
        None => {
            lemma_lone_parameter(name, value);
        },
    }
    law_the_forwarded_value_is_tried(fields, header, element);
    let unquoted = for_parameter(trim(element))->0;
    assert(is_stripped(trim(value), unquoted, 34, 34));
}

/// A name without the blanks before it holds nothing new.
proof fn lemma_own_name(name: Seq<u8>)
    requires
        !name.contains(61),
        !name.contains(59),
    ensures
        !trim_start(name, 32, 9).contains(61),
        !trim_start(name, 32, 9).contains(59),
        trim(trim_start(name, 32, 9)) == trim(name),
{
    let own = trim_start(name, 32, 9);
    law_leading_bytes_are_cut(name, 32, 9);
    lemma_trim_after_cutting(name);
    let cut = name.len() - own.len();
    if own.contains(61) {
        let at = choose|i: int| 0 <= i < own.len() && own[i] == 61;
        assert(name[cut + at] == 61);
    }
    if own.contains(59) {
        let at = choose|i: int| 0 <= i < own.len() && own[i] == 59;
        assert(name[cut + at] == 59);
    }
}

/// A `for` parameter that stands alone is found whatever blanks are around it.
proof fn lemma_lone_parameter(name: Seq<u8>, value: Seq<u8>)
    requires
        spells_for(trim(name)),
        !name.contains(61),
        !name.contains(59),
        !value.contains(59),
    ensures
        for_parameter(trim(name + seq![61u8] + value)) is Some,
        is_stripped(
            trim(value),
            for_parameter(trim(name + seq![61u8] + value))->0,
            34,
            34,
        ),
{
    let own = trim_start(name, 32, 9);
    let given = trim_end(value, 32, 9);
    assert(trim(name + seq![61u8] + value) == own + seq![61u8] + given) by {
        lemma_start_of_pair(name, 61, value);
        lemma_end_of_pair(own, 61, value);
    }
    assert(!given.contains(59)) by {
        law_trailing_bytes_are_cut(value, 32, 9);
        if given.contains(59) {
            let at = choose|i: int| 0 <= i < given.len() && given[i] == 59;
            assert(value[at] == 59);
        }
    }
    assert(trim(given) == trim(value)) by {
        lemma_trim_after_cutting(value);
    }
    lemma_own_name(name);
    law_for_parameters_are_found(own, given, Seq::empty());
}

/// A `for` parameter with others behind it is found whatever blanks are around it.
proof fn lemma_followed_parameter(name: Seq<u8>, value: Seq<u8>, others: Seq<u8>)
    requires
        spells_for(trim(name)),
        !name.contains(61),
        !name.contains(59),
        !value.contains(59),
    ensures
        for_parameter(trim(name + seq![61u8] + value + seq![59u8] + others)) is Some,
        is_stripped(
            trim(value),
            for_parameter(trim(name + seq![61u8] + value + seq![59u8] + others))->0,
            34,
            34,
        ),
{
    let own = trim_start(name, 32, 9);
    let rest = trim_end(others, 32, 9);
    let pair = own + seq![61u8] + value;
    let element = name + seq![61u8] + value + seq![59u8] + others;
    assert(trim(element) == pair + seq![59u8] + rest) by {
        let tail = value + seq![59u8] + others;
        assert(element =~= name + seq![61u8] + tail);
        lemma_start_of_pair(name, 61, tail);
        assert(own + seq![61u8] + tail =~= pair + seq![59u8] + others);
        lemma_end_of_pair(pair, 59, others);
    }
    lemma_own_name(name);
    law_for_parameters_are_found(own, value, rest);
}

} // verus!
