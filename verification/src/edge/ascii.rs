//! Cutting and folding ASCII text in header values.
use vstd::prelude::*;

verus! {

/// An ASCII letter in lower case; any other byte as it is.
pub open spec fn lower_byte(byte: u8) -> u8 {
    if 65 <= byte <= 90 {
        (byte + 32) as u8
    } else {
        byte
    }
}

/// Text with its ASCII letters in lower case.
pub open spec fn lower(text: Seq<u8>) -> Seq<u8> {
    text.map_values(|byte: u8| lower_byte(byte))
}

/// Whether text is visible ASCII, blanks and tabs.
pub open spec fn visible(text: Seq<u8>) -> bool {
    forall|i: int| 0 <= i < text.len() ==> 32 <= #[trigger] text[i] < 127 || text[i] == 9
}

/// Text without leading bytes that are `first` or `second`.
pub open spec fn trim_start(text: Seq<u8>, first: u8, second: u8) -> Seq<u8>
    decreases text.len(),
{
    if text.len() > 0 && (text[0] == first || text[0] == second) {
        trim_start(text.skip(1), first, second)
    } else {
        text
    }
}

/// Text without trailing bytes that are `first` or `second`.
pub open spec fn trim_end(text: Seq<u8>, first: u8, second: u8) -> Seq<u8>
    decreases text.len(),
{
    if text.len() > 0 && (text.last() == first || text.last() == second) {
        trim_end(text.drop_last(), first, second)
    } else {
        text
    }
}

/// Text without blanks and tabs around it.
pub open spec fn trim(text: Seq<u8>) -> Seq<u8> {
    trim_end(trim_start(text, 32, 9), 32, 9)
}

/// What stands before the first `mark`; all of it where there is none.
pub open spec fn before(text: Seq<u8>, mark: u8) -> Seq<u8> {
    match text.index_of_first(mark) {
        Some(place) => text.take(place),
        None => text,
    }
}

/// Whether text is visible ASCII, blanks and tabs.
pub fn is_visible(text: &[u8]) -> (yes: bool)
    ensures
        yes == visible(text@),
{
    let mut index: usize = 0;
    while index < text.len()
        invariant
            index <= text.len(),
            forall|i: int| 0 <= i < index ==> 32 <= #[trigger] text@[i] < 127 || text@[i] == 9,
        decreases text.len() - index,
    {
        let byte: u8 = text[index];
        if !((byte >= 32 && byte < 127) || byte == 9) {
            return false;
        }
        index += 1;
    }
    true
}

/// Text with its ASCII letters in lower case.
pub fn to_lower(text: &[u8]) -> (folded: Vec<u8>)
    ensures
        folded@ == lower(text@),
{
    let mut folded: Vec<u8> = Vec::new();
    let mut index: usize = 0;
    while index < text.len()
        invariant
            index <= text.len(),
            folded@ == lower(text@.take(index as int)),
        decreases text.len() - index,
    {
        let byte: u8 = text[index];
        if byte >= 65 && byte <= 90 {
            folded.push(byte + 32);
        } else {
            folded.push(byte);
        }
        index += 1;
        assert(folded@ =~= lower(text@.take(index as int)));
    }
    assert(text@.take(text@.len() as int) =~= text@);
    folded
}

/// The first place of `mark`.
pub fn find_byte(text: &[u8], mark: u8) -> (place: Option<usize>)
    ensures
        match place {
            Some(place) => text@.index_of_first(mark) == Some(place as int) && place < text@.len(),
            None => text@.index_of_first(mark) is None,
        },
{
    let mut index: usize = 0;
    while index < text.len()
        invariant
            index <= text.len(),
            forall|i: int| 0 <= i < index ==> text@[i] != mark,
        decreases text.len() - index,
    {
        if text[index] == mark {
            proof {
                assert(text@[index as int] == mark);
                text@.index_of_first_ensures(mark);
            }
            return Some(index);
        }
        index += 1;
    }
    proof {
        text@.index_of_first_ensures(mark);
    }
    None
}

/// The last place of `mark`.
pub fn find_last_byte(text: &[u8], mark: u8) -> (place: Option<usize>)
    ensures
        match place {
            Some(place) => text@.index_of_last(mark) == Some(place as int) && place < text@.len(),
            None => text@.index_of_last(mark) is None,
        },
{
    let mut index: usize = text.len();
    while index > 0
        invariant
            index <= text.len(),
            forall|i: int| index <= i < text.len() ==> text@[i] != mark,
        decreases index,
    {
        index -= 1;
        if text[index] == mark {
            proof {
                assert(text@[index as int] == mark);
                text@.index_of_last_ensures(mark);
            }
            return Some(index);
        }
    }
    proof {
        text@.index_of_last_ensures(mark);
    }
    None
}

/// What stands before the first `mark`; all of it where there is none.
pub fn part_before(text: &[u8], mark: u8) -> (part: &[u8])
    ensures
        part@ == before(text@, mark),
{
    match find_byte(text, mark) {
        Some(place) => {
            let part = vstd::slice::slice_subrange(text, 0, place);
            assert(part@ =~= text@.take(place as int));
            part
        },
        None => text,
    }
}

/// What stands behind `place`.
pub fn part_after(text: &[u8], place: usize) -> (part: &[u8])
    requires
        place < text@.len(),
    ensures
        part@ == text@.skip(place + 1),
{
    let len: usize = text.len();
    let part = vstd::slice::slice_subrange(text, place + 1, len);
    assert(part@ =~= text@.skip(place + 1));
    part
}

/// Text without leading bytes that are `first` or `second`.
pub fn without_leading(text: &[u8], first: u8, second: u8) -> (part: &[u8])
    ensures
        part@ == trim_start(text@, first, second),
{
    let mut index: usize = 0;
    assert(text@.skip(0) =~= text@);
    while index < text.len() && (text[index] == first || text[index] == second)
        invariant
            index <= text.len(),
            trim_start(text@, first, second) == trim_start(text@.skip(index as int), first, second),
        decreases text.len() - index,
    {
        assert(text@.skip(index as int).skip(1) =~= text@.skip(index + 1));
        index += 1;
    }
    let part = vstd::slice::slice_subrange(text, index, text.len());
    assert(part@ =~= text@.skip(index as int));
    part
}

/// Text without trailing bytes that are `first` or `second`.
pub fn without_trailing(text: &[u8], first: u8, second: u8) -> (part: &[u8])
    ensures
        part@ == trim_end(text@, first, second),
{
    let mut index: usize = text.len();
    assert(text@.take(text@.len() as int) =~= text@);
    while index > 0 && (text[index - 1] == first || text[index - 1] == second)
        invariant
            index <= text.len(),
            trim_end(text@, first, second) == trim_end(text@.take(index as int), first, second),
        decreases index,
    {
        assert(text@.take(index as int).drop_last() =~= text@.take(index - 1));
        index -= 1;
    }
    let part = vstd::slice::slice_subrange(text, 0, index);
    assert(part@ =~= text@.take(index as int));
    part
}

/// Text without blanks and tabs around it.
pub fn trimmed(text: &[u8]) -> (part: &[u8])
    ensures
        part@ == trim(text@),
{
    without_trailing(without_leading(text, 32, 9), 32, 9)
}

} // verus!
